# Rubric Comment Queue server

The backend of Rubric Comment Queue: it serves the frontend, counts page
views and keeps one encrypted backup per license.

- `src/` is the verified library (Verus): caching and security headers per
  path, the route tables, license extraction from `Authorization` and the
  billing decision steps, backup payload validation and storage keys,
  runtime settings, and the migration retry rule.
- `app/` is the server around it: axum routing and middleware, SQLite through
  sqlx, the billing request through reqwest, the rate limiter, signals.
- `tests/` runs the library on concrete inputs.
