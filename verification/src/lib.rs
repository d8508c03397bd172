//! The rules of the Rubric Comment Queue server, verified: what each
//! response carries, which licenses are accepted, which backups are stored
//! and under which key, and how the server is configured.

pub mod auth;
pub mod backup;
pub mod cache;
pub mod config;
pub mod error;
pub mod headers;
pub mod migrate;
pub mod routes;
pub mod text;
