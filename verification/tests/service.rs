use rubric_comment_queue::auth::{
    begin_authorization, bearer_token, check_billing_status, finish_authorization,
    verification_url, AuthStep,
};
use rubric_comment_queue::backup::{
    backup_record, check_payload_fields, found_backup, hex_encode, read_payload_fields, token_hash,
    validate_payload, BackupOutput, JsonMember, PayloadFields,
};
use rubric_comment_queue::cache::{cache_control_for, cache_policy_for, CachePolicy};
use rubric_comment_queue::config::{
    build_identity, database_file_path, default_database_url, env_or_default, health,
    parse_port, port_or_default, sqlite_parent,
};
use rubric_comment_queue::error::{storage_failure, ApiError};
use rubric_comment_queue::headers::{default_headers, security_headers};
use rubric_comment_queue::migrate::{
    after_migration_attempt, first_migration_attempt, MigrationEvent, MigrationStep,
    MIGRATION_ATTEMPTS,
};
use rubric_comment_queue::routes::{
    app_shell_routes, not_found_page, static_file_routes, API_BODY_LIMIT, MAX_BACKUP_BYTES,
    RATE_LIMIT_BURST, RATE_LIMIT_PERIOD_MS,
};

const VALID_PAYLOAD: &str =
    r#"{"v":1,"salt":"abcdefghijklmnop","iv":"abcdefghijkl","data":"ciphertext"}"#;

#[test]
fn configuration_defaults_have_explicit_provenance() {
    // What the environment holds for a setting that is not set.
    let (value, source) = env_or_default(None, "fallback");
    assert_eq!(value, "fallback");
    assert_eq!(source, "default");
}

#[test]
fn supplied_settings_are_labelled_and_empty_ones_fall_back() {
    let (value, source) = env_or_default(Some("https://billing.example".to_string()), "x");
    assert_eq!(value, "https://billing.example");
    assert_eq!(source, "supplied");
    let (value, source) = env_or_default(Some(String::new()), "dist");
    assert_eq!(value, "dist");
    assert_eq!(source, "default");
}

#[test]
fn port_is_parsed_like_u16() {
    assert_eq!(parse_port("8080"), Some(8080));
    assert_eq!(parse_port("+80"), Some(80));
    assert_eq!(parse_port("0"), Some(0));
    assert_eq!(parse_port("65535"), Some(65535));
    assert_eq!(parse_port("0065535"), Some(65535));
    assert_eq!(parse_port("65536"), None);
    assert_eq!(parse_port("99999999999"), None);
    assert_eq!(parse_port(""), None);
    assert_eq!(parse_port("+"), None);
    assert_eq!(parse_port("-1"), None);
    assert_eq!(parse_port(" 80"), None);
    assert_eq!(parse_port("80a"), None);
    for text in ["1", "443", "+8080", "65535", "65536", "-0", "12ab", "", "٣"] {
        assert_eq!(parse_port(text), text.parse::<u16>().ok(), "{text}");
    }
}

#[test]
fn port_falls_back_to_the_default() {
    assert_eq!(port_or_default(None), (8080, "default"));
    assert_eq!(port_or_default(Some("3000".to_string())), (3000, "supplied"));
    assert_eq!(port_or_default(Some("seventy".to_string())), (8080, "default"));
}

#[test]
fn default_database_lives_in_the_data_volume_when_mounted() {
    assert_eq!(
        default_database_url(true),
        "sqlite:///data/rubric-comment-queue.db?mode=rwc&vfs=unix-dotfile"
    );
    assert_eq!(
        default_database_url(false),
        "sqlite://data/rubric-comment-queue.db?mode=rwc"
    );
    assert_eq!(
        sqlite_parent(&default_database_url(true)),
        Some("/data".to_string())
    );
    assert_eq!(
        sqlite_parent(&default_database_url(false)),
        Some("data".to_string())
    );
}

#[test]
fn sqlite_parent_only_for_files_in_a_directory() {
    assert_eq!(
        database_file_path("sqlite://a/b.db?mode=rwc"),
        Some("a/b.db".to_string())
    );
    assert_eq!(database_file_path("sqlite://a/b.db"), Some("a/b.db".to_string()));
    assert_eq!(database_file_path("postgres://x"), None);
    assert_eq!(sqlite_parent("sqlite://plain.db?mode=rwc"), None);
    assert_eq!(sqlite_parent("sqlite::memory:"), None);
    assert_eq!(sqlite_parent("sqlite:///"), None);
    assert_eq!(
        sqlite_parent("sqlite:///srv/app/db/x.db"),
        Some("/srv/app/db".to_string())
    );
}

#[test]
fn health_reports_ok() {
    let report = health(None);
    assert_eq!(report.status, "ok");
    assert_ne!(report.build_sha, "unknown");
    assert_eq!(report.build_sha, "development");
    assert_eq!(health(Some("abc123")).build_sha, "abc123");
}

#[test]
fn build_identity_never_reports_unknown() {
    assert_eq!(build_identity(Some("unknown")), "development");
    assert_eq!(build_identity(Some("")), "development");
    assert_eq!(build_identity(None), "development");
    assert_eq!(build_identity(Some("0a1b2c")), "0a1b2c");
}

#[test]
fn caching_keeps_release_documents_fresh_and_assets_immutable() {
    for (path, expected) in [
        ("/", "no-cache"),
        ("/privacy", "no-cache"),
        ("/terms", "no-cache"),
        ("/health", "no-store"),
        ("/api/health", "no-store"),
        (
            "/assets/index-abcd1234.js",
            "public, max-age=31536000, immutable",
        ),
        (
            "/queue-desk-640.webp",
            "public, max-age=31536000, immutable",
        ),
        ("/mark.svg", "public, max-age=31536000, immutable"),
        ("/sw.js", "no-cache"),
    ] {
        assert_eq!(
            cache_control_for(path),
            Some(expected),
            "unexpected cache policy for {path}"
        );
    }
}

#[test]
fn cache_rules_apply_in_order() {
    assert_eq!(cache_control_for("/api/backup.js"), Some("no-store"));
    assert_eq!(cache_control_for("/guide/page.html"), Some("no-cache"));
    assert_eq!(cache_control_for("/fonts/a.woff2"), Some("public, max-age=31536000, immutable"));
    assert_eq!(cache_control_for("/missing-page"), None);
    assert_eq!(cache_control_for("/archive.tar.gz"), None);
    assert_eq!(cache_control_for("/api"), None);
    assert_eq!(cache_control_for("/healthz"), None);
    assert_eq!(cache_policy_for("/a.b/c"), None);
    assert_eq!(cache_policy_for("/x.JPG"), None);
    assert_eq!(cache_policy_for("/x.jpeg"), Some(CachePolicy::Immutable));
}

#[test]
fn sends_hsts_with_the_secure_response_policy() {
    let headers = security_headers("/");
    assert!(headers.contains(&(
        "strict-transport-security",
        "max-age=31536000; includeSubDomains"
    )));
    assert!(headers.contains(&("cache-control", "no-cache")));
    assert!(headers.contains(&("referrer-policy", "no-referrer")));
    assert_eq!(headers.len(), 6);
    let headers = security_headers("/missing-page");
    assert_eq!(headers.len(), 5);
    assert!(!headers.iter().any(|(name, _)| *name == "cache-control"));
    assert_eq!(default_headers(), vec![("x-content-type-options", "nosniff")]);
}

#[test]
fn known_routes_use_the_app_shell_and_unknown_routes_return_the_designed_404() {
    assert_eq!(app_shell_routes(), vec!["/", "/demo", "/privacy", "/terms"]);
    let files = static_file_routes();
    assert_eq!(files.len(), 9);
    assert!(files.contains(&("/sw.js", "sw.js")));
    assert!(!files.iter().any(|(route, _)| *route == "/missing-page"));
    for route in app_shell_routes() {
        assert_eq!(cache_control_for(route), Some("no-cache"));
    }
    for (route, _) in files {
        assert!(cache_control_for(route).is_some(), "{route}");
    }
    assert!(not_found_page(None).contains("Page not found"));
    assert_eq!(not_found_page(Some("<p>gone</p>".to_string())), "<p>gone</p>");
}

#[test]
fn body_limit_leaves_room_for_the_json_framing() {
    assert_eq!(MAX_BACKUP_BYTES, 5_000_000);
    assert_eq!(API_BODY_LIMIT, MAX_BACKUP_BYTES + 2048);
}

#[test]
fn rejects_missing_license() {
    assert_eq!(bearer_token(None), Err(ApiError::Unauthorized));
    match begin_authorization(None, true, "https://billing.example") {
        AuthStep::Reject(e) => assert_eq!(e, ApiError::Unauthorized),
        _ => panic!("a request without a license must be refused"),
    }
}

#[test]
fn bearer_tokens_are_trimmed_and_bounded() {
    assert_eq!(
        bearer_token(Some(b"Bearer valid-test-license")),
        Ok(b"valid-test-license".to_vec())
    );
    assert_eq!(
        bearer_token(Some(b"Bearer  \tvalid-test-license \t ")),
        Ok(b"valid-test-license".to_vec())
    );
    assert_eq!(bearer_token(Some(b"bearer valid-test-license")), Err(ApiError::Unauthorized));
    assert_eq!(bearer_token(Some(b"Bearer short")), Err(ApiError::Unauthorized));
    assert_eq!(bearer_token(Some(b"Bearer 123456789012")), Ok(b"123456789012".to_vec()));
    assert_eq!(bearer_token(Some(b"Bearer valid-test-\x01cense")), Err(ApiError::Unauthorized));
    assert_eq!(bearer_token(Some("Bearer valid-tëst-license".as_bytes())), Err(ApiError::Unauthorized));
    let long = format!("Bearer {}", "x".repeat(2048));
    assert_eq!(bearer_token(Some(long.as_bytes())).map(|t| t.len()), Ok(2048));
    let too_long = format!("Bearer {}", "x".repeat(2049));
    assert_eq!(bearer_token(Some(too_long.as_bytes())), Err(ApiError::Unauthorized));
}

#[test]
fn billing_is_asked_only_when_enabled() {
    match begin_authorization(Some(b"Bearer valid-test-license"), false, "") {
        AuthStep::Accept(l) => assert_eq!(l, b"valid-test-license".to_vec()),
        _ => panic!("without billing checks a well-formed license is accepted"),
    }
    match begin_authorization(
        Some(b"Bearer valid-test-license"),
        true,
        "https://api.sociobot.in/api/v1//",
    ) {
        AuthStep::AskBilling { url, license } => {
            assert_eq!(
                url,
                "https://api.sociobot.in/api/v1/products/rubric-comment-queue/verify"
            );
            assert_eq!(license, b"valid-test-license".to_vec());
        }
        _ => panic!("billing must be asked"),
    }
    assert_eq!(verification_url(""), "/products/rubric-comment-queue/verify");
}

#[test]
fn billing_answers_decide_the_license() {
    assert_eq!(check_billing_status(None), Err(ApiError::VerificationUnavailable));
    assert_eq!(check_billing_status(Some(503)), Err(ApiError::VerificationUnavailable));
    assert_eq!(check_billing_status(Some(302)), Err(ApiError::VerificationUnavailable));
    assert_eq!(check_billing_status(Some(200)), Ok(()));
    assert_eq!(check_billing_status(Some(204)), Ok(()));
    let l = b"valid-test-license".to_vec();
    assert_eq!(finish_authorization(l.clone(), Some(true)), Ok(l.clone()));
    assert_eq!(finish_authorization(l.clone(), Some(false)), Err(ApiError::Unauthorized));
    assert_eq!(finish_authorization(l, None), Err(ApiError::VerificationUnavailable));
}

#[test]
fn errors_map_to_statuses_and_messages() {
    assert_eq!(ApiError::Unauthorized.status_code(), 401);
    assert_eq!(ApiError::NotFound.status_code(), 404);
    assert_eq!(ApiError::InvalidPayload.status_code(), 422);
    assert_eq!(ApiError::VerificationUnavailable.status_code(), 503);
    assert_eq!(ApiError::Internal.status_code(), 500);
    assert_eq!(ApiError::Unauthorized.message(), "authorization required");
    assert_eq!(ApiError::NotFound.message(), "backup not found");
    assert_eq!(ApiError::InvalidPayload.message(), "invalid backup payload");
    assert_eq!(
        ApiError::VerificationUnavailable.message(),
        "license verification is temporarily unavailable"
    );
    assert_eq!(ApiError::Internal.message(), "service error");
}

#[test]
fn payload_envelope_is_checked() {
    assert_eq!(validate_payload(VALID_PAYLOAD), Ok(()));
    let cases = [
        r#"{"v":2,"salt":"abcdefghijklmnop","iv":"abcdefghijkl","data":"ciphertext"}"#,
        r#"{"v":1.0,"salt":"abcdefghijklmnop","iv":"abcdefghijkl","data":"ciphertext"}"#,
        r#"{"v":1,"salt":"abcdefghijklmno","iv":"abcdefghijkl","data":"ciphertext"}"#,
        r#"{"v":1,"salt":"abcdefghijklmnop","iv":"abcdefghijk","data":"ciphertext"}"#,
        r#"{"v":1,"salt":"abcdefghijklmnop","iv":"abcdefghijkl","data":""}"#,
        r#"{"v":1,"salt":"abcdefghijklmnop","iv":"abcdefghijkl"}"#,
        r#"{"v":1,"salt":16,"iv":"abcdefghijkl","data":"x"}"#,
        r#"[1,2,3]"#,
        "not json",
        "",
    ];
    for case in cases {
        assert_eq!(validate_payload(case), Err(ApiError::InvalidPayload), "{case}");
    }
    // Lengths count bytes: eight two-byte characters make a 16-byte salt.
    assert_eq!(
        validate_payload(r#"{"v":1,"salt":"éééééééé","iv":"abcdefghijkl","data":"x"}"#),
        Ok(())
    );
    let huge = format!(
        r#"{{"v":1,"salt":"abcdefghijklmnop","iv":"abcdefghijkl","data":"{}"}}"#,
        "a".repeat(MAX_BACKUP_BYTES)
    );
    assert_eq!(validate_payload(&huge), Err(ApiError::InvalidPayload));
}

#[test]
fn payload_fields_decide_validity() {
    let text = |s: &str| JsonMember::Text(s.to_string());
    let fields = |v: JsonMember, salt: JsonMember, iv: JsonMember, data: JsonMember| {
        PayloadFields { version: v, salt, iv, data }
    };
    assert_eq!(
        check_payload_fields(&fields(
            JsonMember::Unsigned(1),
            text("abcdefghijklmnop"),
            text("abcdefghijkl"),
            text("c")
        )),
        Ok(())
    );
    assert_eq!(
        check_payload_fields(&fields(
            JsonMember::Other,
            text("abcdefghijklmnop"),
            text("abcdefghijkl"),
            text("c")
        )),
        Err(ApiError::InvalidPayload)
    );
    assert_eq!(
        check_payload_fields(&fields(
            JsonMember::Unsigned(1),
            JsonMember::Unsigned(16),
            text("abcdefghijkl"),
            text("c")
        )),
        Err(ApiError::InvalidPayload)
    );
    assert_eq!(
        check_payload_fields(&fields(
            JsonMember::NotJson,
            JsonMember::NotJson,
            JsonMember::NotJson,
            JsonMember::NotJson
        )),
        Err(ApiError::InvalidPayload)
    );
}

#[test]
fn payload_members_are_read_by_name() {
    let f = read_payload_fields(VALID_PAYLOAD);
    assert!(matches!(f.version, JsonMember::Unsigned(1)));
    assert!(matches!(&f.salt, JsonMember::Text(s) if s == "abcdefghijklmnop"));
    assert!(matches!(&f.iv, JsonMember::Text(s) if s == "abcdefghijkl"));
    assert!(matches!(&f.data, JsonMember::Text(s) if s == "ciphertext"));
    let f = read_payload_fields(r#"{"v":-1,"salt":null}"#);
    assert!(matches!(f.version, JsonMember::Other));
    assert!(matches!(f.salt, JsonMember::Other));
    assert!(matches!(f.iv, JsonMember::Absent));
    let f = read_payload_fields("[1]");
    assert!(matches!(f.version, JsonMember::Absent));
    let f = read_payload_fields("{");
    assert!(matches!(f.data, JsonMember::NotJson));
    // Member order and extra members do not matter.
    assert_eq!(
        validate_payload(
            r#"{"data":"ciphertext","extra":[1,2],"iv":"abcdefghijkl","salt":"abcdefghijklmnop","v":1}"#
        ),
        Ok(())
    );
}

#[test]
fn token_hash_is_sha256_in_lowercase_hex() {
    assert_eq!(
        token_hash(b"abc"),
        "ba7816bf8f01cfea414140de5dae2223b00361a396177a9cb410ff61f20015ad"
    );
    assert_eq!(
        token_hash(b""),
        "e3b0c44298fc1c149afbf4c8996fb92427ae41e4649b934ca495991b7852b855"
    );
}

#[test]
fn backup_round_trip_and_delete() {
    let license = b"valid-test-license";
    let record = backup_record(license, VALID_PAYLOAD.to_string()).unwrap();
    assert_eq!(record.payload, VALID_PAYLOAD);
    // Reads and deletes look the backup up under the same key.
    assert_eq!(record.license_hash, token_hash(license));
    assert_eq!(record.license_hash.len(), 64);
    let stored = BackupOutput {
        payload: record.payload.clone(),
        updated_at: "2099-01-01T00:00:00+00:00".to_string(),
    };
    let answer = found_backup(Some(stored)).unwrap();
    assert_eq!(answer.payload, VALID_PAYLOAD);
    assert!(matches!(found_backup(None), Err(ApiError::NotFound)));
    assert!(matches!(
        backup_record(license, "{}".to_string()),
        Err(ApiError::InvalidPayload)
    ));
}

#[test]
fn encrypted_backups_are_isolated_by_license_hash() {
    let a = backup_record(b"valid-license-tenant-a", VALID_PAYLOAD.to_string()).unwrap();
    let b = backup_record(b"valid-license-tenant-b", VALID_PAYLOAD.to_string()).unwrap();
    assert_ne!(a.license_hash, b.license_hash);
    assert!(!a.license_hash.contains("tenant"));
}

#[test]
fn concurrent_startup_migrations_recover_from_sqlite_lock_contention() {
    let mut attempt = first_migration_attempt();
    let mut tries = 1;
    loop {
        match after_migration_attempt(attempt, MigrationEvent::MigrationFailed) {
            MigrationStep::Retry { next_attempt, delay_seconds } => {
                assert_eq!(next_attempt, attempt + 1);
                assert_eq!(delay_seconds, 2);
                attempt = next_attempt;
                tries += 1;
            }
            MigrationStep::Fail => break,
            MigrationStep::Succeed => unreachable!(),
        }
    }
    assert_eq!(tries, MIGRATION_ATTEMPTS);
    assert_eq!(
        after_migration_attempt(3, MigrationEvent::Migrated),
        MigrationStep::Succeed
    );
    assert_eq!(
        after_migration_attempt(1, MigrationEvent::ConnectFailed),
        MigrationStep::Fail
    );
}


#[test]
fn rate_limit_allows_a_burst_of_forty_then_one_request_per_fifty_ms() {
    assert_eq!(RATE_LIMIT_PERIOD_MS, 50);
    assert_eq!(RATE_LIMIT_BURST, 40);
}

#[test]
fn hex_encoding_is_lowercase_high_half_first() {
    assert_eq!(hex_encode(b"Hello world!"), "48656c6c6f20776f726c6421");
    assert_eq!(hex_encode(&[1, 2, 3, 15, 16, 255]), "0102030f10ff");
    assert_eq!(hex_encode(&[]), "");
}

#[test]
fn database_failures_answer_internal() {
    assert_eq!(storage_failure(), ApiError::Internal);
    assert_eq!(storage_failure().status_code(), 500);
}
