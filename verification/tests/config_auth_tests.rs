use argon2::{Argon2, PasswordHasher};
use caldav_ics_sync::auth::{
    basic_auth_header, check_credentials, is_auth_exempt, parse_basic_credentials, AuthConfig,
};
use caldav_ics_sync::config::{AppConfig, ConfigError, RawConfig};
use caldav_ics_sync::sync::{sync_error_response, sync_success_response, StorageStrategy};

fn raw(
    server_port: Option<&str>,
    port: Option<&str>,
    user: Option<&str>,
    pass: Option<&str>,
    hash: Option<&str>,
) -> RawConfig {
    RawConfig {
        server_host: None,
        server_port: server_port.map(str::to_string),
        port: port.map(str::to_string),
        server_proxy_url: None,
        data_dir: None,
        auth_username: user.map(str::to_string),
        auth_password: pass.map(str::to_string),
        auth_password_hash: hash.map(str::to_string),
    }
}

#[test]
fn config_defaults_apply_when_unset() {
    let cfg = AppConfig::load(raw(None, None, None, None, None)).unwrap();
    assert_eq!(cfg.server_host, "0.0.0.0");
    assert_eq!(cfg.server_port, 6765);
    assert_eq!(cfg.port, 6766);
    assert_eq!(cfg.data_dir, "./data");
    assert_eq!(cfg.proxy_url(), "http://127.0.0.1:6766");
}

#[test]
fn config_rejects_bad_ports() {
    assert_eq!(
        AppConfig::load(raw(Some("70000"), None, None, None, None)).unwrap_err(),
        ConfigError::InvalidServerPort
    );
    assert_eq!(
        AppConfig::load(raw(None, Some("x"), None, None, None)).unwrap_err(),
        ConfigError::InvalidPort
    );
    let cfg = AppConfig::load(raw(Some("8080"), Some("3000"), None, None, None)).unwrap();
    assert_eq!(cfg.server_port, 8080);
    assert_eq!(cfg.proxy_url(), "http://127.0.0.1:3000");
}

#[test]
fn config_rejects_password_beside_hash() {
    assert_eq!(
        AppConfig::load(raw(None, None, Some("u"), Some("p"), Some("h"))).unwrap_err(),
        ConfigError::ConflictingAuth
    );
}

#[test]
fn configured_proxy_url_wins_over_the_default() {
    let mut r = raw(None, None, None, None, None);
    r.server_proxy_url = Some("http://ui:3000".to_string());
    let cfg = AppConfig::load(r).unwrap();
    assert_eq!(cfg.proxy_url(), "http://ui:3000");
}

#[test]
fn auth_mode_follows_the_configured_secrets() {
    let disabled = AppConfig::load(raw(None, None, None, Some("p"), None)).unwrap();
    assert!(matches!(AuthConfig::from_config(&disabled), AuthConfig::Disabled));

    let empty_user = AppConfig::load(raw(None, None, Some(""), Some("p"), None)).unwrap();
    assert!(matches!(AuthConfig::from_config(&empty_user), AuthConfig::Disabled));

    let plain = AppConfig::load(raw(None, None, Some("u"), Some("p"), None)).unwrap();
    match AuthConfig::from_config(&plain) {
        AuthConfig::PlainText { username, password } => {
            assert_eq!(username, "u");
            assert_eq!(password, "p");
        },
        _ => panic!("expected plain-text auth"),
    }

    let hashed = AppConfig::load(raw(None, None, Some("u"), None, Some("$argon2id$x"))).unwrap();
    match AuthConfig::from_config(&hashed) {
        AuthConfig::Hashed { username, password_hash } => {
            assert_eq!(username, "u");
            assert_eq!(password_hash, "$argon2id$x");
        },
        _ => panic!("expected hashed auth"),
    }

    let no_secret = AppConfig {
        server_host: "0.0.0.0".to_string(),
        server_port: 6765,
        port: 6766,
        server_proxy_url: None,
        data_dir: "./data".to_string(),
        auth_username: Some("u".to_string()),
        auth_password: Some("".to_string()),
        auth_password_hash: Some("".to_string()),
    };
    assert!(matches!(AuthConfig::from_config(&no_secret), AuthConfig::Disabled));
}

#[test]
fn username_reads_either_enabled_variant() {
    let plain = AuthConfig::PlainText { username: "alice".to_string(), password: "pw".to_string() };
    assert_eq!(plain.username(), "alice");
    let hashed =
        AuthConfig::Hashed { username: "bob".to_string(), password_hash: "$x".to_string() };
    assert_eq!(hashed.username(), "bob");
}

#[test]
fn basic_auth_header_encodes_credentials() {
    assert_eq!(basic_auth_header("user", "pass"), "Basic dXNlcjpwYXNz");
}

#[test]
fn basic_credentials_parse_and_reject() {
    let (u, p) = parse_basic_credentials("Basic dXNlcjpwYXNz").unwrap();
    assert_eq!(u, "user");
    assert_eq!(p, "pass");
    // Password may itself contain a colon: split at the first one.
    let header = basic_auth_header("u", "p:q");
    let (u, p) = parse_basic_credentials(&header).unwrap();
    assert_eq!(u, "u");
    assert_eq!(p, "p:q");
    assert!(parse_basic_credentials("Bearer abc").is_none());
    assert!(parse_basic_credentials("Basic !!!not-base64!!!").is_none());
    // Valid base64 without a colon inside.
    assert!(parse_basic_credentials("Basic dXNlcg==").is_none());
}

#[test]
fn plain_text_credentials_are_checked_exactly() {
    let cfg = AuthConfig::PlainText { username: "u".to_string(), password: "p".to_string() };
    assert!(check_credentials(&cfg, "u", "p"));
    assert!(!check_credentials(&cfg, "u", "wrong"));
    assert!(!check_credentials(&cfg, "other", "p"));
}

#[test]
fn hashed_credentials_go_through_argon2() {
    let phc = Argon2::default()
        .hash_password_with_salt(b"secret", b"0123456789abcdef")
        .unwrap()
        .to_string();
    let cfg = AuthConfig::Hashed { username: "u".to_string(), password_hash: phc };
    assert!(check_credentials(&cfg, "u", "secret"));
    assert!(!check_credentials(&cfg, "u", "not-it"));
    assert!(!check_credentials(&cfg, "eve", "secret"));
    let bad = AuthConfig::Hashed { username: "u".to_string(), password_hash: "garbage".to_string() };
    assert!(!check_credentials(&bad, "u", "secret"));
}

#[test]
fn health_path_is_exempt_from_auth() {
    assert!(is_auth_exempt("/api/health"));
    assert!(!is_auth_exempt("/api/sync"));
}

#[test]
fn sync_responses_carry_status_and_message() {
    let ok = sync_success_response(12, 3);
    assert_eq!(ok.status, "success");
    assert_eq!(ok.message, "Successfully synchronised 12 events from 3 calendars");
    let err = sync_error_response("boom".to_string());
    assert_eq!(err.status, "error");
    assert_eq!(err.message, "boom");
}

#[test]
fn storage_strategy_reads_its_name_and_defaults_to_memory() {
    assert_eq!(StorageStrategy::from_name("disk-only"), StorageStrategy::DiskOnly);
    assert_eq!(StorageStrategy::from_name("memory-and-disk"), StorageStrategy::MemoryAndDisk);
    assert_eq!(StorageStrategy::from_name("memory-only"), StorageStrategy::MemoryOnly);
    assert_eq!(StorageStrategy::from_name("anything"), StorageStrategy::MemoryOnly);
    assert!(StorageStrategy::DiskOnly.writes_disk());
    assert!(!StorageStrategy::DiskOnly.keeps_memory());
    assert!(StorageStrategy::MemoryAndDisk.writes_disk());
    assert!(StorageStrategy::MemoryAndDisk.keeps_memory());
    assert!(!StorageStrategy::MemoryOnly.writes_disk());
}

#[test]
fn wire_bodies_match_the_protocol() {
    let pf = caldav_ics_sync::sync::propfind_body();
    assert!(pf.contains("<d:resourcetype />"));
    assert!(pf.contains("xmlns:c=\"urn:ietf:params:xml:ns:caldav\""));
    let rb = caldav_ics_sync::sync::report_body();
    assert!(rb.contains("<c:comp-filter name=\"VEVENT\" />"));
    assert!(rb.contains("<c:calendar-data />"));
}
