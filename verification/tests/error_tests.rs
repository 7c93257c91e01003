use axum::http::StatusCode;
use kinetic_atlas::error::{ApiError, AtlasError, Severity};

fn all() -> Vec<AtlasError> {
    vec![
        AtlasError::NetworkInitFailed("n".to_string()),
        AtlasError::DnsResolutionFailed("d".to_string()),
        AtlasError::ConfigError("c".to_string()),
        AtlasError::InvalidProxyRequest("i".to_string()),
        AtlasError::ProxyTargetFailed,
        AtlasError::UpdaterFailed("u".to_string()),
        AtlasError::TldBlacklisted,
    ]
}

#[test]
fn codes_are_stable() {
    let codes: Vec<&str> = all().iter().map(|e| e.code()).collect();
    assert_eq!(
        codes,
        vec!["KIN-ATL-001", "KIN-ATL-002", "KIN-ATL-003", "KIN-ATL-004", "KIN-ATL-005", "KIN-ATL-006", "KIN-ATL-007"]
    );
}

#[test]
fn type_uri_names_the_code() {
    assert_eq!(
        AtlasError::TldBlacklisted.error_type_uri(),
        "https://docs.kinetic.network/errors/KIN-ATL-007"
    );
}

#[test]
fn retry_and_severity() {
    let retry: Vec<bool> = all().iter().map(|e| e.is_retryable()).collect();
    assert_eq!(retry, vec![true, true, false, false, true, true, false]);
    let sev: Vec<Severity> = all().iter().map(|e| e.severity()).collect();
    assert_eq!(
        sev,
        vec![
            Severity::Error,
            Severity::Warning,
            Severity::Critical,
            Severity::Info,
            Severity::Warning,
            Severity::Error,
            Severity::Info
        ]
    );
}

#[test]
fn user_messages() {
    let msgs: Vec<String> = all().iter().map(|e| e.user_message()).collect();
    assert_eq!(
        msgs,
        vec![
            "Swarm network initialization failed: n",
            "Failed to resolve DNS tree: d",
            "Configuration error: c",
            "Invalid proxy request: i",
            "All proxy targets failed for domain",
            "Auto-updater failed to fetch from GitHub: u",
            "The requested TLD is blacklisted",
        ]
    );
}

#[test]
fn api_error_from_error() {
    let statuses: Vec<u16> = all().into_iter().map(|e| ApiError::from(e).http_status()).collect();
    assert_eq!(statuses, vec![500, 502, 500, 400, 502, 500, 403]);
    let a = ApiError::from(AtlasError::DnsResolutionFailed("Domain not found in DHT".to_string()));
    assert_eq!(a.title, "DNS Resolution Failed");
    assert_eq!(a.error_type, "https://docs.kinetic.network/errors/KIN-ATL-002");
    assert_eq!(a.detail, "Failed to resolve DNS tree: Domain not found in DHT");
    assert_eq!(a.instance, None);
    assert_eq!(a.code, "KIN-ATL-002");
    assert!(a.retryable);
    assert_eq!(a.request_id, "atlas-req-id-placeholder");
    assert_eq!(a.details, serde_json::Value::Object(serde_json::Map::new()));
    let titles: Vec<String> = all().into_iter().map(|e| ApiError::from(e).title).collect();
    assert_eq!(
        titles,
        vec![
            "Network Initialization Failed",
            "DNS Resolution Failed",
            "Server Configuration Error",
            "Invalid Proxy Request",
            "Bad Gateway",
            "Auto-Updater Error",
            "Domain Blacklisted"
        ]
    );
}

#[test]
fn details_are_an_empty_object() {
    assert_eq!(AtlasError::ProxyTargetFailed.details().to_string(), "{}");
}

#[test]
fn response_status_falls_back_to_500() {
    let mut a = ApiError::from(AtlasError::TldBlacklisted);
    assert_eq!(a.response_status(), StatusCode::FORBIDDEN);
    a.status = 1000;
    assert_eq!(a.response_status(), StatusCode::INTERNAL_SERVER_ERROR);
    a.status = 99;
    assert_eq!(a.response_status(), StatusCode::INTERNAL_SERVER_ERROR);
    a.status = 999;
    assert_eq!(a.response_status().as_u16(), 999);
}
