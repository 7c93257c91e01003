//! The error taxonomy of the gateway: stable codes, problem-details type URIs,
//! retry advice, severities, user-facing messages, and the problem-details
//! record that an error becomes in an HTTP answer.

use vstd::prelude::*;
use vstd::string::StringExecFns;

use crate::http_types::{internal_server_error, status_code, status_of};

verus! {

broadcast use vstd::string::group_string_axioms;

/// `serde_json::Value`, the structured diagnostic value of a problem-details record.
#[verifier::external_type_specification]
#[verifier::external_body]
pub struct ExJsonValue(serde_json::Value);

/// Severity level for logging and monitoring.
#[derive(Debug, Clone, Copy, PartialEq, Eq, Structural)]
pub enum Severity {
    /// Expected or informational conditions.
    Info,
    /// Unexpected but recoverable conditions (e.g., node offline).
    Warning,
    /// Unrecoverable conditions or internal logic failures.
    Error,
    /// Critical failures requiring immediate operator intervention.
    Critical,
}

/// Top-level error type for Kinetic Atlas node operations.
#[derive(Debug, Clone, PartialEq, Eq)]
pub enum AtlasError {
    /// General network or libp2p swarm initialization error.
    NetworkInitFailed(String),
    /// DNS Tree resolution error.
    DnsResolutionFailed(String),
    /// Missing or invalid configuration.
    ConfigError(String),
    /// Proxy request failed or was malformed.
    InvalidProxyRequest(String),
    /// Proxy target (e.g. IPFS) failed to respond.
    ProxyTargetFailed,
    /// Updater failed to sync the registry.
    UpdaterFailed(String),
    /// TLD is blacklisted.
    TldBlacklisted,
}

/// An [`AtlasError`] with its texts taken as character sequences.
pub enum AtlasErrorView {
    NetworkInitFailed(Seq<char>),
    DnsResolutionFailed(Seq<char>),
    ConfigError(Seq<char>),
    InvalidProxyRequest(Seq<char>),
    ProxyTargetFailed,
    UpdaterFailed(Seq<char>),
    TldBlacklisted,
}

impl View for AtlasError {
    type V = AtlasErrorView;

    open spec fn view(&self) -> AtlasErrorView {
        match self {
            AtlasError::NetworkInitFailed(s) => AtlasErrorView::NetworkInitFailed(s@),
            AtlasError::DnsResolutionFailed(s) => AtlasErrorView::DnsResolutionFailed(s@),
            AtlasError::ConfigError(s) => AtlasErrorView::ConfigError(s@),
            AtlasError::InvalidProxyRequest(s) => AtlasErrorView::InvalidProxyRequest(s@),
            AtlasError::ProxyTargetFailed => AtlasErrorView::ProxyTargetFailed,
            AtlasError::UpdaterFailed(s) => AtlasErrorView::UpdaterFailed(s@),
            AtlasError::TldBlacklisted => AtlasErrorView::TldBlacklisted,
        }
    }
}

/// The stable protocol code of each kind of error.
pub open spec fn spec_code(e: AtlasErrorView) -> Seq<char> {
    match e {
        AtlasErrorView::NetworkInitFailed(_) => "KIN-ATL-001"@,
        AtlasErrorView::DnsResolutionFailed(_) => "KIN-ATL-002"@,
        AtlasErrorView::ConfigError(_) => "KIN-ATL-003"@,
        AtlasErrorView::InvalidProxyRequest(_) => "KIN-ATL-004"@,
        AtlasErrorView::ProxyTargetFailed => "KIN-ATL-005"@,
        AtlasErrorView::UpdaterFailed(_) => "KIN-ATL-006"@,
        AtlasErrorView::TldBlacklisted => "KIN-ATL-007"@,
    }
}

/// The common prefix of all problem-details type URIs.
pub open spec fn error_uri_prefix() -> Seq<char> {
    "https://docs.kinetic.network/errors/"@
}

/// Transient failures, for which a client is advised to retry.
pub open spec fn spec_is_retryable(e: AtlasErrorView) -> bool {
    match e {
        AtlasErrorView::NetworkInitFailed(_) => true,
        AtlasErrorView::DnsResolutionFailed(_) => true,
        AtlasErrorView::UpdaterFailed(_) => true,
        AtlasErrorView::ProxyTargetFailed => true,
        _ => false,
    }
}

/// The severity of each kind of error.
pub open spec fn spec_severity(e: AtlasErrorView) -> Severity {
    match e {
        AtlasErrorView::NetworkInitFailed(_) => Severity::Error,
        AtlasErrorView::DnsResolutionFailed(_) => Severity::Warning,
        AtlasErrorView::ConfigError(_) => Severity::Critical,
        AtlasErrorView::InvalidProxyRequest(_) => Severity::Info,
        AtlasErrorView::ProxyTargetFailed => Severity::Warning,
        AtlasErrorView::UpdaterFailed(_) => Severity::Error,
        AtlasErrorView::TldBlacklisted => Severity::Info,
    }
}

/// The user-facing text of each error: a fixed sentence per kind, followed by
/// the error's own detail where it carries one.
pub open spec fn spec_user_message(e: AtlasErrorView) -> Seq<char> {
    match e {
        AtlasErrorView::NetworkInitFailed(s) => "Swarm network initialization failed: "@ + s,
        AtlasErrorView::DnsResolutionFailed(s) => "Failed to resolve DNS tree: "@ + s,
        AtlasErrorView::ConfigError(s) => "Configuration error: "@ + s,
        AtlasErrorView::InvalidProxyRequest(s) => "Invalid proxy request: "@ + s,
        AtlasErrorView::ProxyTargetFailed => "All proxy targets failed for domain"@,
        AtlasErrorView::UpdaterFailed(s) => "Auto-updater failed to fetch from GitHub: "@ + s,
        AtlasErrorView::TldBlacklisted => "The requested TLD is blacklisted"@,
    }
}

/// The HTTP status that answers each kind of error.
pub open spec fn spec_http_status(e: AtlasErrorView) -> u16 {
    match e {
        AtlasErrorView::NetworkInitFailed(_) => 500,
        AtlasErrorView::DnsResolutionFailed(_) => 502,
        AtlasErrorView::ConfigError(_) => 500,
        AtlasErrorView::InvalidProxyRequest(_) => 400,
        AtlasErrorView::ProxyTargetFailed => 502,
        AtlasErrorView::UpdaterFailed(_) => 500,
        AtlasErrorView::TldBlacklisted => 403,
    }
}

/// The short problem-details title of each kind of error.
pub open spec fn spec_title(e: AtlasErrorView) -> Seq<char> {
    match e {
        AtlasErrorView::NetworkInitFailed(_) => "Network Initialization Failed"@,
        AtlasErrorView::DnsResolutionFailed(_) => "DNS Resolution Failed"@,
        AtlasErrorView::ConfigError(_) => "Server Configuration Error"@,
        AtlasErrorView::InvalidProxyRequest(_) => "Invalid Proxy Request"@,
        AtlasErrorView::ProxyTargetFailed => "Bad Gateway"@,
        AtlasErrorView::UpdaterFailed(_) => "Auto-Updater Error"@,
        AtlasErrorView::TldBlacklisted => "Domain Blacklisted"@,
    }
}

/// The placeholder correlation ID that every problem-details record carries.
pub open spec fn request_id_placeholder() -> Seq<char> {
    "atlas-req-id-placeholder"@
}

/// The keys of a JSON value that is an object; `None` for any other JSON value.
pub uninterp spec fn json_object_keys(v: serde_json::Value) -> Option<Set<Seq<char>>>;

/// Builds an empty JSON object through `serde_json`: `serde_json::Map::new`
/// (documented as making a new empty map) wrapped as `serde_json::Value::Object`.
/// Claimed: the value is an object with no keys.
#[verifier::external_body]
fn empty_json_object() -> (r: serde_json::Value)
    ensures
        json_object_keys(r) == Some(Set::<Seq<char>>::empty()),
{
    serde_json::Value::Object(serde_json::Map::new())
}

impl AtlasError {
    /// Stable protocol error code for Kinetic Atlas.
    pub fn code(&self) -> (r: &'static str)
        ensures
            r@ == spec_code(self@),
    {
        match self {
            AtlasError::NetworkInitFailed(_) => "KIN-ATL-001",
            AtlasError::DnsResolutionFailed(_) => "KIN-ATL-002",
            AtlasError::ConfigError(_) => "KIN-ATL-003",
            AtlasError::InvalidProxyRequest(_) => "KIN-ATL-004",
            AtlasError::ProxyTargetFailed => "KIN-ATL-005",
            AtlasError::UpdaterFailed(_) => "KIN-ATL-006",
            AtlasError::TldBlacklisted => "KIN-ATL-007",
        }
    }

    /// RFC 7807 type URI for this error.
    pub fn error_type_uri(&self) -> (r: String)
        ensures
            r@ == error_uri_prefix() + spec_code(self@),
    {
        String::from_str("https://docs.kinetic.network/errors/").concat(self.code())
    }

    /// Whether the client should offer a retry action.
    pub fn is_retryable(&self) -> (r: bool)
        ensures
            r == spec_is_retryable(self@),
    {
        match self {
            AtlasError::NetworkInitFailed(_) => true,
            AtlasError::DnsResolutionFailed(_) => true,
            AtlasError::UpdaterFailed(_) => true,
            AtlasError::ProxyTargetFailed => true,
            _ => false,
        }
    }

    /// Severity level for logging and monitoring.
    pub fn severity(&self) -> (r: Severity)
        ensures
            r == spec_severity(self@),
    {
        match self {
            AtlasError::NetworkInitFailed(_) => Severity::Error,
            AtlasError::DnsResolutionFailed(_) => Severity::Warning,
            AtlasError::ConfigError(_) => Severity::Critical,
            AtlasError::InvalidProxyRequest(_) => Severity::Info,
            AtlasError::ProxyTargetFailed => Severity::Warning,
            AtlasError::UpdaterFailed(_) => Severity::Error,
            AtlasError::TldBlacklisted => Severity::Info,
        }
    }

    /// Clean, user-facing explanation of the error.
    pub fn user_message(&self) -> (r: String)
        ensures
            r@ == spec_user_message(self@),
    {
        match self {
            AtlasError::NetworkInitFailed(s) => String::from_str(
                "Swarm network initialization failed: ",
            ).concat(s.as_str()),
            AtlasError::DnsResolutionFailed(s) => String::from_str(
                "Failed to resolve DNS tree: ",
            ).concat(s.as_str()),
            AtlasError::ConfigError(s) => String::from_str("Configuration error: ").concat(
                s.as_str(),
            ),
            AtlasError::InvalidProxyRequest(s) => String::from_str(
                "Invalid proxy request: ",
            ).concat(s.as_str()),
            AtlasError::ProxyTargetFailed => String::from_str(
                "All proxy targets failed for domain",
            ),
            AtlasError::UpdaterFailed(s) => String::from_str(
                "Auto-updater failed to fetch from GitHub: ",
            ).concat(s.as_str()),
            AtlasError::TldBlacklisted => String::from_str("The requested TLD is blacklisted"),
        }
    }

    /// Developer-facing structured JSON diagnostic details: an empty object.
    pub fn details(&self) -> (r: serde_json::Value)
        ensures
            json_object_keys(r) == Some(Set::<Seq<char>>::empty()),
    {
        empty_json_object()
    }
}

/// RFC 7807 Problem Details representation for HTTP API responses, augmented with Kinetic extensions.
pub struct ApiError {
    /// RFC 7807: URI identifying the specific error category.
    pub error_type: String,
    /// RFC 7807: Short human-readable title summarizing the error category.
    pub title: String,
    /// RFC 7807: Associated HTTP response status code (e.g. `404`, `503`).
    pub status: u16,
    /// RFC 7807: Human-facing explanation of the specific error occurrence.
    pub detail: String,
    /// RFC 7807: Optional URI identifying the specific request instance.
    pub instance: Option<String>,
    /// Kinetic Extension: Stable protocol error code (e.g. `"KIN-ATL-002"`).
    pub code: String,
    /// Kinetic Extension: Indicates whether client applications should retry the request.
    pub retryable: bool,
    /// Kinetic Extension: Developer-facing structured JSON diagnostic details.
    pub details: serde_json::Value,
    /// Kinetic Extension: Task-local correlation ID for server log tracing.
    pub request_id: String,
}

/// The correlation ID of the current request: a fixed placeholder.
fn current_request_id() -> (r: String)
    ensures
        r@ == request_id_placeholder(),
{
    String::from_str("atlas-req-id-placeholder")
}

impl ApiError {
    /// Returns the HTTP status code associated with this error.
    pub fn http_status(&self) -> (r: u16)
        ensures
            r == self.status,
    {
        self.status
    }

    /// The status an answer is sent with: the record's status where it is a
    /// valid status code (100 to 999), else 500.
    pub fn response_status(&self) -> (r: axum::http::StatusCode)
        ensures
            100 <= self.status <= 999 ==> status_of(self.status) == Some(r),
            !(100 <= self.status <= 999) ==> status_of(500) == Some(r),
    {
        match status_code(self.status) {
            Some(c) => c,
            None => internal_server_error(),
        }
    }

    /// The problem-details record that answers an error: its status and title
    /// by kind, its type URI, code, retry advice and detail from the error, an
    /// empty object as details, no instance, and the placeholder correlation ID.
    pub fn from(e: AtlasError) -> (r: ApiError)
        ensures
            r.status == spec_http_status(e@),
            r.title@ == spec_title(e@),
            r.error_type@ == error_uri_prefix() + spec_code(e@),
            r.detail@ == spec_user_message(e@),
            r.instance is None,
            r.code@ == spec_code(e@),
            r.retryable == spec_is_retryable(e@),
            r.request_id@ == request_id_placeholder(),
            json_object_keys(r.details) == Some(Set::<Seq<char>>::empty()),
    {
        let (status, title): (u16, &'static str) = match &e {
            AtlasError::NetworkInitFailed(_) => (500, "Network Initialization Failed"),
            AtlasError::DnsResolutionFailed(_) => (502, "DNS Resolution Failed"),
            AtlasError::ConfigError(_) => (500, "Server Configuration Error"),
            AtlasError::InvalidProxyRequest(_) => (400, "Invalid Proxy Request"),
            AtlasError::ProxyTargetFailed => (502, "Bad Gateway"),
            AtlasError::UpdaterFailed(_) => (500, "Auto-Updater Error"),
            AtlasError::TldBlacklisted => (403, "Domain Blacklisted"),
        };
        ApiError {
            error_type: e.error_type_uri(),
            title: String::from_str(title),
            status,
            detail: e.user_message(),
            instance: None,
            code: String::from_str(e.code()),
            retryable: e.is_retryable(),
            details: e.details(),
            request_id: current_request_id(),
        }
    }
}

} // verus!
