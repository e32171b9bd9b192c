//! The email plugin's decisions, grouped by concern.
pub mod types;
pub mod checks;
pub mod paths;
pub mod headers;
pub mod outbox;
pub mod runtime;
pub mod sync;
pub mod delivery;
pub mod mime;

pub use types::{
    ApiError, ApiResponse, AttachmentInput, AttachmentPolicy, AttachmentStoreConfig, AuthConfig,
    EmailTransportConfig, ErrorCode, GetMessageRequest, ImapConfig, ListMessagesRequest,
    OAuthRefreshProvider, ProviderError, RefreshedOAuthToken, ReplyEmailRequest,
    RetryOutboxRequest, RuntimeMetrics, SearchMessagesRequest, SendEmailRequest, SendFailureMode,
    SendResult, SmtpConfig, SyncJob, SyncRequest, SyncRunnerConfig, SyncRunnerReport,
};
pub use checks::{
    build_outbox_idempotency_key, enforce_attachment_policy, fail, network_err,
    network_err_provider, ok, provider_err, redact_email, sanitize_debug_message, sanitize_limit,
    storage_err, validate_auth_config, validate_transport_config,
};
pub use paths::sanitize_path_component;
pub use paths::{normalize_path, safe_resolve_under_root};
pub use headers::{build_references_chain, extract_html_part_from_raw, extract_message_ids};
pub use runtime::{refresh_protocol_token, PluginRuntime};
pub use mime::parse_mime_message;
