//! Configuration, requests, responses and errors of the email plugin.
use vstd::prelude::*;

verus! {

#[derive(Debug, Clone)]
pub struct AuthConfig {
    pub password: Option<String>,
    pub oauth_token: Option<String>,
}

#[derive(Debug, Clone)]
pub struct ImapConfig {
    pub host: String,
    pub port: u16,
    pub user: String,
    pub auth: AuthConfig,
}

#[derive(Debug, Clone)]
pub struct SmtpConfig {
    pub host: String,
    pub port: u16,
    pub user: String,
    pub auth: AuthConfig,
}

#[derive(Debug, Clone)]
pub struct AttachmentStoreConfig {
    pub enabled: bool,
    pub dir: String,
}

#[derive(Debug, Clone)]
pub struct EmailTransportConfig {
    pub imap: ImapConfig,
    pub smtp: SmtpConfig,
    pub attachment_store: Option<AttachmentStoreConfig>,
    pub attachment_policy: AttachmentPolicy,
}

/// Limits on attachments: a maximum size and the content types allowed (a set: duplicates
/// in the list change nothing).
#[derive(Debug, Clone)]
pub struct AttachmentPolicy {
    pub max_size_bytes: usize,
    pub allowed_content_types: Vec<String>,
}

#[derive(Debug, Clone, Default)]
pub struct RuntimeMetrics {
    pub sync_attempts: u64,
    pub sync_success: u64,
    pub sync_failures: u64,
    pub send_failures: u64,
    pub retry_count: u64,
}

#[derive(Debug, Clone)]
pub struct SyncJob {
    pub account_id: i64,
    pub folder: String,
    pub max_messages: usize,
}

#[derive(Debug, Clone)]
pub struct SyncRunnerConfig {
    pub max_concurrency: usize,
    pub base_backoff_seconds: i64,
    pub max_backoff_seconds: i64,
}

impl Default for SyncRunnerConfig {
    fn default() -> (r: Self)
        ensures
            r.max_concurrency == 4,
            r.base_backoff_seconds == 10,
            r.max_backoff_seconds == 300,
    {
        SyncRunnerConfig { max_concurrency: 4, base_backoff_seconds: 10, max_backoff_seconds: 300 }
    }
}

#[derive(Debug, Clone)]
pub struct SyncRunnerReport {
    pub run_id: String,
    pub attempted: usize,
    pub succeeded: usize,
    pub failed: usize,
}

#[derive(Debug, Clone)]
pub struct RefreshedOAuthToken {
    pub token: String,
    pub expires_at: Option<i64>,
}

/// A source of fresh OAuth tokens, implemented by the plugin's users.
pub trait OAuthRefreshProvider {
    fn refresh_token(&self, protocol: &str, user: &str, current_token: &str) -> Result<
        RefreshedOAuthToken,
        ApiError,
    >;
}

#[derive(Debug, Clone)]
pub struct SyncRequest {
    pub account_id: i64,
    pub folder: Option<String>,
    pub cursor: Option<String>,
    pub now_ts: i64,
    pub max_messages: usize,
}

#[derive(Debug, Clone)]
pub struct ListMessagesRequest {
    pub account_id: i64,
    pub limit: i64,
}

#[derive(Debug, Clone)]
pub struct GetMessageRequest {
    pub account_id: i64,
    pub message_id: String,
}

#[derive(Debug, Clone)]
pub struct SearchMessagesRequest {
    pub account_id: i64,
    pub query: String,
    pub limit: i64,
}

#[derive(Debug, Clone)]
pub struct AttachmentInput {
    pub filename: String,
    pub content_type: String,
    pub base64: Option<String>,
    pub path: Option<String>,
}

#[derive(Debug, Clone)]
pub struct SendEmailRequest {
    pub account_id: i64,
    pub to: String,
    pub subject: String,
    pub body_text: String,
    pub now_ts: i64,
    pub attachment: Option<AttachmentInput>,
    pub failure_mode: Option<SendFailureMode>,
}

#[derive(Debug, Clone)]
pub struct ReplyEmailRequest {
    pub account_id: i64,
    pub in_reply_to_message_id: String,
    pub body_text: String,
    pub now_ts: i64,
    pub attachment: Option<AttachmentInput>,
    pub failure_mode: Option<SendFailureMode>,
}

#[derive(Debug, Clone)]
pub struct RetryOutboxRequest {
    pub outbox_id: i64,
    pub now_ts: i64,
    pub failure_mode: Option<SendFailureMode>,
}

/// A simulated delivery failure, or the kind of a real one.
#[derive(Debug, Clone, Copy, PartialEq, Eq, Structural)]
pub enum SendFailureMode {
    Network,
    Provider,
}

#[derive(Debug, Clone, Copy, PartialEq, Eq, Structural)]
pub enum ErrorCode {
    Validation,
    FeatureDisabled,
    Network,
    Provider,
    Storage,
}

#[derive(Debug, Clone)]
pub struct ApiError {
    pub code: ErrorCode,
    pub message: String,
}

#[derive(Debug, Clone)]
pub struct ApiResponse<T> {
    pub ok: bool,
    pub data: Option<T>,
    pub error: Option<ApiError>,
}

#[derive(Debug, Clone, PartialEq, Eq)]
pub struct SendResult {
    pub outbox_id: i64,
    pub status: String,
    pub retries: i64,
    pub provider_message_id: Option<String>,
    pub next_attempt_at: i64,
}

/// Why a delivery attempt failed: its kind, a message for the caller, and details for the
/// debug log.
#[derive(Debug, Clone)]
pub struct ProviderError {
    pub mode: SendFailureMode,
    pub message: String,
    pub debug_message: String,
}

} // verus!
