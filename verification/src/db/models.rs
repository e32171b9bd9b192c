//! Rows of the mail store and the inputs that create or change them.
use vstd::prelude::*;

verus! {

#[derive(Debug, Clone)]
pub struct Account {
    pub id: i64,
    pub email: String,
    pub display_name: Option<String>,
    pub created_at: i64,
    pub updated_at: i64,
}

#[derive(Debug, Clone)]
pub struct NewAccount {
    pub email: String,
    pub display_name: Option<String>,
    pub now_ts: i64,
}

#[derive(Debug, Clone)]
pub struct Folder {
    pub id: i64,
    pub account_id: i64,
    pub name: String,
    pub path: String,
    pub created_at: i64,
    pub updated_at: i64,
}

#[derive(Debug, Clone)]
pub struct NewFolder {
    pub account_id: i64,
    pub name: String,
    pub path: String,
    pub now_ts: i64,
}

#[derive(Debug, Clone)]
pub struct Message {
    pub id: i64,
    pub account_id: i64,
    pub folder_id: Option<i64>,
    pub message_id: String,
    pub subject: Option<String>,
    pub sender: Option<String>,
    pub recipients: Option<String>,
    pub snippet: Option<String>,
    pub body_text: Option<String>,
    pub body_html: Option<String>,
    pub attachments_json: Option<String>,
    pub references_header: Option<String>,
    pub received_at: Option<i64>,
    pub created_at: i64,
    pub updated_at: i64,
}

#[derive(Debug, Clone)]
pub struct NewMessage {
    pub account_id: i64,
    pub folder_id: Option<i64>,
    pub message_id: String,
    pub subject: Option<String>,
    pub sender: Option<String>,
    pub recipients: Option<String>,
    pub snippet: Option<String>,
    pub body_text: Option<String>,
    pub body_html: Option<String>,
    pub attachments_json: Option<String>,
    pub references_header: Option<String>,
    pub received_at: Option<i64>,
    pub now_ts: i64,
}

#[derive(Debug, Clone)]
pub struct SyncState {
    pub id: i64,
    pub account_id: i64,
    pub folder_id: Option<i64>,
    pub cursor: Option<String>,
    pub last_synced_at: Option<i64>,
    pub status: Option<String>,
    pub updated_at: i64,
}

#[derive(Debug, Clone)]
pub struct UpsertSyncState {
    pub account_id: i64,
    pub folder_id: Option<i64>,
    pub cursor: Option<String>,
    pub last_synced_at: Option<i64>,
    pub status: Option<String>,
    pub now_ts: i64,
}

/// A message queued for delivery, with its delivery state.
#[derive(Debug, Clone)]
pub struct OutboxMessage {
    pub id: i64,
    pub account_id: i64,
    pub to_recipients: String,
    pub subject: String,
    pub body_text: String,
    pub in_reply_to_message_id: Option<String>,
    pub provider_message_id: Option<String>,
    pub status: String,
    pub retries: i64,
    pub last_error: Option<String>,
    pub next_attempt_at: i64,
    pub created_at: i64,
    pub updated_at: i64,
}

#[derive(Debug, Clone)]
pub struct NewOutboxMessage {
    pub account_id: i64,
    pub to_recipients: String,
    pub subject: String,
    pub body_text: String,
    pub in_reply_to_message_id: Option<String>,
    pub status: String,
    pub retries: i64,
    pub last_error: Option<String>,
    pub next_attempt_at: i64,
    pub now_ts: i64,
}

#[derive(Debug, Clone)]
pub struct UpdateOutboxStatus {
    pub id: i64,
    pub status: String,
    pub retries: i64,
    pub last_error: Option<String>,
    pub provider_message_id: Option<String>,
    pub next_attempt_at: i64,
    pub now_ts: i64,
}

/// Metadata of one attachment of a received message.
#[derive(Debug, Clone)]
pub struct AttachmentMeta {
    pub filename: Option<String>,
    pub content_type: Option<String>,
    pub size: usize,
    pub local_path: Option<String>,
}

/// A feature flag and its default state.
#[derive(Debug, Clone)]
pub struct FeatureFlag {
    pub feature_key: String,
    pub default_enabled: bool,
    pub updated_at: i64,
}

} // verus!
