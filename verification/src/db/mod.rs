//! The mail store's rows and the statements and settings it is built from.
pub mod models;
pub mod storage;

pub use models::{
    Account, AttachmentMeta, FeatureFlag, Folder, Message, NewAccount, NewFolder, NewMessage,
    NewOutboxMessage, OutboxMessage, SyncState, UpdateOutboxStatus, UpsertSyncState,
};
pub use storage::{
    connection_pragmas, ensure_column_statement, validate_sql_identifier, validate_sql_type,
    SqlIdentifierError, StoreConfig, SynchronousMode,
};
