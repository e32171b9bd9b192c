//! prx_email: an email plugin's verified core. It decides what the plugin does with its mail
//! store, its IMAP and SMTP servers and its host (feature gates, the outbox delivery state
//! machine, sync scheduling and cursors, MIME parsing results, attachment rules, path safety,
//! OAuth refresh, and the `email.execute` tool); the caller performs the I/O it asks for.
pub mod text;
pub mod db;
pub mod plugin;
pub mod tool;
