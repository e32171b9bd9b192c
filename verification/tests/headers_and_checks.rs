use prx_email::db::OutboxMessage;
use prx_email::plugin::checks::{feature_gate, feature_state, policy_allows, rollout_enabled};
use prx_email::plugin::{
    build_outbox_idempotency_key, build_references_chain, enforce_attachment_policy,
    extract_html_part_from_raw, extract_message_ids, fail, network_err, network_err_provider, ok,
    provider_err, redact_email, sanitize_debug_message, sanitize_limit, storage_err,
    validate_auth_config, validate_transport_config, AttachmentPolicy, AuthConfig,
    EmailTransportConfig, ErrorCode, ImapConfig, SendFailureMode, SmtpConfig,
};

fn outbox(id: i64, retries: i64) -> OutboxMessage {
    OutboxMessage {
        id,
        account_id: 1,
        to_recipients: "bob@example.com".to_string(),
        subject: "s".to_string(),
        body_text: "b".to_string(),
        in_reply_to_message_id: None,
        provider_message_id: None,
        status: "pending".to_string(),
        retries,
        last_error: None,
        next_attempt_at: 0,
        created_at: 0,
        updated_at: 0,
    }
}

fn password(p: &str) -> AuthConfig {
    AuthConfig { password: Some(p.to_string()), oauth_token: None }
}

fn config() -> EmailTransportConfig {
    EmailTransportConfig {
        imap: ImapConfig {
            host: "imap.example.com".to_string(),
            port: 993,
            user: "alice@example.com".to_string(),
            auth: password("pw"),
        },
        smtp: SmtpConfig {
            host: "smtp.example.com".to_string(),
            port: 465,
            user: "alice@example.com".to_string(),
            auth: password("pw"),
        },
        attachment_store: None,
        attachment_policy: AttachmentPolicy::default(),
    }
}

#[test]
fn references_chain_appends_parent_message_id() {
    let refs = build_references_chain(Some("<a@x> <b@x>"), "<c@x>");
    assert_eq!(refs, "<a@x> <b@x> <c@x>");
    let no_dup = build_references_chain(Some("<a@x> <c@x>"), "<c@x>");
    assert_eq!(no_dup, "<a@x> <c@x>");
}

#[test]
fn references_chain_without_existing_header_is_the_parent() {
    assert_eq!(build_references_chain(None, "<p@x>"), "<p@x>");
    assert_eq!(build_references_chain(Some(""), "<p@x>"), "<p@x>");
}

#[test]
fn message_ids_are_angle_bracket_tokens() {
    let ids = extract_message_ids("junk <a@x> more <b@x>");
    assert_eq!(ids, vec!["<a@x>".to_string(), "<b@x>".to_string()]);
    let restarted = extract_message_ids("<a@x <b@y>");
    assert_eq!(restarted, vec!["<b@y>".to_string()]);
    assert!(extract_message_ids("no ids here").is_empty());
    assert!(extract_message_ids("<open").is_empty());
}

#[test]
fn html_part_is_found_in_raw_text() {
    let raw = b"--b\r\nContent-Type: text/html\r\n\r\n  <p>Hi</p>  \r\n--b--";
    assert_eq!(extract_html_part_from_raw(raw).as_deref(), Some("<p>Hi</p>"));
    let to_end = b"Content-Type: text/html; charset=utf-8\r\n\r\n<b>x</b>";
    assert_eq!(extract_html_part_from_raw(to_end).as_deref(), Some("<b>x</b>"));
    assert_eq!(extract_html_part_from_raw(b"Content-Type: text/plain\r\n\r\nx"), None);
    assert_eq!(extract_html_part_from_raw(b"Content-Type: text/html no blank line"), None);
    assert_eq!(extract_html_part_from_raw(&[0xff, 0xfe, 0x00]), None);
}

#[test]
fn list_search_reject_out_of_range_limit() {
    let list_err = sanitize_limit(0).expect_err("list limit should fail");
    assert_eq!(list_err.code, ErrorCode::Validation);
    let search_err = sanitize_limit(501).expect_err("search limit should fail");
    assert_eq!(search_err.code, ErrorCode::Validation);
}

#[test]
fn limits_within_range_pass_through() {
    assert_eq!(sanitize_limit(1).unwrap(), 1);
    assert_eq!(sanitize_limit(500).unwrap(), 500);
    let e = sanitize_limit(-3).unwrap_err();
    assert_eq!(e.message, "limit_out_of_range:-3 (expected 1..=500)");
}

#[test]
fn responses_and_error_builders() {
    let r = ok(7);
    assert!(r.ok);
    assert_eq!(r.data, Some(7));
    assert!(r.error.is_none());
    let f = fail::<i32>(ErrorCode::Provider, "nope");
    assert!(!f.ok);
    assert!(f.data.is_none());
    let e = f.error.unwrap();
    assert_eq!(e.code, ErrorCode::Provider);
    assert_eq!(e.message, "nope");
    let s = storage_err("disk".to_string());
    assert_eq!(s.code, ErrorCode::Storage);
    assert_eq!(s.message, "disk");
    let n = network_err("down".to_string());
    assert_eq!(n.code, ErrorCode::Network);
    assert_eq!(n.message, "down");
    let p = provider_err("raw detail".to_string());
    assert_eq!(p.mode, SendFailureMode::Provider);
    assert_eq!(p.message, "provider rejected the request");
    assert_eq!(p.debug_message, "raw detail");
    let np = network_err_provider("timeout".to_string());
    assert_eq!(np.mode, SendFailureMode::Network);
    assert_eq!(np.message, "network error while contacting provider");
    assert_eq!(np.debug_message, "timeout");
}

#[test]
fn auth_config_needs_user_and_exactly_one_credential() {
    assert!(validate_auth_config("imap", "u", &password("p")).is_ok());
    let both = AuthConfig { password: Some("p".to_string()), oauth_token: Some("t".to_string()) };
    let e = validate_auth_config("smtp", "u", &both).unwrap_err();
    assert_eq!(e.code, ErrorCode::Validation);
    assert_eq!(e.message, "smtp.auth must set exactly one of password/oauth_token");
    let none = AuthConfig { password: None, oauth_token: None };
    assert!(validate_auth_config("imap", "u", &none).is_err());
    let e = validate_auth_config("imap", "  ", &password("p")).unwrap_err();
    assert_eq!(e.message, "imap.user is required");
}

#[test]
fn transport_config_checks_in_order() {
    assert!(validate_transport_config(&config()).is_ok());
    let mut c = config();
    c.smtp.host = " ".to_string();
    assert_eq!(validate_transport_config(&c).unwrap_err().message, "imap/smtp host is required");
    let mut c = config();
    c.attachment_policy.allowed_content_types.clear();
    assert_eq!(
        validate_transport_config(&c).unwrap_err().message,
        "attachment policy must define max size and allowed types"
    );
    let mut c = config();
    c.imap.auth = AuthConfig { password: None, oauth_token: None };
    c.smtp.user = String::new();
    assert_eq!(
        validate_transport_config(&c).unwrap_err().message,
        "imap.auth must set exactly one of password/oauth_token"
    );
    let mut c = config();
    c.smtp.user = String::new();
    assert_eq!(validate_transport_config(&c).unwrap_err().message, "smtp.user is required");
}

#[test]
fn default_attachment_policy() {
    let p = AttachmentPolicy::default();
    assert_eq!(p.max_size_bytes, 25 * 1024 * 1024);
    assert_eq!(
        p.allowed_content_types,
        vec!["application/pdf", "image/jpeg", "image/png", "text/plain", "application/zip"]
    );
    assert!(policy_allows(&p, "image/png"));
    assert!(!policy_allows(&p, "image/gif"));
}

#[test]
fn attachment_policy_checks_size_then_type() {
    let p = AttachmentPolicy { max_size_bytes: 10, allowed_content_types: vec!["text/plain".to_string()] };
    assert!(enforce_attachment_policy(&p, "text/plain", 10).is_ok());
    let big = enforce_attachment_policy(&p, "image/gif", 11).unwrap_err();
    assert_eq!(big.message, "attachment exceeds size limit");
    assert_eq!(big.debug_message, "size=11 max=10");
    let ty = enforce_attachment_policy(&p, "image/gif", 1).unwrap_err();
    assert_eq!(ty.mode, SendFailureMode::Provider);
    assert_eq!(ty.message, "attachment content type is not allowed");
    assert_eq!(ty.debug_message, "content_type=image/gif");
}

#[test]
fn idempotency_key_names_the_attempt() {
    assert_eq!(build_outbox_idempotency_key(&outbox(42, 3)), "outbox-42-3");
    assert_eq!(build_outbox_idempotency_key(&outbox(-1, 0)), "outbox--1-0");
}

#[test]
fn emails_are_redacted() {
    assert_eq!(redact_email("alice@example.com"), "a***@example.com");
    assert_eq!(redact_email("@example.com"), "****@example.com");
    assert_eq!(redact_email("no-at-sign"), "***");
}

#[test]
fn debug_messages_are_sanitized() {
    assert_eq!(sanitize_debug_message("line1\nline2\r"), "line1 line2 ");
    assert_eq!(sanitize_debug_message("Authorization: Basic abc"), "Authorization:[REDACTED]");
    assert_eq!(sanitize_debug_message("token BEARER xyz"), "token BEARER [REDACTED]");
    assert_eq!(sanitize_debug_message("user password=hunter2"), "user password=[REDACTED]");
    let long = "x".repeat(200);
    let cut = sanitize_debug_message(&long);
    assert_eq!(cut, format!("{}…", "x".repeat(160)));
    let exact = "y".repeat(160);
    assert_eq!(sanitize_debug_message(&exact), exact);
}

#[test]
fn feature_gate_answers() {
    assert!(feature_gate(7, "email_send", Ok(Some(true))).is_ok());
    let off = feature_gate(7, "email_send", Ok(Some(false))).unwrap_err();
    assert_eq!(off.code, ErrorCode::FeatureDisabled);
    assert_eq!(off.message, "feature 'email_send' is disabled for account 7");
    let unknown = feature_gate(7, "x", Ok(None)).unwrap_err();
    assert_eq!(unknown.code, ErrorCode::Validation);
    assert_eq!(unknown.message, "unknown feature flag: x");
    let store = feature_gate(7, "x", Err("locked".to_string())).unwrap_err();
    assert_eq!(store.code, ErrorCode::Storage);
    assert_eq!(store.message, "locked");
    assert_eq!(feature_state("x", Ok(Some(false))).unwrap(), false);
    assert_eq!(feature_state("x", Ok(None)).unwrap_err().message, "unknown feature flag: x");
}

#[test]
fn staged_rollout_buckets() {
    assert!(!rollout_enabled(20, 0));
    assert!(rollout_enabled(20, 100));
    assert!(rollout_enabled(20, 21));
    assert!(!rollout_enabled(20, 20));
    assert!(rollout_enabled(120, 21));
    assert!(rollout_enabled(-1, 100));
    assert!(!rollout_enabled(-1, 99));
    assert!(rollout_enabled(i64::MIN, 93));
    assert!(!rollout_enabled(i64::MIN, 92));
    assert!(rollout_enabled(5, 255));
}

#[test]
fn debug_messages_are_cut_by_characters() {
    let split = format!("{}é{}", "x".repeat(159), "y".repeat(10));
    assert_eq!(sanitize_debug_message(&split), format!("{}é…", "x".repeat(159)));
    let wide = "é".repeat(161);
    assert_eq!(sanitize_debug_message(&wide), format!("{}…", "é".repeat(160)));
    let fits = "ü".repeat(160);
    assert_eq!(sanitize_debug_message(&fits), fits);
    let lines = sanitize_debug_message(&"a\r\n".repeat(100));
    assert_eq!(lines, format!("{}a…", "a  ".repeat(53)));
}

#[test]
fn staged_rollout_percentage_enablement_regression() {
    let account_id = 1;
    assert!(!feature_state("email_send", Ok(Some(false))).expect("feature state"));
    let enabled_0 = rollout_enabled(account_id, 0);
    assert!(!enabled_0);
    assert!(!feature_state("email_send", Ok(Some(enabled_0))).expect("feature state after 0"));
    let enabled_100 = rollout_enabled(account_id, 100);
    assert!(enabled_100);
    assert!(feature_state("email_send", Ok(Some(enabled_100))).expect("feature state after 100"));
}

#[test]
fn distinct_attempts_have_distinct_keys() {
    let a = build_outbox_idempotency_key(&outbox(1, 23));
    let b = build_outbox_idempotency_key(&outbox(12, 3));
    let c = build_outbox_idempotency_key(&outbox(-1, 23));
    assert_ne!(a, b);
    assert_ne!(a, c);
    assert_eq!(c, "outbox--1-23");
    assert_eq!(build_outbox_idempotency_key(&outbox(1, 23)), a);
}
