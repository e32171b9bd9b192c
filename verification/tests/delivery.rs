use prx_email::db::{Message, OutboxMessage};
use prx_email::plugin::delivery::{
    attachment_file_bytes, attachment_source, check_content_type, checked_attachment_bytes, check_smtp_addresses, content_type_verdict, decoded_attachment, imap_login_method,
    invalid_transport, missing_smtp_config, provider_message_id, recipient_verdict,
    reply_parent_key, sender_verdict, smtp_credentials, smtp_message_id, threading_headers, AttachmentSource, ImapLogin,
    SmtpCredential,
};
use prx_email::plugin::{
    ApiError, AttachmentInput, AttachmentPolicy, AuthConfig, ErrorCode, SendFailureMode,
};

fn auth(password: Option<&str>, token: Option<&str>) -> AuthConfig {
    AuthConfig { password: password.map(|s| s.to_string()), oauth_token: token.map(|s| s.to_string()) }
}

fn input(base64: Option<&str>, path: Option<&str>, content_type: &str) -> AttachmentInput {
    AttachmentInput {
        filename: "f.txt".to_string(),
        content_type: content_type.to_string(),
        base64: base64.map(|s| s.to_string()),
        path: path.map(|s| s.to_string()),
    }
}

#[test]
fn smtp_credentials_need_exactly_one() {
    assert!(matches!(smtp_credentials(&auth(Some("pw"), None)), Ok(SmtpCredential::Password(p)) if p == "pw"));
    assert!(matches!(smtp_credentials(&auth(None, Some("tk"))), Ok(SmtpCredential::OAuthToken(t)) if t == "tk"));
    let e = smtp_credentials(&auth(Some("pw"), Some("tk"))).unwrap_err();
    assert_eq!(e.mode, SendFailureMode::Provider);
    assert_eq!(e.message, "smtp auth must set exactly one of password/oauth_token");
    assert_eq!(e.debug_message, "smtp auth config invalid");
    assert!(smtp_credentials(&auth(None, None)).is_err());
}

#[test]
fn imap_login_uses_password_or_xoauth2() {
    assert!(matches!(imap_login_method("u", &auth(Some("pw"), None)), Ok(ImapLogin::Password(p)) if p == "pw"));
    match imap_login_method("alice@example.com", &auth(None, Some("tok"))) {
        Ok(ImapLogin::XOAuth2(payload)) => {
            assert_eq!(payload, "user=alice@example.com\x01auth=Bearer tok\x01\x01")
        }
        _ => panic!("expected XOAUTH2"),
    }
    let e = imap_login_method("u", &auth(None, None)).unwrap_err();
    assert_eq!(e.code, ErrorCode::Validation);
    assert_eq!(e.message, "imap.auth must set exactly one of password/oauth_token");
}

#[test]
fn attempt_headers_and_provider_ids() {
    let o = OutboxMessage {
        id: 12,
        account_id: 1,
        to_recipients: "b@x".to_string(),
        subject: "s".to_string(),
        body_text: "b".to_string(),
        in_reply_to_message_id: None,
        provider_message_id: None,
        status: "sending".to_string(),
        retries: 2,
        last_error: None,
        next_attempt_at: 0,
        created_at: 0,
        updated_at: 0,
    };
    assert_eq!(smtp_message_id(&o), "<outbox-12-2@prx-email.local>");
    assert_eq!(provider_message_id(&vec!["2.0.0".to_string(), "OK queued".to_string()]), "smtp-2.0.0 OK queued");
    assert_eq!(provider_message_id(&vec![]), "smtp-");
}

#[test]
fn transport_failures() {
    let m = missing_smtp_config();
    assert_eq!(m.mode, SendFailureMode::Provider);
    assert_eq!(m.message, "smtp config missing");
    assert_eq!(m.debug_message, "smtp transport config is None");
    let t = invalid_transport(&ApiError { code: ErrorCode::Validation, message: "imap/smtp host is required".to_string() });
    assert_eq!(t.message, "imap/smtp host is required");
    assert_eq!(t.debug_message, "transport config invalid: imap/smtp host is required");
}

#[test]
fn address_verdicts() {
    assert!(sender_verdict(Ok(())).is_ok());
    let s = sender_verdict(Err("Missing domain or user".to_string())).unwrap_err();
    assert_eq!(s.message, "invalid smtp sender address");
    assert_eq!(s.debug_message, "invalid smtp user address: Missing domain or user");
    let r = recipient_verdict(Err("bad".to_string())).unwrap_err();
    assert_eq!(r.message, "invalid recipient address");
    assert_eq!(r.debug_message, "invalid recipient address: bad");
    assert!(check_smtp_addresses("alice@example.com", "bob@example.com").is_ok());
    assert_eq!(
        check_smtp_addresses("not an address", "bob@example.com").unwrap_err().message,
        "invalid smtp sender address"
    );
    assert_eq!(
        check_smtp_addresses("alice@example.com", "nope").unwrap_err().message,
        "invalid recipient address"
    );
}

#[test]
fn attachment_sources() {
    let policy = AttachmentPolicy::default();
    match attachment_source(&input(Some("aGVsbG8="), None, "text/plain"), &policy, None) {
        Ok(AttachmentSource::Bytes(b)) => assert_eq!(b, b"hello".to_vec()),
        _ => panic!("expected decoded bytes"),
    }
    let bad = attachment_source(&input(Some("!!!"), None, "text/plain"), &policy, None).unwrap_err();
    assert_eq!(bad.message, "provider rejected the request");
    assert!(!bad.debug_message.is_empty());
    match attachment_source(&input(None, Some("/tmp/a.txt"), "text/plain"), &policy, None) {
        Ok(AttachmentSource::File(f)) => assert_eq!(f, "/tmp/a.txt"),
        _ => panic!("expected a file"),
    }
    match attachment_source(&input(None, Some("sub/a.txt"), "text/plain"), &policy, Some("/store".to_string())) {
        Ok(AttachmentSource::File(f)) => assert_eq!(f, "/store/sub/a.txt"),
        _ => panic!("expected a file under the store"),
    }
    let esc = attachment_source(&input(None, Some("../a.txt"), "text/plain"), &policy, Some("/store".to_string()))
        .unwrap_err();
    assert_eq!(esc.message, "attachment path escapes storage root");
    let both = attachment_source(&input(Some("aGk="), Some("/a"), "text/plain"), &policy, None).unwrap_err();
    assert_eq!(both.message, "attachment requires exactly one of base64 or path");
    assert_eq!(both.debug_message, "attachment input has both/none of base64/path");
    assert!(attachment_source(&input(None, None, "text/plain"), &policy, None).is_err());
    let ty = attachment_source(&input(Some("aGk="), None, "image/gif"), &policy, None).unwrap_err();
    assert_eq!(ty.message, "attachment content type is not allowed");
    assert!(matches!(decoded_attachment(Ok(vec![1, 2])), Ok(AttachmentSource::Bytes(b)) if b == vec![1, 2]));
}

#[test]
fn attachment_sizes_are_bounded() {
    let policy = AttachmentPolicy { max_size_bytes: 4, allowed_content_types: vec!["text/plain".to_string()] };
    let big = attachment_source(&input(Some("aGVsbG8="), None, "text/plain"), &policy, None).unwrap_err();
    assert_eq!(big.mode, SendFailureMode::Provider);
    assert_eq!(big.message, "attachment exceeds size limit");
    assert_eq!(big.debug_message, "size=5 max=4");
    match attachment_source(&input(Some("aGk="), None, "text/plain"), &policy, None) {
        Ok(AttachmentSource::Bytes(b)) => assert_eq!(b, b"hi".to_vec()),
        _ => panic!("expected decoded bytes"),
    }
    assert_eq!(checked_attachment_bytes(&policy, "text/plain", vec![1, 2, 3, 4]).unwrap(), vec![1, 2, 3, 4]);
    let over = checked_attachment_bytes(&policy, "image/gif", vec![0; 5]).unwrap_err();
    assert_eq!(over.message, "attachment exceeds size limit");
    let ty = checked_attachment_bytes(&policy, "image/gif", vec![0; 4]).unwrap_err();
    assert_eq!(ty.message, "attachment content type is not allowed");
    assert_eq!(ty.debug_message, "content_type=image/gif");
    let read = attachment_file_bytes(&policy, "text/plain", Err("no such file".to_string())).unwrap_err();
    assert_eq!(read.mode, SendFailureMode::Network);
    assert_eq!(read.message, "network error while contacting provider");
    assert_eq!(read.debug_message, "no such file");
    assert_eq!(attachment_file_bytes(&policy, "text/plain", Ok(vec![7])).unwrap(), vec![7]);
    let long = attachment_file_bytes(&policy, "text/plain", Ok(vec![7; 10])).unwrap_err();
    assert_eq!(long.debug_message, "size=10 max=4");
}

#[test]
fn content_types_are_read_by_lettre() {
    assert!(check_content_type("text/plain").is_ok());
    assert!(check_content_type("application/pdf").is_ok());
    let e = check_content_type("not a content type").unwrap_err();
    assert_eq!(e.mode, SendFailureMode::Provider);
    assert_eq!(e.message, "provider rejected the request");
    assert!(!e.debug_message.is_empty());
    let v = content_type_verdict(Err("bad".to_string())).unwrap_err();
    assert_eq!(v.debug_message, "bad");
    assert!(content_type_verdict(Ok(())).is_ok());
}

fn reply_record(in_reply_to: Option<&str>) -> OutboxMessage {
    OutboxMessage {
        id: 3,
        account_id: 9,
        to_recipients: "b@x".to_string(),
        subject: "Re: s".to_string(),
        body_text: "b".to_string(),
        in_reply_to_message_id: in_reply_to.map(|s| s.to_string()),
        provider_message_id: None,
        status: "sending".to_string(),
        retries: 0,
        last_error: None,
        next_attempt_at: 0,
        created_at: 0,
        updated_at: 0,
    }
}

fn stored_parent(message_id: &str, references: Option<&str>) -> Message {
    Message {
        id: 1,
        account_id: 9,
        folder_id: None,
        message_id: message_id.to_string(),
        subject: None,
        sender: Some("a@x".to_string()),
        recipients: None,
        snippet: None,
        body_text: None,
        body_html: None,
        attachments_json: None,
        references_header: references.map(|s| s.to_string()),
        received_at: None,
        created_at: 0,
        updated_at: 0,
    }
}

#[test]
fn replies_carry_threading_headers() {
    let reply = reply_record(Some("<p@x>"));
    assert_eq!(reply_parent_key(&reply), Some((9, "<p@x>".to_string())));
    assert_eq!(reply_parent_key(&reply_record(None)), None);
    let found = threading_headers(&reply, Ok(Some(stored_parent("<p@x>", Some("<a@x> <b@x>")))));
    assert_eq!(found.in_reply_to.as_deref(), Some("<p@x>"));
    assert_eq!(found.references.as_deref(), Some("<a@x> <b@x> <p@x>"));
    let missing = threading_headers(&reply, Ok(None));
    assert_eq!(missing.in_reply_to.as_deref(), Some("<p@x>"));
    assert_eq!(missing.references, None);
    let failed = threading_headers(&reply, Err("locked".to_string()));
    assert_eq!(failed.in_reply_to.as_deref(), Some("<p@x>"));
    assert_eq!(failed.references, None);
    let plain = threading_headers(&reply_record(None), Ok(Some(stored_parent("<p@x>", None))));
    assert_eq!(plain.in_reply_to, None);
    assert_eq!(plain.references, None);
}
