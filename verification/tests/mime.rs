use prx_email::plugin::mime::{
    attachment_meta, build_parsed_mime, fallback_message_id, first_address, first_text_of,
    flatten_addresses, generated_message_id, hex_lower, new_message_from_parsed,
    parse_mime_message, snippet_from, MimeParts,
};

fn s(v: &str) -> String {
    v.to_string()
}

fn empty_parts() -> MimeParts {
    MimeParts {
        text_bodies: vec![],
        body_text: None,
        html_bodies: vec![],
        body_html: None,
        raw_html: None,
        message_id: None,
        subject: None,
        from: None,
        to: None,
        references: None,
        attachments: vec![],
    }
}

#[test]
fn parse_mime_extracts_text_html_and_attachments() {
    let raw = b"From: Alice <alice@example.com>\r\nTo: Bob <bob@example.com>\r\nSubject: Hello\r\nMessage-ID: <m1@example.com>\r\nMIME-Version: 1.0\r\nContent-Type: multipart/mixed; boundary=abc\r\n\r\n--abc\r\nContent-Type: text/plain; charset=utf-8\r\n\r\nPlain body\r\n--abc\r\nContent-Type: text/html; charset=utf-8\r\n\r\n<html><body>HTML body</body></html>\r\n--abc\r\nContent-Type: text/plain; name=file.txt\r\nContent-Disposition: attachment; filename=file.txt\r\n\r\nhello\r\n--abc--\r\n";
    let parsed = parse_mime_message(raw, 1, 1).expect("parse");
    assert_eq!(parsed.body_text.as_deref(), Some("Plain body"));
    assert!(parsed.body_html.is_some());
    assert_eq!(parsed.attachments.len(), 1);
    assert_eq!(parsed.attachments[0].filename.as_deref(), Some("file.txt"));
    assert!(parsed.attachments[0].local_path.is_none());
}

#[test]
fn parse_mime_fallback_message_id_is_stable_and_unique_for_different_payloads() {
    let raw_a = b"From: a@example.com\r\nSubject: A\r\n\r\nhello";
    let raw_b = b"From: b@example.com\r\nSubject: B\r\n\r\nworld";
    assert_eq!(raw_a.len(), raw_b.len());

    let parsed_a = parse_mime_message(raw_a, 9, 100).expect("a");
    let parsed_b = parse_mime_message(raw_b, 9, 100).expect("b");

    assert!(parsed_a.message_id.starts_with("generated-9-100-"));
    assert!(parsed_b.message_id.starts_with("generated-9-100-"));
    assert_ne!(parsed_a.message_id, parsed_b.message_id);
}

#[test]
fn parsed_headers_of_a_simple_message() {
    let raw = b"From: Alice <alice@example.com>\r\nTo: Bob <bob@example.com>, carol@example.com\r\nSubject: Hello\r\nMessage-ID: <m1@example.com>\r\nReferences: <a@x> <b@x>\r\n\r\nJust text";
    let p = parse_mime_message(raw, 1, 1).expect("parse");
    assert_eq!(p.message_id, "m1@example.com");
    assert_eq!(p.subject.as_deref(), Some("Hello"));
    assert_eq!(p.sender.as_deref(), Some("alice@example.com"));
    assert_eq!(p.recipients.as_deref(), Some("bob@example.com, carol@example.com"));
    assert_eq!(p.snippet.as_deref(), Some("Just text"));
    assert_eq!(p.references_header.as_deref(), Some("b@x"));
    assert_eq!(p.body_text.as_deref(), Some("Just text"));
}

#[test]
fn fallback_id_is_the_sha256_of_the_raw_message() {
    let id = fallback_message_id(b"abc", 1, 2);
    assert_eq!(
        id,
        "generated-1-2-ba7816bf8f01cfea414140de5dae2223b00361a396177a9cb410ff61f20015ad"
    );
    assert_eq!(generated_message_id(-3, 0, &vec![0x00, 0x0f, 0xab]), "generated--3-0-000fab");
    assert_eq!(hex_lower(&vec![255, 16, 1]), "ff1001");
}

#[test]
fn bodies_snippet_and_addresses_from_parser_answers() {
    let mut parts = empty_parts();
    parts.text_bodies = vec![None, Some(s("second text"))];
    parts.body_text = Some(s("parser text"));
    parts.html_bodies = vec![None];
    parts.body_html = None;
    parts.raw_html = Some(s("<p>raw</p>"));
    parts.subject = Some(s("Subj"));
    parts.from = Some(vec![vec![None, Some(s("x@a.com")), Some(s("y@a.com"))]]);
    parts.to = Some(vec![vec![Some(s("a@x"))], vec![], vec![None, Some(s("b@x"))]]);
    parts.references = Some(s("<r@x>"));
    parts.attachments = vec![
        (Some(s("a.pdf")), Some((s("application"), Some(s("pdf")))), vec![1, 2, 3]),
        (None, Some((s("image"), None)), vec![]),
        (None, None, vec![9]),
    ];
    let m = build_parsed_mime(&parts, s("given-id"));
    assert_eq!(m.message_id, "given-id");
    assert_eq!(m.body_text.as_deref(), Some("second text"));
    assert_eq!(m.body_html.as_deref(), Some("<p>raw</p>"));
    assert_eq!(m.snippet.as_deref(), Some("second text"));
    assert_eq!(m.sender.as_deref(), Some("x@a.com"));
    assert_eq!(m.recipients.as_deref(), Some("a@x, b@x"));
    assert_eq!(m.references_header.as_deref(), Some("<r@x>"));
    assert_eq!(m.attachments.len(), 3);
    assert_eq!(m.attachments[0].content_type.as_deref(), Some("application/pdf"));
    assert_eq!(m.attachments[0].size, 3);
    assert_eq!(m.attachments[1].content_type.as_deref(), Some("image/octet-stream"));
    assert_eq!(m.attachments[2].content_type, None);
    assert_eq!(m.attachments[2].filename, None);

    let mut html_only = empty_parts();
    html_only.body_html = Some("h".repeat(130));
    let h = build_parsed_mime(&html_only, s("id"));
    assert_eq!(h.body_text, None);
    assert_eq!(h.snippet, Some("h".repeat(120)));
    let none = build_parsed_mime(&empty_parts(), s("id"));
    assert_eq!(none.snippet, None);
    assert_eq!(none.sender, None);
}

#[test]
fn address_helpers() {
    assert_eq!(flatten_addresses(&None), None);
    assert_eq!(flatten_addresses(&Some(vec![vec![None]])), None);
    assert_eq!(first_address(&Some(vec![vec![Some(s(" \"a,b\"@x ")), Some(s("c@x"))]])).as_deref(), Some("\"a"));
    assert_eq!(first_address(&Some(vec![vec![Some(s("  z@x  "))]])).as_deref(), Some("z@x"));
    assert_eq!(first_text_of(&vec![None, None]), None);
    assert_eq!(snippet_from(&"é".repeat(121)), "é".repeat(120));
    let meta = attachment_meta(&(Some(s("n")), Some((s("text"), Some(s("plain")))), vec![0; 4]));
    assert_eq!(meta.filename.as_deref(), Some("n"));
    assert_eq!(meta.content_type.as_deref(), Some("text/plain"));
    assert_eq!(meta.size, 4);
    assert!(meta.local_path.is_none());
}

#[test]
fn stored_message_from_parsed() {
    let m = build_parsed_mime(&empty_parts(), s("id-1"));
    let n = new_message_from_parsed(m, 3, Some(4), 50, s("[]"));
    assert_eq!(n.account_id, 3);
    assert_eq!(n.folder_id, Some(4));
    assert_eq!(n.message_id, "id-1");
    assert_eq!(n.attachments_json.as_deref(), Some("[]"));
    assert_eq!(n.received_at, Some(50));
    assert_eq!(n.now_ts, 50);
}

#[test]
fn unparseable_input_gives_nothing() {
    assert!(parse_mime_message(b"", 1, 1).is_none());
}
