use prx_email::tool::{
    controlled_error, execute_get, execute_reply, execute_search, execute_sync,
    guard_real_network, invalid_json_args, is_supported_tool, network_value_enabled,
    push_json_str, validate_required_fields, DispatchArgs, EmailTool,
};

fn parse_output(json: &str) -> serde_json::Value {
    serde_json::from_str(json).expect("valid json output")
}

fn args(tool: &str) -> DispatchArgs {
    DispatchArgs {
        tool: tool.to_string(),
        account_id: Some(1),
        message_id: None,
        query: None,
        to: None,
        subject: None,
        body_text: None,
    }
}

fn send_args() -> DispatchArgs {
    DispatchArgs {
        to: Some("a@b.com".to_string()),
        subject: Some("s".to_string()),
        body_text: Some("b".to_string()),
        ..args("email.send")
    }
}

#[test]
fn spec_contains_required_tools() {
    let spec = EmailTool::get_spec_impl();
    assert_eq!(spec.name, "email.execute");
    assert!(spec.parameters_schema.contains("email.sync"));
    assert!(spec.parameters_schema.contains("email.list"));
    assert!(spec.parameters_schema.contains("email.get"));
    assert!(spec.parameters_schema.contains("email.search"));
    assert!(spec.parameters_schema.contains("email.send"));
    assert!(spec.parameters_schema.contains("email.reply"));
}

#[test]
fn schema_is_valid_json() {
    let spec = EmailTool::get_spec_impl();
    let schema = parse_output(&spec.parameters_schema);
    assert_eq!(schema["required"][0], "tool");
    assert!(spec.description.starts_with("PRX email executor."));
}

#[test]
fn execute_list_returns_controlled_success() {
    let out = EmailTool::execute_args(&args("email.list"), false);
    assert!(out.success);
    assert!(out.error.is_none());

    let payload = parse_output(&out.output);
    assert_eq!(payload["ok"], true);
    assert_eq!(payload["tool"], "email.list");
    assert_eq!(payload["source"], "controlled-result");
    assert_eq!(
        out.output,
        "{\"account_id\":1,\"items\":[],\"ok\":true,\"source\":\"controlled-result\",\"tool\":\"email.list\"}"
    );
}

#[test]
fn execute_send_blocked_when_network_disabled() {
    let out = EmailTool::execute_args(&send_args(), false);
    assert!(!out.success);
    let payload = parse_output(&out.output);
    assert_eq!(payload["error_code"], "EMAIL_REAL_NETWORK_DISABLED");
    assert_eq!(payload["guard"], "real-network-disabled");
    assert_eq!(out.error.as_deref(), Some("real network execution disabled by policy"));
}

#[test]
fn execute_send_controlled_error_when_network_enabled() {
    let out = EmailTool::execute_args(&send_args(), true);
    assert!(!out.success);
    let payload = parse_output(&out.output);
    assert_eq!(payload["error_code"], "EMAIL_NOT_IMPLEMENTED");
    assert_eq!(payload["message"], "email.send is routed but send is intentionally blocked in wasm-plugin");
}

#[test]
fn get_and_search_outputs() {
    let mut g = args("email.get");
    g.message_id = Some("<m@x>".to_string());
    g.account_id = None;
    let out = execute_get(&g);
    assert_eq!(
        out.output,
        "{\"account_id\":null,\"message\":{\"from\":null,\"id\":\"<m@x>\",\"snippet\":null,\"subject\":null},\"ok\":true,\"source\":\"controlled-result\",\"tool\":\"email.get\"}"
    );
    let mut s = args("email.search");
    s.query = Some("a \"quoted\"\nline".to_string());
    let out = execute_search(&s);
    let payload = parse_output(&out.output);
    assert_eq!(payload["query"], "a \"quoted\"\nline");
    assert_eq!(payload["account_id"], 1);
    assert_eq!(payload["items"].as_array().map(|a| a.len()), Some(0));
}

#[test]
fn sync_and_reply_are_refused() {
    let out = execute_sync(&args("email.sync"), false);
    assert_eq!(parse_output(&out.output)["tool"], "email.sync");
    let out = execute_sync(&args("email.sync"), true);
    assert_eq!(
        out.error.as_deref(),
        Some("email.sync is routed but real network execution is intentionally not implemented in wasm-plugin")
    );
    let out = execute_reply(&args("email.reply"), true);
    assert_eq!(out.error.as_deref(), Some("email.reply is routed but send is intentionally blocked in wasm-plugin"));
    let guard = guard_real_network("email.reply");
    let payload = parse_output(&guard.output);
    assert_eq!(payload["hint"], "Set PRX_EMAIL_ENABLE_REAL_NETWORK=1 to enable real IMAP/SMTP execution");
    assert_eq!(payload["ok"], false);
}

#[test]
fn dispatch_refuses_unknown_tools_and_bad_arguments() {
    let out = EmailTool::execute_args(&args("email.delete"), true);
    assert_eq!(parse_output(&out.output)["error_code"], "EMAIL_UNSUPPORTED_TOOL");
    assert_eq!(out.error.as_deref(), Some("unsupported tool: email.delete"));
    let out = EmailTool::execute_args(&args("email.get"), true);
    assert_eq!(parse_output(&out.output)["error_code"], "EMAIL_VALIDATION");
    assert_eq!(out.error.as_deref(), Some("message_id is required for email.get"));
    let bad = invalid_json_args("expected value at line 1 column 1");
    assert_eq!(bad.error.as_deref(), Some("invalid json args: expected value at line 1 column 1"));
    assert!(!bad.success);
}

#[test]
fn required_fields_in_order() {
    let mut a = args("email.send");
    assert_eq!(validate_required_fields(&a).as_deref(), Some("to is required for email.send"));
    a.to = Some("x".to_string());
    a.subject = Some("   ".to_string());
    assert_eq!(validate_required_fields(&a).as_deref(), Some("subject is required for email.send"));
    a.subject = Some("s".to_string());
    assert_eq!(validate_required_fields(&a).as_deref(), Some("body_text is required for email.send"));
    a.body_text = Some("b".to_string());
    assert_eq!(validate_required_fields(&a), None);
    a.account_id = Some(0);
    assert_eq!(validate_required_fields(&a).as_deref(), Some("account_id must be greater than 0"));
    let mut r = args("email.reply");
    r.body_text = Some("b".to_string());
    assert_eq!(validate_required_fields(&r).as_deref(), Some("message_id is required for email.reply"));
    r.message_id = Some("m".to_string());
    r.body_text = None;
    assert_eq!(validate_required_fields(&r).as_deref(), Some("body_text is required for email.reply"));
    assert_eq!(validate_required_fields(&args("email.search")).as_deref(), Some("query is required for email.search"));
    assert_eq!(validate_required_fields(&args("email.list")), None);
}

#[test]
fn supported_tools_and_network_switch() {
    for t in ["email.sync", "email.list", "email.get", "email.search", "email.send", "email.reply"] {
        assert!(is_supported_tool(t));
    }
    assert!(!is_supported_tool("email.Send"));
    assert!(!is_supported_tool(""));
    assert!(network_value_enabled(Some(" TRUE ".to_string())));
    assert!(network_value_enabled(Some("1".to_string())));
    assert!(network_value_enabled(Some("On".to_string())));
    assert!(network_value_enabled(Some("yes\n".to_string())));
    assert!(!network_value_enabled(Some("0".to_string())));
    assert!(!network_value_enabled(Some("enable".to_string())));
    assert!(!network_value_enabled(None));
}

#[test]
fn json_strings_are_escaped() {
    let mut out = String::new();
    push_json_str(&mut out, "a\"b\\c\n\r\t\u{8}\u{c}\u{1}é/");
    assert_eq!(out, "\"a\\\"b\\\\c\\n\\r\\t\\b\\f\\u0001é/\"");
    assert_eq!(out, serde_json::to_string("a\"b\\c\n\r\t\u{8}\u{c}\u{1}é/").unwrap());
    let e = controlled_error("CODE", "m\u{1f}".to_string());
    assert_eq!(e.output, "{\"error_code\":\"CODE\",\"message\":\"m\\u001f\",\"ok\":false}");
}
