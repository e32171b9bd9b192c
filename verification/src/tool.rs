//! The `email.execute` tool that the plugin host calls: its description, and the dispatch of a
//! call to the controlled results it gives without touching the network.
use vstd::prelude::*;
use crate::text::{
    ascii_lower_char, ascii_lower_seq, chars_of, concat2, int_decimal, is_blank, is_blank_str, lit,
    push_char, push_i64, push_str, trim, trim_str,
};

verus! {

/// A tool's name, description and JSON schema of its parameters.
pub struct ToolSpec {
    pub name: String,
    pub description: String,
    pub parameters_schema: String,
}

/// What a tool call returns to the host.
pub struct PluginResult {
    pub success: bool,
    pub output: String,
    pub error: Option<String>,
}

/// The arguments of a call.
pub struct DispatchArgs {
    pub tool: String,
    pub account_id: Option<i64>,
    pub message_id: Option<String>,
    pub query: Option<String>,
    pub to: Option<String>,
    pub subject: Option<String>,
    pub body_text: Option<String>,
}

/// The tool.
pub struct EmailTool;

pub const ERR_UNSUPPORTED_TOOL: &'static str = "EMAIL_UNSUPPORTED_TOOL";
pub const ERR_VALIDATION: &'static str = "EMAIL_VALIDATION";
pub const ERR_REAL_NETWORK_DISABLED: &'static str = "EMAIL_REAL_NETWORK_DISABLED";
pub const ERR_NOT_IMPLEMENTED: &'static str = "EMAIL_NOT_IMPLEMENTED";
/// The environment variable that enables real network execution.
pub const ENABLE_REAL_NETWORK_ENV: &'static str = "PRX_EMAIL_ENABLE_REAL_NETWORK";

/// The JSON text of a string as `serde_json::to_string` writes it (quoted, with quotes,
/// backslashes and control characters escaped).
pub uninterp spec fn json_str(s: Seq<char>) -> Seq<char>;

/// A JSON string, or `null`.
pub open spec fn json_opt_str(s: Option<Seq<char>>) -> Seq<char> {
    match s {
        Some(v) => json_str(v),
        None => "null"@,
    }
}

/// A JSON integer, or `null`.
pub open spec fn json_opt_int(i: Option<i64>) -> Seq<char> {
    match i {
        Some(v) => int_decimal(v as int),
        None => "null"@,
    }
}

/// Encodes a string as JSON with `serde_json::to_string`. The contract claims only that the
/// text is a fixed function of the string, named `json_str`; what that text is, is not stated.
/// Serializing a `str` into memory does not fail, so the error arm is not taken.
#[verifier::external_body]
fn json_string(s: &str) -> (r: String)
    ensures
        r@ == json_str(s@),
{
    match serde_json::to_string(s) {
        Ok(text) => text,
        Err(e) => e.to_string(),
    }
}

/// Appends a string as a JSON string.
pub fn push_json_str(out: &mut String, s: &str)
    ensures
        final(out)@ == old(out)@ + json_str(s@),
{
    let text = json_string(s);
    push_str(out, text.as_str());
}

/// Appends a JSON string, or `null`.
pub fn push_json_opt_str(out: &mut String, s: &Option<String>)
    ensures
        final(out)@ == old(out)@ + json_opt_str(s.deep_view()),
{
    match s {
        Some(v) => push_json_str(out, v.as_str()),
        None => push_str(out, "null"),
    }
}

/// Appends a JSON integer, or `null`.
pub fn push_json_opt_int(out: &mut String, i: Option<i64>)
    ensures
        final(out)@ == old(out)@ + json_opt_int(i),
{
    match i {
        Some(v) => push_i64(out, v),
        None => push_str(out, "null"),
    }
}


/// Whether a string is the given name.
fn is_name(s: &String, name: &str) -> (b: bool)
    ensures
        b == (s@ == name@),
{
    *s == lit(name)
}

/// The output of a refused call.
pub open spec fn error_output(code: Seq<char>, message: Seq<char>) -> Seq<char> {
    "{\"error_code\":"@ + json_str(code) + ",\"message\":"@ + json_str(message) + ",\"ok\":false}"@
}

/// A refused call: its output names the error, and the message is also the error.
pub open spec fn is_error_result(r: PluginResult, code: Seq<char>, message: Seq<char>) -> bool {
    &&& !r.success
    &&& r.output@ == error_output(code, message)
    &&& r.error.deep_view() == Some(message)
}

/// A refused call.
pub fn controlled_error(code: &str, message: String) -> (r: PluginResult)
    ensures
        is_error_result(r, code@, message@),
{
    let mut out = lit("{\"error_code\":");
    push_json_str(&mut out, code);
    push_str(&mut out, ",\"message\":");
    push_json_str(&mut out, message.as_str());
    push_str(&mut out, ",\"ok\":false}");
    assert(out@ =~= error_output(code@, message@));
    PluginResult { success: false, output: out, error: Some(message) }
}

/// A successful call with the given output.
pub fn controlled_success(output: String) -> (r: PluginResult)
    ensures
        r.success,
        r.output == output,
        r.error is None,
{
    PluginResult { success: true, output, error: None }
}

/// The hint of a call refused because real network execution is disabled.
pub open spec fn network_hint() -> Seq<char> {
    "Set PRX_EMAIL_ENABLE_REAL_NETWORK=1 to enable real IMAP/SMTP execution"@
}

/// The output of a call refused because real network execution is disabled.
pub open spec fn guard_output(tool: Seq<char>) -> Seq<char> {
    "{\"error_code\":"@ + json_str("EMAIL_REAL_NETWORK_DISABLED"@) + ",\"guard\":"@ + json_str(
        "real-network-disabled"@,
    ) + ",\"hint\":"@ + json_str(network_hint()) + ",\"ok\":false,\"tool\":"@ + json_str(tool)
        + "}"@
}

/// A call refused because real network execution is disabled.
pub open spec fn is_guard_result(r: PluginResult, tool: Seq<char>) -> bool {
    &&& !r.success
    &&& r.output@ == guard_output(tool)
    &&& r.error.deep_view() == Some("real network execution disabled by policy"@)
}

/// Refuses a call that needs the network while real network execution is disabled.
pub fn guard_real_network(tool: &str) -> (r: PluginResult)
    ensures
        is_guard_result(r, tool@),
{
    let mut out = lit("{\"error_code\":");
    push_json_str(&mut out, "EMAIL_REAL_NETWORK_DISABLED");
    push_str(&mut out, ",\"guard\":");
    push_json_str(&mut out, "real-network-disabled");
    push_str(&mut out, ",\"hint\":");
    push_json_str(&mut out, "Set PRX_EMAIL_ENABLE_REAL_NETWORK=1 to enable real IMAP/SMTP execution");
    push_str(&mut out, ",\"ok\":false,\"tool\":");
    push_json_str(&mut out, tool);
    push_str(&mut out, "}");
    assert(out@ =~= guard_output(tool@));
    PluginResult { success: false, output: out, error: Some(lit("real network execution disabled by policy")) }
}

/// The message of a sync that would need the network.
pub open spec fn sync_blocked_message() -> Seq<char> {
    "email.sync is routed but real network execution is intentionally not implemented in wasm-plugin"@
}

/// `email.sync`: refused, by the network guard or as not implemented here.
pub fn execute_sync(args: &DispatchArgs, allow_network: bool) -> (r: PluginResult)
    ensures
        !allow_network ==> is_guard_result(r, args.tool@),
        allow_network ==> is_error_result(r, "EMAIL_NOT_IMPLEMENTED"@, sync_blocked_message()),
{
    if !allow_network {
        return guard_real_network(args.tool.as_str());
    }
    controlled_error(
        "EMAIL_NOT_IMPLEMENTED",
        lit("email.sync is routed but real network execution is intentionally not implemented in wasm-plugin"),
    )
}

/// The output of `email.list`.
pub open spec fn list_output(args: DispatchArgs) -> Seq<char> {
    "{\"account_id\":"@ + json_opt_int(args.account_id) + ",\"items\":[],\"ok\":true,\"source\":"@
        + json_str("controlled-result"@) + ",\"tool\":"@ + json_str(args.tool@) + "}"@
}

/// `email.list`: an empty list.
pub fn execute_list(args: &DispatchArgs) -> (r: PluginResult)
    ensures
        r.success && r.error is None && r.output@ == list_output(*args),
{
    let mut out = lit("{\"account_id\":");
    push_json_opt_int(&mut out, args.account_id);
    push_str(&mut out, ",\"items\":[],\"ok\":true,\"source\":");
    push_json_str(&mut out, "controlled-result");
    push_str(&mut out, ",\"tool\":");
    push_json_str(&mut out, args.tool.as_str());
    push_str(&mut out, "}");
    assert(out@ =~= list_output(*args));
    controlled_success(out)
}

/// The output of `email.get`.
pub open spec fn get_output(args: DispatchArgs) -> Seq<char> {
    "{\"account_id\":"@ + json_opt_int(args.account_id) + ",\"message\":{\"from\":null,\"id\":"@
        + json_opt_str(args.message_id.deep_view()) + ",\"snippet\":null,\"subject\":null},\"ok\":true,\"source\":"@
        + json_str("controlled-result"@) + ",\"tool\":"@ + json_str(args.tool@) + "}"@
}

/// `email.get`: a message with only its ID.
pub fn execute_get(args: &DispatchArgs) -> (r: PluginResult)
    ensures
        r.success && r.error is None && r.output@ == get_output(*args),
{
    let mut out = lit("{\"account_id\":");
    push_json_opt_int(&mut out, args.account_id);
    push_str(&mut out, ",\"message\":{\"from\":null,\"id\":");
    push_json_opt_str(&mut out, &args.message_id);
    push_str(&mut out, ",\"snippet\":null,\"subject\":null},\"ok\":true,\"source\":");
    push_json_str(&mut out, "controlled-result");
    push_str(&mut out, ",\"tool\":");
    push_json_str(&mut out, args.tool.as_str());
    push_str(&mut out, "}");
    assert(out@ =~= get_output(*args));
    controlled_success(out)
}

/// The output of `email.search`.
pub open spec fn search_output(args: DispatchArgs) -> Seq<char> {
    "{\"account_id\":"@ + json_opt_int(args.account_id) + ",\"items\":[],\"ok\":true,\"query\":"@
        + json_opt_str(args.query.deep_view()) + ",\"source\":"@ + json_str("controlled-result"@)
        + ",\"tool\":"@ + json_str(args.tool@) + "}"@
}

/// `email.search`: an empty list.
pub fn execute_search(args: &DispatchArgs) -> (r: PluginResult)
    ensures
        r.success && r.error is None && r.output@ == search_output(*args),
{
    let mut out = lit("{\"account_id\":");
    push_json_opt_int(&mut out, args.account_id);
    push_str(&mut out, ",\"items\":[],\"ok\":true,\"query\":");
    push_json_opt_str(&mut out, &args.query);
    push_str(&mut out, ",\"source\":");
    push_json_str(&mut out, "controlled-result");
    push_str(&mut out, ",\"tool\":");
    push_json_str(&mut out, args.tool.as_str());
    push_str(&mut out, "}");
    assert(out@ =~= search_output(*args));
    controlled_success(out)
}

/// The message of a send or reply that would need the network.
pub open spec fn send_blocked_message(tool: Seq<char>) -> Seq<char> {
    tool + " is routed but send is intentionally blocked in wasm-plugin"@
}

/// `email.send`: refused, by the network guard or as blocked here.
pub fn execute_send(args: &DispatchArgs, allow_network: bool) -> (r: PluginResult)
    ensures
        !allow_network ==> is_guard_result(r, args.tool@),
        allow_network ==> is_error_result(r, "EMAIL_NOT_IMPLEMENTED"@, send_blocked_message(args.tool@)),
{
    if !allow_network {
        return guard_real_network(args.tool.as_str());
    }
    controlled_error(
        "EMAIL_NOT_IMPLEMENTED",
        concat2(args.tool.as_str(), " is routed but send is intentionally blocked in wasm-plugin"),
    )
}

/// `email.reply`: refused, by the network guard or as blocked here.
pub fn execute_reply(args: &DispatchArgs, allow_network: bool) -> (r: PluginResult)
    ensures
        !allow_network ==> is_guard_result(r, args.tool@),
        allow_network ==> is_error_result(r, "EMAIL_NOT_IMPLEMENTED"@, send_blocked_message(args.tool@)),
{
    if !allow_network {
        return guard_real_network(args.tool.as_str());
    }
    controlled_error(
        "EMAIL_NOT_IMPLEMENTED",
        concat2(args.tool.as_str(), " is routed but send is intentionally blocked in wasm-plugin"),
    )
}

/// Whether a value of the network switch enables real network execution: `1`, `true`, `yes`
/// or `on`, ignoring surrounding whitespace and ASCII case.
pub open spec fn network_switch_on(value: Seq<char>) -> bool {
    let v = ascii_lower_seq(trim(value));
    v == "1"@ || v == "true"@ || v == "yes"@ || v == "on"@
}

/// Whether the network switch's value (none when it is unset) enables real network execution.
pub fn network_value_enabled(value: Option<String>) -> (b: bool)
    ensures
        b == match value {
            Some(v) => network_switch_on(v@),
            None => false,
        },
{
    match value {
        None => false,
        Some(v) => {
            let t = trim_str(v.as_str());
            let chars = chars_of(t.as_str());
            let mut lower = String::new();
            let mut i: usize = 0;
            while i < chars.len()
                invariant
                    i <= chars@.len(),
                    lower@ == ascii_lower_seq(chars@.take(i as int)),
                decreases chars@.len() - i,
            {
                push_char(&mut lower, ascii_lower_char(chars[i]));
                i = i + 1;
                assert(lower@ =~= ascii_lower_seq(chars@.take(i as int)));
            }
            assert(chars@.take(i as int) =~= trim(v@));
            is_name(&lower, "1") || is_name(&lower, "true") || is_name(&lower, "yes") || is_name(&lower, "on")
        },
    }
}

/// The six tools.
pub open spec fn supported(tool: Seq<char>) -> bool {
    ||| tool == "email.sync"@
    ||| tool == "email.list"@
    ||| tool == "email.get"@
    ||| tool == "email.search"@
    ||| tool == "email.send"@
    ||| tool == "email.reply"@
}

/// Whether the tool is one of the six.
pub fn is_supported_tool(tool: &str) -> (b: bool)
    ensures
        b == supported(tool@),
{
    let t = lit(tool);
    is_name(&t, "email.sync") || is_name(&t, "email.list") || is_name(&t, "email.get") || is_name(&t, "email.search")
        || is_name(&t, "email.send") || is_name(&t, "email.reply")
}

/// A field that is absent or blank.
pub open spec fn missing(field: Option<String>) -> bool {
    match field {
        Some(s) => is_blank(s@),
        None => true,
    }
}

/// Why a call's arguments are refused, if they are: a field the tool needs is missing (checked
/// in the order of the tool's fields), or the account ID is not positive.
pub open spec fn required_fields_message(args: DispatchArgs) -> Option<Seq<char>> {
    let t = args.tool@;
    if t == "email.get"@ && missing(args.message_id) {
        Some("message_id is required for email.get"@)
    } else if t == "email.search"@ && missing(args.query) {
        Some("query is required for email.search"@)
    } else if t == "email.send"@ && missing(args.to) {
        Some("to is required for email.send"@)
    } else if t == "email.send"@ && missing(args.subject) {
        Some("subject is required for email.send"@)
    } else if t == "email.send"@ && missing(args.body_text) {
        Some("body_text is required for email.send"@)
    } else if t == "email.reply"@ && missing(args.message_id) {
        Some("message_id is required for email.reply"@)
    } else if t == "email.reply"@ && missing(args.body_text) {
        Some("body_text is required for email.reply"@)
    } else if args.account_id is Some && args.account_id->0 <= 0 {
        Some("account_id must be greater than 0"@)
    } else {
        None
    }
}

fn is_missing(field: &Option<String>) -> (b: bool)
    ensures
        b == missing(*field),
{
    match field {
        Some(s) => is_blank_str(s.as_str()),
        None => true,
    }
}

/// Why a call's arguments are refused, if they are.
pub fn validate_required_fields(args: &DispatchArgs) -> (r: Option<String>)
    ensures
        r.deep_view() == required_fields_message(*args),
{
    let get = is_name(&args.tool, "email.get");
    let search = is_name(&args.tool, "email.search");
    let send = is_name(&args.tool, "email.send");
    let reply = is_name(&args.tool, "email.reply");
    if get && is_missing(&args.message_id) {
        Some(lit("message_id is required for email.get"))
    } else if search && is_missing(&args.query) {
        Some(lit("query is required for email.search"))
    } else if send && is_missing(&args.to) {
        Some(lit("to is required for email.send"))
    } else if send && is_missing(&args.subject) {
        Some(lit("subject is required for email.send"))
    } else if send && is_missing(&args.body_text) {
        Some(lit("body_text is required for email.send"))
    } else if reply && is_missing(&args.message_id) {
        Some(lit("message_id is required for email.reply"))
    } else if reply && is_missing(&args.body_text) {
        Some(lit("body_text is required for email.reply"))
    } else if args.account_id.is_some() && args.account_id.unwrap() <= 0 {
        Some(lit("account_id must be greater than 0"))
    } else {
        None
    }
}

/// The result of a call whose arguments were read: refused when the tool is unknown or its
/// arguments are, else the tool's own result.
pub open spec fn dispatch_result(args: DispatchArgs, allow_network: bool, r: PluginResult) -> bool {
    let t = args.tool@;
    if !supported(t) {
        is_error_result(r, "EMAIL_UNSUPPORTED_TOOL"@, "unsupported tool: "@ + t)
    } else if required_fields_message(args) is Some {
        is_error_result(r, "EMAIL_VALIDATION"@, required_fields_message(args)->0)
    } else if t == "email.list"@ {
        r.success && r.error is None && r.output@ == list_output(args)
    } else if t == "email.get"@ {
        r.success && r.error is None && r.output@ == get_output(args)
    } else if t == "email.search"@ {
        r.success && r.error is None && r.output@ == search_output(args)
    } else if t == "email.sync"@ {
        if allow_network {
            is_error_result(r, "EMAIL_NOT_IMPLEMENTED"@, sync_blocked_message())
        } else {
            is_guard_result(r, t)
        }
    } else if allow_network {
        is_error_result(r, "EMAIL_NOT_IMPLEMENTED"@, send_blocked_message(t))
    } else {
        is_guard_result(r, t)
    }
}

impl EmailTool {
    /// The tool's description.
    pub fn get_spec_impl() -> (r: ToolSpec)
        ensures
            r.name@ == "email.execute"@,
            r.description@ == "PRX email executor. Supported tools: email.sync, email.list, email.get, email.search, email.send, email.reply"@,
            r.parameters_schema@ == TOOL_SCHEMA@,
    {
        ToolSpec {
            name: lit("email.execute"),
            description: lit("PRX email executor. Supported tools: email.sync, email.list, email.get, email.search, email.send, email.reply"),
            parameters_schema: lit(TOOL_SCHEMA),
        }
    }

    /// Runs a call whose arguments were read, with real network execution enabled or not.
    pub fn execute_args(args: &DispatchArgs, allow_network: bool) -> (r: PluginResult)
        ensures
            dispatch_result(*args, allow_network, r),
    {
        proof {
            reveal_strlit("email.sync");
            reveal_strlit("email.list");
            reveal_strlit("email.get");
            reveal_strlit("email.search");
            reveal_strlit("email.send");
            reveal_strlit("email.reply");
            lemma_tool_names_differ();
        }
        if !is_supported_tool(args.tool.as_str()) {
            return controlled_error("EMAIL_UNSUPPORTED_TOOL", concat2("unsupported tool: ", args.tool.as_str()));
        }
        match validate_required_fields(args) {
            Some(msg) => return controlled_error("EMAIL_VALIDATION", msg),
            None => {},
        }
        if is_name(&args.tool, "email.sync") {
            execute_sync(args, allow_network)
        } else if is_name(&args.tool, "email.list") {
            execute_list(args)
        } else if is_name(&args.tool, "email.get") {
            execute_get(args)
        } else if is_name(&args.tool, "email.search") {
            execute_search(args)
        } else if is_name(&args.tool, "email.send") {
            execute_send(args, allow_network)
        } else {
            execute_reply(args, allow_network)
        }
    }
}

/// The result of a call whose arguments are not valid JSON of the expected shape.
pub fn invalid_json_args(detail: &str) -> (r: PluginResult)
    ensures
        is_error_result(r, "EMAIL_VALIDATION"@, "invalid json args: "@ + detail@),
{
    controlled_error("EMAIL_VALIDATION", concat2("invalid json args: ", detail))
}

/// The JSON schema of the tool's parameters.
pub const TOOL_SCHEMA: &'static str = "{
  \"type\": \"object\",
  \"properties\": {
    \"tool\": {
      \"type\": \"string\",
      \"enum\": [\"email.sync\", \"email.list\", \"email.get\", \"email.search\", \"email.send\", \"email.reply\"],
      \"description\": \"Email tool name to execute\"
    },
    \"account_id\": { \"type\": \"integer\" },
    \"message_id\": { \"type\": \"string\" },
    \"query\": { \"type\": \"string\" },
    \"to\": { \"type\": \"string\" },
    \"subject\": { \"type\": \"string\" },
    \"body_text\": { \"type\": \"string\" }
  },
  \"required\": [\"tool\"]
}";


/// A tool that needs the network.
pub open spec fn needs_network(tool: Seq<char>) -> bool {
    tool == "email.sync"@ || tool == "email.send"@ || tool == "email.reply"@
}

/// A tool that only reads.
pub open spec fn reads_only(tool: Seq<char>) -> bool {
    tool == "email.list"@ || tool == "email.get"@ || tool == "email.search"@
}

proof fn lemma_tool_names_differ()
    ensures
        "email.sync"@ != "email.list"@,
        "email.sync"@ != "email.get"@,
        "email.sync"@ != "email.search"@,
        "email.send"@ != "email.list"@,
        "email.send"@ != "email.get"@,
        "email.send"@ != "email.search"@,
        "email.reply"@ != "email.list"@,
        "email.reply"@ != "email.get"@,
        "email.reply"@ != "email.search"@,
        "email.send"@ != "email.sync"@,
        "email.reply"@ != "email.sync"@,
{
    reveal_strlit("email.sync");
    reveal_strlit("email.list");
    reveal_strlit("email.get");
    reveal_strlit("email.search");
    reveal_strlit("email.send");
    reveal_strlit("email.reply");
    assert("email.sync"@[6] != "email.list"@[6]);
    assert("email.send"@[7] != "email.sync"@[7]);
    assert("email.send"@[6] != "email.list"@[6]);
    assert("email.send"@.len() != "email.search"@.len());
    assert("email.reply"@.len() != "email.get"@.len());
    assert("email.reply"@.len() != "email.search"@.len());
}

/// A tool that needs the network never succeeds here, whether or not the network is enabled.
pub proof fn network_tools_never_succeed(args: DispatchArgs, allow_network: bool, r: PluginResult)
    requires
        dispatch_result(args, allow_network, r),
        needs_network(args.tool@),
    ensures
        !r.success,
        r.error is Some,
{
    lemma_tool_names_differ();
}

/// With the network disabled, a valid call of a tool that needs it is refused by the network
/// guard.
pub proof fn network_disabled_means_guarded(args: DispatchArgs, r: PluginResult)
    requires
        dispatch_result(args, false, r),
        needs_network(args.tool@),
        required_fields_message(args) is None,
    ensures
        is_guard_result(r, args.tool@),
{
    lemma_tool_names_differ();
}

/// A valid call of a tool that only reads succeeds, whether or not the network is enabled.
pub proof fn read_tools_succeed(args: DispatchArgs, allow_network: bool, r: PluginResult)
    requires
        dispatch_result(args, allow_network, r),
        reads_only(args.tool@),
        required_fields_message(args) is None,
    ensures
        r.success,
        r.error is None,
{
    lemma_tool_names_differ();
}

/// Every result either succeeds without an error or fails with one.
pub proof fn result_success_iff_no_error(args: DispatchArgs, allow_network: bool, r: PluginResult)
    requires
        dispatch_result(args, allow_network, r),
    ensures
        r.success <==> r.error is None,
{
}

} // verus!
