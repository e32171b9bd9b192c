//! The decisions of handing an outbox message to the SMTP provider: which credentials to
//! present, the headers that identify the attempt, where an attachment's bytes come from, and
//! how the provider's answer is recorded.
use vstd::prelude::*;
use base64::Engine;
use crate::text::{concat2, concat3, lit, nat_digits, push_str};
use crate::db::{Message, OutboxMessage};
use crate::plugin::types::{
    ApiError, AttachmentInput, AttachmentPolicy, AuthConfig, ErrorCode, ProviderError,
    SendFailureMode,
};
use crate::plugin::checks::{
    allows, build_outbox_idempotency_key, enforce_attachment_policy, error_is, idempotency_key, network_err_provider,
};
use crate::plugin::headers::{build_references_chain, join_spaced, join_with_spaces, references_chain, strings_view};
use crate::plugin::paths::{comps_prefix, path_comps, render, resolved_comps, safe_resolve_under_root};

verus! {

/// The credentials presented to the SMTP server.
#[derive(Debug, Clone)]
pub enum SmtpCredential {
    Password(String),
    OAuthToken(String),
}

/// A provider error of the `Provider` kind.
pub open spec fn provider_error_is(e: ProviderError, message: Seq<char>, debug_message: Seq<char>) -> bool {
    e.mode == SendFailureMode::Provider && e.message@ == message && e.debug_message@ == debug_message
}

/// The SMTP credentials: the password, or the OAuth token (for XOAUTH2); exactly one must be
/// set.
pub fn smtp_credentials(auth: &AuthConfig) -> (r: Result<SmtpCredential, ProviderError>)
    ensures
        match (auth.password, auth.oauth_token) {
            (Some(p), None) => r matches Ok(SmtpCredential::Password(q)) && q@ == p@,
            (None, Some(t)) => r matches Ok(SmtpCredential::OAuthToken(q)) && q@ == t@,
            _ => r matches Err(e) && provider_error_is(
                e,
                "smtp auth must set exactly one of password/oauth_token"@,
                "smtp auth config invalid"@,
            ),
        },
{
    match (&auth.password, &auth.oauth_token) {
        (Some(p), None) => Ok(SmtpCredential::Password(p.clone())),
        (None, Some(t)) => Ok(SmtpCredential::OAuthToken(t.clone())),
        _ => Err(
            ProviderError {
                mode: SendFailureMode::Provider,
                message: lit("smtp auth must set exactly one of password/oauth_token"),
                debug_message: lit("smtp auth config invalid"),
            },
        ),
    }
}

/// How to log in to the IMAP server.
#[derive(Debug, Clone)]
pub enum ImapLogin {
    /// `LOGIN` with this password.
    Password(String),
    /// `AUTHENTICATE XOAUTH2` answering the challenge with this payload.
    XOAuth2(String),
}

/// The XOAUTH2 payload: `user=<user>^Aauth=Bearer <token>^A^A`.
pub open spec fn xoauth2_payload(user: Seq<char>, token: Seq<char>) -> Seq<char> {
    "user="@ + user + "\x01auth=Bearer "@ + token + "\x01\x01"@
}

/// How to log in to the IMAP server: with the password, or with the OAuth token through
/// XOAUTH2; exactly one must be set.
pub fn imap_login_method(user: &str, auth: &AuthConfig) -> (r: Result<ImapLogin, ApiError>)
    ensures
        match (auth.password, auth.oauth_token) {
            (Some(p), None) => r matches Ok(ImapLogin::Password(q)) && q@ == p@,
            (None, Some(t)) => r matches Ok(ImapLogin::XOAuth2(q)) && q@ == xoauth2_payload(user@, t@),
            _ => r matches Err(e) && error_is(
                e,
                ErrorCode::Validation,
                "imap.auth must set exactly one of password/oauth_token"@,
            ),
        },
{
    match (&auth.password, &auth.oauth_token) {
        (Some(p), None) => Ok(ImapLogin::Password(p.clone())),
        (None, Some(t)) => {
            let mut s = concat3("user=", user, "\x01auth=Bearer ");
            push_str(&mut s, t.as_str());
            push_str(&mut s, "\x01\x01");
            Ok(ImapLogin::XOAuth2(s))
        },
        _ => Err(
            ApiError {
                code: ErrorCode::Validation,
                message: lit("imap.auth must set exactly one of password/oauth_token"),
            },
        ),
    }
}

/// The `Message-ID` of a delivery attempt: `<outbox-<id>-<retries>@prx-email.local>`.
pub open spec fn attempt_message_id(id: int, retries: int) -> Seq<char> {
    "<"@ + idempotency_key(id, retries) + "@prx-email.local>"@
}

/// The `Message-ID` header of a delivery attempt.
pub fn smtp_message_id(outbox: &OutboxMessage) -> (r: String)
    ensures
        r@ == attempt_message_id(outbox.id as int, outbox.retries as int),
{
    let key = build_outbox_idempotency_key(outbox);
    concat3("<", key.as_str(), "@prx-email.local>")
}

/// The message a delivery replies to, as the account and Message-ID to look it up by: none
/// when the record is not a reply.
pub fn reply_parent_key(outbox: &OutboxMessage) -> (r: Option<(i64, String)>)
    ensures
        match outbox.in_reply_to_message_id {
            Some(p) => r matches Some(k) && k.0 == outbox.account_id && k.1@ == p@,
            None => r is None,
        },
{
    match &outbox.in_reply_to_message_id {
        Some(p) => Some((outbox.account_id, p.clone())),
        None => None,
    }
}

/// The headers that thread a delivery into its conversation.
pub struct ThreadingHeaders {
    /// `In-Reply-To`, when set.
    pub in_reply_to: Option<String>,
    /// `References`, when set.
    pub references: Option<String>,
}

/// The `References` header a reply carries, given what looking its parent up gave: the
/// parent's chain extended by the parent's ID where the parent was found and the chain is not
/// empty; none otherwise.
pub open spec fn reply_references(parent: Result<Option<Message>, String>) -> Option<Seq<char>> {
    match parent {
        Ok(Some(m)) => {
            let chain = references_chain(
                match m.references_header {
                    Some(h) => Some(h@),
                    None => None,
                },
                m.message_id@,
            );
            if chain.len() > 0 {
                Some(chain)
            } else {
                None
            }
        },
        _ => None,
    }
}

/// The threading headers of a delivery of `outbox`, where `parent` is what looking up
/// `reply_parent_key(outbox)` gave (`Ok(None)` when there is nothing to look up): a reply
/// carries `In-Reply-To` with the parent's ID and, from the parent found, `References`; any
/// other record carries neither.
pub fn threading_headers(outbox: &OutboxMessage, parent: Result<Option<Message>, String>) -> (r: ThreadingHeaders)
    ensures
        match outbox.in_reply_to_message_id {
            Some(p) => {
                &&& r.in_reply_to matches Some(h) && h@ == p@
                &&& r.references.deep_view() == reply_references(parent)
            },
            None => r.in_reply_to is None && r.references is None,
        },
{
    match &outbox.in_reply_to_message_id {
        None => ThreadingHeaders { in_reply_to: None, references: None },
        Some(p) => {
            let references = match parent {
                Ok(Some(m)) => {
                    let chain = match &m.references_header {
                        Some(h) => build_references_chain(Some(h.as_str()), m.message_id.as_str()),
                        None => build_references_chain(None, m.message_id.as_str()),
                    };
                    if chain.as_str().unicode_len() > 0 {
                        Some(chain)
                    } else {
                        None
                    }
                },
                _ => None,
            };
            ThreadingHeaders { in_reply_to: Some(p.clone()), references }
        },
    }
}

/// The ID the library records for a message the provider accepted: `smtp-` followed by the
/// lines of the provider's reply, joined by spaces.
pub fn provider_message_id(reply_lines: &Vec<String>) -> (r: String)
    ensures
        r@ == "smtp-"@ + join_spaced(strings_view(reply_lines@)),
{
    let joined = join_with_spaces(reply_lines);
    concat2("smtp-", joined.as_str())
}

/// The failure when there is no transport configuration to send with.
pub fn missing_smtp_config() -> (r: ProviderError)
    ensures
        provider_error_is(r, "smtp config missing"@, "smtp transport config is None"@),
{
    ProviderError {
        mode: SendFailureMode::Provider,
        message: lit("smtp config missing"),
        debug_message: lit("smtp transport config is None"),
    }
}

/// The failure when the transport configuration does not validate.
pub fn invalid_transport(err: &ApiError) -> (r: ProviderError)
    ensures
        provider_error_is(r, err.message@, "transport config invalid: "@ + err.message@),
{
    ProviderError {
        mode: SendFailureMode::Provider,
        message: err.message.clone(),
        debug_message: concat2("transport config invalid: ", err.message.as_str()),
    }
}

/// What parsing a string as an e-mail address (`lettre::Address`) gives: nothing, or the
/// parser's description of what is wrong.
pub uninterp spec fn lettre_address_check(address: Seq<char>) -> Result<(), Seq<char>>;

/// Parses `address` with `lettre::Address::from_str`. The contract claims only that the outcome
/// (and the error's text) is `lettre_address_check` of the input; which strings lettre accepts
/// is left unsaid.
#[verifier::external_body]
fn parse_address(address: &str) -> (r: Result<(), String>)
    ensures
        match (r, lettre_address_check(address@)) {
            (Ok(()), Ok(())) => true,
            (Err(e), Err(f)) => e@ == f,
            _ => false,
        },
{
    match address.parse::<lettre::Address>() {
        Ok(_) => Ok(()),
        Err(e) => Err(e.to_string()),
    }
}

/// The failure for a sender address that lettre refused, from lettre's answer.
pub fn sender_verdict(parsed: Result<(), String>) -> (r: Result<(), ProviderError>)
    ensures
        match parsed {
            Ok(()) => r is Ok,
            Err(e) => r matches Err(p) && provider_error_is(
                p,
                "invalid smtp sender address"@,
                "invalid smtp user address: "@ + e@,
            ),
        },
{
    match parsed {
        Ok(()) => Ok(()),
        Err(e) => Err(
            ProviderError {
                mode: SendFailureMode::Provider,
                message: lit("invalid smtp sender address"),
                debug_message: concat2("invalid smtp user address: ", e.as_str()),
            },
        ),
    }
}

/// The failure for a recipient address that lettre refused, from lettre's answer.
pub fn recipient_verdict(parsed: Result<(), String>) -> (r: Result<(), ProviderError>)
    ensures
        match parsed {
            Ok(()) => r is Ok,
            Err(e) => r matches Err(p) && provider_error_is(
                p,
                "invalid recipient address"@,
                "invalid recipient address: "@ + e@,
            ),
        },
{
    match parsed {
        Ok(()) => Ok(()),
        Err(e) => Err(
            ProviderError {
                mode: SendFailureMode::Provider,
                message: lit("invalid recipient address"),
                debug_message: concat2("invalid recipient address: ", e.as_str()),
            },
        ),
    }
}

/// The verdict of `sender_verdict` as the address's lettre check gives it.
pub open spec fn address_verdict_ok(check: Result<(), Seq<char>>, r: Result<(), ProviderError>, message: Seq<char>, prefix: Seq<char>) -> bool {
    match check {
        Ok(()) => r is Ok,
        Err(e) => r matches Err(p) && provider_error_is(p, message, prefix + e),
    }
}

/// Checks the sender (the SMTP user) and the recipient, in that order, as lettre parses them.
pub fn check_smtp_addresses(from: &str, to: &str) -> (r: Result<(), ProviderError>)
    ensures
        lettre_address_check(from@) is Err ==> address_verdict_ok(
            lettre_address_check(from@),
            r,
            "invalid smtp sender address"@,
            "invalid smtp user address: "@,
        ),
        lettre_address_check(from@) is Ok ==> address_verdict_ok(
            lettre_address_check(to@),
            r,
            "invalid recipient address"@,
            "invalid recipient address: "@,
        ),
{
    let f = sender_verdict(parse_address(from));
    if f.is_err() {
        return f;
    }
    recipient_verdict(parse_address(to))
}

/// What decoding a string as standard base64 (`base64::engine::general_purpose::STANDARD`)
/// gives: the bytes, or the decoder's description of what is wrong.
pub uninterp spec fn base64_standard_decode(input: Seq<char>) -> Result<Seq<u8>, Seq<char>>;

/// Decodes standard base64 with the `base64` crate. The contract claims only that the outcome
/// is `base64_standard_decode` of the input; the alphabet and padding rules are left unsaid.
#[verifier::external_body]
fn decode_base64(input: &str) -> (r: Result<Vec<u8>, String>)
    ensures
        match (r, base64_standard_decode(input@)) {
            (Ok(b), Ok(c)) => b@ == c,
            (Err(e), Err(f)) => e@ == f,
            _ => false,
        },
{
    base64::engine::general_purpose::STANDARD.decode(input).map_err(|e| e.to_string())
}

/// Where an attachment's bytes come from.
#[derive(Debug, Clone)]
pub enum AttachmentSource {
    /// The bytes themselves, decoded from the request.
    Bytes(Vec<u8>),
    /// A file to read.
    File(String),
}

/// The failure for an attachment whose base64 the decoder refused.
pub fn decoded_attachment(decoded: Result<Vec<u8>, String>) -> (r: Result<AttachmentSource, ProviderError>)
    ensures
        match decoded {
            Ok(b) => r matches Ok(AttachmentSource::Bytes(c)) && c@ == b@,
            Err(e) => r matches Err(p) && provider_error_is(
                p,
                "provider rejected the request"@,
                e@,
            ),
        },
{
    match decoded {
        Ok(b) => Ok(AttachmentSource::Bytes(b)),
        Err(e) => Err(crate::plugin::checks::provider_err(e)),
    }
}


/// The debug details of an attachment over the size limit.
pub open spec fn size_debug(size: nat, max: nat) -> Seq<char> {
    "size="@ + nat_digits(size) + " max="@ + nat_digits(max)
}

/// What the attachment policy answers for `bytes` of type `content_type`: the bytes where they
/// are within the size limit and of an allowed type; otherwise the error, size first.
pub open spec fn policy_verdict(
    policy: AttachmentPolicy,
    content_type: Seq<char>,
    bytes: Seq<u8>,
    r: Result<Vec<u8>, ProviderError>,
) -> bool {
    if bytes.len() > policy.max_size_bytes {
        r matches Err(p) && provider_error_is(
            p,
            "attachment exceeds size limit"@,
            size_debug(bytes.len(), policy.max_size_bytes as nat),
        )
    } else if !allows(policy, content_type) {
        r matches Err(p) && provider_error_is(
            p,
            "attachment content type is not allowed"@,
            "content_type="@ + content_type,
        )
    } else {
        r matches Ok(b) && b@ == bytes
    }
}

/// Holds the bytes of an attachment to the policy's size limit and content types.
pub fn checked_attachment_bytes(policy: &AttachmentPolicy, content_type: &str, bytes: Vec<u8>) -> (r: Result<
    Vec<u8>,
    ProviderError,
>)
    ensures
        policy_verdict(*policy, content_type@, bytes@, r),
{
    match enforce_attachment_policy(policy, content_type, bytes.len()) {
        Err(e) => Err(e),
        Ok(()) => Ok(bytes),
    }
}

/// The bytes of an attachment read from a file, where `read` is what reading it gave: a
/// failed read is a network error carrying its description; what was read is held to the
/// policy.
pub fn attachment_file_bytes(policy: &AttachmentPolicy, content_type: &str, read: Result<Vec<u8>, String>) -> (r:
    Result<Vec<u8>, ProviderError>)
    ensures
        match read {
            Ok(b) => policy_verdict(*policy, content_type@, b@, r),
            Err(e) => r matches Err(p) && p.mode == SendFailureMode::Network && p.message@
                == "network error while contacting provider"@ && p.debug_message@ == e@,
        },
{
    match read {
        Ok(b) => checked_attachment_bytes(policy, content_type, b),
        Err(e) => Err(network_err_provider(e)),
    }
}

/// Where the bytes of a requested attachment come from: decoded from its base64 (and then
/// within the size limit), or read from its path (resolved under the attachment store's root,
/// `store_root`, when a store is configured). Its content type must be allowed, and exactly one
/// of base64 and path given.
pub fn attachment_source(input: &AttachmentInput, policy: &AttachmentPolicy, store_root: Option<String>) -> (r:
    Result<AttachmentSource, ProviderError>)
    ensures
        !allows(*policy, input.content_type@) ==> (r matches Err(p) && provider_error_is(
            p,
            "attachment content type is not allowed"@,
            "content_type="@ + input.content_type@,
        )),
        allows(*policy, input.content_type@) ==> match (input.base64, input.path) {
            (Some(b), None) => match base64_standard_decode(b@) {
                Ok(c) => if c.len() <= policy.max_size_bytes {
                    r matches Ok(AttachmentSource::Bytes(d)) && d@ == c
                } else {
                    r matches Err(p) && provider_error_is(
                        p,
                        "attachment exceeds size limit"@,
                        size_debug(c.len(), policy.max_size_bytes as nat),
                    )
                },
                Err(e) => r matches Err(p) && provider_error_is(p, "provider rejected the request"@, e),
            },
            (None, Some(path)) => match store_root {
                Some(root) => if comps_prefix(path_comps(root@), resolved_comps(root@, path@)) {
                    r matches Ok(AttachmentSource::File(f)) && f@ == render(resolved_comps(root@, path@))
                } else {
                    r matches Err(p) && provider_error_is(
                        p,
                        "attachment path escapes storage root"@,
                        "root="@ + root@ + " candidate="@ + render(resolved_comps(root@, path@)),
                    )
                },
                None => r matches Ok(AttachmentSource::File(f)) && f@ == path@,
            },
            _ => r matches Err(p) && provider_error_is(
                p,
                "attachment requires exactly one of base64 or path"@,
                "attachment input has both/none of base64/path"@,
            ),
        },
{
    match enforce_attachment_policy(policy, input.content_type.as_str(), 0) {
        Err(e) => return Err(e),
        Ok(()) => {},
    }
    match (&input.base64, &input.path) {
        (Some(b), None) => match decoded_attachment(decode_base64(b.as_str())) {
            Ok(AttachmentSource::Bytes(d)) => match checked_attachment_bytes(policy, input.content_type.as_str(), d) {
                Ok(c) => Ok(AttachmentSource::Bytes(c)),
                Err(e) => Err(e),
            },
            other => other,
        },
        (None, Some(path)) => match store_root {
            Some(root) => match safe_resolve_under_root(root.as_str(), path.as_str()) {
                Ok(f) => Ok(AttachmentSource::File(f)),
                Err(e) => Err(e),
            },
            None => Ok(AttachmentSource::File(path.clone())),
        },
        _ => Err(
            ProviderError {
                mode: SendFailureMode::Provider,
                message: lit("attachment requires exactly one of base64 or path"),
                debug_message: lit("attachment input has both/none of base64/path"),
            },
        ),
    }
}


/// What parsing a string as a MIME content type (`lettre::message::header::ContentType::parse`)
/// gives: nothing, or the parser's description of what is wrong.
pub uninterp spec fn lettre_content_type_check(content_type: Seq<char>) -> Result<(), Seq<char>>;

/// Parses a content type with lettre. The contract claims only that the outcome (and the error's
/// text) is `lettre_content_type_check` of the input; which strings lettre accepts is left
/// unsaid.
#[verifier::external_body]
fn parse_content_type(content_type: &str) -> (r: Result<(), String>)
    ensures
        match (r, lettre_content_type_check(content_type@)) {
            (Ok(()), Ok(())) => true,
            (Err(e), Err(f)) => e@ == f,
            _ => false,
        },
{
    match lettre::message::header::ContentType::parse(content_type) {
        Ok(_) => Ok(()),
        Err(e) => Err(e.to_string()),
    }
}

/// The failure for an attachment content type that lettre refused, from lettre's answer.
pub fn content_type_verdict(parsed: Result<(), String>) -> (r: Result<(), ProviderError>)
    ensures
        match parsed {
            Ok(()) => r is Ok,
            Err(e) => r matches Err(p) && provider_error_is(p, "provider rejected the request"@, e@),
        },
{
    match parsed {
        Ok(()) => Ok(()),
        Err(e) => Err(crate::plugin::checks::provider_err(e)),
    }
}

/// Checks that lettre reads an attachment's content type.
pub fn check_content_type(content_type: &str) -> (r: Result<(), ProviderError>)
    ensures
        match lettre_content_type_check(content_type@) {
            Ok(()) => r is Ok,
            Err(e) => r matches Err(p) && provider_error_is(p, "provider rejected the request"@, e),
        },
{
    content_type_verdict(parse_content_type(content_type))
}

} // verus!
