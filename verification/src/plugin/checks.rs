//! Validation of requests and configuration, feature gates, and the shapes of responses.
use vstd::prelude::*;
use crate::text::{is_digit, lemma_int_decimal_injective, lemma_int_decimal_shape, 
    ascii_lower, ascii_lower_char, ascii_lower_seq, chars_of, concat2,
    concat3, find_chars, find_from, matches_at, int_decimal, is_blank, is_blank_str, lit, nat_digits, push_char, push_i64, push_str, push_u64,
    string_of, string_of_range,
};
use crate::db::OutboxMessage;
use crate::plugin::types::{
    ApiError, ApiResponse, AttachmentPolicy, AuthConfig, EmailTransportConfig, ErrorCode,
    ProviderError, SendFailureMode,
};

verus! {

/// The error described by a code and a message.
pub open spec fn error_is(e: ApiError, code: ErrorCode, message: Seq<char>) -> bool {
    e.code == code && e.message@ == message
}

/// A failed response with no data, carrying the given error.
pub open spec fn failed_with<T>(r: ApiResponse<T>, code: ErrorCode, message: Seq<char>) -> bool {
    &&& !r.ok
    &&& r.data is None
    &&& r.error is Some
    &&& error_is(r.error->0, code, message)
}

/// A successful response carrying `data`.
pub fn ok<T>(data: T) -> (r: ApiResponse<T>)
    ensures
        r.ok,
        r.data == Some(data),
        r.error is None,
{
    ApiResponse { ok: true, data: Some(data), error: None }
}

/// A failed response with no data.
pub fn fail<T>(code: ErrorCode, message: &str) -> (r: ApiResponse<T>)
    ensures
        failed_with(r, code, message@),
{
    ApiResponse { ok: false, data: None, error: Some(ApiError { code, message: lit(message) }) }
}

/// A storage error carrying the store's description of what went wrong.
pub fn storage_err(message: String) -> (r: ApiError)
    ensures
        error_is(r, ErrorCode::Storage, message@),
{
    ApiError { code: ErrorCode::Storage, message }
}

/// A network error carrying the transport's description of what went wrong.
pub fn network_err(message: String) -> (r: ApiError)
    ensures
        error_is(r, ErrorCode::Network, message@),
{
    ApiError { code: ErrorCode::Network, message }
}

/// A rejection by the mail provider; the description goes to the debug details only.
pub fn provider_err(debug_message: String) -> (r: ProviderError)
    ensures
        r.mode == SendFailureMode::Provider,
        r.message@ == "provider rejected the request"@,
        r.debug_message@ == debug_message@,
{
    ProviderError {
        mode: SendFailureMode::Provider,
        message: lit("provider rejected the request"),
        debug_message,
    }
}

/// A failure to reach the mail provider; the description goes to the debug details only.
pub fn network_err_provider(debug_message: String) -> (r: ProviderError)
    ensures
        r.mode == SendFailureMode::Network,
        r.message@ == "network error while contacting provider"@,
        r.debug_message@ == debug_message@,
{
    ProviderError {
        mode: SendFailureMode::Network,
        message: lit("network error while contacting provider"),
        debug_message,
    }
}

pub open spec fn limit_message(limit: int) -> Seq<char> {
    "limit_out_of_range:"@ + int_decimal(limit) + " (expected 1..=500)"@
}

/// Accepts a list or search limit only within 1..=500.
pub fn sanitize_limit(limit: i64) -> (r: Result<i64, ApiError>)
    ensures
        1 <= limit <= 500 ==> r == Ok::<i64, ApiError>(limit),
        !(1 <= limit <= 500) ==> r is Err && error_is(
            r->Err_0,
            ErrorCode::Validation,
            limit_message(limit as int),
        ),
{
    if !(1 <= limit && limit <= 500) {
        let mut m = lit("limit_out_of_range:");
        push_i64(&mut m, limit);
        push_str(&mut m, " (expected 1..=500)");
        return Err(ApiError { code: ErrorCode::Validation, message: m });
    }
    Ok(limit)
}

/// Exactly one of a password and an OAuth token is set.
pub open spec fn one_credential(auth: AuthConfig) -> bool {
    auth.password is Some != auth.oauth_token is Some
}

/// What `validate_auth_config` answers: `None` to accept, or the error's code and message.
pub open spec fn auth_check(protocol: Seq<char>, user: Seq<char>, auth: AuthConfig) -> Option<
    (ErrorCode, Seq<char>),
> {
    if is_blank(user) {
        Some((ErrorCode::Validation, protocol + ".user is required"@))
    } else if one_credential(auth) {
        None
    } else {
        Some(
            (ErrorCode::Validation, protocol + ".auth must set exactly one of password/oauth_token"@),
        )
    }
}

/// The result agrees with an expected verdict.
pub open spec fn verdict_is(r: Result<(), ApiError>, v: Option<(ErrorCode, Seq<char>)>) -> bool {
    match v {
        None => r is Ok,
        Some((code, m)) => r is Err && error_is(r->Err_0, code, m),
    }
}

/// Requires a user name and exactly one of password and OAuth token.
pub fn validate_auth_config(protocol: &str, user: &str, auth: &AuthConfig) -> (r: Result<
    (),
    ApiError,
>)
    ensures
        verdict_is(r, auth_check(protocol@, user@, *auth)),
{
    if is_blank_str(user) {
        return Err(
            ApiError { code: ErrorCode::Validation, message: concat2(protocol, ".user is required") },
        );
    }
    if auth.password.is_some() != auth.oauth_token.is_some() {
        Ok(())
    } else {
        Err(
            ApiError {
                code: ErrorCode::Validation,
                message: concat2(protocol, ".auth must set exactly one of password/oauth_token"),
            },
        )
    }
}

/// What `validate_transport_config` answers.
pub open spec fn transport_check(cfg: EmailTransportConfig) -> Option<(ErrorCode, Seq<char>)> {
    if is_blank(cfg.imap.host@) || is_blank(cfg.smtp.host@) {
        Some((ErrorCode::Validation, "imap/smtp host is required"@))
    } else if cfg.attachment_policy.max_size_bytes == 0
        || cfg.attachment_policy.allowed_content_types@.len() == 0 {
        Some((ErrorCode::Validation, "attachment policy must define max size and allowed types"@))
    } else if auth_check("imap"@, cfg.imap.user@, cfg.imap.auth) is Some {
        auth_check("imap"@, cfg.imap.user@, cfg.imap.auth)
    } else {
        auth_check("smtp"@, cfg.smtp.user@, cfg.smtp.auth)
    }
}

/// Requires both hosts, an attachment policy with a size limit and allowed types, and valid
/// IMAP and SMTP credentials.
pub fn validate_transport_config(cfg: &EmailTransportConfig) -> (r: Result<(), ApiError>)
    ensures
        verdict_is(r, transport_check(*cfg)),
{
    if is_blank_str(cfg.imap.host.as_str()) || is_blank_str(cfg.smtp.host.as_str()) {
        return Err(
            ApiError { code: ErrorCode::Validation, message: lit("imap/smtp host is required") },
        );
    }
    if cfg.attachment_policy.max_size_bytes == 0
        || cfg.attachment_policy.allowed_content_types.len() == 0 {
        return Err(
            ApiError {
                code: ErrorCode::Validation,
                message: lit("attachment policy must define max size and allowed types"),
            },
        );
    }
    validate_auth_config("imap", cfg.imap.user.as_str(), &cfg.imap.auth)?;
    validate_auth_config("smtp", cfg.smtp.user.as_str(), &cfg.smtp.auth)?;
    Ok(())
}

/// The content types that a policy allows.
pub open spec fn allows(policy: AttachmentPolicy, content_type: Seq<char>) -> bool {
    exists|i: int|
        0 <= i < policy.allowed_content_types@.len()
            && #[trigger] policy.allowed_content_types@[i]@ == content_type
}

/// The default policy: 25 MiB, and PDF, JPEG, PNG, plain text and ZIP, in that order.
pub open spec fn is_default_policy(p: AttachmentPolicy) -> bool {
    &&& p.max_size_bytes == 25 * 1024 * 1024
    &&& p.allowed_content_types@.len() == 5
    &&& p.allowed_content_types@[0]@ == "application/pdf"@
    &&& p.allowed_content_types@[1]@ == "image/jpeg"@
    &&& p.allowed_content_types@[2]@ == "image/png"@
    &&& p.allowed_content_types@[3]@ == "text/plain"@
    &&& p.allowed_content_types@[4]@ == "application/zip"@
}

impl AttachmentPolicy {
    /// The default policy.
    pub fn default() -> (r: Self)
        ensures
            is_default_policy(r),
    {
        let mut allowed: Vec<String> = Vec::new();
        allowed.push(lit("application/pdf"));
        allowed.push(lit("image/jpeg"));
        allowed.push(lit("image/png"));
        allowed.push(lit("text/plain"));
        allowed.push(lit("application/zip"));
        AttachmentPolicy { max_size_bytes: 25 * 1024 * 1024, allowed_content_types: allowed }
    }
}

/// Whether the policy allows the content type.
pub fn policy_allows(policy: &AttachmentPolicy, content_type: &str) -> (b: bool)
    ensures
        b == allows(*policy, content_type@),
{
    let ct = lit(content_type);
    let mut i: usize = 0;
    while i < policy.allowed_content_types.len()
        invariant
            ct@ == content_type@,
            i <= policy.allowed_content_types@.len(),
            forall|j: int|
                0 <= j < i ==> #[trigger] policy.allowed_content_types@[j]@ != content_type@,
        decreases policy.allowed_content_types.len() - i,
    {
        if policy.allowed_content_types[i] == ct {
            return true;
        }
        i = i + 1;
    }
    false
}

/// Refuses an attachment larger than the policy's limit, or of a content type it does not
/// allow; the size is checked first.
pub fn enforce_attachment_policy(policy: &AttachmentPolicy, content_type: &str, size: usize) -> (r:
    Result<(), ProviderError>)
    ensures
        size > policy.max_size_bytes ==> r is Err && r->Err_0.mode == SendFailureMode::Provider
            && r->Err_0.message@ == "attachment exceeds size limit"@ && r->Err_0.debug_message@
            == "size="@ + nat_digits(size as nat) + " max="@ + nat_digits(
            policy.max_size_bytes as nat,
        ),
        size <= policy.max_size_bytes && !allows(*policy, content_type@) ==> r is Err
            && r->Err_0.mode == SendFailureMode::Provider && r->Err_0.message@
            == "attachment content type is not allowed"@ && r->Err_0.debug_message@
            == "content_type="@ + content_type@,
        size <= policy.max_size_bytes && allows(*policy, content_type@) ==> r is Ok,
{
    if size > policy.max_size_bytes {
        let mut d = lit("size=");
        push_u64(&mut d, size as u64);
        push_str(&mut d, " max=");
        push_u64(&mut d, policy.max_size_bytes as u64);
        return Err(
            ProviderError {
                mode: SendFailureMode::Provider,
                message: lit("attachment exceeds size limit"),
                debug_message: d,
            },
        );
    }
    if !policy_allows(policy, content_type) {
        return Err(
            ProviderError {
                mode: SendFailureMode::Provider,
                message: lit("attachment content type is not allowed"),
                debug_message: concat2("content_type=", content_type),
            },
        );
    }
    Ok(())
}

/// The deterministic SMTP idempotency key of a delivery attempt.
pub open spec fn idempotency_key(id: int, retries: int) -> Seq<char> {
    "outbox-"@ + int_decimal(id) + "-"@ + int_decimal(retries)
}

/// Distinct delivery attempts (record and retry count) have distinct idempotency keys.
pub proof fn idempotency_keys_are_distinct(id1: int, r1: int, id2: int, r2: int)
    requires
        idempotency_key(id1, r1) == idempotency_key(id2, r2),
    ensures
        id1 == id2,
        r1 == r2,
{
    reveal_strlit("outbox-");
    reveal_strlit("-");
    let a = int_decimal(id1);
    let b = int_decimal(id2);
    let rest1 = a + "-"@ + int_decimal(r1);
    let rest2 = b + "-"@ + int_decimal(r2);
    assert(idempotency_key(id1, r1).skip(7) =~= rest1);
    assert(idempotency_key(id2, r2).skip(7) =~= rest2);
    assert(rest1 == rest2);
    lemma_int_decimal_shape(id1);
    lemma_int_decimal_shape(id2);
    if a.len() < b.len() {
        assert(rest1[a.len() as int] == '-');
        assert(rest2[a.len() as int] == b[a.len() as int]);
        assert(is_digit(b[a.len() as int]));
    } else if b.len() < a.len() {
        assert(rest2[b.len() as int] == '-');
        assert(rest1[b.len() as int] == a[b.len() as int]);
        assert(is_digit(a[b.len() as int]));
    }
    assert(a.len() == b.len());
    assert(rest1.take(a.len() as int) =~= a);
    assert(rest2.take(b.len() as int) =~= b);
    lemma_int_decimal_injective(id1, id2);
    assert(rest1.skip(a.len() as int + 1) =~= int_decimal(r1));
    assert(rest2.skip(b.len() as int + 1) =~= int_decimal(r2));
    lemma_int_decimal_injective(r1, r2);
}

/// The idempotency key `outbox-<id>-<retries>`, which names one delivery attempt.
pub fn build_outbox_idempotency_key(outbox: &OutboxMessage) -> (r: String)
    ensures
        r@ == idempotency_key(outbox.id as int, outbox.retries as int),
{
    let mut s = lit("outbox-");
    push_i64(&mut s, outbox.id);
    push_str(&mut s, "-");
    push_i64(&mut s, outbox.retries);
    s
}

/// What `redact_email` prints for `value`.
pub open spec fn redacted_email(value: Seq<char>) -> Seq<char> {
    match find_from(value, seq!['@'], 0) {
        Some(k) => {
            let local = value.take(k);
            let head = if local.len() > 0 {
                local[0]
            } else {
                '*'
            };
            seq![head] + "***@"@ + value.skip(k + 1)
        },
        None => "***"@,
    }
}

/// Hides an address's local part but its first character: `a***@example.com`.
pub fn redact_email(value: &str) -> (r: String)
    ensures
        r@ == redacted_email(value@),
{
    let v = chars_of(value);
    let mut at: Vec<char> = Vec::new();
    at.push('@');
    assert(at@ =~= seq!['@']);
    match find_chars(&v, &at, 0) {
        Some(k) => {
            assert(matches_at(v@, at@, k as int));
            let n = v.len();
            assert(k + 1 <= n);
            let head = if k > 0 {
                v[0]
            } else {
                '*'
            };
            let mut s = String::new();
            push_char(&mut s, head);
            push_str(&mut s, "***@");
            let domain = string_of_range(&v, k + 1, n);
            push_str(&mut s, domain.as_str());
            assert(at@ =~= seq!['@']);
            assert(v@.skip(k + 1) =~= v@.subrange(k + 1, v@.len() as int));
            assert(s@ =~= redacted_email(value@));
            s
        },
        None => {
            assert(at@ =~= seq!['@']);
            lit("***")
        },
    }
}

} // verus!

verus! {

/// Line breaks become spaces, so that a message stays on one log line.
pub open spec fn one_line(s: Seq<char>) -> Seq<char> {
    s.map_values(|c: char| if c == '\n' || c == '\r' { ' ' } else { c })
}

/// Cuts `s` after the first credential marker that occurs in it, matched without regard to
/// ASCII case, and marks it redacted; `None` when no marker occurs.
pub open spec fn cut_after(s: Seq<char>, token: Seq<char>) -> Option<Seq<char>> {
    match find_from(ascii_lower_seq(s), token, 0) {
        Some(i) => Some(s.take(i + token.len()) + "[REDACTED]"@),
        None => None,
    }
}

pub open spec fn redact_credentials(s: Seq<char>) -> Seq<char> {
    match cut_after(s, "authorization:"@) {
        Some(r) => r,
        None => match cut_after(s, "bearer "@) {
            Some(r) => r,
            None => match cut_after(s, "password="@) {
                Some(r) => r,
                None => s,
            },
        },
    }
}

/// The maximum length, in characters, of a debug message before its ellipsis.
pub open spec fn max_debug_len() -> nat {
    160
}

/// The redacted debug message before its length is bounded.
pub open spec fn debug_redacted(raw: Seq<char>) -> Seq<char> {
    redact_credentials(one_line(raw))
}

/// What `sanitize_debug_message` returns: the redacted message, cut to its first 160
/// characters and followed by `…` where it was longer.
pub open spec fn sanitized_debug(raw: Seq<char>) -> Seq<char> {
    let r = debug_redacted(raw);
    if r.len() > max_debug_len() {
        r.take(max_debug_len() as int).push('…')
    } else {
        r
    }
}

fn redact_with(w: &Vec<char>, l: &Vec<char>, token: &str) -> (r: Option<Vec<char>>)
    requires
        l@ == ascii_lower_seq(w@),
    ensures
        r is Some <==> cut_after(w@, token@) is Some,
        r is Some ==> r->0@ == cut_after(w@, token@)->0,
{
    let t = chars_of(token);
    match find_chars(l, &t, 0) {
        Some(i) => {
            let n = w.len();
            assert(l@.len() == w@.len());
            assert(i + t.len() <= n);
            let mut out: Vec<char> = Vec::new();
            let mut j: usize = 0;
            while j < i + t.len()
                invariant
                    i + t@.len() <= n == w@.len(),
                    j <= i + t@.len(),
                    out@ == w@.take(j as int),
                decreases i + t.len() - j,
            {
                out.push(w[j]);
                assert(out@ =~= w@.take(j + 1));
                j = j + 1;
            }
            let red = chars_of("[REDACTED]");
            let mut k: usize = 0;
            while k < red.len()
                invariant
                    out@ == w@.take(i + t@.len()) + red@.take(k as int),
                    k <= red@.len(),
                decreases red.len() - k,
            {
                out.push(red[k]);
                assert(out@ =~= w@.take(i + t@.len()) + red@.take(k + 1));
                k = k + 1;
            }
            assert(red@.take(red@.len() as int) =~= red@);
            Some(out)
        },
        None => None,
    }
}

fn redacted_chars(raw: &str) -> (red: Vec<char>)
    ensures
        red@ == debug_redacted(raw@),
{
    let v = chars_of(raw);
    let mut w: Vec<char> = Vec::new();
    let mut l: Vec<char> = Vec::new();
    let mut i: usize = 0;
    while i < v.len()
        invariant
            v@ == raw@,
            i <= v@.len(),
            w@ == one_line(v@).take(i as int),
            l@ == ascii_lower_seq(w@),
        decreases v.len() - i,
    {
        let c = if v[i] == '\n' || v[i] == '\r' {
            ' '
        } else {
            v[i]
        };
        w.push(c);
        l.push(ascii_lower_char(c));
        assert(w@ =~= one_line(v@).take(i + 1));
        assert(l@ =~= ascii_lower_seq(w@));
        i = i + 1;
    }
    assert(w@ =~= one_line(raw@));
    match redact_with(&w, &l, "authorization:") {
        Some(r) => r,
        None => match redact_with(&w, &l, "bearer ") {
            Some(r) => r,
            None => match redact_with(&w, &l, "password=") {
                Some(r) => r,
                None => w,
            },
        },
    }
}

/// Makes provider details safe for the debug log: line breaks become spaces, anything after
/// an `authorization:`, `bearer ` or `password=` marker (checked in that order, ASCII case
/// ignored) is replaced by `[REDACTED]`, and a message over 160 characters is cut to 160
/// characters and ends in `…`.
pub fn sanitize_debug_message(raw: &str) -> (r: String)
    ensures
        r@ == sanitized_debug(raw@),
{
    let red = redacted_chars(raw);
    if red.len() > 160 {
        let mut out = string_of_range(&red, 0, 160);
        push_char(&mut out, '…');
        assert(red@.subrange(0, 160) =~= red@.take(160));
        out
    } else {
        string_of(&red)
    }
}

} // verus!

verus! {

pub open spec fn disabled_message(feature_key: Seq<char>, account_id: int) -> Seq<char> {
    "feature '"@ + feature_key + "' is disabled for account "@ + int_decimal(account_id)
}

pub open spec fn unknown_flag_message(feature_key: Seq<char>) -> Seq<char> {
    "unknown feature flag: "@ + feature_key
}

/// What the feature gate answers for a flag lookup: the store's error, the flag's state, or
/// that no such flag exists.
pub open spec fn gate_verdict(
    account_id: int,
    feature_key: Seq<char>,
    lookup: Result<Option<bool>, String>,
) -> Option<(ErrorCode, Seq<char>)> {
    match lookup {
        Err(e) => Some((ErrorCode::Storage, e@)),
        Ok(Some(true)) => None,
        Ok(Some(false)) => Some((ErrorCode::FeatureDisabled, disabled_message(feature_key, account_id))),
        Ok(None) => Some((ErrorCode::Validation, unknown_flag_message(feature_key))),
    }
}

/// Lets a request through only when its feature is enabled for the account; `lookup` is the
/// store's answer for the flag (its error's text, or the flag's state if the flag exists).
pub fn feature_gate(account_id: i64, feature_key: &str, lookup: Result<Option<bool>, String>) -> (r:
    Result<(), ApiError>)
    ensures
        verdict_is(r, gate_verdict(account_id as int, feature_key@, lookup)),
{
    match lookup {
        Err(e) => Err(storage_err(e)),
        Ok(Some(true)) => Ok(()),
        Ok(Some(false)) => {
            let mut m = concat3("feature '", feature_key, "' is disabled for account ");
            push_i64(&mut m, account_id);
            Err(ApiError { code: ErrorCode::FeatureDisabled, message: m })
        },
        Ok(None) => Err(
            ApiError {
                code: ErrorCode::Validation,
                message: concat2("unknown feature flag: ", feature_key),
            },
        ),
    }
}

/// A flag's state as `is_feature_enabled` reports it: unknown flags are a validation error.
pub fn feature_state(feature_key: &str, lookup: Result<Option<bool>, String>) -> (r: Result<
    bool,
    ApiError,
>)
    ensures
        lookup is Err ==> r is Err && error_is(r->Err_0, ErrorCode::Storage, lookup->Err_0@),
        lookup == Ok::<Option<bool>, String>(None) ==> r is Err && error_is(
            r->Err_0,
            ErrorCode::Validation,
            unknown_flag_message(feature_key@),
        ),
        forall|b: bool| lookup == Ok::<Option<bool>, String>(Some(b)) ==> r == Ok::<bool, ApiError>(b),
{
    match lookup {
        Err(e) => Err(storage_err(e)),
        Ok(Some(b)) => Ok(b),
        Ok(None) => Err(
            ApiError {
                code: ErrorCode::Validation,
                message: concat2("unknown feature flag: ", feature_key),
            },
        ),
    }
}

/// The account's rollout bucket, 0..=99.
pub open spec fn rollout_bucket(account_id: int) -> int {
    account_id % 100
}

/// Whether a percentage rollout enables the feature for the account: its bucket is below the
/// percentage, capped at 100.
pub open spec fn rollout_enables(account_id: int, percentage: int) -> bool {
    rollout_bucket(account_id) < if percentage < 100 {
        percentage
    } else {
        100
    }
}

pub fn rollout_enabled(account_id: i64, percentage: u8) -> (b: bool)
    ensures
        b == rollout_enables(account_id as int, percentage as int),
{
    let bounded: i64 = if percentage < 100 {
        percentage as i64
    } else {
        100
    };
    let bucket: i64 = if account_id >= 0 {
        account_id % 100
    } else {
        let b: i64 = -(account_id + 1);
        99 - (b % 100)
    };
    assert(bucket == rollout_bucket(account_id as int)) by (nonlinear_arith)
        requires
            account_id >= 0 ==> bucket == account_id % 100,
            account_id < 0 ==> bucket == 99 - ((-(account_id + 1)) % 100),
    {
        if account_id < 0 {
            let b = -(account_id + 1);
            let q = b / 100;
            assert(b == 100 * q + b % 100);
            assert(account_id == 100 * (-q - 1) + (99 - b % 100));
        }
    }
    bucket < bounded
}

/// A percentage rollout never enables a feature at 0% and always enables it at 100% or more.
pub proof fn rollout_extremes(account_id: int, percentage: int)
    ensures
        percentage <= 0 ==> !rollout_enables(account_id, percentage),
        percentage >= 100 ==> rollout_enables(account_id, percentage),
{
}

/// Raising the percentage never disables an account that a lower percentage enabled.
pub proof fn rollout_monotone(account_id: int, p1: int, p2: int)
    requires
        p1 <= p2,
        rollout_enables(account_id, p1),
    ensures
        rollout_enables(account_id, p2),
{
}

} // verus!
