//! The outbox: how `send`, `reply` and `retry_outbox` queue a message and deliver it.
//!
//! Delivery alternates store and network work with decisions, so it is a state machine:
//! `OutboxFlow::step` takes the outcome of the last action and returns the next state and
//! action, and the caller performs each action and reports its outcome, until the action is
//! `Respond`. The store claims a record (moves it to `sending`) in one atomic update, only
//! while it is pending or failed and due, and finalizes it (moves it from `sending` to `sent` or
//! `failed`) only while it is still `sending`, so two deliveries of one record cannot both send
//! it.
use vstd::prelude::*;
use crate::text::{int_decimal, is_blank, is_blank_str, lit, push_i64, push_str};
use crate::db::{Message, NewOutboxMessage, OutboxMessage, UpdateOutboxStatus};
use crate::plugin::types::{
    ApiError, ApiResponse, AttachmentInput, ErrorCode, ProviderError, ReplyEmailRequest,
    RetryOutboxRequest, SendEmailRequest, SendFailureMode, SendResult,
};
use crate::plugin::checks::{error_is, fail, failed_with, feature_gate, gate_verdict, ok, verdict_is};

verus! {

pub open spec fn opt_seq(o: Option<String>) -> Option<Seq<char>> {
    match o {
        Some(s) => Some(s@),
        None => None,
    }
}

/// 2 to the power `n`.
pub open spec fn pow2(n: nat) -> nat
    decreases n,
{
    if n == 0 {
        1
    } else {
        2 * pow2((n - 1) as nat)
    }
}

/// Seconds to wait before the next attempt after `retries` failed attempts:
/// 5 * 2^min(retries, 10).
pub open spec fn retry_backoff(retries: int) -> int {
    5 * pow2(if retries < 10 {
        retries as nat
    } else {
        10
    }) as int
}

/// The backoff after a failed attempt, `5 * 2^min(retries, 10)` seconds.
pub fn send_backoff_seconds(retries: i64) -> (r: i64)
    requires
        0 <= retries,
    ensures
        r == retry_backoff(retries as int),
        5 <= r <= 5120,
{
    let e: i64 = if retries < 10 {
        retries
    } else {
        10
    };
    let mut p: i64 = 1;
    let mut i: i64 = 0;
    proof {
        lemma_pow2_ten();
    }
    while i < e
        invariant
            0 <= i <= e <= 10,
            p == pow2(i as nat),
            pow2(10) == 1024,
        decreases e - i,
    {
        proof {
            lemma_pow2_mono(i as nat, 9);
            lemma_pow2_mono(9, 10);
        }
        assert(pow2((i + 1) as nat) == 2 * pow2(i as nat));
        p = p * 2;
        i = i + 1;
    }
    proof {
        lemma_pow2_mono(0, e as nat);
        lemma_pow2_mono(e as nat, 10);
    }
    5 * p
}

/// The powers of two that the backoffs reach.
pub proof fn lemma_pow2_ten()
    ensures
        pow2(10) == 1024,
        pow2(9) == 512,
        pow2(0) == 1,
{
    reveal_with_fuel(pow2, 11);
}

/// Powers of two grow with the exponent.
pub proof fn lemma_pow2_mono(i: nat, j: nat)
    requires
        i <= j,
    ensures
        pow2(i) <= pow2(j),
    decreases j,
{
    if i < j {
        lemma_pow2_mono(i, (j - 1) as nat);
    }
}

/// A record that a delivery may claim: pending or failed, and due.
pub open spec fn claimable(status: Seq<char>, next_attempt_at: int, now_ts: int) -> bool {
    (status == "pending"@ || status == "failed"@) && next_attempt_at <= now_ts
}

/// The record's retry count and the time leave room for one more failed attempt.
pub open spec fn schedulable(o: OutboxMessage, now_ts: int) -> bool {
    -1 <= o.retries < i64::MAX && now_ts + retry_backoff(o.retries + 1) <= i64::MAX
}

/// The error code of a failed delivery.
pub open spec fn mode_code(mode: SendFailureMode) -> ErrorCode {
    match mode {
        SendFailureMode::Network => ErrorCode::Network,
        SendFailureMode::Provider => ErrorCode::Provider,
    }
}

/// The message of a simulated failure.
pub open spec fn simulated_message(mode: SendFailureMode) -> Seq<char> {
    match mode {
        SendFailureMode::Network => "simulated network timeout"@,
        SendFailureMode::Provider => "simulated provider rejection"@,
    }
}

/// The failure that a request's `failure_mode` simulates.
pub fn simulated_failure(mode: SendFailureMode) -> (r: ProviderError)
    ensures
        r.mode == mode,
        r.message@ == simulated_message(mode),
        r.debug_message@ == "simulated failure"@,
{
    let message = match mode {
        SendFailureMode::Network => lit("simulated network timeout"),
        SendFailureMode::Provider => lit("simulated provider rejection"),
    };
    ProviderError { mode, message, debug_message: lit("simulated failure") }
}

/// A queued outbox record as `send` and `reply` create it: pending, due now, never tried.
pub open spec fn queued(
    n: NewOutboxMessage,
    account_id: i64,
    to: Seq<char>,
    subject: Seq<char>,
    body: Seq<char>,
    in_reply_to: Option<Seq<char>>,
    now_ts: i64,
) -> bool {
    &&& n.account_id == account_id
    &&& n.to_recipients@ == to
    &&& n.subject@ == subject
    &&& n.body_text@ == body
    &&& opt_seq(n.in_reply_to_message_id) == in_reply_to
    &&& n.status@ == "pending"@
    &&& n.retries == 0
    &&& n.last_error is None
    &&& n.next_attempt_at == now_ts
    &&& n.now_ts == now_ts
}

/// The result reported for a record.
pub open spec fn result_is(
    r: SendResult,
    id: i64,
    status: Seq<char>,
    retries: int,
    provider_message_id: Option<Seq<char>>,
    next_attempt_at: int,
) -> bool {
    &&& r.outbox_id == id
    &&& r.status@ == status
    &&& r.retries == retries
    &&& opt_seq(r.provider_message_id) == provider_message_id
    &&& r.next_attempt_at == next_attempt_at
}

/// The update that records a sent message: retries unchanged, no error, the provider's ID.
pub open spec fn sent_update(
    u: UpdateOutboxStatus,
    id: i64,
    o: OutboxMessage,
    provider_message_id: Seq<char>,
    now_ts: i64,
) -> bool {
    &&& u.id == id
    &&& u.status@ == "sent"@
    &&& u.retries == o.retries
    &&& u.last_error is None
    &&& opt_seq(u.provider_message_id) == Some(provider_message_id)
    &&& u.next_attempt_at == now_ts
    &&& u.now_ts == now_ts
}

/// The update that records a failed attempt: one more retry, the error, and the next
/// attempt pushed back by the backoff.
pub open spec fn failed_update(
    u: UpdateOutboxStatus,
    id: i64,
    o: OutboxMessage,
    message: Seq<char>,
    now_ts: i64,
) -> bool {
    &&& u.id == id
    &&& u.status@ == "failed"@
    &&& u.retries == o.retries + 1
    &&& opt_seq(u.last_error) == Some(message)
    &&& u.provider_message_id is None
    &&& u.next_attempt_at == now_ts + retry_backoff(o.retries + 1)
    &&& u.now_ts == now_ts
}

/// What a failed attempt reports: not ok, the record's new state, and the error.
pub open spec fn failed_response(
    r: ApiResponse<SendResult>,
    id: i64,
    o: OutboxMessage,
    mode: SendFailureMode,
    message: Seq<char>,
    now_ts: i64,
) -> bool {
    &&& !r.ok
    &&& r.data is Some
    &&& result_is(
        r.data->0,
        id,
        "failed"@,
        o.retries + 1,
        None,
        now_ts + retry_backoff(o.retries + 1),
    )
    &&& r.error is Some
    &&& error_is(r.error->0, mode_code(mode), message)
}

/// The outcome of an action, as the caller reports it. A store failure is reported as the
/// store error's text.
pub enum FlowEvent {
    FeatureLookup(Result<Option<bool>, String>),
    Created(Result<i64, String>),
    ParentLoaded(Result<Option<Message>, String>),
    OutboxLoaded(Result<Option<OutboxMessage>, String>),
    OAuthChecked(Result<(), ApiError>),
    Claimed(Result<bool, String>),
    ProviderResult(Result<String, ProviderError>),
    Finalized(Result<bool, String>),
}

/// What the caller does next.
pub enum FlowAction {
    /// Look up the feature flag for the account (`Ok(None)` when the flag does not exist).
    CheckFeature { account_id: i64, feature_key: String },
    /// Look up the account's message with this Message-ID.
    LoadParent { account_id: i64, message_id: String },
    /// Insert the record and report its ID.
    CreateOutbox(NewOutboxMessage),
    /// Read the record.
    LoadOutbox(i64),
    /// Refresh expiring OAuth tokens.
    EnsureOAuthFresh { now_ts: i64 },
    /// In one atomic update, set the record's status to `sending` if it is claimable at
    /// `now_ts` (pending or failed, and due), and report whether it did.
    ClaimOutbox { id: i64, now_ts: i64 },
    /// Send the record through the mail provider.
    SendViaProvider { outbox: OutboxMessage, attachment: Option<AttachmentInput> },
    /// Count a failed send first when `failed` is set; then apply the update if the record's
    /// status is still `sending`, and report whether it did.
    FinalizeIfSending { update: UpdateOutboxStatus, failed: bool },
    /// The request's answer.
    Respond(ApiResponse<SendResult>),
}

/// Where a `send`, `reply` or `retry_outbox` request stands.
#[allow(inconsistent_fields)]
pub enum OutboxFlow {
    SendGate { req: SendEmailRequest },
    ReplyGate { req: ReplyEmailRequest },
    ReplyParent { req: ReplyEmailRequest },
    Creating { now_ts: i64, attachment: Option<AttachmentInput>, failure_mode: Option<SendFailureMode> },
    RetryLoad { req: RetryOutboxRequest },
    RetryGate { req: RetryOutboxRequest, outbox: OutboxMessage },
    DeliverOAuth { id: i64, now_ts: i64, attachment: Option<AttachmentInput>, failure_mode: Option<SendFailureMode> },
    DeliverInspect { id: i64, now_ts: i64, attachment: Option<AttachmentInput>, failure_mode: Option<SendFailureMode> },
    DeliverClaim { id: i64, now_ts: i64, attachment: Option<AttachmentInput>, failure_mode: Option<SendFailureMode> },
    DeliverUnclaimed,
    DeliverLoad { id: i64, now_ts: i64, attachment: Option<AttachmentInput>, failure_mode: Option<SendFailureMode> },
    DeliverSend { id: i64, now_ts: i64, outbox: OutboxMessage },
    DeliverFinalize { response: ApiResponse<SendResult> },
    Done,
}

} // verus!

verus! {

/// The action answers the request with a failure carrying this code and message.
pub open spec fn responds_fail(a: FlowAction, code: ErrorCode, message: Seq<char>) -> bool {
    a matches FlowAction::Respond(r) && failed_with(r, code, message)
}

/// The action fails the request with the verdict's error code and message, if there is one.
pub open spec fn responds_verdict(a: FlowAction, v: Option<(ErrorCode, Seq<char>)>) -> bool {
    match v {
        Some((code, message)) => responds_fail(a, code, message),
        None => false,
    }
}

/// The answer when an outbox record is not there to deliver.
pub open spec fn not_claimable_message(o: OutboxMessage) -> Seq<char> {
    "outbox_not_claimable status="@ + o.status@ + " next_attempt_at="@ + int_decimal(
        o.next_attempt_at as int,
    )
}

/// The start of a delivery of record `id`.
pub open spec fn starts_delivery(
    s: OutboxFlow,
    a: FlowAction,
    id: i64,
    now_ts: i64,
    attachment: Option<AttachmentInput>,
    failure_mode: Option<SendFailureMode>,
) -> bool {
    &&& s == OutboxFlow::DeliverOAuth { id, now_ts, attachment, failure_mode }
    &&& a == FlowAction::EnsureOAuthFresh { now_ts }
}

/// The answer to a store error, a missing record, or a record that is present.
pub open spec fn load_answer(a: FlowAction, r: Result<Option<OutboxMessage>, String>) -> bool {
    match r {
        Err(e) => responds_fail(a, ErrorCode::Storage, e@),
        Ok(None) => responds_fail(a, ErrorCode::Validation, "outbox record not found"@),
        Ok(Some(_)) => true,
    }
}

/// A failed attempt: the update that records it, and the answer given once it is recorded.
pub open spec fn records_failure(
    s: OutboxFlow,
    a: FlowAction,
    id: i64,
    o: OutboxMessage,
    mode: SendFailureMode,
    message: Seq<char>,
    now_ts: i64,
) -> bool {
    &&& s matches OutboxFlow::DeliverFinalize { response } && failed_response(
        response,
        id,
        o,
        mode,
        message,
        now_ts,
    )
    &&& a matches FlowAction::FinalizeIfSending { update, failed } && failed && failed_update(
        update,
        id,
        o,
        message,
        now_ts,
    )
}

/// The events that each state waits for, and the bounds that keep the arithmetic of a failed
/// attempt in range (the retry count and the time of the next attempt).
pub open spec fn awaits(s: OutboxFlow, e: FlowEvent) -> bool {
    match s {
        OutboxFlow::SendGate { .. } => e is FeatureLookup,
        OutboxFlow::ReplyGate { .. } => e is FeatureLookup,
        OutboxFlow::ReplyParent { .. } => e is ParentLoaded,
        OutboxFlow::Creating { .. } => e is Created,
        OutboxFlow::RetryLoad { .. } => e is OutboxLoaded,
        OutboxFlow::RetryGate { .. } => e is FeatureLookup,
        OutboxFlow::DeliverOAuth { .. } => e is OAuthChecked,
        OutboxFlow::DeliverInspect { .. } => e is OutboxLoaded,
        OutboxFlow::DeliverClaim { .. } => e is Claimed,
        OutboxFlow::DeliverUnclaimed => e is OutboxLoaded,
        OutboxFlow::DeliverLoad { now_ts, failure_mode, .. } => e is OutboxLoaded && (
        failure_mode is Some && e->OutboxLoaded_0 is Ok && e->OutboxLoaded_0->Ok_0 is Some
            ==> schedulable(e->OutboxLoaded_0->Ok_0->Some_0, now_ts as int)),
        OutboxFlow::DeliverSend { now_ts, outbox, .. } => e is ProviderResult && (
        e->ProviderResult_0 is Err ==> schedulable(outbox, now_ts as int)),
        OutboxFlow::DeliverFinalize { .. } => e is Finalized,
        OutboxFlow::Done => false,
    }
}

/// One step of the outbox state machine: the state `s2` and action `a` that follow state `s`
/// on event `e`.
pub open spec fn flow_step(s: OutboxFlow, e: FlowEvent, s2: OutboxFlow, a: FlowAction) -> bool {
    match s {
        OutboxFlow::SendGate { req } => {
            let l = e->FeatureLookup_0;
            let v = gate_verdict(req.account_id as int, "email_send"@, l);
            if v is Some {
                s2 == OutboxFlow::Done && responds_verdict(a, v)
            } else if is_blank(req.to@) || is_blank(req.subject@) || is_blank(req.body_text@) {
                s2 == OutboxFlow::Done && responds_fail(
                    a,
                    ErrorCode::Validation,
                    "to/subject/body_text cannot be empty"@,
                )
            } else {
                &&& s2 == OutboxFlow::Creating {
                    now_ts: req.now_ts,
                    attachment: req.attachment,
                    failure_mode: req.failure_mode,
                }
                &&& a matches FlowAction::CreateOutbox(n) && queued(
                    n,
                    req.account_id,
                    req.to@,
                    req.subject@,
                    req.body_text@,
                    None,
                    req.now_ts,
                )
            }
        },
        OutboxFlow::ReplyGate { req } => {
            let l = e->FeatureLookup_0;
            let v = gate_verdict(req.account_id as int, "email_reply"@, l);
            if v is Some {
                s2 == OutboxFlow::Done && responds_verdict(a, v)
            } else if is_blank(req.in_reply_to_message_id@) || is_blank(req.body_text@) {
                s2 == OutboxFlow::Done && responds_fail(
                    a,
                    ErrorCode::Validation,
                    "in_reply_to_message_id/body_text cannot be empty"@,
                )
            } else {
                &&& s2 == OutboxFlow::ReplyParent { req }
                &&& a matches FlowAction::LoadParent { account_id, message_id } && account_id
                    == req.account_id && message_id@ == req.in_reply_to_message_id@
            }
        },
        OutboxFlow::ReplyParent { req } => match e->ParentLoaded_0 {
            Err(err) => s2 == OutboxFlow::Done && responds_fail(a, ErrorCode::Storage, err@),
            Ok(None) => s2 == OutboxFlow::Done && responds_fail(
                a,
                ErrorCode::Validation,
                "in_reply_to_message_id does not exist for this account"@,
            ),
            Ok(Some(p)) => {
                let to = match p.sender {
                    Some(x) => x@,
                    None => Seq::empty(),
                };
                let subject = "Re: "@ + match p.subject {
                    Some(x) => x@,
                    None => "(no subject)"@,
                };
                if is_blank(to) {
                    s2 == OutboxFlow::Done && responds_fail(
                        a,
                        ErrorCode::Validation,
                        "cannot infer reply recipient from parent sender"@,
                    )
                } else {
                    &&& s2 == OutboxFlow::Creating {
                        now_ts: req.now_ts,
                        attachment: req.attachment,
                        failure_mode: req.failure_mode,
                    }
                    &&& a matches FlowAction::CreateOutbox(n) && queued(
                        n,
                        req.account_id,
                        to,
                        subject,
                        req.body_text@,
                        Some(req.in_reply_to_message_id@),
                        req.now_ts,
                    )
                }
            },
        },
        OutboxFlow::Creating { now_ts, attachment, failure_mode } => match e->Created_0 {
            Err(err) => s2 == OutboxFlow::Done && responds_fail(a, ErrorCode::Storage, err@),
            Ok(id) => starts_delivery(s2, a, id, now_ts, attachment, failure_mode),
        },
        OutboxFlow::RetryLoad { req } => {
            let r = e->OutboxLoaded_0;
            &&& load_answer(a, r)
            &&& r is Ok && r->Ok_0 is Some ==> {
                let o = r->Ok_0->Some_0;
                &&& s2 == OutboxFlow::RetryGate { req, outbox: o }
                &&& a matches FlowAction::CheckFeature { account_id, feature_key } && account_id
                    == o.account_id && feature_key@ == "outbox_retry"@
            }
            &&& !(r is Ok && r->Ok_0 is Some) ==> s2 == OutboxFlow::Done
        },
        OutboxFlow::RetryGate { req, outbox } => {
            let v = gate_verdict(outbox.account_id as int, "outbox_retry"@, e->FeatureLookup_0);
            if v is Some {
                s2 == OutboxFlow::Done && responds_verdict(a, v)
            } else if !(outbox.status@ == "pending"@ || outbox.status@ == "failed"@) {
                s2 == OutboxFlow::Done && responds_fail(
                    a,
                    ErrorCode::Validation,
                    "retry_not_allowed_for_status"@,
                )
            } else if outbox.next_attempt_at > req.now_ts {
                s2 == OutboxFlow::Done && responds_fail(a, ErrorCode::Validation, "retry_not_due"@)
            } else {
                starts_delivery(s2, a, req.outbox_id, req.now_ts, None, req.failure_mode)
            }
        },
        OutboxFlow::DeliverOAuth { id, now_ts, attachment, failure_mode } => match e->OAuthChecked_0 {
            Err(err) => s2 == OutboxFlow::Done && a == FlowAction::Respond(
                ApiResponse { ok: false, data: None, error: Some(err) },
            ),
            Ok(()) => s2 == OutboxFlow::DeliverInspect { id, now_ts, attachment, failure_mode }
                && a == FlowAction::LoadOutbox(id),
        },
        OutboxFlow::DeliverInspect { id, now_ts, attachment, failure_mode } => {
            let r = e->OutboxLoaded_0;
            &&& load_answer(a, r)
            &&& r is Ok && r->Ok_0 is Some ==> {
                let o = r->Ok_0->Some_0;
                if claimable(o.status@, o.next_attempt_at as int, now_ts as int) {
                    &&& s2 == OutboxFlow::DeliverClaim { id, now_ts, attachment, failure_mode }
                    &&& a == FlowAction::ClaimOutbox { id, now_ts }
                } else {
                    s2 == OutboxFlow::Done && responds_fail(
                        a,
                        ErrorCode::Validation,
                        not_claimable_message(o),
                    )
                }
            }
            &&& !(r is Ok && r->Ok_0 is Some) ==> s2 == OutboxFlow::Done
        },
        OutboxFlow::DeliverClaim { id, now_ts, attachment, failure_mode } => match e->Claimed_0 {
            Err(err) => s2 == OutboxFlow::Done && responds_fail(a, ErrorCode::Storage, err@),
            Ok(false) => s2 == OutboxFlow::DeliverUnclaimed && a == FlowAction::LoadOutbox(id),
            Ok(true) => s2 == OutboxFlow::DeliverLoad { id, now_ts, attachment, failure_mode }
                && a == FlowAction::LoadOutbox(id),
        },
        OutboxFlow::DeliverUnclaimed => {
            let r = e->OutboxLoaded_0;
            &&& s2 == OutboxFlow::Done
            &&& load_answer(a, r)
            &&& r is Ok && r->Ok_0 is Some ==> responds_fail(
                a,
                ErrorCode::Validation,
                not_claimable_message(r->Ok_0->Some_0),
            )
        },
        OutboxFlow::DeliverLoad { id, now_ts, attachment, failure_mode } => {
            let r = e->OutboxLoaded_0;
            &&& load_answer(a, r)
            &&& r is Ok && r->Ok_0 is Some ==> {
                let o = r->Ok_0->Some_0;
                match failure_mode {
                    Some(mode) => records_failure(s2, a, id, o, mode, simulated_message(mode), now_ts),
                    None => s2 == OutboxFlow::DeliverSend { id, now_ts, outbox: o }
                        && a == FlowAction::SendViaProvider { outbox: o, attachment },
                }
            }
            &&& !(r is Ok && r->Ok_0 is Some) ==> s2 == OutboxFlow::Done
        },
        OutboxFlow::DeliverSend { id, now_ts, outbox } => match e->ProviderResult_0 {
            Ok(pid) => {
                &&& s2 matches OutboxFlow::DeliverFinalize { response } && response.ok
                    && response.error is None && response.data is Some && result_is(
                    response.data->0,
                    id,
                    "sent"@,
                    outbox.retries as int,
                    Some(pid@),
                    now_ts as int,
                )
                &&& a matches FlowAction::FinalizeIfSending { update, failed } && !failed
                    && sent_update(update, id, outbox, pid@, now_ts)
            },
            Err(pe) => records_failure(s2, a, id, outbox, pe.mode, pe.message@, now_ts),
        },
        OutboxFlow::DeliverFinalize { response } => {
            &&& s2 == OutboxFlow::Done
            &&& match e->Finalized_0 {
                Ok(true) => a == FlowAction::Respond(response),
                Ok(false) => responds_fail(
                    a,
                    ErrorCode::Validation,
                    "outbox_state_changed_before_finalize"@,
                ),
                Err(err) => responds_fail(a, ErrorCode::Storage, err@),
            }
        },
        OutboxFlow::Done => false,
    }
}

} // verus!

verus! {

fn respond_fail(code: ErrorCode, message: &str) -> (a: FlowAction)
    ensures
        responds_fail(a, code, message@),
{
    FlowAction::Respond(fail(code, message))
}

fn respond_error(e: ApiError) -> (a: FlowAction)
    ensures
        a == FlowAction::Respond(ApiResponse { ok: false, data: None, error: Some(e) }),
        responds_fail(a, e.code, e.message@),
{
    FlowAction::Respond(ApiResponse { ok: false, data: None, error: Some(e) })
}

fn record_failure(id: i64, now_ts: i64, o: OutboxMessage, pe: ProviderError) -> (r: (
    OutboxFlow,
    FlowAction,
))
    requires
        schedulable(o, now_ts as int),
    ensures
        records_failure(r.0, r.1, id, o, pe.mode, pe.message@, now_ts),
{
    let next_retries = o.retries + 1;
    let backoff = send_backoff_seconds(next_retries);
    let next_attempt_at = now_ts + backoff;
    let code = match pe.mode {
        SendFailureMode::Network => ErrorCode::Network,
        SendFailureMode::Provider => ErrorCode::Provider,
    };
    let update = UpdateOutboxStatus {
        id,
        status: lit("failed"),
        retries: next_retries,
        last_error: Some(pe.message.clone()),
        provider_message_id: None,
        next_attempt_at,
        now_ts,
    };
    let response = ApiResponse {
        ok: false,
        data: Some(
            SendResult {
                outbox_id: id,
                status: lit("failed"),
                retries: next_retries,
                provider_message_id: None,
                next_attempt_at,
            },
        ),
        error: Some(ApiError { code, message: pe.message }),
    };
    (OutboxFlow::DeliverFinalize { response }, FlowAction::FinalizeIfSending { update, failed: true })
}

fn copy_opt_string(o: &Option<String>) -> (r: Option<String>)
    ensures
        r == *o,
{
    match o {
        Some(s) => Some(s.clone()),
        None => None,
    }
}

/// A copy of an outbox record.
pub fn copy_outbox(o: &OutboxMessage) -> (r: OutboxMessage)
    ensures
        r == *o,
{
    OutboxMessage {
        id: o.id,
        account_id: o.account_id,
        to_recipients: o.to_recipients.clone(),
        subject: o.subject.clone(),
        body_text: o.body_text.clone(),
        in_reply_to_message_id: copy_opt_string(&o.in_reply_to_message_id),
        provider_message_id: copy_opt_string(&o.provider_message_id),
        status: o.status.clone(),
        retries: o.retries,
        last_error: copy_opt_string(&o.last_error),
        next_attempt_at: o.next_attempt_at,
        created_at: o.created_at,
        updated_at: o.updated_at,
    }
}

fn not_claimable(o: &OutboxMessage) -> (a: FlowAction)
    ensures
        responds_fail(a, ErrorCode::Validation, not_claimable_message(*o)),
{
    let mut m = lit("outbox_not_claimable status=");
    push_str(&mut m, o.status.as_str());
    push_str(&mut m, " next_attempt_at=");
    push_i64(&mut m, o.next_attempt_at);
    FlowAction::Respond(fail(ErrorCode::Validation, m.as_str()))
}

fn is_claimable(status: &String, next_attempt_at: i64, now_ts: i64) -> (b: bool)
    ensures
        b == claimable(status@, next_attempt_at as int, now_ts as int),
{
    let pending = lit("pending");
    let failed = lit("failed");
    (*status == pending || *status == failed) && next_attempt_at <= now_ts
}

/// Whether a record's retry count and the time leave room for one more failed attempt.
pub fn is_schedulable(o: &OutboxMessage, now_ts: i64) -> (b: bool)
    ensures
        b == schedulable(*o, now_ts as int),
{
    if o.retries < -1 || o.retries == i64::MAX {
        return false;
    }
    let backoff = send_backoff_seconds(o.retries + 1);
    now_ts <= i64::MAX - backoff
}

impl OutboxFlow {
    /// Whether the state waits for this event (and, for a delivery, whether the record leaves
    /// room for one more failed attempt): the condition under which `step` may be called.
    pub fn accepts(&self, e: &FlowEvent) -> (b: bool)
        ensures
            b == awaits(*self, *e),
    {
        match self {
            OutboxFlow::SendGate { .. } => matches!(e, FlowEvent::FeatureLookup(..)),
            OutboxFlow::ReplyGate { .. } => matches!(e, FlowEvent::FeatureLookup(..)),
            OutboxFlow::ReplyParent { .. } => matches!(e, FlowEvent::ParentLoaded(..)),
            OutboxFlow::Creating { .. } => matches!(e, FlowEvent::Created(..)),
            OutboxFlow::RetryLoad { .. } => matches!(e, FlowEvent::OutboxLoaded(..)),
            OutboxFlow::RetryGate { .. } => matches!(e, FlowEvent::FeatureLookup(..)),
            OutboxFlow::DeliverOAuth { .. } => matches!(e, FlowEvent::OAuthChecked(..)),
            OutboxFlow::DeliverInspect { .. } => matches!(e, FlowEvent::OutboxLoaded(..)),
            OutboxFlow::DeliverClaim { .. } => matches!(e, FlowEvent::Claimed(..)),
            OutboxFlow::DeliverUnclaimed => matches!(e, FlowEvent::OutboxLoaded(..)),
            OutboxFlow::DeliverLoad { now_ts, failure_mode, .. } => match e {
                FlowEvent::OutboxLoaded(Ok(Some(o))) => failure_mode.is_none() || is_schedulable(o, *now_ts),
                FlowEvent::OutboxLoaded(_) => true,
                _ => false,
            },
            OutboxFlow::DeliverSend { now_ts, outbox, .. } => match e {
                FlowEvent::ProviderResult(Err(_)) => is_schedulable(outbox, *now_ts),
                FlowEvent::ProviderResult(Ok(_)) => true,
                _ => false,
            },
            OutboxFlow::DeliverFinalize { .. } => matches!(e, FlowEvent::Finalized(..)),
            OutboxFlow::Done => false,
        }
    }
}

impl OutboxFlow {
    /// Starts `send`: its feature gate is `email_send`.
    pub fn start_send(req: SendEmailRequest) -> (r: (OutboxFlow, FlowAction))
        ensures
            r.0 == (OutboxFlow::SendGate { req }),
            r.1 matches FlowAction::CheckFeature { account_id, feature_key } && account_id
                == req.account_id && feature_key@ == "email_send"@,
    {
        let account_id = req.account_id;
        (OutboxFlow::SendGate { req }, FlowAction::CheckFeature { account_id, feature_key: lit("email_send") })
    }

    /// Starts `reply`: its feature gate is `email_reply`.
    pub fn start_reply(req: ReplyEmailRequest) -> (r: (OutboxFlow, FlowAction))
        ensures
            r.0 == (OutboxFlow::ReplyGate { req }),
            r.1 matches FlowAction::CheckFeature { account_id, feature_key } && account_id
                == req.account_id && feature_key@ == "email_reply"@,
    {
        let account_id = req.account_id;
        (OutboxFlow::ReplyGate { req }, FlowAction::CheckFeature { account_id, feature_key: lit("email_reply") })
    }

    /// Starts `retry_outbox`: the record is read first.
    pub fn start_retry(req: RetryOutboxRequest) -> (r: (OutboxFlow, FlowAction))
        ensures
            r.0 == (OutboxFlow::RetryLoad { req }),
            r.1 == FlowAction::LoadOutbox(req.outbox_id),
    {
        let id = req.outbox_id;
        (OutboxFlow::RetryLoad { req }, FlowAction::LoadOutbox(id))
    }

    /// Starts delivering an existing record (as `send` and `reply` do once it is queued).
    pub fn start_delivery(
        id: i64,
        now_ts: i64,
        attachment: Option<AttachmentInput>,
        failure_mode: Option<SendFailureMode>,
    ) -> (r: (OutboxFlow, FlowAction))
        ensures
            starts_delivery(r.0, r.1, id, now_ts, attachment, failure_mode),
    {
        (OutboxFlow::DeliverOAuth { id, now_ts, attachment, failure_mode }, FlowAction::EnsureOAuthFresh { now_ts })
    }

    /// The next state and action, given the outcome of the last action.
    pub fn step(self, e: FlowEvent) -> (r: (OutboxFlow, FlowAction))
        requires
            awaits(self, e),
        ensures
            flow_step(self, e, r.0, r.1),
    {
        match self {
            OutboxFlow::SendGate { req } => match e {
                FlowEvent::FeatureLookup(l) => step_send_gate(req, l),
                _ => {
                    assert(false);
                    idle_step()
                },
            },
            OutboxFlow::ReplyGate { req } => match e {
                FlowEvent::FeatureLookup(l) => step_reply_gate(req, l),
                _ => {
                    assert(false);
                    idle_step()
                },
            },
            OutboxFlow::ReplyParent { req } => match e {
                FlowEvent::ParentLoaded(l) => step_reply_parent(req, l),
                _ => {
                    assert(false);
                    idle_step()
                },
            },
            OutboxFlow::Creating { now_ts, attachment, failure_mode } => match e {
                FlowEvent::Created(c) => match c {
                    Err(err) => (OutboxFlow::Done, respond_fail(ErrorCode::Storage, err.as_str())),
                    Ok(id) => OutboxFlow::start_delivery(id, now_ts, attachment, failure_mode),
                },
                _ => {
                    assert(false);
                    idle_step()
                },
            },
            OutboxFlow::RetryLoad { req } => match e {
                FlowEvent::OutboxLoaded(l) => step_retry_load(req, l),
                _ => {
                    assert(false);
                    idle_step()
                },
            },
            OutboxFlow::RetryGate { req, outbox } => match e {
                FlowEvent::FeatureLookup(l) => step_retry_gate(req, outbox, l),
                _ => {
                    assert(false);
                    idle_step()
                },
            },
            OutboxFlow::DeliverOAuth { id, now_ts, attachment, failure_mode } => match e {
                FlowEvent::OAuthChecked(c) => match c {
                    Err(err) => (OutboxFlow::Done, respond_error(err)),
                    Ok(()) => (
                        OutboxFlow::DeliverInspect { id, now_ts, attachment, failure_mode },
                        FlowAction::LoadOutbox(id),
                    ),
                },
                _ => {
                    assert(false);
                    idle_step()
                },
            },
            OutboxFlow::DeliverInspect { id, now_ts, attachment, failure_mode } => match e {
                FlowEvent::OutboxLoaded(l) => step_inspect(id, now_ts, attachment, failure_mode, l),
                _ => {
                    assert(false);
                    idle_step()
                },
            },
            OutboxFlow::DeliverClaim { id, now_ts, attachment, failure_mode } => match e {
                FlowEvent::Claimed(c) => match c {
                    Err(err) => (OutboxFlow::Done, respond_fail(ErrorCode::Storage, err.as_str())),
                    Ok(false) => (OutboxFlow::DeliverUnclaimed, FlowAction::LoadOutbox(id)),
                    Ok(true) => (
                        OutboxFlow::DeliverLoad { id, now_ts, attachment, failure_mode },
                        FlowAction::LoadOutbox(id),
                    ),
                },
                _ => {
                    assert(false);
                    idle_step()
                },
            },
            OutboxFlow::DeliverUnclaimed => match e {
                FlowEvent::OutboxLoaded(l) => match l {
                    Err(err) => (OutboxFlow::Done, respond_fail(ErrorCode::Storage, err.as_str())),
                    Ok(None) => (
                        OutboxFlow::Done,
                        respond_fail(ErrorCode::Validation, "outbox record not found"),
                    ),
                    Ok(Some(o)) => (OutboxFlow::Done, not_claimable(&o)),
                },
                _ => {
                    assert(false);
                    idle_step()
                },
            },
            OutboxFlow::DeliverLoad { id, now_ts, attachment, failure_mode } => match e {
                FlowEvent::OutboxLoaded(l) => step_load(id, now_ts, attachment, failure_mode, l),
                _ => {
                    assert(false);
                    idle_step()
                },
            },
            OutboxFlow::DeliverSend { id, now_ts, outbox } => match e {
                FlowEvent::ProviderResult(r) => step_send(id, now_ts, outbox, r),
                _ => {
                    assert(false);
                    idle_step()
                },
            },
            OutboxFlow::DeliverFinalize { response } => match e {
                FlowEvent::Finalized(f) => match f {
                    Ok(true) => (OutboxFlow::Done, FlowAction::Respond(response)),
                    Ok(false) => (
                        OutboxFlow::Done,
                        respond_fail(ErrorCode::Validation, "outbox_state_changed_before_finalize"),
                    ),
                    Err(err) => (OutboxFlow::Done, respond_fail(ErrorCode::Storage, err.as_str())),
                },
                _ => {
                    assert(false);
                    idle_step()
                },
            },
            OutboxFlow::Done => {
                assert(false);
                idle_step()
            },
        }
    }
}

/// The step for an event that the state does not wait for (never taken: `step` requires
/// `awaits`): the flow ends with a validation failure that carries no message.
fn idle_step() -> (r: (OutboxFlow, FlowAction))
    ensures
        r.0 == OutboxFlow::Done,
        responds_fail(r.1, ErrorCode::Validation, ""@),
{
    (OutboxFlow::Done, respond_fail(ErrorCode::Validation, ""))
}

fn step_send_gate(req: SendEmailRequest, lookup: Result<Option<bool>, String>) -> (r: (
    OutboxFlow,
    FlowAction,
))
    ensures
        flow_step(OutboxFlow::SendGate { req }, FlowEvent::FeatureLookup(lookup), r.0, r.1),
{
    let ghost l0 = lookup;
    if let Err(err) = feature_gate(req.account_id, "email_send", lookup) {
        return (OutboxFlow::Done, respond_error(err));
    }
    assert(gate_verdict(req.account_id as int, "email_send"@, l0) is None);
    if is_blank_str(req.to.as_str()) || is_blank_str(req.subject.as_str()) || is_blank_str(
        req.body_text.as_str(),
    ) {
        return (
            OutboxFlow::Done,
            respond_fail(ErrorCode::Validation, "to/subject/body_text cannot be empty"),
        );
    }
    let ghost req0 = req;
    let n = NewOutboxMessage {
        account_id: req.account_id,
        to_recipients: req.to,
        subject: req.subject,
        body_text: req.body_text,
        in_reply_to_message_id: None,
        status: lit("pending"),
        retries: 0,
        last_error: None,
        next_attempt_at: req.now_ts,
        now_ts: req.now_ts,
    };
    (
        OutboxFlow::Creating {
            now_ts: req.now_ts,
            attachment: req.attachment,
            failure_mode: req.failure_mode,
        },
        FlowAction::CreateOutbox(n),
    )
}

fn step_reply_gate(req: ReplyEmailRequest, lookup: Result<Option<bool>, String>) -> (r: (
    OutboxFlow,
    FlowAction,
))
    ensures
        flow_step(OutboxFlow::ReplyGate { req }, FlowEvent::FeatureLookup(lookup), r.0, r.1),
{
    let ghost l0 = lookup;
    if let Err(err) = feature_gate(req.account_id, "email_reply", lookup) {
        return (OutboxFlow::Done, respond_error(err));
    }
    assert(gate_verdict(req.account_id as int, "email_reply"@, l0) is None);
    if is_blank_str(req.in_reply_to_message_id.as_str()) || is_blank_str(req.body_text.as_str()) {
        return (
            OutboxFlow::Done,
            respond_fail(ErrorCode::Validation, "in_reply_to_message_id/body_text cannot be empty"),
        );
    }
    let account_id = req.account_id;
    let message_id = req.in_reply_to_message_id.clone();
    (OutboxFlow::ReplyParent { req }, FlowAction::LoadParent { account_id, message_id })
}

fn step_reply_parent(req: ReplyEmailRequest, loaded: Result<Option<Message>, String>) -> (r: (
    OutboxFlow,
    FlowAction,
))
    ensures
        flow_step(OutboxFlow::ReplyParent { req }, FlowEvent::ParentLoaded(loaded), r.0, r.1),
{
    match loaded {
        Err(err) => (OutboxFlow::Done, respond_fail(ErrorCode::Storage, err.as_str())),
        Ok(None) => (
            OutboxFlow::Done,
            respond_fail(ErrorCode::Validation, "in_reply_to_message_id does not exist for this account"),
        ),
        Ok(Some(p)) => {
            let to = match p.sender {
                Some(x) => x,
                None => String::new(),
            };
            if is_blank_str(to.as_str()) {
                return (
                    OutboxFlow::Done,
                    respond_fail(ErrorCode::Validation, "cannot infer reply recipient from parent sender"),
                );
            }
            let mut subject = lit("Re: ");
            match p.subject {
                Some(x) => push_str(&mut subject, x.as_str()),
                None => push_str(&mut subject, "(no subject)"),
            }
            let n = NewOutboxMessage {
                account_id: req.account_id,
                to_recipients: to,
                subject,
                body_text: req.body_text,
                in_reply_to_message_id: Some(req.in_reply_to_message_id),
                status: lit("pending"),
                retries: 0,
                last_error: None,
                next_attempt_at: req.now_ts,
                now_ts: req.now_ts,
            };
            (
                OutboxFlow::Creating {
                    now_ts: req.now_ts,
                    attachment: req.attachment,
                    failure_mode: req.failure_mode,
                },
                FlowAction::CreateOutbox(n),
            )
        },
    }
}

fn step_retry_load(req: RetryOutboxRequest, loaded: Result<Option<OutboxMessage>, String>) -> (r: (
    OutboxFlow,
    FlowAction,
))
    ensures
        flow_step(OutboxFlow::RetryLoad { req }, FlowEvent::OutboxLoaded(loaded), r.0, r.1),
{
    match loaded {
        Err(err) => (OutboxFlow::Done, respond_fail(ErrorCode::Storage, err.as_str())),
        Ok(None) => (OutboxFlow::Done, respond_fail(ErrorCode::Validation, "outbox record not found")),
        Ok(Some(o)) => {
            let account_id = o.account_id;
            (
                OutboxFlow::RetryGate { req, outbox: o },
                FlowAction::CheckFeature { account_id, feature_key: lit("outbox_retry") },
            )
        },
    }
}

fn step_retry_gate(
    req: RetryOutboxRequest,
    outbox: OutboxMessage,
    lookup: Result<Option<bool>, String>,
) -> (r: (OutboxFlow, FlowAction))
    ensures
        flow_step(OutboxFlow::RetryGate { req, outbox }, FlowEvent::FeatureLookup(lookup), r.0, r.1),
{
    let ghost l0 = lookup;
    if let Err(err) = feature_gate(outbox.account_id, "outbox_retry", lookup) {
        return (OutboxFlow::Done, respond_error(err));
    }
    assert(gate_verdict(outbox.account_id as int, "outbox_retry"@, l0) is None);
    let pending = lit("pending");
    let failed = lit("failed");
    if !(outbox.status == pending || outbox.status == failed) {
        return (OutboxFlow::Done, respond_fail(ErrorCode::Validation, "retry_not_allowed_for_status"));
    }
    if outbox.next_attempt_at > req.now_ts {
        return (OutboxFlow::Done, respond_fail(ErrorCode::Validation, "retry_not_due"));
    }
    OutboxFlow::start_delivery(req.outbox_id, req.now_ts, None, req.failure_mode)
}

fn step_inspect(
    id: i64,
    now_ts: i64,
    attachment: Option<AttachmentInput>,
    failure_mode: Option<SendFailureMode>,
    loaded: Result<Option<OutboxMessage>, String>,
) -> (r: (OutboxFlow, FlowAction))
    ensures
        flow_step(
            OutboxFlow::DeliverInspect { id, now_ts, attachment, failure_mode },
            FlowEvent::OutboxLoaded(loaded),
            r.0,
            r.1,
        ),
{
    match loaded {
        Err(err) => (OutboxFlow::Done, respond_fail(ErrorCode::Storage, err.as_str())),
        Ok(None) => (OutboxFlow::Done, respond_fail(ErrorCode::Validation, "outbox record not found")),
        Ok(Some(o)) => {
            if is_claimable(&o.status, o.next_attempt_at, now_ts) {
                (OutboxFlow::DeliverClaim { id, now_ts, attachment, failure_mode }, FlowAction::ClaimOutbox { id, now_ts })
            } else {
                (OutboxFlow::Done, not_claimable(&o))
            }
        },
    }
}

fn step_load(
    id: i64,
    now_ts: i64,
    attachment: Option<AttachmentInput>,
    failure_mode: Option<SendFailureMode>,
    loaded: Result<Option<OutboxMessage>, String>,
) -> (r: (OutboxFlow, FlowAction))
    requires
        awaits(
            OutboxFlow::DeliverLoad { id, now_ts, attachment, failure_mode },
            FlowEvent::OutboxLoaded(loaded),
        ),
    ensures
        flow_step(
            OutboxFlow::DeliverLoad { id, now_ts, attachment, failure_mode },
            FlowEvent::OutboxLoaded(loaded),
            r.0,
            r.1,
        ),
{
    match loaded {
        Err(err) => (OutboxFlow::Done, respond_fail(ErrorCode::Storage, err.as_str())),
        Ok(None) => (OutboxFlow::Done, respond_fail(ErrorCode::Validation, "outbox record not found")),
        Ok(Some(o)) => match failure_mode {
            Some(mode) => {
                assert(FlowEvent::OutboxLoaded(loaded) == FlowEvent::OutboxLoaded(Ok(Some(o))));
                assert(schedulable(o, now_ts as int));
                record_failure(id, now_ts, o, simulated_failure(mode))
            },
            None => {
                let copy = copy_outbox(&o);
                (
                    OutboxFlow::DeliverSend { id, now_ts, outbox: o },
                    FlowAction::SendViaProvider { outbox: copy, attachment },
                )
            },
        },
    }
}

fn step_send(id: i64, now_ts: i64, outbox: OutboxMessage, result: Result<String, ProviderError>) -> (r:
    (OutboxFlow, FlowAction))
    requires
        awaits(OutboxFlow::DeliverSend { id, now_ts, outbox }, FlowEvent::ProviderResult(result)),
    ensures
        flow_step(OutboxFlow::DeliverSend { id, now_ts, outbox }, FlowEvent::ProviderResult(result), r.0, r.1),
{
    match result {
        Ok(pid) => {
            let update = UpdateOutboxStatus {
                id,
                status: lit("sent"),
                retries: outbox.retries,
                last_error: None,
                provider_message_id: Some(pid.clone()),
                next_attempt_at: now_ts,
                now_ts,
            };
            let response = ok(
                SendResult {
                    outbox_id: id,
                    status: lit("sent"),
                    retries: outbox.retries,
                    provider_message_id: Some(pid),
                    next_attempt_at: now_ts,
                },
            );
            (OutboxFlow::DeliverFinalize { response }, FlowAction::FinalizeIfSending { update, failed: false })
        },
        Err(pe) => record_failure(id, now_ts, outbox, pe),
    }
}

} // verus!

verus! {

/// Powers of two are positive.
pub proof fn lemma_pow2_positive(n: nat)
    ensures
        pow2(n) >= 1,
    decreases n,
{
    if n > 0 {
        lemma_pow2_positive((n - 1) as nat);
    }
}

/// Every failed attempt pushes the next attempt at least 5 seconds into the future.
pub proof fn backoff_is_positive(retries: int)
    ensures
        retry_backoff(retries) >= 5,
{
    lemma_pow2_positive(if retries < 10 { retries as nat } else { 10 });
}

/// A delivery asks for the claim of a record only after it read the record as pending or
/// failed and due at the delivery's time.
pub proof fn claims_only_claimable(s: OutboxFlow, e: FlowEvent, s2: OutboxFlow, a: FlowAction)
    requires
        flow_step(s, e, s2, a),
        a is ClaimOutbox,
    ensures
        a matches FlowAction::ClaimOutbox { id, now_ts } && s matches OutboxFlow::DeliverInspect {
            id: sid,
            now_ts: snow,
            ..
        } && sid == id && snow == now_ts && (e->OutboxLoaded_0 matches Ok(Some(o)) && claimable(
            o.status@,
            o.next_attempt_at as int,
            now_ts as int,
        )),
        s is DeliverInspect,
{
}

/// Finalizing records either a sent message (retries unchanged, no error, due now) or a
/// failed attempt (one more retry, the error kept, the next attempt pushed back), and only
/// from `sending`.
pub proof fn finalize_records_outcome(s: OutboxFlow, e: FlowEvent, s2: OutboxFlow, a: FlowAction)
    requires
        flow_step(s, e, s2, a),
        a is FinalizeIfSending,
    ensures
        a matches FlowAction::FinalizeIfSending { update, failed } && {
            ||| s matches OutboxFlow::DeliverSend { id, now_ts, outbox } && {
                ||| !failed && e->ProviderResult_0 is Ok && sent_update(
                    update,
                    id,
                    outbox,
                    e->ProviderResult_0->Ok_0@,
                    now_ts,
                )
                ||| failed && e->ProviderResult_0 is Err && failed_update(
                    update,
                    id,
                    outbox,
                    e->ProviderResult_0->Err_0.message@,
                    now_ts,
                )
            }
            ||| s matches OutboxFlow::DeliverLoad { id, now_ts, failure_mode, .. } && failed
                && failure_mode is Some && failed_update(
                update,
                id,
                e->OutboxLoaded_0->Ok_0->Some_0,
                simulated_message(failure_mode->Some_0),
                now_ts,
            )
        },
        a matches FlowAction::FinalizeIfSending { update, failed } && (failed ==> update.now_ts
            < update.next_attempt_at),
{
    if let FlowAction::FinalizeIfSending { update, failed } = a {
        if failed {
            backoff_is_positive(update.retries as int);
        }
    }
}

/// What the caller is told at the end of a delivery: success only after the store has
/// recorded the message as sent; a failed attempt only after the store has recorded it.
pub open spec fn pending_answer_consistent(s: OutboxFlow) -> bool {
    s matches OutboxFlow::DeliverFinalize { response } ==> {
        ||| response.ok && response.data is Some && response.data->0.status@ == "sent"@
        ||| !response.ok && response.data is Some && response.data->0.status@ == "failed"@
    }
}

/// Every step keeps the pending answer consistent with what will be recorded.
pub proof fn pending_answer_stays_consistent(s: OutboxFlow, e: FlowEvent, s2: OutboxFlow, a: FlowAction)
    requires
        flow_step(s, e, s2, a),
    ensures
        pending_answer_consistent(s2),
{
}

/// A request is answered with success only when the store confirmed that it recorded the
/// message as sent.
pub proof fn success_only_after_sent(s: OutboxFlow, e: FlowEvent, s2: OutboxFlow, a: FlowAction)
    requires
        awaits(s, e),
        flow_step(s, e, s2, a),
        pending_answer_consistent(s),
        a matches FlowAction::Respond(r) && r.ok,
    ensures
        s is DeliverFinalize,
        e == FlowEvent::Finalized(Ok(true)),
        a matches FlowAction::Respond(r) && r.data is Some && r.data->0.status@ == "sent"@,
{
}

/// A retry proceeds to delivery only when the retry feature is enabled for the record's
/// account, the record is pending or failed, and it is due.
pub proof fn retry_only_when_due(s: OutboxFlow, e: FlowEvent, s2: OutboxFlow, a: FlowAction)
    requires
        flow_step(s, e, s2, a),
        s is RetryGate,
        !(a is Respond),
    ensures
        e->FeatureLookup_0 == Ok::<Option<bool>, String>(Some(true)),
        s matches OutboxFlow::RetryGate { req, outbox } && (outbox.status@ == "pending"@
            || outbox.status@ == "failed"@) && outbox.next_attempt_at <= req.now_ts,
{
}

/// A message is queued for sending only when the feature is enabled and the recipient,
/// subject and body are not blank.
pub proof fn send_queues_only_valid(s: OutboxFlow, e: FlowEvent, s2: OutboxFlow, a: FlowAction)
    requires
        flow_step(s, e, s2, a),
        s is SendGate,
        a is CreateOutbox,
    ensures
        e->FeatureLookup_0 == Ok::<Option<bool>, String>(Some(true)),
        s matches OutboxFlow::SendGate { req } && !is_blank(req.to@) && !is_blank(req.subject@)
            && !is_blank(req.body_text@),
{
}

/// A reply goes to the parent's sender, with the parent's subject after `Re: `, and keeps the
/// parent's Message-ID.
pub proof fn reply_addresses_parent(s: OutboxFlow, e: FlowEvent, s2: OutboxFlow, a: FlowAction)
    requires
        flow_step(s, e, s2, a),
        s is ReplyParent,
        a is CreateOutbox,
    ensures
        s matches OutboxFlow::ReplyParent { req } && (e->ParentLoaded_0 matches Ok(Some(p))
            && p.sender is Some && a->CreateOutbox_0.to_recipients@ == p.sender->0@
            && a->CreateOutbox_0.subject@ == "Re: "@ + match p.subject {
            Some(x) => x@,
            None => "(no subject)"@,
        } && opt_seq(a->CreateOutbox_0.in_reply_to_message_id) == Some(req.in_reply_to_message_id@)),
{
}


/// The provider is asked to send a record only right after the record was loaded in a
/// delivery that holds the claim on it.
pub proof fn sends_only_claimed_records(s: OutboxFlow, e: FlowEvent, s2: OutboxFlow, a: FlowAction)
    requires
        flow_step(s, e, s2, a),
        a is SendViaProvider,
    ensures
        s matches OutboxFlow::DeliverLoad { failure_mode, .. } && failure_mode is None,
        e->OutboxLoaded_0 matches Ok(Some(o)) && (a matches FlowAction::SendViaProvider { outbox, .. }
            && outbox == o),
{
}

/// A delivery holds the claim on its record only after the store confirmed the claim.
pub proof fn claim_precedes_loading(s: OutboxFlow, e: FlowEvent, s2: OutboxFlow, a: FlowAction)
    requires
        awaits(s, e),
        flow_step(s, e, s2, a),
        s2 is DeliverLoad,
    ensures
        s is DeliverClaim,
        e == FlowEvent::Claimed(Ok(true)),
{
}

/// A run of the outbox flow: each event is one that the state before it waits for, and takes
/// it to the state after it, with the action at the same index.
pub open spec fn is_run(states: Seq<OutboxFlow>, events: Seq<FlowEvent>, actions: Seq<FlowAction>) -> bool {
    &&& states.len() == events.len() + 1
    &&& actions.len() == events.len()
    &&& forall|i: int|
        0 <= i < events.len() ==> #[trigger] flow_step(states[i], events[i], states[i + 1], actions[i])
            && awaits(states[i], events[i])
}

/// A property of states that every step keeps holds of every state of a run that starts in it.
proof fn lemma_run_keeps(
    states: Seq<OutboxFlow>,
    events: Seq<FlowEvent>,
    actions: Seq<FlowAction>,
    inv: spec_fn(OutboxFlow) -> bool,
    n: int,
)
    requires
        is_run(states, events, actions),
        inv(states[0]),
        forall|s: OutboxFlow, e: FlowEvent, s2: OutboxFlow, a: FlowAction|
            inv(s) && #[trigger] flow_step(s, e, s2, a) ==> inv(s2),
        0 <= n <= events.len(),
    ensures
        forall|i: int| 0 <= i <= n ==> inv(#[trigger] states[i]),
    decreases n,
{
    if n > 0 {
        lemma_run_keeps(states, events, actions, inv, n - 1);
        let k = n - 1;
        assert(flow_step(states[k], events[k], states[k + 1], actions[k]));
        assert(k + 1 == n);
    }
}

/// The attachment that a state will hand to the provider, and the failure it will simulate,
/// if it gets that far.
spec fn carries_attachment(s: OutboxFlow, att: Option<AttachmentInput>, fm: Option<SendFailureMode>) -> bool {
    match s {
        OutboxFlow::SendGate { req } => req.attachment == att && req.failure_mode == fm,
        OutboxFlow::ReplyGate { req } => req.attachment == att && req.failure_mode == fm,
        OutboxFlow::ReplyParent { req } => req.attachment == att && req.failure_mode == fm,
        OutboxFlow::Creating { attachment, failure_mode, .. } => attachment == att && failure_mode == fm,
        OutboxFlow::RetryLoad { req } => att is None && req.failure_mode == fm,
        OutboxFlow::RetryGate { req, .. } => att is None && req.failure_mode == fm,
        OutboxFlow::DeliverOAuth { attachment, failure_mode, .. } => attachment == att && failure_mode == fm,
        OutboxFlow::DeliverInspect { attachment, failure_mode, .. } => attachment == att && failure_mode == fm,
        OutboxFlow::DeliverClaim { attachment, failure_mode, .. } => attachment == att && failure_mode == fm,
        OutboxFlow::DeliverLoad { attachment, failure_mode, .. } => attachment == att && failure_mode == fm,
        _ => true,
    }
}

proof fn lemma_step_carries_attachment(
    s: OutboxFlow,
    e: FlowEvent,
    s2: OutboxFlow,
    a: FlowAction,
    att: Option<AttachmentInput>,
    fm: Option<SendFailureMode>,
)
    requires
        carries_attachment(s, att, fm),
        flow_step(s, e, s2, a),
    ensures
        carries_attachment(s2, att, fm),
        a matches FlowAction::SendViaProvider { attachment, .. } ==> attachment == att && fm is None,
{
}

/// Every provider action of a run starting in `states[0]` carries exactly `att`, and happens
/// only when no failure is simulated.
proof fn lemma_run_carries_attachment(
    states: Seq<OutboxFlow>,
    events: Seq<FlowEvent>,
    actions: Seq<FlowAction>,
    att: Option<AttachmentInput>,
    fm: Option<SendFailureMode>,
)
    requires
        is_run(states, events, actions),
        carries_attachment(states[0], att, fm),
    ensures
        forall|i: int|
            0 <= i < actions.len() ==> (#[trigger] actions[i] matches FlowAction::SendViaProvider {
                attachment,
                ..
            } ==> attachment == att && fm is None),
{
    let inv = |s: OutboxFlow| carries_attachment(s, att, fm);
    assert forall|s: OutboxFlow, e: FlowEvent, s2: OutboxFlow, a: FlowAction|
        inv(s) && #[trigger] flow_step(s, e, s2, a) implies inv(s2) by {
        lemma_step_carries_attachment(s, e, s2, a, att, fm);
    }
    lemma_run_keeps(states, events, actions, inv, events.len() as int);
    assert forall|i: int| 0 <= i < actions.len() implies (#[trigger] actions[i] matches FlowAction::SendViaProvider {
        attachment,
        ..
    } ==> attachment == att && fm is None) by {
        assert(inv(states[i]));
        assert(flow_step(states[i], events[i], states[i + 1], actions[i]));
        lemma_step_carries_attachment(states[i], events[i], states[i + 1], actions[i], att, fm);
    }
}

/// A message sent on behalf of a send request goes to the provider with the request's
/// attachment, unchanged, and only when the request simulates no failure.
pub proof fn send_delivers_request_attachment(
    req: SendEmailRequest,
    states: Seq<OutboxFlow>,
    events: Seq<FlowEvent>,
    actions: Seq<FlowAction>,
)
    requires
        is_run(states, events, actions),
        states[0] == (OutboxFlow::SendGate { req }),
    ensures
        forall|i: int|
            0 <= i < actions.len() ==> (#[trigger] actions[i] matches FlowAction::SendViaProvider {
                attachment,
                ..
            } ==> attachment == req.attachment && req.failure_mode is None),
{
    lemma_run_carries_attachment(states, events, actions, req.attachment, req.failure_mode);
}

/// A message sent on behalf of a reply request goes to the provider with the request's
/// attachment, unchanged, and only when the request simulates no failure.
pub proof fn reply_delivers_request_attachment(
    req: ReplyEmailRequest,
    states: Seq<OutboxFlow>,
    events: Seq<FlowEvent>,
    actions: Seq<FlowAction>,
)
    requires
        is_run(states, events, actions),
        states[0] == (OutboxFlow::ReplyGate { req }),
    ensures
        forall|i: int|
            0 <= i < actions.len() ==> (#[trigger] actions[i] matches FlowAction::SendViaProvider {
                attachment,
                ..
            } ==> attachment == req.attachment && req.failure_mode is None),
{
    lemma_run_carries_attachment(states, events, actions, req.attachment, req.failure_mode);
}

/// A retried record goes to the provider without an attachment, and only when the request
/// simulates no failure.
pub proof fn retry_delivers_no_attachment(
    req: RetryOutboxRequest,
    states: Seq<OutboxFlow>,
    events: Seq<FlowEvent>,
    actions: Seq<FlowAction>,
)
    requires
        is_run(states, events, actions),
        states[0] == (OutboxFlow::RetryLoad { req }),
    ensures
        forall|i: int|
            0 <= i < actions.len() ==> (#[trigger] actions[i] matches FlowAction::SendViaProvider {
                attachment,
                ..
            } ==> attachment is None && req.failure_mode is None),
{
    lemma_run_carries_attachment(states, events, actions, None, req.failure_mode);
}

/// The states a run started by this send request can reach.
spec fn within_send(s: OutboxFlow, req: SendEmailRequest) -> bool {
    match s {
        OutboxFlow::SendGate { req: r } => r == req,
        OutboxFlow::ReplyGate { .. } => false,
        OutboxFlow::ReplyParent { .. } => false,
        OutboxFlow::RetryLoad { .. } => false,
        OutboxFlow::RetryGate { .. } => false,
        _ => true,
    }
}

proof fn lemma_step_within_send(s: OutboxFlow, e: FlowEvent, s2: OutboxFlow, a: FlowAction, req: SendEmailRequest)
    requires
        within_send(s, req),
        flow_step(s, e, s2, a),
    ensures
        within_send(s2, req),
        a matches FlowAction::CreateOutbox(n) ==> n.account_id == req.account_id && n.to_recipients@
            == req.to@ && n.subject@ == req.subject@ && n.body_text@ == req.body_text@
            && n.in_reply_to_message_id is None,
{
}

/// The record that a send request queues is addressed to the request's recipient, with the
/// request's account, subject and body, and replies to nothing.
pub proof fn send_queues_request_message(
    req: SendEmailRequest,
    states: Seq<OutboxFlow>,
    events: Seq<FlowEvent>,
    actions: Seq<FlowAction>,
)
    requires
        is_run(states, events, actions),
        states[0] == (OutboxFlow::SendGate { req }),
    ensures
        forall|i: int|
            0 <= i < actions.len() ==> (#[trigger] actions[i] matches FlowAction::CreateOutbox(n) ==> n.account_id
                == req.account_id && n.to_recipients@ == req.to@ && n.subject@ == req.subject@
                && n.body_text@ == req.body_text@ && n.in_reply_to_message_id is None),
{
    let inv = |s: OutboxFlow| within_send(s, req);
    assert forall|s: OutboxFlow, e: FlowEvent, s2: OutboxFlow, a: FlowAction|
        inv(s) && #[trigger] flow_step(s, e, s2, a) implies inv(s2) by {
        lemma_step_within_send(s, e, s2, a, req);
    }
    lemma_run_keeps(states, events, actions, inv, events.len() as int);
    assert forall|i: int| 0 <= i < actions.len() implies (#[trigger] actions[i] matches FlowAction::CreateOutbox(n)
        ==> n.account_id == req.account_id && n.to_recipients@ == req.to@ && n.subject@ == req.subject@
        && n.body_text@ == req.body_text@ && n.in_reply_to_message_id is None) by {
        assert(inv(states[i]));
        assert(flow_step(states[i], events[i], states[i + 1], actions[i]));
        lemma_step_within_send(states[i], events[i], states[i + 1], actions[i], req);
    }
}

/// The states a run started by this reply request can reach.
spec fn within_reply(s: OutboxFlow, req: ReplyEmailRequest) -> bool {
    match s {
        OutboxFlow::ReplyGate { req: r } => r == req,
        OutboxFlow::ReplyParent { req: r } => r == req,
        OutboxFlow::SendGate { .. } => false,
        OutboxFlow::RetryLoad { .. } => false,
        OutboxFlow::RetryGate { .. } => false,
        _ => true,
    }
}

/// What a queued reply holds: the request's account and text, the parent's ID as the message
/// it answers, and, from the loaded parent `e`, the parent's sender as its recipient and the
/// parent's subject (or `(no subject)`) after `Re: ` as its subject.
pub open spec fn queues_reply(n: NewOutboxMessage, req: ReplyEmailRequest, e: FlowEvent) -> bool {
    &&& n.account_id == req.account_id
    &&& n.body_text@ == req.body_text@
    &&& opt_seq(n.in_reply_to_message_id) == Some(req.in_reply_to_message_id@)
    &&& e matches FlowEvent::ParentLoaded(Ok(Some(p))) && p.sender matches Some(x) && n.to_recipients@ == x@
    &&& e matches FlowEvent::ParentLoaded(Ok(Some(p))) && n.subject@ == "Re: "@ + match p.subject {
        Some(t) => t@,
        None => "(no subject)"@,
    }
}

proof fn lemma_step_within_reply(s: OutboxFlow, e: FlowEvent, s2: OutboxFlow, a: FlowAction, req: ReplyEmailRequest)
    requires
        within_reply(s, req),
        flow_step(s, e, s2, a),
        awaits(s, e),
    ensures
        within_reply(s2, req),
        a matches FlowAction::CreateOutbox(n) ==> queues_reply(n, req, e),
{
    if a is CreateOutbox {
        assert(s is ReplyParent);
        let p = e->ParentLoaded_0->Ok_0->Some_0;
        assert(p.sender is Some) by {
            if p.sender is None {
                assert(is_blank(Seq::<char>::empty()));
            }
        }
    }
}

/// The record that a reply request queues carries the request's text (not the subject or
/// anything else), the request's account and the parent's ID, goes to the parent's sender, and
/// answers the parent's subject.
pub proof fn reply_queues_request_text(
    req: ReplyEmailRequest,
    states: Seq<OutboxFlow>,
    events: Seq<FlowEvent>,
    actions: Seq<FlowAction>,
)
    requires
        is_run(states, events, actions),
        states[0] == (OutboxFlow::ReplyGate { req }),
    ensures
        forall|i: int|
            0 <= i < actions.len() ==> (#[trigger] actions[i] matches FlowAction::CreateOutbox(n) ==> queues_reply(
                n,
                req,
                events[i],
            )),
{
    let inv = |s: OutboxFlow| within_reply(s, req);
    assert forall|s: OutboxFlow, e: FlowEvent, s2: OutboxFlow, a: FlowAction|
        inv(s) && #[trigger] flow_step(s, e, s2, a) implies inv(s2) by {
        if s is ReplyParent {
            assert(s2 is Done || s2 is Creating);
        }
    }
    lemma_run_keeps(states, events, actions, inv, events.len() as int);
    assert forall|i: int| 0 <= i < actions.len() implies (#[trigger] actions[i] matches FlowAction::CreateOutbox(n)
        ==> queues_reply(n, req, events[i])) by {
        assert(inv(states[i]));
        assert(flow_step(states[i], events[i], states[i + 1], actions[i]));
        assert(awaits(states[i], events[i]));
        lemma_step_within_reply(states[i], events[i], states[i + 1], actions[i], req);
    }
}

} // verus!
