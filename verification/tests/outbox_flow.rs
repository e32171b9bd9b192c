use prx_email::db::{Message, OutboxMessage};
use prx_email::plugin::outbox::{
    is_schedulable, send_backoff_seconds, simulated_failure, FlowAction, FlowEvent, OutboxFlow,
};
use prx_email::plugin::{
    ApiResponse, ErrorCode, ProviderError, ReplyEmailRequest, RetryOutboxRequest,
    SendEmailRequest, SendFailureMode, SendResult,
};

/// A store and provider that answer the flow's actions.
struct World {
    flags: Vec<(String, bool)>,
    parent: Option<Message>,
    outbox: Vec<OutboxMessage>,
    provider: Result<String, ProviderError>,
    send_failures: u32,
    actions: Vec<String>,
}

impl World {
    fn new(flag: Option<bool>) -> World {
        let flags = match flag {
            Some(v) => ["email_send", "email_reply", "outbox_retry"].iter().map(|k| (k.to_string(), v)).collect(),
            None => Vec::new(),
        };
        World {
            flags,
            parent: None,
            outbox: Vec::new(),
            provider: Ok("smtp-250 ok".to_string()),
            send_failures: 0,
            actions: Vec::new(),
        }
    }

    fn flag(&self, key: &str) -> Option<bool> {
        self.flags.iter().find(|(k, _)| k == key).map(|(_, v)| *v)
    }

    fn set_flag(&mut self, key: &str, value: bool) {
        self.flags.retain(|(k, _)| k != key);
        self.flags.push((key.to_string(), value));
    }

    fn run(&mut self, start: (OutboxFlow, FlowAction)) -> ApiResponse<SendResult> {
        let (mut flow, mut action) = start;
        loop {
            let event = match action {
                FlowAction::Respond(r) => return r,
                FlowAction::CheckFeature { feature_key, .. } => {
                    self.actions.push(format!("feature {feature_key}"));
                    FlowEvent::FeatureLookup(Ok(self.flag(&feature_key)))
                }
                FlowAction::LoadParent { message_id, .. } => {
                    self.actions.push(format!("parent {message_id}"));
                    FlowEvent::ParentLoaded(Ok(self.parent.clone()))
                }
                FlowAction::CreateOutbox(n) => {
                    let id = self.outbox.len() as i64 + 1;
                    self.outbox.push(OutboxMessage {
                        id,
                        account_id: n.account_id,
                        to_recipients: n.to_recipients,
                        subject: n.subject,
                        body_text: n.body_text,
                        in_reply_to_message_id: n.in_reply_to_message_id,
                        provider_message_id: None,
                        status: n.status,
                        retries: n.retries,
                        last_error: n.last_error,
                        next_attempt_at: n.next_attempt_at,
                        created_at: n.now_ts,
                        updated_at: n.now_ts,
                    });
                    self.actions.push("create".to_string());
                    FlowEvent::Created(Ok(id))
                }
                FlowAction::LoadOutbox(id) => {
                    FlowEvent::OutboxLoaded(Ok(self.outbox.iter().find(|o| o.id == id).cloned()))
                }
                FlowAction::EnsureOAuthFresh { .. } => FlowEvent::OAuthChecked(Ok(())),
                FlowAction::ClaimOutbox { id, now_ts } => {
                    let o = self.outbox.iter_mut().find(|o| o.id == id).unwrap();
                    let claimed = (o.status == "pending" || o.status == "failed") && o.next_attempt_at <= now_ts;
                    if claimed {
                        o.status = "sending".to_string();
                    }
                    self.actions.push("claim".to_string());
                    FlowEvent::Claimed(Ok(claimed))
                }
                FlowAction::SendViaProvider { .. } => {
                    self.actions.push("send".to_string());
                    FlowEvent::ProviderResult(self.provider.clone())
                }
                FlowAction::FinalizeIfSending { update, failed } => {
                    if failed {
                        self.send_failures += 1;
                    }
                    let o = self.outbox.iter_mut().find(|o| o.id == update.id).unwrap();
                    let applied = o.status == "sending";
                    if applied {
                        o.status = update.status;
                        o.retries = update.retries;
                        o.last_error = update.last_error;
                        o.provider_message_id = update.provider_message_id;
                        o.next_attempt_at = update.next_attempt_at;
                        o.updated_at = update.now_ts;
                    }
                    FlowEvent::Finalized(Ok(applied))
                }
            };
            assert!(flow.accepts(&event));
            let next = flow.step(event);
            flow = next.0;
            action = next.1;
        }
    }
}

fn parent() -> Message {
    Message {
        id: 1,
        account_id: 1,
        folder_id: None,
        message_id: "<root@example.com>".to_string(),
        subject: Some("Root".to_string()),
        sender: Some("bob@example.com".to_string()),
        recipients: Some("alice@example.com".to_string()),
        snippet: Some("root".to_string()),
        body_text: Some("root".to_string()),
        body_html: None,
        attachments_json: None,
        references_header: None,
        received_at: Some(1),
        created_at: 1,
        updated_at: 1,
    }
}

fn send_request(now_ts: i64, failure_mode: Option<SendFailureMode>) -> SendEmailRequest {
    SendEmailRequest {
        account_id: 1,
        to: "bob@example.com".to_string(),
        subject: "Hello".to_string(),
        body_text: "Body".to_string(),
        now_ts,
        attachment: None,
        failure_mode,
    }
}

#[test]
fn reply_sets_in_reply_to_header_on_outbox() {
    let mut world = World::new(Some(true));
    world.parent = Some(parent());
    let res = world.run(OutboxFlow::start_reply(ReplyEmailRequest {
        account_id: 1,
        in_reply_to_message_id: "<root@example.com>".to_string(),
        body_text: "hi".to_string(),
        now_ts: 2,
        attachment: None,
        failure_mode: Some(SendFailureMode::Provider),
    }));
    assert!(!res.ok);
    let id = res.data.expect("has state").outbox_id;
    let outbox = world.outbox.iter().find(|o| o.id == id).expect("exists");
    assert_eq!(outbox.in_reply_to_message_id.as_deref(), Some("<root@example.com>"));
    assert_eq!(outbox.to_recipients, "bob@example.com");
    assert_eq!(outbox.subject, "Re: Root");
    assert_eq!(outbox.status, "failed");
    assert_eq!(outbox.retries, 1);
    assert_eq!(outbox.next_attempt_at, 12);
    assert_eq!(world.send_failures, 1);
}

#[test]
fn send_succeeds_through_the_provider() {
    let mut world = World::new(Some(true));
    let res = world.run(OutboxFlow::start_send(send_request(100, None)));
    assert!(res.ok);
    let data = res.data.unwrap();
    assert_eq!(data.status, "sent");
    assert_eq!(data.retries, 0);
    assert_eq!(data.provider_message_id.as_deref(), Some("smtp-250 ok"));
    assert_eq!(world.outbox[0].status, "sent");
    assert_eq!(
        world.actions,
        vec!["feature email_send", "create", "claim", "send"]
    );
}

#[test]
fn send_is_gated_and_validated() {
    let mut off = World::new(Some(false));
    let res = off.run(OutboxFlow::start_send(send_request(100, None)));
    let e = res.error.unwrap();
    assert_eq!(e.code, ErrorCode::FeatureDisabled);
    assert_eq!(e.message, "feature 'email_send' is disabled for account 1");
    assert!(off.outbox.is_empty());
    let mut on = World::new(Some(true));
    let mut req = send_request(100, None);
    req.subject = " ".to_string();
    let res = on.run(OutboxFlow::start_send(req));
    assert_eq!(res.error.unwrap().message, "to/subject/body_text cannot be empty");
    let mut unknown = World::new(None);
    let res = unknown.run(OutboxFlow::start_send(send_request(100, None)));
    assert_eq!(res.error.unwrap().message, "unknown feature flag: email_send");
}

#[test]
fn outbox_retry_and_failure_states() {
    let mut world = World::new(Some(true));
    let first = world.run(OutboxFlow::start_send(send_request(100, Some(SendFailureMode::Network))));
    assert!(!first.ok);
    let state = first.data.unwrap();
    assert_eq!(state.status, "failed");
    assert_eq!(state.retries, 1);
    assert_eq!(state.next_attempt_at, 110);
    assert_eq!(first.error.unwrap().code, ErrorCode::Network);

    let early = world.run(OutboxFlow::start_retry(RetryOutboxRequest { outbox_id: 1, now_ts: 109, failure_mode: None }));
    assert_eq!(early.error.unwrap().message, "retry_not_due");

    let second = world.run(OutboxFlow::start_retry(RetryOutboxRequest {
        outbox_id: 1,
        now_ts: 110,
        failure_mode: Some(SendFailureMode::Provider),
    }));
    let state = second.data.unwrap();
    assert_eq!(state.retries, 2);
    assert_eq!(state.next_attempt_at, 130);

    let recovered = world.run(OutboxFlow::start_retry(RetryOutboxRequest { outbox_id: 1, now_ts: 200, failure_mode: None }));
    assert!(recovered.ok);
    assert_eq!(recovered.data.unwrap().status, "sent");

    let again = world.run(OutboxFlow::start_retry(RetryOutboxRequest { outbox_id: 1, now_ts: 300, failure_mode: None }));
    assert_eq!(again.error.unwrap().message, "retry_not_allowed_for_status");
    let missing = world.run(OutboxFlow::start_retry(RetryOutboxRequest { outbox_id: 9, now_ts: 300, failure_mode: None }));
    assert!(!missing.ok);
}

#[test]
fn reply_needs_an_existing_parent_with_a_sender() {
    let mut world = World::new(Some(true));
    let res = world.run(OutboxFlow::start_reply(ReplyEmailRequest {
        account_id: 1,
        in_reply_to_message_id: "<missing@x>".to_string(),
        body_text: "hi".to_string(),
        now_ts: 2,
        attachment: None,
        failure_mode: None,
    }));
    assert_eq!(res.error.unwrap().message, "in_reply_to_message_id does not exist for this account");
    let mut anonymous = parent();
    anonymous.sender = None;
    world.parent = Some(anonymous);
    let res = world.run(OutboxFlow::start_reply(ReplyEmailRequest {
        account_id: 1,
        in_reply_to_message_id: "<root@example.com>".to_string(),
        body_text: "hi".to_string(),
        now_ts: 2,
        attachment: None,
        failure_mode: None,
    }));
    assert_eq!(res.error.unwrap().message, "cannot infer reply recipient from parent sender");
}

#[test]
fn backoff_and_simulated_failures() {
    assert_eq!(send_backoff_seconds(0), 5);
    assert_eq!(send_backoff_seconds(1), 10);
    assert_eq!(send_backoff_seconds(10), 5120);
    assert_eq!(send_backoff_seconds(50), 5120);
    let f = simulated_failure(SendFailureMode::Network);
    assert_eq!(f.message, "simulated network timeout");
    assert_eq!(f.debug_message, "simulated failure");
    assert_eq!(simulated_failure(SendFailureMode::Provider).message, "simulated provider rejection");
    let mut o = parent_outbox();
    assert!(is_schedulable(&o, 100));
    o.retries = i64::MAX;
    assert!(!is_schedulable(&o, 100));
    o.retries = 0;
    assert!(!is_schedulable(&o, i64::MAX));
}

fn parent_outbox() -> OutboxMessage {
    OutboxMessage {
        id: 1,
        account_id: 1,
        to_recipients: "b@x".to_string(),
        subject: "s".to_string(),
        body_text: "b".to_string(),
        in_reply_to_message_id: None,
        provider_message_id: None,
        status: "pending".to_string(),
        retries: 0,
        last_error: None,
        next_attempt_at: 0,
        created_at: 0,
        updated_at: 0,
    }
}

#[test]
fn send_reply_regression_with_safe_defaults_and_enablement() {
    let mut world = World::new(Some(false));
    let blocked_send = world.run(OutboxFlow::start_send(SendEmailRequest {
        subject: "Blocked".to_string(),
        body_text: "body".to_string(),
        ..send_request(100, None)
    }));
    assert!(!blocked_send.ok);
    assert_eq!(blocked_send.error.as_ref().map(|e| &e.code), Some(&ErrorCode::FeatureDisabled));

    world.set_flag("email_send", true);
    world.set_flag("email_reply", true);
    let sent = world.run(OutboxFlow::start_send(send_request(102, None)));
    assert!(sent.ok);
    let sent_data = sent.data.expect("sent data");
    let outbox = world.outbox.iter().find(|o| o.id == sent_data.outbox_id).expect("exists");
    assert_eq!(outbox.status, "sent");
    assert!(outbox.provider_message_id.is_some());

    let mut original = parent();
    original.message_id = "remote-1".to_string();
    original.subject = Some("Original".to_string());
    world.parent = Some(original);
    let reply = world.run(OutboxFlow::start_reply(ReplyEmailRequest {
        account_id: 1,
        in_reply_to_message_id: "remote-1".to_string(),
        body_text: "reply-body".to_string(),
        now_ts: 104,
        attachment: None,
        failure_mode: None,
    }));
    assert!(reply.ok);
    let reply_data = reply.data.expect("reply data");
    let reply_outbox = world.outbox.iter().find(|o| o.id == reply_data.outbox_id).expect("exists");
    assert_eq!(reply_outbox.in_reply_to_message_id.as_deref(), Some("remote-1"));
    assert_eq!(reply_outbox.to_recipients, "bob@example.com");
}

#[test]
fn outbox_retry_and_failure_recovery_regression() {
    let mut world = World::new(Some(false));
    world.set_flag("email_send", true);
    let first = world.run(OutboxFlow::start_send(send_request(100, Some(SendFailureMode::Network))));
    assert!(!first.ok);
    assert_eq!(first.error.as_ref().map(|e| &e.code), Some(&ErrorCode::Network));
    let first_state = first.data.expect("first state");
    assert_eq!(first_state.status, "failed");
    assert_eq!(first_state.retries, 1);

    let blocked_retry = world.run(OutboxFlow::start_retry(RetryOutboxRequest {
        outbox_id: first_state.outbox_id,
        now_ts: 110,
        failure_mode: None,
    }));
    assert!(!blocked_retry.ok);
    assert_eq!(blocked_retry.error.as_ref().map(|e| &e.code), Some(&ErrorCode::FeatureDisabled));

    world.set_flag("outbox_retry", true);
    let second = world.run(OutboxFlow::start_retry(RetryOutboxRequest {
        outbox_id: first_state.outbox_id,
        now_ts: 200,
        failure_mode: Some(SendFailureMode::Provider),
    }));
    assert!(!second.ok);
    assert_eq!(second.error.as_ref().map(|e| &e.code), Some(&ErrorCode::Provider));
    let second_state = second.data.expect("second state");
    assert_eq!(second_state.status, "failed");
    assert_eq!(second_state.retries, 2);
    assert!(second_state.next_attempt_at > 200);

    let recovered = world.run(OutboxFlow::start_retry(RetryOutboxRequest {
        outbox_id: second_state.outbox_id,
        now_ts: 300,
        failure_mode: None,
    }));
    assert!(recovered.ok);
    let recovered_state = recovered.data.expect("recovered state");
    assert_eq!(recovered_state.status, "sent");
    assert_eq!(recovered_state.retries, 2);

    let final_outbox = world.outbox.iter().find(|o| o.id == recovered_state.outbox_id).expect("exists");
    assert_eq!(final_outbox.status, "sent");
    assert_eq!(final_outbox.retries, 2);
    assert_eq!(final_outbox.last_error, None);
    assert!(final_outbox.provider_message_id.is_some());
}

#[test]
fn a_claim_lost_to_another_delivery_answers_not_claimable() {
    let start = OutboxFlow::DeliverInspect { id: 1, now_ts: 5, attachment: None, failure_mode: None };
    let (flow, action) = start.step(FlowEvent::OutboxLoaded(Ok(Some(parent_outbox()))));
    assert!(matches!(action, FlowAction::ClaimOutbox { id: 1, now_ts: 5 }));
    let (flow, action) = flow.step(FlowEvent::Claimed(Ok(false)));
    assert!(matches!(action, FlowAction::LoadOutbox(1)));
    let mut taken = parent_outbox();
    taken.status = "sending".to_string();
    let (_, action) = flow.step(FlowEvent::OutboxLoaded(Ok(Some(taken))));
    match action {
        FlowAction::Respond(r) => {
            assert!(!r.ok);
            let e = r.error.unwrap();
            assert_eq!(e.code, ErrorCode::Validation);
            assert_eq!(e.message, "outbox_not_claimable status=sending next_attempt_at=0");
        }
        _ => panic!("expected an answer"),
    }
    let mut later = parent_outbox();
    later.next_attempt_at = 9;
    let start = OutboxFlow::DeliverInspect { id: 1, now_ts: 5, attachment: None, failure_mode: None };
    let (_, action) = start.step(FlowEvent::OutboxLoaded(Ok(Some(later))));
    match action {
        FlowAction::Respond(r) => assert_eq!(r.error.unwrap().message, "outbox_not_claimable status=pending next_attempt_at=9"),
        _ => panic!("expected an answer"),
    }
}
