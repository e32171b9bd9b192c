use prx_email::plugin::runtime::{
    apply_refreshed_token, refresh_protocol_token, sync_backoff_seconds, sync_runner_report,
    token_needs_refresh, PluginRuntime,
};
use prx_email::plugin::sync::{
    completed_sync_state, highest_uid, select_sync_uids, sync_folder_path, sync_start_uid,
    uid_search_criteria,
};
use prx_email::plugin::{
    ApiError, AttachmentPolicy, AuthConfig, EmailTransportConfig, ErrorCode, ImapConfig,
    OAuthRefreshProvider, RefreshedOAuthToken, SmtpConfig, SyncJob, SyncRunnerConfig,
};
use std::cell::RefCell;

fn oauth(token: &str) -> AuthConfig {
    AuthConfig { password: None, oauth_token: Some(token.to_string()) }
}

fn config(imap: AuthConfig, smtp: AuthConfig) -> EmailTransportConfig {
    EmailTransportConfig {
        imap: ImapConfig {
            host: "imap.example.com".to_string(),
            port: 993,
            user: "alice@example.com".to_string(),
            auth: imap,
        },
        smtp: SmtpConfig {
            host: "smtp.example.com".to_string(),
            port: 465,
            user: "alice@example.com".to_string(),
            auth: smtp,
        },
        attachment_store: None,
        attachment_policy: AttachmentPolicy::default(),
    }
}

fn job(account_id: i64) -> SyncJob {
    SyncJob { account_id, folder: "INBOX".to_string(), max_messages: 10 }
}

struct FakeProvider {
    calls: RefCell<Vec<(String, String, String)>>,
    answer: Result<RefreshedOAuthToken, ApiError>,
}

impl OAuthRefreshProvider for FakeProvider {
    fn refresh_token(&self, protocol: &str, user: &str, current_token: &str) -> Result<RefreshedOAuthToken, ApiError> {
        self.calls.borrow_mut().push((protocol.to_string(), user.to_string(), current_token.to_string()));
        self.answer.clone()
    }
}

fn provider(token: &str, expires_at: Option<i64>) -> FakeProvider {
    FakeProvider {
        calls: RefCell::new(Vec::new()),
        answer: Ok(RefreshedOAuthToken { token: token.to_string(), expires_at }),
    }
}

#[test]
fn run_sync_runner_respects_max_concurrency_cap() {
    let rt = PluginRuntime::new();
    let jobs = vec![job(1), job(2), job(3)];
    let cfg = SyncRunnerConfig { max_concurrency: 2, base_backoff_seconds: 1, max_backoff_seconds: 10 };
    let plan = rt.plan_sync_run(&jobs, 10, cfg.max_concurrency);
    assert_eq!(plan.len(), 2);
    assert_eq!(plan[0].job_index, 0);
    assert_eq!(plan[1].job_index, 1);
    let report = sync_runner_report(10, &vec![false, false]);
    assert_eq!(report.attempted, 2);
    assert_eq!(report.run_id, "run-10");
}

#[test]
fn zero_concurrency_still_runs_one_job() {
    let rt = PluginRuntime::new();
    let plan = rt.plan_sync_run(&vec![job(1), job(2)], 0, 0);
    assert_eq!(plan.len(), 1);
}

#[test]
fn failed_folder_backs_off_and_success_resets() {
    let mut rt = PluginRuntime::new();
    let cfg = SyncRunnerConfig { max_concurrency: 4, base_backoff_seconds: 10, max_backoff_seconds: 300 };
    let inbox = "INBOX".to_string();
    rt.record_sync_failure(1, &inbox, 100, 0, &cfg);
    assert_eq!(rt.schedule_state_of(1, &inbox), (120, 1));
    assert_eq!(rt.metrics_snapshot().sync_failures, 1);
    let jobs = vec![job(1), job(2)];
    let plan = rt.plan_sync_run(&jobs, 100, 4);
    assert_eq!(plan.len(), 1);
    assert_eq!(plan[0].job_index, 1);
    let later = rt.plan_sync_run(&jobs, 120, 4);
    assert_eq!(later.len(), 2);
    assert_eq!(later[0].fails, 1);
    rt.record_sync_failure(1, &inbox, 120, 1, &cfg);
    assert_eq!(rt.schedule_state_of(1, &inbox), (160, 2));
    rt.record_sync_failure(1, &inbox, 160, 6, &cfg);
    assert_eq!(rt.schedule_state_of(1, &inbox), (460, 7));
    rt.record_sync_success(1, &inbox, 500);
    assert_eq!(rt.schedule_state_of(1, &inbox), (500, 0));
    assert_eq!(rt.schedule_state_of(2, &inbox), (0, 0));
    assert_eq!(rt.schedule_state_of(1, &"Sent".to_string()), (0, 0));
}

#[test]
fn backoff_is_exponential_and_capped() {
    assert_eq!(sync_backoff_seconds(1, 10, 300), 20);
    assert_eq!(sync_backoff_seconds(3, 10, 300), 80);
    assert_eq!(sync_backoff_seconds(6, 1, 1000), 64);
    assert_eq!(sync_backoff_seconds(9, 1, 1000), 64);
    assert_eq!(sync_backoff_seconds(9, 10, 300), 300);
    assert_eq!(sync_backoff_seconds(0, 5, 300), 5);
}

#[test]
fn runner_report_counts_outcomes() {
    let r = sync_runner_report(-4, &vec![true, false, true]);
    assert_eq!(r.run_id, "run--4");
    assert_eq!((r.attempted, r.succeeded, r.failed), (3, 2, 1));
}

#[test]
fn reload_auth_from_env_updates_tokens() {
    let mut rt = PluginRuntime::new_with_config(config(oauth("old-imap"), oauth("old-smtp")));
    rt.apply_auth_overrides(Some("new-imap".to_string()), Some("new-smtp".to_string()), None, None);
    let cfg = rt.config.as_ref().expect("cfg");
    assert_eq!(cfg.imap.auth.oauth_token.as_deref(), Some("new-imap"));
    assert_eq!(cfg.smtp.auth.oauth_token.as_deref(), Some("new-smtp"));
}

#[test]
fn auth_overrides_replace_passwords_and_read_expiry() {
    let pw = AuthConfig { password: Some("pw".to_string()), oauth_token: None };
    let mut rt = PluginRuntime::new_with_config(config(pw.clone(), pw));
    rt.apply_auth_overrides(Some("t".to_string()), None, Some("1700".to_string()), Some("soon".to_string()));
    let cfg = rt.config.as_ref().unwrap();
    assert_eq!(cfg.imap.auth.password, None);
    assert_eq!(cfg.imap.auth.oauth_token.as_deref(), Some("t"));
    assert_eq!(cfg.smtp.auth.password.as_deref(), Some("pw"));
    assert_eq!(rt.imap_oauth_expires_at, Some(1700));
    assert_eq!(rt.smtp_oauth_expires_at, None);
    let mut bare = PluginRuntime::new();
    bare.apply_auth_overrides(Some("t".to_string()), None, Some("5".to_string()), None);
    assert!(bare.config.is_none());
    assert_eq!(bare.imap_oauth_expires_at, None);
}

#[test]
fn config_gets_default_policy_and_reload_validates() {
    let mut c = config(oauth("a"), oauth("b"));
    c.attachment_policy.allowed_content_types.clear();
    let mut rt = PluginRuntime::new_with_config(c);
    assert_eq!(rt.config.as_ref().unwrap().attachment_policy.allowed_content_types.len(), 5);
    let mut bad = config(oauth("a"), oauth("b"));
    bad.imap.host = String::new();
    let e = rt.reload_config(bad).unwrap_err();
    assert_eq!(e.message, "imap/smtp host is required");
    assert_eq!(rt.config.as_ref().unwrap().imap.host, "imap.example.com");
    let mut good = config(oauth("a"), oauth("b"));
    good.imap.host = "other.example.com".to_string();
    assert!(rt.reload_config(good).is_ok());
    assert_eq!(rt.config.as_ref().unwrap().imap.host, "other.example.com");
}

#[test]
fn token_refresh_decisions() {
    assert!(!token_needs_refresh(None, 100));
    assert!(token_needs_refresh(Some(160), 100));
    assert!(!token_needs_refresh(Some(161), 100));
    assert!(token_needs_refresh(Some(i64::MIN), i64::MAX));
    let mut auth = oauth("old");
    let mut exp = Some(5);
    apply_refreshed_token(&mut auth, &mut exp, RefreshedOAuthToken { token: "new".to_string(), expires_at: None });
    assert_eq!(auth.oauth_token.as_deref(), Some("new"));
    assert_eq!(exp, Some(5));
}

#[test]
fn refresh_protocol_token_without_provider_fails_when_expiring() {
    let mut auth = oauth("tok");
    let mut exp = Some(100);
    let none: Option<&FakeProvider> = None;
    let e = refresh_protocol_token("imap", "u", &mut auth, 50, &mut exp, none).unwrap_err();
    assert_eq!(e.code, ErrorCode::Provider);
    assert_eq!(e.message, "imap oauth token expired and no refresh provider configured");
    assert_eq!(auth.oauth_token.as_deref(), Some("tok"));
    let mut fresh = Some(1000);
    assert!(refresh_protocol_token("imap", "u", &mut auth, 50, &mut fresh, none).is_ok());
}

#[test]
fn refresh_protocol_token_uses_provider() {
    let p = provider("fresh", Some(9999));
    let mut auth = oauth("tok");
    let mut exp = Some(100);
    refresh_protocol_token("smtp", "alice", &mut auth, 90, &mut exp, Some(&p)).unwrap();
    assert_eq!(auth.oauth_token.as_deref(), Some("fresh"));
    assert_eq!(exp, Some(9999));
    assert_eq!(p.calls.borrow()[0], ("smtp".to_string(), "alice".to_string(), "tok".to_string()));
    let mut pw = AuthConfig { password: Some("p".to_string()), oauth_token: None };
    let mut e2 = Some(0);
    refresh_protocol_token("smtp", "alice", &mut pw, 90, &mut e2, Some(&p)).unwrap();
    assert_eq!(p.calls.borrow().len(), 1);
}

#[test]
fn ensure_oauth_fresh_stops_at_imap_failure() {
    let failing = FakeProvider {
        calls: RefCell::new(Vec::new()),
        answer: Err(ApiError { code: ErrorCode::Provider, message: "denied".to_string() }),
    };
    let mut rt = PluginRuntime::new_with_config(config(oauth("i"), oauth("s")));
    rt.imap_oauth_expires_at = Some(0);
    rt.smtp_oauth_expires_at = Some(0);
    let e = rt.ensure_oauth_fresh(10, Some(&failing)).unwrap_err();
    assert_eq!(e.message, "denied");
    assert_eq!(failing.calls.borrow().len(), 1);
    let ok = provider("new", None);
    rt.ensure_oauth_fresh(10, Some(&ok)).unwrap();
    let cfg = rt.config.as_ref().unwrap();
    assert_eq!(cfg.imap.auth.oauth_token.as_deref(), Some("new"));
    assert_eq!(cfg.smtp.auth.oauth_token.as_deref(), Some("new"));
    assert_eq!(ok.calls.borrow().len(), 2);
}

#[test]
fn begin_sync_requires_config() {
    let mut rt = PluginRuntime::new();
    let none: Option<&FakeProvider> = None;
    let e = rt.begin_sync(1, none).unwrap_err();
    assert_eq!(e.code, ErrorCode::Validation);
    assert_eq!(e.message, "imap/smtp config missing");
    assert_eq!(rt.metrics_snapshot().sync_attempts, 1);
    let mut rt = PluginRuntime::new_with_config(config(oauth("a"), oauth("b")));
    assert!(rt.begin_sync(1, none).is_ok());
}

#[test]
fn ensure_oauth_fresh_asks_for_each_protocol_user() {
    let mut cfg = config(oauth("i"), oauth("s"));
    cfg.imap.user = "imap-user".to_string();
    cfg.smtp.user = "smtp-user".to_string();
    let mut rt = PluginRuntime::new_with_config(cfg);
    rt.imap_oauth_expires_at = Some(5);
    rt.smtp_oauth_expires_at = Some(5);
    let p = provider("n", Some(500));
    rt.ensure_oauth_fresh(0, Some(&p)).unwrap();
    let calls = p.calls.borrow();
    assert_eq!(calls[0], ("imap".to_string(), "imap-user".to_string(), "i".to_string()));
    assert_eq!(calls[1], ("smtp".to_string(), "smtp-user".to_string(), "s".to_string()));
    assert_eq!(rt.imap_oauth_expires_at, Some(500));
    assert_eq!(rt.smtp_oauth_expires_at, Some(500));
}

#[test]
fn refresh_passes_provider_errors_unchanged() {
    let failing = FakeProvider {
        calls: RefCell::new(Vec::new()),
        answer: Err(ApiError { code: ErrorCode::Network, message: "offline".to_string() }),
    };
    let mut auth = oauth("tok");
    let mut exp = Some(10);
    let e = refresh_protocol_token("imap", "bob", &mut auth, 0, &mut exp, Some(&failing)).unwrap_err();
    assert_eq!(e.code, ErrorCode::Network);
    assert_eq!(e.message, "offline");
    assert_eq!(auth.oauth_token.as_deref(), Some("tok"));
    assert_eq!(exp, Some(10));
    let kept = provider("later", None);
    refresh_protocol_token("imap", "bob", &mut auth, 0, &mut exp, Some(&kept)).unwrap();
    assert_eq!(auth.oauth_token.as_deref(), Some("later"));
    assert_eq!(exp, Some(10));
}

#[test]
fn sync_counts_attempts_and_successes() {
    let none: Option<&FakeProvider> = None;
    let mut rt = PluginRuntime::new_with_config(config(oauth("a"), oauth("b")));
    let began = rt.begin_sync(1, none);
    rt.finish_sync(began).unwrap();
    let m = rt.metrics_snapshot();
    assert_eq!((m.sync_attempts, m.sync_success, m.sync_failures), (1, 1, 0));
    let began = rt.begin_sync(2, none);
    let failed = began.and(Err(ApiError { code: ErrorCode::Network, message: "down".to_string() }));
    assert_eq!(rt.finish_sync(failed).unwrap_err().message, "down");
    let m = rt.metrics_snapshot();
    assert_eq!((m.sync_attempts, m.sync_success, m.sync_failures, m.send_failures, m.retry_count), (2, 1, 0, 0, 0));
    let mut empty = PluginRuntime::new();
    let began = empty.begin_sync(3, none);
    assert!(empty.finish_sync(began).is_err());
    let m = empty.metrics_snapshot();
    assert_eq!((m.sync_attempts, m.sync_success), (1, 0));
}

#[test]
fn sync_cursor_and_uid_selection() {
    assert_eq!(sync_folder_path(None), "INBOX");
    assert_eq!(sync_folder_path(Some("Sent".to_string())), "Sent");
    assert_eq!(sync_start_uid(Some("42".to_string()), Some("7".to_string())), 42);
    assert_eq!(sync_start_uid(Some("x".to_string()), Some("7".to_string())), 7);
    assert_eq!(sync_start_uid(None, Some("-1".to_string())), 0);
    assert_eq!(sync_start_uid(Some("+5".to_string()), None), 5);
    assert_eq!(uid_search_criteria(0), "UID 1:*");
    assert_eq!(uid_search_criteria(u32::MAX), "UID 4294967295:*");
    assert_eq!(select_sync_uids(vec![9, 3, 7, 1], 2), vec![7, 9]);
    assert_eq!(select_sync_uids(vec![9, 3], 5), vec![3, 9]);
    assert_eq!(select_sync_uids(vec![9, 3], 0), Vec::<u32>::new());
    assert_eq!(highest_uid(5, &vec![3, 8, 6]), 8);
    assert_eq!(highest_uid(5, &vec![]), 5);
    let st = completed_sync_state(1, 2, 88, 1000);
    assert_eq!(st.cursor.as_deref(), Some("88"));
    assert_eq!(st.status.as_deref(), Some("ok"));
    assert_eq!(st.folder_id, Some(2));
    assert_eq!(st.last_synced_at, Some(1000));
}
