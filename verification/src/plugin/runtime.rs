//! The plugin's in-memory state: its transport configuration, counters, the sync
//! scheduler's per-folder backoff, and the expiry times of its OAuth tokens.
use vstd::prelude::*;
use crate::text::{concat2, int_decimal, lit, parse_i64, parse_i64_spec, push_i64};
use crate::plugin::types::{
    ApiError, AttachmentPolicy, AuthConfig, EmailTransportConfig, ErrorCode, ImapConfig, OAuthRefreshProvider, SmtpConfig,
    RefreshedOAuthToken, RuntimeMetrics, SyncJob, SyncRunnerConfig, SyncRunnerReport,
};
use crate::plugin::checks::{error_is, is_default_policy, transport_check, validate_transport_config, verdict_is};
use crate::plugin::outbox::{lemma_pow2_mono, lemma_pow2_positive, pow2};

verus! {

/// The scheduler's record for one account and folder: when it may next be synced, and how
/// many syncs of it have failed in a row.
#[derive(Debug, Clone)]
pub struct ScheduleEntry {
    pub account_id: i64,
    pub folder: String,
    pub next_allowed_at: i64,
    pub fails: u32,
}

/// Whether an entry is the one for an account and folder.
pub open spec fn entry_is_for(e: ScheduleEntry, account_id: i64, folder: Seq<char>) -> bool {
    e.account_id == account_id && e.folder@ == folder
}

/// The scheduler's record for an account and folder: the first entry for it, if any.
pub open spec fn schedule_lookup(entries: Seq<ScheduleEntry>, account_id: i64, folder: Seq<char>) -> Option<
    (i64, u32),
>
    decreases entries.len(),
{
    if entries.len() == 0 {
        None
    } else {
        match schedule_lookup(entries.drop_last(), account_id, folder) {
            Some(v) => Some(v),
            None => if entry_is_for(entries.last(), account_id, folder) {
                Some((entries.last().next_allowed_at, entries.last().fails))
            } else {
                None
            },
        }
    }
}

/// The scheduler's state for an account and folder: `(0, 0)` when none is recorded.
pub open spec fn schedule_state(entries: Seq<ScheduleEntry>, account_id: i64, folder: Seq<char>) -> (
    i64,
    u32,
) {
    match schedule_lookup(entries, account_id, folder) {
        Some(v) => v,
        None => (0, 0),
    }
}

/// The counters after one more sync attempt.
pub open spec fn with_sync_attempt(m: RuntimeMetrics) -> RuntimeMetrics {
    RuntimeMetrics { sync_attempts: (m.sync_attempts + 1) as u64, ..m }
}

/// The counters after a sync ended, successfully or not: a success is counted, a failure not
/// (the runner counts failed runs).
pub open spec fn with_sync_outcome(m: RuntimeMetrics, succeeded: bool) -> RuntimeMetrics {
    if succeeded {
        RuntimeMetrics { sync_success: (m.sync_success + 1) as u64, ..m }
    } else {
        m
    }
}

/// One sync counts one attempt, and one success exactly when it succeeded; the failure, send
/// and retry counters stay as they were.
pub proof fn sync_counts(m0: RuntimeMetrics, succeeded: bool)
    requires
        m0.sync_attempts < u64::MAX,
        succeeded ==> m0.sync_success < u64::MAX,
    ensures
        ({
            let m1 = with_sync_outcome(with_sync_attempt(m0), succeeded);
            &&& m1.sync_attempts == m0.sync_attempts + 1
            &&& m1.sync_success == m0.sync_success + if succeeded { 1int } else { 0int }
            &&& m1.sync_failures == m0.sync_failures
            &&& m1.send_failures == m0.send_failures
            &&& m1.retry_count == m0.retry_count
        }),
{
}

/// The plugin's state besides its store.
pub struct PluginRuntime {
    pub config: Option<EmailTransportConfig>,
    pub metrics: RuntimeMetrics,
    pub imap_oauth_expires_at: Option<i64>,
    pub smtp_oauth_expires_at: Option<i64>,
    pub schedule: Vec<ScheduleEntry>,
}

/// A configuration whose attachment policy allows no content type gets the default policy.
pub open spec fn with_default_policy(config: EmailTransportConfig, result: EmailTransportConfig) -> bool {
    &&& result.imap == config.imap
    &&& result.smtp == config.smtp
    &&& result.attachment_store == config.attachment_store
    &&& if config.attachment_policy.allowed_content_types@.len() == 0 {
        is_default_policy(result.attachment_policy)
    } else {
        result.attachment_policy == config.attachment_policy
    }
}

/// Gives a configuration the default attachment policy when its policy allows no type.
pub fn fill_default_policy(config: EmailTransportConfig) -> (r: EmailTransportConfig)
    ensures
        with_default_policy(config, r),
{
    if config.attachment_policy.allowed_content_types.len() == 0 {
        EmailTransportConfig {
            imap: config.imap,
            smtp: config.smtp,
            attachment_store: config.attachment_store,
            attachment_policy: AttachmentPolicy::default(),
        }
    } else {
        config
    }
}

pub open spec fn zero_metrics(m: RuntimeMetrics) -> bool {
    m.sync_attempts == 0 && m.sync_success == 0 && m.sync_failures == 0 && m.send_failures == 0
        && m.retry_count == 0
}

impl PluginRuntime {
    pub open spec fn schedule_entries(&self) -> Seq<ScheduleEntry> {
        self.schedule@
    }

    /// No configuration, zero counters, nothing scheduled, no token expiry known.
    pub fn new() -> (r: Self)
        ensures
            r.config is None,
            zero_metrics(r.metrics),
            r.imap_oauth_expires_at is None,
            r.smtp_oauth_expires_at is None,
            r.schedule_entries().len() == 0,
    {
        PluginRuntime {
            config: None,
            metrics: RuntimeMetrics {
                sync_attempts: 0,
                sync_success: 0,
                sync_failures: 0,
                send_failures: 0,
                retry_count: 0,
            },
            imap_oauth_expires_at: None,
            smtp_oauth_expires_at: None,
            schedule: Vec::new(),
        }
    }

    /// Starts with a configuration (given the default attachment policy if its policy allows
    /// no type). The configuration is kept even if it does not validate; the caller reports
    /// that.
    pub fn new_with_config(config: EmailTransportConfig) -> (r: Self)
        ensures
            r.config is Some && with_default_policy(config, r.config->0),
            zero_metrics(r.metrics),
            r.imap_oauth_expires_at is None,
            r.smtp_oauth_expires_at is None,
            r.schedule_entries().len() == 0,
    {
        let mut r = PluginRuntime::new();
        r.config = Some(fill_default_policy(config));
        r
    }

    /// Replaces the configuration, if (given the default policy when needed) it validates;
    /// otherwise keeps the old one and reports why.
    pub fn reload_config(&mut self, config: EmailTransportConfig) -> (r: Result<(), ApiError>)
        ensures
            exists|filled: EmailTransportConfig|
                with_default_policy(config, filled) && verdict_is(r, transport_check(filled)) && (r
                    is Ok ==> final(self).config == Some(filled)),
            r is Err ==> final(self).config == old(self).config,
            final(self).metrics == old(self).metrics,
            final(self).imap_oauth_expires_at == old(self).imap_oauth_expires_at,
            final(self).smtp_oauth_expires_at == old(self).smtp_oauth_expires_at,
            final(self).schedule_entries() == old(self).schedule_entries(),
    {
        let filled = fill_default_policy(config);
        let ghost f = filled;
        match validate_transport_config(&filled) {
            Ok(()) => {
                self.config = Some(filled);
                Ok(())
            },
            Err(e) => Err(e),
        }
    }

    /// The counters.
    pub fn metrics_snapshot(&self) -> (r: RuntimeMetrics)
        ensures
            r == self.metrics,
    {
        RuntimeMetrics {
            sync_attempts: self.metrics.sync_attempts,
            sync_success: self.metrics.sync_success,
            sync_failures: self.metrics.sync_failures,
            send_failures: self.metrics.send_failures,
            retry_count: self.metrics.retry_count,
        }
    }

    /// Counts a sync attempt.
    pub fn note_sync_attempt(&mut self)
        requires
            old(self).metrics.sync_attempts < u64::MAX,
        ensures
            final(self).metrics == with_sync_attempt(old(self).metrics),
            final(self).config == old(self).config,
            final(self).imap_oauth_expires_at == old(self).imap_oauth_expires_at,
            final(self).smtp_oauth_expires_at == old(self).smtp_oauth_expires_at,
            final(self).schedule_entries() == old(self).schedule_entries(),
    {
        self.metrics.sync_attempts = self.metrics.sync_attempts + 1;
    }

    /// Counts a successful sync.
    pub fn note_sync_success(&mut self)
        requires
            old(self).metrics.sync_success < u64::MAX,
        ensures
            final(self).metrics == with_sync_outcome(old(self).metrics, true),
            final(self).config == old(self).config,
            final(self).imap_oauth_expires_at == old(self).imap_oauth_expires_at,
            final(self).smtp_oauth_expires_at == old(self).smtp_oauth_expires_at,
            final(self).schedule_entries() == old(self).schedule_entries(),
    {
        self.metrics.sync_success = self.metrics.sync_success + 1;
    }

    /// Counts a failed send, which is also a retry to come.
    pub fn note_send_failure(&mut self)
        requires
            old(self).metrics.send_failures < u64::MAX,
            old(self).metrics.retry_count < u64::MAX,
        ensures
            final(self).metrics == (RuntimeMetrics {
                send_failures: (old(self).metrics.send_failures + 1) as u64,
                retry_count: (old(self).metrics.retry_count + 1) as u64,
                ..old(self).metrics
            }),
            final(self).config == old(self).config,
            final(self).imap_oauth_expires_at == old(self).imap_oauth_expires_at,
            final(self).smtp_oauth_expires_at == old(self).smtp_oauth_expires_at,
            final(self).schedule_entries() == old(self).schedule_entries(),
    {
        self.metrics.send_failures = self.metrics.send_failures + 1;
        self.metrics.retry_count = self.metrics.retry_count + 1;
    }
}


/// A record found among the first `k` entries is the record of all of them.
proof fn lemma_lookup_prefix(entries: Seq<ScheduleEntry>, k: int, account_id: i64, folder: Seq<char>)
    requires
        0 <= k <= entries.len(),
        schedule_lookup(entries.take(k), account_id, folder) is Some,
    ensures
        schedule_lookup(entries, account_id, folder) == schedule_lookup(entries.take(k), account_id, folder),
    decreases entries.len(),
{
    if k < entries.len() {
        assert(entries.drop_last().take(k) =~= entries.take(k));
        lemma_lookup_prefix(entries.drop_last(), k, account_id, folder);
    } else {
        assert(entries.take(k) =~= entries);
    }
}

impl PluginRuntime {
    /// When the scheduler next allows a sync of an account's folder, and how many syncs of it
    /// have failed in a row: `(0, 0)` for one never recorded.
    pub fn schedule_state_of(&self, account_id: i64, folder: &String) -> (r: (i64, u32))
        ensures
            r == schedule_state(self.schedule@, account_id, folder@),
    {
        let mut i: usize = 0;
        while i < self.schedule.len()
            invariant
                i <= self.schedule@.len(),
                schedule_lookup(self.schedule@.take(i as int), account_id, folder@) is None,
            decreases self.schedule@.len() - i,
        {
            let e = &self.schedule[i];
            assert(self.schedule@.take(i + 1).drop_last() =~= self.schedule@.take(i as int));
            if e.account_id == account_id && e.folder == *folder {
                proof {
                    lemma_lookup_prefix(self.schedule@, i + 1, account_id, folder@);
                }
                return (e.next_allowed_at, e.fails);
            }
            i = i + 1;
        }
        assert(self.schedule@.take(i as int) =~= self.schedule@);
        (0, 0)
    }

    /// Records when an account's folder may next be synced and its failures in a row; the
    /// records of every other folder stay as they were.
    pub fn set_schedule(&mut self, account_id: i64, folder: &String, next_allowed_at: i64, fails: u32)
        ensures
            schedule_lookup(final(self).schedule@, account_id, folder@) == Some((next_allowed_at, fails)),
            forall|a: i64, f: Seq<char>|
                !(a == account_id && f == folder@) ==> #[trigger] schedule_lookup(final(self).schedule@, a, f)
                    == schedule_lookup(old(self).schedule@, a, f),
            final(self).config == old(self).config,
            final(self).metrics == old(self).metrics,
            final(self).imap_oauth_expires_at == old(self).imap_oauth_expires_at,
            final(self).smtp_oauth_expires_at == old(self).smtp_oauth_expires_at,
    {
        let mut out: Vec<ScheduleEntry> = Vec::new();
        let mut done = false;
        let mut i: usize = 0;
        while i < self.schedule.len()
            invariant
                i <= self.schedule@.len(),
                forall|a: i64, f: Seq<char>|
                    !(a == account_id && f == folder@) ==> #[trigger] schedule_lookup(out@, a, f)
                        == schedule_lookup(self.schedule@.take(i as int), a, f),
                done ==> schedule_lookup(out@, account_id, folder@) == Some((next_allowed_at, fails)),
                !done ==> schedule_lookup(out@, account_id, folder@) is None,
            decreases self.schedule@.len() - i,
        {
            let e = &self.schedule[i];
            let here = !done && e.account_id == account_id && e.folder == *folder;
            let ne = ScheduleEntry {
                account_id: e.account_id,
                folder: e.folder.clone(),
                next_allowed_at: if here { next_allowed_at } else { e.next_allowed_at },
                fails: if here { fails } else { e.fails },
            };
            let ghost prev = out@;
            out.push(ne);
            proof {
                assert(out@.drop_last() =~= prev);
                assert(self.schedule@.take(i + 1).drop_last() =~= self.schedule@.take(i as int));
                assert forall|a: i64, f: Seq<char>|
                    !(a == account_id && f == folder@) implies #[trigger] schedule_lookup(out@, a, f)
                        == schedule_lookup(self.schedule@.take(i + 1), a, f) by {
                    assert(schedule_lookup(prev, a, f) == schedule_lookup(self.schedule@.take(i as int), a, f));
                }
            }
            if here {
                done = true;
            }
            i = i + 1;
        }
        assert(self.schedule@.take(i as int) =~= self.schedule@);
        if !done {
            let ghost prev = out@;
            out.push(ScheduleEntry { account_id, folder: folder.clone(), next_allowed_at, fails });
            proof {
                assert(out@.drop_last() =~= prev);
                assert forall|a: i64, f: Seq<char>|
                    !(a == account_id && f == folder@) implies #[trigger] schedule_lookup(out@, a, f)
                        == schedule_lookup(self.schedule@, a, f) by {
                    assert(schedule_lookup(prev, a, f) == schedule_lookup(self.schedule@, a, f));
                }
            }
        }
        self.schedule = out;
    }
}


/// Seconds a folder waits after its `next_fails`-th failure in a row:
/// `base * 2^min(next_fails, 6)`, but no more than `max`.
pub open spec fn sync_backoff(next_fails: int, base: int, max: int) -> int {
    let b = base * pow2(if next_fails < 6 { next_fails as nat } else { 6 }) as int;
    if b < max {
        b
    } else {
        max
    }
}

/// Whether `sync_backoff` can be computed in 64-bit arithmetic.
pub open spec fn sync_backoff_fits(next_fails: int, base: int) -> bool {
    let b = base * pow2(if next_fails < 6 { next_fails as nat } else { 6 }) as int;
    i64::MIN <= b <= i64::MAX
}

/// The backoff of `sync_backoff`, computed.
pub fn sync_backoff_seconds(next_fails: u32, base: i64, max: i64) -> (r: i64)
    requires
        sync_backoff_fits(next_fails as int, base as int),
    ensures
        r == sync_backoff(next_fails as int, base as int, max as int),
{
    let e: u32 = if next_fails < 6 { next_fails } else { 6 };
    let mut p: i64 = 1;
    let mut i: u32 = 0;
    while i < e
        invariant
            0 <= i <= e <= 6,
            p == pow2(i as nat),
        decreases e - i,
    {
        proof {
            lemma_pow2_mono(i as nat, 6);
            lemma_pow2_six();
        }
        assert(pow2((i + 1) as nat) == 2 * pow2(i as nat));
        p = p * 2;
        i = i + 1;
    }
    let b = base * p;
    if b < max {
        b
    } else {
        max
    }
}

proof fn lemma_pow2_six()
    ensures
        pow2(6) == 64,
{
    reveal_with_fuel(pow2, 7);
}

/// A job that a sync run attempts: its place in the job list and the failures in a row that
/// its folder had when the run began.
#[derive(Debug, Clone, Copy)]
pub struct PlannedSync {
    pub job_index: usize,
    pub fails: u32,
}

/// The jobs among the first `n` that are due at `now_ts`, in their order, each with its
/// folder's failures in a row.
pub open spec fn due_jobs(entries: Seq<ScheduleEntry>, jobs: Seq<SyncJob>, now_ts: i64, n: nat) -> Seq<
    PlannedSync,
>
    decreases n,
{
    if n == 0 {
        seq![]
    } else {
        let prev = due_jobs(entries, jobs, now_ts, (n - 1) as nat);
        let st = schedule_state(entries, jobs[n - 1].account_id, jobs[n - 1].folder@);
        if now_ts < st.0 {
            prev
        } else {
            prev.push(PlannedSync { job_index: (n - 1) as usize, fails: st.1 })
        }
    }
}

/// What recording the failure of a folder's sync at `now_ts`, after `fails` failures in a row,
/// does to the scheduler's entries: the folder waits its backoff and counts one more failure;
/// every other folder's record stays.
pub open spec fn sync_failure_recorded(
    before: Seq<ScheduleEntry>,
    after: Seq<ScheduleEntry>,
    account_id: i64,
    folder: Seq<char>,
    now_ts: i64,
    fails: u32,
    runner: SyncRunnerConfig,
) -> bool {
    &&& schedule_state(after, account_id, folder).0 == now_ts + sync_backoff(
        fails + 1,
        runner.base_backoff_seconds as int,
        runner.max_backoff_seconds as int,
    )
    &&& schedule_state(after, account_id, folder).1 == fails + 1
    &&& forall|a: i64, f: Seq<char>|
        !(a == account_id && f == folder) ==> #[trigger] schedule_lookup(after, a, f) == schedule_lookup(before, a, f)
}

/// How many jobs a run attempts at most: the configured concurrency, at least one.
pub open spec fn run_cap(max_concurrency: usize) -> int {
    if max_concurrency < 1 {
        1
    } else {
        max_concurrency as int
    }
}

/// The first `cap` elements of a sequence (all of them when it is shorter).
pub open spec fn capped<T>(s: Seq<T>, cap: int) -> Seq<T> {
    if s.len() <= cap {
        s
    } else {
        s.take(cap)
    }
}

/// The jobs that a run at `now_ts` attempts, in order.
pub open spec fn sync_plan(entries: Seq<ScheduleEntry>, jobs: Seq<SyncJob>, now_ts: i64, max_concurrency: usize) -> Seq<
    PlannedSync,
> {
    capped(due_jobs(entries, jobs, now_ts, jobs.len()), run_cap(max_concurrency))
}

impl PluginRuntime {
    /// The jobs that a run at `now_ts` attempts: those whose folders are due, in the order
    /// given, at most `max_concurrency` of them (at least one).
    pub fn plan_sync_run(&self, jobs: &Vec<SyncJob>, now_ts: i64, max_concurrency: usize) -> (r: Vec<
        PlannedSync,
    >)
        ensures
            r@ == sync_plan(self.schedule@, jobs@, now_ts, max_concurrency),
    {
        let cap: usize = if max_concurrency < 1 { 1 } else { max_concurrency };
        let mut out: Vec<PlannedSync> = Vec::new();
        let mut i: usize = 0;
        while i < jobs.len()
            invariant
                i <= jobs@.len(),
                cap == run_cap(max_concurrency),
                out@ == capped(due_jobs(self.schedule@, jobs@, now_ts, i as nat), cap as int),
            decreases jobs@.len() - i,
        {
            let job = &jobs[i];
            let st = self.schedule_state_of(job.account_id, &job.folder);
            let ghost prev = due_jobs(self.schedule@, jobs@, now_ts, i as nat);
            if now_ts >= st.0 {
                let p = PlannedSync { job_index: i, fails: st.1 };
                if out.len() < cap {
                    out.push(p);
                } else {
                    assert(prev.push(p).take(cap as int) =~= prev.take(cap as int));
                }
            }
            i = i + 1;
        }
        out
    }

    /// Records that a planned sync succeeded: the folder may be synced again from `now_ts`,
    /// with no failures in a row. Nothing else changes.
    pub fn record_sync_success(&mut self, account_id: i64, folder: &String, now_ts: i64)
        ensures
            schedule_state(final(self).schedule@, account_id, folder@) == (now_ts, 0u32),
            forall|a: i64, f: Seq<char>|
                !(a == account_id && f == folder@) ==> #[trigger] schedule_lookup(final(self).schedule@, a, f)
                    == schedule_lookup(old(self).schedule@, a, f),
            final(self).config == old(self).config,
            final(self).metrics == old(self).metrics,
            final(self).imap_oauth_expires_at == old(self).imap_oauth_expires_at,
            final(self).smtp_oauth_expires_at == old(self).smtp_oauth_expires_at,
    {
        self.set_schedule(account_id, folder, now_ts, 0);
    }

    /// Records that a planned sync failed after `fails` failures in a row: the folder waits
    /// `sync_backoff` seconds, one more failure is counted for it, and the run's failure is
    /// counted. Nothing else changes.
    pub fn record_sync_failure(
        &mut self,
        account_id: i64,
        folder: &String,
        now_ts: i64,
        fails: u32,
        runner: &SyncRunnerConfig,
    )
        requires
            fails < u32::MAX,
            old(self).metrics.sync_failures < u64::MAX,
            sync_backoff_fits(fails + 1, runner.base_backoff_seconds as int),
            i64::MIN <= now_ts + sync_backoff(
                fails + 1,
                runner.base_backoff_seconds as int,
                runner.max_backoff_seconds as int,
            ) <= i64::MAX,
        ensures
            schedule_state(final(self).schedule@, account_id, folder@) == (
                (now_ts + sync_backoff(
                    fails + 1,
                    runner.base_backoff_seconds as int,
                    runner.max_backoff_seconds as int,
                )) as i64,
                (fails + 1) as u32,
            ),
            forall|a: i64, f: Seq<char>|
                !(a == account_id && f == folder@) ==> #[trigger] schedule_lookup(final(self).schedule@, a, f)
                    == schedule_lookup(old(self).schedule@, a, f),
            sync_failure_recorded(old(self).schedule@, final(self).schedule@, account_id, folder@, now_ts, fails, *runner),
            final(self).metrics == (RuntimeMetrics {
                sync_failures: (old(self).metrics.sync_failures + 1) as u64,
                ..old(self).metrics
            }),
            final(self).config == old(self).config,
            final(self).imap_oauth_expires_at == old(self).imap_oauth_expires_at,
            final(self).smtp_oauth_expires_at == old(self).smtp_oauth_expires_at,
    {
        self.metrics.sync_failures = self.metrics.sync_failures + 1;
        let next_fails = fails + 1;
        let backoff = sync_backoff_seconds(next_fails, runner.base_backoff_seconds, runner.max_backoff_seconds);
        self.set_schedule(account_id, folder, now_ts + backoff, next_fails);
    }
}

/// How many of the outcomes are successes.
pub open spec fn count_true(s: Seq<bool>) -> nat
    decreases s.len(),
{
    if s.len() == 0 {
        0
    } else {
        count_true(s.drop_last()) + if s.last() { 1nat } else { 0nat }
    }
}

/// The name of the run at `now_ts`.
pub open spec fn run_id_of(now_ts: int) -> Seq<char> {
    "run-"@ + int_decimal(now_ts)
}

/// The report of a run at `now_ts` whose attempts had the given outcomes (`true` for a sync
/// that succeeded).
pub fn sync_runner_report(now_ts: i64, outcomes: &Vec<bool>) -> (r: SyncRunnerReport)
    ensures
        r.run_id@ == run_id_of(now_ts as int),
        r.attempted == outcomes@.len(),
        r.succeeded == count_true(outcomes@),
        r.failed == outcomes@.len() - count_true(outcomes@),
{
    let mut run_id = lit("run-");
    push_i64(&mut run_id, now_ts);
    let mut succeeded: usize = 0;
    let mut i: usize = 0;
    while i < outcomes.len()
        invariant
            i <= outcomes@.len(),
            succeeded == count_true(outcomes@.take(i as int)),
            succeeded <= i,
        decreases outcomes@.len() - i,
    {
        assert(outcomes@.take(i + 1).drop_last() =~= outcomes@.take(i as int));
        if outcomes[i] {
            succeeded = succeeded + 1;
        }
        i = i + 1;
    }
    assert(outcomes@.take(i as int) =~= outcomes@);
    SyncRunnerReport { run_id, attempted: outcomes.len(), succeeded, failed: outcomes.len() - succeeded }
}


proof fn lemma_due_jobs_facts(entries: Seq<ScheduleEntry>, jobs: Seq<SyncJob>, now_ts: i64, n: nat)
    requires
        n <= jobs.len() <= usize::MAX,
    ensures
        due_jobs(entries, jobs, now_ts, n).len() <= n,
        forall|k: int|
            0 <= k < due_jobs(entries, jobs, now_ts, n).len() ==> {
                let p = #[trigger] due_jobs(entries, jobs, now_ts, n)[k];
                let st = schedule_state(entries, jobs[p.job_index as int].account_id, jobs[p.job_index as int].folder@);
                &&& p.job_index < n
                &&& now_ts >= st.0
                &&& p.fails == st.1
            },
        forall|k1: int, k2: int|
            0 <= k1 < k2 < due_jobs(entries, jobs, now_ts, n).len() ==> (#[trigger] due_jobs(entries, jobs, now_ts, n)[k1]).job_index
                < (#[trigger] due_jobs(entries, jobs, now_ts, n)[k2]).job_index,
        forall|j: int|
            0 <= j < n && now_ts >= schedule_state(entries, jobs[j].account_id, jobs[j].folder@).0 ==> exists|k: int|
                0 <= k < due_jobs(entries, jobs, now_ts, n).len() && (#[trigger] due_jobs(entries, jobs, now_ts, n)[k]).job_index == j,
    decreases n,
{
    if n > 0 {
        lemma_due_jobs_facts(entries, jobs, now_ts, (n - 1) as nat);
        let prev = due_jobs(entries, jobs, now_ts, (n - 1) as nat);
        let cur = due_jobs(entries, jobs, now_ts, n);
        assert forall|j: int|
            0 <= j < n && now_ts >= schedule_state(entries, jobs[j].account_id, jobs[j].folder@).0 implies exists|k: int|
                0 <= k < cur.len() && (#[trigger] cur[k]).job_index == j by {
            if j < n - 1 {
                let k = choose|k: int| 0 <= k < prev.len() && (#[trigger] prev[k]).job_index == j;
                assert(cur[k] == prev[k]);
            } else {
                assert(cur[prev.len() as int].job_index == j);
            }
        }
    }
}

/// A sync run attempts at most its concurrency (at least one) jobs.
pub proof fn sync_plan_within_cap(entries: Seq<ScheduleEntry>, jobs: Seq<SyncJob>, now_ts: i64, max_concurrency: usize)
    ensures
        sync_plan(entries, jobs, now_ts, max_concurrency).len() <= run_cap(max_concurrency),
{
}

/// A sync run attempts only jobs whose folders are due, in the order of the job list, each
/// with its folder's failures in a row.
pub proof fn sync_plan_only_due(entries: Seq<ScheduleEntry>, jobs: Seq<SyncJob>, now_ts: i64, max_concurrency: usize)
    requires
        jobs.len() <= usize::MAX,
    ensures
        forall|k: int|
            0 <= k < sync_plan(entries, jobs, now_ts, max_concurrency).len() ==> {
                let p = #[trigger] sync_plan(entries, jobs, now_ts, max_concurrency)[k];
                let st = schedule_state(entries, jobs[p.job_index as int].account_id, jobs[p.job_index as int].folder@);
                &&& p.job_index < jobs.len()
                &&& now_ts >= st.0
                &&& p.fails == st.1
            },
        forall|k1: int, k2: int|
            0 <= k1 < k2 < sync_plan(entries, jobs, now_ts, max_concurrency).len() ==> (#[trigger] sync_plan(
                entries,
                jobs,
                now_ts,
                max_concurrency,
            )[k1]).job_index < (#[trigger] sync_plan(entries, jobs, now_ts, max_concurrency)[k2]).job_index,
{
    lemma_due_jobs_facts(entries, jobs, now_ts, jobs.len());
    let d = due_jobs(entries, jobs, now_ts, jobs.len());
    let plan = sync_plan(entries, jobs, now_ts, max_concurrency);
    assert forall|k: int| 0 <= k < plan.len() implies plan[k] == d[k] by {}
}

/// When no more jobs are due than a run may attempt, the run attempts every due job.
pub proof fn sync_plan_takes_every_due_job(
    entries: Seq<ScheduleEntry>,
    jobs: Seq<SyncJob>,
    now_ts: i64,
    max_concurrency: usize,
    j: int,
)
    requires
        0 <= j < jobs.len() <= usize::MAX,
        now_ts >= schedule_state(entries, jobs[j].account_id, jobs[j].folder@).0,
        due_jobs(entries, jobs, now_ts, jobs.len()).len() <= run_cap(max_concurrency),
    ensures
        exists|k: int|
            0 <= k < sync_plan(entries, jobs, now_ts, max_concurrency).len() && (#[trigger] sync_plan(
                entries,
                jobs,
                now_ts,
                max_concurrency,
            )[k]).job_index == j,
{
    lemma_due_jobs_facts(entries, jobs, now_ts, jobs.len());
    assert(sync_plan(entries, jobs, now_ts, max_concurrency) == due_jobs(entries, jobs, now_ts, jobs.len()));
}

/// A run attempts the due jobs from the front of the list, as many as its concurrency allows,
/// counting a concurrency of zero as one: min(due jobs, max(max_concurrency, 1)) of them.
pub proof fn sync_plan_size(entries: Seq<ScheduleEntry>, jobs: Seq<SyncJob>, now_ts: i64, max_concurrency: usize)
    ensures
        ({
            let due = due_jobs(entries, jobs, now_ts, jobs.len());
            let plan = sync_plan(entries, jobs, now_ts, max_concurrency);
            let cap: int = if max_concurrency == 0 { 1 } else { max_concurrency as int };
            &&& plan.len() == if due.len() < cap { due.len() as int } else { cap }
            &&& forall|k: int| 0 <= k < plan.len() ==> #[trigger] plan[k] == due[k]
        }),
{
}

/// The backoff never exceeds the configured maximum.
pub proof fn sync_backoff_capped(next_fails: int, base: int, max: int)
    ensures
        sync_backoff(next_fails, base, max) <= max,
{
}

/// With a positive base and maximum the backoff is positive, and it never shrinks as failures
/// accumulate.
pub proof fn sync_backoff_grows(n1: int, n2: int, base: int, max: int)
    requires
        0 <= n1 <= n2,
        base >= 1,
        max >= 1,
    ensures
        sync_backoff(n1, base, max) >= 1,
        sync_backoff(n1, base, max) <= sync_backoff(n2, base, max),
{
    let e1: nat = if n1 < 6 { n1 as nat } else { 6 };
    let e2: nat = if n2 < 6 { n2 as nat } else { 6 };
    lemma_pow2_positive(e1);
    lemma_pow2_mono(e1, e2);
    let p1 = pow2(e1) as int;
    let p2 = pow2(e2) as int;
    assert(base * p1 >= 1 && base * p1 <= base * p2) by (nonlinear_arith)
        requires
            base >= 1,
            1 <= p1 <= p2,
    ;
}

/// After a failure recorded at `failed_at`, a run at any time before its backoff has passed
/// does not attempt that folder. With a positive base and maximum, that includes a run at
/// `failed_at` itself.
pub proof fn failed_folder_waits(
    entries: Seq<ScheduleEntry>,
    jobs: Seq<SyncJob>,
    failed_at: i64,
    later: i64,
    max_concurrency: usize,
    j: int,
    next_fails: u32,
    base: int,
    max: int,
)
    requires
        0 <= j < jobs.len() <= usize::MAX,
        schedule_state(entries, jobs[j].account_id, jobs[j].folder@).0 == failed_at + sync_backoff(
            next_fails as int,
            base,
            max,
        ),
        later < failed_at + sync_backoff(next_fails as int, base, max),
    ensures
        forall|k: int|
            0 <= k < sync_plan(entries, jobs, later, max_concurrency).len() ==> (#[trigger] sync_plan(
                entries,
                jobs,
                later,
                max_concurrency,
            )[k]).job_index != j,
        base >= 1 && max >= 1 ==> failed_at < failed_at + sync_backoff(next_fails as int, base, max),
{
    if base >= 1 && max >= 1 {
        sync_backoff_grows(next_fails as int, next_fails as int, base, max);
    }
    sync_plan_only_due(entries, jobs, later, max_concurrency);
}

/// After a failure recorded at `failed_at`, the folder is due again once its backoff has
/// passed, with its failures in a row carried along.
pub proof fn failed_folder_due_after_backoff(
    entries: Seq<ScheduleEntry>,
    jobs: Seq<SyncJob>,
    failed_at: i64,
    later: i64,
    j: int,
    next_fails: u32,
    base: int,
    max: int,
)
    requires
        0 <= j < jobs.len() <= usize::MAX,
        schedule_state(entries, jobs[j].account_id, jobs[j].folder@).0 == failed_at + sync_backoff(
            next_fails as int,
            base,
            max,
        ),
        schedule_state(entries, jobs[j].account_id, jobs[j].folder@).1 == next_fails,
        failed_at + sync_backoff(next_fails as int, base, max) <= later,
    ensures
        exists|k: int|
            0 <= k < due_jobs(entries, jobs, later, jobs.len()).len() && (#[trigger] due_jobs(
                entries,
                jobs,
                later,
                jobs.len(),
            )[k]).job_index == j && due_jobs(entries, jobs, later, jobs.len())[k].fails == next_fails,
{
    lemma_due_jobs_facts(entries, jobs, later, jobs.len());
}

/// Across runs: once a run recorded the failure of a folder's sync at `failed_at` (its
/// `fails + 1`-th in a row), and nothing was recorded for it since, a later run does not
/// attempt it before the backoff has passed, and counts it as due, with its failures in a row,
/// from then on.
pub proof fn failed_folder_backoff_across_runs(
    before: Seq<ScheduleEntry>,
    after: Seq<ScheduleEntry>,
    jobs: Seq<SyncJob>,
    j: int,
    failed_at: i64,
    fails: u32,
    runner: SyncRunnerConfig,
    later: i64,
    max_concurrency: usize,
)
    requires
        0 <= j < jobs.len() <= usize::MAX,
        sync_failure_recorded(before, after, jobs[j].account_id, jobs[j].folder@, failed_at, fails, runner),
    ensures
        later < failed_at + sync_backoff(
            fails + 1,
            runner.base_backoff_seconds as int,
            runner.max_backoff_seconds as int,
        ) ==> forall|k: int|
            0 <= k < sync_plan(after, jobs, later, max_concurrency).len() ==> (#[trigger] sync_plan(
                after,
                jobs,
                later,
                max_concurrency,
            )[k]).job_index != j,
        later >= failed_at + sync_backoff(
            fails + 1,
            runner.base_backoff_seconds as int,
            runner.max_backoff_seconds as int,
        ) ==> exists|k: int|
            0 <= k < due_jobs(after, jobs, later, jobs.len()).len() && (#[trigger] due_jobs(
                after,
                jobs,
                later,
                jobs.len(),
            )[k]).job_index == j && due_jobs(after, jobs, later, jobs.len())[k].fails == fails + 1,
{
    let base = runner.base_backoff_seconds as int;
    let max = runner.max_backoff_seconds as int;
    let nf = (fails + 1) as u32;
    if later < failed_at + sync_backoff(fails + 1, base, max) {
        failed_folder_waits(after, jobs, failed_at, later, max_concurrency, j, nf, base, max);
    } else {
        failed_folder_due_after_backoff(after, jobs, failed_at, later, j, nf, base, max);
    }
}

/// After a success recorded at `now_ts`, a run at that time or later attempts the folder
/// again when it is not over its concurrency.
pub proof fn succeeded_folder_due_again(
    entries: Seq<ScheduleEntry>,
    jobs: Seq<SyncJob>,
    now_ts: i64,
    later: i64,
    j: int,
)
    requires
        0 <= j < jobs.len() <= usize::MAX,
        schedule_state(entries, jobs[j].account_id, jobs[j].folder@) == (now_ts, 0u32),
        now_ts <= later,
    ensures
        exists|k: int|
            0 <= k < due_jobs(entries, jobs, later, jobs.len()).len() && (#[trigger] due_jobs(
                entries,
                jobs,
                later,
                jobs.len(),
            )[k]).job_index == j && due_jobs(entries, jobs, later, jobs.len())[k].fails == 0,
{
    lemma_due_jobs_facts(entries, jobs, later, jobs.len());
}


/// Whether a token expiring at `expires_at` must be refreshed at `now_ts`: it is known to expire
/// within a minute.
pub open spec fn needs_refresh(expires_at: Option<i64>, now_ts: i64) -> bool {
    match expires_at {
        Some(ts) => ts <= now_ts + 60,
        None => false,
    }
}

/// Whether a token expiring at `expires_at` must be refreshed at `now_ts`.
pub fn token_needs_refresh(expires_at: Option<i64>, now_ts: i64) -> (b: bool)
    ensures
        b == needs_refresh(expires_at, now_ts),
{
    match expires_at {
        Some(ts) => (ts as i128) <= (now_ts as i128) + 60,
        None => false,
    }
}

/// The credentials after a refresh: the new token, the password as it was.
pub open spec fn refreshed_auth(auth: AuthConfig, refreshed: RefreshedOAuthToken) -> AuthConfig {
    AuthConfig { password: auth.password, oauth_token: Some(refreshed.token) }
}

/// The known expiry after a refresh: the new one where the provider gave one, else the old.
pub open spec fn refreshed_expiry(expires_at: Option<i64>, refreshed: RefreshedOAuthToken) -> Option<i64> {
    match refreshed.expires_at {
        Some(ts) => Some(ts),
        None => expires_at,
    }
}

/// Installs a refreshed token and its expiry.
pub fn apply_refreshed_token(auth: &mut AuthConfig, expires_at: &mut Option<i64>, refreshed: RefreshedOAuthToken)
    ensures
        *final(auth) == refreshed_auth(*old(auth), refreshed),
        *final(expires_at) == refreshed_expiry(*old(expires_at), refreshed),
{
    auth.oauth_token = Some(refreshed.token);
    if let Some(ts) = refreshed.expires_at {
        *expires_at = Some(ts);
    }
}

/// The error when a token must be refreshed and nothing can refresh it.
pub open spec fn no_provider_message(protocol: Seq<char>) -> Seq<char> {
    protocol + " oauth token expired and no refresh provider configured"@
}

/// Whether `ans` is an answer that the provider `p` may give when asked to refresh the token
/// `token` of `user` for `protocol`.
pub open spec fn provider_answer<P: OAuthRefreshProvider + ?Sized>(
    p: &P,
    protocol: Seq<char>,
    user: Seq<char>,
    token: Seq<char>,
    ans: Result<RefreshedOAuthToken, ApiError>,
) -> bool {
    exists|pr: &str, u: &str, t: &str|
        pr@ == protocol && u@ == user && t@ == token && #[trigger] call_ensures(
            P::refresh_token,
            (p, pr, u, t),
            ans,
        )
}

/// What is done with the provider's answer `ans`: a refreshed token is installed and the
/// result is `Ok`; an error is passed on as it came, with nothing changed.
pub open spec fn answer_applied(
    ans: Result<RefreshedOAuthToken, ApiError>,
    auth: AuthConfig,
    expires_at: Option<i64>,
    r: Result<(), ApiError>,
    auth2: AuthConfig,
    expires2: Option<i64>,
) -> bool {
    match ans {
        Ok(t) => r is Ok && auth2 == refreshed_auth(auth, t) && expires2 == refreshed_expiry(expires_at, t),
        Err(e) => r == Err::<(), ApiError>(e) && auth2 == auth && expires2 == expires_at,
    }
}

/// What a refresh of the token of `user` for `protocol` does, from credentials `auth` with
/// known expiry `expires_at` to the result `r`, credentials `auth2` and expiry `expires2`:
/// nothing when there is no token or it is not about to expire; an error when it is and there
/// is no provider; otherwise the provider is asked with the protocol, the user and the current
/// token, and its answer is applied.
pub open spec fn refresh_outcome<P: OAuthRefreshProvider + ?Sized>(
    protocol: Seq<char>,
    user: Seq<char>,
    now_ts: i64,
    provider: Option<&P>,
    auth: AuthConfig,
    expires_at: Option<i64>,
    r: Result<(), ApiError>,
    auth2: AuthConfig,
    expires2: Option<i64>,
) -> bool {
    if auth.oauth_token is None || !needs_refresh(expires_at, now_ts) {
        r is Ok && auth2 == auth && expires2 == expires_at
    } else {
        match provider {
            None => {
                &&& r matches Err(e) && error_is(e, ErrorCode::Provider, no_provider_message(protocol))
                &&& auth2 == auth
                &&& expires2 == expires_at
            },
            Some(p) => exists|ans: Result<RefreshedOAuthToken, ApiError>|
                #[trigger] provider_answer(p, protocol, user, auth.oauth_token->0@, ans)
                    && answer_applied(ans, auth, expires_at, r, auth2, expires2),
        }
    }
}

/// Refreshes one protocol's OAuth token through the provider when it is about to expire.
pub fn refresh_protocol_token<P: OAuthRefreshProvider + ?Sized>(
    protocol: &str,
    user: &str,
    auth: &mut AuthConfig,
    now_ts: i64,
    expires_at: &mut Option<i64>,
    provider: Option<&P>,
) -> (r: Result<(), ApiError>)
    ensures
        refresh_outcome(
            protocol@,
            user@,
            now_ts,
            provider,
            *old(auth),
            *old(expires_at),
            r,
            *final(auth),
            *final(expires_at),
        ),
{
    let token = match &auth.oauth_token {
        Some(t) => t.clone(),
        None => return Ok(()),
    };
    if !token_needs_refresh(*expires_at, now_ts) {
        return Ok(());
    }
    match provider {
        None => Err(ApiError { code: ErrorCode::Provider, message: concat2(protocol, " oauth token expired and no refresh provider configured") }),
        Some(p) => {
            let current: &str = token.as_str();
            let ans = p.refresh_token(protocol, user, current);
            assert(provider_answer(p, protocol@, user@, old(auth).oauth_token->0@, ans));
            match ans {
                Ok(refreshed) => {
                    apply_refreshed_token(auth, expires_at, refreshed);
                    assert(answer_applied(ans, *old(auth), *old(expires_at), Ok(()), *auth, *expires_at));
                    Ok(())
                },
                Err(e) => Err(e),
            }
        },
    }
}

/// A configuration with its IMAP and SMTP credentials replaced.
pub open spec fn with_auths(cfg: EmailTransportConfig, imap: AuthConfig, smtp: AuthConfig) -> EmailTransportConfig {
    EmailTransportConfig {
        imap: ImapConfig { auth: imap, ..cfg.imap },
        smtp: SmtpConfig { auth: smtp, ..cfg.smtp },
        ..cfg
    }
}

/// What refreshing the tokens does, from a configuration and known expiries to the result `r`
/// and the new configuration and expiries: nothing without a configuration; otherwise the
/// refresh of the IMAP token for the IMAP user, and then, if that did not fail, of the SMTP
/// token for the SMTP user; nothing else of the configuration changes.
pub open spec fn tokens_refreshed<P: OAuthRefreshProvider + ?Sized>(
    cfg: Option<EmailTransportConfig>,
    imap_expires_at: Option<i64>,
    smtp_expires_at: Option<i64>,
    cfg2: Option<EmailTransportConfig>,
    imap_expires2: Option<i64>,
    smtp_expires2: Option<i64>,
    now_ts: i64,
    provider: Option<&P>,
    r: Result<(), ApiError>,
) -> bool {
    match cfg {
        None => r is Ok && cfg2 is None && imap_expires2 == imap_expires_at && smtp_expires2 == smtp_expires_at,
        Some(c) => {
            &&& cfg2 is Some
            &&& cfg2->0 == with_auths(c, cfg2->0.imap.auth, cfg2->0.smtp.auth)
            &&& {
                ||| {
                    &&& r is Err
                    &&& refresh_outcome("imap"@, c.imap.user@, now_ts, provider, c.imap.auth, imap_expires_at, r,
                        cfg2->0.imap.auth, imap_expires2)
                    &&& cfg2->0.smtp.auth == c.smtp.auth
                    &&& smtp_expires2 == smtp_expires_at
                }
                ||| {
                    &&& refresh_outcome("imap"@, c.imap.user@, now_ts, provider, c.imap.auth, imap_expires_at, Ok(()),
                        cfg2->0.imap.auth, imap_expires2)
                    &&& refresh_outcome("smtp"@, c.smtp.user@, now_ts, provider, c.smtp.auth, smtp_expires_at, r,
                        cfg2->0.smtp.auth, smtp_expires2)
                }
            }
        },
    }
}

impl PluginRuntime {
    /// Refreshes the IMAP token, then (if that did not fail) the SMTP token, where they are
    /// about to expire. Without a configuration nothing happens.
    pub fn ensure_oauth_fresh<P: OAuthRefreshProvider + ?Sized>(&mut self, now_ts: i64, provider: Option<&P>) -> (r:
        Result<(), ApiError>)
        ensures
            tokens_refreshed(
                old(self).config,
                old(self).imap_oauth_expires_at,
                old(self).smtp_oauth_expires_at,
                final(self).config,
                final(self).imap_oauth_expires_at,
                final(self).smtp_oauth_expires_at,
                now_ts,
                provider,
                r,
            ),
            final(self).metrics == old(self).metrics,
            final(self).schedule@ == old(self).schedule@,
    {
        match &mut self.config {
            None => Ok(()),
            Some(cfg) => {
                let imap_user = cfg.imap.user.clone();
                let r1 = refresh_protocol_token("imap", imap_user.as_str(), &mut cfg.imap.auth, now_ts, &mut self.imap_oauth_expires_at, provider);
                if r1.is_err() {
                    return r1;
                }
                let smtp_user = cfg.smtp.user.clone();
                refresh_protocol_token("smtp", smtp_user.as_str(), &mut cfg.smtp.auth, now_ts, &mut self.smtp_oauth_expires_at, provider)
            },
        }
    }
}


/// Credentials after an override: a given token replaces the password and any old token.
pub open spec fn overridden_auth(auth: AuthConfig, token: Option<String>) -> AuthConfig {
    match token {
        Some(t) => AuthConfig { password: None, oauth_token: Some(t) },
        None => auth,
    }
}

/// A known expiry after an override: a given value that reads as an integer replaces it.
pub open spec fn overridden_expiry(expires_at: Option<i64>, value: Option<String>) -> Option<i64> {
    match value {
        Some(v) => match parse_i64_spec(v@) {
            Some(ts) => Some(ts as i64),
            None => expires_at,
        },
        None => expires_at,
    }
}

impl PluginRuntime {
    /// Overrides the OAuth tokens and their expiry times with values read from outside (such
    /// as the environment). Without a configuration nothing changes.
    pub fn apply_auth_overrides(
        &mut self,
        imap_token: Option<String>,
        smtp_token: Option<String>,
        imap_expires_at: Option<String>,
        smtp_expires_at: Option<String>,
    )
        ensures
            old(self).config is None ==> final(self).config is None
                && final(self).imap_oauth_expires_at == old(self).imap_oauth_expires_at
                && final(self).smtp_oauth_expires_at == old(self).smtp_oauth_expires_at,
            old(self).config is Some ==> {
                let cfg = old(self).config->0;
                &&& final(self).config == Some(with_auths(cfg, overridden_auth(cfg.imap.auth, imap_token),
                    overridden_auth(cfg.smtp.auth, smtp_token)))
                &&& final(self).imap_oauth_expires_at == overridden_expiry(old(self).imap_oauth_expires_at, imap_expires_at)
                &&& final(self).smtp_oauth_expires_at == overridden_expiry(old(self).smtp_oauth_expires_at, smtp_expires_at)
            },
            final(self).metrics == old(self).metrics,
            final(self).schedule@ == old(self).schedule@,
    {
        match &mut self.config {
            None => {},
            Some(cfg) => {
                if let Some(v) = imap_token {
                    cfg.imap.auth = AuthConfig { password: None, oauth_token: Some(v) };
                }
                if let Some(v) = smtp_token {
                    cfg.smtp.auth = AuthConfig { password: None, oauth_token: Some(v) };
                }
                if let Some(v) = imap_expires_at {
                    if let Some(ts) = parse_i64(v.as_str()) {
                        self.imap_oauth_expires_at = Some(ts);
                    }
                }
                if let Some(v) = smtp_expires_at {
                    if let Some(ts) = parse_i64(v.as_str()) {
                        self.smtp_oauth_expires_at = Some(ts);
                    }
                }
            },
        }
    }
}

} // verus!
