//! The decisions of one folder sync: which folder, where to resume, which messages to fetch,
//! and the state to record once they are stored.
use vstd::prelude::*;
use crate::text::{lit, nat_digits, parse_u32, parse_u32_spec, push_str, push_u64};
use crate::db::UpsertSyncState;
use crate::plugin::types::{ApiError, EmailTransportConfig, ErrorCode, OAuthRefreshProvider};
use crate::plugin::checks::{error_is, transport_check, validate_transport_config, verdict_is};
use crate::plugin::runtime::{tokens_refreshed, with_sync_attempt, with_sync_outcome, PluginRuntime};

verus! {

/// The folder a sync reads: the requested one, else the inbox.
pub open spec fn folder_or_inbox(folder: Option<String>) -> Seq<char> {
    match folder {
        Some(f) => f@,
        None => "INBOX"@,
    }
}

/// The folder a sync reads.
pub fn sync_folder_path(folder: Option<String>) -> (r: String)
    ensures
        r@ == folder_or_inbox(folder),
{
    match folder {
        Some(f) => f,
        None => lit("INBOX"),
    }
}

/// A cursor's value when it reads as a `u32`.
pub open spec fn cursor_value(cursor: Option<String>) -> Option<int> {
    match cursor {
        Some(c) => parse_u32_spec(c@),
        None => None,
    }
}

/// The last UID already synced: the request's cursor when it reads as a number, else the
/// stored cursor when that does, else 0.
pub open spec fn start_uid(request_cursor: Option<String>, stored_cursor: Option<String>) -> int {
    match cursor_value(request_cursor) {
        Some(v) => v,
        None => match cursor_value(stored_cursor) {
            Some(v) => v,
            None => 0,
        },
    }
}

fn read_cursor(cursor: &Option<String>) -> (r: Option<u32>)
    ensures
        r is Some <==> cursor_value(*cursor) is Some,
        r is Some ==> r->0 == cursor_value(*cursor)->0,
{
    match cursor {
        Some(c) => parse_u32(c.as_str()),
        None => None,
    }
}

/// The last UID already synced.
pub fn sync_start_uid(request_cursor: Option<String>, stored_cursor: Option<String>) -> (r: u32)
    ensures
        r == start_uid(request_cursor, stored_cursor),
{
    match read_cursor(&request_cursor) {
        Some(v) => v,
        None => match read_cursor(&stored_cursor) {
            Some(v) => v,
            None => 0,
        },
    }
}

/// A sync resumes after the request's cursor where that reads as a number. Without one, as
/// the runner always asks, or with one that does not read, it resumes after the folder's
/// stored cursor where that reads as a number; only when neither does, from the start.
pub proof fn sync_resumes_after_cursor(request_cursor: Option<String>, stored_cursor: Option<String>)
    ensures
        request_cursor is Some && parse_u32_spec(request_cursor->0@) is Some ==> start_uid(
            request_cursor,
            stored_cursor,
        ) == parse_u32_spec(request_cursor->0@)->0,
        (request_cursor is None || parse_u32_spec(request_cursor->0@) is None) && stored_cursor is Some
            && parse_u32_spec(stored_cursor->0@) is Some ==> start_uid(request_cursor, stored_cursor)
            == parse_u32_spec(stored_cursor->0@)->0,
        (request_cursor is None || parse_u32_spec(request_cursor->0@) is None) && (stored_cursor is None
            || parse_u32_spec(stored_cursor->0@) is None) ==> start_uid(request_cursor, stored_cursor) == 0,
{
}

/// The IMAP search for the UIDs after `start_uid`: `UID {start_uid + 1}:*` (the addition
/// saturating at `u32::MAX`).
pub open spec fn uid_criteria(start_uid: u32) -> Seq<char> {
    "UID "@ + nat_digits(if start_uid < u32::MAX { (start_uid + 1) as nat } else { u32::MAX as nat })
        + ":*"@
}

/// The IMAP search for the UIDs after `start_uid`.
pub fn uid_search_criteria(start_uid: u32) -> (r: String)
    ensures
        r@ == uid_criteria(start_uid),
{
    let next: u32 = if start_uid < u32::MAX { start_uid + 1 } else { u32::MAX };
    let mut s = lit("UID ");
    push_u64(&mut s, next as u64);
    push_str(&mut s, ":*");
    s
}

/// Whether a sequence of UIDs is in ascending order.
pub open spec fn ascending(s: Seq<u32>) -> bool {
    forall|i: int, j: int| 0 <= i < j < s.len() ==> s[i] <= s[j]
}

/// `slice::sort_unstable` on UIDs. The contract claims that the result holds the same UIDs, in
/// ascending order.
#[verifier::external_body]
fn sort_uids(v: &mut Vec<u32>)
    ensures
        final(v)@.to_multiset() == old(v)@.to_multiset(),
        ascending(final(v)@),
{
    v.sort_unstable();
}

/// The UIDs a sync fetches: the found ones in ascending order, only the highest
/// `max_messages` of them when there are more.
pub fn select_sync_uids(uids: Vec<u32>, max_messages: usize) -> (r: Vec<u32>)
    ensures
        r@.len() == if uids@.len() <= max_messages { uids@.len() } else { max_messages as nat },
        ascending(r@),
        exists|s: Seq<u32>|
            #![trigger ascending(s)]
            ascending(s) && s.to_multiset() == uids@.to_multiset() && r@ == s.subrange(
                s.len() - r@.len(),
                s.len() as int,
            ),
{
    let mut v = uids;
    sort_uids(&mut v);
    let ghost sorted = v@;
    proof {
        sorted.to_multiset_ensures();
        uids@.to_multiset_ensures();
    }
    if v.len() <= max_messages {
        assert(sorted.subrange(0, sorted.len() as int) =~= sorted);
        return v;
    }
    let mut out: Vec<u32> = Vec::new();
    let start = v.len() - max_messages;
    let mut i = start;
    while i < v.len()
        invariant
            start <= i <= v@.len(),
            v@ == sorted,
            out@ == sorted.subrange(start as int, i as int),
        decreases v@.len() - i,
    {
        out.push(v[i]);
        i = i + 1;
        assert(out@ =~= sorted.subrange(start as int, i as int));
    }
    assert(ascending(out@));
    out
}

/// The highest UID seen: `start_uid` or one of the fetched UIDs.
pub open spec fn highest_of(start_uid: u32, found: Seq<u32>) -> u32
    decreases found.len(),
{
    if found.len() == 0 {
        start_uid
    } else {
        let h = highest_of(start_uid, found.drop_last());
        if h < found.last() {
            found.last()
        } else {
            h
        }
    }
}

/// The highest UID seen, which becomes the folder's new cursor.
pub fn highest_uid(start_uid: u32, found: &Vec<u32>) -> (r: u32)
    ensures
        r == highest_of(start_uid, found@),
{
    let mut h = start_uid;
    let mut i: usize = 0;
    while i < found.len()
        invariant
            i <= found@.len(),
            h == highest_of(start_uid, found@.take(i as int)),
        decreases found@.len() - i,
    {
        assert(found@.take(i + 1).drop_last() =~= found@.take(i as int));
        if h < found[i] {
            h = found[i];
        }
        i = i + 1;
    }
    assert(found@.take(i as int) =~= found@);
    h
}

/// The state recorded after a folder sync that stored its messages: the highest UID seen as
/// the cursor, synced now, status `ok`.
pub fn completed_sync_state(account_id: i64, folder_id: i64, max_uid: u32, now_ts: i64) -> (r: UpsertSyncState)
    ensures
        r.account_id == account_id,
        r.folder_id == Some(folder_id),
        r.cursor is Some && r.cursor->0@ == nat_digits(max_uid as nat),
        r.last_synced_at == Some(now_ts),
        r.status is Some && r.status->0@ == "ok"@,
        r.now_ts == now_ts,
{
    let mut cursor = String::new();
    push_u64(&mut cursor, max_uid as u64);
    UpsertSyncState {
        account_id,
        folder_id: Some(folder_id),
        cursor: Some(cursor),
        last_synced_at: Some(now_ts),
        status: Some(lit("ok")),
        now_ts,
    }
}

/// What checking the configuration before a sync answers: it must be present and valid.
pub open spec fn config_verdict(cfg: Option<EmailTransportConfig>, r: Result<(), ApiError>) -> bool {
    match cfg {
        None => r matches Err(e) && error_is(e, ErrorCode::Validation, "imap/smtp config missing"@),
        Some(c) => verdict_is(r, transport_check(c)),
    }
}

impl PluginRuntime {
    /// The checks before a sync touches the network: the attempt is counted, the OAuth tokens
    /// are refreshed where due, and a valid configuration must be present.
    pub fn begin_sync<P: OAuthRefreshProvider + ?Sized>(&mut self, now_ts: i64, provider: Option<&P>) -> (r: Result<
        (),
        ApiError,
    >)
        requires
            old(self).metrics.sync_attempts < u64::MAX,
        ensures
            final(self).metrics == with_sync_attempt(old(self).metrics),
            final(self).schedule@ == old(self).schedule@,
            ({
                ||| r is Err && tokens_refreshed(
                    old(self).config,
                    old(self).imap_oauth_expires_at,
                    old(self).smtp_oauth_expires_at,
                    final(self).config,
                    final(self).imap_oauth_expires_at,
                    final(self).smtp_oauth_expires_at,
                    now_ts,
                    provider,
                    r,
                )
                ||| tokens_refreshed(
                    old(self).config,
                    old(self).imap_oauth_expires_at,
                    old(self).smtp_oauth_expires_at,
                    final(self).config,
                    final(self).imap_oauth_expires_at,
                    final(self).smtp_oauth_expires_at,
                    now_ts,
                    provider,
                    Ok(()),
                ) && config_verdict(final(self).config, r)
            }),
            r is Ok ==> final(self).config is Some && transport_check(final(self).config->0) is None,
            old(self).config is None ==> (r matches Err(e) && error_is(
                e,
                ErrorCode::Validation,
                "imap/smtp config missing"@,
            )),
    {
        self.note_sync_attempt();
        match self.ensure_oauth_fresh(now_ts, provider) {
            Err(e) => return Err(e),
            Ok(()) => {},
        }
        match &self.config {
            None => Err(ApiError { code: ErrorCode::Validation, message: lit("imap/smtp config missing") }),
            Some(cfg) => validate_transport_config(cfg),
        }
    }
}

impl PluginRuntime {
    /// Ends a sync whose outcome is `outcome`: a success is counted; the outcome is returned as
    /// it is.
    pub fn finish_sync(&mut self, outcome: Result<(), ApiError>) -> (r: Result<(), ApiError>)
        requires
            outcome is Ok ==> old(self).metrics.sync_success < u64::MAX,
        ensures
            r == outcome,
            final(self).metrics == with_sync_outcome(old(self).metrics, outcome is Ok),
            final(self).config == old(self).config,
            final(self).imap_oauth_expires_at == old(self).imap_oauth_expires_at,
            final(self).smtp_oauth_expires_at == old(self).smtp_oauth_expires_at,
            final(self).schedule@ == old(self).schedule@,
    {
        if outcome.is_ok() {
            self.note_sync_success();
        }
        outcome
    }
}

} // verus!
