//! Live Archery sessions: a cache keyed by URL and user whose entries expire
//! after thirty minutes, and when a cached session is used.

use vstd::prelude::*;
use crate::archery_client::ArcherySession;
use crate::archery_format::is_success_status;
use crate::archery_login::HttpOutcome;
use crate::json::str_eq;

verus! {

/// How long a session stays cached: thirty minutes, in milliseconds.
pub const SESSION_TTL_MS: u64 = 1800000;

/// A cached session for one URL and user, and when it expires.
pub struct CachedSession {
    pub url: String,
    pub username: String,
    pub session: ArcherySession,
    pub expires_at_ms: u64,
}

/// The cache of sessions.
pub struct SessionCache {
    pub entries: Vec<CachedSession>,
}

/// The entry is for this URL and user.
pub open spec fn entry_is_for(e: CachedSession, url: Seq<char>, username: Seq<char>) -> bool {
    e.url@ == url && e.username@ == username
}

/// The first entry for this URL and user.
pub open spec fn entry_for(entries: Seq<CachedSession>, url: Seq<char>, username: Seq<char>) -> Option<
    CachedSession,
>
    decreases entries.len(),
{
    if entries.len() == 0 {
        None
    } else if entry_is_for(entries[0], url, username) {
        Some(entries[0])
    } else {
        entry_for(entries.drop_first(), url, username)
    }
}

/// The index of the first entry for this URL and user.
pub open spec fn entry_index(entries: Seq<CachedSession>, url: Seq<char>, username: Seq<char>) -> Option<
    int,
>
    decreases entries.len(),
{
    if entries.len() == 0 {
        None
    } else if entry_is_for(entries[0], url, username) {
        Some(0)
    } else {
        match entry_index(entries.drop_first(), url, username) {
            Some(i) => Some(i + 1),
            None => None,
        }
    }
}

/// The session cached for this URL and user that has not expired at `now`.
pub open spec fn live_session(c: SessionCache, url: Seq<char>, username: Seq<char>, now: u64) -> Option<
    ArcherySession,
> {
    match entry_for(c.entries@, url, username) {
        Some(e) => if now < e.expires_at_ms {
            Some(e.session)
        } else {
            None
        },
        None => None,
    }
}

/// `after` is `before` with `session` stored for this URL and user at `now`:
/// its entry expires thirty minutes later, and every other key's entry is as it was.
pub open spec fn stores(
    before: Seq<CachedSession>,
    after: Seq<CachedSession>,
    url: Seq<char>,
    username: Seq<char>,
    session: ArcherySession,
    now: u64,
) -> bool {
    &&& entry_for(after, url, username) matches Some(e) && e.session == session && e.expires_at_ms
        == now + SESSION_TTL_MS
    &&& forall|u: Seq<char>, n: Seq<char>|
        !(u == url && n == username) ==> #[trigger] entry_for(after, u, n) == entry_for(before, u, n)
}

/// `entry_index` finds the entry `entry_for` gives.
proof fn lemma_entry_index(entries: Seq<CachedSession>, url: Seq<char>, username: Seq<char>)
    ensures
        match entry_index(entries, url, username) {
            Some(i) => 0 <= i < entries.len() && entry_for(entries, url, username) == Some(entries[i])
                && entry_is_for(entries[i], url, username) && forall|k: int|
                0 <= k < i ==> !entry_is_for(#[trigger] entries[k], url, username),
            None => entry_for(entries, url, username) is None && forall|k: int|
                0 <= k < entries.len() ==> !entry_is_for(#[trigger] entries[k], url, username),
        },
    decreases entries.len(),
{
    if entries.len() > 0 {
        lemma_entry_index(entries.drop_first(), url, username);
        if !entry_is_for(entries[0], url, username) {
            match entry_index(entries.drop_first(), url, username) {
                Some(i) => {
                    assert forall|k: int| 0 <= k < i + 1 implies !entry_is_for(
                        #[trigger] entries[k],
                        url,
                        username,
                    ) by {
                        if k > 0 {
                            assert(entries[k] == entries.drop_first()[k - 1]);
                        }
                    }
                },
                None => {
                    assert forall|k: int| 0 <= k < entries.len() implies !entry_is_for(
                        #[trigger] entries[k],
                        url,
                        username,
                    ) by {
                        if k > 0 {
                            assert(entries[k] == entries.drop_first()[k - 1]);
                        }
                    }
                },
            }
        }
    }
}

/// `entry_for` is the entry at the first index that is for the key.
proof fn lemma_entry_for_first(
    entries: Seq<CachedSession>,
    url: Seq<char>,
    username: Seq<char>,
    i: int,
)
    requires
        0 <= i < entries.len(),
        entry_is_for(entries[i], url, username),
        forall|k: int| 0 <= k < i ==> !entry_is_for(#[trigger] entries[k], url, username),
    ensures
        entry_for(entries, url, username) == Some(entries[i]),
    decreases i,
{
    if i > 0 {
        assert(!entry_is_for(entries[0], url, username));
        assert forall|k: int| 0 <= k < i - 1 implies !entry_is_for(
            #[trigger] entries.drop_first()[k],
            url,
            username,
        ) by {
            assert(entries.drop_first()[k] == entries[k + 1]);
        }
        lemma_entry_for_first(entries.drop_first(), url, username, i - 1);
    }
}

/// `entry_for` is `None` when no entry is for the key.
proof fn lemma_entry_for_none(entries: Seq<CachedSession>, url: Seq<char>, username: Seq<char>)
    requires
        forall|k: int| 0 <= k < entries.len() ==> !entry_is_for(#[trigger] entries[k], url, username),
    ensures
        entry_for(entries, url, username) is None,
    decreases entries.len(),
{
    if entries.len() > 0 {
        assert(!entry_is_for(entries[0], url, username));
        assert forall|k: int| 0 <= k < entries.len() - 1 implies !entry_is_for(
            #[trigger] entries.drop_first()[k],
            url,
            username,
        ) by {
            assert(entries.drop_first()[k] == entries[k + 1]);
        }
        lemma_entry_for_none(entries.drop_first(), url, username);
    }
}

impl SessionCache {
    /// An empty cache.
    pub fn new() -> (r: SessionCache)
        ensures
            r.entries@.len() == 0,
    {
        SessionCache { entries: Vec::new() }
    }

    fn index_of(&self, url: &str, username: &str) -> (r: Option<usize>)
        ensures
            match r {
                Some(i) => entry_index(self.entries@, url@, username@) == Some(i as int),
                None => entry_index(self.entries@, url@, username@) is None,
            },
    {
        let mut i: usize = 0;
        assert(self.entries@.skip(0) =~= self.entries@);
        while i < self.entries.len()
            invariant
                i <= self.entries@.len(),
                forall|k: int|
                    0 <= k < i ==> !entry_is_for(#[trigger] self.entries@[k], url@, username@),
            decreases self.entries.len() - i,
        {
            if str_eq(self.entries[i].url.as_str(), url) && str_eq(
                self.entries[i].username.as_str(),
                username,
            ) {
                proof {
                    lemma_entry_index(self.entries@, url@, username@);
                    lemma_entry_for_first(self.entries@, url@, username@, i as int);
                    match entry_index(self.entries@, url@, username@) {
                        Some(j) => {
                            if j < i {
                                assert(!entry_is_for(self.entries@[j], url@, username@));
                            } else if j > i {
                                assert(!entry_is_for(self.entries@[i as int], url@, username@));
                            }
                        },
                        None => {
                            assert(!entry_is_for(self.entries@[i as int], url@, username@));
                        },
                    }
                }
                return Some(i);
            }
            i = i + 1;
        }
        proof {
            lemma_entry_index(self.entries@, url@, username@);
            lemma_entry_for_none(self.entries@, url@, username@);
            match entry_index(self.entries@, url@, username@) {
                Some(j) => {
                    assert(!entry_is_for(self.entries@[j], url@, username@));
                },
                None => {},
            }
        }
        None
    }

    /// The session cached for this URL and user, if it has not expired at `now_ms`.
    pub fn lookup(&self, url: &str, username: &str, now_ms: u64) -> (r: Option<&ArcherySession>)
        ensures
            match r {
                Some(s) => live_session(*self, url@, username@, now_ms) == Some(*s),
                None => live_session(*self, url@, username@, now_ms) is None,
            },
    {
        proof {
            lemma_entry_index(self.entries@, url@, username@);
        }
        match self.index_of(url, username) {
            Some(i) => {
                if now_ms < self.entries[i].expires_at_ms {
                    Some(&self.entries[i].session)
                } else {
                    None
                }
            },
            None => None,
        }
    }

    /// Caches a session for this URL and user until thirty minutes after `now_ms`,
    /// in place of the one cached before.
    pub fn store(&mut self, url: &str, username: &str, session: ArcherySession, now_ms: u64)
        requires
            now_ms <= u64::MAX - SESSION_TTL_MS,
        ensures
            stores(old(self).entries@, final(self).entries@, url@, username@, session, now_ms),
    {
        let entry = CachedSession {
            url: url.to_owned(),
            username: username.to_owned(),
            session,
            expires_at_ms: now_ms + SESSION_TTL_MS,
        };
        let ghost before = self.entries@;
        proof {
            lemma_entry_index(before, url@, username@);
        }
        match self.index_of(url, username) {
            Some(i) => {
                self.entries.set(i, entry);
                let ghost after = self.entries@;
                proof {
                    assert(after == before.update(i as int, entry));
                    assert forall|k: int| 0 <= k < i implies !entry_is_for(
                        #[trigger] after[k],
                        url@,
                        username@,
                    ) by {
                        assert(after[k] == before[k]);
                    }
                    lemma_entry_for_first(after, url@, username@, i as int);
                    assert forall|u: Seq<char>, n: Seq<char>|
                        !(u == url@ && n == username@) implies #[trigger] entry_for(after, u, n)
                        == entry_for(before, u, n) by {
                        lemma_update_other_key(before, i as int, entry, url@, username@, u, n);
                    }
                }
            },
            None => {
                self.entries.push(entry);
                let ghost after = self.entries@;
                proof {
                    assert(after == before.push(entry));
                    assert forall|k: int| 0 <= k < before.len() implies !entry_is_for(
                        #[trigger] after[k],
                        url@,
                        username@,
                    ) by {
                        assert(after[k] == before[k]);
                    }
                    lemma_entry_for_first(after, url@, username@, before.len() as int);
                    assert forall|u: Seq<char>, n: Seq<char>|
                        !(u == url@ && n == username@) implies #[trigger] entry_for(after, u, n)
                        == entry_for(before, u, n) by {
                        lemma_push_other_key(before, entry, url@, username@, u, n);
                    }
                }
            },
        }
    }
}

/// Replacing an entry for one key leaves the entries of the other keys.
proof fn lemma_update_other_key(
    entries: Seq<CachedSession>,
    i: int,
    e: CachedSession,
    url: Seq<char>,
    username: Seq<char>,
    u: Seq<char>,
    n: Seq<char>,
)
    requires
        0 <= i < entries.len(),
        entry_is_for(entries[i], url, username),
        entry_is_for(e, url, username),
        !(u == url && n == username),
    ensures
        entry_for(entries.update(i, e), u, n) == entry_for(entries, u, n),
    decreases entries.len(),
{
    if i > 0 {
        assert(entries.update(i, e).drop_first() =~= entries.drop_first().update(i - 1, e));
        lemma_update_other_key(entries.drop_first(), i - 1, e, url, username, u, n);
    } else {
        assert(entries.update(i, e).drop_first() =~= entries.drop_first());
    }
}

/// Adding an entry for one key leaves the entries of the other keys.
proof fn lemma_push_other_key(
    entries: Seq<CachedSession>,
    e: CachedSession,
    url: Seq<char>,
    username: Seq<char>,
    u: Seq<char>,
    n: Seq<char>,
)
    requires
        entry_is_for(e, url, username),
        !(u == url && n == username),
    ensures
        entry_for(entries.push(e), u, n) == entry_for(entries, u, n),
    decreases entries.len(),
{
    if entries.len() > 0 {
        assert(entries.push(e)[0] == entries[0]);
        assert(entries.push(e).drop_first() =~= entries.drop_first().push(e));
        lemma_push_other_key(entries.drop_first(), e, url, username, u, n);
    } else {
        assert(entries.push(e)[0] == e);
        assert(!entry_is_for(e, u, n));
        assert(entries.push(e).drop_first() =~= Seq::<CachedSession>::empty());
        assert(entry_for(Seq::<CachedSession>::empty(), u, n) is None);
    }
}

/// Read after write: right after a session is stored, it is the live session
/// for its URL and user until it expires thirty minutes later, and the live
/// sessions of every other URL and user are as they were.
pub proof fn law_cached_session_read_after_write(
    before: SessionCache,
    after: SessionCache,
    url: Seq<char>,
    username: Seq<char>,
    session: ArcherySession,
    stored_at: u64,
)
    requires
        stored_at <= u64::MAX - SESSION_TTL_MS,
        stores(before.entries@, after.entries@, url, username, session, stored_at),
    ensures
        forall|now: u64|
            now < stored_at + SESSION_TTL_MS ==> #[trigger] live_session(after, url, username, now)
                == Some(session),
        forall|now: u64|
            now >= stored_at + SESSION_TTL_MS ==> #[trigger] live_session(after, url, username, now)
                is None,
        forall|u: Seq<char>, n: Seq<char>, now: u64|
            !(u == url && n == username) ==> #[trigger] live_session(after, u, n, now)
                == live_session(before, u, n, now),
{
    assert forall|u: Seq<char>, n: Seq<char>, now: u64|
        !(u == url && n == username) implies #[trigger] live_session(after, u, n, now)
        == live_session(before, u, n, now) by {
        assert(entry_for(after.entries@, u, n) == entry_for(before.entries@, u, n));
    }
}

// ---------------------------------------------------------------------------
// When a cached session is used
// ---------------------------------------------------------------------------

/// What to do next to get a session.
pub enum SessionStep {
    /// Check the cached session with a request.
    ValidateCached,
    /// Use the cached session.
    UseCached,
    /// Log in anew.
    Login,
}

/// The first step: check a cached session if there is one, else log in.
pub fn session_first_step(has_cached: bool) -> (r: SessionStep)
    ensures
        has_cached ==> r is ValidateCached,
        !has_cached ==> r is Login,
{
    if has_cached {
        SessionStep::ValidateCached
    } else {
        SessionStep::Login
    }
}

/// After the check: use the cached session if the check succeeded, else log in.
pub fn session_after_validation(outcome: &HttpOutcome) -> (r: SessionStep)
    ensures
        (*outcome matches HttpOutcome::Received { status, .. } && is_success_status(status))
            ==> r is UseCached,
        !(*outcome matches HttpOutcome::Received { status, .. } && is_success_status(status))
            ==> r is Login,
{
    match outcome {
        HttpOutcome::Received { status, status_text: _ } => {
            if 200 <= *status && *status < 300 {
                SessionStep::UseCached
            } else {
                SessionStep::Login
            }
        },
        HttpOutcome::SendFailed(_) => SessionStep::Login,
    }
}

} // verus!
