use vstd::prelude::*;

verus! {

/// The abstract state of the outbound credential cache.
pub struct CacheState {
    /// The cached credential, if one was ever obtained.
    pub token: Option<Seq<char>>,
    /// When the cached credential expires, in seconds since the Unix epoch.
    pub expires_at: i64,
    /// A refresh call to the identity provider is in flight.
    pub refreshing: bool,
}

/// What a caller asking for the credential is told to do.
pub enum CacheDecision {
    /// Use this credential: it has not expired.
    UseCached(String),
    /// Call the identity provider, then report the result with
    /// `complete_refresh`. Exactly one caller at a time is told this.
    Refresh,
    /// Another caller's refresh is in flight: wait for it and ask again.
    Wait,
}

/// The spec counterpart of `CacheDecision`.
pub enum DecisionKind {
    UseCached(Seq<char>),
    Refresh,
    Wait,
}

impl CacheDecision {
    /// The decision, with the credential's text in place of the string.
    pub open spec fn kind(self) -> DecisionKind {
        match self {
            CacheDecision::UseCached(t) => DecisionKind::UseCached(t@),
            CacheDecision::Refresh => DecisionKind::Refresh,
            CacheDecision::Wait => DecisionKind::Wait,
        }
    }
}

/// The cached credential is present and has not expired at `now`.
pub open spec fn is_fresh(s: CacheState, now: i64) -> bool {
    s.token is Some && now < s.expires_at
}

/// One request for the credential at time `now`: the new state and the
/// decision. A fresh credential is handed out as it is; otherwise the first
/// caller is told to refresh and marks a refresh in flight, and every later
/// caller waits until that refresh completes.
pub open spec fn acquire_step(s: CacheState, now: i64) -> (CacheState, DecisionKind) {
    if is_fresh(s, now) {
        (s, DecisionKind::UseCached(s.token->Some_0))
    } else if s.refreshing {
        (s, DecisionKind::Wait)
    } else {
        (CacheState { refreshing: true, ..s }, DecisionKind::Refresh)
    }
}

/// How many of the requests made at the times `times`, one after another
/// from state `s` with no refresh completing in between, are told to
/// refresh.
pub open spec fn refreshes_in(s: CacheState, times: Seq<i64>) -> nat
    decreases times.len(),
{
    if times.len() == 0 {
        0
    } else {
        let (next, d) = acquire_step(s, times[0]);
        (if d is Refresh {
            1nat
        } else {
            0nat
        }) + refreshes_in(next, times.drop_first())
    }
}

/// `now + secs`, or `i64::MAX` where that does not fit.
pub open spec fn expiry_of(now: i64, secs: u32) -> i64 {
    if now + secs > i64::MAX {
        i64::MAX
    } else {
        (now + secs) as i64
    }
}

/// The one outbound credential of the process, refreshed lazily.
pub struct CredentialCache {
    token: Option<String>,
    expires_at: i64,
    refreshing: bool,
}

impl View for CredentialCache {
    type V = CacheState;

    closed spec fn view(&self) -> CacheState {
        CacheState {
            token: match self.token {
                Some(t) => Some(t@),
                None => None,
            },
            expires_at: self.expires_at,
            refreshing: self.refreshing,
        }
    }
}

impl CredentialCache {
    /// An empty cache, with no refresh in flight.
    pub fn new() -> (r: CredentialCache)
        ensures
            r@.token is None,
            !r@.refreshing,
    {
        CredentialCache { token: None, expires_at: 0, refreshing: false }
    }

    /// Asks for the credential at time `now`.
    pub fn acquire(&mut self, now: i64) -> (r: CacheDecision)
        ensures
            (final(self)@, r.kind()) == acquire_step(old(self)@, now),
    {
        match &self.token {
            Some(t) => {
                if now < self.expires_at {
                    return CacheDecision::UseCached(t.clone());
                }
            },
            None => {},
        }
        if self.refreshing {
            CacheDecision::Wait
        } else {
            self.refreshing = true;
            CacheDecision::Refresh
        }
    }

    /// Reports the refresh call made at time `now`: on success the new
    /// credential and its lifetime in seconds are stored; on failure the
    /// stale entry is left as it was. Either way no refresh is in flight
    /// any more.
    pub fn complete_refresh(&mut self, result: Option<(String, u32)>, now: i64)
        ensures
            !final(self)@.refreshing,
            result matches Some(p) ==> final(self)@.token == Some(p.0@) && final(self)@.expires_at
                == expiry_of(now, p.1),
            result is None ==> final(self)@.token == old(self)@.token && final(self)@.expires_at
                == old(self)@.expires_at,
    {
        self.refreshing = false;
        match result {
            Some((token, secs)) => {
                let s = secs as i64;
                self.expires_at = if now > i64::MAX - s {
                    i64::MAX
                } else {
                    now + s
                };
                self.token = Some(token);
            },
            None => {},
        }
    }
}

/// Requests that arrive while the credential is stale never start a second
/// refresh: from a state with no refresh in flight, any non-empty run of
/// requests that all find the credential stale starts exactly one refresh;
/// with one already in flight, none.
pub proof fn lemma_refresh_coalesced(s: CacheState, times: Seq<i64>)
    requires
        forall|k: int| 0 <= k < times.len() ==> !is_fresh(s, #[trigger] times[k]),
    ensures
        refreshes_in(s, times) == if s.refreshing || times.len() == 0 {
            0nat
        } else {
            1nat
        },
    decreases times.len(),
{
    if times.len() > 0 {
        let next = acquire_step(s, times[0]).0;
        assert(next.token == s.token && next.expires_at == s.expires_at && next.refreshing);
        assert forall|k: int| 0 <= k < times.drop_first().len() implies !is_fresh(
            next,
            #[trigger] times.drop_first()[k],
        ) by {
            assert(times.drop_first()[k] == times[k + 1]);
        }
        lemma_refresh_coalesced(next, times.drop_first());
    }
}

} // verus!
