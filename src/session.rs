use vstd::prelude::*;
use crypto::digest::Digest;
use crate::error::Error;
use vstd::utf8::encode_utf8;

verus! {

/// How long a session token stays valid: three days, in seconds.
pub const SESSION_TTL_SECS: i64 = 259200;

/// How many random bytes go into a session token.
pub const NONCE_LEN: usize = 8;

/// The lower-case hexadecimal SHA3-256 digest of `b`.
pub uninterp spec fn sha3_256_hex_of(b: Seq<u8>) -> Seq<char>;

/// Relies on rust-crypto's `Sha3::sha3_256` with `Digest::input` and
/// `Digest::result_str`: the digest of the input, 32 bytes written as 64
/// hexadecimal digits.
#[verifier::external_body]
fn sha3_256_hex(input: &[u8]) -> (r: String)
    ensures
        r@ == sha3_256_hex_of(input@),
        r@.len() == 64,
{
    let mut hasher = crypto::sha3::Sha3::sha3_256();
    hasher.input(input);
    hasher.result_str()
}

/// Relies on chrono's `Utc::now` and `DateTime::timestamp`: the current time
/// in seconds since the Unix epoch. Nothing is known of its value.
#[verifier::external_body]
pub(crate) fn current_timestamp() -> i64 {
    chrono::Utc::now().timestamp()
}

/// Relies on rand's `random` for `[u8; 8]`, drawn from the thread-local
/// cryptographically strong generator: eight bytes, of unknown value.
#[verifier::external_body]
pub(crate) fn fresh_nonce() -> (r: Vec<u8>)
    ensures
        r@.len() == NONCE_LEN,
{
    rand::random::<[u8; 8]>().to_vec()
}

/// `a + b`, or `i64::MAX` where that does not fit.
pub open spec fn add_capped(a: i64, b: i64) -> i64 {
    if a + b > i64::MAX {
        i64::MAX
    } else {
        (a + b) as i64
    }
}

/// The expiry of a token issued at `now`.
pub open spec fn session_expiry(now: i64) -> i64 {
    add_capped(now, SESSION_TTL_SECS)
}

fn expiry_after(now: i64, secs: i64) -> (r: i64)
    requires
        secs >= 0,
    ensures
        r == add_capped(now, secs),
{
    if now > i64::MAX - secs {
        i64::MAX
    } else {
        now + secs
    }
}

/// The text of the session token issued to `open_id` with the random bytes
/// `nonce`: the digest of the user id's UTF-8 bytes followed by the nonce.
pub open spec fn token_text(open_id: Seq<char>, nonce: Seq<u8>) -> Seq<char> {
    sha3_256_hex_of(encode_utf8(open_id) + nonce)
}

/// A session token with its expiry, in seconds since the Unix epoch.
#[derive(Clone, Debug)]
pub struct AccessToken {
    pub token: String,
    pub expired: i64,
}

impl AccessToken {
    /// The token issued to `open_id` at time `now` with the random bytes
    /// `nonce`; it expires `SESSION_TTL_SECS` later.
    pub fn issued_at(open_id: &str, nonce: &[u8], now: i64) -> (r: AccessToken)
        ensures
            r.token@ == token_text(open_id@, nonce@),
            r.token@.len() == 64,
            r.expired == session_expiry(now),
    {
        let id_bytes = open_id.as_bytes();
        let mut material: Vec<u8> = Vec::new();
        let mut i: usize = 0;
        while i < id_bytes.len()
            invariant
                i <= id_bytes@.len(),
                material@ == id_bytes@.subrange(0, i as int),
            decreases id_bytes@.len() - i,
        {
            material.push(id_bytes[i]);
            i = i + 1;
        }
        let mut j: usize = 0;
        while j < nonce.len()
            invariant
                i == id_bytes@.len(),
                j <= nonce@.len(),
                material@ == id_bytes@ + nonce@.subrange(0, j as int),
            decreases nonce@.len() - j,
        {
            material.push(nonce[j]);
            proof {
                assert(nonce@.subrange(0, j as int + 1) =~= nonce@.subrange(0, j as int).push(nonce@[j as int]));
            }
            j = j + 1;
        }
        proof {
            assert(id_bytes@.subrange(0, i as int) =~= id_bytes@);
            assert(nonce@.subrange(0, j as int) =~= nonce@);
        }
        let token = sha3_256_hex(material.as_slice());
        AccessToken { token, expired: expiry_after(now, SESSION_TTL_SECS) }
    }

    /// A fresh token for `open_id`, from the current time and eight bytes of
    /// a cryptographically strong random source.
    pub fn new(open_id: &str) -> (r: AccessToken)
        ensures
            r.token@.len() == 64,
            exists|nonce: Seq<u8>, now: i64|
                nonce.len() == NONCE_LEN && r.token@ == token_text(open_id@, nonce) && r.expired
                    == session_expiry(now),
    {
        let nonce = fresh_nonce();
        let now = current_timestamp();
        AccessToken::issued_at(open_id, nonce.as_slice(), now)
    }

    /// The token that stands for no session.
    pub fn empty() -> (r: AccessToken)
        ensures
            r.token@.len() == 0,
            r.expired == 0,
    {
        AccessToken { token: String::new(), expired: 0 }
    }

    /// Whether the token holds any text.
    pub fn is_valid(&self) -> (r: bool)
        ensures
            r == (self.token@.len() > 0),
    {
        !self.token.as_str().is_empty()
    }
}

/// The stored session of one user.
struct SessionEntry {
    open_id: String,
    token: String,
    expires_at: i64,
}

/// The inbound session tokens, at most one per user.
pub struct SessionStore {
    entries: Vec<SessionEntry>,
}

impl SessionStore {
    /// The session stored for `user`, as (token, expiry), if any.
    pub closed spec fn session(self, user: Seq<char>) -> Option<(Seq<char>, i64)> {
        if exists|i: int| 0 <= i < self.entries@.len() && self.entries@[i].open_id@ == user {
            let i = choose|i: int| 0 <= i < self.entries@.len() && self.entries@[i].open_id@ == user;
            Some((self.entries@[i].token@, self.entries@[i].expires_at))
        } else {
            None
        }
    }

    /// The store's invariant: one entry per user.
    pub closed spec fn wf(self) -> bool {
        forall|i: int, j: int|
            0 <= i < j < self.entries@.len() ==> self.entries@[i].open_id@ != self.entries@[j].open_id@
    }

    /// `token` is the stored token of `user` and it has not expired at `now`.
    pub open spec fn valid_at(self, user: Seq<char>, token: Seq<char>, now: i64) -> bool {
        self.session(user) matches Some(s) && s.0 == token && now < s.1
    }

    proof fn lemma_session_at(self, i: int)
        requires
            self.wf(),
            0 <= i < self.entries@.len(),
        ensures
            self.session(self.entries@[i].open_id@) == Some(
                (self.entries@[i].token@, self.entries@[i].expires_at),
            ),
    {
        let j = choose|j: int|
            0 <= j < self.entries@.len() && self.entries@[j].open_id@ == self.entries@[i].open_id@;
        assert(i == j);
    }

    /// A store with no session.
    pub fn new() -> (r: SessionStore)
        ensures
            r.wf(),
            forall|user: Seq<char>| r.session(user) is None,
    {
        SessionStore { entries: Vec::new() }
    }

    fn position(&self, open_id: &str) -> (r: Option<usize>)
        requires
            self.wf(),
        ensures
            r matches Some(i) ==> i < self.entries@.len() && self.entries@[i as int].open_id@ == open_id@,
            r is None ==> self.session(open_id@) is None,
    {
        let key = open_id.to_owned();
        let mut i: usize = 0;
        while i < self.entries.len()
            invariant
                i <= self.entries@.len(),
                key@ == open_id@,
                forall|k: int| 0 <= k < i ==> self.entries@[k].open_id@ != open_id@,
            decreases self.entries@.len() - i,
        {
            if self.entries[i].open_id == key {
                return Some(i);
            }
            i = i + 1;
        }
        None
    }

    /// Stores `token` as the session of `open_id`, replacing any earlier one.
    pub fn wechat_record_token(&mut self, open_id: &str, token: &AccessToken)
        requires
            old(self).wf(),
        ensures
            final(self).wf(),
            final(self).session(open_id@) == Some((token.token@, token.expired)),
            forall|user: Seq<char>| user != open_id@ ==> final(self).session(user) == old(self).session(user),
    {
        let ghost prev = *self;
        match self.position(open_id) {
            Some(i) => {
                self.entries[i] = SessionEntry {
                    open_id: open_id.to_owned(),
                    token: token.token.clone(),
                    expires_at: token.expired,
                };
                proof {
                    assert forall|a: int, b: int| 0 <= a < b < self.entries@.len() implies
                        self.entries@[a].open_id@ != self.entries@[b].open_id@ by {
                        assert(prev.entries@[a].open_id@ != prev.entries@[b].open_id@);
                    }
                    self.lemma_session_at(i as int);
                    assert forall|user: Seq<char>| user != open_id@ implies self.session(user) == prev.session(user) by {
                        if exists|k: int| 0 <= k < prev.entries@.len() && prev.entries@[k].open_id@ == user {
                            let k = choose|k: int| 0 <= k < prev.entries@.len() && prev.entries@[k].open_id@ == user;
                            prev.lemma_session_at(k);
                            assert(self.entries@[k] == prev.entries@[k]);
                            self.lemma_session_at(k);
                        } else {
                            assert forall|k: int| 0 <= k < self.entries@.len() implies self.entries@[k].open_id@ != user by {
                                if k != i {
                                    assert(self.entries@[k] == prev.entries@[k]);
                                }
                            }
                        }
                    }
                }
            },
            None => {
                self.entries.push(
                    SessionEntry {
                        open_id: open_id.to_owned(),
                        token: token.token.clone(),
                        expires_at: token.expired,
                    },
                );
                proof {
                    let n = prev.entries@.len() as int;
                    assert forall|a: int, b: int| 0 <= a < b < self.entries@.len() implies
                        self.entries@[a].open_id@ != self.entries@[b].open_id@ by {
                        assert(self.entries@[a] == prev.entries@[a]);
                        if b < n {
                            assert(self.entries@[b] == prev.entries@[b]);
                        }
                    }
                    self.lemma_session_at(n);
                    assert forall|user: Seq<char>| user != open_id@ implies self.session(user) == prev.session(user) by {
                        if exists|k: int| 0 <= k < prev.entries@.len() && prev.entries@[k].open_id@ == user {
                            let k = choose|k: int| 0 <= k < prev.entries@.len() && prev.entries@[k].open_id@ == user;
                            prev.lemma_session_at(k);
                            assert(self.entries@[k] == prev.entries@[k]);
                            self.lemma_session_at(k);
                        } else {
                            assert forall|k: int| 0 <= k < self.entries@.len() implies self.entries@[k].open_id@ != user by {
                                if k < n {
                                    assert(self.entries@[k] == prev.entries@[k]);
                                }
                            }
                        }
                    }
                }
            },
        }
    }

    /// Whether `token` is the stored session token of `open_id` and has not
    /// expired at time `now`.
    pub fn is_valid_at(&self, open_id: &str, token: &str, now: i64) -> (r: bool)
        requires
            self.wf(),
        ensures
            r == self.valid_at(open_id@, token@, now),
    {
        match self.position(open_id) {
            Some(i) => {
                proof {
                    self.lemma_session_at(i as int);
                }
                let t = token.to_owned();
                self.entries[i].token == t && now < self.entries[i].expires_at
            },
            None => false,
        }
    }

    /// Whether `token` is the current session token of `open_id`, at the
    /// current time.
    pub fn is_valid_access_token(&self, open_id: &str, token: &str) -> (r: bool)
        requires
            self.wf(),
        ensures
            exists|now: i64| r == self.valid_at(open_id@, token@, now),
    {
        let now = current_timestamp();
        self.is_valid_at(open_id, token, now)
    }

    /// Where `token` is valid for `open_id` at `now`, issues a fresh token
    /// (with `nonce`) in its place, so that the expiry slides; otherwise
    /// refuses with `TokenExpired` and changes nothing.
    pub fn refresh_at(&mut self, open_id: &str, token: &str, nonce: &[u8], now: i64) -> (r: Result<
        AccessToken,
        Error,
    >)
        requires
            old(self).wf(),
        ensures
            final(self).wf(),
            !old(self).valid_at(open_id@, token@, now) ==> r == Err::<AccessToken, Error>(
                Error::TokenExpired,
            ) && *final(self) == *old(self),
            old(self).valid_at(open_id@, token@, now) ==> (r matches Ok(t) && t.token@.len() == 64 && t.token@ == token_text(
                open_id@,
                nonce@,
            ) && t.expired == session_expiry(now) && final(self).session(open_id@) == Some(
                (t.token@, t.expired),
            ) && forall|user: Seq<char>|
                user != open_id@ ==> final(self).session(user) == old(self).session(user)),
    {
        if !self.is_valid_at(open_id, token, now) {
            return Err(Error::TokenExpired);
        }
        let fresh = AccessToken::issued_at(open_id, nonce, now);
        self.wechat_record_token(open_id, &fresh);
        Ok(fresh)
    }

    /// Checks `token` for `open_id` at the current time and, where it is
    /// valid, replaces it with a fresh one; otherwise refuses with
    /// `TokenExpired`.
    pub fn valid_token_and_update(&mut self, open_id: &str, token: &str) -> (r: Result<
        AccessToken,
        Error,
    >)
        requires
            old(self).wf(),
        ensures
            final(self).wf(),
            r is Err ==> r == Err::<AccessToken, Error>(Error::TokenExpired) && *final(self) == *old(self),
            r is Ok ==> forall|user: Seq<char>|
                user != open_id@ ==> final(self).session(user) == old(self).session(user),
            r matches Ok(t) ==> t.token@.len() == 64 && final(self).session(open_id@) == Some((t.token@, t.expired)) && exists|
                now: i64,
                nonce: Seq<u8>,
            |
                old(self).valid_at(open_id@, token@, now) && nonce.len() == NONCE_LEN && t.token@
                    == token_text(open_id@, nonce) && t.expired == session_expiry(now),
    {
        let nonce = fresh_nonce();
        let now = current_timestamp();
        self.refresh_at(open_id, token, nonce.as_slice(), now)
    }

    /// Issues a fresh session token for `open_id` and stores it in place of
    /// any earlier one.
    pub fn issue(&mut self, open_id: &str) -> (r: AccessToken)
        requires
            old(self).wf(),
        ensures
            final(self).wf(),
            final(self).session(open_id@) == Some((r.token@, r.expired)),
            forall|user: Seq<char>| user != open_id@ ==> final(self).session(user) == old(self).session(user),
            r.token@.len() == 64,
            exists|nonce: Seq<u8>, now: i64|
                nonce.len() == NONCE_LEN && r.token@ == token_text(open_id@, nonce) && r.expired
                    == session_expiry(now),
    {
        let token = AccessToken::new(open_id);
        self.wechat_record_token(open_id, &token);
        token
    }
}

} // verus!
