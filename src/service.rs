use vstd::prelude::*;
use std::collections::HashMap;
use crate::error::{code_of, error_of, message_of, Error};
use crate::registry::{batch_outcome, Registry, RegistryError};
use crate::session::{current_timestamp, fresh_nonce, session_expiry, token_text, SessionStore, NONCE_LEN};
use crate::messages::{CodeInfo, CodeResult, GetSubscribeInfo, GetSubscribeResult, SubscribeInfo, SubscribeResult};

verus! {

/// Groups (university, department) pairs by university: the department ids
/// of each university that occurs, in the order of the pairs.
pub fn group_by_university(pairs: &Vec<(u32, u32)>) -> (r: HashMap<u32, Vec<u32>>)
    ensures
        forall|u: u32| #[trigger] r@.contains_key(u) <==> exists|k: int| 0 <= k < pairs@.len() && pairs@[k].0 == u,
        forall|u: u32, d: u32|
            r@.contains_key(u) ==> (#[trigger] r@[u]@.contains(d) <==> exists|k: int|
                0 <= k < pairs@.len() && pairs@[k] == (u, d)),
{
    broadcast use vstd::std_specs::hash::group_hash_axioms;

    let mut map: HashMap<u32, Vec<u32>> = HashMap::new();
    let mut i: usize = 0;
    while i < pairs.len()
        invariant
            i <= pairs@.len(),
            forall|u: u32| #[trigger] map@.contains_key(u) <==> exists|k: int| 0 <= k < i && pairs@[k].0 == u,
            forall|u: u32, d: u32|
                map@.contains_key(u) ==> (#[trigger] map@[u]@.contains(d) <==> exists|k: int|
                    0 <= k < i && pairs@[k] == (u, d)),
        decreases pairs@.len() - i,
    {
        let (u, d) = pairs[i];
        let ghost before = map@;
        let mut ds = match map.remove(&u) {
            Some(v) => v,
            None => Vec::new(),
        };
        let ghost old_ds = ds@;
        ds.push(d);
        map.insert(u, ds);
        proof {
            assert forall|uu: u32| #[trigger] map@.contains_key(uu) <==> exists|k: int| 0 <= k < i + 1 && pairs@[k].0 == uu by {
                if uu == u {
                    assert(pairs@[i as int].0 == uu);
                } else if before.contains_key(uu) {
                    let k = choose|k: int| 0 <= k < i && pairs@[k].0 == uu;
                    assert(0 <= k < i + 1 && pairs@[k].0 == uu);
                } else {
                    if exists|k: int| 0 <= k < i + 1 && pairs@[k].0 == uu {
                        let k = choose|k: int| 0 <= k < i + 1 && pairs@[k].0 == uu;
                        assert(k != i);
                    }
                }
            }
            assert forall|uu: u32, dd: u32| map@.contains_key(uu) implies (#[trigger] map@[uu]@.contains(dd) <==> exists|k: int|
                0 <= k < i + 1 && pairs@[k] == (uu, dd)) by {
                if uu == u {
                    assert(map@[uu]@ == old_ds.push(d));
                    if old_ds.contains(dd) {
                        let k = choose|k: int| 0 <= k < i && pairs@[k] == (uu, dd);
                        assert(0 <= k < i + 1 && pairs@[k] == (uu, dd));
                    }
                    if dd == d {
                        assert(map@[uu]@[old_ds.len() as int] == dd);
                        assert(pairs@[i as int] == (uu, dd));
                    }
                    if exists|k: int| 0 <= k < i + 1 && pairs@[k] == (uu, dd) {
                        let k = choose|k: int| 0 <= k < i + 1 && pairs@[k] == (uu, dd);
                        if k < i {
                            assert(before.contains_key(uu));
                            assert(old_ds.contains(dd));
                            let j = choose|j: int| 0 <= j < old_ds.len() && old_ds[j] == dd;
                            assert(map@[uu]@[j] == dd);
                        } else {
                            assert(map@[uu]@[old_ds.len() as int] == dd);
                        }
                    }
                } else {
                    assert(map@[uu] == before[uu]);
                    if exists|k: int| 0 <= k < i + 1 && pairs@[k] == (uu, dd) {
                        let k = choose|k: int| 0 <= k < i + 1 && pairs@[k] == (uu, dd);
                        assert(k != i);
                    }
                }
            }
        }
        i = i + 1;
    }
    map
}


/// The client-facing code for a refusal of the registry: a request that
/// names missing entries or an unknown operation is an invalid request; the
/// rest are failures of the directory.
pub open spec fn registry_error_of(e: RegistryError) -> Error {
    match e {
        RegistryError::UniversityNotFound => Error::InvalidJsonRequest,
        RegistryError::DepartmentNotFound => Error::InvalidJsonRequest,
        RegistryError::InvalidOperation => Error::InvalidJsonRequest,
        RegistryError::AlreadyExists => Error::DatabaseErr,
        RegistryError::IdSpaceExhausted => Error::DatabaseErr,
    }
}

pub fn registry_error(e: RegistryError) -> (r: Error)
    ensures
        r == registry_error_of(e),
{
    match e {
        RegistryError::UniversityNotFound => Error::InvalidJsonRequest,
        RegistryError::DepartmentNotFound => Error::InvalidJsonRequest,
        RegistryError::InvalidOperation => Error::InvalidJsonRequest,
        RegistryError::AlreadyExists => Error::DatabaseErr,
        RegistryError::IdSpaceExhausted => Error::DatabaseErr,
    }
}

/// Serves a subscription batch at time `now`: a session token that is not
/// valid is refused with `TokenExpired`; otherwise the batch is applied as
/// one unit, and a refused batch is answered with the refusal's code.
pub fn handle_subscribe_at(sessions: &SessionStore, registry: &mut Registry, info: &SubscribeInfo, now: i64) -> (r: SubscribeResult)
    requires
        sessions.wf(),
        old(registry).wf(),
    ensures
        final(registry).wf(),
        final(registry).ids_left() == old(registry).ids_left(),
        !sessions.valid_at(info.open_id@, info.access_token@, now) ==> r.err_code == code_of(
            Error::TokenExpired,
        ) && r.message@ == message_of(Error::TokenExpired) && *final(registry) == *old(registry),
        sessions.valid_at(info.open_id@, info.access_token@, now) ==> match old(registry).batch_fault_from(info.info@, 0) {
            Some(e) => r.err_code == code_of(registry_error_of(e)) && r.message@ == message_of(
                registry_error_of(e),
            ) && *final(registry) == *old(registry),
            None => r.err_code == 0 && r.message@.len() == 0 && final(registry).same_universities(
                *old(registry),
            ) && final(registry).same_departments(*old(registry)) && forall|x: Seq<char>, u: u32, d: u32|
                #[trigger] final(registry).subscribed(x, u, d) == if x == info.open_id@ {
                    batch_outcome(info.info@, u, d, old(registry).subscribed(x, u, d))
                } else {
                    old(registry).subscribed(x, u, d)
                },
        },
{
    if !sessions.is_valid_at(info.open_id.as_str(), info.access_token.as_str(), now) {
        return SubscribeResult::new(Err(Error::TokenExpired));
    }
    match registry.subscribe_user(&info.open_id, &info.info) {
        Ok(()) => SubscribeResult::new(Ok(())),
        Err(e) => SubscribeResult::new(Err(registry_error(e))),
    }
}

/// Serves a subscription batch at the current time.
pub fn handle_subscribe(sessions: &SessionStore, registry: &mut Registry, info: &SubscribeInfo) -> (r: SubscribeResult)
    requires
        sessions.wf(),
        old(registry).wf(),
    ensures
        final(registry).wf(),
        final(registry).ids_left() == old(registry).ids_left(),
        r.err_code != 0 ==> *final(registry) == *old(registry),
        r.err_code == 0 ==> exists|now: i64| sessions.valid_at(info.open_id@, info.access_token@, now),
        old(registry).batch_fault_from(info.info@, 0) is Some ==> r.err_code != 0,
        r.err_code == 0 ==> final(registry).same_universities(*old(registry)) && final(registry).same_departments(*old(registry)) && forall|x: Seq<char>, u: u32, d: u32|
            #[trigger] final(registry).subscribed(x, u, d) == if x == info.open_id@ {
                batch_outcome(info.info@, u, d, old(registry).subscribed(x, u, d))
            } else {
                old(registry).subscribed(x, u, d)
            },
{
    let now = current_timestamp();
    handle_subscribe_at(sessions, registry, info, now)
}

/// Serves a request for the user's subscription index at time `now`: a
/// session token that is not valid is refused with `TokenExpired`;
/// otherwise the index is returned, grouped by university.
pub fn handle_get_subscribe_at(sessions: &SessionStore, registry: &Registry, info: &GetSubscribeInfo, now: i64) -> (r: GetSubscribeResult)
    requires
        sessions.wf(),
        registry.wf(),
    ensures
        !sessions.valid_at(info.open_id@, info.access_token@, now) ==> r.err_code == code_of(
            Error::TokenExpired,
        ) && r.message@ == message_of(Error::TokenExpired) && r.info@.len() == 0,
        sessions.valid_at(info.open_id@, info.access_token@, now) ==> {
            &&& r.err_code == 0
            &&& r.message@.len() == 0
            &&& forall|u: u32| #[trigger] r.info@.contains_key(u) <==> exists|d: u32| registry.subscribed(info.open_id@, u, d)
            &&& forall|u: u32, d: u32|
                r.info@.contains_key(u) ==> (#[trigger] r.info@[u]@.contains(d) <==> registry.subscribed(info.open_id@, u, d))
        },
{
    if !sessions.is_valid_at(info.open_id.as_str(), info.access_token.as_str(), now) {
        return GetSubscribeResult::new(Err(Error::TokenExpired));
    }
    let pairs = registry.wechat_get_subscribe(&info.open_id);
    let grouped = group_by_university(&pairs);
    let r = GetSubscribeResult::new(Ok(grouped));
    proof {
        assert forall|u: u32| #[trigger] r.info@.contains_key(u) <==> exists|d: u32| registry.subscribed(info.open_id@, u, d) by {
            if r.info@.contains_key(u) {
                let k = choose|k: int| 0 <= k < pairs@.len() && pairs@[k].0 == u;
                assert(registry.subscribed(info.open_id@, pairs@[k].0, pairs@[k].1));
            }
            if exists|d: u32| registry.subscribed(info.open_id@, u, d) {
                let d = choose|d: u32| registry.subscribed(info.open_id@, u, d);
                let k = choose|k: int| 0 <= k < pairs@.len() && #[trigger] pairs@[k] == (u, d);
                assert(pairs@[k].0 == u);
            }
        }
        assert forall|u: u32, d: u32| r.info@.contains_key(u) implies (#[trigger] r.info@[u]@.contains(d)
            <==> registry.subscribed(info.open_id@, u, d)) by {
            if registry.subscribed(info.open_id@, u, d) {
                let k = choose|k: int| 0 <= k < pairs@.len() && #[trigger] pairs@[k] == (u, d);
            }
            if exists|k: int| 0 <= k < pairs@.len() && pairs@[k] == (u, d) {
                let k = choose|k: int| 0 <= k < pairs@.len() && pairs@[k] == (u, d);
                assert(registry.subscribed(info.open_id@, pairs@[k].0, pairs@[k].1));
            }
        }
    }
    r
}

/// Serves a request for the user's subscription index at the current time.
pub fn handle_get_subscribe(sessions: &SessionStore, registry: &Registry, info: &GetSubscribeInfo) -> (r: GetSubscribeResult)
    requires
        sessions.wf(),
        registry.wf(),
    ensures
        r.err_code == 0 ==> exists|now: i64| sessions.valid_at(info.open_id@, info.access_token@, now),
        r.err_code != 0 ==> r.err_code == code_of(Error::TokenExpired) && r.info@.len() == 0,
        r.err_code == 0 ==> forall|u: u32| #[trigger] r.info@.contains_key(u) <==> exists|d: u32|
            registry.subscribed(info.open_id@, u, d),
        r.err_code == 0 ==> forall|u: u32, d: u32|
            r.info@.contains_key(u) ==> (#[trigger] r.info@[u]@.contains(d) <==> registry.subscribed(info.open_id@, u, d)),
{
    let now = current_timestamp();
    handle_get_subscribe_at(sessions, registry, info, now)
}

/// Serves a sign-in that presents a session token, at time `now`: a valid
/// token is replaced with a fresh one (made with `nonce`), which is
/// returned; any other is refused with `TokenExpired`.
pub fn handle_code_refresh_at(sessions: &mut SessionStore, info: &CodeInfo, nonce: &[u8], now: i64) -> (r: CodeResult)
    requires
        old(sessions).wf(),
    ensures
        final(sessions).wf(),
        !old(sessions).valid_at(info.open_id@, info.access_token@, now) ==> r.err_code == code_of(
            Error::TokenExpired,
        ) && r.access_token@.len() == 0 && *final(sessions) == *old(sessions),
        old(sessions).valid_at(info.open_id@, info.access_token@, now) ==> r.err_code == 0
            && r.open_id == info.open_id && r.access_token@ == token_text(info.open_id@, nonce@)
            && r.access_token@.len() == 64 && (forall|user: Seq<char>|
                user != info.open_id@ ==> final(sessions).session(user) == old(sessions).session(user))
            && final(sessions).session(info.open_id@) == Some((r.access_token@, session_expiry(now))),
{
    match sessions.refresh_at(info.open_id.as_str(), info.access_token.as_str(), nonce, now) {
        Ok(token) => CodeResult::new(Ok((info.open_id.clone(), token))),
        Err(e) => CodeResult::new(Err(e)),
    }
}

/// Serves a sign-in that presents a session token, at the current time.
pub fn handle_code_refresh(sessions: &mut SessionStore, info: &CodeInfo) -> (r: CodeResult)
    requires
        old(sessions).wf(),
    ensures
        final(sessions).wf(),
        r.err_code != 0 ==> r.err_code == code_of(Error::TokenExpired) && *final(sessions) == *old(sessions),
        r.err_code == 0 ==> exists|now: i64| old(sessions).valid_at(info.open_id@, info.access_token@, now),
        r.err_code == 0 ==> r.open_id == info.open_id && r.access_token@.len() == 64 && exists|
            now: i64,
            nonce: Seq<u8>,
        |
            nonce.len() == NONCE_LEN && r.access_token@ == token_text(info.open_id@, nonce)
                && final(sessions).session(info.open_id@) == Some((r.access_token@, session_expiry(now))),
        r.err_code == 0 ==> forall|user: Seq<char>|
            user != info.open_id@ ==> final(sessions).session(user) == old(sessions).session(user),
{
    let nonce = fresh_nonce();
    let now = current_timestamp();
    handle_code_refresh_at(sessions, info, nonce.as_slice(), now)
}

/// The error that the identity provider reports in its answer, if any: a
/// present, non-zero code.
pub open spec fn provider_error(errcode: Option<i32>) -> Option<Error> {
    match errcode {
        Some(c) => if c != 0 {
            Some(error_of(c as int))
        } else {
            None
        },
        None => None,
    }
}

/// Serves the identity provider's answer to an authorization code, at time
/// `now`: a non-zero error code is passed on; an answer without an open id
/// is refused with `OpenIdNotFound`; otherwise a session token (made with
/// `nonce`) is issued and stored for that open id, and returned with it.
pub fn handle_code_session_at(
    sessions: &mut SessionStore,
    openid: Option<String>,
    errcode: Option<i32>,
    nonce: &[u8],
    now: i64,
) -> (r: CodeResult)
    requires
        old(sessions).wf(),
    ensures
        final(sessions).wf(),
        provider_error(errcode) matches Some(e) ==> r.err_code == code_of(e) && r.message@
            == message_of(e) && *final(sessions) == *old(sessions),
        provider_error(errcode) is None && openid is None ==> r.err_code == code_of(
            Error::OpenIdNotFound,
        ) && *final(sessions) == *old(sessions),
        provider_error(errcode) is None ==> (openid matches Some(id) ==> {
            &&& r.err_code == 0
            &&& r.open_id == id
            &&& r.access_token@ == token_text(id@, nonce@)
            &&& r.access_token@.len() == 64
            &&& final(sessions).session(id@) == Some((r.access_token@, session_expiry(now)))
            &&& forall|user: Seq<char>| user != id@ ==> final(sessions).session(user) == old(sessions).session(user)
        }),
{
    match errcode {
        Some(c) => {
            if c != 0 {
                return CodeResult::new(Err(Error::from(c)));
            }
        },
        None => {},
    }
    match openid {
        Some(id) => {
            let token = crate::session::AccessToken::issued_at(id.as_str(), nonce, now);
            sessions.wechat_record_token(id.as_str(), &token);
            CodeResult::new(Ok((id, token)))
        },
        None => CodeResult::new(Err(Error::OpenIdNotFound)),
    }
}

/// Serves the identity provider's answer to an authorization code, at the
/// current time.
pub fn handle_code_session(sessions: &mut SessionStore, openid: Option<String>, errcode: Option<i32>) -> (r: CodeResult)
    requires
        old(sessions).wf(),
    ensures
        final(sessions).wf(),
        provider_error(errcode) matches Some(e) ==> r.err_code == code_of(e) && r.message@
            == message_of(e) && *final(sessions) == *old(sessions),
        provider_error(errcode) is None && openid is None ==> r.err_code == code_of(
            Error::OpenIdNotFound,
        ) && *final(sessions) == *old(sessions),
        provider_error(errcode) is None ==> (openid matches Some(id) ==> {
            &&& r.err_code == 0
            &&& r.open_id == id
            &&& r.access_token@.len() == 64
            &&& exists|nonce: Seq<u8>, now: i64|
                nonce.len() == NONCE_LEN && r.access_token@ == token_text(id@, nonce)
                    && final(sessions).session(id@) == Some((r.access_token@, session_expiry(now)))
            &&& forall|user: Seq<char>| user != id@ ==> final(sessions).session(user) == old(sessions).session(user)
        }),
{
    let nonce = fresh_nonce();
    let now = current_timestamp();
    handle_code_session_at(sessions, openid, errcode, nonce.as_slice(), now)
}

} // verus!
