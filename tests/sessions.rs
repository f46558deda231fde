use prospect_backend::{
    handle_code_refresh, handle_code_refresh_at, handle_code_session, handle_code_session_at,
    handle_get_subscribe, handle_get_subscribe_at, handle_subscribe, handle_subscribe_at,
    registry_error, AccessToken, CacheDecision, CodeInfo, CodeResult, CredentialCache, Error,
    GetSubscribeInfo, Registry, RegistryError, SessionStore, SubscribeDetail, SubscribeInfo,
    SubscribeResult, OPER_SUBSCRIBE, SESSION_TTL_SECS,
};

const SHA3_EMPTY: &str = "a7ffc6f8bf1ed76651c14756a061d662f580ff4de43b49fa82d80a4b80f8434a";
const SHA3_ABC: &str = "3a985da74fe225b2045c172d6bd390bd855f086e3e9d525b46bfe24511431532";

#[test]
fn token_is_digest_of_id_and_nonce() {
    let t = AccessToken::issued_at("", &[], 1000);
    assert_eq!(t.token, SHA3_EMPTY);
    assert_eq!(t.expired, 1000 + SESSION_TTL_SECS);
    assert_eq!(AccessToken::issued_at("ab", b"c", 0).token, SHA3_ABC);
    assert_eq!(AccessToken::issued_at("a", b"bc", 0).token, SHA3_ABC);
    assert_eq!(SESSION_TTL_SECS, 3 * 24 * 3600);
}

#[test]
fn token_expiry_is_capped() {
    let t = AccessToken::issued_at("u1", &[1, 2, 3, 4, 5, 6, 7, 8], i64::MAX - 5);
    assert_eq!(t.expired, i64::MAX);
}

#[test]
fn fresh_tokens_differ() {
    let a = AccessToken::new("u1");
    let b = AccessToken::new("u1");
    assert_eq!(a.token.len(), 64);
    assert!(a.is_valid());
    assert_ne!(a.token, b.token);
    assert!(!AccessToken::empty().is_valid());
}

#[test]
fn session_validation() {
    let mut s = SessionStore::new();
    let t = AccessToken::issued_at("u1", b"12345678", 100);
    s.wechat_record_token("u1", &t);
    assert!(s.is_valid_at("u1", &t.token, 100));
    assert!(!s.is_valid_at("u1", &t.token, 100 + SESSION_TTL_SECS));
    assert!(!s.is_valid_at("u1", "other", 100));
    assert!(!s.is_valid_at("u2", &t.token, 100));
    assert!(!s.is_valid_access_token("u1", &t.token));
    let live = s.issue("u3");
    assert!(s.is_valid_access_token("u3", &live.token));
}

#[test]
fn session_record_replaces() {
    let mut s = SessionStore::new();
    let t1 = AccessToken::issued_at("u1", b"aaaaaaaa", 100);
    let t2 = AccessToken::issued_at("u1", b"bbbbbbbb", 100);
    s.wechat_record_token("u1", &t1);
    s.wechat_record_token("u1", &t2);
    assert!(!s.is_valid_at("u1", &t1.token, 101));
    assert!(s.is_valid_at("u1", &t2.token, 101));
}

#[test]
fn refresh_slides_expiry() {
    let mut s = SessionStore::new();
    let t = AccessToken::issued_at("u1", b"aaaaaaaa", 100);
    s.wechat_record_token("u1", &t);
    let fresh = s.refresh_at("u1", &t.token, b"bbbbbbbb", 200).unwrap();
    assert_eq!(fresh.expired, 200 + SESSION_TTL_SECS);
    assert_eq!(fresh.token, AccessToken::issued_at("u1", b"bbbbbbbb", 0).token);
    assert!(!s.is_valid_at("u1", &t.token, 201));
    assert!(s.is_valid_at("u1", &fresh.token, 201));
    assert_eq!(s.refresh_at("u1", &t.token, b"cccccccc", 201).unwrap_err(), Error::TokenExpired);
    let issued = s.issue("u2");
    assert_eq!(issued.token.len(), 64);
}

#[test]
fn refresh_of_expired_token_is_refused() {
    let mut s = SessionStore::new();
    let t = AccessToken::issued_at("u1", b"aaaaaaaa", 100);
    s.wechat_record_token("u1", &t);
    let later = 100 + SESSION_TTL_SECS;
    assert_eq!(s.refresh_at("u1", &t.token, b"bbbbbbbb", later).unwrap_err(), Error::TokenExpired);
    assert!(s.valid_token_and_update("nobody", "x").is_err());
}

#[test]
fn credential_refresh_is_coalesced() {
    let mut c = CredentialCache::new();
    assert!(matches!(c.acquire(100), CacheDecision::Refresh));
    for now in [100, 101, 150] {
        assert!(matches!(c.acquire(now), CacheDecision::Wait));
    }
    c.complete_refresh(Some(("tok".to_string(), 7200)), 100);
    match c.acquire(101) {
        CacheDecision::UseCached(t) => assert_eq!(t, "tok"),
        _ => panic!("expected the cached credential"),
    }
    assert!(matches!(c.acquire(7300), CacheDecision::Refresh));
    assert!(matches!(c.acquire(7301), CacheDecision::Wait));
}

#[test]
fn failed_refresh_keeps_stale_entry() {
    let mut c = CredentialCache::new();
    assert!(matches!(c.acquire(0), CacheDecision::Refresh));
    c.complete_refresh(Some(("old".to_string(), 10)), 0);
    assert!(matches!(c.acquire(20), CacheDecision::Refresh));
    c.complete_refresh(None, 20);
    // no fallback to the expired credential: the next caller refreshes again
    assert!(matches!(c.acquire(21), CacheDecision::Refresh));
    c.complete_refresh(Some(("new".to_string(), 10)), 21);
    assert!(matches!(c.acquire(22), CacheDecision::UseCached(ref t) if t == "new"));
}

#[test]
fn error_codes_round_trip() {
    assert_eq!(Error::from(45011), Error::ApiFrequencyLimit);
    assert_eq!(Error::from(-1), Error::SystemBusy);
    assert_eq!(Error::from(12345), Error::UnknownErr);
    assert_eq!(i32::from(Error::HighRiskUser), 40226);
    let code: i32 = Error::TokenExpired.into();
    assert_eq!(code, 104);
    assert_eq!(Error::UnknownErr.code(), 999);
    assert_eq!(Error::ApiFrequencyLimit.message(), "request too fast");
    assert_eq!(Error::Success.message(), "success");
}

#[test]
fn registry_errors_map_to_client_codes() {
    assert_eq!(registry_error(RegistryError::DepartmentNotFound), Error::InvalidJsonRequest);
    assert_eq!(registry_error(RegistryError::AlreadyExists), Error::DatabaseErr);
}

#[test]
fn result_constructors() {
    let r = SubscribeResult::new(Err(Error::TokenExpired));
    assert_eq!((r.err_code, r.message.as_str()), (104, "access token expired"));
    let r = SubscribeResult::new(Ok(()));
    assert_eq!((r.err_code, r.message.as_str()), (0, ""));
    let t = AccessToken::issued_at("", &[], 0);
    let r = CodeResult::new(Ok(("u1".to_string(), t)));
    assert_eq!((r.err_code, r.message.as_str(), r.open_id.as_str()), (0, "success", "u1"));
    assert_eq!(r.access_token, SHA3_EMPTY);
    let r = CodeResult::new(Err(Error::OpenIdNotFound));
    assert_eq!((r.err_code, r.access_token.as_str()), (105, ""));
}

fn registry_with_cs() -> (Registry, u32, u32) {
    let mut reg = Registry::new();
    let t = reg.add_university("tongji", "Tongji University").unwrap();
    let cs = reg.add_department(t, "cs", "Computer Science").unwrap();
    (reg, t, cs)
}

#[test]
fn subscribe_request_needs_valid_token() {
    let (mut reg, t, cs) = registry_with_cs();
    let mut s = SessionStore::new();
    let tok = AccessToken::issued_at("u1", b"aaaaaaaa", 100);
    s.wechat_record_token("u1", &tok);
    let detail = SubscribeDetail { school_code: t, department_code: cs, oper: OPER_SUBSCRIBE };
    let bad = SubscribeInfo { open_id: "u1".to_string(), access_token: "nope".to_string(), info: vec![detail.clone()] };
    assert_eq!(handle_subscribe_at(&s, &mut reg, &bad, 101).err_code, 104);
    assert!(reg.get_users(t, cs).unwrap().is_empty());
    let good = SubscribeInfo { open_id: "u1".to_string(), access_token: tok.token.clone(), info: vec![detail] };
    assert_eq!(handle_subscribe_at(&s, &mut reg, &good, 101).err_code, 0);
    assert_eq!(reg.get_users(t, cs).unwrap(), vec!["u1".to_string()]);
    let missing = SubscribeInfo {
        open_id: "u1".to_string(),
        access_token: tok.token.clone(),
        info: vec![SubscribeDetail { school_code: t, department_code: cs + 9, oper: OPER_SUBSCRIBE }],
    };
    assert_eq!(handle_subscribe_at(&s, &mut reg, &missing, 101).err_code, 107);
    let q = GetSubscribeInfo { access_token: tok.token.clone(), open_id: "u1".to_string() };
    let r = handle_get_subscribe_at(&s, &reg, &q, 101);
    assert_eq!(r.err_code, 0);
    assert_eq!(r.info.get(&t), Some(&vec![cs]));
    let r = handle_get_subscribe_at(&s, &reg, &q, 100 + SESSION_TTL_SECS);
    assert_eq!(r.err_code, 104);
    assert!(r.info.is_empty());
}

#[test]
fn sign_in_with_code() {
    let mut s = SessionStore::new();
    let r = handle_code_session_at(&mut s, Some("u1".to_string()), Some(0), b"aaaaaaaa", 50);
    assert_eq!(r.err_code, 0);
    assert_eq!(r.open_id, "u1");
    assert!(s.is_valid_at("u1", &r.access_token, 51));
    let r = handle_code_session_at(&mut s, None, None, b"aaaaaaaa", 50);
    assert_eq!(r.err_code, 105);
    let r = handle_code_session_at(&mut s, Some("u2".to_string()), Some(40029), b"aaaaaaaa", 50);
    assert_eq!((r.err_code, r.message.as_str()), (40029, "invalid code"));
    assert!(!s.is_valid_at("u2", "", 51));
}

#[test]
fn sign_in_with_token() {
    let mut s = SessionStore::new();
    let tok = AccessToken::issued_at("u1", b"aaaaaaaa", 100);
    s.wechat_record_token("u1", &tok);
    let info = CodeInfo { code: String::new(), open_id: "u1".to_string(), access_token: tok.token.clone() };
    let r = handle_code_refresh_at(&mut s, &info, b"bbbbbbbb", 150);
    assert_eq!(r.err_code, 0);
    assert_ne!(r.access_token, tok.token);
    assert!(s.is_valid_at("u1", &r.access_token, 151));
    let r2 = handle_code_refresh_at(&mut s, &info, b"cccccccc", 151);
    assert_eq!(r2.err_code, 104);
}

#[test]
fn subscribe_request_at_current_time() {
    let (mut reg, t, cs) = registry_with_cs();
    let mut s = SessionStore::new();
    let tok = s.issue("u1");
    let info = SubscribeInfo {
        open_id: "u1".to_string(),
        access_token: tok.token.clone(),
        info: vec![SubscribeDetail { school_code: t, department_code: cs, oper: OPER_SUBSCRIBE }],
    };
    assert_eq!(handle_subscribe(&s, &mut reg, &info).err_code, 0);
    let q = GetSubscribeInfo { access_token: tok.token, open_id: "u1".to_string() };
    let r = handle_get_subscribe(&s, &reg, &q);
    assert_eq!(r.err_code, 0);
    assert_eq!(r.info.get(&t), Some(&vec![cs]));
}

#[test]
fn sign_in_at_current_time() {
    let mut s = SessionStore::new();
    let r = handle_code_session(&mut s, Some("u1".to_string()), None);
    assert_eq!(r.err_code, 0);
    assert!(s.is_valid_access_token("u1", &r.access_token));
    let info = CodeInfo { code: String::new(), open_id: "u1".to_string(), access_token: r.access_token.clone() };
    let r2 = handle_code_refresh(&mut s, &info);
    assert_eq!(r2.err_code, 0);
    assert!(s.is_valid_access_token("u1", &r2.access_token));
    assert!(!s.is_valid_access_token("u1", &r.access_token));
}
