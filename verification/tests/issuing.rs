use authz_core::freshness::{compute_max_auth_time, is_fresh, UserSession};
use authz_core::issuer::issue;
use authz_core::response_mode::{ResponseMode, ResponseTypeSet};
use authz_core::store::{CodeChallengeMethod, OAuth2Session, PkceRequest, Store};

fn code_session(id: u64) -> OAuth2Session {
    OAuth2Session {
        id,
        user_session_key: None,
        client_id: "c1".to_string(),
        scope: "openid".to_string(),
        state: None,
        nonce: None,
        max_auth_time: 0,
        response_type: ResponseTypeSet { code: true, token: false, id_token: false },
        response_mode: ResponseMode::Query,
    }
}

fn issue_one(store: &mut Store, pkce: Option<PkceRequest>) -> String {
    let mut txn = store.begin();
    let id = txn.session_id;
    txn.start_session(code_session(id));
    let record = issue(&mut txn, pkce);
    store.commit(txn);
    record.code
}

#[test]
fn issued_code_is_32_urlsafe_chars() {
    let mut store = Store::new();
    let code = issue_one(&mut store, None);
    assert_eq!(code.len(), 32);
    assert!(code.chars().all(|c| {
        c.is_ascii_alphanumeric() || c == '-' || c == '_'
    }));
}

#[test]
fn issued_codes_are_distinct_across_sessions() {
    let mut store = Store::new();
    let mut seen: Vec<String> = Vec::new();
    for _ in 0..32 {
        let code = issue_one(&mut store, None);
        assert!(!seen.contains(&code), "two sessions drew the same code");
        seen.push(code);
    }
    assert_eq!(store.sessions.len(), 32);
    assert_eq!(store.codes.len(), 32);
}

#[test]
fn issued_code_binds_pkce_challenge() {
    let mut store = Store::new();
    let pkce = PkceRequest {
        code_challenge_method: CodeChallengeMethod::S256,
        code_challenge: "E9Melhoa2OwvFrEMTJguCHaoeK1t8URWbuGJSstw-cM".to_string(),
    };
    let _ = issue_one(&mut store, Some(pkce));
    let stored = store.codes[0].pkce.as_ref().unwrap();
    assert_eq!(stored.code_challenge_method, CodeChallengeMethod::S256);
    assert_eq!(stored.code_challenge, "E9Melhoa2OwvFrEMTJguCHaoeK1t8URWbuGJSstw-cM");
}

#[test]
fn freshness_false_without_session() {
    assert!(!is_fresh(None, 0));
    assert!(!is_fresh(None, 100));
}

#[test]
fn freshness_false_for_inactive_session() {
    let s = UserSession { active: false, last_authd_at: 1000 };
    assert!(!is_fresh(Some(s), 100));
}

#[test]
fn freshness_false_for_stale_session() {
    let s = UserSession { active: true, last_authd_at: 99 };
    assert!(!is_fresh(Some(s), 100));
}

#[test]
fn freshness_true_when_all_conditions_hold() {
    let s = UserSession { active: true, last_authd_at: 100 };
    assert!(is_fresh(Some(s), 100));
    let newer = UserSession { active: true, last_authd_at: 101 };
    assert!(is_fresh(Some(newer), 100));
}

#[test]
fn max_auth_time_derivation() {
    assert_eq!(compute_max_auth_time(1000, None), 0);
    assert_eq!(compute_max_auth_time(1000, Some(30)), 970);
    assert_eq!(compute_max_auth_time(1000, Some(1000)), 0);
    assert_eq!(compute_max_auth_time(1000, Some(2000)), 0);
}
