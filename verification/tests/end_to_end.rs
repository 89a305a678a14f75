use authz_core::freshness::UserSession;
use authz_core::processor::{process, AuthorizationRequest, Outcome, RegisteredClient};
use authz_core::redirect::{RedirectUri, RenderableResponse};
use authz_core::response_mode::{ResponseMode, ResponseTypeSet};
use authz_core::store::Store;
use authz_core::AuthzError;

fn cb_uri() -> RedirectUri {
    RedirectUri { base: "https://rp.example/cb".to_string(), query: None, fragment: None }
}

fn registry() -> Vec<RegisteredClient> {
    vec![RegisteredClient { client_id: "c1".to_string(), redirect_uris: vec![cb_uri()] }]
}

fn code_request() -> AuthorizationRequest {
    AuthorizationRequest {
        client_id: "c1".to_string(),
        redirect_uri: Some(cb_uri()),
        response_type: ResponseTypeSet { code: true, token: false, id_token: false },
        response_mode: None,
        scope: vec!["openid".to_string()],
        state: Some("xyz".to_string()),
        nonce: None,
        max_age: None,
    }
}

fn bearer() -> String {
    "some_static_token".to_string()
}

#[test]
fn anonymous_code_request_awaits_authentication() {
    let clients = registry();
    let mut store = Store::new();
    let r = process(&clients, &mut store, &code_request(), None, None, 1000, &bearer());
    match r {
        Ok(Outcome::CompletedAwaiting { session_id, code, redirect_uri }) => {
            assert_eq!(session_id, 0);
            let code = code.expect("a code was requested");
            assert_eq!(code.len(), 32);
            assert_eq!(redirect_uri.base, "https://rp.example/cb");
            // The pending session and code are visible after the call.
            assert_eq!(store.sessions.len(), 1);
            assert_eq!(store.codes.len(), 1);
            assert_eq!(store.codes[0].code, code);
            assert_eq!(store.codes[0].session_id, store.sessions[0].id);
            assert_eq!(store.sessions[0].client_id, "c1");
            assert_eq!(store.sessions[0].state.as_deref(), Some("xyz"));
            assert_eq!(store.sessions[0].scope, "openid");
        },
        _ => panic!("expected CompletedAwaiting"),
    }
}

#[test]
fn fresh_session_yields_303_redirect_with_code_and_state() {
    let clients = registry();
    let mut store = Store::new();
    store.add_user_session(7, UserSession { active: true, last_authd_at: 1000 });
    let r = process(&clients, &mut store, &code_request(), None, Some(7), 1000, &bearer());
    match r {
        Ok(Outcome::CompletedRedirect(RenderableResponse::Redirect { location })) => {
            assert_eq!(location.base, "https://rp.example/cb");
            assert_eq!(location.fragment, None);
            let query = location.query.as_deref().expect("query mode carries the params");
            let pairs: Vec<(String, String)> = serde_urlencoded::from_str(query).unwrap();
            assert_eq!(pairs.len(), 2);
            assert_eq!(pairs[0].0, "code");
            assert_eq!(pairs[0].1.len(), 32);
            assert_eq!(pairs[1], ("state".to_string(), "xyz".to_string()));
            assert_eq!(pairs[0].1, store.codes[0].code);
            assert_eq!(location.render(), format!("https://rp.example/cb?code={}&state=xyz", pairs[0].1));
        },
        _ => panic!("expected a redirect"),
    }
    assert_eq!(store.sessions.len(), 1);
    assert_eq!(store.codes.len(), 1);
}

#[test]
fn query_mode_for_token_flow_is_rejected_before_any_write() {
    let clients = registry();
    let mut store = Store::new();
    store.add_user_session(7, UserSession { active: true, last_authd_at: 1000 });
    let mut request = code_request();
    request.response_type = ResponseTypeSet { code: false, token: true, id_token: false };
    request.response_mode = Some(ResponseMode::Query);
    let r = process(&clients, &mut store, &request, None, Some(7), 1000, &bearer());
    assert_eq!(matches!(r, Err(AuthzError::InvalidResponseMode)), true);
    // No session row appears in storage.
    assert_eq!(store.sessions.len(), 0);
    assert_eq!(store.codes.len(), 0);
}

#[test]
fn unknown_client_is_rejected_without_any_write() {
    let clients = registry();
    let mut store = Store::new();
    let mut request = code_request();
    request.client_id = "nobody".to_string();
    let r = process(&clients, &mut store, &request, None, None, 1000, &bearer());
    assert_eq!(matches!(r, Err(AuthzError::UnknownClient)), true);
    assert_eq!(store.sessions.len(), 0);
    assert_eq!(store.codes.len(), 0);
}

#[test]
fn unregistered_redirect_uri_is_rejected() {
    let clients = registry();
    let mut store = Store::new();
    let mut request = code_request();
    request.redirect_uri = Some(RedirectUri {
        base: "https://evil.example/cb".to_string(),
        query: None,
        fragment: None,
    });
    let r = process(&clients, &mut store, &request, None, None, 1000, &bearer());
    assert_eq!(matches!(r, Err(AuthzError::InvalidRedirectUri)), true);
    assert_eq!(store.sessions.len(), 0);
}

#[test]
fn omitted_redirect_uri_falls_back_to_sole_registered_one() {
    let clients = registry();
    let mut store = Store::new();
    let mut request = code_request();
    request.redirect_uri = None;
    let r = process(&clients, &mut store, &request, None, None, 1000, &bearer());
    match r {
        Ok(Outcome::CompletedAwaiting { redirect_uri, .. }) => {
            assert_eq!(redirect_uri.base, "https://rp.example/cb");
        },
        _ => panic!("expected CompletedAwaiting"),
    }
}

#[test]
fn omitted_redirect_uri_with_two_registered_is_rejected() {
    let mut clients = registry();
    clients[0].redirect_uris.push(RedirectUri {
        base: "https://rp.example/other".to_string(),
        query: None,
        fragment: None,
    });
    let mut store = Store::new();
    let mut request = code_request();
    request.redirect_uri = None;
    let r = process(&clients, &mut store, &request, None, None, 1000, &bearer());
    assert_eq!(matches!(r, Err(AuthzError::InvalidRedirectUri)), true);
}

#[test]
fn token_flow_uses_fragment_and_supplied_bearer() {
    let clients = registry();
    let mut store = Store::new();
    store.add_user_session(3, UserSession { active: true, last_authd_at: 500 });
    let mut request = code_request();
    request.response_type = ResponseTypeSet { code: false, token: true, id_token: false };
    let r = process(&clients, &mut store, &request, None, Some(3), 600, &bearer());
    match r {
        Ok(Outcome::CompletedRedirect(RenderableResponse::Redirect { location })) => {
            assert_eq!(location.query, None);
            assert_eq!(
                location.fragment.as_deref(),
                Some("access_token=some_static_token&state=xyz")
            );
        },
        _ => panic!("expected a fragment redirect"),
    }
    assert_eq!(store.sessions.len(), 1);
    assert_eq!(store.codes.len(), 0);
}

#[test]
fn id_token_issuance_fails_fast_and_rolls_back() {
    let clients = registry();
    let mut store = Store::new();
    store.add_user_session(3, UserSession { active: true, last_authd_at: 500 });
    let mut request = code_request();
    request.response_type = ResponseTypeSet { code: true, token: false, id_token: true };
    let r = process(&clients, &mut store, &request, None, Some(3), 600, &bearer());
    assert_eq!(matches!(r, Err(AuthzError::UnsupportedFeature)), true);
    assert_eq!(store.sessions.len(), 0);
    assert_eq!(store.codes.len(), 0);
}

#[test]
fn id_token_request_without_fresh_session_still_awaits() {
    let clients = registry();
    let mut store = Store::new();
    let mut request = code_request();
    request.response_type = ResponseTypeSet { code: false, token: false, id_token: true };
    let r = process(&clients, &mut store, &request, None, None, 600, &bearer());
    match r {
        Ok(Outcome::CompletedAwaiting { code, .. }) => assert!(code.is_none()),
        _ => panic!("expected CompletedAwaiting"),
    }
    assert_eq!(store.sessions.len(), 1);
    assert_eq!(store.codes.len(), 0);
}

#[test]
fn stale_authentication_requires_login_again() {
    let clients = registry();
    let mut store = Store::new();
    store.add_user_session(9, UserSession { active: true, last_authd_at: 10 });
    let mut request = code_request();
    request.max_age = Some(100);
    let r = process(&clients, &mut store, &request, None, Some(9), 1000, &bearer());
    assert_eq!(matches!(r, Ok(Outcome::CompletedAwaiting { .. })), true);
}

#[test]
fn inactive_session_requires_login_again() {
    let clients = registry();
    let mut store = Store::new();
    store.add_user_session(9, UserSession { active: false, last_authd_at: 1000 });
    let r = process(&clients, &mut store, &code_request(), None, Some(9), 1000, &bearer());
    assert_eq!(matches!(r, Ok(Outcome::CompletedAwaiting { .. })), true);
}

#[test]
fn scope_tokens_are_space_joined_in_order() {
    let clients = registry();
    let mut store = Store::new();
    let mut request = code_request();
    request.scope = vec!["openid".to_string(), "profile".to_string(), "email".to_string()];
    let _ = process(&clients, &mut store, &request, None, None, 1000, &bearer());
    assert_eq!(store.sessions[0].scope, "openid profile email");
}

#[test]
fn form_post_mode_keeps_action_unmodified() {
    let clients = registry();
    let mut store = Store::new();
    store.add_user_session(7, UserSession { active: true, last_authd_at: 1000 });
    let mut request = code_request();
    request.response_mode = Some(ResponseMode::FormPost);
    let r = process(&clients, &mut store, &request, None, Some(7), 1000, &bearer());
    match r {
        Ok(Outcome::CompletedRedirect(RenderableResponse::FormPost { action, fields })) => {
            assert_eq!(action.base, "https://rp.example/cb");
            assert_eq!(action.query, None);
            assert_eq!(fields.len(), 2);
            assert_eq!(fields[0].0, "code");
            assert_eq!(fields[1], ("state".to_string(), "xyz".to_string()));
        },
        _ => panic!("expected a form post"),
    }
}

#[test]
fn session_records_freshness_deadline() {
    let clients = registry();
    let mut store = Store::new();
    let mut request = code_request();
    request.max_age = Some(300);
    let _ = process(&clients, &mut store, &request, None, None, 1000, &bearer());
    assert_eq!(store.sessions[0].max_auth_time, 700);
    assert_eq!(store.sessions[0].user_session_key, None);
}
