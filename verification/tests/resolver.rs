use authz_core::response_mode::{resolve, ResponseMode, ResponseTypeSet};
use authz_core::AuthzError;

fn rt(code: bool, token: bool, id_token: bool) -> ResponseTypeSet {
    ResponseTypeSet { code, token, id_token }
}

#[test]
fn token_rejects_query_suggestion() {
    assert_eq!(
        resolve(rt(false, true, false), Some(ResponseMode::Query)),
        Err(AuthzError::InvalidResponseMode)
    );
}

#[test]
fn id_token_rejects_query_suggestion() {
    assert_eq!(
        resolve(rt(false, false, true), Some(ResponseMode::Query)),
        Err(AuthzError::InvalidResponseMode)
    );
}

#[test]
fn hybrid_rejects_query_suggestion() {
    assert_eq!(
        resolve(rt(true, true, true), Some(ResponseMode::Query)),
        Err(AuthzError::InvalidResponseMode)
    );
}

#[test]
fn implicit_never_resolves_to_query() {
    let sets = [rt(false, true, false), rt(false, false, true), rt(true, true, false), rt(true, false, true)];
    let suggestions = [None, Some(ResponseMode::Query), Some(ResponseMode::Fragment), Some(ResponseMode::FormPost)];
    for set in sets {
        for suggestion in suggestions {
            assert_ne!(resolve(set, suggestion), Ok(ResponseMode::Query));
        }
    }
}

#[test]
fn token_defaults_to_fragment() {
    assert_eq!(resolve(rt(false, true, false), None), Ok(ResponseMode::Fragment));
}

#[test]
fn token_honors_form_post() {
    assert_eq!(
        resolve(rt(false, true, false), Some(ResponseMode::FormPost)),
        Ok(ResponseMode::FormPost)
    );
}

#[test]
fn token_honors_fragment() {
    assert_eq!(
        resolve(rt(true, true, false), Some(ResponseMode::Fragment)),
        Ok(ResponseMode::Fragment)
    );
}

#[test]
fn code_only_defaults_to_query() {
    assert_eq!(resolve(rt(true, false, false), None), Ok(ResponseMode::Query));
}

#[test]
fn code_only_honors_every_mode() {
    assert_eq!(
        resolve(rt(true, false, false), Some(ResponseMode::Query)),
        Ok(ResponseMode::Query)
    );
    assert_eq!(
        resolve(rt(true, false, false), Some(ResponseMode::Fragment)),
        Ok(ResponseMode::Fragment)
    );
    assert_eq!(
        resolve(rt(true, false, false), Some(ResponseMode::FormPost)),
        Ok(ResponseMode::FormPost)
    );
}
