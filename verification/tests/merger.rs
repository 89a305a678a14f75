use authz_core::redirect::{merge, RedirectUri, RenderableResponse};
use authz_core::response_mode::ResponseMode;
use authz_core::AuthzError;

fn uri(base: &str, query: Option<&str>, fragment: Option<&str>) -> RedirectUri {
    RedirectUri {
        base: base.to_string(),
        query: query.map(|s| s.to_string()),
        fragment: fragment.map(|s| s.to_string()),
    }
}

fn params(ps: &[(&str, &str)]) -> Vec<(String, String)> {
    ps.iter().map(|(k, v)| (k.to_string(), v.to_string())).collect()
}

fn expect_redirect(r: Result<RenderableResponse, AuthzError>) -> RedirectUri {
    match r {
        Ok(RenderableResponse::Redirect { location }) => location,
        other => panic!("expected a redirect, got {:?}", other.is_ok()),
    }
}

#[test]
fn query_mode_layers_over_existing() {
    let r = merge(
        &uri("https://x/cb", Some("existing=2"), None),
        ResponseMode::Query,
        &params(&[("a", "1")]),
    );
    let location = expect_redirect(r);
    assert_eq!(location.base, "https://x/cb");
    assert_eq!(location.query.as_deref(), Some("existing=2&a=1"));
    assert_eq!(location.fragment, None);
    let decoded: Vec<(String, String)> =
        serde_urlencoded::from_str(location.query.as_deref().unwrap()).unwrap();
    assert_eq!(decoded, params(&[("existing", "2"), ("a", "1")]));
}

#[test]
fn query_mode_new_key_wins_on_collision() {
    let r = merge(
        &uri("https://x/cb", Some("existing=2"), None),
        ResponseMode::Query,
        &params(&[("existing", "3")]),
    );
    let location = expect_redirect(r);
    assert_eq!(location.query.as_deref(), Some("existing=3"));
    let decoded: Vec<(String, String)> =
        serde_urlencoded::from_str(location.query.as_deref().unwrap()).unwrap();
    assert_eq!(decoded, params(&[("existing", "3")]));
}

#[test]
fn query_mode_cannot_be_shadowed_by_encoded_key() {
    // A hostile redirect URI pre-loads a spoofed `code`; the server's
    // parameter must win even though the existing key is percent-encoded.
    let r = merge(
        &uri("https://x/cb", Some("%63ode=evil"), None),
        ResponseMode::Query,
        &params(&[("code", "good")]),
    );
    let location = expect_redirect(r);
    assert_eq!(location.query.as_deref(), Some("code=good"));
}

#[test]
fn fragment_mode_never_touches_query() {
    let r = merge(
        &uri("https://x/cb", Some("keep=1"), None),
        ResponseMode::Fragment,
        &params(&[("code", "z")]),
    );
    let location = expect_redirect(r);
    assert_eq!(location.query.as_deref(), Some("keep=1"));
    assert_eq!(location.fragment.as_deref(), Some("code=z"));
}

#[test]
fn query_mode_never_touches_fragment() {
    let r = merge(
        &uri("https://x/cb", None, Some("keep=1")),
        ResponseMode::Query,
        &params(&[("code", "z")]),
    );
    let location = expect_redirect(r);
    assert_eq!(location.fragment.as_deref(), Some("keep=1"));
    assert_eq!(location.query.as_deref(), Some("code=z"));
}

#[test]
fn fragment_mode_merges_existing_fragment() {
    let r = merge(
        &uri("https://x/cb", None, Some("old=1")),
        ResponseMode::Fragment,
        &params(&[("new", "2")]),
    );
    let location = expect_redirect(r);
    assert_eq!(location.fragment.as_deref(), Some("old=1&new=2"));
}

#[test]
fn form_post_leaves_uri_untouched() {
    let r = merge(
        &uri("https://x/cb", Some("a=1"), Some("b=2")),
        ResponseMode::FormPost,
        &params(&[("code", "z"), ("state", "s")]),
    );
    match r {
        Ok(RenderableResponse::FormPost { action, fields }) => {
            assert_eq!(action.base, "https://x/cb");
            assert_eq!(action.query.as_deref(), Some("a=1"));
            assert_eq!(action.fragment.as_deref(), Some("b=2"));
            assert_eq!(fields, params(&[("code", "z"), ("state", "s")]));
        },
        _ => panic!("expected a form post"),
    }
}

#[test]
fn malformed_existing_query_without_equals() {
    let r = merge(
        &uri("https://x/cb", Some("noequals"), None),
        ResponseMode::Query,
        &params(&[("a", "1")]),
    );
    assert!(matches!(r, Err(AuthzError::MalformedRedirectTarget)));
}

#[test]
fn malformed_existing_query_bad_escape() {
    let r = merge(
        &uri("https://x/cb", Some("a=%zz"), None),
        ResponseMode::Query,
        &params(&[("b", "1")]),
    );
    assert!(matches!(r, Err(AuthzError::MalformedRedirectTarget)));
}

#[test]
fn malformed_existing_fragment() {
    let r = merge(
        &uri("https://x/cb", None, Some("broken")),
        ResponseMode::Fragment,
        &params(&[("a", "1")]),
    );
    assert!(matches!(r, Err(AuthzError::MalformedRedirectTarget)));
}

#[test]
fn non_ascii_parameter_is_an_encoding_error() {
    let r = merge(
        &uri("https://x/cb", None, None),
        ResponseMode::Query,
        &params(&[("state", "\u{fc}ber")]),
    );
    assert!(matches!(r, Err(AuthzError::EncodingError)));
}

#[test]
fn existing_escapes_are_canonicalized() {
    let r = merge(
        &uri("https://x/cb", Some("a=%41&b=x+y"), None),
        ResponseMode::Query,
        &params(&[("c", "1")]),
    );
    let location = expect_redirect(r);
    assert_eq!(location.query.as_deref(), Some("a=A&b=x%20y&c=1"));
    let decoded: Vec<(String, String)> =
        serde_urlencoded::from_str(location.query.as_deref().unwrap()).unwrap();
    assert_eq!(decoded, params(&[("a", "A"), ("b", "x y"), ("c", "1")]));
}

#[test]
fn parameter_values_are_percent_encoded() {
    let r = merge(
        &uri("https://x/cb", None, None),
        ResponseMode::Query,
        &params(&[("state", "a&b=c d")]),
    );
    let location = expect_redirect(r);
    assert_eq!(location.query.as_deref(), Some("state=a%26b%3Dc%20d"));
    let decoded: Vec<(String, String)> =
        serde_urlencoded::from_str(location.query.as_deref().unwrap()).unwrap();
    assert_eq!(decoded, params(&[("state", "a&b=c d")]));
}

#[test]
fn render_assembles_components() {
    let u = uri("https://x/cb", Some("a=1"), Some("b=2"));
    assert_eq!(u.render(), "https://x/cb?a=1#b=2");
    let bare = uri("https://x/cb", None, None);
    assert_eq!(bare.render(), "https://x/cb");
}
