use authz_core::codec::{decode_query_exec, encode_query_exec, merge_pairs_exec};
use authz_core::AuthzError;

fn pairs(ps: &[(&str, &str)]) -> Vec<(String, String)> {
    ps.iter().map(|(k, v)| (k.to_string(), v.to_string())).collect()
}

#[test]
fn encoding_escapes_reserved_characters() {
    let input = pairs(&[("a b", "1&2=3")]);
    let encoded = encode_query_exec(&input).unwrap();
    assert_eq!(encoded, "a%20b=1%262%3D3");
}

#[test]
fn query_codec_round_trips() {
    let input = pairs(&[("a b", "1&2=3"), ("", ""), ("k", "~.-_")]);
    let encoded = encode_query_exec(&input).unwrap();
    let decoded = decode_query_exec(&encoded).unwrap();
    assert_eq!(decoded, input);
}

#[test]
fn empty_query_holds_no_pairs() {
    assert_eq!(decode_query_exec("").unwrap(), Vec::<(String, String)>::new());
    assert_eq!(encode_query_exec(&Vec::new()).unwrap(), "");
}

#[test]
fn plus_decodes_to_space() {
    assert_eq!(decode_query_exec("k=x+y").unwrap(), pairs(&[("k", "x y")]));
}

#[test]
fn escape_above_ascii_is_malformed() {
    assert_eq!(decode_query_exec("k=%ff"), Err(AuthzError::MalformedRedirectTarget));
}

#[test]
fn truncated_escape_is_malformed() {
    assert_eq!(decode_query_exec("k=%4"), Err(AuthzError::MalformedRedirectTarget));
}

#[test]
fn merge_keeps_order_and_overwrites() {
    let existing = pairs(&[("a", "1"), ("b", "2"), ("c", "3")]);
    let new_params = pairs(&[("b", "9"), ("d", "4")]);
    assert_eq!(
        merge_pairs_exec(&existing, &new_params),
        pairs(&[("a", "1"), ("c", "3"), ("b", "9"), ("d", "4")])
    );
}
