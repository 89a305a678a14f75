//! Building the outbound response: merging protocol parameters into the
//! client's redirect URI in the resolved response mode.

use vstd::prelude::*;

use crate::codec::{
    decode_query, decode_query_exec, encode_pairs, encode_query_exec, lemma_decode_encode_pairs,
    merge_pairs, merge_pairs_exec, pairs_encodable, pairs_view,
};
use crate::response_mode::ResponseMode;
use crate::AuthzError;

verus! {

/// A redirect URI, split into the components this core reads and writes.
/// `base` is everything before the query; `query` and `fragment` are the
/// raw (still encoded) components without their `?` and `#` markers.
pub struct RedirectUri {
    pub base: String,
    pub query: Option<String>,
    pub fragment: Option<String>,
}

/// View of an optional string.
pub open spec fn opt_view(o: Option<String>) -> Option<Seq<char>> {
    match o {
        None => None,
        Some(s) => Some(s@),
    }
}

/// The raw pair source of an optional component: absent means empty.
pub open spec fn component_raw(o: Option<String>) -> Seq<char> {
    match o {
        None => Seq::empty(),
        Some(s) => s@,
    }
}

impl RedirectUri {
    /// Two URIs are the same target when all three components agree.
    pub open spec fn same_target(self, other: RedirectUri) -> bool {
        self.base@ == other.base@ && opt_view(self.query) == opt_view(other.query) && opt_view(
            self.fragment,
        ) == opt_view(other.fragment)
    }

    /// The rendered form: base, then `?query`, then `#fragment`.
    pub open spec fn render_spec(self) -> Seq<char> {
        self.base@ + (match self.query {
            None => Seq::<char>::empty(),
            Some(q) => seq!['?'] + q@,
        }) + (match self.fragment {
            None => Seq::<char>::empty(),
            Some(f) => seq!['#'] + f@,
        })
    }

    /// Whether this URI names the same target as `other`.
    pub fn eq_uri(&self, other: &RedirectUri) -> (r: bool)
        ensures
            r == self.same_target(*other),
    {
        let base_eq = self.base.eq(&other.base);
        let query_eq = match (&self.query, &other.query) {
            (None, None) => true,
            (Some(a), Some(b)) => a.eq(b),
            _ => false,
        };
        let fragment_eq = match (&self.fragment, &other.fragment) {
            (None, None) => true,
            (Some(a), Some(b)) => a.eq(b),
            _ => false,
        };
        base_eq && query_eq && fragment_eq
    }

    /// Clone the URI.
    pub fn clone_uri(&self) -> (r: RedirectUri)
        ensures
            r == *self,
    {
        RedirectUri {
            base: self.base.clone(),
            query: clone_opt_string(&self.query),
            fragment: clone_opt_string(&self.fragment),
        }
    }

    /// Render the URI as a single string.
    pub fn render(&self) -> (r: String)
        ensures
            r@ == self.render_spec(),
    {
        let mut out = self.base.clone();
        match &self.query {
            None => {},
            Some(q) => {
                out.append("?");
                out.append(q.as_str());
                proof {
                    reveal_strlit("?");
                    assert("?"@ =~= seq!['?']);
                }
            },
        }
        match &self.fragment {
            None => {},
            Some(f) => {
                out.append("#");
                out.append(f.as_str());
                proof {
                    reveal_strlit("#");
                    assert("#"@ =~= seq!['#']);
                }
            },
        }
        proof {
            assert(out@ =~= self.render_spec());
        }
        out
    }
}

/// Clone an optional string.
fn clone_opt_string(o: &Option<String>) -> (r: Option<String>)
    ensures
        r == *o,
{
    match o {
        None => None,
        Some(s) => Some(s.clone()),
    }
}

/// The response value handed back to the transport layer: a closed union,
/// since the three shapes are exhaustively known here.
pub enum RenderableResponse {
    /// An HTTP 303 redirect carrying `location`.
    Redirect { location: RedirectUri },
    /// An HTML document holding an auto-submitting form whose action is
    /// the unmodified redirect URI and whose hidden fields are the
    /// protocol parameters. Rendering the document is the caller's
    /// (template) concern; this core fixes its content.
    FormPost { action: RedirectUri, fields: Vec<(String, String)> },
}

/// The full contract of `merge`, relating its result to the request URI,
/// the response mode and the parameters.
pub open spec fn merge_result_matches(
    uri: RedirectUri,
    response_mode: ResponseMode,
    params: Seq<(Seq<char>, Seq<char>)>,
    r: Result<RenderableResponse, AuthzError>,
) -> bool {
    match response_mode {
        ResponseMode::FormPost => r matches Ok(RenderableResponse::FormPost { action, fields })
            && action.same_target(uri) && pairs_view(fields@) == params,
        ResponseMode::Query => match decode_query(component_raw(uri.query)) {
            None => r == Err::<RenderableResponse, AuthzError>(AuthzError::MalformedRedirectTarget),
            Some(existing) => {
                let merged = merge_pairs(existing, params);
                if pairs_encodable(merged) {
                    r matches Ok(RenderableResponse::Redirect { location })
                        && location.base@ == uri.base@
                        && opt_view(location.fragment) == opt_view(uri.fragment)
                        && opt_view(location.query) == Some(encode_pairs(merged))
                } else {
                    r == Err::<RenderableResponse, AuthzError>(AuthzError::EncodingError)
                }
            },
        },
        ResponseMode::Fragment => match decode_query(component_raw(uri.fragment)) {
            None => r == Err::<RenderableResponse, AuthzError>(AuthzError::MalformedRedirectTarget),
            Some(existing) => {
                let merged = merge_pairs(existing, params);
                if pairs_encodable(merged) {
                    r matches Ok(RenderableResponse::Redirect { location })
                        && location.base@ == uri.base@
                        && opt_view(location.query) == opt_view(uri.query)
                        && opt_view(location.fragment) == Some(encode_pairs(merged))
                } else {
                    r == Err::<RenderableResponse, AuthzError>(AuthzError::EncodingError)
                }
            },
        },
    }
}

/// Decode an optional raw component into its pairs.
fn decode_component_pairs(o: &Option<String>) -> (r: Result<Vec<(String, String)>, AuthzError>)
    ensures
        match decode_query(component_raw(*o)) {
            Some(ps) => r matches Ok(v) && pairs_view(v@) == ps,
            None => r == Err::<Vec<(String, String)>, AuthzError>(
                AuthzError::MalformedRedirectTarget,
            ),
        },
{
    match o {
        None => {
            let v: Vec<(String, String)> = Vec::new();
            proof {
                assert(pairs_view(v@) =~= Seq::<(Seq<char>, Seq<char>)>::empty());
            }
            Ok(v)
        },
        Some(s) => decode_query_exec(s.as_str()),
    }
}

/// Merge the protocol parameters into the redirect URI in the given
/// response mode.
///
/// In `query` mode the URI's existing query is decoded, the new parameters
/// are layered on top (new keys win), and the re-encoded result replaces
/// the query; `fragment` mode does the same to the fragment and leaves the
/// query untouched. In `form_post` mode the URI is not modified at all:
/// the parameters become the hidden fields of an auto-submitting form.
pub fn merge(
    uri: &RedirectUri,
    response_mode: ResponseMode,
    params: &Vec<(String, String)>,
) -> (r: Result<RenderableResponse, AuthzError>)
    ensures
        merge_result_matches(*uri, response_mode, pairs_view(params@), r),
{
    match response_mode {
        ResponseMode::FormPost => {
            let fields = clone_params(params);
            Ok(RenderableResponse::FormPost { action: uri.clone_uri(), fields })
        },
        ResponseMode::Query => {
            match decode_component_pairs(&uri.query) {
                Err(er) => Err(er),
                Ok(existing) => {
                    let merged = merge_pairs_exec(&existing, params);
                    match encode_query_exec(&merged) {
                        Err(er) => Err(er),
                        Ok(new_query) => Ok(
                            RenderableResponse::Redirect {
                                location: RedirectUri {
                                    base: uri.base.clone(),
                                    query: Some(new_query),
                                    fragment: clone_opt_string(&uri.fragment),
                                },
                            },
                        ),
                    }
                },
            }
        },
        ResponseMode::Fragment => {
            match decode_component_pairs(&uri.fragment) {
                Err(er) => Err(er),
                Ok(existing) => {
                    let merged = merge_pairs_exec(&existing, params);
                    match encode_query_exec(&merged) {
                        Err(er) => Err(er),
                        Ok(new_fragment) => Ok(
                            RenderableResponse::Redirect {
                                location: RedirectUri {
                                    base: uri.base.clone(),
                                    query: clone_opt_string(&uri.query),
                                    fragment: Some(new_fragment),
                                },
                            },
                        ),
                    }
                },
            }
        },
    }
}

/// Clone a parameter list.
fn clone_params(ps: &Vec<(String, String)>) -> (r: Vec<(String, String)>)
    ensures
        r@ == ps@,
{
    let n = ps.len();
    let mut out: Vec<(String, String)> = Vec::new();
    let mut i: usize = 0;
    while i < n
        invariant
            n == ps@.len(),
            0 <= i <= n,
            out@ == ps@.take(i as int),
        decreases n - i,
    {
        let pair = (ps[i].0.clone(), ps[i].1.clone());
        out.push(pair);
        proof {
            assert(pair == ps@[i as int]);
            assert(ps@.take(i as int + 1) =~= ps@.take(i as int).push(ps@[i as int]));
        }
        i = i + 1;
    }
    proof {
        assert(ps@.take(n as int) =~= ps@);
    }
    out
}

/// A successful `query`-mode merge yields a location whose query decodes
/// to exactly the surviving existing pairs followed by the new parameters:
/// existing keys persist, colliding keys carry the new value.
pub proof fn lemma_merged_query_decodes_to_merge(
    uri: RedirectUri,
    params: Seq<(Seq<char>, Seq<char>)>,
    r: Result<RenderableResponse, AuthzError>,
)
    requires
        merge_result_matches(uri, ResponseMode::Query, params, r),
        r is Ok,
    ensures
        r matches Ok(RenderableResponse::Redirect { location }) && decode_query(
            component_raw(location.query),
        ) == Some(
            merge_pairs(decode_query(component_raw(uri.query)).unwrap(), params),
        ),
{
    let existing = decode_query(component_raw(uri.query)).unwrap();
    let merged = merge_pairs(existing, params);
    lemma_decode_encode_pairs(merged);
}

/// In `fragment` mode a successful merge never touches the query
/// component, and in `query` mode never the fragment; `form_post` touches
/// neither.
pub proof fn lemma_merge_preserves_other_component(
    uri: RedirectUri,
    response_mode: ResponseMode,
    params: Seq<(Seq<char>, Seq<char>)>,
    r: Result<RenderableResponse, AuthzError>,
)
    requires
        merge_result_matches(uri, response_mode, params, r),
    ensures
        response_mode == ResponseMode::Fragment ==> (r matches Ok(
            RenderableResponse::Redirect { location },
        ) ==> opt_view(location.query) == opt_view(uri.query)),
        response_mode == ResponseMode::Query ==> (r matches Ok(
            RenderableResponse::Redirect { location },
        ) ==> opt_view(location.fragment) == opt_view(uri.fragment)),
        response_mode == ResponseMode::FormPost ==> (r matches Ok(
            RenderableResponse::FormPost { action, fields },
        ) ==> opt_view(action.query) == opt_view(uri.query) && opt_view(action.fragment)
            == opt_view(uri.fragment)),
{
}

} // verus!
