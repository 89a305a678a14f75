//! The authorization-request orchestrator: validates the client, resolves
//! the redirect target, decides the response mode, creates the session and
//! the optional authorization code inside one transaction, evaluates
//! authentication freshness, and either builds the final response or
//! signals that interactive authentication is required.

use vstd::prelude::*;

use crate::codec::pairs_view;
use crate::freshness::{compute_max_auth_time, is_fresh, is_fresh_spec, max_auth_time_spec};
use crate::issuer::{is_base64url_char, issue};
use crate::redirect::{merge, merge_result_matches, opt_view, RedirectUri, RenderableResponse};
use crate::response_mode::{resolve, resolve_spec, ResponseMode, ResponseTypeSet};
use crate::store::{AuthorizationCode, OAuth2Session, PkceRequest, Store};
use crate::AuthzError;

verus! {

/// A client known to the server: its id and its registered redirect URIs.
/// The registry is read-only configuration, shared by every request.
pub struct RegisteredClient {
    pub client_id: String,
    pub redirect_uris: Vec<RedirectUri>,
}

/// The inbound, untrusted authorization request.
pub struct AuthorizationRequest {
    pub client_id: String,
    pub redirect_uri: Option<RedirectUri>,
    pub response_type: ResponseTypeSet,
    pub response_mode: Option<ResponseMode>,
    /// Opaque scope tokens, in request order.
    pub scope: Vec<String>,
    /// Echoed verbatim in the response when present, never synthesized.
    pub state: Option<String>,
    pub nonce: Option<String>,
    /// Maximum acceptable age of the user's prior authentication, seconds.
    pub max_age: Option<u64>,
}

/// How one request ends when it is not rejected.
pub enum Outcome {
    /// The final redirect or form post.
    CompletedRedirect(RenderableResponse),
    /// Interactive authentication is required. The pending session and
    /// code were committed so the login step can resume them; the payload
    /// is a diagnostic placeholder, not a stable contract.
    CompletedAwaiting { session_id: u64, code: Option<String>, redirect_uri: RedirectUri },
}

/// The first registered client with the given id.
pub open spec fn find_client(
    clients: Seq<RegisteredClient>,
    client_id: Seq<char>,
) -> Option<RegisteredClient>
    decreases clients.len(),
{
    if clients.len() == 0 {
        None
    } else if clients[0].client_id@ == client_id {
        Some(clients[0])
    } else {
        find_client(clients.drop_first(), client_id)
    }
}

/// Whether some registered URI names the same target as `u`.
pub open spec fn uri_registered(uris: Seq<RedirectUri>, u: RedirectUri) -> bool {
    exists|i: int| 0 <= i < uris.len() && (#[trigger] uris[i]).same_target(u)
}

/// The redirect target of a request: the requested URI when it is
/// registered, the client's sole registered URI when the request omitted
/// one, and nothing otherwise. A client with several registered URIs and
/// no requested one is rejected: no default is guessed.
pub open spec fn resolve_redirect_spec(
    client: RegisteredClient,
    requested: Option<RedirectUri>,
) -> Option<RedirectUri> {
    match requested {
        Some(u) => if uri_registered(client.redirect_uris@, u) {
            Some(u)
        } else {
            None
        },
        None => if client.redirect_uris@.len() == 1 {
            Some(client.redirect_uris@[0])
        } else {
            None
        },
    }
}

/// Views of a list of strings.
pub open spec fn string_views(v: Seq<String>) -> Seq<Seq<char>> {
    Seq::new(v.len(), |i: int| v[i]@)
}

/// Scope tokens joined with single spaces, request order preserved.
pub open spec fn join_scope_spec(scope: Seq<Seq<char>>) -> Seq<char>
    decreases scope.len(),
{
    if scope.len() == 0 {
        Seq::empty()
    } else if scope.len() == 1 {
        scope[0]
    } else {
        scope[0] + seq![' '] + join_scope_spec(scope.drop_first())
    }
}

/// The protocol parameters of a completed response, in order: `code`,
/// `access_token`, `state`, each only when present.
pub open spec fn response_params_spec(
    code: Option<Seq<char>>,
    access_token: Option<Seq<char>>,
    state: Option<Seq<char>>,
) -> Seq<(Seq<char>, Seq<char>)> {
    (match code {
        None => Seq::<(Seq<char>, Seq<char>)>::empty(),
        Some(c) => seq![("code"@, c)],
    }) + (match access_token {
        None => Seq::<(Seq<char>, Seq<char>)>::empty(),
        Some(t) => seq![("access_token"@, t)],
    }) + (match state {
        None => Seq::<(Seq<char>, Seq<char>)>::empty(),
        Some(s) => seq![("state"@, s)],
    })
}

/// The validation phase: unknown client, then unresolvable redirect, then
/// illegal response mode, in that order; otherwise the matched client,
/// the redirect target and the resolved mode.
pub open spec fn validation_of(
    clients: Seq<RegisteredClient>,
    request: AuthorizationRequest,
) -> Result<(RegisteredClient, RedirectUri, ResponseMode), AuthzError> {
    match find_client(clients, request.client_id@) {
        None => Err(AuthzError::UnknownClient),
        Some(client) => match resolve_redirect_spec(client, request.redirect_uri) {
            None => Err(AuthzError::InvalidRedirectUri),
            Some(uri) => match resolve_spec(request.response_type, request.response_mode) {
                Err(e) => Err(e),
                Ok(mode) => Ok((client, uri, mode)),
            },
        },
    }
}

/// The session record a committed request stores.
pub open spec fn session_matches(
    s: OAuth2Session,
    request: AuthorizationRequest,
    user_session_key: Option<u64>,
    now: u64,
    id: u64,
    mode: ResponseMode,
) -> bool {
    &&& s.id == id
    &&& s.user_session_key == user_session_key
    &&& s.client_id@ == request.client_id@
    &&& s.scope@ == join_scope_spec(string_views(request.scope@))
    &&& opt_view(s.state) == opt_view(request.state)
    &&& opt_view(s.nonce) == opt_view(request.nonce)
    &&& s.max_auth_time == max_auth_time_spec(now, request.max_age)
    &&& s.response_type == request.response_type
    &&& s.response_mode == mode
}

/// The code record a committed code-issuing request stores.
pub open spec fn code_matches(c: AuthorizationCode, session_id: u64, pkce: Option<
    PkceRequest,
>) -> bool {
    &&& c.session_id == session_id
    &&& c.code@.len() == 32
    &&& forall|i: int| 0 <= i < c.code@.len() ==> is_base64url_char(#[trigger] c.code@[i])
    &&& c.pkce == pkce
}

/// No row of any kind became visible.
pub open spec fn store_unchanged(s: Store, prior: Store) -> bool {
    &&& s.user_sessions@ == prior.user_sessions@
    &&& s.sessions@ == prior.sessions@
    &&& s.codes@ == prior.codes@
    &&& s.next_session_id == prior.next_session_id
}

/// Exactly one session — and one code iff the request asked for one —
/// became visible, atomically.
pub open spec fn store_committed(
    s: Store,
    prior: Store,
    request: AuthorizationRequest,
    user_session_key: Option<u64>,
    now: u64,
    mode: ResponseMode,
    pkce: Option<PkceRequest>,
) -> bool {
    &&& s.user_sessions@ == prior.user_sessions@
    &&& s.sessions@.len() == prior.sessions@.len() + 1
    &&& s.sessions@ == prior.sessions@.push(s.sessions@.last())
    &&& session_matches(
        s.sessions@.last(),
        request,
        user_session_key,
        now,
        prior.next_session_id,
        mode,
    )
    &&& s.next_session_id == prior.next_session_id + 1
    &&& if request.response_type.code {
        &&& s.codes@.len() == prior.codes@.len() + 1
        &&& s.codes@ == prior.codes@.push(s.codes@.last())
        &&& code_matches(s.codes@.last(), prior.next_session_id, pkce)
    } else {
        s.codes@ == prior.codes@
    }
}

/// The first registered client with the given id, as an index.
fn find_client_from(clients: &Vec<RegisteredClient>, from: usize, client_id: &String) -> (r:
    Option<usize>)
    requires
        from as int <= clients@.len(),
    ensures
        match r {
            Some(i) => from <= i && (i as int) < clients@.len() && find_client(
                clients@.skip(from as int),
                client_id@,
            ) == Some(clients@[i as int]),
            None => find_client(clients@.skip(from as int), client_id@) is None,
        },
    decreases clients@.len() - from,
{
    let ghost suffix = clients@.skip(from as int);
    if from == clients.len() {
        proof {
            assert(suffix =~= Seq::<RegisteredClient>::empty());
        }
        None
    } else {
        proof {
            assert(suffix[0] == clients@[from as int]);
            assert(suffix.drop_first() =~= clients@.skip(from as int + 1));
        }
        if clients[from].client_id.eq(client_id) {
            Some(from)
        } else {
            find_client_from(clients, from + 1, client_id)
        }
    }
}

/// Whether some registered URI names the same target as `u`.
fn uri_registered_exec(uris: &Vec<RedirectUri>, u: &RedirectUri) -> (r: bool)
    ensures
        r == uri_registered(uris@, *u),
{
    let n = uris.len();
    let mut i: usize = 0;
    while i < n
        invariant
            n == uris@.len(),
            0 <= i <= n,
            forall|j: int| 0 <= j < i ==> !(#[trigger] uris@[j]).same_target(*u),
        decreases n - i,
    {
        if uris[i].eq_uri(u) {
            return true;
        }
        i = i + 1;
    }
    false
}

/// Resolve the request's redirect target against the client's registered
/// set. Must succeed before any transaction is opened and before any
/// response is built: an unresolvable target never receives a redirect.
pub fn resolve_redirect_uri(client: &RegisteredClient, requested: &Option<RedirectUri>) -> (r:
    Option<RedirectUri>)
    ensures
        r == resolve_redirect_spec(*client, *requested),
{
    match requested {
        Some(u) => {
            if uri_registered_exec(&client.redirect_uris, u) {
                Some(u.clone_uri())
            } else {
                None
            }
        },
        None => {
            if client.redirect_uris.len() == 1 {
                Some(client.redirect_uris[0].clone_uri())
            } else {
                None
            }
        },
    }
}

/// Join the scope tokens of `scope` from `i` on with single spaces.
fn join_scope_from(scope: &Vec<String>, i: usize) -> (r: String)
    requires
        i as int <= scope@.len(),
    ensures
        r@ == join_scope_spec(string_views(scope@).skip(i as int)),
    decreases scope@.len() - i,
{
    let ghost suffix = string_views(scope@).skip(i as int);
    if i == scope.len() {
        proof {
            assert(suffix =~= Seq::<Seq<char>>::empty());
        }
        String::new()
    } else {
        let mut out = scope[i].clone();
        proof {
            assert(suffix[0] == scope@[i as int]@);
            assert(suffix.drop_first() =~= string_views(scope@).skip(i as int + 1));
        }
        if i + 1 == scope.len() {
            proof {
                assert(suffix.len() == 1);
            }
            out
        } else {
            let rest = join_scope_from(scope, i + 1);
            out.append(" ");
            out.append(rest.as_str());
            proof {
                reveal_strlit(" ");
                assert(" "@ =~= seq![' ']);
                assert(suffix.len() > 1);
                assert(out@ =~= suffix[0] + seq![' '] + join_scope_spec(suffix.drop_first()));
            }
            out
        }
    }
}

/// The canonical scope string: tokens joined with single spaces, request
/// order preserved.
pub fn join_scope(scope: &Vec<String>) -> (r: String)
    ensures
        r@ == join_scope_spec(string_views(scope@)),
{
    proof {
        assert(string_views(scope@).skip(0) =~= string_views(scope@));
    }
    join_scope_from(scope, 0)
}

/// Clone an optional string.
fn clone_opt(o: &Option<String>) -> (r: Option<String>)
    ensures
        r == *o,
{
    match o {
        None => None,
        Some(s) => Some(s.clone()),
    }
}

/// Process one authorization request against the client registry and the
/// store, with `now` the arrival instant and `access_token_value` the
/// opaque bearer value a `token` response would carry (its construction
/// is outside this core).
///
/// Rejections for an unknown client, an unresolvable redirect URI or an
/// illegal response mode leave the store untouched, as does the fail-fast
/// rejection of the unimplemented `id_token` issuance. Every other path
/// commits exactly one session, plus one bound code iff `code` was
/// requested. A fresh, active user session yields the final response;
/// anything else yields `CompletedAwaiting`.
pub fn process(
    clients: &Vec<RegisteredClient>,
    store: &mut Store,
    request: &AuthorizationRequest,
    pkce: Option<PkceRequest>,
    user_session_key: Option<u64>,
    now: u64,
    access_token_value: &String,
) -> (r: Result<Outcome, AuthzError>)
    requires
        old(store).wf(),
        request.response_type.non_empty(),
        old(store).next_session_id < 0xffff_ffff_ffff_ffff,
    ensures
        (*final(store)).wf(),
        match validation_of(clients@, *request) {
            Err(e) => r == Err::<Outcome, AuthzError>(e) && store_unchanged(
                (*final(store)),
                *old(store),
            ),
            Ok((client, ruri, mode)) => {
                let fresh = is_fresh_spec(
                    old(store).user_session_at(user_session_key),
                    max_auth_time_spec(now, request.max_age),
                );
                if !fresh {
                    &&& store_committed(
                        (*final(store)),
                        *old(store),
                        *request,
                        user_session_key,
                        now,
                        mode,
                        pkce,
                    )
                    &&& r matches Ok(Outcome::CompletedAwaiting { session_id, code, redirect_uri })
                        && session_id == old(store).next_session_id && redirect_uri.same_target(
                        ruri,
                    ) && (match code {
                        Some(c) => request.response_type.code
                            && c@ == (*final(store)).codes@.last().code@,
                        None => !request.response_type.code,
                    })
                } else if request.response_type.id_token {
                    r == Err::<Outcome, AuthzError>(AuthzError::UnsupportedFeature)
                        && store_unchanged((*final(store)), *old(store))
                } else {
                    &&& store_committed(
                        (*final(store)),
                        *old(store),
                        *request,
                        user_session_key,
                        now,
                        mode,
                        pkce,
                    )
                    &&& {
                        let rparams = response_params_spec(
                            if request.response_type.code {
                                Some((*final(store)).codes@.last().code@)
                            } else {
                                None
                            },
                            if request.response_type.token {
                                Some(access_token_value@)
                            } else {
                                None
                            },
                            opt_view(request.state),
                        );
                        &&& (r matches Ok(o) ==> o matches Outcome::CompletedRedirect(resp)
                            && merge_result_matches(ruri, mode, rparams, Ok(resp)))
                        &&& (r matches Err(e) ==> (e == AuthzError::MalformedRedirectTarget || e
                            == AuthzError::EncodingError) && merge_result_matches(
                            ruri,
                            mode,
                            rparams,
                            Err(e),
                        ))
                    }
                }
            },
        },
{
    proof {
        assert(clients@.skip(0) =~= clients@);
    }
    // 1. Validate the client: unknown ids are rejected before anything
    //    else, and never echoed into a redirect.
    let client_index = match find_client_from(clients, 0, &request.client_id) {
        None => {
            return Err(AuthzError::UnknownClient);
        },
        Some(i) => i,
    };
    let client = &clients[client_index];

    // 2. Resolve the redirect target, before any transaction and before
    //    any response is built (open-redirect prevention).
    let resolved_uri = match resolve_redirect_uri(client, &request.redirect_uri) {
        None => {
            return Err(AuthzError::InvalidRedirectUri);
        },
        Some(u) => u,
    };

    // 3. Resolve the response mode; an illegal suggestion is rejected,
    //    never downgraded.
    let mode = match resolve(request.response_type, request.response_mode) {
        Err(e) => {
            return Err(e);
        },
        Ok(m) => m,
    };

    // 4. Open the transaction; every following write stays invisible
    //    until commit.
    let mut txn = store.begin();
    let session_id = txn.session_id;

    // 5. Normalize the scope and create the session record.
    let max_auth_time = compute_max_auth_time(now, request.max_age);
    let session = OAuth2Session {
        id: session_id,
        user_session_key,
        client_id: request.client_id.clone(),
        scope: join_scope(&request.scope),
        state: clone_opt(&request.state),
        nonce: clone_opt(&request.nonce),
        max_auth_time,
        response_type: request.response_type,
        response_mode: mode,
    };
    txn.start_session(session);

    // 6. Issue the authorization code iff one was requested.
    let code = if request.response_type.code {
        Some(issue(&mut txn, pkce))
    } else {
        None
    };

    // 7. Fetch the linked user session and evaluate freshness.
    let user_session = match user_session_key {
        None => None,
        Some(k) => store.fetch_user_session(k),
    };
    let fresh = is_fresh(user_session, max_auth_time);

    if !fresh {
        // Interactive authentication is required. Commit so the pending
        // session and code can be resumed by the (out-of-scope) login
        // step, and surface the diagnostic payload.
        let code_str = match &code {
            None => None,
            Some(c) => Some(c.code.clone()),
        };
        store.commit(txn);
        return Ok(
            Outcome::CompletedAwaiting { session_id, code: code_str, redirect_uri: resolved_uri },
        );
    }

    if request.response_type.id_token {
        // ID-token issuance is not implemented; fail fast rather than
        // omit the field. Dropping the transaction rolls it back.
        return Err(AuthzError::UnsupportedFeature);
    }

    // 8. Assemble the response parameters: code, access token, state,
    //    each only when owed.
    let mut params: Vec<(String, String)> = Vec::new();
    match &code {
        None => {},
        Some(c) => {
            params.push((String::from_str("code"), c.code.clone()));
        },
    }
    if request.response_type.token {
        // Placeholder contract: the caller supplies the opaque bearer
        // value; generating one is outside this core.
        params.push((String::from_str("access_token"), access_token_value.clone()));
    }
    match &request.state {
        None => {},
        Some(st) => {
            params.push((String::from_str("state"), st.clone()));
        },
    }
    proof {
        assert(pairs_view(params@) =~= response_params_spec(
            match code {
                Some(c) => Some(c.code@),
                None => None,
            },
            if request.response_type.token {
                Some(access_token_value@)
            } else {
                None
            },
            opt_view(request.state),
        ));
    }

    // 9. Commit, then build the outbound response.
    store.commit(txn);
    match merge(&resolved_uri, mode, &params) {
        Ok(resp) => Ok(Outcome::CompletedRedirect(resp)),
        Err(e) => Err(e),
    }
}

} // verus!

