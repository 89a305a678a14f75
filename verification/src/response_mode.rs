//! Deciding which response mode an authorization request must use.
//!
//! The hard protocol rule lives here: implicit and hybrid flows (any
//! response-type set containing `token` or `id_token`) must never return
//! their parameters in a URL query string, because query strings leak
//! through referrer headers and browser history.

use vstd::prelude::*;

use crate::AuthzError;

verus! {

/// How response parameters are carried back to the client.
#[derive(Clone, Copy, PartialEq, Eq, Structural, Debug)]
pub enum ResponseMode {
    Query,
    Fragment,
    FormPost,
}

/// The set of requested response types, over `{code, token, id_token}`.
#[derive(Clone, Copy, PartialEq, Eq, Structural, Debug)]
pub struct ResponseTypeSet {
    pub code: bool,
    pub token: bool,
    pub id_token: bool,
}

impl ResponseTypeSet {
    /// A well-formed request asks for at least one response type.
    pub open spec fn non_empty(self) -> bool {
        self.code || self.token || self.id_token
    }

    /// Whether the set contains an implicit or hybrid component.
    pub open spec fn implicit_or_hybrid(self) -> bool {
        self.token || self.id_token
    }
}

/// What `resolve` returns, for every input.
pub open spec fn resolve_spec(
    response_type: ResponseTypeSet,
    suggested: Option<ResponseMode>,
) -> Result<ResponseMode, AuthzError> {
    if response_type.implicit_or_hybrid() {
        match suggested {
            None => Ok(ResponseMode::Fragment),
            Some(ResponseMode::Query) => Err(AuthzError::InvalidResponseMode),
            Some(m) => Ok(m),
        }
    } else {
        match suggested {
            None => Ok(ResponseMode::Query),
            Some(m) => Ok(m),
        }
    }
}

/// Given the requested response types and an optional suggested response
/// mode, decide which response mode must be used.
///
/// If the response types include `token` or `id_token` the default is
/// `fragment` and a suggestion of `query` is rejected; otherwise every mode
/// is allowed and the default is `query`. Pure and deterministic: safe to
/// call at several layers for idempotent validation.
pub fn resolve(
    response_type: ResponseTypeSet,
    suggested: Option<ResponseMode>,
) -> (r: Result<ResponseMode, AuthzError>)
    ensures
        r == resolve_spec(response_type, suggested),
{
    if response_type.token || response_type.id_token {
        match suggested {
            None => Ok(ResponseMode::Fragment),
            Some(ResponseMode::Query) => Err(AuthzError::InvalidResponseMode),
            Some(m) => Ok(m),
        }
    } else {
        match suggested {
            None => Ok(ResponseMode::Query),
            Some(m) => Ok(m),
        }
    }
}

/// For every response-type set with an implicit or hybrid component, an
/// explicit `query` suggestion is rejected, and no input at all resolves
/// to `query`.
pub proof fn lemma_implicit_never_query(
    response_type: ResponseTypeSet,
    suggested: Option<ResponseMode>,
)
    requires
        response_type.implicit_or_hybrid(),
    ensures
        resolve_spec(response_type, suggested) != Ok::<ResponseMode, AuthzError>(
            ResponseMode::Query,
        ),
        suggested == Some(ResponseMode::Query) ==> resolve_spec(response_type, suggested)
            == Err::<ResponseMode, AuthzError>(AuthzError::InvalidResponseMode),
{
}

/// For the response-type set `{code}` alone, resolution with no suggestion
/// yields `query`.
pub proof fn lemma_code_only_defaults_to_query(response_type: ResponseTypeSet)
    requires
        response_type.code,
        !response_type.token,
        !response_type.id_token,
    ensures
        resolve_spec(response_type, None) == Ok::<ResponseMode, AuthzError>(ResponseMode::Query),
{
}

} // verus!
