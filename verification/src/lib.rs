//! Authorization-decision core of an OAuth2 / OIDC identity provider.
//!
//! The crate processes an incoming authorization request: it validates the
//! client, resolves the redirect target, decides how the response must be
//! encoded, issues an authorization code when one was requested, evaluates
//! whether the user's prior authentication is fresh enough, and builds the
//! outbound redirect (or form-post) response.
//!
//! Everything that decides is verified. The only trusted seams are the
//! wrappers around the random-byte source, the base64 encoder, and
//! `String::push`.

use vstd::prelude::*;

pub mod codec;
pub mod freshness;
pub mod issuer;
pub mod processor;
pub mod redirect;
pub mod response_mode;
pub mod store;

verus! {

/// Every way an authorization request can be rejected.
#[derive(Clone, Copy, PartialEq, Eq, Structural, Debug)]
pub enum AuthzError {
    /// The request's `client_id` is not registered.
    UnknownClient,
    /// The requested redirect URI is not among the client's registered set.
    InvalidRedirectUri,
    /// `query` response mode was suggested for an implicit or hybrid flow.
    InvalidResponseMode,
    /// The redirect URI's existing query or fragment cannot be decoded as
    /// key-value pairs.
    MalformedRedirectTarget,
    /// The response parameters cannot be serialized into a query string.
    EncodingError,
    /// The request asks for a feature (ID-token issuance) that is not
    /// implemented; the request fails fast instead of omitting the field.
    UnsupportedFeature,
}

} // verus!
