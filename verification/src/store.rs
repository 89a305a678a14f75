//! The persistence model: sessions, authorization codes and user sessions,
//! with a single transaction boundary per authorization request.
//!
//! All writes of one request are staged on a [`Transaction`] and become
//! visible atomically at [`Store::commit`]; a transaction that is dropped
//! instead leaves the store untouched, which is the rollback of this model.

use vstd::prelude::*;

use crate::freshness::UserSession;
use crate::response_mode::{ResponseMode, ResponseTypeSet};

verus! {

/// How a PKCE code challenge was derived from the verifier.
#[derive(Clone, Copy, PartialEq, Eq, Structural, Debug)]
pub enum CodeChallengeMethod {
    Plain,
    S256,
}

/// A client-supplied PKCE challenge, passed through opaquely and bound to
/// the authorization code.
pub struct PkceRequest {
    pub code_challenge_method: CodeChallengeMethod,
    pub code_challenge: String,
}

/// One pending or completed authorization transaction.
pub struct OAuth2Session {
    pub id: u64,
    /// Key of the owning end-user session; `None` means anonymous.
    pub user_session_key: Option<u64>,
    pub client_id: String,
    /// The request's scope tokens joined with single spaces, request order
    /// preserved.
    pub scope: String,
    pub state: Option<String>,
    pub nonce: Option<String>,
    /// Earliest acceptable prior-authentication instant for this request.
    pub max_auth_time: u64,
    pub response_type: ResponseTypeSet,
    pub response_mode: ResponseMode,
}

/// An issued authorization code, bound to its session and to the optional
/// PKCE challenge. Immutable once created.
pub struct AuthorizationCode {
    pub session_id: u64,
    pub code: String,
    pub pkce: Option<PkceRequest>,
}

/// First value stored under `key`, or `None`.
pub open spec fn lookup_key(s: Seq<(u64, UserSession)>, key: u64) -> Option<UserSession>
    decreases s.len(),
{
    if s.len() == 0 {
        None
    } else if s[0].0 == key {
        Some(s[0].1)
    } else {
        lookup_key(s.drop_first(), key)
    }
}

/// The durable state this core reads and writes. Sessions and codes are
/// only ever appended, and only by committing a transaction.
pub struct Store {
    pub user_sessions: Vec<(u64, UserSession)>,
    pub sessions: Vec<OAuth2Session>,
    pub codes: Vec<AuthorizationCode>,
    pub next_session_id: u64,
}

impl Store {
    /// Session ids are unique and below the allocator's next id; each code
    /// belongs to a distinct existing id.
    pub open spec fn wf(self) -> bool {
        &&& forall|i: int, j: int|
            0 <= i < j < self.sessions@.len() ==> #[trigger] self.sessions@[i].id
                != #[trigger] self.sessions@[j].id
        &&& forall|i: int|
            0 <= i < self.sessions@.len() ==> #[trigger] self.sessions@[i].id
                < self.next_session_id
        &&& forall|i: int, j: int|
            0 <= i < j < self.codes@.len() ==> #[trigger] self.codes@[i].session_id
                != #[trigger] self.codes@[j].session_id
        &&& forall|i: int|
            0 <= i < self.codes@.len() ==> #[trigger] self.codes@[i].session_id
                < self.next_session_id
    }

    /// The user session stored under `key`, if any.
    pub open spec fn user_session_at(self, key: Option<u64>) -> Option<UserSession> {
        match key {
            None => None,
            Some(k) => lookup_key(self.user_sessions@, k),
        }
    }

    /// An empty store.
    pub fn new() -> (s: Store)
        ensures
            s.wf(),
            s.user_sessions@ == Seq::<(u64, UserSession)>::empty(),
            s.sessions@ == Seq::<OAuth2Session>::empty(),
            s.codes@ == Seq::<AuthorizationCode>::empty(),
            s.next_session_id == 0,
    {
        Store { user_sessions: Vec::new(), sessions: Vec::new(), codes: Vec::new(), next_session_id: 0 }
    }

    /// Record an end-user authentication session. Keys are never reused.
    pub fn add_user_session(&mut self, key: u64, session: UserSession)
        requires
            old(self).wf(),
            lookup_key(old(self).user_sessions@, key) is None,
        ensures
            final(self).wf(),
            final(self).user_sessions@ == old(self).user_sessions@.push((key, session)),
            final(self).sessions@ == old(self).sessions@,
            final(self).codes@ == old(self).codes@,
            final(self).next_session_id == old(self).next_session_id,
    {
        self.user_sessions.push((key, session));
    }

    /// Read-only lookup of the user session linked to an authorization
    /// request, by the key captured when the session was created.
    pub fn fetch_user_session(&self, key: u64) -> (r: Option<UserSession>)
        ensures
            r == lookup_key(self.user_sessions@, key),
    {
        let n = self.user_sessions.len();
        let mut i: usize = 0;
        proof {
            assert(self.user_sessions@.skip(0) =~= self.user_sessions@);
        }
        while i < n
            invariant
                n == self.user_sessions@.len(),
                0 <= i <= n,
                lookup_key(self.user_sessions@, key) == lookup_key(
                    self.user_sessions@.skip(i as int),
                    key,
                ),
            decreases n - i,
        {
            let entry = self.user_sessions[i];
            proof {
                assert(self.user_sessions@.skip(i as int)[0] == self.user_sessions@[i as int]);
                assert(self.user_sessions@.skip(i as int).drop_first() =~= self.user_sessions@.skip(
                    i as int + 1,
                ));
            }
            if entry.0 == key {
                return Some(entry.1);
            }
            i = i + 1;
        }
        proof {
            assert(self.user_sessions@.skip(n as int) =~= Seq::<(u64, UserSession)>::empty());
        }
        None
    }

    /// Open the transaction for one authorization request.
    pub fn begin(&self) -> (t: Transaction)
        requires
            self.wf(),
        ensures
            t.session_id == self.next_session_id,
            t.pending_session is None,
            t.pending_code is None,
    {
        Transaction { session_id: self.next_session_id, pending_session: None, pending_code: None }
    }

    /// Apply a transaction's staged writes atomically. Nothing staged on a
    /// transaction is visible before this call.
    pub fn commit(&mut self, txn: Transaction)
        requires
            old(self).wf(),
            old(self).next_session_id < 0xffff_ffff_ffff_ffff,
            txn.session_id == old(self).next_session_id,
            txn.pending_session matches Some(s) ==> s.id == txn.session_id,
            txn.pending_code matches Some(c) ==> c.session_id == txn.session_id
                && txn.pending_session is Some,
        ensures
            final(self).wf(),
            final(self).user_sessions@ == old(self).user_sessions@,
            match txn.pending_session {
                Some(s) => final(self).sessions@ == old(self).sessions@.push(s)
                    && final(self).next_session_id == old(self).next_session_id + 1,
                None => final(self).sessions@ == old(self).sessions@
                    && final(self).next_session_id == old(self).next_session_id,
            },
            match txn.pending_code {
                Some(c) => final(self).codes@ == old(self).codes@.push(c),
                None => final(self).codes@ == old(self).codes@,
            },
    {
        let Transaction { session_id, pending_session, pending_code } = txn;
        match pending_session {
            Some(s) => {
                self.sessions.push(s);
                self.next_session_id = self.next_session_id + 1;
            },
            None => {},
        }
        match pending_code {
            Some(c) => {
                self.codes.push(c);
            },
            None => {},
        }
    }
}

/// The staged writes of one authorization request. At most one session and
/// one code are ever created per request.
pub struct Transaction {
    /// The id the staged session will take at commit.
    pub session_id: u64,
    pub pending_session: Option<OAuth2Session>,
    pub pending_code: Option<AuthorizationCode>,
}

impl Transaction {
    /// Stage the session record for this request.
    pub fn start_session(&mut self, session: OAuth2Session)
        requires
            old(self).pending_session is None,
            session.id == old(self).session_id,
        ensures
            final(self).session_id == old(self).session_id,
            final(self).pending_session == Some(session),
            final(self).pending_code == old(self).pending_code,
    {
        self.pending_session = Some(session);
    }
}

} // verus!
