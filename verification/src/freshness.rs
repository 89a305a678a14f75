//! Deciding whether a user's prior authentication is fresh enough to skip
//! interactive login.

use vstd::prelude::*;

verus! {

/// An end-user authentication session. This crate only reads it.
#[derive(Clone, Copy, PartialEq, Eq, Structural, Debug)]
pub struct UserSession {
    /// Whether the session is still active.
    pub active: bool,
    /// Seconds since the epoch of the user's last interactive authentication.
    pub last_authd_at: u64,
}

/// What `is_fresh` returns: a prior authentication qualifies only when a
/// session exists, it is active, and it is no older than `max_auth_time`.
pub open spec fn is_fresh_spec(user_session: Option<UserSession>, max_auth_time: u64) -> bool {
    match user_session {
        None => false,
        Some(s) => s.active && s.last_authd_at >= max_auth_time,
    }
}

/// The earliest acceptable authentication instant for a request: `now`
/// minus the requested `max_age`, saturating at the epoch, or the epoch
/// itself when no `max_age` was supplied (any prior authentication, however
/// old, then qualifies).
pub open spec fn max_auth_time_spec(now: u64, max_age: Option<u64>) -> u64 {
    match max_age {
        None => 0u64,
        Some(age) => if now >= age {
            (now - age) as u64
        } else {
            0u64
        },
    }
}

/// Derive the freshness deadline for a request received at `now`.
pub fn compute_max_auth_time(now: u64, max_age: Option<u64>) -> (r: u64)
    ensures
        r == max_auth_time_spec(now, max_age),
{
    match max_age {
        None => 0u64,
        Some(age) => if now >= age {
            now - age
        } else {
            0u64
        },
    }
}

/// Decide whether the user may skip interactive login. Returns `false`
/// uniformly for "no session", "inactive session" and "stale session":
/// the caller only learns that interactive authentication is required.
pub fn is_fresh(user_session: Option<UserSession>, max_auth_time: u64) -> (r: bool)
    ensures
        r == is_fresh_spec(user_session, max_auth_time),
{
    match user_session {
        None => false,
        Some(s) => s.active && s.last_authd_at >= max_auth_time,
    }
}

/// Freshness holds exactly when all three conditions hold, and fails for
/// each of: no session, an inactive session, a stale session.
pub proof fn lemma_freshness_requires_all_three(
    user_session: Option<UserSession>,
    max_auth_time: u64,
)
    ensures
        user_session is None ==> !is_fresh_spec(user_session, max_auth_time),
        (user_session matches Some(s) && !s.active) ==> !is_fresh_spec(
            user_session,
            max_auth_time,
        ),
        (user_session matches Some(s) && s.last_authd_at < max_auth_time) ==> !is_fresh_spec(
            user_session,
            max_auth_time,
        ),
        is_fresh_spec(user_session, max_auth_time) <==> (user_session matches Some(s) && s.active
            && s.last_authd_at >= max_auth_time),
{
}

} // verus!
