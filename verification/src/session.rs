//! Customer sessions: token lifetimes, checked against a
//! caller-supplied clock.

use vstd::prelude::*;

verus! {

/// An authenticated customer session: customer `cid` on merchant
/// `mid`, opened at `created_at` and valid until `expires_at` (Unix
/// seconds).
#[derive(Clone, Copy, Debug, PartialEq, Eq, Structural)]
pub struct Session {
    pub cid: i64,
    pub mid: i32,
    pub created_at: i64,
    pub expires_at: i64,
}

impl Session {
    /// A session opened at `now` that lasts `duration_secs`.  A
    /// negative duration yields an already-expired session.
    pub fn new(cid: i64, mid: i32, duration_secs: i64, now: i64) -> (s: Session)
        requires
            i64::MIN <= now + duration_secs <= i64::MAX,
        ensures
            s.cid == cid,
            s.mid == mid,
            s.created_at == now,
            s.expires_at == now + duration_secs,
    {
        Session { cid, mid, created_at: now, expires_at: now + duration_secs }
    }

    /// Whether the session is still valid at `now`: strictly before
    /// its expiry.
    pub fn is_valid(&self, now: i64) -> (v: bool)
        ensures
            v == (now < self.expires_at),
    {
        now < self.expires_at
    }
}

} // verus!
