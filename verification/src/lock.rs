//! Advisory, time-boxed mutual-exclusion state for one document.
//!
//! A lock is plain data — holder identity, acquisition instant, expiry
//! instant — checked by comparison against an injected clock reading, never
//! an OS lock primitive. An expired lock is treated exactly as an absent one,
//! which is how crashed or abandoned editors are tolerated.

use vstd::prelude::*;

verus! {

/// Lock fields embedded in a document record. `acquired_at` and `expires_at`
/// are meaningful only while `holder` is present.
pub struct LockState {
    pub holder: Option<String>,
    pub acquired_at: u64,
    pub expires_at: u64,
}

/// Expiry instant for a grant at `now` with time-to-live `ttl`, clamped to
/// the end of representable time.
pub open spec fn expiry_at(now: u64, ttl: u64) -> u64 {
    if now + ttl <= u64::MAX {
        (now + ttl) as u64
    } else {
        u64::MAX
    }
}

impl LockState {
    /// No holder recorded at all.
    pub open spec fn is_unlocked(self) -> bool {
        self.holder is None
    }

    pub open spec fn wf(self) -> bool {
        self.holder is Some ==> self.acquired_at <= self.expires_at
    }

    /// `who` holds this lock and it has not yet expired at `now`.
    pub open spec fn held_by(self, who: Seq<char>, now: u64) -> bool {
        &&& self.holder is Some
        &&& self.holder->0@ == who
        &&& now < self.expires_at
    }

    /// An acquire by `who` at `now` would be granted: the lock is free, or
    /// has expired, or `who` already holds it (idempotent re-acquire).
    pub open spec fn grantable_to(self, who: Seq<char>, now: u64) -> bool {
        ||| self.holder is None
        ||| now >= self.expires_at
        ||| self.holder->0@ == who
    }

    /// A fresh, unheld lock.
    pub fn new_unlocked() -> (r: LockState)
        ensures
            r.is_unlocked(),
            r.wf(),
    {
        LockState { holder: None, acquired_at: 0, expires_at: 0 }
    }

    /// Tries to claim the lock for `editor` for `ttl` seconds, reading the
    /// clock once as `now`. Fails fast on contention: a live lock held by a
    /// different identity yields `false` and leaves the state untouched.
    pub fn acquire(&mut self, editor: &str, ttl: u64, now: u64) -> (granted: bool)
        ensures
            granted == old(self).grantable_to(editor@, now),
            granted ==> final(self).holder is Some
                && final(self).holder->0@ == editor@
                && final(self).acquired_at == now
                && final(self).expires_at == expiry_at(now, ttl),
            !granted ==> *final(self) == *old(self),
            old(self).wf() ==> final(self).wf(),
    {
        let granted = match &self.holder {
            None => true,
            Some(h) => now >= self.expires_at || crate::text::str_eq(h.as_str(), editor),
        };
        if granted {
            self.holder = Some(editor.to_owned());
            self.acquired_at = now;
            self.expires_at = now.saturating_add(ttl);
        }
        granted
    }

    /// Extends the expiry from `now` — not from the previous expiry, so late
    /// renewal accumulates no drift. Succeeds only for the current,
    /// non-expired holder; "not locked by you" and "expired out from under
    /// you" both surface as the same recoverable conflict.
    pub fn renew(&mut self, editor: &str, ttl: u64, now: u64) -> (renewed: bool)
        ensures
            renewed == old(self).held_by(editor@, now),
            renewed ==> final(self).holder == old(self).holder
                && final(self).acquired_at == old(self).acquired_at
                && final(self).expires_at == expiry_at(now, ttl),
            !renewed ==> *final(self) == *old(self),
            old(self).wf() && old(self).acquired_at <= now ==> final(self).wf(),
    {
        let renewed = match &self.holder {
            None => false,
            Some(h) => now < self.expires_at && crate::text::str_eq(h.as_str(), editor),
        };
        if renewed {
            self.expires_at = now.saturating_add(ttl);
        }
        renewed
    }

    /// A field-for-field copy of this lock state.
    pub fn duplicate(&self) -> (r: LockState)
        ensures
            r == *self,
    {
        LockState {
            holder: match &self.holder {
                None => None,
                Some(h) => Some(h.clone()),
            },
            acquired_at: self.acquired_at,
            expires_at: self.expires_at,
        }
    }

    /// Unconditionally clears the holder and timestamps.
    pub fn release(&mut self)
        ensures
            final(self).is_unlocked(),
            final(self).wf(),
    {
        self.holder = None;
        self.acquired_at = 0;
        self.expires_at = 0;
    }
}

/// At any instant, at most one identity holds a non-expired lock: two
/// holders of the same lock state are the same identity.
pub proof fn lemma_lock_exclusive(s: LockState, a: Seq<char>, b: Seq<char>, now: u64)
    requires
        s.held_by(a, now),
        s.held_by(b, now),
    ensures
        a == b,
{
}

/// Re-acquire by the current non-expired holder always succeeds.
pub proof fn lemma_reacquire_idempotent(s: LockState, who: Seq<char>, now: u64)
    requires
        s.held_by(who, now),
    ensures
        s.grantable_to(who, now),
{
}

/// Once the expiry has passed with no renewal, an acquire by any identity —
/// in particular a different one — succeeds.
pub proof fn lemma_expired_lock_grantable(s: LockState, other: Seq<char>, now: u64)
    requires
        now >= s.expires_at,
    ensures
        s.grantable_to(other, now),
{
}

} // verus!
