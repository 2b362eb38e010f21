//! The admission controller: a counting permit pool sized to the configured
//! connection limit. A session holds exactly one permit from accept to
//! termination, so the number of active sessions never exceeds the limit,
//! and a refused attempt is admitted only after some permit is released.

use vstd::prelude::*;

verus! {

/// The process-wide permit pool: `max` is the admission limit it was
/// created with, `active` the number of permits currently held.
pub struct PermitPool {
    pub max: usize,
    pub active: usize,
}

/// The pool's invariant: never more active sessions than the limit.
pub open spec fn pool_wf(p: PermitPool) -> bool {
    p.active <= p.max
}

/// A fresh pool with every permit free.
pub open spec fn spec_new_pool(max: usize) -> PermitPool {
    PermitPool { max, active: 0 }
}

/// One admission attempt: granted, taking a permit, exactly when a permit
/// is free; a full pool refuses and is left unchanged.
pub open spec fn spec_try_acquire(p: PermitPool) -> (PermitPool, bool) {
    if p.active < p.max {
        (PermitPool { max: p.max, active: (p.active + 1) as usize }, true)
    } else {
        (p, false)
    }
}

/// Returning the one permit a terminating session held.
pub open spec fn spec_release(p: PermitPool) -> PermitPool {
    PermitPool { max: p.max, active: (p.active - 1) as usize }
}

/// The pool after `n` admission attempts.
pub open spec fn spec_attempts(p: PermitPool, n: nat) -> PermitPool
    decreases n,
{
    if n == 0 {
        p
    } else {
        spec_try_acquire(spec_attempts(p, (n - 1) as nat)).0
    }
}

impl PermitPool {
    /// A pool sized to the configured connection limit, all permits free.
    pub fn new(max: usize) -> (r: PermitPool)
        ensures
            r == spec_new_pool(max),
            pool_wf(r),
    {
        PermitPool { max, active: 0 }
    }

    /// Attempts one admission; grants it exactly when a permit is free.
    pub fn try_acquire(&mut self) -> (r: bool)
        ensures
            *final(self) == spec_try_acquire(*old(self)).0,
            r == spec_try_acquire(*old(self)).1,
            r == (old(self).active < old(self).max),
            pool_wf(*old(self)) ==> pool_wf(*final(self)),
    {
        if self.active < self.max {
            self.active = self.active + 1;
            true
        } else {
            false
        }
    }

    /// Returns a held permit; the caller's session held one, so at least
    /// one permit is out.
    pub fn release(&mut self)
        requires
            old(self).active >= 1,
        ensures
            *final(self) == spec_release(*old(self)),
            pool_wf(*old(self)) ==> pool_wf(*final(self)),
    {
        self.active = self.active - 1;
    }

    /// The number of permits currently held.
    pub fn active_count(&self) -> (r: usize)
        ensures
            r == self.active,
    {
        self.active
    }

    /// The limit this pool was created with.
    pub fn limit(&self) -> (r: usize)
        ensures
            r == self.max,
    {
        self.max
    }
}

/// The concurrency bound: out of any `n` simultaneous admission attempts
/// at a fresh pool with limit `max`, exactly `min(n, max)` are granted and
/// hold permits; with the pool full every further attempt is refused and
/// changes nothing, and one released permit admits exactly one more.
pub proof fn lemma_admission_bound(max: usize, n: nat)
    ensures
        spec_attempts(spec_new_pool(max), n).max == max,
        spec_attempts(spec_new_pool(max), n).active == if n <= max {
            n
        } else {
            max as nat
        },
        pool_wf(spec_attempts(spec_new_pool(max), n)),
    decreases n,
{
    if n > 0 {
        lemma_admission_bound(max, (n - 1) as nat);
    }
}

/// A full pool refuses an attempt outright, and releasing one permit is
/// exactly what lets the next waiting attempt succeed.
pub proof fn lemma_release_unblocks(p: PermitPool)
    requires
        pool_wf(p),
        p.active == p.max,
        p.max >= 1,
    ensures
        !spec_try_acquire(p).1,
        spec_try_acquire(p).0 == p,
        spec_try_acquire(spec_release(p)).1,
        spec_try_acquire(spec_release(p)).0.active == p.active,
{
}

} // verus!
