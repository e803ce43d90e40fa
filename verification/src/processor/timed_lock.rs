//! A lease on one queue: a flag that at most one caller holds, and the time
//! at which it was last taken.

use crate::clock::current_millis;
use vstd::prelude::*;

verus! {

/// The state of a lease: whether somebody holds it, and when it was last
/// acquired (in milliseconds since the Unix epoch). A lease that was never
/// acquired carries the time of its creation.
pub struct Lease {
    pub held: bool,
    pub last_acquired: nat,
}

impl Lease {
    /// A lease that nobody holds, created at `now`.
    pub open spec fn created(now: nat) -> Lease {
        Lease { held: false, last_acquired: now }
    }

    /// Whether an attempt to acquire this lease succeeds: exactly when
    /// nobody holds it.
    pub open spec fn can_acquire(self) -> bool {
        !self.held
    }

    /// The lease after an attempt at `now` to acquire it. A free lease
    /// becomes held and takes `now` as its time; a held one stays as it is.
    pub open spec fn try_acquire(self, now: nat) -> Lease {
        if self.held {
            self
        } else {
            Lease { held: true, last_acquired: now }
        }
    }

    /// The lease after a release: free, whoever held it, with its time
    /// untouched.
    pub open spec fn release(self) -> Lease {
        Lease { held: false, last_acquired: self.last_acquired }
    }

    /// Whether the lease was last acquired more than `threshold`
    /// milliseconds before `now`. Whether it is held plays no part.
    pub open spec fn idle(self, now: nat, threshold: nat) -> bool {
        now - self.last_acquired > threshold
    }
}

/// A lease that somebody tried to acquire is held, whether or not the
/// attempt succeeded, so the next attempt fails; a released lease can be
/// acquired. The time of a lease changes only when a free lease is acquired:
/// a failed attempt and a release leave it as it was.
pub proof fn lemma_lease_transitions(lease: Lease, now: nat, later: nat)
    ensures
        lease.try_acquire(now).held,
        !lease.try_acquire(now).can_acquire(),
        lease.try_acquire(now).try_acquire(later) == lease.try_acquire(now),
        lease.release().can_acquire(),
        lease.release().last_acquired == lease.last_acquired,
        lease.held ==> lease.try_acquire(now) == lease,
        !lease.held ==> lease.try_acquire(now).last_acquired == now,
{
}

/// A lease that callers try to take without ever waiting for it.
#[derive(Clone, Copy, Debug)]
pub struct TimedLock {
    lock: bool,
    lock_time: u64,
}

impl View for TimedLock {
    type V = Lease;

    closed spec fn view(&self) -> Lease {
        Lease { held: self.lock, last_acquired: self.lock_time as nat }
    }
}

impl TimedLock {
    /// A free lease stamped with the current time.
    pub fn new() -> (lock: Self)
        ensures
            exists|now: u64| lock@ == #[trigger] Lease::created(now as nat),
    {
        let now = current_millis();
        let lock = Self::new_at(now);
        assert(lock@ == Lease::created(now as nat));
        lock
    }

    /// A free lease stamped with `now`.
    pub fn new_at(now: u64) -> (lock: Self)
        ensures
            lock@ == Lease::created(now as nat),
    {
        TimedLock { lock: false, lock_time: now }
    }

    /// Tries to take the lease, stamping it with the current time on
    /// success. Returns at once, with `false` where somebody holds it.
    pub fn try_lock(&mut self) -> (acquired: bool)
        ensures
            acquired == old(self)@.can_acquire(),
            exists|now: u64| final(self)@ == #[trigger] old(self)@.try_acquire(now as nat),
    {
        let now = current_millis();
        let acquired = self.try_lock_at(now);
        assert(self@ == old(self)@.try_acquire(now as nat));
        acquired
    }

    /// Tries to take the lease at time `now`.
    pub fn try_lock_at(&mut self, now: u64) -> (acquired: bool)
        ensures
            acquired == old(self)@.can_acquire(),
            final(self)@ == old(self)@.try_acquire(now as nat),
    {
        if self.lock {
            false
        } else {
            self.lock = true;
            self.lock_time = now;
            true
        }
    }

    /// Releases the lease, whoever holds it and whether or not anybody does.
    pub fn unlock(&mut self)
        ensures
            final(self)@ == old(self)@.release(),
    {
        self.lock = false;
    }

    /// Whether somebody holds the lease.
    pub fn is_locked(&self) -> (held: bool)
        ensures
            held == self@.held,
    {
        self.lock
    }

    /// When the lease was last acquired, or created if it never was.
    pub fn get_lock_time(&self) -> (time: u64)
        ensures
            time == self@.last_acquired,
    {
        self.lock_time
    }
}

} // verus!
