//! Mutual exclusion by a spin lock.
//!
//! A [`SpinLock`] keeps a value behind one flag. Acquiring the lock is a
//! single compare-and-swap on the flag, repeated until it succeeds; the
//! [`SpinLockGuard`] that comes back is the only way to the value, and
//! handing it back with [`SpinLockGuard::release`] is the only way to clear
//! the flag. A lock is owned by the hart that runs the firmware, so the
//! exclusive borrow that every operation takes stands for the atomicity of
//! the flag.
//!
//! What several contenders can see of one flag is stated apart from the
//! lock itself, over a history of attempts and releases; see
//! [`lemma_mutual_exclusion`].

use vstd::prelude::*;

verus! {

/// Whether a compare-and-swap from unlocked to locked succeeds on a flag
/// that holds `locked`.
pub open spec fn swap_succeeds(locked: bool) -> bool {
    !locked
}

/// A value that is reached only while holding the lock.
pub struct SpinLock<T> {
    inner: T,
    locked: bool,
}

/// Exclusive access to the value of a locked [`SpinLock`].
///
/// The guard borrows the lock for as long as it lives. Releasing it clears
/// the flag; a guard that is dropped without release leaves the lock
/// locked.
pub struct SpinLockGuard<'a, T> {
    /// The lock that the guard holds.
    pub lock: &'a mut SpinLock<T>,
}

impl<T> SpinLock<T> {
    /// Whether the flag is set.
    pub closed spec fn spec_is_locked(&self) -> bool {
        self.locked
    }

    /// Whether the flag is set.
    #[verifier::when_used_as_spec(spec_is_locked)]
    pub fn is_locked(&self) -> (locked: bool)
        ensures
            locked == self.spec_is_locked(),
    {
        self.locked
    }

    /// The protected value.
    pub closed spec fn value(&self) -> T {
        self.inner
    }

    /// A lock around `t`, unlocked.
    pub fn new(t: T) -> (lock: Self)
        ensures
            !lock.is_locked(),
            lock.value() == t,
    {
        SpinLock { inner: t, locked: false }
    }

    /// One attempt to take the lock: swaps the flag to locked and says
    /// whether it was unlocked before.
    pub fn try_lock(&mut self) -> (acquired: bool)
        ensures
            acquired == swap_succeeds(old(self).is_locked()),
            final(self).is_locked(),
            final(self).value() == old(self).value(),
    {
        let already_locked = self.locked;
        self.locked = true;
        !already_locked
    }

    /// Takes the lock, retrying until an attempt succeeds.
    ///
    /// Nothing but the owner's own guard can clear the flag, so on a lock
    /// that is already held this would spin forever.
    pub fn just_lock(&mut self)
        requires
            !old(self).is_locked(),
        ensures
            final(self).is_locked(),
            final(self).value() == old(self).value(),
    {
        loop
            invariant_except_break
                !self.is_locked(),
            invariant
                self.value() == old(self).value(),
            ensures
                self.is_locked(),
            decreases 0nat,
        {
            if self.try_lock() {
                break ;
            }
        }
    }

    /// Clears the flag.
    fn just_unlock(&mut self)
        ensures
            !final(self).is_locked(),
            final(self).value() == old(self).value(),
    {
        self.locked = false;
    }

    /// Takes the lock and hands out the guard that gives access to the
    /// value. The lock is whatever the guard leaves behind.
    pub fn lock<'a>(&'a mut self) -> (guard: SpinLockGuard<'a, T>)
        requires
            !old(self).is_locked(),
        ensures
            guard.lock.is_locked(),
            guard.lock.value() == old(self).value(),
            *final(self) == *final(guard.lock),
    {
        self.just_lock();
        SpinLockGuard { lock: self }
    }
}

impl<'a, T> SpinLockGuard<'a, T> {
    /// The protected value.
    pub fn get(&self) -> (value: &T)
        ensures
            *value == old(self.lock).value(),
    {
        &self.lock.inner
    }

    /// The protected value, to change in place. Whatever the borrow leaves
    /// behind is the value that the lock holds.
    pub fn get_mut(&mut self) -> (value: &mut T)
        ensures
            *value == old(self).lock.value(),
            final(self).lock.value() == *final(value),
            final(self).lock.is_locked() == old(self).lock.is_locked(),
            *final(final(self).lock) == *final(old(self).lock),
    {
        &mut self.lock.inner
    }

    /// Replaces the protected value.
    pub fn set(&mut self, t: T)
        ensures
            final(self).lock.value() == t,
            final(self).lock.is_locked() == old(self).lock.is_locked(),
            *final(final(self).lock) == *final(old(self).lock),
    {
        self.lock.inner = t;
    }

    /// Ends the guard's access and unlocks the lock, which keeps the value
    /// that the guard last saw.
    pub fn release(self)
        ensures
            !final(self.lock).is_locked(),
            final(self.lock).value() == old(self.lock).value(),
    {
        self.lock.just_unlock();
    }
}

/// One step of some contender on a lock's flag.
pub enum LockEvent {
    /// The contender makes one attempt to take the lock.
    Attempt { contender: nat },
    /// The contender hands back its guard, if it holds one.
    Release { contender: nat },
}

/// A lock's flag together with the contenders that hold a guard.
pub struct LockHistory {
    /// The flag.
    pub locked: bool,
    /// The contenders whose guard is live.
    pub guards: Set<nat>,
}

/// A lock that nobody has touched yet.
pub open spec fn untouched() -> LockHistory {
    LockHistory { locked: false, guards: Set::empty() }
}

/// The effect of one step. An attempt sets the flag and wins a guard
/// exactly when the swap succeeds. A release by a guard's holder clears the
/// flag and ends the guard; from anyone else it does nothing, because only
/// a guard can release.
pub open spec fn step(h: LockHistory, e: LockEvent) -> LockHistory {
    match e {
        LockEvent::Attempt { contender } => LockHistory {
            locked: true,
            guards: if swap_succeeds(h.locked) {
                h.guards.insert(contender)
            } else {
                h.guards
            },
        },
        LockEvent::Release { contender } => if h.guards.contains(contender) {
            LockHistory { locked: false, guards: h.guards.remove(contender) }
        } else {
            h
        },
    }
}

/// The effect of a sequence of steps, first to last.
pub open spec fn run(h: LockHistory, events: Seq<LockEvent>) -> LockHistory
    decreases events.len(),
{
    if events.len() == 0 {
        h
    } else {
        step(run(h, events.drop_last()), events.last())
    }
}

/// At most one guard is live, and the flag is set exactly while one is.
pub open spec fn exclusive(h: LockHistory) -> bool {
    &&& h.guards.finite()
    &&& h.guards.len() <= 1
    &&& h.locked == (h.guards.len() == 1)
}

/// One step keeps the guards exclusive.
pub proof fn lemma_step_exclusive(h: LockHistory, e: LockEvent)
    requires
        exclusive(h),
    ensures
        exclusive(step(h, e)),
{
    match e {
        LockEvent::Attempt { contender } => {
            if swap_succeeds(h.locked) {
                assert(h.guards.len() == 0);
                assert(h.guards =~= Set::empty());
            }
        },
        LockEvent::Release { contender } => {},
    }
}

/// Mutual exclusion: however the attempts and releases of any number of
/// contenders interleave on one lock, at most one guard is live at any
/// time, and the flag is set exactly while one is.
pub proof fn lemma_mutual_exclusion(events: Seq<LockEvent>)
    ensures
        exclusive(run(untouched(), events)),
    decreases events.len(),
{
    if events.len() > 0 {
        lemma_mutual_exclusion(events.drop_last());
        lemma_step_exclusive(run(untouched(), events.drop_last()), events.last());
    }
}

/// While a guard is live no attempt wins: two attempts with no release
/// between them cannot both succeed.
pub proof fn lemma_second_attempt_fails(h: LockHistory, first: nat, second: nat)
    requires
        exclusive(h),
    ensures
        !swap_succeeds(step(h, LockEvent::Attempt { contender: first }).locked),
        step(step(h, LockEvent::Attempt { contender: first }), LockEvent::Attempt {
            contender: second,
        }).guards == step(h, LockEvent::Attempt { contender: first }).guards,
{
}

} // verus!
