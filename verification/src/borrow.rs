//! Provides borrowing mechanism that is used by queries.

use vstd::prelude::*;

use core::sync::atomic::{AtomicUsize, Ordering};

use crate::Access;

verus! {

/// Number of shared borrows from which further shared borrows are refused.
pub const ATOMIC_MAX_BORROW: usize = usize::MAX / 4;

/// Lock state of an exclusive borrow: the highest bit.
pub const ATOMIC_MUTABLE_LOCK: usize = usize::MAX / 2 + 1;

/// What a shared borrow attempt decides from the lock state it found.
#[derive(Clone, Copy, Debug, PartialEq, Eq, Structural)]
pub enum ReadDecision {
    /// The borrow is granted; the increment stays.
    Granted,
    /// The lock is held exclusively; the increment is taken back.
    Refused,
    /// Too many shared borrows; the increment is taken back.
    TooMany,
}

/// Decision of a shared borrow attempt that found the lock state `old`.
pub open spec fn spec_read_decision(old: usize) -> ReadDecision {
    if old < ATOMIC_MUTABLE_LOCK {
        if old >= ATOMIC_MAX_BORROW {
            ReadDecision::TooMany
        } else {
            ReadDecision::Granted
        }
    } else {
        ReadDecision::Refused
    }
}

/// Decision of a shared borrow attempt that found the lock state `old`.
pub fn read_decision(old: usize) -> (d: ReadDecision)
    ensures
        d == spec_read_decision(old),
{
    if old < ATOMIC_MUTABLE_LOCK {
        if old >= ATOMIC_MAX_BORROW {
            ReadDecision::TooMany
        } else {
            ReadDecision::Granted
        }
    } else {
        ReadDecision::Refused
    }
}

/// Lock state after a shared borrow attempt on `state`, with no other
/// thread acting in between, and whether the borrow was granted.
pub open spec fn spec_borrow_step(state: usize) -> (usize, bool) {
    match spec_read_decision(state) {
        ReadDecision::Granted => ((state + 1) as usize, true),
        _ => (state, false),
    }
}

/// Lock state after an exclusive borrow attempt on `state`, with no other
/// thread acting in between, and whether the borrow was granted.
pub open spec fn spec_borrow_mut_step(state: usize) -> (usize, bool) {
    if state == 0 {
        (ATOMIC_MUTABLE_LOCK, true)
    } else {
        (state, false)
    }
}

/// States reachable from an unlocked lock by granted borrows and their
/// releases: some number of shared borrows, or one exclusive borrow.
pub open spec fn lock_state_valid(state: usize) -> bool {
    state <= ATOMIC_MAX_BORROW || state == ATOMIC_MUTABLE_LOCK
}

/// A lock held exclusively refuses every borrow, and a lock with shared
/// borrows refuses an exclusive one; granted borrows keep the state valid,
/// and releasing what was granted restores the state.
pub proof fn lemma_borrow_exclusion(state: usize)
    requires
        lock_state_valid(state),
    ensures
        state == ATOMIC_MUTABLE_LOCK ==> !spec_borrow_step(state).1 && spec_borrow_step(state).0 == state,
        state != 0 ==> !spec_borrow_mut_step(state).1 && spec_borrow_mut_step(state).0 == state,
        spec_borrow_mut_step(state).1 ==> state == 0,
        spec_borrow_step(state).1 ==> state < ATOMIC_MAX_BORROW && spec_borrow_step(state).0 - 1 == state,
        spec_borrow_mut_step(state).1 ==> spec_borrow_mut_step(state).0 - ATOMIC_MUTABLE_LOCK == 0,
        lock_state_valid(spec_borrow_step(state).0),
        lock_state_valid(spec_borrow_mut_step(state).0),
{
}

/// Thread-safe borrow lock that uses atomic operations.
pub struct AtomicBorrowLock {
    state: AtomicUsize,
}

impl AtomicBorrowLock {
    /// Unlocked lock.
    pub fn new() -> Self {
        AtomicBorrowLock { state: AtomicUsize::new(0) }
    }

    fn fetch_add_one(&self) -> usize {
        self.state.fetch_add(1, Ordering::Acquire)
    }

    fn fetch_sub(&self, value: usize) -> usize {
        self.state.fetch_sub(value, Ordering::Release)
    }

    fn try_lock_mut(&self) -> bool {
        self.state.compare_exchange(0, ATOMIC_MUTABLE_LOCK, Ordering::Acquire, Ordering::Relaxed).is_ok()
    }

    /// Attempts a shared borrow and tells how it went.
    /// Adds one to the lock state and keeps the increment when the borrow
    /// is granted (see `read_decision`); takes it back otherwise, answering
    /// `Refused` for a lock held exclusively and `TooMany` for a lock that
    /// already holds the most shared borrows it counts.
    /// The state found depends on other threads, so the answer is stated
    /// only through `read_decision`.
    pub fn try_borrow(&self) -> ReadDecision {
        let old = self.fetch_add_one();
        let decision = read_decision(old);
        match decision {
            ReadDecision::Granted => {},
            _ => {
                self.fetch_sub(1);
            },
        }
        decision
    }

    /// Attempts a shared borrow: `true` exactly when `try_borrow` grants it.
    /// A lock with too many shared borrows refuses; use `try_borrow` to tell
    /// that apart from a lock held exclusively.
    pub fn borrow(&self) -> (r: bool) {
        match self.try_borrow() {
            ReadDecision::Granted => true,
            _ => false,
        }
    }

    /// Releases a shared borrow.
    /// Must be called after successful call to `borrow`.
    pub fn release(&self) {
        self.fetch_sub(1);
    }

    /// Attempts an exclusive borrow: succeeds only on an unlocked lock.
    pub fn borrow_mut(&self) -> bool {
        self.try_lock_mut()
    }

    /// Releases an exclusive borrow.
    /// Must be called after successful call to `borrow_mut`.
    pub fn release_mut(&self) {
        self.fetch_sub(ATOMIC_MUTABLE_LOCK);
    }

    /// Borrow using access value.
    pub fn borrow_access(&self, access: Access) -> bool {
        match access {
            Access::Read => self.borrow(),
            Access::Write => self.borrow_mut(),
        }
    }

    /// Release using access value.
    pub fn release_access(&self, access: Access) {
        match access {
            Access::Read => self.release(),
            Access::Write => self.release_mut(),
        }
    }
}

} // verus!
