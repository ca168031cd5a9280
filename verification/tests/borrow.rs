use edict::borrow::{read_decision, AtomicBorrowLock, ReadDecision, ATOMIC_MAX_BORROW, ATOMIC_MUTABLE_LOCK};
use edict::Access;

#[test]
fn shared_borrows_exclude_exclusive() {
    let lock = AtomicBorrowLock::new();
    assert!(lock.borrow());
    assert!(lock.borrow());
    assert!(!lock.borrow_mut());
    lock.release();
    assert!(!lock.borrow_mut());
    lock.release();
    assert!(lock.borrow_mut());
}

#[test]
fn exclusive_borrow_excludes_all() {
    let lock = AtomicBorrowLock::new();
    assert!(lock.borrow_access(Access::Write));
    assert!(!lock.borrow());
    assert!(!lock.borrow_access(Access::Read));
    assert!(!lock.borrow_mut());
    lock.release_access(Access::Write);
    assert!(lock.borrow_access(Access::Read));
    lock.release_access(Access::Read);
    assert!(lock.borrow_mut());
}

#[test]
fn read_decisions() {
    assert_eq!(read_decision(0), ReadDecision::Granted);
    assert_eq!(read_decision(ATOMIC_MAX_BORROW - 1), ReadDecision::Granted);
    assert_eq!(read_decision(ATOMIC_MAX_BORROW), ReadDecision::TooMany);
    assert_eq!(read_decision(ATOMIC_MUTABLE_LOCK), ReadDecision::Refused);
    assert_eq!(read_decision(ATOMIC_MUTABLE_LOCK + 3), ReadDecision::Refused);
    assert_eq!(ATOMIC_MAX_BORROW, usize::MAX >> 2);
    assert_eq!(ATOMIC_MUTABLE_LOCK, 1 + (usize::MAX >> 1));
}

#[test]
fn try_borrow_tells_refusals_apart() {
    let lock = AtomicBorrowLock::new();
    assert_eq!(lock.try_borrow(), ReadDecision::Granted);
    lock.release();
    assert!(lock.borrow_mut());
    assert_eq!(lock.try_borrow(), ReadDecision::Refused);
}
