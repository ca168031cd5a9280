use edict::entity::queue::{drain_into, flush_into};
use edict::entity::queue::{drop_step, shared_hold_refused, DropStep, EXCLUSIVE_LOCK};
use edict::entity::{OwnedEntity, WeakEntity};

#[test]
fn weak_entity_parts() {
    let w = WeakEntity::new(3, 9);
    assert_eq!(w.id(), 3);
    assert_eq!(w.gen(), 9);
    let owned: OwnedEntity<()> = OwnedEntity::new(w);
    assert_eq!(owned.weak(), w);
}

#[test]
fn drop_queue_steps() {
    assert_eq!(drop_step(4, 0, 0), DropStep::Write(0));
    assert_eq!(drop_step(4, 2, 3), DropStep::Write(3));
    assert_eq!(drop_step(4, 1, 4), DropStep::Flush);
    assert_eq!(drop_step(4, 1, 5), DropStep::Exhausted);
    assert_eq!(drop_step(4, EXCLUSIVE_LOCK, 0), DropStep::Retry);
    assert!(shared_hold_refused(EXCLUSIVE_LOCK + 1));
    assert!(!shared_hold_refused(3));
    assert_eq!(EXCLUSIVE_LOCK, isize::MAX as usize);
}

#[test]
fn drop_queue_flush_and_drain_keep_every_index() {
    let mut tail = vec![1u32];
    flush_into(&mut tail, 9, &[4, 5, 6]);
    assert_eq!(tail, vec![1, 9, 4, 5, 6]);
    let mut out = vec![0u32];
    drain_into(&mut out, &[7, 8, 3], 2, &mut tail);
    assert_eq!(out, vec![0, 7, 8, 1, 9, 4, 5, 6]);
    assert!(tail.is_empty());
}
