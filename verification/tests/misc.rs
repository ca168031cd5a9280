use edict::archetype::ArchetypeTracking;
use edict::archetype::{move_entity, relocate_epochs, swap_remove_entity};
use edict::bundle::{component_slot, grown_size, MIN_LAYOUT_SIZE};
use core::any::TypeId;
use edict::archetype::ComponentEpochs;
use edict::archetype::{chunk_idx, chunks_count, first_of_chunk, CHUNK_LEN};
use edict::dump::{DumpItem, DumpSlot, DumpStatus, EntityDump, LoadAction, LoadSlot, LoadSlotKind};
use edict::dump::format::{dump_record, load_action, load_slot_kind, record_entity};
use edict::entity::EntityId;
use edict::executor::{MockExecutor, ScopedExecutor};
use edict::ptr::{Kind, Meta};
use edict::{EntityError, Mismatch, NoSuchEntity};

#[test]
fn chunk_arithmetic() {
    assert_eq!(CHUNK_LEN, 256);
    assert_eq!(chunk_idx(0), 0);
    assert_eq!(chunk_idx(255), 0);
    assert_eq!(chunk_idx(256), 1);
    assert_eq!(chunk_idx(1000), 3);
    assert_eq!(chunks_count(1000), 1000);
    assert_eq!(first_of_chunk(512), Some(2));
    assert_eq!(first_of_chunk(513), None);
    assert_eq!(first_of_chunk(0), Some(0));
}

#[test]
fn errors_convert_and_describe() {
    assert_eq!(EntityError::from(NoSuchEntity), EntityError::NoSuchEntity);
    assert_eq!(EntityError::from(Mismatch), EntityError::Mismatch);
    assert_eq!(NoSuchEntity.message(), "Specified entity is not found");
    assert_eq!(EntityError::Mismatch.message(), "Entity does not match requirements");
}

#[test]
fn mock_executor_runs_in_place() {
    let mut ran = false;
    let flag = &mut ran;
    MockExecutor.spawn(move |_| *flag = true);
    assert!(ran);
}

#[test]
fn meta_tracks_count_and_kind() {
    let values = [1u32, 2, 3, 4];
    let m = Meta::from(&values[..]);
    assert!(m.is_valid::<u32>());
    assert!(!m.is_valid::<u64>());
    assert!(!m.is_valid_mut::<u32>());
    assert!(!m.is_mut());
    assert_eq!(m.layout(), core::alloc::Layout::new::<u32>());
    let later = m.add(8);
    assert!(later.is_valid::<u32>());

    let mut x = 5u64;
    let mm = Meta::from(&mut x);
    assert!(mm.is_mut());
    assert!(mm.is_valid_mut::<u64>());
    assert!(!mm.borrow().is_mut());
    assert!(mm.borrow_mut().is_mut());

    let d = Meta::dangling::<u8>();
    assert!(!d.is_valid::<u8>());
    assert!(!d.borrow().is_valid::<u8>());
    let n = Meta::new(core::any::TypeId::of::<u8>(), core::alloc::Layout::new::<u8>(), 2, Kind::Immutable);
    assert!(n.is_valid::<u8>());
}

#[test]
fn dump_record_masks() {
    let id = EntityId::from_bits(77).unwrap();
    let statuses = [DumpStatus::Modified, DumpStatus::Missing, DumpStatus::Unmodified, DumpStatus::Modified];
    let EntityDump([bits, present, modified]) = dump_record(id, &statuses);
    assert_eq!(bits, 77);
    assert_eq!(present, 0b1101);
    assert_eq!(modified, 0b1001);
}

#[test]
fn dump_items() {
    let value = 5u8;
    let item = DumpItem::Modified(&value);
    assert_eq!(item.status(), DumpStatus::Modified);
    assert!(matches!(item.slot(), DumpSlot::Component(&5)));
    let item: DumpItem<u8> = DumpItem::Unmodified;
    assert_eq!(item.status(), DumpStatus::Unmodified);
    assert!(matches!(item.slot(), DumpSlot::Skipped));
    let item: DumpItem<u8> = DumpItem::Missing;
    assert_eq!(item.status(), DumpStatus::Missing);
}

#[test]
fn load_decisions() {
    // entity exists
    assert_eq!(load_slot_kind(0b10, 1, Some(true)), LoadSlotKind::Existing);
    assert_eq!(load_slot_kind(0b10, 1, Some(false)), LoadSlotKind::Missing);
    assert_eq!(load_slot_kind(0b10, 0, Some(true)), LoadSlotKind::Skipped);
    // entity does not exist
    assert_eq!(load_slot_kind(0b10, 1, None), LoadSlotKind::Missing);
    assert_eq!(load_slot_kind(0b10, 0, None), LoadSlotKind::Skipped);

    assert!(matches!(load_action(0, 0, LoadSlot::Created(3u8)), LoadAction::Insert(3)));
    assert!(matches!(load_action(0b1, 0, LoadSlot::<u8>::Skipped), LoadAction::Drop));
    assert!(matches!(load_action(0b1, 1, LoadSlot::<u8>::Skipped), LoadAction::Keep));
    let mut existing = 1u8;
    assert!(matches!(load_action(0b1, 0, LoadSlot::Existing(&mut existing)), LoadAction::Drop));

    assert_eq!(record_entity(&EntityDump([9, 0, 0])), EntityId::from_bits(9));
    assert_eq!(record_entity(&EntityDump([0, 1, 1])), None);
}

#[test]
fn dump_then_load_new_entity() {
    let id = EntityId::from_bits(3).unwrap();
    let statuses = [DumpStatus::Modified, DumpStatus::Missing, DumpStatus::Unmodified];
    let EntityDump([_, present, modified]) = dump_record(id, &statuses);
    let kinds: Vec<LoadSlotKind> = (0..3).map(|i| load_slot_kind(modified, i, None)).collect();
    assert_eq!(kinds, vec![LoadSlotKind::Missing, LoadSlotKind::Skipped, LoadSlotKind::Skipped]);
    assert!(matches!(load_action(present, 0, LoadSlot::Created(1u8)), LoadAction::Insert(1)));
    assert!(matches!(load_action(present, 1, LoadSlot::<u8>::Skipped), LoadAction::Keep));
    assert!(matches!(load_action(present, 2, LoadSlot::<u8>::Skipped), LoadAction::Drop));
}

#[test]
fn meta_type_checks_by_id() {
    let values = [1u16, 2];
    let m = Meta::from(&values[..]);
    assert!(m.has_type(&core::any::TypeId::of::<u16>()));
    assert!(!m.has_type(&core::any::TypeId::of::<u32>()));
    assert!(!m.has_type_mut(&core::any::TypeId::of::<u16>()));
    let mut x = 1i8;
    let mm = Meta::from(&mut x);
    assert!(mm.has_type_mut(&core::any::TypeId::of::<i8>()));
    assert!(!Meta::dangling::<i8>().has_type(&core::any::TypeId::of::<i8>()));
}

#[test]
fn component_epochs_bookkeeping() {
    let mut e = ComponentEpochs::new();
    e.grow(300);
    e.touch(5, 3);
    e.touch(299, 7);
    e.swap_remove(1, 299);
    e.swap_remove(4, 4);
    e.grow(600);
}

#[test]
fn archetype_entity_moves() {
    let ids: Vec<EntityId> = (1..=4).map(|b| EntityId::from_bits(b).unwrap()).collect();
    let mut a = ids.clone();
    assert_eq!(swap_remove_entity(&mut a, 1), Some(ids[3]));
    assert_eq!(a, vec![ids[0], ids[3], ids[2]]);
    assert_eq!(swap_remove_entity(&mut a, 2), None);
    assert_eq!(a, vec![ids[0], ids[3]]);

    let mut src = ids.clone();
    let mut dst = vec![ids[0]];
    assert_eq!(move_entity(&mut src, &mut dst, 0), (1, Some(ids[3])));
    assert_eq!(dst, vec![ids[0], ids[0]]);
    assert_eq!(src, vec![ids[3], ids[1], ids[2]]);
}

#[test]
fn epochs_travel_with_relocated_entities() {
    let mut src = ComponentEpochs::new();
    src.grow(4);
    src.touch(1, 5);
    src.touch(3, 6);
    assert_eq!(src.slot_epoch(1), 5);
    let mut dst = ComponentEpochs::new();
    dst.grow(2);
    relocate_epochs(&mut src, &mut dst, 1, 3, 0);
    assert_eq!(dst.slot_epoch(0), 5);
    assert_eq!(src.slot_epoch(1), 6);
    dst.relocate_in(1, 2);
    assert_eq!(dst.slot_epoch(1), 2);
}

#[test]
fn builder_decisions() {
    let ids = [TypeId::of::<u8>(), TypeId::of::<u32>()];
    assert_eq!(component_slot(&ids, &TypeId::of::<u32>()), Some(1));
    assert_eq!(component_slot(&ids, &TypeId::of::<u64>()), None);
    assert_eq!(grown_size(0, 10), MIN_LAYOUT_SIZE);
    assert_eq!(grown_size(128, 200), 256);
    assert_eq!(grown_size(128, 300), 300);
    assert_eq!(grown_size(256, 100), 256);
}

#[test]
fn archetype_tracking_moves_epochs_with_entities() {
    let ids: Vec<EntityId> = (1..=3).map(|b| EntityId::from_bits(b).unwrap()).collect();
    let mut a = ArchetypeTracking::new(vec![TypeId::of::<u8>(), TypeId::of::<u16>()]);
    a.grow(4);
    assert_eq!(a.spawn(ids[0], 1), 0);
    assert_eq!(a.spawn(ids[1], 2), 1);
    assert_eq!(a.spawn(ids[2], 3), 2);
    assert_eq!(a.epoch_at(1, 1), 2);

    let mut b = ArchetypeTracking::new(vec![TypeId::of::<u16>()]);
    b.grow(2);
    assert_eq!(a.relocate(&mut b, 0), (0, Some(ids[2])));
    assert_eq!(b.entity_list(), &[ids[0]][..]);
    assert_eq!(b.epoch_at(0, 0), 1);
    assert_eq!(a.entity_list(), &[ids[2], ids[1]][..]);
    assert_eq!(a.epoch_at(0, 0), 3);

    assert_eq!(a.despawn(0), Some(ids[1]));
    assert_eq!(a.entity_list(), &[ids[1]][..]);
    assert_eq!(a.epoch_at(1, 0), 2);
    assert_eq!(a.despawn(0), None);
}

#[test]
fn archetype_insert_bundle_writes_and_moves_epochs() {
    let ids: Vec<EntityId> = (1..=2).map(|b| EntityId::from_bits(b).unwrap()).collect();
    let mut a = ArchetypeTracking::new(vec![TypeId::of::<u8>()]);
    a.grow(2);
    a.spawn(ids[0], 1);
    a.spawn(ids[1], 2);
    let mut b = ArchetypeTracking::new(vec![TypeId::of::<u8>(), TypeId::of::<u32>()]);
    b.grow(1);
    assert_eq!(a.insert_bundle(&mut b, 0, &[TypeId::of::<u32>()], 5), (0, Some(ids[1])));
    assert_eq!(b.entity_list(), &[ids[0]][..]);
    assert_eq!(b.epoch_at(0, 0), 1);
    assert_eq!(b.epoch_at(1, 0), 5);
    b.write(0, &[TypeId::of::<u8>()], 6);
    assert_eq!(b.epoch_at(0, 0), 6);
}
