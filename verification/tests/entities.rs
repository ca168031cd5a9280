use edict::entity::{
    AliveEntity, Entity, EntityId, EntitySet, IdRange, Location, OneRangeAllocator,
};

#[test]
fn entity_id_bits_roundtrip() {
    let id = EntityId::from_bits(42).unwrap();
    assert_eq!(id.bits(), 42);
    assert_eq!(EntityId::from_bits(0), None);
    assert_eq!(EntityId::from_bits(id.bits()), Some(id));
    assert_eq!(EntityId::dangling().bits(), u64::MAX);
}

#[test]
fn location_constructors() {
    assert_eq!(Location::new(3, 4), Location { arch: 3, idx: 4 });
    assert_eq!(Location::empty(7), Location { arch: 0, idx: 7 });
    assert_eq!(Location::reserved(9), Location { arch: u32::MAX, idx: 9 });
}

#[test]
fn spawn_and_locate() {
    let mut set = EntitySet::new();
    let (a, la) = set.spawn(2, |_| 5);
    assert_eq!(a.bits(), 1);
    assert_eq!(la, Location { arch: 2, idx: 5 });
    let (b, _) = set.spawn(0, |_| 0);
    assert_eq!(b.bits(), 2);
    assert_eq!(set.get_location(a), Some(Location { arch: 2, idx: 5 }));
    assert!(set.is_alive(a));

    set.set_location(a, Location::new(4, 1));
    assert_eq!(set.get_location(a), Some(Location { arch: 4, idx: 1 }));

    assert_eq!(set.despawn(a), Some(Location { arch: 4, idx: 1 }));
    assert_eq!(set.get_location(a), None);
    assert!(!set.is_alive(a));
    assert_eq!(set.despawn(a), None);
}

#[test]
fn spawn_at_keeps_existing() {
    let mut set = EntitySet::new();
    let id = EntityId::from_bits(1000).unwrap();
    assert_eq!(set.spawn_at(id, 3, || 7), (true, Location { arch: 3, idx: 7 }));
    assert_eq!(set.spawn_at(id, 5, || panic!("not called")), (false, Location { arch: 3, idx: 7 }));
    assert_eq!(set.get_location(id), Some(Location { arch: 3, idx: 7 }));
}

#[test]
fn reserved_entities_are_spawned_in_order() {
    let mut set = EntitySet::new();
    let (first, _) = set.spawn(0, |_| 0);
    let r0 = set.alloc_id().unwrap();
    let r1 = set.alloc_id().unwrap();
    assert_eq!(r0.id().bits(), 2);
    assert_eq!(r1.id().bits(), 3);
    assert_eq!(r0.location(), Location::reserved(0));
    assert_eq!(r1.location(), Location::reserved(1));
    let (id0, id1) = (r0.id(), r1.id());
    assert_eq!(set.get_location(id0), Some(Location::reserved(0)));
    assert_eq!(set.get_location(id1), Some(Location::reserved(1)));
    assert!(set.is_alive(id1));

    let mut seen = Vec::new();
    set.spawn_allocated(|id| {
        seen.push(id.bits());
        seen.len() as u32 + 10
    });
    assert_eq!(seen, vec![2, 3]);
    assert_eq!(set.get_location(id0), Some(Location { arch: 0, idx: 11 }));
    assert_eq!(set.get_location(id1), Some(Location { arch: 0, idx: 12 }));
    assert_eq!(set.get_location(first), Some(Location { arch: 0, idx: 0 }));

    let (next, _) = set.spawn(1, |_| 0);
    assert_eq!(next.bits(), 4);
}

#[test]
fn spawn_allocated_without_reservations_does_nothing() {
    let mut set = EntitySet::new();
    let mut calls = 0;
    set.spawn_allocated(|_| {
        calls += 1;
        0
    });
    assert_eq!(calls, 0);
    let (id, _) = set.spawn(0, |_| 0);
    assert_eq!(id.bits(), 1);
}

#[test]
fn custom_range_allocator_ids() {
    let mut set = EntitySet::with_allocator(Box::new(OneRangeAllocator::new(IdRange {
        start: 500,
        end: 502,
    })));
    let (a, _) = set.spawn(0, |_| 0);
    let (b, _) = set.spawn(0, |_| 1);
    assert_eq!((a.bits(), b.bits()), (500, 501));
    assert!(set.alloc_id().is_none());
    set.reserve(16);
    assert_eq!(set.get_location(b), Some(Location { arch: 0, idx: 1 }));
}

#[test]
fn entity_traits() {
    let mut set = EntitySet::new();
    let (id, loc) = set.spawn(6, |_| 2);
    assert_eq!(Entity::id(&id), id);
    assert_eq!(id.lookup(&set), Some(loc));
    assert!(Entity::is_alive(&id, &set));
    let el = id.entity_loc(&set).unwrap();
    assert_eq!(el.id(), id);
    assert_eq!(el.location(), loc);
    assert_eq!(el.lookup(&set), Some(loc));
    assert_eq!(el.locate(&set), loc);
    let missing = EntityId::from_bits(77).unwrap();
    assert!(missing.entity_loc(&set).is_none());
    assert_eq!(missing.lookup(&set), None);
}

#[test]
fn reserved_entity_by_index() {
    let mut set = EntitySet::new();
    let _ = set.spawn(0, |_| 0);
    let e = set.reserved_entity(3).unwrap();
    assert_eq!(e.id().bits(), 5);
    assert_eq!(e.location(), Location::reserved(3));
    assert!(set.reserved_entity(0xffff_ffff).is_none());

    let one = EntitySet::with_allocator(Box::new(OneRangeAllocator::new(IdRange {
        start: 500,
        end: 502,
    })));
    assert_eq!(one.reserved_entity(1).unwrap().id().bits(), 501);
    assert!(one.reserved_entity(2).is_none());
}

#[test]
fn spawn_reserved_spawns_the_given_reservations() {
    let mut set = EntitySet::new();
    let r0 = set.alloc_id().unwrap().id();
    let r1 = set.alloc_id().unwrap().id();
    let mut seen = Vec::new();
    set.spawn_reserved(2, |id| {
        seen.push(id.bits());
        7
    });
    assert_eq!(seen, vec![r0.bits(), r1.bits()]);
    assert_eq!(set.get_location(r0), Some(Location { arch: 0, idx: 7 }));
    assert_eq!(set.get_location(r1), Some(Location { arch: 0, idx: 7 }));
    let (next, _) = set.spawn(0, |_| 0);
    assert_eq!(next.bits(), 3);
}

#[test]
fn try_reserve_checks_the_bound() {
    let mut set = EntitySet::new();
    let (id, loc) = set.spawn(0, |_| 4);
    assert!(set.try_reserve(100));
    assert_eq!(set.get_location(id), Some(loc));
}

#[test]
fn entity_set_from_allocator() {
    let mut set = EntitySet::from_allocator(Some(Box::new(OneRangeAllocator::new(IdRange {
        start: 40,
        end: 41,
    }))));
    let (id, _) = set.spawn(0, |_| 0);
    assert_eq!(id.bits(), 40);
    let empty = EntitySet::from_allocator(None);
    assert!(empty.alloc_id().is_none());
}
