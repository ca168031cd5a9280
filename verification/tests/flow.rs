use edict::entity::{Entity, EntityId, EntitySet};
use edict::flow::{try_poll_step, FlowEntity, FlowWorld, WakerAction, YieldNow};

#[test]
fn yield_now_yields_once() {
    let mut y = YieldNow::new();
    assert!(!y.poll_ready());
    assert!(y.poll_ready());
    assert!(y.poll_ready());
}

#[test]
fn flow_entity_refers_to_its_id() {
    let mut set = EntitySet::new();
    let (id, loc) = set.spawn(1, |_| 9);
    let e = FlowEntity::new(id);
    assert_eq!(e.id(), id);
    assert_eq!(e.lookup(&set), Some(loc));
    assert!(Entity::is_alive(&e, &set));
    assert_eq!(e.entity_loc(&set).unwrap().location(), loc);
    let gone = FlowEntity::new(EntityId::from_bits(55).unwrap());
    assert!(!Entity::is_alive(&gone, &set));
    let _world: FlowWorld = e.world();
    let _f = e.poll(|| 1u8);
    let _g = e.try_poll(|| 2u8);
    let _h = e.poll_view_with((), || 3u8);
    let _i = e.try_poll_view_with((), || 4u8);
    let w = FlowWorld::new();
    let _j = w.poll(|| 5u8);
    let _k = w.poll_view_with((), || 6u8);
    let _l = w.poll_view_filter_with((), (), || 7u8);
}

#[test]
fn flow_entity_compares_with_entity_ids() {
    let mut set = EntitySet::new();
    let (id, _) = set.spawn(1, |_| 0);
    let other = EntityId::from_bits(99).unwrap();
    let e = FlowEntity::new(id);
    assert!(e == id);
    assert!(id == e);
    assert!(e != other);
    let l = e.entity_loc(&set).unwrap();
    assert!(e == l);
    assert!(l == e);
    assert!(id == l);
}

#[test]
fn polls_on_entities() {
    let mut set = EntitySet::new();
    let (id, loc) = set.spawn(2, |_| 5);
    let missing = EntityId::from_bits(77).unwrap();

    let mut calls = 0u32;
    let mut fut = FlowEntity::new(id).poll(|e: edict::entity::EntityLoc<'_>| Some(e.location().idx));
    assert_eq!(fut.poll_entity(&set), Some(loc.idx));
    let mut pending = FlowEntity::new(missing).poll(|_: edict::entity::EntityLoc<'_>| {
        calls += 1;
        Some(0u32)
    });
    assert_eq!(pending.poll_entity(&set), None);
    drop(pending);
    assert_eq!(calls, 0);

    let mut tried = FlowEntity::new(id).try_poll(|e: edict::entity::EntityLoc<'_>| Some(e.location().arch));
    assert_eq!(tried.poll_entity(&set), (Some(Ok(2)), WakerAction::Remove));
    let mut waiting = FlowEntity::new(id).try_poll(|_: edict::entity::EntityLoc<'_>| None::<u32>);
    assert_eq!(waiting.poll_entity(&set), (None, WakerAction::Register));
    let mut gone = FlowEntity::new(missing).try_poll(|_: edict::entity::EntityLoc<'_>| Some(1u32));
    assert_eq!(gone.poll_entity(&set), (Some(Err(edict::NoSuchEntity)), WakerAction::Keep));
}

#[test]
fn try_poll_steps() {
    assert_eq!(try_poll_step(false, Some(1u8)), (Some(Err(edict::NoSuchEntity)), WakerAction::Keep));
    assert_eq!(try_poll_step(true, None::<u8>), (None, WakerAction::Register));
    assert_eq!(try_poll_step(true, Some(4u8)), (Some(Ok(4)), WakerAction::Remove));
}
