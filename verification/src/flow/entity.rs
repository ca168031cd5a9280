use vstd::prelude::*;

use crate::NoSuchEntity;
use crate::entity::{Entity, EntityBound, EntityId, EntityLoc, EntitySet, Location};

use super::world::FlowWorld;

verus! {

/// Entity reference usable in flows.
#[derive(Copy, Clone, Debug, PartialEq, Eq, PartialOrd, Ord, Hash)]
pub struct FlowEntity {
    id: EntityId,
}

/// Future that polls the closure with entity reference.
pub struct PollEntityRef<F> {
    entity: EntityId,
    f: F,
    world: FlowWorld,
}

/// Future that polls the closure with entity reference and resolves to an
/// error if the entity is despawned.
pub struct TryPollEntityRef<F> {
    entity: EntityId,
    f: F,
    world: FlowWorld,
}

/// Future that polls the closure with an entity view built from a query.
pub struct PollEntityView<Q, F> {
    entity: EntityId,
    query: Q,
    f: F,
    world: FlowWorld,
}

/// Future that polls the closure with an entity view built from a query
/// and resolves to an error if the entity is despawned or does not match.
pub struct TryPollEntityView<Q, F> {
    entity: EntityId,
    query: Q,
    f: F,
    world: FlowWorld,
}

impl<F> PollEntityRef<F> {
    /// Entity polled by the future.
    pub closed spec fn entity(&self) -> EntityId {
        self.entity
    }

    /// Closure polled by the future.
    pub closed spec fn closure(&self) -> F {
        self.f
    }
}

impl<F> PollEntityRef<F> {
    /// One poll of the future on the entities: pending (`None`) while the
    /// entity is not found, without calling the closure; otherwise what the
    /// closure answers for the located entity (`Some` when ready).
    pub fn poll_entity<'a, R>(&mut self, entities: &'a EntitySet) -> (r: Option<R>)
        where F: FnMut(EntityLoc<'a>) -> Option<R>
        requires
            entities.wf(),
            forall|l: EntityLoc<'a>| old(self).closure().requires((l,)),
        ensures
            final(self).entity() == old(self).entity(),
            entities.locations().contains_key(old(self).entity().spec_bits()) ==> old(self).closure().ensures(
                (EntityLoc::<'a>::spec_new(old(self).entity(), entities.locations()[old(self).entity().spec_bits()]),),
                r,
            ),
            !entities.locations().contains_key(old(self).entity().spec_bits())
                && entities.allocator().spec_reserved(old(self).entity().spec_bits()) is None ==> r is None
                && *final(self) == *old(self),
    {
        broadcast use vstd::function::group_function_axioms;
        match self.entity.entity_loc(entities) {
            None => None,
            Some(e) => {
                assert(self.f == old(self).closure());
                assert(old(self).closure().requires((e,)));
                let f = &mut self.f;
                f(e)
            },
        }
    }
}

impl<F> TryPollEntityRef<F> {
    /// Entity polled by the future.
    pub closed spec fn entity(&self) -> EntityId {
        self.entity
    }

    /// Closure polled by the future.
    pub closed spec fn closure(&self) -> F {
        self.f
    }

    /// One poll of the future on the entities: ready with `NoSuchEntity`
    /// when the entity is not found, without calling the closure; otherwise
    /// the closure is called on the located entity and `try_poll_step`
    /// decides from its answer and from whether the entity is still found:
    /// the result, and what to do with the task's waker in the entity's
    /// wake-on-despawn list.
    pub fn poll_entity<'a, R>(&mut self, entities: &'a EntitySet) -> (r: (Option<Result<R, NoSuchEntity>>, WakerAction))
        where F: FnMut(EntityLoc<'a>) -> Option<R>
        requires
            entities.wf(),
            forall|l: EntityLoc<'a>| old(self).closure().requires((l,)),
        ensures
            final(self).entity() == old(self).entity(),
            entities.locations().contains_key(old(self).entity().spec_bits()) ==> exists|o: Option<R>|
                old(self).closure().ensures(
                    (EntityLoc::<'a>::spec_new(old(self).entity(), entities.locations()[old(self).entity().spec_bits()]),),
                    o,
                ) && r == spec_try_poll_step(true, o),
            !entities.locations().contains_key(old(self).entity().spec_bits())
                && entities.allocator().spec_reserved(old(self).entity().spec_bits()) is None
                ==> r == (Some(Err::<R, NoSuchEntity>(NoSuchEntity)), WakerAction::Keep) && *final(self) == *old(self),
    {
        broadcast use vstd::function::group_function_axioms;
        match self.entity.entity_loc(entities) {
            None => (Some(Err(NoSuchEntity)), WakerAction::Keep),
            Some(e) => {
                assert(self.f == old(self).closure());
                assert(old(self).closure().requires((e,)));
                let f = &mut self.f;
                let o = f(e);
                assert(old(self).closure().ensures((e,), o));
                let alive = self.entity.entity_loc(entities).is_some();
                try_poll_step(alive, o)
            },
        }
    }
}

/// What a poll does with the task's waker in the entity's list of wakers
/// to wake when the entity is despawned.
#[derive(Clone, Copy, Debug, PartialEq, Eq, Structural)]
pub enum WakerAction {
    /// Leave the list as it is.
    Keep,
    /// Add the task's waker, so that despawning the entity wakes the task.
    Register,
    /// Take the task's waker out, the future being done.
    Remove,
}

/// Outcome of a fallible entity poll after the closure answered `poll`
/// (`None` while pending), given whether the entity is still `alive`.
pub open spec fn spec_try_poll_step<R>(alive: bool, poll: Option<R>) -> (Option<Result<R, NoSuchEntity>>, WakerAction) {
    if !alive {
        (Some(Err(NoSuchEntity)), WakerAction::Keep)
    } else {
        match poll {
            None => (None, WakerAction::Register),
            Some(v) => (Some(Ok(v)), WakerAction::Remove),
        }
    }
}

/// Outcome of a fallible entity poll after the closure answered `poll`
/// (`None` while pending), given whether the entity is still `alive`:
/// an entity that is gone resolves to `NoSuchEntity`; a pending answer
/// registers the task's waker with the entity, so that despawning it wakes
/// the task; a ready answer resolves to `Ok` and takes the waker out.
pub fn try_poll_step<R>(alive: bool, poll: Option<R>) -> (r: (Option<Result<R, NoSuchEntity>>, WakerAction))
    ensures
        r == spec_try_poll_step(alive, poll),
{
    if !alive {
        return (Some(Err(NoSuchEntity)), WakerAction::Keep);
    }
    match poll {
        None => (None, WakerAction::Register),
        Some(v) => (Some(Ok(v)), WakerAction::Remove),
    }
}

impl<Q, F> PollEntityView<Q, F> {
    /// Entity polled by the future.
    pub closed spec fn entity(&self) -> EntityId {
        self.entity
    }

    /// Closure polled by the future.
    pub closed spec fn closure(&self) -> F {
        self.f
    }

    /// Query of the view.
    pub closed spec fn query(&self) -> Q {
        self.query
    }
}

impl<Q, F> TryPollEntityView<Q, F> {
    /// Entity polled by the future.
    pub closed spec fn entity(&self) -> EntityId {
        self.entity
    }

    /// Closure polled by the future.
    pub closed spec fn closure(&self) -> F {
        self.f
    }

    /// Query of the view.
    pub closed spec fn query(&self) -> Q {
        self.query
    }
}

impl FlowEntity {
    /// Entity id of the reference.
    pub closed spec fn spec_id(&self) -> EntityId {
        self.id
    }

    /// Entity reference for flows.
    pub fn new(id: EntityId) -> (r: Self)
        ensures
            r.spec_id() == id,
    {
        FlowEntity { id }
    }

    /// Returns the entity id.
    pub fn id(self) -> (r: EntityId)
        ensures
            r == self.spec_id(),
    {
        self.id
    }

    /// Returns the world reference.
    pub fn world(self) -> FlowWorld {
        FlowWorld::new()
    }

    /// Returns a future that will poll the closure with entity reference.
    pub fn poll<F>(self, f: F) -> (r: PollEntityRef<F>)
        ensures
            r.entity() == self.spec_id(),
            r.closure() == f,
    {
        PollEntityRef { entity: self.id, f, world: self.world() }
    }

    /// Returns a future that will poll the closure with entity reference,
    /// resolving to an error if the entity is despawned.
    pub fn try_poll<F>(self, f: F) -> (r: TryPollEntityRef<F>)
        ensures
            r.entity() == self.spec_id(),
            r.closure() == f,
    {
        TryPollEntityRef { entity: self.id, f, world: self.world() }
    }

    /// Returns a future that will poll the closure with entity view
    /// constructed with specified query.
    pub fn poll_view_with<Q, F>(self, query: Q, f: F) -> (r: PollEntityView<Q, F>)
        ensures
            r.entity() == self.spec_id(),
            r.closure() == f,
            r.query() == query,
    {
        PollEntityView { entity: self.id, query, f, world: self.world() }
    }

    /// Returns a future that will poll the closure with entity view
    /// constructed with specified query, resolving to an error if the
    /// entity is despawned or does not match.
    pub fn try_poll_view_with<Q, F>(self, query: Q, f: F) -> (r: TryPollEntityView<Q, F>)
        ensures
            r.entity() == self.spec_id(),
            r.closure() == f,
            r.query() == query,
    {
        TryPollEntityView { entity: self.id, query, f, world: self.world() }
    }
}

impl Entity for FlowEntity {
    open spec fn entity_id(&self) -> EntityId {
        self.spec_id()
    }

    fn id(&self) -> (r: EntityId) {
        self.id
    }

    fn lookup(&self, entities: &EntitySet) -> (r: Option<Location>)
        ensures
            entities.locations().contains_key(self.spec_id().spec_bits()) ==> r == Some(
                entities.locations()[self.spec_id().spec_bits()],
            ),
            !entities.locations().contains_key(self.spec_id().spec_bits())
                ==> entities.reserved_location(self.spec_id(), r),
    {
        self.id.lookup(entities)
    }

    fn is_alive(&self, entities: &EntitySet) -> (r: bool)
        ensures
            entities.locations().contains_key(self.spec_id().spec_bits()) ==> r,
            !entities.locations().contains_key(self.spec_id().spec_bits())
                && entities.allocator().spec_reserved(self.spec_id().spec_bits()) is None ==> !r,
    {
        Entity::is_alive(&self.id, entities)
    }

    fn entity_loc<'a>(&self, entities: &'a EntitySet) -> (r: Option<EntityLoc<'a>>)
        ensures
            entities.locations().contains_key(self.spec_id().spec_bits()) ==> r == Some(
                EntityLoc::<'a>::spec_new(self.spec_id(), entities.locations()[self.spec_id().spec_bits()]),
            ),
            !entities.locations().contains_key(self.spec_id().spec_bits())
                && entities.allocator().spec_reserved(self.spec_id().spec_bits()) is None ==> r is None,
    {
        self.id.entity_loc(entities)
    }
}

impl PartialEq<EntityId> for FlowEntity {
    fn eq(&self, other: &EntityId) -> (r: bool) {
        self.id == *other
    }
}

impl vstd::std_specs::cmp::PartialEqSpecImpl<EntityId> for FlowEntity {
    open spec fn obeys_eq_spec() -> bool {
        true
    }

    open spec fn eq_spec(&self, other: &EntityId) -> bool {
        self.spec_id() == *other
    }
}

impl PartialEq<FlowEntity> for EntityId {
    fn eq(&self, other: &FlowEntity) -> (r: bool) {
        *self == other.id
    }
}

impl vstd::std_specs::cmp::PartialEqSpecImpl<FlowEntity> for EntityId {
    open spec fn obeys_eq_spec() -> bool {
        true
    }

    open spec fn eq_spec(&self, other: &FlowEntity) -> bool {
        *self == other.spec_id()
    }
}

impl<'a> PartialEq<EntityBound<'a>> for FlowEntity {
    fn eq(&self, other: &EntityBound<'a>) -> (r: bool) {
        self.id == other.id()
    }
}

impl<'a> vstd::std_specs::cmp::PartialEqSpecImpl<EntityBound<'a>> for FlowEntity {
    open spec fn obeys_eq_spec() -> bool {
        true
    }

    open spec fn eq_spec(&self, other: &EntityBound<'a>) -> bool {
        self.spec_id() == other.spec_id()
    }
}

impl<'a> PartialEq<FlowEntity> for EntityBound<'a> {
    fn eq(&self, other: &FlowEntity) -> (r: bool) {
        self.id() == other.id
    }
}

impl<'a> vstd::std_specs::cmp::PartialEqSpecImpl<FlowEntity> for EntityBound<'a> {
    open spec fn obeys_eq_spec() -> bool {
        true
    }

    open spec fn eq_spec(&self, other: &FlowEntity) -> bool {
        self.spec_id() == other.spec_id()
    }
}

impl<'a> PartialEq<EntityLoc<'a>> for FlowEntity {
    fn eq(&self, other: &EntityLoc<'a>) -> (r: bool) {
        self.id == other.id()
    }
}

impl<'a> vstd::std_specs::cmp::PartialEqSpecImpl<EntityLoc<'a>> for FlowEntity {
    open spec fn obeys_eq_spec() -> bool {
        true
    }

    open spec fn eq_spec(&self, other: &EntityLoc<'a>) -> bool {
        self.spec_id() == other.spec_id()
    }
}

impl<'a> PartialEq<FlowEntity> for EntityLoc<'a> {
    fn eq(&self, other: &FlowEntity) -> (r: bool) {
        self.id() == other.id
    }
}

impl<'a> vstd::std_specs::cmp::PartialEqSpecImpl<FlowEntity> for EntityLoc<'a> {
    open spec fn obeys_eq_spec() -> bool {
        true
    }

    open spec fn eq_spec(&self, other: &FlowEntity) -> bool {
        self.spec_id() == other.spec_id()
    }
}

} // verus!
