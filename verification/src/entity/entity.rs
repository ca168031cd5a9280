use vstd::prelude::*;

use core::marker::PhantomData;

use super::allocator::END;
use super::set::{EntitySet, Location};

verus! {

/// Entity ID.
/// The ID is unique within the world.
#[derive(Clone, Copy, PartialEq, Eq, PartialOrd, Ord, Hash, Debug, Structural)]
pub struct EntityId {
    id: u64,
}

impl EntityId {
    #[verifier::type_invariant]
    spec fn inv(self) -> bool {
        self.id != 0
    }

    /// Raw bits of the entity ID.
    pub closed spec fn spec_bits(&self) -> u64 {
        self.id
    }

    /// Entity ID with the given raw bits, unless they are zero.
    pub closed spec fn spec_from_bits(bits: u64) -> Option<EntityId> {
        if bits == 0 {
            None
        } else {
            Some(EntityId { id: bits })
        }
    }

    /// Returns a dangling entity ID that no real entity can have.
    pub fn dangling() -> (e: Self)
        ensures
            e.spec_bits() == END,
    {
        EntityId { id: END }
    }

    /// Entity ID with the given non-zero raw bits.
    pub(crate) fn new(id: u64) -> (e: Self)
        requires
            id != 0,
        ensures
            e.spec_bits() == id,
    {
        EntityId { id }
    }

    /// Non-zero raw bits of the entity ID.
    pub(crate) fn non_zero(&self) -> (r: u64)
        ensures
            r == self.spec_bits(),
            r != 0,
    {
        proof {
            use_type_invariant(self);
        }
        self.id
    }

    /// Returns the raw bits of the entity ID.
    #[verifier::when_used_as_spec(spec_bits)]
    pub fn bits(&self) -> (r: u64)
        ensures
            r == self.spec_bits(),
            r != 0,
    {
        proof {
            use_type_invariant(self);
        }
        self.id
    }

    /// Returns the entity ID from the raw bits.
    /// Returns none if the bits are zero.
    pub fn from_bits(bits: u64) -> (r: Option<Self>)
        ensures
            r == Self::spec_from_bits(bits),
            r is Some <==> bits != 0,
            r matches Some(e) ==> e.spec_bits() == bits,
    {
        if bits == 0 {
            None
        } else {
            Some(EntityId { id: bits })
        }
    }

    /// Converting an entity ID into bits and back gives the same ID,
    /// and two IDs with the same bits are equal.
    pub proof fn lemma_bits_roundtrip(e: EntityId, f: EntityId)
        requires
            e.spec_bits() != 0,
        ensures
            Self::spec_from_bits(e.spec_bits()) == Some(e),
            e.spec_bits() == f.spec_bits() ==> e == f,
    {
    }
}

/// General entity reference.
pub trait Entity: Copy {
    /// Entity id this reference stands for.
    spec fn entity_id(&self) -> EntityId;

    /// Returns entity id which is the weakest reference to the entity.
    fn id(&self) -> (r: EntityId)
        ensures
            r == self.entity_id(),
    ;

    /// Returns entity location if it is alive.
    fn lookup(&self, entities: &EntitySet) -> (r: Option<Location>)
        requires
            entities.wf(),
    ;

    /// Checks if the entity is alive.
    fn is_alive(&self, entities: &EntitySet) -> (r: bool)
        requires
            entities.wf(),
    ;

    /// Returns entity with bound location if it is alive.
    fn entity_loc<'a>(&self, entities: &'a EntitySet) -> (r: Option<EntityLoc<'a>>)
        requires
            entities.wf(),
        ensures
            r matches Some(l) ==> l.spec_id() == self.entity_id(),
    ;
}

/// Entity which must stay alive while the reference is alive.
/// Produced by queries that yield related entities.
pub trait AliveEntity: Entity {
    /// Returns entity location.
    fn locate(&self, entities: &EntitySet) -> (r: Location)
        requires
            entities.wf(),
            entities.locations().contains_key(self.entity_id().spec_bits()),
    ;
}

impl Entity for EntityId {
    open spec fn entity_id(&self) -> EntityId {
        *self
    }

    fn id(&self) -> (r: EntityId) {
        *self
    }

    fn lookup(&self, entities: &EntitySet) -> (r: Option<Location>)
        ensures
            entities.locations().contains_key(self.spec_bits()) ==> r == Some(
                entities.locations()[self.spec_bits()],
            ),
            !entities.locations().contains_key(self.spec_bits()) ==> entities.reserved_location(
                *self,
                r,
            ),
    {
        entities.get_location(*self)
    }

    fn is_alive(&self, entities: &EntitySet) -> (r: bool)
        ensures
            entities.locations().contains_key(self.spec_bits()) ==> r,
            !entities.locations().contains_key(self.spec_bits())
                && entities.allocator().spec_reserved(self.spec_bits()) is None ==> !r,
    {
        entities.is_alive(*self)
    }

    fn entity_loc<'a>(&self, entities: &'a EntitySet) -> (r: Option<EntityLoc<'a>>)
        ensures
            entities.locations().contains_key(self.spec_bits()) ==> r == Some(
                EntityLoc::<'a>::spec_new(*self, entities.locations()[self.spec_bits()]),
            ),
            !entities.locations().contains_key(self.spec_bits())
                && entities.allocator().spec_reserved(self.spec_bits()) is None ==> r is None,
    {
        match entities.get_location(*self) {
            Some(loc) => Some(EntityLoc::from_parts(*self, loc)),
            None => None,
        }
    }
}

/// Entity reference that is guaranteed to be alive.
/// The value is bound to the world borrow
/// that prevents the entity from being removed.
#[derive(Clone, Copy, PartialEq, Eq, PartialOrd, Ord, Hash, Debug)]
pub struct EntityBound<'a> {
    id: EntityId,
    world: PhantomData<&'a ()>,
}

impl<'a> EntityBound<'a> {
    /// Entity id of the bound entity.
    pub closed spec fn spec_id(&self) -> EntityId {
        self.id
    }

    /// Returns entity id.
    pub fn id(&self) -> (r: EntityId)
        ensures
            r == self.spec_id(),
    {
        self.id
    }

    /// Binds an entity id known to be alive.
    pub(crate) fn new(id: EntityId) -> (r: Self)
        ensures
            r.spec_id() == id,
    {
        EntityBound { id, world: PhantomData }
    }
}

impl<'a> Entity for EntityBound<'a> {
    open spec fn entity_id(&self) -> EntityId {
        self.spec_id()
    }

    fn id(&self) -> (r: EntityId) {
        self.id
    }

    fn lookup(&self, entities: &EntitySet) -> (r: Option<Location>)
        ensures
            entities.locations().contains_key(self.spec_id().spec_bits()) ==> r == Some(
                entities.locations()[self.spec_id().spec_bits()],
            ),
    {
        entities.get_location(self.id)
    }

    fn is_alive(&self, _entities: &EntitySet) -> (r: bool)
        ensures
            r,
    {
        true
    }

    fn entity_loc<'b>(&self, entities: &'b EntitySet) -> (r: Option<EntityLoc<'b>>)
        ensures
            entities.locations().contains_key(self.spec_id().spec_bits()) ==> r == Some(
                EntityLoc::<'b>::spec_new(self.spec_id(), entities.locations()[self.spec_id().spec_bits()]),
            ),
    {
        match entities.get_location(self.id) {
            Some(loc) => Some(EntityLoc::from_parts(self.id, loc)),
            None => None,
        }
    }
}

impl<'a> AliveEntity for EntityBound<'a> {
    fn locate(&self, entities: &EntitySet) -> (r: Location)
        ensures
            r == entities.locations()[self.spec_id().spec_bits()],
    {
        match entities.get_location(self.id) {
            Some(loc) => loc,
            None => Location::new(0, 0),
        }
    }
}

/// Entity reference that is guaranteed to be alive.
/// The value is bound to the world borrow
/// that prevents the entity from being removed.
/// The entity location is known.
#[derive(Clone, Copy, PartialEq, Eq, PartialOrd, Ord, Hash, Debug)]
pub struct EntityLoc<'a> {
    id: EntityId,
    loc: Location,
    world: PhantomData<&'a ()>,
}

impl<'a> EntityLoc<'a> {
    /// Entity id of the referenced entity.
    pub closed spec fn spec_id(&self) -> EntityId {
        self.id
    }

    /// Location of the referenced entity.
    pub closed spec fn spec_loc(&self) -> Location {
        self.loc
    }

    /// Entity reference with the given id and location.
    pub closed spec fn spec_new(id: EntityId, loc: Location) -> EntityLoc<'a> {
        EntityLoc { id, loc, world: PhantomData }
    }

    /// Entity reference from an id and a known location.
    pub(crate) fn from_parts(id: EntityId, loc: Location) -> (r: Self)
        ensures
            r == Self::spec_new(id, loc),
            r.spec_id() == id,
            r.spec_loc() == loc,
    {
        EntityLoc { id, loc, world: PhantomData }
    }

    /// Entity reference for an alive entity, located in `entities`.
    pub(crate) fn from_alive<E: AliveEntity>(entity: E, entities: &EntitySet) -> (r: Self)
        requires
            entities.wf(),
            entities.locations().contains_key(entity.entity_id().spec_bits()),
        ensures
            r.spec_id() == entity.entity_id(),
    {
        let id = entity.id();
        let loc = entity.locate(entities);
        EntityLoc { id, loc, world: PhantomData }
    }

    /// Returns entity id.
    pub fn id(&self) -> (r: EntityId)
        ensures
            r == self.spec_id(),
    {
        self.id
    }

    /// Returns entity location.
    pub fn location(&self) -> (r: Location)
        ensures
            r == self.spec_loc(),
    {
        self.loc
    }
}

impl<'a> Entity for EntityLoc<'a> {
    open spec fn entity_id(&self) -> EntityId {
        self.spec_id()
    }

    fn id(&self) -> (r: EntityId) {
        self.id
    }

    fn lookup(&self, _entities: &EntitySet) -> (r: Option<Location>)
        ensures
            r == Some(self.spec_loc()),
    {
        Some(self.loc)
    }

    fn is_alive(&self, _entities: &EntitySet) -> (r: bool)
        ensures
            r,
    {
        true
    }

    fn entity_loc<'b>(&self, _entities: &'b EntitySet) -> (r: Option<EntityLoc<'b>>)
        ensures
            r == Some(EntityLoc::<'b>::spec_new(self.spec_id(), self.spec_loc())),
    {
        Some(EntityLoc::from_parts(self.id, self.loc))
    }
}

impl<'a> AliveEntity for EntityLoc<'a> {
    fn locate(&self, _entities: &EntitySet) -> (r: Location)
        ensures
            r == self.spec_loc(),
    {
        self.loc
    }
}

impl<'a> PartialEq<EntityBound<'a>> for EntityId {
    fn eq(&self, other: &EntityBound<'a>) -> (r: bool) {
        *self == other.id
    }
}

impl<'a> vstd::std_specs::cmp::PartialEqSpecImpl<EntityBound<'a>> for EntityId {
    open spec fn obeys_eq_spec() -> bool {
        true
    }

    open spec fn eq_spec(&self, other: &EntityBound<'a>) -> bool {
        *self == other.spec_id()
    }
}

impl<'a> PartialEq<EntityLoc<'a>> for EntityId {
    fn eq(&self, other: &EntityLoc<'a>) -> (r: bool) {
        *self == other.id
    }
}

impl<'a> vstd::std_specs::cmp::PartialEqSpecImpl<EntityLoc<'a>> for EntityId {
    open spec fn obeys_eq_spec() -> bool {
        true
    }

    open spec fn eq_spec(&self, other: &EntityLoc<'a>) -> bool {
        *self == other.spec_id()
    }
}

} // verus!
