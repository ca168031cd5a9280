//! Entity bookkeeping core of an entity-component-system: entity identifiers,
//! identifier allocation from ranges, the entity set with entity locations,
//! borrow locks, hashers and the dump/load encoding of component presence.

use vstd::prelude::*;

pub mod action;
pub mod archetype;
pub mod borrow;
pub mod bundle;
pub mod dump;
pub mod entity;
pub mod epoch;
pub mod executor;
pub mod flow;
pub mod hash;
pub mod marker;
pub mod pinned;
pub mod ptr;
pub mod query;

verus! {

/// Error that may be returned when an entity is not found in the world.
#[derive(Clone, Copy, Debug, PartialEq, Eq, PartialOrd, Ord, Hash, Structural)]
pub struct NoSuchEntity;

impl NoSuchEntity {
    /// Message describing the error.
    pub fn message(&self) -> (r: &'static str)
        ensures
            r@ == "Specified entity is not found"@,
    {
        "Specified entity is not found"
    }
}

/// Error that may be returned when an entity does not have required components.
#[derive(Clone, Copy, Debug, PartialEq, Eq, PartialOrd, Ord, Hash, Structural)]
pub struct Mismatch;

impl Mismatch {
    /// Message describing the error.
    pub fn message(&self) -> (r: &'static str)
        ensures
            r@ == "Entity does not match requirements"@,
    {
        "Entity does not match requirements"
    }
}

/// Error that may be returned when fetching query from entity that
/// may be despawned.
#[derive(Clone, Copy, Debug, PartialEq, Eq, PartialOrd, Ord, Hash, Structural)]
pub enum EntityError {
    /// Error returned when an entity is not found in the world.
    NoSuchEntity,
    /// Entity alive but does not match requirements of the operations.
    /// Typicall it means that required component is missing.
    Mismatch,
}

impl EntityError {
    /// Message describing the error: that of the error it stands for.
    pub fn message(&self) -> (r: &'static str)
        ensures
            *self == EntityError::NoSuchEntity ==> r@ == "Specified entity is not found"@,
            *self == EntityError::Mismatch ==> r@ == "Entity does not match requirements"@,
    {
        match self {
            EntityError::NoSuchEntity => NoSuchEntity.message(),
            EntityError::Mismatch => Mismatch.message(),
        }
    }
}

impl From<NoSuchEntity> for EntityError {
    fn from(_e: NoSuchEntity) -> (r: Self) {
        EntityError::NoSuchEntity
    }
}

impl vstd::std_specs::convert::FromSpecImpl<NoSuchEntity> for EntityError {
    open spec fn obeys_from_spec() -> bool {
        true
    }

    open spec fn from_spec(v: NoSuchEntity) -> EntityError {
        EntityError::NoSuchEntity
    }
}

impl From<Mismatch> for EntityError {
    fn from(_e: Mismatch) -> (r: Self) {
        EntityError::Mismatch
    }
}

impl vstd::std_specs::convert::FromSpecImpl<Mismatch> for EntityError {
    open spec fn obeys_from_spec() -> bool {
        true
    }

    open spec fn from_spec(v: Mismatch) -> EntityError {
        EntityError::Mismatch
    }
}

/// Turns the result of an operation on an entity known to exist into an
/// option: a missing component gives `None`.
pub(crate) fn assume_entity_exists<T>(r: Result<T, EntityError>) -> (o: Option<T>)
    requires
        !(r matches Err(EntityError::NoSuchEntity)),
    ensures
        r matches Ok(v) ==> o == Some(v),
        r is Err ==> o is None,
{
    match r {
        Ok(value) => Some(value),
        Err(_) => None,
    }
}

/// Shorter version of `TypeId::of::<T>()`.
#[verifier::external_body]
pub(crate) fn type_id<T: ?Sized + 'static>() -> core::any::TypeId {
    core::any::TypeId::of::<T>()
}

/// Specifies kind of access query performs for particular component.
#[derive(Clone, Copy, Debug, PartialEq, Eq, PartialOrd, Ord, Hash, Structural)]
pub enum Access {
    /// Shared access to component. Can be aliased with other [`Access::Read`] accesses.
    Read,
    /// Cannot be aliased with any other access.
    Write,
}


} // verus!
