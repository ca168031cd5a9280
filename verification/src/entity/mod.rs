//! Entity references.
//!
//! Alive, weak and raw ids.

pub mod allocator;
pub mod entity;
pub mod map;
pub mod queue;
pub mod set;
pub mod weak;

pub use self::allocator::{IdAllocator, IdRange, IdRangeAllocator, OneRangeAllocator};
pub use self::entity::{AliveEntity, Entity, EntityBound, EntityId, EntityLoc};
pub use self::set::{EntitySet, Location};
pub use self::weak::{OwnedEntity, WeakEntity};
