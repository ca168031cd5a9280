use vstd::prelude::*;

use core::marker::PhantomData;

verus! {

/// Weak reference to an entity: an index and a non-zero generation.
/// This value can be used to access an entity, but it does not keep the entity alive.
#[derive(Clone, Copy, PartialEq, Eq, Hash, Debug, Structural)]
pub struct WeakEntity {
    gen: u32,
    id: u32,
}

impl WeakEntity {
    #[verifier::type_invariant]
    spec fn inv(self) -> bool {
        self.gen != 0
    }

    /// Generation of the reference.
    pub closed spec fn spec_gen(&self) -> u32 {
        self.gen
    }

    /// Index of the entity.
    pub closed spec fn spec_index(&self) -> u32 {
        self.id
    }

    /// Weak reference to entity `id` of generation `gen`.
    pub fn new(id: u32, gen: u32) -> (r: Self)
        requires
            gen != 0,
        ensures
            r.spec_index() == id,
            r.spec_gen() == gen,
    {
        WeakEntity { gen, id }
    }

    /// Generation of the reference; never zero.
    pub fn gen(&self) -> (r: u32)
        ensures
            r == self.spec_gen(),
            r != 0,
    {
        proof {
            use_type_invariant(self);
        }
        self.gen
    }

    /// Index of the entity.
    pub fn id(&self) -> (r: u32)
        ensures
            r == self.spec_index(),
    {
        self.id
    }
}

/// Owning reference to an entity.
/// Guarantees no strong references to the entity exists.
pub struct OwnedEntity<T> {
    weak: WeakEntity,
    marker: PhantomData<T>,
}

impl<T> OwnedEntity<T> {
    /// Weak reference of the owned entity.
    pub closed spec fn spec_weak(&self) -> WeakEntity {
        self.weak
    }

    /// Owning reference for the entity of `weak`.
    pub fn new(weak: WeakEntity) -> (r: Self)
        ensures
            r.spec_weak() == weak,
    {
        OwnedEntity { weak, marker: PhantomData }
    }

    /// Weak reference of the owned entity.
    pub fn weak(&self) -> (r: WeakEntity)
        ensures
            r == self.spec_weak(),
    {
        self.weak
    }
}

} // verus!
