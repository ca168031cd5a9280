use vstd::prelude::*;

use core::sync::atomic::{AtomicU64, Ordering};

use super::allocator::{IdAllocator, IdRange, IdRangeAllocator, END, START};
use super::entity::{EntityId, EntityLoc};
use super::map::{location_map_contents, LocationMap};

verus! {

/// Entity location in archetypes.
#[derive(Clone, Copy, Debug, PartialEq, Eq, PartialOrd, Ord, Hash, Structural)]
pub struct Location {
    /// Archetype index.
    pub arch: u32,
    /// Index within archetype.
    pub idx: u32,
}

/// Archetype index of entities that are reserved but not yet spawned.
pub const RESERVED_ARCH: u32 = 0xffff_ffff;

impl Location {
    /// Creates a new location instance.
    pub fn new(arch_idx: u32, idx: u32) -> (r: Self)
        ensures
            r == (Location { arch: arch_idx, idx }),
    {
        Location { arch: arch_idx, idx }
    }

    /// Creates a new location instance with empty archetype index.
    pub fn empty(idx: u32) -> (r: Self)
        ensures
            r == (Location { arch: 0, idx }),
    {
        Location { arch: 0, idx }
    }

    /// Creates a new location instance with reserved archetype index.
    pub fn reserved(idx: u32) -> (r: Self)
        ensures
            r == (Location { arch: RESERVED_ARCH, idx }),
    {
        Location { arch: RESERVED_ARCH, idx }
    }
}

/// Location reported for an entity that is not spawned, given its
/// reservation index (if any) and the number of reservations made so far.
pub open spec fn spec_reserved_location(reserve_idx: Option<u64>, reserved: u64) -> Option<Location> {
    match reserve_idx {
        Some(idx) => if idx < reserved {
            Some(Location { arch: RESERVED_ARCH, idx: idx as u32 })
        } else {
            None
        },
        None => None,
    }
}

/// Location reported for an entity that is not spawned, given its
/// reservation index (if any) and the number of reservations made so far.
pub fn reserved_location(reserve_idx: Option<u64>, reserved: u64) -> (r: Option<Location>)
    ensures
        r == spec_reserved_location(reserve_idx, reserved),
{
    match reserve_idx {
        Some(idx) => if idx < reserved {
            Some(Location::reserved(idx as u32))
        } else {
            None
        },
        None => None,
    }
}

/// Collection of entities with mapping to their location.
///
/// User typically interacts with `World` that contains `EntitySet` internally.
/// When API needs `EntitySet`, `World::entities()` method is used to get it.
pub struct EntitySet {
    map: LocationMap,
    id_allocator: IdAllocator,
    reserve_counter: AtomicU64,
}

impl EntitySet {
    /// Locations of spawned entities, keyed by raw entity id.
    pub closed spec fn locations(&self) -> Map<u64, Location> {
        location_map_contents(self.map)
    }

    /// The identifier allocator of the set.
    pub closed spec fn allocator(&self) -> IdAllocator {
        self.id_allocator
    }

    /// Well-formedness of the set: its identifier allocator is well formed.
    pub closed spec fn wf(&self) -> bool {
        self.id_allocator.wf()
    }

    /// `r` is what `get_location` may answer for an entity that is not
    /// spawned: nothing, or the reserved location of its reservation index.
    pub open spec fn reserved_location(&self, id: EntityId, r: Option<Location>) -> bool {
        match r {
            None => true,
            Some(loc) => {
                &&& loc.arch == RESERVED_ARCH
                &&& self.allocator().spec_reserved(id.spec_bits()) is Some
                &&& loc.idx == self.allocator().spec_reserved(id.spec_bits())->0 as u32
            },
        }
    }

    /// The locations after spawning the entities reserved under the first
    /// `n` reservation indices: each is placed into the empty archetype,
    /// everything else stays.
    pub open spec fn spawned_reserved(
        old_set: EntitySet,
        new_locations: Map<u64, Location>,
        n: u64,
    ) -> bool {
        let spawned = old_set.allocator().reserved_prefix(n);
        &&& new_locations.dom() == old_set.locations().dom().union(spawned)
        &&& forall|k: u64| #[trigger] spawned.contains(k) ==> new_locations[k].arch == 0
        &&& forall|k: u64|
            #[trigger] old_set.locations().contains_key(k) && !spawned.contains(k)
                ==> new_locations[k] == old_set.locations()[k]
    }

    /// Setting a location and then looking it up gives it back, and leaves
    /// every other entity's location as it was; despawning an entity that is
    /// neither spawned nor reserved afterwards leaves nothing to find.
    pub proof fn lemma_location_after_write(
        before: EntitySet,
        after: EntitySet,
        id: EntityId,
        loc: Location,
        other: u64,
    )
        requires
            after.locations() == before.locations().insert(id.spec_bits(), loc),
        ensures
            after.locations().contains_key(id.spec_bits()),
            after.locations()[id.spec_bits()] == loc,
            other != id.spec_bits() ==> after.locations().contains_key(other)
                == before.locations().contains_key(other),
            other != id.spec_bits() && before.locations().contains_key(other)
                ==> after.locations()[other] == before.locations()[other],
    {
    }

    /// After a despawn the entity is not spawned, and a lookup finds it only
    /// through a reservation.
    pub proof fn lemma_despawned_not_found(after: EntitySet, id: EntityId, r: Option<Location>)
        requires
            !after.locations().contains_key(id.spec_bits()),
            after.allocator().spec_reserved(id.spec_bits()) is None,
            after.reserved_location(id, r),
        ensures
            r is None,
    {
    }

    /// Creates a new entity set.
    pub fn new() -> (s: Self)
        ensures
            s.wf(),
            s.locations() == Map::<u64, Location>::empty(),
            s.allocator().current() == (IdRange { start: START, end: END }),
            s.allocator().upcoming() == (IdRange { start: END, end: END }),
            s.allocator().handed() == Set::<u64>::empty(),
    {
        EntitySet {
            map: LocationMap::new(),
            id_allocator: IdAllocator::new(),
            reserve_counter: AtomicU64::new(0),
        }
    }

    /// Creates a new entity set with custom ID range allocator.
    ///
    /// Custom range allocator is typically used to create
    /// entity sets that allocate IDs without collisions.
    pub fn with_allocator(id_allocator: Box<dyn IdRangeAllocator>) -> (s: Self)
        ensures
            s.wf(),
            s.locations() == Map::<u64, Location>::empty(),
            s.allocator().handed() == Set::<u64>::empty(),
            id_allocator.used().subset_of(s.allocator().used()),
            s.allocator().current().ids().disjoint(id_allocator.used()),
            s.allocator().upcoming().ids().disjoint(id_allocator.used()),
            s.allocator().current() == id_allocator.range_at(0).proper_range(),
            s.allocator().upcoming() == id_allocator.range_at(1).proper_range(),
            forall|k: nat| #[trigger] s.allocator().fresh(k) == id_allocator.range_at(k + 2),
    {
        let id_allocator = Some(id_allocator);
        let s = Self::from_allocator(id_allocator);
        s
    }

    /// Creates a new entity set whose ID ranges come from `id_allocator`;
    /// without one, no ID can be allocated.
    ///
    /// Same as `with_allocator` for `Some`; the allocator passed inside an
    /// `Option` keeps, for the verifier, the identity of the value the caller
    /// built, so its `range_at` can be followed into the set's allocator.
    pub fn from_allocator(id_allocator: Option<Box<dyn IdRangeAllocator>>) -> (s: Self)
        ensures
            s.wf(),
            s.locations() == Map::<u64, Location>::empty(),
            s.allocator().handed() == Set::<u64>::empty(),
            id_allocator matches Some(b) ==> b.used().subset_of(s.allocator().used())
                && s.allocator().current().ids().disjoint(b.used())
                && s.allocator().upcoming().ids().disjoint(b.used())
                && s.allocator().current() == b.range_at(0).proper_range()
                && s.allocator().upcoming() == b.range_at(1).proper_range()
                && forall|k: nat| #[trigger] s.allocator().fresh(k) == b.range_at(k + 2),
            id_allocator is None ==> s.allocator().exhausted(),
    {
        let id_allocator = IdAllocator::from_range_allocator(id_allocator);
        EntitySet {
            map: LocationMap::new(),
            id_allocator,
            reserve_counter: AtomicU64::new(0),
        }
    }

    /// Spawns entity with new ID in specified archetype.
    /// Calls provided closure to place entity into archetype and acquire index.
    /// Returns entity ID and location.
    pub fn spawn<F: FnOnce(EntityId) -> u32>(&mut self, arch: u32, f: F) -> (r: (EntityId, Location))
        requires
            old(self).wf(),
            !old(self).allocator().exhausted(),
            forall|id: EntityId| f.requires((id,)),
        ensures
            final(self).wf(),
            r.0.spec_bits() == old(self).allocator().next_id(),
            !old(self).allocator().handed().contains(r.0.spec_bits()),
            final(self).allocator().handed() == old(self).allocator().handed().insert(r.0.spec_bits()),
            r.1.arch == arch,
            f.ensures((r.0,), r.1.idx),
            final(self).locations() == old(self).locations().insert(r.0.spec_bits(), r.1),
    {
        let id = match self.id_allocator.next() {
            Some(id) => id,
            None => {
                proof {
                    assert(false);
                }
                1
            },
        };
        let id = EntityId::new(id);
        let loc = Location { arch, idx: f(id) };
        let _old = self.map.insert(id.bits(), loc);
        (id, loc)
    }

    /// Spawns entity with specified ID in specified archetype.
    /// If entity with specified ID already exists, returns its `false` and its location.
    /// Otherwise calls provided closure to place entity into archetype and acquire index.
    /// And then returns `true` and entity location.
    pub fn spawn_at<F: FnOnce() -> u32>(&mut self, id: EntityId, arch: u32, f: F) -> (r: (bool, Location))
        requires
            old(self).wf(),
            f.requires(()),
        ensures
            final(self).wf(),
            final(self).allocator() == old(self).allocator(),
            old(self).locations().contains_key(id.spec_bits()) ==> r == (false, old(self).locations()[id.spec_bits()])
                && final(self).locations() == old(self).locations(),
            !old(self).locations().contains_key(id.spec_bits()) ==> r.0 && r.1.arch == arch
                && f.ensures((), r.1.idx)
                && final(self).locations() == old(self).locations().insert(id.spec_bits(), r.1),
    {
        match self.map.get(id.bits()) {
            Some(loc) => (false, loc),
            None => {
                let loc = Location { arch, idx: f() };
                let _old = self.map.insert(id.bits(), loc);
                (true, loc)
            },
        }
    }

    /// Adds one to the reservation counter, returning its previous value.
    fn bump_reserved(&self) -> u64 {
        self.reserve_counter.fetch_add(1, Ordering::Relaxed)
    }

    /// Takes one back from the reservation counter.
    fn unbump_reserved(&self) {
        self.reserve_counter.fetch_sub(1, Ordering::Relaxed);
    }

    /// Number of reservations made since the last flush.
    fn load_reserved(&self) -> u64 {
        self.reserve_counter.load(Ordering::Acquire)
    }

    /// Resets the reservation counter, returning its previous value.
    fn take_reserved(&self) -> u64 {
        self.reserve_counter.swap(0, Ordering::Relaxed)
    }

    /// Allocate entity ID without spawning.
    /// Entity is place into "reserved" archetype at index `u32::MAX`.
    /// Allocated entities must be spawned with `spawn_allocated`
    /// before any other entity is spawned.
    ///
    /// Returns `None` when too many IDs are reserved or the reserved ranges
    /// hold no more IDs.
    pub fn alloc_id(&self) -> (r: Option<EntityLoc<'_>>)
        requires
            self.wf(),
        ensures
            r matches Some(e) ==> e.spec_loc().arch == RESERVED_ARCH
                && self.allocator().spec_reserve(e.spec_loc().idx as u64) == Some(e.spec_id().spec_bits()),
    {
        let idx = self.bump_reserved();
        match self.reserved_entity(idx) {
            None => {
                self.unbump_reserved();
                None
            },
            Some(e) => Some(e),
        }
    }

    /// Entity that reservation index `idx` stands for, placed into the
    /// reserved archetype at that index.
    /// Returns `None` when the index does not fit in an archetype index or
    /// the reserved ranges hold no identifier for it.
    pub fn reserved_entity(&self, idx: u64) -> (r: Option<EntityLoc<'_>>)
        requires
            self.wf(),
        ensures
            r is Some <==> idx < 0xffff_ffff && self.allocator().spec_reserve(idx) is Some,
            r matches Some(e) ==> Some(e.spec_id().spec_bits()) == self.allocator().spec_reserve(idx)
                && e.spec_loc() == (Location { arch: RESERVED_ARCH, idx: idx as u32 }),
    {
        if idx >= 0xffff_ffff {
            return None;
        }
        match self.id_allocator.reserve(idx) {
            None => None,
            Some(id) => Some(EntityLoc::from_parts(EntityId::new(id), Location::reserved(idx as u32))),
        }
    }

    /// Spawns all allocated entities.
    pub fn spawn_allocated<F: FnMut(EntityId) -> u32>(&mut self, f: F)
        requires
            old(self).wf(),
            forall|id: EntityId| f.requires((id,)),
        ensures
            final(self).wf(),
            exists|n: u64|
                Self::spawned_reserved(*old(self), final(self).locations(), n)
                    && final(self).allocator().handed() == old(self).allocator().handed().union(
                    old(self).allocator().reserved_prefix(n),
                ),
    {
        let reserved = self.take_reserved();
        self.spawn_reserved(reserved, f);
    }

    /// Spawns the entities reserved under the first `reserved` reservation
    /// indices into the empty archetype, in reservation order, at the indices
    /// that `f` gives for them, and hands their ids out.
    pub fn spawn_reserved<F: FnMut(EntityId) -> u32>(&mut self, reserved: u64, f: F)
        requires
            old(self).wf(),
            forall|id: EntityId| f.requires((id,)),
        ensures
            final(self).wf(),
            Self::spawned_reserved(*old(self), final(self).locations(), reserved),
            final(self).allocator().handed() == old(self).allocator().handed().union(
                old(self).allocator().reserved_prefix(reserved),
            ),
    {
        let mut f = f;
        if reserved == 0 {
            assert(Self::spawned_reserved(*old(self), self.locations(), 0)) by {
                assert(old(self).allocator().reserved_prefix(0) =~= Set::empty());
                assert(self.locations().dom() =~= old(self).locations().dom().union(Set::empty()));
            }
            assert(old(self).allocator().handed() =~= old(self).allocator().handed().union(
                old(self).allocator().reserved_prefix(0),
            ));
            return;
        }
        let ghost old_alloc = self.id_allocator;
        let (a, b) = self.id_allocator.flush_reserved(reserved);
        proof {
            assert(old_alloc.reserved_prefix(reserved) =~= a.ids().union(b.ids())) by {
                assert forall|k: u64| #[trigger] old_alloc.reserved_prefix(reserved).contains(k)
                    implies a.ids().union(b.ids()).contains(k) by {
                    let i = choose|i: u64| i < reserved && #[trigger] old_alloc.spec_reserve(i) == Some(k);
                    assert(old_alloc.spec_reserve(i) == Some(k));
                }
                assert forall|k: u64| #[trigger] a.ids().union(b.ids()).contains(k)
                    implies old_alloc.reserved_prefix(reserved).contains(k) by {
                    if a.ids().contains(k) {
                        let i = (k - a.start) as u64;
                        assert(old_alloc.spec_reserve(i) == Some(k));
                    } else {
                        let i = (a.len() + k - b.start) as u64;
                        assert(old_alloc.spec_reserve(i) == Some(k));
                    }
                }
            }
        }
        let ghost l0 = self.locations();
        self.spawn_range(a, &mut f);
        let ghost l1 = self.locations();
        self.spawn_range(b, &mut f);
        proof {
            let spawned = old_alloc.reserved_prefix(reserved);
            assert(old(self).allocator() == old_alloc);
            assert(l0 == old(self).locations());
            assert(self.locations().dom() =~= old(self).locations().dom().union(spawned));
            assert forall|k: u64| #[trigger] spawned.contains(k) implies self.locations()[k].arch == 0 by {
                if !b.ids().contains(k) {
                    assert(a.ids().contains(k));
                    assert(l1[k].arch == 0);
                    assert(l1.contains_key(k));
                }
            }
            assert forall|k: u64|
                #[trigger] old(self).locations().contains_key(k) && !spawned.contains(k)
                    implies self.locations()[k] == old(self).locations()[k] by {
                assert(!a.ids().contains(k));
                assert(!b.ids().contains(k));
                assert(l1.contains_key(k));
            }
        }
        assert(Self::spawned_reserved(*old(self), self.locations(), reserved));
    }

    /// Places every id of `range` into the empty archetype at the index
    /// that `f` gives for it.
    fn spawn_range<F: FnMut(EntityId) -> u32>(&mut self, range: IdRange, f: &mut F)
        requires
            range.wf(),
            range.ordered(),
            forall|id: EntityId| (*old(f)).requires((id,)),
        ensures
            final(self).wf() == old(self).wf(),
            final(self).allocator() == old(self).allocator(),
            forall|id: EntityId| (*final(f)).requires((id,)),
            final(self).locations().dom() == old(self).locations().dom().union(range.ids()),
            forall|k: u64| #[trigger] range.ids().contains(k) ==> final(self).locations()[k].arch == 0,
            forall|k: u64|
                #[trigger] old(self).locations().contains_key(k) && !range.ids().contains(k)
                    ==> final(self).locations()[k] == old(self).locations()[k],
    {
        let mut id = range.start;
        while id < range.end
            invariant
                range.start <= id <= range.end,
                range.start != 0,
                self.allocator() == old(self).allocator(),
                forall|e: EntityId| (*f).requires((e,)),
                self.wf() == old(self).wf(),
                self.locations().dom() == old(self).locations().dom().union(
                    Set::new(|k: u64| range.start <= k < id),
                ),
                forall|k: u64| range.start <= k < id ==> #[trigger] self.locations()[k].arch == 0,
                forall|k: u64|
                    #[trigger] old(self).locations().contains_key(k) && !(range.start <= k < id)
                        ==> self.locations()[k] == old(self).locations()[k],
            decreases range.end - id,
        {
            let e = EntityId::new(id);
            let idx = f(e);
            let _old = self.map.insert(id, Location { arch: 0, idx });
            assert(self.locations().dom() =~= old(self).locations().dom().union(
                Set::new(|k: u64| range.start <= k < id + 1),
            ));
            id = id + 1;
        }
        assert(Set::new(|k: u64| range.start <= k < id) =~= range.ids());
    }

    /// Despawns entity with specified ID.
    pub fn despawn(&mut self, id: EntityId) -> (r: Option<Location>)
        requires
            old(self).wf(),
        ensures
            final(self).wf(),
            final(self).allocator() == old(self).allocator(),
            r == old(self).locations().get(id.spec_bits()),
            final(self).locations() == old(self).locations().remove(id.spec_bits()),
    {
        self.map.remove(id.bits())
    }

    /// Set location for entity with specified ID.
    pub fn set_location(&mut self, id: EntityId, loc: Location)
        requires
            old(self).wf(),
        ensures
            final(self).wf(),
            final(self).allocator() == old(self).allocator(),
            final(self).locations() == old(self).locations().insert(id.spec_bits(), loc),
    {
        let _old = self.map.insert(id.bits(), loc);
    }

    /// Returns location for entity with specified ID.
    pub fn get_location(&self, id: EntityId) -> (r: Option<Location>)
        requires
            self.wf(),
        ensures
            self.locations().contains_key(id.spec_bits()) ==> r == Some(
                self.locations()[id.spec_bits()],
            ),
            !self.locations().contains_key(id.spec_bits()) ==> self.reserved_location(id, r),
    {
        match self.map.get(id.bits()) {
            None => {
                let reserved = self.load_reserved();
                let idx = self.id_allocator.reserved(id.non_zero());
                reserved_location(idx, reserved)
            },
            Some(loc) => Some(loc),
        }
    }

    /// Checks whether the entity is spawned or reserved.
    pub fn is_alive(&self, id: EntityId) -> (r: bool)
        requires
            self.wf(),
        ensures
            self.locations().contains_key(id.spec_bits()) ==> r,
            !self.locations().contains_key(id.spec_bits())
                && self.allocator().spec_reserved(id.spec_bits()) is None ==> !r,
    {
        self.get_location(id).is_some()
    }

    /// Reserves capacity for at least `additional` more
    /// entities to be inserted.
    pub fn reserve(&mut self, additional: u32)
        requires
            old(self).wf(),
            (old(self).locations().len() + additional) * 64 <= isize::MAX,
        ensures
            final(self).wf(),
            final(self).allocator() == old(self).allocator(),
            final(self).locations() == old(self).locations(),
    {
        self.map.reserve(additional as usize);
    }

    /// Reserves capacity for at least `additional` more entities where the
    /// grown table stays within the bounds `reserve` requires, and returns
    /// whether it did; otherwise leaves the set as it is.
    pub fn try_reserve(&mut self, additional: u32) -> (r: bool)
        requires
            old(self).wf(),
        ensures
            r == ((old(self).locations().len() + additional) * 64 <= isize::MAX),
            final(self).wf(),
            final(self).allocator() == old(self).allocator(),
            final(self).locations() == old(self).locations(),
    {
        let n = self.map.len();
        let fits = match n.checked_add(additional as usize) {
            Some(total) => match total.checked_mul(64) {
                Some(bytes) => bytes <= isize::MAX as usize,
                None => false,
            },
            None => false,
        };
        if fits {
            self.reserve(additional);
        }
        fits
    }
}

} // verus!
