//! Chunk arithmetic of archetype storage: entities are grouped in chunks
//! of `CHUNK_LEN` for change tracking.

use vstd::prelude::*;

use core::any::TypeId;

use crate::bundle::component_slot;
use crate::entity::EntityId;

verus! {

/// Number of entities in a chunk.
pub const CHUNK_LEN: u32 = 0x100;

/// Index of the chunk that holds entity index `idx`.
pub fn chunk_idx(idx: u32) -> (r: u32)
    ensures
        r == idx / CHUNK_LEN,
{
    assert(idx >> 8u32 == idx / 0x100) by (bit_vector);
    idx >> 8u32
}

/// Chunk count kept for `entities` entities: `entities + (CHUNK_LEN - 1) / CHUNK_LEN`,
/// which is at least the number of chunks that the entities occupy.
pub fn chunks_count(entities: u32) -> (r: u32)
    ensures
        r == entities + ((CHUNK_LEN - 1) as u32) / CHUNK_LEN,
        r == entities,
{
    entities + (CHUNK_LEN - 1) / CHUNK_LEN
}

/// Chunk index of `idx` when `idx` is the first entity of its chunk.
pub fn first_of_chunk(idx: u32) -> (r: Option<u32>)
    ensures
        r == (if idx % CHUNK_LEN == 0 { Some(idx / CHUNK_LEN) } else { None::<u32> }),
{
    if idx % CHUNK_LEN == 0 {
        Some(chunk_idx(idx))
    } else {
        None
    }
}

/// Every entity index below `entities` lies in a chunk below
/// `chunks_count(entities)`, and a chunk's first index maps back to it.
pub proof fn lemma_chunks_cover(entities: u32, idx: u32, chunk: u32)
    ensures
        idx < entities ==> idx / CHUNK_LEN < entities + ((CHUNK_LEN - 1) as u32) / CHUNK_LEN,
        (chunk as int) * CHUNK_LEN <= u32::MAX ==> ((chunk * CHUNK_LEN) as u32) / CHUNK_LEN == chunk
            && ((chunk * CHUNK_LEN) as u32) % CHUNK_LEN == 0,
{
}

/// Change-tracking epochs of one component of an archetype: the epoch of
/// the component's latest change, one per chunk of entity slots and one per
/// entity slot. Each slot's epoch is at most its chunk's, and each chunk's
/// at most the component's, so that a chunk older than an epoch holds no
/// entity changed after it.
pub struct ComponentEpochs {
    epoch: u64,
    chunk_epochs: Vec<u64>,
    entity_epochs: Vec<u64>,
}

impl ComponentEpochs {
    /// Epoch of the component's latest change.
    pub closed spec fn epoch(&self) -> u64 {
        self.epoch
    }

    /// Epoch of each chunk.
    pub closed spec fn chunks(&self) -> Seq<u64> {
        self.chunk_epochs@
    }

    /// Epoch of each entity slot.
    pub closed spec fn slots(&self) -> Seq<u64> {
        self.entity_epochs@
    }

    /// One chunk epoch per slot count (as `chunks_count` keeps them), a slot's
    /// epoch at most its chunk's, a chunk's at most the component's.
    pub open spec fn wf(&self) -> bool {
        &&& self.slots().len() <= u32::MAX
        &&& self.chunks().len() == self.slots().len()
        &&& forall|i: int| 0 <= i < self.slots().len() ==> #[trigger] self.slots()[i] <= self.chunks()[i / CHUNK_LEN as int]
        &&& forall|c: int| 0 <= c < self.chunks().len() ==> #[trigger] self.chunks()[c] <= self.epoch()
    }

    /// Epochs of a component with no slots, at the start epoch.
    pub fn new() -> (r: Self)
        ensures
            r.wf(),
            r.epoch() == 0,
            r.slots() == Seq::<u64>::empty(),
    {
        ComponentEpochs { epoch: 0, chunk_epochs: Vec::new(), entity_epochs: Vec::new() }
    }

    /// Grows the slots to `new_cap`; new slots and chunks start at epoch zero.
    pub fn grow(&mut self, new_cap: u32)
        requires
            old(self).wf(),
            old(self).slots().len() <= new_cap,
        ensures
            final(self).wf(),
            final(self).epoch() == old(self).epoch(),
            final(self).slots().len() == new_cap,
            forall|i: int| 0 <= i < old(self).slots().len() ==> #[trigger] final(self).slots()[i] == old(self).slots()[i],
            forall|i: int| old(self).slots().len() <= i < new_cap ==> #[trigger] final(self).slots()[i] == 0,
            forall|c: int| 0 <= c < old(self).chunks().len() ==> #[trigger] final(self).chunks()[c] == old(self).chunks()[c],
            final(self).chunks().len() == new_cap,
            forall|c: int| old(self).chunks().len() <= c < new_cap ==> #[trigger] final(self).chunks()[c] == 0,
    {
        let chunks = chunks_count(new_cap);
        while self.entity_epochs.len() < new_cap as usize
            invariant
                old(self).wf(),
                self.epoch == old(self).epoch,
                self.chunk_epochs@ == old(self).chunk_epochs@,
                old(self).slots().len() <= self.entity_epochs@.len() <= new_cap,
                forall|i: int| 0 <= i < old(self).slots().len() ==> #[trigger] self.entity_epochs@[i] == old(self).slots()[i],
                forall|i: int| old(self).slots().len() <= i < self.entity_epochs@.len() ==> #[trigger] self.entity_epochs@[i] == 0,
            decreases new_cap - self.entity_epochs@.len(),
        {
            self.entity_epochs.push(0);
        }
        while self.chunk_epochs.len() < chunks as usize
            invariant
                old(self).wf(),
                chunks == new_cap,
                self.epoch == old(self).epoch,
                self.entity_epochs@.len() == new_cap,
                forall|i: int| 0 <= i < old(self).slots().len() ==> #[trigger] self.entity_epochs@[i] == old(self).slots()[i],
                forall|i: int| old(self).slots().len() <= i < new_cap ==> #[trigger] self.entity_epochs@[i] == 0,
                old(self).chunks().len() <= self.chunk_epochs@.len() <= chunks,
                forall|c: int| 0 <= c < old(self).chunks().len() ==> #[trigger] self.chunk_epochs@[c] == old(self).chunks()[c],
                forall|c: int| old(self).chunks().len() <= c < self.chunk_epochs@.len() ==> #[trigger] self.chunk_epochs@[c] == 0,
            decreases chunks - self.chunk_epochs@.len(),
        {
            self.chunk_epochs.push(0);
        }
        assert forall|i: int| 0 <= i < self.slots().len() implies #[trigger] self.slots()[i] <= self.chunks()[i / CHUNK_LEN as int] by {
            if i < old(self).slots().len() {
                assert(old(self).slots()[i] <= old(self).chunks()[i / CHUNK_LEN as int]);
            }
        }
        assert forall|c: int| 0 <= c < self.chunks().len() implies #[trigger] self.chunks()[c] <= self.epoch() by {
            if c < old(self).chunks().len() {
                assert(old(self).chunks()[c] <= old(self).epoch());
            }
        }
    }

    /// Records a change of slot `idx` at `epoch`, which is not older than the
    /// component's: the slot, its chunk and the component take that epoch.
    pub fn touch(&mut self, idx: u32, epoch: u64)
        requires
            old(self).wf(),
            idx < old(self).slots().len(),
            old(self).epoch() <= epoch,
        ensures
            final(self).wf(),
            final(self).epoch() == epoch,
            final(self).slots() == old(self).slots().update(idx as int, epoch),
            final(self).chunks() == old(self).chunks().update((idx / CHUNK_LEN) as int, epoch),
    {
        let c = chunk_idx(idx);
        self.epoch = epoch;
        self.chunk_epochs.set(c as usize, epoch);
        self.entity_epochs.set(idx as usize, epoch);
        assert forall|i: int| 0 <= i < self.slots().len() implies #[trigger] self.slots()[i] <= self.chunks()[i / CHUNK_LEN as int] by {
            if i != idx && i / CHUNK_LEN as int != c {
                assert(old(self).slots()[i] <= old(self).chunks()[i / CHUNK_LEN as int]);
            }
        }
        assert forall|k: int| 0 <= k < self.chunks().len() implies #[trigger] self.chunks()[k] <= self.epoch() by {
            if k != c {
                assert(old(self).chunks()[k] <= old(self).epoch());
            }
        }
    }

    /// Bookkeeping of a swap-remove of slot `idx` when `last` is the last
    /// occupied slot: unless they are the same, slot `idx` takes the epoch
    /// of the last slot, and its chunk takes the later of its own and that.
    pub fn swap_remove(&mut self, idx: u32, last: u32)
        requires
            old(self).wf(),
            idx <= last,
            last < old(self).slots().len(),
        ensures
            final(self).wf(),
            final(self).epoch() == old(self).epoch(),
            idx == last ==> final(self).slots() == old(self).slots() && final(self).chunks() == old(self).chunks(),
            idx != last ==> final(self).slots() == old(self).slots().update(idx as int, old(self).slots()[last as int])
                && final(self).chunks() == old(self).chunks().update(
                (idx / CHUNK_LEN) as int,
                if old(self).chunks()[(idx / CHUNK_LEN) as int] < old(self).slots()[last as int] {
                    old(self).slots()[last as int]
                } else {
                    old(self).chunks()[(idx / CHUNK_LEN) as int]
                },
            ),
    {
        if idx == last {
            return;
        }
        let c = chunk_idx(idx);
        let last_epoch = self.entity_epochs[last as usize];
        let chunk_epoch = self.chunk_epochs[c as usize];
        proof {
            assert(old(self).slots()[last as int] <= old(self).chunks()[(last / CHUNK_LEN) as int]);
            assert(old(self).chunks()[(last / CHUNK_LEN) as int] <= old(self).epoch());
        }
        if chunk_epoch < last_epoch {
            self.chunk_epochs.set(c as usize, last_epoch);
        }
        self.entity_epochs.set(idx as usize, last_epoch);
        assert forall|i: int| 0 <= i < self.slots().len() implies #[trigger] self.slots()[i] <= self.chunks()[i / CHUNK_LEN as int] by {
            if i != idx {
                assert(old(self).slots()[i] <= old(self).chunks()[i / CHUNK_LEN as int]);
            }
        }
        assert forall|k: int| 0 <= k < self.chunks().len() implies #[trigger] self.chunks()[k] <= self.epoch() by {
            assert(old(self).chunks()[k] <= old(self).epoch());
        }
    }

    /// Number of slots.
    pub fn slot_count(&self) -> (r: u32)
        requires
            self.wf(),
        ensures
            r == self.slots().len(),
    {
        self.entity_epochs.len() as u32
    }

    /// Epoch of slot `idx`.
    pub fn slot_epoch(&self, idx: u32) -> (r: u64)
        requires
            idx < self.slots().len(),
        ensures
            r == self.slots()[idx as int],
    {
        self.entity_epochs[idx as usize]
    }

    /// Records a component value relocated into slot `dst_idx` with the
    /// epoch it carries: the slot takes that epoch, and its chunk and the
    /// component take the later of their own and that.
    pub fn relocate_in(&mut self, dst_idx: u32, epoch: u64)
        requires
            old(self).wf(),
            dst_idx < old(self).slots().len(),
        ensures
            final(self).wf(),
            final(self).epoch() == (if old(self).epoch() < epoch { epoch } else { old(self).epoch() }),
            final(self).slots() == old(self).slots().update(dst_idx as int, epoch),
            final(self).chunks() == old(self).chunks().update(
                (dst_idx / CHUNK_LEN) as int,
                if old(self).chunks()[(dst_idx / CHUNK_LEN) as int] < epoch {
                    epoch
                } else {
                    old(self).chunks()[(dst_idx / CHUNK_LEN) as int]
                },
            ),
    {
        let c = chunk_idx(dst_idx);
        if self.epoch < epoch {
            self.epoch = epoch;
        }
        let chunk_epoch = self.chunk_epochs[c as usize];
        if chunk_epoch < epoch {
            self.chunk_epochs.set(c as usize, epoch);
        }
        self.entity_epochs.set(dst_idx as usize, epoch);
        assert forall|i: int| 0 <= i < self.slots().len() implies #[trigger] self.slots()[i] <= self.chunks()[i / CHUNK_LEN as int] by {
            if i != dst_idx {
                assert(old(self).slots()[i] <= old(self).chunks()[i / CHUNK_LEN as int]);
            }
        }
        assert forall|k: int| 0 <= k < self.chunks().len() implies #[trigger] self.chunks()[k] <= self.epoch() by {
            assert(old(self).chunks()[k] <= old(self).epoch());
        }
    }

    /// A chunk whose epoch is not after `after` holds no slot changed after it.
    pub proof fn lemma_chunk_bounds_slots(&self, after: u64, i: int)
        requires
            self.wf(),
            0 <= i < self.slots().len(),
            self.chunks()[i / CHUNK_LEN as int] <= after,
        ensures
            self.slots()[i] <= after,
    {
    }
}


/// Epoch bookkeeping of one component when an entity moves from slot
/// `src_idx` of `src` (whose last occupied slot is `last`) to slot `dst_idx`
/// of `dst`: the entity's epoch travels with it into `dst`, and `src` is
/// swap-removed.
pub fn relocate_epochs(src: &mut ComponentEpochs, dst: &mut ComponentEpochs, src_idx: u32, last: u32, dst_idx: u32)
    requires
        old(src).wf(),
        old(dst).wf(),
        src_idx <= last,
        last < old(src).slots().len(),
        dst_idx < old(dst).slots().len(),
    ensures
        final(src).wf(),
        final(dst).wf(),
        final(dst).slots()[dst_idx as int] == old(src).slots()[src_idx as int],
        final(dst).slots() == old(dst).slots().update(dst_idx as int, old(src).slots()[src_idx as int]),
        old(src).slots()[src_idx as int] <= final(dst).chunks()[(dst_idx / CHUNK_LEN) as int],
        final(dst).epoch() == (if old(dst).epoch() < old(src).slots()[src_idx as int] {
            old(src).slots()[src_idx as int]
        } else {
            old(dst).epoch()
        }),
        src_idx == last ==> final(src).slots() == old(src).slots(),
        src_idx != last ==> final(src).slots() == old(src).slots().update(src_idx as int, old(src).slots()[last as int]),
        final(src).epoch() == old(src).epoch(),
{
    let epoch = src.slot_epoch(src_idx);
    dst.relocate_in(dst_idx, epoch);
    src.swap_remove(src_idx, last);
}

/// Removes the entity at `idx` by moving the last entity into its place.
/// Returns the entity that took the place, unless the removed one was last.
pub fn swap_remove_entity(entities: &mut Vec<EntityId>, idx: usize) -> (r: Option<EntityId>)
    requires
        idx < old(entities)@.len(),
    ensures
        final(entities)@ == old(entities)@.update(idx as int, old(entities)@.last()).drop_last(),
        r == (if idx + 1 < old(entities)@.len() { Some(old(entities)@.last()) } else { None::<EntityId> }),
{
    entities.swap_remove(idx);
    if idx < entities.len() {
        Some(entities[idx])
    } else {
        None
    }
}

/// Moves the entity at `src_idx` of `src` to the end of `dst`.
/// Returns its index in `dst`, and the entity that took its place in `src`
/// unless it was the last one there.
pub fn move_entity(src: &mut Vec<EntityId>, dst: &mut Vec<EntityId>, src_idx: usize) -> (r: (u32, Option<EntityId>))
    requires
        src_idx < old(src)@.len(),
        old(dst)@.len() < u32::MAX,
    ensures
        r.0 == old(dst)@.len(),
        final(dst)@ == old(dst)@.push(old(src)@[src_idx as int]),
        final(src)@ == old(src)@.update(src_idx as int, old(src)@.last()).drop_last(),
        r.1 == (if src_idx + 1 < old(src)@.len() { Some(old(src)@.last()) } else { None::<EntityId> }),
{
    let dst_idx = dst.len() as u32;
    let entity = src.swap_remove(src_idx);
    dst.push(entity);
    let displaced = if src_idx < src.len() {
        Some(src[src_idx])
    } else {
        None
    };
    (dst_idx, displaced)
}


/// The entities of an archetype, in slot order, and the change-tracking
/// epochs of each of its component types.
pub struct ArchetypeTracking {
    entities: Vec<EntityId>,
    ids: Vec<TypeId>,
    epochs: Vec<ComponentEpochs>,
}

impl ArchetypeTracking {
    /// Entities, in slot order.
    pub closed spec fn entities(&self) -> Seq<EntityId> {
        self.entities@
    }

    /// Component types.
    pub closed spec fn ids(&self) -> Seq<TypeId> {
        self.ids@
    }

    /// Epochs of each component type, in the order of `ids`.
    pub closed spec fn epochs(&self) -> Seq<ComponentEpochs> {
        self.epochs@
    }

    /// Distinct component types, one epoch record per type, each well formed
    /// and with a slot for every entity.
    pub open spec fn wf(&self) -> bool {
        &&& self.ids().len() == self.epochs().len()
        &&& forall|a: int, b: int| 0 <= a < b < self.ids().len() ==> self.ids()[a] != self.ids()[b]
        &&& self.entities().len() < u32::MAX
        &&& forall|k: int| #![trigger self.epochs()[k]] 0 <= k < self.epochs().len() ==> self.epochs()[k].wf()
            && self.entities().len() <= self.epochs()[k].slots().len()
    }

    /// Archetype with the given distinct component types, no entities and
    /// no slots.
    pub fn new(ids: Vec<TypeId>) -> (r: Self)
        requires
            forall|a: int, b: int| 0 <= a < b < ids@.len() ==> ids@[a] != ids@[b],
        ensures
            r.wf(),
            r.ids() == ids@,
            r.entities() == Seq::<EntityId>::empty(),
            forall|k: int| 0 <= k < r.epochs().len() ==> #[trigger] r.epochs()[k].slots().len() == 0,
    {
        let mut epochs: Vec<ComponentEpochs> = Vec::new();
        let mut k: usize = 0;
        while k < ids.len()
            invariant
                k <= ids@.len(),
                epochs@.len() == k,
                forall|j: int| #![trigger epochs@[j]] 0 <= j < k ==> epochs@[j].wf() && epochs@[j].slots().len() == 0,
            decreases ids@.len() - k,
        {
            epochs.push(ComponentEpochs::new());
            k = k + 1;
        }
        ArchetypeTracking { entities: Vec::new(), ids, epochs }
    }

    /// `after` is `before` with its slots grown to at least `new_cap`: the
    /// component epoch, every existing slot epoch and chunk epoch stay, and
    /// the new slots start at zero.
    pub open spec fn grown(before: ComponentEpochs, after: ComponentEpochs, new_cap: u32) -> bool {
        &&& after.epoch() == before.epoch()
        &&& after.slots().len() == (if before.slots().len() < new_cap { new_cap as int } else { before.slots().len() as int })
        &&& forall|i: int| 0 <= i < before.slots().len() ==> #[trigger] after.slots()[i] == before.slots()[i]
        &&& forall|i: int| before.slots().len() <= i < after.slots().len() ==> #[trigger] after.slots()[i] == 0
        &&& forall|c: int| 0 <= c < before.chunks().len() ==> #[trigger] after.chunks()[c] == before.chunks()[c]
    }

    /// Grows every component's slots to at least `new_cap`.
    pub fn grow(&mut self, new_cap: u32)
        requires
            old(self).wf(),
        ensures
            final(self).wf(),
            final(self).ids() == old(self).ids(),
            final(self).entities() == old(self).entities(),
            forall|k: int| 0 <= k < final(self).epochs().len() ==> new_cap <= #[trigger] final(self).epochs()[k].slots().len(),
            forall|k: int| #![trigger final(self).epochs()[k]] 0 <= k < final(self).epochs().len() ==> Self::grown(
                old(self).epochs()[k],
                final(self).epochs()[k],
                new_cap,
            ),
    {
        let mut k: usize = 0;
        while k < self.epochs.len()
            invariant
                old(self).wf(),
                k <= self.epochs@.len(),
                self.epochs@.len() == old(self).epochs@.len(),
                self.ids@ == old(self).ids@,
                self.entities@ == old(self).entities@,
                forall|j: int| #![trigger self.epochs@[j]] 0 <= j < self.epochs@.len() ==> self.epochs@[j].wf()
                    && self.entities@.len() <= self.epochs@[j].slots().len(),
                forall|j: int| 0 <= j < k ==> new_cap <= #[trigger] self.epochs@[j].slots().len(),
                forall|j: int| #![trigger self.epochs@[j]] 0 <= j < k ==> Self::grown(old(self).epochs@[j], self.epochs@[j], new_cap),
                forall|j: int| #![trigger self.epochs@[j]] k <= j < self.epochs@.len() ==> self.epochs@[j] == old(self).epochs@[j],
            decreases self.epochs@.len() - k,
        {
            if self.epochs[k].slot_count() < new_cap {
                self.epochs[k].grow(new_cap);
            }
            k = k + 1;
        }
    }

    /// Adds entity `id` at the next slot, its components written at `epoch`,
    /// which no component's epoch is after. Returns the slot.
    pub fn spawn(&mut self, id: EntityId, epoch: u64) -> (r: u32)
        requires
            old(self).wf(),
            old(self).entities().len() + 1 < u32::MAX,
            forall|k: int| 0 <= k < old(self).epochs().len() ==> old(self).entities().len() < #[trigger] old(self).epochs()[k].slots().len()
                && old(self).epochs()[k].epoch() <= epoch,
        ensures
            final(self).wf(),
            r == old(self).entities().len(),
            final(self).entities() == old(self).entities().push(id),
            final(self).ids() == old(self).ids(),
            forall|k: int| 0 <= k < final(self).epochs().len() ==> #[trigger] final(self).epochs()[k].slots() == old(self).epochs()[k].slots().update(r as int, epoch)
                && final(self).epochs()[k].epoch() == epoch,
    {
        let idx = self.entities.len() as u32;
        let mut k: usize = 0;
        while k < self.epochs.len()
            invariant
                old(self).wf(),
                idx == old(self).entities@.len(),
                k <= self.epochs@.len(),
                self.epochs@.len() == old(self).epochs@.len(),
                self.ids@ == old(self).ids@,
                self.entities@ == old(self).entities@,
                forall|j: int| 0 <= j < old(self).epochs().len() ==> old(self).entities().len() < #[trigger] old(self).epochs()[j].slots().len()
                    && old(self).epochs()[j].epoch() <= epoch,
                forall|j: int| #![trigger self.epochs@[j]] 0 <= j < self.epochs@.len() ==> self.epochs@[j].wf()
                    && self.epochs@[j].slots().len() == old(self).epochs@[j].slots().len(),
                forall|j: int| 0 <= j < k ==> #[trigger] self.epochs@[j].slots() == old(self).epochs@[j].slots().update(idx as int, epoch)
                    && self.epochs@[j].epoch() == epoch,
                forall|j: int| k <= j < self.epochs@.len() ==> #[trigger] self.epochs@[j] == old(self).epochs@[j],
            decreases self.epochs@.len() - k,
        {
            self.epochs[k].touch(idx, epoch);
            k = k + 1;
        }
        self.entities.push(id);
        idx
    }

    /// Entities, in slot order.
    pub fn entity_list(&self) -> (r: &[EntityId])
        ensures
            r@ == self.entities(),
    {
        self.entities.as_slice()
    }

    /// Epoch of slot `idx` of the `k`-th component type.
    pub fn epoch_at(&self, k: usize, idx: u32) -> (r: u64)
        requires
            k < self.epochs().len(),
            idx < self.epochs()[k as int].slots().len(),
        ensures
            r == self.epochs()[k as int].slots()[idx as int],
    {
        self.epochs[k].slot_epoch(idx)
    }

    /// Despawns the entity at slot `idx`: the last entity and its epochs move
    /// into the slot. Returns the entity that took the slot, unless the
    /// despawned one was last.
    pub fn despawn(&mut self, idx: u32) -> (r: Option<EntityId>)
        requires
            old(self).wf(),
            idx < old(self).entities().len(),
        ensures
            final(self).wf(),
            final(self).ids() == old(self).ids(),
            final(self).entities() == old(self).entities().update(idx as int, old(self).entities().last()).drop_last(),
            r == (if idx + 1 < old(self).entities().len() { Some(old(self).entities().last()) } else { None::<EntityId> }),
            forall|k: int| 0 <= k < final(self).epochs().len() ==> #[trigger] final(self).epochs()[k].slots() == (
                if idx + 1 == old(self).entities().len() {
                    old(self).epochs()[k].slots()
                } else {
                    old(self).epochs()[k].slots().update(idx as int, old(self).epochs()[k].slots()[old(self).entities().len() - 1])
                }),
    {
        let last = (self.entities.len() - 1) as u32;
        let mut k: usize = 0;
        while k < self.epochs.len()
            invariant
                old(self).wf(),
                idx <= last,
                last == old(self).entities@.len() - 1,
                k <= self.epochs@.len(),
                self.epochs@.len() == old(self).epochs@.len(),
                self.ids@ == old(self).ids@,
                self.entities@ == old(self).entities@,
                forall|j: int| #![trigger self.epochs@[j]] 0 <= j < self.epochs@.len() ==> self.epochs@[j].wf()
                    && self.epochs@[j].slots().len() == old(self).epochs@[j].slots().len(),
                forall|j: int| 0 <= j < k ==> #[trigger] self.epochs@[j].slots() == (if idx == last {
                    old(self).epochs@[j].slots()
                } else {
                    old(self).epochs@[j].slots().update(idx as int, old(self).epochs@[j].slots()[last as int])
                }),
                forall|j: int| k <= j < self.epochs@.len() ==> #[trigger] self.epochs@[j] == old(self).epochs@[j],
            decreases self.epochs@.len() - k,
        {
            self.epochs[k].swap_remove(idx, last);
            k = k + 1;
        }
        swap_remove_entity(&mut self.entities, idx as usize)
    }

    /// Moves the entity at slot `src_idx` to the next slot of `dst`. Each
    /// component epoch of the entity travels into the component of `dst` of
    /// the same type (the first such), and the source slots are
    /// swap-removed. Returns the entity's slot in `dst` and the entity that
    /// took its place here, unless it was last. Inserting or removing
    /// components moves an entity this way between archetypes.
    pub fn relocate(&mut self, dst: &mut ArchetypeTracking, src_idx: u32) -> (r: (u32, Option<EntityId>))
        requires
            old(self).wf(),
            old(dst).wf(),
            src_idx < old(self).entities().len(),
            old(dst).entities().len() + 1 < u32::MAX,
            forall|j: int| 0 <= j < old(dst).epochs().len() ==> old(dst).entities().len() < #[trigger] old(dst).epochs()[j].slots().len(),
        ensures
            final(self).wf(),
            final(dst).wf(),
            final(self).ids() == old(self).ids(),
            final(dst).ids() == old(dst).ids(),
            r.0 == old(dst).entities().len(),
            final(dst).entities() == old(dst).entities().push(old(self).entities()[src_idx as int]),
            final(self).entities() == old(self).entities().update(src_idx as int, old(self).entities().last()).drop_last(),
            r.1 == (if src_idx + 1 < old(self).entities().len() { Some(old(self).entities().last()) } else { None::<EntityId> }),
            forall|k: int, j: int|
                0 <= k < old(self).ids().len() && 0 <= j < old(dst).ids().len() && old(dst).ids()[j] == old(self).ids()[k]
                    && (forall|i: int| 0 <= i < j ==> old(dst).ids()[i] != old(self).ids()[k])
                    ==> #[trigger] final(dst).epochs()[j].slots()[r.0 as int] == #[trigger] old(self).epochs()[k].slots()[src_idx as int],
            forall|j: int| #![trigger final(dst).epochs()[j]] 0 <= j < final(dst).epochs().len() ==> final(dst).epochs()[j].epoch() == old(dst).epochs()[j].epoch()
                || exists|k: int| 0 <= k < old(self).epochs().len() && final(dst).epochs()[j].epoch() == #[trigger] old(self).epochs()[k].slots()[src_idx as int],
            forall|k: int| #![trigger final(self).epochs()[k]] 0 <= k < final(self).epochs().len() ==> final(self).epochs()[k].slots() == (
                if src_idx + 1 == old(self).entities().len() {
                    old(self).epochs()[k].slots()
                } else {
                    old(self).epochs()[k].slots().update(src_idx as int, old(self).epochs()[k].slots()[old(self).entities().len() - 1])
                }),
            forall|k: int, j: int|
                0 <= k < old(self).ids().len() && 0 <= j < old(dst).ids().len() && old(dst).ids()[j] == old(self).ids()[k]
                    ==> #[trigger] final(dst).epochs()[j].slots() == #[trigger] old(dst).epochs()[j].slots().update(
                    r.0 as int,
                    old(self).epochs()[k].slots()[src_idx as int],
                ),
            forall|j: int| #![trigger final(dst).epochs()[j]] 0 <= j < old(dst).ids().len() && !old(self).ids().contains(old(dst).ids()[j])
                ==> final(dst).epochs()[j] == old(dst).epochs()[j],
    {
        let last = (self.entities.len() - 1) as u32;
        let dst_idx = dst.entities.len() as u32;
        let ghost src0 = *self;
        let ghost dst0 = *dst;
        let mut k: usize = 0;
        while k < self.epochs.len()
            invariant
                src0 == *old(self),
                dst0 == *old(dst),
                old(self).wf(),
                old(dst).wf(),
                src_idx <= last,
                last == old(self).entities@.len() - 1,
                dst_idx == old(dst).entities@.len(),
                forall|j: int| 0 <= j < old(dst).epochs().len() ==> old(dst).entities().len() < #[trigger] old(dst).epochs()[j].slots().len(),
                k <= self.epochs@.len(),
                self.epochs@.len() == old(self).epochs@.len(),
                self.ids@ == old(self).ids@,
                self.entities@ == old(self).entities@,
                dst.epochs@.len() == old(dst).epochs@.len(),
                dst.ids@ == old(dst).ids@,
                dst.entities@ == old(dst).entities@,
                forall|j: int| #![trigger self.epochs@[j]] 0 <= j < self.epochs@.len() ==> self.epochs@[j].wf()
                    && self.epochs@[j].slots().len() == old(self).epochs@[j].slots().len(),
                forall|j: int| #![trigger self.epochs@[j]] 0 <= j < k ==> self.epochs@[j].slots() == (if src_idx == last {
                    old(self).epochs@[j].slots()
                } else {
                    old(self).epochs@[j].slots().update(src_idx as int, old(self).epochs@[j].slots()[last as int])
                }),
                forall|j: int| k <= j < self.epochs@.len() ==> #[trigger] self.epochs@[j] == old(self).epochs@[j],
                forall|j: int| #![trigger dst.epochs@[j]] 0 <= j < dst.epochs@.len() ==> dst.epochs@[j].wf()
                    && dst.epochs@[j].slots().len() == old(dst).epochs@[j].slots().len(),
                forall|j: int| #![trigger dst.epochs@[j]] 0 <= j < dst.epochs@.len() ==> dst.epochs@[j].epoch() == old(dst).epochs()[j].epoch()
                    || exists|kk: int| 0 <= kk < k && dst.epochs@[j].epoch() == #[trigger] old(self).epochs()[kk].slots()[src_idx as int],
                forall|kk: int, j: int|
                    0 <= kk < k && 0 <= j < old(dst).ids().len() && old(dst).ids()[j] == old(self).ids()[kk]
                        && (forall|i: int| 0 <= i < j ==> old(dst).ids()[i] != old(self).ids()[kk])
                        ==> #[trigger] dst.epochs@[j].slots()[dst_idx as int] == #[trigger] old(self).epochs()[kk].slots()[src_idx as int],
                forall|kk: int, j: int|
                    0 <= kk < k && 0 <= j < old(dst).ids().len() && old(dst).ids()[j] == old(self).ids()[kk]
                        ==> #[trigger] dst.epochs@[j].slots() == #[trigger] old(dst).epochs()[j].slots().update(
                        dst_idx as int,
                        old(self).epochs()[kk].slots()[src_idx as int],
                    ),
                forall|j: int| #![trigger dst.epochs@[j]] 0 <= j < old(dst).ids().len()
                    && (forall|kk: int| 0 <= kk < k ==> old(self).ids()[kk] != old(dst).ids()[j])
                    ==> dst.epochs@[j] == old(dst).epochs()[j],
            decreases self.epochs@.len() - k,
        {
            match component_slot(dst.ids.as_slice(), &self.ids[k]) {
                Some(j) => {
                    let ghost before = dst.epochs@;
                    relocate_epochs(&mut self.epochs[k], &mut dst.epochs[j], src_idx, last, dst_idx);
                    assert forall|jj: int| #![trigger dst.epochs@[jj]] 0 <= jj < dst.epochs@.len() implies dst.epochs@[jj].epoch() == old(dst).epochs()[jj].epoch()
                        || exists|kk: int| 0 <= kk < k + 1 && dst.epochs@[jj].epoch() == #[trigger] old(self).epochs()[kk].slots()[src_idx as int] by {
                        if jj != j {
                            assert(before[jj] == dst.epochs@[jj]);
                        } else {
                            assert(old(self).epochs()[k as int] == self.epochs@[k as int] || true);
                        }
                    }
                    assert forall|kk: int, jj: int|
                        0 <= kk < k + 1 && 0 <= jj < old(dst).ids().len() && old(dst).ids()[jj] == old(self).ids()[kk]
                            && (forall|i: int| 0 <= i < jj ==> old(dst).ids()[i] != old(self).ids()[kk])
                            implies #[trigger] dst.epochs@[jj].slots()[dst_idx as int] == #[trigger] old(self).epochs()[kk].slots()[src_idx as int] by {
                        if kk == k {
                            if jj < j {
                                assert(old(dst).ids()[jj] != old(self).ids()[kk]);
                            } else if jj > j {
                                assert(old(dst).ids()[j as int] != old(self).ids()[kk]);
                            }
                        } else {
                            assert(old(self).ids()[kk] != old(self).ids()[k as int]);
                            assert(jj != j);
                            assert(before[jj] == dst.epochs@[jj]);
                        }
                    }
                    assert forall|kk: int, jj: int|
                        0 <= kk < k + 1 && 0 <= jj < old(dst).ids().len() && old(dst).ids()[jj] == old(self).ids()[kk]
                            implies #[trigger] dst.epochs@[jj].slots() == #[trigger] old(dst).epochs()[jj].slots().update(
                            dst_idx as int,
                            old(self).epochs()[kk].slots()[src_idx as int],
                        ) by {
                        if kk == k {
                            if jj != j {
                                if jj < j {
                                    assert(old(dst).ids()[jj] != old(self).ids()[kk]);
                                } else {
                                    assert(old(dst).ids()[j as int] != old(dst).ids()[jj]);
                                }
                            }
                            assert(before[j as int] == old(dst).epochs()[j as int]);
                        } else {
                            assert(old(self).ids()[kk] != old(self).ids()[k as int]);
                            assert(jj != j);
                            assert(before[jj] == dst.epochs@[jj]);
                        }
                    }
                    assert forall|jj: int| #![trigger dst.epochs@[jj]] 0 <= jj < old(dst).ids().len()
                        && (forall|kk: int| 0 <= kk < k + 1 ==> old(self).ids()[kk] != old(dst).ids()[jj])
                        implies dst.epochs@[jj] == old(dst).epochs()[jj] by {
                        assert(old(self).ids()[k as int] != old(dst).ids()[jj]);
                        assert(jj != j);
                        assert(before[jj] == dst.epochs@[jj]);
                    }
                },
                None => {
                    self.epochs[k].swap_remove(src_idx, last);
                },
            }
            k = k + 1;
        }
        move_entity(&mut self.entities, &mut dst.entities, src_idx as usize)
    }

    /// Records that the components of slot `idx` whose types are in
    /// `bundle` were written at `epoch`, which no component's epoch is after.
    pub fn write(&mut self, idx: u32, bundle: &[TypeId], epoch: u64)
        requires
            old(self).wf(),
            forall|j: int| 0 <= j < old(self).epochs().len() ==> idx < #[trigger] old(self).epochs()[j].slots().len()
                && old(self).epochs()[j].epoch() <= epoch,
        ensures
            final(self).wf(),
            final(self).ids() == old(self).ids(),
            final(self).entities() == old(self).entities(),
            forall|j: int| #![trigger final(self).epochs()[j]] 0 <= j < final(self).epochs().len() ==> (
                if bundle@.contains(old(self).ids()[j]) {
                    final(self).epochs()[j].slots() == old(self).epochs()[j].slots().update(idx as int, epoch)
                        && final(self).epochs()[j].epoch() == epoch
                } else {
                    final(self).epochs()[j] == old(self).epochs()[j]
                }),
    {
        let mut j: usize = 0;
        while j < self.epochs.len()
            invariant
                old(self).wf(),
                forall|jj: int| 0 <= jj < old(self).epochs().len() ==> idx < #[trigger] old(self).epochs()[jj].slots().len()
                    && old(self).epochs()[jj].epoch() <= epoch,
                j <= self.epochs@.len(),
                self.epochs@.len() == old(self).epochs@.len(),
                self.ids@ == old(self).ids@,
                self.entities@ == old(self).entities@,
                forall|jj: int| #![trigger self.epochs@[jj]] 0 <= jj < self.epochs@.len() ==> self.epochs@[jj].wf()
                    && self.epochs@[jj].slots().len() == old(self).epochs@[jj].slots().len(),
                forall|jj: int| #![trigger self.epochs@[jj]] 0 <= jj < j ==> (
                    if bundle@.contains(old(self).ids()[jj]) {
                        self.epochs@[jj].slots() == old(self).epochs()[jj].slots().update(idx as int, epoch)
                            && self.epochs@[jj].epoch() == epoch
                    } else {
                        self.epochs@[jj] == old(self).epochs()[jj]
                    }),
                forall|jj: int| j <= jj < self.epochs@.len() ==> #[trigger] self.epochs@[jj] == old(self).epochs@[jj],
            decreases self.epochs@.len() - j,
        {
            match component_slot(bundle, &self.ids[j]) {
                Some(b) => {
                    assert(bundle@[b as int] == old(self).ids()[j as int]);
                    self.epochs[j].touch(idx, epoch);
                },
                None => {
                    assert(!bundle@.contains(old(self).ids()[j as int]));
                },
            }
            j = j + 1;
        }
    }

    /// Moves the entity at slot `src_idx` to the next slot of `dst`, as
    /// `relocate` does, then records that its components of the types in
    /// `bundle` were written there at `epoch`, which no component's epoch of
    /// either archetype is after.
    pub fn insert_bundle(&mut self, dst: &mut ArchetypeTracking, src_idx: u32, bundle: &[TypeId], epoch: u64) -> (r: (u32, Option<EntityId>))
        requires
            old(self).wf(),
            old(dst).wf(),
            src_idx < old(self).entities().len(),
            old(dst).entities().len() + 1 < u32::MAX,
            forall|j: int| 0 <= j < old(dst).epochs().len() ==> old(dst).entities().len() < #[trigger] old(dst).epochs()[j].slots().len()
                && old(dst).epochs()[j].epoch() <= epoch,
            forall|k: int| 0 <= k < old(self).epochs().len() ==> #[trigger] old(self).epochs()[k].epoch() <= epoch,
        ensures
            final(self).wf(),
            final(dst).wf(),
            final(self).ids() == old(self).ids(),
            final(dst).ids() == old(dst).ids(),
            r.0 == old(dst).entities().len(),
            final(dst).entities() == old(dst).entities().push(old(self).entities()[src_idx as int]),
            final(self).entities() == old(self).entities().update(src_idx as int, old(self).entities().last()).drop_last(),
            r.1 == (if src_idx + 1 < old(self).entities().len() { Some(old(self).entities().last()) } else { None::<EntityId> }),
            forall|j: int| 0 <= j < old(dst).ids().len() && bundle@.contains(old(dst).ids()[j])
                ==> #[trigger] final(dst).epochs()[j].slots()[r.0 as int] == epoch,
            forall|k: int, j: int|
                0 <= k < old(self).ids().len() && 0 <= j < old(dst).ids().len() && old(dst).ids()[j] == old(self).ids()[k]
                    && !bundle@.contains(old(dst).ids()[j])
                    && (forall|i: int| 0 <= i < j ==> old(dst).ids()[i] != old(self).ids()[k])
                    ==> #[trigger] final(dst).epochs()[j].slots()[r.0 as int] == #[trigger] old(self).epochs()[k].slots()[src_idx as int],
            forall|k: int| #![trigger final(self).epochs()[k]] 0 <= k < final(self).epochs().len() ==> final(self).epochs()[k].slots() == (
                if src_idx + 1 == old(self).entities().len() {
                    old(self).epochs()[k].slots()
                } else {
                    old(self).epochs()[k].slots().update(src_idx as int, old(self).epochs()[k].slots()[old(self).entities().len() - 1])
                }),
            forall|j: int| #![trigger final(dst).epochs()[j]] 0 <= j < old(dst).ids().len() && bundle@.contains(old(dst).ids()[j])
                ==> final(dst).epochs()[j].slots() == old(dst).epochs()[j].slots().update(r.0 as int, epoch),
            forall|k: int, j: int|
                0 <= k < old(self).ids().len() && 0 <= j < old(dst).ids().len() && old(dst).ids()[j] == old(self).ids()[k]
                    && !bundle@.contains(old(dst).ids()[j])
                    ==> #[trigger] final(dst).epochs()[j].slots() == #[trigger] old(dst).epochs()[j].slots().update(
                    r.0 as int,
                    old(self).epochs()[k].slots()[src_idx as int],
                ),
            forall|j: int| #![trigger final(dst).epochs()[j]] 0 <= j < old(dst).ids().len() && !old(self).ids().contains(old(dst).ids()[j])
                && !bundle@.contains(old(dst).ids()[j]) ==> final(dst).epochs()[j] == old(dst).epochs()[j],
    {
        let ghost src0 = *self;
        let r = self.relocate(dst, src_idx);
        let ghost dst1 = *dst;
        assert forall|j: int| 0 <= j < dst.epochs().len() implies r.0 < #[trigger] dst.epochs()[j].slots().len()
            && dst.epochs()[j].epoch() <= epoch by {
            assert(dst1.epochs()[j] == dst.epochs()[j]);
            if dst.epochs()[j].epoch() != old(dst).epochs()[j].epoch() {
                let k = choose|k: int| 0 <= k < src0.epochs().len()
                    && dst.epochs()[j].epoch() == #[trigger] src0.epochs()[k].slots()[src_idx as int];
                let e = src0.epochs()[k];
                assert(e.wf());
                assert(e.slots()[src_idx as int] <= e.chunks()[(src_idx as int) / (CHUNK_LEN as int)]);
                assert(e.chunks()[(src_idx as int) / (CHUNK_LEN as int)] <= e.epoch());
            }
        }
        dst.write(r.0, bundle, epoch);
        assert forall|j: int| #![trigger dst.epochs()[j]] 0 <= j < old(dst).ids().len() && bundle@.contains(old(dst).ids()[j])
            implies dst.epochs()[j].slots() == old(dst).epochs()[j].slots().update(r.0 as int, epoch) by {
            if old(self).ids().contains(old(dst).ids()[j]) {
                let k = choose|k: int| 0 <= k < old(self).ids().len() && old(self).ids()[k] == old(dst).ids()[j];
                assert(dst1.epochs()[j].slots() == old(dst).epochs()[j].slots().update(
                    r.0 as int,
                    old(self).epochs()[k].slots()[src_idx as int],
                ));
            } else {
                assert(dst1.epochs()[j] == old(dst).epochs()[j]);
            }
            assert(dst.epochs()[j].slots() =~= old(dst).epochs()[j].slots().update(r.0 as int, epoch));
        }
        r
    }
}

} // verus!
