use vstd::prelude::*;

use crate::entity::EntityId;

verus! {

/// Opaque integer triple that needs to be serialized and deserialized:
/// entity bits, mask of present components, mask of modified components.
pub struct EntityDump(pub [u64; 3]);

/// Slot of component value to be serialized.
pub enum DumpSlot<'a, T> {
    /// Skip this slot.
    Skipped,
    /// Serialize component value.
    Component(&'a T),
}

/// Slot of component value to be deserialized.
pub enum LoadSlot<'a, T> {
    /// Do not deserialize this slot.
    Skipped,
    /// Deserialize into new component value.
    Missing,
    /// Deserialize into existing component value.
    Existing(&'a mut T),
    /// Newly created component.
    Created(T),
}

/// Query result per component.
pub enum DumpItem<'a, T> {
    /// Component is missing.
    Missing,
    /// Component is present and modified.
    Modified(&'a T),
    /// Component is present and unmodified.
    Unmodified,
}

/// Leaves no mark on loaded entities.
#[derive(Clone, Copy)]
pub struct NoMark;

/// What the dump query found for one component, without the value.
#[derive(Clone, Copy, Debug, PartialEq, Eq, Structural)]
pub enum DumpStatus {
    /// Component is missing.
    Missing,
    /// Component is present and modified.
    Modified,
    /// Component is present and unmodified.
    Unmodified,
}

/// Kind of load slot prepared for one component.
#[derive(Clone, Copy, Debug, PartialEq, Eq, Structural)]
pub enum LoadSlotKind {
    /// Do not deserialize this slot.
    Skipped,
    /// Deserialize into new component value.
    Missing,
    /// Deserialize into existing component value.
    Existing,
}

/// What loading does to one component of the entity.
pub enum LoadAction<T> {
    /// Insert the loaded value.
    Insert(T),
    /// Drop the component.
    Drop,
    /// Leave the component as it is.
    Keep,
}

/// Bit `i` of `mask` is set.
pub open spec fn bit(mask: u64, i: u64) -> bool {
    (mask >> i) & 1 == 1
}

proof fn lemma_set_bit(m: u64, i: u64, j: u64)
    by (bit_vector)
    requires
        i < 64,
        j < 64,
    ensures
        ((m | (1u64 << i)) >> j) & 1 == (if i == j { 1 } else { (m >> j) & 1 }),
{
}

proof fn lemma_or_bit(a: u64, b: u64, j: u64)
    by (bit_vector)
    requires
        j < 64,
    ensures
        (((a | b) >> j) & 1 == 1) == (((a >> j) & 1 == 1) || ((b >> j) & 1 == 1)),
{
}

proof fn lemma_zero_bits(j: u64)
    by (bit_vector)
    ensures
        (0u64 >> j) & 1 == 0,
{
}

proof fn lemma_bit_test(m: u64, i: u64)
    by (bit_vector)
    requires
        i < 64,
    ensures
        ((m & (1u64 << i)) == 0) == ((m >> i) & 1 != 1),
{
}

impl<'a, T> DumpItem<'a, T> {
    /// Status of the item, without the value.
    pub open spec fn spec_status(&self) -> DumpStatus {
        match self {
            DumpItem::Missing => DumpStatus::Missing,
            DumpItem::Modified(_) => DumpStatus::Modified,
            DumpItem::Unmodified => DumpStatus::Unmodified,
        }
    }

    /// Status of the item, without the value.
    pub fn status(&self) -> (r: DumpStatus)
        ensures
            r == self.spec_status(),
    {
        match self {
            DumpItem::Missing => DumpStatus::Missing,
            DumpItem::Modified(_) => DumpStatus::Modified,
            DumpItem::Unmodified => DumpStatus::Unmodified,
        }
    }

    /// Dump slot of the item: the value when it was modified.
    pub fn slot(&self) -> (r: DumpSlot<'a, T>)
        ensures
            self matches DumpItem::Modified(c) ==> r == DumpSlot::<'a, T>::Component(c),
            !(self is Modified) ==> r is Skipped,
    {
        match self {
            DumpItem::Modified(c) => DumpSlot::Component(*c),
            _ => DumpSlot::Skipped,
        }
    }
}

/// Entity record for dumping: the entity bits, the mask of components that
/// are present (modified or not) and the mask of modified components.
/// Component `i` of the tuple is bit `i`.
pub fn dump_record(id: EntityId, statuses: &[DumpStatus]) -> (r: EntityDump)
    requires
        statuses@.len() <= 64,
    ensures
        r.0[0] == id.spec_bits(),
        forall|i: u64|
            i < 64 ==> #[trigger] bit(r.0[1], i) == (i < statuses@.len() && statuses@[i as int]
                != DumpStatus::Missing),
        forall|i: u64|
            i < 64 ==> #[trigger] bit(r.0[2], i) == (i < statuses@.len() && statuses@[i as int]
                == DumpStatus::Modified),
{
    let mut present: u64 = 0;
    let mut modified: u64 = 0;
    let mut idx: usize = 0;
    proof {
        assert forall|i: u64| i < 64 implies #[trigger] bit(0, i) == false by {
            lemma_zero_bits(i);
        }
    }
    while idx < statuses.len()
        invariant
            idx <= statuses@.len() <= 64,
            forall|i: u64|
                i < 64 ==> #[trigger] bit(present, i) == (i < idx && statuses@[i as int]
                    == DumpStatus::Unmodified),
            forall|i: u64|
                i < 64 ==> #[trigger] bit(modified, i) == (i < idx && statuses@[i as int]
                    == DumpStatus::Modified),
        decreases statuses@.len() - idx,
    {
        let one: u64 = 1u64 << (idx as u64);
        let status = statuses[idx];
        assert(status == statuses@[idx as int]);
        match status {
            DumpStatus::Missing => {},
            DumpStatus::Modified => {
                proof {
                    assert forall|i: u64| i < 64 implies #[trigger] bit(modified | one, i) == (i
                        < idx + 1 && statuses@[i as int] == DumpStatus::Modified) by {
                        lemma_set_bit(modified, idx as u64, i);
                        if i == idx as u64 {
                        } else {
                            assert(bit(modified, i) == (i < idx && statuses@[i as int] == DumpStatus::Modified));
                        }
                    }
                }
                modified = modified | one;
            },
            DumpStatus::Unmodified => {
                proof {
                    assert forall|i: u64| i < 64 implies #[trigger] bit(present | one, i) == (i
                        < idx + 1 && statuses@[i as int] == DumpStatus::Unmodified) by {
                        lemma_set_bit(present, idx as u64, i);
                        if i == idx as u64 {
                        } else {
                            assert(bit(present, i) == (i < idx && statuses@[i as int] == DumpStatus::Unmodified));
                        }
                    }
                }
                present = present | one;
            },
        }
        idx = idx + 1;
    }
    proof {
        assert forall|i: u64| i < 64 implies #[trigger] bit(present | modified, i) == (i
            < statuses@.len() && statuses@[i as int] != DumpStatus::Missing) by {
            lemma_or_bit(present, modified, i);
            assert(bit(present, i) == (i < idx && statuses@[i as int] == DumpStatus::Unmodified));
            assert(bit(modified, i) == (i < idx && statuses@[i as int] == DumpStatus::Modified));
        }
    }
    EntityDump([id.bits(), present | modified, modified])
}

/// Kind of load slot for component `idx`: when the entity exists
/// (`existing` tells whether it has the component), modified components are
/// loaded into the existing value or a new one and others skipped; when it
/// does not exist, modified components are loaded into new values.
pub open spec fn spec_load_slot_kind(modified: u64, idx: u64, existing: Option<bool>) -> LoadSlotKind {
    match existing {
        Some(has) => if !bit(modified, idx) {
            LoadSlotKind::Skipped
        } else if has {
            LoadSlotKind::Existing
        } else {
            LoadSlotKind::Missing
        },
        None => if bit(modified, idx) {
            LoadSlotKind::Missing
        } else {
            LoadSlotKind::Skipped
        },
    }
}

/// A slot is prepared for loading exactly when the component is marked
/// modified, whether or not the entity exists; it is loaded into the
/// existing value exactly when the entity exists and has the component, and
/// into a new value otherwise.
pub proof fn lemma_load_slot_kind(modified: u64, idx: u64, existing: Option<bool>)
    ensures
        (spec_load_slot_kind(modified, idx, existing) != LoadSlotKind::Skipped) == bit(modified, idx),
        (spec_load_slot_kind(modified, idx, existing) == LoadSlotKind::Existing) == (existing == Some(true)
            && bit(modified, idx)),
        (spec_load_slot_kind(modified, idx, existing) == LoadSlotKind::Missing) == (existing != Some(true)
            && bit(modified, idx)),
{
}

/// Kind of load slot for component `idx`.
pub fn load_slot_kind(modified: u64, idx: u64, existing: Option<bool>) -> (r: LoadSlotKind)
    requires
        idx < 64,
    ensures
        r == spec_load_slot_kind(modified, idx, existing),
        (r != LoadSlotKind::Skipped) == bit(modified, idx),
        (r == LoadSlotKind::Existing) == (existing == Some(true) && bit(modified, idx)),
{
    proof {
        lemma_bit_test(modified, idx);
    }
    let is_modified = modified & (1u64 << idx) != 0;
    match existing {
        Some(has) => if !is_modified {
            LoadSlotKind::Skipped
        } else if has {
            LoadSlotKind::Existing
        } else {
            LoadSlotKind::Missing
        },
        None => if is_modified {
            LoadSlotKind::Missing
        } else {
            LoadSlotKind::Skipped
        },
    }
}

/// What loading does to component `idx` once the loader has filled the slot:
/// a created value is inserted; otherwise the component is dropped when its
/// present bit is set, and kept as it is when not.
pub fn load_action<'a, T>(present: u64, idx: u64, slot: LoadSlot<'a, T>) -> (r: LoadAction<T>)
    requires
        idx < 64,
        !(slot is Missing),
    ensures
        slot matches LoadSlot::Created(c) ==> r == LoadAction::Insert(c),
        !(slot is Created) && bit(present, idx) ==> r is Drop,
        !(slot is Created) && !bit(present, idx) ==> r is Keep,
{
    proof {
        lemma_bit_test(present, idx);
    }
    match slot {
        LoadSlot::Created(comp) => LoadAction::Insert(comp),
        _ => if present & (1u64 << idx) != 0 {
            LoadAction::Drop
        } else {
            LoadAction::Keep
        },
    }
}

/// Entity id of a record, unless its bits are zero (such records are skipped).
pub fn record_entity(dump: &EntityDump) -> (r: Option<EntityId>)
    ensures
        r == EntityId::spec_from_bits(dump.0[0]),
{
    EntityId::from_bits(dump.0[0])
}

/// Loading a record into a world where the entity does not exist prepares
/// a new value exactly for the modified components; once the loader
/// created them they are inserted, and every other component that was
/// present when dumping is dropped.
pub proof fn lemma_dump_load_roundtrip(bits: u64, statuses: Seq<DumpStatus>, dump: EntityDump, i: u64)
    requires
        statuses.len() <= 64,
        i < statuses.len(),
        forall|j: u64|
            j < 64 ==> #[trigger] bit(dump.0[1], j) == (j < statuses.len() && statuses[j as int]
                != DumpStatus::Missing),
        forall|j: u64|
            j < 64 ==> #[trigger] bit(dump.0[2], j) == (j < statuses.len() && statuses[j as int]
                == DumpStatus::Modified),
    ensures
        (spec_load_slot_kind(dump.0[2], i, None) == LoadSlotKind::Missing) == (statuses[i as int]
            == DumpStatus::Modified),
        (spec_load_slot_kind(dump.0[2], i, None) == LoadSlotKind::Skipped) == (statuses[i as int]
            != DumpStatus::Modified),
        statuses[i as int] == DumpStatus::Unmodified ==> bit(dump.0[1], i),
        statuses[i as int] == DumpStatus::Missing ==> !bit(dump.0[1], i),
{
    assert(bit(dump.0[1], i) == (statuses[i as int] != DumpStatus::Missing));
    assert(bit(dump.0[2], i) == (statuses[i as int] == DumpStatus::Modified));
}

} // verus!
