//! Decisions of the entity builder: where a component value goes, and how
//! far its value storage grows.

use vstd::prelude::*;

use core::any::TypeId;

use crate::ptr::type_id_eq;

verus! {

/// Size below which the builder's value storage is never allocated.
pub const MIN_LAYOUT_SIZE: usize = 128;

/// Position of the component type `id` among `ids`, the builder's component
/// types in the order they were added. Adding a value of a type that is
/// there replaces the value at that position; otherwise the value is
/// appended.
pub fn component_slot(ids: &[TypeId], id: &TypeId) -> (r: Option<usize>)
    ensures
        r matches Some(i) ==> i < ids@.len() && ids@[i as int] == *id
            && forall|j: int| 0 <= j < i ==> ids@[j] != *id,
        r is None ==> forall|j: int| 0 <= j < ids@.len() ==> ids@[j] != *id,
{
    let mut i: usize = 0;
    while i < ids.len()
        invariant
            i <= ids@.len(),
            forall|j: int| 0 <= j < i ==> ids@[j] != *id,
        decreases ids@.len() - i,
    {
        if type_id_eq(&ids[i], id) {
            return Some(i);
        }
        i = i + 1;
    }
    None
}

/// Size of the value storage after adding a value when the values then
/// take `needed` bytes and the storage has `size` bytes.
pub open spec fn spec_grown_size(size: usize, needed: usize) -> usize {
    if size < needed {
        if MIN_LAYOUT_SIZE >= needed {
            MIN_LAYOUT_SIZE
        } else if size * 2 <= usize::MAX && size * 2 >= needed {
            (size * 2) as usize
        } else {
            needed
        }
    } else {
        size
    }
}

/// Size of the value storage after adding a value when the values then
/// take `needed` bytes and the storage has `size` bytes: unchanged when they
/// fit; otherwise the minimum size when that suffices, else twice the old
/// size when that does not overflow and suffices, else exactly `needed`.
pub fn grown_size(size: usize, needed: usize) -> (r: usize)
    ensures
        r == spec_grown_size(size, needed),
        r >= needed,
        r >= size,
{
    if size < needed {
        if MIN_LAYOUT_SIZE >= needed {
            MIN_LAYOUT_SIZE
        } else {
            match size.checked_mul(2) {
                Some(cap) => if cap >= needed {
                    cap
                } else {
                    needed
                },
                None => needed,
            }
        }
    } else {
        size
    }
}

} // verus!
