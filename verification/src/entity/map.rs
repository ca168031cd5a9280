//! Map from raw entity identifiers to entity locations, backed by `hashbrown`.

use vstd::prelude::*;

use super::set::Location;

verus! {

/// Entity locations keyed by raw entity identifier.
///
/// The `hashbrown` map type is held privately: its allocator parameter is
/// bounded by a trait that the crate does not export, so the type cannot be
/// declared to the verifier directly.
#[verifier::external_body]
pub struct LocationMap {
    inner: hashbrown::HashMap<u64, Location>,
}

/// What a location map holds.
pub uninterp spec fn location_map_contents(m: LocationMap) -> Map<u64, Location>;

impl LocationMap {
    /// `hashbrown::HashMap::new`: the new map is empty.
    #[verifier::external_body]
    pub(crate) fn new() -> (r: LocationMap)
        ensures
            location_map_contents(r) =~= Map::empty(),
    {
        LocationMap { inner: hashbrown::HashMap::new() }
    }

    /// `hashbrown::HashMap::get`: the value stored under the key, if any.
    #[verifier::external_body]
    pub(crate) fn get(&self, key: u64) -> (r: Option<Location>)
        ensures
            r == location_map_contents(*self).get(key),
    {
        self.inner.get(&key).copied()
    }

    /// `hashbrown::HashMap::insert`: stores the value under the key and
    /// returns the value that was stored there before, if any.
    /// Growing a table whose size would exceed `isize::MAX` bytes panics;
    /// a table that needs that already holds more entries than memory can,
    /// so no requirement on the length is stated.
    #[verifier::external_body]
    pub(crate) fn insert(&mut self, key: u64, value: Location) -> (r: Option<Location>)
        ensures
            r == location_map_contents(*old(self)).get(key),
            location_map_contents(*final(self)) == location_map_contents(*old(self)).insert(
                key,
                value,
            ),
    {
        self.inner.insert(key, value)
    }

    /// `hashbrown::HashMap::remove`: removes the key and returns the value
    /// that was stored under it, if any.
    #[verifier::external_body]
    pub(crate) fn remove(&mut self, key: u64) -> (r: Option<Location>)
        ensures
            r == location_map_contents(*old(self)).get(key),
            location_map_contents(*final(self)) == location_map_contents(*old(self)).remove(key),
    {
        self.inner.remove(&key)
    }

    /// `hashbrown::HashMap::len`: the number of entries.
    #[verifier::external_body]
    pub(crate) fn len(&self) -> (r: usize)
        ensures
            r == location_map_contents(*self).len(),
    {
        self.inner.len()
    }

    /// `hashbrown::HashMap::reserve`: grows capacity, leaves contents as
    /// they are. It panics when the new capacity exceeds `isize::MAX` bytes,
    /// which the requirement rules out (an entry takes sixteen bytes and the
    /// table at most four bytes of table per byte of entries).
    #[verifier::external_body]
    pub(crate) fn reserve(&mut self, additional: usize)
        requires
            (location_map_contents(*old(self)).len() + additional) * 64 <= isize::MAX,
        ensures
            location_map_contents(*final(self)) == location_map_contents(*old(self)),
    {
        self.inner.reserve(additional)
    }
}

} // verus!
