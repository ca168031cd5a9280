//! Query marker traits.

use vstd::prelude::*;

use crate::pinned::Skip;

verus! {

/// Tuple of fetches that queries entities.
pub trait Query {}

/// Single fetch within a query.
pub trait Fetch {}

impl<T: Fetch> Fetch for Option<T> {}

impl Fetch for Skip {}

impl Query for () {}

impl<A: Fetch> Query for (A,) {}

impl<A: Fetch, B: Fetch> Query for (A, B) {}

impl<A: Fetch, B: Fetch, C: Fetch> Query for (A, B, C) {}

impl<A: Fetch, B: Fetch, C: Fetch, D: Fetch> Query for (A, B, C, D) {}

impl<A: Fetch, B: Fetch, C: Fetch, D: Fetch, E: Fetch> Query for (A, B, C, D, E) {}

impl<A: Fetch, B: Fetch, C: Fetch, D: Fetch, E: Fetch, F: Fetch> Query for (A, B, C, D, E, F) {}

impl<A: Fetch, B: Fetch, C: Fetch, D: Fetch, E: Fetch, F: Fetch, G: Fetch> Query for (
    A,
    B,
    C,
    D,
    E,
    F,
    G,
) {}

impl<A: Fetch, B: Fetch, C: Fetch, D: Fetch, E: Fetch, F: Fetch, G: Fetch, H: Fetch> Query for (
    A,
    B,
    C,
    D,
    E,
    F,
    G,
    H,
) {}

} // verus!
