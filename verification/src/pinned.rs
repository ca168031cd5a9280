//! Proof markers for pinned components.

use vstd::prelude::*;

verus! {

/// Special kind of query to skip components in `World::get/get_mut`.
///
/// Does nothing for all other methods.
#[derive(Clone, Copy, Debug, PartialEq, Eq, Structural)]
pub struct Skip;

/// Trait implemented for proofs of pinned components on `Entity`.
///
/// See `World::get/get_mut` for usage.
pub trait Proof<Q> {}

impl<'a> Proof<()> for &'a mut () {}

impl<'a> Proof<()> for &'a () {}

} // verus!
