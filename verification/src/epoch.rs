//! Type aliases for world epoch and component version.
//! This aliases is created to easy adjust the epoch type size.

use vstd::prelude::*;

verus! {

/// Type for world's epoch and component version.
pub type Epoch = u64;

/// Atomic type for world's epoch and component version.
pub type AtomicEpoch = core::sync::atomic::AtomicU64;

} // verus!
