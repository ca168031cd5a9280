//! Marker types that stand for the `Send` bound and its absence.

use vstd::prelude::*;

use core::marker::PhantomData;

verus! {

/// `std::sync::MutexGuard`, which may be shared between threads but not
/// sent to another one; used only as a type parameter of `PhantomData`.
#[verifier::external_type_specification]
#[verifier::external_body]
#[verifier::reject_recursive_types(T)]
pub struct ExMutexGuard<'a, T: ?Sized + 'a>(std::sync::MutexGuard<'a, T>);

/// Parameter type for `Marker` trait.
/// Implements [`core::marker::Send`].
///
/// [`T: Marker<Send>`] bound is equivalent to [`T: Send`]
#[derive(Clone, Copy, Debug)]
pub struct Send;

/// Parameter type for `Marker` trait.
/// Does not implement [`core::marker::Send`] but implements [`core::marker::Sync`].
///
/// [`T: Marker<NoSend>`] bound is equivalent to no bounds at all.
#[derive(Clone, Copy, Debug)]
pub struct NoSend {
    marker: PhantomData<std::sync::MutexGuard<'static, ()>>,
}

impl NoSend {
    /// The marker value.
    pub fn new() -> Self {
        NoSend { marker: PhantomData }
    }
}

/// Marker trait bound generic over marker type.
pub trait Marker<T> {}

impl<T: core::marker::Send> Marker<Send> for T {}

impl<T> Marker<NoSend> for T {}

} // verus!
