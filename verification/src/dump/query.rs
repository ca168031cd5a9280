use vstd::prelude::*;

use core::marker::PhantomData;

use crate::epoch::Epoch;

verus! {

/// Query for fetching components to serialize: components modified after
/// `after_epoch` are dumped with their values.
pub struct DumpQuery<T> {
    after_epoch: Epoch,
    marker: PhantomData<T>,
}

impl<T> DumpQuery<T> {
    /// Epoch after which modifications are dumped.
    pub closed spec fn spec_after_epoch(&self) -> Epoch {
        self.after_epoch
    }

    /// Query for components modified after `after_epoch`.
    pub fn new(after_epoch: Epoch) -> (r: Self)
        ensures
            r.spec_after_epoch() == after_epoch,
    {
        DumpQuery { after_epoch, marker: PhantomData }
    }

    /// Epoch after which modifications are dumped.
    pub fn after_epoch(&self) -> (r: Epoch)
        ensures
            r == self.spec_after_epoch(),
    {
        self.after_epoch
    }
}

} // verus!
