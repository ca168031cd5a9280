use vstd::prelude::*;

verus! {

/// Future that yields control to the executor once.
pub struct YieldNow {
    yielded: bool,
}

impl YieldNow {
    /// Whether the future has yielded already.
    pub closed spec fn has_yielded(&self) -> bool {
        self.yielded
    }

    /// Create a new instance of [`YieldNow`] future.
    pub fn new() -> (r: Self)
        ensures
            !r.has_yielded(),
    {
        YieldNow { yielded: false }
    }

    /// One poll of the future: the first poll yields (returns `false`, and
    /// the task must be woken), every later poll is ready (returns `true`).
    pub fn poll_ready(&mut self) -> (ready: bool)
        ensures
            ready == old(self).has_yielded(),
            final(self).has_yielded(),
    {
        if !self.yielded {
            self.yielded = true;
            false
        } else {
            true
        }
    }
}

} // verus!
