use vstd::prelude::*;

verus! {

/// World reference that is updated when flow is polled.
#[derive(Clone, Copy, Debug)]
pub struct FlowWorld {
    marker: (),
}

/// Future that polls a closure with the world.
pub struct PollWorld<F> {
    f: F,
    world: FlowWorld,
}

impl<F> PollWorld<F> {
    /// The closure polled by the future.
    pub closed spec fn closure(&self) -> F {
        self.f
    }
}

/// Future that polls a closure with a view of the world.
pub struct PollView<Q, Fi, F> {
    f: F,
    query: Q,
    filter: Fi,
    world: FlowWorld,
}

impl<Q, Fi, F> PollView<Q, Fi, F> {
    /// The closure polled by the future.
    pub closed spec fn closure(&self) -> F {
        self.f
    }

    /// The query of the view.
    pub closed spec fn query(&self) -> Q {
        self.query
    }

    /// The filter of the view.
    pub closed spec fn filter(&self) -> Fi {
        self.filter
    }
}

impl FlowWorld {
    /// World reference of the running flow.
    pub fn new() -> Self {
        FlowWorld { marker: () }
    }

    /// Returns a future that will poll the closure with world reference.
    /// The future will resolve to closure result in `Poll::Ready`.
    pub fn poll<F>(self, f: F) -> (r: PollWorld<F>)
        ensures
            r.closure() == f,
    {
        PollWorld { f, world: self }
    }

    /// Returns a future that will poll the closure with world view
    /// constructed with specified query.
    pub fn poll_view_with<Q, F>(self, query: Q, f: F) -> (r: PollView<Q, (), F>)
        ensures
            r.closure() == f,
            r.query() == query,
    {
        PollView { f, query, filter: (), world: self }
    }

    /// Returns a future that will poll the closure with world view
    /// constructed with specified query and filter.
    pub fn poll_view_filter_with<Q, Fi, F>(self, query: Q, filter: Fi, f: F) -> (r: PollView<Q, Fi, F>)
        ensures
            r.closure() == f,
            r.query() == query,
            r.filter() == filter,
    {
        PollView { f, query, filter, world: self }
    }
}

} // verus!
