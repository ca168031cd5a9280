use vstd::prelude::*;

use std::collections::VecDeque;

verus! {

/// Position `i` of a run of actions; the steps of a run are stated for
/// each position.
pub open spec fn at_step(i: int) -> bool {
    0 <= i
}

/// Every action of `fs` may be called on any world.
pub open spec fn all_callable<W, F: FnOnce(&mut W)>(fs: Seq<F>) -> bool {
    forall|i: int, w: &mut W| 0 <= i < fs.len() ==> #[trigger] fs[i].requires((w,))
}

/// Calls `f` on `w`. The action's postcondition holds of a reference
/// that starts at the value `w` had and ends at the value `w` is left with.
fn run_action<W, F: FnOnce(&mut W)>(f: F, w: &mut W)
    requires
        forall|v: &mut W| f.requires((v,)),
    ensures
        exists|r: &mut W| #[trigger] f.ensures((r,), ()) && *r == *old(w) && *final(r) == *final(w),
{
    f(w)
}

/// Runs the actions of `actions` on `world`, oldest first, until none is left.
/// Returns the worlds handed from action to action: the first is the world on
/// entry, the last the world left, and each action may take its world to the
/// next one.
fn run_queue<W, F: FnOnce(&mut W)>(actions: &mut VecDeque<F>, world: &mut W, Ghost(all): Ghost<Seq<F>>) -> (ws: Ghost<Seq<W>>)
    requires
        all_callable::<W, F>(all),
        old(actions)@ == all,
    ensures
        final(actions)@ == Seq::<F>::empty(),
        ws@.len() == all.len() + 1,
        ws@[0] == *old(world),
        ws@.last() == *final(world),
        forall|i: int| #[trigger] at_step(i) && i < all.len() ==>
            exists|w: &mut W| #[trigger] all[i].ensures((w,), ()) && *w == ws@[i] && *final(w) == ws@[i + 1],
{
    let ghost w0 = *world;
    let ghost mut ws: Seq<W> = Seq::empty().push(w0);
    while actions.len() > 0
        invariant
            all_callable::<W, F>(all),
            1 <= ws.len() <= all.len() + 1,
            actions@ == all.skip(ws.len() - 1),
            ws[0] == w0,
            ws.last() == *world,
            forall|i: int| #[trigger] at_step(i) && i < ws.len() - 1 ==>
                exists|w: &mut W| #[trigger] all[i].ensures((w,), ()) && *w == ws[i] && *final(w) == ws[i + 1],
        decreases actions@.len(),
    {
        let ghost before = ws;
        match actions.pop_front() {
            Some(fun) => {
                assert(fun == all[ws.len() - 1]);
                assert(forall|v: &mut W| fun.requires((v,))) by {
                    assert forall|v: &mut W| fun.requires((v,)) by {
                        assert(all[ws.len() - 1].requires((v,)));
                    }
                }
                run_action(fun, world);
                proof {
                    ws = ws.push(*world);
                }
                assert forall|i: int| #[trigger] at_step(i) && i < ws.len() - 2 implies
                    ws[i] == before[i] && ws[i + 1] == before[i + 1] by {}
                assert(all.skip(ws.len() - 1) =~= all.skip(ws.len() - 2).drop_first());
            },
            None => {},
        }
    }
    assert(all.skip(ws.len() - 1).len() == 0);
    let ws = Ghost(ws);
    ws
}

/// Buffer with all actions recorded for later execution on a world of
/// type `W`. Actions are sendable between threads.
pub struct ActionBuffer<F> {
    actions: VecDeque<F>,
}

impl<F> ActionBuffer<F> {
    /// Actions recorded and not yet executed, oldest first.
    pub closed spec fn pending(&self) -> Seq<F> {
        self.actions@
    }

    /// Returns new empty action buffer.
    pub fn new() -> (b: Self)
        ensures
            b.pending() == Seq::<F>::empty(),
    {
        ActionBuffer { actions: VecDeque::new() }
    }

    /// The recorded actions, oldest first, for recording more.
    pub fn actions(&mut self) -> (r: &mut VecDeque<F>)
        ensures
            r@ == old(self).pending(),
            final(self).pending() == (*final(r))@,
    {
        &mut self.actions
    }

    /// Records an action to be executed after those already recorded.
    pub fn push(&mut self, action: F)
        ensures
            final(self).pending() == old(self).pending().push(action),
    {
        self.actions.push_back(action);
    }

    /// Number of recorded actions.
    pub fn len(&self) -> (r: usize)
        ensures
            r == self.pending().len(),
    {
        self.actions.len()
    }

    /// Executes recorded actions onto the world.
    /// Iterates through all recorded actions and executes them one by one,
    /// oldest first.
    ///
    /// After execution buffer is empty.
    ///
    /// Returns `true` if at least one action was executed.
    pub fn execute<W>(&mut self, world: &mut W) -> (r: bool) where F: FnOnce(&mut W)
        requires
            all_callable::<W, F>(old(self).pending()),
        ensures
            r == (old(self).pending().len() > 0),
            final(self).pending() == Seq::<F>::empty(),
            old(self).pending().len() == 0 ==> *final(world) == *old(world),
            exists|ws: Seq<W>|
                #![trigger ws.len()]
                ws.len() == old(self).pending().len() + 1 && ws[0] == *old(world)
                && ws.last() == *final(world)
                && forall|i: int| #[trigger] at_step(i) && i < old(self).pending().len() ==>
                    exists|w: &mut W| #[trigger] old(self).pending()[i].ensures((w,), ())
                        && *w == ws[i] && *final(w) == ws[i + 1],
    {
        let n = self.actions.len();
        let ws = self.run(world);
        assert(ws@.len() == old(self).pending().len() + 1);
        n > 0
    }

    /// Runs the recorded actions on the world, oldest first, and returns the
    /// worlds handed from action to action.
    fn run<W>(&mut self, world: &mut W) -> (ws: Ghost<Seq<W>>) where F: FnOnce(&mut W)
        requires
            all_callable::<W, F>(old(self).pending()),
        ensures
            final(self).pending() == Seq::<F>::empty(),
            ws@.len() == old(self).pending().len() + 1,
            ws@[0] == *old(world),
            ws@.last() == *final(world),
            forall|i: int| #[trigger] at_step(i) && i < old(self).pending().len() ==>
                exists|w: &mut W| #[trigger] old(self).pending()[i].ensures((w,), ())
                    && *w == ws@[i] && *final(w) == ws@[i + 1],
    {
        let ghost all = self.actions@;
        run_queue(&mut self.actions, world, Ghost(all))
    }

    /// Actions recorded in the buffers from index `i` on, buffer by buffer,
    /// each oldest first.
    pub open spec fn pending_from(bufs: Seq<Self>, i: int) -> Seq<F>
        decreases bufs.len() - i,
    {
        if 0 <= i < bufs.len() {
            bufs[i].pending() + Self::pending_from(bufs, i + 1)
        } else {
            Seq::empty()
        }
    }

    /// Buffers that agree from index `i` on hold the same actions from there.
    proof fn lemma_pending_from_agree(a: Seq<Self>, b: Seq<Self>, i: int)
        requires
            0 <= i,
            a.len() == b.len(),
            forall|k: int| i <= k < a.len() ==> #[trigger] a[k].pending() == b[k].pending(),
        ensures
            Self::pending_from(a, i) == Self::pending_from(b, i),
        decreases a.len() - i,
    {
        if i < a.len() {
            Self::lemma_pending_from_agree(a, b, i + 1);
        }
    }
}

/// Buffer with all actions recorded for later execution on a world of
/// type `W`, on the thread that owns the world.
pub struct LocalActionBuffer<F> {
    actions: VecDeque<F>,
}

impl<F> LocalActionBuffer<F> {
    /// Actions recorded and not yet executed, oldest first.
    pub closed spec fn pending(&self) -> Seq<F> {
        self.actions@
    }

    /// Returns new empty action buffer.
    pub fn new() -> (b: Self)
        ensures
            b.pending() == Seq::<F>::empty(),
    {
        LocalActionBuffer { actions: VecDeque::new() }
    }

    /// The recorded actions, oldest first, for recording more.
    pub fn actions(&mut self) -> (r: &mut VecDeque<F>)
        ensures
            r@ == old(self).pending(),
            final(self).pending() == (*final(r))@,
    {
        &mut self.actions
    }

    /// Records an action to be executed after those already recorded.
    pub fn push(&mut self, action: F)
        ensures
            final(self).pending() == old(self).pending().push(action),
    {
        self.actions.push_back(action);
    }

    /// Executes recorded actions onto the world, oldest first.
    ///
    /// After execution buffer is empty.
    ///
    /// Returns `true` if at least one action was executed.
    pub fn execute<W>(&mut self, world: &mut W) -> (r: bool) where F: FnOnce(&mut W)
        requires
            all_callable::<W, F>(old(self).pending()),
        ensures
            r == (old(self).pending().len() > 0),
            final(self).pending() == Seq::<F>::empty(),
            old(self).pending().len() == 0 ==> *final(world) == *old(world),
            exists|ws: Seq<W>|
                #![trigger ws.len()]
                ws.len() == old(self).pending().len() + 1 && ws[0] == *old(world)
                && ws.last() == *final(world)
                && forall|i: int| #[trigger] at_step(i) && i < old(self).pending().len() ==>
                    exists|w: &mut W| #[trigger] old(self).pending()[i].ensures((w,), ())
                        && *w == ws[i] && *final(w) == ws[i + 1],
    {
        let n = self.actions.len();
        let ws = self.run(world);
        assert(ws@.len() == old(self).pending().len() + 1);
        n > 0
    }

    /// Runs the recorded actions on the world, oldest first, and returns the
    /// worlds handed from action to action.
    fn run<W>(&mut self, world: &mut W) -> (ws: Ghost<Seq<W>>) where F: FnOnce(&mut W)
        requires
            all_callable::<W, F>(old(self).pending()),
        ensures
            final(self).pending() == Seq::<F>::empty(),
            ws@.len() == old(self).pending().len() + 1,
            ws@[0] == *old(world),
            ws@.last() == *final(world),
            forall|i: int| #[trigger] at_step(i) && i < old(self).pending().len() ==>
                exists|w: &mut W| #[trigger] old(self).pending()[i].ensures((w,), ())
                    && *w == ws@[i] && *final(w) == ws@[i + 1],
    {
        let ghost all = self.actions@;
        run_queue(&mut self.actions, world, Ghost(all))
    }

    /// Actions recorded in the buffers from index `i` on, buffer by buffer,
    /// each oldest first.
    pub open spec fn pending_from(bufs: Seq<Self>, i: int) -> Seq<F>
        decreases bufs.len() - i,
    {
        if 0 <= i < bufs.len() {
            bufs[i].pending() + Self::pending_from(bufs, i + 1)
        } else {
            Seq::empty()
        }
    }

    /// Buffers that agree from index `i` on hold the same actions from there.
    proof fn lemma_pending_from_agree(a: Seq<Self>, b: Seq<Self>, i: int)
        requires
            0 <= i,
            a.len() == b.len(),
            forall|k: int| i <= k < a.len() ==> #[trigger] a[k].pending() == b[k].pending(),
        ensures
            Self::pending_from(a, i) == Self::pending_from(b, i),
        decreases a.len() - i,
    {
        if i < a.len() {
            Self::lemma_pending_from_agree(a, b, i + 1);
        }
    }

    /// Takes the oldest recorded action out of the buffer.
    pub fn pop(&mut self) -> (r: Option<F>)
        ensures
            old(self).pending().len() == 0 ==> r is None && final(self).pending() == old(self).pending(),
            old(self).pending().len() > 0 ==> r == Some(old(self).pending()[0])
                && final(self).pending() == old(self).pending().drop_first(),
    {
        self.actions.pop_front()
    }
}

/// Extension trait for a list of action buffers.
pub trait ActionBufferSliceExt<W> {
    /// Every action recorded in the buffers may be called on any world.
    spec fn runnable(&self) -> bool;

    /// Execute all action buffers of the list, in order.
    /// Returns `true` if at least one action was executed.
    fn execute_all(&mut self, world: &mut W) -> bool
        requires
            old(self).runnable(),
    ;
}

impl<W, F: FnOnce(&mut W)> ActionBufferSliceExt<W> for [ActionBuffer<F>] {
    open spec fn runnable(&self) -> bool {
        forall|k: int| 0 <= k < self@.len() ==> #[trigger] all_callable::<W, F>(self@[k].pending())
    }

    fn execute_all(&mut self, world: &mut W) -> (r: bool)
        ensures
            r == exists|k: int| 0 <= k < old(self)@.len() && #[trigger] old(self)@[k].pending().len() > 0,
            final(self)@.len() == old(self)@.len(),
            forall|k: int| 0 <= k < final(self)@.len() ==> #[trigger] final(self)@[k].pending() == Seq::<F>::empty(),
            exists|ws: Seq<W>|
                #![trigger ws.len()]
                ws.len() == ActionBuffer::pending_from(old(self)@, 0).len() + 1 && ws[0] == *old(world)
                && ws.last() == *final(world)
                && forall|i: int| #[trigger] at_step(i) && i < ActionBuffer::pending_from(old(self)@, 0).len() ==>
                    exists|w: &mut W| #[trigger] ActionBuffer::pending_from(old(self)@, 0)[i].ensures((w,), ())
                        && *w == ws[i] && *final(w) == ws[i + 1],
    {
        let (r, ws) = run_buffers_from_shared(self, 0, world);
        assert(ws@.len() == ActionBuffer::pending_from(old(self)@, 0).len() + 1);
        r
    }
}

impl<W, F: FnOnce(&mut W)> ActionBufferSliceExt<W> for [LocalActionBuffer<F>] {
    open spec fn runnable(&self) -> bool {
        forall|k: int| 0 <= k < self@.len() ==> #[trigger] all_callable::<W, F>(self@[k].pending())
    }

    fn execute_all(&mut self, world: &mut W) -> (r: bool)
        ensures
            r == exists|k: int| 0 <= k < old(self)@.len() && #[trigger] old(self)@[k].pending().len() > 0,
            final(self)@.len() == old(self)@.len(),
            forall|k: int| 0 <= k < final(self)@.len() ==> #[trigger] final(self)@[k].pending() == Seq::<F>::empty(),
            exists|ws: Seq<W>|
                #![trigger ws.len()]
                ws.len() == LocalActionBuffer::pending_from(old(self)@, 0).len() + 1 && ws[0] == *old(world)
                && ws.last() == *final(world)
                && forall|i: int| #[trigger] at_step(i) && i < LocalActionBuffer::pending_from(old(self)@, 0).len() ==>
                    exists|w: &mut W| #[trigger] LocalActionBuffer::pending_from(old(self)@, 0)[i].ensures((w,), ())
                        && *w == ws[i] && *final(w) == ws[i + 1],
    {
        let (r, ws) = run_buffers_from_local(self, 0, world);
        assert(ws@.len() == LocalActionBuffer::pending_from(old(self)@, 0).len() + 1);
        r
    }
}


/// Runs the actions of the buffers from index `i` on, buffer by buffer, each
/// oldest first, and returns whether any ran and the worlds handed from
/// action to action.
fn run_buffers_from_shared<W, F: FnOnce(&mut W)>(bufs: &mut [ActionBuffer<F>], i: usize, world: &mut W) -> (r: (bool, Ghost<Seq<W>>))
    requires
        forall|k: int| i <= k < old(bufs)@.len() ==> #[trigger] all_callable::<W, F>(old(bufs)@[k].pending()),
        i <= old(bufs)@.len(),
    ensures
        final(bufs)@.len() == old(bufs)@.len(),
        forall|k: int| 0 <= k < i ==> #[trigger] final(bufs)@[k] == old(bufs)@[k],
        forall|k: int| i <= k < final(bufs)@.len() ==> #[trigger] final(bufs)@[k].pending() == Seq::<F>::empty(),
        r.0 == exists|k: int| i <= k < old(bufs)@.len() && #[trigger] old(bufs)@[k].pending().len() > 0,
        r.1@.len() == ActionBuffer::pending_from(old(bufs)@, i as int).len() + 1,
        r.1@[0] == *old(world),
        r.1@.last() == *final(world),
        forall|j: int| #[trigger] at_step(j) && j < ActionBuffer::pending_from(old(bufs)@, i as int).len() ==>
            exists|w: &mut W| #[trigger] ActionBuffer::pending_from(old(bufs)@, i as int)[j].ensures((w,), ())
                && *w == r.1@[j] && *final(w) == r.1@[j + 1],
    decreases old(bufs)@.len() - i,
{
    let ghost w0 = *world;
    if i == bufs.len() {
        let ws = Ghost(Seq::empty().push(w0));
        return (false, ws);
    }
    let ghost b0 = bufs@;
    let ghost a = b0[i as int].pending();
    let ghost rest = ActionBuffer::pending_from(b0, i + 1);
    let n = bufs[i].actions.len();
    assert(all_callable::<W, F>(b0[i as int].pending()));
    let ws1 = bufs[i].run(world);
    assert(forall|k: int| #![trigger b0[k]] #![trigger bufs@[k]] i < k < b0.len() ==> bufs@[k] == b0[k]);
    let ghost b1 = bufs@;
    let (more, ws2) = run_buffers_from_shared(bufs, i + 1, world);
    proof {
        ActionBuffer::lemma_pending_from_agree(b0, b1, i + 1);
    }
    let ws = Ghost(ws1@ + ws2@.drop_first());
    assert(ActionBuffer::pending_from(b0, i as int) == a + rest);
    assert forall|j: int| #[trigger] at_step(j) && j < a.len() + rest.len() implies
        (j < a.len() ==> ws@[j] == ws1@[j] && ws@[j + 1] == ws1@[j + 1] && (a + rest)[j] == a[j])
        && (j >= a.len() ==> at_step(j - a.len()) && ws@[j] == ws2@[j - a.len()]
            && ws@[j + 1] == ws2@[j + 1 - a.len()] && (a + rest)[j] == rest[j - a.len()]) by {}
    assert(forall|k: int| #![trigger b0[k]] #![trigger b1[k]] i < k < b0.len() ==> b1[k] == b0[k]);
    assert(b0[i as int].pending().len() == n);
    let r = n > 0 || more;
    (r, ws)
}


/// Runs the actions of the buffers from index `i` on, buffer by buffer, each
/// oldest first, and returns whether any ran and the worlds handed from
/// action to action.
fn run_buffers_from_local<W, F: FnOnce(&mut W)>(bufs: &mut [LocalActionBuffer<F>], i: usize, world: &mut W) -> (r: (bool, Ghost<Seq<W>>))
    requires
        forall|k: int| i <= k < old(bufs)@.len() ==> #[trigger] all_callable::<W, F>(old(bufs)@[k].pending()),
        i <= old(bufs)@.len(),
    ensures
        final(bufs)@.len() == old(bufs)@.len(),
        forall|k: int| 0 <= k < i ==> #[trigger] final(bufs)@[k] == old(bufs)@[k],
        forall|k: int| i <= k < final(bufs)@.len() ==> #[trigger] final(bufs)@[k].pending() == Seq::<F>::empty(),
        r.0 == exists|k: int| i <= k < old(bufs)@.len() && #[trigger] old(bufs)@[k].pending().len() > 0,
        r.1@.len() == LocalActionBuffer::pending_from(old(bufs)@, i as int).len() + 1,
        r.1@[0] == *old(world),
        r.1@.last() == *final(world),
        forall|j: int| #[trigger] at_step(j) && j < LocalActionBuffer::pending_from(old(bufs)@, i as int).len() ==>
            exists|w: &mut W| #[trigger] LocalActionBuffer::pending_from(old(bufs)@, i as int)[j].ensures((w,), ())
                && *w == r.1@[j] && *final(w) == r.1@[j + 1],
    decreases old(bufs)@.len() - i,
{
    let ghost w0 = *world;
    if i == bufs.len() {
        let ws = Ghost(Seq::empty().push(w0));
        return (false, ws);
    }
    let ghost b0 = bufs@;
    let ghost a = b0[i as int].pending();
    let ghost rest = LocalActionBuffer::pending_from(b0, i + 1);
    let n = bufs[i].actions.len();
    assert(all_callable::<W, F>(b0[i as int].pending()));
    let ws1 = bufs[i].run(world);
    assert(forall|k: int| #![trigger b0[k]] #![trigger bufs@[k]] i < k < b0.len() ==> bufs@[k] == b0[k]);
    let ghost b1 = bufs@;
    let (more, ws2) = run_buffers_from_local(bufs, i + 1, world);
    proof {
        LocalActionBuffer::lemma_pending_from_agree(b0, b1, i + 1);
    }
    let ws = Ghost(ws1@ + ws2@.drop_first());
    assert(LocalActionBuffer::pending_from(b0, i as int) == a + rest);
    assert forall|j: int| #[trigger] at_step(j) && j < a.len() + rest.len() implies
        (j < a.len() ==> ws@[j] == ws1@[j] && ws@[j + 1] == ws1@[j + 1] && (a + rest)[j] == a[j])
        && (j >= a.len() ==> at_step(j - a.len()) && ws@[j] == ws2@[j - a.len()]
            && ws@[j + 1] == ws2@[j + 1 - a.len()] && (a + rest)[j] == rest[j - a.len()]) by {}
    assert(forall|k: int| #![trigger b0[k]] #![trigger b1[k]] i < k < b0.len() ==> b1[k] == b0[k]);
    assert(b0[i as int].pending().len() == n);
    let r = n > 0 || more;
    (r, ws)
}

} // verus!
