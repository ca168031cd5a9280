//! Decisions of the concurrent queue of dropped entity indices: a lock
//! word that counts shared holders or holds the exclusive value, a cursor
//! into a fixed inline buffer, and a tail vector that takes the overflow.

use vstd::prelude::*;

verus! {

/// Lock word value of an exclusive hold.
pub const EXCLUSIVE_LOCK: usize = usize::MAX / 2;

/// What a push of a dropped index does after taking a shared hold.
#[derive(Clone, Copy, Debug, PartialEq, Eq, Structural)]
pub enum DropStep {
    /// An exclusive hold was in place: give the shared hold back and retry.
    Retry,
    /// Write the index into this inline buffer slot and give the hold back.
    Write(usize),
    /// The buffer just filled up: take the exclusive hold, move the index
    /// and the whole buffer to the tail, reset the cursor.
    Flush,
    /// Another push is flushing: give the shared hold back and retry.
    Exhausted,
}

/// Decision of a push that found the lock word `locked` when taking a
/// shared hold, and the cursor `idx` when claiming a slot.
pub open spec fn spec_drop_step(buffer_len: usize, locked: usize, idx: usize) -> DropStep {
    if locked >= EXCLUSIVE_LOCK {
        DropStep::Retry
    } else if idx < buffer_len {
        DropStep::Write(idx)
    } else if idx == buffer_len {
        DropStep::Flush
    } else {
        DropStep::Exhausted
    }
}

/// Whether a shared hold that found the lock word `locked` must be given back.
pub fn shared_hold_refused(locked: usize) -> (r: bool)
    ensures
        r == (locked >= EXCLUSIVE_LOCK),
{
    locked >= EXCLUSIVE_LOCK
}

/// Decision of a push that found the lock word `locked` and claimed the
/// cursor value `idx` in a buffer of `buffer_len` slots.
pub fn drop_step(buffer_len: usize, locked: usize, idx: usize) -> (r: DropStep)
    ensures
        r == spec_drop_step(buffer_len, locked, idx),
{
    if shared_hold_refused(locked) {
        DropStep::Retry
    } else if idx < buffer_len {
        DropStep::Write(idx)
    } else if idx == buffer_len {
        DropStep::Flush
    } else {
        DropStep::Exhausted
    }
}

/// A slot is written only within the buffer, exactly one claim per buffer
/// fill flushes, and nothing is written while an exclusive hold is in place.
pub proof fn lemma_drop_steps(buffer_len: usize, locked: usize, idx: usize)
    ensures
        spec_drop_step(buffer_len, locked, idx) matches DropStep::Write(i) ==> i < buffer_len
            && locked < EXCLUSIVE_LOCK,
        spec_drop_step(buffer_len, locked, idx) == DropStep::Flush ==> idx == buffer_len,
        locked >= EXCLUSIVE_LOCK ==> spec_drop_step(buffer_len, locked, idx) == DropStep::Retry,
{
}

/// Indices a drain hands out from a queue whose tail is `tail`, whose
/// inline buffer is `buffer` and whose cursor is `cursor`: the buffered ones
/// first, then the tail.
pub open spec fn queued(tail: Seq<u32>, buffer: Seq<u32>, cursor: int) -> Seq<u32> {
    buffer.take(cursor) + tail
}

/// Queue after a push of `id` with no other thread acting: written into the
/// slot at the cursor while one is free; otherwise the buffer is full and
/// the index, then the whole buffer, move to the tail and the cursor resets.
pub open spec fn pushed(tail: Seq<u32>, buffer: Seq<u32>, cursor: int, id: u32) -> (Seq<u32>, Seq<u32>, int) {
    if cursor < buffer.len() {
        (tail, buffer.update(cursor, id), cursor + 1)
    } else {
        (tail.push(id) + buffer, buffer, 0)
    }
}

/// Queue after the pushes of `ids`, in order, with no other thread acting.
pub open spec fn pushed_all(tail: Seq<u32>, buffer: Seq<u32>, cursor: int, ids: Seq<u32>) -> (Seq<u32>, Seq<u32>, int)
    decreases ids.len(),
{
    if ids.len() == 0 {
        (tail, buffer, cursor)
    } else {
        let (t, b, c) = pushed_all(tail, buffer, cursor, ids.drop_last());
        pushed(t, b, c, ids.last())
    }
}

/// A push loses no index: what a drain would hand out gains exactly the
/// pushed index, and the cursor stays within the buffer.
pub proof fn lemma_push_loses_nothing(tail: Seq<u32>, buffer: Seq<u32>, cursor: int, id: u32)
    requires
        0 <= cursor <= buffer.len(),
    ensures
        ({
            let (t, b, c) = pushed(tail, buffer, cursor, id);
            &&& queued(t, b, c).to_multiset() == queued(tail, buffer, cursor).to_multiset().insert(id)
            &&& b.len() == buffer.len()
            &&& 0 <= c <= b.len()
        }),
{
    broadcast use vstd::seq_lib::group_to_multiset_ensures, vstd::seq_lib::lemma_multiset_commutative;
    let (t, b, c) = pushed(tail, buffer, cursor, id);
    if cursor < buffer.len() {
        assert(b.take(c) =~= buffer.take(cursor).push(id));
        assert(queued(t, b, c).to_multiset() =~= (buffer.take(cursor) + tail).to_multiset().insert(id)) by {
            assert(queued(t, b, c) =~= (buffer.take(cursor) + tail).insert(cursor, id));
        }
    } else {
        assert(b.take(c) =~= Seq::<u32>::empty());
        assert(buffer.take(cursor) =~= buffer);
        assert(queued(t, b, c) =~= tail.push(id) + buffer);
    }
}

/// Draining a queue that starts empty, after any sequence of pushes with no
/// other thread acting, hands out every pushed index, as often as it was
/// pushed.
pub proof fn lemma_pushes_lose_nothing(buffer: Seq<u32>, ids: Seq<u32>)
    ensures
        ({
            let (t, b, c) = pushed_all(Seq::empty(), buffer, 0, ids);
            &&& queued(t, b, c).to_multiset() == ids.to_multiset()
            &&& b.len() == buffer.len()
            &&& 0 <= c <= b.len()
        }),
    decreases ids.len(),
{
    broadcast use vstd::seq_lib::group_to_multiset_ensures;
    if ids.len() == 0 {
        assert(queued(Seq::empty(), buffer, 0) =~= Seq::<u32>::empty());
    } else {
        lemma_pushes_lose_nothing(buffer, ids.drop_last());
        let (t, b, c) = pushed_all(Seq::empty(), buffer, 0, ids.drop_last());
        lemma_push_loses_nothing(t, b, c, ids.last());
        assert(ids =~= ids.drop_last().push(ids.last()));
    }
}

/// Flush under the exclusive hold: the tail takes the pushed index, then the
/// whole buffer.
pub fn flush_into(tail: &mut Vec<u32>, id: u32, buffer: &[u32])
    ensures
        final(tail)@ == old(tail)@.push(id) + buffer@,
{
    tail.push(id);
    let mut i: usize = 0;
    while i < buffer.len()
        invariant
            i <= buffer@.len(),
            tail@ == old(tail)@.push(id) + buffer@.take(i as int),
        decreases buffer@.len() - i,
    {
        tail.push(buffer[i]);
        assert(buffer@.take(i + 1) =~= buffer@.take(i as int).push(buffer@[i as int]));
        i = i + 1;
    }
    assert(buffer@.take(i as int) =~= buffer@);
}

/// Drain under the exclusive hold: `extend` takes the first `len` buffered
/// indices, then the whole tail, which is left empty.
pub fn drain_into(extend: &mut Vec<u32>, buffer: &[u32], len: usize, tail: &mut Vec<u32>)
    requires
        len <= buffer@.len(),
    ensures
        final(extend)@ == old(extend)@ + queued(old(tail)@, buffer@, len as int),
        final(tail)@ == Seq::<u32>::empty(),
{
    let mut i: usize = 0;
    while i < len
        invariant
            len <= buffer@.len(),
            i <= len,
            tail@ == old(tail)@,
            extend@ == old(extend)@ + buffer@.take(i as int),
        decreases len - i,
    {
        extend.push(buffer[i]);
        assert(buffer@.take(i + 1) =~= buffer@.take(i as int).push(buffer@[i as int]));
        i = i + 1;
    }
    let mut j: usize = 0;
    while j < tail.len()
        invariant
            j <= tail@.len(),
            tail@ == old(tail)@,
            extend@ == old(extend)@ + buffer@.take(len as int) + old(tail)@.take(j as int),
        decreases tail@.len() - j,
    {
        extend.push(tail[j]);
        assert(old(tail)@.take(j + 1) =~= old(tail)@.take(j as int).push(old(tail)@[j as int]));
        j = j + 1;
    }
    assert(old(tail)@.take(j as int) =~= old(tail)@);
    tail.clear();
    assert(extend@ =~= old(extend)@ + queued(old(tail)@, buffer@, len as int));
}

} // verus!
