use vstd::prelude::*;

verus! {

/// First identifier of the default range. Inclusive.
pub const START: u64 = 1;

/// End of the default range and of every exhausted range. Exclusive.
pub const END: u64 = 0xffff_ffff_ffff_ffff;

/// Range of raw entity IDs.
/// `start` is inclusive, `end` is exclusive.
///
/// `IdRangeAllocator` provides ranges of IDs.
#[derive(Clone, Copy, Debug, PartialEq, Eq, Hash)]
pub struct IdRange {
    /// Start of the range. Inclusive. Never zero.
    pub start: u64,
    /// End of the range. Exclusive. Never zero.
    pub end: u64,
}

impl IdRange {
    /// Both bounds are non-zero identifiers.
    pub open spec fn wf(self) -> bool {
        self.start != 0 && self.end != 0
    }

    /// The bounds are ordered.
    pub open spec fn ordered(self) -> bool {
        self.start <= self.end
    }

    /// Identifiers in the range.
    pub open spec fn ids(self) -> Set<u64> {
        Set::new(|id: u64| self.start <= id < self.end)
    }

    /// Number of identifiers in the range.
    pub open spec fn len(self) -> int {
        if self.start <= self.end {
            self.end - self.start
        } else {
            0
        }
    }

    /// The range with `end` raised to `start` where it lies below.
    pub open spec fn proper_range(self) -> IdRange {
        IdRange { start: self.start, end: if self.end >= self.start { self.end } else { self.start } }
    }

    /// Returns proper range with `start` less than or equal to `end`.
    pub fn proper(&self) -> (r: IdRange)
        ensures
            r == self.proper_range(),
            r.start == self.start,
            r.end == (if self.end >= self.start { self.end } else { self.start }),
            r.ordered(),
            r.ids() == self.ids(),
            self.wf() ==> r.wf(),
    {
        let end = if self.end >= self.start { self.end } else { self.start };
        let r = IdRange { start: self.start, end };
        assert(r.ids() =~= self.ids());
        r
    }

    /// Returns number of IDs in the range.
    pub fn count(&self) -> (c: u64)
        requires
            self.ordered(),
        ensures
            c == self.end - self.start,
            c == self.len(),
    {
        self.end - self.start
    }

    /// Returns true if the range is empty.
    pub fn is_empty(&self) -> (b: bool)
        requires
            self.ordered(),
        ensures
            b == (self.start == self.end),
            b == (self.len() == 0),
    {
        self.start == self.end
    }

    /// Returns ID at the given index.
    pub fn get(&self, idx: u64) -> (r: Option<u64>)
        requires
            self.ordered(),
        ensures
            r == (if idx < self.len() { Some((self.start + idx) as u64) } else { None::<u64> }),
    {
        if idx >= self.count() {
            return None;
        }
        Some(self.start + idx)
    }

    /// Advances range by at most `count` IDs.
    /// Returns the range of IDs advanced over, in order.
    pub fn advance(&mut self, count: u64) -> (taken: IdRange)
        requires
            old(self).ordered(),
        ensures
            taken.start == old(self).start,
            taken.len() == (if count < old(self).len() { count as int } else { old(self).len() }),
            taken.ordered(),
            final(self).start == taken.end,
            final(self).end == old(self).end,
            final(self).ordered(),
            old(self).wf() ==> final(self).wf() && taken.wf(),
            taken.ids().disjoint(final(self).ids()),
            old(self).ids() == taken.ids().union(final(self).ids()),
    {
        let available = self.count();
        let count = if count < available { count } else { available };
        let start = self.start;
        self.start = self.start + count;
        let taken = IdRange { start, end: self.start };
        assert(old(self).ids() =~= taken.ids().union(self.ids()));
        taken
    }

    /// Take first ID from the range.
    pub fn take(&mut self) -> (r: Option<u64>)
        requires
            old(self).ordered(),
        ensures
            final(self).end == old(self).end,
            final(self).ordered(),
            old(self).wf() ==> final(self).wf(),
            old(self).len() == 0 ==> r is None && *final(self) == *old(self),
            old(self).len() > 0 ==> r == Some(old(self).start) && final(self).start == old(self).start + 1,
            final(self).ids() == (match r { Some(id) => old(self).ids().remove(id), None => old(self).ids() }),
    {
        if self.is_empty() {
            return None;
        }
        let id = self.start;
        self.start = id + 1;
        assert(self.ids() =~= old(self).ids().remove(id));
        Some(id)
    }
}

/// Allocator for entity IDs.
///
/// User may provide custom `IdRangeAllocator` implementation
/// to allocate ID ranges that `World` will be using.
///
/// This allows user to control IDs and ensure uniqueness across multiple worlds
/// when needed.
///
/// Allocator should return large range of IDs.
/// If allocator is exhausted, it returns an empty range.
pub trait IdRangeAllocator {
    /// Identifiers this allocator has given out, or will never give out.
    /// By default: every identifier, which suits an allocator that gives
    /// out nothing.
    open spec fn used(&self) -> Set<u64> {
        Set::full()
    }

    /// Range that the `k`-th call of `allocate_range` from now on returns,
    /// counting from zero. By default: an empty range, every time.
    open spec fn range_at(&self, k: nat) -> IdRange {
        IdRange { start: END, end: END }
    }

    /// Allocate range of unique entity IDs.
    /// IDs generated must be unique for the given allocator.
    ///
    /// If allocator is exhausted, returns empty range.
    fn allocate_range(&mut self) -> (r: IdRange)
        ensures
            r.wf(),
            r.ids().disjoint(old(self).used()),
            old(self).used().subset_of(final(self).used()),
            r.ids().subset_of(final(self).used()),
            r == old(self).range_at(0),
            forall|k: nat| #[trigger] final(self).range_at(k) == old(self).range_at(k + 1),
    ;
}

/// Allocator that never provides any identifier.
pub struct DummyAllocator;

impl IdRangeAllocator for DummyAllocator {
    open spec fn used(&self) -> Set<u64> {
        Set::full()
    }

    fn allocate_range(&mut self) -> (r: IdRange) {
        let r = IdRange { start: END, end: END };
        assert(r.ids() =~= Set::empty());
        r
    }
}

/// `IdRangeAllocator` implementation that allocates single ID range
/// provided in constructor.
pub struct OneRangeAllocator {
    range: IdRange,
    issued: Ghost<Set<u64>>,
}

impl OneRangeAllocator {
    #[verifier::type_invariant]
    spec fn inv(self) -> bool {
        &&& self.range.wf()
        &&& self.range.ids().disjoint(self.issued@)
    }

    /// The range this allocator will hand out next.
    pub closed spec fn pending(self) -> IdRange {
        self.range
    }

    /// Creates new `OneRangeAllocator` that will allocate given range once.
    /// And then return empty range on subsequent allocations.
    pub fn new(range: IdRange) -> (a: Self)
        requires
            range.wf(),
        ensures
            a.pending() == range,
            a.used() == Set::<u64>::empty(),
    {
        OneRangeAllocator { range, issued: Ghost(Set::empty()) }
    }
}

impl IdRangeAllocator for OneRangeAllocator {
    closed spec fn used(&self) -> Set<u64> {
        self.issued@
    }

    open spec fn range_at(&self, k: nat) -> IdRange {
        if k == 0 {
            self.pending()
        } else {
            IdRange { start: END, end: END }
        }
    }

    fn allocate_range(&mut self) -> (r: IdRange)
        ensures
            r == old(self).pending(),
            final(self).pending() == (IdRange { start: END, end: END }),
    {
        proof {
            use_type_invariant(&*self);
        }
        let range = self.range;
        self.range = IdRange { start: END, end: END };
        self.issued = Ghost(self.issued@.union(range.ids()));
        assert(self.range.ids() =~= Set::empty());
        range
    }
}


/// Sizes of two disjoint ordered non-zero ranges add up to less than `u64::MAX`.
proof fn lemma_disjoint_lens(a: IdRange, b: IdRange)
    requires
        a.wf(),
        b.wf(),
        a.ordered(),
        b.ordered(),
        a.ids().disjoint(b.ids()),
    ensures
        a.len() + b.len() < 0xffff_ffff_ffff_ffff,
{
    if a.len() > 0 && b.len() > 0 && a.start < b.end && b.start < a.end {
        let m = if a.start < b.start { b.start } else { a.start };
        assert(a.ids().contains(m));
        assert(b.ids().contains(m));
    }
}

/// Identifier allocator that hands out identifiers from a current range
/// and keeps one pre-allocated range for reservations.
pub struct IdAllocator {
    current: IdRange,
    next: IdRange,
    range_alloc: Option<Box<dyn IdRangeAllocator>>,
    handed: Ghost<Set<u64>>,
}

impl IdAllocator {
    /// Range from which identifiers are taken now.
    pub closed spec fn current(self) -> IdRange {
        self.current
    }

    /// Pre-allocated range that follows the current one.
    pub closed spec fn upcoming(self) -> IdRange {
        self.next
    }

    /// Identifiers given out so far.
    pub closed spec fn handed(self) -> Set<u64> {
        self.handed@
    }

    /// Identifiers that the range allocator will never give out again.
    pub closed spec fn used(self) -> Set<u64> {
        match self.range_alloc {
            Some(range_alloc) => range_alloc.used(),
            None => Set::full(),
        }
    }

    /// Range that the `k`-th request for a fresh range from now on gets from
    /// the range allocator, counting from zero; an empty range where there
    /// is no range allocator.
    pub closed spec fn fresh(self, k: nat) -> IdRange {
        match self.range_alloc {
            Some(range_alloc) => range_alloc.range_at(k),
            None => IdRange { start: END, end: END },
        }
    }

    /// Well-formedness: ranges are proper and non-zero, and no identifier
    /// is both given out and still available, or available twice.
    pub closed spec fn wf(self) -> bool {
        &&& self.current.wf()
        &&& self.current.ordered()
        &&& self.next.wf()
        &&& self.next.ordered()
        &&& self.current.ids().disjoint(self.next.ids())
        &&& self.handed@.disjoint(self.current.ids())
        &&& self.handed@.disjoint(self.next.ids())
        &&& self.current.ids().subset_of(self.used())
        &&& self.next.ids().subset_of(self.used())
        &&& self.handed@.subset_of(self.used())
    }

    /// No identifier is left in either range.
    pub open spec fn exhausted(self) -> bool {
        self.current().len() == 0 && self.upcoming().len() == 0
    }

    /// Identifier that `next` hands out, unless the allocator is exhausted.
    pub open spec fn next_id(self) -> u64 {
        if self.current().len() > 0 {
            self.current().start
        } else {
            self.upcoming().start
        }
    }

    /// Identifiers that the first `n` reservation indices stand for.
    pub open spec fn reserved_prefix(self, n: u64) -> Set<u64> {
        Set::new(|id: u64| exists|i: u64| i < n && #[trigger] self.spec_reserve(i) == Some(id))
    }

    /// Identifier that reservation index `idx` stands for.
    pub open spec fn spec_reserve(self, idx: u64) -> Option<u64> {
        let c = self.current();
        let n = self.upcoming();
        if idx < c.len() {
            Some((c.start + idx) as u64)
        } else if idx - c.len() < n.len() {
            Some((n.start + (idx - c.len())) as u64)
        } else {
            None
        }
    }

    /// Reservation index of identifier `id`.
    pub open spec fn spec_reserved(self, id: u64) -> Option<u64> {
        let c = self.current();
        let n = self.upcoming();
        if c.start <= id < c.end {
            Some((id - c.start) as u64)
        } else if n.start <= id < n.end {
            Some((id - n.start + c.len()) as u64)
        } else {
            None
        }
    }

    proof fn lemma_wf_lens(self)
        requires
            self.wf(),
        ensures
            self.current().len() + self.upcoming().len() < 0xffff_ffff_ffff_ffff,
    {
        lemma_disjoint_lens(self.current, self.next);
    }

    /// Reserving an index and looking up the reservation index of the
    /// reserved identifier give back the index; every identifier with a
    /// reservation index is the one reserved under that index.
    pub proof fn lemma_reserve_reserved(self, idx: u64, id: u64)
        requires
            self.wf(),
        ensures
            self.spec_reserve(idx) == Some(id) ==> self.spec_reserved(id) == Some(idx),
            self.spec_reserved(id) == Some(idx) ==> self.spec_reserve(idx) == Some(id),
    {
        self.lemma_wf_lens();
        let c = self.current;
        let n = self.next;
        if self.spec_reserve(idx) == Some(id) && idx >= c.len() {
            assert(n.ids().contains(id));
            if c.start <= id < c.end {
                assert(c.ids().contains(id));
            }
        }
    }

    /// Id allocator that allocates IDs from [1..u64::MAX)
    /// without external ID ranges.
    pub fn new() -> (a: Self)
        ensures
            a.wf(),
            a.current() == (IdRange { start: START, end: END }),
            a.upcoming() == (IdRange { start: END, end: END }),
            a.handed() == Set::<u64>::empty(),
    {
        IdAllocator {
            current: IdRange { start: START, end: END },
            next: IdRange { start: END, end: END },
            range_alloc: None,
            handed: Ghost(Set::empty()),
        }
    }

    /// Id allocator that allocates IDs from ranges.
    /// And allocate ranges from the given id range allocator.
    pub fn with_range_allocator(range_alloc: Box<dyn IdRangeAllocator>) -> (a: Self)
        ensures
            a.wf(),
            a.handed() == Set::<u64>::empty(),
            range_alloc.used().subset_of(a.used()),
            a.current().ids().disjoint(range_alloc.used()),
            a.upcoming().ids().disjoint(range_alloc.used()),
            a.current() == range_alloc.range_at(0).proper_range(),
            a.upcoming() == range_alloc.range_at(1).proper_range(),
            forall|k: nat| #[trigger] a.fresh(k) == range_alloc.range_at(k + 2),
    {
        let range_alloc = Some(range_alloc);
        let a = Self::from_range_allocator(range_alloc);
        a
    }

    /// Id allocator whose two ranges come from `range_alloc`, the current
    /// one first. Without a range allocator both ranges are empty.
    ///
    /// Same as `with_range_allocator` for `Some`; the allocator passed inside
    /// an `Option` keeps, for the verifier, the identity of the value the
    /// caller built, so its `range_at` can be followed into `next`.
    pub fn from_range_allocator(range_alloc: Option<Box<dyn IdRangeAllocator>>) -> (a: Self)
        ensures
            a.wf(),
            a.handed() == Set::<u64>::empty(),
            range_alloc matches Some(b) ==> b.used().subset_of(a.used())
                && a.current().ids().disjoint(b.used())
                && a.upcoming().ids().disjoint(b.used())
                && a.current() == b.range_at(0).proper_range()
                && a.upcoming() == b.range_at(1).proper_range()
                && forall|k: nat| #[trigger] a.fresh(k) == b.range_at(k + 2),
            range_alloc is None ==> a.exhausted(),
    {
        let mut a = IdAllocator {
            current: IdRange { start: END, end: END },
            next: IdRange { start: END, end: END },
            range_alloc,
            handed: Ghost(Set::empty()),
        };
        assert(a.current.ids() =~= Set::empty());
        let ghost a0 = a;
        assert(forall|k: nat| #[trigger] a0.fresh(k) == (match range_alloc {
            Some(b) => b.range_at(k),
            None => IdRange { start: END, end: END },
        }));
        let current = a.allocate_fresh().proper();
        let ghost a1 = a;
        a.current = current;
        assert(a.range_alloc == a1.range_alloc);
        assert(forall|k: nat| #[trigger] a.fresh(k) == a1.fresh(k));
        let ghost a2 = a;
        let next = a.allocate_fresh().proper();
        let ghost a3 = a;
        a.next = next;
        assert(a.range_alloc == a3.range_alloc);
        assert(forall|k: nat| #[trigger] a.fresh(k) == a3.fresh(k));
        assert(forall|k: nat| #[trigger] a.fresh(k) == a0.fresh(k + 2)) by {
            assert(forall|k: nat| #[trigger] a3.fresh(k) == a2.fresh(k + 1));
            assert(forall|k: nat| #[trigger] a2.fresh(k) == a0.fresh(k + 1));
        }
        proof {
            if a.range_alloc is None {
                if a.current.start < a.current.end {
                    assert(a.current.ids().contains(a.current.start));
                }
                if a.next.start < a.next.end {
                    assert(a.next.ids().contains(a.next.start));
                }
            }
        }
        a
    }

    /// Asks the range allocator for a new range.
    fn allocate_fresh(&mut self) -> (r: IdRange)
        ensures
            r.wf(),
            r.ids().disjoint(old(self).used()),
            old(self).used().subset_of(final(self).used()),
            r.ids().subset_of(final(self).used()),
            final(self).current == old(self).current,
            final(self).next == old(self).next,
            final(self).handed == old(self).handed,
            old(self).range_alloc is None ==> final(self).range_alloc is None,
            r == old(self).fresh(0),
            forall|k: nat| #[trigger] final(self).fresh(k) == old(self).fresh(k + 1),
    {
        match &mut self.range_alloc {
            Some(range_alloc) => range_alloc.allocate_range(),
            None => {
                let mut dummy = DummyAllocator;
                dummy.allocate_range()
            },
        }
    }

    /// Returns next ID from the range.
    /// If the range is exhausted, allocates new range from the allocator.
    /// If allocator is exhausted, returns `None`.
    pub fn next(&mut self) -> (r: Option<u64>)
        requires
            old(self).wf(),
        ensures
            final(self).wf(),
            r is None <==> old(self).exhausted(),
            r matches Some(id) ==> id == old(self).next_id(),
            r matches Some(id) ==> id != 0 && !old(self).handed().contains(id)
                && final(self).handed() == old(self).handed().insert(id),
            r is None ==> final(self).handed() == old(self).handed(),
            old(self).current().len() > 0 ==> final(self).upcoming() == old(self).upcoming()
                && final(self).current() == (IdRange {
                start: (old(self).current().start + 1) as u64,
                end: old(self).current().end,
            }),
            old(self).current().len() == 0 ==> final(self).current().end == old(self).upcoming().end,
            old(self).current().len() == 0 && old(self).upcoming().len() > 0 ==> final(self).current() == (IdRange {
                start: (old(self).upcoming().start + 1) as u64,
                end: old(self).upcoming().end,
            }),
            old(self).exhausted() ==> final(self).current() == old(self).upcoming(),
            old(self).current().len() == 0 ==> final(self).upcoming() == old(self).fresh(0).proper_range()
                && forall|k: nat| #[trigger] final(self).fresh(k) == old(self).fresh(k + 1),
            old(self).current().len() > 0 ==> forall|k: nat| #[trigger] final(self).fresh(k) == old(self).fresh(k),
            old(self).used().subset_of(final(self).used()),
    {
        if self.current.is_empty() {
            let fresh = self.allocate_fresh().proper();
            let ghost m1 = *self;
            self.current = self.next;
            self.next = fresh;
            assert(self.range_alloc == m1.range_alloc);
            assert(forall|k: nat| #[trigger] self.fresh(k) == m1.fresh(k));
        }
        let ghost mid = *self;
        let r = self.current.take();
        if let Some(id) = r {
            self.handed = Ghost(self.handed@.insert(id));
        }
        assert(self.range_alloc == mid.range_alloc);
        assert(forall|k: nat| #[trigger] self.fresh(k) == mid.fresh(k));
        r
    }

    /// Reserves new ID.
    /// Call should use unique `idx` for each call
    /// between calls to `flush_reserved`.
    ///
    /// Caller SHOULD use `idx` values in order from 0 to not
    /// waste IDs.
    pub fn reserve(&self, idx: u64) -> (r: Option<u64>)
        requires
            self.wf(),
        ensures
            r == self.spec_reserve(idx),
            r matches Some(id) ==> id != 0,
    {
        let c = self.current.count();
        if idx < c {
            return Some(self.current.start + idx);
        }
        let idx2 = idx - c;
        self.next.get(idx2)
    }

    /// Returns reserve index of the ID.
    /// Returns `None` if ID is not reserved.
    pub fn reserved(&self, id: u64) -> (r: Option<u64>)
        requires
            self.wf(),
        ensures
            r == self.spec_reserved(id),
    {
        proof {
            self.lemma_wf_lens();
        }
        if id >= self.current.start && id < self.current.end {
            return Some(id - self.current.start);
        }
        if id >= self.next.start && id < self.next.end {
            return Some(id - self.next.start + self.current.count());
        }
        None
    }

    /// Gives out reserved IDs: the first `count` reservation indices,
    /// as far as the two ranges hold them.
    /// Returns the IDs taken from the current range and from the upcoming
    /// range, in reservation order.
    pub fn flush_reserved(&mut self, count: u64) -> (taken: (IdRange, IdRange))
        requires
            old(self).wf(),
        ensures
            final(self).wf(),
            taken.0.wf() && taken.0.ordered() && taken.1.wf() && taken.1.ordered(),
            taken.0.start == old(self).current().start,
            taken.0.len() == (if count < old(self).current().len() {
                count as int
            } else {
                old(self).current().len()
            }),
            taken.1.start == old(self).upcoming().start,
            taken.1.len() == (if count <= old(self).current().len() {
                0
            } else if count - old(self).current().len() < old(self).upcoming().len() {
                count - old(self).current().len()
            } else {
                old(self).upcoming().len()
            }),
            forall|i: u64|
                i < count ==> #[trigger] old(self).spec_reserve(i) == (if i < taken.0.len() {
                    Some((taken.0.start + i) as u64)
                } else if i < taken.0.len() + taken.1.len() {
                    Some((taken.1.start + (i - taken.0.len())) as u64)
                } else {
                    None::<u64>
                }),
            taken.0.ids().disjoint(old(self).handed()),
            taken.1.ids().disjoint(old(self).handed()),
            taken.0.ids().disjoint(taken.1.ids()),
            final(self).handed() == old(self).handed().union(taken.0.ids()).union(
                taken.1.ids(),
            ),
            old(self).used().subset_of(final(self).used()),
            count <= old(self).current().len() ==> final(self).upcoming() == old(self).upcoming()
                && forall|k: nat| #[trigger] final(self).fresh(k) == old(self).fresh(k),
            count > old(self).current().len() ==> final(self).upcoming() == old(self).fresh(0).proper_range()
                && forall|k: nat| #[trigger] final(self).fresh(k) == old(self).fresh(k + 1),
    {
        let a = self.current.advance(count);
        let advanced = a.count();
        if advanced < count {
            let b = self.next.advance(count - advanced);
            let fresh = self.allocate_fresh().proper();
            let ghost m1 = *self;
            self.current = self.next;
            self.next = fresh;
            self.handed = Ghost(self.handed@.union(a.ids()).union(b.ids()));
            assert(self.range_alloc == m1.range_alloc);
            assert(forall|k: nat| #[trigger] self.fresh(k) == m1.fresh(k));
            (a, b)
        } else {
            let b = IdRange { start: self.next.start, end: self.next.start };
            assert(b.ids() =~= Set::empty());
            self.handed = Ghost(self.handed@.union(a.ids()).union(b.ids()));
            assert(self.range_alloc == old(self).range_alloc);
            assert(forall|k: nat| #[trigger] self.fresh(k) == old(self).fresh(k));
            (a, b)
        }
    }
}

} // verus!
