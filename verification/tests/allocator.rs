use edict::entity::{IdAllocator, IdRange, IdRangeAllocator, OneRangeAllocator};

#[test]
fn range_proper_count_empty() {
    let r = IdRange { start: 10, end: 5 };
    let p = r.proper();
    assert_eq!(p, IdRange { start: 10, end: 10 });
    assert!(p.is_empty());
    assert_eq!(p.count(), 0);

    let r = IdRange { start: 3, end: 8 };
    assert_eq!(r.proper(), r);
    assert_eq!(r.count(), 5);
    assert!(!r.is_empty());
}

#[test]
fn range_get_take_advance() {
    let mut r = IdRange { start: 3, end: 8 };
    assert_eq!(r.get(0), Some(3));
    assert_eq!(r.get(4), Some(7));
    assert_eq!(r.get(5), None);

    assert_eq!(r.take(), Some(3));
    assert_eq!(r, IdRange { start: 4, end: 8 });

    let taken = r.advance(2);
    assert_eq!(taken, IdRange { start: 4, end: 6 });
    assert_eq!(r, IdRange { start: 6, end: 8 });

    let taken = r.advance(100);
    assert_eq!(taken, IdRange { start: 6, end: 8 });
    assert!(r.is_empty());
    assert_eq!(r.take(), None);
}

#[test]
fn default_allocator_counts_from_one() {
    let mut a = IdAllocator::new();
    assert_eq!(a.next(), Some(1));
    assert_eq!(a.next(), Some(2));
    assert_eq!(a.reserve(0), Some(3));
    assert_eq!(a.reserve(5), Some(8));
    assert_eq!(a.reserved(8), Some(5));
    assert_eq!(a.reserved(2), None);
    assert_eq!(a.reserved(u64::MAX), None);
}

#[test]
fn one_range_allocator_gives_its_range_once() {
    let mut one = OneRangeAllocator::new(IdRange { start: 100, end: 103 });
    assert_eq!(one.allocate_range(), IdRange { start: 100, end: 103 });
    let again = one.allocate_range();
    assert_eq!(again.start, again.end);
}

#[test]
fn allocator_with_one_range_is_exhausted_after_it() {
    let mut a = IdAllocator::with_range_allocator(Box::new(OneRangeAllocator::new(IdRange {
        start: 100,
        end: 103,
    })));
    assert_eq!(a.next(), Some(100));
    assert_eq!(a.next(), Some(101));
    assert_eq!(a.next(), Some(102));
    assert_eq!(a.next(), None);
    assert_eq!(a.next(), None);
}

struct Ranges {
    next: u64,
}

impl IdRangeAllocator for Ranges {
    fn allocate_range(&mut self) -> IdRange {
        let start = self.next;
        self.next += 10;
        IdRange { start, end: start + 3 }
    }
}

#[test]
fn reservations_span_current_and_next_range() {
    let mut a = IdAllocator::with_range_allocator(Box::new(Ranges { next: 10 }));
    // current: 10..13, next: 20..23
    assert_eq!(a.next(), Some(10));
    assert_eq!(a.reserve(0), Some(11));
    assert_eq!(a.reserve(1), Some(12));
    assert_eq!(a.reserve(2), Some(20));
    assert_eq!(a.reserve(4), Some(22));
    assert_eq!(a.reserve(5), None);
    assert_eq!(a.reserved(20), Some(2));
    assert_eq!(a.reserved(22), Some(4));

    let (first, second) = a.flush_reserved(3);
    assert_eq!(first, IdRange { start: 11, end: 13 });
    assert_eq!(second, IdRange { start: 20, end: 21 });
    // current is now the rest of the second range, a new range follows
    assert_eq!(a.next(), Some(21));
    assert_eq!(a.next(), Some(22));
    assert_eq!(a.next(), Some(30));
}

#[test]
fn flush_within_current_range() {
    let mut a = IdAllocator::new();
    let (first, second) = a.flush_reserved(2);
    assert_eq!(first, IdRange { start: 1, end: 3 });
    assert_eq!(second.start, second.end);
    assert_eq!(a.next(), Some(3));
}

#[test]
fn handed_ids_never_repeat() {
    let mut a = IdAllocator::with_range_allocator(Box::new(Ranges { next: 10 }));
    let mut seen = std::collections::HashSet::new();
    for _ in 0..7 {
        let id = a.next().unwrap();
        assert!(seen.insert(id));
    }
    let (x, y) = a.flush_reserved(4);
    for id in (x.start..x.end).chain(y.start..y.end) {
        assert!(seen.insert(id));
    }
    for _ in 0..5 {
        let id = a.next().unwrap();
        assert!(seen.insert(id));
    }
}

#[test]
fn reserve_and_reserved_are_inverse() {
    let a = IdAllocator::with_range_allocator(Box::new(Ranges { next: 40 }));
    for idx in 0..6u64 {
        let id = a.reserve(idx).unwrap();
        assert_eq!(a.reserved(id), Some(idx));
    }
    assert_eq!(a.reserve(6), None);
    assert_eq!(a.reserved(39), None);
}

#[test]
fn allocator_from_one_range_in_an_option() {
    let mut a = IdAllocator::from_range_allocator(Some(Box::new(OneRangeAllocator::new(IdRange {
        start: 10,
        end: 12,
    }))));
    assert_eq!(a.next(), Some(10));
    assert_eq!(a.next(), Some(11));
    assert_eq!(a.next(), None);
    assert_eq!(a.next(), None);
    let mut none = IdAllocator::from_range_allocator(None);
    assert_eq!(none.next(), None);
}
