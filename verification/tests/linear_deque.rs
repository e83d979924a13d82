use std::cell::RefCell;
use std::collections::hash_map::DefaultHasher;
use std::fmt::Debug;
use std::hash::{Hash, Hasher};
use std::io::{Read, Write};
use std::rc::Rc;

use linear_deque::{LinearDeque, SetReservedSpace};

// ---- helpers -------------------------------------------------------------

fn assert_deque<T: PartialEq + Debug>(
    deque: &LinearDeque<T>,
    expected_reserved_front_space: usize,
    expected_elems: Vec<T>,
    expected_reserved_back_space: usize,
) {
    let expected_len = expected_elems.len();
    let expected_capacity =
        expected_reserved_front_space + expected_len + expected_reserved_back_space;

    assert_eq!(deque.cap(), expected_capacity, "cap");
    assert_eq!(deque.len(), expected_len, "len");
    for (i, expected_elem) in expected_elems.iter().enumerate() {
        assert_eq!(&deque[i], expected_elem, "index {i}");
    }
    assert_eq!(
        deque.reserved_front_space(),
        expected_reserved_front_space,
        "front space"
    );
    assert_eq!(
        deque.reserved_back_space(),
        expected_reserved_back_space,
        "back_space"
    );
}

fn prepare_deque<T: Clone + Eq + Debug>(
    reserved_front_space: usize,
    elems: Vec<T>,
    reserved_back_space: usize,
) -> LinearDeque<T> {
    let mut deque: LinearDeque<T> =
        LinearDeque::with_reserved_space(reserved_front_space, elems.len() + reserved_back_space);
    for elem in elems.iter() {
        deque.push_back(elem.clone());
    }

    assert_deque(&deque, reserved_front_space, elems, reserved_back_space);

    deque
}

fn assert_zst_deque<T>(deque: &LinearDeque<T>, expected_len: usize) {
    assert_eq!(std::mem::size_of::<T>(), 0);
    assert_eq!(deque.cap(), usize::MAX);
    assert_eq!(deque.len(), expected_len);
}

fn prepare_zst_deque(len: usize) -> LinearDeque<()> {
    let mut deque = LinearDeque::new();
    for _ in 0..len {
        deque.push_back(());
    }
    deque
}

fn chars(first: char, last: char) -> Vec<char> {
    (first..=last).collect()
}

fn collect_drain<T>(mut drained: linear_deque::Drain<T>) -> Vec<T> {
    let mut out = Vec::new();
    while let Some(x) = drained.next() {
        out.push(x);
    }
    out
}

/// Records the values of the wrapped elements as they are dropped, while
/// tracking is on.
struct DropTracker {
    dropped: Rc<RefCell<Option<Vec<char>>>>,
}

#[derive(Clone, Debug)]
struct Watched {
    value: char,
    dropped: Rc<RefCell<Option<Vec<char>>>>,
}

impl PartialEq for Watched {
    fn eq(&self, other: &Self) -> bool {
        self.value == other.value
    }
}

impl Eq for Watched {}

impl Drop for Watched {
    fn drop(&mut self) {
        if let Some(ref mut dropped) = *self.dropped.borrow_mut() {
            dropped.push(self.value);
        }
    }
}

impl DropTracker {
    fn new() -> Self {
        DropTracker { dropped: Rc::new(RefCell::new(None)) }
    }

    fn wrap_iter(&self, values: Vec<char>) -> Vec<Watched> {
        values
            .into_iter()
            .map(|value| Watched { value, dropped: self.dropped.clone() })
            .collect()
    }

    fn track<F: FnOnce()>(&self, f: F) -> Vec<char> {
        *self.dropped.borrow_mut() = Some(Vec::new());
        f();
        self.dropped.borrow_mut().take().unwrap()
    }
}

// ---- tests ---------------------------------------------------------------

#[test]
fn new_zst() {
    let deque: LinearDeque<()> = LinearDeque::new();

    assert_zst_deque(&deque, 0);
}

#[test]
fn with_reserved_space() {
    let deque: LinearDeque<char> = LinearDeque::with_reserved_space(3, 4);

    assert_deque(&deque, 3, vec![], 4);
}

#[test]
fn with_reserved_space_zst() {
    let deque: LinearDeque<()> = LinearDeque::with_reserved_space(3, 4);

    assert_zst_deque(&deque, 0);
}

#[test]
fn front_zst() {
    let deque: LinearDeque<()> = prepare_zst_deque(0);
    assert_eq!(deque.front(), None);

    let deque: LinearDeque<()> = prepare_zst_deque(2);
    assert_eq!(deque.front(), Some(&()));
}

#[test]
fn back_zst() {
    let deque: LinearDeque<()> = prepare_zst_deque(0);
    assert_eq!(deque.back(), None);

    let deque: LinearDeque<()> = prepare_zst_deque(2);
    assert_eq!(deque.back(), Some(&()));
}

#[test]
fn push_front() {
    let mut deque: LinearDeque<char> = prepare_deque(2, vec![], 1);

    deque.push_front('A');
    assert_deque(&deque, 1, vec!['A'], 1);

    deque.push_front('B');
    assert_deque(&deque, 0, vec!['B', 'A'], 1);

    deque.push_front('C');
    assert_deque(&deque, 0, vec!['C', 'B', 'A'], 0);

    deque.push_front('D');
    assert_deque(&deque, 2, vec!['D', 'C', 'B', 'A'], 0);

    deque.push_front('E');
    assert_deque(&deque, 1, vec!['E', 'D', 'C', 'B', 'A'], 0);
}

#[test]
fn push_front_zst() {
    let mut deque = prepare_zst_deque(0);

    deque.push_front(());
    deque.push_front(());

    assert_zst_deque(&deque, 2);
}

#[test]
fn push_back() {
    let mut deque: LinearDeque<char> = prepare_deque(1, vec![], 2);

    deque.push_back('A');
    assert_deque(&deque, 1, vec!['A'], 1);

    deque.push_back('B');
    assert_deque(&deque, 1, vec!['A', 'B'], 0);

    deque.push_back('C');
    assert_deque(&deque, 0, vec!['A', 'B', 'C'], 0);

    deque.push_back('D');
    assert_deque(&deque, 0, vec!['A', 'B', 'C', 'D'], 2);

    deque.push_back('E');
    assert_deque(&deque, 0, vec!['A', 'B', 'C', 'D', 'E'], 1);
}

#[test]
fn push_back_zst() {
    let mut deque = prepare_zst_deque(0);

    deque.push_back(());
    deque.push_back(());

    assert_zst_deque(&deque, 2);
}

#[test]
fn pop_front() {
    let mut deque = prepare_deque(1, vec!['B', 'A'], 2);

    let popped = deque.pop_front();
    assert_eq!(popped, Some('B'));
    assert_deque(&deque, 2, vec!['A'], 2);

    let popped = deque.pop_front();
    assert_eq!(popped, Some('A'));
    assert_deque(&deque, 3, vec![], 2);

    let popped = deque.pop_front();
    assert_eq!(popped, None);
    assert_deque(&deque, 3, vec![], 2);
}

#[test]
fn pop_front_zst() {
    let mut deque = prepare_zst_deque(2);

    let popped = deque.pop_front();
    assert_eq!(popped, Some(()));
    assert_zst_deque(&deque, 1);

    let popped = deque.pop_front();
    assert_eq!(popped, Some(()));
    assert_zst_deque(&deque, 0);

    let popped = deque.pop_front();
    assert_eq!(popped, None);
    assert_zst_deque(&deque, 0);
}

#[test]
fn pop_back() {
    let mut deque = prepare_deque(2, vec!['A', 'B'], 1);

    let popped = deque.pop_back();
    assert_eq!(popped, Some('B'));
    assert_deque(&deque, 2, vec!['A'], 2);

    let popped = deque.pop_back();
    assert_eq!(popped, Some('A'));
    assert_deque(&deque, 2, vec![], 3);

    let popped = deque.pop_back();
    assert_eq!(popped, None);
    assert_deque(&deque, 2, vec![], 3);
}

#[test]
fn pop_back_zst() {
    let mut deque = prepare_zst_deque(2);

    let popped = deque.pop_back();
    assert_eq!(popped, Some(()));
    assert_zst_deque(&deque, 1);

    let popped = deque.pop_back();
    assert_eq!(popped, Some(()));
    assert_zst_deque(&deque, 0);

    let popped = deque.pop_back();
    assert_eq!(popped, None);
    assert_zst_deque(&deque, 0);
}

#[test]
fn insert_near_front() {
    let mut deque = prepare_deque(1, vec!['A', 'B', 'C'], 1);

    deque.insert(1, 'x');
    assert_deque(&deque, 0, vec!['A', 'x', 'B', 'C'], 1);

    deque.insert(1, 'y');
    assert_deque(&deque, 0, vec!['A', 'y', 'x', 'B', 'C'], 0);

    deque.insert(1, 'z');
    assert_deque(&deque, 4, vec!['A', 'z', 'y', 'x', 'B', 'C'], 0);
}

#[test]
fn insert_near_back() {
    let mut deque = prepare_deque(1, vec!['A', 'B', 'C'], 1);

    deque.insert(2, 'x');
    assert_deque(&deque, 1, vec!['A', 'B', 'x', 'C'], 0);

    deque.insert(3, 'y');
    assert_deque(&deque, 0, vec!['A', 'B', 'x', 'y', 'C'], 0);

    deque.insert(4, 'z');
    assert_deque(&deque, 0, vec!['A', 'B', 'x', 'y', 'z', 'C'], 4);
}

#[test]
fn insert_zst() {
    let mut deque = LinearDeque::new();

    deque.insert(0, ());
    deque.insert(0, ());
    deque.insert(2, ());
    deque.insert(2, ());

    assert_zst_deque(&deque, 4);
}

#[test]
fn remove_near_front() {
    let mut deque = prepare_deque(0, vec!['A', 'B', 'C', 'D'], 0);

    let removed = deque.remove(1);

    assert_eq!(removed, Some('B'));
    assert_deque(&deque, 1, vec!['A', 'C', 'D'], 0);
}

#[test]
fn remove_near_back() {
    let mut deque = prepare_deque(0, vec!['A', 'B', 'C', 'D'], 0);

    let removed = deque.remove(2);

    assert_eq!(removed, Some('C'));
    assert_deque(&deque, 0, vec!['A', 'B', 'D'], 1);
}

#[test]
fn remove_zst() {
    let mut deque = prepare_zst_deque(3);

    let removed = deque.remove(1);
    assert_eq!(removed, Some(()));
    assert_zst_deque(&deque, 2);

    let removed = deque.remove(1);
    assert_eq!(removed, Some(()));
    assert_zst_deque(&deque, 1);

    let removed = deque.remove(0);
    assert_eq!(removed, Some(()));
    assert_zst_deque(&deque, 0);

    let removed = deque.remove(0);
    assert_eq!(removed, None);
    assert_zst_deque(&deque, 0);
}

#[test]
fn drain_all() {
    let mut deque = prepare_deque(2, chars('A', 'H'), 2);

    let len = deque.len();
    let drained = deque.drain(0..len);

    assert_eq!(collect_drain(drained), chars('A', 'H'));
    // There is no requirement for exact reserved space distribution in this case
    assert_eq!(deque.cap(), 12);
    assert!(deque.reserved_front_space() >= 2);
    assert!(deque.reserved_back_space() >= 2);
    assert!(deque.is_empty());
}

#[test]
fn drain_start() {
    let mut deque = prepare_deque(2, chars('A', 'H'), 2);

    let drained = deque.drain(0..3);

    assert_eq!(collect_drain(drained), chars('A', 'C'));
    assert_deque(&deque, 5, chars('D', 'H'), 2);
}

#[test]
fn drain_end() {
    let mut deque = prepare_deque(2, chars('A', 'H'), 2);

    let len = deque.len();
    let drained = deque.drain(5..len);

    assert_eq!(collect_drain(drained), chars('F', 'H'));
    assert_deque(&deque, 2, chars('A', 'E'), 5);
}

#[test]
fn drain_near_start() {
    let mut deque = prepare_deque(2, chars('A', 'H'), 2);

    let drained = deque.drain(1..5);

    assert_eq!(collect_drain(drained), chars('B', 'E'));
    assert_deque(&deque, 6, vec!['A', 'F', 'G', 'H'], 2);
}

#[test]
fn drain_near_end() {
    let mut deque = prepare_deque(2, chars('A', 'H'), 2);

    let drained = deque.drain(3..7);

    assert_eq!(collect_drain(drained), chars('D', 'G'));
    assert_deque(&deque, 2, vec!['A', 'B', 'C', 'H'], 6);
}

#[test]
fn drain_nothing() {
    let mut deque = prepare_deque(2, chars('A', 'H'), 2);

    let drained = deque.drain(3..3);

    assert_eq!(collect_drain(drained).len(), 0);
    assert_deque(&deque, 2, chars('A', 'H'), 2);
}

#[test]
fn drain_not_fully_consumed() {
    let mut deque = prepare_deque(2, chars('A', 'H'), 2);

    let mut drained = deque.drain(3..7);
    assert_eq!(drained.next(), Some('D'));
    drop(drained);

    assert_deque(&deque, 2, vec!['A', 'B', 'C', 'H'], 6);
}

#[test]
fn drain_zst() {
    let mut deque: LinearDeque<()> = prepare_zst_deque(8);

    let iter = deque.drain(3..5);
    assert_eq!(collect_drain(iter).len(), 2);
    assert_zst_deque(&deque, 6);

    let len = deque.len();
    let iter = deque.drain(4..len);
    assert_eq!(collect_drain(iter).len(), 2);
    assert_zst_deque(&deque, 4);

    let iter = deque.drain(0..2);
    assert_eq!(collect_drain(iter).len(), 2);
    assert_zst_deque(&deque, 2);

    let len = deque.len();
    let iter = deque.drain(0..len);
    assert_eq!(collect_drain(iter).len(), 2);
    assert_zst_deque(&deque, 0);
}

#[test]
fn extend_at_front() {
    let mut deque = prepare_deque(1, vec!['C', 'D'], 1);

    deque.extend_at_front(vec!['B', 'A']);

    assert_deque(&deque, 0, chars('A', 'D'), 0);
}

#[test]
fn extend_at_front_zst() {
    let mut deque = prepare_zst_deque(2);

    deque.extend_at_front(std::iter::repeat(()).take(4).collect());

    assert_zst_deque(&deque, 6);
}

#[test]
fn extend_at_back() {
    let mut deque = prepare_deque(1, vec!['A', 'B'], 1);

    deque.extend_at_back(vec!['C', 'D']);

    assert_deque(&deque, 0, chars('A', 'D'), 0);
}

#[test]
fn extend_at_back_zst() {
    let mut deque = prepare_zst_deque(2);

    deque.extend_at_back(std::iter::repeat(()).take(4).collect());

    assert_zst_deque(&deque, 6);
}

#[test]
fn reserved_front_space() {
    let deque = prepare_deque(3, chars('A', 'D'), 4);

    assert_eq!(deque.reserved_front_space(), 3);
}

#[test]
fn reserved_front_space_zst() {
    let deque: LinearDeque<()> = prepare_zst_deque(5);

    assert_eq!(deque.reserved_front_space(), usize::MAX);
}

#[test]
fn reserved_back_space() {
    let deque = prepare_deque(3, chars('A', 'D'), 4);

    assert_eq!(deque.reserved_back_space(), 4);
}

#[test]
fn reserved_back_space_zst() {
    let deque: LinearDeque<()> = prepare_zst_deque(5);

    assert_eq!(deque.reserved_back_space(), usize::MAX);
}

#[test]
fn deref_empty() {
    let deque: LinearDeque<char> = prepare_deque(6, vec![], 4);

    assert!(deque.is_empty());
    assert_eq!(deque.len(), 0);
}

#[test]
fn deref_non_empty() {
    let deque = prepare_deque(2, vec!['A', 'B', 'C'], 4);

    assert!(!deque.is_empty());
    assert_eq!(deque.len(), 3);
    assert_eq!(deque[0], 'A');
    assert_eq!(deque[1], 'B');
    assert_eq!(deque[2], 'C');
}

#[test]
fn deref_zst() {
    let deque: LinearDeque<()> = prepare_zst_deque(4);

    assert!(!deque.is_empty());
    assert_eq!(deque.len(), 4);
    assert_eq!(deque[0], ());
    assert_zst_deque(&deque, 4);
}

#[test]
fn into_iter() {
    let deque = prepare_deque(2, vec!['A', 'B', 'C'], 4);

    let mut iter = deque.into_iter();

    assert_eq!(iter.next(), Some('A'));
    assert_eq!(iter.next(), Some('B'));
    assert_eq!(iter.next(), Some('C'));
    assert_eq!(iter.next(), None);
}

#[test]
fn into_iter_double_ended() {
    let deque = prepare_deque(2, vec!['A', 'B', 'C'], 4);

    let mut iter = deque.into_iter();

    assert_eq!(iter.next_back(), Some('C'));
    assert_eq!(iter.next_back(), Some('B'));
    assert_eq!(iter.next_back(), Some('A'));
    assert_eq!(iter.next_back(), None);
}

#[test]
fn into_iter_mixed() {
    let deque = prepare_deque(2, vec!['A', 'B', 'C'], 4);

    let mut iter = deque.into_iter();

    assert_eq!(iter.next_back(), Some('C'));
    assert_eq!(iter.next(), Some('A'));
    assert_eq!(iter.next_back(), Some('B'));
    assert_eq!(iter.next(), None);
    assert_eq!(iter.next_back(), None);
}

#[test]
fn into_iter_zst() {
    let deque: LinearDeque<()> = prepare_zst_deque(4);

    let mut iter = deque.into_iter();

    let mut count = 0;
    while iter.next().is_some() {
        count += 1;
    }
    assert_eq!(count, 4);
}

#[test]
fn resize_at_front_larger() {
    let mut deque = prepare_deque(2, vec!['A', 'B', 'C', 'D'], 3);

    deque.resize_at_front(10, 'x');

    assert_deque(
        &deque,
        0,
        vec!['x', 'x', 'x', 'x', 'x', 'x', 'A', 'B', 'C', 'D'],
        3,
    );
}

#[test]
fn resize_at_front_smaller() {
    let mut deque = prepare_deque(2, vec!['A', 'B', 'C', 'D'], 3);

    deque.resize_at_front(3, 'x');

    assert_deque(&deque, 3, vec!['B', 'C', 'D'], 3);
}

#[test]
fn resize_at_front_zst() {
    let mut deque = prepare_zst_deque(5);

    deque.resize_at_front(2, ());
    assert_zst_deque(&deque, 2);

    deque.resize_at_front(4, ());
    assert_zst_deque(&deque, 4);
}

#[test]
fn resize_at_back_larger() {
    let mut deque = prepare_deque(3, vec!['A', 'B', 'C', 'D'], 2);

    deque.resize_at_back(10, 'x');

    assert_deque(
        &deque,
        3,
        vec!['A', 'B', 'C', 'D', 'x', 'x', 'x', 'x', 'x', 'x'],
        0,
    );
}

#[test]
fn resize_at_back_smaller() {
    let mut deque = prepare_deque(3, vec!['A', 'B', 'C', 'D'], 2);

    deque.resize_at_back(3, 'x');

    assert_deque(&deque, 3, vec!['A', 'B', 'C'], 3);
}

#[test]
fn resize_at_back_zst() {
    let mut deque = prepare_zst_deque(5);

    deque.resize_at_back(2, ());
    assert_zst_deque(&deque, 2);

    deque.resize_at_back(4, ());
    assert_zst_deque(&deque, 4);
}

#[test]
fn resize_at_front_with_larger() {
    let mut deque = prepare_deque(2, chars('A', 'D'), 3);
    let mut chars = 'a'..;

    deque.resize_at_front_with(7, || chars.next().unwrap());

    assert_deque(&deque, 0, vec!['c', 'b', 'a', 'A', 'B', 'C', 'D'], 3);
}

#[test]
fn resize_at_front_with_smaller() {
    let mut deque = prepare_deque(2, chars('A', 'D'), 3);
    let mut chars = 'a'..;

    deque.resize_at_front_with(3, || chars.next().unwrap());

    assert_deque(&deque, 3, vec!['B', 'C', 'D'], 3);
}

#[test]
fn resize_at_front_with_zst() {
    let mut deque = prepare_zst_deque(5);

    deque.resize_at_front_with(2, || ());
    assert_zst_deque(&deque, 2);

    deque.resize_at_front_with(4, || ());
    assert_zst_deque(&deque, 4);
}

#[test]
fn resize_at_back_with_larger() {
    let mut deque = prepare_deque(3, chars('A', 'D'), 2);
    let mut chars = 'a'..;

    deque.resize_at_back_with(7, || chars.next().unwrap());

    assert_deque(&deque, 3, vec!['A', 'B', 'C', 'D', 'a', 'b', 'c'], 0);
}

#[test]
fn resize_at_back_with_smaller() {
    let mut deque = prepare_deque(2, chars('A', 'D'), 3);
    let mut chars = 'a'..;

    deque.resize_at_back_with(3, || chars.next().unwrap());

    assert_deque(&deque, 2, vec!['A', 'B', 'C'], 4);
}

#[test]
fn resize_at_back_with_zst() {
    let mut deque = prepare_zst_deque(5);

    deque.resize_at_back_with(2, || ());
    assert_zst_deque(&deque, 2);

    deque.resize_at_back_with(4, || ());
    assert_zst_deque(&deque, 4);
}

#[test]
fn retain() {
    let drop_tracker = DropTracker::new();
    let mut deque = prepare_deque(2, drop_tracker.wrap_iter(vec!['A', 'b', 'c', 'D', 'e']), 1);

    let dropped = drop_tracker.track(|| {
        deque.retain(|c| c.value.is_lowercase());
    });

    assert_deque(&deque, 2, drop_tracker.wrap_iter(vec!['b', 'c', 'e']), 3);
    assert_eq!(dropped, ['A', 'D']);
}

#[test]
fn retain_mut() {
    let drop_tracker = DropTracker::new();
    let mut deque = prepare_deque(2, drop_tracker.wrap_iter(vec!['A', 'b', 'c', 'D', 'e']), 1);

    let dropped = drop_tracker.track(|| {
        deque.retain_mut(|c| {
            if c.value.is_lowercase() {
                c.value = c.value.to_uppercase().next().unwrap();
                true
            } else {
                false
            }
        });
    });

    assert_deque(&deque, 2, drop_tracker.wrap_iter(vec!['B', 'C', 'E']), 3);
    assert_eq!(dropped, ['A', 'D']);
}

#[test]
fn retain_mut_drop_none() {
    let drop_tracker = DropTracker::new();
    let mut deque = prepare_deque(2, drop_tracker.wrap_iter(chars('A', 'E')), 1);

    let dropped = drop_tracker.track(|| {
        deque.retain_mut(|_| true);
    });

    assert_deque(&deque, 2, drop_tracker.wrap_iter(chars('A', 'E')), 1);
    assert!(dropped.is_empty());
}

#[test]
fn retain_mut_drop_all() {
    let drop_tracker = DropTracker::new();
    let mut deque = prepare_deque(2, drop_tracker.wrap_iter(chars('A', 'E')), 1);

    let dropped = drop_tracker.track(|| {
        deque.retain_mut(|_| false);
    });

    assert_deque(&deque, 2, vec![], 6);
    assert_eq!(dropped, chars('A', 'E'));
}

#[test]
fn retain_mut_zst() {
    let mut deque: LinearDeque<()> = prepare_zst_deque(4);

    let mut p = false;
    deque.retain(|_| {
        p = !p;
        p
    });

    assert_zst_deque(&deque, 2);
}

#[test]
fn truncate_at_front() {
    let drop_tracker = DropTracker::new();
    let mut deque = prepare_deque(5, drop_tracker.wrap_iter(chars('A', 'F')), 1);

    let dropped = drop_tracker.track(|| {
        deque.truncate_at_front(2);
    });

    assert_deque(&deque, 9, drop_tracker.wrap_iter(chars('E', 'F')), 1);
    assert_eq!(dropped, chars('A', 'D'));
}

#[test]
fn truncate_at_front_zst() {
    let mut deque: LinearDeque<()> = prepare_zst_deque(4);

    deque.truncate_at_front(3);

    assert_zst_deque(&deque, 3);
}

#[test]
fn truncate_at_back() {
    let drop_tracker = DropTracker::new();
    let mut deque = prepare_deque(1, drop_tracker.wrap_iter(chars('A', 'F')), 5);

    let dropped = drop_tracker.track(|| {
        deque.truncate_at_back(2);
    });

    assert_deque(&deque, 1, drop_tracker.wrap_iter(chars('A', 'B')), 9);
    assert_eq!(dropped, chars('C', 'F'));
}

#[test]
fn truncate_at_back_zst() {
    let mut deque: LinearDeque<()> = prepare_zst_deque(4);

    deque.truncate_at_back(3);

    assert_zst_deque(&deque, 3);
}

#[test]
fn clear() {
    let mut deque = prepare_deque(2, chars('A', 'D'), 4);

    deque.clear();

    assert_deque(&deque, 5, vec![], 5);
}

#[test]
fn clear_zst() {
    let mut deque: LinearDeque<()> = prepare_zst_deque(4);

    deque.clear();

    assert_zst_deque(&deque, 0);
}

#[test]
fn set_reserved_space_keeping() {
    let mut deque = prepare_deque(2, chars('A', 'D'), 5);

    deque.set_reserved_space(SetReservedSpace::Keep, SetReservedSpace::Keep);

    assert_deque(&deque, 2, chars('A', 'D'), 5);
}

#[test]
fn set_reserved_space_growing() {
    let mut deque = prepare_deque(3, chars('A', 'D'), 1);

    deque.set_reserved_space(SetReservedSpace::GrowTo(6), SetReservedSpace::GrowTo(2));

    assert_deque(&deque, 6, chars('A', 'D'), 2);
}

#[test]
fn set_reserved_space_not_growing() {
    let mut deque = prepare_deque(3, chars('A', 'D'), 1);

    deque.set_reserved_space(SetReservedSpace::GrowTo(2), SetReservedSpace::GrowTo(1));

    assert_deque(&deque, 3, chars('A', 'D'), 1);
}

#[test]
fn set_reserved_space_shrinking() {
    let mut deque = prepare_deque(5, chars('A', 'D'), 2);

    deque.set_reserved_space(SetReservedSpace::ShrinkTo(2), SetReservedSpace::ShrinkTo(1));

    assert_deque(&deque, 2, chars('A', 'D'), 1);
}

#[test]
fn set_reserved_space_not_shrinking() {
    let mut deque = prepare_deque(5, chars('A', 'D'), 2);

    deque.set_reserved_space(SetReservedSpace::ShrinkTo(6), SetReservedSpace::ShrinkTo(3));

    assert_deque(&deque, 5, chars('A', 'D'), 2);
}

#[test]
fn set_reserved_space_exactly_growing() {
    let mut deque = prepare_deque(2, chars('A', 'D'), 1);

    deque.set_reserved_space(SetReservedSpace::Exact(5), SetReservedSpace::Exact(2));

    assert_deque(&deque, 5, chars('A', 'D'), 2);
}

#[test]
fn set_reserved_space_exactly_shrinking() {
    let mut deque = prepare_deque(5, chars('A', 'D'), 2);

    deque.set_reserved_space(SetReservedSpace::Exact(2), SetReservedSpace::Exact(1));

    assert_deque(&deque, 2, chars('A', 'D'), 1);
}

#[test]
fn ensure_reserved_front_space_doing_nothing_1() {
    let mut deque = prepare_deque(3, chars('A', 'C'), 1);

    deque.ensure_reserved_front_space(1);

    assert_deque(&deque, 3, chars('A', 'C'), 1);
}

#[test]
fn ensure_reserved_front_space_doing_nothing_2() {
    let mut deque = prepare_deque(3, chars('A', 'C'), 1);

    deque.ensure_reserved_front_space(3);

    assert_deque(&deque, 3, chars('A', 'C'), 1);
}

#[test]
fn ensure_reserved_front_space_moving_1() {
    let mut deque = prepare_deque(1, chars('A', 'C'), 3);

    deque.ensure_reserved_front_space(2);

    assert_deque(&deque, 3, chars('A', 'C'), 1);
}

#[test]
fn ensure_reserved_front_space_moving_2() {
    let mut deque = prepare_deque(1, chars('A', 'C'), 3);

    deque.ensure_reserved_front_space(4);

    assert_deque(&deque, 4, chars('A', 'C'), 0);
}

#[test]
fn ensure_reserved_front_space_reallocating_1() {
    let mut deque = prepare_deque(2, chars('A', 'C'), 2);

    deque.ensure_reserved_front_space(5);

    assert_deque(&deque, 7, chars('A', 'C'), 0);
}

#[test]
fn ensure_reserved_front_space_reallocating_2() {
    let mut deque = prepare_deque(2, chars('A', 'C'), 2);

    deque.ensure_reserved_front_space(8);

    assert_deque(&deque, 8, chars('A', 'C'), 0);
}

#[test]
fn ensure_reserved_back_space_doing_nothing_1() {
    let mut deque = prepare_deque(1, chars('A', 'C'), 3);

    deque.ensure_reserved_back_space(1);

    assert_deque(&deque, 1, chars('A', 'C'), 3);
}

#[test]
fn ensure_reserved_back_space_doing_nothing_2() {
    let mut deque = prepare_deque(1, chars('A', 'C'), 3);

    deque.ensure_reserved_back_space(3);

    assert_deque(&deque, 1, chars('A', 'C'), 3);
}

#[test]
fn ensure_reserved_back_space_moving_1() {
    let mut deque = prepare_deque(3, chars('A', 'C'), 1);

    deque.ensure_reserved_back_space(2);

    assert_deque(&deque, 1, chars('A', 'C'), 3);
}

#[test]
fn ensure_reserved_back_space_moving_2() {
    let mut deque = prepare_deque(3, chars('A', 'C'), 1);

    deque.ensure_reserved_back_space(4);

    assert_deque(&deque, 0, chars('A', 'C'), 4);
}

#[test]
fn ensure_reserved_back_space_reallocating_1() {
    let mut deque = prepare_deque(2, chars('A', 'C'), 2);

    deque.ensure_reserved_back_space(5);

    assert_deque(&deque, 0, chars('A', 'C'), 7);
}

#[test]
fn ensure_reserved_back_space_reallocating_2() {
    let mut deque = prepare_deque(2, chars('A', 'C'), 2);

    deque.ensure_reserved_back_space(8);

    assert_deque(&deque, 0, chars('A', 'C'), 8);
}

#[test]
fn set_reserved_space_zst() {
    let mut deque: LinearDeque<()> = prepare_zst_deque(5);

    deque.set_reserved_space(SetReservedSpace::Exact(3), SetReservedSpace::Exact(4));

    assert_zst_deque(&deque, 5);
}

#[test]
fn eq() {
    let mut array = ['A', 'B'];
    let mut array_x = ['B', 'A'];

    let deque = prepare_deque(1, array.to_vec(), 5);

    {
        let slice: &[_] = &array;
        let slice_x: &[_] = &array_x;

        assert!(deque == slice);
        assert!(deque != slice_x);
    }

    assert!(deque == &array);
    assert!(deque != &array_x);

    {
        let slice_mut: &mut [_] = &mut array;
        let slice_mut_x: &mut [_] = &mut array_x;

        assert!(deque == slice_mut);
        assert!(deque != slice_mut_x);
    }

    assert!(deque == &mut array);
    assert!(deque != &mut array_x);

    assert!(deque == array);
    assert!(deque != array_x);

    assert!(deque == Vec::from(array));
    assert!(deque != Vec::from(array_x));

    assert!(deque == prepare_deque(5, array.to_vec(), 0));
    assert!(deque != prepare_deque(1, array_x.to_vec(), 5));
}

#[test]
fn hash() {
    let deque1 = prepare_deque(3, vec!['A', 'B', 'C'], 5);
    let deque2 = {
        let mut d = LinearDeque::new();
        d.push_back('B');
        d.push_front('A');
        d.push_back('C');
        d
    };
    let mut hasher1 = DefaultHasher::new();
    let mut hasher2 = DefaultHasher::new();

    deque1.hash(&mut hasher1);
    deque2.hash(&mut hasher2);

    assert_eq!(hasher1.finish(), hasher2.finish());
}

#[test]
fn from_iter() {
    let deque = LinearDeque::from(Vec::from_iter('A'..='D'));

    assert_deque(&deque, 0, vec!['A', 'B', 'C', 'D'], 0);
}

#[test]
fn from_iter_zst() {
    let deque = LinearDeque::from(std::iter::repeat(()).take(4).collect::<Vec<_>>());

    assert_zst_deque(&deque, 4);
}

#[test]
fn read() {
    let mut deque = prepare_deque(1, (b'A'..=b'E').collect(), 2);
    let mut buf = [b'0'; 3];

    let result = deque.read(&mut buf);

    assert_eq!(result.unwrap(), 3);
    assert_eq!(buf, [b'A', b'B', b'C']);
    assert_deque(&deque, 4, vec![b'D', b'E'], 2);
}

#[test]
fn write() {
    let mut deque = prepare_deque(2, (b'A'..=b'C').collect(), 1);
    let buf: Vec<_> = (b'D'..=b'H').collect();

    let result = deque.write(&buf);

    assert_eq!(result.unwrap(), 5);
    assert_deque(&deque, 0, (b'A'..=b'H').collect(), 1);
}

#[test]
fn clone() {
    let mut deque = prepare_deque(2, chars('A', 'C'), 1);

    let mut clone = deque.clone();

    *deque.get_mut(1).unwrap() = 'x';
    *clone.get_mut(1).unwrap() = 'y';
    assert_deque(&deque, 2, vec!['A', 'x', 'C'], 1);
    assert_deque(&clone, 0, vec!['A', 'y', 'C'], 0);
}
