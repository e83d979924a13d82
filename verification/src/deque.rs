//! The deque itself: its elements, in order, and the reserved spaces of
//! the linear layout around them.
use vstd::prelude::*;
use vstd::std_specs::convert::FromSpec;
use crate::iter::{to_vec_deque, Drain, IntoIter};
use crate::layout::{
    is_zst, max_nat, new_space, reserve_back, reserve_fits, reserve_front, spec_is_zst,
    spec_new_space, SetReservedSpace,
};

verus! {

/// A double-ended queue whose elements are always contiguous, so that it
/// can be seen as a slice at any time.
///
/// The elements are held in a `Vec`, front first. Beside them the deque
/// keeps the layout of a linear buffer as two counters: the reserved front
/// space and the reserved back space, the free slots before and after the
/// elements. They are bookkeeping only, not allocated memory: they decide
/// when an end "grows" and how the free room is split, as the contracts
/// state, while the `Vec` allocates as it needs. Operations at the back cost
/// amortised O(1); `push_front`, `pop_front` and an `insert` or `remove`
/// nearer the front move every element of the `Vec`, in O(len).
#[derive(Debug)]
pub struct LinearDeque<T> {
    pub(crate) values: Vec<T>,
    pub(crate) reserved_spaces: (usize, usize),
}

impl<T> View for LinearDeque<T> {
    type V = Seq<T>;

    /// The elements, front first.
    closed spec fn view(&self) -> Seq<T> {
        self.values@
    }
}

impl<T> LinearDeque<T> {
    /// The layout is consistent: the front space, the elements and the back
    /// space fit in `usize`; values that occupy no memory need no buffer, so
    /// both ends are then unlimited.
    #[verifier::type_invariant]
    spec fn wf(&self) -> bool {
        &&& !spec_is_zst::<T>() ==> self.reserved_spaces.0 + self.values@.len()
            + self.reserved_spaces.1 <= usize::MAX
        &&& spec_is_zst::<T>() ==> self.reserved_spaces == (usize::MAX, usize::MAX)
    }

    /// The number of slots of the linear buffer: the front space, the
    /// elements and the back space; unlimited for values that occupy no
    /// memory.
    pub closed spec fn spec_cap(&self) -> usize {
        if spec_is_zst::<T>() {
            usize::MAX
        } else {
            (self.reserved_spaces.0 + self.values@.len() + self.reserved_spaces.1) as usize
        }
    }

    /// The free slots before the elements; unlimited for values that occupy
    /// no memory.
    pub closed spec fn spec_reserved_front_space(&self) -> usize {
        self.reserved_spaces.0
    }

    /// The free slots after the elements; unlimited for values that occupy
    /// no memory.
    pub closed spec fn spec_reserved_back_space(&self) -> usize {
        self.reserved_spaces.1
    }

    /// The free room at the front as a natural number.
    pub open spec fn front_room(&self) -> nat {
        self.spec_reserved_front_space() as nat
    }

    /// The free room at the back as a natural number.
    pub open spec fn back_room(&self) -> nat {
        self.spec_reserved_back_space() as nat
    }

    /// Room for `count` more elements can be made at either end without the
    /// capacity leaving `usize`.
    pub open spec fn can_reserve(&self, count: nat) -> bool {
        if spec_is_zst::<T>() {
            self@.len() + count <= usize::MAX
        } else {
            reserve_fits(self.front_room(), self@.len(), self.back_room(), count)
        }
    }

    /// Same elements, same capacity and same reserved spaces as `other`.
    pub open spec fn same_as(&self, other: &Self) -> bool {
        &&& self@ == other@
        &&& self.spec_cap() == other.spec_cap()
        &&& self.spec_reserved_front_space() == other.spec_reserved_front_space()
        &&& self.spec_reserved_back_space() == other.spec_reserved_back_space()
    }

    /// The free room `(front, back)` once room for `count` elements is made at the front.
    pub open spec fn after_reserve_front(&self, count: nat) -> (nat, nat) {
        reserve_front(self.front_room(), self@.len(), self.back_room(), count)
    }

    /// The free room `(front, back)` once room for `count` elements is made at the back.
    pub open spec fn after_reserve_back(&self, count: nat) -> (nat, nat) {
        reserve_back(self.front_room(), self@.len(), self.back_room(), count)
    }

    /// Creates an empty deque.
    pub fn new() -> (d: Self)
        ensures
            d@ == Seq::<T>::empty(),
            !spec_is_zst::<T>() ==> d.spec_reserved_front_space() == 0
                && d.spec_reserved_back_space() == 0 && d.spec_cap() == 0,
            spec_is_zst::<T>() ==> d.spec_cap() == usize::MAX,
    {
        Self::with_reserved_space(0, 0)
    }

    /// Creates an empty deque with reserved spaces at the front and the back.
    pub fn with_reserved_space(front: usize, back: usize) -> (d: Self)
        requires
            front + back <= usize::MAX,
        ensures
            d@ == Seq::<T>::empty(),
            !spec_is_zst::<T>() ==> d.spec_reserved_front_space() == front
                && d.spec_reserved_back_space() == back && d.spec_cap() == front + back,
            spec_is_zst::<T>() ==> d.spec_cap() == usize::MAX,
    {
        if is_zst::<T>() {
            LinearDeque { values: Vec::new(), reserved_spaces: (usize::MAX, usize::MAX) }
        } else {
            LinearDeque { values: Vec::new(), reserved_spaces: (front, back) }
        }
    }

    /// The number of slots of the linear layout: both reserved spaces and
    /// the elements.
    #[verifier::when_used_as_spec(spec_cap)]
    pub fn cap(&self) -> (r: usize)
        ensures
            r == self.spec_cap(),
            !spec_is_zst::<T>() ==> r == self.front_room() + self@.len() + self.back_room(),
            spec_is_zst::<T>() ==> r == usize::MAX && self.spec_reserved_front_space() == usize::MAX
                && self.spec_reserved_back_space() == usize::MAX,
    {
        proof {
            use_type_invariant(&*self);
        }
        if is_zst::<T>() {
            usize::MAX
        } else {
            self.reserved_spaces.0 + self.values.len() + self.reserved_spaces.1
        }
    }

    /// Returns the number of elements can be put at the front of the deque
    /// without reallocating or moving existing elements.
    #[verifier::when_used_as_spec(spec_reserved_front_space)]
    pub fn reserved_front_space(&self) -> (r: usize)
        ensures
            r == self.spec_reserved_front_space(),
            spec_is_zst::<T>() ==> r == usize::MAX,
    {
        proof {
            use_type_invariant(&*self);
        }
        self.reserved_spaces.0
    }

    /// Returns the number of elements can be put at the back of the deque
    /// without reallocating or moving existing elements.
    #[verifier::when_used_as_spec(spec_reserved_back_space)]
    pub fn reserved_back_space(&self) -> (r: usize)
        ensures
            r == self.spec_reserved_back_space(),
            spec_is_zst::<T>() ==> r == usize::MAX,
            !spec_is_zst::<T>() ==> r == self.spec_cap() - self.spec_reserved_front_space() - self@.len(),
    {
        proof {
            use_type_invariant(&*self);
        }
        self.reserved_spaces.1
    }

    /// Makes room for `count` elements at the front, as `reserve_front` says
    /// of the linear layout: nothing changes when the front already has the
    /// room; the free room is split anew between the ends when both together
    /// have it; otherwise the capacity grows by at least the length (at least
    /// one slot) and all the free room goes to the front. The elements stay
    /// as they are.
    pub fn ensure_reserved_front_space(&mut self, count: usize)
        requires
            old(self).can_reserve(count as nat),
        ensures
            final(self)@ == old(self)@,
            spec_is_zst::<T>() ==> final(self).same_as(old(self)),
            !spec_is_zst::<T>() ==> (final(self).front_room(), final(self).back_room())
                == old(self).after_reserve_front(count as nat),
            final(self).front_room() >= count,
    {
        proof {
            use_type_invariant(&*self);
        }
        if is_zst::<T>() {
            return ;
        }
        let (front, back) = self.reserved_spaces;
        if front < count {
            let len = self.values.len();
            let total = front + back;
            if total >= count {
                let new_front = count + (total - count) / 2;
                self.reserved_spaces = (new_front, total - new_front);
            } else {
                let growth = if len > 1 { len } else { 1 };
                let new_cap = if count - total > growth {
                    len + count
                } else {
                    front + len + back + growth
                };
                self.reserved_spaces = (new_cap - len, 0);
            }
        }
    }

    /// Makes room for `count` elements at the back, as `reserve_back` says
    /// of the linear layout: nothing changes when the back already has the
    /// room; the free room is split anew between the ends when both together
    /// have it; otherwise the capacity grows by at least the length (at least
    /// one slot) and all the free room goes to the back. The elements stay
    /// as they are.
    pub fn ensure_reserved_back_space(&mut self, count: usize)
        requires
            old(self).can_reserve(count as nat),
        ensures
            final(self)@ == old(self)@,
            spec_is_zst::<T>() ==> final(self).same_as(old(self)),
            !spec_is_zst::<T>() ==> (final(self).front_room(), final(self).back_room())
                == old(self).after_reserve_back(count as nat),
            final(self).back_room() >= count,
    {
        proof {
            use_type_invariant(&*self);
        }
        if is_zst::<T>() {
            return ;
        }
        let (front, back) = self.reserved_spaces;
        if back < count {
            let len = self.values.len();
            let total = front + back;
            if total >= count {
                let new_front = (total - count) / 2;
                self.reserved_spaces = (new_front, total - new_front);
            } else {
                let growth = if len > 1 { len } else { 1 };
                let new_cap = if count - total > growth {
                    len + count
                } else {
                    front + len + back + growth
                };
                self.reserved_spaces = (0, new_cap - len);
            }
        }
    }

    /// Moves the elements out, leaving the deque empty with its reserved
    /// spaces unchanged.
    fn take_values(&mut self) -> (b: Vec<T>)
        ensures
            b@ == old(self)@,
            final(self)@ == Seq::<T>::empty(),
            final(self).reserved_spaces == old(self).reserved_spaces,
            !spec_is_zst::<T>() ==> old(self).reserved_spaces.0 + b@.len() + old(self).reserved_spaces.1
                <= usize::MAX,
            spec_is_zst::<T>() ==> old(self).reserved_spaces == (usize::MAX, usize::MAX),
    {
        proof {
            use_type_invariant(&*self);
        }
        let mut b: Vec<T> = Vec::new();
        core::mem::swap(&mut b, &mut self.values);
        b
    }

    /// Prepends an element to the deque.
    pub fn push_front(&mut self, elem: T)
        requires
            old(self).can_reserve(1),
        ensures
            final(self)@ == seq![elem] + old(self)@,
            !spec_is_zst::<T>() ==> final(self).front_room() + 1 == old(self).after_reserve_front(1).0
                && final(self).back_room() == old(self).after_reserve_front(1).1,
    {
        proof {
            use_type_invariant(&*self);
        }
        if !is_zst::<T>() {
            self.ensure_reserved_front_space(1);
        }
        let mut b = self.take_values();
        if !is_zst::<T>() {
            self.reserved_spaces = (self.reserved_spaces.0 - 1, self.reserved_spaces.1);
        }
        b.insert(0, elem);
        self.values = b;
    }

    /// Appends an element to the back of the deque.
    pub fn push_back(&mut self, elem: T)
        requires
            old(self).can_reserve(1),
        ensures
            final(self)@ == old(self)@.push(elem),
            !spec_is_zst::<T>() ==> final(self).front_room() == old(self).after_reserve_back(1).0
                && final(self).back_room() + 1 == old(self).after_reserve_back(1).1,
    {
        proof {
            use_type_invariant(&*self);
        }
        self.ensure_reserved_back_space(1);
        let mut b = self.take_values();
        if !is_zst::<T>() {
            self.reserved_spaces = (self.reserved_spaces.0, self.reserved_spaces.1 - 1);
        }
        b.push(elem);
        self.values = b;
    }

    /// Removes the first element and returns it, or `None` if the deque is
    /// empty.
    pub fn pop_front(&mut self) -> (r: Option<T>)
        ensures
            old(self)@.len() == 0 ==> r is None && final(self).same_as(old(self)),
            old(self)@.len() > 0 ==> r == Some(old(self)@[0]) && final(self)@ == old(self)@.drop_first()
                && final(self).spec_cap() == old(self).spec_cap()
                && (!spec_is_zst::<T>() ==> final(self).front_room() == old(self).front_room() + 1
                    && final(self).back_room() == old(self).back_room()),
    {
        proof {
            use_type_invariant(&*self);
        }
        if self.values.len() == 0 {
            None
        } else {
            let mut b = self.take_values();
            let x = b.remove(0);
            if !is_zst::<T>() {
                self.reserved_spaces = (self.reserved_spaces.0 + 1, self.reserved_spaces.1);
            }
            self.values = b;
            Some(x)
        }
    }

    /// Removes the last element from the deque and returns it, or `None` if
    /// it is empty.
    pub fn pop_back(&mut self) -> (r: Option<T>)
        ensures
            old(self)@.len() == 0 ==> r is None && final(self).same_as(old(self)),
            old(self)@.len() > 0 ==> r == Some(old(self)@.last()) && final(self)@ == old(self)@.drop_last()
                && final(self).spec_cap() == old(self).spec_cap()
                && (!spec_is_zst::<T>() ==> final(self).front_room() == old(self).front_room()
                    && final(self).back_room() == old(self).back_room() + 1),
    {
        proof {
            use_type_invariant(&*self);
        }
        if self.values.len() == 0 {
            None
        } else {
            let mut b = self.take_values();
            let x = b.pop();
            if !is_zst::<T>() {
                self.reserved_spaces = (self.reserved_spaces.0, self.reserved_spaces.1 + 1);
            }
            self.values = b;
            x
        }
    }

    /// Inserts an element at `index` within the deque, shifting all elements
    /// before or after the index.
    ///
    /// If `index` is nearer to the front, the elements with indices lower than
    /// `index` are moved to the left; otherwise, the elements with indices
    /// greater than `index` are moved right.
    pub fn insert(&mut self, index: usize, elem: T)
        requires
            index <= old(self)@.len(),
            old(self).can_reserve(1),
        ensures
            final(self)@ == old(self)@.insert(index as int, elem),
            !spec_is_zst::<T>() && 2 * index < old(self)@.len() ==>
                final(self).front_room() + 1 == old(self).after_reserve_front(1).0
                && final(self).back_room() == old(self).after_reserve_front(1).1,
            !spec_is_zst::<T>() && 2 * index >= old(self)@.len() ==>
                final(self).front_room() == old(self).after_reserve_back(1).0
                && final(self).back_room() + 1 == old(self).after_reserve_back(1).1,
    {
        proof {
            use_type_invariant(&*self);
        }
        let at_front = index < self.values.len() - index;
        if !is_zst::<T>() {
            if at_front {
                self.ensure_reserved_front_space(1);
            } else {
                self.ensure_reserved_back_space(1);
            }
        }
        let mut b = self.take_values();
        if !is_zst::<T>() {
            if at_front {
                self.reserved_spaces = (self.reserved_spaces.0 - 1, self.reserved_spaces.1);
            } else {
                self.reserved_spaces = (self.reserved_spaces.0, self.reserved_spaces.1 - 1);
            }
        }
        b.insert(index, elem);
        self.values = b;
    }

    /// Removes and returns the element at `index` from the deque, or `None`
    /// if `index` is out of bounds. Whichever end is closer to the removal
    /// point moves to close the gap.
    pub fn remove(&mut self, index: usize) -> (r: Option<T>)
        ensures
            index >= old(self)@.len() ==> r is None && final(self).same_as(old(self)),
            index < old(self)@.len() ==> r == Some(old(self)@[index as int])
                && final(self)@ == old(self)@.remove(index as int)
                && final(self).spec_cap() == old(self).spec_cap(),
            !spec_is_zst::<T>() && index < old(self)@.len() / 2 ==>
                final(self).front_room() == old(self).front_room() + 1
                && final(self).back_room() == old(self).back_room(),
            !spec_is_zst::<T>() && old(self)@.len() / 2 <= index < old(self)@.len() ==>
                final(self).front_room() == old(self).front_room()
                && final(self).back_room() == old(self).back_room() + 1,
    {
        proof {
            use_type_invariant(&*self);
        }
        let len = self.values.len();
        if index < len {
            let mut b = self.take_values();
            let x = b.remove(index);
            if !is_zst::<T>() {
                if index < len / 2 {
                    self.reserved_spaces = (self.reserved_spaces.0 + 1, self.reserved_spaces.1);
                } else {
                    self.reserved_spaces = (self.reserved_spaces.0, self.reserved_spaces.1 + 1);
                }
            }
            self.values = b;
            Some(x)
        } else {
            None
        }
    }

    /// The elements as one slice, front first.
    pub fn as_slice(&self) -> (r: &[T])
        ensures
            r@ == self@,
    {
        self.values.as_slice()
    }

    /// Provides a mutable reference to the element at `index`, or `None` if
    /// `index` is out of bounds. Changing the element changes nothing else.
    pub fn get_mut(&mut self, index: usize) -> (r: Option<&mut T>)
        ensures
            final(self).spec_cap() == old(self).spec_cap(),
            final(self).spec_reserved_front_space() == old(self).spec_reserved_front_space(),
            final(self).spec_reserved_back_space() == old(self).spec_reserved_back_space(),
            index >= old(self)@.len() ==> r is None && final(self)@ == old(self)@,
            index < old(self)@.len() ==> r is Some && *r.unwrap() == old(self)@[index as int]
                && final(self)@ == old(self)@.update(index as int, *final(r.unwrap())),
    {
        proof {
            use_type_invariant(&*self);
        }
        if index < self.values.len() {
            Some(&mut self.values[index])
        } else {
            None
        }
    }

    /// Provides a reference to the front element, or `None` if the deque is
    /// empty.
    pub fn front(&self) -> (r: Option<&T>)
        ensures
            self@.len() == 0 ==> r is None,
            self@.len() > 0 ==> r == Some(&self@[0]),
    {
        self.values.as_slice().first()
    }

    /// Provides a reference to the back element, or `None` if the deque is
    /// empty.
    pub fn back(&self) -> (r: Option<&T>)
        ensures
            self@.len() == 0 ==> r is None,
            self@.len() > 0 ==> r == Some(&self@.last()),
    {
        self.values.as_slice().last()
    }

    /// Provides a mutable reference to the front element, or `None` if the
    /// deque is empty.
    pub fn front_mut(&mut self) -> (r: Option<&mut T>)
        ensures
            final(self).spec_cap() == old(self).spec_cap(),
            final(self).spec_reserved_front_space() == old(self).spec_reserved_front_space(),
            final(self).spec_reserved_back_space() == old(self).spec_reserved_back_space(),
            old(self)@.len() == 0 ==> r is None && final(self)@ == old(self)@,
            old(self)@.len() > 0 ==> r is Some && *r.unwrap() == old(self)@[0]
                && final(self)@ == old(self)@.update(0, *final(r.unwrap())),
    {
        proof {
            use_type_invariant(&*self);
        }
        if self.values.len() == 0 {
            None
        } else {
            Some(&mut self.values[0])
        }
    }

    /// Provides a mutable reference to the back element, or `None` if the
    /// deque is empty.
    pub fn back_mut(&mut self) -> (r: Option<&mut T>)
        ensures
            final(self).spec_cap() == old(self).spec_cap(),
            final(self).spec_reserved_front_space() == old(self).spec_reserved_front_space(),
            final(self).spec_reserved_back_space() == old(self).spec_reserved_back_space(),
            old(self)@.len() == 0 ==> r is None && final(self)@ == old(self)@,
            old(self)@.len() > 0 ==> r is Some && *r.unwrap() == old(self)@.last()
                && final(self)@ == old(self)@.update(old(self)@.len() - 1, *final(r.unwrap())),
    {
        proof {
            use_type_invariant(&*self);
        }
        let n = self.values.len();
        if n == 0 {
            None
        } else {
            Some(&mut self.values[n - 1])
        }
    }

    /// Consumes the deque into an iterator that hands out its elements by
    /// value, front first.
    pub fn into_iter(self) -> (it: IntoIter<T>)
        ensures
            it@ == self@,
    {
        IntoIter::from_vec(self.values)
    }

    /// Shortens the deque, keeping the last `len` elements and dropping
    /// the rest. The freed slots join the reserved front space.
    ///
    /// If `len` is greater than or equal to the deque's current length, this
    /// has no effect.
    pub fn truncate_at_front(&mut self, len: usize)
        ensures
            len >= old(self)@.len() ==> final(self).same_as(old(self)),
            len < old(self)@.len() ==> final(self)@ == old(self)@.subrange(
                old(self)@.len() - len,
                old(self)@.len() as int,
            ) && final(self).spec_cap() == old(self).spec_cap()
                && (!spec_is_zst::<T>() ==> final(self).front_room() == old(self).front_room()
                    + (old(self)@.len() - len) && final(self).back_room() == old(self).back_room()),
    {
        proof {
            use_type_invariant(&*self);
        }
        let n = self.values.len();
        if len < n {
            let count = n - len;
            let mut b = self.take_values();
            let kept = b.split_off(count);
            if !is_zst::<T>() {
                self.reserved_spaces = (self.reserved_spaces.0 + count, self.reserved_spaces.1);
            }
            self.values = kept;
        }
    }

    /// Shortens the deque, keeping the first `len` elements and dropping
    /// the rest. The freed slots join the reserved back space.
    ///
    /// If `len` is greater than or equal to the deque's current length, this
    /// has no effect.
    pub fn truncate_at_back(&mut self, len: usize)
        ensures
            len >= old(self)@.len() ==> final(self).same_as(old(self)),
            len < old(self)@.len() ==> final(self)@ == old(self)@.subrange(0, len as int)
                && final(self).spec_cap() == old(self).spec_cap()
                && (!spec_is_zst::<T>() ==> final(self).front_room() == old(self).front_room()
                    && final(self).back_room() == old(self).back_room() + (old(self)@.len() - len)),
    {
        proof {
            use_type_invariant(&*self);
        }
        let n = self.values.len();
        if len < n {
            let mut b = self.take_values();
            b.truncate(len);
            if !is_zst::<T>() {
                self.reserved_spaces = (self.reserved_spaces.0, self.reserved_spaces.1 + (n - len));
            }
            self.values = b;
        }
    }

    /// Shortens the deque, keeping the first `len` elements and dropping
    /// the rest; the same as `truncate_at_back`.
    pub fn truncate(&mut self, len: usize)
        ensures
            len >= old(self)@.len() ==> final(self).same_as(old(self)),
            len < old(self)@.len() ==> final(self)@ == old(self)@.subrange(0, len as int)
                && final(self).spec_cap() == old(self).spec_cap()
                && (!spec_is_zst::<T>() ==> final(self).front_room() == old(self).front_room()
                    && final(self).back_room() == old(self).back_room() + (old(self)@.len() - len)),
    {
        self.truncate_at_back(len);
    }

    /// Clears the deque, removing all values. After clearing, the reserved
    /// space is equally distributed to the front and back ends (the back one
    /// gets the odd slot).
    pub fn clear(&mut self)
        ensures
            final(self)@ == Seq::<T>::empty(),
            final(self).spec_cap() == old(self).spec_cap(),
            !spec_is_zst::<T>() ==> final(self).front_room() == old(self).spec_cap() / 2
                && final(self).back_room() == old(self).spec_cap() - old(self).spec_cap() / 2,
    {
        self.truncate_at_back(0);
        proof {
            use_type_invariant(&*self);
        }
        if !is_zst::<T>() {
            let total = self.reserved_spaces.0 + self.reserved_spaces.1;
            self.reserved_spaces = (total / 2, total - total / 2);
        }
    }

    /// Removes the elements of `range` from the deque in bulk and returns
    /// them, in order, as an iterator. Whichever side of the range holds fewer
    /// elements moves to close the gap, so the freed slots join the reserved
    /// space of that end.
    pub fn drain(&mut self, range: core::ops::Range<usize>) -> (d: Drain<T>)
        requires
            range.start <= range.end <= old(self)@.len(),
        ensures
            d@ == old(self)@.subrange(range.start as int, range.end as int),
            final(self)@ == old(self)@.subrange(0, range.start as int) + old(self)@.subrange(
                range.end as int,
                old(self)@.len() as int,
            ),
            final(self).spec_cap() == old(self).spec_cap(),
            !spec_is_zst::<T>() && range.start < old(self)@.len() - range.end ==>
                final(self).front_room() == old(self).front_room() + (range.end - range.start)
                && final(self).back_room() == old(self).back_room(),
            !spec_is_zst::<T>() && range.start >= old(self)@.len() - range.end ==>
                final(self).front_room() == old(self).front_room()
                && final(self).back_room() == old(self).back_room() + (range.end - range.start),
    {
        proof {
            use_type_invariant(&*self);
        }
        let start = range.start;
        let end = range.end;
        let len = self.values.len();
        let mut b = self.take_values();
        let mut tail = b.split_off(end);
        let removed = b.split_off(start);
        b.append(&mut tail);
        if !is_zst::<T>() {
            if start < len - end {
                self.reserved_spaces = (self.reserved_spaces.0 + (end - start), self.reserved_spaces.1);
            } else {
                self.reserved_spaces = (self.reserved_spaces.0, self.reserved_spaces.1 + (end - start));
            }
        }
        self.values = b;
        Drain::from_vec(removed)
    }

    /// Sets the reserved space on both ends of the deque, each as its
    /// `SetReservedSpace` asks; the capacity becomes what the new spaces and
    /// the elements need.
    pub fn set_reserved_space(&mut self, front: SetReservedSpace, back: SetReservedSpace)
        requires
            !spec_is_zst::<T>() ==> spec_new_space(old(self).spec_reserved_front_space(), front)
                + old(self)@.len() + spec_new_space(old(self).spec_reserved_back_space(), back)
                <= usize::MAX,
        ensures
            spec_is_zst::<T>() ==> final(self).same_as(old(self)),
            final(self)@ == old(self)@,
            !spec_is_zst::<T>() ==> final(self).spec_reserved_front_space() == spec_new_space(
                old(self).spec_reserved_front_space(),
                front,
            ) && final(self).spec_reserved_back_space() == spec_new_space(
                old(self).spec_reserved_back_space(),
                back,
            ),
    {
        proof {
            use_type_invariant(&*self);
        }
        if is_zst::<T>() {
            return ;
        }
        let new_front = new_space(self.reserved_spaces.0, front);
        let new_back = new_space(self.reserved_spaces.1, back);
        self.reserved_spaces = (new_front, new_back);
    }

    /// Extends the deque at the front end: the same as passing each element
    /// of `items`, in order, to `push_front`, after room for all of them has
    /// been made at the front at once.
    pub fn extend_at_front(&mut self, items: Vec<T>)
        requires
            old(self).can_reserve(items@.len()),
            !spec_is_zst::<T>() ==> items@.len() < usize::MAX,
        ensures
            final(self)@ == items@.reverse() + old(self)@,
            !spec_is_zst::<T>() ==> final(self).front_room() + items@.len()
                == old(self).after_reserve_front(items@.len()).0
                && final(self).back_room() == old(self).after_reserve_front(items@.len()).1,
    {
        let count = items.len();
        if count < usize::MAX {
            self.ensure_reserved_front_space(count);
        }
        proof {
            use_type_invariant(&*self);
        }
        let ghost start = *self;
        let ghost all = items@;
        let mut rest = to_vec_deque(items);
        let mut i: usize = 0;
        while i < count
            invariant
                0 <= i <= count,
                count == all.len(),
                rest@ == all.subrange(i as int, count as int),
                self@ == all.subrange(0, i as int).reverse() + start@,
                !spec_is_zst::<T>() ==> self.front_room() + i == start.front_room()
                    && self.back_room() == start.back_room(),
                start.front_room() >= count,
                spec_is_zst::<T>() ==> start@.len() + count <= usize::MAX,
            decreases count - i,
        {
            let elem = rest.pop_front().unwrap();
            self.push_front(elem);
            i = i + 1;
        }
    }

    /// Extends the deque at the back end: the same as passing each element
    /// of `items`, in order, to `push_back`, after room for all of them has
    /// been made at the back at once.
    pub fn extend_at_back(&mut self, items: Vec<T>)
        requires
            old(self).can_reserve(items@.len()),
            !spec_is_zst::<T>() ==> items@.len() < usize::MAX,
        ensures
            final(self)@ == old(self)@ + items@,
            !spec_is_zst::<T>() ==> final(self).front_room()
                == old(self).after_reserve_back(items@.len()).0
                && final(self).back_room() + items@.len() == old(self).after_reserve_back(
                items@.len(),
            ).1,
    {
        let count = items.len();
        if count < usize::MAX {
            self.ensure_reserved_back_space(count);
        }
        proof {
            use_type_invariant(&*self);
        }
        let ghost start = *self;
        let ghost all = items@;
        let mut rest = to_vec_deque(items);
        let mut i: usize = 0;
        while i < count
            invariant
                0 <= i <= count,
                count == all.len(),
                rest@ == all.subrange(i as int, count as int),
                self@ == start@ + all.subrange(0, i as int),
                !spec_is_zst::<T>() ==> self.back_room() + i == start.back_room()
                    && self.front_room() == start.front_room(),
                start.back_room() >= count,
                spec_is_zst::<T>() ==> start@.len() + count <= usize::MAX,
            decreases count - i,
        {
            let elem = rest.pop_front().unwrap();
            proof {
                assert(all.subrange(0, i + 1) =~= all.subrange(0, i as int).push(elem));
            }
            self.push_back(elem);
            i = i + 1;
        }
        proof {
            assert(all.subrange(0, count as int) =~= all);
        }
    }

    /// Resizes the deque in place at the front end so that its length is
    /// `new_len`: a longer deque gets the results of `f` at the front, the
    /// first one generated ending up nearest the old elements; a shorter
    /// one is truncated at the front.
    pub fn resize_at_front_with<F: FnMut() -> T>(&mut self, new_len: usize, f: F)
        requires
            call_requires(f, ()),
            !spec_is_zst::<T>() ==> new_len < usize::MAX,
            !spec_is_zst::<T>() && new_len > old(self)@.len() ==> max_nat(old(self).front_room(),
                (new_len - old(self)@.len()) as nat) + old(self)@.len() + old(self).back_room()
                <= usize::MAX,
        ensures
            final(self)@.len() == new_len,
            new_len <= old(self)@.len() ==> final(self)@ == old(self)@.subrange(
                old(self)@.len() - new_len,
                old(self)@.len() as int,
            ) && final(self).spec_cap() == old(self).spec_cap()
                && (!spec_is_zst::<T>() ==> final(self).front_room() == old(self).front_room()
                    + (old(self)@.len() - new_len) && final(self).back_room() == old(self).back_room()),
            new_len > old(self)@.len() ==> {
                let count = new_len - old(self)@.len();
                &&& final(self)@.subrange(count, new_len as int) == old(self)@
                &&& forall|i: int| 0 <= i < count ==> call_ensures(f, (), #[trigger] final(self)@[i])
                &&& !spec_is_zst::<T>() ==> final(self).front_room() == max_nat(old(self).front_room(),
                    count as nat) - count && final(self).back_room() == old(self).back_room()
            },
    {
        let len = self.values.len();
        if new_len < len {
            self.truncate_at_front(new_len);
        } else if new_len > len {
            let count = new_len - len;
            let values = generate(count, f);
            self.set_reserved_space(SetReservedSpace::GrowTo(count), SetReservedSpace::Keep);
            self.extend_at_front(values);
            proof {
                let fin = self@;
                assert(fin.subrange(count as int, new_len as int) =~= old(self)@);
                assert forall|i: int| 0 <= i < count implies call_ensures(f, (), #[trigger] fin[i]) by {
                    assert(fin[i] == values@[count - 1 - i]);
                }
            }
        }
    }

    /// Resizes the deque in place at the back end so that its length is
    /// `new_len`: a longer deque gets the results of `f` at the back, in the
    /// order they were generated; a shorter one is truncated at the back.
    pub fn resize_at_back_with<F: FnMut() -> T>(&mut self, new_len: usize, f: F)
        requires
            call_requires(f, ()),
            !spec_is_zst::<T>() ==> new_len < usize::MAX,
            !spec_is_zst::<T>() && new_len > old(self)@.len() ==> old(self).front_room()
                + old(self)@.len() + max_nat(old(self).back_room(), (new_len - old(self)@.len()) as nat)
                <= usize::MAX,
        ensures
            final(self)@.len() == new_len,
            new_len <= old(self)@.len() ==> final(self)@ == old(self)@.subrange(0, new_len as int)
                && final(self).spec_cap() == old(self).spec_cap()
                && (!spec_is_zst::<T>() ==> final(self).front_room() == old(self).front_room()
                    && final(self).back_room() == old(self).back_room() + (old(self)@.len() - new_len)),
            new_len > old(self)@.len() ==> {
                let n = old(self)@.len();
                &&& final(self)@.subrange(0, n as int) == old(self)@
                &&& forall|i: int| n <= i < new_len ==> call_ensures(f, (), #[trigger] final(self)@[i])
                &&& !spec_is_zst::<T>() ==> final(self).front_room() == old(self).front_room()
                    && final(self).back_room() == max_nat(old(self).back_room(), (new_len - n) as nat)
                    - (new_len - n)
            },
    {
        let len = self.values.len();
        if new_len < len {
            self.truncate_at_back(new_len);
        } else if new_len > len {
            let count = new_len - len;
            let values = generate(count, f);
            self.set_reserved_space(SetReservedSpace::Keep, SetReservedSpace::GrowTo(count));
            self.extend_at_back(values);
            proof {
                let fin = self@;
                assert(fin.subrange(0, len as int) =~= old(self)@);
                assert forall|i: int| len <= i < new_len implies call_ensures(f, (), #[trigger] fin[i]) by {
                    assert(fin[i] == values@[i - len]);
                }
            }
        }
    }

    /// Resizes the deque in place at the back end so that its length is
    /// `new_len`; the same as `resize_at_back_with`.
    pub fn resize_with<F: FnMut() -> T>(&mut self, new_len: usize, f: F)
        requires
            call_requires(f, ()),
            !spec_is_zst::<T>() ==> new_len < usize::MAX,
            !spec_is_zst::<T>() && new_len > old(self)@.len() ==> old(self).front_room()
                + old(self)@.len() + max_nat(old(self).back_room(), (new_len - old(self)@.len()) as nat)
                <= usize::MAX,
        ensures
            final(self)@.len() == new_len,
            new_len <= old(self)@.len() ==> final(self)@ == old(self)@.subrange(0, new_len as int)
                && final(self).spec_cap() == old(self).spec_cap()
                && (!spec_is_zst::<T>() ==> final(self).front_room() == old(self).front_room()
                    && final(self).back_room() == old(self).back_room() + (old(self)@.len() - new_len)),
            new_len > old(self)@.len() ==> {
                let n = old(self)@.len();
                &&& final(self)@.subrange(0, n as int) == old(self)@
                &&& forall|i: int| n <= i < new_len ==> call_ensures(f, (), #[trigger] final(self)@[i])
                &&& !spec_is_zst::<T>() ==> final(self).front_room() == old(self).front_room()
                    && final(self).back_room() == max_nat(old(self).back_room(), (new_len - n) as nat)
                    - (new_len - n)
            },
    {
        self.resize_at_back_with(new_len, f);
    }

    /// Retains only the elements for which `f` returns `true`, visiting each
    /// element exactly once in the original order and keeping the order of
    /// the retained ones. The freed slots join the reserved back space.
    ///
    /// The contract speaks of each call only through the closure's own
    /// contract, which holds of every call alike; that the calls come front
    /// to back is a fact of the loop below, not a clause.
    pub fn retain<F: FnMut(&T) -> bool>(&mut self, pred: F)
        requires
            forall|x: &T| call_requires(pred, (x,)),
        ensures
            final(self).spec_cap() == old(self).spec_cap(),
            final(self).spec_reserved_front_space() == old(self).spec_reserved_front_space(),
            !spec_is_zst::<T>() ==> final(self).back_room() == old(self).back_room() + (old(self)@.len()
                - final(self)@.len()),
            exists|keep: Seq<bool>|
                {
                    &&& keep.len() == old(self)@.len()
                    &&& forall|i: int|
                        0 <= i < keep.len() ==> call_ensures(pred, (&old(self)@[i],), #[trigger] keep[i])
                    &&& final(self)@ == kept(old(self)@, keep)
                },
    {
        let mut f = pred;
        proof {
            use_type_invariant(&*self);
        }
        let items = self.take_values();
        let mut out: Vec<T> = Vec::new();
        let ghost all = items@;
        let mut rest = to_vec_deque(items);
        let ghost mut keep: Seq<bool> = Seq::empty();
        let n = rest.len();
        let mut i: usize = 0;
        while i < n
            invariant
                0 <= i <= n,
                n == all.len(),
                rest@ == all.subrange(i as int, n as int),
                keep.len() == i,
                out@ == kept(all.subrange(0, i as int), keep),
                out@.len() <= i,
                self@ == Seq::<T>::empty(),
                self.reserved_spaces == old(self).reserved_spaces,
                    all == old(self)@,
                f == pred,
                forall|x: &T| call_requires(f, (x,)),
                forall|j: int| 0 <= j < i ==> call_ensures(f, (&all[j],), #[trigger] keep[j]),
            decreases n - i,
        {
            let x = rest.pop_front().unwrap();
            let b = f(&x);
            proof {
                assert(all.subrange(0, i + 1).drop_last() =~= all.subrange(0, i as int));
                assert(keep.push(b).take(i as int) =~= keep);
                keep = keep.push(b);
            }
            if b {
                out.push(x);
            }
            i = i + 1;
        }
        proof {
            assert(all.subrange(0, n as int) =~= all);
        }
        if !is_zst::<T>() {
            self.reserved_spaces = (self.reserved_spaces.0, self.reserved_spaces.1 + (n - out.len()));
        }
        self.values = out;
    }

    /// Retains only the elements for which `f` returns `true`, passing a
    /// mutable reference to each: every element is visited exactly once, in
    /// the original order, and the retained ones keep their order and the
    /// values `f` left in them.
    ///
    /// The contract speaks of each call only through the closure's own
    /// contract, which holds of every call alike; that the calls come front
    /// to back is a fact of the loop below, not a clause.
    pub fn retain_mut<F: FnMut(&mut T) -> bool>(&mut self, pred: F)
        requires
            forall|x: &mut T| call_requires(pred, (x,)),
        ensures
            final(self).spec_cap() == old(self).spec_cap(),
            final(self).spec_reserved_front_space() == old(self).spec_reserved_front_space(),
            !spec_is_zst::<T>() ==> final(self).back_room() == old(self).back_room() + (old(self)@.len()
                - final(self)@.len()),
            exists|keep: Seq<bool>, after: Seq<T>|
                {
                    &&& keep.len() == old(self)@.len()
                    &&& after.len() == old(self)@.len()
                    &&& forall|i: int|
                        #[trigger] index_below(i, keep.len() as int) ==> exists|r: &mut T|
                            *r == old(self)@[i] && *final(r) == after[i] && call_ensures(pred, (r,), keep[i])
                    &&& final(self)@ == kept(after, keep)
                },
    {
        let mut f = pred;
        proof {
            use_type_invariant(&*self);
        }
        let items = self.take_values();
        let mut out: Vec<T> = Vec::new();
        let ghost all = items@;
        let mut rest = to_vec_deque(items);
        let ghost mut keep: Seq<bool> = Seq::empty();
        let ghost mut after: Seq<T> = Seq::empty();
        let n = rest.len();
        let mut i: usize = 0;
        while i < n
            invariant
                0 <= i <= n,
                n == all.len(),
                rest@ == all.subrange(i as int, n as int),
                keep.len() == i,
                after.len() == i,
                out@ == kept(after, keep),
                out@.len() <= i,
                self@ == Seq::<T>::empty(),
                self.reserved_spaces == old(self).reserved_spaces,
                    all == old(self)@,
                f == pred,
                forall|x: &mut T| call_requires(f, (x,)),
                forall|j: int|
                    #[trigger] index_below(j, i as int) ==> exists|r: &mut T|
                        *r == all[j] && *final(r) == after[j] && call_ensures(f, (r,), keep[j]),
            decreases n - i,
        {
            let mut x = rest.pop_front().unwrap();
            let ghost before = x;
            let b = f(&mut x);
            proof {
                let ghost keep0 = keep;
                let ghost after0 = after;
                assert(after.push(x).drop_last() =~= after);
                assert(keep.push(b).take(i as int) =~= keep);
                keep = keep.push(b);
                after = after.push(x);
                assert forall|j: int| #[trigger] index_below(j, i + 1) implies exists|r: &mut T|
                    *r == all[j] && *final(r) == after[j] && call_ensures(f, (r,), keep[j]) by {
                    if j < i {
                        assert(index_below(j, i as int));
                        assert(after[j] == after0[j]);
                        assert(keep[j] == keep0[j]);
                    } else {
                        assert(after[j] == x);
                        assert(keep[j] == b);
                        assert(all[j] == before);
                    }
                }
            }
            if b {
                out.push(x);
            }
            i = i + 1;
        }
        if !is_zst::<T>() {
            self.reserved_spaces = (self.reserved_spaces.0, self.reserved_spaces.1 + (n - out.len()));
        }
        self.values = out;
    }
}


/// `count` results of `f`, in the order they were generated.
fn generate<T, F: FnMut() -> T>(count: usize, gen: F) -> (v: Vec<T>)
    requires
        call_requires(gen, ()),
    ensures
        v@.len() == count,
        forall|i: int| 0 <= i < count ==> call_ensures(gen, (), #[trigger] v@[i]),
{
    let mut f = gen;
    let mut v: Vec<T> = Vec::new();
    while v.len() < count
        invariant
            v@.len() <= count,
            f == gen,
            call_requires(f, ()),
            forall|i: int| 0 <= i < v@.len() ==> call_ensures(f, (), #[trigger] v@[i]),
        decreases count - v@.len(),
    {
        let x = f();
        v.push(x);
    }
    v
}


/// The elements of `s` whose flag in `keep` is set, in order.
pub open spec fn kept<T>(s: Seq<T>, keep: Seq<bool>) -> Seq<T>
    decreases s.len(),
{
    if s.len() == 0 {
        Seq::empty()
    } else {
        let rest = kept(s.drop_last(), keep.take(s.len() - 1));
        if keep[s.len() - 1] {
            rest.push(s.last())
        } else {
            rest
        }
    }
}


/// `i` indexes a sequence of length `n`.
pub open spec fn index_below(i: int, n: int) -> bool {
    0 <= i < n
}


impl<T: Clone> LinearDeque<T> {
    /// Resizes the deque in place at the front end so that its length is
    /// `new_len`: a longer deque gets clones of `value` at the front; a
    /// shorter one is truncated at the front.
    pub fn resize_at_front(&mut self, new_len: usize, value: T)
        requires
            !spec_is_zst::<T>() ==> new_len < usize::MAX,
            !spec_is_zst::<T>() && new_len > old(self)@.len() ==> max_nat(old(self).front_room(),
                (new_len - old(self)@.len()) as nat) + old(self)@.len() + old(self).back_room()
                <= usize::MAX,
        ensures
            final(self)@.len() == new_len,
            new_len <= old(self)@.len() ==> final(self)@ == old(self)@.subrange(
                old(self)@.len() - new_len,
                old(self)@.len() as int,
            ) && final(self).spec_cap() == old(self).spec_cap()
                && (!spec_is_zst::<T>() ==> final(self).front_room() == old(self).front_room()
                    + (old(self)@.len() - new_len) && final(self).back_room() == old(self).back_room()),
            new_len > old(self)@.len() ==> {
                let count = new_len - old(self)@.len();
                &&& final(self)@.subrange(count, new_len as int) == old(self)@
                &&& forall|i: int| 0 <= i < count ==> cloned(value, #[trigger] final(self)@[i])
                &&& !spec_is_zst::<T>() ==> final(self).front_room() == max_nat(old(self).front_room(),
                    count as nat) - count && final(self).back_room() == old(self).back_room()
            },
    {
        let v = &value;
        let fill = || -> (r: T)
            ensures
                cloned(*v, r),
            { v.clone() };
        self.resize_at_front_with(new_len, fill);
    }

    /// Resizes the deque in place at the back end so that its length is
    /// `new_len`: a longer deque gets clones of `value` at the back; a
    /// shorter one is truncated at the back.
    pub fn resize_at_back(&mut self, new_len: usize, value: T)
        requires
            !spec_is_zst::<T>() ==> new_len < usize::MAX,
            !spec_is_zst::<T>() && new_len > old(self)@.len() ==> old(self).front_room()
                + old(self)@.len() + max_nat(old(self).back_room(), (new_len - old(self)@.len()) as nat)
                <= usize::MAX,
        ensures
            final(self)@.len() == new_len,
            new_len <= old(self)@.len() ==> final(self)@ == old(self)@.subrange(0, new_len as int)
                && final(self).spec_cap() == old(self).spec_cap()
                && (!spec_is_zst::<T>() ==> final(self).front_room() == old(self).front_room()
                    && final(self).back_room() == old(self).back_room() + (old(self)@.len() - new_len)),
            new_len > old(self)@.len() ==> {
                let n = old(self)@.len();
                &&& final(self)@.subrange(0, n as int) == old(self)@
                &&& forall|i: int| n <= i < new_len ==> cloned(value, #[trigger] final(self)@[i])
                &&& !spec_is_zst::<T>() ==> final(self).front_room() == old(self).front_room()
                    && final(self).back_room() == max_nat(old(self).back_room(), (new_len - n) as nat)
                    - (new_len - n)
            },
    {
        let v = &value;
        let fill = || -> (r: T)
            ensures
                cloned(*v, r),
            { v.clone() };
        self.resize_at_back_with(new_len, fill);
    }

    /// Resizes the deque in place at the back end so that its length is
    /// `new_len`; the same as `resize_at_back`.
    pub fn resize(&mut self, new_len: usize, value: T)
        requires
            !spec_is_zst::<T>() ==> new_len < usize::MAX,
            !spec_is_zst::<T>() && new_len > old(self)@.len() ==> old(self).front_room()
                + old(self)@.len() + max_nat(old(self).back_room(), (new_len - old(self)@.len()) as nat)
                <= usize::MAX,
        ensures
            final(self)@.len() == new_len,
            new_len <= old(self)@.len() ==> final(self)@ == old(self)@.subrange(0, new_len as int)
                && final(self).spec_cap() == old(self).spec_cap()
                && (!spec_is_zst::<T>() ==> final(self).front_room() == old(self).front_room()
                    && final(self).back_room() == old(self).back_room() + (old(self)@.len() - new_len)),
            new_len > old(self)@.len() ==> {
                let n = old(self)@.len();
                &&& final(self)@.subrange(0, n as int) == old(self)@
                &&& forall|i: int| n <= i < new_len ==> cloned(value, #[trigger] final(self)@[i])
                &&& !spec_is_zst::<T>() ==> final(self).front_room() == old(self).front_room()
                    && final(self).back_room() == max_nat(old(self).back_room(), (new_len - n) as nat)
                    - (new_len - n)
            },
    {
        self.resize_at_back(new_len, value);
    }
}


impl<T> From<Vec<T>> for LinearDeque<T> {
    /// A deque of the vector's elements, in order, with no reserved space
    /// at either end.
    fn from(v: Vec<T>) -> (d: Self) {
        let n = v.len();
        proof {
            broadcast use vstd::std_specs::vec::axiom_spec_len;

            assert(n == v@.len());
        }
        let spaces = if is_zst::<T>() { (usize::MAX, usize::MAX) } else { (0, 0) };
        LinearDeque { values: v, reserved_spaces: spaces }
    }
}

impl<T> vstd::std_specs::convert::FromSpecImpl<Vec<T>> for LinearDeque<T> {
    open spec fn obeys_from_spec() -> bool {
        true
    }

    closed spec fn from_spec(v: Vec<T>) -> Self {
        LinearDeque {
            values: v,
            reserved_spaces: if spec_is_zst::<T>() { (usize::MAX, usize::MAX) } else { (0, 0) },
        }
    }
}

/// What `from` gives for a vector: a well-formed deque of its elements, in
/// order, with no reserved space at either end.
pub proof fn lemma_from_vec<T>(v: Vec<T>)
    ensures
        <LinearDeque<T> as FromSpec<Vec<T>>>::from_spec(v)@ == v@,
        !spec_is_zst::<T>() ==> <LinearDeque<T> as FromSpec<Vec<T>>>::from_spec(
            v,
        ).spec_reserved_front_space() == 0
            && <LinearDeque<T> as FromSpec<Vec<T>>>::from_spec(
            v,
        ).spec_reserved_back_space() == 0,
{
    broadcast use vstd::std_specs::vec::axiom_spec_len;

    assert(v.len() == v@.len());
}

} // verus!
