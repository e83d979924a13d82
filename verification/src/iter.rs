//! The iterators that hand out a deque's elements by value.
use std::collections::VecDeque;
use vstd::prelude::*;

verus! {

/// The elements of `v` in a `VecDeque`, same order.
pub(crate) fn to_vec_deque<T>(v: Vec<T>) -> (d: VecDeque<T>)
    ensures
        d@ == v@,
{
    let mut v = v;
    let ghost orig = v@;
    let mut d: VecDeque<T> = VecDeque::new();
    while v.len() > 0
        invariant
            v@ + d@ == orig,
        decreases v@.len(),
    {
        let x = v.pop().unwrap();
        d.push_front(x);
        assert(v@ + d@ =~= orig);
    }
    assert(d@ =~= orig);
    d
}

/// An owning iterator over the elements of a `LinearDeque`, created by its
/// `into_iter` method. Elements can be taken from both ends.
pub struct IntoIter<T> {
    items: VecDeque<T>,
}

impl<T> View for IntoIter<T> {
    type V = Seq<T>;

    /// The elements not handed out yet, front first.
    closed spec fn view(&self) -> Seq<T> {
        self.items@
    }
}

impl<T> IntoIter<T> {
    pub(crate) fn from_vec(v: Vec<T>) -> (it: Self)
        ensures
            it@ == v@,
    {
        IntoIter { items: to_vec_deque(v) }
    }

    /// Hands out the front element, or `None` when all were handed out.
    pub fn next(&mut self) -> (r: Option<T>)
        ensures
            old(self)@.len() == 0 ==> r is None && final(self)@ == old(self)@,
            old(self)@.len() > 0 ==> r == Some(old(self)@[0]) && final(self)@ == old(self)@.drop_first(),
    {
        self.items.pop_front()
    }

    /// Hands out the back element, or `None` when all were handed out.
    pub fn next_back(&mut self) -> (r: Option<T>)
        ensures
            old(self)@.len() == 0 ==> r is None && final(self)@ == old(self)@,
            old(self)@.len() > 0 ==> r == Some(old(self)@.last()) && final(self)@ == old(self)@.drop_last(),
    {
        self.items.pop_back()
    }

    /// The exact number of elements left, as lower and upper bound.
    pub fn size_hint(&self) -> (r: (usize, Option<usize>))
        ensures
            r.0 == self@.len(),
            r.1 == Some(self@.len() as usize),
    {
        let n = self.items.len();
        (n, Some(n))
    }
}

/// A draining iterator over the elements removed by `LinearDeque::drain`.
pub struct Drain<T> {
    items: VecDeque<T>,
}

impl<T> View for Drain<T> {
    type V = Seq<T>;

    /// The removed elements not handed out yet, front first.
    closed spec fn view(&self) -> Seq<T> {
        self.items@
    }
}

impl<T> Drain<T> {
    pub(crate) fn from_vec(v: Vec<T>) -> (it: Self)
        ensures
            it@ == v@,
    {
        Drain { items: to_vec_deque(v) }
    }

    /// Hands out the next removed element, or `None` when all were handed out.
    pub fn next(&mut self) -> (r: Option<T>)
        ensures
            old(self)@.len() == 0 ==> r is None && final(self)@ == old(self)@,
            old(self)@.len() > 0 ==> r == Some(old(self)@[0]) && final(self)@ == old(self)@.drop_first(),
    {
        self.items.pop_front()
    }

    /// The exact number of elements left, as lower and upper bound.
    pub fn size_hint(&self) -> (r: (usize, Option<usize>))
        ensures
            r.0 == self@.len(),
            r.1 == Some(self@.len() as usize),
    {
        let n = self.items.len();
        (n, Some(n))
    }
}

} // verus!
