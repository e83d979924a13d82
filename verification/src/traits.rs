//! Standard conversions and views of a deque: construction by default and
//! from a vector, cloning, hashing, and seeing it as a slice.
use vstd::prelude::*;
use crate::deque::LinearDeque;
use crate::layout::spec_is_zst;

verus! {

impl<T> Default for LinearDeque<T> {
    /// An empty deque with no reserved space.
    fn default() -> (d: Self)
        ensures
            d@ == Seq::<T>::empty(),
            !spec_is_zst::<T>() ==> d.spec_reserved_front_space() == 0
                && d.spec_reserved_back_space() == 0 && d.spec_cap() == 0,
            spec_is_zst::<T>() ==> d.spec_cap() == usize::MAX,
    {
        Self::new()
    }
}

impl<T> core::ops::Deref for LinearDeque<T> {
    type Target = [T];

    /// All the elements as one slice, front first.
    fn deref(&self) -> (s: &[T])
        ensures
            s@ == self@,
    {
        self.as_slice()
    }
}

impl<T: Clone> Clone for LinearDeque<T> {
    /// A deque of clones of the elements, in order, in a buffer that fits
    /// them exactly: no reserved space at either end.
    fn clone(&self) -> (c: Self)
        ensures
            c@.len() == self@.len(),
            forall|i: int| 0 <= i < self@.len() ==> cloned(self@[i], #[trigger] c@[i]),
            !spec_is_zst::<T>() ==> c.spec_reserved_front_space() == 0
                && c.spec_reserved_back_space() == 0,
    {
        let items = self.as_slice();
        let n = items.len();
        let mut c = Self::with_reserved_space(0, n);
        let mut i: usize = 0;
        while i < n
            invariant
                items@ == self@,
                n == self@.len(),
                0 <= i <= n,
                c@.len() == i,
                forall|j: int| 0 <= j < i ==> cloned(self@[j], #[trigger] c@[j]),
                !spec_is_zst::<T>() ==> c.spec_reserved_front_space() == 0
                    && c.spec_reserved_back_space() == n - i,
            decreases n - i,
        {
            c.push_back(items[i].clone());
            i = i + 1;
        }
        c
    }
}

impl<T: core::hash::Hash> core::hash::Hash for LinearDeque<T> {
    /// Feeds the elements, as one slice, to std's `<[T] as Hash>::hash`:
    /// the reserved spaces take no part, so deques with equal elements hash
    /// alike. The body is trusted, and no property of what the hasher
    /// receives is stated.
    #[verifier::external_body]
    fn hash<H: core::hash::Hasher>(&self, state: &mut H) {
        self.as_slice().hash(state)
    }
}

} // verus!
