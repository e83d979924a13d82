//! Equality of a deque with another deque, a vector, an array or a slice:
//! element by element, whatever the reserved spaces.
use vstd::prelude::*;
use vstd::std_specs::cmp::{PartialEqSpec, PartialEqSpecImpl};
use crate::deque::LinearDeque;

verus! {

/// `a` and `b` have the same length and each element of `a` equals the
/// element of `b` at the same index.
pub open spec fn elementwise_eq<T: PartialEq<U>, U>(a: Seq<T>, b: Seq<U>) -> bool {
    &&& a.len() == b.len()
    &&& forall|i: int| 0 <= i < a.len() ==> (#[trigger] a[i]).eq_spec(&b[i])
}

/// Compares two slices element by element, front first.
fn slices_eq<T: PartialEq<U>, U>(a: &[T], b: &[U]) -> (r: bool)
    ensures
        <T as PartialEqSpec<U>>::obeys_eq_spec() ==> r == elementwise_eq(a@, b@),
{
    if a.len() != b.len() {
        return false;
    }
    let mut i: usize = 0;
    while i < a.len()
        invariant
            a@.len() == b@.len(),
            0 <= i <= a@.len(),
            <T as PartialEqSpec<U>>::obeys_eq_spec() ==> forall|j: int|
                0 <= j < i ==> (#[trigger] a@[j]).eq_spec(&b@[j]),
        decreases a@.len() - i,
    {
        if !(a[i] == b[i]) {
            return false;
        }
        i = i + 1;
    }
    true
}

impl<T: PartialEq<U>, U> PartialEq<LinearDeque<U>> for LinearDeque<T> {
    fn eq(&self, other: &LinearDeque<U>) -> (r: bool) {
        slices_eq(self.as_slice(), other.as_slice())
    }
}

impl<T: PartialEq<U>, U> PartialEqSpecImpl<LinearDeque<U>> for LinearDeque<T> {
    open spec fn obeys_eq_spec() -> bool {
        <T as PartialEqSpec<U>>::obeys_eq_spec()
    }

    open spec fn eq_spec(&self, other: &LinearDeque<U>) -> bool {
        elementwise_eq(self@, other@)
    }
}

impl<T: Eq> Eq for LinearDeque<T> {

}

impl<T: PartialEq<U>, U> PartialEq<Vec<U>> for LinearDeque<T> {
    fn eq(&self, other: &Vec<U>) -> (r: bool) {
        slices_eq(self.as_slice(), other.as_slice())
    }
}

impl<T: PartialEq<U>, U> PartialEqSpecImpl<Vec<U>> for LinearDeque<T> {
    open spec fn obeys_eq_spec() -> bool {
        <T as PartialEqSpec<U>>::obeys_eq_spec()
    }

    open spec fn eq_spec(&self, other: &Vec<U>) -> bool {
        elementwise_eq(self@, other@)
    }
}

impl<'a, T: PartialEq<U>, U> PartialEq<&'a [U]> for LinearDeque<T> {
    fn eq(&self, other: &&'a [U]) -> (r: bool) {
        slices_eq(self.as_slice(), *other)
    }
}

impl<'a, T: PartialEq<U>, U> PartialEqSpecImpl<&'a [U]> for LinearDeque<T> {
    open spec fn obeys_eq_spec() -> bool {
        <T as PartialEqSpec<U>>::obeys_eq_spec()
    }

    open spec fn eq_spec(&self, other: &&'a [U]) -> bool {
        elementwise_eq(self@, other@)
    }
}

impl<'a, T: PartialEq<U>, U> PartialEq<&'a mut [U]> for LinearDeque<T> {
    fn eq(&self, other: &&'a mut [U]) -> (r: bool) {
        slices_eq(self.as_slice(), &**other)
    }
}

impl<'a, T: PartialEq<U>, U> PartialEqSpecImpl<&'a mut [U]> for LinearDeque<T> {
    open spec fn obeys_eq_spec() -> bool {
        <T as PartialEqSpec<U>>::obeys_eq_spec()
    }

    open spec fn eq_spec(&self, other: &&'a mut [U]) -> bool {
        elementwise_eq(self@, (**other)@)
    }
}

impl<T: PartialEq<U>, U, const N: usize> PartialEq<[U; N]> for LinearDeque<T> {
    fn eq(&self, other: &[U; N]) -> (r: bool) {
        slices_eq(self.as_slice(), other.as_slice())
    }
}

impl<T: PartialEq<U>, U, const N: usize> PartialEqSpecImpl<[U; N]> for LinearDeque<T> {
    open spec fn obeys_eq_spec() -> bool {
        <T as PartialEqSpec<U>>::obeys_eq_spec()
    }

    open spec fn eq_spec(&self, other: &[U; N]) -> bool {
        elementwise_eq(self@, other@)
    }
}

impl<'a, T: PartialEq<U>, U, const N: usize> PartialEq<&'a [U; N]> for LinearDeque<T> {
    fn eq(&self, other: &&'a [U; N]) -> (r: bool) {
        slices_eq(self.as_slice(), other.as_slice())
    }
}

impl<'a, T: PartialEq<U>, U, const N: usize> PartialEqSpecImpl<&'a [U; N]> for LinearDeque<T> {
    open spec fn obeys_eq_spec() -> bool {
        <T as PartialEqSpec<U>>::obeys_eq_spec()
    }

    open spec fn eq_spec(&self, other: &&'a [U; N]) -> bool {
        elementwise_eq(self@, (**other)@)
    }
}

impl<'a, T: PartialEq<U>, U, const N: usize> PartialEq<&'a mut [U; N]> for LinearDeque<T> {
    fn eq(&self, other: &&'a mut [U; N]) -> (r: bool) {
        slices_eq(self.as_slice(), other.as_slice())
    }
}

impl<'a, T: PartialEq<U>, U, const N: usize> PartialEqSpecImpl<&'a mut [U; N]> for LinearDeque<T> {
    open spec fn obeys_eq_spec() -> bool {
        <T as PartialEqSpec<U>>::obeys_eq_spec()
    }

    open spec fn eq_spec(&self, other: &&'a mut [U; N]) -> bool {
        elementwise_eq(self@, (**other)@)
    }
}

} // verus!
