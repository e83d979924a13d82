//! Lexicographic ordering of deques: element by element, front first, and
//! a deque that runs out first is the smaller one.
use core::cmp::Ordering;
use vstd::prelude::*;
use vstd::std_specs::cmp::{PartialOrdSpec, PartialOrdSpecImpl};
use crate::deque::LinearDeque;

verus! {

/// How `a` compares with `b` lexicographically, by the partial order of
/// their elements: the first pair that does not compare equal decides;
/// when one runs out first it is the smaller one.
pub open spec fn lex_order<T: PartialOrd>(a: Seq<T>, b: Seq<T>) -> Option<Ordering>
    decreases a.len(),
{
    if a.len() == 0 {
        if b.len() == 0 {
            Some(Ordering::Equal)
        } else {
            Some(Ordering::Less)
        }
    } else if b.len() == 0 {
        Some(Ordering::Greater)
    } else if a[0].partial_cmp_spec(&b[0]) == Some(Ordering::Equal) {
        lex_order(a.drop_first(), b.drop_first())
    } else {
        a[0].partial_cmp_spec(&b[0])
    }
}

impl<T: PartialOrd> PartialOrd for LinearDeque<T> {
    /// Compares the elements lexicographically, front first.
    fn partial_cmp(&self, other: &Self) -> (r: Option<Ordering>) {
        let a = self.as_slice();
        let b = other.as_slice();
        let mut i: usize = 0;
        let ghost mut k: int = 0;
        proof {
            assert(a@.skip(0) =~= a@);
            assert(b@.skip(0) =~= b@);
        }
        while i < a.len() && i < b.len()
            invariant
                k == i,
                i <= a@.len(),
                i <= b@.len(),
                a@ == self@,
                b@ == other@,
                T::obeys_partial_cmp_spec() ==> lex_order(a@, b@) == lex_order(a@.skip(k), b@.skip(k)),
            decreases a@.len() - k,
        {
            let r = a[i].partial_cmp(&b[i]);
            proof {
                assert(a@.skip(k)[0] == a@[k]);
                assert(b@.skip(k)[0] == b@[k]);
            }
            match r {
                Some(Ordering::Equal) => {
                    proof {
                        assert(a@.skip(k).drop_first() =~= a@.skip(k + 1));
                        assert(b@.skip(k).drop_first() =~= b@.skip(k + 1));
                    }
                    i = i + 1;
                    proof {
                        k = k + 1;
                    }
                },
                _ => {
                    return r;
                },
            }
        }
        if a.len() == b.len() {
            Some(Ordering::Equal)
        } else if a.len() < b.len() {
            Some(Ordering::Less)
        } else {
            Some(Ordering::Greater)
        }
    }
}

impl<T: PartialOrd> PartialOrdSpecImpl for LinearDeque<T> {
    open spec fn obeys_partial_cmp_spec() -> bool {
        T::obeys_partial_cmp_spec()
    }

    open spec fn partial_cmp_spec(&self, other: &Self) -> Option<Ordering> {
        lex_order(self@, other@)
    }
}

/// The same comparison seen from the other side: `Less` and `Greater`
/// swap, `Equal` and incomparable stay.
pub open spec fn flipped(r: Option<Ordering>) -> Option<Ordering> {
    match r {
        Some(Ordering::Less) => Some(Ordering::Greater),
        Some(Ordering::Greater) => Some(Ordering::Less),
        other => other,
    }
}

/// A common prefix of elements equal to themselves leaves the comparison
/// to what follows it.
proof fn lemma_lex_common_prefix<T: PartialOrd>(p: Seq<T>, a: Seq<T>, b: Seq<T>)
    requires
        forall|i: int| 0 <= i < p.len() ==> (#[trigger] p[i]).partial_cmp_spec(&p[i]) == Some(Ordering::Equal),
    ensures
        lex_order(p + a, p + b) == lex_order(a, b),
    decreases p.len(),
{
    if p.len() == 0 {
        assert(p + a =~= a);
        assert(p + b =~= b);
    } else {
        assert((p + a)[0] == p[0]);
        assert((p + b)[0] == p[0]);
        assert(p[0].partial_cmp_spec(&p[0]) == Some(Ordering::Equal));
        let q = p.drop_first();
        assert forall|i: int| 0 <= i < q.len() implies (#[trigger] q[i]).partial_cmp_spec(&q[i])
            == Some(Ordering::Equal) by {
            assert(p[i + 1].partial_cmp_spec(&p[i + 1]) == Some(Ordering::Equal));
        }
        assert((p + a).drop_first() =~= q + a);
        assert((p + b).drop_first() =~= q + b);
        lemma_lex_common_prefix(q, a, b);
    }
}

proof fn lemma_lex_flipped<T: PartialOrd>(a: Seq<T>, b: Seq<T>)
    requires
        forall|x: T, y: T| #[trigger] y.partial_cmp_spec(&x) == flipped(x.partial_cmp_spec(&y)),
    ensures
        lex_order(b, a) == flipped(lex_order(a, b)),
    decreases a.len(),
{
    if a.len() > 0 && b.len() > 0 {
        let c = a[0].partial_cmp_spec(&b[0]);
        assert(b[0].partial_cmp_spec(&a[0]) == flipped(c));
        lemma_lex_flipped(a.drop_first(), b.drop_first());
    }
}

/// Comparing deques is antisymmetric whenever comparing their elements is:
/// `b` compares with `a` as the reverse of how `a` compares with `b`, so
/// `a < b` exactly when `b > a`, and two deques are equal in either order
/// or in neither.
pub proof fn law_partial_cmp_antisymmetric<T: PartialOrd>(a: LinearDeque<T>, b: LinearDeque<T>)
    requires
        forall|x: T, y: T| #[trigger] y.partial_cmp_spec(&x) == flipped(x.partial_cmp_spec(&y)),
    ensures
        PartialOrdSpec::partial_cmp_spec(&b, &a) == flipped(PartialOrdSpec::partial_cmp_spec(&a, &b)),
        PartialOrdSpec::partial_cmp_spec(&a, &b) == Some(Ordering::Less) <==> PartialOrdSpec::partial_cmp_spec(&b, &a) == Some(Ordering::Greater),
        PartialOrdSpec::partial_cmp_spec(&a, &b) == Some(Ordering::Equal) <==> PartialOrdSpec::partial_cmp_spec(&b, &a) == Some(Ordering::Equal),
{
    lemma_lex_flipped(a@, b@);
}

/// A deque whose elements are a proper prefix of another's, each element
/// equal to itself, is the smaller one: `a < b` and `b > a`.
pub proof fn law_proper_prefix_is_less<T: PartialOrd>(a: LinearDeque<T>, b: LinearDeque<T>, rest: Seq<T>)
    requires
        b@ == a@ + rest,
        rest.len() > 0,
        forall|i: int| 0 <= i < a@.len() ==> (#[trigger] a@[i]).partial_cmp_spec(&a@[i])
            == Some(Ordering::Equal),
    ensures
        PartialOrdSpec::partial_cmp_spec(&a, &b) == Some(Ordering::Less),
        PartialOrdSpec::partial_cmp_spec(&b, &a) == Some(Ordering::Greater),
{
    let e = Seq::<T>::empty();
    assert(a@ + e =~= a@);
    lemma_lex_common_prefix(a@, e, rest);
    lemma_lex_common_prefix(a@, rest, e);
}

/// Deques with the same elements, each equal to itself, compare equal.
pub proof fn law_same_elements_compare_equal<T: PartialOrd>(a: LinearDeque<T>, b: LinearDeque<T>)
    requires
        a@ == b@,
        forall|i: int| 0 <= i < a@.len() ==> (#[trigger] a@[i]).partial_cmp_spec(&a@[i])
            == Some(Ordering::Equal),
    ensures
        PartialOrdSpec::partial_cmp_spec(&a, &b) == Some(Ordering::Equal),
{
    let e = Seq::<T>::empty();
    assert(a@ + e =~= a@);
    lemma_lex_common_prefix(a@, e, e);
}

/// The first position at which the elements do not compare equal decides:
/// where `a` and `b` share a prefix of elements equal to themselves and
/// their next elements compare otherwise than equal, the deques compare as
/// those two elements do.
pub proof fn law_first_difference_decides<T: PartialOrd>(
    a: LinearDeque<T>,
    b: LinearDeque<T>,
    prefix: Seq<T>,
    a_rest: Seq<T>,
    b_rest: Seq<T>,
)
    requires
        a@ == prefix + a_rest,
        b@ == prefix + b_rest,
        a_rest.len() > 0,
        b_rest.len() > 0,
        forall|i: int| 0 <= i < prefix.len() ==> (#[trigger] prefix[i]).partial_cmp_spec(&prefix[i])
            == Some(Ordering::Equal),
        a_rest[0].partial_cmp_spec(&b_rest[0]) != Some(Ordering::Equal),
    ensures
        PartialOrdSpec::partial_cmp_spec(&a, &b) == a_rest[0].partial_cmp_spec(&b_rest[0]),
{
    lemma_lex_common_prefix(prefix, a_rest, b_rest);
}

} // verus!
