//! Properties that relate the deque's operations to one another, stated over
//! the same spec functions their contracts use.
use vstd::prelude::*;
use vstd::std_specs::cmp::PartialEqSpec;
use crate::deque::{kept, LinearDeque};
use crate::layout::{grown_cap, reserve_back, reserve_front, spec_new_space, SetReservedSpace};

verus! {

/// Popping the front right after pushing `x` at the front hands back `x`
/// and leaves the elements as they were.
pub proof fn law_push_pop_front<T>(s: Seq<T>, x: T)
    ensures
        (seq![x] + s).len() > 0,
        (seq![x] + s)[0] == x,
        (seq![x] + s).drop_first() == s,
{
    assert((seq![x] + s).drop_first() =~= s);
}

/// Popping the back right after pushing `x` at the back hands back `x`
/// and leaves the elements as they were.
pub proof fn law_push_pop_back<T>(s: Seq<T>, x: T)
    ensures
        s.push(x).len() > 0,
        s.push(x).last() == x,
        s.push(x).drop_last() == s,
{
    assert(s.push(x).drop_last() =~= s);
}

/// Used as a queue, the deque is first-in first-out: popping the front
/// after pushing `x` at the back hands out the oldest element, which is `x`
/// only when the deque was empty, and `x` stays last.
pub proof fn law_fifo<T>(s: Seq<T>, x: T)
    ensures
        s.len() == 0 ==> s.push(x)[0] == x && s.push(x).drop_first() == s,
        s.len() > 0 ==> s.push(x)[0] == s[0] && s.push(x).drop_first() == s.drop_first().push(x),
{
    if s.len() == 0 {
        assert(s.push(x).drop_first() =~= s);
    } else {
        assert(s.push(x).drop_first() =~= s.drop_first().push(x));
    }
}

/// Reading bytes after writing `w` gives back the older bytes first and
/// then those of `w`: reading `k` bytes hands out the first `k` of the
/// old bytes followed by `w`, and leaves the rest.
pub proof fn law_write_then_read(s: Seq<u8>, w: Seq<u8>, k: int)
    requires
        0 <= k <= s.len() + w.len(),
    ensures
        (s + w).take(k) + (s + w).skip(k) == s + w,
        k <= s.len() ==> (s + w).take(k) == s.take(k),
        k >= s.len() ==> (s + w).take(k) == s + w.take(k - s.len()),
        k == s.len() + w.len() ==> (s + w).skip(k) == Seq::<u8>::empty(),
{
    assert((s + w).take(k) + (s + w).skip(k) =~= s + w);
    if k <= s.len() {
        assert((s + w).take(k) =~= s.take(k));
    }
    if k >= s.len() {
        assert((s + w).take(k) =~= s + w.take(k - s.len()));
    }
    if k == s.len() + w.len() {
        assert((s + w).skip(k) =~= Seq::<u8>::empty());
    }
}

/// Removing at `index` right after inserting `x` there hands back `x` and
/// leaves the elements as they were.
pub proof fn law_insert_remove<T>(s: Seq<T>, index: int, x: T)
    requires
        0 <= index <= s.len(),
    ensures
        index < s.insert(index, x).len(),
        s.insert(index, x)[index] == x,
        s.insert(index, x).remove(index) == s,
{
    assert(s.insert(index, x).remove(index) =~= s);
}

/// The elements after pushing each of `items`, in order, at the front.
pub open spec fn push_front_each<T>(s: Seq<T>, items: Seq<T>) -> Seq<T>
    decreases items.len(),
{
    if items.len() == 0 {
        s
    } else {
        push_front_each(seq![items[0]] + s, items.drop_first())
    }
}

/// The elements after pushing each of `items`, in order, at the back.
pub open spec fn push_back_each<T>(s: Seq<T>, items: Seq<T>) -> Seq<T>
    decreases items.len(),
{
    if items.len() == 0 {
        s
    } else {
        push_back_each(s.push(items[0]), items.drop_first())
    }
}

/// Extending at the front gives the elements that pushing each item at the
/// front, in order, gives: the items reversed, then the old elements.
pub proof fn law_extend_at_front_is_push_front_each<T>(s: Seq<T>, items: Seq<T>)
    ensures
        push_front_each(s, items) == items.reverse() + s,
    decreases items.len(),
{
    if items.len() > 0 {
        law_extend_at_front_is_push_front_each(seq![items[0]] + s, items.drop_first());
        assert(items.drop_first().reverse() + (seq![items[0]] + s) =~= items.reverse() + s);
    } else {
        assert(items.reverse() + s =~= s);
    }
}

/// Extending at the back gives the elements that pushing each item at the
/// back, in order, gives: the old elements, then the items.
pub proof fn law_extend_at_back_is_push_back_each<T>(s: Seq<T>, items: Seq<T>)
    ensures
        push_back_each(s, items) == s + items,
    decreases items.len(),
{
    if items.len() > 0 {
        law_extend_at_back_is_push_back_each(s.push(items[0]), items.drop_first());
        assert(s.push(items[0]) + items.drop_first() =~= s + items);
    } else {
        assert(s + items =~= s);
    }
}

/// Making room at the front always leaves at least `count` free slots
/// there, never shrinks the buffer, moves nothing when the room is already
/// there, and only grows the buffer when both ends together lack it.
pub proof fn law_reserve_front(front: nat, len: nat, back: nat, count: nat)
    ensures
        reserve_front(front, len, back, count).0 >= count,
        reserve_front(front, len, back, count).0 + len + reserve_front(front, len, back, count).1
            >= front + len + back,
        front >= count ==> reserve_front(front, len, back, count) == (front, back),
        front + back >= count ==> reserve_front(front, len, back, count).0 + reserve_front(
            front,
            len,
            back,
            count,
        ).1 == front + back,
        front + back < count ==> reserve_front(front, len, back, count).0 + len + reserve_front(
            front,
            len,
            back,
            count,
        ).1 == grown_cap(front, len, back, count),
{
}

/// Making room at the back always leaves at least `count` free slots
/// there, never shrinks the buffer, moves nothing when the room is already
/// there, and only grows the buffer when both ends together lack it.
pub proof fn law_reserve_back(front: nat, len: nat, back: nat, count: nat)
    ensures
        reserve_back(front, len, back, count).1 >= count,
        reserve_back(front, len, back, count).0 + len + reserve_back(front, len, back, count).1
            >= front + len + back,
        back >= count ==> reserve_back(front, len, back, count) == (front, back),
        front + back >= count ==> reserve_back(front, len, back, count).0 + reserve_back(
            front,
            len,
            back,
            count,
        ).1 == front + back,
        front + back < count ==> reserve_back(front, len, back, count).0 + len + reserve_back(
            front,
            len,
            back,
            count,
        ).1 == grown_cap(front, len, back, count),
{
}

/// A grown buffer has room for all the elements and `count` more, and at
/// least one slot more than before.
pub proof fn law_growth(front: nat, len: nat, back: nat, count: nat)
    ensures
        grown_cap(front, len, back, count) >= len + count,
        grown_cap(front, len, back, count) > front + len + back,
{
}

/// Asking for a space leaves `Keep` as it was, never goes below the
/// current space with `GrowTo` nor above it with `ShrinkTo`, and reaches
/// the asked size exactly with `Exact`.
pub proof fn law_new_space(current: usize, n: usize)
    ensures
        spec_new_space(current, SetReservedSpace::Keep) == current,
        spec_new_space(current, SetReservedSpace::GrowTo(n)) >= current,
        spec_new_space(current, SetReservedSpace::GrowTo(n)) >= n,
        spec_new_space(current, SetReservedSpace::ShrinkTo(n)) <= current,
        spec_new_space(current, SetReservedSpace::ShrinkTo(n)) <= n,
        spec_new_space(current, SetReservedSpace::Exact(n)) == n,
        spec_new_space(spec_new_space(current, SetReservedSpace::Exact(n)), SetReservedSpace::Keep)
            == n,
{
}

/// What `drain` hands out and what it leaves make up the old elements
/// again: the kept front, the drained range, then the kept back.
pub proof fn law_drain_partition<T>(s: Seq<T>, start: int, end: int)
    requires
        0 <= start <= end <= s.len(),
    ensures
        ({
            let remaining = s.subrange(0, start) + s.subrange(end, s.len() as int);
            let drained = s.subrange(start, end);
            &&& remaining.len() + drained.len() == s.len()
            &&& remaining.subrange(0, start) + drained + remaining.subrange(start, remaining.len() as int)
                == s
        }),
{
    let remaining = s.subrange(0, start) + s.subrange(end, s.len() as int);
    let drained = s.subrange(start, end);
    assert(remaining.subrange(0, start) + drained + remaining.subrange(start, remaining.len() as int)
        =~= s);
}

/// What truncating at the back keeps and what truncating at the front to
/// the remaining count keeps make up the elements again.
pub proof fn law_truncate_split<T>(s: Seq<T>, k: int)
    requires
        0 <= k <= s.len(),
    ensures
        s.subrange(0, k) + s.subrange(s.len() - (s.len() - k), s.len() as int) == s,
{
    assert(s.subrange(0, k) + s.subrange(k, s.len() as int) =~= s);
}

/// Keeping every element keeps them all, keeping none leaves nothing, and
/// what is kept is never longer than what was there.
pub proof fn law_kept<T>(s: Seq<T>, keep: Seq<bool>)
    requires
        keep.len() == s.len(),
    ensures
        kept(s, keep).len() <= s.len(),
        (forall|i: int| 0 <= i < keep.len() ==> keep[i]) ==> kept(s, keep) == s,
        (forall|i: int| 0 <= i < keep.len() ==> !keep[i]) ==> kept(s, keep) == Seq::<T>::empty(),
    decreases s.len(),
{
    if s.len() > 0 {
        let n = s.len() - 1;
        law_kept(s.drop_last(), keep.take(n as int));
        assert((forall|i: int| 0 <= i < keep.len() ==> keep[i]) ==> kept(s, keep) =~= s) by {
            if forall|i: int| 0 <= i < keep.len() ==> keep[i] {
                assert(forall|i: int| 0 <= i < n ==> #[trigger] keep.take(n as int)[i] == keep[i]);
                assert(s.drop_last().push(s.last()) =~= s);
            }
        }
        assert((forall|i: int| 0 <= i < keep.len() ==> !keep[i]) ==> kept(s, keep) =~= Seq::<T>::empty()) by {
            if forall|i: int| 0 <= i < keep.len() ==> !keep[i] {
                assert(forall|i: int| 0 <= i < n ==> #[trigger] keep.take(n as int)[i] == keep[i]);
            }
        }
    }
}

/// Only flagged elements are kept, in their original order: each kept
/// element is an element of the original at a flagged index, and later
/// kept elements come from later indices.
pub proof fn law_kept_order<T>(s: Seq<T>, keep: Seq<bool>)
    requires
        keep.len() == s.len(),
    ensures
        exists|idx: Seq<int>|
            {
                &&& idx.len() == kept(s, keep).len()
                &&& forall|j: int| 0 <= j < idx.len() ==> 0 <= #[trigger] idx[j] < s.len() && keep[idx[j]]
                    && kept(s, keep)[j] == s[idx[j]]
                &&& forall|j: int, k: int| 0 <= j < k < idx.len() ==> idx[j] < idx[k]
            },
    decreases s.len(),
{
    if s.len() == 0 {
        assert(kept(s, keep).len() == 0);
        let idx: Seq<int> = Seq::empty();
        assert(idx.len() == kept(s, keep).len());
    } else {
        let n = s.len() - 1;
        law_kept_order(s.drop_last(), keep.take(n as int));
        let idx0 = choose|idx: Seq<int>|
            {
                &&& idx.len() == kept(s.drop_last(), keep.take(n as int)).len()
                &&& forall|j: int|
                    0 <= j < idx.len() ==> 0 <= #[trigger] idx[j] < s.drop_last().len() && keep.take(
                        n as int,
                    )[idx[j]] && kept(s.drop_last(), keep.take(n as int))[j] == s.drop_last()[idx[j]]
                &&& forall|j: int, k: int| 0 <= j < k < idx.len() ==> idx[j] < idx[k]
            };
        if keep[n as int] {
            let idx = idx0.push(n as int);
            assert(forall|j: int| 0 <= j < idx.len() ==> 0 <= #[trigger] idx[j] < s.len() && keep[idx[j]]
                && kept(s, keep)[j] == s[idx[j]]) by {
                assert forall|j: int| 0 <= j < idx.len() implies 0 <= #[trigger] idx[j] < s.len()
                    && keep[idx[j]] && kept(s, keep)[j] == s[idx[j]] by {
                    if j < idx0.len() {
                        assert(idx[j] == idx0[j]);
                    }
                }
            }
            assert(idx.len() == kept(s, keep).len());
        } else {
            assert(forall|j: int| 0 <= j < idx0.len() ==> 0 <= #[trigger] idx0[j] < s.len() && keep[idx0[j]]
                && kept(s, keep)[j] == s[idx0[j]]);
        }
    }
}

/// A deque equals another deque, a vector, a slice or an array only if both
/// hold as many elements: no common prefix makes sequences of different
/// lengths equal.
pub proof fn law_eq_same_length<T: PartialEq<U>, U, const N: usize>(
    a: LinearDeque<T>,
    b: LinearDeque<U>,
    v: Vec<U>,
    s: &[U],
    arr: [U; N],
)
    ensures
        PartialEqSpec::eq_spec(&a, &b) ==> a@.len() == b@.len(),
        PartialEqSpec::eq_spec(&a, &v) ==> a@.len() == v@.len(),
        PartialEqSpec::eq_spec(&a, &s) ==> a@.len() == s@.len(),
        PartialEqSpec::eq_spec(&a, &arr) ==> a@.len() == N,
        PartialEqSpec::eq_spec(&a, &&arr) ==> a@.len() == N,
{
}

/// Where equality of elements is identity, a deque equals another deque, or
/// a vector, exactly when they hold the same sequence of elements.
pub proof fn law_eq_is_same_elements<T: PartialEq>(a: LinearDeque<T>, b: LinearDeque<T>, v: Vec<T>)
    requires
        forall|x: T, y: T| #[trigger] x.eq_spec(&y) <==> x == y,
    ensures
        PartialEqSpec::eq_spec(&a, &b) <==> a@ == b@,
        PartialEqSpec::eq_spec(&a, &v) <==> a@ == v@,
{
    if PartialEqSpec::eq_spec(&a, &b) {
        assert(a@ =~= b@) by {
            assert forall|i: int| 0 <= i < a@.len() implies a@[i] == b@[i] by {
                assert(a@[i].eq_spec(&b@[i]));
            }
        }
    }
    if a@ == b@ {
        assert forall|i: int| 0 <= i < a@.len() implies (#[trigger] a@[i]).eq_spec(&b@[i]) by {
            assert(a@[i] == b@[i]);
        }
    }
    if PartialEqSpec::eq_spec(&a, &v) {
        assert(a@ =~= v@) by {
            assert forall|i: int| 0 <= i < a@.len() implies a@[i] == v@[i] by {
                assert(a@[i].eq_spec(&v@[i]));
            }
        }
    }
    if a@ == v@ {
        assert forall|i: int| 0 <= i < a@.len() implies (#[trigger] a@[i]).eq_spec(&v@[i]) by {
            assert(a@[i] == v@[i]);
        }
    }
}

} // verus!
