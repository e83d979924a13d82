//! The arithmetic of a linear buffer: how much free room lies before and
//! after the stored elements, and where the elements go when one end needs
//! more room.
use vstd::prelude::*;

verus! {

/// Whether values of `T` occupy no memory. Such values need no buffer, so a
/// deque of them reports unlimited room at both ends.
pub open spec fn spec_is_zst<T>() -> bool {
    vstd::layout::size_of::<T>() == 0
}

pub(crate) fn is_zst<T>() -> (r: bool)
    ensures
        r == spec_is_zst::<T>(),
{
    core::mem::size_of::<T>() == 0
}

/// The larger of `a` and `b`.
pub open spec fn max_nat(a: nat, b: nat) -> nat {
    if a >= b {
        a
    } else {
        b
    }
}

/// The amount by which a full buffer grows: its element count, at least one.
pub open spec fn growth(len: nat) -> nat {
    if len > 1 {
        len
    } else {
        1
    }
}

/// The capacity of the new buffer when neither end nor both ends together
/// have room for `count` more elements.
pub open spec fn grown_cap(front: nat, len: nat, back: nat, count: nat) -> nat {
    if count > front + back + growth(len) {
        len + count
    } else {
        front + len + back + growth(len)
    }
}

/// Whether making room for `count` elements keeps the capacity within `usize`.
pub open spec fn reserve_fits(front: nat, len: nat, back: nat, count: nat) -> bool {
    front + back >= count || grown_cap(front, len, back, count) <= usize::MAX
}

/// The free room `(front, back)` after room for `count` elements is made at
/// the front: nothing moves when the front already has it; otherwise the
/// elements move so that the free room is split evenly after counting `count`
/// for the front, or, when the whole buffer lacks it, the buffer grows and
/// all its free room goes to the front.
pub open spec fn reserve_front(front: nat, len: nat, back: nat, count: nat) -> (nat, nat) {
    if front >= count {
        (front, back)
    } else if front + back >= count {
        let f = (front + back + count) / 2;
        (f, (front + back - f) as nat)
    } else {
        ((grown_cap(front, len, back, count) - len) as nat, 0)
    }
}

/// The free room `(front, back)` after room for `count` elements is made at
/// the back; the mirror image of `reserve_front`.
pub open spec fn reserve_back(front: nat, len: nat, back: nat, count: nat) -> (nat, nat) {
    if back >= count {
        (front, back)
    } else if front + back >= count {
        let f = ((front + back - count) / 2) as nat;
        (f, (front + back - f) as nat)
    } else {
        (0, (grown_cap(front, len, back, count) - len) as nat)
    }
}

/// Defines what happens to the reserved space of one of the deque ends on a call
/// to `set_reserved_space`.
#[derive(Clone, Copy, PartialEq, Eq, Debug)]
pub enum SetReservedSpace {
    /// The reserved space is not changed.
    Keep,
    /// The reserved space is shrunk to the specified size.
    ///
    /// If the current space is less than the wanted size, then this is a no-op.
    ShrinkTo(usize),
    /// The reserved space is grown to the specified size.
    ///
    /// If the current space is greater than the wanted size, then this is a no-op.
    GrowTo(usize),
    /// The reserved space is unconditionally changed to the specified size.
    Exact(usize),
}

/// The reserved space that `set` asks for, given the `current` one.
pub open spec fn spec_new_space(current: usize, set: SetReservedSpace) -> usize {
    match set {
        SetReservedSpace::Keep => current,
        SetReservedSpace::ShrinkTo(n) => if current <= n { current } else { n },
        SetReservedSpace::GrowTo(n) => if current >= n { current } else { n },
        SetReservedSpace::Exact(n) => n,
    }
}

pub(crate) fn new_space(current: usize, set: SetReservedSpace) -> (r: usize)
    ensures
        r == spec_new_space(current, set),
{
    match set {
        SetReservedSpace::Keep => current,
        SetReservedSpace::ShrinkTo(n) => if current <= n { current } else { n },
        SetReservedSpace::GrowTo(n) => if current >= n { current } else { n },
        SetReservedSpace::Exact(n) => n,
    }
}

} // verus!
