//! Cursor strategies: where in a storage element a logical bit index lies.

use vstd::prelude::*;
use crate::element::{Bits, is_element_width};

verus! {

/// Whether some logical index below `bits` is placed at position `pos` by `f`.
pub open spec fn reaches(bits: int, f: spec_fn(int) -> int, pos: int) -> bool {
    exists|i: int| 0 <= i < bits && #[trigger] f(i) == pos
}

/// Whether `f` is a bijection on `[0, bits)`: every index below `bits` goes to
/// a position below `bits`, no two indices share a position, and every
/// position is reached.
pub open spec fn is_bijection(bits: int, f: spec_fn(int) -> int) -> bool {
    &&& forall|i: int| 0 <= i < bits ==> 0 <= #[trigger] f(i) < bits
    &&& forall|i: int, j: int|
        0 <= i < bits && 0 <= j < bits && #[trigger] f(i) == #[trigger] f(j) ==> i == j
    &&& forall|pos: int| 0 <= pos < bits ==> #[trigger] reaches(bits, f, pos)
}

/// A rule of the program's choosing that places each logical bit index of an
/// element at a physical bit position.
pub trait Cursor {
    /// The position of logical index `idx` in an element of `bits` bits.
    spec fn spec_at(bits: int, idx: int) -> int;

    /// A cursor is a bijection on the bits of every element width.
    proof fn lemma_bijection(bits: int)
        requires
            is_element_width(bits),
        ensures
            is_bijection(bits, |i: int| Self::spec_at(bits, i)),
    ;

    /// The position of logical index `idx` in an element of type `T`.
    fn at<T: Bits>(idx: u8) -> (pos: u8)
        requires
            idx < T::spec_size(),
        ensures
            pos == Self::spec_at(T::spec_size(), idx as int),
            pos < T::spec_size(),
    ;
}

/// The first logical bit is the lowest physical bit.
pub struct Ascending;

/// The first logical bit is the highest physical bit.
pub struct Descending;

impl Cursor for Ascending {
    open spec fn spec_at(bits: int, idx: int) -> int {
        idx
    }

    proof fn lemma_bijection(bits: int) {
        let f = |i: int| Self::spec_at(bits, i);
        assert forall|pos: int| 0 <= pos < bits implies #[trigger] reaches(bits, f, pos) by {
            assert(f(pos) == pos);
        }
    }

    fn at<T: Bits>(idx: u8) -> (pos: u8) {
        idx
    }
}

impl Cursor for Descending {
    open spec fn spec_at(bits: int, idx: int) -> int {
        bits - 1 - idx
    }

    proof fn lemma_bijection(bits: int) {
        let f = |i: int| Self::spec_at(bits, i);
        assert forall|pos: int| 0 <= pos < bits implies #[trigger] reaches(bits, f, pos) by {
            assert(f(bits - 1 - pos) == pos);
        }
    }

    fn at<T: Bits>(idx: u8) -> (pos: u8) {
        T::size() - 1 - idx
    }
}

} // verus!
