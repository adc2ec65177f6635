//! Storage elements and their widths.

use vstd::prelude::*;

verus! {

/// Whether `n` is a supported element width in bits.
pub open spec fn is_element_width(n: int) -> bool {
    n == 8 || n == 16 || n == 32 || n == 64
}

/// A storage element: an unsigned integer type of fixed width.
pub trait Bits: Sized {
    /// The number of bits in one element.
    spec fn spec_size() -> int;

    /// Every element is 8, 16, 32 or 64 bits wide.
    proof fn lemma_size()
        ensures
            is_element_width(Self::spec_size()),
    ;

    /// The number of bits in one element.
    fn size() -> (n: u8)
        ensures
            n as int == Self::spec_size(),
    ;
}

impl Bits for u8 {
    open spec fn spec_size() -> int {
        8
    }

    proof fn lemma_size() {
    }

    fn size() -> (n: u8) {
        8
    }
}

impl Bits for u16 {
    open spec fn spec_size() -> int {
        16
    }

    proof fn lemma_size() {
    }

    fn size() -> (n: u8) {
        16
    }
}

impl Bits for u32 {
    open spec fn spec_size() -> int {
        32
    }

    proof fn lemma_size() {
    }

    fn size() -> (n: u8) {
        32
    }
}

impl Bits for u64 {
    open spec fn spec_size() -> int {
        64
    }

    proof fn lemma_size() {
    }

    fn size() -> (n: u8) {
        64
    }
}

} // verus!
