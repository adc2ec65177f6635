//! The bit pointer: a bit range over storage elements, packed in two words.

use vstd::prelude::*;
use core::marker::PhantomData;
use vstd::arithmetic::div_mod::{
    lemma_div_is_ordered,
    lemma_div_pos_is_pos,
    lemma_fundamental_div_mod,
    lemma_fundamental_div_mod_converse,
    lemma_mod_multiples_basic,
};
use vstd::arithmetic::mul::lemma_mul_inequality;
use crate::element::{Bits, is_element_width};

verus! {

/// A bit range over contiguous storage elements: `elts` elements starting at
/// address `base`, from bit `head` of the first element up to, and not
/// including, bit `tail` of the last.
pub struct BitSpan {
    pub base: int,
    pub elts: int,
    pub head: int,
    pub tail: int,
}

/// Why a bit range cannot be described by a bit pointer.
#[derive(Clone, Copy, Debug, PartialEq, Eq, Structural)]
pub enum BitPtrError {
    /// The range spans no element.
    NoElements,
    /// The head cursor is not inside an element.
    HeadOutOfRange { head: u8 },
    /// The tail cursor is zero or beyond the end of an element.
    TailOutOfRange { tail: u8 },
    /// A single element whose head cursor is not below its tail cursor.
    EmptyRange { head: u8, tail: u8 },
    /// The base address is not aligned to the element width.
    Misaligned { base: usize },
    /// The element count does not fit beside the cursors in the length word.
    TooManyElements { elts: usize },
}

/// The greatest element count that fits in the length word, beside the tail
/// cursor and the low three bits of the head cursor.
pub open spec fn max_elements(bits: int) -> int {
    usize::MAX as int / (8 * bits) + 1
}

/// The first reason, if any, for which `head` and `tail` cannot bound a bit
/// range over `elts` elements of `bits` bits.
pub open spec fn cursor_fault(bits: int, elts: int, head: u8, tail: u8) -> Option<BitPtrError> {
    if head >= bits {
        Some(BitPtrError::HeadOutOfRange { head })
    } else if tail == 0 || tail > bits {
        Some(BitPtrError::TailOutOfRange { tail })
    } else if elts == 1 && head >= tail {
        Some(BitPtrError::EmptyRange { head, tail })
    } else {
        None
    }
}

/// The first reason, if any, for which `(base, elts, head, tail)` is not a
/// bit range over elements of `bits` bits that a bit pointer can describe.
pub open spec fn span_fault(bits: int, base: usize, elts: usize, head: u8, tail: u8) -> Option<
    BitPtrError,
> {
    if elts == 0 {
        Some(BitPtrError::NoElements)
    } else if cursor_fault(bits, elts as int, head, tail) is Some {
        cursor_fault(bits, elts as int, head, tail)
    } else if base as int % (bits / 8) != 0 {
        Some(BitPtrError::Misaligned { base })
    } else if elts > max_elements(bits) {
        Some(BitPtrError::TooManyElements { elts })
    } else {
        None
    }
}

/// Whether `span` is a bit range over elements of `bits` bits that a bit
/// pointer can describe.
pub open spec fn valid_span(bits: int, span: BitSpan) -> bool {
    &&& 0 <= span.base <= usize::MAX
    &&& span.base % (bits / 8) == 0
    &&& 1 <= span.elts <= max_elements(bits)
    &&& 0 <= span.head < bits
    &&& 1 <= span.tail <= bits
    &&& span.elts == 1 ==> span.head < span.tail
}

/// The number of bits in `span`: what is left of the first element from the
/// head cursor on, every interior element in full, and the last element up
/// to the tail cursor.
pub open spec fn span_bits(bits: int, span: BitSpan) -> int {
    (span.elts - 1) * bits + span.tail - span.head
}

/// The two words that stand for `span`, pointer word first. The high bits of
/// the head cursor lie in the alignment bits of the address; its low three
/// bits, the tail cursor and the element count share the length word.
pub open spec fn pack(bits: int, span: BitSpan) -> (int, int) {
    (
        span.base + span.head / 8,
        (span.elts - 1) * (8 * bits) + (span.tail - 1) * 8 + span.head % 8,
    )
}

/// The bit range that the two words `(ptr, len)` stand for.
pub open spec fn unpack(bits: int, ptr: int, len: int) -> BitSpan {
    BitSpan {
        base: ptr - ptr % (bits / 8),
        elts: len / (8 * bits) + 1,
        head: (ptr % (bits / 8)) * 8 + len % 8,
        tail: (len / 8) % bits + 1,
    }
}

/// Packing is lossless: every valid bit range is what its two words unpack
/// to, and both words fit in a machine word.
pub proof fn lemma_round_trip(bits: int, span: BitSpan)
    requires
        is_element_width(bits),
        valid_span(bits, span),
    ensures
        unpack(bits, pack(bits, span).0, pack(bits, span).1) == span,
        0 <= pack(bits, span).0 <= usize::MAX,
        0 <= pack(bits, span).1 <= usize::MAX,
{
    let m = usize::MAX as int;
    assert(m == 0xffff_ffff || m == 0xffff_ffff_ffff_ffff);
    if bits == 8 {
        lemma_words(1, 64, m, span.base, span.elts - 1, span.tail - 1, span.head);
    } else if bits == 16 {
        lemma_words(2, 128, m, span.base, span.elts - 1, span.tail - 1, span.head);
    } else if bits == 32 {
        lemma_words(4, 256, m, span.base, span.elts - 1, span.tail - 1, span.head);
    } else {
        lemma_words(8, 512, m, span.base, span.elts - 1, span.tail - 1, span.head);
    }
}

/// The arithmetic behind the packing, for an element of `a` bytes whose
/// cursors take `w / 8` values in the length word.
proof fn lemma_words(a: int, w: int, m: int, base: int, e: int, t: int, h: int)
    requires
        (a == 1 && w == 64) || (a == 2 && w == 128) || (a == 4 && w == 256) || (a == 8 && w
            == 512),
        m == 0xffff_ffff || m == 0xffff_ffff_ffff_ffff,
        0 <= base <= m,
        base % a == 0,
        0 <= e <= m / w,
        0 <= t < 8 * a,
        0 <= h < 8 * a,
    ensures
        0 <= base + h / 8 <= m,
        0 <= e * w + t * 8 + h % 8 <= m,
        (base + h / 8) % a == h / 8,
        (e * w + t * 8 + h % 8) / w == e,
        (e * w + t * 8 + h % 8) % 8 == h % 8,
        ((e * w + t * 8 + h % 8) / 8) % (8 * a) == t,
        (h / 8) * 8 + h % 8 == h,
{
    let low = t * 8 + h % 8;
    let len = e * w + low;
    assert(w == 64 * a && 0 <= low < w);
    assert(m % w == w - 1 && m % a == a - 1);
    // the element count sits above the cursors
    lemma_fundamental_div_mod_converse(len, w, e, low);
    // the low three bits of the head cursor are the lowest of the length word
    assert(e * w == (e * (8 * a)) * 8) by (nonlinear_arith)
        requires
            w == 64 * a,
    ;
    lemma_fundamental_div_mod_converse(len, 8, e * (8 * a) + t, h % 8);
    // the tail cursor sits between them
    lemma_fundamental_div_mod_converse(len / 8, 8 * a, e, t);
    // the high bits of the head cursor are the alignment bits of the address
    lemma_fundamental_div_mod(base, a);
    assert(base == (base / a) * a) by (nonlinear_arith)
        requires
            base == a * (base / a) + base % a,
            base % a == 0,
    ;
    lemma_fundamental_div_mod_converse(base + h / 8, a, base / a, h / 8);
    // neither word overflows
    lemma_fundamental_div_mod(m, w);
    lemma_mul_inequality(e, m / w, w);
    assert((m / w) * w == w * (m / w)) by (nonlinear_arith);
    lemma_fundamental_div_mod(m, a);
    lemma_div_is_ordered(base, m, a);
    lemma_mul_inequality(base / a, m / a, a);
    assert((m / a) * a == a * (m / a)) by (nonlinear_arith);
}

/// Any two words unpack to a bit range that is valid but for the rule on a
/// single element.
pub proof fn lemma_unpack_in_range(bits: int, ptr: int, len: int)
    requires
        is_element_width(bits),
        0 <= ptr <= usize::MAX,
        0 <= len <= usize::MAX,
    ensures
        0 <= unpack(bits, ptr, len).base <= ptr,
        unpack(bits, ptr, len).base % (bits / 8) == 0,
        1 <= unpack(bits, ptr, len).elts <= max_elements(bits),
        0 <= unpack(bits, ptr, len).head < bits,
        1 <= unpack(bits, ptr, len).tail <= bits,
        max_elements(bits) <= usize::MAX,
{
    let a = bits / 8;
    let m = usize::MAX as int;
    assert(m / (8 * bits) < m) by {
        if bits == 8 {
            assert(m / 64 < m);
        } else if bits == 16 {
            assert(m / 128 < m);
        } else if bits == 32 {
            assert(m / 256 < m);
        } else {
            assert(m / 512 < m);
        }
    }
    lemma_fundamental_div_mod(ptr, a);
    lemma_mod_multiples_basic(ptr / a, a);
    assert(a * (ptr / a) == (ptr / a) * a) by (nonlinear_arith);
    lemma_div_is_ordered(len, usize::MAX as int, 8 * bits);
    lemma_div_pos_is_pos(len, 8 * bits);
}

/// The bit range `(base, elts, head, tail)`.
pub open spec fn span_of(base: usize, elts: usize, head: u8, tail: u8) -> BitSpan {
    BitSpan { base: base as int, elts: elts as int, head: head as int, tail: tail as int }
}

/// A bit range over elements of type `T`, held in two machine words.
#[derive(Debug)]
pub struct BitPtr<T: Bits> {
    ptr: usize,
    len: usize,
    _ty: PhantomData<T>,
}

impl<T: Bits> View for BitPtr<T> {
    type V = BitSpan;

    closed spec fn view(&self) -> BitSpan {
        unpack(T::spec_size(), self.ptr as int, self.len as int)
    }
}

impl<T: Bits> Clone for BitPtr<T> {
    fn clone(&self) -> (p: Self)
        ensures
            p@ == self@,
            p.words() == self.words(),
    {
        proof {
            use_type_invariant(self);
        }
        BitPtr { ptr: self.ptr, len: self.len, _ty: PhantomData }
    }
}

impl<T: Bits> Copy for BitPtr<T> {

}

impl<T: Bits> BitPtr<T> {
    #[verifier::type_invariant]
    spec fn single_element_not_empty(self) -> bool {
        self@.elts == 1 ==> self@.head < self@.tail
    }

    /// The two words of the pointer, pointer word first.
    pub closed spec fn words(&self) -> (int, int) {
        (self.ptr as int, self.len as int)
    }

    /// Packs a valid bit range.
    fn encode(base: usize, elts: usize, head: u8, tail: u8) -> (p: Self)
        requires
            valid_span(T::spec_size(), span_of(base, elts, head, tail)),
        ensures
            p@ == span_of(base, elts, head, tail),
            p.words() == pack(T::spec_size(), span_of(base, elts, head, tail)),
    {
        let bits: usize = T::size() as usize;
        proof {
            T::lemma_size();
            lemma_round_trip(T::spec_size(), span_of(base, elts, head, tail));
            lemma_words(
                T::spec_size() / 8,
                8 * T::spec_size(),
                usize::MAX as int,
                base as int,
                elts - 1,
                tail - 1,
                head as int,
            );
            assert((elts - 1) * (8 * bits) >= 0) by (nonlinear_arith)
                requires
                    elts >= 1,
                    bits >= 8,
            ;
        }
        let ptr: usize = base + (head / 8) as usize;
        let len: usize = (elts - 1) * (8 * bits) + ((tail - 1) as usize) * 8 + (head % 8) as usize;
        BitPtr { ptr, len, _ty: PhantomData }
    }

    /// Describes the bit range `(base, elts, head, tail)`.
    pub fn new(base: usize, elts: usize, head: u8, tail: u8) -> (p: Self)
        requires
            valid_span(T::spec_size(), span_of(base, elts, head, tail)),
        ensures
            p@ == span_of(base, elts, head, tail),
            p.words() == pack(T::spec_size(), p@),
    {
        Self::encode(base, elts, head, tail)
    }

    /// Describes the bit range `(base, elts, head, tail)`, or says why it is
    /// not one.
    pub fn try_new(base: usize, elts: usize, head: u8, tail: u8) -> (r: Result<Self, BitPtrError>)
        ensures
            match span_fault(T::spec_size(), base, elts, head, tail) {
                Some(e) => r matches Err(x) && x == e,
                None => r matches Ok(p) && p@ == span_of(base, elts, head, tail) && p.words()
                    == pack(T::spec_size(), p@),
            },
    {
        let bits: u8 = T::size();
        proof {
            T::lemma_size();
        }
        if elts == 0 {
            Err(BitPtrError::NoElements)
        } else if head >= bits {
            Err(BitPtrError::HeadOutOfRange { head })
        } else if tail == 0 || tail > bits {
            Err(BitPtrError::TailOutOfRange { tail })
        } else if elts == 1 && head >= tail {
            Err(BitPtrError::EmptyRange { head, tail })
        } else if base % ((bits / 8) as usize) != 0 {
            Err(BitPtrError::Misaligned { base })
        } else if elts - 1 > usize::MAX / (8 * (bits as usize)) {
            Err(BitPtrError::TooManyElements { elts })
        } else {
            Ok(Self::encode(base, elts, head, tail))
        }
    }

    /// The bit range as `(base, elts, head, tail)`.
    pub fn raw_parts(&self) -> (parts: (usize, usize, u8, u8))
        ensures
            span_of(parts.0, parts.1, parts.2, parts.3) == self@,
            valid_span(T::spec_size(), self@),
    {
        let bits: usize = T::size() as usize;
        proof {
            use_type_invariant(self);
            T::lemma_size();
            lemma_unpack_in_range(T::spec_size(), self.ptr as int, self.len as int);
        }
        let low: usize = self.ptr % (bits / 8);
        let base: usize = self.ptr - low;
        let elts: usize = self.len / (8 * bits) + 1;
        let head: usize = low * 8 + self.len % 8;
        let tail: usize = (self.len / 8) % bits + 1;
        (base, elts, head as u8, tail as u8)
    }

    /// The same elements with other cursors; `self` stays as it is.
    pub fn narrow(&self, head: u8, tail: u8) -> (p: Self)
        requires
            cursor_fault(T::spec_size(), self@.elts, head, tail) is None,
        ensures
            p@ == (BitSpan { head: head as int, tail: tail as int, ..self@ }),
            p.words() == pack(T::spec_size(), p@),
    {
        let (base, elts, _, _) = self.raw_parts();
        Self::encode(base, elts, head, tail)
    }

    /// The same elements with other cursors, or the reason for which the
    /// cursors do not bound a bit range over them; `self` stays as it is.
    pub fn try_narrow(&self, head: u8, tail: u8) -> (r: Result<Self, BitPtrError>)
        ensures
            match cursor_fault(T::spec_size(), self@.elts, head, tail) {
                Some(e) => r matches Err(x) && x == e,
                None => r matches Ok(p) && p@ == (BitSpan {
                    head: head as int,
                    tail: tail as int,
                    ..self@
                }) && p.words() == pack(T::spec_size(), p@),
            },
    {
        let (base, elts, _, _) = self.raw_parts();
        Self::try_new(base, elts, head, tail)
    }

    /// The address of the first element.
    pub fn pointer(&self) -> (base: usize)
        ensures
            base == self@.base,
    {
        self.raw_parts().0
    }

    /// The number of elements that the range touches.
    pub fn elements(&self) -> (elts: usize)
        ensures
            elts == self@.elts,
    {
        self.raw_parts().1
    }

    /// The first bit of the range, counted in the first element.
    pub fn head(&self) -> (head: u8)
        ensures
            head == self@.head,
    {
        self.raw_parts().2
    }

    /// The end of the range, counted in the last element.
    pub fn tail(&self) -> (tail: u8)
        ensures
            tail == self@.tail,
    {
        self.raw_parts().3
    }

    /// The number of bits in the range.
    pub fn len(&self) -> (n: usize)
        ensures
            n == span_bits(T::spec_size(), self@),
            n >= 1,
    {
        let bits: usize = T::size() as usize;
        let (_, elts, head, tail) = self.raw_parts();
        proof {
            T::lemma_size();
            let m = usize::MAX as int;
            lemma_fundamental_div_mod(m, 8 * bits);
            lemma_mul_inequality(elts - 1, m / (8 * bits), 8 * bits);
            assert((8 * bits) * (m / (8 * bits)) == (m / (8 * bits)) * (8 * bits))
                by (nonlinear_arith);
            assert((elts - 1) * (8 * bits) == 8 * ((elts - 1) * bits)) by (nonlinear_arith);
            assert((elts - 1) * bits >= 0) by (nonlinear_arith)
                requires
                    elts >= 1,
                    bits >= 8,
            ;
            assert(elts > 1 ==> (elts - 1) * bits >= bits) by (nonlinear_arith)
                requires
                    elts >= 1,
                    bits >= 8,
            ;
        }
        (elts - 1) * bits + (tail as usize) - (head as usize)
    }
}

/// Over a single element, cursors inside the element are refused exactly
/// when the head cursor is not below the tail cursor.
pub proof fn lemma_single_element(bits: int, base: usize, head: u8, tail: u8)
    requires
        is_element_width(bits),
        base as int % (bits / 8) == 0,
        0 <= head < bits,
        1 <= tail <= bits,
    ensures
        span_fault(bits, base, 1, head, tail) is None <==> head < tail,
        head >= tail ==> span_fault(bits, base, 1, head, tail) == Some(
            BitPtrError::EmptyRange { head, tail },
        ),
{
    lemma_unpack_in_range(bits, 0, 0);
}

/// No fault is found in a bit range exactly when it is valid.
pub proof fn lemma_no_fault_iff_valid(bits: int, base: usize, elts: usize, head: u8, tail: u8)
    requires
        is_element_width(bits),
    ensures
        span_fault(bits, base, elts, head, tail) is None <==> valid_span(
            bits,
            span_of(base, elts, head, tail),
        ),
{
}

} // verus!
