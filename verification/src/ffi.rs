//! What crosses the foreign boundary: the three-valued answer, the check of
//! pointer arguments, and the cursor that a foreign caller installs.

use vstd::prelude::*;
use vstd::std_specs::convert::FromSpecImpl;
use crate::cursor::is_bijection;
use crate::element::{Bits, is_element_width};

verus! {

/// A boolean answer, or the failure to give one, for callers whose language
/// has no optional values.
#[derive(Clone, Copy, Debug, PartialEq, Eq, Structural, PartialOrd, Ord)]
pub enum Tristate {
    /// The operation failed in a way that cannot be told across the boundary.
    Error,
    /// The operation succeeded and answered `false`.
    False,
    /// The operation succeeded and answered `true`.
    True,
}

/// The answer that stands for `opt` across the boundary.
pub open spec fn tristate_of(opt: Option<bool>) -> Tristate {
    match opt {
        Some(true) => Tristate::True,
        Some(false) => Tristate::False,
        None => Tristate::Error,
    }
}

impl From<bool> for Tristate {
    fn from(bit: bool) -> (t: Self) {
        if bit {
            Tristate::True
        } else {
            Tristate::False
        }
    }
}

impl FromSpecImpl<bool> for Tristate {
    open spec fn obeys_from_spec() -> bool {
        true
    }

    open spec fn from_spec(bit: bool) -> Self {
        tristate_of(Some(bit))
    }
}

impl From<Option<bool>> for Tristate {
    fn from(opt: Option<bool>) -> (t: Self) {
        match opt {
            Some(bit) => Tristate::from(bit),
            None => Tristate::Error,
        }
    }
}

impl FromSpecImpl<Option<bool>> for Tristate {
    open spec fn obeys_from_spec() -> bool {
        true
    }

    open spec fn from_spec(opt: Option<bool>) -> Self {
        tristate_of(opt)
    }
}

impl Tristate {
    /// The integer that a foreign caller sees.
    pub open spec fn spec_code(self) -> int {
        match self {
            Tristate::Error => -1,
            Tristate::False => 0,
            Tristate::True => 1,
        }
    }

    /// The integer that a foreign caller sees: -1 for failure, 0 for
    /// `false`, 1 for `true`.
    pub fn code(self) -> (c: i8)
        ensures
            c == self.spec_code(),
    {
        match self {
            Tristate::Error => -1,
            Tristate::False => 0,
            Tristate::True => 1,
        }
    }
}

/// A definite answer never turns into the failure value, and only the
/// absence of an answer does; `true` and `false` stay apart.
pub proof fn lemma_tristate_fidelity(opt: Option<bool>)
    ensures
        tristate_of(opt) == Tristate::Error <==> opt is None,
        tristate_of(opt) == Tristate::True <==> opt == Some(true),
        tristate_of(opt) == Tristate::False <==> opt == Some(false),
{
}

/// Whether one of `ptrs`, the addresses that a foreign caller handed over,
/// is null.
pub open spec fn has_null(ptrs: Seq<usize>) -> bool {
    exists|i: int| 0 <= i < ptrs.len() && ptrs[i] == 0
}

/// Whether one of the addresses that a foreign caller handed over is null.
pub fn any_null(ptrs: &[usize]) -> (null: bool)
    ensures
        null == has_null(ptrs@),
{
    let mut i: usize = 0;
    while i < ptrs.len()
        invariant
            0 <= i <= ptrs@.len(),
            forall|j: int| 0 <= j < i ==> ptrs@[j] != 0,
        decreases ptrs@.len() - i,
    {
        if ptrs[i] == 0 {
            return true;
        }
        i += 1;
    }
    false
}

/// The frame of an entry point that takes pointers: the addresses are
/// looked at before anything else, and if one of them is null the entry
/// point answers `failure` and `work` never runs. `work` needs to be callable
/// only when every address is present.
pub fn null_checked<R, W: FnOnce() -> R>(ptrs: &[usize], failure: R, work: W) -> (out: R)
    requires
        !has_null(ptrs@) ==> call_requires(work, ()),
    ensures
        has_null(ptrs@) ==> out == failure,
        !has_null(ptrs@) ==> call_ensures(work, (), out),
{
    if any_null(ptrs) {
        return failure;
    }
    work()
}

/// A cursor whose rule the foreign caller supplies: a total function from
/// logical index to physical position.
pub struct FfiCursor<F: Fn(u8) -> u8> {
    at: F,
}

impl<F: Fn(u8) -> u8> FfiCursor<F> {
    /// The caller's function.
    pub closed spec fn mapping(&self) -> F {
        self.at
    }

    /// Wraps the caller's function.
    pub fn new(at: F) -> (cursor: Self)
        ensures
            cursor.mapping() == at,
    {
        FfiCursor { at }
    }

    /// The position at which the caller's function places `idx` in an
    /// element of type `T`.
    pub fn at<T: Bits>(&self, idx: u8) -> (pos: u8)
        requires
            idx < T::spec_size(),
            call_requires(self.mapping(), (idx,)),
        ensures
            call_ensures(self.mapping(), (idx,), pos),
    {
        (self.at)(idx)
    }
}

/// The one slot that holds the foreign cursor. Whoever holds the registry
/// exclusively may install; resolving needs it shared.
pub struct Registry<F: Fn(u8) -> u8> {
    slot: Option<FfiCursor<F>>,
}

impl<F: Fn(u8) -> u8> Registry<F> {
    /// The function that is installed, if one is.
    pub closed spec fn installed(&self) -> Option<F> {
        match self.slot {
            Some(cursor) => Some(cursor.mapping()),
            None => None,
        }
    }

    /// Whether resolving `idx` may give `pos`: through the installed
    /// function if there is one, else `idx` itself.
    pub open spec fn resolves(&self, idx: u8, pos: u8) -> bool {
        match self.installed() {
            Some(f) => call_ensures(f, (idx,), pos),
            None => pos == idx,
        }
    }

    /// A registry with nothing installed.
    pub fn new() -> (registry: Self)
        ensures
            registry.installed() is None,
    {
        Registry { slot: None }
    }

    /// Installs `func` in place of whatever was installed, or clears the
    /// slot.
    pub fn install(&mut self, func: Option<F>)
        ensures
            final(self).installed() == func,
    {
        self.slot = match func {
            Some(f) => Some(FfiCursor::new(f)),
            None => None,
        };
    }

    /// The position of logical index `idx` in an element of type `T`.
    pub fn resolve<T: Bits>(&self, idx: u8) -> (pos: u8)
        requires
            idx < T::spec_size(),
            self.installed() matches Some(f) ==> call_requires(f, (idx,)),
        ensures
            self.resolves(idx, pos),
    {
        match &self.slot {
            Some(cursor) => cursor.at::<T>(idx),
            None => idx,
        }
    }
}

/// Sets the foreign cursor of `registry` to `func`, or clears it.
pub fn bitvec_set_ffi_cursor<F: Fn(u8) -> u8>(registry: &mut Registry<F>, func: Option<F>)
    ensures
        final(registry).installed() == func,
{
    registry.install(func);
}

/// Resolving through the registry follows a bijection whenever the installed
/// function does: with nothing installed it is the identity, and with a
/// function installed that computes the bijection `rule` on the bits of an
/// element, every answer is the one `rule` gives.
pub proof fn lemma_registry_bijection<F: Fn(u8) -> u8>(
    registry: Registry<F>,
    bits: int,
    rule: spec_fn(int) -> int,
)
    requires
        is_element_width(bits),
        registry.installed() matches Some(f) ==> is_bijection(bits, rule) && forall|
            idx: u8,
            pos: u8,
        |
            idx < bits && call_ensures(f, (idx,), pos) ==> pos == rule(idx as int),
    ensures
        ({
            let strategy = if registry.installed() is Some {
                rule
            } else {
                |i: int| i
            };
            &&& is_bijection(bits, strategy)
            &&& forall|idx: u8, pos: u8|
                idx < bits && #[trigger] registry.resolves(idx, pos) ==> pos == strategy(
                    idx as int,
                ) && pos < bits
        }),
{
    if registry.installed() is None {
        let id = |i: int| i;
        assert forall|pos: int| 0 <= pos < bits implies #[trigger] crate::cursor::reaches(
            bits,
            id,
            pos,
        ) by {
            assert(id(pos) == pos);
        }
    }
}

} // verus!
