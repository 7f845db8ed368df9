//! The base field and four-element words.
//!
//! Ledger values are elements of the prime field with modulus
//! `2^64 - 2^32 + 1`; a word is a fixed vector of four field elements.
//! Storage projections may carry arbitrary 64-bit components, so a word
//! carries no inherent invariant: well-formedness is a separate predicate
//! demanded only where true field elements are needed.

use vstd::prelude::*;

verus! {

/// The modulus of the base field: `2^64 - 2^32 + 1`.
pub const FIELD_MODULUS: u64 = 0xffff_ffff_0000_0001;

/// Whether a 64-bit value is a canonical field element.
pub open spec fn felt_wf(x: u64) -> bool {
    x < FIELD_MODULUS
}

/// A word: four 64-bit components, index 0 first.
#[derive(Clone, Copy, PartialEq, Eq, Structural, Debug)]
pub struct Word {
    pub e0: u64,
    pub e1: u64,
    pub e2: u64,
    pub e3: u64,
}

/// Whether every component of a word is a canonical field element.
pub open spec fn word_wf(w: Word) -> bool {
    felt_wf(w.e0) && felt_wf(w.e1) && felt_wf(w.e2) && felt_wf(w.e3)
}

impl Word {
    /// The all-zero word.
    pub fn zero() -> (w: Word)
        ensures
            w == (Word { e0: 0, e1: 0, e2: 0, e3: 0 }),
            word_wf(w),
    {
        Word { e0: 0, e1: 0, e2: 0, e3: 0 }
    }

    /// Whether every component is a canonical field element.
    pub fn is_wf(&self) -> (r: bool)
        ensures
            r == word_wf(*self),
    {
        self.e0 < FIELD_MODULUS && self.e1 < FIELD_MODULUS && self.e2 < FIELD_MODULUS
            && self.e3 < FIELD_MODULUS
    }
}

/// Reduce an arbitrary 64-bit value into the field.
pub fn reduce(x: u64) -> (r: u64)
    ensures
        r == x as int % FIELD_MODULUS as int,
        felt_wf(r),
{
    x % FIELD_MODULUS
}

} // verus!
