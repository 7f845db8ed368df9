//! Note chain identities.
//!
//! A note's recipient is its cryptographic identity: a serial number
//! together with the script and the inputs that determine its spend
//! conditions. A chain of notes reuses script and inputs unchanged and
//! advances only the serial number, by exactly one on its last component,
//! so that a consumer can declare the successor's identity up front.
//!
//! A chain has exactly one legitimate advancer at a time: sharing one
//! chain's current recipient across concurrent callers needs external
//! mutual exclusion.

use vstd::prelude::*;
use crate::entropy::random_u64;
use crate::field::{felt_wf, word_wf, Word, FIELD_MODULUS};

verus! {

/// A note's identity: serial number, script (by its root digest), and
/// inputs.
#[derive(Clone, Debug)]
pub struct Recipient {
    pub serial: Word,
    pub script_root: Word,
    pub inputs: Vec<u64>,
}

/// Ghost view of a recipient.
pub ghost struct RecipientV {
    pub serial: Word,
    pub script_root: Word,
    pub inputs: Seq<u64>,
}

impl View for Recipient {
    type V = RecipientV;

    open spec fn view(&self) -> RecipientV {
        RecipientV { serial: self.serial, script_root: self.script_root, inputs: self.inputs@ }
    }
}

/// All parts of a recipient are canonical field elements.
pub open spec fn recipient_wf(r: RecipientV) -> bool {
    word_wf(r.serial) && word_wf(r.script_root) && forall|i: int|
        0 <= i < r.inputs.len() ==> felt_wf(#[trigger] r.inputs[i])
}

/// The serial number cannot be advanced further: its last component is
/// the largest field element.
pub open spec fn serial_exhausted(r: RecipientV) -> bool {
    r.serial.e3 == FIELD_MODULUS - 1
}

/// The successor identity in a chain: script and inputs unchanged, the
/// serial number's last component one greater.
pub open spec fn advanced(r: RecipientV) -> RecipientV {
    RecipientV {
        serial: Word { e3: (r.serial.e3 + 1) as u64, ..r.serial },
        script_root: r.script_root,
        inputs: r.inputs,
    }
}

/// Chain derivation failures.
#[derive(Clone, Copy, PartialEq, Eq, Structural, Debug)]
pub enum ChainError {
    /// A chain continuation was asked for with no predecessor note.
    MissingPredecessor,
    /// The serial number's last component has reached the end of the
    /// field; the chain cannot be extended.
    SerialOverflow,
}

/// Draw a fresh random serial number, reduced into the field.
pub fn draw_serial() -> (w: Word)
    ensures
        word_wf(w),
{
    Word {
        e0: crate::field::reduce(random_u64()),
        e1: crate::field::reduce(random_u64()),
        e2: crate::field::reduce(random_u64()),
        e3: crate::field::reduce(random_u64()),
    }
}

impl Recipient {
    /// Build the first identity of a chain from a freshly drawn serial
    /// number and the chain's script and inputs.
    pub fn build_initial(serial: Word, script_root: Word, inputs: Vec<u64>) -> (r: Recipient)
        ensures
            r@ == (RecipientV { serial, script_root, inputs: inputs@ }),
    {
        Recipient { serial, script_root, inputs }
    }

    /// Derive the successor identity: script and inputs are copied
    /// unchanged, and only the last component of the serial number is
    /// replaced by its increment. Fails exactly when that component has
    /// no successor in the field.
    pub fn advance(&self) -> (r: Result<Recipient, ChainError>)
        requires
            recipient_wf(self@),
        ensures
            match r {
                Ok(next) => !serial_exhausted(self@) && next@ == advanced(self@)
                    && recipient_wf(next@),
                Err(e) => e == ChainError::SerialOverflow && serial_exhausted(self@),
            },
    {
        if self.serial.e3 == FIELD_MODULUS - 1 {
            return Err(ChainError::SerialOverflow);
        }
        let next = Recipient {
            serial: Word { e3: self.serial.e3 + 1, ..self.serial },
            script_root: self.script_root,
            inputs: self.inputs.clone(),
        };
        assert(next@ == advanced(self@));
        Ok(next)
    }

    /// Whether every part of the identity is a canonical field
    /// element.
    pub fn is_wf(&self) -> (r: bool)
        ensures
            r == recipient_wf(self@),
    {
        if !self.serial.is_wf() || !self.script_root.is_wf() {
            return false;
        }
        let n: usize = self.inputs.len();
        let mut i: usize = 0;
        while i < n
            invariant
                0 <= i <= n,
                n == self.inputs@.len(),
                forall|k: int| 0 <= k < i ==> felt_wf(#[trigger] self.inputs@[k]),
            decreases n - i,
        {
            if !(self.inputs[i] < FIELD_MODULUS) {
                assert(!felt_wf(self@.inputs[i as int]));
                return false;
            }
            i += 1;
        }
        true
    }

    /// Whether two recipients are the same identity: same serial
    /// number, script, and inputs.
    pub fn eq_to(&self, other: &Recipient) -> (r: bool)
        ensures
            r == (self@ == other@),
    {
        if self.serial != other.serial || self.script_root != other.script_root {
            return false;
        }
        let n: usize = self.inputs.len();
        if n != other.inputs.len() {
            return false;
        }
        let mut i: usize = 0;
        while i < n
            invariant
                0 <= i <= n,
                n == self.inputs@.len(),
                n == other.inputs@.len(),
                forall|k: int| 0 <= k < i ==> self.inputs@[k] == other.inputs@[k],
            decreases n - i,
        {
            if self.inputs[i] != other.inputs[i] {
                return false;
            }
            i += 1;
        }
        assert(self.inputs@ =~= other.inputs@);
        true
    }

    /// A copy of this identity.
    pub fn duplicate(&self) -> (r: Recipient)
        ensures
            r@ == self@,
    {
        Recipient {
            serial: self.serial,
            script_root: self.script_root,
            inputs: self.inputs.clone(),
        }
    }
}

/// Chain determinism: advancing twice from any identity that stays in
/// range yields the same script and inputs, with the serial number's
/// last component exactly two greater; advancing never touches the
/// script, the inputs, or the other serial components.
pub proof fn lemma_advance_twice(r: RecipientV)
    requires
        r.serial.e3 + 2 < FIELD_MODULUS,
    ensures
        advanced(advanced(r)).script_root == r.script_root,
        advanced(advanced(r)).inputs == r.inputs,
        advanced(advanced(r)).serial.e0 == r.serial.e0,
        advanced(advanced(r)).serial.e1 == r.serial.e1,
        advanced(advanced(r)).serial.e2 == r.serial.e2,
        advanced(advanced(r)).serial.e3 == r.serial.e3 + 2,
{
}

} // verus!
