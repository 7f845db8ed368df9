//! Account identifiers.
//!
//! An account identifier is an opaque fixed-width value with two parts,
//! a prefix and a suffix, each a canonical field element. Secondary
//! account identifiers are stored on chain inside value slots: the
//! trailing two components of the stored word carry the identifier, the
//! prefix in the last component and the suffix in the one before it.

use vstd::prelude::*;
use crate::field::{felt_wf, Word};

verus! {

/// A ledger account identifier.
#[derive(Clone, Copy, PartialEq, Eq, Structural, Debug)]
pub struct AccountId {
    pub prefix: u64,
    pub suffix: u64,
}

/// A well-formed identifier: both parts are canonical field elements and
/// the prefix, which carries the account's metadata bits, is non-zero.
pub open spec fn account_id_wf(id: AccountId) -> bool {
    felt_wf(id.prefix) && felt_wf(id.suffix) && id.prefix != 0
}

/// The identifier encoded in a stored word, read from its trailing two
/// components; meaningful only when the encoding is well-formed.
pub open spec fn decoded_account_id(w: Word) -> AccountId {
    AccountId { prefix: w.e3, suffix: w.e2 }
}

/// A stored word is a well-formed identifier encoding.
pub open spec fn account_encoding_wf(w: Word) -> bool {
    account_id_wf(decoded_account_id(w))
}

impl AccountId {
    /// Whether the identifier is well-formed.
    pub fn is_wf(&self) -> (r: bool)
        ensures
            r == account_id_wf(*self),
    {
        self.prefix < crate::field::FIELD_MODULUS && self.suffix < crate::field::FIELD_MODULUS
            && self.prefix != 0
    }
}

/// Reinterpret a stored word's trailing two components as an account
/// identifier, rejecting malformed encodings.
pub fn decode_account_id(w: Word) -> (r: Option<AccountId>)
    ensures
        r is Some <==> account_encoding_wf(w),
        r is Some ==> r->0 == decoded_account_id(w),
{
    let id = AccountId { prefix: w.e3, suffix: w.e2 };
    if id.is_wf() {
        Some(id)
    } else {
        None
    }
}

} // verus!
