//! Content digests over sequences of field elements.
//!
//! The ledger's content commitments are RPO-256 digests of field-element
//! sequences. The digest itself is computed by the outside crate; here it
//! is given a name, `rpo_digest_of`, and the wrapper's contract ties the
//! executable call to that name.

use vstd::prelude::*;
use crate::field::{felt_wf, word_wf, Word};

verus! {

/// The RPO-256 digest of a sequence of canonical field elements, as four
/// canonical field elements. The digest is a function of the elements
/// alone; no short statement pins its value.
pub uninterp spec fn rpo_digest_of(elements: Seq<u64>) -> Word;

/// Relies on miden_crypto::hash::rpo::Rpo256::hash_elements: the digest
/// depends on the field elements alone, and its four output elements are
/// returned in canonical form (below the field order).
#[verifier::external_body]
pub(crate) fn rpo_hash_elements(elements: &Vec<u64>) -> (w: Word)
    requires
        forall|i: int| 0 <= i < elements@.len() ==> felt_wf(elements@[i]),
    ensures
        w == rpo_digest_of(elements@),
        word_wf(w),
{
    let felts: Vec<miden_crypto::Felt> = elements
        .iter()
        .map(|x: &u64| miden_crypto::Felt::new_unchecked(*x))
        .collect();
    let digest = miden_crypto::hash::rpo::Rpo256::hash_elements(&felts);
    let parts: [u64; 4] = digest.into();
    Word { e0: parts[0], e1: parts[1], e2: parts[2], e3: parts[3] }
}

} // verus!
