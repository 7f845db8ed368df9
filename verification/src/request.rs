//! Transaction requests.
//!
//! A request is an immutable, write-once bundle: an optional custom
//! script, the notes to consume — each with an optional unlock
//! argument such as a secret preimage — the notes to create, the
//! expected future notes of a continuing chain with their recipients,
//! and the foreign accounts a cross-contract read depends on. It is
//! built once through a builder and never mutated after that.
//!
//! A chain-continuing consume must declare both the expected future
//! note and its output recipient, and must consume a predecessor;
//! omitting either is a caller error, rejected at build time rather
//! than after submission.

use vstd::prelude::*;
use crate::chain::{ChainError, Recipient, RecipientV};
use crate::field::Word;
use crate::note::{duplicate_assets, Asset, Note, NoteV};
use crate::resolver::{ForeignAccountRequirement, ForeignAccountRequirementV};

verus! {

/// The identity details of a note that does not exist yet: its assets
/// and its recipient, without metadata.
#[derive(Clone, Debug)]
pub struct NoteDetails {
    pub assets: Vec<Asset>,
    pub recipient: Recipient,
}

/// Ghost view of note details.
pub ghost struct NoteDetailsV {
    pub assets: Seq<Asset>,
    pub recipient: RecipientV,
}

impl View for NoteDetails {
    type V = NoteDetailsV;

    open spec fn view(&self) -> NoteDetailsV {
        NoteDetailsV { assets: self.assets@, recipient: self.recipient@ }
    }
}

/// The identity details carried by a full note.
pub open spec fn details_of(n: NoteV) -> NoteDetailsV {
    NoteDetailsV { assets: n.assets, recipient: n.recipient }
}

impl NoteDetails {
    /// The identity details of an existing note.
    pub fn from_note(n: &Note) -> (r: NoteDetails)
        ensures
            r@ == details_of(n@),
    {
        NoteDetails { assets: duplicate_assets(&n.assets), recipient: n.recipient.duplicate() }
    }
}

/// A note to consume, with its optional unlock argument.
#[derive(Clone, Debug)]
pub struct InputNote {
    pub note: Note,
    pub unlock: Option<Word>,
}

/// Ghost view of an input note.
pub ghost struct InputNoteV {
    pub note: NoteV,
    pub unlock: Option<Word>,
}

impl View for InputNote {
    type V = InputNoteV;

    open spec fn view(&self) -> InputNoteV {
        InputNoteV { note: self.note@, unlock: self.unlock }
    }
}

/// An expected future note of a continuing chain, with its routing
/// tag.
#[derive(Clone, Debug)]
pub struct ExpectedNote {
    pub details: NoteDetails,
    pub tag: u32,
}

/// Ghost view of an expected note.
pub ghost struct ExpectedNoteV {
    pub details: NoteDetailsV,
    pub tag: u32,
}

impl View for ExpectedNote {
    type V = ExpectedNoteV;

    open spec fn view(&self) -> ExpectedNoteV {
        ExpectedNoteV { details: self.details@, tag: self.tag }
    }
}

/// The contents of a request, shared by the builder and the built
/// request.
pub ghost struct TransactionRequestV {
    pub script_root: Option<Word>,
    pub input_notes: Seq<InputNoteV>,
    pub output_notes: Seq<NoteV>,
    pub expected_future_notes: Seq<ExpectedNoteV>,
    pub expected_output_recipients: Seq<RecipientV>,
    pub foreign_accounts: Seq<ForeignAccountRequirementV>,
}

/// An immutable, write-once transaction request.
#[derive(Debug)]
pub struct TransactionRequest {
    pub script_root: Option<Word>,
    pub input_notes: Vec<InputNote>,
    pub output_notes: Vec<Note>,
    pub expected_future_notes: Vec<ExpectedNote>,
    pub expected_output_recipients: Vec<Recipient>,
    pub foreign_accounts: Vec<ForeignAccountRequirement>,
}

impl View for TransactionRequest {
    type V = TransactionRequestV;

    open spec fn view(&self) -> TransactionRequestV {
        TransactionRequestV {
            script_root: self.script_root,
            input_notes: self.input_notes@.map_values(|x: InputNote| x@),
            output_notes: self.output_notes@.map_values(|x: Note| x@),
            expected_future_notes: self.expected_future_notes@.map_values(|x: ExpectedNote| x@),
            expected_output_recipients: self.expected_output_recipients@.map_values(
                |x: Recipient| x@,
            ),
            foreign_accounts: self.foreign_accounts@.map_values(
                |x: ForeignAccountRequirement| x@,
            ),
        }
    }
}

/// The first `n` expected future notes each have their recipient
/// among the expected output recipients.
pub open spec fn futures_declared_upto(v: TransactionRequestV, n: int) -> bool {
    forall|i: int|
        0 <= i < n ==> exists|j: int|
            0 <= j < v.expected_output_recipients.len() && v.expected_output_recipients[j]
                == (#[trigger] v.expected_future_notes[i]).details.recipient
}

/// A chain continuation is fully declared: every expected future note
/// has its recipient among the expected output recipients, and a
/// request that expects future notes consumes a predecessor.
pub open spec fn chain_declaration_ok(v: TransactionRequestV) -> bool {
    &&& futures_declared_upto(v, v.expected_future_notes.len() as int)
    &&& v.expected_future_notes.len() > 0 ==> v.input_notes.len() > 0
}

/// The builder for a transaction request. Fields accumulate; `build`
/// validates and seals them.
#[derive(Debug)]
pub struct TransactionRequestBuilder {
    pub script_root: Option<Word>,
    pub input_notes: Vec<InputNote>,
    pub output_notes: Vec<Note>,
    pub expected_future_notes: Vec<ExpectedNote>,
    pub expected_output_recipients: Vec<Recipient>,
    pub foreign_accounts: Vec<ForeignAccountRequirement>,
}

impl View for TransactionRequestBuilder {
    type V = TransactionRequestV;

    open spec fn view(&self) -> TransactionRequestV {
        TransactionRequestV {
            script_root: self.script_root,
            input_notes: self.input_notes@.map_values(|x: InputNote| x@),
            output_notes: self.output_notes@.map_values(|x: Note| x@),
            expected_future_notes: self.expected_future_notes@.map_values(|x: ExpectedNote| x@),
            expected_output_recipients: self.expected_output_recipients@.map_values(
                |x: Recipient| x@,
            ),
            foreign_accounts: self.foreign_accounts@.map_values(
                |x: ForeignAccountRequirement| x@,
            ),
        }
    }
}

impl TransactionRequestBuilder {
    /// An empty builder.
    pub fn new() -> (r: TransactionRequestBuilder)
        ensures
            r@ == (TransactionRequestV {
                script_root: None,
                input_notes: Seq::empty(),
                output_notes: Seq::empty(),
                expected_future_notes: Seq::empty(),
                expected_output_recipients: Seq::empty(),
                foreign_accounts: Seq::empty(),
            }),
    {
        let r = TransactionRequestBuilder {
            script_root: None,
            input_notes: Vec::new(),
            output_notes: Vec::new(),
            expected_future_notes: Vec::new(),
            expected_output_recipients: Vec::new(),
            foreign_accounts: Vec::new(),
        };
        proof {
            assert(r@.input_notes =~= Seq::<InputNoteV>::empty());
            assert(r@.output_notes =~= Seq::<NoteV>::empty());
            assert(r@.expected_future_notes =~= Seq::<ExpectedNoteV>::empty());
            assert(r@.expected_output_recipients =~= Seq::<RecipientV>::empty());
            assert(r@.foreign_accounts =~= Seq::<ForeignAccountRequirementV>::empty());
        }
        r
    }

    /// Set the custom script, by its root digest.
    pub fn custom_script(&mut self, script_root: Word)
        ensures
            final(self)@ == (TransactionRequestV { script_root: Some(script_root), ..old(self)@ }),
    {
        self.script_root = Some(script_root);
    }

    /// Add a note to consume, with its optional unlock argument.
    pub fn add_input_note(&mut self, note: Note, unlock: Option<Word>)
        ensures
            final(self)@ == (TransactionRequestV {
                input_notes: old(self)@.input_notes.push(InputNoteV { note: note@, unlock }),
                ..old(self)@
            }),
    {
        self.input_notes.push(InputNote { note, unlock });
        assert(self@.input_notes =~= old(self)@.input_notes.push(
            InputNoteV { note: note@, unlock },
        ));
    }

    /// Add a note this transaction creates.
    pub fn add_output_note(&mut self, note: Note)
        ensures
            final(self)@ == (TransactionRequestV {
                output_notes: old(self)@.output_notes.push(note@),
                ..old(self)@
            }),
    {
        self.output_notes.push(note);
        assert(self@.output_notes =~= old(self)@.output_notes.push(note@));
    }

    /// Declare an expected future note of a continuing chain.
    pub fn add_expected_future_note(&mut self, details: NoteDetails, tag: u32)
        ensures
            final(self)@ == (TransactionRequestV {
                expected_future_notes: old(self)@.expected_future_notes.push(
                    ExpectedNoteV { details: details@, tag },
                ),
                ..old(self)@
            }),
    {
        self.expected_future_notes.push(ExpectedNote { details, tag });
        assert(self@.expected_future_notes =~= old(self)@.expected_future_notes.push(
            ExpectedNoteV { details: details@, tag },
        ));
    }

    /// Declare an expected output recipient.
    pub fn add_expected_output_recipient(&mut self, recipient: Recipient)
        ensures
            final(self)@ == (TransactionRequestV {
                expected_output_recipients: old(self)@.expected_output_recipients.push(
                    recipient@,
                ),
                ..old(self)@
            }),
    {
        self.expected_output_recipients.push(recipient);
        assert(self@.expected_output_recipients
            =~= old(self)@.expected_output_recipients.push(recipient@));
    }

    /// Add a foreign account requirement.
    pub fn add_foreign_account(&mut self, requirement: ForeignAccountRequirement)
        ensures
            final(self)@ == (TransactionRequestV {
                foreign_accounts: old(self)@.foreign_accounts.push(requirement@),
                ..old(self)@
            }),
    {
        self.foreign_accounts.push(requirement);
        assert(self@.foreign_accounts =~= old(self)@.foreign_accounts.push(requirement@));
    }

    /// Validate and seal the request. An incompletely declared chain
    /// continuation is a caller error, rejected here, before
    /// submission.
    pub fn build(self) -> (r: Result<TransactionRequest, ChainError>)
        ensures
            match r {
                Ok(req) => chain_declaration_ok(self@) && req@ == self@,
                Err(e) => e == ChainError::MissingPredecessor && !chain_declaration_ok(self@),
            },
    {
        let nf: usize = self.expected_future_notes.len();
        if nf > 0 && self.input_notes.len() == 0 {
            return Err(ChainError::MissingPredecessor);
        }
        let nr: usize = self.expected_output_recipients.len();
        let mut i: usize = 0;
        while i < nf
            invariant
                0 <= i <= nf,
                nf == self@.expected_future_notes.len(),
                nr == self@.expected_output_recipients.len(),
                nf > 0 ==> self@.input_notes.len() > 0,
                futures_declared_upto(self@, i as int),
            decreases nf - i,
        {
            let target = &self.expected_future_notes[i].details.recipient;
            let mut matched = false;
            let mut j: usize = 0;
            while j < nr && !matched
                invariant
                    0 <= j <= nr,
                    nr == self@.expected_output_recipients.len(),
                    nf == self@.expected_future_notes.len(),
                    0 <= i < nf,
                    target@ == self@.expected_future_notes[i as int].details.recipient,
                    !matched ==> forall|k: int|
                        0 <= k < j ==> (#[trigger] self@.expected_output_recipients[k])
                            != target@,
                    matched ==> exists|k: int|
                        0 <= k < nr && (#[trigger] self@.expected_output_recipients[k])
                            == target@,
                decreases nr - j + (if matched { 0int } else { 1int }),
            {
                if self.expected_output_recipients[j].eq_to(target) {
                    matched = true;
                    assert(self@.expected_output_recipients[j as int] == target@);
                } else {
                    j += 1;
                }
            }
            if !matched {
                assert(!chain_declaration_ok(self@)) by {
                    assert(forall|k: int|
                        0 <= k < nr ==> (#[trigger] self@.expected_output_recipients[k])
                            != self@.expected_future_notes[i as int].details.recipient);
                }
                return Err(ChainError::MissingPredecessor);
            }
            i += 1;
        }
        assert(chain_declaration_ok(self@));
        let req = TransactionRequest {
            script_root: self.script_root,
            input_notes: self.input_notes,
            output_notes: self.output_notes,
            expected_future_notes: self.expected_future_notes,
            expected_output_recipients: self.expected_output_recipients,
            foreign_accounts: self.foreign_accounts,
        };
        proof {
            assert(req@.input_notes =~= self@.input_notes);
            assert(req@.output_notes =~= self@.output_notes);
            assert(req@.expected_future_notes =~= self@.expected_future_notes);
            assert(req@.expected_output_recipients =~= self@.expected_output_recipients);
            assert(req@.foreign_accounts =~= self@.foreign_accounts);
            assert(req@ == self@);
        }
        Ok(req)
    }
}

impl TransactionRequest {
    /// A request that only creates the given note.
    pub fn emit_note(note: Note) -> (r: TransactionRequest)
        ensures
            r@ == (TransactionRequestV {
                script_root: None,
                input_notes: Seq::empty(),
                output_notes: seq![note@],
                expected_future_notes: Seq::empty(),
                expected_output_recipients: Seq::empty(),
                foreign_accounts: Seq::empty(),
            }),
    {
        let mut b = TransactionRequestBuilder::new();
        b.add_output_note(note);
        match b.build() {
            Ok(req) => req,
            Err(_) => vstd::pervasive::unreached(),
        }
    }

    /// A request that runs a custom script against the given foreign
    /// accounts: the shape of a nested cross-contract read.
    pub fn foreign_read(script_root: Word, accounts: Vec<ForeignAccountRequirement>) -> (r:
        TransactionRequest)
        ensures
            r@ == (TransactionRequestV {
                script_root: Some(script_root),
                input_notes: Seq::empty(),
                output_notes: Seq::empty(),
                expected_future_notes: Seq::empty(),
                expected_output_recipients: Seq::empty(),
                foreign_accounts: accounts@.map_values(|x: ForeignAccountRequirement| x@),
            }),
    {
        let r = TransactionRequest {
            script_root: Some(script_root),
            input_notes: Vec::new(),
            output_notes: Vec::new(),
            expected_future_notes: Vec::new(),
            expected_output_recipients: Vec::new(),
            foreign_accounts: accounts,
        };
        proof {
            assert(r@.input_notes =~= Seq::<InputNoteV>::empty());
            assert(r@.output_notes =~= Seq::<NoteV>::empty());
            assert(r@.expected_future_notes =~= Seq::<ExpectedNoteV>::empty());
            assert(r@.expected_output_recipients =~= Seq::<RecipientV>::empty());
        }
        r
    }
}

} // verus!
