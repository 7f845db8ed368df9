//! Transaction orchestration.
//!
//! The orchestrator composes the other components: it plans the
//! requests of an orchestration run — emitting notes, consuming them,
//! starting and continuing a note chain, reading foreign state — while
//! keeping the local view of what has been spent and settled. Steps
//! execute strictly sequentially; each on-ledger transaction is
//! independently atomic, and a failed step does not roll back prior
//! committed steps.
//!
//! A note is consumed by exactly one transaction. The orchestrator
//! tracks the identities it has marked consumed, and a request that
//! would double-spend one of them must never be built: callers test
//! with `is_consumed` before planning a consume.

use vstd::prelude::*;
use crate::account::{account_id_wf, AccountId};
use crate::chain::{advanced, serial_exhausted, ChainError};
use crate::field::{Word, FIELD_MODULUS};
use crate::note::{
    asset_wf, note_commitment, note_commitment_spec, note_wf, Asset, Note, NoteMetadata, NoteV,
};
use crate::request::{
    chain_declaration_ok, details_of, ExpectedNoteV, InputNoteV, NoteDetails, TransactionRequest,
    TransactionRequestBuilder,
};
use crate::resolver::ResolutionError;
use crate::tracker::TrackerError;

verus! {

/// The identifier of a submitted transaction.
#[derive(Clone, Copy, PartialEq, Eq, Structural, Debug)]
pub struct TxId {
    pub digest: Word,
}

/// Why an orchestration step failed. Each kind is distinguishable,
/// because the recovery strategy differs per kind.
#[derive(Clone, Copy, PartialEq, Eq, Structural, Debug)]
pub enum OrchestrationError {
    /// Dependency resolution failed; the foreign call is unprovable.
    Resolution(ResolutionError),
    /// The note chain could not be derived or declared.
    Chain(ChainError),
    /// The settlement wait failed.
    Tracker(TrackerError),
    /// The ledger rejected the submission; fatal for the step, since
    /// resubmission needs a fresh seed and cannot be done blindly.
    SubmissionFailed,
}

/// The orchestrator's local view of one run.
#[derive(Debug)]
pub struct Orchestrator {
    /// Content digests of the notes marked consumed.
    pub consumed: Vec<Word>,
    /// The head of the active note chain, if one is being built.
    pub chain_tip: Option<Note>,
    /// Identifiers of the transactions confirmed committed, in
    /// program order.
    pub committed: Vec<TxId>,
}

/// Ghost view of the orchestrator.
pub ghost struct OrchestratorV {
    pub consumed: Seq<Word>,
    pub chain_tip: Option<NoteV>,
    pub committed: Seq<TxId>,
}

impl View for Orchestrator {
    type V = OrchestratorV;

    open spec fn view(&self) -> OrchestratorV {
        OrchestratorV {
            consumed: self.consumed@,
            chain_tip: match self.chain_tip {
                Some(ref n) => Some(n@),
                None => None,
            },
            committed: self.committed@,
        }
    }
}

/// The orchestrator's invariant: an active chain tip is a well-formed
/// note.
pub open spec fn orchestrator_wf(o: OrchestratorV) -> bool {
    match o.chain_tip {
        Some(t) => note_wf(t),
        None => true,
    }
}

impl Orchestrator {
    /// A fresh orchestration run: nothing consumed, no chain, nothing
    /// committed.
    pub fn new() -> (r: Orchestrator)
        ensures
            r@.consumed =~= Seq::<Word>::empty(),
            r@.chain_tip is None,
            r@.committed =~= Seq::<TxId>::empty(),
            orchestrator_wf(r@),
    {
        Orchestrator { consumed: Vec::new(), chain_tip: None, committed: Vec::new() }
    }

    /// Whether this note's identity has already been marked consumed.
    /// A request that would consume it again must not be built.
    pub fn is_consumed(&self, note: &Note) -> (r: bool)
        requires
            note_wf(note@),
        ensures
            r == self@.consumed.contains(note_commitment_spec(note@)),
    {
        let c = note_commitment(note);
        let n: usize = self.consumed.len();
        let mut i: usize = 0;
        while i < n
            invariant
                0 <= i <= n,
                n == self@.consumed.len(),
                c == note_commitment_spec(note@),
                forall|k: int| 0 <= k < i ==> (#[trigger] self@.consumed[k]) != c,
            decreases n - i,
        {
            if self.consumed[i] == c {
                assert(self@.consumed.contains(c));
                return true;
            }
            i += 1;
        }
        assert(!self@.consumed.contains(c));
        false
    }

    /// Plan a request that creates the given note and start a chain
    /// at it: the note becomes the chain's tip, to be consumed and
    /// advanced by the next chain step.
    pub fn start_chain(&mut self, note: Note) -> (r: TransactionRequest)
        requires
            note_wf(note@),
        ensures
            final(self)@.chain_tip == Some(note@),
            final(self)@.consumed == old(self)@.consumed,
            final(self)@.committed == old(self)@.committed,
            orchestrator_wf(final(self)@),
            r@.output_notes == seq![note@],
            r@.input_notes.len() == 0,
            r@.expected_future_notes.len() == 0,
            r@.expected_output_recipients.len() == 0,
            r@.foreign_accounts.len() == 0,
            r@.script_root is None,
    {
        let copy = note.duplicate();
        self.chain_tip = Some(copy);
        TransactionRequest::emit_note(note)
    }

    /// Plan the chain continuation: consume the tip and declare its
    /// successor — same script and inputs, serial number advanced by
    /// one, metadata rebound to the consuming party — as the expected
    /// future note with its exact recipient. The successor becomes
    /// the new tip and the old tip is marked consumed.
    pub fn continue_chain(&mut self, consumer: AccountId, assets: Vec<Asset>) -> (r: Result<
        (TransactionRequest, Note),
        OrchestrationError,
    >)
        requires
            orchestrator_wf(old(self)@),
            account_id_wf(consumer),
            forall|i: int| 0 <= i < assets@.len() ==> asset_wf(#[trigger] assets@[i]),
            assets@.len() < FIELD_MODULUS,
            match old(self)@.chain_tip {
                Some(t) => !old(self)@.consumed.contains(note_commitment_spec(t)),
                None => true,
            },
        ensures
            orchestrator_wf(final(self)@),
            match r {
                Ok((req, next)) => {
                    &&& old(self)@.chain_tip is Some
                    &&& {
                        let t = old(self)@.chain_tip->0;
                        &&& !serial_exhausted(t.recipient)
                        &&& next@.recipient == advanced(t.recipient)
                        &&& next@.metadata == (NoteMetadata {
                            sender: consumer,
                            ..t.metadata
                        })
                        &&& next@.assets == assets@
                        &&& note_wf(next@)
                        &&& final(self)@.chain_tip == Some(next@)
                        &&& final(self)@.consumed == old(self)@.consumed.push(
                            note_commitment_spec(t),
                        )
                        &&& final(self)@.committed == old(self)@.committed
                        &&& req@.input_notes == seq![InputNoteV { note: t, unlock: None }]
                        &&& req@.expected_future_notes == seq![
                            ExpectedNoteV { details: details_of(next@), tag: t.metadata.tag },
                        ]
                        &&& req@.expected_output_recipients == seq![next@.recipient]
                        &&& req@.output_notes.len() == 0
                        &&& req@.foreign_accounts.len() == 0
                        &&& req@.script_root is None
                    }
                },
                Err(e) => {
                    &&& final(self)@ == old(self)@
                    &&& match e {
                        OrchestrationError::Chain(ChainError::MissingPredecessor) => old(
                            self,
                        )@.chain_tip is None,
                        OrchestrationError::Chain(ChainError::SerialOverflow) => old(
                            self,
                        )@.chain_tip is Some && serial_exhausted(
                            old(self)@.chain_tip->0.recipient,
                        ),
                        _ => false,
                    }
                },
            },
    {
        let ghost t = old(self)@.chain_tip->0;
        let (prev, next_recipient, tag) = match &self.chain_tip {
            Some(tip) => match tip.recipient.advance() {
                Ok(rec) => (tip.duplicate(), rec, tip.metadata.tag),
                Err(e) => {
                    return Err(OrchestrationError::Chain(e));
                },
            },
            None => {
                return Err(OrchestrationError::Chain(ChainError::MissingPredecessor));
            },
        };
        assert(prev@ == t);
        let next = Note {
            assets,
            metadata: NoteMetadata { sender: consumer, ..prev.metadata },
            recipient: next_recipient,
        };
        let prev_commitment = note_commitment(&prev);
        let mut b = TransactionRequestBuilder::new();
        b.add_input_note(prev, None);
        b.add_expected_future_note(NoteDetails::from_note(&next), tag);
        b.add_expected_output_recipient(next.recipient.duplicate());
        assert(chain_declaration_ok(b@)) by {
            assert(b@.expected_future_notes.len() == 1);
            assert(b@.expected_output_recipients[0] == b@.expected_future_notes[0]
                .details.recipient);
        }
        let req = match b.build() {
            Ok(req) => req,
            Err(_) => vstd::pervasive::unreached(),
        };
        self.consumed.push(prev_commitment);
        self.chain_tip = Some(next.duplicate());
        proof {
            assert(req@.input_notes =~= seq![InputNoteV { note: t, unlock: None }]);
            assert(req@.expected_future_notes =~= seq![
                ExpectedNoteV { details: details_of(next@), tag: t.metadata.tag },
            ]);
            assert(req@.expected_output_recipients =~= seq![next@.recipient]);
        }
        Ok((req, next))
    }

    /// Plan a request that consumes the given note, with its optional
    /// unlock argument, and mark its identity consumed.
    pub fn consume_note_request(&mut self, note: &Note, unlock: Option<Word>) -> (r:
        TransactionRequest)
        requires
            orchestrator_wf(old(self)@),
            note_wf(note@),
            !old(self)@.consumed.contains(note_commitment_spec(note@)),
        ensures
            orchestrator_wf(final(self)@),
            final(self)@.consumed == old(self)@.consumed.push(note_commitment_spec(note@)),
            final(self)@.chain_tip == old(self)@.chain_tip,
            final(self)@.committed == old(self)@.committed,
            r@.input_notes == seq![InputNoteV { note: note@, unlock }],
            r@.output_notes.len() == 0,
            r@.expected_future_notes.len() == 0,
            r@.expected_output_recipients.len() == 0,
            r@.foreign_accounts.len() == 0,
            r@.script_root is None,
    {
        let c = note_commitment(note);
        self.consumed.push(c);
        let mut b = TransactionRequestBuilder::new();
        b.add_input_note(note.duplicate(), unlock);
        match b.build() {
            Ok(req) => {
                assert(req@.input_notes =~= seq![InputNoteV { note: note@, unlock }]);
                req
            },
            Err(_) => vstd::pervasive::unreached(),
        }
    }

    /// Record that a submitted transaction was confirmed committed.
    /// Confirmations accumulate in program order; nothing already
    /// recorded is altered.
    pub fn record_committed(&mut self, tx: TxId)
        requires
            orchestrator_wf(old(self)@),
        ensures
            orchestrator_wf(final(self)@),
            final(self)@.committed == old(self)@.committed.push(tx),
            final(self)@.consumed == old(self)@.consumed,
            final(self)@.chain_tip == old(self)@.chain_tip,
    {
        self.committed.push(tx);
    }
}

} // verus!
