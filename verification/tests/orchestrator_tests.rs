use ledger_core::account::AccountId;
use ledger_core::chain::{ChainError, Recipient};
use ledger_core::field::{Word, FIELD_MODULUS};
use ledger_core::note::{Asset, Note, NoteMetadata, NoteVisibility};
use ledger_core::orchestrator::{Orchestrator, OrchestrationError, TxId};
use ledger_core::request::{NoteDetails, TransactionRequest, TransactionRequestBuilder};

fn word(e0: u64, e1: u64, e2: u64, e3: u64) -> Word {
    Word { e0, e1, e2, e3 }
}

fn signal_note(sender_prefix: u64, serial_last: u64) -> Note {
    Note {
        assets: vec![],
        metadata: NoteMetadata {
            sender: AccountId { prefix: sender_prefix, suffix: 0 },
            visibility: NoteVisibility::Public,
            tag: 7,
            attachment: None,
        },
        recipient: Recipient {
            serial: word(1, 2, 3, serial_last),
            script_root: word(4, 4, 4, 4),
            inputs: vec![9],
        },
    }
}

#[test]
fn builder_rejects_future_note_without_recipient() {
    let n = signal_note(1, 0);
    let mut b = TransactionRequestBuilder::new();
    b.add_input_note(n.duplicate(), None);
    b.add_expected_future_note(NoteDetails::from_note(&n), 7);
    // The matching expected output recipient is missing.
    assert_eq!(b.build().unwrap_err(), ChainError::MissingPredecessor);
}

#[test]
fn builder_rejects_future_note_without_input() {
    let n = signal_note(1, 0);
    let mut b = TransactionRequestBuilder::new();
    b.add_expected_future_note(NoteDetails::from_note(&n), 7);
    b.add_expected_output_recipient(n.recipient.duplicate());
    // Nothing is consumed, so there is no predecessor to continue.
    assert_eq!(b.build().unwrap_err(), ChainError::MissingPredecessor);
}

#[test]
fn builder_accepts_full_chain_declaration() {
    let prev = signal_note(1, 0);
    let next = signal_note(2, 1);
    let mut b = TransactionRequestBuilder::new();
    b.add_input_note(prev, None);
    b.add_expected_future_note(NoteDetails::from_note(&next), 7);
    b.add_expected_output_recipient(next.recipient.duplicate());
    let req = b.build().unwrap();
    assert_eq!(req.input_notes.len(), 1);
    assert_eq!(req.expected_future_notes.len(), 1);
    assert_eq!(req.expected_output_recipients.len(), 1);
}

#[test]
fn emit_note_request_shape() {
    let n = signal_note(1, 0);
    let req = TransactionRequest::emit_note(n);
    assert_eq!(req.output_notes.len(), 1);
    assert!(req.input_notes.is_empty());
    assert!(req.script_root.is_none());
}

#[test]
fn foreign_read_request_shape() {
    let req = TransactionRequest::foreign_read(word(5, 5, 5, 5), vec![]);
    assert_eq!(req.script_root, Some(word(5, 5, 5, 5)));
    assert!(req.output_notes.is_empty());
    assert!(req.foreign_accounts.is_empty());
}

#[test]
fn continue_without_chain_is_missing_predecessor() {
    let mut orch = Orchestrator::new();
    let r = orch.continue_chain(AccountId { prefix: 5, suffix: 0 }, vec![]);
    assert_eq!(
        r.unwrap_err(),
        OrchestrationError::Chain(ChainError::MissingPredecessor),
    );
}

#[test]
fn chain_continuation_advances_and_rebinds() {
    let mut orch = Orchestrator::new();
    let first = signal_note(1, 0);
    let start_req = orch.start_chain(first.duplicate());
    assert_eq!(start_req.output_notes.len(), 1);

    let consumer = AccountId { prefix: 2, suffix: 0 };
    let assets = vec![Asset::Fungible { faucet: AccountId { prefix: 3, suffix: 0 }, amount: 50 }];
    let (req, next) = orch.continue_chain(consumer, assets).unwrap();

    // The successor reuses script and inputs, advances the serial by
    // one, and is sent by the consuming party.
    assert_eq!(next.recipient.serial, word(1, 2, 3, 1));
    assert_eq!(next.recipient.script_root, first.recipient.script_root);
    assert_eq!(next.recipient.inputs, first.recipient.inputs);
    assert_eq!(next.metadata.sender, consumer);
    assert_eq!(next.metadata.tag, first.metadata.tag);

    // The request consumes the predecessor and declares the successor
    // up front, recipient included.
    assert_eq!(req.input_notes.len(), 1);
    assert_eq!(req.expected_future_notes.len(), 1);
    assert_eq!(req.expected_output_recipients.len(), 1);
    assert!(req.expected_output_recipients[0].eq_to(&next.recipient));

    // The predecessor is now marked consumed.
    assert!(orch.is_consumed(&first));
    assert!(!orch.is_consumed(&next));
}

#[test]
fn chain_continuation_twice_increments_by_two() {
    let mut orch = Orchestrator::new();
    orch.start_chain(signal_note(1, 0));
    let consumer = AccountId { prefix: 2, suffix: 0 };
    let (_, n1) = orch.continue_chain(consumer, vec![]).unwrap();
    let (_, n2) = orch.continue_chain(consumer, vec![]).unwrap();
    assert_eq!(n1.recipient.serial, word(1, 2, 3, 1));
    assert_eq!(n2.recipient.serial, word(1, 2, 3, 2));
}

#[test]
fn chain_continuation_overflow() {
    let mut orch = Orchestrator::new();
    orch.start_chain(signal_note(1, FIELD_MODULUS - 1));
    let r = orch.continue_chain(AccountId { prefix: 2, suffix: 0 }, vec![]);
    assert_eq!(
        r.unwrap_err(),
        OrchestrationError::Chain(ChainError::SerialOverflow),
    );
}

#[test]
fn consume_marks_note_spent() {
    let mut orch = Orchestrator::new();
    let n = signal_note(4, 9);
    assert!(!orch.is_consumed(&n));
    let req = orch.consume_note_request(&n, Some(word(1, 2, 3, 4)));
    assert_eq!(req.input_notes.len(), 1);
    assert_eq!(req.input_notes[0].unlock, Some(word(1, 2, 3, 4)));
    assert!(orch.is_consumed(&n));
}

#[test]
fn committed_transactions_accumulate_in_order() {
    let mut orch = Orchestrator::new();
    orch.record_committed(TxId { digest: word(1, 0, 0, 0) });
    orch.record_committed(TxId { digest: word(2, 0, 0, 0) });
    assert_eq!(orch.committed.len(), 2);
    assert_eq!(orch.committed[0].digest, word(1, 0, 0, 0));
    assert_eq!(orch.committed[1].digest, word(2, 0, 0, 0));
}
