use ledger_core::account::AccountId;
use ledger_core::chain::{ChainError, Recipient};
use ledger_core::field::{Word, FIELD_MODULUS};
use ledger_core::note::{
    encode_note, hash_lock_inputs, note_commitment, note_is_wf, Asset, NetworkAttachment, Note,
    NoteMetadata, NoteVisibility,
};

fn word(e0: u64, e1: u64, e2: u64, e3: u64) -> Word {
    Word { e0, e1, e2, e3 }
}

fn sample_recipient() -> Recipient {
    Recipient {
        serial: word(10, 20, 30, 40),
        script_root: word(1, 2, 3, 4),
        inputs: vec![5, 6, 7],
    }
}

fn sample_note() -> Note {
    Note {
        assets: vec![Asset::Fungible { faucet: AccountId { prefix: 3, suffix: 4 }, amount: 100 }],
        metadata: NoteMetadata {
            sender: AccountId { prefix: 1, suffix: 2 },
            visibility: NoteVisibility::Public,
            tag: 0,
            attachment: None,
        },
        recipient: sample_recipient(),
    }
}

#[test]
fn advance_increments_only_last_serial_component() {
    let r = sample_recipient();
    let next = r.advance().unwrap();
    assert_eq!(next.serial, word(10, 20, 30, 41));
    assert_eq!(next.script_root, r.script_root);
    assert_eq!(next.inputs, r.inputs);
}

#[test]
fn advance_twice_increments_by_two() {
    // Chain determinism: two advances leave script and inputs
    // untouched and move the last serial component by exactly two.
    let r = sample_recipient();
    let twice = r.advance().unwrap().advance().unwrap();
    assert_eq!(twice.serial, word(10, 20, 30, 42));
    assert_eq!(twice.script_root, r.script_root);
    assert_eq!(twice.inputs, r.inputs);
}

#[test]
fn advance_fails_at_field_end() {
    let r = Recipient {
        serial: word(0, 0, 0, FIELD_MODULUS - 1),
        script_root: word(0, 0, 0, 0),
        inputs: vec![],
    };
    assert_eq!(r.advance().unwrap_err(), ChainError::SerialOverflow);
}

#[test]
fn build_initial_keeps_parts() {
    let r = Recipient::build_initial(word(9, 8, 7, 6), word(1, 1, 1, 1), vec![2, 3]);
    assert_eq!(r.serial, word(9, 8, 7, 6));
    assert_eq!(r.script_root, word(1, 1, 1, 1));
    assert_eq!(r.inputs, vec![2, 3]);
}

#[test]
fn drawn_serial_is_well_formed() {
    for _ in 0..16 {
        let w = ledger_core::chain::draw_serial();
        assert!(w.is_wf());
    }
}

#[test]
fn note_wf_accepts_sample_and_rejects_bad_felt() {
    let good = sample_note();
    assert!(note_is_wf(&good));
    let mut bad = sample_note();
    bad.recipient.inputs.push(FIELD_MODULUS);
    assert!(!note_is_wf(&bad));
}

#[test]
fn note_encoding_layout() {
    let n = sample_note();
    let v = encode_note(&n);
    let expected: Vec<u64> = vec![
        1, // one asset
        0, 3, 4, 100, // fungible asset: tag, faucet prefix, suffix, amount
        1, 2, 0, 0, // metadata: sender prefix, suffix, visibility, tag
        0, // no attachment
        10, 20, 30, 40, // serial
        1, 2, 3, 4, // script root
        3, 5, 6, 7, // inputs, length prefixed
    ];
    assert_eq!(v, expected);
}

#[test]
fn identical_notes_share_commitment() {
    // Idempotent note identity: identical assets, metadata and
    // recipient give the same content digest.
    let a = sample_note();
    let b = sample_note();
    assert_eq!(note_commitment(&a), note_commitment(&b));
}

#[test]
fn commitment_is_a_real_digest() {
    // The digest is not the encoding handed back: it has a fixed width
    // of four components and differs from the zero word.
    let w = note_commitment(&sample_note());
    assert!(w.is_wf());
    assert_ne!(w, word(0, 0, 0, 0));
    let tiny = Note {
        assets: vec![],
        metadata: NoteMetadata {
            sender: AccountId { prefix: 1, suffix: 0 },
            visibility: NoteVisibility::Public,
            tag: 0,
            attachment: None,
        },
        recipient: Recipient {
            serial: word(0, 0, 0, 0),
            script_root: word(0, 0, 0, 0),
            inputs: vec![],
        },
    };
    let tw = note_commitment(&tiny);
    assert!(tw.is_wf());
    assert_ne!(tw, word(0, 0, 0, 0));
}

#[test]
fn changing_sender_changes_commitment() {
    let a = sample_note();
    let mut b = sample_note();
    b.metadata.sender = AccountId { prefix: 2, suffix: 2 };
    assert_ne!(note_commitment(&a), note_commitment(&b));
}

#[test]
fn changing_tag_changes_commitment() {
    let a = sample_note();
    let mut b = sample_note();
    b.metadata.tag = 1;
    assert_ne!(note_commitment(&a), note_commitment(&b));
}

#[test]
fn changing_asset_amount_changes_commitment() {
    let a = sample_note();
    let mut b = sample_note();
    b.assets[0] = Asset::Fungible { faucet: AccountId { prefix: 3, suffix: 4 }, amount: 101 };
    assert_ne!(note_commitment(&a), note_commitment(&b));
}

#[test]
fn changing_serial_component_changes_commitment() {
    let a = sample_note();
    let mut b = sample_note();
    b.recipient.serial = word(10, 20, 31, 40);
    assert_ne!(note_commitment(&a), note_commitment(&b));
}

#[test]
fn changing_attachment_changes_commitment() {
    let a = sample_note();
    let mut b = sample_note();
    b.metadata.attachment =
        Some(NetworkAttachment { target: AccountId { prefix: 50, suffix: 51 } });
    assert_ne!(note_commitment(&a), note_commitment(&b));
}

#[test]
fn non_fungible_asset_encoding() {
    let mut n = sample_note();
    n.assets = vec![Asset::NonFungible { id: word(8, 9, 10, 11) }];
    let v = encode_note(&n);
    // The asset segment carries the variant tag, then the four
    // identifier components.
    assert_eq!(&v[0..6], &[1, 1, 8, 9, 10, 11]);
}

#[test]
fn hash_lock_inputs_digest_the_secret() {
    let secret = vec![1u64, 2, 3, 4];
    let inputs = hash_lock_inputs(&secret);
    // Four canonical field elements, and a real digest, not the
    // secret handed back.
    assert_eq!(inputs.len(), 4);
    for x in &inputs {
        assert!(*x < FIELD_MODULUS);
    }
    assert_ne!(inputs, secret);
    // The digest depends on the secret alone.
    assert_eq!(hash_lock_inputs(&secret), inputs);
    assert_ne!(hash_lock_inputs(&vec![1u64, 2, 3, 5]), inputs);
}

#[test]
fn changing_visibility_changes_commitment() {
    let a = sample_note();
    let mut b = sample_note();
    b.metadata.visibility = NoteVisibility::Private;
    assert_ne!(note_commitment(&a), note_commitment(&b));
}
