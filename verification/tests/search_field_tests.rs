use ledger_core::field::{reduce, Word, FIELD_MODULUS};
use ledger_core::resolver::is_count_slot_name;
use ledger_core::search::{bytes_eq, contains_subslice};

#[test]
fn containment_basics() {
    assert!(contains_subslice(b"oracle::publisher_count", b"publisher"));
    assert!(contains_subslice(b"oracle::publisher_count", b"count"));
    assert!(!contains_subslice(b"oracle::publisher", b"count"));
    assert!(contains_subslice(b"abc", b""));
    assert!(!contains_subslice(b"ab", b"abc"));
    assert!(contains_subslice(b"aab", b"ab"));
}

#[test]
fn byte_equality() {
    assert!(bytes_eq(b"counter", b"counter"));
    assert!(!bytes_eq(b"counter", b"counted"));
    assert!(!bytes_eq(b"counter", b"count"));
    assert!(bytes_eq(b"", b""));
}

#[test]
fn count_name_convention() {
    assert!(is_count_slot_name(b"oracle::publisher_count"));
    assert!(is_count_slot_name(b"count_of_publishers"));
    assert!(!is_count_slot_name(b"oracle::publishers"));
    assert!(!is_count_slot_name(b"note_count"));
}

#[test]
fn reduction_into_field() {
    assert_eq!(reduce(0), 0);
    assert_eq!(reduce(FIELD_MODULUS - 1), FIELD_MODULUS - 1);
    assert_eq!(reduce(FIELD_MODULUS), 0);
    assert_eq!(reduce(u64::MAX), u64::MAX - FIELD_MODULUS);
    let w = Word { e0: 0, e1: 0, e2: 0, e3: FIELD_MODULUS };
    assert!(!w.is_wf());
    assert!(Word::zero().is_wf());
}
