use ledger_core::account::AccountId;
use ledger_core::field::Word;
use ledger_core::resolver::{resolve, FetchedAccount, ForeignAccountRequirement, ResolutionError};
use ledger_core::storage::{AccountStorage, MapEntry, SlotContent, StorageSlot};

fn word(e0: u64, e1: u64, e2: u64, e3: u64) -> Word {
    Word { e0, e1, e2, e3 }
}

fn value_slot(name: &str, w: Word) -> StorageSlot {
    StorageSlot { name: name.as_bytes().to_vec(), content: SlotContent::ValueSlot(w) }
}

fn map_slot(name: &str, entries: Vec<MapEntry>) -> StorageSlot {
    StorageSlot { name: name.as_bytes().to_vec(), content: SlotContent::MapSlot(entries) }
}

fn secondary_word(prefix: u64, suffix: u64) -> Word {
    // The identifier sits in the trailing two components: suffix in the
    // third, prefix in the fourth.
    word(0, 0, suffix, prefix)
}

fn root_id() -> AccountId {
    AccountId { prefix: 900, suffix: 901 }
}

fn fetched(id: AccountId, slots: Vec<StorageSlot>) -> FetchedAccount {
    FetchedAccount { id, storage: AccountStorage { slots } }
}

fn assert_requirement(
    req: &ForeignAccountRequirement,
    expected_id: AccountId,
    expected_map_names: Vec<&str>,
) {
    assert_eq!(req.account, expected_id);
    assert_eq!(req.slot_keys.len(), expected_map_names.len());
    for (k, name) in req.slot_keys.iter().zip(expected_map_names.iter()) {
        assert_eq!(k.name, name.as_bytes().to_vec());
        assert!(k.keys.is_empty());
    }
}

#[test]
fn storage_item_reads() {
    let storage = AccountStorage {
        slots: vec![
            value_slot("version", word(9, 0, 0, 0)),
            map_slot(
                "prices",
                vec![
                    MapEntry { key: word(1, 0, 0, 0), value: word(42, 0, 0, 0) },
                    MapEntry { key: word(2, 0, 0, 0), value: word(43, 0, 0, 0) },
                ],
            ),
        ],
    };
    assert_eq!(storage.get_item(b"version"), Some(word(9, 0, 0, 0)));
    // A map slot has no single word, and an absent name reads as
    // nothing.
    assert_eq!(storage.get_item(b"prices"), None);
    assert_eq!(storage.get_item(b"absent"), None);
    assert_eq!(
        storage.get_map_item(b"prices", word(2, 0, 0, 0)),
        Some(word(43, 0, 0, 0)),
    );
    assert_eq!(storage.get_map_item(b"prices", word(3, 0, 0, 0)), None);
    assert_eq!(storage.get_map_item(b"version", word(1, 0, 0, 0)), None);
}

#[test]
fn resolver_count_invariant_three_requirements() {
    // Count slot value 3 and two encoded secondaries: exactly three
    // requirements come back, secondaries first, root last.
    let storage = AccountStorage {
        slots: vec![
            value_slot("oracle::publisher_count", word(3, 0, 0, 0)),
            value_slot("oracle::publisher_a", secondary_word(11, 12)),
            value_slot("oracle::publisher_b", secondary_word(21, 22)),
        ],
    };
    let fetched_list = vec![
        fetched(AccountId { prefix: 11, suffix: 12 }, vec![map_slot("prices_a", vec![])]),
        fetched(AccountId { prefix: 21, suffix: 22 }, vec![map_slot("prices_b", vec![])]),
    ];
    let reqs = resolve(root_id(), &storage, &fetched_list).unwrap();
    assert_eq!(reqs.len(), 3);
    assert_requirement(&reqs[0], AccountId { prefix: 11, suffix: 12 }, vec!["prices_a"]);
    assert_requirement(&reqs[1], AccountId { prefix: 21, suffix: 22 }, vec!["prices_b"]);
    assert_requirement(&reqs[2], root_id(), vec![]);
}

#[test]
fn resolver_no_storage() {
    let storage = AccountStorage { slots: vec![] };
    let r = resolve(root_id(), &storage, &vec![]);
    assert_eq!(r.unwrap_err(), ResolutionError::NoStorage);
}

#[test]
fn resolver_fallback_uses_first_slot() {
    // No slot name contains both "publisher" and "count": the first
    // declared slot serves as the count slot, without erroring.
    let storage = AccountStorage {
        slots: vec![
            value_slot("feed_total", word(2, 0, 0, 0)),
            value_slot("feed_entry", secondary_word(31, 32)),
        ],
    };
    let fetched_list = vec![fetched(AccountId { prefix: 31, suffix: 32 }, vec![])];
    let reqs = resolve(root_id(), &storage, &fetched_list).unwrap();
    assert_eq!(reqs.len(), 2);
    assert_requirement(&reqs[0], AccountId { prefix: 31, suffix: 32 }, vec![]);
    assert_requirement(&reqs[1], root_id(), vec![]);
}

#[test]
fn resolver_count_slot_found_by_name_not_position() {
    // The conventionally named slot is used even when it is not first.
    let storage = AccountStorage {
        slots: vec![
            value_slot("oracle::publisher_a", secondary_word(41, 42)),
            value_slot("oracle::publisher_count", word(2, 0, 0, 0)),
        ],
    };
    let fetched_list = vec![fetched(AccountId { prefix: 41, suffix: 42 }, vec![])];
    let reqs = resolve(root_id(), &storage, &fetched_list).unwrap();
    assert_eq!(reqs.len(), 2);
    assert_requirement(&reqs[0], AccountId { prefix: 41, suffix: 42 }, vec![]);
}

#[test]
fn resolver_map_count_slot_reads_zero() {
    // A map slot has no single word to read: the count is zero, and
    // only the root requirement comes back.
    let storage = AccountStorage {
        slots: vec![
            map_slot("oracle::publisher_count", vec![]),
            value_slot("oracle::publisher_a", secondary_word(51, 52)),
        ],
    };
    let reqs = resolve(root_id(), &storage, &vec![]).unwrap();
    assert_eq!(reqs.len(), 1);
    assert_requirement(&reqs[0], root_id(), vec![]);
}

#[test]
fn resolver_invalid_encoding() {
    // A secondary slot whose trailing components are no identifier: the
    // prefix component is zero.
    let storage = AccountStorage {
        slots: vec![
            value_slot("oracle::publisher_count", word(2, 0, 0, 0)),
            value_slot("oracle::publisher_a", word(0, 0, 7, 0)),
        ],
    };
    let r = resolve(root_id(), &storage, &vec![]);
    assert_eq!(r.unwrap_err(), ResolutionError::InvalidAccountEncoding);
}

#[test]
fn resolver_account_unavailable() {
    let storage = AccountStorage {
        slots: vec![
            value_slot("oracle::publisher_count", word(2, 0, 0, 0)),
            value_slot("oracle::publisher_a", secondary_word(61, 62)),
        ],
    };
    // The decoded secondary was never fetched.
    let r = resolve(root_id(), &storage, &vec![]);
    assert_eq!(r.unwrap_err(), ResolutionError::AccountUnavailable);
}

#[test]
fn resolver_count_larger_than_candidates() {
    // The count claims more secondaries than the storage declares: only
    // the declared ones are taken.
    let storage = AccountStorage {
        slots: vec![
            value_slot("oracle::publisher_count", word(9, 0, 0, 0)),
            value_slot("oracle::publisher_a", secondary_word(71, 72)),
        ],
    };
    let fetched_list = vec![fetched(AccountId { prefix: 71, suffix: 72 }, vec![])];
    let reqs = resolve(root_id(), &storage, &fetched_list).unwrap();
    assert_eq!(reqs.len(), 2);
}

#[test]
fn resolver_passes_duplicates_through() {
    // Two slots decoding to the same identifier are both kept: no
    // deduplication is performed.
    let storage = AccountStorage {
        slots: vec![
            value_slot("oracle::publisher_count", word(3, 0, 0, 0)),
            value_slot("oracle::publisher_a", secondary_word(81, 82)),
            value_slot("oracle::publisher_b", secondary_word(81, 82)),
        ],
    };
    let fetched_list = vec![fetched(AccountId { prefix: 81, suffix: 82 }, vec![])];
    let reqs = resolve(root_id(), &storage, &fetched_list).unwrap();
    assert_eq!(reqs.len(), 3);
    assert_eq!(reqs[0].account, reqs[1].account);
}

#[test]
fn resolver_secondary_map_slots_only() {
    // Only the secondary's map slots appear in its requirement; its
    // value slots do not.
    let storage = AccountStorage {
        slots: vec![
            value_slot("oracle::publisher_count", word(2, 0, 0, 0)),
            value_slot("oracle::publisher_a", secondary_word(91, 92)),
        ],
    };
    let fetched_list = vec![fetched(
        AccountId { prefix: 91, suffix: 92 },
        vec![
            value_slot("version", word(1, 0, 0, 0)),
            map_slot("prices", vec![MapEntry { key: word(0, 0, 0, 0), value: word(5, 0, 0, 0) }]),
            map_slot("volumes", vec![]),
        ],
    )];
    let reqs = resolve(root_id(), &storage, &fetched_list).unwrap();
    assert_eq!(reqs.len(), 2);
    assert_requirement(
        &reqs[0],
        AccountId { prefix: 91, suffix: 92 },
        vec!["prices", "volumes"],
    );
}
