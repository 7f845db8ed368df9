//! Account storage projections.
//!
//! A storage slot is a named cell of an account's public state with two
//! variants: a value slot holding one word, and a map slot holding a
//! sparse key-to-word mapping. Slot names are unique within an account.
//! The client only reads a cached, synced projection of this state; it
//! never mutates it directly.

use vstd::prelude::*;
use crate::field::Word;

verus! {

/// One entry of a map slot.
#[derive(Clone, Copy, PartialEq, Eq, Structural, Debug)]
pub struct MapEntry {
    pub key: Word,
    pub value: Word,
}

/// The content of a storage slot: a single word, or a sparse mapping.
#[derive(Clone, Debug)]
pub enum SlotContent {
    ValueSlot(Word),
    MapSlot(Vec<MapEntry>),
}

/// Ghost view of a slot's content.
pub ghost enum SlotContentV {
    ValueSlot(Word),
    MapSlot(Seq<MapEntry>),
}

impl View for SlotContent {
    type V = SlotContentV;

    open spec fn view(&self) -> SlotContentV {
        match self {
            SlotContent::ValueSlot(w) => SlotContentV::ValueSlot(*w),
            SlotContent::MapSlot(entries) => SlotContentV::MapSlot(entries@),
        }
    }
}

/// A named cell of an account's public state.
#[derive(Clone, Debug)]
pub struct StorageSlot {
    /// The slot's name, a UTF-8 byte string, unique within the account.
    pub name: Vec<u8>,
    pub content: SlotContent,
}

/// Ghost view of a storage slot.
pub ghost struct StorageSlotV {
    pub name: Seq<u8>,
    pub content: SlotContentV,
}

impl View for StorageSlot {
    type V = StorageSlotV;

    open spec fn view(&self) -> StorageSlotV {
        StorageSlotV { name: self.name@, content: self.content@ }
    }
}

/// The synced projection of one account's public storage, slots in
/// declaration order.
#[derive(Clone, Debug)]
pub struct AccountStorage {
    pub slots: Vec<StorageSlot>,
}

impl View for AccountStorage {
    type V = Seq<StorageSlotV>;

    open spec fn view(&self) -> Seq<StorageSlotV> {
        self.slots@.map_values(|s: StorageSlot| s@)
    }
}

/// Slot names are unique within an account.
pub open spec fn storage_wf(slots: Seq<StorageSlotV>) -> bool {
    forall|i: int, j: int|
        0 <= i < j < slots.len() ==> slots[i].name != slots[j].name
}

impl StorageSlot {
    /// Whether this is a value slot.
    pub fn is_value_slot(&self) -> (r: bool)
        ensures
            r == (self@.content is ValueSlot),
    {
        match &self.content {
            SlotContent::ValueSlot(_) => true,
            SlotContent::MapSlot(_) => false,
        }
    }
}

/// The word read from a slot: the held word for a value slot, nothing
/// for a map slot (a map slot has no single item to read).
pub open spec fn read_slot(s: StorageSlotV) -> Option<Word> {
    match s.content {
        SlotContentV::ValueSlot(w) => Some(w),
        SlotContentV::MapSlot(_) => None,
    }
}

/// The first index of a slot with the given name, or the length when
/// none matches; under `storage_wf` the match is unique.
pub open spec fn slot_index_of(slots: Seq<StorageSlotV>, name: Seq<u8>) -> int
    decreases slots.len(),
{
    if slots.len() == 0 {
        0
    } else if slots[0].name == name {
        0
    } else {
        1 + slot_index_of(slots.skip(1), name)
    }
}

pub proof fn lemma_slot_index_of(slots: Seq<StorageSlotV>, name: Seq<u8>)
    ensures
        0 <= slot_index_of(slots, name) <= slots.len(),
        slot_index_of(slots, name) < slots.len() ==> slots[slot_index_of(slots, name)].name
            == name,
        forall|k: int|
            0 <= k < slot_index_of(slots, name) ==> (#[trigger] slots[k]).name != name,
    decreases slots.len(),
{
    if slots.len() == 0 {
    } else if slots[0].name == name {
    } else {
        let rest = slots.skip(1);
        lemma_slot_index_of(rest, name);
        let fi = slot_index_of(slots, name);
        assert forall|k: int| 0 <= k < fi implies (#[trigger] slots[k]).name != name by {
            if k > 0 {
                assert(rest[k - 1] == slots[k]);
            }
        }
        if fi < slots.len() {
            assert(rest[fi - 1] == slots[fi]);
        }
    }
}

/// What reading the named slot as a single word yields: nothing when
/// the name is absent or names a map slot.
pub open spec fn item_of(slots: Seq<StorageSlotV>, name: Seq<u8>) -> Option<Word> {
    if slot_index_of(slots, name) < slots.len() {
        read_slot(slots[slot_index_of(slots, name)])
    } else {
        None
    }
}

/// The first value bound to the key in a map slot's entry list.
pub open spec fn entry_lookup(entries: Seq<MapEntry>, key: Word) -> Option<Word>
    decreases entries.len(),
{
    if entries.len() == 0 {
        None
    } else if entries[0].key == key {
        Some(entries[0].value)
    } else {
        entry_lookup(entries.skip(1), key)
    }
}

/// What reading the named map slot at the key yields: nothing when the
/// name is absent, names a value slot, or the key is unbound.
pub open spec fn map_item_of(slots: Seq<StorageSlotV>, name: Seq<u8>, key: Word) -> Option<
    Word,
> {
    if slot_index_of(slots, name) < slots.len() {
        match slots[slot_index_of(slots, name)].content {
            SlotContentV::MapSlot(entries) => entry_lookup(entries, key),
            SlotContentV::ValueSlot(_) => None,
        }
    } else {
        None
    }
}

impl AccountStorage {
    /// Find the first slot with the given name.
    fn find_slot(&self, name: &[u8]) -> (r: Option<&StorageSlot>)
        ensures
            match r {
                Some(slot) => slot_index_of(self@, name@) < self@.len() && slot@ == self@[
                    slot_index_of(self@, name@)
                ],
                None => slot_index_of(self@, name@) == self@.len(),
            },
    {
        proof {
            lemma_slot_index_of(self@, name@);
        }
        let n: usize = self.slots.len();
        let mut i: usize = 0;
        while i < n
            invariant
                0 <= i <= n,
                n == self@.len(),
                forall|k: int| 0 <= k < i ==> (#[trigger] self@[k]).name != name@,
        decreases n - i,
        {
            if crate::search::bytes_eq(self.slots[i].name.as_slice(), name) {
                proof {
                    lemma_slot_index_of(self@, name@);
                    assert(self@[i as int].name == name@);
                    assert(slot_index_of(self@, name@) == i as int);
                }
                return Some(&self.slots[i]);
            }
            proof {
                lemma_slot_index_of(self@, name@);
            }
            i += 1;
        }
        proof {
            lemma_slot_index_of(self@, name@);
        }
        None
    }

    /// Read the named slot as a single word; a missing name or a map
    /// slot reads as nothing.
    pub fn get_item(&self, name: &[u8]) -> (r: Option<Word>)
        ensures
            r == item_of(self@, name@),
    {
        match self.find_slot(name) {
            Some(slot) => match &slot.content {
                SlotContent::ValueSlot(w) => Some(*w),
                SlotContent::MapSlot(_) => None,
            },
            None => None,
        }
    }

    /// Read one entry of the named map slot; a missing name, a value
    /// slot, or an unbound key reads as nothing.
    pub fn get_map_item(&self, name: &[u8], key: Word) -> (r: Option<Word>)
        ensures
            r == map_item_of(self@, name@, key),
    {
        let slot = match self.find_slot(name) {
            Some(slot) => slot,
            None => {
                return None;
            },
        };
        let entries = match &slot.content {
            SlotContent::MapSlot(entries) => entries,
            SlotContent::ValueSlot(_) => {
                return None;
            },
        };
        let ghost eview = entries@;
        proof {
            assert(eview.skip(0) =~= eview);
        }
        let n: usize = entries.len();
        let mut i: usize = 0;
        while i < n
            invariant
                0 <= i <= n,
                n == eview.len(),
                entries@ == eview,
                slot_index_of(self@, name@) < self@.len(),
                self@[slot_index_of(self@, name@)].content == SlotContentV::MapSlot(eview),
                forall|k: int| 0 <= k < i ==> (#[trigger] eview[k]).key != key,
                entry_lookup(eview, key) == entry_lookup(eview.skip(i as int), key),
            decreases n - i,
        {
            proof {
                assert(eview.skip(i as int)[0] == eview[i as int]);
                assert(eview.skip(i as int).skip(1) =~= eview.skip(i + 1 as int));
            }
            if entries[i].key == key {
                assert(entry_lookup(eview.skip(i as int), key) == Some(eview[i as int].value));
                return Some(entries[i].value);
            }
            i += 1;
        }
        proof {
            assert(eview.skip(n as int) =~= Seq::<MapEntry>::empty());
        }
        None
    }
}

} // verus!
