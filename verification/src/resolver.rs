//! Foreign dependency resolution.
//!
//! A transaction that reads another account's state through a nested
//! cross-contract call must declare, up front, every foreign account it
//! depends on. Given a root account whose storage lists its secondary
//! accounts, the resolver discovers the count slot by a naming
//! convention (falling back to the first declared slot), reads the
//! count, decodes the secondary identifiers from the remaining value
//! slots in declaration order, and plans one storage requirement per
//! secondary — with an empty key set, proving only the account's root
//! commitment — followed by the root itself.

use vstd::prelude::*;
use crate::account::{account_encoding_wf, decoded_account_id, AccountId};
use crate::field::Word;
use crate::search::{bytes_eq, contains_bytes, contains_subslice};
use crate::storage::{read_slot, AccountStorage, SlotContent, StorageSlotV};

verus! {

/// The map entries of one slot that a foreign read must prove
/// available; an empty key set asks only for the account's root
/// commitment.
#[derive(Clone, Debug)]
pub struct SlotKeyRequirement {
    pub name: Vec<u8>,
    pub keys: Vec<Word>,
}

/// Ghost view of a slot key requirement.
pub ghost struct SlotKeyRequirementV {
    pub name: Seq<u8>,
    pub keys: Seq<Word>,
}

impl View for SlotKeyRequirement {
    type V = SlotKeyRequirementV;

    open spec fn view(&self) -> SlotKeyRequirementV {
        SlotKeyRequirementV { name: self.name@, keys: self.keys@ }
    }
}

/// One foreign account a transaction depends on, with the storage it
/// must prove available.
#[derive(Clone, Debug)]
pub struct ForeignAccountRequirement {
    pub account: AccountId,
    pub slot_keys: Vec<SlotKeyRequirement>,
}

/// Ghost view of a foreign account requirement.
pub ghost struct ForeignAccountRequirementV {
    pub account: AccountId,
    pub slot_keys: Seq<SlotKeyRequirementV>,
}

impl View for ForeignAccountRequirement {
    type V = ForeignAccountRequirementV;

    open spec fn view(&self) -> ForeignAccountRequirementV {
        ForeignAccountRequirementV {
            account: self.account,
            slot_keys: self.slot_keys@.map_values(|k: SlotKeyRequirement| k@),
        }
    }
}

/// An account projection the client has already imported and synced,
/// handed to the resolver by the caller.
#[derive(Clone, Debug)]
pub struct FetchedAccount {
    pub id: AccountId,
    pub storage: AccountStorage,
}

/// Ghost view of a fetched account.
pub ghost struct FetchedAccountV {
    pub id: AccountId,
    pub storage: Seq<StorageSlotV>,
}

impl View for FetchedAccount {
    type V = FetchedAccountV;

    open spec fn view(&self) -> FetchedAccountV {
        FetchedAccountV { id: self.id, storage: self.storage@ }
    }
}

/// Why resolution failed. A missing dependency makes the downstream
/// foreign call unprovable, so every failure is terminal for the step.
#[derive(Clone, Copy, PartialEq, Eq, Structural, Debug)]
pub enum ResolutionError {
    /// The root account's storage has no slots at all.
    NoStorage,
    /// A stored secondary identifier is not a well-formed encoding.
    InvalidAccountEncoding,
    /// A decoded secondary account has not been fetched.
    AccountUnavailable,
}

/// The bytes of `"publisher"`.
pub open spec fn publisher_pattern() -> Seq<u8> {
    seq![112u8, 117u8, 98u8, 108u8, 105u8, 115u8, 104u8, 101u8, 114u8]
}

/// The bytes of `"count"`.
pub open spec fn count_pattern() -> Seq<u8> {
    seq![99u8, 111u8, 117u8, 110u8, 116u8]
}

/// A slot name that signals the publisher count by convention.
pub open spec fn is_count_name(name: Seq<u8>) -> bool {
    contains_bytes(name, publisher_pattern()) && contains_bytes(name, count_pattern())
}

/// The first index whose slot name matches the count convention, or
/// the length when none does.
pub open spec fn first_count_index(slots: Seq<StorageSlotV>) -> int
    decreases slots.len(),
{
    if slots.len() == 0 {
        0
    } else if is_count_name(slots[0].name) {
        0
    } else {
        1 + first_count_index(slots.skip(1))
    }
}

pub proof fn lemma_first_count_index(slots: Seq<StorageSlotV>)
    ensures
        0 <= first_count_index(slots) <= slots.len(),
        first_count_index(slots) < slots.len() ==> is_count_name(
            slots[first_count_index(slots)].name,
        ),
        forall|k: int|
            0 <= k < first_count_index(slots) ==> !is_count_name(#[trigger] slots[k].name),
    decreases slots.len(),
{
    if slots.len() == 0 {
    } else if is_count_name(slots[0].name) {
    } else {
        let rest = slots.skip(1);
        lemma_first_count_index(rest);
        let fi = first_count_index(slots);
        assert forall|k: int| 0 <= k < fi implies !is_count_name(#[trigger] slots[k].name) by {
            if k > 0 {
                assert(rest[k - 1] == slots[k]);
            }
        }
        if fi < slots.len() {
            assert(rest[fi - 1] == slots[fi]);
        }
    }
}

/// The index of the slot used as the count slot: the first whose name
/// matches the convention, and as a resilience fallback against naming
/// drift, the first declared slot when none matches.
pub open spec fn count_slot_index(slots: Seq<StorageSlotV>) -> int {
    if first_count_index(slots) < slots.len() {
        first_count_index(slots)
    } else {
        0
    }
}

/// The name of the count slot.
pub open spec fn count_slot_name(slots: Seq<StorageSlotV>) -> Seq<u8> {
    slots[count_slot_index(slots)].name
}

/// The declared publisher count: the first word component of the count
/// slot, or zero when that slot holds no single word.
pub open spec fn publisher_count(slots: Seq<StorageSlotV>) -> u64 {
    match read_slot(slots[count_slot_index(slots)]) {
        Some(w) => w.e0,
        None => 0,
    }
}

/// A slot that may hold a secondary identifier: a value slot other
/// than the count slot.
pub open spec fn is_secondary_slot(s: StorageSlotV, count_name: Seq<u8>) -> bool {
    s.content is ValueSlot && s.name != count_name
}

/// The candidate secondary slots of a prefix of the storage, given the
/// count slot's name.
pub open spec fn candidates_in(prefix: Seq<StorageSlotV>, count_name: Seq<u8>)
    -> Seq<StorageSlotV> {
    prefix.filter(|s: StorageSlotV| is_secondary_slot(s, count_name))
}

/// The candidate secondary slots, in declaration order.
pub open spec fn secondary_candidates(slots: Seq<StorageSlotV>) -> Seq<StorageSlotV> {
    candidates_in(slots, count_slot_name(slots))
}

/// How many secondary slots are taken: one fewer than the count — the
/// root itself is counted — bounded by what is declared.
pub open spec fn taken_count(slots: Seq<StorageSlotV>) -> int {
    let want = if publisher_count(slots) == 0 {
        0
    } else {
        publisher_count(slots) - 1
    };
    let avail = secondary_candidates(slots).len() as int;
    if want <= avail {
        want as int
    } else {
        avail
    }
}

/// The secondary slots actually taken, in declaration order.
pub open spec fn taken_secondaries(slots: Seq<StorageSlotV>) -> Seq<StorageSlotV> {
    secondary_candidates(slots).take(taken_count(slots))
}

/// The single word of a value slot; a map slot has none and reads as
/// the zero word.
pub open spec fn slot_word(s: StorageSlotV) -> Word {
    match read_slot(s) {
        Some(w) => w,
        None => Word { e0: 0, e1: 0, e2: 0, e3: 0 },
    }
}

/// The decoded secondary identifiers, in slot-declaration order.
pub open spec fn taken_ids(slots: Seq<StorageSlotV>) -> Seq<AccountId> {
    taken_secondaries(slots).map_values(|s: StorageSlotV| decoded_account_id(slot_word(s)))
}

/// Every taken slot holds a well-formed identifier encoding.
pub open spec fn all_encodings_wf(slots: Seq<StorageSlotV>) -> bool {
    forall|i: int|
        0 <= i < taken_secondaries(slots).len() ==> account_encoding_wf(
            slot_word(#[trigger] taken_secondaries(slots)[i]),
        )
}

/// The first index of a fetched account with the given identifier, or
/// the length when none matches.
pub open spec fn fetched_index(fetched: Seq<FetchedAccountV>, id: AccountId) -> int
    decreases fetched.len(),
{
    if fetched.len() == 0 {
        0
    } else if fetched[0].id == id {
        0
    } else {
        1 + fetched_index(fetched.skip(1), id)
    }
}

pub proof fn lemma_fetched_index(fetched: Seq<FetchedAccountV>, id: AccountId)
    ensures
        0 <= fetched_index(fetched, id) <= fetched.len(),
        fetched_index(fetched, id) < fetched.len() ==> fetched[fetched_index(fetched, id)].id
            == id,
        forall|k: int|
            0 <= k < fetched_index(fetched, id) ==> (#[trigger] fetched[k]).id != id,
    decreases fetched.len(),
{
    if fetched.len() == 0 {
    } else if fetched[0].id == id {
    } else {
        let rest = fetched.skip(1);
        lemma_fetched_index(rest, id);
        let fi = fetched_index(fetched, id);
        assert forall|k: int| 0 <= k < fi implies (#[trigger] fetched[k]).id != id by {
            if k > 0 {
                assert(rest[k - 1] == fetched[k]);
            }
        }
        if fi < fetched.len() {
            assert(rest[fi - 1] == fetched[fi]);
        }
    }
}

/// The account has been fetched.
pub open spec fn is_available(fetched: Seq<FetchedAccountV>, id: AccountId) -> bool {
    fetched_index(fetched, id) < fetched.len()
}

/// Every decoded secondary account has been fetched.
pub open spec fn all_available(slots: Seq<StorageSlotV>, fetched: Seq<FetchedAccountV>) -> bool {
    forall|i: int|
        0 <= i < taken_ids(slots).len() ==> is_available(fetched, #[trigger] taken_ids(slots)[i])
}

/// The map slots of a prefix of an account's storage.
pub open spec fn map_slots_in(prefix: Seq<StorageSlotV>) -> Seq<StorageSlotV> {
    prefix.filter(|s: StorageSlotV| s.content is MapSlot)
}

/// The names of an account's map slots, in declaration order.
pub open spec fn map_slot_names(storage: Seq<StorageSlotV>) -> Seq<Seq<u8>> {
    map_slots_in(storage).map_values(|s: StorageSlotV| s.name)
}

/// The storage requirements planned over a prefix of an account's
/// storage: one per map slot, each with an empty key set.
pub open spec fn key_requirements_of(prefix: Seq<StorageSlotV>) -> Seq<SlotKeyRequirementV> {
    map_slots_in(prefix).map_values(
        |s: StorageSlotV| SlotKeyRequirementV { name: s.name, keys: Seq::empty() },
    )
}

/// The views of a slot key requirement list.
pub open spec fn key_reqs_view(v: Seq<SlotKeyRequirement>) -> Seq<SlotKeyRequirementV> {
    v.map_values(|k: SlotKeyRequirement| k@)
}

/// The requirement planned for one secondary account: every one of its
/// map slots, each with an empty key set — the foreign read proves the
/// account and its commitment, not any particular map entry.
pub open spec fn secondary_requirement(id: AccountId, storage: Seq<StorageSlotV>)
    -> ForeignAccountRequirementV {
    ForeignAccountRequirementV { account: id, slot_keys: key_requirements_of(storage) }
}

/// The requirement planned for the root account: no storage
/// requirements at all.
pub open spec fn root_requirement(root: AccountId) -> ForeignAccountRequirementV {
    ForeignAccountRequirementV { account: root, slot_keys: Seq::empty() }
}

/// The views of a planned requirement list.
pub open spec fn reqs_view(v: Seq<ForeignAccountRequirement>) -> Seq<ForeignAccountRequirementV> {
    v.map_values(|r: ForeignAccountRequirement| r@)
}

/// The views of the fetched account list.
pub open spec fn fetched_view(v: Seq<FetchedAccount>) -> Seq<FetchedAccountV> {
    v.map_values(|f: FetchedAccount| f@)
}

/// The full plan on success: the decoded secondaries in
/// slot-declaration order, each with its fetched storage's map slots
/// and empty key sets, then the root.
pub open spec fn resolved_requirements(
    root: AccountId,
    slots: Seq<StorageSlotV>,
    fetched: Seq<FetchedAccountV>,
) -> Seq<ForeignAccountRequirementV> {
    taken_ids(slots).map_values(
        |id: AccountId| secondary_requirement(id, fetched[fetched_index(fetched, id)].storage),
    ).push(root_requirement(root))
}

proof fn lemma_candidates_step(slots: Seq<StorageSlotV>, cname: Seq<u8>, j: int)
    requires
        0 <= j < slots.len(),
    ensures
        candidates_in(slots.take(j + 1), cname) == if is_secondary_slot(slots[j], cname) {
            candidates_in(slots.take(j), cname).push(slots[j])
        } else {
            candidates_in(slots.take(j), cname)
        },
{
    reveal_with_fuel(Seq::filter, 2);
    let pre = slots.take(j + 1);
    assert(pre.drop_last() =~= slots.take(j));
    assert(pre.last() == slots[j]);
}

proof fn lemma_candidates_empty(cname: Seq<u8>)
    ensures
        candidates_in(Seq::<StorageSlotV>::empty(), cname) == Seq::<StorageSlotV>::empty(),
{
    reveal_with_fuel(Seq::filter, 1);
}

proof fn lemma_map_slots_step(storage: Seq<StorageSlotV>, u: int)
    requires
        0 <= u < storage.len(),
    ensures
        map_slots_in(storage.take(u + 1)) == if storage[u].content is MapSlot {
            map_slots_in(storage.take(u)).push(storage[u])
        } else {
            map_slots_in(storage.take(u))
        },
{
    reveal_with_fuel(Seq::filter, 2);
    let pre = storage.take(u + 1);
    assert(pre.drop_last() =~= storage.take(u));
    assert(pre.last() == storage[u]);
}

proof fn lemma_key_reqs_view_push(v: Seq<SlotKeyRequirement>, q: SlotKeyRequirement)
    ensures
        key_reqs_view(v.push(q)) == key_reqs_view(v).push(q@),
{
    assert(key_reqs_view(v.push(q)) =~= key_reqs_view(v).push(q@));
}

proof fn lemma_key_requirements_step(storage: Seq<StorageSlotV>, u: int)
    requires
        0 <= u < storage.len(),
    ensures
        key_requirements_of(storage.take(u + 1)) == if storage[u].content is MapSlot {
            key_requirements_of(storage.take(u)).push(
                SlotKeyRequirementV { name: storage[u].name, keys: Seq::empty() },
            )
        } else {
            key_requirements_of(storage.take(u))
        },
{
    lemma_map_slots_step(storage, u);
    if storage[u].content is MapSlot {
        assert(key_requirements_of(storage.take(u + 1)) =~= key_requirements_of(
            storage.take(u),
        ).push(SlotKeyRequirementV { name: storage[u].name, keys: Seq::empty() }));
    }
}

proof fn lemma_map_slots_empty()
    ensures
        map_slots_in(Seq::<StorageSlotV>::empty()) == Seq::<StorageSlotV>::empty(),
{
    reveal_with_fuel(Seq::filter, 1);
}

/// Resolver count invariant: when the count slot reads `k >= 1` and at
/// least `k - 1` candidate slots are declared, the plan holds exactly
/// `k` requirements — the `k - 1` decoded secondaries in
/// slot-declaration order, every key set of every secondary empty —
/// and the root itself, with no storage requirements, last.
pub proof fn lemma_resolver_count_invariant(
    root: AccountId,
    slots: Seq<StorageSlotV>,
    fetched: Seq<FetchedAccountV>,
)
    requires
        slots.len() > 0,
        publisher_count(slots) >= 1,
        secondary_candidates(slots).len() >= publisher_count(slots) - 1,
    ensures
        resolved_requirements(root, slots, fetched).len() == publisher_count(slots),
        taken_ids(slots).len() == publisher_count(slots) - 1,
        forall|i: int|
            0 <= i < taken_ids(slots).len() ==> (#[trigger] resolved_requirements(
                root,
                slots,
                fetched,
            )[i]).account == taken_ids(slots)[i],
        forall|i: int, j: int|
            0 <= i < taken_ids(slots).len() && 0 <= j < resolved_requirements(
                root,
                slots,
                fetched,
            )[i].slot_keys.len() ==> (#[trigger] resolved_requirements(
                root,
                slots,
                fetched,
            )[i].slot_keys[j]).keys == Seq::<Word>::empty(),
        resolved_requirements(root, slots, fetched).last() == root_requirement(root),
{
    assert(taken_count(slots) == publisher_count(slots) - 1);
}

/// Resolver fallback: when no slot name matches the count convention,
/// the first declared slot serves as the count slot; no error arises
/// from the missing convention.
pub proof fn lemma_count_slot_fallback(slots: Seq<StorageSlotV>)
    requires
        slots.len() > 0,
        forall|i: int| 0 <= i < slots.len() ==> !is_count_name(#[trigger] slots[i].name),
    ensures
        count_slot_index(slots) == 0,
{
    lemma_first_count_index(slots);
    if first_count_index(slots) < slots.len() {
        assert(is_count_name(slots[first_count_index(slots)].name));
    }
}

/// The bytes of `"publisher"`, as a vector.
fn publisher_pattern_vec() -> (v: Vec<u8>)
    ensures
        v@ =~= publisher_pattern(),
{
    let mut v: Vec<u8> = Vec::new();
    v.push(112);
    v.push(117);
    v.push(98);
    v.push(108);
    v.push(105);
    v.push(115);
    v.push(104);
    v.push(101);
    v.push(114);
    v
}

/// The bytes of `"count"`, as a vector.
fn count_pattern_vec() -> (v: Vec<u8>)
    ensures
        v@ =~= count_pattern(),
{
    let mut v: Vec<u8> = Vec::new();
    v.push(99);
    v.push(111);
    v.push(117);
    v.push(110);
    v.push(116);
    v
}

/// Whether a slot name signals the publisher count by convention.
pub fn is_count_slot_name(name: &[u8]) -> (r: bool)
    ensures
        r == is_count_name(name@),
{
    let publisher = publisher_pattern_vec();
    let count = count_pattern_vec();
    contains_subslice(name, publisher.as_slice()) && contains_subslice(name, count.as_slice())
}

/// Resolve the foreign account requirements for a cross-contract read
/// rooted at `root`, whose synced storage is `root_storage`; `fetched`
/// holds the account projections the caller has imported, and a
/// decoded secondary missing from it is unavailable.
///
/// On success the plan lists the decoded secondaries in
/// slot-declaration order — duplicates, if the encoding degenerates,
/// are passed through — each with its map slots and an empty key set,
/// and the root itself last with no storage requirements.
pub fn resolve(
    root: AccountId,
    root_storage: &AccountStorage,
    fetched: &Vec<FetchedAccount>,
) -> (r: Result<Vec<ForeignAccountRequirement>, ResolutionError>)
    ensures
        match r {
            Ok(reqs) => {
                &&& root_storage@.len() > 0
                &&& all_encodings_wf(root_storage@)
                &&& all_available(root_storage@, fetched_view(fetched@))
                &&& reqs_view(reqs@) == resolved_requirements(
                    root,
                    root_storage@,
                    fetched_view(fetched@),
                )
            },
            Err(ResolutionError::NoStorage) => root_storage@.len() == 0,
            Err(ResolutionError::InvalidAccountEncoding) => root_storage@.len() > 0
                && !all_encodings_wf(root_storage@),
            Err(ResolutionError::AccountUnavailable) => root_storage@.len() > 0
                && all_encodings_wf(root_storage@) && !all_available(
                root_storage@,
                fetched_view(fetched@),
            ),
        },
{
    let ghost slots = root_storage@;
    let n: usize = root_storage.slots.len();
    if n == 0 {
        return Err(ResolutionError::NoStorage);
    }

    // Locate the count slot: first name match, else the first slot.
    let mut ci: usize = 0;
    let mut found: bool = false;
    let mut i: usize = 0;
    while i < n && !found
        invariant
            0 <= i <= n,
            n == slots.len(),
            slots == root_storage@,
            !found ==> forall|k: int| 0 <= k < i ==> !is_count_name(#[trigger] slots[k].name),
            found ==> ci < n && is_count_name(slots[ci as int].name) && forall|k: int|
                0 <= k < ci ==> !is_count_name(#[trigger] slots[k].name),
        decreases n - i + (if found { 0int } else { 1int }),
    {
        if is_count_slot_name(root_storage.slots[i].name.as_slice()) {
            ci = i;
            found = true;
        } else {
            i += 1;
        }
    }
    proof {
        lemma_first_count_index(slots);
        if found {
            assert(count_slot_index(slots) == ci);
        } else {
            assert(first_count_index(slots) == slots.len());
            assert(count_slot_index(slots) == 0);
        }
    }
    if !found {
        ci = 0;
    }
    assert(ci == count_slot_index(slots));

    // Read the declared count from the count slot's first component.
    let count: u64 = match &root_storage.slots[ci].content {
        SlotContent::ValueSlot(w) => w.e0,
        SlotContent::MapSlot(_) => 0,
    };
    assert(count == publisher_count(slots));

    // Gather candidate secondary slots: value slots other than the
    // count slot, in declaration order.
    let count_name = &root_storage.slots[ci].name;
    let ghost cname = count_slot_name(slots);
    assert(count_name@ == cname);
    let mut cand_words: Vec<Word> = Vec::new();
    let mut j: usize = 0;
    while j < n
        invariant
            0 <= j <= n,
            n == slots.len(),
            slots == root_storage@,
            ci < n,
            count_name@ == cname,
            count_name@ == root_storage.slots@[ci as int]@.name,
            cand_words@ =~= candidates_in(slots.take(j as int), cname).map_values(
                |s: StorageSlotV| slot_word(s),
            ),
        decreases n - j,
    {
        let slot = &root_storage.slots[j];
        proof {
            lemma_candidates_step(slots, cname, j as int);
        }
        match &slot.content {
            SlotContent::ValueSlot(w) => {
                if !bytes_eq(slot.name.as_slice(), count_name.as_slice()) {
                    cand_words.push(*w);
                    assert(is_secondary_slot(slots[j as int], cname));
                } else {
                    assert(!is_secondary_slot(slots[j as int], cname));
                }
            },
            SlotContent::MapSlot(_) => {
                assert(!is_secondary_slot(slots[j as int], cname));
            },
        }
        j += 1;
    }
    proof {
        assert(slots.take(n as int) =~= slots);
        assert(cand_words@ =~= secondary_candidates(slots).map_values(
            |s: StorageSlotV| slot_word(s),
        ));
    }

    // Take exactly count - 1 of them — the root itself is counted —
    // bounded by what is declared, and decode each.
    let want: u64 = if count == 0 {
        0
    } else {
        count - 1
    };
    let take_n: usize = if want <= cand_words.len() as u64 {
        want as usize
    } else {
        cand_words.len()
    };
    assert(take_n as int == taken_count(slots));

    let mut ids: Vec<AccountId> = Vec::new();
    let mut k: usize = 0;
    while k < take_n
        invariant
            0 <= k <= take_n,
            slots == root_storage@,
            slots.len() > 0,
            take_n as int == taken_count(slots),
            take_n <= cand_words@.len(),
            cand_words@ =~= secondary_candidates(slots).map_values(
                |s: StorageSlotV| slot_word(s),
            ),
            ids@.len() == k,
            forall|m: int|
                0 <= m < k ==> account_encoding_wf(
                    slot_word(#[trigger] taken_secondaries(slots)[m]),
                ),
            forall|m: int| 0 <= m < k ==> ids@[m] == taken_ids(slots)[m],
        decreases take_n - k,
    {
        proof {
            assert(taken_secondaries(slots)[k as int] == secondary_candidates(slots)[k as int]);
            assert(cand_words@[k as int] == slot_word(taken_secondaries(slots)[k as int]));
        }
        match crate::account::decode_account_id(cand_words[k]) {
            Some(id) => {
                ids.push(id);
            },
            None => {
                assert(!all_encodings_wf(slots));
                return Err(ResolutionError::InvalidAccountEncoding);
            },
        }
        k += 1;
    }
    assert(all_encodings_wf(slots)) by {
        assert(taken_secondaries(slots).len() == take_n as int);
    }
    assert(ids@ =~= taken_ids(slots));

    // Plan one requirement per secondary, in order, then the root.
    let ghost fview = fetched_view(fetched@);
    let mut reqs: Vec<ForeignAccountRequirement> = Vec::new();
    let mut k2: usize = 0;
    while k2 < ids.len()
        invariant
            0 <= k2 <= ids@.len(),
            slots == root_storage@,
            slots.len() > 0,
            ids@ =~= taken_ids(slots),
            fview == fetched_view(fetched@),
            all_encodings_wf(slots),
            reqs@.len() == k2,
            forall|m: int| 0 <= m < k2 ==> is_available(fview, #[trigger] taken_ids(slots)[m]),
            forall|m: int|
                0 <= m < k2 ==> (#[trigger] reqs@[m])@ == secondary_requirement(
                    taken_ids(slots)[m],
                    fview[fetched_index(fview, taken_ids(slots)[m])].storage,
                ),
        decreases ids@.len() - k2,
    {
        let id = ids[k2];

        // Look the account up among the fetched projections.
        let nf: usize = fetched.len();
        let mut fidx: usize = 0;
        let mut favail: bool = false;
        let mut t: usize = 0;
        while t < nf && !favail
            invariant
                0 <= t <= nf,
                nf == fview.len(),
                fview == fetched_view(fetched@),
                !favail ==> forall|u: int| 0 <= u < t ==> (#[trigger] fview[u]).id != id,
                favail ==> fidx < nf && fview[fidx as int].id == id && forall|u: int|
                    0 <= u < fidx ==> (#[trigger] fview[u]).id != id,
            decreases nf - t + (if favail { 0int } else { 1int }),
        {
            if fetched[t].id == id {
                fidx = t;
                favail = true;
            } else {
                t += 1;
            }
        }
        proof {
            lemma_fetched_index(fview, id);
        }
        if !favail {
            assert(fetched_index(fview, id) == fview.len());
            assert(!is_available(fview, id));
            assert(!all_available(slots, fview)) by {
                assert(taken_ids(slots)[k2 as int] == id);
            }
            return Err(ResolutionError::AccountUnavailable);
        }
        assert(fidx as int == fetched_index(fview, id));

        // Every map slot of the secondary, each with an empty key set.
        let sec_storage = &fetched[fidx].storage;
        let ghost sec = fview[fidx as int].storage;
        assert(sec_storage@ == sec);
        let ns: usize = sec_storage.slots.len();
        let mut slot_keys: Vec<SlotKeyRequirement> = Vec::new();
        let mut u: usize = 0;
        while u < ns
            invariant
                0 <= u <= ns,
                ns == sec.len(),
                sec_storage@ == sec,
                key_reqs_view(slot_keys@) =~= key_requirements_of(sec.take(u as int)),
            decreases ns - u,
        {
            let slot = &sec_storage.slots[u];
            proof {
                lemma_key_requirements_step(sec, u as int);
            }
            match &slot.content {
                SlotContent::ValueSlot(_) => {
                },
                SlotContent::MapSlot(_) => {
                    let name_copy = slot.name.clone();
                    assert(name_copy@ == sec[u as int].name);
                    let ghost old_keys = slot_keys@;
                    let entry = SlotKeyRequirement { name: name_copy, keys: Vec::new() };
                    assert(entry@ == (SlotKeyRequirementV {
                        name: sec[u as int].name,
                        keys: Seq::empty(),
                    }));
                    slot_keys.push(entry);
                    proof {
                        lemma_key_reqs_view_push(old_keys, slot_keys@[old_keys.len() as int]);
                        assert(slot_keys@ == old_keys.push(slot_keys@[old_keys.len() as int]));
                    }
                },
            }
            u += 1;
        }
        proof {
            assert(sec.take(ns as int) =~= sec);
        }
        let req = ForeignAccountRequirement { account: id, slot_keys };
        assert(req@ == secondary_requirement(id, sec)) by {
            assert(req@.slot_keys =~= key_reqs_view(req.slot_keys@));
            assert(key_requirements_of(sec) == secondary_requirement(id, sec).slot_keys);
        }
        reqs.push(req);
        k2 += 1;
    }

    reqs.push(ForeignAccountRequirement { account: root, slot_keys: Vec::new() });
    assert(reqs@[taken_ids(slots).len() as int]@ == root_requirement(root)) by {
        assert(reqs@[taken_ids(slots).len() as int].slot_keys@.map_values(
            |q: SlotKeyRequirement| q@,
        ) =~= Seq::<SlotKeyRequirementV>::empty());
    }
    assert(all_available(slots, fview));
    assert(reqs_view(reqs@) =~= resolved_requirements(root, slots, fview));
    Ok(reqs)
}

} // verus!
