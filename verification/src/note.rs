//! Notes: value containers with a cryptographic identity.
//!
//! A note has three parts: assets, metadata, and the recipient that
//! determines its spend conditions. Its identity is a content digest —
//! a pure function of those three parts alone — so two notes with
//! identical fields are indistinguishable and fungible for consumption.
//! The digest is the RPO-256 hash of the note's canonical field-element
//! encoding.

use vstd::prelude::*;
use crate::account::{account_id_wf, AccountId};
use crate::chain::{recipient_wf, Recipient, RecipientV};
use crate::digest::{rpo_digest_of, rpo_hash_elements};
use crate::field::{felt_wf, word_wf, Word, FIELD_MODULUS};

verus! {

/// Who can observe a note's details on chain.
#[derive(Clone, Copy, PartialEq, Eq, Structural, Debug)]
pub enum NoteVisibility {
    Public,
    Private,
}

/// Network-targeted delivery: the note is addressed to a network
/// account for automatic consumption.
#[derive(Clone, Copy, PartialEq, Eq, Structural, Debug)]
pub struct NetworkAttachment {
    pub target: AccountId,
}

/// A note's metadata: who produced it, who may see it, how it is
/// routed, and an optional network-delivery attachment.
#[derive(Clone, Copy, Debug)]
pub struct NoteMetadata {
    pub sender: AccountId,
    pub visibility: NoteVisibility,
    pub tag: u32,
    pub attachment: Option<NetworkAttachment>,
}

/// One asset held by a note's vault.
#[derive(Clone, Copy, PartialEq, Eq, Structural, Debug)]
pub enum Asset {
    Fungible { faucet: AccountId, amount: u64 },
    NonFungible { id: Word },
}

/// A note: assets, metadata, and the recipient that determines its
/// spend conditions. A pure signal note has an empty asset list.
#[derive(Clone, Debug)]
pub struct Note {
    pub assets: Vec<Asset>,
    pub metadata: NoteMetadata,
    pub recipient: Recipient,
}

/// Ghost view of a note.
pub ghost struct NoteV {
    pub assets: Seq<Asset>,
    pub metadata: NoteMetadata,
    pub recipient: RecipientV,
}

impl View for Note {
    type V = NoteV;

    open spec fn view(&self) -> NoteV {
        NoteV { assets: self.assets@, metadata: self.metadata, recipient: self.recipient@ }
    }
}

/// An asset's parts are canonical field elements.
pub open spec fn asset_wf(a: Asset) -> bool {
    match a {
        Asset::Fungible { faucet, amount } => account_id_wf(faucet) && felt_wf(amount),
        Asset::NonFungible { id } => word_wf(id),
    }
}

/// The metadata's identifiers are well-formed.
pub open spec fn metadata_wf(m: NoteMetadata) -> bool {
    account_id_wf(m.sender) && match m.attachment {
        Some(att) => account_id_wf(att.target),
        None => true,
    }
}

/// A well-formed note: every part a canonical field element, and both
/// lists short enough for their lengths to be field elements.
pub open spec fn note_wf(n: NoteV) -> bool {
    &&& metadata_wf(n.metadata)
    &&& recipient_wf(n.recipient)
    &&& forall|i: int| 0 <= i < n.assets.len() ==> asset_wf(#[trigger] n.assets[i])
    &&& n.assets.len() < FIELD_MODULUS
    &&& n.recipient.inputs.len() < FIELD_MODULUS
}

/// The canonical encoding of one asset, tagged by its variant.
pub open spec fn asset_encoding(a: Asset) -> Seq<u64> {
    match a {
        Asset::Fungible { faucet, amount } => seq![0u64, faucet.prefix, faucet.suffix, amount],
        Asset::NonFungible { id } => seq![1u64, id.e0, id.e1, id.e2, id.e3],
    }
}

/// The canonical encoding of an asset list, in order.
pub open spec fn assets_encoding(s: Seq<Asset>) -> Seq<u64>
    decreases s.len(),
{
    if s.len() == 0 {
        Seq::empty()
    } else {
        assets_encoding(s.drop_last()) + asset_encoding(s.last())
    }
}

/// The code of a visibility.
pub open spec fn visibility_code(v: NoteVisibility) -> u64 {
    match v {
        NoteVisibility::Public => 0,
        NoteVisibility::Private => 1,
    }
}

/// The canonical encoding of a note's metadata.
pub open spec fn metadata_encoding(m: NoteMetadata) -> Seq<u64> {
    seq![m.sender.prefix, m.sender.suffix, visibility_code(m.visibility), m.tag as u64]
        + match m.attachment {
        Some(att) => seq![1u64, att.target.prefix, att.target.suffix],
        None => seq![0u64],
    }
}

/// The four components of a word, in order.
pub open spec fn word_encoding(w: Word) -> Seq<u64> {
    seq![w.e0, w.e1, w.e2, w.e3]
}

/// The canonical encoding of a recipient, its input list length
/// prefixed.
pub open spec fn recipient_encoding(r: RecipientV) -> Seq<u64> {
    word_encoding(r.serial) + word_encoding(r.script_root) + seq![r.inputs.len() as u64]
        + r.inputs
}

/// The canonical field-element encoding of a whole note, its asset
/// list length prefixed.
pub open spec fn note_encoding(n: NoteV) -> Seq<u64> {
    seq![n.assets.len() as u64] + assets_encoding(n.assets) + metadata_encoding(n.metadata)
        + recipient_encoding(n.recipient)
}

/// A note's identity: the RPO-256 digest of its canonical encoding —
/// a pure function of assets, metadata and recipient.
pub open spec fn note_commitment_spec(n: NoteV) -> Word {
    rpo_digest_of(note_encoding(n))
}

proof fn lemma_asset_encoding_wf(a: Asset)
    requires
        asset_wf(a),
    ensures
        forall|i: int| 0 <= i < asset_encoding(a).len() ==> felt_wf(#[trigger] asset_encoding(a)[i]),
{
    match a {
        Asset::Fungible { faucet, amount } => {
            assert(asset_encoding(a)[0] == 0u64);
            assert(asset_encoding(a)[1] == faucet.prefix);
            assert(asset_encoding(a)[2] == faucet.suffix);
            assert(asset_encoding(a)[3] == amount);
        },
        Asset::NonFungible { id } => {
            assert(asset_encoding(a)[0] == 1u64);
            assert(asset_encoding(a)[1] == id.e0);
            assert(asset_encoding(a)[2] == id.e1);
            assert(asset_encoding(a)[3] == id.e2);
            assert(asset_encoding(a)[4] == id.e3);
        },
    }
}

proof fn lemma_assets_encoding_wf(s: Seq<Asset>)
    requires
        forall|i: int| 0 <= i < s.len() ==> asset_wf(#[trigger] s[i]),
    ensures
        forall|i: int|
            0 <= i < assets_encoding(s).len() ==> felt_wf(#[trigger] assets_encoding(s)[i]),
    decreases s.len(),
{
    if s.len() == 0 {
    } else {
        assert(forall|i: int|
            0 <= i < s.drop_last().len() ==> asset_wf(#[trigger] s.drop_last()[i]));
        lemma_assets_encoding_wf(s.drop_last());
        assert(asset_wf(s.last()));
        lemma_asset_encoding_wf(s.last());
        let rest = assets_encoding(s.drop_last());
        let tail = asset_encoding(s.last());
        assert(assets_encoding(s) == rest + tail);
        assert forall|i: int|
            0 <= i < assets_encoding(s).len() implies felt_wf(
            #[trigger] assets_encoding(s)[i],
        ) by {
            if i < rest.len() {
                assert(assets_encoding(s)[i] == rest[i]);
            } else {
                assert(assets_encoding(s)[i] == tail[i - rest.len()]);
            }
        }
    }
}

/// Every element of a well-formed note's encoding is a canonical
/// field element.
pub proof fn lemma_note_encoding_wf(n: NoteV)
    requires
        note_wf(n),
    ensures
        forall|i: int| 0 <= i < note_encoding(n).len() ==> felt_wf(#[trigger] note_encoding(n)[i]),
{
    lemma_assets_encoding_wf(n.assets);
}

proof fn lemma_assets_encoding_first(s: Seq<Asset>)
    requires
        s.len() > 0,
    ensures
        assets_encoding(s) == asset_encoding(s[0]) + assets_encoding(s.skip(1)),
    decreases s.len(),
{
    if s.len() == 1 {
        assert(s.drop_last() =~= Seq::<Asset>::empty());
        assert(s.skip(1) =~= Seq::<Asset>::empty());
        assert(assets_encoding(s) =~= asset_encoding(s[0]) + assets_encoding(s.skip(1)));
    } else {
        lemma_assets_encoding_first(s.drop_last());
        assert(s.drop_last()[0] == s[0]);
        assert(s.drop_last().skip(1) =~= s.skip(1).drop_last());
        assert(s.skip(1).last() == s.last());
        assert(assets_encoding(s.skip(1)) == assets_encoding(s.skip(1).drop_last())
            + asset_encoding(s.skip(1).last()));
        assert(assets_encoding(s) == (asset_encoding(s[0]) + assets_encoding(
            s.skip(1).drop_last(),
        )) + asset_encoding(s.last()));
        assert((asset_encoding(s[0]) + assets_encoding(s.skip(1).drop_last())) + asset_encoding(
            s.last(),
        ) =~= asset_encoding(s[0]) + assets_encoding(s.skip(1)));
    }
}

proof fn lemma_asset_encoding_injective(x: Asset, y: Asset, restx: Seq<u64>, resty: Seq<u64>)
    requires
        asset_encoding(x) + restx == asset_encoding(y) + resty,
    ensures
        x == y,
        restx == resty,
{
    let s = asset_encoding(x) + restx;
    assert(s[0] == asset_encoding(x)[0]);
    assert(s[0] == asset_encoding(y)[0]);
    match (x, y) {
        (
            Asset::Fungible { faucet: fx, amount: ax },
            Asset::Fungible { faucet: fy, amount: ay },
        ) => {
            assert(asset_encoding(x).len() == 4 && asset_encoding(y).len() == 4);
            assert(s[1] == asset_encoding(x)[1] && s[2] == asset_encoding(x)[2] && s[3]
                == asset_encoding(x)[3]);
            assert(s[1] == asset_encoding(y)[1] && s[2] == asset_encoding(y)[2] && s[3]
                == asset_encoding(y)[3]);
            assert(s[1] == fx.prefix && s[2] == fx.suffix && s[3] == ax);
            assert(s[1] == fy.prefix && s[2] == fy.suffix && s[3] == ay);
            assert(fx == fy && ax == ay);
            assert(restx =~= s.skip(4));
            assert(resty =~= s.skip(4));
        },
        (Asset::NonFungible { id: ix }, Asset::NonFungible { id: iy }) => {
            assert(asset_encoding(x).len() == 5 && asset_encoding(y).len() == 5);
            assert(s[1] == asset_encoding(x)[1] && s[2] == asset_encoding(x)[2] && s[3]
                == asset_encoding(x)[3] && s[4] == asset_encoding(x)[4]);
            assert(s[1] == asset_encoding(y)[1] && s[2] == asset_encoding(y)[2] && s[3]
                == asset_encoding(y)[3] && s[4] == asset_encoding(y)[4]);
            assert(s[1] == ix.e0 && s[2] == ix.e1 && s[3] == ix.e2 && s[4] == ix.e3);
            assert(s[1] == iy.e0 && s[2] == iy.e1 && s[3] == iy.e2 && s[4] == iy.e3);
            assert(ix == iy);
            assert(restx =~= s.skip(5));
            assert(resty =~= s.skip(5));
        },
        (Asset::Fungible { .. }, Asset::NonFungible { .. }) => {
            assert(asset_encoding(x)[0] == 0u64);
            assert(asset_encoding(y)[0] == 1u64);
        },
        (Asset::NonFungible { .. }, Asset::Fungible { .. }) => {
            assert(asset_encoding(x)[0] == 1u64);
            assert(asset_encoding(y)[0] == 0u64);
        },
    }
}

proof fn lemma_assets_encoding_injective(
    xs: Seq<Asset>,
    restx: Seq<u64>,
    ys: Seq<Asset>,
    resty: Seq<u64>,
)
    requires
        xs.len() == ys.len(),
        assets_encoding(xs) + restx == assets_encoding(ys) + resty,
    ensures
        xs == ys,
        restx == resty,
    decreases xs.len(),
{
    if xs.len() == 0 {
        assert(assets_encoding(xs) =~= Seq::<u64>::empty());
        assert(assets_encoding(ys) =~= Seq::<u64>::empty());
        assert(restx =~= assets_encoding(xs) + restx);
        assert(resty =~= assets_encoding(ys) + resty);
        assert(xs =~= ys);
    } else {
        lemma_assets_encoding_first(xs);
        lemma_assets_encoding_first(ys);
        assert((asset_encoding(xs[0]) + assets_encoding(xs.skip(1))) + restx =~= asset_encoding(
            xs[0],
        ) + (assets_encoding(xs.skip(1)) + restx));
        assert((asset_encoding(ys[0]) + assets_encoding(ys.skip(1))) + resty =~= asset_encoding(
            ys[0],
        ) + (assets_encoding(ys.skip(1)) + resty));
        lemma_asset_encoding_injective(
            xs[0],
            ys[0],
            assets_encoding(xs.skip(1)) + restx,
            assets_encoding(ys.skip(1)) + resty,
        );
        lemma_assets_encoding_injective(xs.skip(1), restx, ys.skip(1), resty);
        assert(xs =~= ys) by {
            assert(forall|i: int| 1 <= i < xs.len() ==> xs[i] == xs.skip(1)[i - 1]);
            assert(forall|i: int| 1 <= i < ys.len() ==> ys[i] == ys.skip(1)[i - 1]);
        }
    }
}

proof fn lemma_metadata_encoding_injective(
    mx: NoteMetadata,
    my: NoteMetadata,
    restx: Seq<u64>,
    resty: Seq<u64>,
)
    requires
        metadata_encoding(mx) + restx == metadata_encoding(my) + resty,
    ensures
        mx == my,
        restx == resty,
{
    let s = metadata_encoding(mx) + restx;
    assert(metadata_encoding(mx).len() >= 5 && metadata_encoding(my).len() >= 5);
    assert(s[0] == metadata_encoding(mx)[0] && s[1] == metadata_encoding(mx)[1] && s[2]
        == metadata_encoding(mx)[2] && s[3] == metadata_encoding(mx)[3]);
    assert(s[0] == metadata_encoding(my)[0] && s[1] == metadata_encoding(my)[1] && s[2]
        == metadata_encoding(my)[2] && s[3] == metadata_encoding(my)[3]);
    assert(s[0] == mx.sender.prefix && s[1] == mx.sender.suffix && s[2] == visibility_code(
        mx.visibility,
    ) && s[3] == mx.tag as u64);
    assert(s[0] == my.sender.prefix && s[1] == my.sender.suffix && s[2] == visibility_code(
        my.visibility,
    ) && s[3] == my.tag as u64);
    assert(mx.sender == my.sender);
    assert(visibility_code(mx.visibility) == visibility_code(my.visibility));
    match (mx.visibility, my.visibility) {
        (NoteVisibility::Public, NoteVisibility::Private) => {
            assert(false);
        },
        (NoteVisibility::Private, NoteVisibility::Public) => {
            assert(false);
        },
        _ => {
        },
    }
    assert(mx.tag == my.tag);
    assert(s[4] == metadata_encoding(mx)[4]);
    assert(s[4] == metadata_encoding(my)[4]);
    match (mx.attachment, my.attachment) {
        (Some(ax), Some(ay)) => {
            assert(metadata_encoding(mx).len() == 7 && metadata_encoding(my).len() == 7);
            assert(s[5] == metadata_encoding(mx)[5] && s[6] == metadata_encoding(mx)[6]);
            assert(s[5] == metadata_encoding(my)[5] && s[6] == metadata_encoding(my)[6]);
            assert(s[5] == ax.target.prefix && s[6] == ax.target.suffix);
            assert(s[5] == ay.target.prefix && s[6] == ay.target.suffix);
            assert(ax == ay);
            assert(restx =~= s.skip(7));
            assert(resty =~= s.skip(7));
        },
        (None, None) => {
            assert(metadata_encoding(mx).len() == 5);
            assert(restx =~= s.skip(5));
            assert(resty =~= s.skip(5));
        },
        (Some(_), None) => {
            assert(metadata_encoding(mx)[4] == 1u64);
            assert(metadata_encoding(my)[4] == 0u64);
        },
        (None, Some(_)) => {
            assert(metadata_encoding(mx)[4] == 0u64);
            assert(metadata_encoding(my)[4] == 1u64);
        },
    }
}

proof fn lemma_recipient_encoding_injective(rx: RecipientV, ry: RecipientV)
    requires
        rx.inputs.len() < FIELD_MODULUS,
        ry.inputs.len() < FIELD_MODULUS,
        recipient_encoding(rx) == recipient_encoding(ry),
    ensures
        rx == ry,
{
    let s = recipient_encoding(rx);
    assert(s[0] == rx.serial.e0 && s[1] == rx.serial.e1 && s[2] == rx.serial.e2 && s[3]
        == rx.serial.e3);
    assert(s[0] == ry.serial.e0 && s[1] == ry.serial.e1 && s[2] == ry.serial.e2 && s[3]
        == ry.serial.e3);
    assert(rx.serial == ry.serial);
    assert(s[4] == rx.script_root.e0 && s[5] == rx.script_root.e1 && s[6] == rx.script_root.e2
        && s[7] == rx.script_root.e3);
    assert(s[4] == ry.script_root.e0 && s[5] == ry.script_root.e1 && s[6] == ry.script_root.e2
        && s[7] == ry.script_root.e3);
    assert(rx.script_root == ry.script_root);
    assert(s[8] == rx.inputs.len() as u64);
    assert(s[8] == ry.inputs.len() as u64);
    assert(rx.inputs.len() == ry.inputs.len());
    assert forall|i: int| 0 <= i < rx.inputs.len() implies rx.inputs[i] == ry.inputs[i] by {
        assert(s[9 + i] == rx.inputs[i]);
        assert(recipient_encoding(ry)[9 + i] == ry.inputs[i]);
    }
    assert(rx.inputs =~= ry.inputs);
}

/// Distinct well-formed notes have distinct encodings: the canonical
/// encoding loses nothing, so changing any single field — the sender,
/// the tag, an asset amount, a serial component — changes the digest's
/// input.
pub proof fn lemma_note_encoding_injective(a: NoteV, b: NoteV)
    requires
        note_wf(a),
        note_wf(b),
        note_encoding(a) == note_encoding(b),
    ensures
        a == b,
{
    let s = note_encoding(a);
    assert(s[0] == a.assets.len() as u64);
    assert(s[0] == b.assets.len() as u64);
    assert(a.assets.len() == b.assets.len());
    let tail_a = metadata_encoding(a.metadata) + recipient_encoding(a.recipient);
    let tail_b = metadata_encoding(b.metadata) + recipient_encoding(b.recipient);
    assert(assets_encoding(a.assets) + tail_a =~= s.skip(1)) by {
        assert(note_encoding(a) =~= seq![a.assets.len() as u64] + (assets_encoding(a.assets)
            + tail_a));
    }
    assert(assets_encoding(b.assets) + tail_b =~= s.skip(1)) by {
        assert(note_encoding(b) =~= seq![b.assets.len() as u64] + (assets_encoding(b.assets)
            + tail_b));
    }
    lemma_assets_encoding_injective(a.assets, tail_a, b.assets, tail_b);
    lemma_metadata_encoding_injective(
        a.metadata,
        b.metadata,
        recipient_encoding(a.recipient),
        recipient_encoding(b.recipient),
    );
    lemma_recipient_encoding_injective(a.recipient, b.recipient);
}

/// Distinct well-formed notes feed distinct inputs to the content
/// digest: a change to any field — the sender, the tag, an asset
/// amount, one serial component — changes what is hashed.
pub proof fn lemma_distinct_notes_distinct_encodings(a: NoteV, b: NoteV)
    requires
        note_wf(a),
        note_wf(b),
        a != b,
    ensures
        note_encoding(a) != note_encoding(b),
{
    if note_encoding(a) == note_encoding(b) {
        lemma_note_encoding_injective(a, b);
    }
}

/// Note identity is a pure function of the fields: two notes with
/// identical assets, metadata and recipient carry the same content
/// digest.
pub proof fn lemma_note_identity_deterministic(a: NoteV, b: NoteV)
    requires
        a.assets == b.assets,
        a.metadata == b.metadata,
        a.recipient == b.recipient,
    ensures
        note_commitment_spec(a) == note_commitment_spec(b),
{
}

/// Whether every part of the note is well-formed.
pub fn note_is_wf(n: &Note) -> (r: bool)
    ensures
        r == note_wf(n@),
{
    let meta_ok = n.metadata.sender.is_wf() && match &n.metadata.attachment {
        Some(att) => att.target.is_wf(),
        None => true,
    };
    if !meta_ok {
        return false;
    }
    if !n.recipient.is_wf() {
        return false;
    }
    let ni: usize = n.recipient.inputs.len();
    if !((ni as u64) < FIELD_MODULUS) {
        return false;
    }
    let na: usize = n.assets.len();
    if !((na as u64) < FIELD_MODULUS) {
        return false;
    }
    let mut j: usize = 0;
    while j < na
        invariant
            0 <= j <= na,
            na == n.assets@.len(),
            forall|k: int| 0 <= k < j ==> asset_wf(#[trigger] n.assets@[k]),
        decreases na - j,
    {
        let ok = match &n.assets[j] {
            Asset::Fungible { faucet, amount } => faucet.is_wf() && *amount < FIELD_MODULUS,
            Asset::NonFungible { id } => id.is_wf(),
        };
        if !ok {
            return false;
        }
        j += 1;
    }
    true
}

/// A copy of an asset list.
pub fn duplicate_assets(assets: &Vec<Asset>) -> (r: Vec<Asset>)
    ensures
        r@ == assets@,
{
    let n: usize = assets.len();
    let mut r: Vec<Asset> = Vec::new();
    let mut i: usize = 0;
    while i < n
        invariant
            0 <= i <= n,
            n == assets@.len(),
            r@ =~= assets@.take(i as int),
        decreases n - i,
    {
        r.push(assets[i]);
        assert(r@ =~= assets@.take(i + 1 as int));
        i += 1;
    }
    assert(assets@.take(n as int) =~= assets@);
    r
}

impl Note {
    /// A copy of this note.
    pub fn duplicate(&self) -> (r: Note)
        ensures
            r@ == self@,
    {
        Note {
            assets: duplicate_assets(&self.assets),
            metadata: self.metadata,
            recipient: self.recipient.duplicate(),
        }
    }
}

/// The canonical encoding of a note's asset list.
fn encode_assets(assets: &Vec<Asset>) -> (v: Vec<u64>)
    ensures
        v@ == assets_encoding(assets@),
{
    let mut v: Vec<u64> = Vec::new();
    let na: usize = assets.len();
    let mut j: usize = 0;
    while j < na
        invariant
            0 <= j <= na,
            na == assets@.len(),
            v@ =~= assets_encoding(assets@.take(j as int)),
        decreases na - j,
    {
        let ghost pre = assets@.take(j + 1 as int);
        proof {
            assert(pre.drop_last() =~= assets@.take(j as int));
            assert(pre.last() == assets@[j as int]);
        }
        match &assets[j] {
            Asset::Fungible { faucet, amount } => {
                v.push(0);
                v.push(faucet.prefix);
                v.push(faucet.suffix);
                v.push(*amount);
            },
            Asset::NonFungible { id } => {
                v.push(1);
                v.push(id.e0);
                v.push(id.e1);
                v.push(id.e2);
                v.push(id.e3);
            },
        }
        assert(v@ =~= assets_encoding(pre));
        j += 1;
    }
    proof {
        assert(assets@.take(na as int) =~= assets@);
    }
    v
}

/// The canonical encoding of a note's metadata.
fn encode_metadata(m: &NoteMetadata) -> (v: Vec<u64>)
    ensures
        v@ == metadata_encoding(*m),
{
    let mut v: Vec<u64> = Vec::new();
    v.push(m.sender.prefix);
    v.push(m.sender.suffix);
    let vis: u64 = match m.visibility {
        NoteVisibility::Public => 0,
        NoteVisibility::Private => 1,
    };
    v.push(vis);
    v.push(m.tag as u64);
    match &m.attachment {
        Some(att) => {
            v.push(1);
            v.push(att.target.prefix);
            v.push(att.target.suffix);
        },
        None => {
            v.push(0);
        },
    }
    assert(v@ =~= metadata_encoding(*m));
    v
}

/// The canonical encoding of a recipient.
fn encode_recipient(r: &Recipient) -> (v: Vec<u64>)
    ensures
        v@ == recipient_encoding(r@),
{
    let mut v: Vec<u64> = Vec::new();
    v.push(r.serial.e0);
    v.push(r.serial.e1);
    v.push(r.serial.e2);
    v.push(r.serial.e3);
    v.push(r.script_root.e0);
    v.push(r.script_root.e1);
    v.push(r.script_root.e2);
    v.push(r.script_root.e3);
    let ni: usize = r.inputs.len();
    v.push(ni as u64);
    let ghost before_inputs = v@;
    let mut k: usize = 0;
    while k < ni
        invariant
            0 <= k <= ni,
            ni == r.inputs@.len(),
            v@ =~= before_inputs + r.inputs@.take(k as int),
        decreases ni - k,
    {
        v.push(r.inputs[k]);
        assert(v@ =~= before_inputs + r.inputs@.take(k + 1 as int));
        k += 1;
    }
    proof {
        assert(r.inputs@.take(ni as int) =~= r.inputs@);
        assert(v@ =~= recipient_encoding(r@));
    }
    v
}

/// The canonical field-element encoding of a note.
pub fn encode_note(n: &Note) -> (v: Vec<u64>)
    ensures
        v@ == note_encoding(n@),
{
    let mut v: Vec<u64> = Vec::new();
    let na: usize = n.assets.len();
    v.push(na as u64);
    let mut assets_part = encode_assets(&n.assets);
    v.append(&mut assets_part);
    let mut meta_part = encode_metadata(&n.metadata);
    v.append(&mut meta_part);
    let mut recipient_part = encode_recipient(&n.recipient);
    v.append(&mut recipient_part);
    assert(v@ =~= note_encoding(n@));
    v
}

/// The inputs of a hash-locked note: the digest of the secret that a
/// consumer must present to spend it, as four field elements.
pub fn hash_lock_inputs(secret: &Vec<u64>) -> (v: Vec<u64>)
    requires
        forall|i: int| 0 <= i < secret@.len() ==> felt_wf(#[trigger] secret@[i]),
    ensures
        v@ == word_encoding(rpo_digest_of(secret@)),
        forall|i: int| 0 <= i < v@.len() ==> felt_wf(#[trigger] v@[i]),
{
    let d = rpo_hash_elements(secret);
    let mut v: Vec<u64> = Vec::new();
    v.push(d.e0);
    v.push(d.e1);
    v.push(d.e2);
    v.push(d.e3);
    assert(v@ =~= word_encoding(d));
    v
}

/// A note's identity: the content digest of its canonical encoding.
pub fn note_commitment(n: &Note) -> (w: Word)
    requires
        note_wf(n@),
    ensures
        w == note_commitment_spec(n@),
        word_wf(w),
{
    proof {
        lemma_note_encoding_wf(n@);
    }
    let encoded = encode_note(n);
    rpo_hash_elements(&encoded)
}

} // verus!
