//! Proxmox guest state fingerprinting.
//!
//! The fingerprint prevents applying a change set to a guest that changed
//! between approval and application. If the guest moved, apply must refuse
//! rather than act on a target that is no longer the one the approver saw.
use vstd::prelude::*;
use vstd::string::*;

use crate::order::{
    law_sorting_forgets_order, law_sorting_sized_forgets_order, lemma_sized_order_total,
    lemma_text_order_total, sized_order, sized_view, sort_sized, sort_texts, sorted_sized,
    sorted_texts, text_order,
};
use crate::text::{copy_texts, texts};

verus! {

/// Proxmox guest state snapshot for fingerprinting.
///
/// This captures the identity and configuration state of a Proxmox guest at a
/// specific moment.
#[derive(Debug, PartialEq, Eq)]
pub struct GuestState {
    /// Cluster name (e.g., "pve3").
    pub cluster: String,
    /// Guest VMID.
    pub vmid: u32,
    /// Guest name.
    pub name: String,
    /// Guest type ("lxc" or "qemu").
    pub kind: String,
    /// Node the guest is currently on.
    pub node: String,
    /// Guest status (e.g., "running", "stopped").
    pub status: String,
    /// Guest tags (will be sorted before fingerprinting).
    pub tags: Vec<String>,
    /// Proxmox's config digest for this guest.
    pub config_digest: String,
    /// Disk identifiers and sizes in bytes (will be sorted before
    /// fingerprinting).
    pub disks: Vec<(String, u64)>,
}

/// A guest state, as a mathematical value.
#[verifier::ext_equal]
pub struct StateView {
    pub cluster: Seq<char>,
    pub vmid: u32,
    pub name: Seq<char>,
    pub kind: Seq<char>,
    pub node: Seq<char>,
    pub status: Seq<char>,
    pub tags: Seq<Seq<char>>,
    pub config_digest: Seq<char>,
    pub disks: Seq<(Seq<char>, u64)>,
}

impl View for GuestState {
    type V = StateView;

    open spec fn view(&self) -> StateView {
        StateView {
            cluster: self.cluster@,
            vmid: self.vmid,
            name: self.name@,
            kind: self.kind@,
            node: self.node@,
            status: self.status@,
            tags: texts(self.tags@),
            config_digest: self.config_digest@,
            disks: sized_view(self.disks@),
        }
    }
}

/// Whether two states differ in nothing but the order of their tags and disks.
pub open spec fn same_but_for_order(a: StateView, b: StateView) -> bool {
    &&& a == (StateView { tags: a.tags, disks: a.disks, ..b })
    &&& a.tags.to_multiset() == b.tags.to_multiset()
    &&& a.disks.to_multiset() == b.disks.to_multiset()
}

impl StateView {
    /// The state with its tags and disks in order.
    pub open spec fn ordered(self) -> StateView {
        StateView { tags: sorted_texts(self.tags), disks: sorted_sized(self.disks), ..self }
    }
}

fn copy_disks(v: &Vec<(String, u64)>) -> (r: Vec<(String, u64)>)
    ensures
        sized_view(r@) == sized_view(v@),
{
    let mut out: Vec<(String, u64)> = Vec::new();
    let mut i: usize = 0;
    while i < v.len()
        invariant
            i <= v@.len(),
            sized_view(out@) == sized_view(v@).take(i as int),
        decreases v@.len() - i,
    {
        let ghost before = out@;
        out.push((v[i].0.clone(), v[i].1));
        proof {
            let x = (v@[i as int].0@, v@[i as int].1);
            assert(sized_view(out@) =~= sized_view(before).push(x));
            assert(sized_view(v@).take(i as int + 1) =~= sized_view(v@).take(i as int).push(x));
        }
        i += 1;
    }
    proof {
        assert(sized_view(v@).take(i as int) =~= sized_view(v@));
    }
    out
}

impl Clone for GuestState {
    fn clone(&self) -> (r: Self)
        ensures
            r@ == self@,
    {
        GuestState {
            cluster: self.cluster.clone(),
            vmid: self.vmid,
            name: self.name.clone(),
            kind: self.kind.clone(),
            node: self.node.clone(),
            status: self.status.clone(),
            tags: copy_texts(self.tags.as_slice()),
            config_digest: self.config_digest.clone(),
            disks: copy_disks(&self.disks),
        }
    }
}

/// The JSON that `serde_json` writes of the fields of a state, as one tuple.
pub uninterp spec fn tuple_json(
    cluster: Seq<char>,
    vmid: u32,
    name: Seq<char>,
    kind: Seq<char>,
    node: Seq<char>,
    status: Seq<char>,
    tags: Seq<Seq<char>>,
    config_digest: Seq<char>,
    disks: Seq<(Seq<char>, u64)>,
) -> Seq<u8>;

/// The JSON of a state's fields, in the order they are declared.
pub open spec fn state_json(s: StateView) -> Seq<u8> {
    tuple_json(
        s.cluster,
        s.vmid,
        s.name,
        s.kind,
        s.node,
        s.status,
        s.tags,
        s.config_digest,
        s.disks,
    )
}

/// `serde_json::to_vec` of the fields of a state as one tuple. The bytes depend
/// on the values alone and go by the name [`tuple_json`]. JSON delimits and
/// escapes each value, so the same bytes come of the same values only: no value
/// can reach into its neighbour.
#[verifier::external_body]
fn write_state_json(state: &GuestState) -> (r: Vec<u8>)
    ensures
        r@ == tuple_json(
            state@.cluster,
            state@.vmid,
            state@.name,
            state@.kind,
            state@.node,
            state@.status,
            state@.tags,
            state@.config_digest,
            state@.disks,
        ),
        forall|other: StateView| #[trigger] state_json(other) == r@ ==> other == state@,
{
    serde_json::to_vec(
        &(
            &state.cluster,
            state.vmid,
            &state.name,
            &state.kind,
            &state.node,
            &state.status,
            &state.tags,
            &state.config_digest,
            &state.disks,
        ),
    ).expect("strings and integers always serialize")
}

/// The SHA-256 digest of bytes.
pub uninterp spec fn sha256(bytes: Seq<u8>) -> Seq<u8>;

/// `sha2::Sha256::digest`. The digest depends on the bytes alone, goes by the
/// name [`sha256`], and is 32 bytes long.
#[verifier::external_body]
fn sha256_digest(bytes: &Vec<u8>) -> (r: Vec<u8>)
    ensures
        r@ == sha256(bytes@),
        r@.len() == 32,
{
    <sha2::Sha256 as sha2::Digest>::digest(bytes).to_vec()
}

/// The lower-case hexadecimal digit of a number below sixteen.
pub open spec fn hex_lower(d: nat) -> char {
    if d < 10 {
        ('0' as u32 + d) as char
    } else {
        ('a' as u32 + (d - 10)) as char
    }
}

/// Bytes as lower-case hexadecimal, two digits each.
pub open spec fn hex_text(bytes: Seq<u8>) -> Seq<char>
    decreases bytes.len(),
{
    if bytes.len() == 0 {
        Seq::empty()
    } else {
        hex_text(bytes.drop_last()).push(hex_lower((bytes.last() / 16) as nat)).push(
            hex_lower((bytes.last() % 16) as nat),
        )
    }
}

/// The fingerprint of a state: the SHA-256 digest of the JSON of its fields,
/// tags and disks in order.
pub open spec fn fingerprint_text(state: StateView) -> Seq<char> {
    "sha256:"@ + hex_text(sha256(state_json(state.ordered())))
}

/// Whether two byte strings have one digest only where they are the same.
pub open spec fn no_collision(a: Seq<u8>, b: Seq<u8>) -> bool {
    sha256(a) == sha256(b) ==> a == b
}

proof fn lemma_hex_lower_injective(a: nat, b: nat)
    requires
        a < 16,
        b < 16,
        hex_lower(a) == hex_lower(b),
    ensures
        a == b,
{
}

/// Two byte strings with the same hexadecimal are the same.
pub proof fn lemma_hex_loses_nothing(a: Seq<u8>, b: Seq<u8>)
    requires
        hex_text(a) == hex_text(b),
    ensures
        a == b,
    decreases a.len(),
{
    if a.len() == 0 || b.len() == 0 {
        if b.len() > 0 {
            assert(hex_text(b).len() > 0);
        }
        if a.len() > 0 {
            assert(hex_text(a).len() > 0);
        }
        assert(a =~= b);
    } else {
        let x = hex_text(a);
        let y = hex_text(b);
        assert(x.last() == y.last());
        assert(x.drop_last().last() == y.drop_last().last());
        lemma_hex_lower_injective((a.last() % 16) as nat, (b.last() % 16) as nat);
        lemma_hex_lower_injective((a.last() / 16) as nat, (b.last() / 16) as nat);
        assert(a.last() == b.last());
        assert(x.drop_last().drop_last() =~= hex_text(a.drop_last()));
        assert(y.drop_last().drop_last() =~= hex_text(b.drop_last()));
        lemma_hex_loses_nothing(a.drop_last(), b.drop_last());
        assert(a =~= a.drop_last().push(a.last()));
        assert(b =~= b.drop_last().push(b.last()));
    }
}

/// Whether a character is a lower-case hexadecimal digit.
pub open spec fn is_hex_lower(c: char) -> bool {
    '0' <= c <= '9' || 'a' <= c <= 'f'
}

/// Hexadecimal is two lower-case digits for each byte.
pub proof fn lemma_hex_shape(bytes: Seq<u8>)
    ensures
        hex_text(bytes).len() == 2 * bytes.len(),
        forall|i: int| 0 <= i < hex_text(bytes).len() ==> is_hex_lower(#[trigger] hex_text(bytes)[i]),
    decreases bytes.len(),
{
    if bytes.len() > 0 {
        lemma_hex_shape(bytes.drop_last());
        let x = hex_text(bytes.drop_last());
        let y = hex_text(bytes);
        assert(is_hex_lower(hex_lower((bytes.last() / 16) as nat)));
        assert(is_hex_lower(hex_lower((bytes.last() % 16) as nat)));
        assert forall|i: int| 0 <= i < y.len() implies is_hex_lower(#[trigger] y[i]) by {
            if i < x.len() {
                assert(y[i] == x[i]);
            }
        }
    }
}

fn hex_digit(d: u8) -> (r: char)
    requires
        d < 16,
    ensures
        r == hex_lower(d as nat),
{
    if d < 10 {
        (48u8 + d) as char
    } else {
        (87u8 + d) as char
    }
}

/// Bytes as lower-case hexadecimal.
pub fn hex_of(bytes: &Vec<u8>) -> (r: String)
    ensures
        r@ == hex_text(bytes@),
{
    let mut out = String::new();
    let mut i: usize = 0;
    while i < bytes.len()
        invariant
            i <= bytes@.len(),
            out@ == hex_text(bytes@.take(i as int)),
        decreases bytes@.len() - i,
    {
        let b: u8 = bytes[i];
        proof {
            assert(bytes@.take(i as int + 1).drop_last() =~= bytes@.take(i as int));
        }
        out.push(hex_digit(b / 16));
        out.push(hex_digit(b % 16));
        i += 1;
    }
    proof {
        assert(bytes@.take(i as int) =~= bytes@);
    }
    out
}

proof fn lemma_ordered_loses_order_alone(a: StateView, b: StateView)
    requires
        a.ordered() == b.ordered(),
    ensures
        same_but_for_order(a, b),
{
    lemma_text_order_total();
    lemma_sized_order_total();
    a.tags.lemma_sort_by_ensures(text_order());
    b.tags.lemma_sort_by_ensures(text_order());
    a.disks.lemma_sort_by_ensures(sized_order());
    b.disks.lemma_sort_by_ensures(sized_order());
    assert(a.ordered().cluster == b.ordered().cluster);
}

/// Computes a stable fingerprint of a Proxmox guest's state.
///
/// The fingerprint is a SHA-256 hash of a serialized tuple containing all guest
/// state fields. Tags and disks are sorted before hashing so ordering does not
/// affect the fingerprint. Short of a collision of the hash, two states with
/// one fingerprint differ in nothing but the order of their tags and disks.
///
/// Returns a string in the format `sha256:<lowercase hex>`, with the 64 digits
/// of the hash.
pub fn fingerprint(state: &GuestState) -> (r: String)
    ensures
        r@ == fingerprint_text(state@),
        r@.len() == 71,
        r@.take(7) == "sha256:"@,
        forall|i: int| 7 <= i < 71 ==> is_hex_lower(#[trigger] r@[i]),
        forall|other: StateView|
            #[trigger] fingerprint_text(other) == r@ && no_collision(
                state_json(other.ordered()),
                state_json(state@.ordered()),
            ) ==> same_but_for_order(other, state@),
{
    let ordered = GuestState {
        cluster: state.cluster.clone(),
        vmid: state.vmid,
        name: state.name.clone(),
        kind: state.kind.clone(),
        node: state.node.clone(),
        status: state.status.clone(),
        tags: sort_texts(&state.tags),
        config_digest: state.config_digest.clone(),
        disks: sort_sized(&state.disks),
    };
    proof {
        assert(ordered@ == state@.ordered());
    }
    let bytes = write_state_json(&ordered);
    let mut out = "sha256:".to_owned();
    let hex = hex_of(&sha256_digest(&bytes));
    out.append(hex.as_str());
    proof {
        let label = "sha256:"@;
        assert forall|other: StateView|
            #[trigger] fingerprint_text(other) == out@ && no_collision(
                state_json(other.ordered()),
                state_json(state@.ordered()),
            ) implies same_but_for_order(other, state@) by {
            let theirs = hex_text(sha256(state_json(other.ordered())));
            assert((label + theirs).skip(label.len() as int) =~= theirs);
            assert((label + hex@).skip(label.len() as int) =~= hex@);
            lemma_hex_loses_nothing(
                sha256(state_json(other.ordered())),
                sha256(state_json(state@.ordered())),
            );
            lemma_ordered_loses_order_alone(other, state@);
        }
        reveal_strlit("sha256:");
        lemma_hex_shape(sha256(bytes@));
        assert(out@.take(7) =~= label);
        assert forall|i: int| 7 <= i < 71 implies is_hex_lower(#[trigger] out@[i]) by {
            assert(out@[i] == hex@[i - 7]);
        }
    }
    out
}

/// The order of tags and disks is not part of a guest's identity: two states
/// that differ in it alone have one fingerprint.
pub proof fn law_order_does_not_change_the_fingerprint(a: StateView, b: StateView)
    requires
        same_but_for_order(a, b),
    ensures
        fingerprint_text(a) == fingerprint_text(b),
{
    law_sorting_forgets_order(a.tags, b.tags);
    law_sorting_sized_forgets_order(a.disks, b.disks);
    assert(a.ordered() =~= b.ordered());
}

} // verus!
