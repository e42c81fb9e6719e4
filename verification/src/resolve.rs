//! Guest resolution and authorization.
//!
//! Every guest-addressed tool takes `(cluster, vmid)` and never a node. Guests
//! migrate; a caller-supplied node is an opportunity to act on a stale
//! assumption, and after a migration it addresses the wrong place entirely.
//!
//! Resolution reads `/cluster/resources` once per TTL window rather than once
//! per call, because the same snapshot answers node, name, status, tags and
//! pool for every guest at once.
use std::collections::BTreeMap;
use vstd::prelude::*;
use vstd::string::*;

use crate::authorized::{AuthorizedGuest, AuthorizedView};
use crate::client::{Method, Request};
use crate::error::{ErrorView, ProxmoxError};
use crate::grant::{GrantView, ProxmoxGrant};
use crate::guests::bare;
use crate::inventory::{Cluster, PolicyView};
use crate::json::{
    find_integer, find_text, integer_member, json_of, parse_text, text_member, JsonShape, JsonView,
};
use crate::protect::{protection_for, protection_of, ProtectionView};
use crate::selector::{FactsView, GuestFacts, GuestType};
use crate::text::{
    copy_option, copy_texts, decimal, decimal_text, has_text, is_trimmed, join,
    law_splitting_undoes_joining, law_trimming_takes_off_the_edges, lemma_has_end, lemma_has_middle,
    lemma_split_pieces, lemma_texts_push, lemma_together, pairs, same_text, split, split_text,
    text_option, texts, trim, trim_text,
};
use crate::tier::{interrupts, interrupts_service, Tier};

verus! {

/// A guest as the cluster currently reports it.
#[derive(Debug, PartialEq, Eq)]
pub struct ResolvedGuest {
    /// Inventory name of the cluster this guest lives in.
    pub cluster: String,
    /// Numeric guest id.
    pub vmid: u32,
    /// Display name.
    pub name: String,
    /// VM or container.
    pub kind: GuestType,
    /// Node the guest is on right now.
    pub node: String,
    /// Runtime status, e.g. `running` or `stopped`.
    pub status: String,
    /// Live tags, split from Proxmox's semicolon-separated field.
    pub tags: Vec<String>,
    /// Proxmox pool, when the guest is in one.
    pub pool: Option<String>,
}

/// A guest as the cluster currently reports it, as a mathematical value.
#[verifier::ext_equal]
pub struct GuestView {
    pub cluster: Seq<char>,
    pub vmid: u32,
    pub name: Seq<char>,
    pub kind: GuestType,
    pub node: Seq<char>,
    pub status: Seq<char>,
    pub tags: Seq<Seq<char>>,
    pub pool: Option<Seq<char>>,
}

impl View for ResolvedGuest {
    type V = GuestView;

    open spec fn view(&self) -> GuestView {
        GuestView {
            cluster: self.cluster@,
            vmid: self.vmid,
            name: self.name@,
            kind: self.kind,
            node: self.node@,
            status: self.status@,
            tags: texts(self.tags@),
            pool: text_option(self.pool),
        }
    }
}

impl GuestView {
    /// The facts a selector reads of a guest.
    pub open spec fn facts(self) -> FactsView {
        FactsView {
            vmid: self.vmid,
            kind: self.kind,
            node: self.node,
            pool: self.pool,
            tags: self.tags,
        }
    }
}

impl ResolvedGuest {
    /// Borrow the facts a selector needs.
    #[must_use]
    pub fn facts(&self) -> (r: GuestFacts<'_>)
        ensures
            r@ == self@.facts(),
    {
        GuestFacts {
            vmid: self.vmid,
            kind: self.kind,
            node: self.node.as_str(),
            pool: match &self.pool {
                Some(pool) => Some(pool.as_str()),
                None => None,
            },
            tags: self.tags.as_slice(),
        }
    }
}

impl Clone for ResolvedGuest {
    fn clone(&self) -> (r: Self)
        ensures
            r@ == self@,
    {
        ResolvedGuest {
            cluster: self.cluster.clone(),
            vmid: self.vmid,
            name: self.name.clone(),
            kind: self.kind,
            node: self.node.clone(),
            status: self.status.clone(),
            tags: copy_texts(self.tags.as_slice()),
            pool: copy_option(&self.pool),
        }
    }
}

// ---------------------------------------------------------------------------
// Reading /cluster/resources
// ---------------------------------------------------------------------------
/// What one entry of `/cluster/resources` holds of what identifies a guest.
#[derive(Debug)]
pub struct ResourceEntry {
    /// The `type` field, where it is a string.
    pub kind: Option<String>,
    /// The `vmid` field, where it is an unsigned number.
    pub vmid: Option<u64>,
    /// The `name` field, where it is a string.
    pub name: Option<String>,
    /// The `node` field, where it is a string.
    pub node: Option<String>,
    /// The `status` field, where it is a string.
    pub status: Option<String>,
    /// The `tags` field, where it is a string.
    pub tags: Option<String>,
    /// The `pool` field, where it is a string.
    pub pool: Option<String>,
}

/// One entry of `/cluster/resources`, as a mathematical value.
pub struct EntryView {
    pub kind: Option<Seq<char>>,
    pub vmid: Option<u64>,
    pub name: Option<Seq<char>>,
    pub node: Option<Seq<char>>,
    pub status: Option<Seq<char>>,
    pub tags: Option<Seq<char>>,
    pub pool: Option<Seq<char>>,
}

impl View for ResourceEntry {
    type V = EntryView;

    open spec fn view(&self) -> EntryView {
        EntryView {
            kind: text_option(self.kind),
            vmid: self.vmid,
            name: text_option(self.name),
            node: text_option(self.node),
            status: text_option(self.status),
            tags: text_option(self.tags),
            pool: text_option(self.pool),
        }
    }
}

/// The entries of a list.
pub open spec fn entry_views(v: Seq<ResourceEntry>) -> Seq<EntryView> {
    v.map_values(|e: ResourceEntry| e@)
}

/// An unsigned 64-bit number, where an integer is one.
pub open spec fn unsigned(n: Option<i128>) -> Option<u64> {
    match n {
        Some(n) => if 0 <= n <= u64::MAX {
            Some(n as u64)
        } else {
            None
        },
        None => None,
    }
}

/// What an entry holds, read from its JSON text. Of text that is not an object
/// nothing is read.
pub open spec fn entry_in(text: Seq<char>) -> EntryView {
    let value = match json_of(text) {
        Some(value) => value,
        None => JsonView::Null,
    };
    EntryView {
        kind: text_member(value, "type"@),
        vmid: unsigned(integer_member(value, "vmid"@)),
        name: text_member(value, "name"@),
        node: text_member(value, "node"@),
        status: text_member(value, "status"@),
        tags: text_member(value, "tags"@),
        pool: text_member(value, "pool"@),
    }
}

/// The non-empty tags of a semicolon-separated tag field.
pub open spec fn tags_of(raw: Option<Seq<char>>) -> Seq<Seq<char>> {
    match raw {
        Some(raw) => kept_tags(split(raw, ';')),
        None => Seq::empty(),
    }
}

/// The pieces of a tag field that are not blank, trimmed.
pub open spec fn kept_tags(pieces: Seq<Seq<char>>) -> Seq<Seq<char>>
    decreases pieces.len(),
{
    if pieces.len() == 0 {
        Seq::empty()
    } else if trim(pieces.last()).len() == 0 {
        kept_tags(pieces.drop_last())
    } else {
        kept_tags(pieces.drop_last()).push(trim(pieces.last()))
    }
}

/// The guest type a `type` field names.
pub open spec fn type_named(kind: Option<Seq<char>>) -> Option<GuestType> {
    match kind {
        Some(kind) => if kind == "qemu"@ {
            Some(GuestType::Qemu)
        } else if kind == "lxc"@ {
            Some(GuestType::Lxc)
        } else {
            None
        },
        None => None,
    }
}

/// The guest an entry reports. An entry that is no guest, or has no vmid, is
/// none; a vmid out of range and a missing node are errors.
pub open spec fn guest_in(cluster: Seq<char>, entry: EntryView) -> Result<
    Option<GuestView>,
    ErrorView,
> {
    match (type_named(entry.kind), entry.vmid) {
        (Some(kind), Some(vmid)) => if vmid > u32::MAX {
            Err(ErrorView::Malformed("vmid "@ + decimal(vmid as nat) + " out of range"@))
        } else {
            match entry.node {
                None => Err(
                    ErrorView::Malformed("guest "@ + decimal(vmid as nat) + " has no node"@),
                ),
                Some(node) => Ok(
                    Some(
                        GuestView {
                            cluster,
                            vmid: vmid as u32,
                            name: match entry.name {
                                Some(name) => name,
                                None => Seq::empty(),
                            },
                            kind,
                            node,
                            status: match entry.status {
                                Some(status) => status,
                                None => "unknown"@,
                            },
                            tags: tags_of(entry.tags),
                            pool: match entry.pool {
                                Some(pool) => if pool.len() == 0 {
                                    None
                                } else {
                                    Some(pool)
                                },
                                None => None,
                            },
                        },
                    ),
                ),
            }
        },
        _ => Ok(None),
    }
}

/// The guests a list of entries reports, by vmid; the first error where there
/// is one. Of two entries with one vmid the later counts.
pub open spec fn guests_in(cluster: Seq<char>, entries: Seq<EntryView>) -> Result<
    Map<u32, GuestView>,
    ErrorView,
>
    decreases entries.len(),
{
    if entries.len() == 0 {
        Ok(Map::empty())
    } else {
        match guests_in(cluster, entries.drop_last()) {
            Err(error) => Err(error),
            Ok(before) => match guest_in(cluster, entries.last()) {
                Err(error) => Err(error),
                Ok(None) => Ok(before),
                Ok(Some(guest)) => Ok(before.insert(guest.vmid, guest)),
            },
        }
    }
}

/// The guests of a `/cluster/resources` answer, given the JSON text of its
/// data.
pub open spec fn guests_reported(cluster: Seq<char>, data: Seq<char>) -> Result<
    Map<u32, GuestView>,
    ErrorView,
> {
    match json_of(data) {
        Some(JsonView::Array(items)) => guests_in(
            cluster,
            items.map_values(|text: Seq<char>| entry_in(text)),
        ),
        _ => Err(ErrorView::Malformed("cluster/resources is not an array"@)),
    }
}

/// The guests of a map, as mathematical values.
pub open spec fn guest_views(m: Map<u32, ResolvedGuest>) -> Map<u32, GuestView> {
    m.map_values(|g: ResolvedGuest| g@)
}

/// Split Proxmox's semicolon-separated tag string.
pub fn parse_tags(raw: Option<&str>) -> (r: Vec<String>)
    ensures
        texts(r@) == tags_of(crate::text::str_option(raw)),
{
    let mut out: Vec<String> = Vec::new();
    proof {
        assert(texts(out@) =~= Seq::<Seq<char>>::empty());
    }
    let raw = match raw {
        Some(raw) => raw,
        None => {
            return out;
        },
    };
    let pieces = split_text(raw, ';');
    let ghost all = texts(pieces@);
    let mut i: usize = 0;
    proof {
        assert(all.take(0) =~= Seq::<Seq<char>>::empty());
    }
    while i < pieces.len()
        invariant
            i <= pieces@.len(),
            all == texts(pieces@),
            texts(out@) == kept_tags(all.take(i as int)),
        decreases pieces@.len() - i,
    {
        let tag = trim_text(pieces[i].as_str());
        proof {
            assert(all.take(i as int + 1).drop_last() =~= all.take(i as int));
            assert(all.take(i as int + 1).last() == pieces@[i as int]@);
            lemma_texts_push(out@, tag);
        }
        if !tag.as_str().is_empty() {
            out.push(tag);
        }
        i += 1;
    }
    proof {
        assert(all.take(i as int) =~= all);
    }
    out
}

/// Read one entry from its JSON text.
fn read_entry(text: &str) -> (r: ResourceEntry)
    ensures
        r@ == entry_in(text@),
{
    let value = match parse_text(text) {
        Some(value) => value,
        None => JsonShape::Null,
    };
    let vmid = match find_integer(&value, "vmid") {
        Some(n) => if 0 <= n && n <= 0xffff_ffff_ffff_ffff {
            Some(n as u64)
        } else {
            None
        },
        None => None,
    };
    ResourceEntry {
        kind: find_text(&value, "type"),
        vmid,
        name: find_text(&value, "name"),
        node: find_text(&value, "node"),
        status: find_text(&value, "status"),
        tags: find_text(&value, "tags"),
        pool: find_text(&value, "pool"),
    }
}

fn type_from(kind: &Option<String>) -> (r: Option<GuestType>)
    ensures
        r == type_named(text_option(*kind)),
{
    match kind {
        Some(kind) => if same_text(kind.as_str(), "qemu") {
            Some(GuestType::Qemu)
        } else if same_text(kind.as_str(), "lxc") {
            Some(GuestType::Lxc)
        } else {
            None
        },
        None => None,
    }
}

/// The guest one entry reports.
pub fn guest_from_entry(cluster: &str, entry: &ResourceEntry) -> (r: Result<
    Option<ResolvedGuest>,
    ProxmoxError,
>)
    ensures
        match r {
            Ok(Some(guest)) => guest_in(cluster@, entry@) == Ok::<Option<GuestView>, ErrorView>(
                Some(guest@),
            ),
            Ok(None) => guest_in(cluster@, entry@) == Ok::<Option<GuestView>, ErrorView>(None),
            Err(error) => guest_in(cluster@, entry@) == Err::<Option<GuestView>, ErrorView>(error@),
        },
{
    let kind = match type_from(&entry.kind) {
        Some(kind) => kind,
        None => {
            return Ok(None);
        },
    };
    let vmid: u64 = match entry.vmid {
        Some(vmid) => vmid,
        None => {
            return Ok(None);
        },
    };
    if vmid > u32::MAX as u64 {
        let mut text = "vmid ".to_owned();
        text.append(decimal_text(vmid).as_str());
        text.append(" out of range");
        return Err(ProxmoxError::Malformed(text));
    }
    let node = match &entry.node {
        Some(node) => node.clone(),
        None => {
            let mut text = "guest ".to_owned();
            text.append(decimal_text(vmid).as_str());
            text.append(" has no node");
            return Err(ProxmoxError::Malformed(text));
        },
    };
    let name = match &entry.name {
        Some(name) => name.clone(),
        None => String::new(),
    };
    let status = match &entry.status {
        Some(status) => status.clone(),
        None => "unknown".to_owned(),
    };
    let tags = match &entry.tags {
        Some(tags) => parse_tags(Some(tags.as_str())),
        None => parse_tags(None),
    };
    let pool = match &entry.pool {
        Some(pool) => if pool.as_str().is_empty() {
            None
        } else {
            Some(pool.clone())
        },
        None => None,
    };
    Ok(
        Some(
            ResolvedGuest {
                cluster: cluster.to_owned(),
                vmid: vmid as u32,
                name,
                kind,
                node,
                status,
                tags,
                pool,
            },
        ),
    )
}

proof fn lemma_guests_error_stays(cluster: Seq<char>, entries: Seq<EntryView>, n: int)
    requires
        0 <= n <= entries.len(),
        guests_in(cluster, entries.take(n)) is Err,
    ensures
        guests_in(cluster, entries) == guests_in(cluster, entries.take(n)),
    decreases entries.len(),
{
    if n == entries.len() {
        assert(entries.take(n) =~= entries);
    } else {
        assert(entries.drop_last().take(n) =~= entries.take(n));
        lemma_guests_error_stays(cluster, entries.drop_last(), n);
    }
}

/// A map of guests as a mathematical value.
pub open spec fn guests_result(r: Result<BTreeMap<u32, ResolvedGuest>, ProxmoxError>) -> Result<
    Map<u32, GuestView>,
    ErrorView,
> {
    match r {
        Ok(guests) => Ok(guest_views(guests@)),
        Err(error) => Err(error@),
    }
}

/// The guests a list of entries reports, by vmid.
pub fn guests_from_entries(cluster: &str, entries: &Vec<ResourceEntry>) -> (r: Result<
    BTreeMap<u32, ResolvedGuest>,
    ProxmoxError,
>)
    ensures
        guests_result(r) == guests_in(cluster@, entry_views(entries@)),
{
    broadcast use vstd::std_specs::btree::group_btree_axioms;

    let ghost all = entry_views(entries@);
    let mut guests: BTreeMap<u32, ResolvedGuest> = BTreeMap::new();
    let mut i: usize = 0;
    proof {
        assert(all.take(0) =~= Seq::<EntryView>::empty());
        assert(guest_views(guests@) =~= Map::<u32, GuestView>::empty());
    }
    while i < entries.len()
        invariant
            i <= entries@.len(),
            all == entry_views(entries@),
            guests_in(cluster@, all.take(i as int)) == Ok::<Map<u32, GuestView>, ErrorView>(
                guest_views(guests@),
            ),
        decreases entries@.len() - i,
    {
        proof {
            assert(all.take(i as int + 1).drop_last() =~= all.take(i as int));
            assert(all.take(i as int + 1).last() == entries@[i as int]@);
        }
        match guest_from_entry(cluster, &entries[i]) {
            Err(error) => {
                proof {
                    lemma_guests_error_stays(cluster@, all, i as int + 1);
                }
                return Err(error);
            },
            Ok(None) => {},
            Ok(Some(guest)) => {
                let ghost before = guests@;
                let ghost view = guest@;
                guests.insert(guest.vmid, guest);
                proof {
                    assert(guest_views(guests@) =~= guest_views(before).insert(view.vmid, view));
                }
            },
        }
        i += 1;
    }
    proof {
        assert(all.take(i as int) =~= all);
    }
    Ok(guests)
}

/// The request whose answer lists every guest of a cluster.
pub fn resources_request() -> (r: Request)
    ensures
        r@ == bare(Method::Get, "/api2/json/cluster/resources"@),
{
    let r = Request {
        method: Method::Get,
        path_template: "/api2/json/cluster/resources".to_owned(),
        params: Vec::new(),
        query: Vec::new(),
        form: Vec::new(),
    };
    proof {
        assert(pairs(r.params@) =~= Seq::empty());
        assert(pairs(r.query@) =~= Seq::empty());
        assert(pairs(r.form@) =~= Seq::empty());
    }
    r
}

/// The guests of a `/cluster/resources` answer, given the JSON text of its
/// data.
pub fn fetch_guests(cluster: &str, data: &str) -> (r: Result<
    BTreeMap<u32, ResolvedGuest>,
    ProxmoxError,
>)
    ensures
        guests_result(r) == guests_reported(cluster@, data@),
{
    match parse_text(data) {
        Some(JsonShape::Array(items)) => {
            let ghost all = texts(items@).map_values(|text: Seq<char>| entry_in(text));
            let mut entries: Vec<ResourceEntry> = Vec::new();
            let mut i: usize = 0;
            proof {
                assert(entry_views(entries@) =~= all.take(0));
            }
            while i < items.len()
                invariant
                    i <= items@.len(),
                    all == texts(items@).map_values(|text: Seq<char>| entry_in(text)),
                    entry_views(entries@) == all.take(i as int),
                decreases items@.len() - i,
            {
                let entry = read_entry(items[i].as_str());
                let ghost before = entries@;
                entries.push(entry);
                proof {
                    assert(entry_views(entries@) =~= entry_views(before).push(entry@));
                    assert(all.take(i as int + 1) =~= all.take(i as int).push(entry@));
                }
                i += 1;
            }
            proof {
                assert(all.take(i as int) =~= all);
            }
            guests_from_entries(cluster, &entries)
        },
        _ => Err(ProxmoxError::Malformed("cluster/resources is not an array".to_owned())),
    }
}

proof fn lemma_guests_in_are_keyed(cluster: Seq<char>, entries: Seq<EntryView>)
    ensures
        guests_in(cluster, entries) matches Ok(guests) ==> forall|vmid: u32| #[trigger]
            guests.contains_key(vmid) ==> guests[vmid].vmid == vmid && guests[vmid].cluster
                == cluster,
    decreases entries.len(),
{
    if entries.len() > 0 {
        lemma_guests_in_are_keyed(cluster, entries.drop_last());
    }
}

/// A guest that is resolved under a cluster and a vmid is the guest of that
/// vmid in that cluster.
pub proof fn law_a_resolved_guest_is_the_one_asked_for(
    cluster: Seq<char>,
    data: Seq<char>,
    vmid: u32,
    guest: GuestView,
)
    requires
        guests_reported(cluster, data) is Ok,
        found_in(cluster, vmid, guests_reported(cluster, data)->Ok_0) == Ok::<
            GuestView,
            ErrorView,
        >(guest),
    ensures
        guest.vmid == vmid,
        guest.cluster == cluster,
{
    if let Some(JsonView::Array(items)) = json_of(data) {
        lemma_guests_in_are_keyed(cluster, items.map_values(|text: Seq<char>| entry_in(text)));
    }
}

// ---------------------------------------------------------------------------
// Authorization
// ---------------------------------------------------------------------------
/// What a caller intends to do to a guest.
///
/// Bundled rather than passed as three parameters because they are one
/// decision: the tier drives the grant action, interruption drives protection,
/// and the override records that a waiver or lab mode already applies.
#[derive(Debug, Clone, Copy)]
pub struct Intent {
    /// Action class, which selects the grant action required.
    pub tier: Tier,
    /// Whether the call takes a running guest out of service.
    pub interrupts: bool,
    /// Whether a waiver or lab mode already permits a protected guest.
    pub override_applies: Option<bool>,
}

impl Intent {
    /// Observation. Never interrupts, never needs an override.
    #[must_use]
    pub fn read() -> (r: Self)
        ensures
            r == (Intent { tier: Tier::Read, interrupts: false, override_applies: None }),
    {
        Intent { tier: Tier::Read, interrupts: false, override_applies: None }
    }

    /// A low-tier call, with interruption derived from the tool name.
    ///
    /// Derived rather than passed so a new tool cannot be added with the wrong
    /// answer: `interrupts_service` is the single place that decides.
    #[must_use]
    pub fn low(tool: &str) -> (r: Self)
        ensures
            r == (Intent { tier: Tier::Low, interrupts: interrupts(tool@), override_applies: None }),
    {
        Intent { tier: Tier::Low, interrupts: interrupts_service(tool), override_applies: None }
    }

    /// A low-tier call against a guest a waiver or lab mode already permits.
    #[must_use]
    pub fn low_with_override(tool: &str, override_applies: bool) -> (r: Self)
        ensures
            r == (Intent {
                tier: Tier::Low,
                interrupts: interrupts(tool@),
                override_applies: Some(override_applies),
            }),
    {
        let low = Intent::low(tool);
        Intent {
            tier: low.tier,
            interrupts: low.interrupts,
            override_applies: Some(override_applies),
        }
    }

    /// A destructive call. Its tier already refuses a protected guest, so
    /// interruption is not consulted.
    #[must_use]
    pub fn destructive(override_applies: bool) -> (r: Self)
        ensures
            r == (Intent {
                tier: Tier::Destructive,
                interrupts: false,
                override_applies: Some(override_applies),
            }),
    {
        Intent {
            tier: Tier::Destructive,
            interrupts: false,
            override_applies: Some(override_applies),
        }
    }

    /// Whether the call would disrupt the guest: a destructive one does, and
    /// so does one that interrupts its service.
    pub open spec fn disrupts(self) -> bool {
        self.tier == Tier::Destructive || self.interrupts
    }

    /// Whether an override is on record.
    pub open spec fn overridden(self) -> bool {
        self.override_applies == Some(true)
    }
}

/// The refusal of a guest outside the token's scope.
pub open spec fn scope_refusal(guest: GuestView) -> ErrorView {
    ErrorView::Denied(
        "token scope does not admit guest "@ + decimal(guest.vmid as nat) + " in cluster "@
            + guest.cluster,
    )
}

/// The refusal of a tier the token's grant does not carry.
pub open spec fn tier_refusal(tier: Tier) -> ErrorView {
    ErrorView::Denied("token grant does not carry the "@ + tier.name_text() + " action tier"@)
}

/// The refusal of a disruptive call on a protected guest.
pub open spec fn protection_refusal(
    guest: GuestView,
    protection: ProtectionView,
    tier: Tier,
) -> ErrorView {
    ErrorView::Denied(
        "guest "@ + decimal(guest.vmid as nat) + " is protected ("@ + protection.summary_text()
            + "); "@ + (if tier == Tier::Destructive {
            "a destructive call"@
        } else {
            "interrupting a protected guest"@
        }) + " needs a waiver"@,
    )
}

/// What stage-2 authorization decides on a resolved guest.
///
/// The scope comes before the tier and both before protection, so an
/// out-of-scope caller learns nothing about whether the guest is protected.
/// Protection holds back what would disrupt the guest and nothing else.
pub open spec fn authorization(
    policy: PolicyView,
    guest: GuestView,
    grant: GrantView,
    intent: Intent,
) -> Result<AuthorizedView, ErrorView> {
    let protection = protection_for(policy, guest);
    if !grant.admits(guest.facts()) {
        Err(scope_refusal(guest))
    } else if !grant.permits(intent.tier.required()) {
        Err(tier_refusal(intent.tier))
    } else if intent.disrupts() && protection is Protected && !intent.overridden() {
        Err(protection_refusal(guest, protection, intent.tier))
    } else {
        Ok(AuthorizedView { guest, protection, tier: intent.tier })
    }
}

/// An authorization result as a mathematical value.
pub open spec fn authorized_result(r: Result<AuthorizedGuest, ProxmoxError>) -> Result<
    AuthorizedView,
    ErrorView,
> {
    match r {
        Ok(guest) => Ok(guest@),
        Err(error) => Err(error@),
    }
}

/// Run stage-2 authorization on a resolved guest.
///
/// Protection does not gate [`Tier::Read`]: observing a protected guest is how
/// an operator confirms it is protected. It is carried on the returned value so
/// the audit event and the change-set preview can report it.
pub fn authorize(
    config: &Cluster,
    guest: ResolvedGuest,
    grant: &ProxmoxGrant,
    intent: Intent,
) -> (r: Result<AuthorizedGuest, ProxmoxError>)
    ensures
        authorized_result(r) == authorization(config@.policy, guest@, grant@, intent),
{
    if !grant.allows_guest(guest.facts()) {
        let mut text = "token scope does not admit guest ".to_owned();
        text.append(decimal_text(guest.vmid as u64).as_str());
        text.append(" in cluster ");
        text.append(guest.cluster.as_str());
        return Err(ProxmoxError::Denied(text));
    }
    if !grant.allows_action(intent.tier.action()) {
        let mut text = "token grant does not carry the ".to_owned();
        text.append(intent.tier.name());
        text.append(" action tier");
        return Err(ProxmoxError::Denied(text));
    }
    let protection = protection_of(config, Some(&guest), false);
    let overridden = match intent.override_applies {
        Some(applies) => applies,
        None => false,
    };
    if (intent.tier == Tier::Destructive || intent.interrupts) && protection.is_protected()
        && !overridden {
        let mut text = "guest ".to_owned();
        text.append(decimal_text(guest.vmid as u64).as_str());
        text.append(" is protected (");
        text.append(protection.summary().as_str());
        text.append("); ");
        text.append(
            if intent.tier == Tier::Destructive {
                "a destructive call"
            } else {
                "interrupting a protected guest"
            },
        );
        text.append(" needs a waiver");
        return Err(ProxmoxError::Denied(text));
    }
    Ok(AuthorizedGuest::new(guest, protection, intent.tier))
}

/// What an authorized guest stands for: the grant admits it and carries the
/// tier, and a protected guest is disrupted only under an override.
pub proof fn law_authorization_is_sound(
    policy: PolicyView,
    guest: GuestView,
    grant: GrantView,
    intent: Intent,
)
    requires
        authorization(policy, guest, grant, intent) is Ok,
    ensures
        grant.admits(guest.facts()),
        grant.permits(intent.tier.required()),
        intent.disrupts() && protection_for(policy, guest) is Protected ==> intent.overridden(),
        authorization(policy, guest, grant, intent)->Ok_0.guest == guest,
        authorization(policy, guest, grant, intent)->Ok_0.tier == intent.tier,
{
}

/// Protection never holds back a read: what a policy protects makes no
/// difference to whether a read is authorized.
pub proof fn law_protection_never_gates_a_read(
    policy: PolicyView,
    other: PolicyView,
    guest: GuestView,
    grant: GrantView,
)
    ensures
        ({
            let read = Intent { tier: Tier::Read, interrupts: false, override_applies: None };
            authorization(policy, guest, grant, read) is Ok <==> authorization(
                other,
                guest,
                grant,
                read,
            ) is Ok
        }),
{
}

/// An out-of-scope caller learns nothing of protection: its refusal is the same
/// under every policy.
pub proof fn law_scope_refusal_tells_nothing_of_protection(
    policy: PolicyView,
    other: PolicyView,
    guest: GuestView,
    grant: GrantView,
    intent: Intent,
)
    requires
        !grant.admits(guest.facts()),
    ensures
        authorization(policy, guest, grant, intent) == authorization(other, guest, grant, intent),
        authorization(policy, guest, grant, intent) == Err::<AuthorizedView, ErrorView>(
            scope_refusal(guest),
        ),
{
}

// ---------------------------------------------------------------------------
// The index
// ---------------------------------------------------------------------------
/// Nanoseconds in a second.
pub const NANOS_PER_SEC: u128 = 1_000_000_000;

/// One cached `/cluster/resources` snapshot.
#[derive(Debug)]
struct Snapshot {
    cluster: String,
    taken: u128,
    guests: BTreeMap<u32, ResolvedGuest>,
}

/// A snapshot, as a mathematical value.
pub struct SnapshotView {
    pub taken: u128,
    pub guests: Map<u32, GuestView>,
}

/// A TTL-bounded index of every guest in every cluster.
///
/// Moments are nanoseconds on a clock that does not go back.
#[derive(Debug)]
pub struct GuestIndex {
    ttl_secs: u64,
    snapshots: Vec<Snapshot>,
    /// Bumped by every invalidation.
    ///
    /// A fetch that began before an invalidation must not insert its result
    /// afterwards. Without this a pre-change snapshot could land back in the
    /// cache *after* a caller deliberately dropped it, which is how a
    /// destructive apply could re-read the state its own invalidation was meant
    /// to discard.
    generation: u64,
}

/// An index, as a mathematical value.
pub struct IndexView {
    pub ttl_secs: u64,
    pub generation: u64,
    pub snapshots: Map<Seq<char>, SnapshotView>,
}

spec fn snapshot_map(v: Seq<Snapshot>) -> Map<Seq<char>, SnapshotView>
    decreases v.len(),
{
    if v.len() == 0 {
        Map::empty()
    } else {
        snapshot_map(v.drop_last()).insert(
            v.last().cluster@,
            SnapshotView { taken: v.last().taken, guests: guest_views(v.last().guests@) },
        )
    }
}

impl View for GuestIndex {
    type V = IndexView;

    closed spec fn view(&self) -> IndexView {
        IndexView {
            ttl_secs: self.ttl_secs,
            generation: self.generation,
            snapshots: snapshot_map(self.snapshots@),
        }
    }
}

/// The generation that follows `g`.
pub open spec fn next_generation(g: u64) -> u64 {
    if g == u64::MAX {
        0
    } else {
        (g + 1) as u64
    }
}

impl SnapshotView {
    /// Whether a snapshot may still be used at a moment.
    pub open spec fn fresh(self, ttl_secs: u64, now: u128) -> bool {
        now - self.taken <= ttl_secs * NANOS_PER_SEC
    }
}

impl IndexView {
    /// The guest a snapshot that has not expired reports.
    pub open spec fn cached(self, cluster: Seq<char>, vmid: u32, now: u128) -> Option<GuestView> {
        if self.snapshots.contains_key(cluster) {
            let snapshot = self.snapshots[cluster];
            if snapshot.fresh(self.ttl_secs, now) && snapshot.guests.contains_key(vmid) {
                Some(snapshot.guests[vmid])
            } else {
                None
            }
        } else {
            None
        }
    }

    /// The index once a fetch that began at `generation` has come back. It
    /// is published unless an invalidation came in between.
    pub open spec fn after_fetch(
        self,
        cluster: Seq<char>,
        guests: Map<u32, GuestView>,
        generation: u64,
        now: u128,
    ) -> IndexView {
        if self.generation == generation {
            IndexView {
                snapshots: self.snapshots.insert(cluster, SnapshotView { taken: now, guests }),
                ..self
            }
        } else {
            self
        }
    }

    /// The index once every snapshot was dropped.
    pub open spec fn invalidated(self) -> IndexView {
        IndexView {
            generation: next_generation(self.generation),
            snapshots: Map::empty(),
            ..self
        }
    }

    /// The index once one cluster's snapshot was dropped.
    pub open spec fn invalidated_cluster(self, cluster: Seq<char>) -> IndexView {
        IndexView {
            generation: next_generation(self.generation),
            snapshots: self.snapshots.remove(cluster),
            ..self
        }
    }
}

/// The guest of a fetched map, or the refusal that names it.
pub open spec fn found_in(cluster: Seq<char>, vmid: u32, guests: Map<u32, GuestView>) -> Result<
    GuestView,
    ErrorView,
> {
    if guests.contains_key(vmid) {
        Ok(guests[vmid])
    } else {
        Err(
            ErrorView::NotFound {
                what: "guest "@ + decimal(vmid as nat) + " in cluster "@ + cluster,
            },
        )
    }
}

/// A resolution as a mathematical value.
pub open spec fn resolved_result(r: Result<ResolvedGuest, ProxmoxError>) -> Result<
    GuestView,
    ErrorView,
> {
    match r {
        Ok(guest) => Ok(guest@),
        Err(error) => Err(error@),
    }
}

proof fn lemma_snapshot_removed(v: Seq<Snapshot>, i: int, cluster: Seq<char>)
    requires
        0 <= i < v.len(),
        v[i].cluster@ == cluster,
    ensures
        snapshot_map(v.remove(i)).remove(cluster) == snapshot_map(v).remove(cluster),
    decreases v.len(),
{
    let last = v.last();
    let rest = v.drop_last();
    if i == v.len() - 1 {
        assert(v.remove(i) =~= rest);
        assert(snapshot_map(v.remove(i)).remove(cluster) =~= snapshot_map(v).remove(cluster));
    } else {
        lemma_snapshot_removed(rest, i, cluster);
        assert(v.remove(i).drop_last() =~= rest.remove(i));
        assert(v.remove(i).last() == last);
        let here = snapshot_map(rest.remove(i));
        let there = snapshot_map(rest);
        let value = SnapshotView { taken: last.taken, guests: guest_views(last.guests@) };
        assert(here.remove(cluster) == there.remove(cluster));
        if last.cluster@ == cluster {
            assert(here.insert(cluster, value).remove(cluster) =~= here.remove(cluster));
            assert(there.insert(cluster, value).remove(cluster) =~= there.remove(cluster));
        } else {
            assert(here.insert(last.cluster@, value).remove(cluster) =~= here.remove(
                cluster,
            ).insert(last.cluster@, value));
            assert(there.insert(last.cluster@, value).remove(cluster) =~= there.remove(
                cluster,
            ).insert(last.cluster@, value));
        }
    }
}

proof fn lemma_absent_from_map(v: Seq<Snapshot>, cluster: Seq<char>)
    requires
        forall|i: int| 0 <= i < v.len() ==> (#[trigger] v[i]).cluster@ != cluster,
    ensures
        !snapshot_map(v).contains_key(cluster),
    decreases v.len(),
{
    if v.len() > 0 {
        lemma_absent_from_map(v.drop_last(), cluster);
    }
}

impl GuestIndex {
    /// Build an index whose snapshots expire after `ttl_secs` seconds.
    #[must_use]
    pub fn new(ttl_secs: u64) -> (r: Self)
        ensures
            r@ == (IndexView { ttl_secs, generation: 0, snapshots: Map::empty() }),
    {
        GuestIndex { ttl_secs, snapshots: Vec::new(), generation: 0 }
    }

    /// Read one guest out of a snapshot that has not expired.
    pub fn lookup_fresh(&self, cluster: &str, vmid: u32, now: u128) -> (r: Option<ResolvedGuest>)
        ensures
            match r {
                Some(guest) => self@.cached(cluster@, vmid, now) == Some(guest@),
                None => self@.cached(cluster@, vmid, now) is None,
            },
    {
        broadcast use vstd::std_specs::btree::group_btree_axioms;

        let ghost all = snapshot_map(self.snapshots@);
        let mut i: usize = self.snapshots.len();
        proof {
            assert(self.snapshots@.take(i as int) =~= self.snapshots@);
        }
        while i > 0
            invariant
                i <= self.snapshots@.len(),
                all == snapshot_map(self.snapshots@),
                all.contains_key(cluster@) == snapshot_map(
                    self.snapshots@.take(i as int),
                ).contains_key(cluster@),
                all.contains_key(cluster@) ==> all[cluster@] == snapshot_map(
                    self.snapshots@.take(i as int),
                )[cluster@],
            decreases i,
        {
            let snapshot = &self.snapshots[i - 1];
            proof {
                let here = self.snapshots@.take(i as int);
                assert(here.drop_last() =~= self.snapshots@.take(i - 1));
                assert(here.last() == *snapshot);
            }
            if same_text(snapshot.cluster.as_str(), cluster) {
                let age: u128 = if now > snapshot.taken {
                    now - snapshot.taken
                } else {
                    0
                };
                if age > self.ttl_secs as u128 * NANOS_PER_SEC {
                    return None;
                }
                return match snapshot.guests.get(&vmid) {
                    Some(guest) => Some(guest.clone()),
                    None => None,
                };
            }
            i -= 1;
        }
        None
    }

    /// The generation a fetch that starts now belongs to.
    ///
    /// Read *before* fetching, so that an invalidation while the request is in
    /// flight can be told when it comes back.
    pub fn generation(&self) -> (r: u64)
        ensures
            r == self@.generation,
    {
        self.generation
    }

    /// Take in a fetched snapshot and resolve one guest from it.
    ///
    /// The snapshot is published only when no invalidation came since the fetch
    /// began. The value is still returned either way: it came from this fetch
    /// and is as fresh as the request that asked for it. What is refused is
    /// publishing it to later callers who asked for post-invalidation state.
    pub fn resolve(
        &mut self,
        cluster: &str,
        vmid: u32,
        generation_before: u64,
        guests: BTreeMap<u32, ResolvedGuest>,
        now: u128,
    ) -> (r: Result<ResolvedGuest, ProxmoxError>)
        ensures
            final(self)@ == old(self)@.after_fetch(
                cluster@,
                guest_views(guests@),
                generation_before,
                now,
            ),
            resolved_result(r) == found_in(cluster@, vmid, guest_views(guests@)),
    {
        broadcast use vstd::std_specs::btree::group_btree_axioms;

        let found = match guests.get(&vmid) {
            Some(guest) => Some(guest.clone()),
            None => None,
        };
        if self.generation == generation_before {
            let ghost before = self@;
            self.drop_cluster(cluster);
            let ghost dropped = self.snapshots@;
            let snapshot = Snapshot { cluster: cluster.to_owned(), taken: now, guests };
            let ghost added = snapshot;
            self.snapshots.push(snapshot);
            proof {
                assert(self.snapshots@.drop_last() =~= dropped);
                assert(self.snapshots@.last() == added);
                assert(self@.snapshots =~= before.snapshots.insert(
                    cluster@,
                    SnapshotView { taken: now, guests: guest_views(guests@) },
                ));
            }
        }
        match found {
            Some(guest) => Ok(guest),
            None => {
                let mut what = "guest ".to_owned();
                what.append(decimal_text(vmid as u64).as_str());
                what.append(" in cluster ");
                what.append(cluster);
                Err(ProxmoxError::NotFound { what })
            },
        }
    }

    fn drop_cluster(&mut self, cluster: &str)
        ensures
            final(self).ttl_secs == old(self).ttl_secs,
            final(self).generation == old(self).generation,
            snapshot_map(final(self).snapshots@) == snapshot_map(old(self).snapshots@).remove(
                cluster@,
            ),
    {
        let ghost before = snapshot_map(self.snapshots@).remove(cluster@);
        let mut i: usize = 0;
        while i < self.snapshots.len()
            invariant
                i <= self.snapshots@.len(),
                self.ttl_secs == old(self).ttl_secs,
                self.generation == old(self).generation,
                snapshot_map(self.snapshots@).remove(cluster@) == before,
                before == snapshot_map(old(self).snapshots@).remove(cluster@),
                forall|j: int| 0 <= j < i ==> (#[trigger] self.snapshots@[j]).cluster@ != cluster@,
            decreases self.snapshots@.len() - i,
        {
            if same_text(self.snapshots[i].cluster.as_str(), cluster) {
                proof {
                    lemma_snapshot_removed(self.snapshots@, i as int, cluster@);
                }
                self.snapshots.remove(i);
            } else {
                i += 1;
            }
        }
        proof {
            lemma_absent_from_map(self.snapshots@, cluster@);
            assert(snapshot_map(self.snapshots@).remove(cluster@) =~= snapshot_map(
                self.snapshots@,
            ));
        }
    }

    /// Drop every cached snapshot, e.g. after a mutation.
    ///
    /// Prefer [`Self::invalidate_cluster`] when only one cluster changed: this
    /// evicts snapshots for every other cluster too, and their next operation
    /// pays a fetch that can fail if that cluster is momentarily unreachable.
    pub fn invalidate(&mut self)
        ensures
            final(self)@ == old(self)@.invalidated(),
    {
        self.generation = self.generation.wrapping_add(1);
        self.snapshots = Vec::new();
    }

    /// Drop one cluster's cached snapshot.
    ///
    /// The generation bump is global even though the eviction is not: a fetch
    /// records only when it began. The cost of the coarse bump is that a fetch
    /// for an unrelated cluster may decline to cache and be repeated.
    pub fn invalidate_cluster(&mut self, cluster: &str)
        ensures
            final(self)@ == old(self)@.invalidated_cluster(cluster@),
    {
        self.drop_cluster(cluster);
        self.generation = self.generation.wrapping_add(1);
    }
}

// ---------------------------------------------------------------------------
// What holds of every index
// ---------------------------------------------------------------------------
/// A fetch that began before an invalidation is never published after it, so
/// an invalidated cluster has no snapshot until a later fetch brings one.
pub proof fn law_a_stale_fetch_is_not_published(
    index: IndexView,
    cluster: Seq<char>,
    guests: Map<u32, GuestView>,
    vmid: u32,
    now: u128,
)
    ensures
        index.invalidated_cluster(cluster).after_fetch(cluster, guests, index.generation, now)
            == index.invalidated_cluster(cluster),
        index.invalidated_cluster(cluster).cached(cluster, vmid, now) is None,
        index.invalidated().after_fetch(cluster, guests, index.generation, now)
            == index.invalidated(),
        index.invalidated().cached(cluster, vmid, now) is None,
{
}

/// Invalidating one cluster leaves what is cached of every other.
pub proof fn law_invalidating_one_cluster_leaves_the_others(
    index: IndexView,
    cluster: Seq<char>,
    other: Seq<char>,
    vmid: u32,
    now: u128,
)
    requires
        other != cluster,
    ensures
        index.invalidated_cluster(cluster).cached(other, vmid, now) == index.cached(
            other,
            vmid,
            now,
        ),
{
}

/// The generation after `n` invalidations.
pub open spec fn generation_after(g: u64, n: nat) -> u64
    decreases n,
{
    if n == 0 {
        g
    } else {
        next_generation(generation_after(g, (n - 1) as nat))
    }
}

proof fn lemma_generation_after(g: u64, n: nat)
    requires
        n <= u64::MAX,
    ensures
        generation_after(g, n) == if g + n <= u64::MAX {
            g + n
        } else {
            g + n - u64::MAX - 1
        },
    decreases n,
{
    if n > 0 {
        lemma_generation_after(g, (n - 1) as nat);
    }
}

/// However many invalidations came since a fetch began, up to the width of the
/// counter, what it brings is not published.
pub proof fn law_later_invalidations_do_not_revive_a_fetch(
    began: u64,
    n: nat,
    index: IndexView,
    cluster: Seq<char>,
    guests: Map<u32, GuestView>,
    now: u128,
)
    requires
        0 < n <= u64::MAX,
        index.generation == generation_after(began, n),
    ensures
        index.after_fetch(cluster, guests, began, now) == index,
{
    lemma_generation_after(began, n);
}

/// What a fetch publishes is what a later lookup within the time to live
/// answers: for the guests it reported, and for no others.
pub proof fn law_a_published_snapshot_answers_until_it_expires(
    index: IndexView,
    cluster: Seq<char>,
    guests: Map<u32, GuestView>,
    vmid: u32,
    taken: u128,
    now: u128,
)
    ensures
        ({
            let after = index.after_fetch(cluster, guests, index.generation, taken);
            &&& now - taken <= index.ttl_secs * NANOS_PER_SEC ==> after.cached(cluster, vmid, now)
                == (if guests.contains_key(vmid) {
                Some(guests[vmid])
            } else {
                None
            })
            &&& now - taken > index.ttl_secs * NANOS_PER_SEC ==> after.cached(cluster, vmid, now)
                is None
        }),
{
}

// ---------------------------------------------------------------------------
// What holds of every resolved guest
// ---------------------------------------------------------------------------
/// A guest is what its entry says: its type is the one the `type` field names,
/// its vmid and node are the entry's, and so are its name, status and pool
/// where the entry has them. It is of the cluster that was asked.
pub proof fn law_a_guest_is_what_its_entry_says(cluster: Seq<char>, entry: EntryView)
    ensures
        guest_in(cluster, entry) matches Ok(Some(guest)) ==> {
            &&& guest.cluster == cluster
            &&& entry.kind == Some(guest.kind.segment())
            &&& entry.kind == Some("qemu"@) ==> guest.kind == GuestType::Qemu
            &&& entry.kind == Some("lxc"@) ==> guest.kind == GuestType::Lxc
            &&& entry.vmid == Some(guest.vmid as u64)
            &&& entry.node == Some(guest.node)
            &&& entry.name is Some ==> guest.name == entry.name->0
            &&& entry.name is None ==> guest.name.len() == 0
            &&& entry.status is Some ==> guest.status == entry.status->0
            &&& entry.status is None ==> guest.status == "unknown"@
            &&& guest.pool is Some ==> guest.pool == entry.pool && guest.pool->0.len() > 0
            &&& guest.pool is None ==> entry.pool is None || entry.pool->0.len() == 0
        },
{
    reveal_strlit("qemu");
    reveal_strlit("lxc");
    assert("qemu"@.len() == 4 && "lxc"@.len() == 3);
}

/// An entry is passed over exactly when it is no virtual machine and no
/// container, or has no vmid; and one that is a guest is an error exactly when
/// its vmid is out of range or it has no node.
pub proof fn law_only_what_is_no_guest_is_passed_over(cluster: Seq<char>, entry: EntryView)
    ensures
        guest_in(cluster, entry) == Ok::<Option<GuestView>, ErrorView>(None) <==> entry.vmid is None
            || !(entry.kind == Some("qemu"@) || entry.kind == Some("lxc"@)),
        guest_in(cluster, entry) is Err <==> entry.vmid is Some && (entry.kind == Some("qemu"@)
            || entry.kind == Some("lxc"@)) && (entry.vmid->0 > 0xffff_ffff || entry.node is None),
{
}

proof fn lemma_kept_tags(pieces: Seq<Seq<char>>)
    ensures
        forall|i: int|
            0 <= i < kept_tags(pieces).len() ==> {
                let tag = #[trigger] kept_tags(pieces)[i];
                &&& tag.len() > 0
                &&& is_trimmed(tag)
                &&& exists|j: int| 0 <= j < pieces.len() && trim(#[trigger] pieces[j]) == tag
            },
        forall|j: int|
            0 <= j < pieces.len() && trim(#[trigger] pieces[j]).len() > 0 ==> kept_tags(
                pieces,
            ).contains(trim(pieces[j])),
    decreases pieces.len(),
{
    if pieces.len() > 0 {
        let before = pieces.drop_last();
        let now = kept_tags(pieces);
        let earlier = kept_tags(before);
        lemma_kept_tags(before);
        law_trimming_takes_off_the_edges(pieces.last());
        assert forall|i: int| 0 <= i < now.len() implies {
            let tag = #[trigger] now[i];
            &&& tag.len() > 0
            &&& is_trimmed(tag)
            &&& exists|j: int| 0 <= j < pieces.len() && trim(#[trigger] pieces[j]) == tag
        } by {
            if i < earlier.len() {
                assert(now[i] == earlier[i]);
                let j = choose|j: int| 0 <= j < before.len() && trim(#[trigger] before[j]) == now[i];
                assert(pieces[j] == before[j]);
            } else {
                assert(trim(pieces[pieces.len() - 1]) == now[i]);
            }
        }
        assert forall|j: int|
            0 <= j < pieces.len() && trim(#[trigger] pieces[j]).len() > 0 implies now.contains(
            trim(pieces[j]),
        ) by {
            if j < before.len() {
                assert(before[j] == pieces[j]);
                let k = choose|k: int| 0 <= k < earlier.len() && earlier[k] == trim(before[j]);
                assert(now[k] == earlier[k]);
            } else {
                assert(now.last() == trim(pieces[j]));
            }
        }
    }
}

/// A tag is never blank, has no white space at its edges and holds no
/// semicolon; and every word of the tag field is a tag.
pub proof fn law_tags_are_the_words_of_the_field(raw: Seq<char>)
    ensures
        forall|i: int|
            0 <= i < tags_of(Some(raw)).len() ==> {
                let tag = #[trigger] tags_of(Some(raw))[i];
                tag.len() > 0 && is_trimmed(tag) && !tag.contains(';')
            },
        forall|j: int|
            0 <= j < split(raw, ';').len() && trim(#[trigger] split(raw, ';')[j]).len() > 0
                ==> tags_of(Some(raw)).contains(trim(split(raw, ';')[j])),
        tags_of(None).len() == 0,
{
    let pieces = split(raw, ';');
    lemma_kept_tags(pieces);
    lemma_split_pieces(raw, ';');
    assert forall|i: int| 0 <= i < tags_of(Some(raw)).len() implies {
        let tag = #[trigger] tags_of(Some(raw))[i];
        tag.len() > 0 && is_trimmed(tag) && !tag.contains(';')
    } by {
        let tag = kept_tags(pieces)[i];
        let j = choose|j: int| 0 <= j < pieces.len() && trim(#[trigger] pieces[j]) == tag;
        law_trimming_takes_off_the_edges(pieces[j]);
    }
}

proof fn lemma_clean_tags_are_kept(tags: Seq<Seq<char>>)
    requires
        forall|i: int| 0 <= i < tags.len() ==> (#[trigger] tags[i]).len() > 0 && is_trimmed(tags[i]),
    ensures
        kept_tags(tags) == tags,
    decreases tags.len(),
{
    if tags.len() > 0 {
        let before = tags.drop_last();
        assert forall|i: int| 0 <= i < before.len() implies (#[trigger] before[i]).len() > 0
            && is_trimmed(before[i]) by {
            assert(before[i] == tags[i]);
        }
        lemma_clean_tags_are_kept(before);
        assert(tags[tags.len() - 1].len() > 0);
        law_trimming_takes_off_the_edges(tags.last());
        assert(before.push(tags.last()) =~= tags);
    } else {
        assert(tags =~= Seq::<Seq<char>>::empty());
    }
}

/// Tags are read back as they were written: of tags joined by semicolons, each
/// comes out, in order, and nothing else.
pub proof fn law_joined_tags_are_read_back(tags: Seq<Seq<char>>)
    requires
        tags.len() > 0,
        forall|i: int|
            0 <= i < tags.len() ==> (#[trigger] tags[i]).len() > 0 && is_trimmed(tags[i])
                && !tags[i].contains(';'),
    ensures
        tags_of(Some(join(tags, seq![';']))) == tags,
{
    law_splitting_undoes_joining(tags, ';');
    lemma_clean_tags_are_kept(tags);
}

/// Whether an entry is the last of a list that reports a guest of its vmid.
pub open spec fn last_of_its_vmid(
    cluster: Seq<char>,
    entries: Seq<EntryView>,
    i: int,
    guest: GuestView,
) -> bool {
    &&& 0 <= i < entries.len()
    &&& guest_in(cluster, entries[i]) == Ok::<Option<GuestView>, ErrorView>(Some(guest))
    &&& forall|j: int|
        i < j < entries.len() ==> !(guest_in(cluster, #[trigger] entries[j]) matches Ok(Some(other))
            && other.vmid == guest.vmid)
}

/// The guests of an answer are those its entries report and no others: where no
/// entry is an error, a vmid stands for the guest of the last entry that has
/// it; and one entry that is an error makes the answer one.
pub proof fn law_the_guests_of_an_answer_are_its_entries(
    cluster: Seq<char>,
    entries: Seq<EntryView>,
)
    ensures
        guests_in(cluster, entries) is Err <==> exists|i: int|
            0 <= i < entries.len() && guest_in(cluster, #[trigger] entries[i]) is Err,
        guests_in(cluster, entries) matches Ok(guests) ==> {
            &&& forall|i: int, guest: GuestView| #[trigger]
                last_of_its_vmid(cluster, entries, i, guest) ==> guests.contains_pair(
                    guest.vmid,
                    guest,
                )
            &&& forall|vmid: u32| #[trigger]
                guests.contains_key(vmid) ==> exists|i: int|
                    last_of_its_vmid(cluster, entries, i, guests[vmid])
        },
    decreases entries.len(),
{
    if entries.len() > 0 {
        let before = entries.drop_last();
        let n = before.len() as int;
        law_the_guests_of_an_answer_are_its_entries(cluster, before);
        if exists|i: int| 0 <= i < before.len() && guest_in(cluster, #[trigger] before[i]) is Err {
            let i = choose|i: int|
                0 <= i < before.len() && guest_in(cluster, #[trigger] before[i]) is Err;
            assert(guest_in(cluster, entries[i]) is Err);
        }
        if exists|i: int| 0 <= i < entries.len() && guest_in(cluster, #[trigger] entries[i]) is Err {
            let i = choose|i: int|
                0 <= i < entries.len() && guest_in(cluster, #[trigger] entries[i]) is Err;
            if i < n {
                assert(guest_in(cluster, before[i]) is Err);
            }
        }
        if guest_in(cluster, entries.last()) is Err {
            assert(guest_in(cluster, entries[n]) is Err);
        }
        if let Ok(guests) = guests_in(cluster, entries) {
            let earlier = guests_in(cluster, before)->Ok_0;
            assert forall|i: int, guest: GuestView| #[trigger]
                last_of_its_vmid(cluster, entries, i, guest) implies guests.contains_pair(
                guest.vmid,
                guest,
            ) by {
                if i < n {
                    assert(before[i] == entries[i]);
                    assert forall|j: int| i < j < before.len() implies !(guest_in(
                        cluster,
                        #[trigger] before[j],
                    ) matches Ok(Some(other)) && other.vmid == guest.vmid) by {
                        assert(entries[j] == before[j]);
                    }
                    assert(last_of_its_vmid(cluster, before, i, guest));
                    assert(entries[n] == entries.last());
                }
            }
            assert forall|vmid: u32| #[trigger] guests.contains_key(vmid) implies exists|i: int|
                last_of_its_vmid(cluster, entries, i, guests[vmid]) by {
                lemma_guests_in_are_keyed(cluster, entries);
                let newest = guest_in(cluster, entries.last())->Ok_0;
                if newest is Some && newest->0.vmid == vmid {
                    assert(last_of_its_vmid(cluster, entries, n, guests[vmid]));
                } else {
                    assert(earlier.contains_key(vmid));
                    let i = choose|i: int| last_of_its_vmid(cluster, before, i, earlier[vmid]);
                    assert(entries[i] == before[i]);
                    assert forall|j: int| i < j < entries.len() implies !(guest_in(
                        cluster,
                        #[trigger] entries[j],
                    ) matches Ok(Some(other)) && other.vmid == earlier[vmid].vmid) by {
                        if j < n {
                            assert(before[j] == entries[j]);
                        }
                    }
                    assert(last_of_its_vmid(cluster, entries, i, guests[vmid]));
                }
            }
        }
    }
}

/// What one cluster's fetch brings answers for that cluster alone: what is
/// cached of every other stays.
pub proof fn law_a_fetch_answers_for_its_own_cluster(
    index: IndexView,
    cluster: Seq<char>,
    other: Seq<char>,
    guests: Map<u32, GuestView>,
    generation: u64,
    vmid: u32,
    taken: u128,
    now: u128,
)
    requires
        other != cluster,
    ensures
        index.after_fetch(cluster, guests, generation, taken).cached(other, vmid, now)
            == index.cached(other, vmid, now),
{
}

/// A refusal names what was refused: the guest that is out of scope, the tier
/// that is not carried, or the guest that is protected.
pub proof fn law_a_refusal_follows_from_what_is_missing(
    policy: PolicyView,
    guest: GuestView,
    grant: GrantView,
    intent: Intent,
)
    ensures
        authorization(policy, guest, grant, intent) is Ok <==> grant.admits(guest.facts())
            && grant.permits(intent.tier.required()) && (protection_for(policy, guest) is Unprotected
            || intent.override_applies == Some(true) || (intent.tier != Tier::Destructive
            && !intent.interrupts)),
        authorization(policy, guest, grant, intent) matches Err(error) ==> error is Denied,
        authorization(policy, guest, grant, intent) matches Ok(authorized) ==> {
            &&& authorized.guest == guest
            &&& authorized.tier == intent.tier
            &&& authorized.protection == protection_for(policy, guest)
        },
{
}

/// What is read of an entry stands under its own name: the type under `type`,
/// the vmid under `vmid`, and each text under the name of its field. Of a text
/// that is no JSON nothing is read.
pub proof fn law_an_entry_is_read_by_its_names(text: Seq<char>)
    ensures
        json_of(text) matches Some(value) ==> {
            let entry = entry_in(text);
            &&& entry.kind == text_member(value, "type"@)
            &&& entry.name == text_member(value, "name"@)
            &&& entry.node == text_member(value, "node"@)
            &&& entry.status == text_member(value, "status"@)
            &&& entry.tags == text_member(value, "tags"@)
            &&& entry.pool == text_member(value, "pool"@)
            &&& entry.vmid matches Some(vmid) ==> integer_member(value, "vmid"@) == Some(
                vmid as i128,
            )
            &&& entry.vmid is None ==> integer_member(value, "vmid"@) is None || integer_member(
                value,
                "vmid"@,
            )->0 < 0 || integer_member(value, "vmid"@)->0 > 0xffff_ffff_ffff_ffff
        },
        json_of(text) is None ==> entry_in(text).kind is None && entry_in(text).vmid is None,
{
}

/// A guest is judged by its own facts: its vmid, type, node, pool and tags.
pub proof fn law_a_guest_is_judged_by_its_own_facts(guest: GuestView)
    ensures
        guest.facts().vmid == guest.vmid,
        guest.facts().kind == guest.kind,
        guest.facts().node == guest.node,
        guest.facts().pool == guest.pool,
        guest.facts().tags == guest.tags,
{
}

/// An answer is read item by item, each as one entry and in order; what is no
/// list is refused.
pub proof fn law_an_answer_is_read_item_by_item(cluster: Seq<char>, data: Seq<char>)
    ensures
        !(json_of(data) matches Some(JsonView::Array(_))) ==> (guests_reported(
            cluster,
            data,
        ) matches Err(error) && error is Malformed),
        json_of(data) matches Some(JsonView::Array(items)) ==> exists|entries: Seq<EntryView>|
            {
                &&& guests_reported(cluster, data) == #[trigger] guests_in(cluster, entries)
                &&& entries.len() == items.len()
                &&& forall|i: int| 0 <= i < items.len() ==> #[trigger] entries[i] == entry_in(
                    items[i],
                )
            },
{
    if let Some(JsonView::Array(items)) = json_of(data) {
        let entries = items.map_values(|text: Seq<char>| entry_in(text));
        assert(guests_reported(cluster, data) == guests_in(cluster, entries));
    }
}

/// A guest is found exactly where it is reported, and what is not found is
/// named, with its cluster.
pub proof fn law_a_guest_is_found_where_it_is_reported(
    cluster: Seq<char>,
    vmid: u32,
    guests: Map<u32, GuestView>,
)
    ensures
        found_in(cluster, vmid, guests) is Ok <==> guests.contains_key(vmid),
        found_in(cluster, vmid, guests) matches Ok(guest) ==> guests.contains_pair(vmid, guest),
        found_in(cluster, vmid, guests) matches Err(error) ==> error == (ErrorView::NotFound {
            what: "guest "@ + decimal(vmid as nat) + " in cluster "@ + cluster,
        }),
{
}

/// A refusal says what is refused: the guest and its cluster where it is out of
/// scope, the tier that is missing, or the guest with every reason for its
/// protection.
pub proof fn law_a_refusal_says_what_is_refused(
    guest: GuestView,
    protection: ProtectionView,
    tier: Tier,
)
    ensures
        scope_refusal(guest) matches ErrorView::Denied(text) && has_text(
            text,
            decimal(guest.vmid as nat) + " in cluster "@ + guest.cluster,
        ),
        tier_refusal(tier) matches ErrorView::Denied(text) && has_text(text, tier.name_text()),
        protection_refusal(guest, protection, tier) matches ErrorView::Denied(text) && has_text(
            text,
            decimal(guest.vmid as nat) + " is protected ("@ + protection.summary_text(),
        ),
{
    let number = decimal(guest.vmid as nat);
    let head = "token scope does not admit guest "@;
    lemma_together(head, number, " in cluster "@);
    lemma_together(head, number + " in cluster "@, guest.cluster);
    lemma_has_end(head, number + " in cluster "@ + guest.cluster);
    lemma_has_middle("token grant does not carry the "@, tier.name_text(), " action tier"@);
    let summary = protection.summary_text();
    let what = if tier == Tier::Destructive {
        "a destructive call"@
    } else {
        "interrupting a protected guest"@
    };
    let part = number + " is protected ("@ + summary;
    lemma_together("guest "@, number, " is protected ("@);
    lemma_together("guest "@, number + " is protected ("@, summary);
    lemma_together("guest "@ + part, "); "@, what);
    lemma_together("guest "@ + part, "); "@ + what, " needs a waiver"@);
    lemma_has_middle("guest "@, part, "); "@ + what + " needs a waiver"@);
}

/// Dropping what is cached changes neither how long a snapshot lives nor what
/// comes after: the generation moves on by one.
pub proof fn law_dropping_the_cache_keeps_the_index(index: IndexView, cluster: Seq<char>)
    ensures
        index.invalidated().ttl_secs == index.ttl_secs,
        index.invalidated_cluster(cluster).ttl_secs == index.ttl_secs,
        index.invalidated().generation != index.generation,
        index.invalidated_cluster(cluster).generation == index.invalidated().generation,
        index.invalidated().snapshots.len() == 0,
{
}

/// A call is refused for the first of its faults: a guest out of scope, then a
/// tier that is not carried, then a protection that nothing overrides.
pub proof fn law_a_call_is_refused_for_its_first_fault(
    policy: PolicyView,
    guest: GuestView,
    grant: GrantView,
    intent: Intent,
)
    ensures
        authorization(policy, guest, grant, intent) matches Err(error) ==> error == (
        if !grant.admits(guest.facts()) {
            scope_refusal(guest)
        } else if !grant.permits(intent.tier.required()) {
            tier_refusal(intent.tier)
        } else {
            protection_refusal(guest, protection_for(policy, guest), intent.tier)
        }),
{
}

} // verus!
