//! Protection resolution: the function that decides whether a guest survives.
//!
//! Protection is the union of a live Proxmox tag and a server-side pin, and it
//! fails closed on both an unreadable answer and an unknown guest.
//!
//! The union is the whole point. A live tag keeps the list current and lets
//! operators manage it where they already work, but the server's own API token
//! can clear that tag, so a tag-only policy is unprotect-then-destroy in two
//! calls. The pin in the inventory cannot be edited through the Proxmox API at
//! all. Neither half is sufficient alone.
//!
//! Every applicable reason is reported rather than the first one found, because
//! the preview an approver reads should say *why*.
use vstd::prelude::*;
use vstd::string::*;

use crate::inventory::{Cluster, PolicyView};
use crate::resolve::{GuestView, ResolvedGuest};
use crate::text::{
    contains_text, copy_option, has_text, join, join_texts, lemma_join_has_parts, lemma_texts_push,
    text_option, texts,
};
use crate::waiver::{
    first_covering, law_a_waiver_is_found_when_one_covers, WaiverFile, WaiverView,
};

verus! {

/// Why a guest is protected.
#[derive(Debug, PartialEq, Eq)]
pub enum ProtectionReason {
    /// The guest carries a tag the cluster policy marks protective.
    LiveTag(String),
    /// The guest's vmid is pinned in the inventory.
    InventoryPin,
    /// The cluster could not be read, so protection cannot be ruled out.
    ResolutionFailed,
    /// The cluster does not report this guest at all.
    UnknownGuest,
}

/// Why a guest is protected, as a mathematical value.
pub enum ReasonView {
    LiveTag(Seq<char>),
    InventoryPin,
    ResolutionFailed,
    UnknownGuest,
}

impl View for ProtectionReason {
    type V = ReasonView;

    open spec fn view(&self) -> ReasonView {
        match self {
            ProtectionReason::LiveTag(tag) => ReasonView::LiveTag(tag@),
            ProtectionReason::InventoryPin => ReasonView::InventoryPin,
            ProtectionReason::ResolutionFailed => ReasonView::ResolutionFailed,
            ProtectionReason::UnknownGuest => ReasonView::UnknownGuest,
        }
    }
}

impl Clone for ProtectionReason {
    fn clone(&self) -> (r: Self)
        ensures
            r@ == self@,
    {
        match self {
            ProtectionReason::LiveTag(tag) => ProtectionReason::LiveTag(tag.clone()),
            ProtectionReason::InventoryPin => ProtectionReason::InventoryPin,
            ProtectionReason::ResolutionFailed => ProtectionReason::ResolutionFailed,
            ProtectionReason::UnknownGuest => ProtectionReason::UnknownGuest,
        }
    }
}

impl ReasonView {
    /// How a reason reads in audit metadata and previews.
    pub open spec fn label(self) -> Seq<char> {
        match self {
            ReasonView::LiveTag(tag) => "tag:"@ + tag,
            ReasonView::InventoryPin => "inventory-pin"@,
            ReasonView::ResolutionFailed => "resolution-failed"@,
            ReasonView::UnknownGuest => "unknown-guest"@,
        }
    }
}

/// The reasons of a list.
pub open spec fn reason_views(v: Seq<ProtectionReason>) -> Seq<ReasonView> {
    v.map_values(|r: ProtectionReason| r@)
}

/// The protection verdict for one guest.
#[derive(Debug, PartialEq, Eq)]
pub enum Protection {
    /// No protective signal applies.
    Unprotected,
    /// At least one protective signal applies.
    Protected {
        /// Every applicable reason, in a stable order.
        reasons: Vec<ProtectionReason>,
    },
}

/// A protection verdict, as a mathematical value.
pub enum ProtectionView {
    Unprotected,
    Protected { reasons: Seq<ReasonView> },
}

impl View for Protection {
    type V = ProtectionView;

    open spec fn view(&self) -> ProtectionView {
        match self {
            Protection::Unprotected => ProtectionView::Unprotected,
            Protection::Protected { reasons } => ProtectionView::Protected {
                reasons: reason_views(reasons@),
            },
        }
    }
}

impl ProtectionView {
    /// The verdict in one line.
    pub open spec fn summary_text(self) -> Seq<char> {
        match self {
            ProtectionView::Unprotected => "unprotected"@,
            ProtectionView::Protected { reasons } => join(labels(reasons), ","@),
        }
    }
}

/// The label of each reason.
pub open spec fn labels(reasons: Seq<ReasonView>) -> Seq<Seq<char>> {
    reasons.map_values(|r: ReasonView| r.label())
}

/// Override allowing a destructive operation to proceed on a protected guest.
#[derive(Debug, PartialEq, Eq)]
pub enum Override {
    /// No override applies.
    NoOverride,
    /// A matching waiver from the waivers file.
    Waiver {
        /// The reason stated in the waiver.
        reason: String,
        /// The change ticket, if any.
        ticket: Option<String>,
        /// The unix timestamp when this waiver expires.
        until_unix: u64,
    },
    /// The server is in lab mode (single-operator workflow).
    LabMode,
}

/// An override, as a mathematical value.
pub enum OverrideView {
    NoOverride,
    Waiver { reason: Seq<char>, ticket: Option<Seq<char>>, until_unix: u64 },
    LabMode,
}

impl View for Override {
    type V = OverrideView;

    open spec fn view(&self) -> OverrideView {
        match self {
            Override::NoOverride => OverrideView::NoOverride,
            Override::Waiver { reason, ticket, until_unix } => OverrideView::Waiver {
                reason: reason@,
                ticket: text_option(*ticket),
                until_unix: *until_unix,
            },
            Override::LabMode => OverrideView::LabMode,
        }
    }
}

impl OverrideView {
    /// Whether an override lets a call on a protected guest proceed.
    pub open spec fn applies(self) -> bool {
        !(self is NoOverride)
    }
}

impl Override {
    /// Whether this override lets a call on a protected guest proceed.
    pub fn applies(&self) -> (r: bool)
        ensures
            r == self@.applies(),
    {
        match self {
            Override::NoOverride => false,
            _ => true,
        }
    }
}

impl Clone for Override {
    fn clone(&self) -> (r: Self)
        ensures
            r@ == self@,
    {
        match self {
            Override::NoOverride => Override::NoOverride,
            Override::Waiver { reason, ticket, until_unix } => Override::Waiver {
                reason: reason.clone(),
                ticket: copy_option(ticket),
                until_unix: *until_unix,
            },
            Override::LabMode => Override::LabMode,
        }
    }
}

/// The reasons the tags of a guest give, in the order of its tags.
pub open spec fn tag_reasons(protective: Seq<Seq<char>>, tags: Seq<Seq<char>>) -> Seq<ReasonView>
    decreases tags.len(),
{
    if tags.len() == 0 {
        Seq::empty()
    } else if protective.contains(tags.last()) {
        tag_reasons(protective, tags.drop_last()).push(ReasonView::LiveTag(tags.last()))
    } else {
        tag_reasons(protective, tags.drop_last())
    }
}

/// Every reason that protects a guest: the failure to read the cluster, the
/// absence of the guest, each protective tag, the pin.
pub open spec fn reasons_for(
    policy: PolicyView,
    guest: Option<GuestView>,
    resolution_failed: bool,
) -> Seq<ReasonView> {
    let failed = if resolution_failed {
        seq![ReasonView::ResolutionFailed]
    } else {
        Seq::empty()
    };
    match guest {
        None => if resolution_failed {
            failed
        } else {
            failed.push(ReasonView::UnknownGuest)
        },
        Some(guest) => {
            let tagged = failed + tag_reasons(policy.tags, guest.tags);
            if policy.vmids.contains(guest.vmid) {
                tagged.push(ReasonView::InventoryPin)
            } else {
                tagged
            }
        },
    }
}

/// The verdict a list of reasons gives.
pub open spec fn verdict(reasons: Seq<ReasonView>) -> ProtectionView {
    if reasons.len() == 0 {
        ProtectionView::Unprotected
    } else {
        ProtectionView::Protected { reasons }
    }
}

/// The protection verdict for a guest the cluster reports.
pub open spec fn protection_for(policy: PolicyView, guest: GuestView) -> ProtectionView {
    verdict(reasons_for(policy, Some(guest), false))
}

/// The override that applies to a guest: none where none is needed, a waiver
/// before lab mode, lab mode where there is no waiver.
pub open spec fn override_for(
    protection: ProtectionView,
    waivers: Seq<WaiverView>,
    cluster: Seq<char>,
    vmid: u32,
    now_unix: u64,
    lab_mode: bool,
) -> OverrideView {
    if protection is Unprotected {
        OverrideView::NoOverride
    } else {
        match first_covering(waivers, cluster, vmid, now_unix) {
            Some(waiver) => OverrideView::Waiver {
                reason: waiver.reason,
                ticket: waiver.ticket,
                until_unix: waiver.until_unix,
            },
            None => if lab_mode {
                OverrideView::LabMode
            } else {
                OverrideView::NoOverride
            },
        }
    }
}

impl Protection {
    /// Whether any protective signal applies.
    #[must_use]
    pub fn is_protected(&self) -> (r: bool)
        ensures
            r == (self@ is Protected),
    {
        match self {
            Protection::Unprotected => false,
            Protection::Protected { .. } => true,
        }
    }

    /// A one-line rendering for audit metadata and previews.
    #[must_use]
    pub fn summary(&self) -> (r: String)
        ensures
            r@ == self@.summary_text(),
    {
        match self {
            Protection::Unprotected => "unprotected".to_owned(),
            Protection::Protected { reasons } => {
                let ghost all = labels(reason_views(reasons@));
                let mut parts: Vec<String> = Vec::new();
                let mut i: usize = 0;
                proof {
                    assert(texts(parts@) =~= all.take(0));
                }
                while i < reasons.len()
                    invariant
                        i <= reasons@.len(),
                        all == labels(reason_views(reasons@)),
                        texts(parts@) == all.take(i as int),
                    decreases reasons@.len() - i,
                {
                    let part = match &reasons[i] {
                        ProtectionReason::LiveTag(tag) => {
                            let mut text = "tag:".to_owned();
                            text.append(tag.as_str());
                            text
                        },
                        ProtectionReason::InventoryPin => "inventory-pin".to_owned(),
                        ProtectionReason::ResolutionFailed => "resolution-failed".to_owned(),
                        ProtectionReason::UnknownGuest => "unknown-guest".to_owned(),
                    };
                    proof {
                        lemma_texts_push(parts@, part);
                        assert(all[i as int] == part@);
                        assert(all.take(i as int + 1) =~= all.take(i as int).push(part@));
                    }
                    parts.push(part);
                    i += 1;
                }
                proof {
                    assert(all.take(i as int) =~= all);
                }
                join_texts(&parts, ",")
            },
        }
    }
}

impl Clone for Protection {
    fn clone(&self) -> (r: Self)
        ensures
            r@ == self@,
    {
        match self {
            Protection::Unprotected => Protection::Unprotected,
            Protection::Protected { reasons } => {
                let ghost all = reason_views(reasons@);
                let mut out: Vec<ProtectionReason> = Vec::new();
                let mut i: usize = 0;
                proof {
                    assert(reason_views(out@) =~= all.take(0));
                }
                while i < reasons.len()
                    invariant
                        i <= reasons@.len(),
                        all == reason_views(reasons@),
                        reason_views(out@) == all.take(i as int),
                    decreases reasons@.len() - i,
                {
                    let reason = reasons[i].clone();
                    let ghost before = out@;
                    out.push(reason);
                    proof {
                        assert(reason_views(out@) =~= reason_views(before).push(reason@));
                        assert(all.take(i as int + 1) =~= all.take(i as int).push(reason@));
                    }
                    i += 1;
                }
                proof {
                    assert(all.take(i as int) =~= all);
                }
                Protection::Protected { reasons: out }
            },
        }
    }
}

fn contains_vmid(v: &Vec<u32>, vmid: u32) -> (r: bool)
    ensures
        r == v@.contains(vmid),
{
    let mut i: usize = 0;
    while i < v.len()
        invariant
            i <= v@.len(),
            forall|j: int| 0 <= j < i ==> v@[j] != vmid,
        decreases v@.len() - i,
    {
        if v[i] == vmid {
            return true;
        }
        i += 1;
    }
    false
}

fn push_reason(reasons: &mut Vec<ProtectionReason>, reason: ProtectionReason)
    ensures
        reason_views(final(reasons)@) == reason_views(old(reasons)@).push(reason@),
{
    let ghost before = reasons@;
    reasons.push(reason);
    proof {
        assert(reason_views(reasons@) =~= reason_views(before).push(reason@));
    }
}

/// Resolve protection for one guest.
///
/// `guest` is `None` when the cluster does not report the vmid.
/// `resolution_failed` is `true` when the cluster could not be read at all,
/// distinguished from an absent guest because they are different operational
/// situations, and both are protective.
#[must_use]
pub fn protection_of(
    cluster: &Cluster,
    guest: Option<&ResolvedGuest>,
    resolution_failed: bool,
) -> (r: Protection)
    ensures
        r@ == verdict(
            reasons_for(
                cluster@.policy,
                match guest {
                    Some(guest) => Some(guest@),
                    None => None,
                },
                resolution_failed,
            ),
        ),
{
    let mut reasons: Vec<ProtectionReason> = Vec::new();
    proof {
        assert(reason_views(reasons@) =~= Seq::<ReasonView>::empty());
    }
    if resolution_failed {
        push_reason(&mut reasons, ProtectionReason::ResolutionFailed);
        proof {
            assert(reason_views(reasons@) =~= seq![ReasonView::ResolutionFailed]);
        }
    }
    let ghost failed = reason_views(reasons@);
    match guest {
        None => {
            if !resolution_failed {
                push_reason(&mut reasons, ProtectionReason::UnknownGuest);
            }
        },
        Some(guest) => {
            let ghost tags = texts(guest.tags@);
            let mut i: usize = 0;
            proof {
                assert(tags.take(0) =~= Seq::<Seq<char>>::empty());
                assert(failed + tag_reasons(cluster@.policy.tags, tags.take(0)) =~= failed);
            }
            while i < guest.tags.len()
                invariant
                    i <= guest.tags@.len(),
                    tags == texts(guest.tags@),
                    reason_views(reasons@) == failed + tag_reasons(
                        cluster@.policy.tags,
                        tags.take(i as int),
                    ),
                decreases guest.tags@.len() - i,
            {
                let ghost before = tag_reasons(cluster@.policy.tags, tags.take(i as int));
                proof {
                    assert(tags.take(i as int + 1).drop_last() =~= tags.take(i as int));
                    assert(tags.take(i as int + 1).last() == guest.tags@[i as int]@);
                }
                if contains_text(cluster.protected_tags.as_slice(), guest.tags[i].as_str()) {
                    push_reason(&mut reasons, ProtectionReason::LiveTag(guest.tags[i].clone()));
                    proof {
                        let reason = ReasonView::LiveTag(guest.tags@[i as int]@);
                        assert((failed + before).push(reason) =~= failed + before.push(reason));
                    }
                }
                i += 1;
            }
            proof {
                assert(tags.take(i as int) =~= tags);
            }
            if contains_vmid(&cluster.protected_vmids, guest.vmid) {
                push_reason(&mut reasons, ProtectionReason::InventoryPin);
            }
        },
    }
    if reasons.len() == 0 {
        Protection::Unprotected
    } else {
        Protection::Protected { reasons }
    }
}

/// Determine what override, if any, allows a destructive operation.
///
/// ```text
/// allowed := not protected, or waiver_matches(cluster, vmid, now), or lab_mode
/// ```
///
/// When the guest is unprotected, no override is needed. When the guest is
/// protected, a matching waiver takes precedence over lab mode for
/// auditability: the record should name the specific, ticketed authority rather
/// than the blanket flag.
#[must_use]
pub fn destructive_allowed(
    protection: &Protection,
    waivers: &WaiverFile,
    cluster: &str,
    vmid: u32,
    now_unix: u64,
    lab_mode: bool,
) -> (r: Override)
    ensures
        r@ == override_for(protection@, waivers@, cluster@, vmid, now_unix, lab_mode),
{
    // Unprotected guests need no override.
    if !protection.is_protected() {
        return Override::NoOverride;
    }
    // A matching waiver first: it is preferred over lab mode for auditability.

    if let Some(entry) = waivers.matching(cluster, vmid, now_unix) {
        return Override::Waiver {
            reason: entry.reason().to_owned(),
            ticket: match entry.ticket() {
                Some(ticket) => Some(ticket.to_owned()),
                None => None,
            },
            until_unix: entry.until_unix(),
        };
    }
    if lab_mode {
        return Override::LabMode;
    }
    Override::NoOverride
}

/// Whether a VMID that does not yet exist may be created.
///
/// The protection union is evaluated against a *resolved* guest, so it has
/// nothing to match when the guest is the one being created. A pinned VMID is
/// pinned because something important is expected to live there, so a create
/// into a pinned VMID is refused.
///
/// Tags cannot participate: a guest that does not exist carries none.
#[must_use]
pub fn creation_allowed(cluster: &Cluster, vmid: u32) -> (r: bool)
    ensures
        r == !cluster@.policy.vmids.contains(vmid),
{
    !contains_vmid(&cluster.protected_vmids, vmid)
}

// ---------------------------------------------------------------------------
// What holds of every guest
// ---------------------------------------------------------------------------
proof fn lemma_tag_reasons(protective: Seq<Seq<char>>, tags: Seq<Seq<char>>)
    ensures
        tag_reasons(protective, tags).len() > 0 <==> exists|i: int|
            0 <= i < tags.len() && protective.contains(#[trigger] tags[i]),
        forall|i: int|
            0 <= i < tags.len() && protective.contains(#[trigger] tags[i]) ==> tag_reasons(
                protective,
                tags,
            ).contains(ReasonView::LiveTag(tags[i])),
    decreases tags.len(),
{
    if tags.len() > 0 {
        let before = tags.drop_last();
        lemma_tag_reasons(protective, before);
        let now = tag_reasons(protective, tags);
        let earlier = tag_reasons(protective, before);
        assert forall|i: int|
            0 <= i < tags.len() && protective.contains(#[trigger] tags[i]) implies now.contains(
            ReasonView::LiveTag(tags[i]),
        ) by {
            if i < before.len() {
                assert(before[i] == tags[i]);
                let k = choose|k: int|
                    0 <= k < earlier.len() && earlier[k] == ReasonView::LiveTag(tags[i]);
                assert(now[k] == earlier[k]);
            } else {
                assert(now.last() == ReasonView::LiveTag(tags[i]));
            }
        }
        if now.len() > 0 {
            if protective.contains(tags.last()) {
                assert(tags[tags.len() - 1] == tags.last());
            } else {
                let i = choose|i: int|
                    0 <= i < before.len() && protective.contains(#[trigger] before[i]);
                assert(tags[i] == before[i]);
            }
        }
    }
}

/// A reported guest is protected exactly when it carries a protective tag or
/// its vmid is pinned.
pub proof fn law_protection_is_a_union(policy: PolicyView, guest: GuestView)
    ensures
        protection_for(policy, guest) is Protected <==> policy.vmids.contains(guest.vmid) || exists|
            i: int,
        |
            0 <= i < guest.tags.len() && policy.tags.contains(#[trigger] guest.tags[i]),
{
    lemma_tag_reasons(policy.tags, guest.tags);
    assert(Seq::<ReasonView>::empty() + tag_reasons(policy.tags, guest.tags) =~= tag_reasons(
        policy.tags,
        guest.tags,
    ));
}

/// Clearing tags does not clear a pin: a pinned guest is protected whatever
/// its tags.
pub proof fn law_clearing_tags_does_not_clear_the_pin(
    policy: PolicyView,
    guest: GuestView,
    tags: Seq<Seq<char>>,
)
    requires
        policy.vmids.contains(guest.vmid),
    ensures
        protection_for(policy, GuestView { tags, ..guest }) is Protected,
{
    law_protection_is_a_union(policy, GuestView { tags, ..guest });
}

/// Protection fails closed: a cluster that could not be read and a guest that
/// it does not report are both protected.
pub proof fn law_protection_fails_closed(policy: PolicyView, guest: Option<GuestView>)
    ensures
        verdict(reasons_for(policy, guest, true)) is Protected,
        verdict(reasons_for(policy, None, false)) is Protected,
{
    assert(reasons_for(policy, None, false).len() == 1);
    match guest {
        Some(g) => {
            assert(reasons_for(policy, guest, true).len() > 0);
        },
        None => {},
    }
}

/// Every reason is reported: each protective tag the guest carries, and the
/// pin.
pub proof fn law_every_reason_is_reported(policy: PolicyView, guest: GuestView)
    ensures
        forall|i: int|
            0 <= i < guest.tags.len() && policy.tags.contains(#[trigger] guest.tags[i])
                ==> reasons_for(policy, Some(guest), false).contains(
                ReasonView::LiveTag(guest.tags[i]),
            ),
        policy.vmids.contains(guest.vmid) ==> reasons_for(policy, Some(guest), false).contains(
            ReasonView::InventoryPin,
        ),
{
    lemma_tag_reasons(policy.tags, guest.tags);
    let tagged = tag_reasons(policy.tags, guest.tags);
    assert(Seq::<ReasonView>::empty() + tagged =~= tagged);
    let all = reasons_for(policy, Some(guest), false);
    assert forall|i: int|
        0 <= i < guest.tags.len() && policy.tags.contains(#[trigger] guest.tags[i]) implies all.contains(
        ReasonView::LiveTag(guest.tags[i]),
    ) by {
        let k = choose|k: int|
            0 <= k < tagged.len() && tagged[k] == ReasonView::LiveTag(guest.tags[i]);
        assert(all[k] == tagged[k]);
    }
    if policy.vmids.contains(guest.vmid) {
        assert(all.last() == ReasonView::InventoryPin);
    }
}

/// A destructive call is allowed exactly when the guest is unprotected, a
/// waiver covers it, or lab mode is on.
pub proof fn law_when_a_destructive_call_is_allowed(
    protection: ProtectionView,
    waivers: Seq<WaiverView>,
    cluster: Seq<char>,
    vmid: u32,
    now_unix: u64,
    lab_mode: bool,
)
    ensures
        (protection is Unprotected || override_for(
            protection,
            waivers,
            cluster,
            vmid,
            now_unix,
            lab_mode,
        ).applies()) <==> (protection is Unprotected || first_covering(
            waivers,
            cluster,
            vmid,
            now_unix,
        ) is Some || lab_mode),
{
}

/// Where a waiver covers a protected guest, the waiver is the authority on
/// record, whether or not lab mode is on.
pub proof fn law_a_waiver_is_preferred_over_lab_mode(
    protection: ProtectionView,
    waivers: Seq<WaiverView>,
    cluster: Seq<char>,
    vmid: u32,
    now_unix: u64,
    lab_mode: bool,
)
    requires
        protection is Protected,
        first_covering(waivers, cluster, vmid, now_unix) is Some,
    ensures
        override_for(protection, waivers, cluster, vmid, now_unix, lab_mode) is Waiver,
{
}

/// No reason is invented: a tag that is given as one is carried by the guest
/// and protective under the policy, a pin that is given as one is in the
/// policy, and a guest that was read is neither unknown nor unreadable.
pub proof fn law_no_reason_is_invented(policy: PolicyView, guest: GuestView, reason: ReasonView)
    requires
        reasons_for(policy, Some(guest), false).contains(reason),
    ensures
        reason matches ReasonView::LiveTag(tag) ==> guest.tags.contains(tag) && policy.tags.contains(
            tag,
        ),
        reason is InventoryPin ==> policy.vmids.contains(guest.vmid),
        !(reason is ResolutionFailed),
        !(reason is UnknownGuest),
{
    let tagged = tag_reasons(policy.tags, guest.tags);
    assert(Seq::<ReasonView>::empty() + tagged =~= tagged);
    let all = reasons_for(policy, Some(guest), false);
    let k = choose|k: int| 0 <= k < all.len() && all[k] == reason;
    if k < tagged.len() {
        assert(all[k] == tagged[k]);
        lemma_tag_reasons_are_tags(policy.tags, guest.tags, k);
    }
}

proof fn lemma_tag_reasons_are_tags(protective: Seq<Seq<char>>, tags: Seq<Seq<char>>, k: int)
    requires
        0 <= k < tag_reasons(protective, tags).len(),
    ensures
        tag_reasons(protective, tags)[k] matches ReasonView::LiveTag(tag) && tags.contains(tag)
            && protective.contains(tag),
    decreases tags.len(),
{
    if tags.len() > 0 {
        let before = tags.drop_last();
        let earlier = tag_reasons(protective, before);
        if k < earlier.len() {
            lemma_tag_reasons_are_tags(protective, before, k);
            assert(tag_reasons(protective, tags)[k] == earlier[k]);
            let tag = earlier[k]->LiveTag_0;
            let i = choose|i: int| 0 <= i < before.len() && before[i] == tag;
            assert(tags[i] == tag);
        } else {
            assert(tags[tags.len() - 1] == tags.last());
        }
    }
}

/// A cluster that could not be read and a guest that it does not report are
/// told apart, and neither is mistaken for a tag or a pin.
pub proof fn law_what_could_not_be_read_is_told_apart(policy: PolicyView)
    ensures
        reasons_for(policy, None, true) == seq![ReasonView::ResolutionFailed],
        reasons_for(policy, None, false) == seq![ReasonView::UnknownGuest],
{
    assert(reasons_for(policy, None, false) =~= seq![ReasonView::UnknownGuest]);
}

/// Each reason has its own label, and a tag's label holds the tag.
pub proof fn law_each_reason_has_its_own_label(a: ReasonView, b: ReasonView)
    ensures
        a matches ReasonView::LiveTag(tag) ==> a.label() == "tag:"@ + tag,
        a is InventoryPin ==> a.label() == "inventory-pin"@,
        a is ResolutionFailed ==> a.label() == "resolution-failed"@,
        a is UnknownGuest ==> a.label() == "unknown-guest"@,
        a.label() == b.label() ==> a == b,
{
    reveal_strlit("tag:");
    reveal_strlit("inventory-pin");
    reveal_strlit("resolution-failed");
    reveal_strlit("unknown-guest");
    assert("inventory-pin"@[0] == 'i');
    assert("resolution-failed"@[0] == 'r');
    assert("unknown-guest"@[0] == 'u');
    assert(a is LiveTag ==> a.label()[0] == 't');
    assert(b is LiveTag ==> b.label()[0] == 't');
    if a is LiveTag && b is LiveTag && a.label() == b.label() {
        assert(a.label().skip(4) =~= a->LiveTag_0);
        assert(b.label().skip(4) =~= b->LiveTag_0);
    }
}

/// A verdict in one line says `unprotected`, or gives every reason's label.
pub proof fn law_a_verdict_gives_every_reason(verdict: ProtectionView)
    ensures
        verdict is Unprotected ==> verdict.summary_text() == "unprotected"@,
        verdict matches ProtectionView::Protected { reasons } ==> forall|i: int|
            0 <= i < reasons.len() ==> has_text(
                verdict.summary_text(),
                (#[trigger] reasons[i]).label(),
            ),
{
    if let ProtectionView::Protected { reasons } = verdict {
        assert forall|i: int| 0 <= i < reasons.len() implies has_text(
            verdict.summary_text(),
            (#[trigger] reasons[i]).label(),
        ) by {
            lemma_join_has_parts(labels(reasons), ","@, i);
        }
    }
}

/// The authority on record is the waiver that covers the guest: its own reason,
/// its own ticket and its own end, which is still to come; and it is for this
/// very guest.
pub proof fn law_the_authority_on_record_is_the_waivers_own(
    protection: ProtectionView,
    waivers: Seq<WaiverView>,
    cluster: Seq<char>,
    vmid: u32,
    now_unix: u64,
    lab_mode: bool,
)
    ensures
        override_for(protection, waivers, cluster, vmid, now_unix, lab_mode) matches
            OverrideView::Waiver { reason, ticket, until_unix } ==> exists|i: int|
            {
                &&& 0 <= i < waivers.len()
                &&& (#[trigger] waivers[i]).cluster == cluster
                &&& waivers[i].vmid == vmid
                &&& waivers[i].reason == reason
                &&& waivers[i].ticket == ticket
                &&& waivers[i].until_unix == until_unix
                &&& now_unix < until_unix
            },
        override_for(protection, waivers, cluster, vmid, now_unix, lab_mode) is LabMode ==> lab_mode
            && protection is Protected,
        protection is Unprotected ==> override_for(
            protection,
            waivers,
            cluster,
            vmid,
            now_unix,
            lab_mode,
        ) is NoOverride,
{
    law_a_waiver_is_found_when_one_covers(waivers, cluster, vmid, now_unix);
    if let Some(w) = first_covering(waivers, cluster, vmid, now_unix) {
        let i = choose|i: int| 0 <= i < waivers.len() && waivers[i] == w;
        assert(waivers[i].covers(cluster, vmid, now_unix));
    }
}

} // verus!
