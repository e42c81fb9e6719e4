//! Planning and approving a destructive change set.
//!
//! The plan renders a server-generated preview and records the action; the
//! approval binds both. What stores the change set, and what it refuses, is
//! outside; what is stored, and what the caller is told, is decided here.
use vstd::prelude::*;
use vstd::string::*;

use crate::fingerprint::{
    fingerprint, fingerprint_text, law_order_does_not_change_the_fingerprint, same_but_for_order,
    GuestState, StateView,
};
use crate::preview::{preview_lines, preview_text, render_preview, PreviewInput, PreviewView};
use crate::protect::{
    destructive_allowed, law_the_authority_on_record_is_the_waivers_own, override_for,
    protection_for, protection_of, Override, OverrideView,
};
use crate::resolve::{authorization, authorize, GuestView, Intent, ResolvedGuest};
use crate::selector::GuestType;
use crate::server::admission::unit_result;
use crate::server::change_set::{
    action_result, destructive_preview, is_destroy_op, op_tool, render_destructive_preview,
    tool_for_op, ActionView, ChangeSetResponse, DestroyAction,
};
use crate::server::low::{CallContext, ContextView};
use crate::text::{
    copy_texts, decimal, decimal_text, has_text, includes_text, join,
    law_a_written_number_is_read_back, lemma_decimal_digits, lemma_has_inner, lemma_has_middle,
    lemma_join_has_parts, same_text, text_option,
};
use crate::tier::Tier;

verus! {

// ---------------------------------------------------------------------------
// The guest a change set binds
// ---------------------------------------------------------------------------
/// The state of a resolved guest that a change set binds.
pub open spec fn state_of(guest: GuestView) -> StateView {
    StateView {
        cluster: guest.cluster,
        vmid: guest.vmid,
        name: guest.name,
        kind: guest.kind.segment(),
        node: guest.node,
        status: guest.status,
        tags: guest.tags,
        config_digest: Seq::empty(),
        disks: Seq::empty(),
    }
}

/// The state of a resolved guest that a change set binds.
pub fn guest_state(guest: &ResolvedGuest) -> (r: GuestState)
    ensures
        r@ == state_of(guest@),
{
    let r = GuestState {
        cluster: guest.cluster.clone(),
        vmid: guest.vmid,
        name: guest.name.clone(),
        kind: guest.kind.path_segment().to_owned(),
        node: guest.node.clone(),
        status: guest.status.clone(),
        tags: copy_texts(guest.tags.as_slice()),
        config_digest: String::new(),
        disks: Vec::new(),
    };
    proof {
        assert(r@.disks =~= Seq::empty());
    }
    r
}

/// The device a change set is recorded against: `cluster/vmid`.
pub open spec fn device_text(cluster: Seq<char>, vmid: u32) -> Seq<char> {
    cluster + "/"@ + decimal(vmid as nat)
}

/// The device a change set is recorded against.
pub fn device_name(cluster: &str, vmid: u32) -> (r: String)
    ensures
        r@ == device_text(cluster@, vmid),
{
    let mut out = cluster.to_owned();
    out.append("/");
    out.append(decimal_text(vmid as u64).as_str());
    out
}

/// This server has no policy engine; a change set says so.
pub const POLICY_SIGNATURE: &'static str = "proxmox-no-policy-engine";

// ---------------------------------------------------------------------------
// Planning
// ---------------------------------------------------------------------------
/// A destructive change set as planned, before it is stored.
#[derive(Debug)]
pub struct PlanDraft {
    action: DestroyAction,
    op_tool: &'static str,
    expected_fingerprint: String,
    preview: String,
    override_: Override,
    device: String,
}

/// A planned change set, as a mathematical value.
pub struct DraftView {
    pub action: ActionView,
    pub op_tool: Seq<char>,
    pub expected_fingerprint: Seq<char>,
    pub preview: Seq<char>,
    pub override_: OverrideView,
    pub device: Seq<char>,
}

impl View for PlanDraft {
    type V = DraftView;

    closed spec fn view(&self) -> DraftView {
        DraftView {
            action: self.action@,
            op_tool: self.op_tool@,
            expected_fingerprint: self.expected_fingerprint@,
            preview: self.preview@,
            override_: self.override_@,
            device: self.device@,
        }
    }
}

impl PlanDraft {
    /// What the change set records.
    pub fn action(&self) -> (r: &DestroyAction)
        ensures
            r@ == self@.action,
    {
        &self.action
    }

    /// The tool scope the operation authorizes against.
    pub fn op_tool(&self) -> (r: &'static str)
        ensures
            r@ == self@.op_tool,
    {
        self.op_tool
    }

    /// The fingerprint of the guest the plan was made for.
    pub fn expected_fingerprint(&self) -> (r: &str)
        ensures
            r@ == self@.expected_fingerprint,
    {
        self.expected_fingerprint.as_str()
    }

    /// What the approver will read.
    pub fn preview(&self) -> (r: &str)
        ensures
            r@ == self@.preview,
    {
        self.preview.as_str()
    }

    /// The authority that approves the change set at once, where there is one.
    pub fn override_(&self) -> (r: &Override)
        ensures
            r@ == self@.override_,
    {
        &self.override_
    }

    /// The device the change set is recorded against.
    pub fn device(&self) -> (r: &str)
        ensures
            r@ == self@.device,
    {
        self.device.as_str()
    }
}

/// The override a call on a guest has.
pub open spec fn guest_override(context: ContextView, guest: GuestView) -> OverrideView {
    override_for(
        protection_for(context.policy, guest),
        context.waivers,
        guest.cluster,
        guest.vmid,
        context.now_unix,
        context.lab_mode,
    )
}

/// The intent of a destructive call on a guest.
pub open spec fn destructive_intent(context: ContextView, guest: GuestView) -> Intent {
    Intent {
        tier: Tier::Destructive,
        interrupts: false,
        override_applies: Some(guest_override(context, guest).applies()),
    }
}

/// What an approver reads of an action. A guest destroy has the richer
/// rendering; every other operation is described as itself.
pub open spec fn plan_preview(context: ContextView, guest: GuestView, action: ActionView) -> Seq<
    char,
> {
    if is_destroy_op(action.op) {
        preview_text(
            PreviewView {
                state: state_of(guest),
                protected: protection_for(context.policy, guest) is Protected,
                override_: guest_override(context, guest),
                snapshots: 0,
                latest_snapshot: None,
                last_backup: None,
                purge_disks: true,
            },
        )
    } else {
        destructive_preview(action, guest.name, guest.node)
    }
}

/// What a plan comes to on a resolved guest: the destructive gate first, then
/// the action's own faults, then the scope its operation maps to.
pub open spec fn drafted(
    context: ContextView,
    guest: GuestView,
    action: Result<ActionView, Seq<char>>,
) -> Result<DraftView, Seq<char>> {
    match authorization(
        context.policy,
        guest,
        context.grant,
        destructive_intent(context, guest),
    ) {
        Err(error) => Err(error.message()),
        Ok(_) => match action {
            Err(error) => Err(error),
            Ok(action) => match op_tool(action.op, guest.kind) {
                None => Err("unknown destructive operation '"@ + action.op + "'"@),
                Some(tool) => Ok(
                    DraftView {
                        action,
                        op_tool: tool,
                        expected_fingerprint: fingerprint_text(state_of(guest)),
                        preview: plan_preview(context, guest, action),
                        override_: guest_override(context, guest),
                        device: device_text(guest.cluster, guest.vmid),
                    },
                ),
            },
        },
    }
}

/// A draft or a refusal, as a mathematical value.
pub open spec fn draft_result(r: Result<PlanDraft, String>) -> Result<DraftView, Seq<char>> {
    match r {
        Ok(draft) => Ok(draft@),
        Err(error) => Err(error@),
    }
}

/// Plan a destructive operation on a resolved guest.
///
/// Shared by every plan tool: they differ only in the action they build.
/// Everything after that (protection, the override decision, the fingerprint,
/// the operation's scope, the preview) is one flow.
pub fn plan_change_set(
    context: &CallContext<'_>,
    guest: ResolvedGuest,
    action: Result<DestroyAction, String>,
) -> (r: Result<PlanDraft, String>)
    ensures
        draft_result(r) == drafted(context@, guest@, action_result(action)),
{
    let protection = protection_of(context.config, Some(&guest), false);
    let override_ = destructive_allowed(
        &protection,
        context.waivers,
        guest.cluster.as_str(),
        guest.vmid,
        context.now_unix,
        context.lab_mode,
    );
    let authorized = match authorize(
        context.config,
        guest,
        context.grant,
        Intent::destructive(override_.applies()),
    ) {
        Ok(authorized) => authorized,
        Err(error) => {
            return Err(error.message());
        },
    };
    let guest = authorized.guest();
    let state = guest_state(guest);
    let expected_fingerprint = fingerprint(&state);
    // Built before the preview, because the preview describes it.
    let action = match action {
        Ok(action) => action,
        Err(error) => {
            return Err(error);
        },
    };
    let op_tool = match tool_for_op(action.op.as_str(), guest.kind) {
        Some(tool) => tool,
        None => {
            let mut text = "unknown destructive operation '".to_owned();
            text.append(action.op.as_str());
            text.append("'");
            return Err(text);
        },
    };
    let op = action.op.as_str();
    let preview = if same_text(op, "destroy_guest") || same_text(op, "destroy") {
        let summary = protection.summary();
        let input = PreviewInput {
            state: &state,
            protected: protection.is_protected(),
            protection_summary: summary.as_str(),
            override_: &override_,
            snapshots: 0,
            latest_snapshot: None,
            last_backup: None,
            purge_disks: true,
        };
        render_preview(&input)
    } else {
        render_destructive_preview(&action, guest.name.as_str(), guest.node.as_str())
    };
    let device = device_name(guest.cluster.as_str(), guest.vmid);
    Ok(PlanDraft { action, op_tool, expected_fingerprint, preview, override_, device })
}

/// Hold a plan to the scope of its own operation.
///
/// A token allowlisted for the generic plan tool must also hold the tool its
/// operation maps to. `stage_one` is the judgement of the transport on
/// [`PlanDraft::op_tool`].
pub fn confirm_plan(draft: PlanDraft, stage_one: Result<(), String>) -> (r: Result<
    PlanDraft,
    String,
>)
    ensures
        draft_result(r) == match unit_result(stage_one) {
            Ok(_) => Ok::<DraftView, Seq<char>>(draft@),
            Err(error) => Err::<DraftView, Seq<char>>(error),
        },
{
    match stage_one {
        Ok(_) => Ok(draft),
        Err(error) => Err(error),
    }
}

// ---------------------------------------------------------------------------
// The store's refusals
// ---------------------------------------------------------------------------
/// A step of the change-set store that can fail.
#[derive(Debug, Clone, Copy, PartialEq, Eq, Structural)]
pub enum StoreStep {
    /// Recording a new change set.
    Create,
    /// Reading one.
    Get,
    /// Recording its preview.
    Preview,
    /// Approving it.
    Approve,
    /// Approving it on an operator's waiver.
    Waiver,
    /// Approving it in lab mode.
    LabMode,
}

/// The refusal of a plan whose change set could not be read back.
pub const NOT_READ_BACK: &'static str =
    "plan refused: the change set could not be read back to store its preview. It has no preview, so approve and apply will refuse it. Plan the operation again.";

/// The refusal of an approval by the planner.
pub const SELF_APPROVAL: &'static str =
    "self-approval refused: the planner cannot approve their own change set";

/// What a caller is told when a step of the store fails. A planner approving
/// their own change set is told so.
pub open spec fn store_failure(step: StoreStep, error: Seq<char>) -> Seq<char> {
    match step {
        StoreStep::Create => "create: "@ + error,
        StoreStep::Get => "get: "@ + error,
        StoreStep::Preview => "plan refused: the preview could not be persisted ("@ + error
            + "). The change set has no stored preview, so approve and apply will refuse it. Plan the operation again."@,
        StoreStep::Approve => if has_text(error, "owner cannot approve their own"@) {
            SELF_APPROVAL@
        } else {
            "approve: "@ + error
        },
        StoreStep::Waiver => "waiver: "@ + error,
        StoreStep::LabMode => "lab-mode: "@ + error,
    }
}

fn after_prefix(prefix: &str, error: &str) -> (r: String)
    ensures
        r@ == prefix@ + error@,
{
    let mut out = prefix.to_owned();
    out.append(error);
    out
}

/// What a caller is told when a step of the store fails.
pub fn store_refusal(step: StoreStep, error: &str) -> (r: String)
    ensures
        r@ == store_failure(step, error@),
{
    match step {
        StoreStep::Create => after_prefix("create: ", error),
        StoreStep::Get => after_prefix("get: ", error),
        StoreStep::Preview => {
            let mut out = after_prefix(
                "plan refused: the preview could not be persisted (",
                error,
            );
            out.append(
                "). The change set has no stored preview, so approve and apply will refuse it. Plan the operation again.",
            );
            out
        },
        StoreStep::Approve => {
            if includes_text(error, "owner cannot approve their own") {
                SELF_APPROVAL.to_owned()
            } else {
                after_prefix("approve: ", error)
            }
        },
        StoreStep::Waiver => after_prefix("waiver: ", error),
        StoreStep::LabMode => after_prefix("lab-mode: ", error),
    }
}

// ---------------------------------------------------------------------------
// Stored change sets
// ---------------------------------------------------------------------------
/// The state of a stored change set.
#[derive(Debug, PartialEq, Eq)]
pub enum ChangeSetState {
    /// Approved, and not applied yet.
    Approved,
    /// Being applied.
    Applying,
    /// Applied.
    Applied,
    /// Failed.
    Failed,
    /// Any other state, by its name.
    Other(String),
}

/// The state of a stored change set, as a mathematical value.
pub enum StateNameView {
    Approved,
    Applying,
    Applied,
    Failed,
    Other(Seq<char>),
}

impl View for ChangeSetState {
    type V = StateNameView;

    open spec fn view(&self) -> StateNameView {
        match self {
            ChangeSetState::Approved => StateNameView::Approved,
            ChangeSetState::Applying => StateNameView::Applying,
            ChangeSetState::Applied => StateNameView::Applied,
            ChangeSetState::Failed => StateNameView::Failed,
            ChangeSetState::Other(name) => StateNameView::Other(name@),
        }
    }
}

impl StateNameView {
    /// The name of a state.
    pub open spec fn text(self) -> Seq<char> {
        match self {
            StateNameView::Approved => "Approved"@,
            StateNameView::Applying => "Applying"@,
            StateNameView::Applied => "Applied"@,
            StateNameView::Failed => "Failed"@,
            StateNameView::Other(name) => name,
        }
    }
}

impl ChangeSetState {
    /// The name of this state.
    pub fn name(&self) -> (r: String)
        ensures
            r@ == self@.text(),
    {
        match self {
            ChangeSetState::Approved => "Approved".to_owned(),
            ChangeSetState::Applying => "Applying".to_owned(),
            ChangeSetState::Applied => "Applied".to_owned(),
            ChangeSetState::Failed => "Failed".to_owned(),
            ChangeSetState::Other(name) => name.clone(),
        }
    }
}

/// What this server reads of a stored change set.
#[derive(Debug)]
pub struct ChangeSetRecord {
    /// Change set identifier.
    pub id: String,
    /// The device it is recorded against, `cluster/vmid`.
    pub device: String,
    /// Current state.
    pub state: ChangeSetState,
    /// The fingerprint of the guest it was planned for.
    pub expected_fingerprint: String,
    /// The digest an approval covers.
    pub digest: String,
    /// The stored preview, where there is one.
    pub preview: Option<String>,
    /// The handle of the task that applies it, while it is being applied.
    pub task_id: Option<String>,
}

/// A stored change set, as a mathematical value.
pub struct ChangeSetView {
    pub id: Seq<char>,
    pub device: Seq<char>,
    pub state: StateNameView,
    pub expected_fingerprint: Seq<char>,
    pub digest: Seq<char>,
    pub preview: Option<Seq<char>>,
    pub task_id: Option<Seq<char>>,
}

impl View for ChangeSetRecord {
    type V = ChangeSetView;

    open spec fn view(&self) -> ChangeSetView {
        ChangeSetView {
            id: self.id@,
            device: self.device@,
            state: self.state@,
            expected_fingerprint: self.expected_fingerprint@,
            digest: self.digest@,
            preview: text_option(self.preview),
            task_id: text_option(self.task_id),
        }
    }
}

/// What a caller is shown of a change set, as mathematical values.
pub struct ResponseView {
    pub change_set_id: Seq<char>,
    pub state: Seq<char>,
    pub expected_fingerprint: Seq<char>,
    pub preview: Seq<char>,
    pub expected_digest: Option<Seq<char>>,
}

impl View for ChangeSetResponse {
    type V = ResponseView;

    open spec fn view(&self) -> ResponseView {
        ResponseView {
            change_set_id: self.change_set_id@,
            state: self.state@,
            expected_fingerprint: self.expected_fingerprint@,
            preview: self.preview@,
            expected_digest: text_option(self.expected_digest),
        }
    }
}

/// What a caller is shown of a change set.
pub open spec fn described(record: ChangeSetView) -> ResponseView {
    ResponseView {
        change_set_id: record.id,
        state: record.state.text(),
        expected_fingerprint: record.expected_fingerprint,
        preview: match record.preview {
            Some(text) => text,
            None => "(no preview)"@,
        },
        expected_digest: Some(record.digest),
    }
}

/// Describe a stored change set to a caller.
pub fn describe_change_set(record: &ChangeSetRecord) -> (r: ChangeSetResponse)
    ensures
        r@ == described(record@),
{
    ChangeSetResponse {
        change_set_id: record.id.clone(),
        state: record.state.name(),
        expected_fingerprint: record.expected_fingerprint.clone(),
        preview: match &record.preview {
            Some(text) => text.clone(),
            None => "(no preview)".to_owned(),
        },
        expected_digest: Some(record.digest.clone()),
    }
}

/// What the planner is shown once a change set is stored: what was planned, and
/// the identifier, state and digest the store gave it.
pub open spec fn told_of_plan(
    draft: DraftView,
    change_set_id: Seq<char>,
    state: StateNameView,
    digest: Seq<char>,
) -> ResponseView {
    ResponseView {
        change_set_id,
        state: state.text(),
        expected_fingerprint: draft.expected_fingerprint,
        preview: draft.preview,
        expected_digest: Some(digest),
    }
}

/// Describe a change set to its planner once it is stored.
pub fn planned_response(
    draft: &PlanDraft,
    change_set_id: String,
    state: &ChangeSetState,
    digest: String,
) -> (r: ChangeSetResponse)
    ensures
        r@ == told_of_plan(draft@, change_set_id@, state@, digest@),
{
    ChangeSetResponse {
        change_set_id,
        state: state.name(),
        expected_fingerprint: draft.expected_fingerprint.clone(),
        preview: draft.preview.clone(),
        expected_digest: Some(digest),
    }
}

// ---------------------------------------------------------------------------
// Approving
// ---------------------------------------------------------------------------
/// The refusal to approve a change set that nobody can read.
pub const NOTHING_TO_REVIEW: &'static str =
    "approval refused: this change set has no stored preview, so there is nothing to review. Plan the operation again.";

/// The digest an approval of a change set is made over; without a stored
/// preview there is nothing to approve.
pub open spec fn approval_digest(record: ChangeSetView) -> Result<Seq<char>, Seq<char>> {
    if record.preview is Some {
        Ok(record.digest)
    } else {
        Err(NOTHING_TO_REVIEW@)
    }
}

/// Refuse to approve a change set without a stored preview.
///
/// The approval digest does not cover the preview, so nothing downstream would
/// notice the absence. Returns the digest the approval is made over.
pub fn check_approval(record: &ChangeSetRecord) -> (r: Result<String, String>)
    ensures
        match r {
            Ok(digest) => approval_digest(record@) == Ok::<Seq<char>, Seq<char>>(digest@),
            Err(error) => approval_digest(record@) == Err::<Seq<char>, Seq<char>>(error@),
        },
{
    match &record.preview {
        Some(_) => Ok(record.digest.clone()),
        None => Err(NOTHING_TO_REVIEW.to_owned()),
    }
}

// ---------------------------------------------------------------------------
// What holds of every plan
// ---------------------------------------------------------------------------
/// A plan exists only for a guest inside the token's scope, under a grant of
/// the destructive tier, and, where the guest is protected, under an override.
/// Its preview then carries no refusal.
pub proof fn law_a_plan_passes_the_destructive_gate(
    context: ContextView,
    guest: GuestView,
    action: Result<ActionView, Seq<char>>,
)
    requires
        drafted(context, guest, action) is Ok,
    ensures
        context.grant.admits(guest.facts()),
        context.grant.permits(crate::grant::ProxmoxAction::Destructive),
        protection_for(context.policy, guest) is Protected ==> guest_override(
            context,
            guest,
        ).applies(),
        drafted(context, guest, action)->Ok_0.expected_fingerprint == fingerprint_text(
            state_of(guest),
        ),
        op_tool(drafted(context, guest, action)->Ok_0.action.op, guest.kind) == Some(
            drafted(context, guest, action)->Ok_0.op_tool,
        ),
{
}

/// Only a protected guest's plan carries an authority that approves it at once;
/// an ordinary guest's plan needs a second principal even in lab mode.
pub proof fn law_only_protected_guests_are_waived(context: ContextView, guest: GuestView)
    requires
        protection_for(context.policy, guest) is Unprotected,
    ensures
        guest_override(context, guest) is NoOverride,
{
}

/// Whether two resolved guests are one and the same to an approver: nothing
/// differs in cluster, vmid, name, type, node and status, and the tags are the
/// same up to their order. A guest's pool is not part of what is approved.
pub open spec fn same_guest(a: GuestView, b: GuestView) -> bool {
    &&& a.cluster == b.cluster
    &&& a.vmid == b.vmid
    &&& a.name == b.name
    &&& a.kind == b.kind
    &&& a.node == b.node
    &&& a.status == b.status
    &&& a.tags.to_multiset() == b.tags.to_multiset()
}

/// What a change set binds tells guests apart: two guests bind the same state,
/// up to the order of their tags, exactly when they are the same in cluster,
/// vmid, name, type, node, status and tags.
pub proof fn law_the_bound_state_tells_guests_apart(a: GuestView, b: GuestView)
    ensures
        same_but_for_order(state_of(a), state_of(b)) <==> same_guest(a, b),
        same_guest(a, b) ==> fingerprint_text(state_of(a)) == fingerprint_text(state_of(b)),
{
    reveal_strlit("qemu");
    reveal_strlit("lxc");
    assert("qemu"@.len() == 4 && "lxc"@.len() == 3);
    let x = state_of(a);
    let y = state_of(b);
    if same_but_for_order(x, y) {
        let z = StateView { tags: x.tags, disks: x.disks, ..y };
        assert(x.cluster == z.cluster && x.vmid == z.vmid && x.name == z.name);
        assert(x.kind == z.kind && x.node == z.node && x.status == z.status);
    }
    if same_guest(a, b) {
        assert(x =~= StateView { tags: x.tags, disks: x.disks, ..y });
        law_order_does_not_change_the_fingerprint(x, y);
    }
}

/// A plan is of what was asked, on the guest that was resolved: it records the
/// very action it was given, against the device `cluster/vmid` of the guest,
/// and the override it carries is the guest's own. It comes to be exactly where
/// the guest passes the destructive gate and the action is one that some tool
/// scope stands for.
pub proof fn law_a_plan_records_the_action_it_was_given(
    context: ContextView,
    guest: GuestView,
    action: Result<ActionView, Seq<char>>,
)
    ensures
        drafted(context, guest, action) is Ok <==> action is Ok && op_tool(
            action->Ok_0.op,
            guest.kind,
        ) is Some && context.grant.admits(guest.facts()) && context.grant.permits(
            crate::grant::ProxmoxAction::Destructive,
        ) && (protection_for(context.policy, guest) is Unprotected || guest_override(
            context,
            guest,
        ).applies()),
        drafted(context, guest, action) matches Ok(draft) ==> {
            &&& action == Ok::<ActionView, Seq<char>>(draft.action)
            &&& draft.device == guest.cluster + "/"@ + decimal(guest.vmid as nat)
            &&& draft.override_ == guest_override(context, guest)
        },
{
}

/// The device of a change set names the guest: two devices are the same only
/// where cluster and vmid are.
pub proof fn law_a_device_names_one_guest(
    cluster: Seq<char>,
    vmid: u32,
    other: Seq<char>,
    other_vmid: u32,
)
    requires
        device_text(cluster, vmid) == device_text(other, other_vmid),
    ensures
        cluster == other,
        vmid == other_vmid,
{
    reveal_strlit("/");
    assert("/"@ =~= seq!['/']);
    let a = decimal(vmid as nat);
    let b = decimal(other_vmid as nat);
    lemma_decimal_digits(vmid as nat);
    lemma_decimal_digits(other_vmid as nat);
    let x = device_text(cluster, vmid);
    let y = device_text(other, other_vmid);
    assert(x.len() == cluster.len() + 1 + a.len());
    assert(y.len() == other.len() + 1 + b.len());
    if a.len() < b.len() {
        assert(x[cluster.len() as int] == '/');
        let k = cluster.len() - other.len() - 1;
        assert(0 <= k < b.len());
        assert(y[cluster.len() as int] == b[k]);
    }
    if b.len() < a.len() {
        assert(y[other.len() as int] == '/');
        let k = other.len() - cluster.len() - 1;
        assert(0 <= k < a.len());
        assert(x[other.len() as int] == a[k]);
    }
    assert(x.take(cluster.len() as int) =~= cluster);
    assert(y.take(other.len() as int) =~= other);
    assert(x.skip(cluster.len() as int + 1) =~= a);
    assert(y.skip(other.len() as int + 1) =~= b);
    law_a_written_number_is_read_back(vmid);
    law_a_written_number_is_read_back(other_vmid);
}

/// What an approver reads of a guest's destruction says which guest it is: its
/// cluster, vmid, name, type and status stand in the heading, and its node and
/// its tags each on their line.
pub proof fn law_a_destroy_preview_shows_the_guest(
    context: ContextView,
    guest: GuestView,
    action: ActionView,
)
    requires
        action.op == "destroy_guest"@,
    ensures
        ({
            let preview = plan_preview(context, guest, action);
            &&& has_text(
                preview,
                "DESTROY  "@ + guest.cluster + " / "@ + decimal(guest.vmid as nat) + " "@
                    + guest.name + "  ("@ + (if guest.kind == GuestType::Qemu {
                    "qemu"@
                } else {
                    "lxc"@
                }) + ", "@ + guest.status + ")"@,
            )
            &&& has_text(preview, "  node       "@ + guest.node)
            &&& forall|i: int| 0 <= i < guest.tags.len() ==> has_text(preview, #[trigger] guest.tags[i])
        }),
{
    let input = PreviewView {
        state: state_of(guest),
        protected: protection_for(context.policy, guest) is Protected,
        override_: guest_override(context, guest),
        snapshots: 0,
        latest_snapshot: None,
        last_backup: None,
        purge_disks: true,
    };
    let preview = plan_preview(context, guest, action);
    let lines = preview_lines(input);
    lemma_join_has_parts(lines, "\n"@, 0);
    lemma_join_has_parts(lines, "\n"@, 1);
    lemma_join_has_parts(lines, "\n"@, 2);
    assert forall|i: int| 0 <= i < guest.tags.len() implies has_text(
        preview,
        #[trigger] guest.tags[i],
    ) by {
        let tags = join(guest.tags, ", "@);
        let none = Seq::<char>::empty();
        lemma_join_has_parts(guest.tags, ", "@, i);
        lemma_has_middle("  tags       "@, tags, none);
        lemma_has_middle("  tags       "@, tags, "          ← PROTECTED"@);
        assert("  tags       "@ + tags + none =~= "  tags       "@ + tags);
        lemma_has_inner(lines[1], tags, guest.tags[i]);
        lemma_has_inner(preview, lines[1], guest.tags[i]);
    }
}

/// A caller is shown of a change set what is stored of it: its own identifier,
/// fingerprint, digest and preview, and the name of its state.
pub proof fn law_a_change_set_is_shown_as_stored(record: ChangeSetView)
    ensures
        described(record).change_set_id == record.id,
        described(record).expected_fingerprint == record.expected_fingerprint,
        described(record).expected_digest == Some(record.digest),
        record.preview is Some ==> described(record).preview == record.preview->0,
        record.preview is None ==> described(record).preview == "(no preview)"@,
        record.state == StateNameView::Approved <== described(record).state == "Approved"@
            && !(record.state is Other),
        record.state == StateNameView::Approved ==> described(record).state == "Approved"@,
        record.state == StateNameView::Applying ==> described(record).state == "Applying"@,
        record.state == StateNameView::Applied ==> described(record).state == "Applied"@,
        record.state == StateNameView::Failed ==> described(record).state == "Failed"@,
        record.state matches StateNameView::Other(name) ==> described(record).state == name,
{
    reveal_strlit("Approved");
    reveal_strlit("Applying");
    reveal_strlit("Applied");
    reveal_strlit("Failed");
    assert("Approved"@.len() == 8 && "Approved"@[3] == 'r');
    assert("Applying"@.len() == 8 && "Applying"@[3] == 'l');
    assert("Applied"@.len() == 7);
    assert("Failed"@.len() == 6);
}

/// A failed step of the store is told with the store's own words, but for one:
/// a planner who approves their own change set is told that they may not.
pub proof fn law_a_failed_step_is_told_in_the_stores_words(step: StoreStep, error: Seq<char>)
    ensures
        has_text(store_failure(step, error), error) || (step == StoreStep::Approve && has_text(
            error,
            "owner cannot approve their own"@,
        )),
        step == StoreStep::Approve && has_text(error, "owner cannot approve their own"@)
            ==> store_failure(step, error) == SELF_APPROVAL@,
{
    let none = Seq::<char>::empty();
    lemma_has_middle("create: "@, error, none);
    lemma_has_middle("get: "@, error, none);
    lemma_has_middle("approve: "@, error, none);
    lemma_has_middle("waiver: "@, error, none);
    lemma_has_middle("lab-mode: "@, error, none);
    assert("create: "@ + error + none =~= "create: "@ + error);
    assert("get: "@ + error + none =~= "get: "@ + error);
    assert("approve: "@ + error + none =~= "approve: "@ + error);
    assert("waiver: "@ + error + none =~= "waiver: "@ + error);
    assert("lab-mode: "@ + error + none =~= "lab-mode: "@ + error);
    if step == StoreStep::Preview {
        lemma_has_middle(
            "plan refused: the preview could not be persisted ("@,
            error,
            "). The change set has no stored preview, so approve and apply will refuse it. Plan the operation again."@,
        );
    }
}

/// The authority a plan carries is one for its own guest, at its own moment: a
/// waiver that names the guest's cluster and vmid and has not run out, or lab
/// mode where the server is in it, and none where the guest is not protected.
pub proof fn law_a_plans_authority_is_for_its_own_guest(context: ContextView, guest: GuestView)
    ensures
        guest_override(context, guest) matches OverrideView::Waiver { reason, ticket, until_unix }
            ==> exists|i: int|
            {
                &&& 0 <= i < context.waivers.len()
                &&& (#[trigger] context.waivers[i]).cluster == guest.cluster
                &&& context.waivers[i].vmid == guest.vmid
                &&& context.waivers[i].reason == reason
                &&& context.waivers[i].ticket == ticket
                &&& context.waivers[i].until_unix == until_unix
                &&& context.now_unix < until_unix
            },
        guest_override(context, guest) is LabMode ==> context.lab_mode,
        guest_override(context, guest).applies() ==> protection_for(context.policy, guest)
            is Protected,
        protection_for(context.policy, guest) is Protected && context.lab_mode ==> guest_override(
            context,
            guest,
        ).applies(),
        context.overrides(guest) == guest_override(context, guest).applies(),
{
    law_the_authority_on_record_is_the_waivers_own(
        protection_for(context.policy, guest),
        context.waivers,
        guest.cluster,
        guest.vmid,
        context.now_unix,
        context.lab_mode,
    );
}

/// What an approver reads of an operation other than a destruction describes
/// the action that is recorded, on the guest that was resolved.
pub proof fn law_a_preview_describes_the_recorded_action(
    context: ContextView,
    guest: GuestView,
    action: ActionView,
)
    ensures
        drafted(context, guest, Ok(action)) matches Ok(draft) ==> {
            &&& draft.preview == plan_preview(context, guest, draft.action)
            &&& action.op != "destroy_guest"@ && action.op != "destroy"@ ==> draft.preview
                == destructive_preview(action, guest.name, guest.node)
        },
{
}

/// A failed step of the store is told by the name of the step.
pub proof fn law_a_failed_step_is_named(step: StoreStep, error: Seq<char>)
    ensures
        step == StoreStep::Create ==> "create: "@.is_prefix_of(store_failure(step, error)),
        step == StoreStep::Get ==> "get: "@.is_prefix_of(store_failure(step, error)),
        step == StoreStep::Approve && !has_text(error, "owner cannot approve their own"@)
            ==> "approve: "@.is_prefix_of(store_failure(step, error)),
        step == StoreStep::Waiver ==> "waiver: "@.is_prefix_of(store_failure(step, error)),
        step == StoreStep::LabMode ==> "lab-mode: "@.is_prefix_of(store_failure(step, error)),
        step == StoreStep::Preview ==> "plan refused: the preview could not be persisted ("@.is_prefix_of(
            store_failure(step, error),
        ),
{
    let text = store_failure(step, error);
    assert(text.take("create: "@.len() as int) =~= "create: "@ || step != StoreStep::Create);
    assert(text.take("get: "@.len() as int) =~= "get: "@ || step != StoreStep::Get);
    assert(text.take("approve: "@.len() as int) =~= "approve: "@ || step != StoreStep::Approve
        || has_text(error, "owner cannot approve their own"@));
    assert(text.take("waiver: "@.len() as int) =~= "waiver: "@ || step != StoreStep::Waiver);
    assert(text.take("lab-mode: "@.len() as int) =~= "lab-mode: "@ || step != StoreStep::LabMode);
    let head = "plan refused: the preview could not be persisted ("@;
    assert(text.take(head.len() as int) =~= head || step != StoreStep::Preview);
}

/// A planner is shown what was planned under the identifier, state and digest
/// it was stored with; and once it is stored so, every later caller is shown
/// the same.
pub proof fn law_a_planner_is_shown_what_is_stored(
    draft: DraftView,
    record: ChangeSetView,
)
    requires
        record.expected_fingerprint == draft.expected_fingerprint,
        record.preview == Some(draft.preview),
    ensures
        told_of_plan(draft, record.id, record.state, record.digest) == described(record),
        told_of_plan(draft, record.id, record.state, record.digest).change_set_id == record.id,
        told_of_plan(draft, record.id, record.state, record.digest).preview == draft.preview,
        told_of_plan(draft, record.id, record.state, record.digest).expected_digest == Some(
            record.digest,
        ),
{
}

/// What is approved is the digest of the very change set that was read, and
/// only where a preview of it was stored; a caller shown that change set is
/// shown that digest.
pub proof fn law_an_approval_is_over_the_digest_that_was_shown(record: ChangeSetView)
    ensures
        approval_digest(record) is Ok <==> record.preview is Some,
        approval_digest(record) matches Ok(digest) ==> digest == record.digest && described(
            record,
        ).expected_digest == Some(digest) && described(record).preview == record.preview->0,
{
}

/// A plan is refused for the first of its faults: what the token may not do
/// comes before what the action lacks.
pub proof fn law_authorization_comes_before_the_action(
    context: ContextView,
    guest: GuestView,
    action: Result<ActionView, Seq<char>>,
)
    ensures
        ({
            let judged = authorization(
                context.policy,
                guest,
                context.grant,
                destructive_intent(context, guest),
            );
            &&& judged matches Err(error) ==> drafted(context, guest, action) == Err::<
                DraftView,
                Seq<char>,
            >(error.message())
            &&& judged is Ok ==> (action matches Err(error) ==> drafted(context, guest, action)
                == Err::<DraftView, Seq<char>>(error))
        }),
        destructive_intent(context, guest).tier == Tier::Destructive,
{
}

} // verus!
