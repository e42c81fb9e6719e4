//! Applying an approved change set.
//!
//! An apply alternates outside work and decisions: read the record, resolve the
//! guest, write the intent down, send the request, follow the task, write the
//! receipt. Each decision is a function here, and each takes what the one
//! before it gave, so that none can be skipped.
use vstd::prelude::*;
use vstd::string::*;

use crate::authorized::{AuthorizedGuest, AuthorizedView};
use crate::client::{percent_encoded, Method, Request, RequestView};
use crate::error::{ErrorView, ProxmoxError};
use crate::fingerprint::{fingerprint, fingerprint_text, no_collision, state_json};
use crate::grant::{GrantView, ProxmoxGrant};
use crate::guests::{
    agent_pid, guest_exec_pid, handle_in, optional_handle, optional_upid_from, upid_from,
    volid_fault,
};
use crate::inventory::{Cluster, PolicyView};
use crate::json::{data_value, integer_member, JsonView};
use crate::protect::{destructive_allowed, protection_for, protection_of};
use crate::resolve::{authorization, authorize, GuestView, Intent, ResolvedGuest};
use crate::selector::GuestType;
use crate::server::admission::{
    caller_view, grant_of, resolve_grant, unit_result, Caller, CallerView,
};
use crate::server::change_set::{
    exec_action, is_destroy_op, is_volume_op, law_a_command_plan_records_its_words,
    law_a_plan_records_what_was_asked, op_tool, planned_action, tool_for_op, ActionView,
    DestroyAction, PlanView,
};
use crate::server::low::{lemma_parameter_names, ContextView};
use crate::server::plan::{
    destructive_intent, guest_state, law_a_plans_authority_is_for_its_own_guest,
    law_the_bound_state_tells_guests_apart, same_guest, state_of, ChangeSetRecord, ChangeSetState,
    ChangeSetView, StateNameView,
};
use crate::task::upid_of;
use crate::text::{carries, decimal, decimal_text, lacks, same_text, sole_at};
use crate::waiver::WaiverFile;

verus! {

// ---------------------------------------------------------------------------
// Opening
// ---------------------------------------------------------------------------
/// The refusal to apply a change set that was never recorded for review.
pub const NEVER_REVIEWED: &'static str =
    "apply refused: this change set has no stored preview, so the action it would take was never recorded for review. Plan the operation again.";

/// A change set that may be looked into for applying.
#[derive(Debug)]
pub struct OpenApply {
    record: ChangeSetRecord,
    grant: ProxmoxGrant,
}

/// An opened change set, as a mathematical value.
pub struct OpenView {
    pub record: ChangeSetView,
    pub grant: GrantView,
}

impl View for OpenApply {
    type V = OpenView;

    closed spec fn view(&self) -> OpenView {
        OpenView { record: self.record@, grant: self.grant@ }
    }
}

/// What opening a change set comes to: it needs a stored preview, and the
/// caller a grant.
pub open spec fn opened(record: ChangeSetView, caller: Option<CallerView>) -> Result<
    OpenView,
    Seq<char>,
> {
    if record.preview is None {
        Err(NEVER_REVIEWED@)
    } else {
        match grant_of(caller) {
            Err(error) => Err(error),
            Ok(grant) => Ok(OpenView { record, grant }),
        }
    }
}

/// Open a change set for applying.
///
/// The invariant of an approval, enforced again here because approval and apply
/// are separate tools with separate scopes: a record approved by an older
/// release must still not execute without a preview.
pub fn open_apply(record: ChangeSetRecord, caller: Option<&Caller>) -> (r: Result<
    OpenApply,
    String,
>)
    ensures
        match r {
            Ok(open) => opened(record@, caller_view(caller)) == Ok::<OpenView, Seq<char>>(open@),
            Err(error) => opened(record@, caller_view(caller)) == Err::<OpenView, Seq<char>>(
                error@,
            ),
        },
{
    if record.preview.is_none() {
        return Err(NEVER_REVIEWED.to_owned());
    }
    match resolve_grant(caller) {
        Ok(grant) => Ok(OpenApply { record, grant }),
        Err(error) => Err(error),
    }
}

// ---------------------------------------------------------------------------
// Verifying
// ---------------------------------------------------------------------------
/// A change set that was verified against the guest as it is now.
#[derive(Debug)]
pub struct VerifiedApply {
    record: ChangeSetRecord,
    authorized: AuthorizedGuest,
}

/// A verified change set, as a mathematical value.
pub struct VerifiedView {
    pub record: ChangeSetView,
    pub authorized: AuthorizedView,
}

impl View for VerifiedApply {
    type V = VerifiedView;

    closed spec fn view(&self) -> VerifiedView {
        VerifiedView { record: self.record@, authorized: self.authorized@ }
    }
}

/// What a call is judged against, under a grant.
pub open spec fn context_of(
    policy: PolicyView,
    grant: GrantView,
    waivers: Seq<crate::waiver::WaiverView>,
    now_unix: u64,
    lab_mode: bool,
) -> ContextView {
    ContextView { policy, grant, waivers, now_unix, lab_mode }
}

/// What verifying a change set comes to: the destructive gate on the guest as
/// it is now, a fingerprint that has not moved since the plan, and an approval.
pub open spec fn verified(record: ChangeSetView, context: ContextView, guest: GuestView) -> Result<
    VerifiedView,
    Seq<char>,
> {
    match authorization(
        context.policy,
        guest,
        context.grant,
        destructive_intent(context, guest),
    ) {
        Err(error) => Err(error.message()),
        Ok(authorized) => {
            let current = fingerprint_text(state_of(guest));
            if current != record.expected_fingerprint {
                Err(
                    "fingerprint changed (expected "@ + record.expected_fingerprint + ", got "@
                        + current + ")"@,
                )
            } else if record.state != StateNameView::Approved {
                Err("change set not approved (state: "@ + record.state.text() + ")"@)
            } else {
                Ok(VerifiedView { record, authorized })
            }
        },
    }
}

/// Verify an opened change set against the guest as resolved just now.
///
/// The caller drops the cached snapshot of the cluster before resolving, so
/// that the plan and the apply do not read the same answer. Short of a
/// collision of the hash, an apply goes through only on the guest that the plan
/// was made for, with nothing about it changed but the order of its tags.
pub fn verify_apply(
    open: OpenApply,
    config: &Cluster,
    waivers: &WaiverFile,
    now_unix: u64,
    lab_mode: bool,
    guest: ResolvedGuest,
) -> (r: Result<VerifiedApply, String>)
    ensures
        match r {
            Ok(ready) => verified(
                open@.record,
                context_of(config@.policy, open@.grant, waivers@, now_unix, lab_mode),
                guest@,
            ) == Ok::<VerifiedView, Seq<char>>(ready@),
            Err(error) => verified(
                open@.record,
                context_of(config@.policy, open@.grant, waivers@, now_unix, lab_mode),
                guest@,
            ) == Err::<VerifiedView, Seq<char>>(error@),
        },
        r is Ok ==> forall|planned: GuestView|
            open@.record.expected_fingerprint == #[trigger] fingerprint_text(state_of(planned))
                && no_collision(
                state_json(state_of(planned).ordered()),
                state_json(state_of(guest@).ordered()),
            ) ==> same_guest(planned, guest@),
{
    let OpenApply { record, grant } = open;
    let protection = protection_of(config, Some(&guest), false);
    let over = destructive_allowed(
        &protection,
        waivers,
        guest.cluster.as_str(),
        guest.vmid,
        now_unix,
        lab_mode,
    );
    let authorized = match authorize(
        config,
        guest,
        &grant,
        Intent::destructive(over.applies()),
    ) {
        Ok(authorized) => authorized,
        Err(error) => {
            return Err(error.message());
        },
    };
    let current = fingerprint(&guest_state(authorized.guest()));
    if current != record.expected_fingerprint {
        let mut text = "fingerprint changed (expected ".to_owned();
        text.append(record.expected_fingerprint.as_str());
        text.append(", got ");
        text.append(current.as_str());
        text.append(")");
        return Err(text);
    }
    match &record.state {
        ChangeSetState::Approved => {},
        other => {
            let mut text = "change set not approved (state: ".to_owned();
            text.append(other.name().as_str());
            text.append(")");
            return Err(text);
        },
    }
    proof {
        assert forall|planned: GuestView|
            record@.expected_fingerprint == #[trigger] fingerprint_text(state_of(planned))
                && no_collision(
                state_json(state_of(planned).ordered()),
                state_json(state_of(guest@).ordered()),
            ) implies same_guest(planned, guest@) by {
            law_the_bound_state_tells_guests_apart(planned, guest@);
        }
    }
    Ok(VerifiedApply { record, authorized })
}

/// The refusal of an apply whose intent could not be written down first.
pub open spec fn intent_refusal_text(error: Seq<char>) -> Seq<char> {
    "destroy refused: the apply-intent evidence record could not be persisted ("@ + error
        + "); the change set is still approved and can be retried"@
}

/// The refusal of an apply whose intent could not be written down first.
///
/// The intent is persisted before the request goes out: a guest destroyed with
/// no record that anyone tried is the state the evidence exists to rule out.
pub fn intent_refusal(error: &str) -> (r: String)
    ensures
        r@ == intent_refusal_text(error@),
{
    let mut text =
        "destroy refused: the apply-intent evidence record could not be persisted (".to_owned();
    text.append(error);
    text.append("); the change set is still approved and can be retried");
    text
}

// ---------------------------------------------------------------------------
// Choosing the action
// ---------------------------------------------------------------------------
/// A verified change set with the action it recorded.
#[derive(Debug)]
pub struct ChosenApply {
    record: ChangeSetRecord,
    authorized: AuthorizedGuest,
    action: DestroyAction,
    op_tool: &'static str,
}

/// A change set with its action, as a mathematical value.
pub struct ChosenView {
    pub record: ChangeSetView,
    pub authorized: AuthorizedView,
    pub action: ActionView,
    pub op_tool: Seq<char>,
}

impl View for ChosenApply {
    type V = ChosenView;

    closed spec fn view(&self) -> ChosenView {
        ChosenView {
            record: self.record@,
            authorized: self.authorized@,
            action: self.action@,
            op_tool: self.op_tool@,
        }
    }
}

/// A recorded action, where there is one and it could be read.
pub open spec fn recorded_view(action: Option<Result<DestroyAction, String>>) -> Option<
    Result<ActionView, Seq<char>>,
> {
    match action {
        Some(Ok(action)) => Some(Ok(action@)),
        Some(Err(error)) => Some(Err(error@)),
        None => None,
    }
}

/// What the recorded action comes to: it must be there, be readable, and name
/// an operation this server knows.
pub open spec fn chosen(ready: VerifiedView, action: Option<Result<ActionView, Seq<char>>>) -> Result<
    ChosenView,
    Seq<char>,
> {
    match action {
        None => Err("the change set records no action"@),
        Some(Err(error)) => Err(
            "the change set's action could not be read ("@ + error + "); it cannot be applied"@,
        ),
        Some(Ok(action)) => match op_tool(action.op, ready.authorized.guest.kind) {
            None => Err("the change set names an unknown operation '"@ + action.op + "'"@),
            Some(tool) => Ok(
                ChosenView {
                    record: ready.record,
                    authorized: ready.authorized,
                    action,
                    op_tool: tool,
                },
            ),
        },
    }
}

/// Take up the action the change set recorded, never one from the call: the
/// digest covers what was recorded, so it is the only description of the work
/// that the approver signed.
pub fn choose_action(ready: VerifiedApply, action: Option<Result<DestroyAction, String>>) -> (r:
    Result<ChosenApply, String>)
    ensures
        match r {
            Ok(choice) => chosen(ready@, recorded_view(action)) == Ok::<ChosenView, Seq<char>>(
                choice@,
            ),
            Err(error) => chosen(ready@, recorded_view(action)) == Err::<ChosenView, Seq<char>>(
                error@,
            ),
        },
{
    let VerifiedApply { record, authorized } = ready;
    match action {
        None => Err("the change set records no action".to_owned()),
        Some(Err(error)) => {
            let mut text = "the change set's action could not be read (".to_owned();
            text.append(error.as_str());
            text.append("); it cannot be applied");
            Err(text)
        },
        Some(Ok(action)) => {
            match tool_for_op(action.op.as_str(), authorized.guest().kind) {
                None => {
                    let mut text = "the change set names an unknown operation '".to_owned();
                    text.append(action.op.as_str());
                    text.append("'");
                    Err(text)
                },
                Some(op_tool) => Ok(ChosenApply { record, authorized, action, op_tool }),
            }
        },
    }
}

impl ChosenApply {
    /// The tool scope the operation authorizes against, to be judged again at
    /// apply: a scope can be narrowed after the plan.
    pub fn op_tool(&self) -> (r: &'static str)
        ensures
            r@ == self@.op_tool,
    {
        self.op_tool
    }
}

// ---------------------------------------------------------------------------
// Executing
// ---------------------------------------------------------------------------
/// A change set that is to be executed now.
#[derive(Debug)]
pub struct Execution {
    record: ChangeSetRecord,
    authorized: AuthorizedGuest,
    action: DestroyAction,
}

/// A change set that is to be executed, as a mathematical value.
pub struct ExecutionView {
    pub record: ChangeSetView,
    pub authorized: AuthorizedView,
    pub action: ActionView,
}

impl View for Execution {
    type V = ExecutionView;

    closed spec fn view(&self) -> ExecutionView {
        ExecutionView {
            record: self.record@,
            authorized: self.authorized@,
            action: self.action@,
        }
    }
}

/// What executing comes to: the scope of the operation's own tool, judged
/// again.
pub open spec fn executing(choice: ChosenView, stage_one: Result<(), Seq<char>>) -> Result<
    ExecutionView,
    Seq<char>,
> {
    match stage_one {
        Err(error) => Err(error),
        Ok(_) => Ok(
            ExecutionView {
                record: choice.record,
                authorized: choice.authorized,
                action: choice.action,
            },
        ),
    }
}

/// Hold an apply to the scope of its own operation. `stage_one` is the
/// judgement of the transport on [`ChosenApply::op_tool`].
pub fn begin_execution(choice: ChosenApply, stage_one: Result<(), String>) -> (r: Result<
    Execution,
    String,
>)
    ensures
        match r {
            Ok(execution) => executing(choice@, unit_result(stage_one)) == Ok::<
                ExecutionView,
                Seq<char>,
            >(execution@),
            Err(error) => executing(choice@, unit_result(stage_one)) == Err::<
                ExecutionView,
                Seq<char>,
            >(error@),
        },
{
    let ChosenApply { record, authorized, action, op_tool: _ } = choice;
    match stage_one {
        Err(error) => Err(error),
        Ok(_) => Ok(Execution { record, authorized, action }),
    }
}

/// The error of an action that lacks a parameter its operation needs.
pub open spec fn missing(op: Seq<char>, name: Seq<char>) -> ErrorView {
    ErrorView::Malformed(op + " action is missing "@ + name)
}

/// The request that carries an action out on a guest, or why none does.
///
/// A volume is addressed on the node the action recorded, not the guest's:
/// `local` is node-local storage, so the same volid on two nodes names two
/// volumes.
pub open spec fn dispatched(action: ActionView, kind: GuestType, node: Seq<char>, vmid: u32) -> Result<
    RequestView,
    ErrorView,
> {
    if is_destroy_op(action.op) {
        match kind {
            GuestType::Lxc => Ok(
                RequestView {
                    params: seq![("node"@, node), ("vmid"@, decimal(vmid as nat))],
                    query: seq![("purge"@, "1"@)],
                    ..crate::guests::bare(
                        crate::client::Method::Delete,
                        "/api2/json/nodes/{node}/lxc/{vmid}"@,
                    )
                },
            ),
            GuestType::Qemu => Ok(
                RequestView {
                    params: seq![("node"@, node), ("vmid"@, decimal(vmid as nat))],
                    query: seq![("purge"@, "1"@), ("destroy-unreferenced-disks"@, "1"@)],
                    ..crate::guests::bare(
                        crate::client::Method::Delete,
                        "/api2/json/nodes/{node}/qemu/{vmid}"@,
                    )
                },
            ),
        }
    } else if action.op == "delete_snapshot"@ || action.op == "rollback_snapshot"@ {
        match action.snapname {
            None => Err(missing(action.op, "snapname"@)),
            Some(snapname) => Ok(
                RequestView {
                    params: crate::guests::guest_params(node, kind, vmid).push(
                        ("snapname"@, snapname),
                    ),
                    ..(if action.op == "delete_snapshot"@ {
                        crate::guests::bare(
                            crate::client::Method::Delete,
                            "/api2/json/nodes/{node}/{kind}/{vmid}/snapshot/{snapname}"@,
                        )
                    } else {
                        crate::guests::bare(
                            crate::client::Method::Post,
                            "/api2/json/nodes/{node}/{kind}/{vmid}/snapshot/{snapname}/rollback"@,
                        )
                    })
                },
            ),
        }
    } else if is_volume_op(action.op) {
        match (action.storage, action.volid, action.storage_node) {
            (None, _, _) => Err(missing(action.op, "storage"@)),
            (Some(_), None, _) => Err(missing(action.op, "volid"@)),
            (Some(_), Some(_), None) => Err(missing(action.op, "storage_node"@)),
            (Some(storage), Some(volid), Some(storage_node)) => match crate::guests::volid_fault(
                volid,
            ) {
                Some(fault) => Err(ErrorView::Malformed(fault)),
                None => Ok(
                    RequestView {
                        params: seq![("node"@, storage_node), ("storage"@, storage)],
                        ..crate::guests::bare(
                            crate::client::Method::Delete,
                            "/api2/json/nodes/{node}/storage/{storage}/content/"@
                                + crate::client::percent_encoded(volid),
                        )
                    },
                ),
            },
        }
    } else if action.op == "restore_backup"@ {
        match action.volid {
            None => Err(missing(action.op, "volid"@)),
            Some(volid) => Ok(
                RequestView {
                    params: seq![("node"@, node), ("kind"@, kind.segment())],
                    form: seq![
                        ("vmid"@, decimal(vmid as nat)),
                        ("archive"@, volid),
                        ("force"@, "1"@),
                        ("restore"@, "1"@),
                    ],
                    ..crate::guests::bare(
                        crate::client::Method::Post,
                        "/api2/json/nodes/{node}/{kind}"@,
                    )
                },
            ),
        }
    } else if action.op == "guest_exec"@ {
        if kind != GuestType::Qemu {
            Err(
                ErrorView::Malformed(
                    "vmid "@ + decimal(vmid as nat)
                        + " is an LXC container; the guest agent is a QEMU feature and Proxmox exposes no exec endpoint for containers"@,
                ),
            )
        } else {
            match action.command {
                None => Err(missing(action.op, "command"@)),
                Some(command) => if command.len() == 0 {
                    Err(ErrorView::Malformed("command is empty"@))
                } else {
                    Ok(
                        RequestView {
                            params: seq![("node"@, node), ("vmid"@, decimal(vmid as nat))],
                            form: crate::guests::command_fields(command),
                            ..crate::guests::bare(
                                crate::client::Method::Post,
                                "/api2/json/nodes/{node}/qemu/{vmid}/agent/exec"@,
                            )
                        },
                    )
                },
            }
        }
    } else {
        Err(ErrorView::Malformed("unknown destructive operation '"@ + action.op + "'"@))
    }
}

fn missing_parameter(op: &str, name: &str) -> (r: ProxmoxError)
    ensures
        r@ == missing(op@, name@),
{
    let mut text = op.to_owned();
    text.append(" action is missing ");
    text.append(name);
    ProxmoxError::Malformed(text)
}

/// A request or an error, as a mathematical value.
pub open spec fn dispatch_result(r: Result<Request, ProxmoxError>) -> Result<
    RequestView,
    ErrorView,
> {
    match r {
        Ok(request) => Ok(request@),
        Err(error) => Err(error@),
    }
}

/// The request that carries out one recorded destructive action.
///
/// Dispatches on the action the change set carries, so the work performed is
/// exactly the work the digest covered. A change set planned under the first
/// release's spelling `destroy` still works.
pub fn execute_destructive(action: &DestroyAction, kind: GuestType, node: &str, vmid: u32) -> (r:
    Result<Request, ProxmoxError>)
    ensures
        dispatch_result(r) == dispatched(action@, kind, node@, vmid),
{
    let op = action.op.as_str();
    if same_text(op, "destroy_guest") || same_text(op, "destroy") {
        return Ok(
            match kind {
                GuestType::Lxc => crate::guests::destroy_container(node, vmid, true),
                GuestType::Qemu => crate::guests::destroy_vm(node, vmid, true),
            },
        );
    }
    if same_text(op, "delete_snapshot") || same_text(op, "rollback_snapshot") {
        let snapname = match &action.snapname {
            Some(snapname) => snapname.as_str(),
            None => {
                return Err(missing_parameter(op, "snapname"));
            },
        };
        if same_text(op, "delete_snapshot") {
            return Ok(crate::guests::delete_snapshot(node, kind, vmid, snapname));
        }
        return Ok(crate::guests::rollback_snapshot(node, kind, vmid, snapname));
    }
    if same_text(op, "delete_backup") || same_text(op, "delete_iso") {
        let storage = match &action.storage {
            Some(storage) => storage.as_str(),
            None => {
                return Err(missing_parameter(op, "storage"));
            },
        };
        let volid = match &action.volid {
            Some(volid) => volid.as_str(),
            None => {
                return Err(missing_parameter(op, "volid"));
            },
        };
        let storage_node = match &action.storage_node {
            Some(storage_node) => storage_node.as_str(),
            None => {
                return Err(missing_parameter(op, "storage_node"));
            },
        };
        return crate::guests::delete_volume(storage_node, storage, volid);
    }
    if same_text(op, "restore_backup") {
        return match &action.volid {
            Some(volid) => Ok(
                crate::guests::restore_backup(node, kind, vmid, volid.as_str(), true),
            ),
            None => Err(missing_parameter(op, "volid")),
        };
    }
    if same_text(op, "guest_exec") {
        // The agent is a QEMU feature; Proxmox exposes no LXC exec.
        if kind != GuestType::Qemu {
            let mut text = "vmid ".to_owned();
            text.append(decimal_text(vmid as u64).as_str());
            text.append(
                " is an LXC container; the guest agent is a QEMU feature and Proxmox exposes no exec endpoint for containers",
            );
            return Err(ProxmoxError::Malformed(text));
        }
        return match &action.command {
            Some(command) => crate::guests::guest_exec(node, vmid, command),
            None => Err(missing_parameter(op, "command")),
        };
    }
    let mut text = "unknown destructive operation '".to_owned();
    text.append(op);
    text.append("'");
    Err(ProxmoxError::Malformed(text))
}

impl Execution {
    /// The record being executed.
    pub fn record(&self) -> (r: &ChangeSetRecord)
        ensures
            r@ == self@.record,
    {
        &self.record
    }

    /// The guest it is executed on.
    pub fn authorized(&self) -> (r: &AuthorizedGuest)
        ensures
            r@ == self@.authorized,
    {
        &self.authorized
    }

    /// The action it carries out.
    pub fn action(&self) -> (r: &DestroyAction)
        ensures
            r@ == self@.action,
    {
        &self.action
    }

    /// The request to send.
    pub fn request(&self) -> (r: Result<Request, ProxmoxError>)
        ensures
            dispatch_result(r) == dispatched(
                self@.action,
                self@.authorized.guest.kind,
                self@.authorized.guest.node,
                self@.authorized.guest.vmid,
            ),
    {
        let guest = self.authorized.guest();
        execute_destructive(&self.action, guest.kind, guest.node.as_str(), guest.vmid)
    }
}

/// What the request started.
#[derive(Debug)]
pub enum Started {
    /// A task, by its handle. The handle is empty where the work was done at
    /// once.
    Task(String),
    /// A command in the guest, by its process id.
    Command(u64),
}

/// What the request started, as a mathematical value.
pub enum StartedView {
    Task(Seq<char>),
    Command(u64),
}

impl View for Started {
    type V = StartedView;

    open spec fn view(&self) -> StartedView {
        match self {
            Started::Task(handle) => StartedView::Task(handle@),
            Started::Command(pid) => StartedView::Command(*pid),
        }
    }
}

/// What the data of the answer says the request of an operation started. A
/// command yields a process id and no task; deleting a volume may be done at
/// once; every other operation starts a task.
pub open spec fn started_by(op: Seq<char>, data: JsonView) -> Result<StartedView, ErrorView> {
    if op == "guest_exec"@ {
        match agent_pid(data) {
            Ok(pid) => Ok(StartedView::Command(pid)),
            Err(error) => Err(error),
        }
    } else if is_volume_op(op) {
        Ok(StartedView::Task(optional_handle(data)))
    } else {
        match handle_in(data) {
            Ok(handle) => Ok(StartedView::Task(handle)),
            Err(error) => Err(error),
        }
    }
}

/// Read from the data of the answer what the request of an operation started.
pub fn read_started(op: &str, data: &str) -> (r: Result<Started, ProxmoxError>)
    ensures
        match r {
            Ok(started) => started_by(op@, data_value(data@)) == Ok::<StartedView, ErrorView>(
                started@,
            ),
            Err(error) => started_by(op@, data_value(data@)) == Err::<StartedView, ErrorView>(
                error@,
            ),
        },
{
    if same_text(op, "guest_exec") {
        match guest_exec_pid(data) {
            Ok(pid) => Ok(Started::Command(pid)),
            Err(error) => Err(error),
        }
    } else if same_text(op, "delete_backup") || same_text(op, "delete_iso") {
        Ok(Started::Task(optional_upid_from(data)))
    } else {
        match upid_from(data) {
            Ok(handle) => Ok(Started::Task(handle)),
            Err(error) => Err(error),
        }
    }
}

// ---------------------------------------------------------------------------
// What holds of every apply
// ---------------------------------------------------------------------------
/// The whole way of an apply, from the stored record to its execution.
pub open spec fn apply_path(
    record: ChangeSetView,
    caller: Option<CallerView>,
    policy: PolicyView,
    waivers: Seq<crate::waiver::WaiverView>,
    now_unix: u64,
    lab_mode: bool,
    guest: GuestView,
    action: Option<Result<ActionView, Seq<char>>>,
    stage_one: Result<(), Seq<char>>,
) -> Result<ExecutionView, Seq<char>> {
    match opened(record, caller) {
        Err(error) => Err(error),
        Ok(open) => match verified(
            open.record,
            context_of(policy, open.grant, waivers, now_unix, lab_mode),
            guest,
        ) {
            Err(error) => Err(error),
            Ok(ready) => match chosen(ready, action) {
                Err(error) => Err(error),
                Ok(choice) => executing(choice, stage_one),
            },
        },
    }
}

/// An apply executes only what was approved. The record had a stored preview
/// and was approved; the guest as it is now has the fingerprint the plan bound;
/// the caller's grant admits it and carries the destructive tier; a protected
/// guest has an override; the operation's own scope was judged again; and what
/// is executed is the recorded action, on that guest.
pub proof fn law_an_apply_executes_only_what_was_approved(
    record: ChangeSetView,
    caller: Option<CallerView>,
    policy: PolicyView,
    waivers: Seq<crate::waiver::WaiverView>,
    now_unix: u64,
    lab_mode: bool,
    guest: GuestView,
    action: Option<Result<ActionView, Seq<char>>>,
    stage_one: Result<(), Seq<char>>,
)
    requires
        apply_path(
            record,
            caller,
            policy,
            waivers,
            now_unix,
            lab_mode,
            guest,
            action,
            stage_one,
        ) is Ok,
    ensures
        ({
            let grant = grant_of(caller)->Ok_0;
            let context = context_of(policy, grant, waivers, now_unix, lab_mode);
            let execution = apply_path(
                record,
                caller,
                policy,
                waivers,
                now_unix,
                lab_mode,
                guest,
                action,
                stage_one,
            )->Ok_0;
            &&& record.preview is Some
            &&& record.state == StateNameView::Approved
            &&& record.expected_fingerprint == fingerprint_text(state_of(guest))
            &&& grant_of(caller) is Ok
            &&& grant.admits(guest.facts())
            &&& grant.permits(crate::grant::ProxmoxAction::Destructive)
            &&& protection_for(policy, guest) is Protected ==> crate::server::plan::guest_override(
                context,
                guest,
            ).applies()
            &&& stage_one is Ok
            &&& action == Some(Ok::<ActionView, Seq<char>>(execution.action))
            &&& op_tool(execution.action.op, guest.kind) is Some
            &&& execution.authorized.guest == guest
        }),
{
}

/// What was planned can be applied: a change set that records a plan's action
/// and fingerprint, has a preview and was approved, executes that action, where
/// the guest is still as it was planned for and the same judgement is asked
/// again.
pub proof fn law_an_approved_plan_applies_while_the_guest_stands_still(
    record: ChangeSetView,
    caller: Option<CallerView>,
    policy: PolicyView,
    waivers: Seq<crate::waiver::WaiverView>,
    now_unix: u64,
    lab_mode: bool,
    guest: GuestView,
    action: ActionView,
)
    requires
        grant_of(caller) is Ok,
        crate::server::plan::drafted(
            context_of(policy, grant_of(caller)->Ok_0, waivers, now_unix, lab_mode),
            guest,
            Ok(action),
        ) is Ok,
        record.expected_fingerprint == crate::server::plan::drafted(
            context_of(policy, grant_of(caller)->Ok_0, waivers, now_unix, lab_mode),
            guest,
            Ok(action),
        )->Ok_0.expected_fingerprint,
        record.preview is Some,
        record.state == StateNameView::Approved,
    ensures
        ({
            let applied = apply_path(
                record,
                caller,
                policy,
                waivers,
                now_unix,
                lab_mode,
                guest,
                Some(Ok(action)),
                Ok(()),
            );
            &&& applied is Ok
            &&& applied->Ok_0.action == action
            &&& applied->Ok_0.authorized.guest == guest
            &&& applied->Ok_0.record == record
        }),
{
}

/// An action is carried out where its subject is: on the node the guest runs
/// on, or, for a volume, on the node the action recorded.
pub proof fn law_an_action_is_carried_out_where_its_subject_is(
    action: ActionView,
    kind: GuestType,
    node: Seq<char>,
    vmid: u32,
)
    requires
        dispatched(action, kind, node, vmid) is Ok,
    ensures
        dispatched(action, kind, node, vmid)->Ok_0.params.len() > 0,
        !is_volume_op(action.op) ==> dispatched(action, kind, node, vmid)->Ok_0.params[0] == (
            "node"@,
            node,
        ),
        is_volume_op(action.op) ==> action.storage_node is Some && dispatched(
            action,
            kind,
            node,
            vmid,
        )->Ok_0.params[0] == ("node"@, action.storage_node->0),
{
    assert(!is_destroy_op(action.op) || !is_volume_op(action.op)) by {
        reveal_strlit("destroy_guest");
        reveal_strlit("destroy");
        reveal_strlit("delete_backup");
        reveal_strlit("delete_iso");
        assert("destroy"@.len() != "delete_backup"@.len());
        assert("destroy"@.len() != "delete_iso"@.len());
        assert("destroy_guest"@[2] != "delete_backup"@[2]);
        assert("destroy_guest"@.len() != "delete_iso"@.len());
    }
    assert(is_volume_op(action.op) ==> action.op != "delete_snapshot"@ && action.op
        != "rollback_snapshot"@) by {
        reveal_strlit("delete_backup");
        reveal_strlit("delete_iso");
        reveal_strlit("delete_snapshot");
        reveal_strlit("rollback_snapshot");
        assert("delete_backup"@.len() != "delete_snapshot"@.len());
        assert("delete_iso"@.len() != "delete_snapshot"@.len());
        assert("delete_backup"@.len() != "rollback_snapshot"@.len());
        assert("delete_iso"@.len() != "rollback_snapshot"@.len());
    }
}

/// A caller without a token applies nothing: the read-only grant does not carry
/// the destructive tier.
pub proof fn law_a_caller_without_a_token_applies_nothing(
    record: ChangeSetView,
    policy: PolicyView,
    waivers: Seq<crate::waiver::WaiverView>,
    now_unix: u64,
    lab_mode: bool,
    guest: GuestView,
    action: Option<Result<ActionView, Seq<char>>>,
    stage_one: Result<(), Seq<char>>,
)
    ensures
        apply_path(
            record,
            None,
            policy,
            waivers,
            now_unix,
            lab_mode,
            guest,
            action,
            stage_one,
        ) is Err,
{
}

/// Whether a request is the destruction of a guest: a DELETE of the guest of
/// this type, node and vmid, with everything that refers to it.
pub open spec fn destroys_guest(
    request: RequestView,
    kind: GuestType,
    node: Seq<char>,
    vmid: u32,
) -> bool {
    &&& request.method == Method::Delete
    &&& request.path_template == if kind == GuestType::Qemu {
        "/api2/json/nodes/{node}/qemu/{vmid}"@
    } else {
        "/api2/json/nodes/{node}/lxc/{vmid}"@
    }
    &&& carries(request.params, "node"@, node)
    &&& carries(request.params, "vmid"@, decimal(vmid as nat))
    &&& carries(request.query, "purge"@, "1"@)
    &&& kind == GuestType::Qemu ==> carries(request.query, "destroy-unreferenced-disks"@, "1"@)
    &&& kind == GuestType::Lxc ==> lacks(request.query, "destroy-unreferenced-disks"@)
    &&& request.form.len() == 0
}

/// Whether the path parameters of a request name a snapshot of a guest.
pub open spec fn addresses_snapshot(
    request: RequestView,
    kind: GuestType,
    node: Seq<char>,
    vmid: u32,
    snapname: Seq<char>,
) -> bool {
    &&& carries(request.params, "node"@, node)
    &&& carries(request.params, "kind"@, kind.segment())
    &&& carries(request.params, "vmid"@, decimal(vmid as nat))
    &&& carries(request.params, "snapname"@, snapname)
    &&& request.query.len() == 0
    &&& request.form.len() == 0
}

/// Whether a request restores an archive over a guest.
pub open spec fn restores_over(
    request: RequestView,
    kind: GuestType,
    node: Seq<char>,
    vmid: u32,
    volid: Seq<char>,
) -> bool {
    &&& request.method == Method::Post
    &&& request.path_template == "/api2/json/nodes/{node}/{kind}"@
    &&& carries(request.params, "node"@, node)
    &&& carries(request.params, "kind"@, kind.segment())
    &&& carries(request.form, "vmid"@, decimal(vmid as nat))
    &&& carries(request.form, "archive"@, volid)
    &&& carries(request.form, "force"@, "1"@)
    &&& carries(request.form, "restore"@, "1"@)
    &&& request.query.len() == 0
}

/// Whether a request deletes a volume of a storage, the volume as one path
/// segment.
pub open spec fn deletes_volume(
    request: RequestView,
    storage_node: Seq<char>,
    storage: Seq<char>,
    volid: Seq<char>,
) -> bool {
    &&& request.method == Method::Delete
    &&& request.path_template == "/api2/json/nodes/{node}/storage/{storage}/content/"@
        + percent_encoded(volid)
    &&& carries(request.params, "node"@, storage_node)
    &&& carries(request.params, "storage"@, storage)
    &&& request.query.len() == 0
    &&& request.form.len() == 0
}

/// Whether a request runs a command in a guest: one field for each word, the
/// words in order.
pub open spec fn runs_command(
    request: RequestView,
    node: Seq<char>,
    vmid: u32,
    words: Seq<Seq<char>>,
) -> bool {
    &&& request.method == Method::Post
    &&& request.path_template == "/api2/json/nodes/{node}/qemu/{vmid}/agent/exec"@
    &&& carries(request.params, "node"@, node)
    &&& carries(request.params, "vmid"@, decimal(vmid as nat))
    &&& request.form.len() == words.len()
    &&& forall|i: int|
        0 <= i < words.len() ==> #[trigger] request.form[i] == ("command"@, words[i])
    &&& request.query.len() == 0
}

proof fn lemma_form_names()
    ensures
        "vmid"@.len() == 4,
        "archive"@.len() == 7 && "archive"@[0] == 'a',
        "force"@.len() == 5,
        "restore"@.len() == 7 && "restore"@[0] == 'r',
        "purge"@.len() == 5,
        "destroy-unreferenced-disks"@.len() == 26,
{
    reveal_strlit("vmid");
    reveal_strlit("archive");
    reveal_strlit("force");
    reveal_strlit("restore");
    reveal_strlit("purge");
    reveal_strlit("destroy-unreferenced-disks");
}

/// What tells the recorded operations apart.
proof fn lemma_recorded_operations()
    ensures
        "destroy"@.len() == 7,
        "destroy_guest"@.len() == 13 && "destroy_guest"@[2] == 's',
        "delete_snapshot"@.len() == 15,
        "rollback_snapshot"@.len() == 17,
        "delete_backup"@.len() == 13 && "delete_backup"@[2] == 'l',
        "delete_iso"@.len() == 10 && "delete_iso"@[0] == 'd',
        "restore_backup"@.len() == 14,
        "guest_exec"@.len() == 10 && "guest_exec"@[0] == 'g',
{
    reveal_strlit("destroy");
    reveal_strlit("destroy_guest");
    reveal_strlit("delete_snapshot");
    reveal_strlit("rollback_snapshot");
    reveal_strlit("delete_backup");
    reveal_strlit("delete_iso");
    reveal_strlit("restore_backup");
    reveal_strlit("guest_exec");
}

/// A recorded destruction is sent as one: for a virtual machine its disks that
/// nothing refers to go too.
pub proof fn law_a_destruction_deletes_the_guest(
    action: ActionView,
    kind: GuestType,
    node: Seq<char>,
    vmid: u32,
)
    requires
        action.op == "destroy_guest"@ || action.op == "destroy"@,
    ensures
        dispatched(action, kind, node, vmid) is Ok,
        destroys_guest(dispatched(action, kind, node, vmid)->Ok_0, kind, node, vmid),
{
    lemma_parameter_names();
    lemma_form_names();
    let request = dispatched(action, kind, node, vmid)->Ok_0;
    assert(sole_at(request.params, 0, "node"@, node));
    assert(sole_at(request.params, 1, "vmid"@, decimal(vmid as nat)));
    assert(sole_at(request.query, 0, "purge"@, "1"@));
    if kind == GuestType::Qemu {
        assert(sole_at(request.query, 1, "destroy-unreferenced-disks"@, "1"@));
    }
}

/// Deleting a snapshot sends a DELETE of that snapshot, and rolling back to it
/// a POST to its `rollback` path: neither is ever sent for the other. What
/// lacks its snapshot's name is not sent.
pub proof fn law_a_snapshot_is_deleted_or_rolled_back_as_recorded(
    action: ActionView,
    kind: GuestType,
    node: Seq<char>,
    vmid: u32,
)
    requires
        action.op == "delete_snapshot"@ || action.op == "rollback_snapshot"@,
    ensures
        dispatched(action, kind, node, vmid) is Ok <==> action.snapname is Some,
        dispatched(action, kind, node, vmid) matches Ok(request) ==> {
            &&& addresses_snapshot(request, kind, node, vmid, action.snapname->0)
            &&& action.op == "delete_snapshot"@ ==> request.method == Method::Delete
                && request.path_template
                == "/api2/json/nodes/{node}/{kind}/{vmid}/snapshot/{snapname}"@
            &&& action.op == "rollback_snapshot"@ ==> request.method == Method::Post
                && request.path_template
                == "/api2/json/nodes/{node}/{kind}/{vmid}/snapshot/{snapname}/rollback"@
        },
{
    lemma_recorded_operations();
    lemma_parameter_names();
    if let Ok(request) = dispatched(action, kind, node, vmid) {
        assert(sole_at(request.params, 0, "node"@, node));
        assert(sole_at(request.params, 1, "kind"@, kind.segment()));
        assert(sole_at(request.params, 2, "vmid"@, decimal(vmid as nat)));
        assert(sole_at(request.params, 3, "snapname"@, action.snapname->0));
    }
}

/// Deleting an archive or an image sends a DELETE of that volume, on the
/// storage and the node that were recorded. What lacks one of the three, or
/// names no volume, is not sent.
pub proof fn law_a_volume_is_deleted_as_recorded(
    action: ActionView,
    kind: GuestType,
    node: Seq<char>,
    vmid: u32,
)
    requires
        action.op == "delete_backup"@ || action.op == "delete_iso"@,
    ensures
        dispatched(action, kind, node, vmid) is Ok <==> action.storage is Some && action.volid
            is Some && action.storage_node is Some && volid_fault(action.volid->0) is None,
        dispatched(action, kind, node, vmid) matches Ok(request) ==> deletes_volume(
            request,
            action.storage_node->0,
            action.storage->0,
            action.volid->0,
        ),
{
    lemma_recorded_operations();
    lemma_parameter_names();
    if let Ok(request) = dispatched(action, kind, node, vmid) {
        assert(sole_at(request.params, 0, "node"@, action.storage_node->0));
        assert(sole_at(request.params, 1, "storage"@, action.storage->0));
    }
}

/// Restoring an archive posts it over the guest it was planned for.
pub proof fn law_a_restore_overwrites_its_own_guest(
    action: ActionView,
    kind: GuestType,
    node: Seq<char>,
    vmid: u32,
)
    requires
        action.op == "restore_backup"@,
    ensures
        dispatched(action, kind, node, vmid) is Ok <==> action.volid is Some,
        dispatched(action, kind, node, vmid) matches Ok(request) ==> restores_over(
            request,
            kind,
            node,
            vmid,
            action.volid->0,
        ),
{
    lemma_recorded_operations();
    lemma_parameter_names();
    lemma_form_names();
    if let Ok(request) = dispatched(action, kind, node, vmid) {
        assert(sole_at(request.params, 0, "node"@, node));
        assert(sole_at(request.params, 1, "kind"@, kind.segment()));
        assert(sole_at(request.form, 0, "vmid"@, decimal(vmid as nat)));
        assert(sole_at(request.form, 1, "archive"@, action.volid->0));
        assert(sole_at(request.form, 2, "force"@, "1"@));
        assert(sole_at(request.form, 3, "restore"@, "1"@));
    }
}

/// A command runs with the very words that were recorded, in a virtual machine
/// and nowhere else.
pub proof fn law_a_command_runs_as_recorded(
    action: ActionView,
    kind: GuestType,
    node: Seq<char>,
    vmid: u32,
)
    requires
        action.op == "guest_exec"@,
    ensures
        dispatched(action, kind, node, vmid) is Ok <==> kind == GuestType::Qemu && action.command
            is Some && action.command->0.len() > 0,
        dispatched(action, kind, node, vmid) matches Ok(request) ==> runs_command(
            request,
            node,
            vmid,
            action.command->0,
        ),
{
    lemma_recorded_operations();
    lemma_parameter_names();
    if let Ok(request) = dispatched(action, kind, node, vmid) {
        assert(sole_at(request.params, 0, "node"@, node));
        assert(sole_at(request.params, 1, "vmid"@, decimal(vmid as nat)));
    }
}

/// What is not one of the operations a change set can hold is never sent.
pub proof fn law_an_unknown_operation_is_not_sent(
    action: ActionView,
    kind: GuestType,
    node: Seq<char>,
    vmid: u32,
)
    ensures
        dispatched(action, kind, node, vmid) is Ok ==> op_tool(action.op, kind) is Some,
        op_tool(action.op, kind) is None ==> (dispatched(action, kind, node, vmid) matches Err(
            error,
        ) && error is Malformed),
{
}

/// A plan that is accepted is carried out as it was asked for: whatever the
/// arguments name is what the request acts on, by the method and at the path of
/// the operation that was asked for.
pub proof fn law_an_accepted_plan_is_carried_out_as_asked(
    args: PlanView,
    kind: GuestType,
    node: Seq<char>,
)
    requires
        planned_action(args) is Ok,
    ensures
        ({
            let sent = dispatched(planned_action(args)->Ok_0, kind, node, args.vmid);
            &&& args.op == "destroy_guest"@ ==> sent is Ok && destroys_guest(
                sent->Ok_0,
                kind,
                node,
                args.vmid,
            )
            &&& args.op == "delete_snapshot"@ ==> sent is Ok && sent->Ok_0.method == Method::Delete
                && sent->Ok_0.path_template
                == "/api2/json/nodes/{node}/{kind}/{vmid}/snapshot/{snapname}"@
                && addresses_snapshot(sent->Ok_0, kind, node, args.vmid, args.snapname->0)
            &&& args.op == "rollback_snapshot"@ ==> sent is Ok && sent->Ok_0.method == Method::Post
                && sent->Ok_0.path_template
                == "/api2/json/nodes/{node}/{kind}/{vmid}/snapshot/{snapname}/rollback"@
                && addresses_snapshot(sent->Ok_0, kind, node, args.vmid, args.snapname->0)
            &&& args.op == "delete_backup"@ || args.op == "delete_iso"@ ==> (sent is Ok
                <==> volid_fault(args.volid->0) is None) && (sent is Ok ==> deletes_volume(
                sent->Ok_0,
                args.storage_node->0,
                args.storage->0,
                args.volid->0,
            ))
            &&& args.op == "restore_backup"@ ==> sent is Ok && restores_over(
                sent->Ok_0,
                kind,
                node,
                args.vmid,
                args.volid->0,
            )
        }),
{
    let action = planned_action(args)->Ok_0;
    law_a_plan_records_what_was_asked(args);
    if args.op == "destroy_guest"@ {
        law_a_destruction_deletes_the_guest(action, kind, node, args.vmid);
    }
    if args.op == "delete_snapshot"@ || args.op == "rollback_snapshot"@ {
        law_a_snapshot_is_deleted_or_rolled_back_as_recorded(action, kind, node, args.vmid);
    }
    if args.op == "delete_backup"@ || args.op == "delete_iso"@ {
        law_a_volume_is_deleted_as_recorded(action, kind, node, args.vmid);
    }
    if args.op == "restore_backup"@ {
        law_a_restore_overwrites_its_own_guest(action, kind, node, args.vmid);
    }
}

/// A command plan that is accepted runs, in a virtual machine, the words that
/// were asked for.
pub proof fn law_an_accepted_command_runs_as_asked(
    cluster: Seq<char>,
    vmid: u32,
    command: Seq<Seq<char>>,
    node: Seq<char>,
)
    requires
        exec_action(cluster, vmid, command) is Ok,
    ensures
        ({
            let action = exec_action(cluster, vmid, command)->Ok_0;
            &&& dispatched(action, GuestType::Qemu, node, vmid) is Ok
            &&& runs_command(
                dispatched(action, GuestType::Qemu, node, vmid)->Ok_0,
                node,
                vmid,
                command,
            )
            &&& dispatched(action, GuestType::Lxc, node, vmid) is Err
        }),
{
    let action = exec_action(cluster, vmid, command)->Ok_0;
    law_a_command_plan_records_its_words(cluster, vmid, command);
    law_a_command_runs_as_recorded(action, GuestType::Qemu, node, vmid);
    law_a_command_runs_as_recorded(action, GuestType::Lxc, node, vmid);
}

/// A command starts a process and every other operation a task; only the
/// deletion of a volume may be done without one.
pub proof fn law_what_an_operation_starts(op: Seq<char>, data: JsonView)
    ensures
        started_by(op, data) matches Ok(StartedView::Command(pid)) ==> op == "guest_exec"@
            && integer_member(data, "pid"@) == Some(pid as i128),
        op == "guest_exec"@ ==> !(started_by(op, data) matches Ok(StartedView::Task(_))),
        started_by(op, data) matches Ok(StartedView::Task(handle)) ==> (data matches JsonView::Text(
            text,
        ) && handle == text) || (handle.len() == 0 && (op == "delete_backup"@ || op
            == "delete_iso"@)),
        op == "delete_backup"@ || op == "delete_iso"@ ==> started_by(op, data) is Ok,
        op != "guest_exec"@ && op != "delete_backup"@ && op != "delete_iso"@ ==> (started_by(
            op,
            data,
        ) is Ok <==> data is Text && upid_of(data->Text_0) is Some),
{
    lemma_recorded_operations();
}

/// A recorded action that lacks a parameter is told which.
pub proof fn law_an_incomplete_action_is_told_what_it_lacks(
    action: ActionView,
    kind: GuestType,
    node: Seq<char>,
    vmid: u32,
)
    ensures
        (action.op == "delete_snapshot"@ || action.op == "rollback_snapshot"@) && action.snapname
            is None ==> dispatched(action, kind, node, vmid) == Err::<RequestView, ErrorView>(
            ErrorView::Malformed(action.op + " action is missing "@ + "snapname"@),
        ),
        (action.op == "delete_backup"@ || action.op == "delete_iso"@) && (action.storage is None
            || action.volid is None || action.storage_node is None) ==> dispatched(
            action,
            kind,
            node,
            vmid,
        ) == Err::<RequestView, ErrorView>(
            ErrorView::Malformed(action.op + " action is missing "@ + (if action.storage is None {
                "storage"@
            } else if action.volid is None {
                "volid"@
            } else {
                "storage_node"@
            })),
        ),
        action.op == "restore_backup"@ && action.volid is None ==> dispatched(
            action,
            kind,
            node,
            vmid,
        ) == Err::<RequestView, ErrorView>(
            ErrorView::Malformed(action.op + " action is missing "@ + "volid"@),
        ),
{
    lemma_recorded_operations();
}

/// An apply is judged under what it is given: the policy, the grant, the
/// waivers, the moment and the mode are those of the call.
pub proof fn law_an_apply_is_judged_under_what_it_is_given(
    policy: PolicyView,
    grant: GrantView,
    waivers: Seq<crate::waiver::WaiverView>,
    now_unix: u64,
    lab_mode: bool,
)
    ensures
        context_of(policy, grant, waivers, now_unix, lab_mode).policy == policy,
        context_of(policy, grant, waivers, now_unix, lab_mode).grant == grant,
        context_of(policy, grant, waivers, now_unix, lab_mode).waivers == waivers,
        context_of(policy, grant, waivers, now_unix, lab_mode).now_unix == now_unix,
        context_of(policy, grant, waivers, now_unix, lab_mode).lab_mode == lab_mode,
{
}

/// A protected guest is changed by an apply only under a waiver that names it
/// and has not run out, or in lab mode.
pub proof fn law_a_protected_guest_is_changed_only_under_authority(
    record: ChangeSetView,
    caller: Option<CallerView>,
    policy: PolicyView,
    waivers: Seq<crate::waiver::WaiverView>,
    now_unix: u64,
    lab_mode: bool,
    guest: GuestView,
    action: Option<Result<ActionView, Seq<char>>>,
    stage_one: Result<(), Seq<char>>,
)
    requires
        apply_path(
            record,
            caller,
            policy,
            waivers,
            now_unix,
            lab_mode,
            guest,
            action,
            stage_one,
        ) is Ok,
        protection_for(policy, guest) is Protected,
    ensures
        lab_mode || exists|i: int|
            {
                &&& 0 <= i < waivers.len()
                &&& (#[trigger] waivers[i]).cluster == guest.cluster
                &&& waivers[i].vmid == guest.vmid
                &&& now_unix < waivers[i].until_unix
            },
{
    let context = context_of(policy, grant_of(caller)->Ok_0, waivers, now_unix, lab_mode);
    law_an_apply_executes_only_what_was_approved(
        record,
        caller,
        policy,
        waivers,
        now_unix,
        lab_mode,
        guest,
        action,
        stage_one,
    );
    law_a_plans_authority_is_for_its_own_guest(context, guest);
}

} // verus!
