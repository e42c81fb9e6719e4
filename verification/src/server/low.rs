//! The low tier: reversible operations on guests, storage and tasks.
//!
//! Every function here takes what was resolved and decides: it returns the
//! request to send, or the refusal to answer with.
use vstd::prelude::*;
use vstd::string::*;

use crate::authorized::{AuthorizedGuest, AuthorizedView};
use crate::client::{Request, RequestView};
use crate::error::{ErrorView, ProxmoxError};
use crate::grant::{GrantView, ProxmoxAction, ProxmoxGrant};
use crate::guests::{grows, resize_shrinks, rewrites_in_place, stopping_task_leaves_partial_state, LifecycleVerb};
use crate::inventory::{Cluster, PolicyView};
use crate::protect::{
    creation_allowed, destructive_allowed, override_for, protection_for, protection_of,
};
use crate::resolve::{authorization, authorize, GuestView, Intent, ResolvedGuest};
use crate::selector::GuestType;
use crate::server::read::{mismatch, mismatch_text};
use crate::server::{
    BackupArgs, CloneArgs, ContainerResourceArgs, ResizeArgs, SnapshotArgs, StopTaskArgs,
};
use crate::task::{upid_of, Upid};
use crate::text::{
    carries, carries_option, decimal, decimal_text, has_text, lacks, lemma_has_middle, parse_u32,
    read_u32, same_text, sole_at, text_option, trim,
};
use crate::tier::{interrupts, Tier};
use crate::waiver::{WaiverFile, WaiverView};

verus! {

/// What a guest-addressed call is judged against.
pub struct CallContext<'a> {
    /// The configured cluster.
    pub config: &'a Cluster,
    /// The grant the call is made under.
    pub grant: &'a ProxmoxGrant,
    /// The operator's waivers.
    pub waivers: &'a WaiverFile,
    /// The current unix timestamp.
    pub now_unix: u64,
    /// Whether the server is in lab mode.
    pub lab_mode: bool,
}

/// What a guest-addressed call is judged against, as mathematical values.
pub struct ContextView {
    pub policy: PolicyView,
    pub grant: GrantView,
    pub waivers: Seq<WaiverView>,
    pub now_unix: u64,
    pub lab_mode: bool,
}

impl<'a> View for CallContext<'a> {
    type V = ContextView;

    open spec fn view(&self) -> ContextView {
        ContextView {
            policy: self.config@.policy,
            grant: self.grant@,
            waivers: self.waivers@,
            now_unix: self.now_unix,
            lab_mode: self.lab_mode,
        }
    }
}

impl ContextView {
    /// Whether a waiver or lab mode lets a call on a guest proceed although it
    /// is protected.
    pub open spec fn overrides(self, guest: GuestView) -> bool {
        override_for(
            protection_for(self.policy, guest),
            self.waivers,
            guest.cluster,
            guest.vmid,
            self.now_unix,
            self.lab_mode,
        ).applies()
    }
}

/// What a low-tier call sends, and the guest it was authorized for.
#[derive(Debug)]
pub struct LowCall {
    /// The request to send.
    pub request: Request,
    /// The guest the call was authorized for.
    pub authorized: AuthorizedGuest,
}

/// A refusal in the words of an error.
pub open spec fn refusal<T>(error: ErrorView) -> Result<T, Seq<char>> {
    Err(error.message())
}

/// What a low-tier call on a guest is authorized as. The override rules are
/// those of the destructive tier: an interrupting call is not destructive, but
/// the question a waiver answers is the same one.
pub open spec fn low_authorization(tool: Seq<char>, context: ContextView, guest: GuestView) -> Result<
    AuthorizedView,
    Seq<char>,
> {
    match authorization(
        context.policy,
        guest,
        context.grant,
        Intent {
            tier: Tier::Low,
            interrupts: interrupts(tool),
            override_applies: Some(context.overrides(guest)),
        },
    ) {
        Ok(authorized) => Ok(authorized),
        Err(error) => refusal(error),
    }
}

/// Authorize a low-tier call on a resolved guest.
///
/// Interruption is derived from the tool name, so an additive tool cannot
/// accidentally be treated as interrupting or vice versa.
pub fn authorize_low(tool: &str, context: &CallContext<'_>, guest: ResolvedGuest) -> (r: Result<
    AuthorizedGuest,
    String,
>)
    ensures
        match r {
            Ok(authorized) => low_authorization(tool@, context@, guest@) == Ok::<
                AuthorizedView,
                Seq<char>,
            >(authorized@),
            Err(error) => low_authorization(tool@, context@, guest@) == Err::<
                AuthorizedView,
                Seq<char>,
            >(error@),
        },
{
    // Protection is computed first: a waiver or lab mode has to be known before
    // authorization, not after it has already refused.
    let protection = protection_of(context.config, Some(&guest), false);
    let over = destructive_allowed(
        &protection,
        context.waivers,
        guest.cluster.as_str(),
        guest.vmid,
        context.now_unix,
        context.lab_mode,
    );
    let intent = Intent::low_with_override(tool, over.applies());
    match authorize(context.config, guest, context.grant, intent) {
        Ok(authorized) => Ok(authorized),
        Err(error) => Err(error.message()),
    }
}

/// A low-tier call as a mathematical value.
pub open spec fn call_result(r: Result<LowCall, String>) -> Result<
    (RequestView, AuthorizedView),
    Seq<char>,
> {
    match r {
        Ok(call) => Ok((call.request@, call.authorized@)),
        Err(error) => Err(error@),
    }
}

/// A call that sends one request for the guest it was authorized for.
pub open spec fn low_call(
    authorized: Result<AuthorizedView, Seq<char>>,
    request: spec_fn(GuestView) -> RequestView,
) -> Result<(RequestView, AuthorizedView), Seq<char>> {
    match authorized {
        Ok(authorized) => Ok((request(authorized.guest), authorized)),
        Err(error) => Err(error),
    }
}

// ---------------------------------------------------------------------------
// Lifecycle, snapshots, backups
// ---------------------------------------------------------------------------
/// The verb and the guest type a lifecycle tool stands for.
pub open spec fn lifecycle_of(tool: Seq<char>) -> Option<(LifecycleVerb, GuestType)> {
    if tool == "start_vm"@ {
        Some((LifecycleVerb::Start, GuestType::Qemu))
    } else if tool == "stop_vm"@ {
        Some((LifecycleVerb::Stop, GuestType::Qemu))
    } else if tool == "shutdown_vm"@ {
        Some((LifecycleVerb::Shutdown, GuestType::Qemu))
    } else if tool == "reset_vm"@ {
        Some((LifecycleVerb::Reset, GuestType::Qemu))
    } else if tool == "start_container"@ {
        Some((LifecycleVerb::Start, GuestType::Lxc))
    } else if tool == "stop_container"@ {
        Some((LifecycleVerb::Stop, GuestType::Lxc))
    } else if tool == "restart_container"@ {
        Some((LifecycleVerb::Reboot, GuestType::Lxc))
    } else {
        None
    }
}

/// The verb and the guest type a lifecycle tool stands for.
pub fn lifecycle_tool(tool: &str) -> (r: Option<(LifecycleVerb, GuestType)>)
    ensures
        r == lifecycle_of(tool@),
{
    if same_text(tool, "start_vm") {
        Some((LifecycleVerb::Start, GuestType::Qemu))
    } else if same_text(tool, "stop_vm") {
        Some((LifecycleVerb::Stop, GuestType::Qemu))
    } else if same_text(tool, "shutdown_vm") {
        Some((LifecycleVerb::Shutdown, GuestType::Qemu))
    } else if same_text(tool, "reset_vm") {
        Some((LifecycleVerb::Reset, GuestType::Qemu))
    } else if same_text(tool, "start_container") {
        Some((LifecycleVerb::Start, GuestType::Lxc))
    } else if same_text(tool, "stop_container") {
        Some((LifecycleVerb::Stop, GuestType::Lxc))
    } else if same_text(tool, "restart_container") {
        Some((LifecycleVerb::Reboot, GuestType::Lxc))
    } else {
        None
    }
}

/// The request of a lifecycle verb on a guest.
pub open spec fn lifecycle_request(guest: GuestView, verb: LifecycleVerb) -> RequestView {
    RequestView {
        params: crate::guests::guest_params(guest.node, guest.kind, guest.vmid).push(
            ("verb"@, verb.segment()),
        ),
        ..crate::guests::bare(
            crate::client::Method::Post,
            "/api2/json/nodes/{node}/{kind}/{vmid}/status/{verb}"@,
        )
    }
}

/// What a lifecycle call does: the low-tier gate first, then the type the tool
/// is for.
pub open spec fn lifecycle_call(
    tool: Seq<char>,
    verb: LifecycleVerb,
    required_type: GuestType,
    context: ContextView,
    guest: GuestView,
) -> Result<(RequestView, AuthorizedView), Seq<char>> {
    match low_authorization(tool, context, guest) {
        Err(error) => Err(error),
        Ok(authorized) => if guest.kind != required_type {
            Err(mismatch_text(tool, required_type, guest.vmid, guest.kind))
        } else {
            Ok((lifecycle_request(guest, verb), authorized))
        },
    }
}

/// Serve one low-tier lifecycle verb.
///
/// Shared by all the lifecycle tools because the only differences are the verb
/// and the guest type the tool name implies.
pub fn serve_lifecycle(
    tool: &str,
    verb: LifecycleVerb,
    required_type: GuestType,
    context: &CallContext<'_>,
    guest: ResolvedGuest,
) -> (r: Result<LowCall, String>)
    ensures
        call_result(r) == lifecycle_call(tool@, verb, required_type, context@, guest@),
{
    let authorized = match authorize_low(tool, context, guest) {
        Ok(authorized) => authorized,
        Err(error) => {
            return Err(error);
        },
    };
    let guest = authorized.guest();
    if guest.kind != required_type {
        return Err(mismatch(tool, required_type, guest.vmid, guest.kind));
    }
    let request = crate::guests::lifecycle(guest.node.as_str(), guest.kind, guest.vmid, verb);
    Ok(LowCall { request, authorized })
}

/// What taking a snapshot does: the guest passes the low-tier gate.
pub open spec fn snapshot_call(
    snapname: Seq<char>,
    description: Option<Seq<char>>,
    context: ContextView,
    guest: GuestView,
) -> Result<(RequestView, AuthorizedView), Seq<char>> {
    low_call(
        low_authorization("create_snapshot"@, context, guest),
        |g: GuestView|
            RequestView {
                params: crate::guests::guest_params(g.node, g.kind, g.vmid),
                form: seq![("snapname"@, snapname)] + crate::guests::optional_field(
                    "description"@,
                    description,
                ),
                ..crate::guests::bare(
                    crate::client::Method::Post,
                    "/api2/json/nodes/{node}/{kind}/{vmid}/snapshot"@,
                )
            },
    )
}

/// Take a snapshot. Additive, so permitted on a protected guest.
pub fn create_snapshot(args: &SnapshotArgs, context: &CallContext<'_>, guest: ResolvedGuest) -> (r:
    Result<LowCall, String>)
    ensures
        call_result(r) == snapshot_call(
            args.snapname@,
            text_option(args.description),
            context@,
            guest@,
        ),
{
    let authorized = match authorize_low("create_snapshot", context, guest) {
        Ok(authorized) => authorized,
        Err(error) => {
            return Err(error);
        },
    };
    let guest = authorized.guest();
    let description = match &args.description {
        Some(text) => Some(text.as_str()),
        None => None,
    };
    let request = crate::guests::create_snapshot(
        guest.node.as_str(),
        guest.kind,
        guest.vmid,
        args.snapname.as_str(),
        description,
    );
    Ok(LowCall { request, authorized })
}

/// What backing a guest up does: the guest passes the low-tier gate.
pub open spec fn backup_call(
    storage: Seq<char>,
    mode: Seq<char>,
    compress: Option<Seq<char>>,
    context: ContextView,
    guest: GuestView,
) -> Result<(RequestView, AuthorizedView), Seq<char>> {
    low_call(
        low_authorization("create_backup"@, context, guest),
        |g: GuestView|
            RequestView {
                params: seq![("node"@, g.node)],
                form: seq![
                    ("vmid"@, decimal(g.vmid as nat)),
                    ("storage"@, storage),
                    ("mode"@, mode),
                ] + crate::guests::optional_field("compress"@, compress),
                ..crate::guests::bare(
                    crate::client::Method::Post,
                    "/api2/json/nodes/{node}/vzdump"@,
                )
            },
    )
}

/// Back a guest up. Additive, so permitted on a protected guest.
pub fn create_backup(args: &BackupArgs, context: &CallContext<'_>, guest: ResolvedGuest) -> (r:
    Result<LowCall, String>)
    ensures
        call_result(r) == backup_call(
            args.storage@,
            args.mode@,
            text_option(args.compress),
            context@,
            guest@,
        ),
{
    let authorized = match authorize_low("create_backup", context, guest) {
        Ok(authorized) => authorized,
        Err(error) => {
            return Err(error);
        },
    };
    let guest = authorized.guest();
    let compress = match &args.compress {
        Some(text) => Some(text.as_str()),
        None => None,
    };
    let request = crate::guests::create_backup(
        guest.node.as_str(),
        guest.vmid,
        args.storage.as_str(),
        args.mode.as_str(),
        compress,
    );
    Ok(LowCall { request, authorized })
}

// ---------------------------------------------------------------------------
// Clones
// ---------------------------------------------------------------------------
/// The request of a clone.
pub open spec fn clone_request(
    guest: GuestView,
    newid: u32,
    name: Option<Seq<char>>,
    full: bool,
) -> RequestView {
    RequestView {
        params: crate::guests::guest_params(guest.node, guest.kind, guest.vmid),
        form: seq![("newid"@, decimal(newid as nat)), ("full"@, crate::guests::flag(full))]
            + crate::guests::optional_field(crate::guests::name_field(guest.kind), name),
        ..crate::guests::bare(
            crate::client::Method::Post,
            "/api2/json/nodes/{node}/{kind}/{vmid}/clone"@,
        )
    }
}

/// What a clone does: the source passes the low-tier gate, the destination must
/// be inside the caller's guest scope, and it must not be a protected pin.
pub open spec fn clone_call(
    cluster: Seq<char>,
    newid: u32,
    name: Option<Seq<char>>,
    full: bool,
    context: ContextView,
    guest: GuestView,
) -> Result<(RequestView, AuthorizedView), Seq<char>> {
    match low_authorization("clone_vm"@, context, guest) {
        Err(error) => Err(error),
        Ok(authorized) => if !context.grant.admits_number(newid) {
            Err(
                "token scope does not admit vmid "@ + decimal(newid as nat)
                    + " as a clone destination"@,
            )
        } else if context.policy.vmids.contains(newid) {
            Err(
                "vmid "@ + decimal(newid as nat) + " is a protected pin in cluster "@ + cluster
                    + "; a clone may not claim it"@,
            )
        } else {
            Ok((clone_request(guest, newid, name, full), authorized))
        },
    }
}

/// Clone a guest into a new VMID. Additive, so permitted on a protected source.
pub fn clone_vm(args: &CloneArgs, context: &CallContext<'_>, guest: ResolvedGuest) -> (r: Result<
    LowCall,
    String,
>)
    ensures
        call_result(r) == clone_call(
            args.cluster@,
            args.newid,
            text_option(args.name),
            args.full,
            context@,
            guest@,
        ),
{
    let authorized = match authorize_low("clone_vm", context, guest) {
        Ok(authorized) => authorized,
        Err(error) => {
            return Err(error);
        },
    };
    if !context.grant.allows_new_vmid(args.newid) {
        let mut text = "token scope does not admit vmid ".to_owned();
        text.append(decimal_text(args.newid as u64).as_str());
        text.append(" as a clone destination");
        return Err(text);
    }
    if !creation_allowed(context.config, args.newid) {
        let mut text = "vmid ".to_owned();
        text.append(decimal_text(args.newid as u64).as_str());
        text.append(" is a protected pin in cluster ");
        text.append(args.cluster.as_str());
        text.append("; a clone may not claim it");
        return Err(text);
    }
    let guest = authorized.guest();
    let name = match &args.name {
        Some(text) => Some(text.as_str()),
        None => None,
    };
    let request = crate::guests::clone_guest(
        guest.node.as_str(),
        guest.kind,
        guest.vmid,
        args.newid,
        name,
        args.full,
    );
    Ok(LowCall { request, authorized })
}

// ---------------------------------------------------------------------------
// Disks and allocations
// ---------------------------------------------------------------------------
/// The refusal of a size that does not clearly grow a disk.
pub open spec fn shrink_refusal(size: Seq<char>) -> Seq<char> {
    "size '"@ + size
        + "' is not an unambiguous grow, so this server will not perform it. Only the '+N' form adds capacity; an absolute size may be smaller than the current disk, which destroys data. Shrinking is not supported here, and Proxmox does not support it either: `qm resize` and `pct resize` reject a reduction. Re-issue this call with a '+N' size to grow the disk."@
}

/// Refuse a resize that does not clearly grow the disk.
///
/// Judged before authorization, because a shrink is not a low-tier operation
/// and must not be authorized as one.
pub fn check_resize(args: &ResizeArgs) -> (r: Result<(), String>)
    ensures
        match r {
            Ok(_) => grows(args.size@),
            Err(error) => !grows(args.size@) && error@ == shrink_refusal(args.size@),
        },
{
    if !resize_shrinks(args.size.as_str()) {
        return Ok(());
    }
    let mut text = "size '".to_owned();
    text.append(args.size.as_str());
    text.append(
        "' is not an unambiguous grow, so this server will not perform it. Only the '+N' form adds capacity; an absolute size may be smaller than the current disk, which destroys data. Shrinking is not supported here, and Proxmox does not support it either: `qm resize` and `pct resize` reject a reduction. Re-issue this call with a '+N' size to grow the disk.",
    );
    Err(text)
}

/// What a resize does: a size that does not grow the disk is refused whoever
/// asks, and the guest passes the low-tier gate.
pub open spec fn resize_call(
    disk: Seq<char>,
    size: Seq<char>,
    context: ContextView,
    guest: GuestView,
) -> Result<(RequestView, AuthorizedView), Seq<char>> {
    if !grows(size) {
        Err(shrink_refusal(size))
    } else {
        low_call(
            low_authorization("resize_disk"@, context, guest),
            |g: GuestView|
                RequestView {
                    params: crate::guests::guest_params(g.node, g.kind, g.vmid),
                    form: seq![("disk"@, disk), ("size"@, size)],
                    ..crate::guests::bare(
                        crate::client::Method::Post,
                        "/api2/json/nodes/{node}/{kind}/{vmid}/resize"@,
                    )
                },
        )
    }
}

/// Grow a guest disk.
pub fn resize_disk(args: &ResizeArgs, context: &CallContext<'_>, guest: ResolvedGuest) -> (r:
    Result<LowCall, String>)
    ensures
        call_result(r) == resize_call(args.disk@, args.size@, context@, guest@),
{
    if let Err(error) = check_resize(args) {
        return Err(error);
    }
    let authorized = match authorize_low("resize_disk", context, guest) {
        Ok(authorized) => authorized,
        Err(error) => {
            return Err(error);
        },
    };
    let guest = authorized.guest();
    let request = crate::guests::resize_disk(
        guest.node.as_str(),
        guest.kind,
        guest.vmid,
        args.disk.as_str(),
        args.size.as_str(),
    );
    Ok(LowCall { request, authorized })
}

/// The refusal of an allocation change that changes nothing.
pub const NOTHING_TO_CHANGE: &'static str =
    "give at least one of cores, memory_mb or swap_mb: a call with none would report a change that never happened.";

/// Refuse an allocation change that changes nothing.
pub fn check_resources(args: &ContainerResourceArgs) -> (r: Result<(), String>)
    ensures
        unit_is(
            r,
            args.cores is None && args.memory_mb is None && args.swap_mb is None,
            NOTHING_TO_CHANGE@,
        ),
{
    if args.cores.is_none() && args.memory_mb.is_none() && args.swap_mb.is_none() {
        Err(NOTHING_TO_CHANGE.to_owned())
    } else {
        Ok(())
    }
}

/// Whether a check refuses exactly when it should, with the text it should.
pub open spec fn unit_is(r: Result<(), String>, refused: bool, text: Seq<char>) -> bool {
    match r {
        Ok(_) => !refused,
        Err(error) => refused && error@ == text,
    }
}

/// The refusal of an allocation change on a guest that is no container.
pub open spec fn not_a_container(vmid: u32) -> Seq<char> {
    "vmid "@ + decimal(vmid as nat)
        + " is a QEMU guest; this tool changes LXC allocations only. Resize a VM from the Proxmox UI or CLI."@
}

/// What an allocation change does: nothing to change is refused, the guest
/// passes the low-tier gate (the change interrupts it), and it must be a
/// container.
pub open spec fn resources_call(
    cores: Option<u32>,
    memory_mb: Option<u32>,
    swap_mb: Option<u32>,
    context: ContextView,
    guest: GuestView,
) -> Result<(RequestView, AuthorizedView), Seq<char>> {
    if cores is None && memory_mb is None && swap_mb is None {
        Err(NOTHING_TO_CHANGE@)
    } else {
        match low_authorization("update_container_resources"@, context, guest) {
            Err(error) => Err(error),
            Ok(authorized) => if guest.kind != GuestType::Lxc {
                Err(not_a_container(guest.vmid))
            } else {
                Ok(
                    (
                        RequestView {
                            params: seq![
                                ("node"@, guest.node),
                                ("vmid"@, decimal(guest.vmid as nat)),
                            ],
                            form: crate::guests::number_field("cores"@, cores)
                                + crate::guests::number_field("memory"@, memory_mb)
                                + crate::guests::number_field("swap"@, swap_mb),
                            ..crate::guests::bare(
                                crate::client::Method::Put,
                                "/api2/json/nodes/{node}/lxc/{vmid}/config"@,
                            )
                        },
                        authorized,
                    ),
                )
            },
        }
    }
}

/// Change an LXC guest's cores, memory or swap.
pub fn update_container_resources(
    args: &ContainerResourceArgs,
    context: &CallContext<'_>,
    guest: ResolvedGuest,
) -> (r: Result<LowCall, String>)
    ensures
        call_result(r) == resources_call(
            args.cores,
            args.memory_mb,
            args.swap_mb,
            context@,
            guest@,
        ),
{
    if let Err(error) = check_resources(args) {
        return Err(error);
    }
    let authorized = match authorize_low("update_container_resources", context, guest) {
        Ok(authorized) => authorized,
        Err(error) => {
            return Err(error);
        },
    };
    let guest = authorized.guest();
    if guest.kind != GuestType::Lxc {
        let mut text = "vmid ".to_owned();
        text.append(decimal_text(guest.vmid as u64).as_str());
        text.append(
            " is a QEMU guest; this tool changes LXC allocations only. Resize a VM from the Proxmox UI or CLI.",
        );
        return Err(text);
    }
    let request = crate::guests::update_container_resources(
        guest.node.as_str(),
        guest.vmid,
        args.cores,
        args.memory_mb,
        args.swap_mb,
    );
    Ok(LowCall { request, authorized })
}

// ---------------------------------------------------------------------------
// Stopping a task
// ---------------------------------------------------------------------------
/// The refusal to stop a task that rewrites a guest in place, or whose handle
/// cannot be read.
pub open spec fn partial_state_refusal(upid: Seq<char>) -> Seq<char> {
    "task '"@ + upid
        + "' rewrites a guest in place, so stopping it half-way would leave something that is neither the old guest nor the new one. Let it finish and repair the result afterwards. Backups, migrations and downloads can be stopped."@
}

/// The refusal to stop a task by a token without the low tier.
pub const STOP_NEEDS_LOW: &'static str = "stop_task requires the 'low' action tier";

/// The refusal to stop a node-level task by a token narrowed to specific
/// guests.
pub const STOP_NEEDS_WILDCARD: &'static str =
    "stop_task addresses a node-level task rather than a guest, so it requires a token whose guest scope is '*'. This token is narrowed to specific guests and cannot be checked against a task.";

/// The guest whose work a task is, where its handle names one by vmid.
pub open spec fn task_guest(upid: Seq<char>) -> Result<Option<u32>, Seq<char>> {
    match upid_of(upid) {
        None => Err(partial_state_refusal(upid)),
        Some(parsed) => if rewrites_in_place(parsed.kind) {
            Err(partial_state_refusal(upid))
        } else {
            Ok(parse_u32(parsed.id))
        },
    }
}

/// Find the guest whose work a task is, so that it can be resolved.
///
/// Judged before authorization, because the answer decides whether the call
/// belongs to the low tier at all.
pub fn stop_target(args: &StopTaskArgs) -> (r: Result<Option<u32>, String>)
    ensures
        match r {
            Ok(vmid) => task_guest(args.upid@) == Ok::<Option<u32>, Seq<char>>(vmid),
            Err(error) => task_guest(args.upid@) == Err::<Option<u32>, Seq<char>>(error@),
        },
{
    if !stopping_task_leaves_partial_state(args.upid.as_str()) {
        if let Ok(parsed) = Upid::parse(args.upid.as_str()) {
            return Ok(read_u32(parsed.id()));
        }
    }
    let mut text = "task '".to_owned();
    text.append(args.upid.as_str());
    text.append(
        "' rewrites a guest in place, so stopping it half-way would leave something that is neither the old guest nor the new one. Let it finish and repair the result afterwards. Backups, migrations and downloads can be stopped.",
    );
    Err(text)
}

/// The request that stops a task, on the node its handle names.
pub open spec fn stop_request(upid: Seq<char>) -> RequestView {
    RequestView {
        params: seq![("node"@, upid_of(upid)->0.node)],
        ..crate::guests::bare(
            crate::client::Method::Delete,
            "/api2/json/nodes/{node}/tasks/"@ + crate::client::percent_encoded(upid),
        )
    }
}

/// What stopping a task does. A task that rewrites a guest is left alone. A
/// task that is some guest's work interrupts that guest, so it passes the
/// low-tier gate for it; `guest` is that guest as resolved. A task of a node
/// names no guest, so nothing can narrow it and an unrestricted scope stands
/// in.
pub open spec fn stop_call(
    cluster: Seq<char>,
    upid: Seq<char>,
    context: ContextView,
    guest: Option<GuestView>,
) -> Result<RequestView, Seq<char>> {
    match task_guest(upid) {
        Err(error) => Err(error),
        Ok(Some(vmid)) => match guest {
            Some(guest) => if guest.vmid == vmid {
                match low_authorization("stop_task"@, context, guest) {
                    Err(error) => Err(error),
                    Ok(_) => Ok(stop_request(upid)),
                }
            } else {
                refusal(guest_not_found(cluster, vmid))
            },
            None => refusal(guest_not_found(cluster, vmid)),
        },
        Ok(None) => if !context.grant.permits(ProxmoxAction::Low) {
            Err(STOP_NEEDS_LOW@)
        } else if !context.grant.unrestricted() {
            Err(STOP_NEEDS_WILDCARD@)
        } else {
            Ok(stop_request(upid))
        },
    }
}

/// The error of a guest the cluster does not report.
pub open spec fn guest_not_found(cluster: Seq<char>, vmid: u32) -> ErrorView {
    ErrorView::NotFound { what: "guest "@ + decimal(vmid as nat) + " in cluster "@ + cluster }
}

fn not_found(cluster: &str, vmid: u32) -> (r: String)
    ensures
        r@ == guest_not_found(cluster@, vmid).message(),
{
    let mut what = "guest ".to_owned();
    what.append(decimal_text(vmid as u64).as_str());
    what.append(" in cluster ");
    what.append(cluster);
    ProxmoxError::NotFound { what }.message()
}

/// Ask Proxmox to stop a running task.
///
/// `guest` is the guest [`stop_target`] named, as resolved.
pub fn stop_task(args: &StopTaskArgs, context: &CallContext<'_>, guest: Option<ResolvedGuest>) -> (r:
    Result<Request, String>)
    ensures
        crate::server::read::request_result(r) == stop_call(
            args.cluster@,
            args.upid@,
            context@,
            match guest {
                Some(guest) => Some(guest@),
                None => None,
            },
        ),
{
    let target = match stop_target(args) {
        Ok(target) => target,
        Err(error) => {
            return Err(error);
        },
    };
    match target {
        Some(vmid) => {
            match guest {
                Some(guest) => {
                    if guest.vmid != vmid {
                        return Err(not_found(args.cluster.as_str(), vmid));
                    }
                    if let Err(error) = authorize_low("stop_task", context, guest) {
                        return Err(error);
                    }
                },
                None => {
                    return Err(not_found(args.cluster.as_str(), vmid));
                },
            }
        },
        None => {
            if !context.grant.allows_action(ProxmoxAction::Low) {
                return Err(STOP_NEEDS_LOW.to_owned());
            }
            if !context.grant.is_unrestricted_guest_scope() {
                return Err(STOP_NEEDS_WILDCARD.to_owned());
            }
        },
    }
    let upid = args.upid.as_str();
    match Upid::parse(upid) {
        Ok(parsed) => Ok(crate::guests::stop_task(parsed.node(), upid)),
        Err(error) => Err(error.message()),
    }
}

// ---------------------------------------------------------------------------
// What holds of every low-tier call
// ---------------------------------------------------------------------------
/// A guest passes the low-tier gate only inside the token's scope, under a
/// grant of the low tier, and, where the tool interrupts service, unprotected
/// or under an override. An additive tool passes on a protected guest as on any
/// other.
pub proof fn law_low_tier_gate(tool: Seq<char>, context: ContextView, guest: GuestView)
    ensures
        low_authorization(tool, context, guest) is Ok <==> context.grant.admits(guest.facts())
            && context.grant.permits(ProxmoxAction::Low) && (!interrupts(tool) || protection_for(
            context.policy,
            guest,
        ) is Unprotected || context.overrides(guest)),
{
}

/// A token that may not change a guest cannot stop the guest's tasks either,
/// and nobody can stop one that rewrites a guest in place.
pub proof fn law_a_guests_task_is_stopped_only_through_its_gate(
    cluster: Seq<char>,
    upid: Seq<char>,
    context: ContextView,
    guest: Option<GuestView>,
)
    requires
        stop_call(cluster, upid, context, guest) is Ok,
    ensures
        upid_of(upid) is Some,
        !rewrites_in_place(upid_of(upid)->0.kind),
        parse_u32(upid_of(upid)->0.id) matches Some(vmid) ==> guest is Some && guest->0.vmid == vmid
            && low_authorization("stop_task"@, context, guest->0) is Ok,
        parse_u32(upid_of(upid)->0.id) is None ==> context.grant.unrestricted(),
{
}

/// Whether a request goes to the node a guest was resolved on.
pub open spec fn addressed(request: RequestView, guest: GuestView) -> bool {
    request.params.len() > 0 && request.params[0] == ("node"@, guest.node)
}

/// The node is never the caller's word: every call on a guest goes to the node
/// the guest was resolved on, for the guest that was authorized.
pub proof fn law_a_guest_is_changed_where_it_runs(
    tool: Seq<char>,
    verb: LifecycleVerb,
    required_type: GuestType,
    cluster: Seq<char>,
    newid: u32,
    name: Option<Seq<char>>,
    full: bool,
    disk: Seq<char>,
    size: Seq<char>,
    cores: Option<u32>,
    memory_mb: Option<u32>,
    swap_mb: Option<u32>,
    context: ContextView,
    guest: GuestView,
)
    ensures
        lifecycle_call(tool, verb, required_type, context, guest) matches Ok((request, authorized))
            ==> addressed(request, guest) && authorized.guest == guest,
        clone_call(cluster, newid, name, full, context, guest) matches Ok((request, authorized))
            ==> addressed(request, guest) && authorized.guest == guest,
        resize_call(disk, size, context, guest) matches Ok((request, authorized)) ==> addressed(
            request,
            guest,
        ) && authorized.guest == guest,
        resources_call(cores, memory_mb, swap_mb, context, guest) matches Ok((request, authorized))
            ==> addressed(request, guest) && authorized.guest == guest,
{
}

/// A disk is only ever grown: a resize that is let through asks for more.
pub proof fn law_a_resize_only_grows(
    disk: Seq<char>,
    size: Seq<char>,
    context: ContextView,
    guest: GuestView,
)
    requires
        resize_call(disk, size, context, guest) is Ok,
    ensures
        grows(size),
        trim(size).len() > 0 && trim(size)[0] == '+',
{
}

/// A clone never lands outside the token's scope or on a protected pin.
pub proof fn law_a_clone_lands_inside_the_scope(
    cluster: Seq<char>,
    newid: u32,
    name: Option<Seq<char>>,
    full: bool,
    context: ContextView,
    guest: GuestView,
)
    requires
        clone_call(cluster, newid, name, full, context, guest) is Ok,
    ensures
        context.grant.admits(guest.facts()),
        context.grant.admits_number(newid),
        !context.policy.vmids.contains(newid),
{
}

/// Whether a tool is one of those that start, stop or restart a guest.
pub open spec fn is_lifecycle_tool(tool: Seq<char>) -> bool {
    ||| tool == "start_vm"@ || tool == "stop_vm"@ || tool == "shutdown_vm"@ || tool == "reset_vm"@
    ||| tool == "start_container"@ || tool == "stop_container"@ || tool == "restart_container"@
}

/// What tells the lifecycle tools and their verbs apart.
proof fn lemma_lifecycle_names()
    ensures
        "start_vm"@.len() == 8 && "start_vm"@[2] == 'a',
        "stop_vm"@.len() == 7,
        "shutdown_vm"@.len() == 11,
        "reset_vm"@.len() == 8 && "reset_vm"@[2] == 's',
        "start_container"@.len() == 15,
        "stop_container"@.len() == 14,
        "restart_container"@.len() == 17,
        "start"@.len() == 5 && "start"@[0] == 's',
        "stop"@.len() == 4,
        "shutdown"@.len() == 8,
        "reset"@.len() == 5 && "reset"@[0] == 'r',
        "reboot"@.len() == 6,
{
    reveal_strlit("start_vm");
    reveal_strlit("stop_vm");
    reveal_strlit("shutdown_vm");
    reveal_strlit("reset_vm");
    reveal_strlit("start_container");
    reveal_strlit("stop_container");
    reveal_strlit("restart_container");
    reveal_strlit("start");
    reveal_strlit("stop");
    reveal_strlit("shutdown");
    reveal_strlit("reset");
    reveal_strlit("reboot");
}

/// Each lifecycle tool reaches its own endpoint: the last segment of the path
/// of its call is the verb the tool is named after, for the guest type it is
/// named after.
pub proof fn law_each_lifecycle_tool_reaches_its_own_endpoint(tool: Seq<char>)
    ensures
        lifecycle_of(tool) is Some <==> is_lifecycle_tool(tool),
        lifecycle_of(tool) matches Some((verb, kind)) ==> {
            &&& tool == "start_vm"@ || tool == "start_container"@ <==> verb.segment() == "start"@
            &&& tool == "stop_vm"@ || tool == "stop_container"@ <==> verb.segment() == "stop"@
            &&& tool == "shutdown_vm"@ <==> verb.segment() == "shutdown"@
            &&& tool == "reset_vm"@ <==> verb.segment() == "reset"@
            &&& tool == "restart_container"@ <==> verb.segment() == "reboot"@
            &&& tool == "start_vm"@ || tool == "stop_vm"@ || tool == "shutdown_vm"@ || tool
                == "reset_vm"@ <==> kind == GuestType::Qemu
        },
{
    lemma_lifecycle_names();
}

/// No two lifecycle tools of one guest type send the same verb.
pub proof fn law_no_two_lifecycle_tools_share_a_verb(
    a: Seq<char>,
    b: Seq<char>,
    kind: GuestType,
    verb: LifecycleVerb,
    other: LifecycleVerb,
)
    requires
        lifecycle_of(a) == Some((verb, kind)),
        lifecycle_of(b) == Some((other, kind)),
        verb.segment() == other.segment(),
    ensures
        a == b,
{
    lemma_lifecycle_names();
    law_each_lifecycle_tool_reaches_its_own_endpoint(a);
    law_each_lifecycle_tool_reaches_its_own_endpoint(b);
}

/// A lifecycle call that is let through is one POST to the status endpoint of
/// the guest it was made for, under the verb's own segment, and it carries
/// nothing else. It is let through exactly where the guest passes the low-tier
/// gate and has the type the tool is for.
pub proof fn law_a_lifecycle_call_posts_its_verb(
    tool: Seq<char>,
    verb: LifecycleVerb,
    required_type: GuestType,
    context: ContextView,
    guest: GuestView,
)
    ensures
        lifecycle_call(tool, verb, required_type, context, guest) is Ok <==> guest.kind
            == required_type && low_authorization(tool, context, guest) is Ok,
        lifecycle_call(tool, verb, required_type, context, guest) matches Ok((request, _)) ==> {
            &&& request.method == crate::client::Method::Post
            &&& request.path_template == "/api2/json/nodes/{node}/{kind}/{vmid}/status/{verb}"@
            &&& addresses_guest(request, guest)
            &&& carries(request.params, "verb"@, verb.segment())
            &&& request.query.len() == 0
            &&& request.form.len() == 0
        },
{
    if let Ok((request, _)) = lifecycle_call(tool, verb, required_type, context, guest) {
        lemma_parameter_names();
        lemma_guest_params(guest, seq![("verb"@, verb.segment())]);
        assert(request.params =~= crate::guests::guest_params(guest.node, guest.kind, guest.vmid)
            + seq![("verb"@, verb.segment())]);
        assert(sole_at(request.params, 3, "verb"@, verb.segment()));
    }
}

/// Whether the path parameters of a request name a guest: its node, the segment
/// of its type, and its vmid.
pub open spec fn addresses_guest(request: RequestView, guest: GuestView) -> bool {
    &&& carries(request.params, "node"@, guest.node)
    &&& carries(
        request.params,
        "kind"@,
        if guest.kind == GuestType::Qemu {
            "qemu"@
        } else {
            "lxc"@
        },
    )
    &&& carries(request.params, "vmid"@, decimal(guest.vmid as nat))
}

/// What tells the path parameters apart.
pub proof fn lemma_parameter_names()
    ensures
        "snapname"@.len() == 8 && "storage"@.len() == 7 && "node"@.len() == 4,
        "kind"@.len() == 4 && "vmid"@.len() == 4,
        "node"@ != "kind"@,
        "node"@ != "vmid"@,
        "kind"@ != "vmid"@,
        "verb"@ != "node"@,
        "verb"@ != "kind"@,
        "verb"@ != "vmid"@,
{
    reveal_strlit("node");
    reveal_strlit("kind");
    reveal_strlit("vmid");
    reveal_strlit("verb");
    reveal_strlit("snapname");
    reveal_strlit("storage");
    assert("node"@[0] == 'n');
    assert("kind"@[0] == 'k');
    assert("vmid"@[1] == 'm');
    assert("verb"@[1] == 'e');
}

/// The path parameters that name a guest, whatever follows them under other
/// names.
pub proof fn lemma_guest_params(guest: GuestView, more: Seq<(Seq<char>, Seq<char>)>)
    requires
        lacks(more, "node"@) && lacks(more, "kind"@) && lacks(more, "vmid"@),
    ensures
        ({
            let params = crate::guests::guest_params(guest.node, guest.kind, guest.vmid) + more;
            &&& carries(params, "node"@, guest.node)
            &&& carries(
                params,
                "kind"@,
                if guest.kind == GuestType::Qemu {
                    "qemu"@
                } else {
                    "lxc"@
                },
            )
            &&& carries(params, "vmid"@, decimal(guest.vmid as nat))
        }),
{
    lemma_parameter_names();
    let params = crate::guests::guest_params(guest.node, guest.kind, guest.vmid) + more;
    assert forall|j: int| 3 <= j < params.len() implies #[trigger] params[j] == more[j - 3] by {}
    assert(sole_at(params, 0, "node"@, guest.node));
    assert(sole_at(params, 1, "kind"@, guest.kind.segment()));
    assert(sole_at(params, 2, "vmid"@, decimal(guest.vmid as nat)));
}

proof fn lemma_field_names()
    ensures
        "snapname"@.len() == 8 && "description"@.len() == 11,
        "vmid"@.len() == 4 && "vmid"@[0] == 'v',
        "storage"@.len() == 7,
        "mode"@.len() == 4 && "mode"@[0] == 'm',
        "compress"@.len() == 8,
        "newid"@.len() == 5,
        "full"@.len() == 4 && "full"@[0] == 'f',
        "name"@.len() == 4 && "name"@[0] == 'n',
        "hostname"@.len() == 8,
        "disk"@.len() == 4 && "disk"@[0] == 'd',
        "size"@.len() == 4 && "size"@[0] == 's',
        "cores"@.len() == 5 && "memory"@.len() == 6,
        "swap"@.len() == 4,
{
    reveal_strlit("snapname");
    reveal_strlit("description");
    reveal_strlit("vmid");
    reveal_strlit("storage");
    reveal_strlit("mode");
    reveal_strlit("compress");
    reveal_strlit("newid");
    reveal_strlit("full");
    reveal_strlit("name");
    reveal_strlit("hostname");
    reveal_strlit("disk");
    reveal_strlit("size");
    reveal_strlit("cores");
    reveal_strlit("memory");
    reveal_strlit("swap");
}

/// A text that is given, where it is not empty.
pub open spec fn unless_empty(value: Option<Seq<char>>) -> Option<Seq<char>> {
    match value {
        Some(text) => if text.len() > 0 {
            Some(text)
        } else {
            None
        },
        None => None,
    }
}

/// A snapshot is taken of the guest itself, under the name and with the
/// description that were given.
pub proof fn law_a_snapshot_is_taken_as_asked(
    snapname: Seq<char>,
    description: Option<Seq<char>>,
    context: ContextView,
    guest: GuestView,
)
    ensures
        snapshot_call(snapname, description, context, guest) is Ok <==> low_authorization(
            "create_snapshot"@,
            context,
            guest,
        ) is Ok,
        snapshot_call(snapname, description, context, guest) matches Ok((request, authorized)) ==> {
            &&& authorized.guest == guest
            &&& request.method == crate::client::Method::Post
            &&& request.path_template == "/api2/json/nodes/{node}/{kind}/{vmid}/snapshot"@
            &&& addresses_guest(request, guest)
            &&& carries(request.form, "snapname"@, snapname)
            &&& carries_option(request.form, "description"@, unless_empty(description))
            &&& request.query.len() == 0
        },
{
    if let Ok((request, _)) = snapshot_call(snapname, description, context, guest) {
        let none = Seq::<(Seq<char>, Seq<char>)>::empty();
        lemma_guest_params(guest, none);
        assert(request.params + none =~= request.params);
        lemma_field_names();
        assert(sole_at(request.form, 0, "snapname"@, snapname));
        if unless_empty(description) is Some {
            assert(sole_at(request.form, 1, "description"@, description->0));
        }
    }
}

/// A backup is made of the guest itself, on the node it runs on, to the storage
/// and in the mode that were given, compressed as given.
pub proof fn law_a_backup_is_made_as_asked(
    storage: Seq<char>,
    mode: Seq<char>,
    compress: Option<Seq<char>>,
    context: ContextView,
    guest: GuestView,
)
    ensures
        backup_call(storage, mode, compress, context, guest) is Ok <==> low_authorization(
            "create_backup"@,
            context,
            guest,
        ) is Ok,
        backup_call(storage, mode, compress, context, guest) matches Ok((request, authorized)) ==> {
            &&& authorized.guest == guest
            &&& request.method == crate::client::Method::Post
            &&& request.path_template == "/api2/json/nodes/{node}/vzdump"@
            &&& carries(request.params, "node"@, guest.node)
            &&& carries(request.form, "vmid"@, decimal(guest.vmid as nat))
            &&& carries(request.form, "storage"@, storage)
            &&& carries(request.form, "mode"@, mode)
            &&& carries_option(request.form, "compress"@, unless_empty(compress))
            &&& request.query.len() == 0
        },
{
    if let Ok((request, _)) = backup_call(storage, mode, compress, context, guest) {
        lemma_field_names();
        assert(sole_at(request.params, 0, "node"@, guest.node));
        assert(sole_at(request.form, 0, "vmid"@, decimal(guest.vmid as nat)));
        assert(sole_at(request.form, 1, "storage"@, storage));
        assert(sole_at(request.form, 2, "mode"@, mode));
        if unless_empty(compress) is Some {
            assert(sole_at(request.form, 3, "compress"@, compress->0));
        }
    }
}

/// A clone is made of the guest itself, into the vmid that was given, full or
/// linked as asked. A name is sent under the field Proxmox reads it from for
/// the guest's type, and under no other.
pub proof fn law_a_clone_is_made_as_asked(
    cluster: Seq<char>,
    newid: u32,
    name: Option<Seq<char>>,
    full: bool,
    context: ContextView,
    guest: GuestView,
)
    ensures
        clone_call(cluster, newid, name, full, context, guest) is Ok <==> low_authorization(
            "clone_vm"@,
            context,
            guest,
        ) is Ok && context.grant.admits_number(newid) && !context.policy.vmids.contains(newid),
        clone_call(cluster, newid, name, full, context, guest) matches Ok((request, authorized)) ==> {
            &&& authorized.guest == guest
            &&& request.method == crate::client::Method::Post
            &&& request.path_template == "/api2/json/nodes/{node}/{kind}/{vmid}/clone"@
            &&& addresses_guest(request, guest)
            &&& carries(request.form, "newid"@, decimal(newid as nat))
            &&& full ==> carries(request.form, "full"@, "1"@)
            &&& !full ==> carries(request.form, "full"@, "0"@)
            &&& guest.kind == GuestType::Qemu ==> carries_option(
                request.form,
                "name"@,
                unless_empty(name),
            ) && lacks(request.form, "hostname"@)
            &&& guest.kind == GuestType::Lxc ==> carries_option(
                request.form,
                "hostname"@,
                unless_empty(name),
            ) && lacks(request.form, "name"@)
            &&& request.query.len() == 0
        },
{
    if let Ok((request, _)) = clone_call(cluster, newid, name, full, context, guest) {
        let none = Seq::<(Seq<char>, Seq<char>)>::empty();
        lemma_guest_params(guest, none);
        assert(request.params + none =~= request.params);
        lemma_field_names();
        assert(sole_at(request.form, 0, "newid"@, decimal(newid as nat)));
        assert(sole_at(
            request.form,
            1,
            "full"@,
            if full {
                "1"@
            } else {
                "0"@
            },
        ));
        if unless_empty(name) is Some {
            assert(sole_at(
                request.form,
                2,
                if guest.kind == GuestType::Qemu {
                    "name"@
                } else {
                    "hostname"@
                },
                name->0,
            ));
        }
    }
}

/// A resize is of the disk and by the size that were given, on the guest
/// itself.
pub proof fn law_a_resize_is_made_as_asked(
    disk: Seq<char>,
    size: Seq<char>,
    context: ContextView,
    guest: GuestView,
)
    ensures
        resize_call(disk, size, context, guest) is Ok <==> grows(size) && low_authorization(
            "resize_disk"@,
            context,
            guest,
        ) is Ok,
        resize_call(disk, size, context, guest) matches Ok((request, authorized)) ==> {
            &&& authorized.guest == guest
            &&& request.method == crate::client::Method::Post
            &&& request.path_template == "/api2/json/nodes/{node}/{kind}/{vmid}/resize"@
            &&& addresses_guest(request, guest)
            &&& carries(request.form, "disk"@, disk)
            &&& carries(request.form, "size"@, size)
            &&& request.query.len() == 0
        },
{
    if let Ok((request, _)) = resize_call(disk, size, context, guest) {
        let none = Seq::<(Seq<char>, Seq<char>)>::empty();
        lemma_guest_params(guest, none);
        assert(request.params + none =~= request.params);
        lemma_field_names();
        assert(sole_at(request.form, 0, "disk"@, disk));
        assert(sole_at(request.form, 1, "size"@, size));
    }
}

/// The text of an optional number.
pub open spec fn number_text(value: Option<u32>) -> Option<Seq<char>> {
    match value {
        Some(n) => Some(decimal(n as nat)),
        None => None,
    }
}

/// An allocation change sets exactly what was given, each number under its own
/// name, on the container itself; what was not given is left as it is.
pub proof fn law_an_allocation_is_changed_as_asked(
    cores: Option<u32>,
    memory_mb: Option<u32>,
    swap_mb: Option<u32>,
    context: ContextView,
    guest: GuestView,
)
    ensures
        resources_call(cores, memory_mb, swap_mb, context, guest) is Ok <==> (cores is Some
            || memory_mb is Some || swap_mb is Some) && guest.kind == GuestType::Lxc
            && low_authorization("update_container_resources"@, context, guest) is Ok,
        resources_call(cores, memory_mb, swap_mb, context, guest) matches Ok((request, authorized))
            ==> {
            &&& authorized.guest == guest
            &&& request.method == crate::client::Method::Put
            &&& request.path_template == "/api2/json/nodes/{node}/lxc/{vmid}/config"@
            &&& carries(request.params, "node"@, guest.node)
            &&& carries(request.params, "vmid"@, decimal(guest.vmid as nat))
            &&& carries_option(request.form, "cores"@, number_text(cores))
            &&& carries_option(request.form, "memory"@, number_text(memory_mb))
            &&& carries_option(request.form, "swap"@, number_text(swap_mb))
            &&& request.query.len() == 0
        },
{
    if let Ok((request, _)) = resources_call(cores, memory_mb, swap_mb, context, guest) {
        lemma_field_names();
        lemma_parameter_names();
        assert(sole_at(request.params, 0, "node"@, guest.node));
        assert(sole_at(request.params, 1, "vmid"@, decimal(guest.vmid as nat)));
        let before: int = if cores is Some {
            1
        } else {
            0
        };
        let between: int = if memory_mb is Some {
            before + 1
        } else {
            before
        };
        if cores is Some {
            assert(sole_at(request.form, 0, "cores"@, decimal(cores->0 as nat)));
        }
        if memory_mb is Some {
            assert(sole_at(request.form, before, "memory"@, decimal(memory_mb->0 as nat)));
        }
        if swap_mb is Some {
            assert(sole_at(request.form, between, "swap"@, decimal(swap_mb->0 as nat)));
        }
    }
}

/// Stopping a task sends a DELETE of that task, on the node its handle names,
/// with the whole handle as one path segment.
pub proof fn law_a_task_is_stopped_where_it_runs(
    cluster: Seq<char>,
    upid: Seq<char>,
    context: ContextView,
    guest: Option<GuestView>,
)
    requires
        stop_call(cluster, upid, context, guest) is Ok,
    ensures
        ({
            let request = stop_call(cluster, upid, context, guest)->Ok_0;
            &&& upid_of(upid) is Some
            &&& request.method == crate::client::Method::Delete
            &&& request.path_template == "/api2/json/nodes/{node}/tasks/"@
                + crate::client::percent_encoded(upid)
            &&& carries(request.params, "node"@, upid_of(upid)->0.node)
            &&& request.query.len() == 0
            &&& request.form.len() == 0
        }),
{
    let request = stop_call(cluster, upid, context, guest)->Ok_0;
    assert(sole_at(request.params, 0, "node"@, upid_of(upid)->0.node));
}

/// A task can be stopped exactly when its handle can be read, it does not
/// rewrite a guest in place, and the token reaches what it works on: the guest
/// it names, or, where it names none, everything.
pub proof fn law_when_a_task_is_stopped(
    cluster: Seq<char>,
    upid: Seq<char>,
    context: ContextView,
    guest: Option<GuestView>,
)
    ensures
        stop_call(cluster, upid, context, guest) is Ok <==> {
            &&& upid_of(upid) is Some
            &&& !rewrites_in_place(upid_of(upid)->0.kind)
            &&& match parse_u32(upid_of(upid)->0.id) {
                Some(vmid) => guest is Some && guest->0.vmid == vmid && low_authorization(
                    "stop_task"@,
                    context,
                    guest->0,
                ) is Ok,
                None => context.grant.permits(ProxmoxAction::Low) && context.grant.guests.contains(
                    "*"@,
                ),
            }
        },
{
}

/// A refusal tells what was refused: the size that does not grow, the task that
/// rewrites a guest, the guest that is no container, and the guest that was not
/// found with its cluster.
pub proof fn law_a_refusal_tells_what_was_refused(
    size: Seq<char>,
    upid: Seq<char>,
    cluster: Seq<char>,
    vmid: u32,
)
    ensures
        has_text(shrink_refusal(size), size),
        has_text(partial_state_refusal(upid), upid),
        has_text(not_a_container(vmid), "vmid "@ + decimal(vmid as nat)),
        guest_not_found(cluster, vmid) == (ErrorView::NotFound {
            what: "guest "@ + decimal(vmid as nat) + " in cluster "@ + cluster,
        }),
{
    let none = Seq::<char>::empty();
    lemma_has_middle(
        "size '"@,
        size,
        "' is not an unambiguous grow, so this server will not perform it. Only the '+N' form adds capacity; an absolute size may be smaller than the current disk, which destroys data. Shrinking is not supported here, and Proxmox does not support it either: `qm resize` and `pct resize` reject a reduction. Re-issue this call with a '+N' size to grow the disk."@,
    );
    lemma_has_middle(
        "task '"@,
        upid,
        "' rewrites a guest in place, so stopping it half-way would leave something that is neither the old guest nor the new one. Let it finish and repair the result afterwards. Backups, migrations and downloads can be stopped."@,
    );
    let named = "vmid "@ + decimal(vmid as nat);
    lemma_has_middle(
        none,
        named,
        " is a QEMU guest; this tool changes LXC allocations only. Resize a VM from the Proxmox UI or CLI."@,
    );
    assert(none + named =~= named);
}

/// What makes no sense is refused whoever asks, before the token is looked at:
/// a resize that does not grow, a change of nothing, and stopping a task that
/// rewrites a guest or cannot be read.
pub proof fn law_what_makes_no_sense_is_refused_first(
    disk: Seq<char>,
    size: Seq<char>,
    cluster: Seq<char>,
    upid: Seq<char>,
    context: ContextView,
    guest: GuestView,
)
    ensures
        !grows(size) ==> resize_call(disk, size, context, guest) == Err::<
            (RequestView, AuthorizedView),
            Seq<char>,
        >(shrink_refusal(size)),
        resources_call(None, None, None, context, guest) == Err::<
            (RequestView, AuthorizedView),
            Seq<char>,
        >(NOTHING_TO_CHANGE@),
        upid_of(upid) is None || rewrites_in_place(upid_of(upid)->0.kind) ==> stop_call(
            cluster,
            upid,
            context,
            Some(guest),
        ) == Err::<RequestView, Seq<char>>(partial_state_refusal(upid)),
{
}

/// A guest that is not authorized is refused for that, before its type is
/// looked at.
pub proof fn law_authorization_comes_before_the_type(
    tool: Seq<char>,
    verb: LifecycleVerb,
    required_type: GuestType,
    context: ContextView,
    guest: GuestView,
)
    ensures
        low_authorization(tool, context, guest) matches Err(error) ==> lifecycle_call(
            tool,
            verb,
            required_type,
            context,
            guest,
        ) == Err::<(RequestView, AuthorizedView), Seq<char>>(error),
        low_authorization(tool, context, guest) is Ok && guest.kind != required_type
            ==> lifecycle_call(tool, verb, required_type, context, guest) == Err::<
            (RequestView, AuthorizedView),
            Seq<char>,
        >(mismatch_text(tool, required_type, guest.vmid, guest.kind)),
{
}

} // verus!
