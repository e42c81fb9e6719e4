//! Destructive change sets: what is planned, and what an approver reads.
//!
//! A destructive operation is planned, approved by a second principal, and
//! applied. This module holds the operations a plan may name, the action that
//! records one, and the text that describes it.
use vstd::prelude::*;
use vstd::string::*;

use crate::selector::GuestType;
use crate::text::{
    chars_of, copy_option, copy_texts, decimal, decimal_text, has_text, join, join_texts,
    lemma_has_inner, lemma_has_middle, lemma_join_has_parts, lemma_texts_push, occurs_at,
    same_text, text_option, texts,
};

verus! {

/// Arguments for planning a guest-agent command.
#[derive(Debug)]
pub struct PlanExecArgs {
    /// Inventory name of the cluster.
    pub cluster: String,
    /// Numeric guest id. QEMU only: Proxmox has no LXC exec endpoint.
    pub vmid: u32,
    /// Argument vector, e.g. `["systemctl", "status", "nginx"]`.
    ///
    /// A list rather than a shell line: Proxmox passes it to the agent as
    /// separate arguments, so nothing re-splits it and an argument containing
    /// a space stays one argument.
    pub command: Vec<String>,
}

/// Arguments for planning a destroy operation.
#[derive(Debug)]
pub struct PlanDestroyArgs {
    /// Inventory name of the cluster.
    pub cluster: String,
    /// Numeric guest id.
    pub vmid: u32,
    /// Which destructive operation to plan: `destroy_guest` (the default),
    /// `delete_snapshot`, `rollback_snapshot`, `delete_backup`, `delete_iso`,
    /// or `restore_backup`.
    pub op: String,
    /// Snapshot name, for `delete_snapshot` and `rollback_snapshot`.
    pub snapname: Option<String>,
    /// Storage backend, for `delete_backup` and `delete_iso`.
    pub storage: Option<String>,
    /// Volume id, for `delete_backup`, `delete_iso` and `restore_backup`.
    pub volid: Option<String>,
    /// Node whose storage holds the volume, for `delete_backup` and
    /// `delete_iso`.
    ///
    /// Required for those, because `local` is node-local: the same volid on
    /// two nodes names two different volumes.
    pub storage_node: Option<String>,
}

/// Arguments for planning a destroy operation, as mathematical values.
pub struct PlanView {
    pub cluster: Seq<char>,
    pub vmid: u32,
    pub op: Seq<char>,
    pub snapname: Option<Seq<char>>,
    pub storage: Option<Seq<char>>,
    pub volid: Option<Seq<char>>,
    pub storage_node: Option<Seq<char>>,
}

impl View for PlanDestroyArgs {
    type V = PlanView;

    open spec fn view(&self) -> PlanView {
        PlanView {
            cluster: self.cluster@,
            vmid: self.vmid,
            op: self.op@,
            snapname: text_option(self.snapname),
            storage: text_option(self.storage),
            volid: text_option(self.volid),
            storage_node: text_option(self.storage_node),
        }
    }
}

/// What a plan means when the caller does not say.
pub fn default_destructive_op() -> (r: String)
    ensures
        r@ == "destroy_guest"@,
{
    "destroy_guest".to_owned()
}

/// Arguments for retrieving or manipulating a change set.
#[derive(Debug)]
pub struct ChangeSetArgs {
    /// Change set identifier.
    pub change_set_id: String,
    /// Inventory name of the cluster.
    pub cluster: String,
    /// Numeric guest id.
    pub vmid: u32,
}

/// Output from plan/get operations.
#[derive(Debug, PartialEq, Eq)]
pub struct ChangeSetResponse {
    /// Change set identifier.
    pub change_set_id: String,
    /// Current state.
    pub state: String,
    /// Expected fingerprint at plan time.
    pub expected_fingerprint: String,
    /// Server-rendered preview of the operation.
    pub preview: String,
    /// Approval digest for the approver to provide.
    pub expected_digest: Option<String>,
}

/// Action for a destructive operation.
///
/// `op` is the discriminant and the remaining fields are its parameters, absent
/// when the operation does not take them. The change set's digest covers it, so
/// an apply that dispatched on anything not in here could act on something the
/// approver never saw.
#[derive(Debug)]
pub struct DestroyAction {
    /// Operation type.
    pub op: String,
    /// Cluster name.
    pub cluster: String,
    /// Guest VMID.
    pub vmid: u32,
    /// Snapshot name, for the snapshot operations.
    pub snapname: Option<String>,
    /// Storage backend, for the volume operations.
    pub storage: Option<String>,
    /// Volume id, for the volume operations and restore.
    pub volid: Option<String>,
    /// Argument vector, for `guest_exec`.
    ///
    /// Held as a list rather than a string so the words an approver reviewed
    /// are the words that run.
    pub command: Option<Vec<String>>,
    /// Node the storage lives on, for the volume operations.
    ///
    /// Recorded rather than derived from the guest at apply: `local` is
    /// node-local storage, so the same volid on two nodes names two volumes.
    pub storage_node: Option<String>,
}

/// An action, as a mathematical value.
#[verifier::ext_equal]
pub struct ActionView {
    pub op: Seq<char>,
    pub cluster: Seq<char>,
    pub vmid: u32,
    pub snapname: Option<Seq<char>>,
    pub storage: Option<Seq<char>>,
    pub volid: Option<Seq<char>>,
    pub command: Option<Seq<Seq<char>>>,
    pub storage_node: Option<Seq<char>>,
}

/// The words of an optional command.
pub open spec fn command_option(o: Option<Vec<String>>) -> Option<Seq<Seq<char>>> {
    match o {
        Some(v) => Some(texts(v@)),
        None => None,
    }
}

impl View for DestroyAction {
    type V = ActionView;

    open spec fn view(&self) -> ActionView {
        ActionView {
            op: self.op@,
            cluster: self.cluster@,
            vmid: self.vmid,
            snapname: text_option(self.snapname),
            storage: text_option(self.storage),
            volid: text_option(self.volid),
            command: command_option(self.command),
            storage_node: text_option(self.storage_node),
        }
    }
}

impl Clone for DestroyAction {
    fn clone(&self) -> (r: Self)
        ensures
            r@ == self@,
    {
        DestroyAction {
            op: self.op.clone(),
            cluster: self.cluster.clone(),
            vmid: self.vmid,
            snapname: copy_option(&self.snapname),
            storage: copy_option(&self.storage),
            volid: copy_option(&self.volid),
            command: match &self.command {
                Some(words) => Some(copy_texts(words.as_slice())),
                None => None,
            },
            storage_node: copy_option(&self.storage_node),
        }
    }
}

// ---------------------------------------------------------------------------
// Building an action
// ---------------------------------------------------------------------------
/// A parameter an operation needs: given and not empty, else the refusal that
/// names it.
pub open spec fn required(op: Seq<char>, value: Option<Seq<char>>, name: Seq<char>) -> Result<
    Seq<char>,
    Seq<char>,
> {
    match value {
        Some(text) => if text.len() > 0 {
            Ok(text)
        } else {
            Err(op + " requires "@ + name)
        },
        None => Err(op + " requires "@ + name),
    }
}

/// An action that takes no parameters.
pub open spec fn plain_action(op: Seq<char>, cluster: Seq<char>, vmid: u32) -> ActionView {
    ActionView {
        op,
        cluster,
        vmid,
        snapname: None,
        storage: None,
        volid: None,
        command: None,
        storage_node: None,
    }
}

/// The operations that address a volume.
pub open spec fn is_volume_op(op: Seq<char>) -> bool {
    op == "delete_backup"@ || op == "delete_iso"@
}

/// The operations that address a snapshot.
pub open spec fn is_snapshot_op(op: Seq<char>) -> bool {
    op == "delete_snapshot"@ || op == "rollback_snapshot"@
}

/// The operations that remove a guest, the first release's spelling with it.
pub open spec fn is_destroy_op(op: Seq<char>) -> bool {
    op == "destroy_guest"@ || op == "destroy"@
}

/// The refusal of an operation no plan knows.
pub open spec fn unknown_op_text(op: Seq<char>) -> Seq<char> {
    "unknown destructive operation '"@ + op
        + "'; expected one of destroy_guest, delete_snapshot, rollback_snapshot, delete_backup, delete_iso, restore_backup"@
}

/// The action a plan records: exactly the parameters its operation needs, or
/// the refusal of the first that is missing.
pub open spec fn planned_action(args: PlanView) -> Result<ActionView, Seq<char>> {
    let plain = plain_action(args.op, args.cluster, args.vmid);
    if args.op == "destroy_guest"@ {
        Ok(plain)
    } else if is_snapshot_op(args.op) {
        match required(args.op, args.snapname, "snapname"@) {
            Ok(name) => Ok(ActionView { snapname: Some(name), ..plain }),
            Err(error) => Err(error),
        }
    } else if is_volume_op(args.op) {
        match required(args.op, args.storage_node, "storage_node"@) {
            Err(error) => Err(error),
            Ok(node) => match required(args.op, args.storage, "storage"@) {
                Err(error) => Err(error),
                Ok(storage) => match required(args.op, args.volid, "volid"@) {
                    Err(error) => Err(error),
                    Ok(volid) => Ok(
                        ActionView {
                            storage: Some(storage),
                            volid: Some(volid),
                            storage_node: Some(node),
                            ..plain
                        },
                    ),
                },
            },
        }
    } else if args.op == "restore_backup"@ {
        match required(args.op, args.volid, "volid"@) {
            Ok(volid) => Ok(ActionView { volid: Some(volid), ..plain }),
            Err(error) => Err(error),
        }
    } else {
        Err(unknown_op_text(args.op))
    }
}

/// A built action as a mathematical value.
pub open spec fn action_result(r: Result<DestroyAction, String>) -> Result<
    ActionView,
    Seq<char>,
> {
    match r {
        Ok(action) => Ok(action@),
        Err(error) => Err(error@),
    }
}

fn require(op: &str, value: &Option<String>, name: &str) -> (r: Result<String, String>)
    ensures
        match r {
            Ok(text) => required(op@, text_option(*value), name@) == Ok::<Seq<char>, Seq<char>>(
                text@,
            ),
            Err(error) => required(op@, text_option(*value), name@) == Err::<
                Seq<char>,
                Seq<char>,
            >(error@),
        },
{
    if let Some(text) = value {
        if !text.as_str().is_empty() {
            return Ok(text.clone());
        }
    }
    let mut error = op.to_owned();
    error.append(" requires ");
    error.append(name);
    Err(error)
}

/// Build and validate the action a destructive plan will record.
///
/// Each operation names exactly the parameters it needs, and a missing one is
/// refused here rather than defaulted at apply time. The action is what the
/// change-set digest covers, so anything not decided now is something the
/// approver cannot have reviewed.
pub fn build_destroy_action(args: &PlanDestroyArgs) -> (r: Result<DestroyAction, String>)
    ensures
        action_result(r) == planned_action(args@),
{
    let op = args.op.as_str();
    let mut action = DestroyAction {
        op: args.op.clone(),
        cluster: args.cluster.clone(),
        vmid: args.vmid,
        snapname: None,
        storage: None,
        volid: None,
        command: None,
        storage_node: None,
    };
    if same_text(op, "destroy_guest") {
        return Ok(action);
    }
    if same_text(op, "delete_snapshot") || same_text(op, "rollback_snapshot") {
        return match require(op, &args.snapname, "snapname") {
            Ok(name) => {
                action.snapname = Some(name);
                Ok(action)
            },
            Err(error) => Err(error),
        };
    }
    if same_text(op, "delete_backup") || same_text(op, "delete_iso") {
        // `local` is node-local storage, so the node is part of the volume's
        // identity rather than a detail of where to send the request.
        let node = match require(op, &args.storage_node, "storage_node") {
            Ok(node) => node,
            Err(error) => {
                return Err(error);
            },
        };
        let storage = match require(op, &args.storage, "storage") {
            Ok(storage) => storage,
            Err(error) => {
                return Err(error);
            },
        };
        return match require(op, &args.volid, "volid") {
            Ok(volid) => {
                action.storage = Some(storage);
                action.volid = Some(volid);
                action.storage_node = Some(node);
                Ok(action)
            },
            Err(error) => Err(error),
        };
    }
    // No storage: the archive volid names its own storage, and accepting a
    // second one invites the two to disagree.

    if same_text(op, "restore_backup") {
        return match require(op, &args.volid, "volid") {
            Ok(volid) => {
                action.volid = Some(volid);
                Ok(action)
            },
            Err(error) => Err(error),
        };
    }
    let mut error = "unknown destructive operation '".to_owned();
    error.append(op);
    error.append(
        "'; expected one of destroy_guest, delete_snapshot, rollback_snapshot, delete_backup, delete_iso, restore_backup",
    );
    Err(error)
}

/// The refusal of a command without words.
pub const EMPTY_COMMAND: &'static str =
    "command is empty: give the argv to run, e.g. [\"systemctl\", \"status\", \"nginx\"]";

/// The refusal of a command with an empty word.
pub const EMPTY_ARGUMENT: &'static str =
    "command contains an empty argument, which the guest would receive as a bare '' and is almost never intended";

/// The refusal of a command with a NUL byte.
pub const NUL_IN_COMMAND: &'static str = "command contains a NUL byte";

/// What is wrong with a command, where something is.
pub open spec fn command_fault(command: Seq<Seq<char>>) -> Option<Seq<char>> {
    if command.len() == 0 {
        Some(EMPTY_COMMAND@)
    } else if exists|i: int| 0 <= i < command.len() && (#[trigger] command[i]).len() == 0 {
        Some(EMPTY_ARGUMENT@)
    } else if exists|i: int| 0 <= i < command.len() && (#[trigger] command[i]).contains('\0') {
        Some(NUL_IN_COMMAND@)
    } else {
        None
    }
}

/// The action a command plan records.
pub open spec fn exec_action(cluster: Seq<char>, vmid: u32, command: Seq<Seq<char>>) -> Result<
    ActionView,
    Seq<char>,
> {
    match command_fault(command) {
        Some(fault) => Err(fault),
        None => Ok(
            ActionView { command: Some(command), ..plain_action("guest_exec"@, cluster, vmid) },
        ),
    }
}

fn any_empty(command: &Vec<String>) -> (r: bool)
    ensures
        r == exists|i: int|
            0 <= i < command@.len() && (#[trigger] texts(command@)[i]).len() == 0,
{
    let mut i: usize = 0;
    while i < command.len()
        invariant
            i <= command@.len(),
            forall|j: int| 0 <= j < i ==> (#[trigger] texts(command@)[j]).len() != 0,
        decreases command@.len() - i,
    {
        proof {
            assert(texts(command@)[i as int] == command@[i as int]@);
        }
        if command[i].as_str().is_empty() {
            return true;
        }
        i += 1;
    }
    false
}

fn holds_nul(word: &str) -> (r: bool)
    ensures
        r == word@.contains('\0'),
{
    let v = chars_of(word);
    let mut i: usize = 0;
    while i < v.len()
        invariant
            v@ == word@,
            i <= v@.len(),
            forall|j: int| 0 <= j < i ==> v@[j] != '\0',
        decreases v@.len() - i,
    {
        if v[i] == '\0' {
            return true;
        }
        i += 1;
    }
    false
}

fn any_nul(command: &Vec<String>) -> (r: bool)
    ensures
        r == exists|i: int|
            0 <= i < command@.len() && (#[trigger] texts(command@)[i]).contains('\0'),
{
    let mut i: usize = 0;
    while i < command.len()
        invariant
            i <= command@.len(),
            forall|j: int| 0 <= j < i ==> !(#[trigger] texts(command@)[j]).contains('\0'),
        decreases command@.len() - i,
    {
        proof {
            assert(texts(command@)[i as int] == command@[i as int]@);
        }
        if holds_nul(command[i].as_str()) {
            return true;
        }
        i += 1;
    }
    false
}

/// Build the action for a guest-agent command.
///
/// Separate from [`build_destroy_action`] because the parameters do not
/// overlap. Both produce the same action type, so approve and apply are shared.
pub fn build_exec_action(args: &PlanExecArgs) -> (r: Result<DestroyAction, String>)
    ensures
        action_result(r) == exec_action(args.cluster@, args.vmid, texts(args.command@)),
{
    if args.command.len() == 0 {
        return Err(EMPTY_COMMAND.to_owned());
    }
    if any_empty(&args.command) {
        return Err(EMPTY_ARGUMENT.to_owned());
    }
    if any_nul(&args.command) {
        return Err(NUL_IN_COMMAND.to_owned());
    }
    Ok(
        DestroyAction {
            op: "guest_exec".to_owned(),
            cluster: args.cluster.clone(),
            vmid: args.vmid,
            snapname: None,
            storage: None,
            volid: None,
            command: Some(copy_texts(args.command.as_slice())),
            storage_node: None,
        },
    )
}

// ---------------------------------------------------------------------------
// The scope an operation authorises against
// ---------------------------------------------------------------------------
/// The tool name an operation authorises against, for a guest of a type.
pub open spec fn op_tool(op: Seq<char>, kind: GuestType) -> Option<Seq<char>> {
    if is_destroy_op(op) {
        match kind {
            GuestType::Lxc => Some("delete_container"@),
            GuestType::Qemu => Some("delete_vm"@),
        }
    } else if is_snapshot_op(op) || is_volume_op(op) || op == "restore_backup"@ {
        Some(op)
    } else if op == "guest_exec"@ {
        Some("execute_vm_command"@)
    } else {
        None
    }
}

/// The concrete tool name a destructive operation authorises against.
///
/// The plan and apply tools are generic. Authorising only those would let a
/// token allowlisted for them select any operation, so the operation maps to
/// its own tool name and that scope is enforced too, at plan and again at
/// apply.
///
/// `destroy_guest` maps by the *resolved* guest type, because `delete_vm` and
/// `delete_container` are distinct scopes.
pub fn tool_for_op(op: &str, kind: GuestType) -> (r: Option<&'static str>)
    ensures
        crate::text::str_option(r) == op_tool(op@, kind),
{
    if same_text(op, "destroy_guest") || same_text(op, "destroy") {
        Some(
            match kind {
                GuestType::Lxc => "delete_container",
                GuestType::Qemu => "delete_vm",
            },
        )
    } else if same_text(op, "delete_snapshot") {
        Some("delete_snapshot")
    } else if same_text(op, "rollback_snapshot") {
        Some("rollback_snapshot")
    } else if same_text(op, "delete_backup") {
        Some("delete_backup")
    } else if same_text(op, "delete_iso") {
        Some("delete_iso")
    } else if same_text(op, "restore_backup") {
        Some("restore_backup")
    } else if same_text(op, "guest_exec") {
        Some("execute_vm_command")
    } else {
        None
    }
}

// ---------------------------------------------------------------------------
// What an approver reads
// ---------------------------------------------------------------------------
/// How Rust's `Debug` writes a string: quoted and escaped.
pub uninterp spec fn debug_quoted(word: Seq<char>) -> Seq<char>;

/// `format!("{:?}")` of a string. The text depends on the string alone and goes
/// by the name [`debug_quoted`].
#[verifier::external_body]
fn quote(word: &str) -> (r: String)
    ensures
        r@ == debug_quoted(word@),
{
    format!("{word:?}")
}

/// Each word of a command on a line of its own, quoted.
pub open spec fn argv_lines(command: Seq<Seq<char>>) -> Seq<Seq<char>> {
    command.map_values(|word: Seq<char>| "    "@ + debug_quoted(word))
}

/// The lines of an optional command.
pub open spec fn argv_text(command: Option<Seq<Seq<char>>>) -> Seq<char> {
    match command {
        Some(words) => join(argv_lines(words), "\n"@),
        None => Seq::empty(),
    }
}

/// A parameter in a preview, `?` where it is absent.
pub open spec fn shown(value: Option<Seq<char>>) -> Seq<char> {
    match value {
        Some(text) => text,
        None => "?"@,
    }
}

/// The guest an action names.
pub open spec fn target_text(action: ActionView, guest_name: Seq<char>, node: Seq<char>) -> Seq<
    char,
> {
    guest_name + " (vmid "@ + decimal(action.vmid as nat) + ", "@ + action.cluster + ", node "@
        + node + ")"@
}

/// The description of an action, by its operation.
pub open spec fn destructive_preview(
    action: ActionView,
    guest_name: Seq<char>,
    node: Seq<char>,
) -> Seq<char> {
    let target = target_text(action, guest_name, node);
    if is_destroy_op(action.op) {
        "DESTROY "@ + target
            + "\n  The guest and its disks are removed. This cannot be undone."@
    } else if action.op == "delete_snapshot"@ {
        "DELETE SNAPSHOT '"@ + shown(action.snapname) + "' of "@ + target
            + "\n  The snapshot is removed. The guest is untouched."@
    } else if action.op == "rollback_snapshot"@ {
        "ROLLBACK "@ + target + " to snapshot '"@ + shown(action.snapname)
            + "'\n  OVERWRITES the guest's current state. Everything written since that snapshot is lost. This is not a deletion — it is a replacement."@
    } else if action.op == "delete_backup"@ {
        "DELETE BACKUP '"@ + shown(action.volid) + "' on storage '"@ + shown(action.storage)
            + "' at node '"@ + shown(action.storage_node)
            + "'\n  The archive is removed. A backup cannot be re-created from the guest as it was when the backup was taken."@
    } else if action.op == "delete_iso"@ {
        "DELETE ISO '"@ + shown(action.volid) + "' on storage '"@ + shown(action.storage)
            + "' at node '"@ + shown(action.storage_node)
            + "'\n  The image is removed. It can be downloaded again."@
    } else if action.op == "restore_backup"@ {
        "RESTORE "@ + target + " from '"@ + shown(action.volid)
            + "'\n  OVERWRITES the guest with the archive's contents. Unlike a rollback there is no snapshot of the pre-restore state unless one was taken."@
    } else if action.op == "guest_exec"@ {
        "RUN COMMAND in "@ + target
            + "\n  Executed by the QEMU guest agent as its user, normally root. There is no shell: these arguments are passed through as given.\n"@
            + argv_text(action.command)
    } else {
        "UNKNOWN OPERATION '"@ + action.op + "' on "@ + target
    }
}

fn show(value: &Option<String>) -> (r: String)
    ensures
        r@ == shown(text_option(*value)),
{
    match value {
        Some(text) => text.clone(),
        None => "?".to_owned(),
    }
}

fn render_argv(command: &Option<Vec<String>>) -> (r: String)
    ensures
        r@ == argv_text(command_option(*command)),
{
    match command {
        None => String::new(),
        Some(words) => {
            let ghost all = argv_lines(texts(words@));
            let mut lines: Vec<String> = Vec::new();
            let mut i: usize = 0;
            proof {
                assert(texts(lines@) =~= all.take(0));
            }
            while i < words.len()
                invariant
                    i <= words@.len(),
                    all == argv_lines(texts(words@)),
                    texts(lines@) == all.take(i as int),
                decreases words@.len() - i,
            {
                let mut line = "    ".to_owned();
                line.append(quote(words[i].as_str()).as_str());
                proof {
                    lemma_texts_push(lines@, line);
                    assert(all[i as int] == line@);
                    assert(all.take(i as int + 1) =~= all.take(i as int).push(line@));
                }
                lines.push(line);
                i += 1;
            }
            proof {
                assert(all.take(i as int) =~= all);
            }
            join_texts(&lines, "\n")
        },
    }
}

fn render_target(action: &DestroyAction, guest_name: &str, node: &str) -> (r: String)
    ensures
        r@ == target_text(action@, guest_name@, node@),
{
    let mut out = guest_name.to_owned();
    out.append(" (vmid ");
    out.append(decimal_text(action.vmid as u64).as_str());
    out.append(", ");
    out.append(action.cluster.as_str());
    out.append(", node ");
    out.append(node);
    out.append(")");
    out
}

fn render_volume(head: &str, action: &DestroyAction, tail: &str) -> (r: String)
    ensures
        r@ == head@ + shown(action@.volid) + "' on storage '"@ + shown(action@.storage)
            + "' at node '"@ + shown(action@.storage_node) + tail@,
{
    let mut out = head.to_owned();
    out.append(show(&action.volid).as_str());
    out.append("' on storage '");
    out.append(show(&action.storage).as_str());
    out.append("' at node '");
    out.append(show(&action.storage_node).as_str());
    out.append(tail);
    out
}

/// Render the preview an approver reviews for one destructive action.
///
/// Operation-specific by necessity: an approver must not be asked to sign off
/// on something other than what would run.
pub fn render_destructive_preview(action: &DestroyAction, guest_name: &str, node: &str) -> (r:
    String)
    ensures
        r@ == destructive_preview(action@, guest_name@, node@),
{
    let target = render_target(action, guest_name, node);
    let op = action.op.as_str();
    if same_text(op, "destroy_guest") || same_text(op, "destroy") {
        let mut out = "DESTROY ".to_owned();
        out.append(target.as_str());
        out.append("\n  The guest and its disks are removed. This cannot be undone.");
        out
    } else if same_text(op, "delete_snapshot") {
        let mut out = "DELETE SNAPSHOT '".to_owned();
        out.append(show(&action.snapname).as_str());
        out.append("' of ");
        out.append(target.as_str());
        out.append("\n  The snapshot is removed. The guest is untouched.");
        out
    } else if same_text(op, "rollback_snapshot") {
        let mut out = "ROLLBACK ".to_owned();
        out.append(target.as_str());
        out.append(" to snapshot '");
        out.append(show(&action.snapname).as_str());
        out.append(
            "'\n  OVERWRITES the guest's current state. Everything written since that snapshot is lost. This is not a deletion — it is a replacement.",
        );
        out
    } else if same_text(op, "delete_backup") {
        render_volume(
            "DELETE BACKUP '",
            action,
            "'\n  The archive is removed. A backup cannot be re-created from the guest as it was when the backup was taken.",
        )
    } else if same_text(op, "delete_iso") {
        render_volume(
            "DELETE ISO '",
            action,
            "'\n  The image is removed. It can be downloaded again.",
        )
    } else if same_text(op, "restore_backup") {
        let mut out = "RESTORE ".to_owned();
        out.append(target.as_str());
        out.append(" from '");
        out.append(show(&action.volid).as_str());
        out.append(
            "'\n  OVERWRITES the guest with the archive's contents. Unlike a rollback there is no snapshot of the pre-restore state unless one was taken.",
        );
        out
    } else if same_text(op, "guest_exec") {
        let mut out = "RUN COMMAND in ".to_owned();
        out.append(target.as_str());
        out.append(
            "\n  Executed by the QEMU guest agent as its user, normally root. There is no shell: these arguments are passed through as given.\n",
        );
        out.append(render_argv(&action.command).as_str());
        out
    } else {
        let mut out = "UNKNOWN OPERATION '".to_owned();
        out.append(op);
        out.append("' on ");
        out.append(target.as_str());
        out
    }
}

// ---------------------------------------------------------------------------
// What holds of every action
// ---------------------------------------------------------------------------
/// Whether a parameter is given and not empty.
pub open spec fn is_given(value: Option<Seq<char>>) -> bool {
    value is Some && value->0.len() > 0
}

/// What tells the operations apart.
proof fn lemma_operation_names()
    ensures
        "destroy"@.len() == 7,
        "destroy_guest"@.len() == 13 && "destroy_guest"@[2] == 's',
        "delete_snapshot"@.len() == 15,
        "rollback_snapshot"@.len() == 17,
        "delete_backup"@.len() == 13 && "delete_backup"@[2] == 'l',
        "delete_iso"@.len() == 10 && "delete_iso"@[0] == 'd',
        "restore_backup"@.len() == 14,
        "guest_exec"@.len() == 10 && "guest_exec"@[0] == 'g',
        "delete_vm"@.len() == 9,
        "delete_container"@.len() == 16,
        "execute_vm_command"@.len() == 18,
{
    reveal_strlit("destroy");
    reveal_strlit("destroy_guest");
    reveal_strlit("delete_snapshot");
    reveal_strlit("rollback_snapshot");
    reveal_strlit("delete_backup");
    reveal_strlit("delete_iso");
    reveal_strlit("restore_backup");
    reveal_strlit("guest_exec");
    reveal_strlit("delete_vm");
    reveal_strlit("delete_container");
    reveal_strlit("execute_vm_command");
}

/// A plan records the operation that was asked for: the operation, the cluster
/// and the vmid are those of the arguments, each parameter the operation takes
/// is the one given, and no parameter is recorded that it does not take.
pub proof fn law_a_plan_records_what_was_asked(args: PlanView)
    requires
        planned_action(args) is Ok,
    ensures
        ({
            let action = planned_action(args)->Ok_0;
            &&& action.op == args.op
            &&& action.cluster == args.cluster
            &&& action.vmid == args.vmid
            &&& action.command is None
            &&& args.op == "destroy_guest"@ || args.op == "delete_snapshot"@ || args.op
                == "rollback_snapshot"@ || args.op == "delete_backup"@ || args.op == "delete_iso"@
                || args.op == "restore_backup"@
            &&& if args.op == "delete_snapshot"@ || args.op == "rollback_snapshot"@ {
                action.snapname == args.snapname && is_given(args.snapname)
            } else {
                action.snapname is None
            }
            &&& if args.op == "delete_backup"@ || args.op == "delete_iso"@ {
                &&& action.storage == args.storage && is_given(args.storage)
                &&& action.storage_node == args.storage_node && is_given(args.storage_node)
            } else {
                action.storage is None && action.storage_node is None
            }
            &&& if args.op == "delete_backup"@ || args.op == "delete_iso"@ || args.op
                == "restore_backup"@ {
                action.volid == args.volid && is_given(args.volid)
            } else {
                action.volid is None
            }
        }),
{
    lemma_operation_names();
}

/// A plan is refused for nothing but an operation that is not known or a
/// parameter that is missing, and the refusal names the operation and the
/// parameter.
pub proof fn law_a_plan_is_refused_for_what_is_missing(args: PlanView)
    ensures
        args.op == "destroy_guest"@ ==> planned_action(args) is Ok,
        args.op == "delete_snapshot"@ || args.op == "rollback_snapshot"@ ==> (planned_action(
            args,
        ) is Ok <==> is_given(args.snapname)) && (planned_action(args) matches Err(text) ==> text
            == args.op + " requires "@ + "snapname"@),
        args.op == "delete_backup"@ || args.op == "delete_iso"@ ==> (planned_action(args) is Ok
            <==> is_given(args.storage_node) && is_given(args.storage) && is_given(args.volid)) && (
        planned_action(args) matches Err(text) ==> text == args.op + " requires "@ + (if !is_given(
            args.storage_node,
        ) {
            "storage_node"@
        } else if !is_given(args.storage) {
            "storage"@
        } else {
            "volid"@
        })),
        args.op == "restore_backup"@ ==> (planned_action(args) is Ok <==> is_given(args.volid)) && (
        planned_action(args) matches Err(text) ==> text == args.op + " requires "@ + "volid"@),
{
    lemma_operation_names();
}

/// A command plan records the words that were given, in order, and is refused
/// exactly when there is no word, an empty one, or one with a NUL in it.
pub proof fn law_a_command_plan_records_its_words(
    cluster: Seq<char>,
    vmid: u32,
    command: Seq<Seq<char>>,
)
    ensures
        exec_action(cluster, vmid, command) is Ok <==> command.len() > 0 && forall|i: int|
            0 <= i < command.len() ==> (#[trigger] command[i]).len() > 0 && !command[i].contains(
                '\0',
            ),
        exec_action(cluster, vmid, command) matches Ok(action) ==> {
            &&& action.op == "guest_exec"@
            &&& action.cluster == cluster
            &&& action.vmid == vmid
            &&& action.command == Some(command)
            &&& action.snapname is None && action.storage is None && action.volid is None
            &&& action.storage_node is None
        },
{
}

/// Every operation authorizes against a scope of its own. A destruction needs
/// the scope of the guest's type, a command the scope of commands, and every
/// other operation the scope of its own name; no two of them share one but the
/// two spellings of a destruction.
pub proof fn law_each_operation_has_its_own_scope(op: Seq<char>, other: Seq<char>, kind: GuestType)
    ensures
        op == "destroy_guest"@ || op == "destroy"@ ==> op_tool(op, kind) == Some(
            if kind == GuestType::Qemu {
                "delete_vm"@
            } else {
                "delete_container"@
            },
        ),
        op == "guest_exec"@ ==> op_tool(op, kind) == Some("execute_vm_command"@),
        op == "delete_snapshot"@ || op == "rollback_snapshot"@ || op == "delete_backup"@ || op
            == "delete_iso"@ || op == "restore_backup"@ <==> op_tool(op, kind) == Some(op),
        op_tool(op, kind) is Some <==> op == "destroy_guest"@ || op == "destroy"@ || op
            == "delete_snapshot"@ || op == "rollback_snapshot"@ || op == "delete_backup"@ || op
            == "delete_iso"@ || op == "restore_backup"@ || op == "guest_exec"@,
        op_tool(op, kind) is Some && op_tool(op, kind) == op_tool(other, kind) ==> op == other || (
        is_destroy_op(op) && is_destroy_op(other)),
{
    lemma_operation_names();
}

/// What an approver reads of an operation on a guest names the guest, its vmid,
/// its cluster and its node.
pub proof fn law_a_preview_names_the_guest(
    action: ActionView,
    guest_name: Seq<char>,
    node: Seq<char>,
)
    requires
        !is_volume_op(action.op),
    ensures
        ({
            let preview = destructive_preview(action, guest_name, node);
            has_text(
                preview,
                guest_name + " (vmid "@ + decimal(action.vmid as nat) + ", "@ + action.cluster
                    + ", node "@ + node + ")"@,
            )
        }),
{
    lemma_operation_names();
    let preview = destructive_preview(action, guest_name, node);
    let target = target_text(action, guest_name, node);
    assert(exists|head: Seq<char>, tail: Seq<char>| preview == #[trigger] around(head, target, tail)) by {
        let op = action.op;
        let name = shown(action.snapname);
        let none = Seq::<char>::empty();
        if is_destroy_op(op) {
            assert(preview =~= around(
                "DESTROY "@,
                target,
                "\n  The guest and its disks are removed. This cannot be undone."@,
            ));
        } else if op == "delete_snapshot"@ {
            assert(preview =~= around(
                "DELETE SNAPSHOT '"@ + name + "' of "@,
                target,
                "\n  The snapshot is removed. The guest is untouched."@,
            ));
        } else if op == "rollback_snapshot"@ {
            assert(preview =~= around(
                "ROLLBACK "@,
                target,
                " to snapshot '"@ + name
                    + "'\n  OVERWRITES the guest's current state. Everything written since that snapshot is lost. This is not a deletion — it is a replacement."@,
            ));
        } else if op == "restore_backup"@ {
            assert(preview =~= around(
                "RESTORE "@,
                target,
                " from '"@ + shown(action.volid)
                    + "'\n  OVERWRITES the guest with the archive's contents. Unlike a rollback there is no snapshot of the pre-restore state unless one was taken."@,
            ));
        } else if op == "guest_exec"@ {
            assert(preview =~= around(
                "RUN COMMAND in "@,
                target,
                "\n  Executed by the QEMU guest agent as its user, normally root. There is no shell: these arguments are passed through as given.\n"@
                    + argv_text(action.command),
            ));
        } else {
            assert(preview =~= around("UNKNOWN OPERATION '"@ + op + "' on "@, target, none));
        }
    }
    let (head, tail) = choose|head: Seq<char>, tail: Seq<char>|
        preview == #[trigger] around(head, target, tail);
    lemma_has_middle(head, target, tail);
}

/// A text with another before it and one behind it.
spec fn around(head: Seq<char>, middle: Seq<char>, tail: Seq<char>) -> Seq<char> {
    head + middle + tail
}

proof fn lemma_prefix(head: Seq<char>, tail: Seq<char>)
    ensures
        head.is_prefix_of(head + tail),
{
    assert((head + tail).take(head.len() as int) =~= head);
}

proof fn lemma_long_prefix(head: Seq<char>, middle: Seq<char>, tail: Seq<char>)
    ensures
        head.is_prefix_of(head + middle + tail),
{
    assert((head + middle + tail).take(head.len() as int) =~= head);
}

/// The warning of what replaces a guest by a snapshot.
proof fn lemma_rollback_warns()
    ensures
        has_text(
            "'\n  OVERWRITES the guest's current state. Everything written since that snapshot is lost. This is not a deletion — it is a replacement."@,
            "OVERWRITES"@,
        ),
{
    reveal_strlit(
        "'\n  OVERWRITES the guest's current state. Everything written since that snapshot is lost. This is not a deletion — it is a replacement.",
    );
    reveal_strlit("OVERWRITES");
    let full =
        "'\n  OVERWRITES the guest's current state. Everything written since that snapshot is lost. This is not a deletion — it is a replacement."@;
    assert(full.subrange(4, 14) =~= "OVERWRITES"@);
    assert(occurs_at(full, "OVERWRITES"@, 4));
}

/// The warning of what replaces a guest by an archive.
proof fn lemma_restore_warns()
    ensures
        has_text(
            "'\n  OVERWRITES the guest with the archive's contents. Unlike a rollback there is no snapshot of the pre-restore state unless one was taken."@,
            "OVERWRITES"@,
        ),
{
    reveal_strlit(
        "'\n  OVERWRITES the guest with the archive's contents. Unlike a rollback there is no snapshot of the pre-restore state unless one was taken.",
    );
    reveal_strlit("OVERWRITES");
    let full =
        "'\n  OVERWRITES the guest with the archive's contents. Unlike a rollback there is no snapshot of the pre-restore state unless one was taken."@;
    assert(full.subrange(4, 14) =~= "OVERWRITES"@);
    assert(occurs_at(full, "OVERWRITES"@, 4));
}

/// What an approver reads of a snapshot operation says which it is and names
/// the snapshot. A rollback says that it overwrites.
pub proof fn law_a_preview_says_what_becomes_of_a_snapshot(
    action: ActionView,
    guest_name: Seq<char>,
    node: Seq<char>,
)
    ensures
        action.op == "delete_snapshot"@ ==> ("DELETE SNAPSHOT '"@ + shown(action.snapname)
            + "' of "@ + guest_name).is_prefix_of(destructive_preview(action, guest_name, node)),
        action.op == "rollback_snapshot"@ ==> {
            let preview = destructive_preview(action, guest_name, node);
            &&& ("ROLLBACK "@ + guest_name).is_prefix_of(preview)
            &&& has_text(preview, " to snapshot '"@ + shown(action.snapname))
            &&& has_text(preview, "OVERWRITES"@)
        },
{
    lemma_operation_names();
    let preview = destructive_preview(action, guest_name, node);
    let target = target_text(action, guest_name, node);
    let rest = " (vmid "@ + decimal(action.vmid as nat) + ", "@ + action.cluster + ", node "@ + node
        + ")"@;
    assert(target =~= guest_name + rest);
    if action.op == "delete_snapshot"@ {
        let head = "DELETE SNAPSHOT '"@ + shown(action.snapname) + "' of "@;
        let tail = "\n  The snapshot is removed. The guest is untouched."@;
        lemma_long_prefix(head + guest_name, rest, tail);
        assert(head + guest_name + rest + tail =~= head + target + tail);
    } else if action.op == "rollback_snapshot"@ {
        let warning =
            "'\n  OVERWRITES the guest's current state. Everything written since that snapshot is lost. This is not a deletion — it is a replacement."@;
        let part = " to snapshot '"@ + shown(action.snapname);
        let none = Seq::<char>::empty();
        lemma_rollback_warns();
        assert(preview =~= "ROLLBACK "@ + target + part + warning);
        lemma_has_middle("ROLLBACK "@ + target, part, warning);
        lemma_has_middle("ROLLBACK "@ + target + part, warning, none);
        assert("ROLLBACK "@ + target + part + warning + none =~= preview);
        lemma_has_inner(preview, warning, "OVERWRITES"@);
        lemma_long_prefix("ROLLBACK "@ + guest_name, rest, part + warning);
        assert("ROLLBACK "@ + guest_name + rest + (part + warning) =~= preview);
    }
}

/// What an approver reads of a volume operation says whether an archive or an
/// image is deleted, and names it with its storage and the storage's node.
pub proof fn law_a_preview_says_which_volume_goes(
    action: ActionView,
    guest_name: Seq<char>,
    node: Seq<char>,
)
    requires
        is_volume_op(action.op),
    ensures
        ((if action.op == "delete_backup"@ {
            "DELETE BACKUP '"@
        } else {
            "DELETE ISO '"@
        }) + shown(action.volid) + "' on storage '"@ + shown(action.storage) + "' at node '"@
            + shown(action.storage_node)).is_prefix_of(
            destructive_preview(action, guest_name, node),
        ),
{
    lemma_operation_names();
    let heading = if action.op == "delete_backup"@ {
        "DELETE BACKUP '"@
    } else {
        "DELETE ISO '"@
    };
    let head = heading + shown(action.volid) + "' on storage '"@ + shown(action.storage)
        + "' at node '"@ + shown(action.storage_node);
    if action.op == "delete_backup"@ {
        lemma_prefix(
            head,
            "'\n  The archive is removed. A backup cannot be re-created from the guest as it was when the backup was taken."@,
        );
    } else {
        lemma_prefix(head, "'\n  The image is removed. It can be downloaded again."@);
    }
}

/// What an approver reads of a restore names the guest and the archive, and
/// says that it overwrites; of a destruction, that it destroys the guest.
pub proof fn law_a_preview_says_what_becomes_of_the_guest(
    action: ActionView,
    guest_name: Seq<char>,
    node: Seq<char>,
)
    ensures
        is_destroy_op(action.op) ==> ("DESTROY "@ + guest_name).is_prefix_of(
            destructive_preview(action, guest_name, node),
        ),
        action.op == "restore_backup"@ ==> {
            let preview = destructive_preview(action, guest_name, node);
            &&& ("RESTORE "@ + guest_name).is_prefix_of(preview)
            &&& has_text(preview, " from '"@ + shown(action.volid))
            &&& has_text(preview, "OVERWRITES"@)
        },
{
    lemma_operation_names();
    let preview = destructive_preview(action, guest_name, node);
    let target = target_text(action, guest_name, node);
    let rest = " (vmid "@ + decimal(action.vmid as nat) + ", "@ + action.cluster + ", node "@ + node
        + ")"@;
    assert(target =~= guest_name + rest);
    if is_destroy_op(action.op) {
        let tail = "\n  The guest and its disks are removed. This cannot be undone."@;
        lemma_long_prefix("DESTROY "@ + guest_name, rest, tail);
        assert("DESTROY "@ + guest_name + rest + tail =~= "DESTROY "@ + target + tail);
    } else if action.op == "restore_backup"@ {
        let warning =
            "'\n  OVERWRITES the guest with the archive's contents. Unlike a rollback there is no snapshot of the pre-restore state unless one was taken."@;
        let part = " from '"@ + shown(action.volid);
        let none = Seq::<char>::empty();
        lemma_restore_warns();
        assert(preview =~= "RESTORE "@ + target + part + warning);
        lemma_has_middle("RESTORE "@ + target, part, warning);
        lemma_has_middle("RESTORE "@ + target + part, warning, none);
        assert("RESTORE "@ + target + part + warning + none =~= preview);
        lemma_has_inner(preview, warning, "OVERWRITES"@);
        lemma_long_prefix("RESTORE "@ + guest_name, rest, part + warning);
        assert("RESTORE "@ + guest_name + rest + (part + warning) =~= preview);
    }
}

/// What an approver reads of a command names the guest and shows every word of
/// the command, quoted, one to a line and in order.
pub proof fn law_a_preview_shows_every_word(
    action: ActionView,
    guest_name: Seq<char>,
    node: Seq<char>,
    words: Seq<Seq<char>>,
)
    requires
        action.op == "guest_exec"@,
        action.command == Some(words),
    ensures
        ("RUN COMMAND in "@ + guest_name).is_prefix_of(
            destructive_preview(action, guest_name, node),
        ),
        argv_lines(words).len() == words.len(),
        forall|i: int|
            0 <= i < words.len() ==> #[trigger] argv_lines(words)[i] == "    "@ + debug_quoted(
                words[i],
            ),
        exists|head: Seq<char>|
            destructive_preview(action, guest_name, node) == #[trigger] (head + join(
                argv_lines(words),
                "\n"@,
            )),
        forall|i: int|
            0 <= i < words.len() ==> has_text(
                destructive_preview(action, guest_name, node),
                debug_quoted(#[trigger] words[i]),
            ),
{
    lemma_operation_names();
    let preview = destructive_preview(action, guest_name, node);
    let target = target_text(action, guest_name, node);
    let rest = " (vmid "@ + decimal(action.vmid as nat) + ", "@ + action.cluster + ", node "@ + node
        + ")"@;
    let note =
        "\n  Executed by the QEMU guest agent as its user, normally root. There is no shell: these arguments are passed through as given.\n"@;
    let none = Seq::<char>::empty();
    let lines = argv_lines(words);
    let text = join(lines, "\n"@);
    let head = "RUN COMMAND in "@ + target + note;
    assert(preview == head + text);
    assert(target =~= guest_name + rest);
    lemma_long_prefix("RUN COMMAND in "@ + guest_name, rest, note + text);
    assert("RUN COMMAND in "@ + guest_name + rest + (note + text) =~= preview);
    lemma_has_middle(head, text, none);
    assert(head + text + none =~= preview);
    assert forall|i: int| 0 <= i < words.len() implies has_text(
        preview,
        debug_quoted(#[trigger] words[i]),
    ) by {
        lemma_join_has_parts(lines, "\n"@, i);
        lemma_has_middle("    "@, debug_quoted(words[i]), none);
        assert("    "@ + debug_quoted(words[i]) + none =~= lines[i]);
        lemma_has_inner(text, lines[i], debug_quoted(words[i]));
        lemma_has_inner(preview, text, debug_quoted(words[i]));
    }
}

/// A command that is refused is told its fault: that it has no word, an empty
/// one, or a NUL in one.
pub proof fn law_a_refused_command_is_told_its_fault(
    cluster: Seq<char>,
    vmid: u32,
    command: Seq<Seq<char>>,
    i: int,
)
    ensures
        command.len() == 0 ==> exec_action(cluster, vmid, command) == Err::<ActionView, Seq<char>>(
            EMPTY_COMMAND@,
        ),
        0 <= i < command.len() && command[i].len() == 0 ==> exec_action(cluster, vmid, command)
            == Err::<ActionView, Seq<char>>(EMPTY_ARGUMENT@),
        0 <= i < command.len() && command[i].contains('\0') && (forall|j: int|
            0 <= j < command.len() ==> (#[trigger] command[j]).len() > 0) ==> exec_action(
            cluster,
            vmid,
            command,
        ) == Err::<ActionView, Seq<char>>(NUL_IN_COMMAND@),
{
    if 0 <= i < command.len() && command[i].len() == 0 {
        assert(exists|k: int| 0 <= k < command.len() && (#[trigger] command[k]).len() == 0);
    }
}

/// An operation that no plan knows is refused by name.
pub proof fn law_an_unknown_operation_is_refused_by_name(args: PlanView)
    requires
        args.op != "destroy_guest"@ && args.op != "delete_snapshot"@ && args.op
            != "rollback_snapshot"@ && args.op != "delete_backup"@ && args.op != "delete_iso"@
            && args.op != "restore_backup"@,
    ensures
        planned_action(args) matches Err(text) && has_text(text, args.op),
{
    lemma_has_middle(
        "unknown destructive operation '"@,
        args.op,
        "'; expected one of destroy_guest, delete_snapshot, rollback_snapshot, delete_backup, delete_iso, restore_backup"@,
    );
}

} // verus!
