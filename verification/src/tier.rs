//! Action-class tiering.
//!
//! Tier is a property of the tool, declared once here, and it selects the code
//! path. It is never a value a caller passes: a `force: true` argument is not a
//! guardrail, because a sufficiently confident caller sets it.
//!
//! A tool wildcard in a token's scope does not reach [`WRITE_TOOLS`], so the
//! table is the only thing standing between a `"tools": ["*"]` token and write
//! authority.
use vstd::prelude::*;

use crate::catalog::{is_read_tool, read_tool};
use crate::grant::ProxmoxAction;
use crate::text::{in_table, listed, same_text};

verus! {

/// Action class of a tool.
///
/// The boundary is **data loss, not disruption**: a stop is `Low` because it
/// destroys nothing, even though it takes a guest out of service. Whether a
/// tool interrupts service is a separate question, answered by
/// [`interrupts_service`], because the two drive different controls: the tier
/// drives the grant action, interruption drives protection.
#[derive(Debug, Clone, Copy, PartialEq, Eq, Structural)]
pub enum Tier {
    /// Observation only.
    Read,
    /// Disruptive but reversible.
    Low,
    /// Irreversible.
    Destructive,
}

impl Tier {
    /// The grant action a tier requires.
    pub open spec fn required(self) -> ProxmoxAction {
        match self {
            Tier::Read => ProxmoxAction::Read,
            Tier::Low => ProxmoxAction::Low,
            Tier::Destructive => ProxmoxAction::Destructive,
        }
    }

    /// The grant action this tier requires.
    #[must_use]
    pub fn action(self) -> (r: ProxmoxAction)
        ensures
            r == self.required(),
    {
        match self {
            Tier::Read => ProxmoxAction::Read,
            Tier::Low => ProxmoxAction::Low,
            Tier::Destructive => ProxmoxAction::Destructive,
        }
    }

    /// The tier's name in a refusal.
    pub open spec fn name_text(self) -> Seq<char> {
        match self {
            Tier::Read => "Read"@,
            Tier::Low => "Low"@,
            Tier::Destructive => "Destructive"@,
        }
    }

    /// The tier's name in a refusal.
    pub fn name(self) -> (r: &'static str)
        ensures
            r@ == self.name_text(),
    {
        match self {
            Tier::Read => "Read",
            Tier::Low => "Low",
            Tier::Destructive => "Destructive",
        }
    }
}

/// Low-tier tools that take a running guest out of service.
///
/// Reversible, and `Low` by action (nothing is destroyed), but a protected
/// guest must not be taken down by a routine call, so these respect protection
/// exactly as a destructive call does and need the same waiver or lab mode.
///
/// The complement matters as much as the list: `start_vm`, `create_snapshot`
/// and `create_backup` *add* something and stay safe on a protected guest.
pub const INTERRUPTING_TOOLS: [&'static str; 7] = [
    "reset_vm",
    "restart_container",
    "shutdown_vm",
    "stop_container",
    "stop_task",
    "stop_vm",
    "update_container_resources",
];

/// Tools excluded from a wildcard tool scope.
pub const WRITE_TOOLS: [&'static str; 28] = [
    // low
    "approve_proxmox_change_set",
    "clone_vm",
    "create_backup",
    "create_container",
    "create_snapshot",
    "create_vm",
    "download_iso",
    "plan_proxmox_destroy",
    "plan_proxmox_exec",
    "reset_vm",
    "restart_container",
    "shutdown_vm",
    "start_container",
    "start_vm",
    "stop_container",
    "stop_task",
    "stop_vm",
    "update_container_resources",
    // low; a call that does not clearly grow the disk is refused
    "resize_disk",
    // destructive
    "apply_proxmox_change_set",
    "delete_backup",
    "delete_container",
    "delete_iso",
    "delete_snapshot",
    "delete_vm",
    "restore_backup",
    "rollback_snapshot",
    // kept last: runs a command inside a guest
    "execute_vm_command",
];

/// Tools whose tier is `Destructive`.
pub const DESTRUCTIVE_TOOLS: [&'static str; 9] = [
    "apply_proxmox_change_set",
    "delete_backup",
    "delete_container",
    "delete_iso",
    "delete_snapshot",
    "delete_vm",
    "execute_vm_command",
    "restore_backup",
    "rollback_snapshot",
];

/// Whether a tool takes a running guest out of service.
pub open spec fn interrupts(tool: Seq<char>) -> bool {
    listed(INTERRUPTING_TOOLS@, tool)
}

/// The tier of a tool, for a tool this server registers.
pub open spec fn tier(tool: Seq<char>) -> Option<Tier> {
    if listed(DESTRUCTIVE_TOOLS@, tool) {
        Some(Tier::Destructive)
    } else if listed(WRITE_TOOLS@, tool) {
        Some(Tier::Low)
    } else if tool == "get_proxmox_change_set"@ || is_read_tool(tool) {
        Some(Tier::Read)
    } else {
        None
    }
}

/// Whether a tool takes a running guest out of service.
///
/// A destructive tool is not listed here (it is held back by its tier), so
/// this answers only the low-tier question.
#[must_use]
pub fn interrupts_service(tool: &str) -> (r: bool)
    ensures
        r == interrupts(tool@),
{
    in_table(INTERRUPTING_TOOLS.as_slice(), tool)
}

/// Classify a tool.
///
/// Returns `None` for a name this server does not register. An unknown tool is
/// unclassified rather than defaulted to [`Tier::Read`]; defaulting would make
/// a future tool readable by omission.
///
/// `resize_disk` reports [`Tier::Low`]: a tool's tier cannot depend on an
/// argument, and a size that does not clearly grow the disk is refused at the
/// call.
#[must_use]
pub fn tier_of(tool: &str) -> (r: Option<Tier>)
    ensures
        r == tier(tool@),
{
    if in_table(DESTRUCTIVE_TOOLS.as_slice(), tool) {
        return Some(Tier::Destructive);
    }
    if in_table(WRITE_TOOLS.as_slice(), tool) {
        return Some(Tier::Low);
    }
    // Change-set inspection reads no Proxmox endpoint, so it has no catalog entry.
    if same_text(tool, "get_proxmox_change_set") {
        return Some(Tier::Read);
    }
    match read_tool(tool) {
        Some(_) => Some(Tier::Read),
        None => None,
    }
}

// ---------------------------------------------------------------------------
// What holds of every tool
// ---------------------------------------------------------------------------
/// The first letter tells a read tool from a write tool.
proof fn lemma_first_letters(tool: Seq<char>)
    ensures
        is_read_tool(tool) ==> tool.len() > 0 && (tool[0] == 'g' || tool[0] == 'l'),
        listed(WRITE_TOOLS@, tool) ==> tool.len() > 0 && tool[0] != 'g' && tool[0] != 'l',
        listed(DESTRUCTIVE_TOOLS@, tool) ==> listed(WRITE_TOOLS@, tool),
{
    reveal_strlit("get_cluster_status");
    reveal_strlit("get_nodes");
    reveal_strlit("get_node_status");
    reveal_strlit("get_vms");
    reveal_strlit("get_containers");
    reveal_strlit("get_vm_config");
    reveal_strlit("get_container_config");
    reveal_strlit("get_container_ip");
    reveal_strlit("get_guest_status");
    reveal_strlit("list_snapshots");
    reveal_strlit("get_storage");
    reveal_strlit("list_backups");
    reveal_strlit("list_isos");
    reveal_strlit("list_templates");
    reveal_strlit("list_tasks");
    reveal_strlit("get_task_status");
    reveal_strlit("approve_proxmox_change_set");
    reveal_strlit("clone_vm");
    reveal_strlit("create_backup");
    reveal_strlit("create_container");
    reveal_strlit("create_snapshot");
    reveal_strlit("create_vm");
    reveal_strlit("download_iso");
    reveal_strlit("plan_proxmox_destroy");
    reveal_strlit("plan_proxmox_exec");
    reveal_strlit("reset_vm");
    reveal_strlit("restart_container");
    reveal_strlit("shutdown_vm");
    reveal_strlit("start_container");
    reveal_strlit("start_vm");
    reveal_strlit("stop_container");
    reveal_strlit("stop_task");
    reveal_strlit("stop_vm");
    reveal_strlit("update_container_resources");
    reveal_strlit("resize_disk");
    reveal_strlit("apply_proxmox_change_set");
    reveal_strlit("delete_backup");
    reveal_strlit("delete_container");
    reveal_strlit("delete_iso");
    reveal_strlit("delete_snapshot");
    reveal_strlit("delete_vm");
    reveal_strlit("restore_backup");
    reveal_strlit("rollback_snapshot");
    reveal_strlit("execute_vm_command");
    if is_read_tool(tool) {
        let t = crate::catalog::READ_TOOL_NAMES@;
        let i = choose|i: int| 0 <= i < t.len() && #[trigger] t[i]@ == tool;
        assert(i == 0 || i == 1 || i == 2 || i == 3 || i == 4 || i == 5 || i == 6 || i == 7 || i == 8 || i == 9 || i == 10 || i == 11 || i == 12 || i == 13 || i == 14 || i == 15);
    }
    if listed(WRITE_TOOLS@, tool) {
        let t = WRITE_TOOLS@;
        let i = choose|i: int| 0 <= i < t.len() && #[trigger] t[i]@ == tool;
        assert(i == 0 || i == 1 || i == 2 || i == 3 || i == 4 || i == 5 || i == 6 || i == 7 || i == 8 || i == 9 || i == 10 || i == 11 || i == 12 || i == 13 || i == 14 || i == 15 || i == 16 || i == 17 || i == 18 || i == 19 || i == 20 || i == 21 || i == 22 || i == 23 || i == 24 || i == 25 || i == 26 || i == 27);
    }
    if listed(DESTRUCTIVE_TOOLS@, tool) {
        let t = DESTRUCTIVE_TOOLS@;
        let i = choose|i: int| 0 <= i < t.len() && #[trigger] t[i]@ == tool;
        assert(i == 0 || i == 1 || i == 2 || i == 3 || i == 4 || i == 5 || i == 6 || i == 7 || i == 8);
        assert(WRITE_TOOLS@[19]@ == "apply_proxmox_change_set"@);
        assert(WRITE_TOOLS@[20]@ == "delete_backup"@);
        assert(WRITE_TOOLS@[21]@ == "delete_container"@);
        assert(WRITE_TOOLS@[22]@ == "delete_iso"@);
        assert(WRITE_TOOLS@[23]@ == "delete_snapshot"@);
        assert(WRITE_TOOLS@[24]@ == "delete_vm"@);
        assert(WRITE_TOOLS@[27]@ == "execute_vm_command"@);
        assert(WRITE_TOOLS@[25]@ == "restore_backup"@);
        assert(WRITE_TOOLS@[26]@ == "rollback_snapshot"@);
    }
}

/// No read tool is in the write registry, so the wildcard reaches every one;
/// and each classifies as a read.
pub proof fn law_read_tools_are_reads(tool: Seq<char>)
    requires
        is_read_tool(tool),
    ensures
        !listed(WRITE_TOOLS@, tool),
        tier(tool) == Some(Tier::Read),
{
    lemma_first_letters(tool);
}

/// Every tool of the write registry classifies as low or destructive, and
/// every tool that does so is in the registry: a wildcard tool scope reaches
/// no mutating tool.
pub proof fn law_write_registry_is_complete(tool: Seq<char>)
    ensures
        listed(WRITE_TOOLS@, tool) <==> tier(tool) == Some(Tier::Low) || tier(tool) == Some(
            Tier::Destructive,
        ),
{
    lemma_first_letters(tool);
}

/// A tool that interrupts service is a low-tier tool: a destructive one is
/// held back by its tier, and no read interrupts.
pub proof fn law_interrupting_tools_are_low(tool: Seq<char>)
    requires
        interrupts(tool),
    ensures
        tier(tool) == Some(Tier::Low),
{
    reveal_strlit("reset_vm");
    reveal_strlit("restart_container");
    reveal_strlit("shutdown_vm");
    reveal_strlit("stop_container");
    reveal_strlit("stop_task");
    reveal_strlit("stop_vm");
    reveal_strlit("update_container_resources");
    reveal_strlit("apply_proxmox_change_set");
    reveal_strlit("delete_backup");
    reveal_strlit("delete_container");
    reveal_strlit("delete_iso");
    reveal_strlit("delete_snapshot");
    reveal_strlit("delete_vm");
    reveal_strlit("execute_vm_command");
    reveal_strlit("restore_backup");
    reveal_strlit("rollback_snapshot");
    let t = INTERRUPTING_TOOLS@;
    let i = choose|i: int| 0 <= i < t.len() && #[trigger] t[i]@ == tool;
    assert(i == 0 || i == 1 || i == 2 || i == 3 || i == 4 || i == 5 || i == 6);
    let w = WRITE_TOOLS@;
    assert(w[9]@ == "reset_vm"@);
    assert(w[10]@ == "restart_container"@);
    assert(w[11]@ == "shutdown_vm"@);
    assert(w[14]@ == "stop_container"@);
    assert(w[15]@ == "stop_task"@);
    assert(w[16]@ == "stop_vm"@);
    assert(w[17]@ == "update_container_resources"@);
    if listed(DESTRUCTIVE_TOOLS@, tool) {
        let d = DESTRUCTIVE_TOOLS@;
        let j = choose|j: int| 0 <= j < d.len() && #[trigger] d[j]@ == tool;
        assert(j == 0 || j == 1 || j == 2 || j == 3 || j == 4 || j == 5 || j == 6 || j == 7 || j == 8);
        assert(tool[1] == d[j]@[1]);
        assert(tool.len() == d[j]@.len());
    }
}

/// A tier needs the action of its own name, and no other tier needs it.
pub proof fn law_a_tier_needs_its_own_action(tier: Tier)
    ensures
        tier.required() == ProxmoxAction::Read <==> tier == Tier::Read,
        tier.required() == ProxmoxAction::Low <==> tier == Tier::Low,
        tier.required() == ProxmoxAction::Destructive <==> tier == Tier::Destructive,
        tier == Tier::Read ==> tier.name_text() == "Read"@,
        tier == Tier::Low ==> tier.name_text() == "Low"@,
        tier == Tier::Destructive ==> tier.name_text() == "Destructive"@,
{
}

/// What takes a running guest out of service: stopping, shutting down,
/// resetting or restarting it, stopping its work, and changing what it runs on.
/// Nothing else does.
pub proof fn law_what_interrupts_service(tool: Seq<char>)
    ensures
        interrupts(tool) <==> tool == "reset_vm"@ || tool == "restart_container"@ || tool
            == "shutdown_vm"@ || tool == "stop_container"@ || tool == "stop_task"@ || tool
            == "stop_vm"@ || tool == "update_container_resources"@,
{
    let t = INTERRUPTING_TOOLS@;
    assert(t[0]@ == "reset_vm"@);
    assert(t[1]@ == "restart_container"@);
    assert(t[2]@ == "shutdown_vm"@);
    assert(t[3]@ == "stop_container"@);
    assert(t[4]@ == "stop_task"@);
    assert(t[5]@ == "stop_vm"@);
    assert(t[6]@ == "update_container_resources"@);
    if interrupts(tool) {
        let i = choose|i: int| 0 <= i < t.len() && #[trigger] t[i]@ == tool;
        assert(i == 0 || i == 1 || i == 2 || i == 3 || i == 4 || i == 5 || i == 6);
    }
}

/// What cannot be undone: deleting a guest, a snapshot, a backup or an image,
/// rolling back, restoring over, running a command, and applying a change set.
/// Nothing else is of the destructive tier.
pub proof fn law_what_cannot_be_undone(tool: Seq<char>)
    ensures
        tier(tool) == Some(Tier::Destructive) <==> tool == "apply_proxmox_change_set"@ || tool
            == "delete_backup"@ || tool == "delete_container"@ || tool == "delete_iso"@ || tool
            == "delete_snapshot"@ || tool == "delete_vm"@ || tool == "execute_vm_command"@ || tool
            == "restore_backup"@ || tool == "rollback_snapshot"@,
{
    let t = DESTRUCTIVE_TOOLS@;
    assert(t[0]@ == "apply_proxmox_change_set"@);
    assert(t[1]@ == "delete_backup"@);
    assert(t[2]@ == "delete_container"@);
    assert(t[3]@ == "delete_iso"@);
    assert(t[4]@ == "delete_snapshot"@);
    assert(t[5]@ == "delete_vm"@);
    assert(t[6]@ == "execute_vm_command"@);
    assert(t[7]@ == "restore_backup"@);
    assert(t[8]@ == "rollback_snapshot"@);
    if listed(DESTRUCTIVE_TOOLS@, tool) {
        let i = choose|i: int| 0 <= i < t.len() && #[trigger] t[i]@ == tool;
        assert(i == 0 || i == 1 || i == 2 || i == 3 || i == 4 || i == 5 || i == 6 || i == 7 || i
            == 8);
    }
}

} // verus!
