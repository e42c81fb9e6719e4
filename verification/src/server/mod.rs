//! The MCP tool surface: what each tool is told, and what it decides.
use vstd::prelude::*;
use vstd::string::*;

use crate::catalog::{is_read_tool, READ_TOOL_NAMES};
use crate::selector::GuestType;
use crate::server::change_set::op_tool;
use crate::text::listed;
use crate::tier::{law_write_registry_is_complete, tier, Tier, DESTRUCTIVE_TOOLS, WRITE_TOOLS};

pub mod admission;
pub mod apply;
pub mod change_set;
pub mod low;
pub mod outcome;
pub mod plan;
pub mod provision;
pub mod read;

verus! {

/// Tool names that exist only as an authorization scope.
///
/// No tool answers to these: the generic plan and apply tools do the work. A
/// token can still be scoped to one of them, and a wildcard does not reach
/// them.
pub const AUTHORIZATION_ONLY_TOOLS: [&'static str; 8] = [
    "delete_backup",
    "delete_container",
    "delete_iso",
    "delete_snapshot",
    "delete_vm",
    "execute_vm_command",
    "restore_backup",
    "rollback_snapshot",
];

/// Largest text a tool answers with, in bytes.
pub const MAX_TEXT_BYTES: usize = 512 * 1024;

/// Largest JSON a tool answers with, in bytes.
pub const MAX_JSON_BYTES: usize = 512 * 1024;

/// Every tool name a token can be scoped to. Kept sorted.
pub const KNOWN_TOOLS: [&'static str; 45] = [
    "apply_proxmox_change_set",
    "approve_proxmox_change_set",
    "clone_vm",
    "create_backup",
    "create_container",
    "create_snapshot",
    "create_vm",
    "delete_backup",
    "delete_container",
    "delete_iso",
    "delete_snapshot",
    "delete_vm",
    "download_iso",
    "execute_vm_command",
    "get_cluster_status",
    "get_container_config",
    "get_container_ip",
    "get_containers",
    "get_guest_status",
    "get_node_status",
    "get_nodes",
    "get_proxmox_change_set",
    "get_storage",
    "get_task_status",
    "get_vm_config",
    "get_vms",
    "list_backups",
    "list_isos",
    "list_snapshots",
    "list_tasks",
    "list_templates",
    "plan_proxmox_destroy",
    "plan_proxmox_exec",
    "reset_vm",
    "resize_disk",
    "restart_container",
    "restore_backup",
    "rollback_snapshot",
    "shutdown_vm",
    "start_container",
    "start_vm",
    "stop_container",
    "stop_task",
    "stop_vm",
    "update_container_resources",
];

/// Arguments for a cluster-scoped read.
#[derive(Debug)]
pub struct ClusterArgs {
    /// Inventory name of the cluster.
    pub cluster: String,
}

/// Arguments for a node-scoped read.
#[derive(Debug)]
pub struct NodeArgs {
    /// Inventory name of the cluster.
    pub cluster: String,
    /// Node name as reported by `get_nodes`.
    pub node: String,
}

/// Arguments for a guest-scoped read.
///
/// There is deliberately no `node` field. Guests migrate between nodes, and the
/// server resolves the current one on every call; accepting a node from the
/// caller is how a request addresses the wrong guest after a migration.
#[derive(Debug)]
pub struct GuestArgs {
    /// Inventory name of the cluster.
    pub cluster: String,
    /// Numeric guest id, unique within the cluster.
    pub vmid: u32,
}

/// Arguments for cloning one guest.
#[derive(Debug)]
pub struct CloneArgs {
    /// Inventory name of the cluster.
    pub cluster: String,
    /// Guest to clone from.
    pub vmid: u32,
    /// VMID for the new guest. Must not be a protected pin.
    pub newid: u32,
    /// Name or hostname for the clone. Optional.
    pub name: Option<String>,
    /// Full copy rather than a linked clone.
    ///
    /// Defaults to a full copy: a linked clone shares base storage with its
    /// source, so deleting the source later breaks the clone. The cheaper
    /// option should be asked for, not assumed.
    pub full: bool,
}

/// Arguments for changing an LXC guest's resource allocation.
#[derive(Debug)]
pub struct ContainerResourceArgs {
    /// Inventory name of the cluster.
    pub cluster: String,
    /// Numeric guest id.
    pub vmid: u32,
    /// CPU cores. Applied to a running container immediately.
    pub cores: Option<u32>,
    /// Memory in MiB. Takes effect at the next start.
    pub memory_mb: Option<u32>,
    /// Swap in MiB. Takes effect at the next start.
    pub swap_mb: Option<u32>,
}

/// Arguments for stopping a running task.
///
/// There is deliberately no `node` field: the handle names the node, and a
/// cancel sent anywhere else would stop nothing.
#[derive(Debug)]
pub struct StopTaskArgs {
    /// Inventory name of the cluster.
    pub cluster: String,
    /// Task handle, as returned by any tool that starts one.
    pub upid: String,
}

/// Arguments for creating a guest from scratch.
#[derive(Debug)]
pub struct CreateGuestArgs {
    /// Inventory name of the cluster.
    pub cluster: String,
    /// Node to create the guest on. Required: there is no guest to resolve.
    pub node: String,
    /// VMID for the new guest. Must be free and within the token's scope.
    pub vmid: u32,
    /// Proxmox config keys and values, forwarded as given, in key order.
    ///
    /// QEMU and LXC diverge enough that a shared type would be a union of two
    /// half-populated things, so this stays untyped.
    pub config: Vec<(String, String)>,
}

/// Arguments for downloading an image to a storage.
#[derive(Debug)]
pub struct DownloadIsoArgs {
    /// Inventory name of the cluster.
    pub cluster: String,
    /// Node whose storage receives the file. `local` is node-local, so the
    /// same storage name on two nodes is two different places.
    pub node: String,
    /// Storage identifier.
    pub storage: String,
    /// Filename to write.
    pub filename: String,
    /// Source URL.
    pub url: String,
    /// Content type. `iso` or `vztmpl`.
    pub content: String,
    /// Checksum algorithm, e.g. `sha256`.
    ///
    /// Proxmox verifies only when the algorithm and value are both present and
    /// silently ignores one without the other, so this server refuses a lone
    /// half rather than letting a caller believe a checksum was checked.
    pub checksum_algorithm: Option<String>,
    /// Checksum value. Travels with `checksum_algorithm`.
    pub checksum: Option<String>,
}

/// Images are the overwhelmingly common case.
pub fn default_download_content() -> (r: String)
    ensures
        r@ == "iso"@,
{
    "iso".to_owned()
}

/// Arguments for resizing one guest disk.
#[derive(Debug)]
pub struct ResizeArgs {
    /// Inventory name of the cluster.
    pub cluster: String,
    /// Numeric guest id.
    pub vmid: u32,
    /// Disk to resize, e.g. `rootfs`, `scsi0`.
    pub disk: String,
    /// New size: `+8G` to grow by.
    ///
    /// Only the `+` form is treated as growing. An absolute value may be
    /// smaller than the current disk, which destroys data, so it is refused.
    pub size: String,
}

/// Arguments for taking a snapshot of one guest.
#[derive(Debug)]
pub struct SnapshotArgs {
    /// Inventory name of the cluster.
    pub cluster: String,
    /// Numeric guest id, unique within the cluster.
    pub vmid: u32,
    /// Snapshot name, as it will appear in `list_snapshots`.
    pub snapname: String,
    /// Optional free-text description. An empty one is omitted.
    pub description: Option<String>,
}

/// Arguments for backing up one guest.
#[derive(Debug)]
pub struct BackupArgs {
    /// Inventory name of the cluster.
    pub cluster: String,
    /// Numeric guest id, unique within the cluster.
    pub vmid: u32,
    /// Target storage, as reported by `get_storage`.
    pub storage: String,
    /// vzdump mode: `snapshot`, `suspend`, or `stop`.
    ///
    /// Defaults to `snapshot`, the only mode that does not interrupt the
    /// guest, which is what keeps `create_backup` out of the interrupting
    /// set and therefore usable on a protected guest.
    pub mode: String,
    /// Optional compression: `zstd`, `lzo`, `gzip`.
    pub compress: Option<String>,
}

/// vzdump's non-interrupting mode.
pub fn default_backup_mode() -> (r: String)
    ensures
        r@ == "snapshot"@,
{
    "snapshot".to_owned()
}

/// A clone is a full copy unless the caller asks otherwise.
pub fn default_true() -> (r: bool)
    ensures
        r,
{
    true
}

/// Arguments for a storage-scoped read.
#[derive(Debug)]
pub struct StorageArgs {
    /// Inventory name of the cluster.
    pub cluster: String,
    /// Node name as reported by `get_nodes`.
    pub node: String,
    /// Storage backend name.
    pub storage: String,
}

/// Arguments for a task-scoped read.
#[derive(Debug)]
pub struct TaskArgs {
    /// Inventory name of the cluster.
    pub cluster: String,
    /// Node name as reported by `get_nodes`.
    pub node: String,
    /// Proxmox task UPID.
    pub upid: String,
}

/// How a client may cache the list of tools.
#[derive(Debug, Clone, Copy, PartialEq, Eq, Structural)]
pub struct CacheHint {
    /// How long the list stays good, in milliseconds.
    pub ttl_ms: u64,
    /// Whether the list is one caller's own.
    pub private: bool,
}

/// How the list of tools may be cached.
///
/// A client that negotiated a protocol with cache hints rejects a list without
/// them, and an older one rejects what it did not negotiate. The list is
/// filtered per token, so a cache must not serve one caller's to another.
pub fn list_cache_hint(cache_hints: bool) -> (r: Option<CacheHint>)
    ensures
        cache_hints ==> r == Some(CacheHint { ttl_ms: 0, private: true }),
        !cache_hints ==> r is None,
{
    if cache_hints {
        Some(CacheHint { ttl_ms: 0, private: true })
    } else {
        None
    }
}

// ---------------------------------------------------------------------------
// What holds of every tool name
// ---------------------------------------------------------------------------
/// A token can be scoped to exactly the tools that have a tier: every name that
/// is checked is grantable, and every grantable name is classified.
pub proof fn law_known_tools_are_the_classified_tools(tool: Seq<char>)
    ensures
        listed(KNOWN_TOOLS@, tool) <==> tier(tool) is Some,
{
    let k = KNOWN_TOOLS@;
    let w = WRITE_TOOLS@;
    let n = READ_TOOL_NAMES@;
    assert(k[0]@ == "apply_proxmox_change_set"@);
    assert(k[1]@ == "approve_proxmox_change_set"@);
    assert(k[2]@ == "clone_vm"@);
    assert(k[3]@ == "create_backup"@);
    assert(k[4]@ == "create_container"@);
    assert(k[5]@ == "create_snapshot"@);
    assert(k[6]@ == "create_vm"@);
    assert(k[7]@ == "delete_backup"@);
    assert(k[8]@ == "delete_container"@);
    assert(k[9]@ == "delete_iso"@);
    assert(k[10]@ == "delete_snapshot"@);
    assert(k[11]@ == "delete_vm"@);
    assert(k[12]@ == "download_iso"@);
    assert(k[13]@ == "execute_vm_command"@);
    assert(k[14]@ == "get_cluster_status"@);
    assert(k[15]@ == "get_container_config"@);
    assert(k[16]@ == "get_container_ip"@);
    assert(k[17]@ == "get_containers"@);
    assert(k[18]@ == "get_guest_status"@);
    assert(k[19]@ == "get_node_status"@);
    assert(k[20]@ == "get_nodes"@);
    assert(k[21]@ == "get_proxmox_change_set"@);
    assert(k[22]@ == "get_storage"@);
    assert(k[23]@ == "get_task_status"@);
    assert(k[24]@ == "get_vm_config"@);
    assert(k[25]@ == "get_vms"@);
    assert(k[26]@ == "list_backups"@);
    assert(k[27]@ == "list_isos"@);
    assert(k[28]@ == "list_snapshots"@);
    assert(k[29]@ == "list_tasks"@);
    assert(k[30]@ == "list_templates"@);
    assert(k[31]@ == "plan_proxmox_destroy"@);
    assert(k[32]@ == "plan_proxmox_exec"@);
    assert(k[33]@ == "reset_vm"@);
    assert(k[34]@ == "resize_disk"@);
    assert(k[35]@ == "restart_container"@);
    assert(k[36]@ == "restore_backup"@);
    assert(k[37]@ == "rollback_snapshot"@);
    assert(k[38]@ == "shutdown_vm"@);
    assert(k[39]@ == "start_container"@);
    assert(k[40]@ == "start_vm"@);
    assert(k[41]@ == "stop_container"@);
    assert(k[42]@ == "stop_task"@);
    assert(k[43]@ == "stop_vm"@);
    assert(k[44]@ == "update_container_resources"@);
    assert(w[0]@ == "approve_proxmox_change_set"@);
    assert(w[1]@ == "clone_vm"@);
    assert(w[2]@ == "create_backup"@);
    assert(w[3]@ == "create_container"@);
    assert(w[4]@ == "create_snapshot"@);
    assert(w[5]@ == "create_vm"@);
    assert(w[6]@ == "download_iso"@);
    assert(w[7]@ == "plan_proxmox_destroy"@);
    assert(w[8]@ == "plan_proxmox_exec"@);
    assert(w[9]@ == "reset_vm"@);
    assert(w[10]@ == "restart_container"@);
    assert(w[11]@ == "shutdown_vm"@);
    assert(w[12]@ == "start_container"@);
    assert(w[13]@ == "start_vm"@);
    assert(w[14]@ == "stop_container"@);
    assert(w[15]@ == "stop_task"@);
    assert(w[16]@ == "stop_vm"@);
    assert(w[17]@ == "update_container_resources"@);
    assert(w[18]@ == "resize_disk"@);
    assert(w[19]@ == "apply_proxmox_change_set"@);
    assert(w[20]@ == "delete_backup"@);
    assert(w[21]@ == "delete_container"@);
    assert(w[22]@ == "delete_iso"@);
    assert(w[23]@ == "delete_snapshot"@);
    assert(w[24]@ == "delete_vm"@);
    assert(w[25]@ == "restore_backup"@);
    assert(w[26]@ == "rollback_snapshot"@);
    assert(w[27]@ == "execute_vm_command"@);
    assert(n[0]@ == "get_cluster_status"@);
    assert(n[1]@ == "get_nodes"@);
    assert(n[2]@ == "get_node_status"@);
    assert(n[3]@ == "get_vms"@);
    assert(n[4]@ == "get_containers"@);
    assert(n[5]@ == "get_vm_config"@);
    assert(n[6]@ == "get_container_config"@);
    assert(n[7]@ == "get_container_ip"@);
    assert(n[8]@ == "get_guest_status"@);
    assert(n[9]@ == "list_snapshots"@);
    assert(n[10]@ == "get_storage"@);
    assert(n[11]@ == "list_backups"@);
    assert(n[12]@ == "list_isos"@);
    assert(n[13]@ == "list_templates"@);
    assert(n[14]@ == "list_tasks"@);
    assert(n[15]@ == "get_task_status"@);
    if listed(KNOWN_TOOLS@, tool) {
        let i = choose|i: int| 0 <= i < k.len() && #[trigger] k[i]@ == tool;
        assert(i == 0 || i == 1 || i == 2 || i == 3 || i == 4 || i == 5 || i == 6 || i == 7 || i == 8 || i == 9 || i == 10 || i == 11 || i == 12 || i == 13 || i == 14 || i == 15 || i == 16 || i == 17 || i == 18 || i == 19 || i == 20 || i == 21 || i == 22 || i == 23 || i == 24 || i == 25 || i == 26 || i == 27 || i == 28 || i == 29 || i == 30 || i == 31 || i == 32 || i == 33 || i == 34 || i == 35 || i == 36 || i == 37 || i == 38 || i == 39 || i == 40 || i == 41 || i == 42 || i == 43 || i == 44);
    }
    law_write_registry_is_complete(tool);
    if tier(tool) is Some {
        if listed(WRITE_TOOLS@, tool) {
            let i = choose|i: int| 0 <= i < w.len() && #[trigger] w[i]@ == tool;
            assert(i == 0 || i == 1 || i == 2 || i == 3 || i == 4 || i == 5 || i == 6 || i == 7 || i == 8 || i == 9 || i == 10 || i == 11 || i == 12 || i == 13 || i == 14 || i == 15 || i == 16 || i == 17 || i == 18 || i == 19 || i == 20 || i == 21 || i == 22 || i == 23 || i == 24 || i == 25 || i == 26 || i == 27);
        } else if is_read_tool(tool) {
            let i = choose|i: int| 0 <= i < n.len() && #[trigger] n[i]@ == tool;
            assert(i == 0 || i == 1 || i == 2 || i == 3 || i == 4 || i == 5 || i == 6 || i == 7 || i == 8 || i == 9 || i == 10 || i == 11 || i == 12 || i == 13 || i == 14 || i == 15);
        }
    }
}

/// The scope a destructive operation authorizes against is a name of the
/// destructive tier that a token can be given and that a wildcard does not
/// reach.
pub proof fn law_an_operations_scope_is_grantable_and_not_wild(op: Seq<char>, kind: GuestType)
    requires
        op_tool(op, kind) is Some,
    ensures
        listed(KNOWN_TOOLS@, op_tool(op, kind)->0),
        listed(WRITE_TOOLS@, op_tool(op, kind)->0),
        listed(AUTHORIZATION_ONLY_TOOLS@, op_tool(op, kind)->0),
        tier(op_tool(op, kind)->0) == Some(Tier::Destructive),
{
    let d = DESTRUCTIVE_TOOLS@;
    let a = AUTHORIZATION_ONLY_TOOLS@;
    let w = WRITE_TOOLS@;
    let k = KNOWN_TOOLS@;
    assert(a[0]@ == "delete_backup"@);
    assert(w[20]@ == "delete_backup"@);
    assert(k[7]@ == "delete_backup"@);
    assert(d[1]@ == "delete_backup"@);
    assert(a[1]@ == "delete_container"@);
    assert(w[21]@ == "delete_container"@);
    assert(k[8]@ == "delete_container"@);
    assert(d[2]@ == "delete_container"@);
    assert(a[2]@ == "delete_iso"@);
    assert(w[22]@ == "delete_iso"@);
    assert(k[9]@ == "delete_iso"@);
    assert(d[3]@ == "delete_iso"@);
    assert(a[3]@ == "delete_snapshot"@);
    assert(w[23]@ == "delete_snapshot"@);
    assert(k[10]@ == "delete_snapshot"@);
    assert(d[4]@ == "delete_snapshot"@);
    assert(a[4]@ == "delete_vm"@);
    assert(w[24]@ == "delete_vm"@);
    assert(k[11]@ == "delete_vm"@);
    assert(d[5]@ == "delete_vm"@);
    assert(a[5]@ == "execute_vm_command"@);
    assert(w[27]@ == "execute_vm_command"@);
    assert(k[13]@ == "execute_vm_command"@);
    assert(d[6]@ == "execute_vm_command"@);
    assert(a[6]@ == "restore_backup"@);
    assert(w[25]@ == "restore_backup"@);
    assert(k[36]@ == "restore_backup"@);
    assert(d[7]@ == "restore_backup"@);
    assert(a[7]@ == "rollback_snapshot"@);
    assert(w[26]@ == "rollback_snapshot"@);
    assert(k[37]@ == "rollback_snapshot"@);
    assert(d[8]@ == "rollback_snapshot"@);
}

} // verus!
