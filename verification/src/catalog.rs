//! The read surface, declared as data.
//!
//! Proxmox's read API is large and uniform, so a read tool is a catalog entry
//! rather than a function: name, HTTP method, path template, and whether it
//! addresses a specific guest. One generic executor serves all of them.
//!
//! Mutating tools are deliberately *not* here. Each needs preconditions a
//! catalog entry cannot express.
use vstd::prelude::*;

use crate::client::Method;
use crate::selector::GuestType;
use crate::text::{has_text, listed, occurs_at, same_text};

verus! {

/// One read tool.
#[derive(Debug)]
pub struct ReadTool {
    /// MCP tool name.
    pub name: &'static str,
    /// HTTP method.
    pub method: Method,
    /// Path template with `{node}` and `{vmid}` placeholders.
    pub path: &'static str,
    /// Whether the tool addresses one guest and therefore needs resolution.
    pub needs_guest: bool,
    /// One-line MCP description.
    pub description: &'static str,
    /// The guest type that the listed entries are filtered to.
    pub type_filter: Option<GuestType>,
    /// Query parameters to append to the request.
    pub query: Vec<(&'static str, &'static str)>,
}

/// One read tool, as a mathematical value.
pub struct ToolView {
    pub name: Seq<char>,
    pub method: Method,
    pub path: Seq<char>,
    pub needs_guest: bool,
    pub description: Seq<char>,
    pub type_filter: Option<GuestType>,
    pub query: Seq<(Seq<char>, Seq<char>)>,
}

impl View for ReadTool {
    type V = ToolView;

    open spec fn view(&self) -> ToolView {
        ToolView {
            name: self.name@,
            method: self.method,
            path: self.path@,
            needs_guest: self.needs_guest,
            description: self.description@,
            type_filter: self.type_filter,
            query: query_view(self.query@),
        }
    }
}

/// The characters of each key and value of a query.
pub open spec fn query_view(query: Seq<(&'static str, &'static str)>) -> Seq<(Seq<char>, Seq<char>)> {
    query.map_values(|p: (&'static str, &'static str)| (p.0@, p.1@))
}

/// The names of the read tools, in catalog order.
pub const READ_TOOL_NAMES: [&'static str; 16] = [
    "get_cluster_status",
    "get_nodes",
    "get_node_status",
    "get_vms",
    "get_containers",
    "get_vm_config",
    "get_container_config",
    "get_container_ip",
    "get_guest_status",
    "list_snapshots",
    "get_storage",
    "list_backups",
    "list_isos",
    "list_templates",
    "list_tasks",
    "get_task_status",
];

/// An entry that reads one path.
pub open spec fn entry(
    name: Seq<char>,
    path: Seq<char>,
    needs_guest: bool,
    description: Seq<char>,
) -> ToolView {
    ToolView {
        name,
        method: Method::Get,
        path,
        needs_guest,
        description,
        type_filter: None,
        query: Seq::empty(),
    }
}

/// The catalog: the entry of each read tool.
pub open spec fn catalog(name: Seq<char>) -> Option<ToolView> {
    if name == "get_cluster_status"@ {
        Some(entry(
            name,
            "/api2/json/cluster/status"@,
            false,
            "Cluster quorum and node membership."@,
        ))
    } else if name == "get_nodes"@ {
        Some(entry(
            name,
            "/api2/json/nodes"@,
            false,
            "All nodes in the cluster with status and resource totals."@,
        ))
    } else if name == "get_node_status"@ {
        Some(entry(
            name,
            "/api2/json/nodes/{node}/status"@,
            false,
            "Detailed status for one node."@,
        ))
    } else if name == "get_vms"@ {
        Some(ToolView { type_filter: Some(GuestType::Qemu), ..entry(
            name,
            "/api2/json/cluster/resources"@,
            false,
            "All QEMU guests across the cluster, with node, status and tags."@,
        ) })
    } else if name == "get_containers"@ {
        Some(ToolView { type_filter: Some(GuestType::Lxc), ..entry(
            name,
            "/api2/json/cluster/resources"@,
            false,
            "All LXC guests across the cluster, with node, status and tags."@,
        ) })
    } else if name == "get_vm_config"@ {
        Some(entry(
            name,
            "/api2/json/nodes/{node}/qemu/{vmid}/config"@,
            true,
            "Configuration of one QEMU guest, including its Proxmox digest."@,
        ))
    } else if name == "get_container_config"@ {
        Some(entry(
            name,
            "/api2/json/nodes/{node}/lxc/{vmid}/config"@,
            true,
            "Configuration of one LXC guest, including its Proxmox digest."@,
        ))
    } else if name == "get_container_ip"@ {
        Some(entry(
            name,
            "/api2/json/nodes/{node}/lxc/{vmid}/interfaces"@,
            true,
            "Network interfaces and addresses of one LXC guest."@,
        ))
    } else if name == "get_guest_status"@ {
        Some(entry(
            name,
            "/api2/json/nodes/{node}/{kind}/{vmid}/status/current"@,
            true,
            "Current runtime status of one guest."@,
        ))
    } else if name == "list_snapshots"@ {
        Some(entry(
            name,
            "/api2/json/nodes/{node}/{kind}/{vmid}/snapshot"@,
            true,
            "Snapshots of one guest."@,
        ))
    } else if name == "get_storage"@ {
        Some(entry(
            name,
            "/api2/json/nodes/{node}/storage"@,
            false,
            "Storage backends visible to one node, with usage."@,
        ))
    } else if name == "list_backups"@ {
        Some(ToolView { query: seq![("content"@, "backup"@)], ..entry(
            name,
            "/api2/json/nodes/{node}/storage/{storage}/content"@,
            false,
            "Backup archives on one storage backend."@,
        ) })
    } else if name == "list_isos"@ {
        Some(ToolView { query: seq![("content"@, "iso"@)], ..entry(
            name,
            "/api2/json/nodes/{node}/storage/{storage}/content"@,
            false,
            "ISO images on one storage backend."@,
        ) })
    } else if name == "list_templates"@ {
        Some(ToolView { query: seq![("content"@, "vztmpl"@)], ..entry(
            name,
            "/api2/json/nodes/{node}/storage/{storage}/content"@,
            false,
            "Container templates on one storage backend."@,
        ) })
    } else if name == "list_tasks"@ {
        Some(entry(
            name,
            "/api2/json/nodes/{node}/tasks"@,
            false,
            "Recent tasks on one node."@,
        ))
    } else if name == "get_task_status"@ {
        Some(entry(
            name,
            "/api2/json/nodes/{node}/tasks/{upid}/status"@,
            false,
            "Status of one task by UPID."@,
        ))
    } else {
        None
    }
}

/// Whether a name is that of a read tool.
pub open spec fn is_read_tool(name: Seq<char>) -> bool {
    listed(READ_TOOL_NAMES@, name)
}

/// The one guest type that a tool whose path names a type serves.
pub open spec fn served_type(name: Seq<char>) -> Option<GuestType> {
    if name == "get_vm_config"@ {
        Some(GuestType::Qemu)
    } else if name == "get_container_config"@ || name == "get_container_ip"@ {
        Some(GuestType::Lxc)
    } else {
        None
    }
}

fn read_entry(
    name: &'static str,
    path: &'static str,
    needs_guest: bool,
    description: &'static str,
) -> (r: ReadTool)
    ensures
        r@ == entry(name@, path@, needs_guest, description@),
{
    let r = ReadTool {
        name,
        method: Method::Get,
        path,
        needs_guest,
        description,
        type_filter: None,
        query: Vec::new(),
    };
    proof {
        assert(r@.query =~= Seq::empty());
    }
    r
}

fn filtered_entry(
    name: &'static str,
    path: &'static str,
    description: &'static str,
    kind: GuestType,
) -> (r: ReadTool)
    ensures
        r@ == (ToolView {
            type_filter: Some(kind),
            ..entry(name@, path@, false, description@)
        }),
{
    let mut r = read_entry(name, path, false, description);
    r.type_filter = Some(kind);
    r
}

fn content_entry(
    name: &'static str,
    path: &'static str,
    description: &'static str,
    content: &'static str,
) -> (r: ReadTool)
    ensures
        r@ == (ToolView {
            query: seq![("content"@, content@)],
            ..entry(name@, path@, false, description@)
        }),
{
    let mut r = read_entry(name, path, false, description);
    let mut query: Vec<(&'static str, &'static str)> = Vec::new();
    query.push(("content", content));
    r.query = query;
    proof {
        assert(r@.query =~= seq![("content"@, content@)]);
    }
    r
}

/// A name is in the table of read tools exactly when the catalog has an entry
/// for it.
pub proof fn law_catalog_is_total_on_its_names(name: Seq<char>)
    ensures
        is_read_tool(name) <==> catalog(name) is Some,
        catalog(name) matches Some(e) ==> e.name == name,
{
    let t = READ_TOOL_NAMES@;
    assert(t[0]@ == "get_cluster_status"@);
    assert(t[1]@ == "get_nodes"@);
    assert(t[2]@ == "get_node_status"@);
    assert(t[3]@ == "get_vms"@);
    assert(t[4]@ == "get_containers"@);
    assert(t[5]@ == "get_vm_config"@);
    assert(t[6]@ == "get_container_config"@);
    assert(t[7]@ == "get_container_ip"@);
    assert(t[8]@ == "get_guest_status"@);
    assert(t[9]@ == "list_snapshots"@);
    assert(t[10]@ == "get_storage"@);
    assert(t[11]@ == "list_backups"@);
    assert(t[12]@ == "list_isos"@);
    assert(t[13]@ == "list_templates"@);
    assert(t[14]@ == "list_tasks"@);
    assert(t[15]@ == "get_task_status"@);
}

/// Look up a read tool by MCP name.
#[must_use]
pub fn read_tool(name: &str) -> (r: Option<ReadTool>)
    ensures
        match r {
            Some(tool) => catalog(name@) == Some(tool@),
            None => catalog(name@) is None,
        },
        r is Some == is_read_tool(name@),
{
    proof {
        law_catalog_is_total_on_its_names(name@);
    }
    if same_text(name, "get_cluster_status") {
        Some(
            read_entry(
                "get_cluster_status",
                "/api2/json/cluster/status",
                false,
                "Cluster quorum and node membership.",
            ),
        )
    } else if same_text(name, "get_nodes") {
        Some(
            read_entry(
                "get_nodes",
                "/api2/json/nodes",
                false,
                "All nodes in the cluster with status and resource totals.",
            ),
        )
    } else if same_text(name, "get_node_status") {
        Some(
            read_entry(
                "get_node_status",
                "/api2/json/nodes/{node}/status",
                false,
                "Detailed status for one node.",
            ),
        )
    } else if same_text(name, "get_vms") {
        Some(
            filtered_entry(
                "get_vms",
                "/api2/json/cluster/resources",
                "All QEMU guests across the cluster, with node, status and tags.",
                GuestType::Qemu,
            ),
        )
    } else if same_text(name, "get_containers") {
        Some(
            filtered_entry(
                "get_containers",
                "/api2/json/cluster/resources",
                "All LXC guests across the cluster, with node, status and tags.",
                GuestType::Lxc,
            ),
        )
    } else if same_text(name, "get_vm_config") {
        Some(
            read_entry(
                "get_vm_config",
                "/api2/json/nodes/{node}/qemu/{vmid}/config",
                true,
                "Configuration of one QEMU guest, including its Proxmox digest.",
            ),
        )
    } else if same_text(name, "get_container_config") {
        Some(
            read_entry(
                "get_container_config",
                "/api2/json/nodes/{node}/lxc/{vmid}/config",
                true,
                "Configuration of one LXC guest, including its Proxmox digest.",
            ),
        )
    } else if same_text(name, "get_container_ip") {
        Some(
            read_entry(
                "get_container_ip",
                "/api2/json/nodes/{node}/lxc/{vmid}/interfaces",
                true,
                "Network interfaces and addresses of one LXC guest.",
            ),
        )
    } else if same_text(name, "get_guest_status") {
        Some(
            read_entry(
                "get_guest_status",
                "/api2/json/nodes/{node}/{kind}/{vmid}/status/current",
                true,
                "Current runtime status of one guest.",
            ),
        )
    } else if same_text(name, "list_snapshots") {
        Some(
            read_entry(
                "list_snapshots",
                "/api2/json/nodes/{node}/{kind}/{vmid}/snapshot",
                true,
                "Snapshots of one guest.",
            ),
        )
    } else if same_text(name, "get_storage") {
        Some(
            read_entry(
                "get_storage",
                "/api2/json/nodes/{node}/storage",
                false,
                "Storage backends visible to one node, with usage.",
            ),
        )
    } else if same_text(name, "list_backups") {
        Some(
            content_entry(
                "list_backups",
                "/api2/json/nodes/{node}/storage/{storage}/content",
                "Backup archives on one storage backend.",
                "backup",
            ),
        )
    } else if same_text(name, "list_isos") {
        Some(
            content_entry(
                "list_isos",
                "/api2/json/nodes/{node}/storage/{storage}/content",
                "ISO images on one storage backend.",
                "iso",
            ),
        )
    } else if same_text(name, "list_templates") {
        Some(
            content_entry(
                "list_templates",
                "/api2/json/nodes/{node}/storage/{storage}/content",
                "Container templates on one storage backend.",
                "vztmpl",
            ),
        )
    } else if same_text(name, "list_tasks") {
        Some(
            read_entry(
                "list_tasks",
                "/api2/json/nodes/{node}/tasks",
                false,
                "Recent tasks on one node.",
            ),
        )
    } else if same_text(name, "get_task_status") {
        Some(
            read_entry(
                "get_task_status",
                "/api2/json/nodes/{node}/tasks/{upid}/status",
                false,
                "Status of one task by UPID.",
            ),
        )
    } else {
        None
    }
}

/// Every read tool, in catalog order.
pub fn read_tools() -> (r: Vec<ReadTool>)
    ensures
        r@.len() == READ_TOOL_NAMES@.len(),
        forall|i: int|
            0 <= i < r@.len() ==> Some(#[trigger] r@[i]@) == catalog(READ_TOOL_NAMES@[i]@),
{
    let mut out: Vec<ReadTool> = Vec::new();
    let mut i: usize = 0;
    while i < READ_TOOL_NAMES.len()
        invariant
            i <= READ_TOOL_NAMES@.len(),
            out@.len() == i,
            forall|j: int|
                0 <= j < i ==> Some(#[trigger] out@[j]@) == catalog(READ_TOOL_NAMES@[j]@),
        decreases READ_TOOL_NAMES@.len() - i,
    {
        proof {
            assert(READ_TOOL_NAMES@[i as int]@ == READ_TOOL_NAMES@[i as int]@);
            assert(is_read_tool(READ_TOOL_NAMES@[i as int]@));
        }
        if let Some(tool) = read_tool(READ_TOOL_NAMES[i]) {
            out.push(tool);
        }
        i += 1;
    }
    out
}

/// The guest type a tool whose path names one may serve.
pub fn type_served_by(name: &str) -> (r: Option<GuestType>)
    ensures
        r == served_type(name@),
{
    if same_text(name, "get_vm_config") {
        Some(GuestType::Qemu)
    } else if same_text(name, "get_container_config") || same_text(name, "get_container_ip") {
        Some(GuestType::Lxc)
    } else {
        None
    }
}


// ---------------------------------------------------------------------------
// What holds of every entry
// ---------------------------------------------------------------------------
/// Whether the text of `p` stands in `s` at `i`, read off the two literals.
proof fn lemma_placeholder(s: Seq<char>, p: Seq<char>, i: int)
    requires
        0 <= i,
        i + p.len() <= s.len(),
        forall|k: int| 0 <= k < p.len() ==> #[trigger] s[i + k] == p[k],
    ensures
        has_text(s, p),
{
    assert forall|k: int| 0 <= k < p.len() implies s.subrange(i, i + p.len())[k] == p[k] by {
        assert(s[i + k] == p[k]);
    }
    assert(s.subrange(i, i + p.len()) =~= p);
    assert(occurs_at(s, p, i));
}

/// Every read is a GET below the API root.
pub proof fn law_every_entry_is_a_get_below_the_api_root(name: Seq<char>)
    requires
        catalog(name) is Some,
    ensures
        catalog(name)->0.method == Method::Get,
        "/api2/json/"@.is_prefix_of(catalog(name)->0.path),
{
    reveal_strlit("/api2/json/");
    reveal_strlit("/api2/json/cluster/status");
    reveal_strlit("/api2/json/nodes");
    reveal_strlit("/api2/json/nodes/{node}/status");
    reveal_strlit("/api2/json/cluster/resources");
    reveal_strlit("/api2/json/nodes/{node}/qemu/{vmid}/config");
    reveal_strlit("/api2/json/nodes/{node}/lxc/{vmid}/config");
    reveal_strlit("/api2/json/nodes/{node}/lxc/{vmid}/interfaces");
    reveal_strlit("/api2/json/nodes/{node}/{kind}/{vmid}/status/current");
    reveal_strlit("/api2/json/nodes/{node}/{kind}/{vmid}/snapshot");
    reveal_strlit("/api2/json/nodes/{node}/storage");
    reveal_strlit("/api2/json/nodes/{node}/storage/{storage}/content");
    reveal_strlit("/api2/json/nodes/{node}/tasks");
    reveal_strlit("/api2/json/nodes/{node}/tasks/{upid}/status");
    let path = catalog(name)->0.path;
    assert(path.take(11) =~= "/api2/json/"@);
}

/// A tool that addresses one guest templates both its node and its vmid.
pub proof fn law_guest_tools_template_node_and_vmid(name: Seq<char>)
    requires
        catalog(name) is Some,
        catalog(name)->0.needs_guest,
    ensures
        has_text(catalog(name)->0.path, "{node}"@),
        has_text(catalog(name)->0.path, "{vmid}"@),
{
    reveal_strlit("{node}");
    reveal_strlit("{vmid}");
    reveal_strlit("/api2/json/nodes/{node}/qemu/{vmid}/config");
    reveal_strlit("/api2/json/nodes/{node}/lxc/{vmid}/config");
    reveal_strlit("/api2/json/nodes/{node}/lxc/{vmid}/interfaces");
    reveal_strlit("/api2/json/nodes/{node}/{kind}/{vmid}/status/current");
    reveal_strlit("/api2/json/nodes/{node}/{kind}/{vmid}/snapshot");
    let path = catalog(name)->0.path;
    lemma_placeholder(path, "{node}"@, 17);
    if path == "/api2/json/nodes/{node}/qemu/{vmid}/config"@ {
        lemma_placeholder(path, "{vmid}"@, 29);
    } else if path == "/api2/json/nodes/{node}/lxc/{vmid}/config"@ {
        lemma_placeholder(path, "{vmid}"@, 28);
    } else if path == "/api2/json/nodes/{node}/lxc/{vmid}/interfaces"@ {
        lemma_placeholder(path, "{vmid}"@, 28);
    } else if path == "/api2/json/nodes/{node}/{kind}/{vmid}/status/current"@ {
        lemma_placeholder(path, "{vmid}"@, 31);
    } else {
        lemma_placeholder(path, "{vmid}"@, 31);
    }
}

/// The length of the path of each entry, which tells the paths apart.
proof fn lemma_path_lengths(name: Seq<char>)
    requires
        catalog(name) is Some,
    ensures
        catalog(name)->0.path.len() == path_length(name),
{
    reveal_strlit("/api2/json/cluster/status");
    reveal_strlit("/api2/json/nodes");
    reveal_strlit("/api2/json/nodes/{node}/status");
    reveal_strlit("/api2/json/cluster/resources");
    reveal_strlit("/api2/json/nodes/{node}/qemu/{vmid}/config");
    reveal_strlit("/api2/json/nodes/{node}/lxc/{vmid}/config");
    reveal_strlit("/api2/json/nodes/{node}/lxc/{vmid}/interfaces");
    reveal_strlit("/api2/json/nodes/{node}/{kind}/{vmid}/status/current");
    reveal_strlit("/api2/json/nodes/{node}/{kind}/{vmid}/snapshot");
    reveal_strlit("/api2/json/nodes/{node}/storage");
    reveal_strlit("/api2/json/nodes/{node}/storage/{storage}/content");
    reveal_strlit("/api2/json/nodes/{node}/tasks");
    reveal_strlit("/api2/json/nodes/{node}/tasks/{upid}/status");
}

spec fn path_length(name: Seq<char>) -> nat {
    if name == "get_cluster_status"@ {
        25
    } else if name == "get_nodes"@ {
        16
    } else if name == "get_node_status"@ {
        30
    } else if name == "get_vms"@ {
        28
    } else if name == "get_containers"@ {
        28
    } else if name == "get_vm_config"@ {
        42
    } else if name == "get_container_config"@ {
        41
    } else if name == "get_container_ip"@ {
        45
    } else if name == "get_guest_status"@ {
        52
    } else if name == "list_snapshots"@ {
        46
    } else if name == "get_storage"@ {
        31
    } else if name == "list_backups"@ {
        49
    } else if name == "list_isos"@ {
        49
    } else if name == "list_templates"@ {
        49
    } else if name == "list_tasks"@ {
        29
    } else if name == "get_task_status"@ {
        43
    } else {
        0
    }
}

/// Two tools that read the same path differ in their type filter or their
/// query, so neither answers with what the other promises.
pub proof fn law_tools_sharing_a_path_are_told_apart(a: Seq<char>, b: Seq<char>)
    requires
        catalog(a) is Some,
        catalog(b) is Some,
        a != b,
        catalog(a)->0.path == catalog(b)->0.path,
    ensures
        catalog(a)->0.type_filter != catalog(b)->0.type_filter || catalog(a)->0.query != catalog(
            b,
        )->0.query,
{
    lemma_path_lengths(a);
    lemma_path_lengths(b);
    reveal_strlit("backup");
    reveal_strlit("iso");
    reveal_strlit("vztmpl");
    let p = catalog(a)->0.query;
    let q = catalog(b)->0.query;
    if p.len() == 1 && q.len() == 1 {
        assert(p[0].1[0] == 'b' || p[0].1[0] == 'i' || p[0].1[0] == 'v');
        assert(p[0].1 != q[0].1);
    }
}

/// A tool whose path names a guest type serves that type, and a tool that
/// serves either type has the type filled in.
pub proof fn law_a_path_that_names_a_type_serves_it(name: Seq<char>)
    requires
        catalog(name) is Some,
        catalog(name)->0.needs_guest,
    ensures
        served_type(name) == Some(GuestType::Qemu) ==> has_text(
            catalog(name)->0.path,
            "/qemu/"@,
        ),
        served_type(name) == Some(GuestType::Lxc) ==> has_text(catalog(name)->0.path, "/lxc/"@),
        served_type(name) is None ==> has_text(catalog(name)->0.path, "/{kind}/"@),
{
    reveal_strlit("/qemu/");
    reveal_strlit("/lxc/");
    reveal_strlit("/{kind}/");
    reveal_strlit("/api2/json/nodes/{node}/qemu/{vmid}/config");
    reveal_strlit("/api2/json/nodes/{node}/lxc/{vmid}/config");
    reveal_strlit("/api2/json/nodes/{node}/lxc/{vmid}/interfaces");
    reveal_strlit("/api2/json/nodes/{node}/{kind}/{vmid}/status/current");
    reveal_strlit("/api2/json/nodes/{node}/{kind}/{vmid}/snapshot");
    lemma_path_lengths(name);
    let path = catalog(name)->0.path;
    if served_type(name) == Some(GuestType::Qemu) {
        lemma_placeholder(path, "/qemu/"@, 23);
    } else if served_type(name) == Some(GuestType::Lxc) {
        lemma_placeholder(path, "/lxc/"@, 23);
    } else {
        lemma_placeholder(path, "/{kind}/"@, 23);
    }
}

/// What tells the read tools apart.
proof fn lemma_tool_names()
    ensures
        "get_cluster_status"@.len() == 18,
        "get_nodes"@.len() == 9,
        "get_node_status"@.len() == 15,
        "get_vms"@.len() == 7,
        "get_containers"@.len() == 14 && "get_containers"@[0] == 'g',
        "get_vm_config"@.len() == 13,
        "get_container_config"@.len() == 20,
        "get_container_ip"@.len() == 16 && "get_container_ip"@[4] == 'c',
        "get_guest_status"@.len() == 16 && "get_guest_status"@[4] == 'g',
        "list_snapshots"@.len() == 14 && "list_snapshots"@[5] == 's',
        "get_storage"@.len() == 11,
        "list_backups"@.len() == 12,
        "list_isos"@.len() == 9 && "list_isos"@[0] == 'l',
        "list_templates"@.len() == 14 && "list_templates"@[5] == 't',
        "list_tasks"@.len() == 10,
        "get_task_status"@.len() == 15 && "get_task_status"@[4] == 't',
        "get_nodes"@[0] == 'g',
        "get_node_status"@[4] == 'n',
        "list_snapshots"@[0] == 'l' && "list_templates"@[0] == 'l',
{
    reveal_strlit("get_cluster_status");
    reveal_strlit("get_nodes");
    reveal_strlit("get_node_status");
    reveal_strlit("get_vms");
    reveal_strlit("get_containers");
    reveal_strlit("get_vm_config");
    reveal_strlit("get_container_config");
    reveal_strlit("get_container_ip");
    reveal_strlit("get_guest_status");
    reveal_strlit("list_snapshots");
    reveal_strlit("get_storage");
    reveal_strlit("list_backups");
    reveal_strlit("list_isos");
    reveal_strlit("list_templates");
    reveal_strlit("list_tasks");
    reveal_strlit("get_task_status");
}

/// Each tool reads what it is named after: the cluster's tools the cluster, a
/// node's tools the node, a guest's tools the guest, a storage's tools the
/// storage, a task's tools the task.
pub proof fn law_each_tool_reads_what_it_is_named_after(name: Seq<char>, e: ToolView)
    requires
        catalog(name) == Some(e),
    ensures
        name == "get_cluster_status"@ <==> e.path == "/api2/json/cluster/status"@,
        name == "get_nodes"@ <==> e.path == "/api2/json/nodes"@,
        name == "get_node_status"@ <==> e.path == "/api2/json/nodes/{node}/status"@,
        name == "get_vms"@ || name == "get_containers"@ <==> e.path
            == "/api2/json/cluster/resources"@,
        name == "get_vm_config"@ <==> e.path == "/api2/json/nodes/{node}/qemu/{vmid}/config"@,
        name == "get_container_config"@ <==> e.path == "/api2/json/nodes/{node}/lxc/{vmid}/config"@,
        name == "get_container_ip"@ <==> e.path
            == "/api2/json/nodes/{node}/lxc/{vmid}/interfaces"@,
        name == "get_guest_status"@ <==> e.path
            == "/api2/json/nodes/{node}/{kind}/{vmid}/status/current"@,
        name == "list_snapshots"@ <==> e.path == "/api2/json/nodes/{node}/{kind}/{vmid}/snapshot"@,
        name == "get_storage"@ <==> e.path == "/api2/json/nodes/{node}/storage"@,
        name == "list_backups"@ || name == "list_isos"@ || name == "list_templates"@ <==> e.path
            == "/api2/json/nodes/{node}/storage/{storage}/content"@,
        name == "list_tasks"@ <==> e.path == "/api2/json/nodes/{node}/tasks"@,
        name == "get_task_status"@ <==> e.path == "/api2/json/nodes/{node}/tasks/{upid}/status"@,
{
    lemma_tool_names();
    reveal_strlit("/api2/json/cluster/status");
    reveal_strlit("/api2/json/nodes");
    reveal_strlit("/api2/json/nodes/{node}/status");
    reveal_strlit("/api2/json/cluster/resources");
    reveal_strlit("/api2/json/nodes/{node}/qemu/{vmid}/config");
    reveal_strlit("/api2/json/nodes/{node}/lxc/{vmid}/config");
    reveal_strlit("/api2/json/nodes/{node}/lxc/{vmid}/interfaces");
    reveal_strlit("/api2/json/nodes/{node}/{kind}/{vmid}/status/current");
    reveal_strlit("/api2/json/nodes/{node}/{kind}/{vmid}/snapshot");
    reveal_strlit("/api2/json/nodes/{node}/storage");
    reveal_strlit("/api2/json/nodes/{node}/storage/{storage}/content");
    reveal_strlit("/api2/json/nodes/{node}/tasks");
    reveal_strlit("/api2/json/nodes/{node}/tasks/{upid}/status");
    lemma_path_lengths(name);
    assert("/api2/json/cluster/status"@.len() == 25);
    assert("/api2/json/nodes"@.len() == 16);
    assert("/api2/json/nodes/{node}/status"@.len() == 30);
    assert("/api2/json/cluster/resources"@.len() == 28);
    assert("/api2/json/nodes/{node}/qemu/{vmid}/config"@.len() == 42);
    assert("/api2/json/nodes/{node}/lxc/{vmid}/config"@.len() == 41);
    assert("/api2/json/nodes/{node}/lxc/{vmid}/interfaces"@.len() == 45);
    assert("/api2/json/nodes/{node}/{kind}/{vmid}/status/current"@.len() == 52);
    assert("/api2/json/nodes/{node}/{kind}/{vmid}/snapshot"@.len() == 46);
    assert("/api2/json/nodes/{node}/storage"@.len() == 31);
    assert("/api2/json/nodes/{node}/storage/{storage}/content"@.len() == 49);
    assert("/api2/json/nodes/{node}/tasks"@.len() == 29);
    assert("/api2/json/nodes/{node}/tasks/{upid}/status"@.len() == 43);
}

/// Virtual machines are listed by the tool of their name and containers by
/// theirs; backups, images and templates are asked for by their content type;
/// and no other tool filters or asks.
pub proof fn law_each_listing_is_of_its_own_kind(name: Seq<char>, e: ToolView)
    requires
        catalog(name) == Some(e),
    ensures
        e.type_filter == Some(GuestType::Qemu) <==> name == "get_vms"@,
        e.type_filter == Some(GuestType::Lxc) <==> name == "get_containers"@,
        name == "list_backups"@ ==> e.query == seq![("content"@, "backup"@)],
        name == "list_isos"@ ==> e.query == seq![("content"@, "iso"@)],
        name == "list_templates"@ ==> e.query == seq![("content"@, "vztmpl"@)],
        e.query.len() > 0 ==> name == "list_backups"@ || name == "list_isos"@ || name
            == "list_templates"@,
        e.needs_guest <==> name == "get_vm_config"@ || name == "get_container_config"@ || name
            == "get_container_ip"@ || name == "get_guest_status"@ || name == "list_snapshots"@,
{
    lemma_tool_names();
}

} // verus!
