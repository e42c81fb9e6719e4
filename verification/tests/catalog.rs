//! The read catalog.
use proxmoxmcp::catalog::{read_tool, read_tools, type_served_by, READ_TOOL_NAMES};
use proxmoxmcp::selector::GuestType;

#[test]
fn tool_names_are_unique() {
    let mut seen = std::collections::BTreeSet::new();
    for tool in read_tools() {
        assert!(seen.insert(tool.name), "duplicate tool {}", tool.name);
    }
    assert_eq!(seen.len(), READ_TOOL_NAMES.len());
}

#[test]
fn guest_scoped_tools_template_both_node_and_vmid() {
    for tool in read_tools().iter().filter(|tool| tool.needs_guest) {
        assert!(tool.path.contains("{node}"), "{} lacks node", tool.name);
        assert!(tool.path.contains("{vmid}"), "{} lacks vmid", tool.name);
    }
}

#[test]
fn no_path_is_absolute_against_a_different_api_root() {
    for tool in read_tools() {
        assert!(tool.path.starts_with("/api2/json/"), "{} path {}", tool.name, tool.path);
    }
}

#[test]
fn looks_up_by_name() {
    assert!(read_tool("get_vms").is_some());
    assert!(read_tool("not_a_tool").is_none());
}

#[test]
fn the_two_guest_list_tools_are_distinguished_by_type_filter() {
    // Both hit /cluster/resources; without the filter one of them would lie.
    let vms = read_tool("get_vms").expect("get_vms");
    let containers = read_tool("get_containers").expect("get_containers");
    assert_eq!(vms.path, containers.path, "tools should share the same path");
    assert_eq!(vms.type_filter, Some(GuestType::Qemu), "get_vms should filter to QEMU");
    assert_eq!(containers.type_filter, Some(GuestType::Lxc), "get_containers should filter to LXC");
}

#[test]
fn the_three_storage_tools_are_distinguished_by_content_query() {
    let backups = read_tool("list_backups").expect("list_backups");
    let isos = read_tool("list_isos").expect("list_isos");
    let templates = read_tool("list_templates").expect("list_templates");
    assert_eq!(backups.path, isos.path, "backups and isos should share the same path");
    assert_eq!(isos.path, templates.path, "isos and templates should share the same path");
    assert_eq!(backups.query, vec![("content", "backup")], "list_backups should filter by backup content");
    assert_eq!(isos.query, vec![("content", "iso")], "list_isos should filter by iso content");
    assert_eq!(templates.query, vec![("content", "vztmpl")], "list_templates should filter by vztmpl content");
}

#[test]
fn tools_sharing_a_path_always_carry_a_discriminator() {
    // If an entry reuses a path with neither a type filter nor a query, two
    // tools become indistinguishable and at least one of their descriptions is
    // false.
    let tools = read_tools();
    for (index, tool) in tools.iter().enumerate() {
        for other in tools.iter().skip(index + 1) {
            if tool.path != other.path {
                continue;
            }
            let distinguished = tool.type_filter != other.type_filter || tool.query != other.query;
            assert!(
                distinguished,
                "{} and {} share a path with no discriminator",
                tool.name, other.name
            );
        }
    }
}

#[test]
fn an_entry_carries_its_description() {
    let nodes = read_tool("get_nodes").expect("get_nodes");
    assert_eq!(nodes.description, "All nodes in the cluster with status and resource totals.");
    assert!(!nodes.needs_guest);
    assert!(nodes.query.is_empty());
}

#[test]
fn three_reads_serve_one_guest_type() {
    assert_eq!(type_served_by("get_vm_config"), Some(GuestType::Qemu));
    assert_eq!(type_served_by("get_container_config"), Some(GuestType::Lxc));
    assert_eq!(type_served_by("get_container_ip"), Some(GuestType::Lxc));
    assert_eq!(type_served_by("get_guest_status"), None);
}
