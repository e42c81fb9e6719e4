//! Properties that must hold regardless of how the surface grows.
//!
//! Unlike the unit tests that verify specific behaviors, these assert structural
//! invariants: constraints that must remain true as new tools are added.
use proxmoxmcp::catalog::read_tools;
use proxmoxmcp::tier::{tier_of, Tier, WRITE_TOOLS};

#[test]
fn every_catalog_path_templates_only_known_parameters() {
    let known: &[&str] = &["{node}", "{vmid}", "{kind}", "{storage}", "{upid}"];
    for tool in read_tools() {
        let mut rest = tool.path;
        while let Some(open) = rest.find('{') {
            let close = rest[open..]
                .find('}')
                .unwrap_or_else(|| panic!("unterminated placeholder in {}", tool.name));
            let placeholder = &rest[open..=open + close];
            assert!(
                known.contains(&placeholder),
                "{} uses unknown placeholder {placeholder}",
                tool.name
            );
            rest = &rest[open + close + 1..];
        }
    }
}

#[test]
fn no_catalog_tool_uses_a_mutating_method() {
    for tool in read_tools() {
        assert_eq!(
            format!("{:?}", tool.method).to_lowercase(),
            "get",
            "{} is not a GET",
            tool.name
        );
    }
}

#[test]
fn adversarial_every_write_tool_classifies_as_low_or_destructive() {
    // The write registry is what excludes a tool from the wildcard scope. A
    // destructive tool missing from it is reachable by a "tools": ["*"] token.
    for tool in WRITE_TOOLS {
        let tier = tier_of(tool).unwrap_or_else(|| panic!("unclassified tool {tool}"));
        assert!(
            matches!(tier, Tier::Low | Tier::Destructive),
            "{tool} is classified as {tier:?}, not Low or Destructive"
        );
    }
}

#[test]
fn the_write_registry_is_sorted_within_its_semantic_groups() {
    // Sorted groups keep a diff of the registry readable, which is when an
    // omission actually costs something.
    //
    // The registry has three sections:
    // 1. Low-tier tools (up to but not including resize_disk)
    // 2. resize_disk
    // 3. Destructive tools (from there onwards)
    //
    // The destructive section has execute_vm_command intentionally placed at the
    // end, so sortedness is checked of everything before it.
    let resize_pos = WRITE_TOOLS
        .iter()
        .position(|t| *t == "resize_disk")
        .expect("resize_disk present");
    let destructive_start = resize_pos + 1;
    let execute_pos = WRITE_TOOLS
        .iter()
        .position(|t| *t == "execute_vm_command")
        .expect("execute_vm_command present");

    let low_tier = &WRITE_TOOLS[..resize_pos];
    let mut low_sorted = low_tier.to_vec();
    low_sorted.sort_unstable();
    assert_eq!(low_tier, low_sorted.as_slice(), "low-tier section is not sorted");

    let destructive = &WRITE_TOOLS[destructive_start..execute_pos];
    let mut destructive_sorted = destructive.to_vec();
    destructive_sorted.sort_unstable();
    assert_eq!(
        destructive,
        destructive_sorted.as_slice(),
        "destructive section is not sorted"
    );

    assert_eq!(
        execute_pos,
        WRITE_TOOLS.len() - 1,
        "execute_vm_command should be the last element"
    );
}

#[test]
fn no_read_tool_name_appears_in_the_write_registry() {
    // A read tool in WRITE_TOOLS would exclude it from wildcard scope for no
    // reason, narrowing a "tools": ["*"] grant.
    for read_tool in read_tools() {
        assert!(
            !WRITE_TOOLS.contains(&read_tool.name),
            "read tool {} appears in WRITE_TOOLS",
            read_tool.name
        );
    }
}

#[test]
fn every_guest_scoped_tool_templates_both_node_and_vmid() {
    // A tool marked needs_guest but missing {node} or {vmid} in its path cannot
    // be resolved correctly: the executor would fail to build the URL.
    for tool in read_tools().iter().filter(|t| t.needs_guest) {
        assert!(
            tool.path.contains("{node}"),
            "{} is needs_guest but lacks {{node}}",
            tool.name
        );
        assert!(
            tool.path.contains("{vmid}"),
            "{} is needs_guest but lacks {{vmid}}",
            tool.name
        );
    }
}
