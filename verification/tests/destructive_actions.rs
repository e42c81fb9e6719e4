//! Destructive actions: what a plan records and what an approver reads.
use proxmoxmcp::selector::GuestType;
use proxmoxmcp::server::change_set::{
    build_destroy_action, build_exec_action, default_destructive_op, render_destructive_preview,
    tool_for_op, DestroyAction, PlanDestroyArgs, PlanExecArgs, EMPTY_ARGUMENT, EMPTY_COMMAND,
    NUL_IN_COMMAND,
};
use proxmoxmcp::server::KNOWN_TOOLS;
use proxmoxmcp::tier::WRITE_TOOLS;

fn args(op: &str) -> PlanDestroyArgs {
    PlanDestroyArgs {
        cluster: "pve3".to_owned(),
        vmid: 617,
        op: op.to_owned(),
        snapname: None,
        storage: None,
        volid: None,
        storage_node: None,
    }
}

fn action(op: &str, snapname: Option<&str>, volid: Option<&str>) -> DestroyAction {
    DestroyAction {
        op: op.to_owned(),
        cluster: "pve3".to_owned(),
        vmid: 617,
        snapname: snapname.map(ToOwned::to_owned),
        storage: Some("local".to_owned()),
        volid: volid.map(ToOwned::to_owned),
        storage_node: Some("pve2".to_owned()),
        command: None,
    }
}

/// A caller that passes no `op` means a destroy.
#[test]
fn the_default_operation_is_a_guest_destroy() {
    assert_eq!(default_destructive_op(), "destroy_guest");
    let action = build_destroy_action(&args("destroy_guest")).unwrap();
    assert_eq!(action.op, "destroy_guest");
    assert_eq!(action.vmid, 617);
    assert!(action.snapname.is_none());
}

/// Each operation names exactly what it needs, refused at plan time rather than
/// defaulted at apply time.
#[test]
fn a_missing_parameter_is_refused_at_plan_time() {
    for (op, missing) in [
        ("delete_snapshot", "snapname"),
        ("rollback_snapshot", "snapname"),
        ("delete_backup", "storage"),
        ("restore_backup", "volid"),
    ] {
        let error = build_destroy_action(&args(op)).expect_err("must be refused");
        assert!(
            error.contains(missing),
            "{op}: the refusal must name the missing parameter, got: {error}"
        );
    }
}

/// An empty string is not a parameter.
#[test]
fn an_empty_parameter_counts_as_missing() {
    let mut a = args("delete_snapshot");
    a.snapname = Some(String::new());
    assert!(build_destroy_action(&a).is_err());
}

/// A typo must not become a change set nobody can execute.
#[test]
fn an_unknown_operation_is_refused_with_the_valid_set() {
    let error = build_destroy_action(&args("delete_everything")).expect_err("refused");
    assert!(error.contains("unknown destructive operation"), "{error}");
    assert!(
        error.contains("rollback_snapshot"),
        "the refusal should list what is valid, got: {error}"
    );
}

/// `restore_backup` takes no storage: the archive volid names its own.
#[test]
fn restore_takes_the_volid_alone() {
    let mut a = args("restore_backup");
    a.volid = Some("local:backup/vzdump-lxc-617.tar.zst".to_owned());
    a.storage = Some("ignored".to_owned());
    let action = build_destroy_action(&a).unwrap();
    assert!(
        action.storage.is_none(),
        "a storage passed to restore must not reach the action"
    );
    assert_eq!(action.volid.as_deref(), Some("local:backup/vzdump-lxc-617.tar.zst"));
}

#[test]
fn a_volume_operation_records_storage_volid_and_node() {
    let mut a = args("delete_iso");
    a.storage_node = Some("pve2".to_owned());
    a.storage = Some("local".to_owned());
    assert_eq!(build_destroy_action(&a).expect_err("volid"), "delete_iso requires volid");
    a.volid = Some("local:iso/x.iso".to_owned());
    a.snapname = Some("not taken".to_owned());
    let action = build_destroy_action(&a).unwrap();
    assert_eq!(action.storage.as_deref(), Some("local"));
    assert_eq!(action.volid.as_deref(), Some("local:iso/x.iso"));
    assert_eq!(action.storage_node.as_deref(), Some("pve2"));
    assert!(action.snapname.is_none());
    assert_eq!(action.clone().volid, action.volid);
}

/// Every operation authorises against its own tool name.
#[test]
fn every_operation_maps_to_its_own_tool() {
    for (op, tool) in [
        ("destroy_guest", "delete_vm"),
        ("destroy", "delete_vm"),
        ("delete_snapshot", "delete_snapshot"),
        ("rollback_snapshot", "rollback_snapshot"),
        ("delete_backup", "delete_backup"),
        ("delete_iso", "delete_iso"),
        ("restore_backup", "restore_backup"),
    ] {
        assert_eq!(tool_for_op(op, GuestType::Qemu), Some(tool), "{op}");
    }
    assert_eq!(tool_for_op("delete_everything", GuestType::Qemu), None);
    assert_eq!(tool_for_op("guest_exec", GuestType::Qemu), Some("execute_vm_command"));
}

/// Every mapped tool is in WRITE_TOOLS.
#[test]
fn every_mapped_tool_is_excluded_from_the_wildcard() {
    for op in [
        "destroy_guest",
        "delete_snapshot",
        "rollback_snapshot",
        "delete_backup",
        "delete_iso",
        "restore_backup",
    ] {
        let tool = tool_for_op(op, GuestType::Qemu).unwrap();
        assert!(
            WRITE_TOOLS.contains(&tool),
            "{tool} is not in WRITE_TOOLS, so a wildcard token would reach it"
        );
    }
}

/// The preview must describe the operation that will run.
#[test]
fn each_operation_previews_as_itself() {
    let cases = [
        ("delete_snapshot", "DELETE SNAPSHOT"),
        ("rollback_snapshot", "ROLLBACK"),
        ("delete_backup", "DELETE BACKUP"),
        ("delete_iso", "DELETE ISO"),
        ("restore_backup", "RESTORE"),
    ];
    for (op, expected) in cases {
        let text =
            render_destructive_preview(&action(op, Some("snap"), Some("local:backup/x")), "g", "pve2");
        assert!(text.starts_with(expected), "{op}: {text}");
        assert!(!text.starts_with("DESTROY"), "{op} previewed as a guest destroy");
    }
}

/// The two that replace state rather than remove an object must say so.
#[test]
fn replacing_operations_warn_that_state_is_overwritten() {
    let rollback =
        render_destructive_preview(&action("rollback_snapshot", Some("s"), None), "g", "pve2");
    assert!(rollback.contains("OVERWRITES"), "{rollback}");
    let restore = render_destructive_preview(
        &action("restore_backup", None, Some("local:backup/x")),
        "g",
        "pve2",
    );
    assert!(restore.contains("OVERWRITES"), "{restore}");
}

/// A volume's node is part of its identity, because `local` is node-local.
#[test]
fn a_volume_operation_requires_its_storage_node() {
    let args = PlanDestroyArgs {
        cluster: "pve3".to_owned(),
        vmid: 617,
        op: "delete_backup".to_owned(),
        snapname: None,
        storage: Some("local".to_owned()),
        volid: Some("local:backup/x".to_owned()),
        storage_node: None,
    };
    let error = build_destroy_action(&args).expect_err("storage_node is required");
    assert!(error.contains("storage_node"), "{error}");
}

/// Every name the scope check demands must be grantable through the token CLI.
#[test]
fn every_operation_scope_is_grantable() {
    for op in [
        "destroy_guest",
        "destroy",
        "delete_snapshot",
        "rollback_snapshot",
        "delete_backup",
        "delete_iso",
        "restore_backup",
    ] {
        for kind in [GuestType::Lxc, GuestType::Qemu] {
            let tool = tool_for_op(op, kind).unwrap();
            assert!(
                KNOWN_TOOLS.contains(&tool),
                "{op} authorises against '{tool}', which the token CLI rejects as unknown"
            );
        }
    }
}

/// ...and every one of them stays excluded from the tool wildcard.
#[test]
fn grantable_does_not_mean_reachable_by_wildcard() {
    for op in ["destroy_guest", "delete_snapshot", "restore_backup"] {
        for kind in [GuestType::Lxc, GuestType::Qemu] {
            let tool = tool_for_op(op, kind).unwrap();
            assert!(
                WRITE_TOOLS.contains(&tool),
                "{tool} became reachable by a wildcard token"
            );
        }
    }
}

/// A container destroy and a VM destroy are different scopes.
#[test]
fn a_guest_destroy_authorises_against_its_guest_type() {
    assert_eq!(tool_for_op("destroy_guest", GuestType::Lxc), Some("delete_container"));
    assert_eq!(tool_for_op("destroy_guest", GuestType::Qemu), Some("delete_vm"));
    assert_eq!(tool_for_op("destroy", GuestType::Lxc), Some("delete_container"));
}

#[test]
fn a_command_is_recorded_word_by_word() {
    let plan = |words: &[&str]| PlanExecArgs {
        cluster: "pve3".to_owned(),
        vmid: 905,
        command: words.iter().map(|word| (*word).to_owned()).collect(),
    };
    assert_eq!(build_exec_action(&plan(&[])).expect_err("empty"), EMPTY_COMMAND);
    assert_eq!(build_exec_action(&plan(&["ls", "", "a\0"])).expect_err("word"), EMPTY_ARGUMENT);
    assert_eq!(build_exec_action(&plan(&["ls", "a\0b"])).expect_err("nul"), NUL_IN_COMMAND);
    let action = build_exec_action(&plan(&["systemctl", "status", "my service"])).unwrap();
    assert_eq!(action.op, "guest_exec");
    assert_eq!(
        action.command,
        Some(vec!["systemctl".to_owned(), "status".to_owned(), "my service".to_owned()])
    );
}

/// A word is quoted, so that its ends, its spaces and its escapes show.
#[test]
fn a_command_previews_each_word_quoted_on_its_own_line() {
    let mut run = action("guest_exec", None, None);
    run.command = Some(vec!["sh".to_owned(), "a \"b\"\n".to_owned()]);
    let text = render_destructive_preview(&run, "web", "pve2");
    assert_eq!(
        text,
        "RUN COMMAND in web (vmid 617, pve3, node pve2)\n  Executed by the QEMU guest agent as its \
         user, normally root. There is no shell: these arguments are passed through as given.\n    \
         \"sh\"\n    \"a \\\"b\\\"\\n\""
    );
}

#[test]
fn absent_parameters_show_as_question_marks() {
    let mut bare = action("delete_backup", None, None);
    bare.storage = None;
    bare.storage_node = None;
    let text = render_destructive_preview(&bare, "g", "pve2");
    assert!(text.starts_with("DELETE BACKUP '?' on storage '?' at node '?'\n"), "{text}");
    assert_eq!(
        render_destructive_preview(&action("explode", None, None), "g", "pve2"),
        "UNKNOWN OPERATION 'explode' on g (vmid 617, pve3, node pve2)"
    );
    assert_eq!(
        render_destructive_preview(&action("destroy", None, None), "g", "pve2"),
        "DESTROY g (vmid 617, pve3, node pve2)\n  The guest and its disks are removed. This cannot be undone."
    );
}
