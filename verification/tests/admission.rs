//! Scopes and grants of a caller, and the tool registries.
use proxmoxmcp::catalog::READ_TOOL_NAMES;
use proxmoxmcp::grant::{ProxmoxAction, ProxmoxGrant};
use proxmoxmcp::inventory::Cluster;
use proxmoxmcp::server::admission::{
    admit_call, principal, reach, request_id, resolve_grant, scope_desc, scopes_reach, Caller, ScopeSet,
};
use proxmoxmcp::server::{
    default_backup_mode, default_download_content, default_true, list_cache_hint,
    AUTHORIZATION_ONLY_TOOLS, KNOWN_TOOLS,
};
use proxmoxmcp::tier::WRITE_TOOLS;

fn caller(grant: Option<ProxmoxGrant>, tools: ScopeSet, devices: ScopeSet) -> Caller {
    Caller {
        token_name: "test-grantless-token".to_owned(),
        request_id: "req-1".to_owned(),
        grant,
        tools,
        devices,
    }
}

fn list(names: &[&str]) -> ScopeSet {
    ScopeSet::Allowlist(names.iter().map(|name| (*name).to_owned()).collect())
}

fn cluster() -> Cluster {
    Cluster {
        endpoint: "https://pve3.example.org:8006".to_owned(),
        token_id: "root@pam!mcp".to_owned(),
        token_secret_env: Some("X".to_owned()),
        token_secret_file: None,
        ca_pem_path: None,
        protected_vmids: Vec::new(),
        protected_tags: Vec::new(),
    }
}

#[test]
fn admits_a_call_within_both_scopes() {
    assert!(scopes_reach(&list(&["get_nodes"]), &list(&["pve3"]), "get_nodes", "pve3"));
}

#[test]
fn refuses_a_cluster_outside_the_device_scope() {
    assert!(!scopes_reach(&ScopeSet::Wildcard, &list(&["pve3"]), "get_nodes", "pve2"));
}

#[test]
fn a_tool_wildcard_does_not_reach_a_write_tool() {
    assert!(!scopes_reach(&ScopeSet::Wildcard, &ScopeSet::Wildcard, "delete_vm", "pve3"));
    for tool in WRITE_TOOLS {
        assert!(!scopes_reach(&ScopeSet::Wildcard, &ScopeSet::Wildcard, tool, "pve3"), "{tool}");
        assert!(scopes_reach(&list(&[tool]), &ScopeSet::Wildcard, tool, "pve3"), "{tool}");
    }
    assert!(!scopes_reach(&list(&["get_nodes"]), &ScopeSet::Wildcard, "delete_vm", "pve3"));
}

#[test]
fn lists_only_the_tools_the_token_scope_permits() {
    let tools = list(&["get_nodes"]);
    let visible: Vec<&str> = KNOWN_TOOLS
        .iter()
        .copied()
        .filter(|tool| scopes_reach(&tools, &list(&["pve3"]), tool, "pve3"))
        .collect();
    assert_eq!(visible, vec!["get_nodes"]);
}

#[test]
fn known_tools_includes_read_catalog_and_changeset_tools() {
    let changeset_tools = [
        "plan_proxmox_destroy",
        "get_proxmox_change_set",
        "approve_proxmox_change_set",
        "apply_proxmox_change_set",
    ];
    let low_tools = [
        "clone_vm",
        "create_backup",
        "create_container",
        "create_snapshot",
        "create_vm",
        "download_iso",
        "plan_proxmox_exec",
        "reset_vm",
        "resize_disk",
        "stop_task",
        "restart_container",
        "shutdown_vm",
        "start_container",
        "start_vm",
        "stop_container",
        "stop_vm",
        "update_container_resources",
    ];
    for tool in KNOWN_TOOLS {
        assert!(
            READ_TOOL_NAMES.contains(&tool)
                || changeset_tools.contains(&tool)
                || low_tools.contains(&tool)
                || AUTHORIZATION_ONLY_TOOLS.contains(&tool),
            "{tool} is in KNOWN_TOOLS but not in READ_TOOLS, changeset, low-tier, \
             or authorization-only tools"
        );
    }
    for tool in &low_tools {
        assert!(KNOWN_TOOLS.contains(tool), "low-tier tool {tool} missing from KNOWN_TOOLS");
        assert!(
            WRITE_TOOLS.contains(tool),
            "low-tier tool {tool} is not in WRITE_TOOLS, so a wildcard token would reach it"
        );
    }
    for tool in &changeset_tools {
        assert!(KNOWN_TOOLS.contains(tool), "changeset tool {tool} missing from KNOWN_TOOLS");
    }
}

#[test]
fn changeset_write_tools_are_registered() {
    let changeset_write =
        ["plan_proxmox_destroy", "approve_proxmox_change_set", "apply_proxmox_change_set"];
    for tool in &changeset_write {
        assert!(KNOWN_TOOLS.contains(tool), "changeset write tool {tool} must be registered");
    }
}

#[test]
fn known_tools_is_sorted_so_review_diffs_stay_readable() {
    let mut sorted = KNOWN_TOOLS.to_vec();
    sorted.sort_unstable();
    assert_eq!(KNOWN_TOOLS.as_slice(), sorted.as_slice());
}

#[test]
fn authenticated_token_without_grant_is_refused() {
    let grantless_caller = caller(None, ScopeSet::Wildcard, ScopeSet::Wildcard);
    let result = resolve_grant(Some(&grantless_caller));
    assert!(
        result.is_err(),
        "grantless authenticated token must be refused, not granted wildcard access"
    );
    let error_text = result.expect_err("already checked is_err");
    assert!(
        error_text.contains("test-grantless-token"),
        "error message must name the token: {error_text}"
    );
    assert!(
        error_text.contains("guests"),
        "error message must mention 'guests' selector: {error_text}"
    );
}

#[test]
fn stdio_path_gets_wildcard_read_grant() {
    let grant = resolve_grant(None).expect("stdio path should succeed");
    assert_eq!(grant.guests.len(), 1, "read_only grant should have one selector");
    assert_eq!(grant.guests, vec!["*"]);
    assert_eq!(grant.actions, vec![ProxmoxAction::Read]);
}

/// A client that negotiated cache hints rejects a list without them.
#[test]
fn a_modern_client_gets_a_private_cache_descriptor() {
    let hint = list_cache_hint(true).expect("hint");
    assert_eq!(hint.ttl_ms, 0, "a 2026-07-28 client rejects a tools/list without ttlMs");
    assert!(hint.private, "the list is filtered per token, so it must not be shared");
}

/// A strict legacy client rejects what it did not negotiate.
#[test]
fn a_legacy_client_gets_no_cache_descriptor() {
    assert_eq!(list_cache_hint(false), None);
}

#[test]
fn a_missing_token_reads_and_a_grant_is_used_as_it_is() {
    let grant = ProxmoxGrant { guests: vec!["tag:ci".to_owned()], actions: vec![ProxmoxAction::Low] };
    let bearer = caller(Some(grant), ScopeSet::Wildcard, ScopeSet::Wildcard);
    let config = cluster();
    let admitted = admit_call(Ok(()), Some(&config), "pve3", Some(&bearer)).expect("admitted");
    assert_eq!(admitted.guests, vec!["tag:ci"]);
    assert_eq!(
        admit_call(Ok(()), None, "pve9", Some(&bearer)).expect_err("unknown"),
        "unknown cluster: pve9"
    );
    assert_eq!(
        admit_call(Err("out of scope".to_owned()), None, "pve9", None).expect_err("refused"),
        "out of scope",
        "stage 1 comes before anything is said of the cluster"
    );
    assert_eq!(reach(Ok(()), Some(&config), "pve3"), Ok(()));
    assert_eq!(reach(Ok(()), None, "x"), Err("unknown cluster: x".to_owned()));
}

#[test]
fn callers_are_recorded_by_token_and_request() {
    let bearer = caller(None, ScopeSet::Wildcard, ScopeSet::Wildcard);
    assert_eq!(principal(Some(&bearer)), "test-grantless-token");
    assert_eq!(request_id(Some(&bearer)), "req-1");
    assert_eq!(principal(None), "stdio");
    assert_eq!(request_id(None), "stdio");
}

#[test]
fn scopes_are_described() {
    assert_eq!(scope_desc(None), "stdio");
    assert_eq!(scope_desc(Some(&caller(None, ScopeSet::Wildcard, ScopeSet::Wildcard))), "global");
    assert_eq!(scope_desc(Some(&caller(None, ScopeSet::Wildcard, list(&["a"])))), "device-scoped");
    assert_eq!(scope_desc(Some(&caller(None, list(&["a"]), ScopeSet::Wildcard))), "tool-scoped");
}

#[test]
fn defaults_are_the_harmless_ones() {
    assert_eq!(default_backup_mode(), "snapshot");
    assert_eq!(default_download_content(), "iso");
    assert!(default_true(), "a clone is a full copy unless asked otherwise");
}
