//! The life of a change set: plan, approve, apply, settle, recover.
use proxmoxmcp::client::{encode_form, Method, Request};
use proxmoxmcp::error::ProxmoxError;
use proxmoxmcp::grant::{ProxmoxAction, ProxmoxGrant};
use proxmoxmcp::guests::ExecOutput;
use proxmoxmcp::inventory::Cluster;
use proxmoxmcp::resolve::{GuestIndex, ResolvedGuest};
use proxmoxmcp::selector::GuestType;
use proxmoxmcp::server::admission::{Caller, ScopeSet};
use proxmoxmcp::server::apply::{
    begin_execution, choose_action, execute_destructive, intent_refusal, open_apply, read_started,
    verify_apply, Execution, Started, NEVER_REVIEWED,
};
use proxmoxmcp::server::change_set::{build_destroy_action, DestroyAction, PlanDestroyArgs};
use proxmoxmcp::server::low::CallContext;
use proxmoxmcp::server::outcome::{
    after_request, poll_refusal, recover_answer, recover_in_flight, recover_outcome, settle_exit,
    AfterRequest, ApplyReply, ExecReport, PollFailure, Recovered, Recovery, RECOVERED_EXECUTOR,
};
use proxmoxmcp::server::plan::{
    check_approval, confirm_plan, describe_change_set, device_name, guest_state, plan_change_set,
    planned_response, store_refusal, ChangeSetRecord, ChangeSetState, PlanDraft, StoreStep,
    NOTHING_TO_REVIEW, SELF_APPROVAL,
};
use proxmoxmcp::fingerprint::fingerprint;
use proxmoxmcp::protect::Override;
use proxmoxmcp::waiver::{WaiverEntry, WaiverFile};
use std::collections::BTreeMap;

const NOW: u64 = 1_790_000_000;
const UPID: &str = "UPID:pve2:0000A1B2:00C3D4E5:66BC1234:vzdestroy:617:root@pam:";

fn cluster() -> Cluster {
    Cluster {
        endpoint: "https://pve3.example.org:8006".to_owned(),
        token_id: "root@pam!mcp".to_owned(),
        token_secret_env: Some("X".to_owned()),
        token_secret_file: None,
        ca_pem_path: None,
        protected_vmids: vec![905],
        protected_tags: vec!["protected".to_owned()],
    }
}

fn guest(vmid: u32, kind: GuestType, tags: &[&str]) -> ResolvedGuest {
    ResolvedGuest {
        cluster: "pve3".to_owned(),
        vmid,
        name: format!("test-guest-{vmid}"),
        kind,
        node: "pve2".to_owned(),
        status: "running".to_owned(),
        tags: tags.iter().map(|tag| (*tag).to_owned()).collect(),
        pool: None,
    }
}

fn lxc617() -> ResolvedGuest {
    guest(617, GuestType::Lxc, &["test"])
}

fn full_grant() -> ProxmoxGrant {
    ProxmoxGrant {
        guests: vec!["*".to_owned()],
        actions: vec![ProxmoxAction::Read, ProxmoxAction::Low, ProxmoxAction::Destructive],
    }
}

fn caller(name: &str) -> Caller {
    Caller {
        token_name: name.to_owned(),
        request_id: "req-1".to_owned(),
        grant: Some(full_grant()),
        tools: ScopeSet::Wildcard,
        devices: ScopeSet::Wildcard,
    }
}

fn destroy_args(vmid: u32) -> PlanDestroyArgs {
    PlanDestroyArgs {
        cluster: "pve3".to_owned(),
        vmid,
        op: "destroy_guest".to_owned(),
        snapname: None,
        storage: None,
        volid: None,
        storage_node: None,
    }
}

fn plan(guest: ResolvedGuest, waivers: &WaiverFile, lab_mode: bool) -> Result<PlanDraft, String> {
    let config = cluster();
    let grant = full_grant();
    let context = CallContext { config: &config, grant: &grant, waivers, now_unix: NOW, lab_mode };
    let args = destroy_args(guest.vmid);
    plan_change_set(&context, guest, build_destroy_action(&args))
}

fn record(draft: &PlanDraft, state: ChangeSetState) -> ChangeSetRecord {
    ChangeSetRecord {
        id: "cs-1".to_owned(),
        device: draft.device().to_owned(),
        state,
        expected_fingerprint: draft.expected_fingerprint().to_owned(),
        digest: "d1".to_owned(),
        preview: Some(draft.preview().to_owned()),
        task_id: None,
    }
}

fn try_apply(
    record: ChangeSetRecord,
    action: DestroyAction,
    guest: ResolvedGuest,
    waivers: &WaiverFile,
    lab_mode: bool,
) -> Result<Execution, String> {
    let who = caller("executor");
    let open = open_apply(record, Some(&who))?;
    let ready = verify_apply(open, &cluster(), waivers, NOW, lab_mode, guest)?;
    let choice = choose_action(ready, Some(Ok(action)))?;
    begin_execution(choice, Ok(()))
}

fn approved_execution() -> Execution {
    let draft = plan(lxc617(), &WaiverFile::empty(), false).expect("plan");
    try_apply(
        record(&draft, ChangeSetState::Approved),
        draft.action().clone(),
        lxc617(),
        &WaiverFile::empty(),
        false,
    )
    .expect("apply")
}

fn path(request: &Request) -> String {
    let mut out = request.path_template.clone();
    for (name, value) in &request.params {
        out = out.replace(&format!("{{{name}}}"), value);
    }
    out
}

#[test]
fn planning_a_destroy_binds_the_fingerprint_and_returns_a_preview() {
    let draft = plan(lxc617(), &WaiverFile::empty(), false).expect("plan");
    assert!(draft.preview().contains("DESTROY"));
    assert!(draft.expected_fingerprint().starts_with("sha256:"));
    assert_eq!(draft.expected_fingerprint(), fingerprint(&guest_state(&lxc617())));
    assert_eq!(draft.op_tool(), "delete_container");
    assert_eq!(draft.device(), "pve3/617");
    assert_eq!(device_name("pve3", 617), "pve3/617");
    assert!(matches!(draft.override_(), Override::NoOverride));
    let response = planned_response(
        &draft,
        "cs-1".to_owned(),
        &ChangeSetState::Other("PendingApproval".to_owned()),
        "d1".to_owned(),
    );
    assert_eq!(response.change_set_id, "cs-1");
    assert_eq!(response.state, "PendingApproval");
    assert_eq!(response.preview, draft.preview());
    assert_eq!(response.expected_digest.as_deref(), Some("d1"));
}

#[test]
fn applying_without_approval_is_refused() {
    let draft = plan(lxc617(), &WaiverFile::empty(), false).expect("plan");
    let err = try_apply(
        record(&draft, ChangeSetState::Other("PendingApproval".to_owned())),
        draft.action().clone(),
        lxc617(),
        &WaiverFile::empty(),
        false,
    )
    .expect_err("an unapproved change set must not apply");
    assert!(err.to_lowercase().contains("approv"), "{err}");
    assert_eq!(err, "change set not approved (state: PendingApproval)");
}

#[test]
fn the_planner_cannot_approve_its_own_change_set() {
    let err = store_refusal(StoreStep::Approve, "owner cannot approve their own change set");
    assert!(err.to_lowercase().contains("self"), "{err}");
    assert_eq!(err, SELF_APPROVAL);
    assert_eq!(store_refusal(StoreStep::Approve, "expired"), "approve: expired");
    assert_eq!(store_refusal(StoreStep::Create, "full"), "create: full");
    assert_eq!(store_refusal(StoreStep::Get, "absent"), "get: absent");
    assert_eq!(store_refusal(StoreStep::Waiver, "x"), "waiver: x");
    assert_eq!(store_refusal(StoreStep::LabMode, "x"), "lab-mode: x");
    assert!(store_refusal(StoreStep::Preview, "disk full").contains("(disk full)"));
}

#[test]
fn planning_a_protected_guest_without_an_override_is_refused() {
    let err = plan(guest(905, GuestType::Qemu, &["protected"]), &WaiverFile::empty(), false)
        .expect_err("protected without waiver must refuse");
    assert!(err.to_lowercase().contains("protect"), "{err}");
}

#[test]
fn a_fingerprint_that_moved_after_approval_refuses_the_apply() {
    let draft = plan(lxc617(), &WaiverFile::empty(), false).expect("plan");
    let mut moved = lxc617();
    moved.node = "pve3".to_owned();
    let err = try_apply(
        record(&draft, ChangeSetState::Approved),
        draft.action().clone(),
        moved,
        &WaiverFile::empty(),
        false,
    )
    .expect_err("a moved guest must refuse the apply");
    assert!(err.to_lowercase().contains("fingerprint"), "{err}");
}

#[test]
fn a_protected_guest_with_matching_waiver_can_be_applied() {
    let waiver = WaiverEntry::new(
        "pve3".to_owned(),
        618,
        4102444800, // 2100-01-01 in Unix time
        "test waiver".to_owned(),
        Some("TEST-123".to_owned()),
    );
    let waivers = WaiverFile::with_entries(vec![waiver]);
    let protected = || guest(618, GuestType::Lxc, &["protected"]);
    let draft = plan(protected(), &waivers, false).expect("plan should succeed with matching waiver");
    assert!(matches!(draft.override_(), Override::Waiver { .. }));
    let result = try_apply(
        record(&draft, ChangeSetState::Approved),
        draft.action().clone(),
        protected(),
        &waivers,
        false,
    );
    assert!(result.is_ok(), "apply should succeed with matching waiver: {result:?}");
}

#[test]
fn a_protected_guest_with_lab_mode_can_be_applied() {
    let protected = || guest(619, GuestType::Lxc, &["protected"]);
    let draft = plan(protected(), &WaiverFile::empty(), true).expect("plan should succeed with lab_mode");
    assert!(matches!(draft.override_(), Override::LabMode));
    let result = try_apply(
        record(&draft, ChangeSetState::Approved),
        draft.action().clone(),
        protected(),
        &WaiverFile::empty(),
        true,
    );
    assert!(result.is_ok(), "apply should succeed with lab_mode: {result:?}");
    // The override is judged again at apply.
    let later = try_apply(
        record(&draft, ChangeSetState::Approved),
        draft.action().clone(),
        protected(),
        &WaiverFile::empty(),
        false,
    );
    assert!(later.expect_err("lab mode is off").contains("protected"));
}

#[test]
fn a_protected_guest_with_expired_waiver_is_refused() {
    let waiver = WaiverEntry::new(
        "pve3".to_owned(),
        905,
        946684800, // 2000-01-01 in Unix time
        "expired waiver".to_owned(),
        None,
    );
    let waivers = WaiverFile::with_entries(vec![waiver]);
    let err = plan(guest(905, GuestType::Qemu, &["protected"]), &waivers, false)
        .expect_err("plan should fail with expired waiver");
    assert!(err.to_lowercase().contains("protect"), "error should mention protection: {err}");
}

#[test]
fn a_change_set_without_a_stored_preview_cannot_be_approved() {
    let draft = plan(lxc617(), &WaiverFile::empty(), false).expect("plan");
    let mut stored = record(&draft, ChangeSetState::Other("PendingApproval".to_owned()));
    assert_eq!(check_approval(&stored), Ok("d1".to_owned()));
    stored.preview = None;
    let err = check_approval(&stored).expect_err("a previewless change set must not be approvable");
    assert!(
        err.to_lowercase().contains("preview"),
        "the refusal must name the missing preview: {err}"
    );
    assert_eq!(err, NOTHING_TO_REVIEW);
    assert_eq!(describe_change_set(&stored).preview, "(no preview)");
}

#[test]
fn a_change_set_without_a_stored_preview_cannot_be_applied() {
    let draft = plan(lxc617(), &WaiverFile::empty(), false).expect("plan");
    let mut stored = record(&draft, ChangeSetState::Approved);
    stored.preview = None;
    let err = try_apply(stored, draft.action().clone(), lxc617(), &WaiverFile::empty(), false)
        .expect_err("a previewless change set must not apply");
    assert!(
        err.to_lowercase().contains("preview"),
        "the refusal must name the missing preview: {err}"
    );
    assert_eq!(err, NEVER_REVIEWED);
}

#[test]
fn a_guest_that_moved_is_refused_even_while_the_resource_cache_is_warm() {
    let mut index = GuestIndex::new(300);
    let generation = index.generation();
    let mut reported = BTreeMap::new();
    reported.insert(617, lxc617());
    let planned_for = index.resolve("pve3", 617, generation, reported, 0).expect("resolve");
    let draft = plan(planned_for, &WaiverFile::empty(), false).expect("plan");

    // The guest moves without the server being told, and the cache is warm.
    assert!(index.lookup_fresh("pve3", 617, 1).is_some());
    index.invalidate_cluster("pve3");
    assert!(index.lookup_fresh("pve3", 617, 1).is_none(), "an apply must not read the plan's answer");
    let mut moved = lxc617();
    moved.node = "pve3".to_owned();
    let mut reported = BTreeMap::new();
    reported.insert(617, moved);
    let generation = index.generation();
    let now_at = index.resolve("pve3", 617, generation, reported, 1).expect("resolve");
    let err = try_apply(
        record(&draft, ChangeSetState::Approved),
        draft.action().clone(),
        now_at,
        &WaiverFile::empty(),
        false,
    )
    .expect_err("a guest that moved must not be destroyed on an approval bound to its old state");
    assert!(
        err.to_lowercase().contains("fingerprint"),
        "the refusal must name the fingerprint: {err}"
    );
}

#[test]
fn an_approved_destroy_issues_the_delete_and_follows_the_task_to_completion() {
    let execution = approved_execution();
    let request = execution.request().expect("request");
    assert_eq!(request.method, Method::Delete);
    assert!(path(&request).contains("/lxc/617"), "the DELETE must actually be issued");
    assert_eq!(encode_form(&request.query), "purge=1");

    let who = caller("executor");
    let (handle, update) = match after_request(&execution, Some(&who), Ok((UPID.to_owned(), None))) {
        AfterRequest::Follow { node, handle, update } => {
            assert_eq!(node, "pve2");
            (handle, update)
        }
        other => panic!("expected to follow the task, got {other:?}"),
    };
    assert_eq!(update.state, ChangeSetState::Applying);
    assert_eq!(update.task_id.as_deref(), Some(UPID));

    let end = settle_exit(&execution, Some(&who), handle, "OK".to_owned());
    match end.reply.expect("apply") {
        ApplyReply::Completed { upid, exitstatus } => {
            assert!(upid.starts_with("UPID:"));
            assert_eq!(exitstatus, "OK");
        }
        other => panic!("expected completion, got {other:?}"),
    }
    let receipt = end.receipt.expect("receipt");
    assert!(receipt.succeeded);
    assert_eq!(receipt.detail, "");
    assert_eq!(receipt.principal, "executor");
    assert_eq!(receipt.request_id, "req-1");
    assert_eq!(receipt.change_set_id, "cs-1");
    assert_eq!(receipt.device, "pve3/617");
    let update = end.update.expect("update");
    assert_eq!(update.state, ChangeSetState::Applied);
    assert!(update.task_id.is_none());
}

#[test]
fn a_task_that_ends_non_ok_is_reported_as_a_failure_not_a_success() {
    let execution = approved_execution();
    let end = settle_exit(
        &execution,
        None,
        UPID.to_owned(),
        "command 'lxc-destroy' failed: exit code 1".to_owned(),
    );
    let err = end.reply.expect_err("a failed task must not report success");
    assert!(err.contains("exit code 1"), "{err}");
    let receipt = end.receipt.expect("a failure is recorded as fully as a success");
    assert!(!receipt.succeeded);
    assert_eq!(receipt.principal, "stdio");
    assert_eq!(end.update.expect("update").state, ChangeSetState::Failed);
}

#[test]
fn a_definitive_refusal_settles_and_a_lost_request_does_not() {
    let execution = approved_execution();
    let denied = ProxmoxError::Api { status: 500, message: "locked".to_owned() };
    match after_request(&execution, None, Err(denied)) {
        AfterRequest::Settled(end) => {
            assert!(!end.receipt.expect("receipt").succeeded);
            assert_eq!(end.update.expect("update").state, ChangeSetState::Failed);
            assert!(end.reply.is_err());
        }
        other => panic!("expected settled, got {other:?}"),
    }
    for error in [ProxmoxError::Http("reset".to_owned()), ProxmoxError::Malformed("eof".to_owned())] {
        match after_request(&execution, None, Err(error)) {
            AfterRequest::Settled(end) => {
                assert!(end.receipt.is_none(), "an outcome nobody observed is not recorded");
                assert!(end.update.is_none());
                assert!(end.reply.is_err());
            }
            other => panic!("expected settled, got {other:?}"),
        }
    }
}

#[test]
fn a_synchronous_answer_completes_the_apply() {
    let execution = approved_execution();
    let output = ExecOutput {
        exited: true,
        exit_code: Some(3),
        stdout: "out".to_owned(),
        stderr: String::new(),
        truncated: false,
    };
    let report = ExecReport { pid: 4242, output };
    match after_request(&execution, None, Ok((String::new(), Some(report)))) {
        AfterRequest::Settled(end) => {
            assert!(end.receipt.expect("receipt").succeeded);
            assert_eq!(end.update.expect("update").state, ChangeSetState::Applied);
            match end.reply.expect("a command that exits non-zero is a completed apply") {
                ApplyReply::Synchronous { execution: Some(report) } => {
                    assert_eq!(report.pid, 4242);
                    assert_eq!(report.output.exit_code, Some(3));
                }
                other => panic!("expected the command's report, got {other:?}"),
            }
        }
        other => panic!("expected settled, got {other:?}"),
    }
    match after_request(&execution, None, Ok(("nonsense".to_owned(), None))) {
        AfterRequest::Settled(end) => {
            assert_eq!(end.reply.expect_err("unreadable"), "malformed UPID: nonsense");
            assert!(end.receipt.is_none());
        }
        other => panic!("expected settled, got {other:?}"),
    }
}

#[test]
fn a_narrowed_operation_scope_refuses_plan_and_apply() {
    let draft = plan(lxc617(), &WaiverFile::empty(), false).expect("plan");
    let stored = record(&draft, ChangeSetState::Approved);
    let action = draft.action().clone();
    assert_eq!(
        confirm_plan(draft, Err("tool not in scope".to_owned())).expect_err("scope"),
        "tool not in scope"
    );
    let who = caller("executor");
    let open = open_apply(stored, Some(&who)).expect("open");
    let ready = verify_apply(open, &cluster(), &WaiverFile::empty(), NOW, false, lxc617()).expect("verified");
    let choice = choose_action(ready, Some(Ok(action))).expect("chosen");
    assert_eq!(choice.op_tool(), "delete_container");
    assert_eq!(
        begin_execution(choice, Err("tool not in scope".to_owned())).expect_err("scope"),
        "tool not in scope"
    );
}

#[test]
fn only_a_recorded_and_known_action_is_taken_up() {
    let ready = || {
        let draft = plan(lxc617(), &WaiverFile::empty(), false).expect("plan");
        let who = caller("executor");
        let open = open_apply(record(&draft, ChangeSetState::Approved), Some(&who)).expect("open");
        verify_apply(open, &cluster(), &WaiverFile::empty(), NOW, false, lxc617()).expect("verified")
    };
    assert_eq!(
        choose_action(ready(), None).expect_err("none"),
        "the change set records no action"
    );
    assert_eq!(
        choose_action(ready(), Some(Err("bad json".to_owned()))).expect_err("unreadable"),
        "the change set's action could not be read (bad json); it cannot be applied"
    );
    let mut odd = build_destroy_action(&destroy_args(617)).unwrap();
    odd.op = "explode".to_owned();
    assert_eq!(
        choose_action(ready(), Some(Ok(odd))).expect_err("unknown"),
        "the change set names an unknown operation 'explode'"
    );
    assert!(intent_refusal("disk full").contains("(disk full)"));
}

#[test]
fn a_caller_without_a_token_applies_nothing() {
    let draft = plan(lxc617(), &WaiverFile::empty(), false).expect("plan");
    let open = open_apply(record(&draft, ChangeSetState::Approved), None).expect("open");
    let err = verify_apply(open, &cluster(), &WaiverFile::empty(), NOW, true, lxc617())
        .expect_err("the local caller may only read");
    assert!(err.contains("Destructive"), "{err}");
}

#[test]
fn each_recorded_action_dispatches_to_its_own_request() {
    let base = || DestroyAction {
        op: String::new(),
        cluster: "pve3".to_owned(),
        vmid: 617,
        snapname: Some("s".to_owned()),
        storage: Some("local".to_owned()),
        volid: Some("local:backup/x".to_owned()),
        command: Some(vec!["ls".to_owned()]),
        storage_node: Some("pve9".to_owned()),
    };
    for (op, kind, method, expected) in [
        ("destroy", GuestType::Lxc, Method::Delete, "/api2/json/nodes/pve2/lxc/617"),
        ("destroy_guest", GuestType::Qemu, Method::Delete, "/api2/json/nodes/pve2/qemu/617"),
        ("delete_snapshot", GuestType::Lxc, Method::Delete, "/api2/json/nodes/pve2/lxc/617/snapshot/s"),
        (
            "rollback_snapshot",
            GuestType::Lxc,
            Method::Post,
            "/api2/json/nodes/pve2/lxc/617/snapshot/s/rollback",
        ),
        (
            "delete_iso",
            GuestType::Lxc,
            Method::Delete,
            "/api2/json/nodes/pve9/storage/local/content/local%3Abackup%2Fx",
        ),
        ("restore_backup", GuestType::Lxc, Method::Post, "/api2/json/nodes/pve2/lxc"),
        ("guest_exec", GuestType::Qemu, Method::Post, "/api2/json/nodes/pve2/qemu/617/agent/exec"),
    ] {
        let mut action = base();
        action.op = op.to_owned();
        let request = execute_destructive(&action, kind, "pve2", 617).expect(op);
        assert_eq!(request.method, method, "{op}");
        assert_eq!(path(&request), expected, "{op}");
    }
    let refused = |change: &dyn Fn(&mut DestroyAction), op: &str, kind: GuestType| {
        let mut action = base();
        action.op = op.to_owned();
        change(&mut action);
        execute_destructive(&action, kind, "pve2", 617).expect_err(op).message()
    };
    assert_eq!(
        refused(&|a| a.snapname = None, "delete_snapshot", GuestType::Lxc),
        "malformed proxmox response: delete_snapshot action is missing snapname"
    );
    assert!(refused(&|a| a.storage = None, "delete_backup", GuestType::Lxc).contains("missing storage"));
    assert!(refused(&|a| a.volid = None, "delete_backup", GuestType::Lxc).contains("missing volid"));
    assert!(refused(&|a| a.storage_node = None, "delete_backup", GuestType::Lxc)
        .contains("missing storage_node"));
    assert!(refused(&|a| a.volid = None, "restore_backup", GuestType::Lxc).contains("missing volid"));
    assert!(refused(&|a| a.command = None, "guest_exec", GuestType::Qemu).contains("missing command"));
    assert!(refused(&|_| {}, "guest_exec", GuestType::Lxc).contains("is an LXC container"));
    assert!(refused(&|_| {}, "explode", GuestType::Lxc).contains("unknown destructive operation 'explode'"));
}

#[test]
fn recovery_asks_only_after_what_was_in_flight() {
    let draft = plan(lxc617(), &WaiverFile::empty(), false).expect("plan");
    let clusters = vec!["pve2".to_owned(), "pve3".to_owned()];
    let mut stored = record(&draft, ChangeSetState::Applied);
    stored.task_id = Some(UPID.to_owned());
    assert!(matches!(
        recover_in_flight(&stored, &clusters),
        Recovery::NotApplying { stray_handle: true }
    ));
    stored.state = ChangeSetState::Applying;
    match recover_in_flight(&stored, &clusters) {
        Recovery::Probe { cluster, request } => {
            assert_eq!(cluster, "pve3", "the record names the cluster, not the handle");
            assert_eq!(request.method, Method::Get);
            assert_eq!(
                path(&request),
                "/api2/json/nodes/pve2/tasks/UPID%3Apve2%3A0000A1B2%3A00C3D4E5%3A66BC1234%3Avzdestroy%3A617%3Aroot@pam%3A/status"
            );
        }
        other => panic!("expected a probe, got {other:?}"),
    }
    assert!(matches!(
        recover_in_flight(&stored, &vec!["pve2".to_owned()]),
        Recovery::UnknownCluster(name) if name == "pve3"
    ));
    stored.device = "pve3".to_owned();
    assert!(matches!(recover_in_flight(&stored, &clusters), Recovery::UnreadableDevice));
    stored.task_id = Some("x".to_owned());
    assert!(matches!(recover_in_flight(&stored, &clusters), Recovery::UnreadableHandle));
    stored.task_id = None;
    assert!(matches!(recover_in_flight(&stored, &clusters), Recovery::NoHandle));
}

#[test]
fn recovery_never_invents_an_outcome() {
    let draft = plan(lxc617(), &WaiverFile::empty(), false).expect("plan");
    let stored = record(&draft, ChangeSetState::Applying);
    let some = |text: &str| Some(text.to_owned());
    assert!(matches!(recover_outcome(&stored, some("running"), some("OK")), Recovered::StillRunning));
    assert!(matches!(recover_outcome(&stored, some("stopped"), None), Recovered::NoExitStatus));
    match recover_outcome(&stored, some("stopped"), some("OK")) {
        Recovered::Settled { receipt, update } => {
            assert!(receipt.succeeded);
            assert_eq!(receipt.detail, "");
            assert_eq!(receipt.principal, RECOVERED_EXECUTOR);
            assert_eq!(receipt.request_id, "cs-1");
            assert_eq!(update.state, ChangeSetState::Applied);
        }
        other => panic!("expected settled, got {other:?}"),
    }
    match recover_outcome(&stored, None, some("killed")) {
        Recovered::Settled { receipt, update } => {
            assert!(!receipt.succeeded);
            assert_eq!(receipt.detail, "killed");
            assert_eq!(update.state, ChangeSetState::Failed);
            assert!(update.task_id.is_none());
        }
        other => panic!("expected settled, got {other:?}"),
    }
}

#[test]
fn a_status_answer_settles_what_was_in_flight() {
    let draft = plan(lxc617(), &WaiverFile::empty(), false).expect("plan");
    let stored = record(&draft, ChangeSetState::Applying);
    match recover_answer(&stored, r#"{"status":"stopped","exitstatus":"OK"}"#) {
        Recovered::Settled { receipt, update } => {
            assert!(receipt.succeeded);
            assert_eq!(update.state, ChangeSetState::Applied);
        }
        other => panic!("expected settled, got {other:?}"),
    }
    assert!(matches!(
        recover_answer(&stored, r#"{"status":"running","exitstatus":"OK"}"#),
        Recovered::StillRunning
    ));
    assert!(matches!(
        recover_answer(&stored, r#"{"status":"stopped","exitstatus":null}"#),
        Recovered::NoExitStatus
    ));
}

#[test]
fn an_answer_says_what_was_started() {
    let handle = format!("\"{UPID}\"");
    assert!(matches!(read_started("destroy_guest", &handle), Ok(Started::Task(h)) if h == UPID));
    assert!(matches!(read_started("delete_iso", &handle), Ok(Started::Task(h)) if h == UPID));
    assert!(matches!(read_started("delete_backup", "null"), Ok(Started::Task(h)) if h.is_empty()));
    assert!(matches!(
        read_started("rollback_snapshot", "null"),
        Err(ProxmoxError::Malformed(text)) if text == "data is not a string"
    ));
    assert!(matches!(
        read_started("guest_exec", r#"{"pid":4242}"#),
        Ok(Started::Command(4242))
    ));
    assert!(matches!(
        read_started("guest_exec", &handle),
        Err(ProxmoxError::Malformed(text)) if text == "agent exec returned no pid"
    ));
}

#[test]
fn a_poll_that_ends_early_says_why() {
    assert_eq!(
        poll_refusal(&PollFailure::Cancelled { attempts: 3 }),
        "polling cancelled after 3 attempt(s)"
    );
    assert_eq!(
        poll_refusal(&PollFailure::DeadlineExceeded { attempts: 40, deadline: "300s".to_owned() }),
        "polling exceeded its 300s deadline after 40 attempt(s)"
    );
    assert_eq!(
        poll_refusal(&PollFailure::Probe { attempts: 1, source: "eof".to_owned() }),
        "probe failed on attempt 1: eof"
    );
    assert_eq!(
        poll_refusal(&PollFailure::Config("zero".to_owned())),
        "invalid poll configuration: zero"
    );
}
