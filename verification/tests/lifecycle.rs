//! Wire shapes of the guest operations.
//!
//! An operation that reaches the wrong path or encodes its parameters the wrong
//! way fails in a way only the request reveals.
use proxmoxmcp::client::{encode_form, Method, Request};
use proxmoxmcp::error::ProxmoxError;
use proxmoxmcp::guests::{
    clone_guest, create_backup, create_guest, create_snapshot, delete_snapshot, delete_volume,
    destroy_container, destroy_vm, download_url, guest_exec, guest_exec_output, guest_exec_pid,
    guest_exec_status, lifecycle, optional_upid_from, pid_from, read_status_again, resize_disk,
    restore_backup, rollback_snapshot, stop_task, task_status, update_container_resources,
    upid_from, upid_in, LifecycleVerb,
};
use proxmoxmcp::json::JsonShape;
use proxmoxmcp::selector::GuestType;

/// The path of a request with its parameters filled in.
fn path(request: &Request) -> String {
    let mut out = request.path_template.clone();
    for (name, value) in &request.params {
        out = out.replace(&format!("{{{name}}}"), value);
    }
    out
}

fn body(request: &Request) -> String {
    encode_form(&request.form)
}

const UPID: &str = "\"UPID:pve2:0000A1B2:00C3D4E5:66BC1234:qmstart:905:root@pam:\"";

#[test]
fn every_lifecycle_verb_reaches_its_own_path() {
    for (verb, segment) in [
        (LifecycleVerb::Start, "start"),
        (LifecycleVerb::Stop, "stop"),
        (LifecycleVerb::Shutdown, "shutdown"),
        (LifecycleVerb::Reset, "reset"),
        (LifecycleVerb::Reboot, "reboot"),
    ] {
        let request = lifecycle("pve2", GuestType::Qemu, 905, verb);
        assert_eq!(request.method, Method::Post, "{segment} must be a POST");
        assert_eq!(
            path(&request),
            format!("/api2/json/nodes/pve2/qemu/905/status/{segment}"),
            "{segment} reached the wrong path"
        );
    }
    assert_eq!(
        upid_from(UPID),
        Ok("UPID:pve2:0000A1B2:00C3D4E5:66BC1234:qmstart:905:root@pam:".to_owned())
    );
}

#[test]
fn the_guest_type_selects_the_path_segment() {
    // A container is /lxc/, a VM is /qemu/. Sending one to the other's path is
    // how a stop reaches a guest that merely shares a vmid on another node.
    let request = lifecycle("pve2", GuestType::Lxc, 610, LifecycleVerb::Stop);
    assert_eq!(path(&request), "/api2/json/nodes/pve2/lxc/610/status/stop");
}

#[test]
fn a_snapshot_sends_its_name_in_the_body() {
    let request = create_snapshot(
        "pve2",
        GuestType::Lxc,
        950,
        "pre-upgrade-20260825",
        Some("before the release wave"),
    );
    assert_eq!(path(&request), "/api2/json/nodes/pve2/lxc/950/snapshot");
    let body = body(&request);
    assert!(body.contains("snapname=pre-upgrade-20260825"), "{body}");
    assert!(body.contains("description=before%20the%20release%20wave"), "{body}");
}

#[test]
fn an_empty_snapshot_description_is_omitted_not_sent_blank() {
    for description in [Some(""), None] {
        let body = body(&create_snapshot("pve2", GuestType::Lxc, 950, "snap", description));
        assert!(
            !body.contains("description"),
            "an empty description must be omitted, not sent blank: {body}"
        );
    }
}

#[test]
fn a_backup_names_the_guest_in_the_body_not_the_path() {
    let request = create_backup("pve2", 950, "local", "snapshot", Some("zstd"));
    assert_eq!(path(&request), "/api2/json/nodes/pve2/vzdump");
    assert_eq!(body(&request), "vmid=950&storage=local&mode=snapshot&compress=zstd");
    assert_eq!(
        body(&create_backup("pve2", 950, "local", "stop", None)),
        "vmid=950&storage=local&mode=stop"
    );
}

#[test]
fn a_malformed_upid_is_refused_rather_than_returned() {
    let error = upid_from("\"not-a-upid\"").expect_err("a malformed UPID must be refused");
    assert_eq!(error, ProxmoxError::Malformed("malformed UPID: not-a-upid".to_owned()));
    for data in ["null", "7", "{}", "not json"] {
        assert_eq!(
            upid_from(data),
            Err(ProxmoxError::Malformed("data is not a string".to_owned()))
        );
    }
    assert!(upid_in(JsonShape::Text("UPID:a:1:2:3:k:i:u:".to_owned())).is_ok());
}

#[test]
fn destroying_a_vm_uses_the_qemu_path_and_purges_unreferenced_disks() {
    let request = destroy_vm("pve2", 905, true);
    assert_eq!(request.method, Method::Delete);
    assert_eq!(path(&request), "/api2/json/nodes/pve2/qemu/905");
    assert_eq!(encode_form(&request.query), "purge=1&destroy-unreferenced-disks=1");
    assert_eq!(
        encode_form(&destroy_vm("pve2", 905, false).query),
        "purge=0&destroy-unreferenced-disks=0"
    );
}

#[test]
fn destroying_a_container_purges_it() {
    let request = destroy_container("pve2", 617, true);
    assert_eq!(request.method, Method::Delete);
    assert_eq!(path(&request), "/api2/json/nodes/pve2/lxc/617");
    assert_eq!(encode_form(&request.query), "purge=1");
}

#[test]
fn deleting_a_snapshot_names_it_in_the_path() {
    let request = delete_snapshot("pve2", GuestType::Lxc, 950, "pre-upgrade-20260825");
    assert_eq!(request.method, Method::Delete);
    assert_eq!(path(&request), "/api2/json/nodes/pve2/lxc/950/snapshot/pre-upgrade-20260825");
}

#[test]
fn rolling_back_posts_to_the_rollback_subpath() {
    // DELETE on the snapshot path removes the snapshot, POST on .../rollback
    // restores the guest to it. Confusing the two destroys the wrong thing.
    let request = rollback_snapshot("pve2", GuestType::Lxc, 950, "pre-upgrade-20260825");
    assert_eq!(request.method, Method::Post, "a rollback is a POST, not a DELETE");
    assert_eq!(
        path(&request),
        "/api2/json/nodes/pve2/lxc/950/snapshot/pre-upgrade-20260825/rollback"
    );
}

#[test]
fn deleting_a_volume_addresses_it_by_volid() {
    let request = delete_volume("pve2", "local", "local:backup/vzdump-lxc-950.tar.zst").expect("volid");
    assert_eq!(request.method, Method::Delete);
    assert_eq!(
        path(&request),
        "/api2/json/nodes/pve2/storage/local/content/local%3Abackup%2Fvzdump-lxc-950.tar.zst"
    );
    // A null `data` is a normal answer here, not an error.
    assert_eq!(optional_upid_from("null"), "");
    assert_eq!(optional_upid_from("\"UPID:x\""), "UPID:x");
}

#[test]
fn a_volid_that_could_traverse_is_refused() {
    for (bad, fault) in [
        ("", "volid is empty"),
        ("local:../../etc/passwd", "volid contains '..', which cannot name a Proxmox volume"),
        ("no-colon/path", "volid is not in storage:path form"),
        ("local:a\u{7}b", "volid contains a control character"),
    ] {
        let error = delete_volume("pve2", "local", bad).expect_err("a malformed volid must be refused");
        assert_eq!(error, ProxmoxError::Malformed(fault.to_owned()), "{bad}");
    }
}

#[test]
fn restoring_posts_the_archive_and_force_in_the_body() {
    let request = restore_backup(
        "pve2",
        GuestType::Lxc,
        950,
        "local:backup/vzdump-lxc-950.tar.zst",
        true,
    );
    assert_eq!(request.method, Method::Post);
    assert_eq!(
        path(&request),
        "/api2/json/nodes/pve2/lxc",
        "restore posts to the type collection, with the guest named in the body"
    );
    let body = body(&request);
    assert!(body.contains("vmid=950"), "{body}");
    assert!(body.contains("restore=1"), "{body}");
    assert!(body.contains("force=1"), "overwriting an existing guest needs force: {body}");
    assert!(body.contains("archive=local%3Abackup%2Fvzdump-lxc-950.tar.zst"), "{body}");
}

#[test]
fn a_restore_without_force_says_so() {
    let request = restore_backup("pve2", GuestType::Qemu, 905, "local:backup/x", false);
    assert!(
        body(&request).contains("force=0"),
        "force must be sent explicitly, not omitted and defaulted by Proxmox"
    );
}

/// A container names itself `hostname`, a VM names itself `name`.
#[test]
fn a_clone_uses_the_name_field_its_guest_type_expects() {
    for (kind, expected_path, expected) in [
        (GuestType::Lxc, "/api2/json/nodes/pve2/lxc/610/clone", "hostname=cloned"),
        (GuestType::Qemu, "/api2/json/nodes/pve2/qemu/610/clone", "name=cloned"),
    ] {
        let request = clone_guest("pve2", kind, 610, 611, Some("cloned"), true);
        assert_eq!(path(&request), expected_path);
        let body = body(&request);
        assert!(body.contains(expected), "{kind:?}: {body}");
        assert!(body.contains("newid=611"), "{body}");
        assert!(body.contains("full=1"), "{body}");
    }
}

/// A linked clone shares base storage with its source, so the choice must
/// reach Proxmox rather than being defaulted here.
#[test]
fn a_linked_clone_sends_full_zero() {
    let body = body(&clone_guest("pve2", GuestType::Qemu, 610, 611, None, false));
    assert!(body.contains("full=0"), "{body}");
    assert!(!body.contains("name="), "no name was given: {body}");
}

/// A resize can answer synchronously with `null`.
#[test]
fn a_synchronous_resize_is_not_an_error() {
    let request = resize_disk("pve2", GuestType::Lxc, 610, "rootfs", "+8G");
    assert_eq!(path(&request), "/api2/json/nodes/pve2/lxc/610/resize");
    assert!(optional_upid_from("null").is_empty(), "a synchronous resize has no task handle");
    let body = body(&request);
    assert!(body.contains("disk=rootfs"), "{body}");
    assert!(body.contains("size=%2B8G"), "the + must survive encoding: {body}");
}

#[test]
fn creating_a_guest_posts_the_config_with_the_vmid() {
    let config = vec![
        ("ostemplate".to_owned(), "local:vztmpl/debian-13.tar.zst".to_owned()),
        ("cores".to_owned(), "2".to_owned()),
    ];
    let request = create_guest("pve2", GuestType::Lxc, 620, &config);
    assert_eq!(path(&request), "/api2/json/nodes/pve2/lxc");
    let body = body(&request);
    assert!(body.contains("vmid=620"), "{body}");
    assert!(body.contains("cores=2"), "{body}");
    assert!(body.contains("ostemplate=local%3Avztmpl%2Fdebian-13.tar.zst"), "{body}");
}

/// Proxmox verifies a download only when algorithm and value are both present.
#[test]
fn a_checksum_travels_as_a_pair_or_not_at_all() {
    let with = download_url(
        "pve2",
        "local",
        "iso",
        "debian.iso",
        "https://example.org/debian.iso",
        Some(("sha256", "abc123")),
    );
    assert_eq!(path(&with), "/api2/json/nodes/pve2/storage/local/download-url");
    let text = body(&with);
    assert!(text.contains("checksum-algorithm=sha256"), "{text}");
    assert!(text.contains("checksum=abc123"), "{text}");

    let without = body(&download_url(
        "pve2",
        "local",
        "iso",
        "debian.iso",
        "https://example.org/debian.iso",
        None,
    ));
    assert!(!without.contains("checksum"), "{without}");
}

#[test]
fn guest_exec_sends_argv_as_repeated_fields() {
    // Joining argv into one string would hand the guest's shell a line to
    // re-split.
    let words = vec!["/bin/systemctl".to_owned(), "restart".to_owned(), "my service".to_owned()];
    let request = guest_exec("pve2", 905, &words).expect("exec");
    assert_eq!(path(&request), "/api2/json/nodes/pve2/qemu/905/agent/exec");
    let body = body(&request);
    assert_eq!(body.matches("command=").count(), 3, "each argv element is its own field: {body}");
    assert!(
        body.contains("command=my%20service"),
        "an argument with a space must stay one argument: {body}"
    );
    assert_eq!(guest_exec_pid("{\"pid\":4242}"), Ok(4242));
}

#[test]
fn guest_exec_refuses_an_empty_command() {
    let error = guest_exec("pve2", 905, &Vec::new()).expect_err("an empty command must be refused");
    assert!(matches!(error, ProxmoxError::Malformed(_)));
}

#[test]
fn guest_exec_reports_a_missing_pid_rather_than_guessing() {
    for data in ["{}", "null", "{\"pid\":-1}", "{\"pid\":\"4242\"}", "{\"pid\":1.5}"] {
        let error = guest_exec_pid(data).expect_err("a response without a pid must not read as success");
        assert!(matches!(error, ProxmoxError::Malformed(_)), "{data}");
    }
    assert_eq!(pid_from(Some(7)), Ok(7));
    assert!(pid_from(None).is_err());
}

#[test]
fn a_commands_status_is_read_until_it_exits() {
    let request = guest_exec_status("pve2", 905, 4242);
    assert_eq!(request.method, Method::Get);
    assert_eq!(path(&request), "/api2/json/nodes/pve2/qemu/905/agent/exec-status");
    assert_eq!(encode_form(&request.query), "pid=4242");
    assert!(read_status_again(false, 0));
    assert!(read_status_again(false, 29));
    assert!(!read_status_again(false, 30));
    assert!(!read_status_again(true, 0));

    let output = guest_exec_output("{\"exited\":1,\"exitcode\":3,\"out-data\":\"hi\\n\",\"err-truncated\":true}");
    assert!(output.exited);
    assert_eq!(output.exit_code, Some(3));
    assert_eq!(output.stdout, "hi\n");
    assert_eq!(output.stderr, "");
    assert!(output.truncated);
    let pending = guest_exec_output("{\"exited\":0}");
    assert!(!pending.exited);
    assert_eq!(pending.exit_code, None);
    assert!(!pending.truncated);
}

#[test]
fn an_allocation_change_is_a_put_of_what_is_given() {
    let request = update_container_resources("pve2", 617, Some(4), Some(2048), None);
    assert_eq!(request.method, Method::Put);
    assert_eq!(path(&request), "/api2/json/nodes/pve2/lxc/617/config");
    assert_eq!(body(&request), "cores=4&memory=2048");
    assert_eq!(body(&update_container_resources("pve2", 617, None, None, Some(0))), "swap=0");
}

#[test]
fn a_task_is_addressed_by_its_encoded_handle() {
    let upid = "UPID:pve2:0000A1B2:00C3D4E5:66BC1234:vzdump:617:root@pam:";
    let stop = stop_task("pve2", upid);
    assert_eq!(stop.method, Method::Delete);
    assert_eq!(
        path(&stop),
        "/api2/json/nodes/pve2/tasks/UPID%3Apve2%3A0000A1B2%3A00C3D4E5%3A66BC1234%3Avzdump%3A617%3Aroot%40pam%3A"
    );
    let status = task_status("pve2", upid);
    assert_eq!(status.method, Method::Get);
    assert_eq!(
        path(&status),
        "/api2/json/nodes/pve2/tasks/UPID%3Apve2%3A0000A1B2%3A00C3D4E5%3A66BC1234%3Avzdump%3A617%3Aroot@pam%3A/status"
    );
}
