//! The low tier and the read surface: what each call sends or refuses.
use proxmoxmcp::client::{encode_form, read_answer, Method, Request};
use proxmoxmcp::error::ProxmoxError;
use proxmoxmcp::grant::{ProxmoxAction, ProxmoxGrant};
use proxmoxmcp::inventory::Cluster;
use proxmoxmcp::resolve::{authorize, Intent, ResolvedGuest};
use proxmoxmcp::selector::GuestType;
use proxmoxmcp::server::low::{
    clone_vm, create_backup, create_snapshot, lifecycle_tool, resize_disk, serve_lifecycle,
    stop_target, stop_task, update_container_resources, CallContext, NOTHING_TO_CHANGE,
};
use proxmoxmcp::server::provision::{
    checksum_verified, create_guest_inner, download_iso, has_host_path, is_refused_key,
    redact_download_url, HALF_A_CHECKSUM,
};
use proxmoxmcp::server::read::{begin_read, filter_listing, guest_read_request, read_request};
use proxmoxmcp::server::{
    BackupArgs, CloneArgs, ContainerResourceArgs, CreateGuestArgs, DownloadIsoArgs, ResizeArgs,
    SnapshotArgs, StopTaskArgs,
};
use proxmoxmcp::waiver::{WaiverEntry, WaiverFile};

fn cluster() -> Cluster {
    Cluster {
        endpoint: "https://pve3.example.org:8006".to_owned(),
        token_id: "root@pam!mcp".to_owned(),
        token_secret_env: Some("X".to_owned()),
        token_secret_file: None,
        ca_pem_path: None,
        protected_vmids: vec![905],
        protected_tags: vec!["protected".to_owned()],
    }
}

fn resolve(vmid: u32) -> Option<ResolvedGuest> {
    let (kind, name, tag) = match vmid {
        905 => (GuestType::Qemu, "vsrx-prod", "protected"),
        617 => (GuestType::Lxc, "test-guest-617", "test"),
        700 => (GuestType::Qemu, "a-vm", "test"),
        _ => return None,
    };
    Some(ResolvedGuest {
        cluster: "pve3".to_owned(),
        vmid,
        name: name.to_owned(),
        kind,
        node: "pve2".to_owned(),
        status: "running".to_owned(),
        tags: vec![tag.to_owned()],
        pool: None,
    })
}

fn guest(vmid: u32) -> ResolvedGuest {
    resolve(vmid).expect("known guest")
}

fn grant(guests: &[&str]) -> ProxmoxGrant {
    ProxmoxGrant {
        guests: guests.iter().map(|g| (*g).to_owned()).collect(),
        actions: vec![ProxmoxAction::Read, ProxmoxAction::Low],
    }
}

fn not_found(vmid: u32) -> Result<ResolvedGuest, ProxmoxError> {
    Err(ProxmoxError::NotFound { what: format!("guest {vmid} in cluster pve3") })
}

fn path(request: &Request) -> String {
    let mut out = request.path_template.clone();
    for (name, value) in &request.params {
        out = out.replace(&format!("{{{name}}}"), value);
    }
    out
}

fn create(
    kind: GuestType,
    vmid: u32,
    guests: &[&str],
    config: &[(&str, &str)],
    resolution: Result<ResolvedGuest, ProxmoxError>,
) -> Result<Request, String> {
    let args = CreateGuestArgs {
        cluster: "pve3".to_owned(),
        node: "pve2".to_owned(),
        vmid,
        config: config.iter().map(|(k, v)| ((*k).to_owned(), (*v).to_owned())).collect(),
    };
    create_guest_inner(kind, &args, &grant(guests), &cluster(), &resolution)
}

fn download(guests: &[&str], algorithm: Option<&str>, checksum: Option<&str>) -> Result<(Request, bool), String> {
    let args = DownloadIsoArgs {
        cluster: "pve3".to_owned(),
        node: "pve2".to_owned(),
        storage: "local".to_owned(),
        filename: "debian.iso".to_owned(),
        url: "https://example.invalid/debian.iso".to_owned(),
        content: "iso".to_owned(),
        checksum_algorithm: algorithm.map(str::to_owned),
        checksum: checksum.map(str::to_owned),
    };
    download_iso(&args, &grant(guests)).map(|request| (request, checksum_verified(&args)))
}

fn resources(vmid: u32, cores: Option<u32>, memory_mb: Option<u32>) -> Result<Request, String> {
    let args = ContainerResourceArgs {
        cluster: "pve3".to_owned(),
        vmid,
        cores,
        memory_mb,
        swap_mb: None,
    };
    let config = cluster();
    let grant = grant(&["*"]);
    let waivers = WaiverFile::empty();
    let context =
        CallContext { config: &config, grant: &grant, waivers: &waivers, now_unix: 1, lab_mode: false };
    update_container_resources(&args, &context, guest(vmid)).map(|call| call.request)
}

fn stop(upid: &str, guests: &[&str]) -> Result<Request, String> {
    let args = StopTaskArgs { cluster: "pve3".to_owned(), upid: upid.to_owned() };
    let config = cluster();
    let grant = grant(guests);
    let waivers = WaiverFile::empty();
    let context =
        CallContext { config: &config, grant: &grant, waivers: &waivers, now_unix: 1, lab_mode: false };
    let target = stop_target(&args)?;
    stop_task(&args, &context, target.and_then(resolve))
}

const VZDUMP: &str = "UPID:pve2:0000A1B2:00C3D4E5:66BC1234:vzdump:617:root@pam:";

#[test]
fn a_vm_is_created_at_a_free_vmid() {
    let request = create(
        GuestType::Qemu,
        650,
        &["*"],
        &[("memory", "2048"), ("name", "test-650")],
        not_found(650),
    )
    .expect("create");
    assert_eq!(request.method, Method::Post);
    assert_eq!(path(&request), "/api2/json/nodes/pve2/qemu");
    assert_eq!(encode_form(&request.form), "vmid=650&memory=2048&name=test-650");
}

#[test]
fn a_container_is_created_through_the_lxc_endpoint() {
    let request =
        create(GuestType::Lxc, 651, &["*"], &[("hostname", "ct-651")], not_found(651)).expect("create");
    assert_eq!(request.method, Method::Post);
    assert_eq!(
        path(&request),
        "/api2/json/nodes/pve2/lxc",
        "a container must be created through the lxc path"
    );
    assert_eq!(encode_form(&request.form), "vmid=651&hostname=ct-651&unprivileged=1");
}

/// Nothing resolves a guest here, so the destination is the only thing the
/// grant can be checked against.
#[test]
fn a_vmid_outside_the_token_scope_is_refused() {
    let err = create(GuestType::Qemu, 800, &["vmid:600-699"], &[], not_found(800))
        .expect_err("800 is outside vmid:600-699");
    assert!(err.to_lowercase().contains("scope"), "{err}");
}

/// A pinned VMID is pinned because something important belongs there.
#[test]
fn creating_over_a_protected_pin_is_refused() {
    let err = create(GuestType::Qemu, 905, &["*"], &[], not_found(905)).expect_err("905 is a protected pin");
    assert!(err.to_lowercase().contains("protected"), "{err}");
}

#[test]
fn creating_over_an_existing_guest_is_refused() {
    let err = create(GuestType::Qemu, 700, &["*"], &[], Ok(guest(700))).expect_err("700 exists");
    assert!(err.contains("already exists") && err.contains("'a-vm'"), "{err}");
    let err = create(GuestType::Qemu, 650, &["*"], &[], Err(ProxmoxError::Http("reset".to_owned())))
        .expect_err("unknown whether it is free");
    assert!(err.starts_with("could not establish whether vmid 650 is free on cluster pve3: "), "{err}");
}

/// `hookscript` and `args` execute on the hypervisor, not in the guest.
#[test]
fn config_keys_that_run_on_the_host_are_refused() {
    for key in ["hookscript", "args"] {
        let err = create(GuestType::Qemu, 650, &["*"], &[(key, "/anything")], not_found(650))
            .expect_err("a host-escaping config key must be refused");
        assert!(err.contains(key), "the refusal must name {key}: {err}");
    }
}

#[test]
fn numbered_and_namespaced_keys_are_refused_in_any_case() {
    for key in ["mp0", "HOSTPCI12", "usb1", "dev0", "serial3", "parallel0", "lxc.mount", "Force", "lxc."] {
        assert!(is_refused_key(key), "{key}");
    }
    for key in ["mp", "memory", "name", "usbstick", "device", "serial0x", "lxc"] {
        assert!(!is_refused_key(key), "{key}");
    }
    for value in ["/dev/sdb", "local-lvm:32,import-from=/tmp/x", "a,/b"] {
        assert!(has_host_path(value), "{value}");
    }
    for value in ["local-lvm:32", "local:iso/x.iso,media=cdrom", "", "a=b=/c"] {
        assert!(!has_host_path(value), "{value}");
    }
    let err = create(GuestType::Qemu, 650, &["*"], &[("scsi0", "/dev/sdb")], not_found(650))
        .expect_err("a host path");
    assert!(err.starts_with("config key(s) scsi0 carry an absolute host path."), "{err}");
}

#[test]
fn an_image_downloads_with_a_verified_checksum() {
    let (request, verified) = download(&["*"], Some("sha256"), Some("abc123")).expect("download");
    assert!(verified);
    assert_eq!(path(&request), "/api2/json/nodes/pve2/storage/local/download-url");
    assert!(encode_form(&request.form).ends_with("checksum-algorithm=sha256&checksum=abc123"));
    let (_, verified) = download(&["*"], None, None).expect("download");
    assert!(!verified);
}

/// Proxmox ignores one half without the other.
#[test]
fn half_a_checksum_is_refused() {
    let err = download(&["*"], Some("sha256"), None).expect_err("a lone algorithm must be refused");
    assert!(err.to_lowercase().contains("checksum"), "{err}");
    assert_eq!(err, HALF_A_CHECKSUM);
    assert!(download(&["*"], None, Some("abc123")).is_err());
}

/// A storage belongs to no guest, so a narrowed guest scope cannot be checked
/// against it.
#[test]
fn a_narrowed_token_may_not_write_to_storage() {
    let err = download(&["vmid:600-699"], None, None)
        .expect_err("a guest-scoped token must not reach storage");
    assert!(err.contains('*'), "the refusal must name the required scope: {err}");
}

#[test]
fn what_is_recorded_of_a_url_holds_no_credentials() {
    for (url, shown) in [
        ("https://user:pw@host/a/b?sig=secret#frag", "https://host/a/b?<redacted>"),
        ("https://host/a", "https://host/a"),
        ("https://host", "https://host"),
        ("user@host/x", "host/x"),
        ("https://host/a@b", "https://host/a@b"),
        ("ftp://h?q", "ftp://h?<redacted>"),
        ("https://a@b@host/#x?y", "https://host/"),
        ("example.org/d.iso?sig=abc&next=https://x/y", "example.org/d.iso?<redacted>"),
        ("user:pw@host/p?u=http://y", "host/p?<redacted>"),
        ("user:pw@host/p#http://y", "host/p"),
        ("//user:pw@host/p?next=https://x", "//host/p?<redacted>"),
        ("//host/p", "//host/p"),
        ("user:pw@host/p://q", "host/p://q"),
        ("user:pw@host://q", "host://q"),
        ("://user@host/p", "host/p"),
        ("https://user:pw@host", "https://host"),
        ("https://user:pw@host?a=b#c?d", "https://host?<redacted>"),
    ] {
        assert_eq!(redact_download_url(url), shown, "{url}");
    }
}

#[test]
fn a_container_allocation_is_changed() {
    let request = resources(617, Some(4), Some(2048)).expect("update");
    assert_eq!(request.method, Method::Put, "Proxmox updates a config with PUT, not POST");
    assert!(path(&request).ends_with("/lxc/617/config"));
    assert_eq!(encode_form(&request.form), "cores=4&memory=2048");
}

/// A call with no fields would PUT nothing and report success.
#[test]
fn an_empty_resource_change_is_refused() {
    let err = resources(617, None, None).expect_err("nothing to change must be refused");
    assert!(err.to_lowercase().contains("at least one"), "{err}");
    assert_eq!(err, NOTHING_TO_CHANGE);
}

/// The endpoint is LXC-only.
#[test]
fn a_qemu_guest_is_refused_by_name() {
    let err = resources(700, Some(2), None).expect_err("a VM is not a container");
    assert!(err.to_uppercase().contains("QEMU"), "{err}");
}

#[test]
fn a_backup_task_can_be_stopped() {
    let request = stop(VZDUMP, &["*"]).expect("stop");
    assert_eq!(request.method, Method::Delete);
    assert!(path(&request).contains("vzdump"));
}

/// Stopping a restore half-way leaves a guest that is neither its old self nor
/// its new one.
#[test]
fn stopping_a_restore_is_refused() {
    for worker in ["qmrestore", "vzrestore", "qmdestroy", "vzdestroy"] {
        let upid = format!("UPID:pve2:0000A1B2:00C3D4E5:66BC1234:{worker}:617:root@pam:");
        let err = stop(&upid, &["*"]).expect_err("a restore or destroy must not be interruptible");
        assert!(err.contains("half-way"), "{worker}: {err}");
    }
}

/// A malformed handle cannot be classified.
#[test]
fn an_unreadable_task_handle_is_refused() {
    let err = stop("not-a-upid", &["*"]).expect_err("an unreadable handle must be refused");
    assert!(!err.is_empty());
}

/// A guest-addressed task is checked against the guest scope.
#[test]
fn a_narrowed_token_is_scoped_per_guest_not_shut_out() {
    // 617 is inside the scope.
    stop(VZDUMP, &["vmid:600-699"]).expect("617 is in scope");
    // 700 is not.
    let err = stop(
        "UPID:pve2:0000A1B2:00C3D4E5:66BC1234:vzdump:700:root@pam:",
        &["vmid:600-699"],
    )
    .expect_err("700 is outside vmid:600-699");
    assert!(!err.is_empty());
    let err = stop("UPID:pve2:0000A1B2:00C3D4E5:66BC1234:vzdump:4242:root@pam:", &["*"])
        .expect_err("no such guest");
    assert!(err.contains("4242"), "{err}");
}

/// A node-level task names no guest, so nothing can narrow it.
#[test]
fn a_narrowed_token_may_not_stop_a_node_level_task() {
    let node_task = "UPID:pve2:0000A1B2:00C3D4E5:66BC1234:srvreload:pve2:root@pam:";
    let err = stop(node_task, &["vmid:600-699"])
        .expect_err("a node-level task needs an unrestricted scope");
    assert!(err.contains('*'), "{err}");
    stop(node_task, &["*"]).expect("an unrestricted scope stands in");
}

/// Cancelling a guest's operation interrupts the guest.
#[test]
fn cancelling_a_protected_guests_task_is_refused() {
    let err = stop("UPID:pve2:0000A1B2:00C3D4E5:66BC1234:qmigrate:905:root@pam:", &["*"])
        .expect_err("905 is protected");
    assert!(
        err.to_lowercase().contains("protect"),
        "the refusal must name protection: {err}"
    );
}

/// The node is read from the handle.
#[test]
fn the_cancel_goes_to_the_node_named_in_the_handle() {
    let request = stop(VZDUMP, &["*"]).expect("stop");
    assert!(
        path(&request).starts_with("/api2/json/nodes/pve2/tasks/"),
        "the cancel must address the handle's node"
    );
}

fn read_guest(tool: &str, vmid: u32, guests: &[&str]) -> Result<Request, String> {
    let config = cluster();
    let entry = begin_read(Ok(()), tool, Some(&config), "pve3")?;
    let authorized = authorize(&config, guest(vmid), &grant(guests), Intent::read())
        .map_err(|error| error.message())?;
    guest_read_request(&entry, &Vec::new(), &authorized)
}

/// `get_container_ip` reads an LXC interface list.
#[test]
fn get_container_ip_refuses_a_qemu_guest_by_name() {
    let err = read_guest("get_container_ip", 700, &["*"]).expect_err("a VM has no container interface list");
    assert!(
        err.to_uppercase().contains("QEMU") || err.to_lowercase().contains("container"),
        "the refusal must name the guest-type mismatch: {err}"
    );
    assert_eq!(err, "get_container_ip requires an LXC guest, but 700 is a QEMU VM");
}

#[test]
fn a_permitted_read_returns_cluster_data() {
    let config = cluster();
    let entry = begin_read(Ok(()), "get_nodes", Some(&config), "pve3").expect("entry");
    let request = read_request(&entry, &Vec::new());
    assert_eq!(request.method, Method::Get);
    assert_eq!(path(&request), "/api2/json/nodes");
    let result_str = filter_listing("[{\"node\":\"pve2\",\"status\":\"online\"}]", entry.type_filter);
    assert!(result_str.contains("pve2"), "result should contain pve2: {result_str}");
}

#[test]
fn a_cluster_outside_scope_is_refused_before_any_proxmox_request() {
    let outcome = begin_read(Err("cluster not in scope".to_owned()), "get_nodes", None, "pve2");
    assert_eq!(outcome.expect_err("a refusal from the preflight"), "cluster not in scope");
}

#[test]
fn a_guest_outside_the_grant_selector_is_refused_after_resolution() {
    let result_str = read_guest("get_vm_config", 905, &["vmid:600-699"]).expect_err("out of scope");
    assert!(result_str.contains("scope"), "error should mention scope: {result_str}");
    assert!(
        !result_str.contains("vsrx-prod"),
        "a refused call must not leak the guest name: {result_str}"
    );
}

/// A path that names the guest type takes no `kind`.
#[test]
fn type_specific_config_reads_reach_proxmox() {
    let request = read_guest("get_container_config", 617, &["*"]).expect("a container config read must reach Proxmox");
    assert_eq!(path(&request), "/api2/json/nodes/pve2/lxc/617/config");
    assert!(request.params.iter().all(|(name, _)| name != "kind"));
    let request = read_guest("get_guest_status", 617, &["*"]).expect("status");
    assert_eq!(path(&request), "/api2/json/nodes/pve2/lxc/617/status/current");
}

/// A path that names one guest type may only serve that type.
#[test]
fn a_type_specific_read_refuses_the_other_guest_type() {
    // 617 is an LXC.
    let err = read_guest("get_vm_config", 617, &["*"]).expect_err("a QEMU-only read must refuse a container");
    assert!(err.contains("lxc"), "the refusal must name the actual type: {err}");
    assert!(err.contains("qemu"), "and the type the tool serves: {err}");
}

#[test]
fn an_unregistered_tool_and_an_unknown_cluster_are_refused() {
    let config = cluster();
    assert_eq!(
        begin_read(Ok(()), "get_everything", Some(&config), "pve3").expect_err("unregistered"),
        "unregistered tool: get_everything"
    );
    assert_eq!(
        begin_read(Ok(()), "get_nodes", None, "pve9").expect_err("unknown"),
        "unknown cluster: pve9"
    );
}

#[test]
fn a_listing_is_filtered_to_the_type_a_tool_lists() {
    let data = "[{\"type\":\"qemu\",\"vmid\":1},{\"type\":\"lxc\",\"vmid\":2},{\"vmid\":3},7]";
    assert_eq!(filter_listing(data, Some(GuestType::Lxc)), "[{\"type\":\"lxc\",\"vmid\":2}]");
    assert_eq!(filter_listing(data, Some(GuestType::Qemu)), "[{\"type\":\"qemu\",\"vmid\":1}]");
    assert_eq!(filter_listing(data, None), data);
    assert_eq!(filter_listing("{\"a\":1}", Some(GuestType::Lxc)), "{\"a\":1}");
}

/// A listing is read and written on its way out, and its fractions stay what
/// they were.
#[test]
fn a_listing_keeps_its_fractions() {
    let list = "[{\"cpu\":31.245270191439438,\"load\":0.1,\"type\":\"lxc\"}]";
    let body = format!("{{\"data\":{list}}}");
    let data = read_answer(200, body.as_bytes()).expect("data");
    assert_eq!(filter_listing(&data, Some(GuestType::Lxc)), list);
}

#[test]
fn lifecycle_verbs_are_held_to_type_scope_and_protection() {
    let config = cluster();
    let empty = WaiverFile::empty();
    let waived = WaiverFile::with_entries(vec![WaiverEntry::new(
        "pve3".to_owned(),
        905,
        2000,
        "maintenance".to_owned(),
        None,
    )]);
    let serve = |tool: &str, vmid: u32, guests: &[&str], waivers: &WaiverFile, lab_mode: bool| {
        let grant = grant(guests);
        let context = CallContext { config: &config, grant: &grant, waivers, now_unix: 1000, lab_mode };
        let (verb, kind) = lifecycle_tool(tool).expect("a lifecycle tool");
        serve_lifecycle(tool, verb, kind, &context, guest(vmid)).map(|call| path(&call.request))
    };
    assert_eq!(
        serve("start_vm", 700, &["*"], &empty, false),
        Ok("/api2/json/nodes/pve2/qemu/700/status/start".to_owned())
    );
    assert_eq!(
        serve("restart_container", 617, &["*"], &empty, false),
        Ok("/api2/json/nodes/pve2/lxc/617/status/reboot".to_owned())
    );
    assert_eq!(
        serve("stop_vm", 617, &["*"], &empty, false),
        Err("stop_vm requires qemu guest 617, but it is lxc".to_owned())
    );
    assert!(serve("stop_vm", 700, &["vmid:600-699"], &empty, false).unwrap_err().contains("scope"));
    assert!(serve("stop_vm", 905, &["*"], &empty, false).unwrap_err().contains("protected"));
    assert!(serve("stop_vm", 905, &["*"], &waived, false).is_ok());
    assert!(serve("stop_vm", 905, &["*"], &empty, true).is_ok());
    assert!(serve("start_vm", 905, &["*"], &empty, false).is_ok(), "starting interrupts nothing");
    assert_eq!(lifecycle_tool("clone_vm"), None);
}

#[test]
fn additive_calls_are_permitted_on_a_protected_guest() {
    let config = cluster();
    let grant = grant(&["*"]);
    let waivers = WaiverFile::empty();
    let context =
        CallContext { config: &config, grant: &grant, waivers: &waivers, now_unix: 1, lab_mode: false };
    let snapshot = SnapshotArgs {
        cluster: "pve3".to_owned(),
        vmid: 905,
        snapname: "pre".to_owned(),
        description: None,
    };
    let call = create_snapshot(&snapshot, &context, guest(905)).expect("snapshot");
    assert_eq!(path(&call.request), "/api2/json/nodes/pve2/qemu/905/snapshot");
    assert!(call.authorized.protection().is_protected());
    let backup = BackupArgs {
        cluster: "pve3".to_owned(),
        vmid: 905,
        storage: "local".to_owned(),
        mode: "snapshot".to_owned(),
        compress: None,
    };
    let call = create_backup(&backup, &context, guest(905)).expect("backup");
    assert_eq!(encode_form(&call.request.form), "vmid=905&storage=local&mode=snapshot");
    let resize = ResizeArgs {
        cluster: "pve3".to_owned(),
        vmid: 905,
        disk: "scsi0".to_owned(),
        size: "+8G".to_owned(),
    };
    let call = resize_disk(&resize, &context, guest(905)).expect("resize");
    assert_eq!(encode_form(&call.request.form), "disk=scsi0&size=%2B8G");
    let shrink = ResizeArgs { size: "8G".to_owned(), ..resize };
    let err = resize_disk(&shrink, &context, guest(905)).expect_err("not a grow");
    assert!(err.starts_with("size '8G' is not an unambiguous grow"), "{err}");
}

#[test]
fn a_clone_lands_inside_the_scope_and_off_the_pins() {
    let config = cluster();
    let waivers = WaiverFile::empty();
    let attempt = |guests: &[&str], newid: u32| {
        let grant = grant(guests);
        let context =
            CallContext { config: &config, grant: &grant, waivers: &waivers, now_unix: 1, lab_mode: false };
        let args = CloneArgs {
            cluster: "pve3".to_owned(),
            vmid: 617,
            newid,
            name: Some("copy".to_owned()),
            full: true,
        };
        clone_vm(&args, &context, guest(617)).map(|call| encode_form(&call.request.form))
    };
    assert_eq!(attempt(&["*"], 618), Ok("newid=618&full=1&hostname=copy".to_owned()));
    assert_eq!(
        attempt(&["vmid:600-699"], 800),
        Err("token scope does not admit vmid 800 as a clone destination".to_owned())
    );
    assert_eq!(
        attempt(&["*"], 905),
        Err("vmid 905 is a protected pin in cluster pve3; a clone may not claim it".to_owned())
    );
    assert!(
        attempt(&["tag:test"], 618).is_err(),
        "a tag says nothing of a guest that does not exist yet"
    );
}
