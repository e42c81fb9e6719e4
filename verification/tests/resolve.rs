//! Resolution turns (cluster, vmid) into a live guest, and authorization
//! decides what may be done to it.
use proxmoxmcp::client::{read_answer, Method};
use proxmoxmcp::error::ProxmoxError;
use proxmoxmcp::grant::{ProxmoxAction, ProxmoxGrant};
use proxmoxmcp::inventory::Cluster;
use proxmoxmcp::resolve::{
    authorize, fetch_guests, guest_from_entry, guests_from_entries, parse_tags, resources_request,
    GuestIndex, Intent, ResolvedGuest, ResourceEntry,
};
use proxmoxmcp::selector::GuestType;
use proxmoxmcp::tier::Tier;
use std::collections::BTreeMap;

const SECOND: u128 = 1_000_000_000;

const RESOURCES: &[u8] = br#"{"data":[
  {"id":"qemu/905","type":"qemu","vmid":905,"name":"vsrx-prod","node":"pve2",
   "status":"running","tags":"protected","pool":"ops"},
  {"id":"lxc/606","type":"lxc","vmid":606,"name":"rustsdcmcp-606","node":"pve3",
   "status":"running","tags":"disposable;lab"}
]}"#;

fn fetched(body: &[u8]) -> BTreeMap<u32, ResolvedGuest> {
    let data = read_answer(200, body).expect("data");
    fetch_guests("pve3", &data).expect("guests")
}

fn resolve(vmid: u32) -> Result<ResolvedGuest, ProxmoxError> {
    let mut index = GuestIndex::new(10);
    let generation = index.generation();
    index.resolve("pve3", vmid, generation, fetched(RESOURCES), 0)
}

fn config() -> Cluster {
    Cluster {
        endpoint: "https://localhost:8006".to_owned(),
        token_id: "root@pam!mcp".to_owned(),
        token_secret_env: None,
        token_secret_file: None,
        ca_pem_path: None,
        protected_vmids: vec![905],
        protected_tags: vec!["protected".to_owned()],
    }
}

fn band_grant() -> ProxmoxGrant {
    ProxmoxGrant { guests: vec!["vmid:600-699".to_owned()], actions: vec![ProxmoxAction::Read] }
}

fn entry(kind: &str, vmid: Option<u64>, node: Option<&str>) -> ResourceEntry {
    ResourceEntry {
        kind: Some(kind.to_owned()),
        vmid,
        name: None,
        node: node.map(str::to_owned),
        status: None,
        tags: None,
        pool: None,
    }
}

#[test]
fn guests_are_listed_by_one_request() {
    let request = resources_request();
    assert_eq!(request.method, Method::Get);
    assert_eq!(request.path_template, "/api2/json/cluster/resources");
    assert!(request.params.is_empty() && request.query.is_empty() && request.form.is_empty());
}

#[test]
fn resolves_a_guest_to_its_current_node() {
    let guest = resolve(905).expect("resolve");
    assert_eq!(guest.node, "pve2");
    assert_eq!(guest.name, "vsrx-prod");
    assert_eq!(guest.kind, GuestType::Qemu);
    assert_eq!(guest.pool.as_deref(), Some("ops"));
    assert_eq!(guest.cluster, "pve3");
}

#[test]
fn splits_semicolon_separated_tags() {
    let guest = resolve(606).expect("resolve");
    assert_eq!(guest.tags, vec!["disposable".to_owned(), "lab".to_owned()]);
    assert_eq!(parse_tags(Some(" a ;; b\t; ;c")), vec!["a".to_owned(), "b".to_owned(), "c".to_owned()]);
    assert!(parse_tags(None).is_empty());
    assert!(parse_tags(Some("")).is_empty());
}

#[test]
fn an_absent_vmid_is_not_found_rather_than_a_default() {
    let error = resolve(4242).expect_err("absent");
    assert_eq!(error, ProxmoxError::NotFound { what: "guest 4242 in cluster pve3".to_owned() });
}

#[test]
fn a_guest_with_no_pool_resolves_with_none() {
    let guest = resolve(606).expect("resolve");
    assert_eq!(guest.pool, None);
}

#[test]
fn a_second_resolve_within_the_ttl_issues_no_second_request() {
    let mut index = GuestIndex::new(10);
    assert!(index.lookup_fresh("pve3", 905, 0).is_none());
    let generation = index.generation();
    index.resolve("pve3", 905, generation, fetched(RESOURCES), 0).expect("first");
    assert!(index.lookup_fresh("pve3", 606, 10 * SECOND).is_some());
    assert!(index.lookup_fresh("pve3", 606, 10 * SECOND + 1).is_none(), "expired");
    assert!(index.lookup_fresh("pve3", 4242, 0).is_none());
    assert!(index.lookup_fresh("other", 606, 0).is_none());
}

/// A fetch that began before an invalidation must not publish its result
/// afterwards.
#[test]
fn a_fetch_started_before_an_invalidation_does_not_repopulate_the_cache() {
    let mut index = GuestIndex::new(300);
    // A fetch starts and will come back with the old state.
    let stale_generation = index.generation();
    let stale = fetched(RESOURCES);

    // The world changes, and the cache is invalidated while it is in flight.
    index.invalidate_cluster("pve3");

    // The stale fetch still answers its own caller, and publishes nothing.
    let own = index.resolve("pve3", 905, stale_generation, stale, 1).expect("own answer");
    assert_eq!(own.node, "pve2");
    assert!(index.lookup_fresh("pve3", 905, 1).is_none());

    // The next reader fetches, and sees the guest where it is now.
    let generation = index.generation();
    let moved = fetched(
        br#"{"data":[{"id":"qemu/905","type":"qemu","vmid":905,"name":"vsrx-prod","node":"pve3","status":"running","tags":"protected"}]}"#,
    );
    let after = index.resolve("pve3", 905, generation, moved, 2).expect("resolve");
    assert_eq!(
        after.node, "pve3",
        "a fetch that started before the invalidation must not repopulate the cache"
    );
    assert_eq!(index.lookup_fresh("pve3", 905, 2).expect("cached").node, "pve3");
}

/// Invalidating one cluster must not evict another's snapshot.
#[test]
fn invalidating_one_cluster_leaves_the_others_cached() {
    let mut index = GuestIndex::new(10);
    for cluster in ["pve3", "other"] {
        let generation = index.generation();
        index.resolve(cluster, 905, generation, fetched(RESOURCES), 0).expect("warm");
    }
    index.invalidate_cluster("pve3");
    assert!(
        index.lookup_fresh("other", 905, 0).is_some(),
        "invalidating pve3 must not evict the other cluster"
    );
    assert!(index.lookup_fresh("pve3", 905, 0).is_none(), "the invalidated cluster must refetch");
    index.invalidate();
    assert!(index.lookup_fresh("other", 905, 0).is_none());
}

#[test]
fn a_later_fetch_replaces_the_snapshot() {
    let mut index = GuestIndex::new(10);
    let generation = index.generation();
    index.resolve("pve3", 905, generation, fetched(RESOURCES), 0).expect("first");
    let empty = index.resolve("pve3", 905, generation, BTreeMap::new(), 1);
    assert!(matches!(empty, Err(ProxmoxError::NotFound { .. })));
    assert!(index.lookup_fresh("pve3", 905, 1).is_none());
}

#[test]
fn entries_that_are_no_guests_are_skipped() {
    for skipped in [
        entry("storage", Some(1), Some("pve2")),
        entry("qemu", None, Some("pve2")),
        ResourceEntry { kind: None, ..entry("qemu", Some(1), Some("pve2")) },
    ] {
        assert_eq!(guest_from_entry("pve3", &skipped), Ok(None));
    }
}

#[test]
fn a_vmid_out_of_range_and_a_missing_node_are_errors() {
    assert_eq!(
        guest_from_entry("pve3", &entry("lxc", Some(4294967296), Some("pve2"))),
        Err(ProxmoxError::Malformed("vmid 4294967296 out of range".to_owned()))
    );
    assert_eq!(
        guest_from_entry("pve3", &entry("lxc", Some(7), None)),
        Err(ProxmoxError::Malformed("guest 7 has no node".to_owned()))
    );
    let list = vec![entry("lxc", Some(1), Some("a")), entry("lxc", Some(7), None)];
    assert!(guests_from_entries("pve3", &list).is_err());
}

#[test]
fn missing_fields_have_defaults() {
    let mut bare = entry("lxc", Some(7), Some("pve2"));
    bare.pool = Some(String::new());
    let guest = guest_from_entry("pve3", &bare).expect("guest").expect("some");
    assert_eq!(guest.name, "");
    assert_eq!(guest.status, "unknown");
    assert_eq!(guest.pool, None);
    assert!(guest.tags.is_empty());
    assert_eq!(guest.vmid, 7);
}

#[test]
fn the_later_of_two_entries_with_one_vmid_counts() {
    let list = vec![entry("lxc", Some(7), Some("a")), entry("qemu", Some(7), Some("b"))];
    let guests = guests_from_entries("pve3", &list).expect("guests");
    assert_eq!(guests.len(), 1);
    assert_eq!(guests[&7].node, "b");
}

#[test]
fn a_listing_that_is_no_array_is_malformed() {
    for data in ["{}", "null", "nonsense"] {
        assert_eq!(
            fetch_guests("pve3", data),
            Err(ProxmoxError::Malformed("cluster/resources is not an array".to_owned()))
        );
    }
    let odd = fetch_guests("pve3", "[7,null,{\"type\":\"qemu\",\"vmid\":\"x\"},{\"type\":\"qemu\",\"vmid\":1.5}]");
    assert!(odd.expect("guests").is_empty());
}

#[test]
fn authorizes_an_in_scope_guest_for_a_granted_tier() {
    let authorized =
        authorize(&config(), resolve(606).expect("resolve"), &band_grant(), Intent::read()).expect("authorize");
    assert_eq!(authorized.guest().vmid, 606);
    assert_eq!(authorized.tier(), Tier::Read);
    assert!(!authorized.protection().is_protected());
}

#[test]
fn refuses_a_guest_outside_the_grant_selector() {
    let error = authorize(&config(), resolve(905).expect("resolve"), &band_grant(), Intent::read())
        .expect_err("905 is outside 600-699");
    assert!(error.message().contains("905"));
    assert!(error.message().contains("scope"));
    assert!(!error.message().contains("vsrx-prod"), "a refused call must not leak the guest name");
    assert_eq!(
        error,
        ProxmoxError::Denied("token scope does not admit guest 905 in cluster pve3".to_owned())
    );
}

#[test]
fn refuses_a_tier_the_grant_does_not_carry() {
    let error = authorize(
        &config(),
        resolve(606).expect("resolve"),
        &band_grant(),
        Intent { tier: Tier::Destructive, interrupts: false, override_applies: None },
    )
    .expect_err("grant carries read only");
    assert!(error.message().contains("destructive") || error.message().contains("Destructive"));
    assert_eq!(
        error,
        ProxmoxError::Denied("token grant does not carry the Destructive action tier".to_owned())
    );
}

#[test]
fn a_protected_guest_still_authorizes_for_read_and_reports_protection() {
    // Protection gates disruption, not observation.
    let authorized = authorize(
        &config(),
        resolve(905).expect("resolve"),
        &ProxmoxGrant::read_only(),
        Intent::read(),
    )
    .expect("read of a protected guest is allowed");
    assert!(authorized.protection().is_protected());
    assert!(authorized.protection().summary().contains("inventory-pin"));
    assert!(authorized.protection().summary().contains("tag:protected"));
    assert_eq!(authorized.clone().guest().vmid, 905);
}

#[test]
fn an_unknown_guest_is_not_found_and_never_yields_an_authorized_guest() {
    let error = resolve(4242).expect_err("absent");
    assert!(matches!(error, ProxmoxError::NotFound { .. }));
}

#[test]
fn a_protected_guest_is_disrupted_only_under_an_override() {
    let full = ProxmoxGrant {
        guests: vec!["*".to_owned()],
        actions: vec![ProxmoxAction::Read, ProxmoxAction::Low, ProxmoxAction::Destructive],
    };
    let attempt = |intent: Intent| authorize(&config(), resolve(905).expect("resolve"), &full, intent);
    assert_eq!(
        attempt(Intent::destructive(false)).expect_err("protected").message(),
        "denied: guest 905 is protected (tag:protected,inventory-pin); a destructive call needs a waiver"
    );
    assert_eq!(
        attempt(Intent::low("stop_vm")).expect_err("protected").message(),
        "denied: guest 905 is protected (tag:protected,inventory-pin); interrupting a protected guest needs a waiver"
    );
    assert!(attempt(Intent::low_with_override("stop_vm", false)).is_err());
    assert!(attempt(Intent::low_with_override("stop_vm", true)).is_ok());
    assert!(attempt(Intent::destructive(true)).is_ok());
    assert!(attempt(Intent::low("start_vm")).is_ok(), "starting adds and does not interrupt");
}
