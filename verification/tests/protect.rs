//! Protection, overrides and creation.
use proxmoxmcp::inventory::Cluster;
use proxmoxmcp::protect::{creation_allowed, protection_of, Protection, ProtectionReason};
use proxmoxmcp::resolve::ResolvedGuest;
use proxmoxmcp::selector::GuestType;

fn cluster(protected_vmids: Vec<u32>) -> Cluster {
    Cluster {
        endpoint: "https://pve3.example.org:8006".to_owned(),
        token_id: "root@pam!mcp".to_owned(),
        token_secret_env: Some("X".to_owned()),
        token_secret_file: None,
        ca_pem_path: None,
        protected_vmids,
        protected_tags: vec!["protected".to_owned()],
    }
}

fn guest(vmid: u32, tags: &[&str]) -> ResolvedGuest {
    ResolvedGuest {
        cluster: "pve3".to_owned(),
        vmid,
        name: format!("guest-{vmid}"),
        kind: GuestType::Qemu,
        node: "pve2".to_owned(),
        status: "running".to_owned(),
        tags: tags.iter().map(|tag| (*tag).to_owned()).collect(),
        pool: None,
    }
}

#[test]
fn a_live_tag_alone_protects() {
    let verdict = protection_of(&cluster(vec![]), Some(&guest(905, &["protected"])), false);
    assert!(verdict.is_protected());
}

#[test]
fn an_inventory_pin_alone_protects() {
    let verdict = protection_of(&cluster(vec![905]), Some(&guest(905, &[])), false);
    assert!(verdict.is_protected());
}

#[test]
fn clearing_the_tag_does_not_clear_the_pin() {
    // The server's own token can edit tags, so a tag-only policy is
    // unprotect-then-destroy in two calls.
    let verdict = protection_of(&cluster(vec![905]), Some(&guest(905, &["ci"])), false);
    assert!(verdict.is_protected());
}

#[test]
fn a_failed_resolution_is_protected() {
    let verdict = protection_of(&cluster(vec![]), None, true);
    assert!(verdict.is_protected());
    assert!(matches!(
        verdict,
        Protection::Protected { ref reasons } if reasons.contains(&ProtectionReason::ResolutionFailed)
    ));
}

#[test]
fn an_unknown_guest_is_protected() {
    let verdict = protection_of(&cluster(vec![]), None, false);
    assert!(verdict.is_protected());
    assert!(matches!(
        verdict,
        Protection::Protected { ref reasons } if reasons.contains(&ProtectionReason::UnknownGuest)
    ));
}

#[test]
fn an_untagged_unpinned_known_guest_is_unprotected() {
    let verdict = protection_of(&cluster(vec![905]), Some(&guest(606, &["disposable"])), false);
    assert!(!verdict.is_protected());
}

#[test]
fn a_custom_protected_tag_is_honoured() {
    let mut cluster = cluster(vec![]);
    cluster.protected_tags = vec!["do-not-touch".to_owned()];
    let verdict = protection_of(&cluster, Some(&guest(606, &["do-not-touch"])), false);
    assert!(verdict.is_protected());
}

#[test]
fn every_applicable_reason_is_reported_not_just_the_first() {
    let verdict = protection_of(&cluster(vec![905]), Some(&guest(905, &["protected"])), false);
    let Protection::Protected { reasons } = verdict else {
        panic!("expected protected");
    };
    assert_eq!(reasons.len(), 2, "reasons were {reasons:?}");
}

#[test]
fn the_summary_names_every_reason_in_order() {
    let mut policy = cluster(vec![905]);
    policy.protected_tags = vec!["b".to_owned(), "a".to_owned()];
    let verdict = protection_of(&policy, Some(&guest(905, &["a", "x", "b"])), false);
    assert_eq!(verdict.summary(), "tag:a,tag:b,inventory-pin");
    assert_eq!(protection_of(&policy, None, false).summary(), "unknown-guest");
    assert_eq!(protection_of(&policy, None, true).summary(), "resolution-failed");
    assert_eq!(protection_of(&policy, Some(&guest(1, &[])), false).summary(), "unprotected");
    assert_eq!(verdict.clone(), verdict);
}

/// `protected_vmids` is evaluated against a resolved guest everywhere else, so
/// a create, where nothing resolves, would otherwise claim a pinned number
/// unchallenged.
#[test]
fn a_pinned_vmid_cannot_be_claimed_by_a_create() {
    assert!(!creation_allowed(&cluster(vec![950, 960]), 950));
}

#[test]
fn an_unpinned_vmid_is_free() {
    assert!(creation_allowed(&cluster(vec![950]), 617));
}

/// An empty pin list protects nothing, which is what an unconfigured cluster
/// means, not "protect everything".
#[test]
fn no_pins_means_no_refusals() {
    assert!(creation_allowed(&cluster(Vec::new()), 950));
}
