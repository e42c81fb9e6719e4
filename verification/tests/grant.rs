//! Token grants.
use proxmoxmcp::grant::{GrantError, ProxmoxAction, ProxmoxGrant};
use proxmoxmcp::selector::{GuestFacts, GuestType};

fn facts(vmid: u32) -> GuestFacts<'static> {
    GuestFacts { vmid, kind: GuestType::Qemu, node: "pve2", pool: None, tags: &[] }
}

fn grant_of(terms: &[&str]) -> ProxmoxGrant {
    ProxmoxGrant {
        guests: terms.iter().map(|term| (*term).to_owned()).collect(),
        actions: vec![ProxmoxAction::Read],
    }
}

#[test]
fn a_band_scoped_grant_admits_only_its_band() {
    let grant = grant_of(&["vmid:600-699"]);
    assert!(grant.allows_guest(facts(606)));
    assert!(!grant.allows_guest(facts(905)));
}

#[test]
fn selectors_union_rather_than_intersect() {
    let grant = grant_of(&["vmid:600-699", "vmid:800"]);
    assert!(grant.allows_guest(facts(606)));
    assert!(grant.allows_guest(facts(800)));
    assert!(!grant.allows_guest(facts(905)));
}

#[test]
fn an_empty_guest_list_admits_nothing() {
    let grant = grant_of(&[]);
    assert!(!grant.allows_guest(facts(606)));
}

#[test]
fn an_unparseable_selector_admits_nothing_and_fails_validation() {
    let grant = grant_of(&["site:emea"]);
    assert!(!grant.allows_guest(facts(606)));
    assert!(grant.validate().is_err());
    assert_eq!(
        grant.validate(),
        Err(GrantError::Invalid("unknown selector term 'site'".to_owned()))
    );
}

#[test]
fn read_only_grant_permits_no_mutating_action() {
    let grant = ProxmoxGrant::read_only();
    assert!(grant.allows_action(ProxmoxAction::Read));
    assert!(!grant.allows_action(ProxmoxAction::Low));
    assert!(!grant.allows_action(ProxmoxAction::Destructive));
}

#[test]
fn a_new_vmid_is_matched_by_number_alone() {
    let grant = grant_of(&["vmid:600-699", "tag:ci", "pool:lab", "node:pve2", "type:qemu", "vmid:800"]);
    assert!(grant.allows_new_vmid(600));
    assert!(grant.allows_new_vmid(699));
    assert!(grant.allows_new_vmid(800));
    assert!(!grant.allows_new_vmid(700));
    assert!(grant_of(&["*"]).allows_new_vmid(1));
    assert!(!grant_of(&["tag:ci"]).allows_new_vmid(1));
}

#[test]
fn a_subject_is_a_cluster_and_a_vmid() {
    let grant = grant_of(&["vmid:600-699"]);
    assert!(grant.allows_subject("pve3/606"));
    assert!(!grant.allows_subject("pve3/905"));
    assert!(!grant.allows_subject("606"));
    assert!(!grant.allows_subject("pve3/guest"));
}

#[test]
fn only_the_star_is_unrestricted() {
    assert!(grant_of(&["*"]).is_unrestricted_guest_scope());
    assert!(grant_of(&["vmid:1", "*"]).is_unrestricted_guest_scope());
    assert!(!grant_of(&["vmid:0-4294967295"]).is_unrestricted_guest_scope());
    assert!(!grant_of(&[]).is_unrestricted_guest_scope());
}

#[test]
fn a_copy_is_the_same_grant() {
    let grant = grant_of(&["vmid:600-699", "tag:ci"]);
    let copy = grant.clone();
    assert_eq!(copy.guests, grant.guests);
    assert_eq!(copy.actions, grant.actions);
    assert!(grant.validate().is_ok());
}
