//! The guest selector language.
use proxmoxmcp::selector::{GuestFacts, GuestType, Selector, SelectorError};

fn facts<'a>(vmid: u32, tags: &'a [String], pool: Option<&'a str>) -> GuestFacts<'a> {
    GuestFacts { vmid, kind: GuestType::Qemu, node: "pve2", pool, tags }
}

#[test]
fn parses_every_documented_term() {
    assert_eq!(Selector::parse("*").expect("parse"), Selector::Any);
    assert_eq!(Selector::parse("vmid:905").expect("parse"), Selector::Vmid(905));
    assert_eq!(
        Selector::parse("vmid:600-699").expect("parse"),
        Selector::VmidRange { low: 600, high: 699 }
    );
    assert_eq!(Selector::parse("tag:ci").expect("parse"), Selector::Tag("ci".to_owned()));
    assert_eq!(Selector::parse("pool:lab").expect("parse"), Selector::Pool("lab".to_owned()));
    assert_eq!(Selector::parse("node:pve2").expect("parse"), Selector::Node("pve2".to_owned()));
    assert_eq!(Selector::parse("type:lxc").expect("parse"), Selector::Type(GuestType::Lxc));
}

#[test]
fn rejects_an_unknown_term_rather_than_ignoring_it() {
    let error = Selector::parse("site:emea").expect_err("should reject");
    assert!(matches!(error, SelectorError::Unknown(term) if term == "site"));
}

#[test]
fn rejects_an_inverted_range() {
    assert!(matches!(Selector::parse("vmid:699-600"), Err(SelectorError::BadRange(_))));
}

#[test]
fn range_is_inclusive_at_both_ends() {
    let selector = Selector::parse("vmid:600-699").expect("parse");
    assert!(selector.matches(facts(600, &[], None)));
    assert!(selector.matches(facts(699, &[], None)));
    assert!(!selector.matches(facts(599, &[], None)));
    assert!(!selector.matches(facts(700, &[], None)));
}

#[test]
fn tag_match_is_exact_not_substring() {
    let selector = Selector::parse("tag:ci").expect("parse");
    let protected = vec!["ci-runner".to_owned()];
    assert!(!selector.matches(facts(600, &protected, None)));
    let exact = vec!["ci".to_owned()];
    assert!(selector.matches(facts(600, &exact, None)));
}

#[test]
fn a_guest_with_no_pool_never_matches_a_pool_selector() {
    let selector = Selector::parse("pool:lab").expect("parse");
    assert!(!selector.matches(facts(600, &[], None)));
    assert!(selector.matches(facts(600, &[], Some("lab"))));
}

#[test]
fn every_malformed_term_says_what_is_wrong() {
    assert_eq!(
        Selector::parse("nonsense").expect_err("no colon").message(),
        "unknown selector term 'nonsense'"
    );
    assert_eq!(
        Selector::parse("type:vm").expect_err("no such type").message(),
        "unknown selector term 'type:vm'"
    );
    assert_eq!(
        Selector::parse("vmid:600-x").expect_err("no number").message(),
        "invalid vmid range: 600-x"
    );
    assert_eq!(Selector::parse("vmid:").expect_err("empty").message(), "invalid vmid: ");
    assert_eq!(
        Selector::parse("vmid:4294967296").expect_err("too large").message(),
        "invalid vmid: 4294967296"
    );
}

#[test]
fn numbers_are_read_as_the_standard_library_reads_them() {
    for text in ["0", "7", "+7", "007", "4294967295", "", "+", "-7", "7 ", "+-7", "4294967296", "٣"] {
        let ours = Selector::parse(&format!("vmid:{text}")).ok();
        let theirs = text.parse::<u32>().ok().map(Selector::Vmid);
        if !text.contains('-') {
            assert_eq!(ours, theirs, "{text:?}");
        }
    }
}

#[test]
fn a_value_may_hold_further_colons() {
    assert_eq!(Selector::parse("tag:a:b").expect("parse"), Selector::Tag("a:b".to_owned()));
    assert_eq!(Selector::parse("pool:").expect("parse"), Selector::Pool(String::new()));
}

#[test]
fn node_and_type_match_the_guest() {
    assert!(Selector::parse("node:pve2").expect("parse").matches(facts(1, &[], None)));
    assert!(!Selector::parse("node:pve3").expect("parse").matches(facts(1, &[], None)));
    assert!(Selector::parse("type:qemu").expect("parse").matches(facts(1, &[], None)));
    assert!(!Selector::parse("type:lxc").expect("parse").matches(facts(1, &[], None)));
    assert_eq!(GuestType::Qemu.path_segment(), "qemu");
    assert_eq!(GuestType::Lxc.path_segment(), "lxc");
}
