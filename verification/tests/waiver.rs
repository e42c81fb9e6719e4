//! Operator waivers, and what they override.
use proxmoxmcp::protect::{destructive_allowed, Override, Protection, ProtectionReason};
use proxmoxmcp::waiver::{entry_from, WaiverEntry, WaiverError, WaiverFile, WaiverRecord};

const NOW: u64 = 1_700_000_000; // 2023-11-14

fn record(cluster: &str, vmid: u32, until: &str) -> WaiverRecord {
    WaiverRecord {
        cluster: cluster.to_owned(),
        vmid,
        until: until.to_owned(),
        reason: "decommission".to_owned(),
        ticket: Some("CHG-4471".to_owned()),
    }
}

/// One waiver for guest 905 of pve3, until 2026-08-13T02:00:00Z.
fn one() -> WaiverFile {
    WaiverFile::from_records(1, &vec![record("pve3", 905, "2026-08-13T02:00:00Z")]).expect("load")
}

fn unprotected() -> Protection {
    Protection::Unprotected
}

fn protected() -> Protection {
    Protection::Protected { reasons: vec![ProtectionReason::LiveTag("protected".to_owned())] }
}

fn empty_waivers() -> WaiverFile {
    WaiverFile::empty()
}

fn waivers_for(cluster: &str, vmid: u32) -> WaiverFile {
    WaiverFile::from_records(1, &vec![record(cluster, vmid, "2023-11-15T00:00:00Z")]).expect("load waivers")
}

#[test]
fn a_waiver_matches_its_exact_target_inside_the_window() {
    let w = one();
    // 2026-08-13T01:00:00Z: inside the window.
    let hit = w.matching("pve3", 905, 1_786_582_800).expect("should match");
    assert_eq!(hit.reason(), "decommission");
    assert_eq!(hit.ticket(), Some("CHG-4471"));
    assert_eq!(hit.cluster(), "pve3");
    assert_eq!(hit.vmid(), 905);
}

#[test]
fn an_expired_waiver_does_not_match() {
    let w = one();
    // 2026-08-13T03:00:00Z: one hour past `until`.
    assert!(w.matching("pve3", 905, 1_786_590_000).is_none());
}

#[test]
fn a_waiver_does_not_match_a_different_guest_or_cluster() {
    let w = one();
    let inside = 1_786_582_800;
    assert!(w.matching("pve3", 906, inside).is_none(), "vmid must match exactly");
    assert!(w.matching("pve2", 905, inside).is_none(), "cluster must match exactly");
}

#[test]
fn an_unknown_version_is_refused() {
    let error = WaiverFile::from_records(2, &Vec::new()).expect_err("unknown version must be refused");
    assert_eq!(error, WaiverError::UnsupportedVersion(2));
    assert_eq!(error.message(), "unsupported waiver file version: 2");
}

#[test]
fn a_missing_file_loads_as_empty_not_an_error() {
    let w = WaiverFile::empty();
    assert!(w.matching("pve3", 905, 1_786_582_800).is_none());
}

#[test]
fn an_unprotected_guest_needs_no_override() {
    let o = destructive_allowed(&unprotected(), &empty_waivers(), "pve3", 616, NOW, false);
    assert!(matches!(o, Override::NoOverride));
}

#[test]
fn a_protected_guest_with_no_override_is_refused() {
    // `destructive_allowed` reports the override; refusal is the caller's job
    // when the guest is protected and there is none.
    let o = destructive_allowed(&protected(), &empty_waivers(), "pve3", 905, NOW, false);
    assert!(matches!(o, Override::NoOverride), "no waiver, no lab mode -> no override");
}

#[test]
fn a_matching_waiver_overrides_protection_and_carries_its_reason() {
    let o = destructive_allowed(&protected(), &waivers_for("pve3", 905), "pve3", 905, NOW, false);
    match o {
        Override::Waiver { reason, ticket, until_unix } => {
            assert_eq!(reason, "decommission");
            assert_eq!(ticket.as_deref(), Some("CHG-4471"));
            assert_eq!(until_unix, 1_700_006_400); // 2023-11-15T00:00:00Z
        }
        other => panic!("expected a waiver override, got {other:?}"),
    }
}

#[test]
fn an_expired_waiver_does_not_override() {
    let past = NOW + 86_400; // one day after `until`
    let o = destructive_allowed(&protected(), &waivers_for("pve3", 905), "pve3", 905, past, false);
    assert!(matches!(o, Override::NoOverride), "an expired waiver is not a waiver");
}

#[test]
fn lab_mode_overrides_protection() {
    let o = destructive_allowed(&protected(), &empty_waivers(), "pve3", 905, NOW, true);
    assert!(matches!(o, Override::LabMode));
}

#[test]
fn a_waiver_is_preferred_over_lab_mode_so_the_record_names_the_real_authority() {
    let o = destructive_allowed(&protected(), &waivers_for("pve3", 905), "pve3", 905, NOW, true);
    assert!(
        matches!(o, Override::Waiver { .. }),
        "with both available the specific, ticketed authority must be recorded"
    );
    assert!(o.applies());
    assert!(matches!(o.clone(), Override::Waiver { .. }));
}

#[test]
fn an_unreadable_timestamp_is_refused() {
    let file = vec![record("pve3", 905, "2026-08-13T02:00:00Z"), record("pve3", 906, "tomorrow")];
    let error = WaiverFile::from_records(1, &file).expect_err("must be refused");
    assert!(matches!(error, WaiverError::InvalidTimestamp(_)), "{error:?}");
    assert!(error.message().starts_with("invalid timestamp in waiver entry: "));
}

#[test]
fn an_offset_is_taken_into_account() {
    let w = WaiverFile::from_records(1, &vec![record("pve3", 905, "2023-11-15T01:00:00+01:00")]).expect("load");
    assert_eq!(w.matching("pve3", 905, NOW).expect("match").until_unix(), 1_700_006_400);
}

#[test]
fn an_expiry_before_the_epoch_has_passed() {
    let w = WaiverFile::from_records(1, &vec![record("pve3", 905, "1969-12-31T23:59:59Z")]).expect("load");
    assert!(w.matching("pve3", 905, 0).is_none());
    let entry = entry_from(&record("pve3", 905, "x"), Ok(-1)).expect("entry");
    assert_eq!(entry.until_unix(), 0);
    assert!(entry_from(&record("pve3", 905, "x"), Err("bad".to_owned())).is_err());
}

#[test]
fn the_first_matching_entry_is_the_one() {
    let entry = |until: u64, reason: &str| {
        WaiverEntry::new("pve3".to_owned(), 905, until, reason.to_owned(), None)
    };
    let w = WaiverFile::with_entries(vec![entry(10, "old"), entry(30, "first"), entry(40, "second")]);
    assert_eq!(w.matching("pve3", 905, 20).expect("match").reason(), "first");
    assert_eq!(w.matching("pve3", 905, 30).expect("match").reason(), "second");
    assert!(w.matching("pve3", 905, 40).is_none());
    assert_eq!(w.matching("pve3", 905, 20).expect("match").clone().ticket(), None);
}

#[test]
fn the_other_refusals_say_what_they_are() {
    assert_eq!(
        WaiverError::SecurityCheck("mode 0640".to_owned()).message(),
        "waiver file security check failed: mode 0640"
    );
    assert_eq!(
        WaiverError::InvalidJson("eof".to_owned()).message(),
        "waiver file is not valid json: eof"
    );
}
