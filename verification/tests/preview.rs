//! The destroy preview.
use proxmoxmcp::fingerprint::GuestState;
use proxmoxmcp::preview::{format_size, render_preview, PreviewInput};
use proxmoxmcp::protect::Override;

fn base_state() -> GuestState {
    GuestState {
        cluster: "pve3".to_owned(),
        vmid: 907,
        name: "vsrx-ci".to_owned(),
        kind: "qemu".to_owned(),
        node: "pve2".to_owned(),
        status: "running".to_owned(),
        tags: vec!["ci".to_owned(), "protected".to_owned()],
        config_digest: "abc123".to_owned(),
        disks: vec![
            ("scsi0".to_owned(), 64 * 1024 * 1024 * 1024),
            ("scsi1".to_owned(), 8 * 1024 * 1024 * 1024),
        ],
    }
}

fn base_input<'a>(state: &'a GuestState, override_: &'a Override) -> PreviewInput<'a> {
    PreviewInput {
        state,
        protected: true,
        protection_summary: "tag:protected",
        override_,
        snapshots: 3,
        latest_snapshot: Some("proven-0.19.0  (2026-08-11)"),
        last_backup: Some("2026-08-09 (3d ago), 2 retained"),
        purge_disks: true,
    }
}

#[test]
fn header_line_shows_cluster_vmid_name_kind_status() {
    let state = base_state();
    let override_ = Override::NoOverride;
    let input = base_input(&state, &override_);
    let text = render_preview(&input);
    assert!(
        text.starts_with("DESTROY  pve3 / 907 vsrx-ci  (qemu, running)"),
        "unexpected header: {}",
        text.lines().next().unwrap_or("")
    );
}

#[test]
fn disks_are_formatted_in_human_readable_units() {
    let state = base_state();
    let override_ = Override::NoOverride;
    let input = base_input(&state, &override_);
    let text = render_preview(&input);
    assert!(text.contains("scsi0 64G"), "disks were {}", text);
    assert!(text.contains("scsi1 8G"), "disks were {}", text);
}

#[test]
fn a_protected_guest_with_no_override_renders_a_refusal() {
    let state = base_state();
    let text = render_preview(&base_input(&state, &Override::NoOverride));
    assert!(text.contains("PROTECTED"), "the protection must be visible: {text}");
    assert!(text.contains("REFUSED"), "the verdict must be REFUSED: {text}");
    assert!(
        text.contains("waiver     none"),
        "absence of a waiver must be stated, not omitted"
    );
}

#[test]
fn a_waived_guest_names_the_authority_in_the_preview() {
    let state = base_state();
    let waiver = Override::Waiver {
        reason: "decommission".to_owned(),
        ticket: Some("CHG-4471".to_owned()),
        until_unix: 9999999999,
    };
    let text = render_preview(&base_input(&state, &waiver));
    assert!(text.contains("CHG-4471"), "the ticket must appear: {text}");
    assert!(text.contains("decommission"), "the reason must appear: {text}");
    assert!(!text.contains("REFUSED"), "a waived plan is not refused: {text}");
}

#[test]
fn lab_mode_is_labelled_as_lab_mode_not_as_an_operator_waiver() {
    let state = base_state();
    let text = render_preview(&base_input(&state, &Override::LabMode));
    assert!(text.contains("lab-mode"), "lab mode must be named as such: {text}");
    assert!(!text.contains("CHG-"), "lab mode carries no ticket: {text}");
}

#[test]
fn backup_age_is_reported_and_never_enforced() {
    // Enforcing a backup precondition would imply the backup restores.
    let state = base_state();
    let input = PreviewInput {
        state: &state,
        protected: false,
        protection_summary: "unprotected",
        override_: &Override::NoOverride,
        snapshots: 0,
        latest_snapshot: None,
        last_backup: None,
        purge_disks: true,
    };
    let text = render_preview(&input);
    assert!(text.contains("backups"), "backup line must always be present: {text}");
    assert!(!text.contains("REFUSED"), "a missing backup must not itself refuse: {text}");
}

#[test]
fn a_whole_preview_line_by_line() {
    let state = base_state();
    let text = render_preview(&base_input(&state, &Override::NoOverride));
    let expected = "DESTROY  pve3 / 907 vsrx-ci  (qemu, running)\n  \
        tags       ci, protected          ← PROTECTED\n  \
        node       pve2\n  \
        disks      scsi0 64G, scsi1 8G    (purge: yes)\n  \
        snapshots  3   latest: proven-0.19.0  (2026-08-11)\n  \
        backups    last: 2026-08-09 (3d ago), 2 retained\n  \
        waiver     none\n  \
        verdict    REFUSED — protected, no waiver";
    assert_eq!(text, expected);
}

#[test]
fn an_empty_state_still_states_every_line() {
    let mut state = base_state();
    state.tags = Vec::new();
    state.disks = Vec::new();
    let waiver = Override::Waiver { reason: "lab".to_owned(), ticket: None, until_unix: 1 };
    let input = PreviewInput {
        state: &state,
        protected: false,
        protection_summary: "unprotected",
        override_: &waiver,
        snapshots: 2,
        latest_snapshot: None,
        last_backup: None,
        purge_disks: false,
    };
    let expected = "DESTROY  pve3 / 907 vsrx-ci  (qemu, running)\n  \
        tags       (none)\n  \
        node       pve2\n  \
        disks      (none)    (purge: no)\n  \
        snapshots  2\n  \
        backups    none\n  \
        waiver     lab";
    assert_eq!(render_preview(&input), expected);
}

#[test]
fn sizes_are_whole_units() {
    assert_eq!(format_size(0), "0B");
    assert_eq!(format_size(1024 * 1024 - 1), "1048575B");
    assert_eq!(format_size(1024 * 1024), "1M");
    assert_eq!(format_size(1024 * 1024 * 1024 - 1), "1023M");
    assert_eq!(format_size(1024 * 1024 * 1024), "1G");
    assert_eq!(format_size(u64::MAX), "17179869183G");
}
