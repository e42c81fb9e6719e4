//! UPID parsing and task outcome classification.
use proxmoxmcp::guests::stopping_task_leaves_partial_state;
use proxmoxmcp::error::ProxmoxError;
use proxmoxmcp::task::{
    classify_exit_status, probe, probe_answer, status_fields, Probe, TaskError, TaskOutcome, Upid,
};

const REAL: &str = "UPID:pve2:0000A1B2:00C3D4E5:66BC1234:vzdestroy:617:root@pam:";

#[test]
fn a_real_upid_parses_and_yields_its_node() {
    let u = Upid::parse(REAL).expect("parse");
    assert_eq!(u.node(), "pve2");
    assert_eq!(u.kind(), "vzdestroy");
    assert_eq!(u.id(), "617");
}

#[test]
fn the_node_comes_from_the_upid_not_the_caller() {
    // Guests migrate: polling must follow the UPID's node, never a
    // caller-supplied one.
    let u = Upid::parse("UPID:pve3:0000A1B2:00C3D4E5:66BC1234:vzdestroy:617:root@pam:").expect("parse");
    assert_eq!(u.node(), "pve3");
}

#[test]
fn a_malformed_upid_is_refused_rather_than_guessed() {
    for bad in ["", "UPID:pve2", "not-a-upid", "UPID::::::::"] {
        assert!(Upid::parse(bad).is_err(), "must refuse {bad:?}");
    }
    let error = Upid::parse("not-a-upid").expect_err("refused");
    assert_eq!(error, TaskError::MalformedUpid("not-a-upid".to_owned()));
    assert_eq!(error.message(), "malformed UPID: not-a-upid");
}

#[test]
fn ok_is_the_only_success_spelling() {
    assert!(matches!(classify_exit_status("OK"), TaskOutcome::Succeeded));
    for bad in ["WARNINGS: 1", "command 'x' failed: exit code 1", "interrupted by signal", ""] {
        match classify_exit_status(bad) {
            TaskOutcome::Failed(m) => assert_eq!(m, bad),
            TaskOutcome::Succeeded => panic!("{bad:?} must not be treated as success"),
        }
    }
}

#[test]
fn a_probe_waits_for_an_exit_status() {
    let text = |s: &str| Some(s.to_owned());
    assert_eq!(probe(text("running"), None), Ok(Probe::Pending));
    assert_eq!(probe(text("stopped"), text("OK")), Ok(Probe::Ready("OK".to_owned())));
    assert_eq!(
        probe(text("stopped"), None),
        Err("exitstatus field missing or not a string".to_owned())
    );
    assert_eq!(probe(None, text("OK")), Err("status field missing or not a string".to_owned()));
    assert_eq!(
        probe(text("paused"), None),
        Err("unexpected task status: paused".to_owned())
    );
}

#[test]
fn a_probe_reads_the_data_of_an_answer() {
    let answer = |data: &str| probe_answer(Ok(data.to_owned()));
    assert_eq!(
        answer(r#"{"status":"stopped","exitstatus":"exit code 1"}"#),
        Ok(Probe::Ready("exit code 1".to_owned()))
    );
    assert_eq!(answer(r#"{"status":"running"}"#), Ok(Probe::Pending));
    assert_eq!(
        answer(r#"{"status":7}"#),
        Err("status field missing or not a string".to_owned())
    );
    assert_eq!(
        probe_answer(Err(ProxmoxError::Unauthorized)),
        Err(format!(
            "task status request failed: {}",
            ProxmoxError::Unauthorized.message()
        ))
    );
    assert_eq!(
        status_fields(r#"{"status":"stopped","exitstatus":"OK"}"#),
        (Some("stopped".to_owned()), Some("OK".to_owned()))
    );
    assert_eq!(status_fields("no json"), (None, None));
}

#[test]
fn a_task_that_rewrites_a_guest_must_run_to_its_end() {
    let handle = |kind: &str| format!("UPID:pve2:0000A1B2:00C3D4E5:66BC1234:{kind}:617:root@pam:");
    for kind in ["qmrestore", "vzrestore", "qmdestroy", "vzdestroy"] {
        assert!(stopping_task_leaves_partial_state(&handle(kind)), "{kind}");
    }
    for kind in ["vzdump", "qmigrate", "download"] {
        assert!(!stopping_task_leaves_partial_state(&handle(kind)), "{kind}");
    }
    assert!(stopping_task_leaves_partial_state("not-a-upid"));
}
