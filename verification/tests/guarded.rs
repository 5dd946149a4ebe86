//! Writing under a time limit, against a scripted subprocess.

use openshell_vm::dialogue::Dialogue;
use openshell_vm::fault::{Fault, FaultKind};
use openshell_vm::guarded::{
    sysfs_write_with_timeout, ChildReply, ChildRequest, SYSFS_WRITE_TIMEOUT_SECS,
};

/// Runs the write, answering polls with `replies` in turn and letting a tenth of a
/// second pass with every pause. Returns the result and what was asked.
fn run(path: &str, data: &str, polls: Vec<ChildReply>, stderr: &str) -> (Result<(), Fault>, Vec<String>) {
    let mut polls = polls.into_iter();
    let mut dialogue = Dialogue::new();
    let mut asked = Vec::new();
    let mut nanos: u128 = 0;
    loop {
        let result =
            sysfs_write_with_timeout(&mut dialogue, path, data, SYSFS_WRITE_TIMEOUT_SECS);
        if let Some(result) = result {
            return (result, asked);
        }
        let request = dialogue.pending().unwrap();
        asked.push(format!("{request:?}"));
        let reply = match request {
            ChildRequest::Spawn { script } if script.contains("unstartable") => ChildReply::Failed {
                kind: FaultKind::NotFound,
                message: "no shell".to_string(),
            },
            ChildRequest::Spawn { .. } | ChildRequest::Kill => ChildReply::Done,
            ChildRequest::Poll => polls.next().unwrap_or(ChildReply::Running),
            ChildRequest::ReadStderr => ChildReply::Text { text: stderr.to_string() },
            ChildRequest::Elapsed => ChildReply::Nanos { nanos },
            ChildRequest::Sleep { millis } => {
                nanos += u128::from(*millis) * 1_000_000;
                ChildReply::Done
            }
        };
        dialogue.record(reply);
        dialogue.rewind();
    }
}

#[test]
fn write_succeeds_with_the_shell() {
    let exit = ChildReply::Exited { code: Some(0) };
    let (result, asked) = run("/sys/a", "x", vec![ChildReply::Running, exit], "");
    assert!(result.is_ok());
    assert_eq!(asked[0], "Spawn { script: \"printf '%s' 'x' > '/sys/a'\" }");
    assert_eq!(asked.len(), 5);
}

#[test]
fn quotes_reach_the_shell_escaped() {
    let exit = ChildReply::Exited { code: Some(0) };
    let (_, asked) = run("/sys/it's", "a'b", vec![exit], "");
    assert_eq!(
        asked[0],
        format!("{:?}", ChildRequest::Spawn {
            script: "printf '%s' 'a'\\''b' > '/sys/it'\\''s'".to_string()
        })
    );
}

#[test]
fn failed_write_reports_code_and_error_output() {
    let exit = ChildReply::Exited { code: Some(2) };
    let (result, _) = run("/sys/a", "x", vec![exit], "sh: cannot create: Permission denied\n");
    let err = result.unwrap_err();
    assert_eq!(err.kind, FaultKind::Other);
    assert_eq!(
        err.text(),
        "sysfs write to /sys/a failed (exit 2) — run as root: \
         sh: cannot create: Permission denied\n"
    );
    let killed = ChildReply::Exited { code: None };
    let (result, _) = run("/sys/a", "x", vec![killed], "gone");
    assert_eq!(result.unwrap_err().text(), "sysfs write to /sys/a failed (exit -1): gone");
}

#[test]
fn endless_write_is_killed_when_the_time_is_over() {
    let (result, asked) = run("/sys/a", "x", vec![], "");
    let err = result.unwrap_err();
    assert_eq!(err.kind, FaultKind::TimedOut);
    assert_eq!(
        err.text(),
        "sysfs write to /sys/a timed out after 10s — \
         possible nvidia driver deadlock. A reboot may be required."
    );
    assert_eq!(&asked[asked.len() - 2..], ["Elapsed", "Kill"]);
    assert_eq!(asked.iter().filter(|a| *a == "Kill").count(), 1);
    let pauses = asked.iter().filter(|a| a.starts_with("Sleep")).count();
    assert_eq!(pauses, 101);
}

#[test]
fn unstartable_shell_and_failing_poll_are_reported() {
    let (result, _) = run("/sys/unstartable", "x", vec![], "");
    let err = result.unwrap_err();
    assert_eq!(err.kind, FaultKind::NotFound);
    assert_eq!(
        err.text(),
        "failed to spawn sysfs write subprocess for /sys/unstartable: no shell"
    );
    let poll = ChildReply::Failed { kind: FaultKind::Other, message: "no child".to_string() };
    let (result, _) = run("/sys/a", "x", vec![poll], "");
    assert_eq!(result.unwrap_err().text(), "no child");
}

#[test]
fn further_replies_change_nothing() {
    let replies = || {
        vec![
            ChildReply::Done,
            ChildReply::Running,
            ChildReply::Nanos { nanos: 5 },
            ChildReply::Done,
            ChildReply::Exited { code: Some(0) },
            ChildReply::Running,
            ChildReply::Exited { code: Some(9) },
        ]
    };
    for count in 0..=replies().len() {
        let mut dialogue = Dialogue::new();
        for reply in replies().into_iter().take(count) {
            dialogue.record(reply);
        }
        let result = sysfs_write_with_timeout(&mut dialogue, "/sys/a", "x", 10);
        if count < 5 {
            assert!(result.is_none());
            assert_eq!(dialogue.asked_count(), count + 1);
        } else {
            assert!(matches!(result, Some(Ok(()))));
            assert_eq!(dialogue.asked_count(), 5);
        }
    }
}
