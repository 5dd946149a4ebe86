//! What watching over a machine, and ending it, comes to.

use vstd::prelude::*;

use crate::driver::create::RecordView;
use crate::driver::host::{host_answer, HostRequestView, HostTranscript};
use crate::driver::sandbox::{reported_config, SandboxPhase};
use crate::driver::status::Code;
use crate::driver::vm_driver::{
    delete_run, deletion_begun, matched_id, monitor_step, terminate_run, DriverView, EventView,
    MonitorAction, MonitorEventView, PlatformEventView,
};
use crate::fault::{FaultKind, FaultView};
use crate::text::{decimal, signed_decimal};

verus! {

/// `after` is the record `before` with nothing changed but its phase, and with one
/// condition on readiness in its status: whether it is ready, why, and in words.
pub open spec fn reported_anew(
    before: RecordView,
    after: RecordView,
    phase: SandboxPhase,
    is_ready: bool,
    reason: Seq<char>,
    message: Seq<char>,
) -> bool {
    let status = after.snapshot.status->0;
    &&& after.ssh_port == before.ssh_port
    &&& after.state_dir == before.state_dir
    &&& after.snapshot.id == before.snapshot.id
    &&& after.snapshot.name == before.snapshot.name
    &&& after.snapshot.namespace == before.snapshot.namespace
    &&& after.snapshot.sandbox_spec == before.snapshot.sandbox_spec
    &&& after.snapshot.phase == phase
    &&& after.snapshot.status is Some
    &&& status.sandbox_name == before.snapshot.name
    &&& status.driver_name == "openshell-driver-vm"@
    &&& status.driver_config == reported_config(before.snapshot)
    &&& status.conditions.len() == 1
    &&& status.conditions[0].condition_type == "Ready"@
    &&& status.conditions[0].status == if is_ready {
        "True"@
    } else {
        "False"@
    }
    &&& status.conditions[0].reason == reason
    &&& status.conditions[0].message == message
}

/// Nothing is filed differently but the record of `id`.
pub open spec fn only_record(before: DriverView, after: DriverView, id: Seq<char>) -> bool {
    &&& after.config == before.config
    &&& after.records.dom() == before.records.dom()
    &&& forall|other: Seq<char>|
        other != id && before.records.contains_key(other) ==> #[trigger] after.records[other]
            == before.records[other]
}

/// From `before` to `after` the sandbox `id` has come to be in error, for `reason`, and
/// watchers were told twice: its filed state, and a warning of its machine.
pub open spec fn in_error(
    before: DriverView,
    after: DriverView,
    id: Seq<char>,
    reason: Seq<char>,
    detail: Seq<char>,
    message: Seq<char>,
    now_ms: i64,
) -> bool {
    &&& only_record(before, after, id)
    &&& reported_anew(
        before.records[id],
        after.records[id],
        SandboxPhase::Error,
        false,
        reason,
        detail,
    )
    &&& after.events.len() == before.events.len() + 2
    &&& before.events.is_prefix_of(after.events)
    &&& after.events[before.events.len() as int] == (EventView::Sandbox {
        sandbox: after.records[id].snapshot,
    })
    &&& after.events[before.events.len() as int + 1] == (EventView::Platform {
        sandbox_id: id,
        event: PlatformEventView {
            timestamp_ms: now_ms,
            source: "vm"@,
            event_type: "Warning"@,
            reason,
            message,
        },
    })
}

/// A sandbox whose machine has ended is in error, whatever code it ended with and
/// whatever was reported before: watchers are told its filed state and a warning that
/// names the code, and the watch ends. A sandbox that is not registered any more only
/// has the warning.
pub proof fn law_ended_machine_is_in_error(
    driver: DriverView,
    id: Seq<char>,
    ready_emitted: bool,
    code: Option<i32>,
    now_ms: i64,
)
    ensures
        ({
            let (after, emitted, action) = monitor_step(
                driver,
                id,
                ready_emitted,
                MonitorEventView::Exited { code },
                now_ms,
            );
            let message = match code {
                Some(code) => "VM process exited with status "@ + signed_decimal(code as int),
                None => "VM process exited"@,
            };
            &&& action == MonitorAction::Stop
            &&& emitted == ready_emitted
            &&& driver.records.contains_key(id) ==> in_error(
                driver,
                after,
                id,
                "ProcessExited"@,
                message,
                message,
                now_ms,
            )
            &&& driver.records.contains_key(id) ==> after.records[id].snapshot.phase
                != SandboxPhase::Ready
            &&& !driver.records.contains_key(id) ==> after.records == driver.records
        }),
{
    let after = monitor_step(
        driver,
        id,
        ready_emitted,
        MonitorEventView::Exited { code },
        now_ms,
    ).0;
    if driver.records.contains_key(id) {
        assert(after.records.dom() =~= driver.records.dom());
    }
}

/// A sandbox whose machine cannot be looked at is in error too: watchers are told its
/// filed state and a warning that says why, and the watch ends.
pub proof fn law_lost_machine_is_in_error(
    driver: DriverView,
    id: Seq<char>,
    ready_emitted: bool,
    message: Seq<char>,
    now_ms: i64,
)
    requires
        driver.records.contains_key(id),
    ensures
        ({
            let (after, emitted, action) = monitor_step(
                driver,
                id,
                ready_emitted,
                MonitorEventView::PollFailed { message },
                now_ms,
            );
            &&& action == MonitorAction::Stop
            &&& emitted == ready_emitted
            &&& in_error(
                driver,
                after,
                id,
                "ProcessPollFailed"@,
                message,
                "Failed to poll openshell-vm child: "@ + message,
                now_ms,
            )
        }),
{
    let after = monitor_step(
        driver,
        id,
        ready_emitted,
        MonitorEventView::PollFailed { message },
        now_ms,
    ).0;
    assert(after.records.dom() =~= driver.records.dom());
}

/// A sandbox is ready from when its machine first accepts connections: it is filed so,
/// watchers are told once, and the watch goes on after a quarter of a second. Until then
/// nothing changes, and the port is tried again.
pub proof fn law_listening_machine_is_ready(
    driver: DriverView,
    id: Seq<char>,
    ready_emitted: bool,
    listening: bool,
    now_ms: i64,
)
    requires
        driver.records.contains_key(id),
    ensures
        ({
            let (after, emitted, action) = monitor_step(
                driver,
                id,
                ready_emitted,
                MonitorEventView::PortProbed { ready: listening },
                now_ms,
            );
            &&& action == (MonitorAction::Sleep { millis: 250 })
            &&& emitted == (ready_emitted || listening)
            &&& !listening ==> after == driver
            &&& listening ==> {
                &&& only_record(driver, after, id)
                &&& reported_anew(
                    driver.records[id],
                    after.records[id],
                    SandboxPhase::Ready,
                    true,
                    "Listening"@,
                    "Supervisor is listening for SSH connections"@,
                )
                &&& after.events == driver.events.push(
                    EventView::Sandbox { sandbox: after.records[id].snapshot },
                )
            }
        }),
{
    let after = monitor_step(
        driver,
        id,
        ready_emitted,
        MonitorEventView::PortProbed { ready: listening },
        now_ms,
    ).0;
    assert(after.records.dom() =~= driver.records.dom());
}

/// Looking at a machine changes nothing by itself: a round looks at the machine of a
/// registered sandbox by its filed port and ends for any other, a machine that runs has
/// that port tried until it was reported ready, and one that is being ended on purpose is
/// not watched any more.
pub proof fn law_looking_changes_nothing(
    driver: DriverView,
    id: Seq<char>,
    ready_emitted: bool,
    port: u16,
    now_ms: i64,
)
    ensures
        monitor_step(driver, id, ready_emitted, MonitorEventView::RoundBegins, now_ms) == (
            driver,
            ready_emitted,
            if driver.records.contains_key(id) {
                MonitorAction::Poll { ssh_port: driver.records[id].ssh_port }
            } else {
                MonitorAction::Stop
            },
        ),
        monitor_step(
            driver,
            id,
            ready_emitted,
            MonitorEventView::Running { ssh_port: port },
            now_ms,
        ) == (
            driver,
            ready_emitted,
            if ready_emitted {
                MonitorAction::Sleep { millis: 250 }
            } else {
                MonitorAction::ProbePort { port }
            },
        ),
        monitor_step(driver, id, ready_emitted, MonitorEventView::Deleting, now_ms) == (
            driver,
            ready_emitted,
            MonitorAction::Stop,
        ),
{
}

/// A sandbox that is being deleted is taken out of the registry, and watchers are told
/// its last state: that it is being deleted, and not ready. A request that means no
/// sandbox changes nothing.
pub proof fn law_deletion_is_told(driver: DriverView, id: Seq<char>, name: Seq<char>)
    ensures
        match matched_id(driver.records, id, name) {
            None => deletion_begun(driver, id, name) == driver,
            Some(found) => {
                let after = deletion_begun(driver, id, name);
                let told = after.events.last();
                let record = driver.records[found];
                &&& after.config == driver.config
                &&& after.records == driver.records.remove(found)
                &&& after.events.len() == driver.events.len() + 1
                &&& driver.events.is_prefix_of(after.events)
                &&& told is Sandbox
                &&& reported_anew(
                    record,
                    RecordView { snapshot: told->sandbox, ..record },
                    SandboxPhase::Deleting,
                    false,
                    "Deleting"@,
                    "Sandbox is being deleted"@,
                )
            },
        },
{
}

/// The machine has ended: in time by itself, or because it was killed.
pub open spec fn has_ended(t: HostTranscript, u: HostTranscript, n: int, id: Seq<char>) -> bool {
    let waited = HostRequestView::WaitEnd { id, millis: 5000 };
    &&& u.asked[n] == waited
    &&& {
        ||| u.asked.len() == n + 1 && u.replies[n].ok
        ||| u.asked.len() == n + 3 && u.replies[n].expired && u.asked[n + 1]
            == (HostRequestView::Kill { id }) && u.replies[n + 1].ok && u.asked[n + 2]
            == (HostRequestView::Wait { id }) && u.replies[n + 2].ok
    }
}

/// A machine is ended gently first: its process, where the host knows it, is asked to
/// end, and it has five seconds for that; only then is it killed. Success means that it
/// has ended. A process that is gone already counts as asked.
pub proof fn law_machine_is_ended(t: HostTranscript, id: Seq<char>)
    requires
        t.live(),
        terminate_run(t, id).1 is Ok,
    ensures
        ({
            let u = terminate_run(t, id).0;
            let n = t.asked.len() as int;
            &&& t.leads_to(u)
            &&& u.asked[n] == (HostRequestView::ProcessId { id })
            &&& match u.replies[n].pid {
                Some(pid) => {
                    &&& u.asked[n + 1] == (HostRequestView::Terminate { pid })
                    &&& u.replies[n + 1].ok || u.replies[n + 1].kind == FaultKind::NoSuchProcess
                    &&& has_ended(t, u, n + 2, id)
                },
                None => has_ended(t, u, n + 1, id),
            }
        }),
{
}

/// A deletion that succeeds has ended the machine and then removed the directory of the
/// sandbox, which may have been gone already.
pub proof fn law_deleted_sandbox_leaves_nothing(t: HostTranscript, record: RecordView)
    requires
        t.live(),
        delete_run(t, record).1 is Ok,
    ensures
        ({
            let u = delete_run(t, record).0;
            let last = u.asked.len() - 1;
            &&& terminate_run(t, record.snapshot.id).1 is Ok
            &&& terminate_run(t, record.snapshot.id).0.asked == u.asked.drop_last()
            &&& u.asked[last] == (HostRequestView::RemoveDirAll { path: record.state_dir })
            &&& u.replies[last].ok || u.replies[last].kind == FaultKind::NotFound
        }),
{
    let u = delete_run(t, record).0;
    assert(terminate_run(t, record.snapshot.id).0.asked =~= u.asked.drop_last());
}

/// A deletion that fails says what did: the machine could not be ended, or its files
/// could not be removed.
pub proof fn law_failed_deletion_says_why(t: HostTranscript, record: RecordView)
    requires
        t.live(),
        delete_run(t, record).0.live(),
        delete_run(t, record).1 is Err,
    ensures
        ({
            let (u, r) = delete_run(t, record);
            let status = r->Err_0;
            let last = u.replies[u.asked.len() - 1];
            let ended = terminate_run(t, record.snapshot.id);
            &&& status.code == Code::Internal
            &&& !last.ok
            &&& if ended.1 is Err {
                u == ended.0 && status.message == "failed to stop vm: "@ + ended.1->Err_0.message
            } else {
                status.message == "failed to remove state dir: "@ + last.text
            }
        }),
{
}

/// What an end of a machine that fails is reported as: that its process could not be
/// asked to end, with its number, or what the host said.
pub proof fn law_failed_end_says_why(t: HostTranscript, id: Seq<char>)
    requires
        t.live(),
        terminate_run(t, id).0.live(),
        terminate_run(t, id).1 is Err,
    ensures
        ({
            let (u, r) = terminate_run(t, id);
            let e = r->Err_0;
            let last = u.asked.len() - 1;
            &&& !u.replies[last].ok
            &&& match u.asked[last] {
                HostRequestView::Terminate { pid } => {
                    &&& e.kind == FaultKind::Other
                    &&& e.message == "send SIGTERM to vm process "@ + decimal(pid as nat) + ": "@
                        + u.replies[last].text
                },
                _ => e == (FaultView { kind: u.replies[last].kind, message: u.replies[last].text }),
            }
        }),
{
}

/// A machine that heeds the request to end is not killed, and one whose process is gone
/// already is no failure: all that is asked is its number, its end, and to wait for it.
pub proof fn law_willing_machine_ends(t: HostTranscript, id: Seq<char>, pid: u32)
    requires
        ({
            let n = t.asked.len() as int;
            &&& t.replies.len() > n + 2
            &&& t.replies[n].pid == Some(pid)
            &&& t.replies[n + 1].ok || t.replies[n + 1].kind == FaultKind::NoSuchProcess
            &&& t.replies[n + 2].ok
        }),
    ensures
        terminate_run(t, id).1 is Ok,
        terminate_run(t, id).0.asked == t.asked + seq![
            HostRequestView::ProcessId { id },
            HostRequestView::Terminate { pid },
            HostRequestView::WaitEnd { id, millis: 5000 },
        ],
{
    let t1 = t.ask(HostRequestView::ProcessId { id });
    let t2 = t1.ask(HostRequestView::Terminate { pid });
    assert(host_answer(t1) == t.replies[t.asked.len() as int]);
    assert(host_answer(t2) == t.replies[t.asked.len() as int + 1]);
    assert(terminate_run(t, id).0.asked =~= t.asked + seq![
        HostRequestView::ProcessId { id },
        HostRequestView::Terminate { pid },
        HostRequestView::WaitEnd { id, millis: 5000 },
    ]);
}

/// Once a machine has ended, its deletion succeeds where its files are removed, and where
/// there are none left to remove.
pub proof fn law_deletion_needs_no_files(t: HostTranscript, record: RecordView)
    requires
        terminate_run(t, record.snapshot.id).1 is Ok,
        terminate_run(t, record.snapshot.id).0.live(),
        delete_run(t, record).0.live(),
    ensures
        ({
            let ended = terminate_run(t, record.snapshot.id).0;
            let (u, r) = delete_run(t, record);
            let a = u.replies[ended.asked.len() as int];
            &&& u.asked == ended.asked.push(
                HostRequestView::RemoveDirAll { path: record.state_dir },
            )
            &&& r is Ok <==> a.ok || a.kind == FaultKind::NotFound
        }),
{
}

} // verus!
