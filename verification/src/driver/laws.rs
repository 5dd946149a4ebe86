//! What holds of creating, reporting and deleting sandboxes as a whole.

use vstd::prelude::*;

use crate::driver::config::{needs_tls, tls_run, ConfigView, TlsPathsView};
use crate::driver::create::{
    already_exists, guest_tls_dir, guest_tls_run, start_run, RecordView, PRIVATE_MODE,
};
use crate::driver::guest::{
    refusal, state_dir_of, GUEST_TLS_CA_PATH, GUEST_TLS_CERT_PATH, GUEST_TLS_KEY_PATH,
};
use crate::driver::host::{HostRequestView, HostTranscript};
use crate::driver::sandbox::{reported_config, ConditionView, SandboxPhase, SandboxView};
use crate::driver::status::StatusView;
use crate::driver::vm_driver::{
    condition_told, creation_run, delete_run, deletion_begun, end_run, first_named, matched_id,
    monitor_step, snapshots, terminate_run, with_condition, DriverView, EventView, MonitorEventView,
    TERMINATION_GRACE_MILLIS,
};
use crate::paths::joined_path;
use crate::text_map::{
    law_listing_lists_the_map, lemma_entry, lemma_listing_len, listing, map_of,
};

verus! {

/// A sandbox that cannot run as a machine is refused before anything is asked of
/// the host.
pub proof fn law_refused_sandbox_asks_nothing(
    t: HostTranscript,
    driver: DriverView,
    sandbox: SandboxView,
    init_path: Seq<char>,
)
    requires
        refusal(sandbox) is Some,
    ensures
        creation_run(t, driver, sandbox, init_path) == (
            t,
            Err::<RecordView, StatusView>(refusal(sandbox)->0),
        ),
{
}

/// A sandbox whose id is registered is refused before anything is asked of the host.
pub proof fn law_taken_id_is_refused(
    t: HostTranscript,
    driver: DriverView,
    sandbox: SandboxView,
    init_path: Seq<char>,
)
    requires
        refusal(sandbox) is None,
        driver.records.contains_key(sandbox.id),
    ensures
        creation_run(t, driver, sandbox, init_path) == (
            t,
            Err::<RecordView, StatusView>(already_exists()),
        ),
{
}

/// What was created once is not created again: after a creation, another one under the
/// same id is refused, and the record stays.
pub proof fn law_second_creation_is_refused(
    t: HostTranscript,
    later: HostTranscript,
    driver: DriverView,
    sandbox: SandboxView,
    second: SandboxView,
    init_path: Seq<char>,
)
    requires
        creation_run(t, driver, sandbox, init_path).1 is Ok,
        refusal(second) is None,
        second.id == sandbox.id,
    ensures
        ({
            let record = creation_run(t, driver, sandbox, init_path).1->Ok_0;
            let after = driver.registered(record);
            &&& !driver.records.contains_key(sandbox.id)
            &&& after.records[sandbox.id] == record
            &&& creation_run(later, after, second, init_path).1 == Err::<RecordView, StatusView>(
                already_exists(),
            )
        }),
{
}

/// A machine that was asked for and could not be started leaves no files behind:
/// the last thing asked is to remove them.
pub proof fn law_failed_start_removes_files(
    t: HostTranscript,
    sandbox: SandboxView,
    config: ConfigView,
    init_path: Seq<char>,
    ssh_port: u16,
)
    requires
        t.live(),
        start_run(t, sandbox, config, init_path, ssh_port).0.live(),
        !start_run(t, sandbox, config, init_path, ssh_port).0.replies[t.asked.len() as int].ok,
    ensures
        ({
            let (u, r) = start_run(t, sandbox, config, init_path, ssh_port);
            &&& r is Err
            &&& u.asked.last() == (HostRequestView::RemoveDirAll {
                path: state_dir_of(config.state_dir, sandbox.id),
            })
        }),
{
}

/// A created sandbox is found by its id, with the port that was allocated, and no
/// other sandbox changes.
pub proof fn law_created_sandbox_is_found(driver: DriverView, record: RecordView, name: Seq<char>)
    ensures
        ({
            let id = record.snapshot.id;
            let after = driver.registered(record);
            &&& matched_id(after.records, id, name) == Some(id)
            &&& after.records[id] == record
            &&& forall|other: Seq<char>|
                other != id ==> after.records.contains_key(other) == driver.records.contains_key(
                    other,
                ) && (#[trigger] after.records[other]) == driver.records[other]
        }),
{
}

proof fn lemma_first_named(e: Seq<(Seq<char>, RecordView)>, name: Seq<char>, i: nat)
    requires
        i <= e.len(),
    ensures
        match first_named(e, name, i) {
            Some(id) => exists|k: int|
                i <= k < e.len() && (#[trigger] e[k]).0 == id && e[k].1.snapshot.name == name,
            None => forall|k: int|
                i <= k < e.len() ==> (#[trigger] e[k]).1.snapshot.name != name,
        },
    decreases e.len() - i,
{
    if i < e.len() {
        if e[i as int].1.snapshot.name == name {
            assert(e[i as int].0 == first_named(e, name, i)->0);
        } else {
            lemma_first_named(e, name, i + 1);
        }
    }
}

/// A request means the sandbox with its id, else one that has its name; it means none
/// only where no sandbox has its id or its name.
pub proof fn law_request_means_a_sandbox(
    records: Map<Seq<char>, RecordView>,
    id: Seq<char>,
    name: Seq<char>,
)
    requires
        records.dom().finite(),
    ensures
        match matched_id(records, id, name) {
            Some(found) => {
                &&& records.contains_key(found)
                &&& if records.contains_key(id) {
                    found == id
                } else {
                    records[found].snapshot.name == name
                }
            },
            None => {
                &&& !records.contains_key(id)
                &&& forall|other: Seq<char>| #[trigger]
                    records.contains_key(other) ==> records[other].snapshot.name != name
            },
        },
{
    let e = listing(records);
    law_listing_lists_the_map(records);
    if !records.contains_key(id) {
        lemma_first_named(e, name, 0);
        match first_named(e, name, 0) {
            Some(found) => {
                let k = choose|k: int|
                    0 <= k < e.len() && (#[trigger] e[k]).0 == found && e[k].1.snapshot.name
                        == name;
                lemma_entry(e, k);
            },
            None => {
                assert forall|other: Seq<char>| #[trigger]
                    records.contains_key(other) implies records[other].snapshot.name != name by {
                    assert(map_of(e).contains_key(other));
                    let k = choose|k: int| 0 <= k < e.len() && (#[trigger] e[k]).0 == other;
                    lemma_entry(e, k);
                }
            },
        }
    }
}

/// `snapshot` is that of one of the records.
pub open spec fn of_some_record(
    records: Map<Seq<char>, RecordView>,
    snapshot: SandboxView,
) -> bool {
    exists|id: Seq<char>| #[trigger]
        records.contains_key(id) && records[id].snapshot == snapshot
}

/// The snapshots are those of all records: each record's is among them, there are as
/// many as records, and each is that of a record.
pub proof fn law_snapshots_are_of_all_records(records: Map<Seq<char>, RecordView>)
    requires
        records.dom().finite(),
    ensures
        snapshots(records).len() == records.dom().len(),
        forall|id: Seq<char>| #[trigger]
            records.contains_key(id) ==> snapshots(records).contains(records[id].snapshot),
        forall|i: int|
            0 <= i < snapshots(records).len() ==> of_some_record(
                records,
                #[trigger] snapshots(records)[i],
            ),
{
    let e = listing(records);
    let all = snapshots(records);
    law_listing_lists_the_map(records);
    lemma_listing_len(records);
    assert forall|id: Seq<char>| #[trigger] records.contains_key(id) implies all.contains(
        records[id].snapshot,
    ) by {
        assert(map_of(e).contains_key(id));
        let k = choose|k: int| 0 <= k < e.len() && (#[trigger] e[k]).0 == id;
        lemma_entry(e, k);
        assert(all[k] == records[id].snapshot);
    }
    assert forall|i: int| 0 <= i < all.len() implies of_some_record(
        records,
        #[trigger] all[i],
    ) by {
        lemma_entry(e, i);
        assert(records.contains_key(e[i].0));
    }
}

/// A deleted sandbox is not found by its id any more, and no other sandbox changes.
pub proof fn law_deleted_sandbox_is_gone(driver: DriverView, id: Seq<char>, name: Seq<char>)
    requires
        driver.records.contains_key(id),
    ensures
        ({
            let after = deletion_begun(driver, id, name);
            &&& !after.records.contains_key(id)
            &&& forall|other: Seq<char>|
                other != id ==> after.records.contains_key(other) == driver.records.contains_key(
                    other,
                ) && (#[trigger] after.records[other]) == driver.records[other]
        }),
{
}

/// Deleting what a creation registered gives the registry back as it was.
pub proof fn law_deletion_undoes_creation(driver: DriverView, record: RecordView, name: Seq<char>)
    requires
        !driver.records.contains_key(record.snapshot.id),
    ensures
        deletion_begun(driver.registered(record), record.snapshot.id, name).records
            == driver.records,
{
    let id = record.snapshot.id;
    assert(driver.records.insert(id, record).remove(id) =~= driver.records);
}

/// Whatever is reported of a sandbox later, what was reported about its machine
/// stays, and so does what identifies it.
pub proof fn law_reports_keep_the_machine(
    snapshot: SandboxView,
    phase: SandboxPhase,
    condition: ConditionView,
)
    ensures
        ({
            let after = with_condition(snapshot, phase, condition);
            &&& reported_config(after) == reported_config(snapshot)
            &&& after.id == snapshot.id
            &&& after.name == snapshot.name
            &&& after.namespace == snapshot.namespace
            &&& after.phase == phase
            &&& after.status->0.conditions == seq![condition]
        }),
{
}

/// A sandbox is reported ready at most once: after that its port is not probed
/// again, whatever else happens.
pub proof fn law_ready_is_told_once(
    driver: DriverView,
    id: Seq<char>,
    event: MonitorEventView,
    now_ms: i64,
)
    ensures
        ({
            let (after, ready_emitted, action) = monitor_step(driver, id, true, event, now_ms);
            &&& ready_emitted
            &&& action !is ProbePort
        }),
{
}

/// Watching stops only where the sandbox is gone, is being deleted, or its machine
/// has ended or cannot be looked at; and a machine is found in error only there.
pub proof fn law_watching_goes_on(
    driver: DriverView,
    id: Seq<char>,
    ready_emitted: bool,
    event: MonitorEventView,
    now_ms: i64,
)
    requires
        event is Running || event is PortProbed || (event is RoundBegins
            && driver.records.contains_key(id)),
    ensures
        monitor_step(driver, id, ready_emitted, event, now_ms).2 !is Stop,
        driver.records.contains_key(id) && driver.records[id].snapshot.phase != SandboxPhase::Error
            ==> monitor_step(
            driver,
            id,
            ready_emitted,
            event,
            now_ms,
        ).0.records[id].snapshot.phase != SandboxPhase::Error,
{
}

/// A gateway that is reached over TLS needs TLS files: without them the
/// configuration is refused.
pub proof fn law_tls_gateway_needs_tls_files(t: HostTranscript, config: ConfigView)
    requires
        needs_tls(config.openshell_endpoint),
        tls_run(t, config).1 is Ok,
    ensures
        tls_run(t, config).1->Ok_0 is Some,
{
}

/// Once the TLS files are in place, the permissions of the key are set so that
/// only its owner may read it.
pub proof fn law_key_stays_private(t: HostTranscript, rootfs: Seq<char>, paths: TlsPathsView)
    requires
        guest_tls_run(t, rootfs, paths).1 is Ok,
    ensures
        guest_tls_run(t, rootfs, paths).0.asked.last() == (HostRequestView::SetMode {
            path: joined_path(guest_tls_dir(rootfs), "tls.key"@),
            mode: PRIVATE_MODE,
        }),
{
}

/// Watchers are told what is filed: after a sandbox is registered, and after each
/// change of its state, the last event is its filed state.
pub proof fn law_watchers_are_told_what_is_filed(
    driver: DriverView,
    record: RecordView,
    id: Seq<char>,
    phase: SandboxPhase,
    condition: ConditionView,
)
    ensures
        driver.registered(record).events.last() == (EventView::Sandbox {
            sandbox: driver.registered(record).records[record.snapshot.id].snapshot,
        }),
        driver.records.contains_key(id) ==> condition_told(driver, id, phase, condition).events.last()
            == (EventView::Sandbox {
            sandbox: condition_told(driver, id, phase, condition).records[id].snapshot,
        }),
{
}

/// A machine is killed only where it was given time to end and did not.
pub proof fn law_kill_comes_after_the_grace_time(t: HostTranscript, id: Seq<char>)
    requires
        t.live(),
        end_run(t, id).0.live(),
        end_run(t, id).0.asked.len() > t.asked.len() + 1,
    ensures
        ({
            let end = end_run(t, id).0;
            let n = t.asked.len() as int;
            &&& end.asked[n] == (HostRequestView::WaitEnd { id, millis: TERMINATION_GRACE_MILLIS })
            &&& end.replies[n].expired && !end.replies[n].ok
            &&& end.asked[n + 1] == (HostRequestView::Kill { id })
        }),
{
}

/// The files of a sandbox are removed only once its machine has ended: where it could
/// not be ended, nothing more is asked.
pub proof fn law_files_outlive_the_machine(t: HostTranscript, record: RecordView)
    ensures
        terminate_run(t, record.snapshot.id).1 is Err ==> {
            &&& delete_run(t, record).0 == terminate_run(t, record.snapshot.id).0
            &&& delete_run(t, record).1 is Err
        },
        terminate_run(t, record.snapshot.id).1 is Ok ==> delete_run(t, record).0 == terminate_run(
            t,
            record.snapshot.id,
        ).0.ask(HostRequestView::RemoveDirAll { path: record.state_dir }),
{
}

/// The TLS files are put where the machine is told to look for them: at the paths of
/// its environment, below its root file system.
pub proof fn law_tls_files_are_where_the_guest_looks(rootfs: Seq<char>)
    requires
        rootfs.len() > 0,
        rootfs.last() != '/',
    ensures
        joined_path(guest_tls_dir(rootfs), "ca.crt"@) == rootfs + GUEST_TLS_CA_PATH@,
        joined_path(guest_tls_dir(rootfs), "tls.crt"@) == rootfs + GUEST_TLS_CERT_PATH@,
        joined_path(guest_tls_dir(rootfs), "tls.key"@) == rootfs + GUEST_TLS_KEY_PATH@,
{
    reveal_strlit("opt/openshell/tls");
    reveal_strlit("ca.crt");
    reveal_strlit("tls.crt");
    reveal_strlit("tls.key");
    reveal_strlit("/opt/openshell/tls/ca.crt");
    reveal_strlit("/opt/openshell/tls/tls.crt");
    reveal_strlit("/opt/openshell/tls/tls.key");
    assert(joined_path(guest_tls_dir(rootfs), "ca.crt"@) =~= rootfs + GUEST_TLS_CA_PATH@);
    assert(joined_path(guest_tls_dir(rootfs), "tls.crt"@) =~= rootfs + GUEST_TLS_CERT_PATH@);
    assert(joined_path(guest_tls_dir(rootfs), "tls.key"@) =~= rootfs + GUEST_TLS_KEY_PATH@);
}

/// A sandbox that was created is reported under its own id and name as being
/// provisioned, and its files are in its own directory.
pub proof fn law_created_sandbox_is_as_asked(
    t: HostTranscript,
    driver: DriverView,
    sandbox: SandboxView,
    init_path: Seq<char>,
)
    requires
        creation_run(t, driver, sandbox, init_path).1 is Ok,
    ensures
        ({
            let record = creation_run(t, driver, sandbox, init_path).1->Ok_0;
            &&& record.snapshot.id == sandbox.id
            &&& record.snapshot.name == sandbox.name
            &&& record.snapshot.namespace == sandbox.namespace
            &&& record.snapshot.phase == SandboxPhase::Provisioning
            &&& record.state_dir == state_dir_of(driver.config.state_dir, sandbox.id)
        }),
        refusal(sandbox) is None,
{
}

/// No two sandboxes share a directory, as long as their ids are not absolute paths.
pub proof fn law_sandboxes_have_their_own_directories(
    root: Seq<char>,
    a: Seq<char>,
    b: Seq<char>,
)
    requires
        a.len() > 0 ==> a[0] != '/',
        b.len() > 0 ==> b[0] != '/',
        state_dir_of(root, a) == state_dir_of(root, b),
    ensures
        a == b,
{
    let base = joined_path(root, "sandboxes"@);
    let start = joined_path(base, Seq::empty());
    assert(state_dir_of(root, a) =~= start + a);
    assert(state_dir_of(root, b) =~= start + b);
    assert((start + a).skip(start.len() as int) =~= a);
    assert((start + b).skip(start.len() as int) =~= b);
}

} // verus!
