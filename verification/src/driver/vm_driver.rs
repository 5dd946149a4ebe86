//! The driver: the sandboxes it runs and what it tells its watchers.

use vstd::prelude::*;
use vstd::seq_lib::to_multiset_insert;

use crate::driver::config::{tls_run, ConfigView, VmDriverConfig};
use crate::driver::create::{
    already_exists, create_run, host_fault, internal, make_machine, Created, RecordView,
    SandboxRecord,
};
use crate::driver::guest::{refusal, validate_vm_sandbox};
use crate::driver::host::{
    ask_host, host_answer, HostDialogue, HostRequest, HostRequestView, HostTranscript,
};
use crate::driver::sandbox::{
    condition, deleting, deleting_condition, error_condition, ready, ready_condition,
    reported_config, single_status, status_part, status_with_condition, ConditionView, Sandbox,
    SandboxCondition, SandboxPhase, SandboxStatus, SandboxView, DRIVER_NAME,
};
use crate::driver::status::{Code, Status, StatusView};
use crate::fault::{outcome, Fault, FaultKind, FaultView};
use crate::order::{law_before_is_total, law_not_before_is_transitive};
use crate::paths::{join_path, joined_path};
use crate::text::{
    before, decimal, decimal_text, glue2, glue4, same, signed_decimal, signed_decimal_text,
    stands_before, trim, trimmed,
};
use crate::text_map::{ascending, listing, map_of, TextMap};

verus! {

/// Something that happened to a machine.
#[derive(Debug)]
pub struct PlatformEvent {
    pub timestamp_ms: i64,
    pub source: String,
    pub event_type: String,
    pub reason: String,
    pub message: String,
}

/// The view of a [`PlatformEvent`].
#[verifier::ext_equal]
pub struct PlatformEventView {
    pub timestamp_ms: i64,
    pub source: Seq<char>,
    pub event_type: Seq<char>,
    pub reason: Seq<char>,
    pub message: Seq<char>,
}

impl View for PlatformEvent {
    type V = PlatformEventView;

    open spec fn view(&self) -> PlatformEventView {
        PlatformEventView {
            timestamp_ms: self.timestamp_ms,
            source: self.source@,
            event_type: self.event_type@,
            reason: self.reason@,
            message: self.message@,
        }
    }
}

/// What watchers are told.
#[derive(Debug)]
pub enum WatchEvent {
    /// The state of a sandbox.
    Sandbox { sandbox: Sandbox },
    /// A sandbox is gone.
    Deleted { sandbox_id: String },
    /// Something happened to the machine of a sandbox.
    Platform { sandbox_id: String, event: PlatformEvent },
}

/// The view of a [`WatchEvent`].
pub enum EventView {
    Sandbox { sandbox: SandboxView },
    Deleted { sandbox_id: Seq<char> },
    Platform { sandbox_id: Seq<char>, event: PlatformEventView },
}

impl View for WatchEvent {
    type V = EventView;

    open spec fn view(&self) -> EventView {
        match self {
            WatchEvent::Sandbox { sandbox } => EventView::Sandbox { sandbox: sandbox@ },
            WatchEvent::Deleted { sandbox_id } => EventView::Deleted { sandbox_id: sandbox_id@ },
            WatchEvent::Platform { sandbox_id, event } => EventView::Platform {
                sandbox_id: sandbox_id@,
                event: event@,
            },
        }
    }
}

pub open spec fn event_views(v: Seq<WatchEvent>) -> Seq<EventView> {
    v.map_values(|e: WatchEvent| e@)
}

/// A compute driver that runs each sandbox as a virtual machine.
#[derive(Debug)]
pub struct VmDriver {
    config: VmDriverConfig,
    registry: TextMap<SandboxRecord>,
    outbox: Vec<WatchEvent>,
}

/// The view of a [`VmDriver`]: its configuration, the record of each sandbox by
/// id, and the events that are still to be sent, in order.
#[verifier::ext_equal]
pub struct DriverView {
    pub config: ConfigView,
    pub records: Map<Seq<char>, RecordView>,
    pub events: Seq<EventView>,
}

impl View for VmDriver {
    type V = DriverView;

    closed spec fn view(&self) -> DriverView {
        DriverView {
            config: self.config@,
            records: self.registry@,
            events: event_views(self.outbox@),
        }
    }
}

impl DriverView {
    /// Every record is filed under the id of its sandbox.
    pub open spec fn consistent(self) -> bool {
        forall|id: Seq<char>| #[trigger]
            self.records.contains_key(id) ==> self.records[id].snapshot.id == id
    }

    pub open spec fn told(self, event: EventView) -> DriverView {
        DriverView { events: self.events.push(event), ..self }
    }

    /// The sandbox has this record from now on, and watchers are told.
    pub open spec fn registered(self, record: RecordView) -> DriverView {
        DriverView {
            records: self.records.insert(record.snapshot.id, record),
            ..self
        }.told(EventView::Sandbox { sandbox: record.snapshot })
    }
}

/// The state of a reported sandbox under a new phase and condition.
pub open spec fn with_condition(
    snapshot: SandboxView,
    phase: SandboxPhase,
    condition: ConditionView,
) -> SandboxView {
    SandboxView {
        phase,
        status: Some(single_status(snapshot.name, condition, reported_config(snapshot))),
        ..snapshot
    }
}

/// What a start of the driver ends in.
pub open spec fn new_run(t: HostTranscript, config: ConfigView) -> (
    HostTranscript,
    Result<(), Seq<char>>,
) {
    if trimmed(config.openshell_endpoint).len() == 0 {
        (t, Err("openshell endpoint is required"@))
    } else {
        let (t, tls) = tls_run(t, config);
        match tls {
            Err(message) => (t, Err(message)),
            Ok(_) => {
                let root = joined_path(config.state_dir, "sandboxes"@);
                let t = t.ask(HostRequestView::CreateDirAll { path: root });
                if host_answer(t).ok {
                    (t, Ok(()))
                } else {
                    (
                        t,
                        Err(
                            "failed to create state dir '"@ + root + "': "@ + host_answer(t).text,
                        ),
                    )
                }
            },
        }
    }
}

/// What the driver can do.
#[derive(Debug)]
pub struct Capabilities {
    pub driver_name: String,
    pub driver_version: String,
    pub default_image: String,
    pub supports_gpu: bool,
    /// Whether sandboxes get the policy profile of containers.
    pub container_policy_profile: bool,
    pub default_process_user: String,
    pub default_process_group: String,
}

/// The first of `e[i..]` with this name, by id.
pub open spec fn first_named(e: Seq<(Seq<char>, RecordView)>, name: Seq<char>, i: nat) -> Option<
    Seq<char>,
>
    decreases e.len() - i,
{
    if i >= e.len() {
        None
    } else if e[i as int].1.snapshot.name == name {
        Some(e[i as int].0)
    } else {
        first_named(e, name, i + 1)
    }
}

/// The sandbox that a request means: the one with this id, else one with this name.
pub open spec fn matched_id(
    records: Map<Seq<char>, RecordView>,
    id: Seq<char>,
    name: Seq<char>,
) -> Option<Seq<char>> {
    if records.contains_key(id) {
        Some(id)
    } else {
        first_named(listing(records), name, 0)
    }
}

/// What creating a sandbox asks and ends in, by the registry of the driver.
pub open spec fn creation_run(
    t: HostTranscript,
    driver: DriverView,
    sandbox: SandboxView,
    init_path: Seq<char>,
) -> (HostTranscript, Created) {
    create_run(
        t,
        sandbox,
        driver.config,
        driver.records.contains_key(sandbox.id),
        init_path,
    )
}

impl VmDriver {
    /// Starts a driver: its configuration has to be complete, and its state
    /// directory is made.
    pub fn new(config: VmDriverConfig, d: &mut HostDialogue) -> (r: Option<
        Result<VmDriver, String>,
    >)
        ensures
            final(d)@ == new_run(old(d)@, config@).0,
            r is Some <==> final(d)@.live(),
            r is Some ==> match r->0 {
                Ok(driver) => {
                    &&& new_run(old(d)@, config@).1 is Ok
                    &&& driver@ == (DriverView {
                        config: config@,
                        records: Map::empty(),
                        events: Seq::empty(),
                    })
                },
                Err(message) => new_run(old(d)@, config@).1 == Err::<(), _>(message@),
            },
    {
        if !d.is_live() {
            return None;
        }
        if trim(config.openshell_endpoint.as_str()).as_str().is_empty() {
            return Some(Err("openshell endpoint is required".to_owned()));
        }
        match config.tls_paths(d) {
            Some(Ok(_)) => {},
            Some(Err(message)) => {
                return Some(Err(message));
            },
            None => {
                return None;
            },
        }
        let root = join_path(config.state_dir.as_str(), "sandboxes");
        let made = ask_host(d, HostRequest::CreateDirAll { path: root.clone() })?;
        if !made.ok {
            let message = glue4(
                "failed to create state dir '",
                root.as_str(),
                "': ",
                made.text.as_str(),
            );
            return Some(Err(message));
        }
        let driver = VmDriver { config, registry: TextMap::new(), outbox: Vec::new() };
        assert(driver@.events =~= Seq::empty());
        Some(Ok(driver))
    }

    /// What the driver can do, in this version of the program.
    pub fn capabilities(&self, version: &str) -> (c: Capabilities)
        ensures
            c.driver_name@ == DRIVER_NAME@,
            c.driver_name@ == "openshell-driver-vm"@,
            c.driver_version@ == version@,
            c.default_image@ == Seq::<char>::empty(),
            !c.supports_gpu,
            c.container_policy_profile,
            c.default_process_user@ == "sandbox"@,
            c.default_process_group@ == "sandbox"@,
    {
        Capabilities {
            driver_name: DRIVER_NAME.to_owned(),
            driver_version: version.to_owned(),
            default_image: String::new(),
            supports_gpu: false,
            container_policy_profile: true,
            default_process_user: "sandbox".to_owned(),
            default_process_group: "sandbox".to_owned(),
        }
    }

    /// Accepts the sandboxes that can run as machines.
    pub fn validate_sandbox(&self, sandbox: &Sandbox) -> (r: Result<(), Status>)
        ensures
            match refusal(sandbox@) {
                Some(status) => r is Err && r->Err_0@ == status,
                None => r is Ok,
            },
    {
        validate_vm_sandbox(sandbox)
    }

    /// Whether a sandbox with this id is registered.
    pub fn is_registered(&self, sandbox_id: &str) -> (r: bool)
        ensures
            r == self@.records.contains_key(sandbox_id@),
    {
        self.registry.get(sandbox_id).is_some()
    }

    fn tell(&mut self, event: WatchEvent)
        ensures
            final(self)@ == old(self)@.told(event@),
    {
        self.outbox.push(event);
        assert(self@.events =~= old(self)@.events.push(event@));
    }

    /// Takes the events that are to be sent, in order.
    pub fn take_events(&mut self) -> (events: Vec<WatchEvent>)
        ensures
            event_views(events@) == old(self)@.events,
            final(self)@ == (DriverView { events: Seq::empty(), ..old(self)@ }),
    {
        let mut events: Vec<WatchEvent> = Vec::new();
        std::mem::swap(&mut events, &mut self.outbox);
        assert(self@.events =~= Seq::empty());
        events
    }

    /// Makes and starts the machine of a sandbox. Once it runs, the sandbox is
    /// registered and watchers are told; otherwise the driver is unchanged. A sandbox
    /// whose id is registered is refused, and nothing is asked for it.
    ///
    /// `guest_init_path` is the program that a machine starts with.
    pub fn create_sandbox(
        &mut self,
        sandbox: &Sandbox,
        guest_init_path: &str,
        d: &mut HostDialogue,
    ) -> (r: Option<Result<Option<SandboxStatus>, Status>>)
        ensures
            final(d)@ == creation_run(old(d)@, old(self)@, sandbox@, guest_init_path@).0,
            r is Some <==> final(d)@.live(),
            r is Some ==> match creation_run(
                old(d)@,
                old(self)@,
                sandbox@,
                guest_init_path@,
            ).1 {
                Ok(record) => {
                    &&& r->0 is Ok
                    &&& status_part(r->0->Ok_0) == record.snapshot.status
                    &&& final(self)@ == old(self)@.registered(record)
                    &&& !old(self)@.records.contains_key(record.snapshot.id)
                },
                Err(status) => {
                    &&& r->0 is Err
                    &&& r->0->Err_0@ == status
                    &&& final(self)@ == old(self)@
                },
            },
            refusal(sandbox@) is None && old(self)@.records.contains_key(sandbox@.id) ==> {
                &&& final(d)@ == old(d)@
                &&& r is Some ==> r->0 is Err && r->0->Err_0@ == already_exists()
                &&& final(self)@ == old(self)@
            },
            r is None ==> final(self)@ == old(self)@,
            old(self)@.consistent() ==> final(self)@.consistent(),
    {
        let taken = self.is_registered(sandbox.id.as_str());
        match make_machine(d, sandbox, &self.config, taken, guest_init_path) {
            None => None,
            Some(Err(status)) => Some(Err(status)),
            Some(Ok(record)) => {
                let snapshot = record.snapshot.copy();
                let reported = record.snapshot.copy();
                let id = record.snapshot.id.clone();
                self.registry.set(id.as_str(), record);
                self.tell(WatchEvent::Sandbox { sandbox: snapshot });
                Some(Ok(reported.status))
            },
        }
    }

    fn find_named(&self, name: &str) -> (r: Option<String>)
        ensures
            match r {
                Some(id) => first_named(listing(self@.records), name@, 0) == Some(id@)
                    && self@.records.contains_key(id@),
                None => first_named(listing(self@.records), name@, 0) is None,
            },
    {
        let ghost e = listing(self@.records);
        let count: usize = self.registry.len();
        let mut i: usize = 0;
        while i < count
            invariant
                i <= count,
                count == e.len(),
                e == listing(self@.records),
                first_named(e, name@, 0) == first_named(e, name@, i as nat),
            decreases count - i,
        {
            let record = self.registry.value_at(i);
            if same(record.snapshot.name.as_str(), name) {
                return Some(self.registry.name_at(i).to_owned());
            }
            i = i + 1;
        }
        None
    }

    fn find(&self, id: &str, name: &str) -> (r: Option<String>)
        ensures
            match r {
                Some(found) => matched_id(self@.records, id@, name@) == Some(found@)
                    && self@.records.contains_key(found@),
                None => matched_id(self@.records, id@, name@) is None,
            },
            ascending(listing(self@.records)),
            map_of(listing(self@.records)) == self@.records,
    {
        if self.registry.get(id).is_some() {
            Some(id.to_owned())
        } else {
            self.find_named(name)
        }
    }

    /// Where SSH connections to the machine of a sandbox go: a host and a port.
    pub fn resolve_endpoint(&self, sandbox: &Sandbox) -> (r: Result<(String, u32), Status>)
        ensures
            match matched_id(self@.records, sandbox@.id, sandbox@.name) {
                Some(id) => {
                    &&& r is Ok
                    &&& r->Ok_0.0@ == "127.0.0.1"@
                    &&& r->Ok_0.1 == self@.records[id].ssh_port
                },
                None => {
                    &&& r is Err
                    &&& r->Err_0@ == (StatusView {
                        code: Code::NotFound,
                        message: "sandbox not found"@,
                    })
                },
            },
            ascending(listing(self@.records)),
            map_of(listing(self@.records)) == self@.records,
    {
        match self.find(sandbox.id.as_str(), sandbox.name.as_str()) {
            Some(id) => match self.registry.get(id.as_str()) {
                Some(record) => Ok(("127.0.0.1".to_owned(), record.ssh_port as u32)),
                None => Err(Status::new(Code::NotFound, "sandbox not found".to_owned())),
            },
            None => Err(Status::new(Code::NotFound, "sandbox not found".to_owned())),
        }
    }
}

pub open spec fn sandbox_views(v: Seq<Sandbox>) -> Seq<SandboxView> {
    v.map_values(|s: Sandbox| s@)
}

/// The state of every registered sandbox, by id.
pub open spec fn snapshots(records: Map<Seq<char>, RecordView>) -> Seq<SandboxView> {
    listing(records).map_values(|p: (Seq<char>, RecordView)| p.1.snapshot)
}

/// No sandbox stands after one whose name is later.
pub open spec fn in_name_order(v: Seq<SandboxView>) -> bool {
    forall|i: int, j: int|
        0 <= i < j < v.len() ==> !before((#[trigger] v[j]).name, (#[trigger] v[i]).name)
}

fn place_by_name(sorted: &mut Vec<Sandbox>, sandbox: Sandbox)
    requires
        in_name_order(sandbox_views(old(sorted)@)),
    ensures
        in_name_order(sandbox_views(final(sorted)@)),
        sandbox_views(final(sorted)@).to_multiset() == sandbox_views(
            old(sorted)@,
        ).to_multiset().insert(sandbox@),
{
    let ghost v = sandbox_views(sorted@);
    let mut k: usize = 0;
    while k < sorted.len() && !stands_before(sandbox.name.as_str(), sorted[k].name.as_str())
        invariant
            k <= sorted@.len(),
            v == sandbox_views(sorted@),
            forall|j: int| 0 <= j < k ==> !before(sandbox@.name, (#[trigger] v[j]).name),
        decreases sorted.len() - k,
    {
        assert(v[k as int] == sorted@[k as int]@);
        k = k + 1;
    }
    assert(k < v.len() ==> v[k as int] == sorted@[k as int]@);
    sorted.insert(k, sandbox);
    let ghost w = sandbox_views(sorted@);
    assert(w =~= v.insert(k as int, sandbox@));
    proof {
        to_multiset_insert(v, k as int, sandbox@);
        assert forall|i: int, j: int| 0 <= i < j < w.len() implies !before(
            (#[trigger] w[j]).name,
            (#[trigger] w[i]).name,
        ) by {
            let from = if i < k {
                i
            } else {
                i - 1
            };
            let to = if j < k {
                j
            } else {
                j - 1
            };
            if i == k {
                law_before_is_total(sandbox@.name, v[k as int].name);
                if to > k {
                    assert(!before(v[to].name, v[k as int].name));
                    law_not_before_is_transitive(
                        sandbox@.name,
                        v[k as int].name,
                        v[to].name,
                    );
                }
            } else if j == k {
                assert(!before(sandbox@.name, v[from].name));
            } else {
                assert(!before(v[to].name, v[from].name));
            }
        }
    }
}

impl VmDriver {
    /// The state of every registered sandbox, in the order of the names.
    pub fn current_snapshots(&self) -> (r: Vec<Sandbox>)
        ensures
            in_name_order(sandbox_views(r@)),
            sandbox_views(r@).to_multiset() == snapshots(self@.records).to_multiset(),
            ascending(listing(self@.records)),
            map_of(listing(self@.records)) == self@.records,
    {
        let ghost all = snapshots(self@.records);
        let mut r: Vec<Sandbox> = Vec::new();
        let count: usize = self.registry.len();
        let mut i: usize = 0;
        assert(sandbox_views(r@) =~= all.take(0));
        while i < count
            invariant
                i <= count,
                count == listing(self@.records).len(),
                all == snapshots(self@.records),
                in_name_order(sandbox_views(r@)),
                sandbox_views(r@).to_multiset() == all.take(i as int).to_multiset(),
            decreases count - i,
        {
            let record = self.registry.value_at(i);
            place_by_name(&mut r, record.snapshot.copy());
            proof {
                assert(all.take(i + 1) =~= all.take(i as int).insert(i as int, all[i as int]));
                to_multiset_insert(all.take(i as int), i as int, all[i as int]);
            }
            i = i + 1;
        }
        assert(all.take(i as int) =~= all);
        r
    }
}

/// The state that watchers are told of a sandbox that is being deleted.
pub open spec fn deleting_snapshot(record: RecordView) -> SandboxView {
    with_condition(record.snapshot, SandboxPhase::Deleting, deleting())
}

/// Takes the sandbox that a request means out of the registry and tells watchers
/// that it is being deleted.
pub open spec fn deletion_begun(driver: DriverView, id: Seq<char>, name: Seq<char>) -> DriverView {
    match matched_id(driver.records, id, name) {
        Some(found) => DriverView {
            records: driver.records.remove(found),
            ..driver
        }.told(EventView::Sandbox { sandbox: deleting_snapshot(driver.records[found]) }),
        None => driver,
    }
}

/// How long a machine may take to end by itself, in milliseconds.
pub const TERMINATION_GRACE_MILLIS: u64 = 5000;

/// Ends the machine of a sandbox: it is asked to end, and killed where it does not
/// in time.
pub open spec fn terminate_run(t: HostTranscript, id: Seq<char>) -> (
    HostTranscript,
    Result<(), FaultView>,
) {
    let t = t.ask(HostRequestView::ProcessId { id });
    match host_answer(t).pid {
        None => end_run(t, id),
        Some(pid) => {
            let t = t.ask(HostRequestView::Terminate { pid });
            let a = host_answer(t);
            if !a.ok && a.kind != FaultKind::NoSuchProcess {
                (
                    t,
                    Err(
                        FaultView {
                            kind: FaultKind::Other,
                            message: "send SIGTERM to vm process "@ + decimal(pid as nat) + ": "@
                                + a.text,
                        },
                    ),
                )
            } else {
                end_run(t, id)
            }
        },
    }
}

/// Waits for the machine of a sandbox to end, and kills it when the time is over.
pub open spec fn end_run(t: HostTranscript, id: Seq<char>) -> (
    HostTranscript,
    Result<(), FaultView>,
) {
    let t = t.ask(HostRequestView::WaitEnd { id, millis: TERMINATION_GRACE_MILLIS });
    let a = host_answer(t);
    if a.ok {
        (t, Ok(()))
    } else if !a.expired {
        (t, Err(host_fault(a)))
    } else {
        let t = t.ask(HostRequestView::Kill { id });
        if !host_answer(t).ok {
            (t, Err(host_fault(host_answer(t))))
        } else {
            let t = t.ask(HostRequestView::Wait { id });
            if host_answer(t).ok {
                (t, Ok(()))
            } else {
                (t, Err(host_fault(host_answer(t))))
            }
        }
    }
}

/// Ends the machine of a deleted sandbox and removes its files.
pub open spec fn delete_run(t: HostTranscript, record: RecordView) -> (
    HostTranscript,
    Result<(), StatusView>,
) {
    let (t, ended) = terminate_run(t, record.snapshot.id);
    match ended {
        Err(e) => (t, Err(internal("failed to stop vm: "@ + e.message))),
        Ok(_) => {
            let t = t.ask(HostRequestView::RemoveDirAll { path: record.state_dir });
            let a = host_answer(t);
            if !a.ok && a.kind != FaultKind::NotFound {
                (t, Err(internal("failed to remove state dir: "@ + a.text)))
            } else {
                (t, Ok(()))
            }
        },
    }
}

fn end_machine(d: &mut HostDialogue, id: &str) -> (r: Option<Result<(), Fault>>)
    ensures
        final(d)@ == end_run(old(d)@, id@).0,
        r is Some <==> final(d)@.live(),
        r is Some ==> outcome(r->0) == end_run(old(d)@, id@).1,
{
    let ended = ask_host(
        d,
        HostRequest::WaitEnd { id: id.to_owned(), millis: TERMINATION_GRACE_MILLIS },
    )?;
    if ended.ok {
        return Some(Ok(()));
    }
    if !ended.expired {
        return Some(Err(Fault::new(ended.kind, ended.text)));
    }
    let killed = ask_host(d, HostRequest::Kill { id: id.to_owned() })?;
    if !killed.ok {
        return Some(Err(Fault::new(killed.kind, killed.text)));
    }
    let reaped = ask_host(d, HostRequest::Wait { id: id.to_owned() })?;
    if reaped.ok {
        Some(Ok(()))
    } else {
        Some(Err(Fault::new(reaped.kind, reaped.text)))
    }
}

/// Ends the machine of a sandbox.
pub fn terminate_vm_process(d: &mut HostDialogue, id: &str) -> (r: Option<Result<(), Fault>>)
    ensures
        final(d)@ == terminate_run(old(d)@, id@).0,
        r is Some <==> final(d)@.live(),
        r is Some ==> outcome(r->0) == terminate_run(old(d)@, id@).1,
{
    let process = ask_host(d, HostRequest::ProcessId { id: id.to_owned() })?;
    match process.pid {
        Some(pid) => {
            let signalled = ask_host(d, HostRequest::Terminate { pid })?;
            if !signalled.ok && signalled.kind != FaultKind::NoSuchProcess {
                let number = decimal_text(pid as u64);
                let message = glue4(
                    "send SIGTERM to vm process ",
                    number.as_str(),
                    ": ",
                    signalled.text.as_str(),
                );
                return Some(Err(Fault::new(FaultKind::Other, message)));
            }
        },
        None => {},
    }
    end_machine(d, id)
}

impl VmDriver {
    /// Takes the sandbox that a request means out of the registry, if there is
    /// one, and tells watchers that it is being deleted.
    pub fn begin_delete_sandbox(&mut self, sandbox_id: &str, sandbox_name: &str) -> (r: Option<
        SandboxRecord,
    >)
        ensures
            final(self)@ == deletion_begun(old(self)@, sandbox_id@, sandbox_name@),
            match matched_id(old(self)@.records, sandbox_id@, sandbox_name@) {
                Some(id) => r is Some && r->0@ == old(self)@.records[id],
                None => r is None,
            },
            ascending(listing(old(self)@.records)),
            map_of(listing(old(self)@.records)) == old(self)@.records,
            old(self)@.consistent() ==> final(self)@.consistent(),
    {
        match self.find(sandbox_id, sandbox_name) {
            None => None,
            Some(id) => match self.registry.remove(id.as_str()) {
                None => None,
                Some(record) => {
                    let mut snapshot = record.snapshot.copy();
                    snapshot.phase = SandboxPhase::Deleting;
                    snapshot.status =
                    Some(status_with_condition(&record.snapshot, deleting_condition()));
                    assert(snapshot@ =~= deleting_snapshot(record@));
                    self.tell(WatchEvent::Sandbox { sandbox: snapshot });
                    Some(record)
                },
            },
        }
    }

    /// Ends the machine of a sandbox that was taken out of the registry, removes
    /// its files and tells watchers that it is gone. The result says whether there
    /// was a sandbox to delete.
    pub fn delete_sandbox(
        &mut self,
        record: &Option<SandboxRecord>,
        sandbox_id: &str,
        d: &mut HostDialogue,
    ) -> (r: Option<Result<bool, Status>>)
        ensures
            match *record {
                None => {
                    &&& final(d)@ == old(d)@
                    &&& r is Some <==> final(d)@.live()
                    &&& r is Some ==> r->0 == Ok::<bool, Status>(false)
                    &&& final(self)@ == old(self)@
                },
                Some(record) => {
                    &&& final(d)@ == delete_run(old(d)@, record@).0
                    &&& r is Some <==> final(d)@.live()
                    &&& r is Some ==> match delete_run(old(d)@, record@).1 {
                        Ok(_) => {
                            &&& r->0 == Ok::<bool, Status>(true)
                            &&& final(self)@ == old(self)@.told(
                                EventView::Deleted { sandbox_id: sandbox_id@ },
                            )
                        },
                        Err(status) => {
                            &&& r->0 is Err
                            &&& r->0->Err_0@ == status
                            &&& final(self)@ == old(self)@
                        },
                    }
                    &&& r is None ==> final(self)@ == old(self)@
                },
            },
            old(self)@.consistent() ==> final(self)@.consistent(),
    {
        if !d.is_live() {
            return None;
        }
        let record = match record {
            Some(record) => record,
            None => {
                return Some(Ok(false));
            },
        };
        match terminate_vm_process(d, record.snapshot.id.as_str()) {
            Some(Ok(())) => {},
            Some(Err(e)) => {
                let message = glue2("failed to stop vm: ", e.message.as_str());
                return Some(Err(Status::new(Code::Internal, message)));
            },
            None => {
                return None;
            },
        }
        let removed = ask_host(d, HostRequest::RemoveDirAll { path: record.state_dir.clone() })?;
        if !removed.ok && removed.kind != FaultKind::NotFound {
            let message = glue2("failed to remove state dir: ", removed.text.as_str());
            return Some(Err(Status::new(Code::Internal, message)));
        }
        self.tell(WatchEvent::Deleted { sandbox_id: sandbox_id.to_owned() });
        Some(Ok(true))
    }
}

/// Files a new phase and condition for a sandbox. One that is not registered any
/// more is left out.
pub open spec fn condition_set(
    driver: DriverView,
    id: Seq<char>,
    phase: SandboxPhase,
    condition: ConditionView,
) -> DriverView {
    if driver.records.contains_key(id) {
        let record = driver.records[id];
        DriverView {
            records: driver.records.insert(
                id,
                RecordView {
                    snapshot: with_condition(record.snapshot, phase, condition),
                    ..record
                },
            ),
            ..driver
        }
    } else {
        driver
    }
}

/// Files a new phase and condition for a sandbox, and tells watchers.
pub open spec fn condition_told(
    driver: DriverView,
    id: Seq<char>,
    phase: SandboxPhase,
    condition: ConditionView,
) -> DriverView {
    if driver.records.contains_key(id) {
        condition_set(driver, id, phase, condition).told(
            EventView::Sandbox {
                sandbox: with_condition(driver.records[id].snapshot, phase, condition),
            },
        )
    } else {
        driver
    }
}

/// Something went wrong with the machine of a sandbox: the sandbox is in error,
/// and watchers are told what happened.
pub open spec fn machine_failed(
    driver: DriverView,
    id: Seq<char>,
    reason: Seq<char>,
    detail: Seq<char>,
    message: Seq<char>,
    now_ms: i64,
) -> DriverView {
    condition_told(driver, id, SandboxPhase::Error, condition("False"@, reason, detail)).told(
        EventView::Platform {
            sandbox_id: id,
            event: PlatformEventView {
                timestamp_ms: now_ms,
                source: "vm"@,
                event_type: "Warning"@,
                reason,
                message,
            },
        },
    )
}

/// What a look at the machine of a sandbox shows.
#[derive(Debug)]
pub enum MonitorEvent {
    /// A round begins.
    RoundBegins,
    /// The machine is being ended on purpose.
    Deleting,
    /// The machine could not be looked at.
    PollFailed { message: String },
    /// The machine has ended, with an exit code or by a signal.
    Exited { code: Option<i32> },
    /// The machine runs; the port is the one that the round began with.
    Running { ssh_port: u16 },
    /// Whether the machine accepts SSH connections.
    PortProbed { ready: bool },
}

/// The view of a [`MonitorEvent`].
pub enum MonitorEventView {
    RoundBegins,
    Deleting,
    PollFailed { message: Seq<char> },
    Exited { code: Option<i32> },
    Running { ssh_port: u16 },
    PortProbed { ready: bool },
}

impl View for MonitorEvent {
    type V = MonitorEventView;

    open spec fn view(&self) -> MonitorEventView {
        match self {
            MonitorEvent::RoundBegins => MonitorEventView::RoundBegins,
            MonitorEvent::Deleting => MonitorEventView::Deleting,
            MonitorEvent::PollFailed { message } => MonitorEventView::PollFailed {
                message: message@,
            },
            MonitorEvent::Exited { code } => MonitorEventView::Exited { code: *code },
            MonitorEvent::Running { ssh_port } => MonitorEventView::Running {
                ssh_port: *ssh_port,
            },
            MonitorEvent::PortProbed { ready } => MonitorEventView::PortProbed { ready: *ready },
        }
    }
}

/// What to do next in watching over a machine.
#[derive(Debug, Clone, Copy, PartialEq, Eq, Structural)]
pub enum MonitorAction {
    /// Nothing more.
    Stop,
    /// Look at the machine, whose SSH port is this.
    Poll { ssh_port: u16 },
    /// See whether the machine accepts connections on this port.
    ProbePort { port: u16 },
    /// Pause, then begin the next round.
    Sleep { millis: u64 },
}

/// Pause between two looks at a machine, in milliseconds.
pub const MONITOR_INTERVAL_MILLIS: u64 = 250;

pub open spec fn exit_message(code: Option<i32>) -> Seq<char> {
    match code {
        Some(code) => "VM process exited with status "@ + signed_decimal(code as int),
        None => "VM process exited"@,
    }
}

/// One step of watching over the machine of a sandbox, where `ready_emitted` says
/// whether it was reported ready before.
pub open spec fn monitor_step(
    driver: DriverView,
    id: Seq<char>,
    ready_emitted: bool,
    event: MonitorEventView,
    now_ms: i64,
) -> (DriverView, bool, MonitorAction) {
    let pause = MonitorAction::Sleep { millis: MONITOR_INTERVAL_MILLIS };
    match event {
        MonitorEventView::RoundBegins => if driver.records.contains_key(id) {
            (
                driver,
                ready_emitted,
                MonitorAction::Poll { ssh_port: driver.records[id].ssh_port },
            )
        } else {
            (driver, ready_emitted, MonitorAction::Stop)
        },
        MonitorEventView::Deleting => (driver, ready_emitted, MonitorAction::Stop),
        MonitorEventView::PollFailed { message } => (
            machine_failed(
                driver,
                id,
                "ProcessPollFailed"@,
                message,
                "Failed to poll openshell-vm child: "@ + message,
                now_ms,
            ),
            ready_emitted,
            MonitorAction::Stop,
        ),
        MonitorEventView::Exited { code } => (
            machine_failed(
                driver,
                id,
                "ProcessExited"@,
                exit_message(code),
                exit_message(code),
                now_ms,
            ),
            ready_emitted,
            MonitorAction::Stop,
        ),
        MonitorEventView::Running { ssh_port } => if !ready_emitted {
            (driver, ready_emitted, MonitorAction::ProbePort { port: ssh_port })
        } else {
            (driver, ready_emitted, pause)
        },
        MonitorEventView::PortProbed { ready: listening } => if listening {
            (condition_told(driver, id, SandboxPhase::Ready, ready()), true, pause)
        } else {
            (driver, ready_emitted, pause)
        },
    }
}

fn platform_event(
    now_ms: i64,
    source: &str,
    event_type: &str,
    reason: &str,
    message: String,
) -> (e: PlatformEvent)
    ensures
        e@ == (PlatformEventView {
            timestamp_ms: now_ms,
            source: source@,
            event_type: event_type@,
            reason: reason@,
            message: message@,
        }),
{
    PlatformEvent {
        timestamp_ms: now_ms,
        source: source.to_owned(),
        event_type: event_type.to_owned(),
        reason: reason.to_owned(),
        message,
    }
}

impl VmDriver {
    /// Files a new phase and condition for a sandbox and returns its new state, if
    /// it is registered.
    pub fn set_snapshot_condition(
        &mut self,
        sandbox_id: &str,
        phase: SandboxPhase,
        condition: SandboxCondition,
    ) -> (r: Option<Sandbox>)
        ensures
            final(self)@ == condition_set(old(self)@, sandbox_id@, phase, condition@),
            r is Some <==> old(self)@.records.contains_key(sandbox_id@),
            r is Some ==> r->0@ == with_condition(
                old(self)@.records[sandbox_id@].snapshot,
                phase,
                condition@,
            ),
            old(self)@.consistent() ==> final(self)@.consistent(),
    {
        match self.registry.remove(sandbox_id) {
            None => {
                assert(self@.records =~= old(self)@.records);
                None
            },
            Some(record) => {
                let mut record = record;
                let ghost was = record@;
                let status = status_with_condition(&record.snapshot, condition);
                record.snapshot.phase = phase;
                record.snapshot.status = Some(status);
                assert(record@.snapshot =~= with_condition(was.snapshot, phase, condition@));
                let snapshot = record.snapshot.copy();
                self.registry.set(sandbox_id, record);
                assert(self@.records =~= condition_set(
                    old(self)@,
                    sandbox_id@,
                    phase,
                    condition@,
                ).records);
                Some(snapshot)
            },
        }
    }

    fn tell_condition(&mut self, sandbox_id: &str, phase: SandboxPhase, condition: SandboxCondition)
        ensures
            final(self)@ == condition_told(old(self)@, sandbox_id@, phase, condition@),
            old(self)@.consistent() ==> final(self)@.consistent(),
    {
        match self.set_snapshot_condition(sandbox_id, phase, condition) {
            Some(snapshot) => {
                self.tell(WatchEvent::Sandbox { sandbox: snapshot });
            },
            None => {},
        }
    }

    fn tell_failure(
        &mut self,
        sandbox_id: &str,
        reason: &str,
        detail: &str,
        message: String,
        now_ms: i64,
    )
        ensures
            final(self)@ == machine_failed(
                old(self)@,
                sandbox_id@,
                reason@,
                detail@,
                message@,
                now_ms,
            ),
            old(self)@.consistent() ==> final(self)@.consistent(),
    {
        self.tell_condition(sandbox_id, SandboxPhase::Error, error_condition(reason, detail));
        let event = platform_event(now_ms, "vm", "Warning", reason, message);
        self.tell(WatchEvent::Platform { sandbox_id: sandbox_id.to_owned(), event });
    }

    /// One step of watching over the machine of a sandbox. `now_ms` is the time in
    /// milliseconds since 1970.
    pub fn monitor_sandbox(
        &mut self,
        sandbox_id: &str,
        ready_emitted: bool,
        event: MonitorEvent,
        now_ms: i64,
    ) -> (r: (bool, MonitorAction))
        ensures
            (final(self)@, r.0, r.1) == monitor_step(
                old(self)@,
                sandbox_id@,
                ready_emitted,
                event@,
                now_ms,
            ),
            old(self)@.consistent() ==> final(self)@.consistent(),
    {
        let pause = MonitorAction::Sleep { millis: MONITOR_INTERVAL_MILLIS };
        match event {
            MonitorEvent::RoundBegins => match self.registry.get(sandbox_id) {
                Some(record) => (ready_emitted, MonitorAction::Poll { ssh_port: record.ssh_port }),
                None => (ready_emitted, MonitorAction::Stop),
            },
            MonitorEvent::Deleting => (ready_emitted, MonitorAction::Stop),
            MonitorEvent::PollFailed { message } => {
                let text = glue2("Failed to poll openshell-vm child: ", message.as_str());
                self.tell_failure(
                    sandbox_id,
                    "ProcessPollFailed",
                    message.as_str(),
                    text,
                    now_ms,
                );
                (ready_emitted, MonitorAction::Stop)
            },
            MonitorEvent::Exited { code } => {
                let message = match code {
                    Some(code) => {
                        let number = signed_decimal_text(code);
                        glue2("VM process exited with status ", number.as_str())
                    },
                    None => "VM process exited".to_owned(),
                };
                let text = message.clone();
                self.tell_failure(sandbox_id, "ProcessExited", message.as_str(), text, now_ms);
                (ready_emitted, MonitorAction::Stop)
            },
            MonitorEvent::Running { ssh_port } => if ready_emitted {
                (ready_emitted, pause)
            } else {
                (ready_emitted, MonitorAction::ProbePort { port: ssh_port })
            },
            MonitorEvent::PortProbed { ready } => {
                if ready {
                    self.tell_condition(sandbox_id, SandboxPhase::Ready, ready_condition());
                    (true, pause)
                } else {
                    (ready_emitted, pause)
                }
            },
        }
    }
}

/// A request has to name a sandbox.
pub fn required_sandbox(sandbox: Option<Sandbox>) -> (r: Result<Sandbox, Status>)
    ensures
        match sandbox {
            Some(sandbox) => r == Ok::<Sandbox, Status>(sandbox),
            None => {
                &&& r is Err
                &&& r->Err_0@ == (StatusView {
                    code: Code::InvalidArgument,
                    message: "sandbox is required"@,
                })
            },
        },
{
    match sandbox {
        Some(sandbox) => Ok(sandbox),
        None => Err(Status::new(Code::InvalidArgument, "sandbox is required".to_owned())),
    }
}

/// What a watcher received from the driver.
#[derive(Debug, Clone, Copy, PartialEq, Eq, Structural)]
pub enum WatchInput {
    /// An event.
    Event,
    /// Events were lost because the watcher was too slow.
    Lagged,
    /// The driver is gone.
    Closed,
}

/// What to do for a watcher.
#[derive(Debug, Clone, Copy, PartialEq, Eq, Structural)]
pub enum WatchStep {
    /// Pass the event on; where the watcher is gone, stop.
    Forward,
    /// Wait for the next one.
    Skip,
    /// End the watch.
    Stop,
}

/// Every event is passed on, duplicates as well; lost events are passed over.
pub fn watch_step(input: WatchInput) -> (r: WatchStep)
    ensures
        r == match input {
            WatchInput::Event => WatchStep::Forward,
            WatchInput::Lagged => WatchStep::Skip,
            WatchInput::Closed => WatchStep::Stop,
        },
{
    match input {
        WatchInput::Event => WatchStep::Forward,
        WatchInput::Lagged => WatchStep::Skip,
        WatchInput::Closed => WatchStep::Stop,
    }
}

impl VmDriver {
    /// What a new watcher is told first: the state of every sandbox, in the order
    /// of the names.
    pub fn initial_events(&self) -> (r: Vec<WatchEvent>)
        ensures
            forall|i: int| 0 <= i < r@.len() ==> (#[trigger] event_views(r@)[i]) is Sandbox,
            ({
                let told = event_views(r@).map_values(|e: EventView| e->Sandbox_sandbox);
                &&& in_name_order(told)
                &&& told.to_multiset() == snapshots(self@.records).to_multiset()
            }),
            ascending(listing(self@.records)),
            map_of(listing(self@.records)) == self@.records,
    {
        let mut sorted = self.current_snapshots();
        let ghost all = sandbox_views(sorted@);
        let mut r: Vec<WatchEvent> = Vec::new();
        while sorted.len() > 0
            invariant
                all.len() == r@.len() + sorted@.len(),
                forall|i: int|
                    0 <= i < r@.len() ==> #[trigger] event_views(r@)[i] == (EventView::Sandbox {
                        sandbox: all[i],
                    }),
                forall|i: int|
                    0 <= i < sorted@.len() ==> sorted@[i]@ == #[trigger] all[r@.len() + i],
            decreases sorted.len(),
        {
            let ghost before = event_views(r@);
            let ghost done = r@.len() as int;
            let ghost rest = sorted@;
            let sandbox = sorted.remove(0);
            assert(sandbox@ == all[done + 0]);
            r.push(WatchEvent::Sandbox { sandbox });
            assert(event_views(r@) =~= before.push(EventView::Sandbox { sandbox: all[done] }));
            assert forall|i: int| 0 <= i < sorted@.len() implies sorted@[i]@
                == #[trigger] all[r@.len() + i] by {
                assert(rest[i + 1]@ == all[done + (i + 1)]);
            }
        }
        assert(event_views(r@).map_values(|e: EventView| e->Sandbox_sandbox) =~= all);
        r
    }
}

} // verus!
