//! Making the machine of a sandbox.

use vstd::prelude::*;

use crate::driver::config::{tls_run, ConfigView, TlsPathsView, VmDriverConfig, VmDriverTlsPaths};
use crate::driver::guest::{
    console_log_of, default_console_log_path, launch_args, machine_arguments, refusal,
    sandbox_state_dir, state_dir_of, validate_vm_sandbox,
};
use crate::driver::host::{
    ask_host, host_answer, HostDialogue, HostReplyView, HostRequest, HostRequestView,
    HostTranscript,
};
use crate::driver::sandbox::{
    build_driver_config, machine_fields, provisioning, provisioning_condition, sandbox_snapshot,
    snapshot_of, Sandbox, SandboxPhase, SandboxView,
};
use crate::driver::status::{Code, Status, StatusView};
use crate::fault::{outcome, Fault, FaultKind, FaultView};
use crate::paths::{join_path, joined_path};
use crate::text::{glue2, glue4};

verus! {

/// What the driver keeps of a running sandbox.
#[derive(Debug)]
pub struct SandboxRecord {
    pub snapshot: Sandbox,
    pub ssh_port: u16,
    pub state_dir: String,
}

/// The view of a [`SandboxRecord`].
#[verifier::ext_equal]
pub struct RecordView {
    pub snapshot: SandboxView,
    pub ssh_port: u16,
    pub state_dir: Seq<char>,
}

impl View for SandboxRecord {
    type V = RecordView;

    open spec fn view(&self) -> RecordView {
        RecordView {
            snapshot: self.snapshot@,
            ssh_port: self.ssh_port,
            state_dir: self.state_dir@,
        }
    }
}

/// The failure of an operation of the host.
pub open spec fn host_fault(a: HostReplyView) -> FaultView {
    FaultView { kind: a.kind, message: a.text }
}

/// Copies one TLS file into a root file system and sets its permissions.
pub open spec fn copy_tls_run(t: HostTranscript, from: Seq<char>, to: Seq<char>, mode: u32) -> (
    HostTranscript,
    Result<(), FaultView>,
) {
    let t = t.ask(HostRequestView::CopyFile { from, to });
    if !host_answer(t).ok {
        (t, Err(host_fault(host_answer(t))))
    } else {
        let t = t.ask(HostRequestView::SetMode { path: to, mode });
        if !host_answer(t).ok {
            (t, Err(host_fault(host_answer(t))))
        } else {
            (t, Ok(()))
        }
    }
}

/// Permissions of a file that everyone may read.
pub const PUBLIC_MODE: u32 = 0o644;

/// Permissions of a file that only its owner may read.
pub const PRIVATE_MODE: u32 = 0o600;

/// Where the TLS files lie in the root file system of a machine.
pub open spec fn guest_tls_dir(rootfs: Seq<char>) -> Seq<char> {
    joined_path(rootfs, "opt/openshell/tls"@)
}

/// Puts the TLS files where a machine finds them. Only its owner may read the key.
pub open spec fn guest_tls_run(t: HostTranscript, rootfs: Seq<char>, paths: TlsPathsView) -> (
    HostTranscript,
    Result<(), FaultView>,
) {
    let dir = guest_tls_dir(rootfs);
    let t = t.ask(HostRequestView::CreateDirAll { path: dir });
    if !host_answer(t).ok {
        (t, Err(host_fault(host_answer(t))))
    } else {
        let (t, r) = copy_tls_run(t, paths.ca, joined_path(dir, "ca.crt"@), PUBLIC_MODE);
        if r is Err {
            (t, r)
        } else {
            let (t, r) = copy_tls_run(t, paths.cert, joined_path(dir, "tls.crt"@), PUBLIC_MODE);
            if r is Err {
                (t, r)
            } else {
                copy_tls_run(t, paths.key, joined_path(dir, "tls.key"@), PRIVATE_MODE)
            }
        }
    }
}

/// Copies one TLS file and sets its permissions.
pub fn copy_guest_tls_material(d: &mut HostDialogue, source: &str, dest: &str, mode: u32) -> (r:
    Option<Result<(), Fault>>)
    ensures
        final(d)@ == copy_tls_run(old(d)@, source@, dest@, mode).0,
        r is Some <==> final(d)@.live(),
        r is Some ==> outcome(r->0) == copy_tls_run(old(d)@, source@, dest@, mode).1,
{
    let copied = ask_host(
        d,
        HostRequest::CopyFile { from: source.to_owned(), to: dest.to_owned() },
    )?;
    if !copied.ok {
        return Some(Err(Fault::new(copied.kind, copied.text)));
    }
    let set = ask_host(d, HostRequest::SetMode { path: dest.to_owned(), mode })?;
    if !set.ok {
        return Some(Err(Fault::new(set.kind, set.text)));
    }
    Some(Ok(()))
}

/// Puts the TLS files into the root file system of a machine.
pub fn prepare_guest_tls_materials(
    d: &mut HostDialogue,
    rootfs: &str,
    paths: &VmDriverTlsPaths,
) -> (r: Option<Result<(), Fault>>)
    ensures
        final(d)@ == guest_tls_run(old(d)@, rootfs@, paths@).0,
        r is Some <==> final(d)@.live(),
        r is Some ==> outcome(r->0) == guest_tls_run(old(d)@, rootfs@, paths@).1,
{
    let dir = join_path(rootfs, "opt/openshell/tls");
    let made = ask_host(d, HostRequest::CreateDirAll { path: dir.clone() })?;
    if !made.ok {
        return Some(Err(Fault::new(made.kind, made.text)));
    }
    let ca = join_path(dir.as_str(), "ca.crt");
    match copy_guest_tls_material(d, paths.ca.as_str(), ca.as_str(), PUBLIC_MODE)? {
        Ok(()) => {},
        Err(e) => {
            return Some(Err(e));
        },
    }
    let cert = join_path(dir.as_str(), "tls.crt");
    match copy_guest_tls_material(d, paths.cert.as_str(), cert.as_str(), PUBLIC_MODE)? {
        Ok(()) => {},
        Err(e) => {
            return Some(Err(e));
        },
    }
    let key = join_path(dir.as_str(), "tls.key");
    copy_guest_tls_material(d, paths.key.as_str(), key.as_str(), PRIVATE_MODE)
}

/// A failure of the driver itself.
pub open spec fn internal(message: Seq<char>) -> StatusView {
    StatusView { code: Code::Internal, message }
}

/// What making a machine ends in.
pub type Created = Result<RecordView, StatusView>;

/// The view of what making a machine ended in.
pub open spec fn created(r: Result<SandboxRecord, Status>) -> Created {
    match r {
        Ok(record) => Ok(record@),
        Err(status) => Err(status@),
    }
}

/// A free port for SSH connections to the machine.
pub open spec fn local_port_run(t: HostTranscript) -> (HostTranscript, Result<u16, StatusView>) {
    let t = t.ask(HostRequestView::BindLocalPort);
    if !host_answer(t).ok {
        (t, Err(internal("failed to allocate local ssh port: "@ + host_answer(t).text)))
    } else {
        let t = t.ask(HostRequestView::LocalPort);
        if !host_answer(t).ok {
            (t, Err(internal("failed to inspect local ssh port: "@ + host_answer(t).text)))
        } else {
            (t, Ok(host_answer(t).port))
        }
    }
}

/// A free port for SSH connections to the machine.
pub fn allocate_local_port(d: &mut HostDialogue) -> (r: Option<Result<u16, Status>>)
    ensures
        final(d)@ == local_port_run(old(d)@).0,
        r is Some <==> final(d)@.live(),
        r is Some ==> match r->0 {
            Ok(port) => local_port_run(old(d)@).1 == Ok::<u16, StatusView>(port),
            Err(status) => local_port_run(old(d)@).1 == Err::<u16, StatusView>(status@),
        },
{
    let bound = ask_host(d, HostRequest::BindLocalPort)?;
    if !bound.ok {
        let message = glue2("failed to allocate local ssh port: ", bound.text.as_str());
        return Some(Err(Status::new(Code::Internal, message)));
    }
    let port = ask_host(d, HostRequest::LocalPort)?;
    if !port.ok {
        let message = glue2("failed to inspect local ssh port: ", port.text.as_str());
        return Some(Err(Status::new(Code::Internal, message)));
    }
    Some(Ok(port.port))
}

/// The record of a machine that was started.
pub open spec fn new_record(
    sandbox: SandboxView,
    config: ConfigView,
    ssh_port: u16,
    pid: u32,
) -> RecordView {
    let state_dir = state_dir_of(config.state_dir, sandbox.id);
    let rootfs = joined_path(state_dir, "rootfs"@);
    RecordView {
        snapshot: snapshot_of(
            sandbox,
            SandboxPhase::Provisioning,
            provisioning(),
            Some(
                machine_fields(
                    "127.0.0.1"@,
                    ssh_port,
                    pid,
                    rootfs,
                    console_log_of(rootfs),
                    state_dir,
                ),
            ),
        ),
        ssh_port,
        state_dir,
    }
}

/// Starts the machine of a sandbox whose files are in place. Where it cannot be
/// started, its files are removed.
pub open spec fn start_run(
    t: HostTranscript,
    sandbox: SandboxView,
    config: ConfigView,
    init_path: Seq<char>,
    ssh_port: u16,
) -> (HostTranscript, Created) {
    let state_dir = state_dir_of(config.state_dir, sandbox.id);
    let rootfs = joined_path(state_dir, "rootfs"@);
    let t = t.ask(
        HostRequestView::Spawn {
            program: config.vm_bin,
            args: launch_args(sandbox, config, rootfs, init_path, ssh_port),
        },
    );
    let started = host_answer(t);
    if !started.ok {
        let t = t.ask(HostRequestView::RemoveDirAll { path: state_dir });
        (
            t,
            Err(
                internal("failed to launch openshell-vm '"@ + config.vm_bin + "': "@ + started.text),
            ),
        )
    } else {
        match started.pid {
            None => (t, Err(internal("openshell-vm pid is unavailable"@))),
            Some(pid) => (t, Ok(new_record(sandbox, config, ssh_port, pid))),
        }
    }
}

/// Puts the files of a sandbox in place and starts its machine.
pub open spec fn files_run(
    t: HostTranscript,
    sandbox: SandboxView,
    config: ConfigView,
    init_path: Seq<char>,
    ssh_port: u16,
) -> (HostTranscript, Created) {
    let state_dir = state_dir_of(config.state_dir, sandbox.id);
    let rootfs = joined_path(state_dir, "rootfs"@);
    let t = t.ask(HostRequestView::CreateDirAll { path: state_dir });
    if !host_answer(t).ok {
        (t, Err(internal("create state dir failed: "@ + host_answer(t).text)))
    } else {
        let (t, tls) = tls_run(t, config);
        match tls {
            Err(message) => (t, Err(StatusView { code: Code::FailedPrecondition, message })),
            Ok(tls) => {
                let t = t.ask(HostRequestView::ExtractRootfs { path: rootfs });
                let extracted = host_answer(t);
                if !extracted.ok && extracted.kind == FaultKind::Panicked {
                    (t, Err(internal("sandbox rootfs extraction panicked: "@ + extracted.text)))
                } else if !extracted.ok {
                    (t, Err(internal("extract sandbox rootfs failed: "@ + extracted.text)))
                } else {
                    match tls {
                        None => start_run(t, sandbox, config, init_path, ssh_port),
                        Some(paths) => {
                            let (t, r) = guest_tls_run(t, rootfs, paths);
                            match r {
                                Err(e) => (
                                    t,
                                    Err(
                                        internal(
                                            "prepare guest TLS materials failed: "@ + e.message,
                                        ),
                                    ),
                                ),
                                Ok(_) => start_run(t, sandbox, config, init_path, ssh_port),
                            }
                        },
                    }
                }
            },
        }
    }
}

/// The refusal of a sandbox whose id is taken.
pub open spec fn already_exists() -> StatusView {
    StatusView { code: Code::AlreadyExists, message: "sandbox already exists"@ }
}

/// Makes the machine of a sandbox, where `taken` says whether its id is registered.
pub open spec fn create_run(
    t: HostTranscript,
    sandbox: SandboxView,
    config: ConfigView,
    taken: bool,
    init_path: Seq<char>,
) -> (HostTranscript, Created) {
    match refusal(sandbox) {
        Some(status) => (t, Err(status)),
        None => if taken {
            (t, Err(already_exists()))
        } else {
            let (t, port) = local_port_run(t);
            match port {
                Err(status) => (t, Err(status)),
                Ok(ssh_port) => files_run(t, sandbox, config, init_path, ssh_port),
            }
        },
    }
}

fn internal_status(prefix: &str, detail: &str) -> (s: Status)
    ensures
        s@ == internal(prefix@ + detail@),
{
    Status::new(Code::Internal, glue2(prefix, detail))
}

fn start_machine(
    d: &mut HostDialogue,
    sandbox: &Sandbox,
    config: &VmDriverConfig,
    init_path: &str,
    ssh_port: u16,
) -> (r: Option<Result<SandboxRecord, Status>>)
    ensures
        final(d)@ == start_run(old(d)@, sandbox@, config@, init_path@, ssh_port).0,
        r is Some <==> final(d)@.live(),
        r is Some ==> created(r->0) == start_run(
            old(d)@,
            sandbox@,
            config@,
            init_path@,
            ssh_port,
        ).1,
{
    let state_dir = sandbox_state_dir(config.state_dir.as_str(), sandbox.id.as_str());
    let rootfs = join_path(state_dir.as_str(), "rootfs");
    let console_log = default_console_log_path(rootfs.as_str());
    let args = machine_arguments(sandbox, config, rootfs.as_str(), init_path, ssh_port);
    let started = ask_host(d, HostRequest::Spawn { program: config.vm_bin.clone(), args })?;
    if !started.ok {
        let _ = ask_host(d, HostRequest::RemoveDirAll { path: state_dir })?;
        let message = glue4(
            "failed to launch openshell-vm '",
            config.vm_bin.as_str(),
            "': ",
            started.text.as_str(),
        );
        return Some(Err(Status::new(Code::Internal, message)));
    }
    let pid = match started.pid {
        Some(pid) => pid,
        None => {
            return Some(
                Err(Status::new(Code::Internal, "openshell-vm pid is unavailable".to_owned())),
            );
        },
    };
    let driver_config = build_driver_config(
        "127.0.0.1",
        ssh_port,
        pid,
        rootfs.as_str(),
        console_log.as_str(),
        state_dir.as_str(),
    );
    let snapshot = sandbox_snapshot(
        sandbox,
        SandboxPhase::Provisioning,
        provisioning_condition(),
        Some(driver_config),
    );
    Some(Ok(SandboxRecord { snapshot, ssh_port, state_dir }))
}

fn place_files_and_start(
    d: &mut HostDialogue,
    sandbox: &Sandbox,
    config: &VmDriverConfig,
    init_path: &str,
    ssh_port: u16,
) -> (r: Option<Result<SandboxRecord, Status>>)
    ensures
        final(d)@ == files_run(old(d)@, sandbox@, config@, init_path@, ssh_port).0,
        r is Some <==> final(d)@.live(),
        r is Some ==> created(r->0) == files_run(
            old(d)@,
            sandbox@,
            config@,
            init_path@,
            ssh_port,
        ).1,
{
    let state_dir = sandbox_state_dir(config.state_dir.as_str(), sandbox.id.as_str());
    let rootfs = join_path(state_dir.as_str(), "rootfs");
    let made = ask_host(d, HostRequest::CreateDirAll { path: state_dir })?;
    if !made.ok {
        return Some(Err(internal_status("create state dir failed: ", made.text.as_str())));
    }
    let tls = match config.tls_paths(d) {
        Some(Ok(tls)) => tls,
        Some(Err(message)) => {
            return Some(Err(Status::new(Code::FailedPrecondition, message)));
        },
        None => {
            return None;
        },
    };
    let extracted = ask_host(d, HostRequest::ExtractRootfs { path: rootfs.clone() })?;
    if !extracted.ok {
        if extracted.kind == FaultKind::Panicked {
            return Some(
                Err(
                    internal_status(
                        "sandbox rootfs extraction panicked: ",
                        extracted.text.as_str(),
                    ),
                ),
            );
        }
        return Some(
            Err(internal_status("extract sandbox rootfs failed: ", extracted.text.as_str())),
        );
    }
    match &tls {
        Some(paths) => {
            match prepare_guest_tls_materials(d, rootfs.as_str(), paths)? {
                Ok(()) => {},
                Err(e) => {
                    return Some(
                        Err(
                            internal_status(
                                "prepare guest TLS materials failed: ",
                                e.message.as_str(),
                            ),
                        ),
                    );
                },
            }
        },
        None => {},
    }
    start_machine(d, sandbox, config, init_path, ssh_port)
}

/// Makes the machine of a sandbox and returns the record to register. `taken` says
/// whether its id is registered.
pub fn make_machine(
    d: &mut HostDialogue,
    sandbox: &Sandbox,
    config: &VmDriverConfig,
    taken: bool,
    init_path: &str,
) -> (r: Option<Result<SandboxRecord, Status>>)
    ensures
        final(d)@ == create_run(old(d)@, sandbox@, config@, taken, init_path@).0,
        r is Some <==> final(d)@.live(),
        r is Some ==> created(r->0) == create_run(
            old(d)@,
            sandbox@,
            config@,
            taken,
            init_path@,
        ).1,
{
    if !d.is_live() {
        return None;
    }
    match validate_vm_sandbox(sandbox) {
        Ok(()) => {},
        Err(status) => {
            return Some(Err(status));
        },
    }
    if taken {
        return Some(Err(Status::new(Code::AlreadyExists, "sandbox already exists".to_owned())));
    }
    match allocate_local_port(d)? {
        Ok(ssh_port) => place_files_and_start(d, sandbox, config, init_path, ssh_port),
        Err(status) => Some(Err(status)),
    }
}

} // verus!
