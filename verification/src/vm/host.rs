//! What a launch asks of its host.

use vstd::prelude::*;

use crate::dialogue::{Dialogue, Transcript};
use crate::text::texts;
use crate::vm::config::{VmError, VmErrorView};

verus! {

/// One operation that the surrounding program performs for a launch.
#[derive(Debug)]
pub enum VmRequest {
    /// Load the virtual machine library.
    LoadLibrary,
    /// Start the log of the library at this level.
    InitLog { level: u32 },
    /// Make a context for one machine.
    CreateContext,
    /// Give a context back.
    FreeContext { ctx: u32 },
    /// Set the number of processors and the memory.
    SetVmConfig { ctx: u32, vcpus: u8, mem_mib: u32 },
    /// Set the root file system.
    SetRoot { ctx: u32, path: String },
    /// Whether the library can add disks.
    HasAddDisk,
    /// Add a raw disk.
    AddDisk { ctx: u32, block_id: String, path: String },
    /// Set the working directory.
    SetWorkdir { ctx: u32, path: String },
    /// Leave out the socket device that a machine has by default.
    DisableImplicitVsock { ctx: u32 },
    /// Add a socket device.
    AddVsock { ctx: u32, features: u32 },
    /// Add a network device on a stream socket.
    AddNetUnixstream { ctx: u32, socket: String, mac: [u8; 6], features: u32 },
    /// Add a network device on a datagram socket.
    AddNetUnixgram { ctx: u32, socket: String, mac: [u8; 6], features: u32, flags: u32 },
    /// Set the forwarded ports.
    SetPortMap { ctx: u32, ports: Vec<String> },
    /// Connect a port of the machine to a socket.
    AddVsockPort { ctx: u32, guest_port: u32, socket: String, listen: bool },
    /// Set the file that the console is logged to.
    SetConsoleOutput { ctx: u32, path: String },
    /// Set the program of the machine with its arguments and environment.
    SetExec { ctx: u32, program: String, args: Vec<String>, env: Vec<String> },
    /// Whether a path exists.
    Exists { path: String },
    /// Make a directory and all above it.
    CreateDirAll { path: String },
    /// Remove a file.
    RemoveFile { path: String },
    /// The path that the sockets of the network proxy are named after.
    SocketBase,
    /// End a network proxy that an earlier launch left behind.
    KillStaleProxy,
    /// End a network proxy that holds a port of the host.
    KillStaleProxyByPort { port: u16 },
    /// A free port for the network proxy.
    PickSshPort,
    /// Make the log file of the network proxy.
    CreateLog { path: String },
    /// Start the network proxy, with its error output in the log file.
    SpawnProxy { program: String, args: Vec<String> },
    /// Kill the network proxy and wait for its end.
    StopProxy,
    /// Have the network proxy forward a port.
    ExposePort { socket: String, body: String },
    /// Read the clock.
    Now,
    /// Pause.
    Sleep { millis: u64 },
    /// Enter the machine in a forked process.
    Boot { ctx: u32 },
    /// Keep a description of the running machine.
    WriteRuntimeState { pid: i32, console_log: String, proxy_pid: Option<u32> },
    /// Drop the description of the running machine.
    ClearRuntimeState,
    /// Ask the process of the machine to end.
    TerminateMachine { pid: i32 },
    /// Set up access to the gateway in the machine.
    BootstrapGateway { name: String, port: u16 },
    /// Wait until the gateway in the machine answers.
    WaitGatewayReady { port: u16, name: String },
    /// Pass signals to the process of the machine from now on.
    ForwardSignals { pid: i32 },
    /// Wait for the process of the machine.
    WaitChild { pid: i32 },
}

/// The view of a [`VmRequest`].
pub enum VmRequestView {
    LoadLibrary,
    InitLog { level: u32 },
    CreateContext,
    FreeContext { ctx: u32 },
    SetVmConfig { ctx: u32, vcpus: u8, mem_mib: u32 },
    SetRoot { ctx: u32, path: Seq<char> },
    HasAddDisk,
    AddDisk { ctx: u32, block_id: Seq<char>, path: Seq<char> },
    SetWorkdir { ctx: u32, path: Seq<char> },
    DisableImplicitVsock { ctx: u32 },
    AddVsock { ctx: u32, features: u32 },
    AddNetUnixstream { ctx: u32, socket: Seq<char>, mac: Seq<u8>, features: u32 },
    AddNetUnixgram { ctx: u32, socket: Seq<char>, mac: Seq<u8>, features: u32, flags: u32 },
    SetPortMap { ctx: u32, ports: Seq<Seq<char>> },
    AddVsockPort { ctx: u32, guest_port: u32, socket: Seq<char>, listen: bool },
    SetConsoleOutput { ctx: u32, path: Seq<char> },
    SetExec { ctx: u32, program: Seq<char>, args: Seq<Seq<char>>, env: Seq<Seq<char>> },
    Exists { path: Seq<char> },
    CreateDirAll { path: Seq<char> },
    RemoveFile { path: Seq<char> },
    SocketBase,
    KillStaleProxy,
    KillStaleProxyByPort { port: u16 },
    PickSshPort,
    CreateLog { path: Seq<char> },
    SpawnProxy { program: Seq<char>, args: Seq<Seq<char>> },
    StopProxy,
    ExposePort { socket: Seq<char>, body: Seq<char> },
    Now,
    Sleep { millis: u64 },
    Boot { ctx: u32 },
    WriteRuntimeState { pid: i32, console_log: Seq<char>, proxy_pid: Option<u32> },
    ClearRuntimeState,
    TerminateMachine { pid: i32 },
    BootstrapGateway { name: Seq<char>, port: u16 },
    WaitGatewayReady { port: u16, name: Seq<char> },
    ForwardSignals { pid: i32 },
    WaitChild { pid: i32 },
}

impl View for VmRequest {
    type V = VmRequestView;

    open spec fn view(&self) -> VmRequestView {
        match self {
            VmRequest::LoadLibrary => VmRequestView::LoadLibrary,
            VmRequest::InitLog { level } => VmRequestView::InitLog { level: *level },
            VmRequest::CreateContext => VmRequestView::CreateContext,
            VmRequest::FreeContext { ctx } => VmRequestView::FreeContext { ctx: *ctx },
            VmRequest::SetVmConfig { ctx, vcpus, mem_mib } => VmRequestView::SetVmConfig {
                ctx: *ctx,
                vcpus: *vcpus,
                mem_mib: *mem_mib,
            },
            VmRequest::SetRoot { ctx, path } => VmRequestView::SetRoot { ctx: *ctx, path: path@ },
            VmRequest::HasAddDisk => VmRequestView::HasAddDisk,
            VmRequest::AddDisk { ctx, block_id, path } => VmRequestView::AddDisk {
                ctx: *ctx,
                block_id: block_id@,
                path: path@,
            },
            VmRequest::SetWorkdir { ctx, path } => VmRequestView::SetWorkdir {
                ctx: *ctx,
                path: path@,
            },
            VmRequest::DisableImplicitVsock { ctx } => VmRequestView::DisableImplicitVsock {
                ctx: *ctx,
            },
            VmRequest::AddVsock { ctx, features } => VmRequestView::AddVsock {
                ctx: *ctx,
                features: *features,
            },
            VmRequest::AddNetUnixstream { ctx, socket, mac, features } => VmRequestView::AddNetUnixstream {
                ctx: *ctx,
                socket: socket@,
                mac: mac@,
                features: *features,
            },
            VmRequest::AddNetUnixgram { ctx, socket, mac, features, flags } => VmRequestView::AddNetUnixgram {
                ctx: *ctx,
                socket: socket@,
                mac: mac@,
                features: *features,
                flags: *flags,
            },
            VmRequest::SetPortMap { ctx, ports } => VmRequestView::SetPortMap {
                ctx: *ctx,
                ports: texts(ports@),
            },
            VmRequest::AddVsockPort { ctx, guest_port, socket, listen } => VmRequestView::AddVsockPort {
                ctx: *ctx,
                guest_port: *guest_port,
                socket: socket@,
                listen: *listen,
            },
            VmRequest::SetConsoleOutput { ctx, path } => VmRequestView::SetConsoleOutput {
                ctx: *ctx,
                path: path@,
            },
            VmRequest::SetExec { ctx, program, args, env } => VmRequestView::SetExec {
                ctx: *ctx,
                program: program@,
                args: texts(args@),
                env: texts(env@),
            },
            VmRequest::Exists { path } => VmRequestView::Exists { path: path@ },
            VmRequest::CreateDirAll { path } => VmRequestView::CreateDirAll { path: path@ },
            VmRequest::RemoveFile { path } => VmRequestView::RemoveFile { path: path@ },
            VmRequest::SocketBase => VmRequestView::SocketBase,
            VmRequest::KillStaleProxy => VmRequestView::KillStaleProxy,
            VmRequest::KillStaleProxyByPort { port } => VmRequestView::KillStaleProxyByPort {
                port: *port,
            },
            VmRequest::PickSshPort => VmRequestView::PickSshPort,
            VmRequest::CreateLog { path } => VmRequestView::CreateLog { path: path@ },
            VmRequest::SpawnProxy { program, args } => VmRequestView::SpawnProxy {
                program: program@,
                args: texts(args@),
            },
            VmRequest::StopProxy => VmRequestView::StopProxy,
            VmRequest::ExposePort { socket, body } => VmRequestView::ExposePort {
                socket: socket@,
                body: body@,
            },
            VmRequest::Now => VmRequestView::Now,
            VmRequest::Sleep { millis } => VmRequestView::Sleep { millis: *millis },
            VmRequest::Boot { ctx } => VmRequestView::Boot { ctx: *ctx },
            VmRequest::WriteRuntimeState { pid, console_log, proxy_pid } => VmRequestView::WriteRuntimeState {
                pid: *pid,
                console_log: console_log@,
                proxy_pid: *proxy_pid,
            },
            VmRequest::ClearRuntimeState => VmRequestView::ClearRuntimeState,
            VmRequest::TerminateMachine { pid } => VmRequestView::TerminateMachine { pid: *pid },
            VmRequest::BootstrapGateway { name, port } => VmRequestView::BootstrapGateway {
                name: name@,
                port: *port,
            },
            VmRequest::WaitGatewayReady { port, name } => VmRequestView::WaitGatewayReady {
                port: *port,
                name: name@,
            },
            VmRequest::ForwardSignals { pid } => VmRequestView::ForwardSignals { pid: *pid },
            VmRequest::WaitChild { pid } => VmRequestView::WaitChild { pid: *pid },
        }
    }
}

/// The reply to a [`VmRequest`].
///
/// `ok` is the answer to a question and the success of an operation that has no
/// code. `code` is what a call into the virtual machine library returned, a
/// process id or a wait status. On failure `error`, or else `text`, describes it.
#[derive(Debug)]
pub struct VmReply {
    pub ok: bool,
    pub code: i32,
    pub text: String,
    pub nanos: u64,
    pub port: u16,
    pub pid: u32,
    pub error: Option<VmError>,
}

/// The view of a [`VmReply`].
pub struct VmReplyView {
    pub ok: bool,
    pub code: i32,
    pub text: Seq<char>,
    pub nanos: u64,
    pub port: u16,
    pub pid: u32,
    pub error: Option<VmErrorView>,
}

pub open spec fn error_view(e: Option<VmError>) -> Option<VmErrorView> {
    match e {
        Some(e) => Some(e@),
        None => None,
    }
}

impl View for VmReply {
    type V = VmReplyView;

    open spec fn view(&self) -> VmReplyView {
        VmReplyView {
            ok: self.ok,
            code: self.code,
            text: self.text@,
            nanos: self.nanos,
            port: self.port,
            pid: self.pid,
            error: error_view(self.error),
        }
    }
}

/// A reply that holds nothing beyond `ok`.
pub open spec fn bare_reply(ok: bool) -> VmReplyView {
    VmReplyView {
        ok,
        code: if ok {
            0i32
        } else {
            -1i32
        },
        text: Seq::empty(),
        nanos: 0,
        port: 0,
        pid: 0,
        error: None,
    }
}

impl VmReply {
    /// The answer to a question, or plain success or failure.
    pub fn flag(ok: bool) -> (r: VmReply)
        ensures
            r@ == bare_reply(ok),
    {
        let code: i32 = if ok {
            0
        } else {
            -1i32
        };
        VmReply { ok, code, text: String::new(), nanos: 0, port: 0, pid: 0, error: None }
    }

    /// What a call returned.
    pub fn code(code: i32) -> (r: VmReply)
        ensures
            r@ == (VmReplyView { code, ..bare_reply(true) }),
    {
        let mut r = VmReply::flag(true);
        r.code = code;
        r
    }

    /// A text.
    pub fn text(text: String) -> (r: VmReply)
        ensures
            r@ == (VmReplyView { text: text@, ..bare_reply(true) }),
    {
        let mut r = VmReply::flag(true);
        r.text = text;
        r
    }

    /// A reading of the clock, in nanoseconds.
    pub fn time(nanos: u64) -> (r: VmReply)
        ensures
            r@ == (VmReplyView { nanos, ..bare_reply(true) }),
    {
        let mut r = VmReply::flag(true);
        r.nanos = nanos;
        r
    }

    /// A port.
    pub fn port(port: u16) -> (r: VmReply)
        ensures
            r@ == (VmReplyView { port, ..bare_reply(true) }),
    {
        let mut r = VmReply::flag(true);
        r.port = port;
        r
    }

    /// A process id of the network proxy.
    pub fn process(pid: u32) -> (r: VmReply)
        ensures
            r@ == (VmReplyView { pid, ..bare_reply(true) }),
    {
        let mut r = VmReply::flag(true);
        r.pid = pid;
        r
    }

    /// A failure in words.
    pub fn failed(text: String) -> (r: VmReply)
        ensures
            r@ == (VmReplyView { text: text@, ..bare_reply(false) }),
    {
        let mut r = VmReply::flag(false);
        r.text = text;
        r
    }

    /// A failure that is passed on as it is.
    pub fn refused(error: VmError) -> (r: VmReply)
        ensures
            r@ == (VmReplyView { error: Some(error@), ..bare_reply(false) }),
    {
        let mut r = VmReply::flag(false);
        r.error = Some(error);
        r
    }
}

pub type VmDialogue = Dialogue<VmRequest, VmReply>;

pub type VmTranscript = Transcript<VmRequestView, VmReplyView>;

/// The last reply of an exchange; one that is still awaited counts as a failure.
pub open spec fn vm_answer(t: VmTranscript) -> VmReplyView {
    t.reply(bare_reply(false))
}

/// The failure that a reply passes on.
pub open spec fn passed_on(a: VmReplyView) -> VmErrorView {
    match a.error {
        Some(e) => e,
        None => VmErrorView::HostSetup { message: a.text },
    }
}

/// Asks `q` and gives a copy of its reply, once it is there.
pub fn ask_vm(d: &mut VmDialogue, q: VmRequest) -> (r: Option<VmReply>)
    ensures
        final(d)@ == old(d)@.ask(q@),
        r is Some <==> final(d)@.live(),
        r is Some ==> r->0@ == vm_answer(final(d)@),
{
    let at = d.ask(q)?;
    let a = d.reply(at);
    let error = match &a.error {
        Some(e) => Some(e.copy()),
        None => None,
    };
    Some(
        VmReply {
            ok: a.ok,
            code: a.code,
            text: a.text.clone(),
            nanos: a.nanos,
            port: a.port,
            pid: a.pid,
            error,
        },
    )
}

/// The failure that a reply passes on.
pub fn passed_on_error(a: VmReply) -> (e: VmError)
    ensures
        e@ == passed_on(a@),
{
    match a.error {
        Some(e) => e,
        None => VmError::HostSetup { message: a.text },
    }
}

} // verus!
