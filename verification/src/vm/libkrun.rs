//! Launching a machine with the libkrun library.

use vstd::prelude::*;

use crate::paths::{join_path, joined_path, parent, parent_path};
use crate::text::{contains_char, copy_texts, glue2, glue4, same, starts_with, texts};
use crate::vm::config::{
    launched, vsock_views, DiskView, HostOs, NetBackend, NetView, StateDiskConfig, VmConfig,
    VmError, VmErrorView, VmView, VsockPort, VsockView,
};
use crate::vm::exit::{decode_wait_status, exit_code};
use crate::vm::gvproxy::{
    forward_run, proxy_run, run_dir, run_dir_of, setup_gvproxy_port_forwarding, start_gvproxy,
    GvproxySetup, ProxyView,
};
use crate::vm::host::{
    ask_vm, passed_on, passed_on_error, vm_answer, VmDialogue, VmRequest, VmRequestView,
    VmTranscript,
};

verus! {

/// What a step of a launch ends in.
pub type Step = Result<(), VmErrorView>;

/// A call into the library: a negative code is a failure of `func`.
pub open spec fn krun_run(t: VmTranscript, q: VmRequestView, func: Seq<char>) -> (
    VmTranscript,
    Step,
) {
    let t = t.ask(q);
    let code = vm_answer(t).code;
    if code < 0 {
        (t, Err(VmErrorView::Krun { func, code }))
    } else {
        (t, Ok(()))
    }
}

fn krun(d: &mut VmDialogue, q: VmRequest, func: &str) -> (r: Option<Result<(), VmError>>)
    ensures
        final(d)@ == krun_run(old(d)@, q@, func@).0,
        r is Some <==> final(d)@.live(),
        r is Some ==> launched(r->0) == krun_run(old(d)@, q@, func@).1,
{
    let a = ask_vm(d, q)?;
    if a.code < 0 {
        Some(Err(VmError::Krun { func: func.to_owned(), code: a.code }))
    } else {
        Some(Ok(()))
    }
}

/// A text that holds a NUL character cannot be handed to the library.
pub open spec fn has_nul(s: Seq<char>) -> bool {
    s.contains('\0')
}

/// The first of `list[i..]` that holds a NUL character.
pub open spec fn first_nul(list: Seq<Seq<char>>, i: nat) -> Option<Seq<char>>
    decreases list.len() - i,
{
    if i >= list.len() {
        None
    } else if has_nul(list[i as int]) {
        Some(list[i as int])
    } else {
        first_nul(list, i + 1)
    }
}

/// A call into the library that hands `list` on. Nothing is asked where one of the
/// texts holds a NUL character.
pub open spec fn krun_texts_run(
    t: VmTranscript,
    list: Seq<Seq<char>>,
    q: VmRequestView,
    func: Seq<char>,
) -> (VmTranscript, Step) {
    match first_nul(list, 0) {
        Some(text) => (t, Err(VmErrorView::NulByte { text })),
        None => krun_run(t, q, func),
    }
}

fn find_nul(list: &Vec<String>) -> (r: Option<String>)
    ensures
        match r {
            Some(text) => first_nul(texts(list@), 0) == Some(text@),
            None => first_nul(texts(list@), 0) is None,
        },
{
    let ghost all = texts(list@);
    let mut i: usize = 0;
    while i < list.len()
        invariant
            i <= list@.len(),
            all == texts(list@),
            first_nul(all, 0) == first_nul(all, i as nat),
        decreases list.len() - i,
    {
        assert(all[i as int] == list@[i as int]@);
        if contains_char(list[i].as_str(), '\0') {
            return Some(list[i].clone());
        }
        i = i + 1;
    }
    None
}

fn krun_with_texts(d: &mut VmDialogue, list: Vec<String>, q: VmRequest, func: &str) -> (r: Option<
    Result<(), VmError>,
>)
    requires
        old(d)@.live(),
    ensures
        final(d)@ == krun_texts_run(old(d)@, texts(list@), q@, func@).0,
        r is Some <==> final(d)@.live(),
        r is Some ==> launched(r->0) == krun_texts_run(old(d)@, texts(list@), q@, func@).1,
{
    match find_nul(&list) {
        Some(text) => Some(Err(VmError::NulByte { text })),
        None => krun(d, q, func),
    }
}

fn one_text(s: &str) -> (r: Vec<String>)
    ensures
        texts(r@) == seq![s@],
{
    let mut r: Vec<String> = Vec::new();
    r.push(s.to_owned());
    assert(texts(r@) =~= seq![s@]);
    r
}

/// Makes a context for one machine.
pub open spec fn context_run(t: VmTranscript, log_level: u32) -> (
    VmTranscript,
    Result<u32, VmErrorView>,
) {
    let t = t.ask(VmRequestView::LoadLibrary);
    if !vm_answer(t).ok {
        (t, Err(passed_on(vm_answer(t))))
    } else {
        let (t, r) = krun_run(t, VmRequestView::InitLog { level: log_level }, "krun_init_log"@);
        match r {
            Err(e) => (t, Err(e)),
            Ok(_) => {
                let t = t.ask(VmRequestView::CreateContext);
                let code = vm_answer(t).code;
                if code < 0 {
                    (t, Err(VmErrorView::Krun { func: "krun_create_ctx"@, code }))
                } else {
                    (t, Ok(code as u32))
                }
            },
        }
    }
}

fn create_context(d: &mut VmDialogue, log_level: u32) -> (r: Option<Result<u32, VmError>>)
    ensures
        final(d)@ == context_run(old(d)@, log_level).0,
        r is Some <==> final(d)@.live(),
        r is Some ==> launched(r->0) == context_run(old(d)@, log_level).1,
{
    let loaded = ask_vm(d, VmRequest::LoadLibrary)?;
    if !loaded.ok {
        return Some(Err(passed_on_error(loaded)));
    }
    match krun(d, VmRequest::InitLog { level: log_level }, "krun_init_log")? {
        Ok(()) => {},
        Err(e) => {
            return Some(Err(e));
        },
    }
    let made = ask_vm(d, VmRequest::CreateContext)?;
    if made.code < 0 {
        Some(Err(VmError::Krun { func: "krun_create_ctx".to_owned(), code: made.code }))
    } else {
        Some(Ok(made.code as u32))
    }
}

/// Adds the disk that keeps the state of a machine.
pub open spec fn disk_run(t: VmTranscript, ctx: u32, disk: DiskView) -> (VmTranscript, Step) {
    let t = t.ask(VmRequestView::HasAddDisk);
    if !vm_answer(t).ok {
        (
            t,
            Err(
                VmErrorView::HostSetup {
                    message:
                        "libkrun runtime does not expose krun_add_disk3; rebuild the VM runtime with block support"@,
                },
            ),
        )
    } else {
        krun_texts_run(
            t,
            seq![disk.block_id, disk.path],
            VmRequestView::AddDisk { ctx, block_id: disk.block_id, path: disk.path },
            "krun_add_disk3"@,
        )
    }
}

fn add_state_disk(d: &mut VmDialogue, ctx: u32, disk: &StateDiskConfig) -> (r: Option<
    Result<(), VmError>,
>)
    ensures
        final(d)@ == disk_run(old(d)@, ctx, disk@).0,
        r is Some <==> final(d)@.live(),
        r is Some ==> launched(r->0) == disk_run(old(d)@, ctx, disk@).1,
{
    let able = ask_vm(d, VmRequest::HasAddDisk)?;
    if !able.ok {
        return Some(
            Err(
                VmError::HostSetup {
                    message:
                        "libkrun runtime does not expose krun_add_disk3; rebuild the VM runtime with block support".to_owned(),
                },
            ),
        );
    }
    let mut list = one_text(disk.block_id.as_str());
    let ghost one = texts(list@);
    list.push(disk.path.clone());
    assert(texts(list@) =~= one.push(disk@.path));
    assert(texts(list@) =~= seq![disk@.block_id, disk@.path]);
    krun_with_texts(
        d,
        list,
        VmRequest::AddDisk { ctx, block_id: disk.block_id.clone(), path: disk.path.clone() },
        "krun_add_disk3",
    )
}

/// Adds the state disk, where the machine has one.
pub open spec fn maybe_disk_run(t: VmTranscript, ctx: u32, disk: Option<DiskView>) -> (
    VmTranscript,
    Step,
) {
    match disk {
        Some(disk) => disk_run(t, ctx, disk),
        None => (t, Ok(())),
    }
}

/// Sets the size of the machine, its root file system, its disk and its working
/// directory.
pub open spec fn setup_run(t: VmTranscript, ctx: u32, config: VmView) -> (VmTranscript, Step) {
    let (t, r) = krun_run(
        t,
        VmRequestView::SetVmConfig { ctx, vcpus: config.vcpus, mem_mib: config.mem_mib },
        "krun_set_vm_config"@,
    );
    if r is Err {
        (t, r)
    } else {
        let (t, r) = krun_texts_run(
            t,
            seq![config.rootfs],
            VmRequestView::SetRoot { ctx, path: config.rootfs },
            "krun_set_root"@,
        );
        if r is Err {
            (t, r)
        } else {
            let (t, r) = maybe_disk_run(t, ctx, config.state_disk);
            if r is Err {
                (t, r)
            } else {
                krun_texts_run(
                    t,
                    seq![config.workdir],
                    VmRequestView::SetWorkdir { ctx, path: config.workdir },
                    "krun_set_workdir"@,
                )
            }
        }
    }
}

fn set_up(d: &mut VmDialogue, ctx: u32, config: &VmConfig) -> (r: Option<Result<(), VmError>>)
    ensures
        final(d)@ == setup_run(old(d)@, ctx, config@).0,
        r is Some <==> final(d)@.live(),
        r is Some ==> launched(r->0) == setup_run(old(d)@, ctx, config@).1,
{
    match krun(
        d,
        VmRequest::SetVmConfig { ctx, vcpus: config.vcpus, mem_mib: config.mem_mib },
        "krun_set_vm_config",
    )? {
        Ok(()) => {},
        Err(e) => {
            return Some(Err(e));
        },
    }
    match krun_with_texts(
        d,
        one_text(config.rootfs.as_str()),
        VmRequest::SetRoot { ctx, path: config.rootfs.clone() },
        "krun_set_root",
    )? {
        Ok(()) => {},
        Err(e) => {
            return Some(Err(e));
        },
    }
    match &config.state_disk {
        Some(disk) => {
            match add_state_disk(d, ctx, disk)? {
                Ok(()) => {},
                Err(e) => {
                    return Some(Err(e));
                },
            }
        },
        None => {},
    }
    krun_with_texts(
        d,
        one_text(config.workdir.as_str()),
        VmRequest::SetWorkdir { ctx, path: config.workdir.clone() },
        "krun_set_workdir",
    )
}

/// The bits of the network features that every guest understands.
pub const NET_FEATURE_CSUM: u32 = 1;

pub const NET_FEATURE_GUEST_CSUM: u32 = 2;

pub const NET_FEATURE_GUEST_TSO4: u32 = 128;

pub const NET_FEATURE_GUEST_UFO: u32 = 1024;

pub const NET_FEATURE_HOST_TSO4: u32 = 2048;

pub const NET_FEATURE_HOST_UFO: u32 = 16384;

/// All of them together.
pub const COMPAT_NET_FEATURES: u32 = NET_FEATURE_CSUM | NET_FEATURE_GUEST_CSUM
    | NET_FEATURE_GUEST_TSO4 | NET_FEATURE_GUEST_UFO | NET_FEATURE_HOST_TSO4
    | NET_FEATURE_HOST_UFO;

/// Selects the datagram format of the network proxy on macOS.
pub const NET_FLAG_VFKIT: u32 = 1;

/// Hardware address of the network device of a machine.
pub open spec fn guest_mac() -> Seq<u8> {
    seq![0x5a, 0x94, 0xef, 0xe4, 0x0c, 0xee]
}

/// Leaves out the default socket device and adds one without features.
pub open spec fn vsock_off_run(t: VmTranscript, ctx: u32) -> (VmTranscript, Step) {
    let (t, r) = krun_run(
        t,
        VmRequestView::DisableImplicitVsock { ctx },
        "krun_disable_implicit_vsock"@,
    );
    if r is Err {
        (t, r)
    } else {
        krun_run(t, VmRequestView::AddVsock { ctx, features: 0 }, "krun_add_vsock"@)
    }
}

fn turn_vsock_off(d: &mut VmDialogue, ctx: u32) -> (r: Option<Result<(), VmError>>)
    ensures
        final(d)@ == vsock_off_run(old(d)@, ctx).0,
        r is Some <==> final(d)@.live(),
        r is Some ==> launched(r->0) == vsock_off_run(old(d)@, ctx).1,
{
    match krun(d, VmRequest::DisableImplicitVsock { ctx }, "krun_disable_implicit_vsock")? {
        Ok(()) => {},
        Err(e) => {
            return Some(Err(e));
        },
    }
    krun(d, VmRequest::AddVsock { ctx, features: 0 }, "krun_add_vsock")
}

/// Adds the network device that is served by the network proxy.
pub open spec fn net_device_run(t: VmTranscript, ctx: u32, host_os: HostOs, socket: Seq<char>) -> (
    VmTranscript,
    Step,
) {
    let (t, r) = vsock_off_run(t, ctx);
    if r is Err {
        (t, r)
    } else if host_os == HostOs::Linux {
        krun_texts_run(
            t,
            seq![socket],
            VmRequestView::AddNetUnixstream {
                ctx,
                socket,
                mac: guest_mac(),
                features: COMPAT_NET_FEATURES,
            },
            "krun_add_net_unixstream"@,
        )
    } else {
        krun_texts_run(
            t,
            seq![socket],
            VmRequestView::AddNetUnixgram {
                ctx,
                socket,
                mac: guest_mac(),
                features: COMPAT_NET_FEATURES,
                flags: NET_FLAG_VFKIT,
            },
            "krun_add_net_unixgram"@,
        )
    }
}

fn add_net_device(d: &mut VmDialogue, ctx: u32, host_os: HostOs, socket: &str) -> (r: Option<
    Result<(), VmError>,
>)
    ensures
        final(d)@ == net_device_run(old(d)@, ctx, host_os, socket@).0,
        r is Some <==> final(d)@.live(),
        r is Some ==> launched(r->0) == net_device_run(old(d)@, ctx, host_os, socket@).1,
{
    match turn_vsock_off(d, ctx)? {
        Ok(()) => {},
        Err(e) => {
            return Some(Err(e));
        },
    }
    let mac: [u8; 6] = [0x5a, 0x94, 0xef, 0xe4, 0x0c, 0xee];
    assert(mac@ =~= guest_mac());
    if host_os == HostOs::Linux {
        krun_with_texts(
            d,
            one_text(socket),
            VmRequest::AddNetUnixstream {
                ctx,
                socket: socket.to_owned(),
                mac,
                features: COMPAT_NET_FEATURES,
            },
            "krun_add_net_unixstream",
        )
    } else {
        krun_with_texts(
            d,
            one_text(socket),
            VmRequest::AddNetUnixgram {
                ctx,
                socket: socket.to_owned(),
                mac,
                features: COMPAT_NET_FEATURES,
                flags: NET_FLAG_VFKIT,
            },
            "krun_add_net_unixgram",
        )
    }
}

/// Stops the network proxy, where there is one.
pub open spec fn stop_run(t: VmTranscript, proxy: Option<ProxyView>) -> VmTranscript {
    match proxy {
        Some(_) => t.ask(VmRequestView::StopProxy),
        None => t,
    }
}

pub open spec fn proxy_view(p: Option<GvproxySetup>) -> Option<ProxyView> {
    match p {
        Some(setup) => Some(setup@),
        None => None,
    }
}

fn stop_proxy(d: &mut VmDialogue, proxy: &Option<GvproxySetup>)
    ensures
        final(d)@ == stop_run(old(d)@, proxy_view(*proxy)),
{
    match proxy {
        Some(_) => {
            let _ = ask_vm(d, VmRequest::StopProxy);
        },
        None => {},
    }
}

/// Connects the machine to the network. A network proxy that was started is
/// stopped again where the machine cannot be connected to it.
pub open spec fn net_run(t: VmTranscript, ctx: u32, config: VmView) -> (
    VmTranscript,
    Result<Option<ProxyView>, VmErrorView>,
) {
    match config.net {
        NetView::Tsi => (t, Ok(None)),
        NetView::Disabled => {
            let (t, r) = vsock_off_run(t, ctx);
            match r {
                Ok(_) => (t, Ok(None)),
                Err(e) => (t, Err(e)),
            }
        },
        NetView::Gvproxy { .. } => {
            let (t, started) = proxy_run(t, config);
            match started {
                Err(e) => (t, Err(e)),
                Ok(proxy) => {
                    let (t, r) = net_device_run(t, ctx, config.host_os, proxy.net_sock);
                    match r {
                        Ok(_) => (t, Ok(Some(proxy))),
                        Err(e) => (stop_run(t, Some(proxy)), Err(e)),
                    }
                },
            }
        },
    }
}

/// What connecting the machine ended in, by its view.
pub open spec fn connected(r: Result<Option<GvproxySetup>, VmError>) -> Result<
    Option<ProxyView>,
    VmErrorView,
> {
    match r {
        Ok(proxy) => Ok(proxy_view(proxy)),
        Err(e) => Err(e@),
    }
}

fn connect(d: &mut VmDialogue, ctx: u32, config: &VmConfig) -> (r: Option<
    Result<Option<GvproxySetup>, VmError>,
>)
    ensures
        final(d)@ == net_run(old(d)@, ctx, config@).0,
        r is Some <==> final(d)@.live(),
        r is Some ==> connected(r->0) == net_run(old(d)@, ctx, config@).1,
{
    match &config.net {
        NetBackend::Tsi => if d.is_live() {
            Some(Ok(None))
        } else {
            None
        },
        NetBackend::Disabled => match turn_vsock_off(d, ctx)? {
            Ok(()) => Some(Ok(None)),
            Err(e) => Some(Err(e)),
        },
        NetBackend::Gvproxy { .. } => {
            let setup = match start_gvproxy(d, config) {
                Some(Ok(setup)) => setup,
                Some(Err(e)) => {
                    return Some(Err(e));
                },
                None => {
                    return None;
                },
            };
            match add_net_device(d, ctx, config.host_os, setup.net_sock.as_str())? {
                Ok(()) => Some(Ok(Some(setup))),
                Err(e) => {
                    stop_proxy(d, &Some(setup));
                    if d.is_live() {
                        Some(Err(e))
                    } else {
                        None
                    }
                },
            }
        },
    }
}

pub open spec fn vsock_dir_fault(dir: Seq<char>, text: Seq<char>) -> VmErrorView {
    VmErrorView::RuntimeState { message: "create vsock socket dir "@ + dir + ": "@ + text }
}

/// Makes the directory of a socket, where its path has one.
pub open spec fn socket_dir_run(t: VmTranscript, socket: Seq<char>) -> (VmTranscript, Step) {
    match parent_path(socket) {
        Some(dir) => {
            let t = t.ask(VmRequestView::CreateDirAll { path: dir });
            if vm_answer(t).ok {
                (t, Ok(()))
            } else {
                (t, Err(vsock_dir_fault(dir, vm_answer(t).text)))
            }
        },
        None => (t, Ok(())),
    }
}

/// Connects the ports `ports[i..]` of the machine to their sockets.
pub open spec fn vsock_run(t: VmTranscript, ctx: u32, ports: Seq<VsockView>, i: nat) -> (
    VmTranscript,
    Step,
)
    decreases ports.len() - i,
{
    if i >= ports.len() {
        (t, Ok(()))
    } else {
        let p = ports[i as int];
        let (t, r) = socket_dir_run(t, p.socket_path);
        if r is Err {
            (t, r)
        } else {
            let t = t.ask(VmRequestView::RemoveFile { path: p.socket_path });
            let (t, r) = krun_texts_run(
                t,
                seq![p.socket_path],
                VmRequestView::AddVsockPort {
                    ctx,
                    guest_port: p.port,
                    socket: p.socket_path,
                    listen: p.listen,
                },
                "krun_add_vsock_port2"@,
            );
            if r is Err {
                (t, r)
            } else {
                vsock_run(t, ctx, ports, i + 1)
            }
        }
    }
}

proof fn lemma_vsock_waits(t: VmTranscript, ctx: u32, ports: Seq<VsockView>, i: nat)
    ensures
        !t.live() ==> vsock_run(t, ctx, ports, i).0 == t,
    decreases ports.len() - i,
{
    if !t.live() && i < ports.len() {
        lemma_vsock_waits(t, ctx, ports, i + 1);
    }
}

fn make_socket_dir(d: &mut VmDialogue, socket: &str) -> (r: Option<Result<(), VmError>>)
    requires
        old(d)@.live(),
    ensures
        final(d)@ == socket_dir_run(old(d)@, socket@).0,
        r is Some <==> final(d)@.live(),
        r is Some ==> launched(r->0) == socket_dir_run(old(d)@, socket@).1,
{
    match parent(socket) {
        Some(dir) => {
            let made = ask_vm(d, VmRequest::CreateDirAll { path: dir.clone() })?;
            if made.ok {
                Some(Ok(()))
            } else {
                let message = glue4(
                    "create vsock socket dir ",
                    dir.as_str(),
                    ": ",
                    made.text.as_str(),
                );
                Some(Err(VmError::RuntimeState { message }))
            }
        },
        None => Some(Ok(())),
    }
}

fn add_vsock_ports(d: &mut VmDialogue, ctx: u32, ports: &Vec<VsockPort>) -> (r: Option<
    Result<(), VmError>,
>)
    requires
        old(d)@.live(),
    ensures
        final(d)@ == vsock_run(old(d)@, ctx, vsock_views(ports@), 0).0,
        r is Some <==> final(d)@.live(),
        r is Some ==> launched(r->0) == vsock_run(
            old(d)@,
            ctx,
            vsock_views(ports@),
            0,
        ).1,
{
    let ghost all = vsock_views(ports@);
    let mut i: usize = 0;
    while i < ports.len()
        invariant
            i <= ports@.len(),
            all == vsock_views(ports@),
            d@.live(),
            vsock_run(d@, ctx, all, i as nat) == vsock_run(old(d)@, ctx, all, 0),
        decreases ports.len() - i,
    {
        let port = &ports[i];
        assert(all[i as int] == port@);
        match make_socket_dir(d, port.socket_path.as_str())? {
            Ok(()) => {},
            Err(e) => {
                return Some(Err(e));
            },
        }
        let removed = ask_vm(d, VmRequest::RemoveFile { path: port.socket_path.clone() });
        if removed.is_none() {
            proof {
                lemma_vsock_waits(d@, ctx, all, (i + 1) as nat);
            }
            return None;
        }
        match krun_with_texts(
            d,
            one_text(port.socket_path.as_str()),
            VmRequest::AddVsockPort {
                ctx,
                guest_port: port.port,
                socket: port.socket_path.clone(),
                listen: port.listen,
            },
            "krun_add_vsock_port2",
        ) {
            Some(Ok(())) => {},
            Some(Err(e)) => {
                return Some(Err(e));
            },
            None => {
                return None;
            },
        }
        i = i + 1;
    }
    Some(Ok(()))
}

/// Where the console of the machine is logged.
pub open spec fn console_path(config: VmView) -> Seq<char> {
    match config.console_output {
        Some(path) => path,
        None => joined_path(run_dir(config.rootfs), config.rootfs_key + "-console.log"@),
    }
}

pub fn console_log_path(config: &VmConfig) -> (r: String)
    ensures
        r@ == console_path(config@),
{
    match &config.console_output {
        Some(path) => path.clone(),
        None => {
            let dir = run_dir_of(config.rootfs.as_str());
            let name = glue2(config.rootfs_key.as_str(), "-console.log");
            join_path(dir.as_str(), name.as_str())
        },
    }
}

/// Some entry of the environment already names the state disk.
pub open spec fn names_disk(env: Seq<Seq<char>>) -> bool {
    exists|i: int|
        0 <= i < env.len() && "OPENSHELL_VM_STATE_DISK_DEVICE="@.is_prefix_of(#[trigger] env[i])
}

/// The environment before the machine's own entries: the one that was given, or
/// one that every program can live with.
pub open spec fn base_env(env: Seq<Seq<char>>) -> Seq<Seq<char>> {
    if env.len() == 0 {
        seq![
            "HOME=/root"@,
            "PATH=/usr/local/sbin:/usr/local/bin:/usr/sbin:/usr/bin:/sbin:/bin"@,
            "TERM=xterm"@,
        ]
    } else {
        env
    }
}

/// The environment of the program of the machine.
pub open spec fn guest_env(config: VmView) -> Seq<Seq<char>> {
    let base = base_env(config.env);
    let with_disk = match config.state_disk {
        Some(disk) => if names_disk(base) {
            base
        } else {
            base.push("OPENSHELL_VM_STATE_DISK_DEVICE="@ + disk.guest_device)
        },
        None => base,
    };
    if config.gpu_enabled {
        with_disk.push("GPU_ENABLED=true"@)
    } else {
        with_disk
    }
}

fn disk_is_named(env: &Vec<String>) -> (r: bool)
    ensures
        r == names_disk(texts(env@)),
{
    let mut i: usize = 0;
    while i < env.len()
        invariant
            i <= env@.len(),
            forall|j: int|
                0 <= j < i ==> !"OPENSHELL_VM_STATE_DISK_DEVICE="@.is_prefix_of(
                    #[trigger] texts(env@)[j],
                ),
        decreases env.len() - i,
    {
        assert(texts(env@)[i as int] == env@[i as int]@);
        if starts_with(env[i].as_str(), "OPENSHELL_VM_STATE_DISK_DEVICE=") {
            return true;
        }
        i = i + 1;
    }
    false
}

/// The environment of the program of the machine.
pub fn guest_environment(config: &VmConfig) -> (r: Vec<String>)
    ensures
        texts(r@) == guest_env(config@),
{
    let mut env: Vec<String> = Vec::new();
    assert(texts(config.env@).len() == config.env@.len());
    if config.env.len() == 0 {
        env.push("HOME=/root".to_owned());
        env.push("PATH=/usr/local/sbin:/usr/local/bin:/usr/sbin:/usr/bin:/sbin:/bin".to_owned());
        env.push("TERM=xterm".to_owned());
    } else {
        env = copy_texts(&config.env);
    }
    assert(texts(env@) =~= base_env(config@.env));
    match &config.state_disk {
        Some(disk) => if !disk_is_named(&env) {
            let ghost before = texts(env@);
            env.push(glue2("OPENSHELL_VM_STATE_DISK_DEVICE=", disk.guest_device.as_str()));
            assert(texts(env@) =~= before.push(
                "OPENSHELL_VM_STATE_DISK_DEVICE="@ + disk@.guest_device,
            ));
        },
        None => {},
    }
    if config.gpu_enabled {
        let ghost before = texts(env@);
        env.push("GPU_ENABLED=true".to_owned());
        assert(texts(env@) =~= before.push("GPU_ENABLED=true"@));
    }
    env
}

/// Sets the forwarded ports of a machine that uses the sockets of the host.
pub open spec fn port_map_run(t: VmTranscript, ctx: u32, config: VmView) -> (VmTranscript, Step) {
    if config.port_map.len() > 0 && config.net is Tsi {
        krun_texts_run(
            t,
            config.port_map,
            VmRequestView::SetPortMap { ctx, ports: config.port_map },
            "krun_set_port_map"@,
        )
    } else {
        (t, Ok(()))
    }
}

/// Sets the program of the machine.
pub open spec fn exec_run(t: VmTranscript, ctx: u32, config: VmView) -> (VmTranscript, Step) {
    krun_texts_run(
        t,
        seq![config.exec_path] + config.args + guest_env(config),
        VmRequestView::SetExec {
            ctx,
            program: config.exec_path,
            args: config.args,
            env: guest_env(config),
        },
        "krun_set_exec"@,
    )
}

/// Sets the ports, the console and the program of the machine.
pub open spec fn program_run(t: VmTranscript, ctx: u32, config: VmView) -> (VmTranscript, Step) {
    let (t, r) = port_map_run(t, ctx, config);
    if r is Err {
        (t, r)
    } else {
        let (t, r) = vsock_run(t, ctx, config.vsock_ports, 0);
        if r is Err {
            (t, r)
        } else {
            let (t, r) = krun_texts_run(
                t,
                seq![console_path(config)],
                VmRequestView::SetConsoleOutput { ctx, path: console_path(config) },
                "krun_set_console_output"@,
            );
            if r is Err {
                (t, r)
            } else {
                exec_run(t, ctx, config)
            }
        }
    }
}

fn append_copies(list: &mut Vec<String>, more: &Vec<String>)
    ensures
        texts(final(list)@) == texts(old(list)@) + texts(more@),
{
    let ghost start = texts(list@);
    let mut i: usize = 0;
    assert(texts(list@) =~= start + texts(more@).take(0));
    while i < more.len()
        invariant
            i <= more@.len(),
            texts(list@) == start + texts(more@).take(i as int),
        decreases more.len() - i,
    {
        let ghost before = texts(list@);
        list.push(more[i].clone());
        assert(texts(list@) =~= before.push(texts(more@)[i as int]));
        assert(texts(list@) =~= start + texts(more@).take(i + 1));
        i = i + 1;
    }
    assert(texts(more@).take(i as int) =~= texts(more@));
}

fn set_exec(d: &mut VmDialogue, ctx: u32, config: &VmConfig) -> (r: Option<Result<(), VmError>>)
    requires
        old(d)@.live(),
    ensures
        final(d)@ == exec_run(old(d)@, ctx, config@).0,
        r is Some <==> final(d)@.live(),
        r is Some ==> launched(r->0) == exec_run(old(d)@, ctx, config@).1,
{
    let env = guest_environment(config);
    let mut list = one_text(config.exec_path.as_str());
    append_copies(&mut list, &config.args);
    append_copies(&mut list, &env);
    krun_with_texts(
        d,
        list,
        VmRequest::SetExec {
            ctx,
            program: config.exec_path.clone(),
            args: copy_texts(&config.args),
            env,
        },
        "krun_set_exec",
    )
}

fn set_port_map(d: &mut VmDialogue, ctx: u32, config: &VmConfig) -> (r: Option<
    Result<(), VmError>,
>)
    requires
        old(d)@.live(),
    ensures
        final(d)@ == port_map_run(old(d)@, ctx, config@).0,
        r is Some <==> final(d)@.live(),
        r is Some ==> launched(r->0) == port_map_run(old(d)@, ctx, config@).1,
{
    assert(texts(config.port_map@).len() == config.port_map@.len());
    let direct = match &config.net {
        NetBackend::Tsi => true,
        _ => false,
    };
    if config.port_map.len() > 0 && direct {
        krun_with_texts(
            d,
            copy_texts(&config.port_map),
            VmRequest::SetPortMap { ctx, ports: copy_texts(&config.port_map) },
            "krun_set_port_map",
        )
    } else {
        Some(Ok(()))
    }
}

fn set_program(d: &mut VmDialogue, ctx: u32, config: &VmConfig) -> (r: Option<Result<(), VmError>>)
    requires
        old(d)@.live(),
    ensures
        final(d)@ == program_run(old(d)@, ctx, config@).0,
        r is Some <==> final(d)@.live(),
        r is Some ==> launched(r->0) == program_run(old(d)@, ctx, config@).1,
{
    match set_port_map(d, ctx, config)? {
        Ok(()) => {},
        Err(e) => {
            return Some(Err(e));
        },
    }
    match add_vsock_ports(d, ctx, &config.vsock_ports) {
        Some(Ok(())) => {},
        Some(Err(e)) => {
            return Some(Err(e));
        },
        None => {
            return None;
        },
    }
    let console = console_log_path(config);
    match krun_with_texts(
        d,
        one_text(console.as_str()),
        VmRequest::SetConsoleOutput { ctx, path: console.clone() },
        "krun_set_console_output",
    ) {
        Some(Ok(())) => {},
        Some(Err(e)) => {
            return Some(Err(e));
        },
        None => {
            return None;
        },
    }
    set_exec(d, ctx, config)
}

/// The program of machines that hold a gateway.
pub const GATEWAY_INIT: &'static str = "/srv/openshell-vm-init.sh";

/// Keeps a description of a machine that holds a gateway. Where that fails, the
/// machine and its network proxy are ended.
pub open spec fn describe_run(
    t: VmTranscript,
    config: VmView,
    pid: i32,
    proxy: Option<ProxyView>,
) -> (VmTranscript, Step) {
    if config.exec_path != GATEWAY_INIT@ {
        (t, Ok(()))
    } else {
        let t = t.ask(
            VmRequestView::WriteRuntimeState {
                pid,
                console_log: console_path(config),
                proxy_pid: match proxy {
                    Some(p) => Some(p.pid),
                    None => None,
                },
            },
        );
        if vm_answer(t).ok {
            (t, Ok(()))
        } else {
            let e = passed_on(vm_answer(t));
            let t = t.ask(VmRequestView::TerminateMachine { pid });
            let t = stop_run(t, proxy);
            let t = t.ask(VmRequestView::ClearRuntimeState);
            (t, Err(e))
        }
    }
}

/// Sets up access to the gateway in the machine, where it holds one that can be
/// reached.
pub open spec fn gateway_run(t: VmTranscript, config: VmView) -> (VmTranscript, Step) {
    if config.exec_path != GATEWAY_INIT@ || config.port_map.len() == 0 {
        (t, Ok(()))
    } else {
        let t = t.ask(
            VmRequestView::BootstrapGateway { name: config.gateway_name, port: config.gateway_port },
        );
        if !vm_answer(t).ok {
            (t, Err(passed_on(vm_answer(t))))
        } else {
            let t = t.ask(
                VmRequestView::WaitGatewayReady {
                    port: config.gateway_port,
                    name: config.gateway_name,
                },
            );
            if !vm_answer(t).ok {
                (t, Err(passed_on(vm_answer(t))))
            } else {
                (t, Ok(()))
            }
        }
    }
}

/// Makes a machine that runs reachable: its ports, then its gateway.
pub open spec fn reach_run(t: VmTranscript, config: VmView, proxy: Option<ProxyView>) -> (
    VmTranscript,
    Step,
) {
    match proxy {
        Some(p) => {
            let (t, r) = forward_run(t, p.api_sock, config.port_map);
            if r is Err {
                (t, r)
            } else {
                gateway_run(t, config)
            }
        },
        None => gateway_run(t, config),
    }
}

/// Waits for the end of the machine and cleans up after it.
pub open spec fn finish_run(
    t: VmTranscript,
    config: VmView,
    pid: i32,
    proxy: Option<ProxyView>,
) -> (VmTranscript, Result<i32, VmErrorView>) {
    let t = t.ask(VmRequestView::ForwardSignals { pid });
    let t = t.ask(VmRequestView::WaitChild { pid });
    let status = vm_answer(t).code;
    let t = if config.exec_path == GATEWAY_INIT@ {
        t.ask(VmRequestView::ClearRuntimeState)
    } else {
        t
    };
    (stop_run(t, proxy), Ok(exit_code(status) as i32))
}

/// Boots a machine that is set up, and stays with it to its end.
pub open spec fn boot_run(
    t: VmTranscript,
    ctx: u32,
    config: VmView,
    proxy: Option<ProxyView>,
) -> (VmTranscript, Result<i32, VmErrorView>) {
    let t = t.ask(VmRequestView::Boot { ctx });
    if !vm_answer(t).ok {
        let e = VmErrorView::Fork { message: vm_answer(t).text };
        (stop_run(t, proxy), Err(e))
    } else {
        let pid = vm_answer(t).code;
        let (t, described) = describe_run(t, config, pid, proxy);
        match described {
            Err(e) => (t, Err(e)),
            Ok(_) => {
                let (t, reached) = reach_run(t, config, proxy);
                match reached {
                    Err(e) => (stop_run(t, proxy), Err(e)),
                    Ok(_) => finish_run(t, config, pid, proxy),
                }
            },
        }
    }
}

/// All of a launch that needs a context.
pub open spec fn with_context_run(t: VmTranscript, ctx: u32, config: VmView) -> (
    VmTranscript,
    Result<i32, VmErrorView>,
) {
    let (t, r) = setup_run(t, ctx, config);
    match r {
        Err(e) => (t, Err(e)),
        Ok(_) => {
            let (t, net) = net_run(t, ctx, config);
            match net {
                Err(e) => (t, Err(e)),
                Ok(proxy) => {
                    let (t, r) = program_run(t, ctx, config);
                    match r {
                        Err(e) => (stop_run(t, proxy), Err(e)),
                        Ok(_) => boot_run(t, ctx, config, proxy),
                    }
                },
            }
        },
    }
}

/// A launch from its start to the end of the machine. A context that was made is
/// always given back.
pub open spec fn launch_run(t: VmTranscript, config: VmView) -> (
    VmTranscript,
    Result<i32, VmErrorView>,
) {
    let (t, made) = context_run(t, config.log_level);
    match made {
        Err(e) => (t, Err(e)),
        Ok(ctx) => {
            let (t, r) = with_context_run(t, ctx, config);
            (t.ask(VmRequestView::FreeContext { ctx }), r)
        },
    }
}

fn stopped<T>(d: &VmDialogue, r: Result<T, VmError>) -> (o: Option<Result<T, VmError>>)
    ensures
        o is Some <==> d@.live(),
        o is Some ==> o->0 == r,
{
    if d.is_live() {
        Some(r)
    } else {
        None
    }
}

fn describe(
    d: &mut VmDialogue,
    config: &VmConfig,
    pid: i32,
    proxy: &Option<GvproxySetup>,
) -> (r: Option<Result<(), VmError>>)
    requires
        old(d)@.live(),
    ensures
        final(d)@ == describe_run(old(d)@, config@, pid, proxy_view(*proxy)).0,
        r is Some <==> final(d)@.live(),
        r is Some ==> launched(r->0) == describe_run(
            old(d)@,
            config@,
            pid,
            proxy_view(*proxy),
        ).1,
{
    if !same(config.exec_path.as_str(), GATEWAY_INIT) {
        return Some(Ok(()));
    }
    let proxy_pid = match proxy {
        Some(setup) => Some(setup.pid),
        None => None,
    };
    let written = ask_vm(
        d,
        VmRequest::WriteRuntimeState { pid, console_log: console_log_path(config), proxy_pid },
    )?;
    if written.ok {
        return Some(Ok(()));
    }
    let e = passed_on_error(written);
    let _ = ask_vm(d, VmRequest::TerminateMachine { pid });
    stop_proxy(d, proxy);
    let _ = ask_vm(d, VmRequest::ClearRuntimeState);
    stopped(d, Err(e))
}

fn open_gateway(d: &mut VmDialogue, config: &VmConfig) -> (r: Option<Result<(), VmError>>)
    requires
        old(d)@.live(),
    ensures
        final(d)@ == gateway_run(old(d)@, config@).0,
        r is Some <==> final(d)@.live(),
        r is Some ==> launched(r->0) == gateway_run(old(d)@, config@).1,
{
    assert(texts(config.port_map@).len() == config.port_map@.len());
    if !same(config.exec_path.as_str(), GATEWAY_INIT) || config.port_map.len() == 0 {
        return Some(Ok(()));
    }
    let access = ask_vm(
        d,
        VmRequest::BootstrapGateway {
            name: config.gateway_name.clone(),
            port: config.gateway_port,
        },
    )?;
    if !access.ok {
        return Some(Err(passed_on_error(access)));
    }
    let ready = ask_vm(
        d,
        VmRequest::WaitGatewayReady {
            port: config.gateway_port,
            name: config.gateway_name.clone(),
        },
    )?;
    if !ready.ok {
        return Some(Err(passed_on_error(ready)));
    }
    Some(Ok(()))
}

fn make_reachable(d: &mut VmDialogue, config: &VmConfig, proxy: &Option<GvproxySetup>) -> (r:
    Option<Result<(), VmError>>)
    requires
        old(d)@.live(),
    ensures
        final(d)@ == reach_run(old(d)@, config@, proxy_view(*proxy)).0,
        r is Some <==> final(d)@.live(),
        r is Some ==> launched(r->0) == reach_run(old(d)@, config@, proxy_view(*proxy)).1,
{
    match proxy {
        Some(setup) => {
            match setup_gvproxy_port_forwarding(d, setup.api_sock.as_str(), &config.port_map) {
                Some(Ok(())) => {},
                Some(Err(e)) => {
                    return Some(Err(e));
                },
                None => {
                    return None;
                },
            }
        },
        None => {},
    }
    open_gateway(d, config)
}

fn finish(d: &mut VmDialogue, config: &VmConfig, pid: i32, proxy: &Option<GvproxySetup>) -> (r:
    Option<Result<i32, VmError>>)
    ensures
        final(d)@ == finish_run(old(d)@, config@, pid, proxy_view(*proxy)).0,
        r is Some <==> final(d)@.live(),
        r is Some ==> launched(r->0) == finish_run(
            old(d)@,
            config@,
            pid,
            proxy_view(*proxy),
        ).1,
{
    let _ = ask_vm(d, VmRequest::ForwardSignals { pid });
    let ended = ask_vm(d, VmRequest::WaitChild { pid })?;
    if same(config.exec_path.as_str(), GATEWAY_INIT) {
        let _ = ask_vm(d, VmRequest::ClearRuntimeState);
    }
    stop_proxy(d, proxy);
    let code: i32 = decode_wait_status(ended.code);
    stopped(d, Ok(code))
}

fn boot(d: &mut VmDialogue, ctx: u32, config: &VmConfig, proxy: &Option<GvproxySetup>) -> (r:
    Option<Result<i32, VmError>>)
    requires
        old(d)@.live(),
    ensures
        final(d)@ == boot_run(old(d)@, ctx, config@, proxy_view(*proxy)).0,
        r is Some <==> final(d)@.live(),
        r is Some ==> launched(r->0) == boot_run(old(d)@, ctx, config@, proxy_view(*proxy)).1,
{
    let booted = ask_vm(d, VmRequest::Boot { ctx })?;
    if !booted.ok {
        stop_proxy(d, proxy);
        return stopped(d, Err(VmError::Fork { message: booted.text }));
    }
    let pid: i32 = booted.code;
    match describe(d, config, pid, proxy) {
        Some(Ok(())) => {},
        Some(Err(e)) => {
            return Some(Err(e));
        },
        None => {
            return None;
        },
    }
    match make_reachable(d, config, proxy) {
        Some(Ok(())) => {},
        Some(Err(e)) => {
            stop_proxy(d, proxy);
            return stopped(d, Err(e));
        },
        None => {
            return None;
        },
    }
    finish(d, config, pid, proxy)
}

proof fn lemma_program_waits(t: VmTranscript, ctx: u32, config: VmView)
    ensures
        !t.live() ==> program_run(t, ctx, config).0 == t,
{
    lemma_vsock_waits(t, ctx, config.vsock_ports, 0);
}

proof fn lemma_boot_waits(t: VmTranscript, ctx: u32, config: VmView, proxy: Option<ProxyView>)
    ensures
        !t.live() ==> boot_run(t, ctx, config, proxy).0 == t,
{
}

fn run_in_context(d: &mut VmDialogue, ctx: u32, config: &VmConfig) -> (r: Option<
    Result<i32, VmError>,
>)
    requires
        old(d)@.live(),
    ensures
        final(d)@ == with_context_run(old(d)@, ctx, config@).0,
        r is Some <==> final(d)@.live(),
        r is Some ==> launched(r->0) == with_context_run(old(d)@, ctx, config@).1,
{
    match set_up(d, ctx, config) {
        Some(Ok(())) => {},
        Some(Err(e)) => {
            return Some(Err(e));
        },
        None => {
            return None;
        },
    }
    let ghost at = d@;
    let proxy = match connect(d, ctx, config) {
        Some(Ok(proxy)) => proxy,
        Some(Err(e)) => {
            return Some(Err(e));
        },
        None => {
            proof {
                lemma_program_waits(d@, ctx, config@);
                match net_run(at, ctx, config@).1 {
                    Ok(proxy) => {
                        lemma_boot_waits(d@, ctx, config@, proxy);
                    },
                    Err(_) => {},
                }
            }
            return None;
        },
    };
    match set_program(d, ctx, config) {
        Some(Ok(())) => {},
        Some(Err(e)) => {
            stop_proxy(d, &proxy);
            return stopped(d, Err(e));
        },
        None => {
            proof {
                lemma_boot_waits(d@, ctx, config@, proxy_view(proxy));
            }
            return None;
        },
    }
    boot(d, ctx, config, &proxy)
}

/// A way to run virtual machines.
pub trait VmBackend {
    /// Launches a machine and gives its exit code.
    fn launch(&self, config: &VmConfig, d: &mut VmDialogue) -> Option<Result<i32, VmError>>;
}

/// Runs machines with the libkrun library.
#[derive(Debug)]
pub struct LibkrunBackend;

impl VmBackend for LibkrunBackend {
    fn launch(&self, config: &VmConfig, d: &mut VmDialogue) -> (r: Option<Result<i32, VmError>>)
        ensures
            final(d)@ == launch_run(old(d)@, config@).0,
            r is Some <==> final(d)@.live(),
            r is Some ==> launched(r->0) == launch_run(old(d)@, config@).1,
    {
        launch_libkrun(config, d)
    }
}

/// Launches a machine, stays with it to its end and gives its exit code.
pub fn launch_libkrun(config: &VmConfig, d: &mut VmDialogue) -> (r: Option<Result<i32, VmError>>)
    ensures
        final(d)@ == launch_run(old(d)@, config@).0,
        r is Some <==> final(d)@.live(),
        r is Some ==> launched(r->0) == launch_run(old(d)@, config@).1,
{
    let ctx = match create_context(d, config.log_level) {
        Some(Ok(ctx)) => ctx,
        Some(Err(e)) => {
            return Some(Err(e));
        },
        None => {
            return None;
        },
    };
    match run_in_context(d, ctx, config) {
        Some(r) => {
            let _ = ask_vm(d, VmRequest::FreeContext { ctx });
            stopped(d, r)
        },
        None => None,
    }
}

} // verus!
