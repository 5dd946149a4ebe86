//! What a launch asks for, request by request, and what a machine that was launched has.

use vstd::prelude::*;

use crate::dialogue::{asks_only, lemma_asks_on, lemma_asks_one};
use crate::paths::{joined_path, parent_path};
use crate::vm::config::{HostOs, NetView, VmView, VsockView};
use crate::vm::gvproxy::{
    expose_body, expose_run, forward_each_run, forward_run, free_ports_run, mapped_ports,
    next_pause, proxy_run, proxy_spawn_run, run_dir, wait_socket_run, ProxyView, API_DEADLINE_NANOS,
    EXPOSE_DEADLINE_NANOS, PROXY_DEADLINE_NANOS,
};
use crate::vm::host::{vm_answer, VmRequestView, VmTranscript};
use crate::vm::libkrun::{
    base_env, boot_run, console_path, context_run, describe_run, finish_run, gateway_run, guest_env,
    krun_run, krun_texts_run, launch_run, maybe_disk_run, names_disk, net_device_run, net_run,
    port_map_run, program_run, reach_run, setup_run, socket_dir_run, stop_run, vsock_off_run,
    vsock_run, with_context_run,
};
use crate::vm::network::{law_only_mapped_ports_are_forwarded, lemma_wait_asks, only_mapped};
use crate::vm::replay::go_wait_socket;

verus! {

/// A file of a machine that is kept beside its root file system.
pub open spec fn beside(rootfs: Seq<char>, name: Seq<char>) -> Seq<char> {
    match parent_path(rootfs) {
        Some(dir) => joined_path(dir, name),
        None => joined_path(rootfs, name),
    }
}

/// Where the console of a machine is logged: where it is configured, or beside its root
/// file system.
pub open spec fn console_file(config: VmView) -> Seq<char> {
    match config.console_output {
        Some(path) => path,
        None => beside(config.rootfs, config.rootfs_key + "-console.log"@),
    }
}

/// An environment says already where the state disk is.
pub open spec fn says_device(env: Seq<Seq<char>>) -> bool {
    exists|i: int|
        0 <= i < env.len() && "OPENSHELL_VM_STATE_DISK_DEVICE="@.is_prefix_of(#[trigger] env[i])
}

/// The environment of the program of a machine: what was given, or three variables that
/// every program needs; then where the state disk is, where there is one and nobody has
/// said; then that there is a GPU, where there is.
pub open spec fn program_env(config: VmView) -> Seq<Seq<char>> {
    let base = if config.env.len() > 0 {
        config.env
    } else {
        seq![
            "HOME=/root"@,
            "PATH=/usr/local/sbin:/usr/local/bin:/usr/sbin:/usr/bin:/sbin:/bin"@,
            "TERM=xterm"@,
        ]
    };
    let disk = match config.state_disk {
        Some(disk) => if says_device(base) {
            Seq::empty()
        } else {
            seq!["OPENSHELL_VM_STATE_DISK_DEVICE="@ + disk.guest_device]
        },
        None => Seq::empty(),
    };
    let gpu = if config.gpu_enabled {
        seq!["GPU_ENABLED=true"@]
    } else {
        Seq::empty()
    };
    base + disk + gpu
}

/// `q` asks for what the machine is configured with, and for its context.
pub open spec fn fits(config: VmView, ctx: u32, q: VmRequestView) -> bool {
    let gateway = config.exec_path == "/srv/openshell-vm-init.sh"@;
    match q {
        VmRequestView::SetVmConfig { ctx: c, vcpus, mem_mib } => {
            c == ctx && vcpus == config.vcpus && mem_mib == config.mem_mib
        },
        VmRequestView::SetRoot { ctx: c, path } => c == ctx && path == config.rootfs,
        VmRequestView::AddDisk { ctx: c, block_id, path } => {
            &&& c == ctx
            &&& config.state_disk is Some
            &&& block_id == config.state_disk->0.block_id
            &&& path == config.state_disk->0.path
        },
        VmRequestView::SetWorkdir { ctx: c, path } => c == ctx && path == config.workdir,
        VmRequestView::DisableImplicitVsock { ctx: c } => c == ctx && !(config.net is Tsi),
        VmRequestView::AddVsock { ctx: c, features } => {
            c == ctx && features == 0 && !(config.net is Tsi)
        },
        VmRequestView::AddNetUnixstream { ctx: c, mac, features, .. } => {
            &&& c == ctx
            &&& config.net is Gvproxy
            &&& config.host_os == HostOs::Linux
            &&& mac == seq![0x5au8, 0x94u8, 0xefu8, 0xe4u8, 0x0cu8, 0xeeu8]
            &&& features == 0x4c83
        },
        VmRequestView::AddNetUnixgram { ctx: c, mac, features, flags, .. } => {
            &&& c == ctx
            &&& config.net is Gvproxy
            &&& config.host_os != HostOs::Linux
            &&& mac == seq![0x5au8, 0x94u8, 0xefu8, 0xe4u8, 0x0cu8, 0xeeu8]
            &&& features == 0x4c83
            &&& flags == 1
        },
        VmRequestView::SetPortMap { ctx: c, ports } => {
            &&& c == ctx
            &&& config.net is Tsi
            &&& config.port_map.len() > 0
            &&& ports == config.port_map
        },
        VmRequestView::AddVsockPort { ctx: c, guest_port, socket, listen } => {
            c == ctx && config.vsock_ports.contains(
                VsockView { port: guest_port, socket_path: socket, listen },
            )
        },
        VmRequestView::SetConsoleOutput { ctx: c, path } => c == ctx && path == console_file(
            config,
        ),
        VmRequestView::SetExec { ctx: c, program, args, env } => {
            &&& c == ctx
            &&& program == config.exec_path
            &&& args == config.args
            &&& env == program_env(config)
        },
        VmRequestView::CreateLog { path } => path == beside(
            config.rootfs,
            config.rootfs_key + "-gvproxy.log"@,
        ),
        VmRequestView::SpawnProxy { program, .. } => config.net == (NetView::Gvproxy {
            binary: program,
        }),
        VmRequestView::ExposePort { socket, .. } => only_mapped(socket, config.port_map)(q),
        VmRequestView::Boot { ctx: c } => c == ctx,
        VmRequestView::WriteRuntimeState { console_log, .. } => gateway && console_log
            == console_file(config),
        VmRequestView::ClearRuntimeState => gateway,
        VmRequestView::TerminateMachine { .. } => gateway,
        VmRequestView::BootstrapGateway { name, port } => {
            gateway && config.port_map.len() > 0 && name == config.gateway_name && port
                == config.gateway_port
        },
        VmRequestView::WaitGatewayReady { port, name } => {
            gateway && config.port_map.len() > 0 && name == config.gateway_name && port
                == config.gateway_port
        },
        VmRequestView::FreeContext { ctx: c } => c == ctx,
        VmRequestView::LoadLibrary => false,
        VmRequestView::InitLog { .. } => false,
        VmRequestView::CreateContext => false,
        _ => true,
    }
}

pub open spec fn fitting(config: VmView, ctx: u32) -> spec_fn(VmRequestView) -> bool {
    |q: VmRequestView| fits(config, ctx, q)
}

proof fn lemma_texts_fit(
    t: VmTranscript,
    list: Seq<Seq<char>>,
    q: VmRequestView,
    func: Seq<char>,
    p: spec_fn(VmRequestView) -> bool,
)
    requires
        p(q),
    ensures
        asks_only(t, krun_texts_run(t, list, q, func).0, p),
        asks_only(t, krun_run(t, q, func).0, p),
{
    lemma_asks_one(t, q, p);
}

proof fn lemma_setup_fits(t: VmTranscript, ctx: u32, config: VmView)
    ensures
        asks_only(t, setup_run(t, ctx, config).0, fitting(config, ctx)),
{
    let p = fitting(config, ctx);
    let u = setup_run(t, ctx, config).0;
    let q1 = VmRequestView::SetVmConfig { ctx, vcpus: config.vcpus, mem_mib: config.mem_mib };
    let q2 = VmRequestView::SetRoot { ctx, path: config.rootfs };
    let q4 = VmRequestView::SetWorkdir { ctx, path: config.workdir };
    let (t1, r1) = krun_run(t, q1, "krun_set_vm_config"@);
    lemma_texts_fit(t, Seq::empty(), q1, "krun_set_vm_config"@, p);
    if r1 is Ok {
        let (t2, r2) = krun_texts_run(t1, seq![config.rootfs], q2, "krun_set_root"@);
        lemma_texts_fit(t1, seq![config.rootfs], q2, "krun_set_root"@, p);
        lemma_asks_on(t, t1, t2, p);
        if r2 is Ok {
            let (t3, r3) = maybe_disk_run(t2, ctx, config.state_disk);
            lemma_disk_fits(t2, ctx, config);
            lemma_asks_on(t, t2, t3, p);
            if r3 is Ok {
                lemma_texts_fit(t3, seq![config.workdir], q4, "krun_set_workdir"@, p);
                lemma_asks_on(t, t3, u, p);
            }
        }
    }
}

proof fn lemma_disk_fits(t: VmTranscript, ctx: u32, config: VmView)
    ensures
        asks_only(t, maybe_disk_run(t, ctx, config.state_disk).0, fitting(config, ctx)),
{
    let p = fitting(config, ctx);
    match config.state_disk {
        Some(disk) => {
            let t1 = t.ask(VmRequestView::HasAddDisk);
            let q = VmRequestView::AddDisk { ctx, block_id: disk.block_id, path: disk.path };
            let list = seq![disk.block_id, disk.path];
            lemma_asks_one(t, VmRequestView::HasAddDisk, p);
            lemma_texts_fit(t1, list, q, "krun_add_disk3"@, p);
            lemma_asks_on(t, t1, krun_texts_run(t1, list, q, "krun_add_disk3"@).0, p);
        },
        None => {},
    }
}

proof fn lemma_vsock_off_fits(t: VmTranscript, ctx: u32, config: VmView)
    requires
        !(config.net is Tsi),
    ensures
        asks_only(t, vsock_off_run(t, ctx).0, fitting(config, ctx)),
{
    let p = fitting(config, ctx);
    let q1 = VmRequestView::DisableImplicitVsock { ctx };
    let q2 = VmRequestView::AddVsock { ctx, features: 0 };
    let t1 = krun_run(t, q1, "krun_disable_implicit_vsock"@).0;
    lemma_texts_fit(t, Seq::empty(), q1, "krun_disable_implicit_vsock"@, p);
    lemma_texts_fit(t1, Seq::empty(), q2, "krun_add_vsock"@, p);
    lemma_asks_on(t, t1, krun_run(t1, q2, "krun_add_vsock"@).0, p);
}

pub proof fn lemma_features()
    ensures
        crate::vm::libkrun::COMPAT_NET_FEATURES == 0x4c83,
{
    assert(1u32 | 2u32 | 128u32 | 1024u32 | 2048u32 | 16384u32 == 0x4c83u32) by (bit_vector);
}

proof fn lemma_device_fits(t: VmTranscript, ctx: u32, config: VmView, socket: Seq<char>)
    requires
        config.net is Gvproxy,
    ensures
        asks_only(t, net_device_run(t, ctx, config.host_os, socket).0, fitting(config, ctx)),
{
    let p = fitting(config, ctx);
    lemma_features();
    let (t1, r) = vsock_off_run(t, ctx);
    lemma_vsock_off_fits(t, ctx, config);
    let features = crate::vm::libkrun::COMPAT_NET_FEATURES;
    let mac = crate::vm::libkrun::guest_mac();
    if r is Ok {
        if config.host_os == HostOs::Linux {
            let q = VmRequestView::AddNetUnixstream { ctx, socket, mac, features };
            lemma_texts_fit(t1, seq![socket], q, "krun_add_net_unixstream"@, p);
            lemma_asks_on(
                t,
                t1,
                krun_texts_run(t1, seq![socket], q, "krun_add_net_unixstream"@).0,
                p,
            );
        } else {
            let q = VmRequestView::AddNetUnixgram { ctx, socket, mac, features, flags: 1 };
            lemma_texts_fit(t1, seq![socket], q, "krun_add_net_unixgram"@, p);
            lemma_asks_on(
                t,
                t1,
                krun_texts_run(t1, seq![socket], q, "krun_add_net_unixgram"@).0,
                p,
            );
        }
    }
}

proof fn lemma_free_ports_fit(
    t: VmTranscript,
    ports: Seq<Seq<char>>,
    i: nat,
    config: VmView,
    ctx: u32,
)
    ensures
        asks_only(t, free_ports_run(t, ports, i), fitting(config, ctx)),
    decreases ports.len() - i,
{
    let p = fitting(config, ctx);
    if i < ports.len() {
        match crate::text::unsigned_value(
            crate::text::split_on(ports[i as int], ':')[0],
            65535,
        ) {
            Some(port) => {
                let q = VmRequestView::KillStaleProxyByPort { port: port as u16 };
                lemma_asks_one(t, q, p);
                lemma_free_ports_fit(t.ask(q), ports, i + 1, config, ctx);
                lemma_asks_on(t, t.ask(q), free_ports_run(t.ask(q), ports, i + 1), p);
            },
            None => {
                lemma_free_ports_fit(t, ports, i + 1, config, ctx);
            },
        }
    }
}

proof fn lemma_spawn_fits(
    t: VmTranscript,
    config: VmView,
    binary: Seq<char>,
    base: Seq<char>,
    ctx: u32,
)
    requires
        config.net == (NetView::Gvproxy { binary }),
    ensures
        asks_only(t, proxy_spawn_run(t, config, binary, base).0, fitting(config, ctx)),
{
    let p = fitting(config, ctx);
    let u = proxy_spawn_run(t, config, binary, base).0;
    let net_sock = crate::paths::path_with_extension(base, "v"@);
    let api_sock = crate::paths::path_with_extension(base, "a"@);
    let t1 = t.ask(VmRequestView::PickSshPort);
    lemma_asks_one(t, VmRequestView::PickSshPort, p);
    let log = VmRequestView::CreateLog {
        path: joined_path(run_dir(config.rootfs), config.rootfs_key + "-gvproxy.log"@),
    };
    let t2 = t1.ask(log);
    lemma_asks_one(t1, log, p);
    lemma_asks_on(t, t1, t2, p);
    let q = VmRequestView::SpawnProxy {
        program: binary,
        args: crate::vm::gvproxy::proxy_args(
            config.host_os,
            net_sock,
            api_sock,
            vm_answer(t1).port,
        ),
    };
    let t3 = t2.ask(q);
    lemma_asks_one(t2, q, p);
    lemma_asks_on(t, t2, t3, p);
    let t4 = t3.ask(VmRequestView::Now);
    lemma_asks_one(t3, VmRequestView::Now, p);
    lemma_asks_on(t, t3, t4, p);
    let deadline = vm_answer(t4).nanos + PROXY_DEADLINE_NANOS;
    let t5 = wait_socket_run(t4, net_sock, deadline, 5, 100).0;
    go_wait_socket(t4, net_sock, deadline, 5, 100);
    lemma_wait_asks(t4, net_sock, deadline, 5, 100);
    assert(asks_only(t4, t5, p));
    lemma_asks_on(t, t4, t5, p);
}

proof fn lemma_proxy_fits(t: VmTranscript, config: VmView, ctx: u32)
    ensures
        asks_only(t, proxy_run(t, config).0, fitting(config, ctx)),
{
    let p = fitting(config, ctx);
    match config.net {
        NetView::Gvproxy { binary } => {
            let q1 = VmRequestView::Exists { path: binary };
            let t1 = t.ask(q1);
            let t2 = t1.ask(VmRequestView::SocketBase);
            let base = vm_answer(t2).text;
            let t3 = t2.ask(VmRequestView::KillStaleProxy);
            let t4 = free_ports_run(t3, config.port_map, 0);
            let q5 = VmRequestView::RemoveFile {
                path: crate::paths::path_with_extension(base, "v"@),
            };
            let q6 = VmRequestView::RemoveFile {
                path: crate::paths::path_with_extension(base, "a"@),
            };
            let q7 = VmRequestView::RemoveFile {
                path: crate::paths::path_with_extension(base, "v-krun.sock"@),
            };
            lemma_asks_one(t, q1, p);
            lemma_asks_one(t1, VmRequestView::SocketBase, p);
            lemma_asks_on(t, t1, t2, p);
            lemma_asks_one(t2, VmRequestView::KillStaleProxy, p);
            lemma_asks_on(t, t2, t3, p);
            lemma_free_ports_fit(t3, config.port_map, 0, config, ctx);
            lemma_asks_on(t, t3, t4, p);
            lemma_asks_one(t4, q5, p);
            lemma_asks_on(t, t4, t4.ask(q5), p);
            lemma_asks_one(t4.ask(q5), q6, p);
            lemma_asks_on(t, t4.ask(q5), t4.ask(q5).ask(q6), p);
            let t7 = t4.ask(q5).ask(q6).ask(q7);
            lemma_asks_one(t4.ask(q5).ask(q6), q7, p);
            lemma_asks_on(t, t4.ask(q5).ask(q6), t7, p);
            lemma_spawn_fits(t7, config, binary, base, ctx);
            lemma_asks_on(t, t7, proxy_spawn_run(t7, config, binary, base).0, p);
        },
        _ => {},
    }
}

proof fn lemma_net_fits(t: VmTranscript, ctx: u32, config: VmView)
    ensures
        asks_only(t, net_run(t, ctx, config).0, fitting(config, ctx)),
{
    let p = fitting(config, ctx);
    match config.net {
        NetView::Tsi => {},
        NetView::Disabled => {
            lemma_vsock_off_fits(t, ctx, config);
        },
        NetView::Gvproxy { .. } => {
            let (t1, started) = proxy_run(t, config);
            lemma_proxy_fits(t, config, ctx);
            if started is Ok {
                let proxy = started->Ok_0;
                let t2 = net_device_run(t1, ctx, config.host_os, proxy.net_sock).0;
                lemma_device_fits(t1, ctx, config, proxy.net_sock);
                lemma_asks_on(t, t1, t2, p);
                lemma_asks_one(t2, VmRequestView::StopProxy, p);
                lemma_asks_on(t, t2, t2.ask(VmRequestView::StopProxy), p);
            }
        },
    }
}

proof fn lemma_vsock_fits(t: VmTranscript, ctx: u32, config: VmView, i: nat)
    ensures
        asks_only(t, vsock_run(t, ctx, config.vsock_ports, i).0, fitting(config, ctx)),
    decreases config.vsock_ports.len() - i,
{
    let p = fitting(config, ctx);
    let ports = config.vsock_ports;
    if i < ports.len() {
        let port = ports[i as int];
        let (t1, r1) = socket_dir_run(t, port.socket_path);
        match parent_path(port.socket_path) {
            Some(dir) => {
                lemma_asks_one(t, VmRequestView::CreateDirAll { path: dir }, p);
            },
            None => {},
        }
        if r1 is Ok {
            let q = VmRequestView::RemoveFile { path: port.socket_path };
            let t2 = t1.ask(q);
            lemma_asks_one(t1, q, p);
            lemma_asks_on(t, t1, t2, p);
            let add = VmRequestView::AddVsockPort {
                ctx,
                guest_port: port.port,
                socket: port.socket_path,
                listen: port.listen,
            };
            assert(ports.contains(port));
            let list = seq![port.socket_path];
            let (t3, r3) = krun_texts_run(t2, list, add, "krun_add_vsock_port2"@);
            lemma_texts_fit(t2, list, add, "krun_add_vsock_port2"@, p);
            lemma_asks_on(t, t2, t3, p);
            if r3 is Ok {
                lemma_vsock_fits(t3, ctx, config, i + 1);
                lemma_asks_on(t, t3, vsock_run(t3, ctx, ports, i + 1).0, p);
            }
        }
    }
}

pub proof fn lemma_env(config: VmView)
    ensures
        guest_env(config) == program_env(config),
        console_path(config) == console_file(config),
{
    assert(names_disk(base_env(config.env)) == says_device(base_env(config.env)));
    assert(guest_env(config) =~= program_env(config));
}

proof fn lemma_program_fits(t: VmTranscript, ctx: u32, config: VmView)
    ensures
        asks_only(t, program_run(t, ctx, config).0, fitting(config, ctx)),
{
    let p = fitting(config, ctx);
    lemma_env(config);
    let u = program_run(t, ctx, config).0;
    let (t1, r1) = port_map_run(t, ctx, config);
    let q1 = VmRequestView::SetPortMap { ctx, ports: config.port_map };
    if config.net is Tsi && config.port_map.len() > 0 {
        lemma_texts_fit(t, config.port_map, q1, "krun_set_port_map"@, p);
    }
    if r1 is Ok {
        let (t2, r2) = vsock_run(t1, ctx, config.vsock_ports, 0);
        lemma_vsock_fits(t1, ctx, config, 0);
        lemma_asks_on(t, t1, t2, p);
        if r2 is Ok {
            let path = console_path(config);
            let q3 = VmRequestView::SetConsoleOutput { ctx, path };
            let (t3, r3) = krun_texts_run(t2, seq![path], q3, "krun_set_console_output"@);
            lemma_texts_fit(t2, seq![path], q3, "krun_set_console_output"@, p);
            lemma_asks_on(t, t2, t3, p);
            if r3 is Ok {
                let q4 = VmRequestView::SetExec {
                    ctx,
                    program: config.exec_path,
                    args: config.args,
                    env: guest_env(config),
                };
                let list = seq![config.exec_path] + config.args + guest_env(config);
                lemma_texts_fit(t3, list, q4, "krun_set_exec"@, p);
                lemma_asks_on(t, t3, u, p);
            }
        }
    }
}

proof fn lemma_stop_fits(
    t: VmTranscript,
    proxy: Option<ProxyView>,
    config: VmView,
    ctx: u32,
)
    ensures
        asks_only(t, stop_run(t, proxy), fitting(config, ctx)),
{
    lemma_asks_one(t, VmRequestView::StopProxy, fitting(config, ctx));
}

proof fn lemma_forward_fits(
    t: VmTranscript,
    socket: Seq<char>,
    config: VmView,
    ctx: u32,
)
    ensures
        asks_only(t, forward_run(t, socket, config.port_map).0, fitting(config, ctx)),
{
    let p = fitting(config, ctx);
    let u = forward_run(t, socket, config.port_map).0;
    law_only_mapped_ports_are_forwarded(t, socket, config.port_map);
    lemma_forward_asks(t, socket, config.port_map);
    let mapped = only_mapped(socket, config.port_map);
    let way = forwards(socket);
    assert forall|k: int| t.asked.len() <= k < u.asked.len() implies p(#[trigger] u.asked[k]) by {
        assert(mapped(u.asked[k]));
        assert(way(u.asked[k]));
    }
}

/// A request that is made while the ports are forwarded over `socket`.
spec fn forwards(socket: Seq<char>) -> spec_fn(VmRequestView) -> bool {
    |q: VmRequestView|
        match q {
            VmRequestView::Exists { .. } => true,
            VmRequestView::Now => true,
            VmRequestView::Sleep { .. } => true,
            VmRequestView::ExposePort { socket: s, .. } => s == socket,
            _ => false,
        }
}

proof fn lemma_forward_asks(t: VmTranscript, socket: Seq<char>, port_map: Seq<Seq<char>>)
    ensures
        asks_only(t, forward_run(t, socket, port_map).0, forwards(socket)),
{
    let p = forwards(socket);
    let t1 = t.ask(VmRequestView::Now);
    let deadline = vm_answer(t1).nanos + API_DEADLINE_NANOS;
    let t2 = wait_socket_run(t1, socket, deadline, 5, 200).0;
    go_wait_socket(t1, socket, deadline, 5, 200);
    lemma_wait_asks(t1, socket, deadline, 5, 200);
    lemma_asks_one(t, VmRequestView::Now, p);
    assert(asks_only(t1, t2, p));
    lemma_asks_on(t, t1, t2, p);
    lemma_each_asks(t2, socket, port_map, 0);
    lemma_asks_on(t, t2, forward_each_run(t2, socket, port_map, 0).0, p);
}

proof fn lemma_each_asks(t: VmTranscript, socket: Seq<char>, port_map: Seq<Seq<char>>, i: nat)
    ensures
        asks_only(t, forward_each_run(t, socket, port_map, i).0, forwards(socket)),
    decreases port_map.len() - i,
{
    let p = forwards(socket);
    if i < port_map.len() {
        match mapped_ports(port_map[i as int]) {
            None => {
                lemma_each_asks(t, socket, port_map, i + 1);
            },
            Some((h, g)) => {
                let t1 = t.ask(VmRequestView::Now);
                let deadline = vm_answer(t1).nanos + EXPOSE_DEADLINE_NANOS;
                let (t2, exposed) = expose_run(t1, socket, expose_body(h, g), deadline, 100);
                lemma_asks_one(t, VmRequestView::Now, p);
                lemma_expose_forwards(t1, socket, expose_body(h, g), deadline, 100);
                lemma_asks_on(t, t1, t2, p);
                if exposed {
                    lemma_each_asks(t2, socket, port_map, i + 1);
                    lemma_asks_on(t, t2, forward_each_run(t2, socket, port_map, i + 1).0, p);
                }
            },
        }
    }
}

proof fn lemma_expose_forwards(
    t: VmTranscript,
    socket: Seq<char>,
    body: Seq<char>,
    deadline: int,
    interval: u64,
)
    ensures
        asks_only(t, expose_run(t, socket, body, deadline, interval).0, forwards(socket)),
    decreases t.replies.len() + 1 - t.asked.len(),
{
    let p = forwards(socket);
    if t.live() {
        let q = VmRequestView::ExposePort { socket, body };
        let t1 = t.ask(q);
        let t2 = t1.ask(VmRequestView::Now);
        lemma_asks_one(t, q, p);
        lemma_asks_one(t1, VmRequestView::Now, p);
        lemma_asks_on(t, t1, t2, p);
        if !vm_answer(t1).ok && vm_answer(t2).nanos < deadline {
            let wait = VmRequestView::Sleep { millis: interval };
            let t3 = t2.ask(wait);
            let next = next_pause(interval, 1000);
            lemma_asks_one(t2, wait, p);
            lemma_asks_on(t, t2, t3, p);
            lemma_expose_forwards(t3, socket, body, deadline, next);
            lemma_asks_on(t, t3, expose_run(t3, socket, body, deadline, next).0, p);
        }
    }
}

proof fn lemma_boot_fits(t: VmTranscript, ctx: u32, config: VmView, proxy: Option<ProxyView>)
    ensures
        asks_only(t, boot_run(t, ctx, config, proxy).0, fitting(config, ctx)),
{
    let p = fitting(config, ctx);
    lemma_env(config);
    let t1 = t.ask(VmRequestView::Boot { ctx });
    lemma_asks_one(t, VmRequestView::Boot { ctx }, p);
    lemma_stop_fits(t1, proxy, config, ctx);
    lemma_asks_on(t, t1, stop_run(t1, proxy), p);
    let pid = vm_answer(t1).code;
    let (t2, described) = describe_run(t1, config, pid, proxy);
    lemma_describe_fits(t1, config, pid, proxy, ctx);
    lemma_asks_on(t, t1, t2, p);
    let (t3, reached) = reach_run(t2, config, proxy);
    lemma_reach_fits(t2, config, proxy, ctx);
    lemma_asks_on(t, t2, t3, p);
    lemma_stop_fits(t3, proxy, config, ctx);
    lemma_asks_on(t, t3, stop_run(t3, proxy), p);
    let t4 = finish_run(t3, config, pid, proxy).0;
    lemma_finish_fits(t3, config, pid, proxy, ctx);
    lemma_asks_on(t, t3, t4, p);
}

proof fn lemma_describe_fits(
    t: VmTranscript,
    config: VmView,
    pid: i32,
    proxy: Option<ProxyView>,
    ctx: u32,
)
    ensures
        asks_only(t, describe_run(t, config, pid, proxy).0, fitting(config, ctx)),
{
    let p = fitting(config, ctx);
    lemma_env(config);
    if config.exec_path == "/srv/openshell-vm-init.sh"@ {
        let q = VmRequestView::WriteRuntimeState {
            pid,
            console_log: console_path(config),
            proxy_pid: match proxy {
                Some(p) => Some(p.pid),
                None => None,
            },
        };
        let t1 = t.ask(q);
        lemma_asks_one(t, q, p);
        let q2 = VmRequestView::TerminateMachine { pid };
        let t2 = t1.ask(q2);
        lemma_asks_one(t1, q2, p);
        lemma_asks_on(t, t1, t2, p);
        let t3 = stop_run(t2, proxy);
        lemma_stop_fits(t2, proxy, config, ctx);
        lemma_asks_on(t, t2, t3, p);
        lemma_asks_one(t3, VmRequestView::ClearRuntimeState, p);
        lemma_asks_on(t, t3, t3.ask(VmRequestView::ClearRuntimeState), p);
    }
}

proof fn lemma_gateway_fits(t: VmTranscript, config: VmView, ctx: u32)
    ensures
        asks_only(t, gateway_run(t, config).0, fitting(config, ctx)),
{
    let p = fitting(config, ctx);
    if config.exec_path == "/srv/openshell-vm-init.sh"@ && config.port_map.len() > 0 {
        let q1 = VmRequestView::BootstrapGateway {
            name: config.gateway_name,
            port: config.gateway_port,
        };
        let q2 = VmRequestView::WaitGatewayReady {
            port: config.gateway_port,
            name: config.gateway_name,
        };
        lemma_asks_one(t, q1, p);
        lemma_asks_one(t.ask(q1), q2, p);
        lemma_asks_on(t, t.ask(q1), t.ask(q1).ask(q2), p);
    }
}

proof fn lemma_reach_fits(
    t: VmTranscript,
    config: VmView,
    proxy: Option<ProxyView>,
    ctx: u32,
)
    ensures
        asks_only(t, reach_run(t, config, proxy).0, fitting(config, ctx)),
{
    let p = fitting(config, ctx);
    match proxy {
        Some(proxy) => {
            let t1 = forward_run(t, proxy.api_sock, config.port_map).0;
            lemma_forward_fits(t, proxy.api_sock, config, ctx);
            lemma_gateway_fits(t1, config, ctx);
            lemma_asks_on(t, t1, gateway_run(t1, config).0, p);
        },
        None => {
            lemma_gateway_fits(t, config, ctx);
        },
    }
}

proof fn lemma_finish_fits(
    t: VmTranscript,
    config: VmView,
    pid: i32,
    proxy: Option<ProxyView>,
    ctx: u32,
)
    ensures
        asks_only(t, finish_run(t, config, pid, proxy).0, fitting(config, ctx)),
{
    let p = fitting(config, ctx);
    let q1 = VmRequestView::ForwardSignals { pid };
    let q2 = VmRequestView::WaitChild { pid };
    lemma_asks_one(t, q1, p);
    lemma_asks_one(t.ask(q1), q2, p);
    lemma_asks_on(t, t.ask(q1), t.ask(q1).ask(q2), p);
    let t2 = t.ask(q1).ask(q2);
    let t3 = if config.exec_path == "/srv/openshell-vm-init.sh"@ {
        lemma_asks_one(t2, VmRequestView::ClearRuntimeState, p);
        lemma_asks_on(t, t2, t2.ask(VmRequestView::ClearRuntimeState), p);
        t2.ask(VmRequestView::ClearRuntimeState)
    } else {
        t2
    };
    lemma_stop_fits(t3, proxy, config, ctx);
    lemma_asks_on(t, t3, stop_run(t3, proxy), p);
}

/// Everything that a launch asks for, once it has the context of its machine, is what the
/// machine is configured with: its size, its root file system, its disk, its network, its
/// sockets, its console, its program with arguments and environment, and its gateway, and
/// nothing is asked for another context.
pub proof fn law_launch_asks_for_what_is_configured(t: VmTranscript, config: VmView)
    requires
        context_run(t, config.log_level).1 is Ok,
    ensures
        ({
            let (made, r) = context_run(t, config.log_level);
            asks_only(made, launch_run(t, config).0, fitting(config, r->Ok_0))
        }),
{
    let (t1, made) = context_run(t, config.log_level);
    let ctx = made->Ok_0;
    let p = fitting(config, ctx);
    let (t2, r2) = setup_run(t1, ctx, config);
    lemma_setup_fits(t1, ctx, config);
    let end = with_context_run(t1, ctx, config).0;
    assert(asks_only(t1, end, p)) by {
        if r2 is Ok {
            let (t3, net) = net_run(t2, ctx, config);
            lemma_net_fits(t2, ctx, config);
            lemma_asks_on(t1, t2, t3, p);
            if net is Ok {
                let proxy = net->Ok_0;
                let (t4, r4) = program_run(t3, ctx, config);
                lemma_program_fits(t3, ctx, config);
                lemma_asks_on(t1, t3, t4, p);
                lemma_stop_fits(t4, proxy, config, ctx);
                lemma_asks_on(t1, t4, stop_run(t4, proxy), p);
                lemma_boot_fits(t4, ctx, config, proxy);
                lemma_asks_on(t1, t4, boot_run(t4, ctx, config, proxy).0, p);
            }
        }
    }
    lemma_asks_one(end, VmRequestView::FreeContext { ctx }, p);
    lemma_asks_on(t1, end, end.ask(VmRequestView::FreeContext { ctx }), p);
}

} // verus!
