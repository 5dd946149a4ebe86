//! What a machine has when it is booted, and how its end is told.

use vstd::prelude::*;

use crate::dialogue::{
    goes_on, group_in_step, lemma_asked_earlier, lemma_asked_now, lemma_asked_stays, was_asked,
};
use crate::vm::config::{HostOs, NetView, VmView, VsockView};
use crate::vm::exit::exit_code;
use crate::vm::gvproxy::{forward_run, proxy_run, ProxyView};
use crate::vm::host::{vm_answer, VmReplyView, VmRequestView, VmTranscript};
use crate::vm::libkrun::{
    boot_run, context_run, describe_run, finish_run, krun_run, krun_texts_run, launch_run,
    maybe_disk_run, net_run, port_map_run, program_run, reach_run, setup_run, socket_dir_run,
    vsock_off_run, vsock_run, with_context_run,
};
use crate::vm::network::{any_reply, done, forwarding, law_mapped_ports_are_forwarded, stands_for};
use crate::vm::replay::{
    go_boot, go_context, go_describe, go_disk, go_exec, go_finish, go_forward, go_gateway, go_krun,
    go_krun_texts, go_net, go_net_device, go_port_map, go_program, go_proxy, go_reach, go_setup,
    go_socket_dir, go_stop, go_vsock, go_vsock_off, go_with_context,
};
use crate::vm::requests::{console_file, lemma_env, lemma_features, program_env};

verus! {

/// A call into the library went well.
pub open spec fn fine() -> spec_fn(VmReplyView) -> bool {
    |a: VmReplyView| a.code >= 0
}

/// The machine ended with this wait status.
pub open spec fn ended_with(status: i32) -> spec_fn(VmReplyView) -> bool {
    |a: VmReplyView| a.code == status
}

proof fn lemma_call(
    t: VmTranscript,
    list: Seq<Seq<char>>,
    q: VmRequestView,
    func: Seq<char>,
)
    ensures
        krun_run(t, q, func).1 is Ok && krun_run(t, q, func).0.live() ==> was_asked(
            t,
            krun_run(t, q, func).0,
            q,
            fine(),
        ),
        krun_texts_run(t, list, q, func).1 is Ok && krun_texts_run(t, list, q, func).0.live()
            ==> was_asked(t, krun_texts_run(t, list, q, func).0, q, fine()),
{
    if t.ask(q).live() && vm_answer(t.ask(q)).code >= 0 {
        lemma_asked_now(t, q, fine());
    }
}

/// The machine has its size, its file systems and its working directory.
pub open spec fn is_sized(t: VmTranscript, v: VmTranscript, ctx: u32, config: VmView) -> bool {
    &&& was_asked(
        t,
        v,
        VmRequestView::SetVmConfig { ctx, vcpus: config.vcpus, mem_mib: config.mem_mib },
        fine(),
    )
    &&& was_asked(t, v, VmRequestView::SetRoot { ctx, path: config.rootfs }, fine())
    &&& config.state_disk is Some ==> was_asked(
        t,
        v,
        VmRequestView::AddDisk {
            ctx,
            block_id: config.state_disk->0.block_id,
            path: config.state_disk->0.path,
        },
        fine(),
    )
    &&& was_asked(t, v, VmRequestView::SetWorkdir { ctx, path: config.workdir }, fine())
}

#[verifier::rlimit(40)]
proof fn lemma_sized(t: VmTranscript, ctx: u32, config: VmView)
    requires
        setup_run(t, ctx, config).1 is Ok,
        setup_run(t, ctx, config).0.live(),
    ensures
        is_sized(t, setup_run(t, ctx, config).0, ctx, config),
{
    broadcast use {group_in_step, go_krun, go_krun_texts, lemma_asked_stays, lemma_asked_earlier};

    let q1 = VmRequestView::SetVmConfig { ctx, vcpus: config.vcpus, mem_mib: config.mem_mib };
    let q2 = VmRequestView::SetRoot { ctx, path: config.rootfs };
    let q4 = VmRequestView::SetWorkdir { ctx, path: config.workdir };
    let t1 = krun_run(t, q1, "krun_set_vm_config"@).0;
    let t2 = krun_texts_run(t1, seq![config.rootfs], q2, "krun_set_root"@).0;
    let t3 = maybe_disk_run(t2, ctx, config.state_disk).0;
    let u = setup_run(t, ctx, config).0;
    lemma_call(t, seq![], q1, "krun_set_vm_config"@);
    lemma_call(t1, seq![config.rootfs], q2, "krun_set_root"@);
    lemma_call(t3, seq![config.workdir], q4, "krun_set_workdir"@);
    assert(goes_on(t, t1) && goes_on(t1, t2) && goes_on(t3, u));
    match config.state_disk {
        Some(disk) => {
            let has = t2.ask(VmRequestView::HasAddDisk);
            let q3 = VmRequestView::AddDisk { ctx, block_id: disk.block_id, path: disk.path };
            go_disk(t2, ctx, disk);
            lemma_call(has, seq![disk.block_id, disk.path], q3, "krun_add_disk3"@);
            assert(goes_on(t2, has) && goes_on(has, t3));
        },
        None => {},
    }
    assert(goes_on(t2, t3) && t3.live());
}

/// The machine is connected as configured: over a network device at the socket of the
/// proxy, or not at all, or as the library does it by itself.
pub open spec fn is_connected(
    t: VmTranscript,
    v: VmTranscript,
    ctx: u32,
    config: VmView,
    proxy: Option<ProxyView>,
) -> bool {
    let mac = seq![0x5au8, 0x94u8, 0xefu8, 0xe4u8, 0x0cu8, 0xeeu8];
    &&& proxy is Some <==> config.net is Gvproxy
    &&& !(config.net is Tsi) ==> was_asked(
        t,
        v,
        VmRequestView::DisableImplicitVsock { ctx },
        fine(),
    ) && was_asked(t, v, VmRequestView::AddVsock { ctx, features: 0 }, fine())
    &&& config.net is Gvproxy && config.host_os == HostOs::Linux ==> was_asked(
        t,
        v,
        VmRequestView::AddNetUnixstream {
            ctx,
            socket: proxy->0.net_sock,
            mac,
            features: 0x4c83,
        },
        fine(),
    )
    &&& config.net is Gvproxy && config.host_os != HostOs::Linux ==> was_asked(
        t,
        v,
        VmRequestView::AddNetUnixgram {
            ctx,
            socket: proxy->0.net_sock,
            mac,
            features: 0x4c83,
            flags: 1,
        },
        fine(),
    )
}

proof fn lemma_no_vsock(t: VmTranscript, ctx: u32)
    requires
        vsock_off_run(t, ctx).1 is Ok,
        vsock_off_run(t, ctx).0.live(),
    ensures
        was_asked(
            t,
            vsock_off_run(t, ctx).0,
            VmRequestView::DisableImplicitVsock { ctx },
            fine(),
        ),
        was_asked(
            t,
            vsock_off_run(t, ctx).0,
            VmRequestView::AddVsock { ctx, features: 0 },
            fine(),
        ),
{
    broadcast use {group_in_step, go_krun, lemma_asked_stays, lemma_asked_earlier};

    let q1 = VmRequestView::DisableImplicitVsock { ctx };
    let q2 = VmRequestView::AddVsock { ctx, features: 0 };
    let t1 = krun_run(t, q1, "krun_disable_implicit_vsock"@).0;
    let u = vsock_off_run(t, ctx).0;
    lemma_call(t, seq![], q1, "krun_disable_implicit_vsock"@);
    lemma_call(t1, seq![], q2, "krun_add_vsock"@);
    assert(goes_on(t, t1) && goes_on(t1, u));
}

#[verifier::rlimit(40)]
proof fn lemma_connected(t: VmTranscript, ctx: u32, config: VmView)
    requires
        net_run(t, ctx, config).1 is Ok,
        net_run(t, ctx, config).0.live(),
    ensures
        is_connected(
            t,
            net_run(t, ctx, config).0,
            ctx,
            config,
            net_run(t, ctx, config).1->Ok_0,
        ),
        config.net is Gvproxy ==> proxy_run(t, config).1 is Ok && net_run(t, ctx, config).1->Ok_0
            == Some(proxy_run(t, config).1->Ok_0),
{
    broadcast use {
        group_in_step,
        go_krun_texts,
        go_vsock_off,
        go_proxy,
        go_net_device,
        lemma_asked_stays,
        lemma_asked_earlier,
    };

    let u = net_run(t, ctx, config).0;
    match config.net {
        NetView::Tsi => {},
        NetView::Disabled => {
            lemma_no_vsock(t, ctx);
        },
        NetView::Gvproxy { .. } => {
            lemma_features();
            let (t1, started) = proxy_run(t, config);
            let socket = started->Ok_0.net_sock;
            let t2 = vsock_off_run(t1, ctx).0;
            let mac = crate::vm::libkrun::guest_mac();
            let features = 0x4c83;
            assert(goes_on(t, t1) && goes_on(t1, t2) && goes_on(t2, u) && goes_on(t1, u));
            lemma_no_vsock(t1, ctx);
            lemma_call(
                t2,
                seq![socket],
                VmRequestView::AddNetUnixstream { ctx, socket, mac, features },
                "krun_add_net_unixstream"@,
            );
            lemma_call(
                t2,
                seq![socket],
                VmRequestView::AddNetUnixgram { ctx, socket, mac, features, flags: 1 },
                "krun_add_net_unixgram"@,
            );
        },
    }
}

/// The request that connects a port of a machine to its socket.
pub open spec fn connecting(ctx: u32, port: VsockView) -> VmRequestView {
    VmRequestView::AddVsockPort {
        ctx,
        guest_port: port.port,
        socket: port.socket_path,
        listen: port.listen,
    }
}

/// The machine has its ports, its console and its program.
pub open spec fn is_programmed(
    t: VmTranscript,
    v: VmTranscript,
    ctx: u32,
    config: VmView,
) -> bool {
    &&& config.net is Tsi && config.port_map.len() > 0 ==> was_asked(
        t,
        v,
        VmRequestView::SetPortMap { ctx, ports: config.port_map },
        fine(),
    )
    &&& forall|j: int|
        0 <= j < config.vsock_ports.len() ==> was_asked(
            t,
            v,
            connecting(ctx, #[trigger] config.vsock_ports[j]),
            fine(),
        ) && was_asked(
            t,
            v,
            VmRequestView::RemoveFile { path: config.vsock_ports[j].socket_path },
            any_reply(),
        )
    &&& was_asked(
        t,
        v,
        VmRequestView::SetConsoleOutput { ctx, path: console_file(config) },
        fine(),
    )
    &&& was_asked(
        t,
        v,
        VmRequestView::SetExec {
            ctx,
            program: config.exec_path,
            args: config.args,
            env: program_env(config),
        },
        fine(),
    )
}

#[verifier::rlimit(40)]
proof fn lemma_ports_connected(
    t: VmTranscript,
    ctx: u32,
    ports: Seq<VsockView>,
    i: nat,
    j: int,
)
    requires
        i <= j < ports.len(),
        vsock_run(t, ctx, ports, i).1 is Ok,
        vsock_run(t, ctx, ports, i).0.live(),
    ensures
        was_asked(t, vsock_run(t, ctx, ports, i).0, connecting(ctx, ports[j]), fine()),
        was_asked(
            t,
            vsock_run(t, ctx, ports, i).0,
            VmRequestView::RemoveFile { path: ports[j].socket_path },
            any_reply(),
        ),
    decreases ports.len() - i,
{
    broadcast use {
        group_in_step,
        go_krun_texts,
        go_socket_dir,
        lemma_asked_stays,
        lemma_asked_earlier,
    };

    let p = ports[i as int];
    let t1 = socket_dir_run(t, p.socket_path).0;
    let t2 = t1.ask(VmRequestView::RemoveFile { path: p.socket_path });
    let list = seq![p.socket_path];
    let t3 = krun_texts_run(t2, list, connecting(ctx, p), "krun_add_vsock_port2"@).0;
    let u = vsock_run(t, ctx, ports, i).0;
    go_vsock(t3, ctx, ports, i + 1);
    assert(goes_on(t, t1) && goes_on(t1, t2) && goes_on(t2, t3) && goes_on(t3, u));
    lemma_call(t2, list, connecting(ctx, p), "krun_add_vsock_port2"@);
    lemma_asked_now(t1, VmRequestView::RemoveFile { path: p.socket_path }, any_reply());
    assert(goes_on(t2, u));
    if i < j {
        lemma_ports_connected(t3, ctx, ports, i + 1, j);
        assert(goes_on(t, t3));
    }
}

#[verifier::rlimit(40)]
proof fn lemma_programmed(t: VmTranscript, ctx: u32, config: VmView)
    requires
        program_run(t, ctx, config).1 is Ok,
        program_run(t, ctx, config).0.live(),
    ensures
        is_programmed(t, program_run(t, ctx, config).0, ctx, config),
{
    broadcast use {
        group_in_step,
        go_krun_texts,
        go_port_map,
        go_exec,
        lemma_asked_stays,
        lemma_asked_earlier,
    };

    lemma_env(config);
    let u = program_run(t, ctx, config).0;
    let t1 = port_map_run(t, ctx, config).0;
    let t2 = vsock_run(t1, ctx, config.vsock_ports, 0).0;
    let path = console_file(config);
    let console = VmRequestView::SetConsoleOutput { ctx, path };
    let t3 = krun_texts_run(t2, seq![path], console, "krun_set_console_output"@).0;
    let exec = VmRequestView::SetExec {
        ctx,
        program: config.exec_path,
        args: config.args,
        env: program_env(config),
    };
    go_vsock(t1, ctx, config.vsock_ports, 0);
    assert(goes_on(t, t1) && goes_on(t1, t2) && goes_on(t2, t3) && goes_on(t3, u));
    lemma_call(
        t,
        config.port_map,
        VmRequestView::SetPortMap { ctx, ports: config.port_map },
        "krun_set_port_map"@,
    );
    lemma_call(t2, seq![path], console, "krun_set_console_output"@);
    lemma_call(
        t3,
        seq![config.exec_path] + config.args + program_env(config),
        exec,
        "krun_set_exec"@,
    );
    assert forall|j: int| 0 <= j < config.vsock_ports.len() implies was_asked(
        t,
        u,
        connecting(ctx, #[trigger] config.vsock_ports[j]),
        fine(),
    ) && was_asked(
        t,
        u,
        VmRequestView::RemoveFile { path: config.vsock_ports[j].socket_path },
        any_reply(),
    ) by {
        lemma_ports_connected(t1, ctx, config.vsock_ports, 0, j);
    }
}

/// The machine that was booted as process `pid` was made reachable, looked after and seen
/// to its end.
pub open spec fn is_seen_through(
    v: VmTranscript,
    u: VmTranscript,
    config: VmView,
    pid: i32,
    proxy: Option<ProxyView>,
    status: i32,
) -> bool {
    let gateway = config.exec_path == "/srv/openshell-vm-init.sh"@;
    &&& gateway ==> was_asked(
        v,
        u,
        VmRequestView::WriteRuntimeState {
            pid,
            console_log: console_file(config),
            proxy_pid: match proxy {
                Some(p) => Some(p.pid),
                None => None,
            },
        },
        done(),
    )
    &&& proxy is Some ==> forall|j: int, host: Seq<char>, guest: Seq<char>|
        0 <= j < config.port_map.len() && #[trigger] stands_for(config.port_map[j], host, guest)
            ==> was_asked(v, u, forwarding(proxy->0.api_sock, host, guest), done())
    &&& gateway && config.port_map.len() > 0 ==> was_asked(
        v,
        u,
        VmRequestView::BootstrapGateway { name: config.gateway_name, port: config.gateway_port },
        done(),
    ) && was_asked(
        v,
        u,
        VmRequestView::WaitGatewayReady { port: config.gateway_port, name: config.gateway_name },
        done(),
    )
    &&& was_asked(v, u, VmRequestView::ForwardSignals { pid }, any_reply())
    &&& was_asked(v, u, VmRequestView::WaitChild { pid }, ended_with(status))
    &&& gateway ==> was_asked(v, u, VmRequestView::ClearRuntimeState, any_reply())
    &&& proxy is Some ==> was_asked(v, u, VmRequestView::StopProxy, any_reply())
}

#[verifier::rlimit(40)]
proof fn lemma_reached(
    t: VmTranscript,
    config: VmView,
    proxy: Option<ProxyView>,
)
    requires
        reach_run(t, config, proxy).1 is Ok,
        reach_run(t, config, proxy).0.live(),
    ensures
        ({
            let u = reach_run(t, config, proxy).0;
            &&& proxy is Some ==> forall|j: int, host: Seq<char>, guest: Seq<char>|
                0 <= j < config.port_map.len() && #[trigger] stands_for(
                    config.port_map[j],
                    host,
                    guest,
                ) ==> was_asked(t, u, forwarding(proxy->0.api_sock, host, guest), done())
            &&& config.exec_path == "/srv/openshell-vm-init.sh"@ && config.port_map.len() > 0
                ==> was_asked(
                t,
                u,
                VmRequestView::BootstrapGateway {
                    name: config.gateway_name,
                    port: config.gateway_port,
                },
                done(),
            ) && was_asked(
                t,
                u,
                VmRequestView::WaitGatewayReady {
                    port: config.gateway_port,
                    name: config.gateway_name,
                },
                done(),
            )
        }),
{
    broadcast use {group_in_step, go_forward, go_gateway, lemma_asked_stays, lemma_asked_earlier};

    let u = reach_run(t, config, proxy).0;
    let t1 = match proxy {
        Some(p) => forward_run(t, p.api_sock, config.port_map).0,
        None => t,
    };
    assert(goes_on(t, t1) && goes_on(t1, u));
    if config.exec_path == "/srv/openshell-vm-init.sh"@ && config.port_map.len() > 0 {
        let q1 = VmRequestView::BootstrapGateway {
            name: config.gateway_name,
            port: config.gateway_port,
        };
        let q2 = VmRequestView::WaitGatewayReady {
            port: config.gateway_port,
            name: config.gateway_name,
        };
        lemma_asked_now(t1, q1, done());
        lemma_asked_now(t1.ask(q1), q2, done());
        assert(goes_on(t1.ask(q1), u));
        assert(was_asked(t1, u, q1, done()) && was_asked(t1, u, q2, done()));
    }
    if let Some(p) = proxy {
        assert forall|j: int, host: Seq<char>, guest: Seq<char>|
            0 <= j < config.port_map.len() && #[trigger] stands_for(
                config.port_map[j],
                host,
                guest,
            ) implies was_asked(t, u, forwarding(p.api_sock, host, guest), done()) by {
            law_mapped_ports_are_forwarded(t, p.api_sock, config.port_map, j, host, guest);
        }
    }
}

#[verifier::rlimit(40)]
proof fn lemma_finished(t: VmTranscript, config: VmView, pid: i32, proxy: Option<ProxyView>)
    requires
        finish_run(t, config, pid, proxy).0.live(),
    ensures
        ({
            let (u, r) = finish_run(t, config, pid, proxy);
            &&& was_asked(t, u, VmRequestView::ForwardSignals { pid }, any_reply())
            &&& config.exec_path == "/srv/openshell-vm-init.sh"@ ==> was_asked(
                t,
                u,
                VmRequestView::ClearRuntimeState,
                any_reply(),
            )
            &&& proxy is Some ==> was_asked(t, u, VmRequestView::StopProxy, any_reply())
            &&& r is Ok
            &&& exists|status: i32| #[trigger]
                was_asked(t, u, VmRequestView::WaitChild { pid }, ended_with(status)) && r->Ok_0
                    == exit_code(status)
        }),
{
    broadcast use {group_in_step, go_stop, lemma_asked_stays, lemma_asked_earlier};

    let u = finish_run(t, config, pid, proxy).0;
    let q1 = VmRequestView::ForwardSignals { pid };
    let q2 = VmRequestView::WaitChild { pid };
    let t1 = t.ask(q1);
    let t2 = t1.ask(q2);
    let status = vm_answer(t2).code;
    let t3 = if config.exec_path == "/srv/openshell-vm-init.sh"@ {
        t2.ask(VmRequestView::ClearRuntimeState)
    } else {
        t2
    };
    assert(goes_on(t, t1) && goes_on(t1, t2) && goes_on(t2, t3) && goes_on(t3, u));
    assert(goes_on(t1, u) && goes_on(t2, u));
    crate::vm::exit::law_exit_code_fits(status);
    lemma_asked_now(t, q1, any_reply());
    lemma_asked_now(t1, q2, ended_with(status));
    assert(was_asked(t, u, q2, ended_with(status)));
    if config.exec_path == "/srv/openshell-vm-init.sh"@ {
        lemma_asked_now(t2, VmRequestView::ClearRuntimeState, any_reply());
        assert(was_asked(t2, u, VmRequestView::ClearRuntimeState, any_reply()));
    }
    if proxy is Some {
        lemma_asked_now(t3, VmRequestView::StopProxy, any_reply());
        assert(goes_on(t, t3));
    }
}

#[verifier::rlimit(40)]
proof fn lemma_booted(t: VmTranscript, ctx: u32, config: VmView, proxy: Option<ProxyView>)
    requires
        boot_run(t, ctx, config, proxy).1 is Ok,
        boot_run(t, ctx, config, proxy).0.live(),
    ensures
        ({
            let (u, r) = boot_run(t, ctx, config, proxy);
            let v = t.ask(VmRequestView::Boot { ctx });
            &&& v.live() && v.leads_to(u)
            &&& vm_answer(v).ok
            &&& exists|status: i32| #[trigger]
                is_seen_through(v, u, config, vm_answer(v).code, proxy, status) && r->Ok_0
                    == exit_code(status)
        }),
{
    broadcast use {
        group_in_step,
        go_describe,
        go_reach,
        go_finish,
        lemma_asked_stays,
        lemma_asked_earlier,
    };

    lemma_env(config);
    let (u, r) = boot_run(t, ctx, config, proxy);
    let v = t.ask(VmRequestView::Boot { ctx });
    let pid = vm_answer(v).code;
    let t1 = describe_run(v, config, pid, proxy).0;
    let t2 = reach_run(t1, config, proxy).0;
    assert(goes_on(v, t1) && goes_on(t1, t2) && goes_on(t2, u));
    assert(goes_on(v, t2) && goes_on(t1, u));
    if config.exec_path == "/srv/openshell-vm-init.sh"@ {
        let q = VmRequestView::WriteRuntimeState {
            pid,
            console_log: console_file(config),
            proxy_pid: match proxy {
                Some(p) => Some(p.pid),
                None => None,
            },
        };
        lemma_asked_now(v, q, done());
        assert(t1 == v.ask(q));
    }
    lemma_reached(t1, config, proxy);
    lemma_finished(t2, config, pid, proxy);
    let status = choose|status: i32| #[trigger]
        was_asked(t2, u, VmRequestView::WaitChild { pid }, ended_with(status)) && r->Ok_0
            == exit_code(status);
    assert(is_seen_through(v, u, config, pid, proxy, status));
}

/// The machine was booted in context `ctx` with all that it is configured with, and the
/// launch has seen it to its end.
pub open spec fn is_run_as_configured(
    t: VmTranscript,
    v: VmTranscript,
    u: VmTranscript,
    ctx: u32,
    config: VmView,
    proxy: Option<ProxyView>,
    status: i32,
) -> bool {
    let booted = v.ask(VmRequestView::Boot { ctx });
    &&& t.leads_to(v)
    &&& is_sized(t, v, ctx, config)
    &&& is_connected(t, v, ctx, config, proxy)
    &&& is_programmed(t, v, ctx, config)
    &&& booted.live() && booted.leads_to(u)
    &&& vm_answer(booted).ok
    &&& is_seen_through(booted, u, config, vm_answer(booted).code, proxy, status)
}

proof fn lemma_sized_stays(
    t: VmTranscript,
    v: VmTranscript,
    u: VmTranscript,
    ctx: u32,
    config: VmView,
)
    requires
        is_sized(t, v, ctx, config),
        goes_on(v, u),
    ensures
        is_sized(t, u, ctx, config),
{
    broadcast use lemma_asked_stays;

}

proof fn lemma_connected_on_the_way(
    t: VmTranscript,
    a: VmTranscript,
    v: VmTranscript,
    u: VmTranscript,
    ctx: u32,
    config: VmView,
    proxy: Option<ProxyView>,
)
    requires
        goes_on(t, a),
        is_connected(a, v, ctx, config, proxy),
        goes_on(v, u),
    ensures
        is_connected(t, u, ctx, config, proxy),
{
    assert(is_connected(a, u, ctx, config, proxy)) by {
        broadcast use lemma_asked_stays;

    }
    broadcast use lemma_asked_earlier;

}

proof fn lemma_programmed_earlier(
    t: VmTranscript,
    a: VmTranscript,
    v: VmTranscript,
    ctx: u32,
    config: VmView,
)
    requires
        goes_on(t, a),
        is_programmed(a, v, ctx, config),
    ensures
        is_programmed(t, v, ctx, config),
{
    broadcast use lemma_asked_earlier;

}

proof fn lemma_run_as_configured(t: VmTranscript, ctx: u32, config: VmView)
    requires
        with_context_run(t, ctx, config).1 is Ok,
        with_context_run(t, ctx, config).0.live(),
    ensures
        ({
            let (u, r) = with_context_run(t, ctx, config);
            exists|v: VmTranscript, proxy: Option<ProxyView>, status: i32| #[trigger]
                is_run_as_configured(t, v, u, ctx, config, proxy, status) && r->Ok_0 == exit_code(
                    status,
                )
        }),
{
    let (u, r) = with_context_run(t, ctx, config);
    let t1 = setup_run(t, ctx, config).0;
    let (t2, net) = net_run(t1, ctx, config);
    let proxy = net->Ok_0;
    let v = program_run(t2, ctx, config).0;
    go_setup(t, ctx, config);
    go_net(t1, ctx, config);
    go_program(t2, ctx, config);
    go_boot(v, ctx, config, proxy);
    assert(goes_on(t, t2) && goes_on(t1, v) && goes_on(t, v)) by {
        broadcast use group_in_step;

    }
    lemma_sized(t, ctx, config);
    lemma_connected(t1, ctx, config);
    lemma_programmed(t2, ctx, config);
    lemma_booted(v, ctx, config, proxy);
    lemma_sized_stays(t, t1, v, ctx, config);
    lemma_connected_on_the_way(t, t1, t2, v, ctx, config, proxy);
    lemma_programmed_earlier(t, t2, v, ctx, config);
    let b = v.ask(VmRequestView::Boot { ctx });
    let status = choose|status: i32| #[trigger]
        is_seen_through(b, u, config, vm_answer(b).code, proxy, status) && r->Ok_0 == exit_code(
            status,
        );
    assert(is_run_as_configured(t, v, u, ctx, config, proxy, status));
}

proof fn lemma_seen_through_stays(
    v: VmTranscript,
    u: VmTranscript,
    w: VmTranscript,
    config: VmView,
    pid: i32,
    proxy: Option<ProxyView>,
    status: i32,
)
    requires
        is_seen_through(v, u, config, pid, proxy, status),
        goes_on(u, w),
    ensures
        is_seen_through(v, w, config, pid, proxy, status),
{
    broadcast use lemma_asked_stays;

}

proof fn lemma_context_made(t: VmTranscript, log_level: u32)
    requires
        context_run(t, log_level).1 is Ok,
        context_run(t, log_level).0.live(),
    ensures
        ({
            let (made, given) = context_run(t, log_level);
            &&& was_asked(t, made, VmRequestView::LoadLibrary, done())
            &&& was_asked(t, made, VmRequestView::InitLog { level: log_level }, fine())
            &&& was_asked(
                t,
                made,
                VmRequestView::CreateContext,
                ended_with(given->Ok_0 as i32),
            )
        }),
{
    broadcast use {group_in_step, lemma_asked_stays, lemma_asked_earlier};

    let (made, given) = context_run(t, log_level);
    let t1 = t.ask(VmRequestView::LoadLibrary);
    let log = VmRequestView::InitLog { level: log_level };
    let t2 = t1.ask(log);
    assert(goes_on(t, t1) && goes_on(t1, t2) && goes_on(t2, made) && goes_on(t1, made));
    assert(t1.live() && t2.live());
    lemma_asked_now(t, VmRequestView::LoadLibrary, done());
    lemma_asked_now(t1, log, fine());
    lemma_asked_now(t2, VmRequestView::CreateContext, ended_with(given->Ok_0 as i32));
    assert(goes_on(t, t2));
}

/// A launch that comes to its end has logged at the configured level, has booted a machine
/// with everything that it is configured with, in the context that the library gave, and
/// has stayed with it; what it gives is told by the wait status of the machine.
pub proof fn law_launched_machine_is_as_configured(t: VmTranscript, config: VmView)
    requires
        launch_run(t, config).1 is Ok,
        launch_run(t, config).0.live(),
    ensures
        ({
            let (u, r) = launch_run(t, config);
            exists|made: VmTranscript,
                v: VmTranscript,
                ctx: u32,
                proxy: Option<ProxyView>,
                status: i32|
                {
                    &&& t.leads_to(made)
                    &&& was_asked(t, made, VmRequestView::LoadLibrary, done())
                    &&& was_asked(
                        t,
                        made,
                        VmRequestView::InitLog { level: config.log_level },
                        fine(),
                    )
                    &&& was_asked(t, made, VmRequestView::CreateContext, ended_with(ctx as i32))
                    &&& #[trigger] is_run_as_configured(
                        made,
                        v,
                        u,
                        ctx,
                        config,
                        proxy,
                        status,
                    )
                    &&& r->Ok_0 == exit_code(status)
                }
        }),
{
    let (u, r) = launch_run(t, config);
    let (made, given) = context_run(t, config.log_level);
    let ctx = given->Ok_0;
    let end = with_context_run(made, ctx, config).0;
    go_context(t, config.log_level);
    go_with_context(made, ctx, config);
    assert(goes_on(end, u)) by {
        broadcast use group_in_step;

    }
    assert(end.live() && made.live());
    lemma_context_made(t, config.log_level);
    lemma_run_as_configured(made, ctx, config);
    let (v, proxy, status) = choose|v: VmTranscript, proxy: Option<ProxyView>, status: i32|
        #[trigger] is_run_as_configured(made, v, end, ctx, config, proxy, status) && r->Ok_0
            == exit_code(status);
    let b = v.ask(VmRequestView::Boot { ctx });
    lemma_seen_through_stays(b, end, u, config, vm_answer(b).code, proxy, status);
    assert(b.leads_to(u));
    assert(is_run_as_configured(made, v, u, ctx, config, proxy, status));
}

} // verus!
