//! What a launch that fails tells of its failure.

use vstd::prelude::*;

use crate::dialogue::{goes_on, group_in_step};
use crate::vm::config::{HostOs, NetView, VmErrorView, VmView, VsockView};
use crate::vm::gvproxy::{
    forward_run, free_ports_run, proxy_args, proxy_run, proxy_spawn_run, run_dir, ProxyView,
    PROXY_DEADLINE_NANOS,
};
use crate::vm::host::{vm_answer, VmReplyView, VmRequestView, VmTranscript};
use crate::vm::libkrun::{
    boot_run, console_path, context_run, describe_run, first_nul, guest_env, guest_mac, krun_run,
    krun_texts_run, launch_run, maybe_disk_run, net_device_run, net_run, port_map_run, program_run,
    reach_run, setup_run, socket_dir_run, stop_run, vsock_off_run, vsock_run, with_context_run,
    COMPAT_NET_FEATURES,
};
use crate::vm::network::{law_forwarding_gives_up_late, lemma_wait_asks};
use crate::vm::replay::{
    go_boot, go_context, go_describe, go_forward, go_free_ports, go_krun, go_krun_texts, go_net,
    go_net_device, go_port_map, go_program, go_proxy, go_proxy_spawn, go_reach, go_setup,
    go_socket_dir, go_vsock_off, go_wait_socket, go_with_context,
};

verus! {

/// The function of the library that a request calls.
pub open spec fn library_function(q: VmRequestView) -> Option<Seq<char>> {
    match q {
        VmRequestView::InitLog { .. } => Some("krun_init_log"@),
        VmRequestView::CreateContext => Some("krun_create_ctx"@),
        VmRequestView::SetVmConfig { .. } => Some("krun_set_vm_config"@),
        VmRequestView::SetRoot { .. } => Some("krun_set_root"@),
        VmRequestView::AddDisk { .. } => Some("krun_add_disk3"@),
        VmRequestView::SetWorkdir { .. } => Some("krun_set_workdir"@),
        VmRequestView::DisableImplicitVsock { .. } => Some("krun_disable_implicit_vsock"@),
        VmRequestView::AddVsock { .. } => Some("krun_add_vsock"@),
        VmRequestView::AddNetUnixstream { .. } => Some("krun_add_net_unixstream"@),
        VmRequestView::AddNetUnixgram { .. } => Some("krun_add_net_unixgram"@),
        VmRequestView::SetPortMap { .. } => Some("krun_set_port_map"@),
        VmRequestView::AddVsockPort { .. } => Some("krun_add_vsock_port2"@),
        VmRequestView::SetConsoleOutput { .. } => Some("krun_set_console_output"@),
        VmRequestView::SetExec { .. } => Some("krun_set_exec"@),
        _ => None,
    }
}

/// The reply `a` to `q` is a failure that `e` tells of.
pub open spec fn blames(q: VmRequestView, a: VmReplyView, e: VmErrorView) -> bool {
    match q {
        VmRequestView::HasAddDisk => !a.ok && e == (VmErrorView::HostSetup {
            message:
                "libkrun runtime does not expose krun_add_disk3; rebuild the VM runtime with block support"@,
        }),
        VmRequestView::Exists { path } => !a.ok && e == (VmErrorView::BinaryNotFound {
            path,
            hint: "Install Podman Desktop or place gvproxy in PATH"@,
        }),
        VmRequestView::CreateLog { .. } => !a.ok && e == (VmErrorView::Fork {
            message: "failed to create gvproxy log: "@ + a.text,
        }),
        VmRequestView::SpawnProxy { .. } => !a.ok && e == (VmErrorView::Fork {
            message: "failed to start gvproxy: "@ + a.text,
        }),
        VmRequestView::Now => e == (VmErrorView::Fork {
            message: "gvproxy socket did not appear within 5s"@,
        }) || e is HostSetup,
        VmRequestView::CreateDirAll { path } => !a.ok && e == (VmErrorView::RuntimeState {
            message: "create vsock socket dir "@ + path + ": "@ + a.text,
        }),
        VmRequestView::Boot { .. } => !a.ok && e == (VmErrorView::Fork { message: a.text }),
        _ => match library_function(q) {
            Some(func) => a.code < 0 && e == (VmErrorView::Krun { func, code: a.code }),
            None => !a.ok && (a.error == Some(e) || a.error is None && e
                == (VmErrorView::HostSetup { message: a.text })),
        },
    }
}

/// A request that cleans up.
pub open spec fn cleans_up(q: VmRequestView) -> bool {
    q is StopProxy || q is FreeContext || q is TerminateMachine || q is ClearRuntimeState
}

/// Between `t` and `u` a request failed as `e` tells, and all that was asked after it
/// cleans up.
pub open spec fn told(t: VmTranscript, u: VmTranscript, e: VmErrorView) -> bool {
    exists|k: int|
        {
            &&& t.asked.len() <= k < u.asked.len()
            &&& k < u.replies.len()
            &&& blames(#[trigger] u.asked[k], u.replies[k], e)
            &&& forall|i: int| k < i < u.asked.len() ==> cleans_up(#[trigger] u.asked[i])
        }
}

/// `e` tells of a failure between `t` and `u`, or of a text that cannot be handed to the
/// library.
pub open spec fn said(t: VmTranscript, u: VmTranscript, e: VmErrorView) -> bool {
    told(t, u, e) || (e is NulByte && e->NulByte_text.contains('\0'))
}

proof fn lemma_said_now(t: VmTranscript, q: VmRequestView, e: VmErrorView)
    requires
        t.ask(q).live(),
        blames(q, vm_answer(t.ask(q)), e),
    ensures
        said(t, t.ask(q), e),
{
    let u = t.ask(q);
    let k = t.asked.len() as int;
    assert(u.asked[k] == q);
    assert(blames(u.asked[k], u.replies[k], e));
}

broadcast proof fn lemma_said_earlier(
    a: VmTranscript,
    b: VmTranscript,
    c: VmTranscript,
    e: VmErrorView,
)
    requires
        #[trigger] goes_on(a, b),
        #[trigger] said(b, c, e),
    ensures
        said(a, c, e),
{
    if told(b, c, e) {
        let k = choose|k: int|
            {
                &&& b.asked.len() <= k < c.asked.len()
                &&& k < c.replies.len()
                &&& blames(#[trigger] c.asked[k], c.replies[k], e)
                &&& forall|i: int| k < i < c.asked.len() ==> cleans_up(#[trigger] c.asked[i])
            };
        assert(blames(c.asked[k], c.replies[k], e));
    }
}

proof fn lemma_said_still(t: VmTranscript, u: VmTranscript, q: VmRequestView, e: VmErrorView)
    requires
        said(t, u, e),
        cleans_up(q),
    ensures
        said(t, u.ask(q), e),
{
    if told(t, u, e) {
        let k = choose|k: int|
            {
                &&& t.asked.len() <= k < u.asked.len()
                &&& k < u.replies.len()
                &&& blames(#[trigger] u.asked[k], u.replies[k], e)
                &&& forall|i: int| k < i < u.asked.len() ==> cleans_up(#[trigger] u.asked[i])
            };
        let v = u.ask(q);
        assert(blames(v.asked[k], v.replies[k], e));
        assert forall|i: int| k < i < v.asked.len() implies cleans_up(#[trigger] v.asked[i]) by {
            if i < u.asked.len() {
                assert(v.asked[i] == u.asked[i]);
            }
        }
    }
}

proof fn lemma_said_stopped(
    t: VmTranscript,
    u: VmTranscript,
    proxy: Option<ProxyView>,
    e: VmErrorView,
)
    requires
        said(t, u, e),
    ensures
        said(t, stop_run(u, proxy), e),
{
    lemma_said_still(t, u, VmRequestView::StopProxy, e);
}

proof fn lemma_first_nul(list: Seq<Seq<char>>, i: nat)
    ensures
        first_nul(list, i) is Some ==> first_nul(list, i)->0.contains('\0') && list.contains(
            first_nul(list, i)->0,
        ),
        first_nul(list, i) is None ==> forall|j: int|
            i <= j < list.len() ==> !(#[trigger] list[j]).contains('\0'),
    decreases list.len() - i,
{
    if i < list.len() {
        lemma_first_nul(list, i + 1);
        assert(list.contains(list[i as int]));
    }
}

/// A text with a NUL character is never handed to the library: the call is not made, and
/// the failure names such a text; without one it is made.
pub proof fn law_nul_is_not_handed_on(
    t: VmTranscript,
    list: Seq<Seq<char>>,
    q: VmRequestView,
    func: Seq<char>,
)
    ensures
        ({
            let (u, r) = krun_texts_run(t, list, q, func);
            &&& (exists|j: int| 0 <= j < list.len() && (#[trigger] list[j]).contains('\0')) ==> u
                == t && r is Err && r->Err_0 is NulByte && r->Err_0->NulByte_text.contains('\0')
                && list.contains(r->Err_0->NulByte_text)
            &&& (forall|j: int| 0 <= j < list.len() ==> !(#[trigger] list[j]).contains('\0'))
                ==> u == t.ask(q)
        }),
{
    lemma_first_nul(list, 0);
}

proof fn lemma_call_said(
    t: VmTranscript,
    list: Seq<Seq<char>>,
    q: VmRequestView,
    func: Seq<char>,
)
    requires
        library_function(q) == Some(func),
    ensures
        ({
            let (u, r) = krun_run(t, q, func);
            u.live() && r is Err ==> said(t, u, r->Err_0)
        }),
        ({
            let (u, r) = krun_texts_run(t, list, q, func);
            u.live() && r is Err ==> said(t, u, r->Err_0)
        }),
{
    lemma_first_nul(list, 0);
    let u = t.ask(q);
    if u.live() && vm_answer(u).code < 0 {
        lemma_said_now(t, q, VmErrorView::Krun { func, code: vm_answer(u).code });
    }
}

proof fn lemma_setup_said(t: VmTranscript, ctx: u32, config: VmView)
    requires
        setup_run(t, ctx, config).0.live(),
        setup_run(t, ctx, config).1 is Err,
    ensures
        said(t, setup_run(t, ctx, config).0, setup_run(t, ctx, config).1->Err_0),
{
    broadcast use {group_in_step, go_krun, go_krun_texts, lemma_said_earlier};

    let q1 = VmRequestView::SetVmConfig { ctx, vcpus: config.vcpus, mem_mib: config.mem_mib };
    let q2 = VmRequestView::SetRoot { ctx, path: config.rootfs };
    let q4 = VmRequestView::SetWorkdir { ctx, path: config.workdir };
    let (t1, r1) = krun_run(t, q1, "krun_set_vm_config"@);
    let (t2, r2) = krun_texts_run(t1, seq![config.rootfs], q2, "krun_set_root"@);
    let (t3, r3) = maybe_disk_run(t2, ctx, config.state_disk);
    lemma_call_said(t, seq![], q1, "krun_set_vm_config"@);
    lemma_call_said(t1, seq![config.rootfs], q2, "krun_set_root"@);
    lemma_call_said(t3, seq![config.workdir], q4, "krun_set_workdir"@);
    assert(goes_on(t, t1) && goes_on(t1, t2) && goes_on(t, t2));
    if r1 is Ok && r2 is Ok {
        match config.state_disk {
            Some(disk) => {
                let has = t2.ask(VmRequestView::HasAddDisk);
                let q3 = VmRequestView::AddDisk { ctx, block_id: disk.block_id, path: disk.path };
                let list = seq![disk.block_id, disk.path];
                lemma_call_said(has, list, q3, "krun_add_disk3"@);
                assert(goes_on(t2, has) && goes_on(has, t3) && goes_on(t, has));
                if has.live() && !vm_answer(has).ok {
                    lemma_said_now(t2, VmRequestView::HasAddDisk, r3->Err_0);
                }
            },
            None => {},
        }
        assert(goes_on(t2, t3) && goes_on(t, t3));
    }
}

proof fn lemma_vsock_off_said(t: VmTranscript, ctx: u32)
    ensures
        ({
            let (u, r) = vsock_off_run(t, ctx);
            u.live() && r is Err ==> said(t, u, r->Err_0)
        }),
{
    broadcast use {group_in_step, go_krun, lemma_said_earlier};

    let q1 = VmRequestView::DisableImplicitVsock { ctx };
    let t1 = krun_run(t, q1, "krun_disable_implicit_vsock"@).0;
    lemma_call_said(t, seq![], q1, "krun_disable_implicit_vsock"@);
    lemma_call_said(
        t1,
        seq![],
        VmRequestView::AddVsock { ctx, features: 0 },
        "krun_add_vsock"@,
    );
    assert(goes_on(t, t1));
}

proof fn lemma_device_said(t: VmTranscript, ctx: u32, host_os: HostOs, socket: Seq<char>)
    ensures
        ({
            let (u, r) = net_device_run(t, ctx, host_os, socket);
            u.live() && r is Err ==> said(t, u, r->Err_0)
        }),
{
    broadcast use {group_in_step, go_vsock_off, lemma_said_earlier};

    let t1 = vsock_off_run(t, ctx).0;
    let mac = guest_mac();
    let features = COMPAT_NET_FEATURES;
    lemma_vsock_off_said(t, ctx);
    lemma_call_said(
        t1,
        seq![socket],
        VmRequestView::AddNetUnixstream { ctx, socket, mac, features },
        "krun_add_net_unixstream"@,
    );
    lemma_call_said(
        t1,
        seq![socket],
        VmRequestView::AddNetUnixgram { ctx, socket, mac, features, flags: 1 },
        "krun_add_net_unixgram"@,
    );
    assert(goes_on(t, t1));
}

proof fn lemma_said_last(t: VmTranscript, u: VmTranscript, e: VmErrorView)
    requires
        u.live(),
        t.asked.len() < u.asked.len(),
        blames(u.asked.last(), vm_answer(u), e),
    ensures
        said(t, u, e),
{
    let k = u.asked.len() - 1;
    assert(blames(u.asked[k], u.replies[k], e));
}

proof fn lemma_spawn_said(t: VmTranscript, config: VmView, binary: Seq<char>, base: Seq<char>)
    ensures
        ({
            let (u, r) = proxy_spawn_run(t, config, binary, base);
            u.live() && r is Err ==> said(t, u, r->Err_0)
        }),
{
    broadcast use {group_in_step, lemma_said_earlier};

    let (u, r) = proxy_spawn_run(t, config, binary, base);
    let net_sock = crate::paths::path_with_extension(base, "v"@);
    let api_sock = crate::paths::path_with_extension(base, "a"@);
    let t1 = t.ask(VmRequestView::PickSshPort);
    let log = VmRequestView::CreateLog {
        path: crate::paths::joined_path(
            run_dir(config.rootfs),
            config.rootfs_key + "-gvproxy.log"@,
        ),
    };
    let t2 = t1.ask(log);
    let q = VmRequestView::SpawnProxy {
        program: binary,
        args: proxy_args(config.host_os, net_sock, api_sock, vm_answer(t1).port),
    };
    let t3 = t2.ask(q);
    let t4 = t3.ask(VmRequestView::Now);
    let deadline = vm_answer(t4).nanos + PROXY_DEADLINE_NANOS;
    go_wait_socket(t4, net_sock, deadline, 5, 100);
    lemma_wait_asks(t4, net_sock, deadline, 5, 100);
    assert(goes_on(t, t1) && goes_on(t1, t2) && goes_on(t2, t3) && goes_on(t3, t4));
    if u.live() && r is Err {
        let e = r->Err_0;
        if !vm_answer(t1).ok {
            lemma_said_now(t, VmRequestView::PickSshPort, e);
        } else if !vm_answer(t2).ok {
            lemma_said_now(t1, log, e);
        } else if !vm_answer(t3).ok {
            lemma_said_now(t2, q, e);
        } else {
            assert(goes_on(t4, u) && goes_on(t, u));
            lemma_said_last(t, u, e);
        }
    }
}

proof fn lemma_proxy_said(t: VmTranscript, config: VmView)
    requires
        config.net is Gvproxy,
    ensures
        ({
            let (u, r) = proxy_run(t, config);
            u.live() && r is Err ==> said(t, u, r->Err_0)
        }),
{
    broadcast use {group_in_step, go_free_ports, go_proxy_spawn, lemma_said_earlier};

    let (u, r) = proxy_run(t, config);
    let binary = config.net->Gvproxy_binary;
    let q1 = VmRequestView::Exists { path: binary };
    let t1 = t.ask(q1);
    let t2 = t1.ask(VmRequestView::SocketBase);
    let base = vm_answer(t2).text;
    let t3 = t2.ask(VmRequestView::KillStaleProxy);
    let t4 = free_ports_run(t3, config.port_map, 0);
    let t5 = t4.ask(
        VmRequestView::RemoveFile { path: crate::paths::path_with_extension(base, "v"@) },
    );
    let t6 = t5.ask(
        VmRequestView::RemoveFile { path: crate::paths::path_with_extension(base, "a"@) },
    );
    let t7 = t6.ask(
        VmRequestView::RemoveFile { path: crate::paths::path_with_extension(base, "v-krun.sock"@) },
    );
    assert(goes_on(t, t1) && goes_on(t1, t2) && goes_on(t2, t3) && goes_on(t3, t4));
    assert(goes_on(t4, t5) && goes_on(t5, t6) && goes_on(t6, t7));
    assert(goes_on(t, t4) && goes_on(t, t7));
    if u.live() && r is Err {
        let e = r->Err_0;
        if !vm_answer(t1).ok {
            lemma_said_now(t, q1, e);
        } else if !vm_answer(t2).ok {
            lemma_said_now(t1, VmRequestView::SocketBase, e);
        } else {
            lemma_spawn_said(t7, config, binary, base);
        }
    }
}

proof fn lemma_net_said(t: VmTranscript, ctx: u32, config: VmView)
    ensures
        ({
            let (u, r) = net_run(t, ctx, config);
            u.live() && r is Err ==> said(t, u, r->Err_0)
        }),
{
    broadcast use {group_in_step, go_proxy, go_net_device, lemma_said_earlier};

    match config.net {
        NetView::Tsi => {},
        NetView::Disabled => {
            lemma_vsock_off_said(t, ctx);
        },
        NetView::Gvproxy { .. } => {
            let (t1, started) = proxy_run(t, config);
            lemma_proxy_said(t, config);
            if started is Ok {
                let proxy = started->Ok_0;
                let (t2, r) = net_device_run(t1, ctx, config.host_os, proxy.net_sock);
                lemma_device_said(t1, ctx, config.host_os, proxy.net_sock);
                assert(goes_on(t, t1));
                if r is Err && stop_run(t2, Some(proxy)).live() {
                    assert(goes_on(t2, stop_run(t2, Some(proxy))));
                    lemma_said_stopped(t, t2, Some(proxy), r->Err_0);
                }
            }
        },
    }
}

proof fn lemma_vsock_said(t: VmTranscript, ctx: u32, ports: Seq<VsockView>, i: nat)
    ensures
        ({
            let (u, r) = vsock_run(t, ctx, ports, i);
            u.live() && r is Err ==> said(t, u, r->Err_0)
        }),
    decreases ports.len() - i,
{
    broadcast use {group_in_step, go_krun_texts, go_socket_dir, lemma_said_earlier};

    if i < ports.len() {
        let p = ports[i as int];
        let (t1, r1) = socket_dir_run(t, p.socket_path);
        if let Some(dir) = crate::paths::parent_path(p.socket_path) {
            if t1.live() && r1 is Err {
                lemma_said_now(t, VmRequestView::CreateDirAll { path: dir }, r1->Err_0);
            }
        }
        let t2 = t1.ask(VmRequestView::RemoveFile { path: p.socket_path });
        let q = VmRequestView::AddVsockPort {
            ctx,
            guest_port: p.port,
            socket: p.socket_path,
            listen: p.listen,
        };
        let t3 = krun_texts_run(t2, seq![p.socket_path], q, "krun_add_vsock_port2"@).0;
        lemma_call_said(t2, seq![p.socket_path], q, "krun_add_vsock_port2"@);
        lemma_vsock_said(t3, ctx, ports, i + 1);
        assert(goes_on(t, t1) && goes_on(t1, t2) && goes_on(t2, t3));
        assert(goes_on(t, t2) && goes_on(t, t3));
    }
}

proof fn lemma_program_said(t: VmTranscript, ctx: u32, config: VmView)
    ensures
        ({
            let (u, r) = program_run(t, ctx, config);
            u.live() && r is Err ==> said(t, u, r->Err_0)
        }),
{
    broadcast use {group_in_step, go_krun_texts, go_port_map, lemma_said_earlier};

    let t1 = port_map_run(t, ctx, config).0;
    let t2 = vsock_run(t1, ctx, config.vsock_ports, 0).0;
    crate::vm::replay::go_vsock(t1, ctx, config.vsock_ports, 0);
    let path = console_path(config);
    let q3 = VmRequestView::SetConsoleOutput { ctx, path };
    let t3 = krun_texts_run(t2, seq![path], q3, "krun_set_console_output"@).0;
    let env = guest_env(config);
    let q4 = VmRequestView::SetExec { ctx, program: config.exec_path, args: config.args, env };
    let ports = VmRequestView::SetPortMap { ctx, ports: config.port_map };
    lemma_call_said(t, config.port_map, ports, "krun_set_port_map"@);
    lemma_vsock_said(t1, ctx, config.vsock_ports, 0);
    lemma_call_said(t2, seq![path], q3, "krun_set_console_output"@);
    lemma_call_said(t3, seq![config.exec_path] + config.args + env, q4, "krun_set_exec"@);
    assert(goes_on(t, t1) && goes_on(t1, t2) && goes_on(t2, t3));
    assert(goes_on(t, t2) && goes_on(t, t3));
}

proof fn lemma_describe_said(
    t: VmTranscript,
    config: VmView,
    pid: i32,
    proxy: Option<ProxyView>,
)
    ensures
        ({
            let (u, r) = describe_run(t, config, pid, proxy);
            u.live() && r is Err ==> said(t, u, r->Err_0)
        }),
{
    broadcast use group_in_step;

    let (u, r) = describe_run(t, config, pid, proxy);
    if u.live() && r is Err {
        let q = VmRequestView::WriteRuntimeState {
            pid,
            console_log: console_path(config),
            proxy_pid: match proxy {
                Some(p) => Some(p.pid),
                None => None,
            },
        };
        let e = r->Err_0;
        let t1 = t.ask(q);
        let t2 = t1.ask(VmRequestView::TerminateMachine { pid });
        let t3 = stop_run(t2, proxy);
        assert(goes_on(t1, t2) && goes_on(t2, t3) && goes_on(t3, u));
        assert(t1.live());
        lemma_said_now(t, q, e);
        lemma_said_still(t, t1, VmRequestView::TerminateMachine { pid }, e);
        lemma_said_stopped(t, t2, proxy, e);
        lemma_said_still(t, t3, VmRequestView::ClearRuntimeState, e);
    }
}

proof fn lemma_reach_said(t: VmTranscript, config: VmView, proxy: Option<ProxyView>)
    ensures
        ({
            let (u, r) = reach_run(t, config, proxy);
            u.live() && r is Err ==> said(t, u, r->Err_0)
        }),
{
    broadcast use {group_in_step, go_forward, lemma_said_earlier};

    let (u, r) = reach_run(t, config, proxy);
    let t1 = match proxy {
        Some(p) => forward_run(t, p.api_sock, config.port_map).0,
        None => t,
    };
    assert(goes_on(t, t1));
    if u.live() && r is Err {
        let e = r->Err_0;
        if proxy is Some && forward_run(t, proxy->0.api_sock, config.port_map).1 is Err {
            law_forwarding_gives_up_late(t, proxy->0.api_sock, config.port_map);
            lemma_said_last(t, u, e);
        } else {
            let q1 = VmRequestView::BootstrapGateway {
                name: config.gateway_name,
                port: config.gateway_port,
            };
            let q2 = VmRequestView::WaitGatewayReady {
                port: config.gateway_port,
                name: config.gateway_name,
            };
            let t2 = t1.ask(q1);
            assert(goes_on(t1, t2) && goes_on(t, t2));
            if !vm_answer(t2).ok {
                lemma_said_now(t1, q1, e);
            } else {
                lemma_said_now(t2, q2, e);
            }
        }
    }
}

proof fn lemma_boot_said(t: VmTranscript, ctx: u32, config: VmView, proxy: Option<ProxyView>)
    ensures
        ({
            let (u, r) = boot_run(t, ctx, config, proxy);
            u.live() && r is Err ==> said(t, u, r->Err_0)
        }),
{
    broadcast use {group_in_step, go_describe, go_reach, lemma_said_earlier};

    let (u, r) = boot_run(t, ctx, config, proxy);
    let boot = VmRequestView::Boot { ctx };
    let t1 = t.ask(boot);
    let pid = vm_answer(t1).code;
    let (t2, described) = describe_run(t1, config, pid, proxy);
    let t3 = reach_run(t2, config, proxy).0;
    assert(goes_on(t, t1) && goes_on(t1, t2) && goes_on(t2, t3) && goes_on(t, t2));
    if u.live() && r is Err {
        let e = r->Err_0;
        if !vm_answer(t1).ok {
            assert(goes_on(t1, stop_run(t1, proxy)));
            lemma_said_now(t, boot, e);
            lemma_said_stopped(t, t1, proxy, e);
        } else if described is Err {
            lemma_describe_said(t1, config, pid, proxy);
        } else {
            assert(goes_on(t3, stop_run(t3, proxy)));
            lemma_reach_said(t2, config, proxy);
            lemma_said_stopped(t, t3, proxy, e);
        }
    }
}

/// A launch that fails tells which request failed and how: a call into the library with its
/// name and the code that it gave, and any other step with the reply to it; and after the
/// failure it only cleans up. Otherwise a text with a NUL character stood in its way, and it
/// names that.
pub proof fn law_failed_launch_says_why(t: VmTranscript, config: VmView)
    requires
        launch_run(t, config).0.live(),
        launch_run(t, config).1 is Err,
    ensures
        said(t, launch_run(t, config).0, launch_run(t, config).1->Err_0),
{
    broadcast use {
        group_in_step,
        go_krun,
        go_context,
        go_setup,
        go_net,
        go_program,
        go_boot,
        go_with_context,
        lemma_said_earlier,
    };

    let (u, r) = launch_run(t, config);
    let e = r->Err_0;
    let (made, given) = context_run(t, config.log_level);
    if given is Err {
        let t1 = t.ask(VmRequestView::LoadLibrary);
        let log = VmRequestView::InitLog { level: config.log_level };
        let t2 = t1.ask(log);
        assert(goes_on(t, t1) && goes_on(t1, t2) && goes_on(t, t2));
        if !vm_answer(t1).ok {
            lemma_said_now(t, VmRequestView::LoadLibrary, e);
        } else if vm_answer(t2).code < 0 {
            lemma_said_now(t1, log, e);
        } else {
            lemma_said_now(t2, VmRequestView::CreateContext, e);
        }
    } else {
        let ctx = given->Ok_0;
        let (end, _) = with_context_run(made, ctx, config);
        assert(goes_on(t, made) && goes_on(made, end) && goes_on(end, u) && end.live());
        let (t1, r1) = setup_run(made, ctx, config);
        let (t2, r2) = net_run(t1, ctx, config);
        if r1 is Err {
            lemma_setup_said(made, ctx, config);
        } else if r2 is Err {
            assert(goes_on(made, t1) && goes_on(t, t1));
            lemma_net_said(t1, ctx, config);
        } else {
            let proxy = r2->Ok_0;
            let (t3, r3) = program_run(t2, ctx, config);
            assert(goes_on(made, t1) && goes_on(t1, t2) && goes_on(made, t2) && goes_on(t, t2));
            assert(goes_on(t2, t3) && goes_on(t, t3));
            if r3 is Err {
                assert(goes_on(t3, stop_run(t3, proxy)));
                lemma_program_said(t2, ctx, config);
                lemma_said_stopped(t, t3, proxy, e);
            } else {
                lemma_boot_said(t3, ctx, config, proxy);
            }
        }
        assert(said(t, end, e));
        lemma_said_still(t, end, VmRequestView::FreeContext { ctx }, e);
    }
}

/// A machine whose state cannot be written down is not left alone: it is ended, its proxy is
/// stopped, what was written of it is cleared, and the failure is the one of the write.
pub proof fn law_unrecorded_machine_is_ended(
    t: VmTranscript,
    config: VmView,
    pid: i32,
    proxy: Option<ProxyView>,
)
    requires
        t.live(),
        config.exec_path == "/srv/openshell-vm-init.sh"@,
        describe_run(t, config, pid, proxy).1 is Err,
        describe_run(t, config, pid, proxy).0.live(),
    ensures
        ({
            let u = describe_run(t, config, pid, proxy).0;
            let n = t.asked.len() as int;
            &&& u.asked[n] is WriteRuntimeState
            &&& !u.replies[n].ok
            &&& u.asked[n + 1] == (VmRequestView::TerminateMachine { pid })
            &&& proxy is Some ==> u.asked[n + 2] == VmRequestView::StopProxy
            &&& u.asked.last() == VmRequestView::ClearRuntimeState
        }),
{
}

} // verus!
