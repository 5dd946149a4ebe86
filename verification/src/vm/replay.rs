//! Every procedure of a launch can be run again from the start with more replies at
//! hand: it asks the same, in the same order, and goes on where it had to wait.
//!
//! For each procedure, `go_*` shows that it only goes on from where it is, and
//! `step_*` that two runs of it agree as far as the first gets.

use vstd::prelude::*;

use crate::dialogue::{goes_on, group_in_step, in_step};
use crate::text::{split_on, unsigned_value};
use crate::vm::config::{DiskView, HostOs, VmView, VsockView};
use crate::vm::gvproxy::{
    expose_body, expose_run, forward_each_run, forward_run, free_ports_run, mapped_ports,
    next_pause, proxy_run, proxy_spawn_run, wait_socket_run, ProxyView, EXPOSE_DEADLINE_NANOS,
};
use crate::vm::host::{vm_answer, VmRequestView, VmTranscript};
use crate::vm::libkrun::{
    boot_run, context_run, describe_run, disk_run, exec_run, finish_run, gateway_run, krun_run,
    krun_texts_run, launch_run, net_device_run, net_run, port_map_run, program_run, reach_run,
    setup_run, socket_dir_run, stop_run, vsock_off_run, vsock_run, with_context_run,
};

verus! {

pub broadcast proof fn go_krun(t: VmTranscript, q: VmRequestView, func: Seq<char>)
    ensures
        goes_on(t, (#[trigger] krun_run(t, q, func)).0),
{
    broadcast use group_in_step;

}

broadcast proof fn step_krun(t: VmTranscript, u: VmTranscript, q: VmRequestView, func: Seq<char>)
    requires
        t.replays_in(u),
    ensures
        in_step(#[trigger] krun_run(t, q, func), #[trigger] krun_run(u, q, func)),
{
    broadcast use group_in_step;

}

pub broadcast proof fn go_krun_texts(
    t: VmTranscript,
    list: Seq<Seq<char>>,
    q: VmRequestView,
    func: Seq<char>,
)
    ensures
        goes_on(t, (#[trigger] krun_texts_run(t, list, q, func)).0),
{
    broadcast use {group_in_step, go_krun, step_krun};

}

broadcast proof fn step_krun_texts(
    t: VmTranscript,
    u: VmTranscript,
    list: Seq<Seq<char>>,
    q: VmRequestView,
    func: Seq<char>,
)
    requires
        t.replays_in(u),
    ensures
        in_step(
            #[trigger] krun_texts_run(t, list, q, func),
            #[trigger] krun_texts_run(u, list, q, func),
        ),
{
    broadcast use {group_in_step, go_krun, step_krun};

}

pub broadcast proof fn go_stop(t: VmTranscript, proxy: Option<ProxyView>)
    ensures
        goes_on(t, #[trigger] stop_run(t, proxy)),
{
    broadcast use group_in_step;

}

broadcast proof fn step_stop(t: VmTranscript, u: VmTranscript, proxy: Option<ProxyView>)
    requires
        t.replays_in(u),
    ensures
        (#[trigger] stop_run(t, proxy)).replays_in(#[trigger] stop_run(u, proxy)),
{
    broadcast use group_in_step;

}

broadcast group group_calls {
    go_krun,
    step_krun,
    go_krun_texts,
    step_krun_texts,
    go_stop,
    step_stop,
}

pub broadcast proof fn go_context(t: VmTranscript, log_level: u32)
    ensures
        goes_on(t, (#[trigger] context_run(t, log_level)).0),
{
    broadcast use {group_in_step, group_calls};

}

broadcast proof fn step_context(t: VmTranscript, u: VmTranscript, log_level: u32)
    requires
        t.replays_in(u),
    ensures
        in_step(#[trigger] context_run(t, log_level), #[trigger] context_run(u, log_level)),
{
    broadcast use {group_in_step, group_calls};

}

pub broadcast proof fn go_disk(t: VmTranscript, ctx: u32, disk: DiskView)
    ensures
        goes_on(t, (#[trigger] disk_run(t, ctx, disk)).0),
{
    broadcast use {group_in_step, group_calls};

}

broadcast proof fn step_disk(t: VmTranscript, u: VmTranscript, ctx: u32, disk: DiskView)
    requires
        t.replays_in(u),
    ensures
        in_step(#[trigger] disk_run(t, ctx, disk), #[trigger] disk_run(u, ctx, disk)),
{
    broadcast use {group_in_step, group_calls};

}

pub broadcast proof fn go_setup(t: VmTranscript, ctx: u32, config: VmView)
    ensures
        goes_on(t, (#[trigger] setup_run(t, ctx, config)).0),
{
    broadcast use {group_in_step, group_calls, go_disk, step_disk};

}

broadcast proof fn step_setup(t: VmTranscript, u: VmTranscript, ctx: u32, config: VmView)
    requires
        t.replays_in(u),
    ensures
        in_step(#[trigger] setup_run(t, ctx, config), #[trigger] setup_run(u, ctx, config)),
{
    broadcast use {group_in_step, group_calls, go_disk, step_disk};

}

pub broadcast proof fn go_vsock_off(t: VmTranscript, ctx: u32)
    ensures
        goes_on(t, (#[trigger] vsock_off_run(t, ctx)).0),
{
    broadcast use {group_in_step, group_calls};

}

broadcast proof fn step_vsock_off(t: VmTranscript, u: VmTranscript, ctx: u32)
    requires
        t.replays_in(u),
    ensures
        in_step(#[trigger] vsock_off_run(t, ctx), #[trigger] vsock_off_run(u, ctx)),
{
    broadcast use {group_in_step, group_calls};

}

pub broadcast proof fn go_net_device(t: VmTranscript, ctx: u32, host_os: HostOs, socket: Seq<char>)
    ensures
        goes_on(t, (#[trigger] net_device_run(t, ctx, host_os, socket)).0),
{
    broadcast use {group_in_step, group_calls, go_vsock_off, step_vsock_off};

}

broadcast proof fn step_net_device(
    t: VmTranscript,
    u: VmTranscript,
    ctx: u32,
    host_os: HostOs,
    socket: Seq<char>,
)
    requires
        t.replays_in(u),
    ensures
        in_step(
            #[trigger] net_device_run(t, ctx, host_os, socket),
            #[trigger] net_device_run(u, ctx, host_os, socket),
        ),
{
    broadcast use {group_in_step, group_calls, go_vsock_off, step_vsock_off};

}

pub broadcast proof fn go_wait_socket(
    t: VmTranscript,
    path: Seq<char>,
    deadline: int,
    interval: u64,
    cap: u64,
)
    ensures
        goes_on(t, (#[trigger] wait_socket_run(t, path, deadline, interval, cap)).0),
    decreases t.replies.len() + 1 - t.asked.len(),
{
    broadcast use group_in_step;

    if t.live() {
        let v = t.ask(VmRequestView::Exists { path });
        let x = v.ask(VmRequestView::Now);
        let y = x.ask(VmRequestView::Sleep { millis: interval });
        let next = next_pause(interval, cap);
        go_wait_socket(y, path, deadline, next, cap);
    }
}

broadcast proof fn step_wait_socket(
    t: VmTranscript,
    u: VmTranscript,
    path: Seq<char>,
    deadline: int,
    interval: u64,
    cap: u64,
)
    requires
        t.replays_in(u),
    ensures
        in_step(
            #[trigger] wait_socket_run(t, path, deadline, interval, cap),
            #[trigger] wait_socket_run(u, path, deadline, interval, cap),
        ),
    decreases t.replies.len() + 1 - t.asked.len(),
{
    broadcast use group_in_step;

    go_wait_socket(u, path, deadline, interval, cap);
    if t.live() {
        let v = t.ask(VmRequestView::Exists { path });
        let x = v.ask(VmRequestView::Now);
        let y = x.ask(VmRequestView::Sleep { millis: interval });
        let v2 = u.ask(VmRequestView::Exists { path });
        let x2 = v2.ask(VmRequestView::Now);
        let y2 = x2.ask(VmRequestView::Sleep { millis: interval });
        let next = next_pause(interval, cap);
        step_wait_socket(y, y2, path, deadline, next, cap);
        go_wait_socket(y, path, deadline, next, cap);
        go_wait_socket(y2, path, deadline, next, cap);
    }
}

pub broadcast proof fn go_expose(
    t: VmTranscript,
    socket: Seq<char>,
    body: Seq<char>,
    deadline: int,
    interval: u64,
)
    ensures
        goes_on(t, (#[trigger] expose_run(t, socket, body, deadline, interval)).0),
    decreases t.replies.len() + 1 - t.asked.len(),
{
    broadcast use group_in_step;

    if t.live() {
        let v = t.ask(VmRequestView::ExposePort { socket, body });
        let x = v.ask(VmRequestView::Now);
        let y = x.ask(VmRequestView::Sleep { millis: interval });
        let next = next_pause(interval, 1000);
        go_expose(y, socket, body, deadline, next);
    }
}

broadcast proof fn step_expose(
    t: VmTranscript,
    u: VmTranscript,
    socket: Seq<char>,
    body: Seq<char>,
    deadline: int,
    interval: u64,
)
    requires
        t.replays_in(u),
    ensures
        in_step(
            #[trigger] expose_run(t, socket, body, deadline, interval),
            #[trigger] expose_run(u, socket, body, deadline, interval),
        ),
    decreases t.replies.len() + 1 - t.asked.len(),
{
    broadcast use group_in_step;

    go_expose(u, socket, body, deadline, interval);
    if t.live() {
        let v = t.ask(VmRequestView::ExposePort { socket, body });
        let x = v.ask(VmRequestView::Now);
        let y = x.ask(VmRequestView::Sleep { millis: interval });
        let v2 = u.ask(VmRequestView::ExposePort { socket, body });
        let x2 = v2.ask(VmRequestView::Now);
        let y2 = x2.ask(VmRequestView::Sleep { millis: interval });
        let next = next_pause(interval, 1000);
        step_expose(y, y2, socket, body, deadline, next);
        go_expose(y, socket, body, deadline, next);
        go_expose(y2, socket, body, deadline, next);
    }
}

pub broadcast proof fn go_free_ports(t: VmTranscript, ports: Seq<Seq<char>>, i: nat)
    ensures
        goes_on(t, #[trigger] free_ports_run(t, ports, i)),
    decreases ports.len() - i,
{
    broadcast use group_in_step;

    if i < ports.len() {
        match unsigned_value(split_on(ports[i as int], ':')[0], 65535) {
            Some(port) => {
                let q = VmRequestView::KillStaleProxyByPort { port: port as u16 };
                go_free_ports(t.ask(q), ports, i + 1);
            },
            None => {
                go_free_ports(t, ports, i + 1);
            },
        }
    }
}

broadcast proof fn step_free_ports(t: VmTranscript, u: VmTranscript, ports: Seq<Seq<char>>, i: nat)
    requires
        t.replays_in(u),
    ensures
        (#[trigger] free_ports_run(t, ports, i)).replays_in(#[trigger] free_ports_run(u, ports, i)),
    decreases ports.len() - i,
{
    broadcast use group_in_step;

    if i < ports.len() {
        match unsigned_value(split_on(ports[i as int], ':')[0], 65535) {
            Some(port) => {
                let q = VmRequestView::KillStaleProxyByPort { port: port as u16 };
                step_free_ports(t.ask(q), u.ask(q), ports, i + 1);
            },
            None => {
                step_free_ports(t, u, ports, i + 1);
            },
        }
    }
}

pub broadcast proof fn go_proxy_spawn(
    t: VmTranscript,
    config: VmView,
    binary: Seq<char>,
    base: Seq<char>,
)
    ensures
        goes_on(t, (#[trigger] proxy_spawn_run(t, config, binary, base)).0),
{
    broadcast use {group_in_step, go_wait_socket, step_wait_socket};

}

broadcast proof fn step_proxy_spawn(
    t: VmTranscript,
    u: VmTranscript,
    config: VmView,
    binary: Seq<char>,
    base: Seq<char>,
)
    requires
        t.replays_in(u),
    ensures
        in_step(
            #[trigger] proxy_spawn_run(t, config, binary, base),
            #[trigger] proxy_spawn_run(u, config, binary, base),
        ),
{
    broadcast use {group_in_step, go_wait_socket, step_wait_socket};

}

pub broadcast proof fn go_proxy(t: VmTranscript, config: VmView)
    ensures
        goes_on(t, (#[trigger] proxy_run(t, config)).0),
{
    broadcast use {group_in_step, go_free_ports, step_free_ports, go_proxy_spawn, step_proxy_spawn};

}

broadcast proof fn step_proxy(t: VmTranscript, u: VmTranscript, config: VmView)
    requires
        t.replays_in(u),
    ensures
        in_step(#[trigger] proxy_run(t, config), #[trigger] proxy_run(u, config)),
{
    broadcast use {group_in_step, go_free_ports, step_free_ports, go_proxy_spawn, step_proxy_spawn};

}

pub broadcast proof fn go_forward_each(
    t: VmTranscript,
    socket: Seq<char>,
    port_map: Seq<Seq<char>>,
    i: nat,
)
    ensures
        goes_on(t, (#[trigger] forward_each_run(t, socket, port_map, i)).0),
    decreases port_map.len() - i,
{
    broadcast use {group_in_step, go_expose, step_expose};

    if i < port_map.len() {
        match mapped_ports(port_map[i as int]) {
            Some((host_port, guest_port)) => {
                let body = expose_body(host_port, guest_port);
                let v = t.ask(VmRequestView::Now);
                let v_deadline = vm_answer(v).nanos + EXPOSE_DEADLINE_NANOS;
                let x = expose_run(v, socket, body, v_deadline, 100).0;
                go_forward_each(x, socket, port_map, i + 1);
            },
            None => {
                go_forward_each(t, socket, port_map, i + 1);
            },
        }
    }
}

broadcast proof fn step_forward_each(
    t: VmTranscript,
    u: VmTranscript,
    socket: Seq<char>,
    port_map: Seq<Seq<char>>,
    i: nat,
)
    requires
        t.replays_in(u),
    ensures
        in_step(
            #[trigger] forward_each_run(t, socket, port_map, i),
            #[trigger] forward_each_run(u, socket, port_map, i),
        ),
    decreases port_map.len() - i,
{
    broadcast use {group_in_step, go_expose, step_expose};

    if i < port_map.len() {
        match mapped_ports(port_map[i as int]) {
            Some((host_port, guest_port)) => {
                let body = expose_body(host_port, guest_port);
                let v = t.ask(VmRequestView::Now);
                let v_deadline = vm_answer(v).nanos + EXPOSE_DEADLINE_NANOS;
                let x = expose_run(v, socket, body, v_deadline, 100).0;
                let w = u.ask(VmRequestView::Now);
                let w_deadline = vm_answer(w).nanos + EXPOSE_DEADLINE_NANOS;
                let y = expose_run(w, socket, body, w_deadline, 100).0;
                step_forward_each(x, y, socket, port_map, i + 1);
                go_forward_each(x, socket, port_map, i + 1);
                go_forward_each(y, socket, port_map, i + 1);
            },
            None => {
                step_forward_each(t, u, socket, port_map, i + 1);
            },
        }
    }
}

pub broadcast proof fn go_forward(t: VmTranscript, socket: Seq<char>, port_map: Seq<Seq<char>>)
    ensures
        goes_on(t, (#[trigger] forward_run(t, socket, port_map)).0),
{
    broadcast use {
        group_in_step,
        go_wait_socket,
        step_wait_socket,
        go_forward_each,
        step_forward_each,
    };

}

broadcast proof fn step_forward(
    t: VmTranscript,
    u: VmTranscript,
    socket: Seq<char>,
    port_map: Seq<Seq<char>>,
)
    requires
        t.replays_in(u),
    ensures
        in_step(
            #[trigger] forward_run(t, socket, port_map),
            #[trigger] forward_run(u, socket, port_map),
        ),
{
    broadcast use {
        group_in_step,
        go_wait_socket,
        step_wait_socket,
        go_forward_each,
        step_forward_each,
    };

}

pub broadcast proof fn go_net(t: VmTranscript, ctx: u32, config: VmView)
    ensures
        goes_on(t, (#[trigger] net_run(t, ctx, config)).0),
{
    broadcast use {
        group_in_step,
        group_calls,
        go_vsock_off,
        step_vsock_off,
        go_net_device,
        step_net_device,
        go_proxy,
        step_proxy,
    };

}

broadcast proof fn step_net(t: VmTranscript, u: VmTranscript, ctx: u32, config: VmView)
    requires
        t.replays_in(u),
    ensures
        in_step(#[trigger] net_run(t, ctx, config), #[trigger] net_run(u, ctx, config)),
{
    broadcast use {
        group_in_step,
        group_calls,
        go_vsock_off,
        step_vsock_off,
        go_net_device,
        step_net_device,
        go_proxy,
        step_proxy,
    };

}

pub broadcast proof fn go_socket_dir(t: VmTranscript, socket: Seq<char>)
    ensures
        goes_on(t, (#[trigger] socket_dir_run(t, socket)).0),
{
    broadcast use group_in_step;

}

broadcast proof fn step_socket_dir(t: VmTranscript, u: VmTranscript, socket: Seq<char>)
    requires
        t.replays_in(u),
    ensures
        in_step(#[trigger] socket_dir_run(t, socket), #[trigger] socket_dir_run(u, socket)),
{
    broadcast use group_in_step;

}

pub broadcast proof fn go_vsock(t: VmTranscript, ctx: u32, ports: Seq<VsockView>, i: nat)
    ensures
        goes_on(t, (#[trigger] vsock_run(t, ctx, ports, i)).0),
    decreases ports.len() - i,
{
    broadcast use {group_in_step, group_calls, go_socket_dir, step_socket_dir};

    if i < ports.len() {
        let p = ports[i as int];
        let q = VmRequestView::AddVsockPort {
            ctx,
            guest_port: p.port,
            socket: p.socket_path,
            listen: p.listen,
        };
        let v = socket_dir_run(t, p.socket_path).0;
        let x = v.ask(VmRequestView::RemoveFile { path: p.socket_path });
        let y = krun_texts_run(x, seq![p.socket_path], q, "krun_add_vsock_port2"@).0;
        go_vsock(y, ctx, ports, i + 1);
    }
}

broadcast proof fn step_vsock(
    t: VmTranscript,
    u: VmTranscript,
    ctx: u32,
    ports: Seq<VsockView>,
    i: nat,
)
    requires
        t.replays_in(u),
    ensures
        in_step(#[trigger] vsock_run(t, ctx, ports, i), #[trigger] vsock_run(u, ctx, ports, i)),
    decreases ports.len() - i,
{
    broadcast use {group_in_step, group_calls, go_socket_dir, step_socket_dir};

    if i < ports.len() {
        let p = ports[i as int];
        let q = VmRequestView::AddVsockPort {
            ctx,
            guest_port: p.port,
            socket: p.socket_path,
            listen: p.listen,
        };
        let v = socket_dir_run(t, p.socket_path).0;
        let x = v.ask(VmRequestView::RemoveFile { path: p.socket_path });
        let y = krun_texts_run(x, seq![p.socket_path], q, "krun_add_vsock_port2"@).0;
        let v2 = socket_dir_run(u, p.socket_path).0;
        let x2 = v2.ask(VmRequestView::RemoveFile { path: p.socket_path });
        let y2 = krun_texts_run(x2, seq![p.socket_path], q, "krun_add_vsock_port2"@).0;
        step_vsock(y, y2, ctx, ports, i + 1);
        go_vsock(y, ctx, ports, i + 1);
        go_vsock(y2, ctx, ports, i + 1);
    }
}

pub broadcast proof fn go_port_map(t: VmTranscript, ctx: u32, config: VmView)
    ensures
        goes_on(t, (#[trigger] port_map_run(t, ctx, config)).0),
{
    broadcast use {group_in_step, group_calls};

}

broadcast proof fn step_port_map(t: VmTranscript, u: VmTranscript, ctx: u32, config: VmView)
    requires
        t.replays_in(u),
    ensures
        in_step(#[trigger] port_map_run(t, ctx, config), #[trigger] port_map_run(u, ctx, config)),
{
    broadcast use {group_in_step, group_calls};

}

pub broadcast proof fn go_exec(t: VmTranscript, ctx: u32, config: VmView)
    ensures
        goes_on(t, (#[trigger] exec_run(t, ctx, config)).0),
{
    broadcast use {group_in_step, group_calls};

}

broadcast proof fn step_exec(t: VmTranscript, u: VmTranscript, ctx: u32, config: VmView)
    requires
        t.replays_in(u),
    ensures
        in_step(#[trigger] exec_run(t, ctx, config), #[trigger] exec_run(u, ctx, config)),
{
    broadcast use {group_in_step, group_calls};

}

pub broadcast proof fn go_program(t: VmTranscript, ctx: u32, config: VmView)
    ensures
        goes_on(t, (#[trigger] program_run(t, ctx, config)).0),
{
    broadcast use {
        group_in_step,
        group_calls,
        go_vsock,
        step_vsock,
        go_port_map,
        step_port_map,
        go_exec,
        step_exec,
    };

}

broadcast proof fn step_program(t: VmTranscript, u: VmTranscript, ctx: u32, config: VmView)
    requires
        t.replays_in(u),
    ensures
        in_step(#[trigger] program_run(t, ctx, config), #[trigger] program_run(u, ctx, config)),
{
    broadcast use {
        group_in_step,
        group_calls,
        go_vsock,
        step_vsock,
        go_port_map,
        step_port_map,
        go_exec,
        step_exec,
    };

}

pub broadcast proof fn go_describe(t: VmTranscript, config: VmView, pid: i32, proxy: Option<ProxyView>)
    ensures
        goes_on(t, (#[trigger] describe_run(t, config, pid, proxy)).0),
{
    broadcast use {group_in_step, group_calls};

}

broadcast proof fn step_describe(
    t: VmTranscript,
    u: VmTranscript,
    config: VmView,
    pid: i32,
    proxy: Option<ProxyView>,
)
    requires
        t.replays_in(u),
    ensures
        in_step(
            #[trigger] describe_run(t, config, pid, proxy),
            #[trigger] describe_run(u, config, pid, proxy),
        ),
{
    broadcast use {group_in_step, group_calls};

}

pub broadcast proof fn go_gateway(t: VmTranscript, config: VmView)
    ensures
        goes_on(t, (#[trigger] gateway_run(t, config)).0),
{
    broadcast use group_in_step;

}

broadcast proof fn step_gateway(t: VmTranscript, u: VmTranscript, config: VmView)
    requires
        t.replays_in(u),
    ensures
        in_step(#[trigger] gateway_run(t, config), #[trigger] gateway_run(u, config)),
{
    broadcast use group_in_step;

}

pub broadcast proof fn go_reach(t: VmTranscript, config: VmView, proxy: Option<ProxyView>)
    ensures
        goes_on(t, (#[trigger] reach_run(t, config, proxy)).0),
{
    broadcast use {group_in_step, go_forward, step_forward, go_gateway, step_gateway};

}

broadcast proof fn step_reach(
    t: VmTranscript,
    u: VmTranscript,
    config: VmView,
    proxy: Option<ProxyView>,
)
    requires
        t.replays_in(u),
    ensures
        in_step(#[trigger] reach_run(t, config, proxy), #[trigger] reach_run(u, config, proxy)),
{
    broadcast use {group_in_step, go_forward, step_forward, go_gateway, step_gateway};

}

pub broadcast proof fn go_finish(t: VmTranscript, config: VmView, pid: i32, proxy: Option<ProxyView>)
    ensures
        goes_on(t, (#[trigger] finish_run(t, config, pid, proxy)).0),
{
    broadcast use {group_in_step, group_calls};

}

broadcast proof fn step_finish(
    t: VmTranscript,
    u: VmTranscript,
    config: VmView,
    pid: i32,
    proxy: Option<ProxyView>,
)
    requires
        t.replays_in(u),
    ensures
        in_step(
            #[trigger] finish_run(t, config, pid, proxy),
            #[trigger] finish_run(u, config, pid, proxy),
        ),
{
    broadcast use {group_in_step, group_calls};

}

broadcast group group_boot {
    go_describe,
    step_describe,
    go_reach,
    step_reach,
    go_finish,
    step_finish,
}

pub broadcast proof fn go_boot(t: VmTranscript, ctx: u32, config: VmView, proxy: Option<ProxyView>)
    ensures
        goes_on(t, (#[trigger] boot_run(t, ctx, config, proxy)).0),
{
    broadcast use {group_in_step, group_calls, group_boot};

}

broadcast proof fn step_boot(
    t: VmTranscript,
    u: VmTranscript,
    ctx: u32,
    config: VmView,
    proxy: Option<ProxyView>,
)
    requires
        t.replays_in(u),
    ensures
        in_step(
            #[trigger] boot_run(t, ctx, config, proxy),
            #[trigger] boot_run(u, ctx, config, proxy),
        ),
{
    broadcast use {group_in_step, group_calls, group_boot};

}

broadcast group group_launch {
    go_context,
    step_context,
    go_setup,
    step_setup,
    go_net,
    step_net,
    go_program,
    step_program,
    go_boot,
    step_boot,
}

pub broadcast proof fn go_with_context(t: VmTranscript, ctx: u32, config: VmView)
    ensures
        goes_on(t, (#[trigger] with_context_run(t, ctx, config)).0),
{
    broadcast use {group_in_step, group_calls, group_launch};

}

broadcast proof fn step_with_context(t: VmTranscript, u: VmTranscript, ctx: u32, config: VmView)
    requires
        t.replays_in(u),
    ensures
        in_step(
            #[trigger] with_context_run(t, ctx, config),
            #[trigger] with_context_run(u, ctx, config),
        ),
{
    broadcast use {group_in_step, group_calls, group_launch};

}

/// A launch can be run again with more replies: it goes on where it waited, and once
/// it has come to an end, more replies change nothing.
pub proof fn law_launching_is_replayed(t: VmTranscript, fuller: VmTranscript, config: VmView)
    requires
        t.replays_in(fuller),
    ensures
        in_step(launch_run(t, config), launch_run(fuller, config)),
{
    broadcast use {group_in_step, group_launch, go_with_context, step_with_context};

}

} // verus!
