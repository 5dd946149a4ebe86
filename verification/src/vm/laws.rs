//! What holds of a launch as a whole.

use vstd::prelude::*;

use crate::dialogue::{goes_on, group_in_step};
use crate::vm::config::VmView;
use crate::vm::gvproxy::{next_pause, proxy_run, wait_socket_run, ProxyView};
use crate::vm::host::{vm_answer, VmRequestView, VmTranscript};
use crate::vm::libkrun::{
    boot_run, console_path, context_run, describe_run, guest_env, launch_run, net_device_run,
    program_run, reach_run, setup_run, with_context_run, GATEWAY_INIT,
};
use crate::vm::replay::{go_boot, go_net_device, go_program, go_reach, go_wait_socket};

verus! {

/// A context that was made is given back, as the last thing of all.
pub proof fn law_context_is_given_back(t: VmTranscript, config: VmView)
    requires
        context_run(t, config.log_level).1 is Ok,
        launch_run(t, config).0.live(),
    ensures
        launch_run(t, config).0.asked.last() == (VmRequestView::FreeContext {
            ctx: context_run(t, config.log_level).1->Ok_0,
        }),
{
    let (u, made) = context_run(t, config.log_level);
    let (v, r) = with_context_run(u, made->Ok_0, config);
    if !v.live() {
        assert(launch_run(t, config).0 == v);
    }
}

/// The run from `from` to `to` has asked that the network proxy be stopped.
spec fn stop_asked(from: VmTranscript, to: VmTranscript) -> bool {
    &&& goes_on(from, to)
    &&& exists|k: int|
        from.asked.len() <= k < to.asked.len() && #[trigger] to.asked[k] == VmRequestView::StopProxy
}

proof fn lemma_stop_now(from: VmTranscript, t: VmTranscript)
    requires
        goes_on(from, t),
        t.ask(VmRequestView::StopProxy).live(),
    ensures
        stop_asked(from, t.ask(VmRequestView::StopProxy)),
{
    broadcast use group_in_step;

    let k = t.asked.len() as int;
    assert(t.ask(VmRequestView::StopProxy).asked[k] == VmRequestView::StopProxy);
}

proof fn lemma_stop_stays(from: VmTranscript, t: VmTranscript, later: VmTranscript)
    requires
        stop_asked(from, t),
        goes_on(t, later),
    ensures
        stop_asked(from, later),
{
    broadcast use group_in_step;

    let k = choose|k: int|
        from.asked.len() <= k < t.asked.len() && #[trigger] t.asked[k] == VmRequestView::StopProxy;
    assert(later.asked[k] == VmRequestView::StopProxy);
}

proof fn lemma_stop_earlier(from: VmTranscript, t: VmTranscript, later: VmTranscript)
    requires
        goes_on(from, t),
        stop_asked(t, later),
    ensures
        stop_asked(from, later),
{
    broadcast use group_in_step;

    let k = choose|k: int|
        t.asked.len() <= k < later.asked.len() && #[trigger] later.asked[k]
            == VmRequestView::StopProxy;
    assert(later.asked[k] == VmRequestView::StopProxy);
}

proof fn lemma_boot_stops(t: VmTranscript, ctx: u32, config: VmView, proxy: ProxyView)
    requires
        boot_run(t, ctx, config, Some(proxy)).0.live(),
    ensures
        stop_asked(t, boot_run(t, ctx, config, Some(proxy)).0),
{
    broadcast use {group_in_step, go_reach};

    let some = Some(proxy);
    let stop = VmRequestView::StopProxy;
    let t1 = t.ask(VmRequestView::Boot { ctx });
    if !vm_answer(t1).ok {
        lemma_stop_now(t, t1);
    } else {
        let pid = vm_answer(t1).code;
        let (t2, described) = describe_run(t1, config, pid, some);
        let written = t1.ask(
            VmRequestView::WriteRuntimeState {
                pid,
                console_log: console_path(config),
                proxy_pid: Some(proxy.pid),
            },
        );
        match described {
            Err(_) => {
                let ended = written.ask(VmRequestView::TerminateMachine { pid });
                lemma_stop_now(t, ended);
                lemma_stop_stays(t, ended.ask(stop), t2);
            },
            Ok(_) => {
                assert(goes_on(t1, t2));
                let (t3, reached) = reach_run(t2, config, some);
                match reached {
                    Err(_) => {
                        lemma_stop_now(t, t3);
                    },
                    Ok(_) => {
                        let t4 = t3.ask(VmRequestView::ForwardSignals { pid });
                        let t5 = t4.ask(VmRequestView::WaitChild { pid });
                        let t6 = if config.exec_path == GATEWAY_INIT@ {
                            t5.ask(VmRequestView::ClearRuntimeState)
                        } else {
                            t5
                        };
                        assert(goes_on(t, t5));
                        assert(goes_on(t, t6));
                        lemma_stop_now(t, t6);
                    },
                }
            },
        }
    }
}

/// A network proxy that a launch started does not outlive it: however the launch
/// ends, the proxy has been stopped in between.
pub proof fn law_proxy_is_stopped(t: VmTranscript, ctx: u32, config: VmView)
    requires
        config.net is Gvproxy,
        setup_run(t, ctx, config).1 is Ok,
        proxy_run(setup_run(t, ctx, config).0, config).1 is Ok,
        with_context_run(t, ctx, config).0.live(),
    ensures
        ({
            let started = proxy_run(setup_run(t, ctx, config).0, config).0;
            started.new_requests(with_context_run(t, ctx, config).0).contains(
                VmRequestView::StopProxy,
            )
        }),
{
    broadcast use {group_in_step, go_net_device, go_program, go_boot};

    let stop = VmRequestView::StopProxy;
    let a = setup_run(t, ctx, config).0;
    let (started, made) = proxy_run(a, config);
    let proxy = made->Ok_0;
    let end = with_context_run(t, ctx, config).0;
    let (b, added) = net_device_run(started, ctx, config.host_os, proxy.net_sock);
    match added {
        Err(_) => {
            lemma_stop_now(started, b);
        },
        Ok(_) => {
            let (c, set) = program_run(b, ctx, config);
            match set {
                Err(_) => {
                    lemma_stop_now(started, c);
                },
                Ok(_) => {
                    lemma_boot_stops(c, ctx, config, proxy);
                    lemma_stop_earlier(started, c, end);
                },
            }
        },
    }
    assert(stop_asked(started, end));
    let k = choose|k: int|
        started.asked.len() <= k < end.asked.len() && #[trigger] end.asked[k] == stop;
    assert(started.new_requests(end)[k - started.asked.len()] == stop);
}

/// The environment that was given is handed to the program unchanged, with nothing
/// put before it.
pub proof fn law_given_environment_stays(config: VmView)
    requires
        config.env.len() > 0,
    ensures
        config.env.is_prefix_of(guest_env(config)),
{
}

/// A wait for a socket pauses only while the clock, just read, shows that there is time
/// left, and never longer than its cap.
pub proof fn law_waits_are_bounded(
    t: VmTranscript,
    path: Seq<char>,
    deadline: int,
    interval: u64,
    cap: u64,
    k: int,
)
    requires
        interval <= cap,
        t.asked.len() <= k < wait_socket_run(t, path, deadline, interval, cap).0.asked.len(),
        wait_socket_run(t, path, deadline, interval, cap).0.asked[k] is Sleep,
    ensures
        ({
            let end = wait_socket_run(t, path, deadline, interval, cap).0;
            &&& end.asked[k]->Sleep_millis <= cap
            &&& t.asked.len() < k
            &&& end.asked[k - 1] is Now
            &&& end.replies[k - 1].nanos < deadline
        }),
    decreases t.replies.len() + 1 - t.asked.len(),
{
    broadcast use group_in_step;

    let end = wait_socket_run(t, path, deadline, interval, cap).0;
    if t.live() {
        let seen = t.ask(VmRequestView::Exists { path });
        let timed = seen.ask(VmRequestView::Now);
        let rested = timed.ask(VmRequestView::Sleep { millis: interval });
        let next = next_pause(interval, cap);
        if !vm_answer(seen).ok && vm_answer(timed).nanos < deadline {
            go_wait_socket(rested, path, deadline, next, cap);
            if k < rested.asked.len() {
                assert(end.asked[k] == rested.asked[k]);
                assert(end.asked[k - 1] == rested.asked[k - 1]);
            } else {
                law_waits_are_bounded(rested, path, deadline, next, cap, k);
            }
        }
    }
}

} // verus!
