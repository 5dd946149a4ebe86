//! What the network proxy of a machine is told.

use vstd::prelude::*;

use crate::dialogue::{
    asks_only, goes_on, group_in_step, lemma_asked_earlier, lemma_asked_now, lemma_asked_stays,
    lemma_asks_on, lemma_asks_one, was_asked,
};
use crate::paths::{joined_path, path_with_extension};
use crate::text::{
    decimal, joined, law_decimal_reads_back, law_first_piece, law_pieces_join_back, option_at,
    option_is, split_on, unsigned_value,
};
use crate::vm::config::{HostOs, NetView, VmErrorView, VmView};
use crate::vm::gvproxy::{
    expose_body, expose_run, forward_each_run, forward_run, free_ports_run, mapped_ports,
    next_pause, proxy_args, proxy_run, proxy_spawn_run, run_dir, wait_socket_run, ProxyView,
    API_DEADLINE_NANOS, EXPOSE_DEADLINE_NANOS, PROXY_DEADLINE_NANOS,
};
use crate::vm::host::{vm_answer, VmReplyView, VmRequestView, VmTranscript};
use crate::vm::laws::law_waits_are_bounded;
use crate::vm::replay::{
    go_expose, go_forward_each, go_free_ports, go_proxy_spawn, go_wait_socket,
};

verus! {

/// The operation succeeded.
pub open spec fn done() -> spec_fn(VmReplyView) -> bool {
    |a: VmReplyView| a.ok
}

/// Any reply will do.
pub open spec fn any_reply() -> spec_fn(VmReplyView) -> bool {
    |a: VmReplyView| true
}

/// The request that has the proxy at `socket` pass connections to port `host` of the
/// host on to port `guest` of the machine.
pub open spec fn forwarding(
    socket: Seq<char>,
    host: Seq<char>,
    guest: Seq<char>,
) -> VmRequestView {
    VmRequestView::ExposePort {
        socket,
        body: "{\"local\":\":"@ + host + "\",\"remote\":\"192.168.127.2:"@ + guest
            + "\",\"protocol\":\"tcp\"}"@,
    }
}

/// `mapping` stands for port `host` of the host and port `guest` of the machine: it is
/// the two with a colon between them, or the one port alone for both.
pub open spec fn stands_for(mapping: Seq<char>, host: Seq<char>, guest: Seq<char>) -> bool {
    &&& !host.contains(':') && !guest.contains(':')
    &&& mapping == host + ":"@ + guest || (mapping == host && guest == host)
}

proof fn lemma_colon()
    ensures
        ":"@ == seq![':'],
{
    reveal_strlit(":");
    assert(":"@ =~= seq![':']);
}

proof fn lemma_mapping(mapping: Seq<char>, host: Seq<char>, guest: Seq<char>)
    requires
        stands_for(mapping, host, guest),
    ensures
        mapped_ports(mapping) == Some((host, guest)),
        split_on(mapping, ':')[0] == host,
{
    lemma_colon();
    law_first_piece(host, guest, ':');
    law_first_piece(guest, Seq::empty(), ':');
    if mapping == host + ":"@ + guest {
        assert(split_on(mapping, ':') =~= seq![host, guest]);
    }
}

proof fn lemma_expose_asks(
    t: VmTranscript,
    socket: Seq<char>,
    body: Seq<char>,
    deadline: int,
    interval: u64,
)
    ensures
        ({
            let (u, exposed) = expose_run(t, socket, body, deadline, interval);
            &&& exposed ==> was_asked(t, u, VmRequestView::ExposePort { socket, body }, done())
            &&& forall|k: int|
                t.asked.len() <= k < u.asked.len() && (#[trigger] u.asked[k]) is ExposePort
                    ==> u.asked[k] == (VmRequestView::ExposePort { socket, body })
            &&& !exposed && u.live() ==> u.asked.last() is Now && vm_answer(u).nanos >= deadline
        }),
    decreases t.replies.len() + 1 - t.asked.len(),
{
    broadcast use {group_in_step, lemma_asked_earlier};

    if t.live() {
        let q = VmRequestView::ExposePort { socket, body };
        let t1 = t.ask(q);
        if vm_answer(t1).ok {
            lemma_asked_now(t, q, done());
        } else {
            let t2 = t1.ask(VmRequestView::Now);
            if vm_answer(t2).nanos < deadline {
                let t3 = t2.ask(VmRequestView::Sleep { millis: interval });
                lemma_expose_asks(t3, socket, body, deadline, next_pause(interval, 1000));
                let (u, exposed) = expose_run(
                    t3,
                    socket,
                    body,
                    deadline,
                    next_pause(interval, 1000),
                );
                go_expose(t3, socket, body, deadline, next_pause(interval, 1000));
                assert(expose_run(t, socket, body, deadline, interval) == (u, exposed));
                assert forall|k: int|
                    t.asked.len() <= k < u.asked.len() && (
                    #[trigger] u.asked[k]) is ExposePort implies u.asked[k] == q by {
                    if k < t3.asked.len() {
                        assert(u.asked[k] == t3.asked[k]);
                    }
                }
            }
        }
    }
}

proof fn lemma_each_forwarded(
    t: VmTranscript,
    socket: Seq<char>,
    port_map: Seq<Seq<char>>,
    i: nat,
    j: int,
    host: Seq<char>,
    guest: Seq<char>,
)
    requires
        i <= j < port_map.len(),
        stands_for(port_map[j], host, guest),
        forward_each_run(t, socket, port_map, i).1 is Ok,
    ensures
        was_asked(
            t,
            forward_each_run(t, socket, port_map, i).0,
            forwarding(socket, host, guest),
            done(),
        ),
    decreases port_map.len() - i,
{
    broadcast use {group_in_step, lemma_asked_earlier, lemma_asked_stays};

    match mapped_ports(port_map[i as int]) {
        None => {
            if i == j {
                lemma_mapping(port_map[j], host, guest);
            }
            lemma_each_forwarded(t, socket, port_map, i + 1, j, host, guest);
        },
        Some((h, g)) => {
            let t1 = t.ask(VmRequestView::Now);
            let deadline = vm_answer(t1).nanos + EXPOSE_DEADLINE_NANOS;
            let t2 = expose_run(t1, socket, expose_body(h, g), deadline, 100).0;
            go_expose(t1, socket, expose_body(h, g), deadline, 100);
            go_forward_each(t2, socket, port_map, i + 1);
            if i == j {
                lemma_mapping(port_map[j], host, guest);
                lemma_expose_asks(t1, socket, expose_body(h, g), deadline, 100);
                assert(was_asked(t1, t2, forwarding(socket, host, guest), done()));
                assert(was_asked(t, t2, forwarding(socket, host, guest), done()));
            } else {
                lemma_each_forwarded(t2, socket, port_map, i + 1, j, host, guest);
            }
        },
    }
}

/// Every port that a machine is to be reached on is forwarded: where setting it up has
/// succeeded, the proxy has accepted, for each mapping `host:guest`, that connections to
/// the first port go to the second, and for a single port, to the same.
pub proof fn law_mapped_ports_are_forwarded(
    t: VmTranscript,
    socket: Seq<char>,
    port_map: Seq<Seq<char>>,
    j: int,
    host: Seq<char>,
    guest: Seq<char>,
)
    requires
        0 <= j < port_map.len(),
        stands_for(port_map[j], host, guest),
        forward_run(t, socket, port_map).1 is Ok,
    ensures
        was_asked(
            t,
            forward_run(t, socket, port_map).0,
            forwarding(socket, host, guest),
            done(),
        ),
{
    broadcast use {group_in_step, lemma_asked_earlier};

    let t1 = t.ask(VmRequestView::Now);
    let deadline = vm_answer(t1).nanos + API_DEADLINE_NANOS;
    let t2 = wait_socket_run(t1, socket, deadline, 5, 200).0;
    go_wait_socket(t1, socket, deadline, 5, 200);
    lemma_each_forwarded(t2, socket, port_map, 0, j, host, guest);
    assert(goes_on(t, t2));
}

/// `q`, where it asks to forward a port, is for one of the mappings.
pub open spec fn only_mapped(socket: Seq<char>, port_map: Seq<Seq<char>>) -> spec_fn(
    VmRequestView,
) -> bool {
    |q: VmRequestView|
        q is ExposePort ==> exists|j: int, host: Seq<char>, guest: Seq<char>|
            0 <= j < port_map.len() && #[trigger] stands_for(port_map[j], host, guest) && q
                == forwarding(socket, host, guest)
}

proof fn lemma_pieces_are_plain(s: Seq<char>, sep: char)
    ensures
        forall|i: int|
            0 <= i < split_on(s, sep).len() ==> !(#[trigger] split_on(s, sep)[i]).contains(sep),
    decreases s.len(),
{
    let all = split_on(s, sep);
    if s.len() > 0 {
        let before = split_on(s.drop_last(), sep);
        lemma_pieces_are_plain(s.drop_last(), sep);
        law_pieces_join_back(s.drop_last(), sep);
        assert forall|i: int| 0 <= i < all.len() implies !(#[trigger] all[i]).contains(sep) by {
            if all[i].contains(sep) {
                let k = choose|k: int| 0 <= k < all[i].len() && all[i][k] == sep;
                if s.last() == sep {
                    if i < before.len() {
                        assert(all[i] == before[i]);
                    }
                } else if i < before.len() - 1 {
                    assert(all[i] == before[i]);
                } else {
                    assert(all[i] == before.last().push(s.last()));
                    if k < before.last().len() {
                        assert(before.last()[k] == sep);
                        assert(before[before.len() - 1].contains(sep));
                    }
                }
            }
        }
    }
}

pub proof fn lemma_mapped(mapping: Seq<char>)
    requires
        mapped_ports(mapping) is Some,
    ensures
        stands_for(mapping, (mapped_ports(mapping)->0).0, (mapped_ports(mapping)->0).1),
{
    lemma_colon();
    let parts = split_on(mapping, ':');
    lemma_pieces_are_plain(mapping, ':');
    law_pieces_join_back(mapping, ':');
    let whole = joined(parts, seq![':']);
    reveal_with_fuel(joined, 3);
    assert(!parts[0].contains(':'));
    if parts.len() == 2 {
        assert(!parts[1].contains(':'));
        assert(parts.drop_last() =~= seq![parts[0]]);
        assert(whole == parts[0] + seq![':'] + parts[1]);
    }
}

proof fn lemma_only_mapped(
    t: VmTranscript,
    socket: Seq<char>,
    port_map: Seq<Seq<char>>,
    i: nat,
)
    ensures
        asks_only(
            t,
            forward_each_run(t, socket, port_map, i).0,
            only_mapped(socket, port_map),
        ),
    decreases port_map.len() - i,
{
    broadcast use group_in_step;

    let p = only_mapped(socket, port_map);
    if i < port_map.len() {
        match mapped_ports(port_map[i as int]) {
            None => {
                lemma_only_mapped(t, socket, port_map, i + 1);
            },
            Some((h, g)) => {
                let t1 = t.ask(VmRequestView::Now);
                let deadline = vm_answer(t1).nanos + EXPOSE_DEADLINE_NANOS;
                let t2 = expose_run(t1, socket, expose_body(h, g), deadline, 100).0;
                lemma_asks_one(t, VmRequestView::Now, p);
                lemma_expose_asks(t1, socket, expose_body(h, g), deadline, 100);
                go_expose(t1, socket, expose_body(h, g), deadline, 100);
                lemma_mapped(port_map[i as int]);
                assert(stands_for(port_map[i as int], h, g));
                assert(asks_only(t1, t2, p)) by {
                    assert forall|k: int| t1.asked.len() <= k < t2.asked.len() implies p(
                        #[trigger] t2.asked[k],
                    ) by {
                        if t2.asked[k] is ExposePort {
                            assert(t2.asked[k] == forwarding(socket, h, g));
                        }
                    }
                }
                lemma_asks_on(t, t1, t2, p);
                lemma_only_mapped(t2, socket, port_map, i + 1);
                lemma_asks_on(t, t2, forward_each_run(t2, socket, port_map, i + 1).0, p);
            },
        }
    }
}

pub proof fn lemma_wait_asks(
    t: VmTranscript,
    path: Seq<char>,
    deadline: int,
    interval: u64,
    cap: u64,
)
    ensures
        ({
            let (u, up) = wait_socket_run(t, path, deadline, interval, cap);
            &&& forall|k: int|
                t.asked.len() <= k < u.asked.len() ==> {
                    ||| #[trigger] u.asked[k] == (VmRequestView::Exists { path })
                    ||| u.asked[k] is Now
                    ||| u.asked[k] is Sleep
                }
            &&& up ==> was_asked(t, u, VmRequestView::Exists { path }, done())
            &&& !up && u.live() ==> u.asked.last() is Now && vm_answer(u).nanos >= deadline
        }),
    decreases t.replies.len() + 1 - t.asked.len(),
{
    broadcast use {group_in_step, lemma_asked_earlier};

    if t.live() {
        let q = VmRequestView::Exists { path };
        let t1 = t.ask(q);
        if vm_answer(t1).ok {
            lemma_asked_now(t, q, done());
        } else {
            let t2 = t1.ask(VmRequestView::Now);
            if vm_answer(t2).nanos < deadline {
                let t3 = t2.ask(VmRequestView::Sleep { millis: interval });
                let next = next_pause(interval, cap);
                lemma_wait_asks(t3, path, deadline, next, cap);
                go_wait_socket(t3, path, deadline, next, cap);
                let (u, up) = wait_socket_run(t3, path, deadline, next, cap);
                assert(wait_socket_run(t, path, deadline, interval, cap) == (u, up));
                assert forall|k: int| t.asked.len() <= k < u.asked.len() implies {
                    ||| #[trigger] u.asked[k] == (VmRequestView::Exists { path })
                    ||| u.asked[k] is Now
                    ||| u.asked[k] is Sleep
                } by {
                    if k < t3.asked.len() {
                        assert(u.asked[k] == t3.asked[k]);
                    }
                }
            }
        }
    }
}

/// No port is forwarded that was not asked for: every request to the proxy is for one of
/// the mappings, with its host port on the host's side and its guest port on the
/// machine's.
pub proof fn law_only_mapped_ports_are_forwarded(
    t: VmTranscript,
    socket: Seq<char>,
    port_map: Seq<Seq<char>>,
)
    ensures
        asks_only(t, forward_run(t, socket, port_map).0, only_mapped(socket, port_map)),
{
    broadcast use group_in_step;

    let p = only_mapped(socket, port_map);
    let t1 = t.ask(VmRequestView::Now);
    let deadline = vm_answer(t1).nanos + API_DEADLINE_NANOS;
    let t2 = wait_socket_run(t1, socket, deadline, 5, 200).0;
    go_wait_socket(t1, socket, deadline, 5, 200);
    lemma_asks_one(t, VmRequestView::Now, p);
    lemma_wait_asks(t1, socket, deadline, 5, 200);
    assert(asks_only(t1, t2, p));
    lemma_asks_on(t, t1, t2, p);
    lemma_only_mapped(t2, socket, port_map, 0);
    lemma_asks_on(t, t2, forward_each_run(t2, socket, port_map, 0).0, p);
}

proof fn lemma_gives_up_late(
    t: VmTranscript,
    socket: Seq<char>,
    port_map: Seq<Seq<char>>,
    i: nat,
)
    requires
        forward_each_run(t, socket, port_map, i).1 is Err,
        forward_each_run(t, socket, port_map, i).0.live(),
    ensures
        ({
            let (u, r) = forward_each_run(t, socket, port_map, i);
            &&& u.asked.last() is Now
            &&& exists|j: int, host: Seq<char>, guest: Seq<char>, k: int|
                0 <= j < port_map.len() && #[trigger] stands_for(port_map[j], host, guest)
                    && t.asked.len() <= k < u.asked.len() && #[trigger] u.asked[k] is Now
                    && vm_answer(u).nanos >= u.replies[k].nanos + 10_000_000_000
                    && u.asked[u.asked.len() - 2] == forwarding(socket, host, guest) && r == Err::<
                    (),
                    VmErrorView,
                >(
                    VmErrorView::HostSetup {
                        message: "failed to forward port "@ + host + " via gvproxy"@,
                    },
                )
        }),
    decreases port_map.len() - i,
{
    broadcast use group_in_step;

    let (u, r) = forward_each_run(t, socket, port_map, i);
    match mapped_ports(port_map[i as int]) {
        None => {
            lemma_gives_up_late(t, socket, port_map, i + 1);
        },
        Some((h, g)) => {
            let t1 = t.ask(VmRequestView::Now);
            let deadline = vm_answer(t1).nanos + EXPOSE_DEADLINE_NANOS;
            let body = expose_body(h, g);
            let (t2, exposed) = expose_run(t1, socket, body, deadline, 100);
            go_expose(t1, socket, body, deadline, 100);
            if exposed {
                go_forward_each(t2, socket, port_map, i + 1);
                lemma_gives_up_late(t2, socket, port_map, i + 1);
                let (j, host, guest, k) = choose|j: int, host: Seq<char>, guest: Seq<char>, k: int|
                    0 <= j < port_map.len() && #[trigger] stands_for(port_map[j], host, guest)
                        && t2.asked.len() <= k < u.asked.len() && #[trigger] u.asked[k] is Now
                        && vm_answer(u).nanos >= u.replies[k].nanos + 10_000_000_000
                        && u.asked[u.asked.len() - 2] == forwarding(socket, host, guest) && r
                        == Err::<(), VmErrorView>(
                        VmErrorView::HostSetup {
                            message: "failed to forward port "@ + host + " via gvproxy"@,
                        },
                    );
                assert(stands_for(port_map[j], host, guest));
                assert(u.asked[k] is Now);
            } else {
                lemma_mapped(port_map[i as int]);
                lemma_expose_asks(t1, socket, body, deadline, 100);
                lemma_expose_ends(t1, socket, body, deadline, 100);
                assert(stands_for(port_map[i as int], h, g));
                let k = t.asked.len() as int;
                assert(t2.asked[k] == t1.asked[k]);
                assert(u.asked[k] is Now);
            }
        },
    }
}

proof fn lemma_expose_ends(
    t: VmTranscript,
    socket: Seq<char>,
    body: Seq<char>,
    deadline: int,
    interval: u64,
)
    requires
        t.live(),
        !expose_run(t, socket, body, deadline, interval).1,
        expose_run(t, socket, body, deadline, interval).0.live(),
    ensures
        ({
            let u = expose_run(t, socket, body, deadline, interval).0;
            &&& u.asked.len() >= t.asked.len() + 2
            &&& u.asked[u.asked.len() - 2] == (VmRequestView::ExposePort { socket, body })
        }),
    decreases t.replies.len() + 1 - t.asked.len(),
{
    broadcast use group_in_step;

    let t1 = t.ask(VmRequestView::ExposePort { socket, body });
    let t2 = t1.ask(VmRequestView::Now);
    if vm_answer(t2).nanos < deadline {
        let t3 = t2.ask(VmRequestView::Sleep { millis: interval });
        go_expose(t3, socket, body, deadline, next_pause(interval, 1000));
        if t3.live() {
            lemma_expose_ends(t3, socket, body, deadline, next_pause(interval, 1000));
        }
    }
}

/// Forwarding fails only where the proxy did not accept a port for ten seconds: the
/// clock, read last of all, shows at least that much more than when the port's turn
/// came, the port was asked for just before, and the failure names it.
pub proof fn law_forwarding_gives_up_late(
    t: VmTranscript,
    socket: Seq<char>,
    port_map: Seq<Seq<char>>,
)
    requires
        forward_run(t, socket, port_map).1 is Err,
        forward_run(t, socket, port_map).0.live(),
    ensures
        ({
            let (u, r) = forward_run(t, socket, port_map);
            &&& u.asked.last() is Now
            &&& exists|j: int, host: Seq<char>, guest: Seq<char>, k: int|
                0 <= j < port_map.len() && #[trigger] stands_for(port_map[j], host, guest)
                    && t.asked.len() <= k < u.asked.len() && #[trigger] u.asked[k] is Now
                    && vm_answer(u).nanos >= u.replies[k].nanos + 10_000_000_000
                    && u.asked[u.asked.len() - 2] == forwarding(socket, host, guest) && r == Err::<
                    (),
                    VmErrorView,
                >(
                    VmErrorView::HostSetup {
                        message: "failed to forward port "@ + host + " via gvproxy"@,
                    },
                )
        }),
{
    broadcast use group_in_step;

    let (u, r) = forward_run(t, socket, port_map);
    let t1 = t.ask(VmRequestView::Now);
    let deadline = vm_answer(t1).nanos + API_DEADLINE_NANOS;
    let t2 = wait_socket_run(t1, socket, deadline, 5, 200).0;
    go_wait_socket(t1, socket, deadline, 5, 200);
    lemma_gives_up_late(t2, socket, port_map, 0);
    let (j, host, guest, k) = choose|j: int, host: Seq<char>, guest: Seq<char>, k: int|
        0 <= j < port_map.len() && #[trigger] stands_for(port_map[j], host, guest)
            && t2.asked.len() <= k < u.asked.len() && #[trigger] u.asked[k] is Now && vm_answer(
            u,
        ).nanos >= u.replies[k].nanos + 10_000_000_000 && u.asked[u.asked.len() - 2] == forwarding(
            socket,
            host,
            guest,
        ) && r == Err::<(), VmErrorView>(
            VmErrorView::HostSetup {
                message: "failed to forward port "@ + host + " via gvproxy"@,
            },
        );
    assert(stands_for(port_map[j], host, guest));
    assert(u.asked[k] is Now);
}

/// The reply gives this text.
pub open spec fn says(text: Seq<char>) -> spec_fn(VmReplyView) -> bool {
    |a: VmReplyView| a.ok && a.text == text
}

/// The reply gives this port.
pub open spec fn names_port(port: u16) -> spec_fn(VmReplyView) -> bool {
    |a: VmReplyView| a.ok && a.port == port
}

/// The reply gives this process.
pub open spec fn names_process(pid: u32) -> spec_fn(VmReplyView) -> bool {
    |a: VmReplyView| a.ok && a.pid == pid
}

proof fn lemma_proxy_options(
    host_os: HostOs,
    net_sock: Seq<char>,
    api_sock: Seq<char>,
    ssh_port: u16,
)
    ensures
        ({
            let args = proxy_args(host_os, net_sock, api_sock, ssh_port);
            &&& args.len() == 6
            &&& option_is(args, "-listen"@, "unix://"@ + api_sock)
            &&& option_is(args, "-ssh-port"@, decimal(ssh_port as nat))
            &&& if host_os == HostOs::Linux {
                option_is(args, "-listen-qemu"@, "unix://"@ + net_sock)
            } else {
                option_is(args, "-listen-vfkit"@, "unixgram://"@ + net_sock)
            }
        }),
{
    reveal_strlit("-listen");
    reveal_strlit("-ssh-port");
    reveal_strlit("-listen-qemu");
    reveal_strlit("-listen-vfkit");
    let args = proxy_args(host_os, net_sock, api_sock, ssh_port);
    let qemu = if host_os == HostOs::Linux {
        "-listen-qemu"@
    } else {
        "-listen-vfkit"@
    };
    assert(option_at(args, 0).0 == qemu);
    assert(option_at(args, 1) == ("-listen"@, "unix://"@ + api_sock));
    assert(option_at(args, 2) == ("-ssh-port"@, decimal(ssh_port as nat)));
    assert("-listen"@.len() == 7 && "-ssh-port"@.len() == 9 && qemu.len() >= 12);
    assert forall|i: int| 0 <= i && 2 * i + 1 < args.len() implies #[trigger] option_at(args, i)
        == option_at(args, 0) || option_at(args, i) == option_at(args, 1) || option_at(args, i)
        == option_at(args, 2) by {
        assert(i == 0 || i == 1 || i == 2);
    }
}

/// What the proxy was started with: the sockets of its result, and the port that was
/// picked for it.
pub open spec fn told_its_sockets(
    args: Seq<Seq<char>>,
    host_os: HostOs,
    net_sock: Seq<char>,
    api_sock: Seq<char>,
    ssh_port: u16,
) -> bool {
    &&& option_is(args, "-listen"@, "unix://"@ + api_sock)
    &&& option_is(args, "-ssh-port"@, decimal(ssh_port as nat))
    &&& host_os == HostOs::Linux ==> option_is(args, "-listen-qemu"@, "unix://"@ + net_sock)
    &&& host_os != HostOs::Linux ==> option_is(args, "-listen-vfkit"@, "unixgram://"@ + net_sock)
}

/// The proxy `p` has been started and is up.
pub open spec fn proxy_is_up(
    t: VmTranscript,
    u: VmTranscript,
    config: VmView,
    binary: Seq<char>,
    base: Seq<char>,
    p: ProxyView,
    args: Seq<Seq<char>>,
    ssh_port: u16,
) -> bool {
    &&& was_asked(t, u, VmRequestView::SocketBase, says(base))
    &&& p.net_sock == path_with_extension(base, "v"@)
    &&& p.api_sock == path_with_extension(base, "a"@)
    &&& was_asked(t, u, VmRequestView::RemoveFile { path: p.net_sock }, any_reply())
    &&& was_asked(t, u, VmRequestView::RemoveFile { path: p.api_sock }, any_reply())
    &&& was_asked(
        t,
        u,
        VmRequestView::RemoveFile { path: path_with_extension(base, "v-krun.sock"@) },
        any_reply(),
    )
    &&& was_asked(t, u, VmRequestView::KillStaleProxy, any_reply())
    &&& was_asked(t, u, VmRequestView::PickSshPort, names_port(ssh_port))
    &&& was_asked(
        t,
        u,
        VmRequestView::SpawnProxy { program: binary, args },
        names_process(p.pid),
    )
    &&& told_its_sockets(args, config.host_os, p.net_sock, p.api_sock, ssh_port)
    &&& was_asked(t, u, VmRequestView::Exists { path: p.net_sock }, done())
}

#[verifier::rlimit(40)]
proof fn lemma_spawn_is_up(
    t: VmTranscript,
    config: VmView,
    binary: Seq<char>,
    base: Seq<char>,
)
    requires
        proxy_spawn_run(t, config, binary, base).1 is Ok,
    ensures
        ({
            let (u, r) = proxy_spawn_run(t, config, binary, base);
            let p = r->Ok_0;
            let ssh_port = vm_answer(t.ask(VmRequestView::PickSshPort)).port;
            let args = proxy_args(
                config.host_os,
                p.net_sock,
                p.api_sock,
                ssh_port,
            );
            &&& p.net_sock == path_with_extension(base, "v"@)
            &&& p.api_sock == path_with_extension(base, "a"@)
            &&& was_asked(t, u, VmRequestView::PickSshPort, names_port(ssh_port))
            &&& was_asked(
                t,
                u,
                VmRequestView::SpawnProxy { program: binary, args },
                names_process(p.pid),
            )
            &&& told_its_sockets(args, config.host_os, p.net_sock, p.api_sock, ssh_port)
            &&& was_asked(t, u, VmRequestView::Exists { path: p.net_sock }, done())
        }),
{
    broadcast use {group_in_step, lemma_asked_earlier, lemma_asked_stays};

    let (u, r) = proxy_spawn_run(t, config, binary, base);
    let p = r->Ok_0;
    let t1 = t.ask(VmRequestView::PickSshPort);
    let ssh_port = vm_answer(t1).port;
    let log = joined_path(
        run_dir(config.rootfs),
        config.rootfs_key + "-gvproxy.log"@,
    );
    let t2 = t1.ask(VmRequestView::CreateLog { path: log });
    let args = proxy_args(config.host_os, p.net_sock, p.api_sock, ssh_port);
    let q = VmRequestView::SpawnProxy { program: binary, args };
    let t3 = t2.ask(q);
    let t4 = t3.ask(VmRequestView::Now);
    let deadline = vm_answer(t4).nanos + PROXY_DEADLINE_NANOS;
    go_wait_socket(t4, p.net_sock, deadline, 5, 100);
    lemma_wait_asks(t4, p.net_sock, deadline, 5, 100);
    lemma_asked_now(t, VmRequestView::PickSshPort, names_port(ssh_port));
    lemma_asked_now(t2, q, names_process(p.pid));
    lemma_proxy_options(config.host_os, p.net_sock, p.api_sock, ssh_port);
    assert(goes_on(t1, u));
    assert(goes_on(t3, u));
    assert(goes_on(t, t2));
    assert(goes_on(t, t4));
}

/// What was asked on a part of the way was asked on all of it.
proof fn lemma_asked_between(
    t: VmTranscript,
    a: VmTranscript,
    b: VmTranscript,
    c: VmTranscript,
    u: VmTranscript,
    q: VmRequestView,
    good: spec_fn(VmReplyView) -> bool,
)
    requires
        goes_on(t, a),
        was_asked(a, b, q, good),
        goes_on(b, c),
        goes_on(c, u),
    ensures
        was_asked(t, u, q, good),
{
    lemma_asked_earlier(t, a, b, q, good);
    lemma_asked_stays(t, b, c, q, good);
    lemma_asked_stays(t, c, u, q, good);
}

/// A proxy that was started serves the machine: its program is the configured one, it
/// was told to listen where its result says, on sockets that were cleared before, with
/// the SSH port that was picked for it, and it is up: the socket of the machine is there.
#[verifier::rlimit(40)]
pub proof fn law_started_proxy_is_up(t: VmTranscript, config: VmView, binary: Seq<char>)
    requires
        config.net == (NetView::Gvproxy { binary }),
        proxy_run(t, config).1 is Ok,
    ensures
        ({
            let (u, r) = proxy_run(t, config);
            &&& was_asked(t, u, VmRequestView::Exists { path: binary }, done())
            &&& exists|base: Seq<char>, args: Seq<Seq<char>>, ssh_port: u16| #[trigger]
                proxy_is_up(t, u, config, binary, base, r->Ok_0, args, ssh_port)
        }),
{
    let (u, r) = proxy_run(t, config);
    let p = r->Ok_0;
    let q1 = VmRequestView::Exists { path: binary };
    let t1 = t.ask(q1);
    let t2 = t1.ask(VmRequestView::SocketBase);
    let base = vm_answer(t2).text;
    let t3 = t2.ask(VmRequestView::KillStaleProxy);
    let t4 = free_ports_run(t3, config.port_map, 0);
    let net = VmRequestView::RemoveFile { path: path_with_extension(base, "v"@) };
    let api = VmRequestView::RemoveFile { path: path_with_extension(base, "a"@) };
    let t5 = t4.ask(net);
    let t6 = t5.ask(api);
    let krun = VmRequestView::RemoveFile { path: path_with_extension(base, "v-krun.sock"@) };
    let t7 = t6.ask(krun);
    assert(goes_on(t, t4) && goes_on(t, t5) && goes_on(t, t6) && goes_on(t, t7)) by {
        broadcast use group_in_step;

        go_free_ports(t3, config.port_map, 0);
    }
    assert(goes_on(t, t1) && goes_on(t, t2) && goes_on(t1, t7) && goes_on(t2, t7)) by {
        broadcast use group_in_step;

        go_free_ports(t3, config.port_map, 0);
        assert(goes_on(t1, t4) && goes_on(t2, t4));
    }
    assert(goes_on(t3, t7) && goes_on(t5, t7) && goes_on(t6, t7)) by {
        broadcast use group_in_step;

        go_free_ports(t3, config.port_map, 0);
        assert(goes_on(t3, t4));
    }
    assert((u, r) == proxy_spawn_run(t7, config, binary, base));
    go_proxy_spawn(t7, config, binary, base);
    assert(t7.live()) by {
        if !t7.live() {
            assert(proxy_spawn_run(t7, config, binary, base).1 is Err);
        }
    }
    lemma_spawn_is_up(t7, config, binary, base);
    let ssh_port = vm_answer(t7.ask(VmRequestView::PickSshPort)).port;
    let args = proxy_args(config.host_os, p.net_sock, p.api_sock, ssh_port);
    lemma_asked_now(t, q1, done());
    lemma_asked_now(t1, VmRequestView::SocketBase, says(base));
    lemma_asked_now(t4, net, any_reply());
    lemma_asked_now(t5, api, any_reply());
    lemma_asked_now(t6, krun, any_reply());
    lemma_asked_now(t2, VmRequestView::KillStaleProxy, any_reply());
    assert(goes_on(t, t) && goes_on(u, u) && goes_on(t7, t7));
    lemma_asked_between(t, t6, t7, t7, u, krun, any_reply());
    lemma_asked_between(t, t2, t3, t7, u, VmRequestView::KillStaleProxy, any_reply());
    lemma_asked_between(t, t, t1, t7, u, q1, done());
    lemma_asked_between(t, t1, t2, t7, u, VmRequestView::SocketBase, says(base));
    lemma_asked_between(t, t4, t5, t7, u, net, any_reply());
    lemma_asked_between(t, t5, t6, t7, u, api, any_reply());
    let spawn = VmRequestView::SpawnProxy { program: binary, args };
    let up = VmRequestView::Exists { path: p.net_sock };
    lemma_asked_between(t, t7, u, u, u, VmRequestView::PickSshPort, names_port(ssh_port));
    lemma_asked_between(t, t7, u, u, u, spawn, names_process(p.pid));
    lemma_asked_between(t, t7, u, u, u, up, done());
    assert(proxy_is_up(t, u, config, binary, base, p, args, ssh_port));
}

proof fn lemma_port_freed(
    t: VmTranscript,
    ports: Seq<Seq<char>>,
    i: nat,
    j: int,
    port: u16,
)
    requires
        i <= j < ports.len(),
        split_on(ports[j], ':')[0] == decimal(port as nat),
        free_ports_run(t, ports, i).live(),
    ensures
        was_asked(
            t,
            free_ports_run(t, ports, i),
            VmRequestView::KillStaleProxyByPort { port },
            any_reply(),
        ),
    decreases ports.len() - i,
{
    broadcast use {group_in_step, lemma_asked_earlier, lemma_asked_stays};

    law_decimal_reads_back(port as nat, 65535);
    match unsigned_value(split_on(ports[i as int], ':')[0], 65535) {
        Some(p) => {
            let q = VmRequestView::KillStaleProxyByPort { port: p as u16 };
            let t1 = t.ask(q);
            go_free_ports(t1, ports, i + 1);
            if i == j {
                lemma_asked_now(t, q, any_reply());
            } else {
                lemma_port_freed(t1, ports, i + 1, j, port);
            }
        },
        None => {
            lemma_port_freed(t, ports, i + 1, j, port);
        },
    }
}

/// A proxy that an earlier launch left behind on a port of the host that this machine
/// needs is ended first, whether the port is mapped to another one or to itself.
pub proof fn law_needed_ports_are_freed(
    t: VmTranscript,
    config: VmView,
    j: int,
    port: u16,
    guest: Seq<char>,
)
    requires
        proxy_run(t, config).1 is Ok,
        0 <= j < config.port_map.len(),
        stands_for(config.port_map[j], decimal(port as nat), guest),
    ensures
        was_asked(
            t,
            proxy_run(t, config).0,
            VmRequestView::KillStaleProxyByPort { port },
            any_reply(),
        ),
{
    broadcast use {group_in_step, lemma_asked_earlier, lemma_asked_stays};

    let u = proxy_run(t, config).0;
    let binary = config.net->binary;
    let t1 = t.ask(VmRequestView::Exists { path: binary });
    let t2 = t1.ask(VmRequestView::SocketBase);
    let base = vm_answer(t2).text;
    let t3 = t2.ask(VmRequestView::KillStaleProxy);
    let t4 = free_ports_run(t3, config.port_map, 0);
    go_free_ports(t3, config.port_map, 0);
    let t7 = t4.ask(
        VmRequestView::RemoveFile { path: path_with_extension(base, "v"@) },
    ).ask(VmRequestView::RemoveFile { path: path_with_extension(base, "a"@) }).ask(
        VmRequestView::RemoveFile { path: path_with_extension(base, "v-krun.sock"@) },
    );
    go_proxy_spawn(t7, config, binary, base);
    assert(t4.live()) by {
        if !t4.live() {
            assert(t7 == t4);
            assert(proxy_spawn_run(t7, config, binary, base).1 is Err);
        }
    }
    lemma_mapping(config.port_map[j], decimal(port as nat), guest);
    lemma_port_freed(t3, config.port_map, 0, j, port);
    assert(goes_on(t, t3));
    assert(goes_on(t4, u));
}

/// A proxy is given up on after five seconds, not sooner and not later: where its socket has
/// not appeared, the clock, read last of all, shows at least that much more than when it was
/// started, and no pause was made once it did.
pub proof fn law_proxy_is_given_up_late(
    t: VmTranscript,
    config: VmView,
    binary: Seq<char>,
    base: Seq<char>,
)
    requires
        proxy_spawn_run(t, config, binary, base).0.live(),
        proxy_spawn_run(t, config, binary, base).1 == Err::<ProxyView, VmErrorView>(
            VmErrorView::Fork { message: "gvproxy socket did not appear within 5s"@ },
        ),
        t.replies.len() > t.asked.len() + 3,
        t.replies[t.asked.len() as int].ok,
        t.replies[t.asked.len() as int + 1].ok,
        t.replies[t.asked.len() as int + 2].ok,
    ensures
        ({
            let u = proxy_spawn_run(t, config, binary, base).0;
            let started = t.asked.len() as int + 3;
            &&& u.asked[started] is Now
            &&& u.asked.last() is Now
            &&& vm_answer(u).nanos >= u.replies[started].nanos + 5_000_000_000
            &&& forall|k: int|
                started < k < u.asked.len() && #[trigger] u.asked[k] is Sleep ==> u.replies[k
                    - 1].nanos < u.replies[started].nanos + 5_000_000_000
        }),
{
    broadcast use group_in_step;

    let (u, r) = proxy_spawn_run(t, config, binary, base);
    let net_sock = path_with_extension(base, "v"@);
    let api_sock = path_with_extension(base, "a"@);
    let t1 = t.ask(VmRequestView::PickSshPort);
    let log = joined_path(run_dir(config.rootfs), config.rootfs_key + "-gvproxy.log"@);
    let t2 = t1.ask(VmRequestView::CreateLog { path: log });
    let args = proxy_args(config.host_os, net_sock, api_sock, vm_answer(t1).port);
    let t3 = t2.ask(VmRequestView::SpawnProxy { program: binary, args });
    let t4 = t3.ask(VmRequestView::Now);
    let deadline = vm_answer(t4).nanos + PROXY_DEADLINE_NANOS;
    assert(vm_answer(t1) == t.replies[t.asked.len() as int]);
    assert(vm_answer(t2) == t.replies[t.asked.len() as int + 1]);
    assert(vm_answer(t3) == t.replies[t.asked.len() as int + 2]);
    go_wait_socket(t4, net_sock, deadline, 5, 100);
    lemma_wait_asks(t4, net_sock, deadline, 5, 100);
    assert(goes_on(t4, u));
    let started = t.asked.len() as int + 3;
    assert(u.asked[started] == t4.asked[started]);
    assert forall|k: int| started < k < u.asked.len() && #[trigger] u.asked[k] is Sleep implies
        u.replies[k - 1].nanos < u.replies[started].nanos + 5_000_000_000 by {
        law_waits_are_bounded(t4, net_sock, deadline, 5, 100, k);
    }
}

} // verus!
