//! The network proxy of a machine: starting it and having it forward ports.

use vstd::prelude::*;

use crate::paths::{
    join_path, joined_path, parent, parent_path, path_with_extension, with_extension,
};
use crate::text::{
    decimal, decimal_text, glue2, glue3, glue5, parse_unsigned, split, split_on, texts,
    unsigned_value,
};
use crate::vm::config::{
    launched, HostOs, NetBackend, NetView, VmConfig, VmError, VmErrorView, VmView,
};
use crate::vm::host::{
    ask_vm, passed_on, passed_on_error, vm_answer, VmDialogue, VmRequest, VmRequestView,
    VmTranscript,
};

verus! {

/// The next pause of a wait that doubles its pauses up to `cap` milliseconds.
pub open spec fn next_pause(interval: u64, cap: u64) -> u64 {
    if interval * 2 <= cap {
        (interval * 2) as u64
    } else {
        cap
    }
}

fn longer_pause(interval: u64, cap: u64) -> (r: u64)
    requires
        interval <= cap <= 1000,
    ensures
        r == next_pause(interval, cap),
        r <= cap,
{
    if interval * 2 <= cap {
        interval * 2
    } else {
        cap
    }
}

/// Waits for a socket until the clock shows `deadline`, with pauses that begin at
/// `interval` and double up to `cap`.
pub open spec fn wait_socket_run(
    t: VmTranscript,
    path: Seq<char>,
    deadline: int,
    interval: u64,
    cap: u64,
) -> (VmTranscript, bool)
    decreases t.replies.len() + 1 - t.asked.len(),
{
    if !t.live() {
        (t, false)
    } else {
        let t = t.ask(VmRequestView::Exists { path });
        if vm_answer(t).ok {
            (t, true)
        } else {
            let t = t.ask(VmRequestView::Now);
            if vm_answer(t).nanos >= deadline {
                (t, false)
            } else {
                let t = t.ask(VmRequestView::Sleep { millis: interval });
                wait_socket_run(t, path, deadline, next_pause(interval, cap), cap)
            }
        }
    }
}

proof fn lemma_wait_socket_waits(
    t: VmTranscript,
    path: Seq<char>,
    deadline: int,
    interval: u64,
    cap: u64,
)
    ensures
        !t.live() ==> wait_socket_run(t, path, deadline, interval, cap).0 == t,
{
}

fn wait_socket(d: &mut VmDialogue, path: &str, deadline: u128, first: u64, cap: u64) -> (r: Option<
    bool,
>)
    requires
        first <= cap <= 1000,
    ensures
        final(d)@ == wait_socket_run(old(d)@, path@, deadline as int, first, cap).0,
        r is Some <==> final(d)@.live(),
        r is Some ==> r->0 == wait_socket_run(old(d)@, path@, deadline as int, first, cap).1,
{
    if !d.is_live() {
        return None;
    }
    let mut interval: u64 = first;
    loop
        invariant
            d@.live(),
            interval <= cap <= 1000,
            wait_socket_run(d@, path@, deadline as int, interval, cap) == wait_socket_run(
                old(d)@,
                path@,
                deadline as int,
                first,
                cap,
            ),
        decreases d@.replies.len() + 1 - d@.asked.len(),
    {
        let ghost next = next_pause(interval, cap);
        match ask_vm(d, VmRequest::Exists { path: path.to_owned() }) {
            Some(found) => if found.ok {
                return Some(true);
            },
            None => {
                proof {
                    lemma_wait_socket_waits(d@, path@, deadline as int, next, cap);
                }
                return None;
            },
        }
        match ask_vm(d, VmRequest::Now) {
            Some(now) => if now.nanos as u128 >= deadline {
                return Some(false);
            },
            None => {
                proof {
                    lemma_wait_socket_waits(d@, path@, deadline as int, next, cap);
                }
                return None;
            },
        }
        match ask_vm(d, VmRequest::Sleep { millis: interval }) {
            Some(_) => {},
            None => {
                proof {
                    lemma_wait_socket_waits(d@, path@, deadline as int, next, cap);
                }
                return None;
            },
        }
        interval = longer_pause(interval, cap);
    }
}

/// The directory that holds the run files of a root file system.
pub open spec fn run_dir(rootfs: Seq<char>) -> Seq<char> {
    match parent_path(rootfs) {
        Some(dir) => dir,
        None => rootfs,
    }
}

pub fn run_dir_of(rootfs: &str) -> (r: String)
    ensures
        r@ == run_dir(rootfs@),
{
    match parent(rootfs) {
        Some(dir) => dir,
        None => rootfs.to_owned(),
    }
}

/// Ends the proxies that hold the ports of `ports[i..]`. What is not a port is
/// passed over.
pub open spec fn free_ports_run(t: VmTranscript, ports: Seq<Seq<char>>, i: nat) -> VmTranscript
    decreases ports.len() - i,
{
    if i >= ports.len() {
        t
    } else {
        match unsigned_value(split_on(ports[i as int], ':')[0], 65535) {
            Some(port) => free_ports_run(
                t.ask(VmRequestView::KillStaleProxyByPort { port: port as u16 }),
                ports,
                i + 1,
            ),
            None => free_ports_run(t, ports, i + 1),
        }
    }
}

proof fn lemma_free_ports_wait(t: VmTranscript, ports: Seq<Seq<char>>, i: nat)
    ensures
        !t.live() ==> free_ports_run(t, ports, i) == t,
    decreases ports.len() - i,
{
    if !t.live() && i < ports.len() {
        lemma_free_ports_wait(t, ports, i + 1);
    }
}

fn free_ports(d: &mut VmDialogue, ports: &Vec<String>) -> (r: Option<()>)
    ensures
        final(d)@ == free_ports_run(old(d)@, texts(ports@), 0),
        r is Some <==> final(d)@.live(),
{
    let ghost all = texts(ports@);
    if !d.is_live() {
        proof {
            lemma_free_ports_wait(d@, all, 0);
        }
        return None;
    }
    let mut i: usize = 0;
    while i < ports.len()
        invariant
            i <= ports@.len(),
            all == texts(ports@),
            d@.live(),
            free_ports_run(d@, all, i as nat) == free_ports_run(old(d)@, all, 0),
        decreases ports.len() - i,
    {
        let parts = split(ports[i].as_str(), ':');
        assert(texts(parts@)[0] == parts@[0]@);
        match parse_unsigned(parts[0].as_str(), 65535) {
            Some(port) => match ask_vm(
                d,
                VmRequest::KillStaleProxyByPort { port: port as u16 },
            ) {
                Some(_) => {},
                None => {
                    proof {
                        lemma_free_ports_wait(d@, all, (i + 1) as nat);
                    }
                    return None;
                },
            },
            None => {},
        }
        i = i + 1;
    }
    Some(())
}

/// A network proxy that runs.
#[derive(Debug)]
pub struct GvproxySetup {
    pub api_sock: String,
    pub net_sock: String,
    pub pid: u32,
}

/// The view of a [`GvproxySetup`].
pub struct ProxyView {
    pub api_sock: Seq<char>,
    pub net_sock: Seq<char>,
    pub pid: u32,
}

impl View for GvproxySetup {
    type V = ProxyView;

    open spec fn view(&self) -> ProxyView {
        ProxyView { api_sock: self.api_sock@, net_sock: self.net_sock@, pid: self.pid }
    }
}

/// What starting the network proxy ends in.
pub type ProxyStarted = Result<ProxyView, VmErrorView>;

pub open spec fn proxy_started(r: Result<GvproxySetup, VmError>) -> ProxyStarted {
    match r {
        Ok(setup) => Ok(setup@),
        Err(e) => Err(e@),
    }
}

/// The command line of the network proxy.
pub open spec fn proxy_args(
    host_os: HostOs,
    net_sock: Seq<char>,
    api_sock: Seq<char>,
    ssh_port: u16,
) -> Seq<Seq<char>> {
    let (flag, url) = if host_os == HostOs::Linux {
        ("-listen-qemu"@, "unix://"@ + net_sock)
    } else {
        ("-listen-vfkit"@, "unixgram://"@ + net_sock)
    };
    seq![
        flag,
        url,
        "-listen"@,
        "unix://"@ + api_sock,
        "-ssh-port"@,
        decimal(ssh_port as nat),
    ]
}

fn proxy_arguments(host_os: HostOs, net_sock: &str, api_sock: &str, ssh_port: u16) -> (r: Vec<
    String,
>)
    ensures
        texts(r@) == proxy_args(host_os, net_sock@, api_sock@, ssh_port),
{
    let mut args: Vec<String> = Vec::new();
    if host_os == HostOs::Linux {
        args.push("-listen-qemu".to_owned());
        args.push(glue2("unix://", net_sock));
    } else {
        args.push("-listen-vfkit".to_owned());
        args.push(glue2("unixgram://", net_sock));
    }
    args.push("-listen".to_owned());
    args.push(glue2("unix://", api_sock));
    args.push("-ssh-port".to_owned());
    args.push(decimal_text(ssh_port as u64));
    assert(texts(args@) =~= proxy_args(host_os, net_sock@, api_sock@, ssh_port));
    args
}

/// How long the socket of the network proxy may take to appear, in nanoseconds.
pub const PROXY_DEADLINE_NANOS: u64 = 5_000_000_000;

/// Starts the proxy process and waits for its socket.
pub open spec fn proxy_spawn_run(
    t: VmTranscript,
    config: VmView,
    binary: Seq<char>,
    base: Seq<char>,
) -> (VmTranscript, ProxyStarted) {
    let net_sock = path_with_extension(base, "v"@);
    let api_sock = path_with_extension(base, "a"@);
    let t = t.ask(VmRequestView::PickSshPort);
    if !vm_answer(t).ok {
        (t, Err(passed_on(vm_answer(t))))
    } else {
        let ssh_port = vm_answer(t).port;
        let log = joined_path(run_dir(config.rootfs), config.rootfs_key + "-gvproxy.log"@);
        let t = t.ask(VmRequestView::CreateLog { path: log });
        if !vm_answer(t).ok {
            (
                t,
                Err(
                    VmErrorView::Fork {
                        message: "failed to create gvproxy log: "@ + vm_answer(t).text,
                    },
                ),
            )
        } else {
            let t = t.ask(
                VmRequestView::SpawnProxy {
                    program: binary,
                    args: proxy_args(config.host_os, net_sock, api_sock, ssh_port),
                },
            );
            if !vm_answer(t).ok {
                (
                    t,
                    Err(
                        VmErrorView::Fork {
                            message: "failed to start gvproxy: "@ + vm_answer(t).text,
                        },
                    ),
                )
            } else {
                let pid = vm_answer(t).pid;
                let t = t.ask(VmRequestView::Now);
                let deadline = vm_answer(t).nanos + PROXY_DEADLINE_NANOS;
                let (t, up) = wait_socket_run(t, net_sock, deadline, 5, 100);
                if up {
                    (t, Ok(ProxyView { api_sock, net_sock, pid }))
                } else {
                    (
                        t,
                        Err(
                            VmErrorView::Fork {
                                message: "gvproxy socket did not appear within 5s"@,
                            },
                        ),
                    )
                }
            }
        }
    }
}

/// Starts the network proxy of a machine, after ending what earlier launches left
/// behind.
pub open spec fn proxy_run(t: VmTranscript, config: VmView) -> (VmTranscript, ProxyStarted) {
    match config.net {
        NetView::Gvproxy { binary } => {
            let t = t.ask(VmRequestView::Exists { path: binary });
            if !vm_answer(t).ok {
                (
                    t,
                    Err(
                        VmErrorView::BinaryNotFound {
                            path: binary,
                            hint: "Install Podman Desktop or place gvproxy in PATH"@,
                        },
                    ),
                )
            } else {
                let t = t.ask(VmRequestView::SocketBase);
                if !vm_answer(t).ok {
                    (t, Err(passed_on(vm_answer(t))))
                } else {
                    let base = vm_answer(t).text;
                    let t = t.ask(VmRequestView::KillStaleProxy);
                    let t = free_ports_run(t, config.port_map, 0);
                    let t = t.ask(
                        VmRequestView::RemoveFile { path: path_with_extension(base, "v"@) },
                    );
                    let t = t.ask(
                        VmRequestView::RemoveFile { path: path_with_extension(base, "a"@) },
                    );
                    let t = t.ask(
                        VmRequestView::RemoveFile {
                            path: path_with_extension(base, "v-krun.sock"@),
                        },
                    );
                    proxy_spawn_run(t, config, binary, base)
                }
            }
        },
        _ => (
            t,
            Err(
                VmErrorView::HostSetup {
                    message: "start_gvproxy called without Gvproxy net backend"@,
                },
            ),
        ),
    }
}

fn spawn_proxy(d: &mut VmDialogue, config: &VmConfig, binary: &str, base: &str) -> (r: Option<
    Result<GvproxySetup, VmError>,
>)
    ensures
        final(d)@ == proxy_spawn_run(old(d)@, config@, binary@, base@).0,
        r is Some <==> final(d)@.live(),
        r is Some ==> proxy_started(r->0) == proxy_spawn_run(old(d)@, config@, binary@, base@).1,
{
    let net_sock = with_extension(base, "v");
    let api_sock = with_extension(base, "a");
    let picked = ask_vm(d, VmRequest::PickSshPort)?;
    if !picked.ok {
        return Some(Err(passed_on_error(picked)));
    }
    let dir = run_dir_of(config.rootfs.as_str());
    let log_name = glue2(config.rootfs_key.as_str(), "-gvproxy.log");
    let log = join_path(dir.as_str(), log_name.as_str());
    let made = ask_vm(d, VmRequest::CreateLog { path: log })?;
    if !made.ok {
        let message = glue2("failed to create gvproxy log: ", made.text.as_str());
        return Some(Err(VmError::Fork { message }));
    }
    let args = proxy_arguments(
        config.host_os,
        net_sock.as_str(),
        api_sock.as_str(),
        picked.port,
    );
    let spawned = ask_vm(d, VmRequest::SpawnProxy { program: binary.to_owned(), args })?;
    if !spawned.ok {
        let message = glue2("failed to start gvproxy: ", spawned.text.as_str());
        return Some(Err(VmError::Fork { message }));
    }
    let now = match ask_vm(d, VmRequest::Now) {
        Some(now) => now,
        None => {
            return None;
        },
    };
    let deadline: u128 = now.nanos as u128 + PROXY_DEADLINE_NANOS as u128;
    if wait_socket(d, net_sock.as_str(), deadline, 5, 100)? {
        Some(Ok(GvproxySetup { api_sock, net_sock, pid: spawned.pid }))
    } else {
        Some(
            Err(VmError::Fork { message: "gvproxy socket did not appear within 5s".to_owned() }),
        )
    }
}

/// Starts the network proxy of a machine and waits for its socket.
pub fn start_gvproxy(d: &mut VmDialogue, config: &VmConfig) -> (r: Option<
    Result<GvproxySetup, VmError>,
>)
    ensures
        final(d)@ == proxy_run(old(d)@, config@).0,
        r is Some <==> final(d)@.live(),
        r is Some ==> proxy_started(r->0) == proxy_run(old(d)@, config@).1,
{
    if !d.is_live() {
        proof {
            lemma_free_ports_wait(d@, config@.port_map, 0);
        }
        return None;
    }
    let binary = match &config.net {
        NetBackend::Gvproxy { binary } => binary,
        _ => {
            return Some(
                Err(
                    VmError::HostSetup {
                        message: "start_gvproxy called without Gvproxy net backend".to_owned(),
                    },
                ),
            );
        },
    };
    let exists = ask_vm(d, VmRequest::Exists { path: binary.clone() })?;
    if !exists.ok {
        return Some(
            Err(
                VmError::BinaryNotFound {
                    path: binary.clone(),
                    hint: "Install Podman Desktop or place gvproxy in PATH".to_owned(),
                },
            ),
        );
    }
    let base = ask_vm(d, VmRequest::SocketBase)?;
    if !base.ok {
        return Some(Err(passed_on_error(base)));
    }
    let base = base.text;
    let net_sock = with_extension(base.as_str(), "v");
    let api_sock = with_extension(base.as_str(), "a");
    let krun_sock = with_extension(base.as_str(), "v-krun.sock");
    let _ = ask_vm(d, VmRequest::KillStaleProxy);
    let _ = free_ports(d, &config.port_map);
    let _ = ask_vm(d, VmRequest::RemoveFile { path: net_sock });
    let _ = ask_vm(d, VmRequest::RemoveFile { path: api_sock });
    let _ = ask_vm(d, VmRequest::RemoveFile { path: krun_sock });
    spawn_proxy(d, config, binary.as_str(), base.as_str())
}

/// The two ports of a mapping, of the host and of the machine, unless the mapping
/// has too many parts.
pub open spec fn mapped_ports(mapping: Seq<char>) -> Option<(Seq<char>, Seq<char>)> {
    let parts = split_on(mapping, ':');
    if parts.len() == 2 {
        Some((parts[0], parts[1]))
    } else if parts.len() == 1 {
        Some((parts[0], parts[0]))
    } else {
        None
    }
}

fn ports_of(mapping: &str) -> (r: Option<(String, String)>)
    ensures
        match r {
            Some(p) => mapped_ports(mapping@) == Some((p.0@, p.1@)),
            None => mapped_ports(mapping@) is None,
        },
{
    let parts = split(mapping, ':');
    assert(texts(parts@).len() == parts@.len());
    if parts.len() == 2 {
        assert(texts(parts@)[0] == parts@[0]@ && texts(parts@)[1] == parts@[1]@);
        Some((parts[0].clone(), parts[1].clone()))
    } else if parts.len() == 1 {
        assert(texts(parts@)[0] == parts@[0]@);
        Some((parts[0].clone(), parts[0].clone()))
    } else {
        None
    }
}

/// The request to the network proxy to forward a port.
pub open spec fn expose_body(host_port: Seq<char>, guest_port: Seq<char>) -> Seq<char> {
    "{\"local\":\":"@ + host_port + "\",\"remote\":\"192.168.127.2:"@ + guest_port
        + "\",\"protocol\":\"tcp\"}"@
}

/// Asks the network proxy to forward a port, again and again until the clock shows
/// `deadline`, with pauses that begin at `interval` and double up to a second.
pub open spec fn expose_run(
    t: VmTranscript,
    socket: Seq<char>,
    body: Seq<char>,
    deadline: int,
    interval: u64,
) -> (VmTranscript, bool)
    decreases t.replies.len() + 1 - t.asked.len(),
{
    if !t.live() {
        (t, false)
    } else {
        let t = t.ask(VmRequestView::ExposePort { socket, body });
        if vm_answer(t).ok {
            (t, true)
        } else {
            let t = t.ask(VmRequestView::Now);
            if vm_answer(t).nanos >= deadline {
                (t, false)
            } else {
                let t = t.ask(VmRequestView::Sleep { millis: interval });
                expose_run(t, socket, body, deadline, next_pause(interval, 1000))
            }
        }
    }
}

proof fn lemma_expose_waits(
    t: VmTranscript,
    socket: Seq<char>,
    body: Seq<char>,
    deadline: int,
    interval: u64,
)
    ensures
        !t.live() ==> expose_run(t, socket, body, deadline, interval) == (t, false),
{
}

fn expose(d: &mut VmDialogue, socket: &str, body: &str, deadline: u128) -> (r: Option<bool>)
    ensures
        final(d)@ == expose_run(old(d)@, socket@, body@, deadline as int, 100).0,
        r is Some <==> final(d)@.live(),
        r is Some ==> r->0 == expose_run(old(d)@, socket@, body@, deadline as int, 100).1,
{
    if !d.is_live() {
        return None;
    }
    let mut interval: u64 = 100;
    loop
        invariant
            d@.live(),
            interval <= 1000,
            expose_run(d@, socket@, body@, deadline as int, interval) == expose_run(
                old(d)@,
                socket@,
                body@,
                deadline as int,
                100,
            ),
        decreases d@.replies.len() + 1 - d@.asked.len(),
    {
        let ghost next = next_pause(interval, 1000);
        match ask_vm(d, VmRequest::ExposePort { socket: socket.to_owned(), body: body.to_owned() }) {
            Some(exposed) => if exposed.ok {
                return Some(true);
            },
            None => {
                proof {
                    lemma_expose_waits(d@, socket@, body@, deadline as int, next);
                }
                return None;
            },
        }
        match ask_vm(d, VmRequest::Now) {
            Some(now) => if now.nanos as u128 >= deadline {
                return Some(false);
            },
            None => {
                proof {
                    lemma_expose_waits(d@, socket@, body@, deadline as int, next);
                }
                return None;
            },
        }
        match ask_vm(d, VmRequest::Sleep { millis: interval }) {
            Some(_) => {},
            None => {
                proof {
                    lemma_expose_waits(d@, socket@, body@, deadline as int, next);
                }
                return None;
            },
        }
        interval = longer_pause(interval, 1000);
    }
}

/// How long forwarding one port may take, in nanoseconds.
pub const EXPOSE_DEADLINE_NANOS: u64 = 10_000_000_000;

/// How long the control socket of the network proxy is waited for, in nanoseconds.
pub const API_DEADLINE_NANOS: u64 = 2_000_000_000;

pub open spec fn forward_fault(host_port: Seq<char>) -> VmErrorView {
    VmErrorView::HostSetup {
        message: "failed to forward port "@ + host_port + " via gvproxy"@,
    }
}

/// Has the network proxy forward the ports of `port_map[i..]`, one after another.
/// A mapping with too many parts is passed over.
pub open spec fn forward_each_run(
    t: VmTranscript,
    socket: Seq<char>,
    port_map: Seq<Seq<char>>,
    i: nat,
) -> (VmTranscript, Result<(), VmErrorView>)
    decreases port_map.len() - i,
{
    if i >= port_map.len() {
        (t, Ok(()))
    } else {
        match mapped_ports(port_map[i as int]) {
            None => forward_each_run(t, socket, port_map, i + 1),
            Some((host_port, guest_port)) => {
                let t = t.ask(VmRequestView::Now);
                let deadline = vm_answer(t).nanos + EXPOSE_DEADLINE_NANOS;
                let (t, exposed) = expose_run(
                    t,
                    socket,
                    expose_body(host_port, guest_port),
                    deadline,
                    100,
                );
                if exposed {
                    forward_each_run(t, socket, port_map, i + 1)
                } else {
                    (t, Err(forward_fault(host_port)))
                }
            },
        }
    }
}

/// Has the network proxy forward all ports. Its control socket is waited for, and
/// where it does not appear, forwarding is tried all the same.
pub open spec fn forward_run(t: VmTranscript, socket: Seq<char>, port_map: Seq<Seq<char>>) -> (
    VmTranscript,
    Result<(), VmErrorView>,
) {
    let t = t.ask(VmRequestView::Now);
    let deadline = vm_answer(t).nanos + API_DEADLINE_NANOS;
    let (t, up) = wait_socket_run(t, socket, deadline, 5, 200);
    forward_each_run(t, socket, port_map, 0)
}

proof fn lemma_forward_waits(
    t: VmTranscript,
    socket: Seq<char>,
    port_map: Seq<Seq<char>>,
    i: nat,
)
    ensures
        !t.live() ==> forward_each_run(t, socket, port_map, i).0 == t,
    decreases port_map.len() - i,
{
    if !t.live() && i < port_map.len() {
        lemma_forward_waits(t, socket, port_map, i + 1);
    }
}

/// Has the network proxy forward the ports of a machine.
pub fn setup_gvproxy_port_forwarding(
    d: &mut VmDialogue,
    api_sock: &str,
    port_map: &Vec<String>,
) -> (r: Option<Result<(), VmError>>)
    ensures
        final(d)@ == forward_run(old(d)@, api_sock@, texts(port_map@)).0,
        r is Some <==> final(d)@.live(),
        r is Some ==> launched(r->0) == forward_run(old(d)@, api_sock@, texts(port_map@)).1,
{
    let ghost all = texts(port_map@);
    let now = match ask_vm(d, VmRequest::Now) {
        Some(now) => now,
        None => {
            proof {
                lemma_forward_waits(d@, api_sock@, all, 0);
            }
            return None;
        },
    };
    let deadline: u128 = now.nanos as u128 + API_DEADLINE_NANOS as u128;
    match wait_socket(d, api_sock, deadline, 5, 200) {
        Some(_) => {},
        None => {
            proof {
                lemma_forward_waits(d@, api_sock@, all, 0);
            }
            return None;
        },
    }
    let mut i: usize = 0;
    while i < port_map.len()
        invariant
            i <= port_map@.len(),
            all == texts(port_map@),
            d@.live(),
            forward_each_run(d@, api_sock@, all, i as nat) == forward_run(
                old(d)@,
                api_sock@,
                all,
            ),
        decreases port_map.len() - i,
    {
        match ports_of(port_map[i].as_str()) {
            Some((host_port, guest_port)) => {
                let now = ask_vm(d, VmRequest::Now)?;
                let deadline: u128 = now.nanos as u128 + EXPOSE_DEADLINE_NANOS as u128;
                let body = glue5(
                    "{\"local\":\":",
                    host_port.as_str(),
                    "\",\"remote\":\"192.168.127.2:",
                    guest_port.as_str(),
                    "\",\"protocol\":\"tcp\"}",
                );
                match expose(d, api_sock, body.as_str(), deadline) {
                    Some(exposed) => if !exposed {
                        let message = glue3(
                            "failed to forward port ",
                            host_port.as_str(),
                            " via gvproxy",
                        );
                        return Some(Err(VmError::HostSetup { message }));
                    },
                    None => {
                        proof {
                            lemma_forward_waits(d@, api_sock@, all, (i + 1) as nat);
                        }
                        return None;
                    },
                }
            },
            None => {},
        }
        i = i + 1;
    }
    Some(Ok(()))
}

} // verus!
