//! Launching a machine, against a scripted host.

use openshell_vm::dialogue::Dialogue;
use openshell_vm::vm::config::{
    HostOs, NetBackend, StateDiskConfig, VmConfig, VmError, VsockPort,
};
use openshell_vm::vm::exit::decode_wait_status;
use openshell_vm::vm::gvproxy::setup_gvproxy_port_forwarding;
use openshell_vm::vm::host::{VmDialogue, VmReply, VmRequest};
use openshell_vm::vm::libkrun::{
    console_log_path, guest_environment, LibkrunBackend, VmBackend, COMPAT_NET_FEATURES,
};

struct Host {
    asked: Vec<String>,
    nanos: u64,
    refuse: Box<dyn Fn(&VmRequest) -> Option<VmReply>>,
}

impl Host {
    fn refusing(refuse: Box<dyn Fn(&VmRequest) -> Option<VmReply>>) -> Host {
        Host { asked: Vec::new(), nanos: 7, refuse }
    }

    fn new() -> Host {
        Host::refusing(Box::new(|_| None))
    }

    /// A host on which the calls whose text begins with `which` fail.
    fn failing(which: &'static str) -> Host {
        Host::refusing(Box::new(move |q| {
            if format!("{q:?}").starts_with(which) {
                let mut reply = VmReply::failed("boom".to_string());
                reply.code = -22;
                Some(reply)
            } else {
                None
            }
        }))
    }

    fn perform(&mut self, request: &VmRequest) -> VmReply {
        self.asked.push(format!("{request:?}"));
        if let Some(reply) = (self.refuse)(request) {
            return reply;
        }
        match request {
            VmRequest::CreateContext => VmReply::code(3),
            VmRequest::SocketBase => VmReply::text("/run/key".to_string()),
            VmRequest::PickSshPort => VmReply::port(2299),
            VmRequest::SpawnProxy { .. } => VmReply::process(900),
            VmRequest::Boot { .. } => VmReply::code(1000),
            VmRequest::WaitChild { .. } => VmReply::code(0x0300),
            VmRequest::Now => VmReply::time(self.nanos),
            VmRequest::Sleep { millis } => {
                self.nanos += millis * 1_000_000;
                VmReply::flag(true)
            }
            _ => VmReply::flag(true),
        }
    }

    fn drive<T, F>(&mut self, procedure: F) -> T
    where
        F: Fn(&mut VmDialogue) -> Option<T>,
    {
        let mut dialogue = Dialogue::new();
        loop {
            if let Some(result) = procedure(&mut dialogue) {
                return result;
            }
            let reply = self.perform(dialogue.pending().unwrap());
            dialogue.record(reply);
            dialogue.rewind();
        }
    }

    fn launch(&mut self, config: &VmConfig) -> Result<i32, VmError> {
        self.drive(|d| LibkrunBackend.launch(config, d))
    }

    fn count(&self, what: &str) -> usize {
        self.asked.iter().filter(|a| a.starts_with(what)).count()
    }
}

fn config(net: NetBackend) -> VmConfig {
    VmConfig {
        host_os: HostOs::Linux,
        rootfs: "/data/rootfs".to_string(),
        rootfs_key: "key".to_string(),
        vcpus: 4,
        mem_mib: 512,
        exec_path: "/srv/openshell-vm-init.sh".to_string(),
        args: vec!["-v".to_string()],
        env: vec![],
        workdir: "/".to_string(),
        port_map: vec!["30051:30051".to_string(), "x".to_string(), "1:2:3".to_string()],
        vsock_ports: vec![VsockPort {
            port: 10777,
            socket_path: "/run/vsock/a.sock".to_string(),
            listen: true,
        }],
        log_level: 1,
        console_output: None,
        net,
        gpu_enabled: true,
        state_disk: Some(StateDiskConfig {
            path: "/data/state.img".to_string(),
            block_id: "state".to_string(),
            guest_device: "/dev/vda".to_string(),
        }),
        gateway_name: "gw".to_string(),
        gateway_port: 30051,
    }
}

fn gvproxy() -> NetBackend {
    NetBackend::Gvproxy { binary: "/usr/bin/gvproxy".to_string() }
}

#[test]
fn launch_goes_through_every_step_in_order() {
    let mut host = Host::new();
    let code = host.launch(&config(gvproxy())).unwrap();
    assert_eq!(code, 3);
    let expected = [
        "LoadLibrary",
        "InitLog { level: 1 }",
        "CreateContext",
        "SetVmConfig { ctx: 3, vcpus: 4, mem_mib: 512 }",
        "SetRoot { ctx: 3, path: \"/data/rootfs\" }",
        "HasAddDisk",
        "AddDisk { ctx: 3, block_id: \"state\", path: \"/data/state.img\" }",
        "SetWorkdir { ctx: 3, path: \"/\" }",
        "Exists { path: \"/usr/bin/gvproxy\" }",
        "SocketBase",
        "KillStaleProxy",
        "KillStaleProxyByPort { port: 30051 }",
        "KillStaleProxyByPort { port: 1 }",
        "RemoveFile { path: \"/run/key.v\" }",
        "RemoveFile { path: \"/run/key.a\" }",
        "RemoveFile { path: \"/run/key.v-krun.sock\" }",
        "PickSshPort",
        "CreateLog { path: \"/data/key-gvproxy.log\" }",
        "SpawnProxy { program: \"/usr/bin/gvproxy\", args: [\"-listen-qemu\", \"unix:///run/key.v\", \"-listen\", \"unix:///run/key.a\", \"-ssh-port\", \"2299\"] }",
        "Now",
        "Exists { path: \"/run/key.v\" }",
        "DisableImplicitVsock { ctx: 3 }",
        "AddVsock { ctx: 3, features: 0 }",
        "AddNetUnixstream { ctx: 3, socket: \"/run/key.v\", mac: [90, 148, 239, 228, 12, 238], features: 19587 }",
        "CreateDirAll { path: \"/run/vsock\" }",
        "RemoveFile { path: \"/run/vsock/a.sock\" }",
        "AddVsockPort { ctx: 3, guest_port: 10777, socket: \"/run/vsock/a.sock\", listen: true }",
        "SetConsoleOutput { ctx: 3, path: \"/data/key-console.log\" }",
        "SetExec { ctx: 3, program: \"/srv/openshell-vm-init.sh\", args: [\"-v\"], env: [\"HOME=/root\", \"PATH=/usr/local/sbin:/usr/local/bin:/usr/sbin:/usr/bin:/sbin:/bin\", \"TERM=xterm\", \"OPENSHELL_VM_STATE_DISK_DEVICE=/dev/vda\", \"GPU_ENABLED=true\"] }",
        "Boot { ctx: 3 }",
        "WriteRuntimeState { pid: 1000, console_log: \"/data/key-console.log\", proxy_pid: Some(900) }",
        "Now",
        "Exists { path: \"/run/key.a\" }",
        "Now",
        "ExposePort { socket: \"/run/key.a\", body: \"{\\\"local\\\":\\\":30051\\\",\\\"remote\\\":\\\"192.168.127.2:30051\\\",\\\"protocol\\\":\\\"tcp\\\"}\" }",
        "Now",
        "ExposePort { socket: \"/run/key.a\", body: \"{\\\"local\\\":\\\":x\\\",\\\"remote\\\":\\\"192.168.127.2:x\\\",\\\"protocol\\\":\\\"tcp\\\"}\" }",
        "BootstrapGateway { name: \"gw\", port: 30051 }",
        "WaitGatewayReady { port: 30051, name: \"gw\" }",
        "ForwardSignals { pid: 1000 }",
        "WaitChild { pid: 1000 }",
        "ClearRuntimeState",
        "StopProxy",
        "FreeContext { ctx: 3 }",
    ];
    assert_eq!(host.asked, expected);
    assert_eq!(COMPAT_NET_FEATURES, 1 | 2 | 1 << 7 | 1 << 10 | 1 << 11 | 1 << 14);
}

#[test]
fn plain_launches_ask_for_less() {
    let mut host = Host::new();
    let mut plain = config(NetBackend::Tsi);
    plain.exec_path = "/bin/sh".to_string();
    plain.state_disk = None;
    plain.vsock_ports = vec![];
    assert_eq!(host.launch(&plain).unwrap(), 3);
    assert_eq!(host.count("SetPortMap"), 1);
    assert_eq!(host.count("DisableImplicitVsock"), 0);
    assert_eq!(host.count("WriteRuntimeState"), 0);
    assert_eq!(host.count("BootstrapGateway"), 0);
    assert_eq!(host.count("StopProxy"), 0);
    let mut host = Host::new();
    plain.net = NetBackend::Disabled;
    host.launch(&plain).unwrap();
    assert_eq!(host.count("SetPortMap"), 0);
    assert_eq!(host.count("AddVsock { ctx: 3, features: 0 }"), 1);
    let mut host = Host::new();
    plain.net = gvproxy();
    plain.host_os = HostOs::MacOs;
    host.launch(&plain).unwrap();
    assert!(host.asked.iter().any(|a| a.contains("-listen-vfkit\", \"unixgram:///run/key.v")));
    assert!(host.asked.iter().any(|a| a.starts_with("AddNetUnixgram") && a.contains("flags: 1")));
}

#[test]
fn every_failing_call_frees_the_context_and_stops_the_proxy() {
    let calls = [
        ("SetVmConfig", "krun_set_vm_config", 0),
        ("SetRoot", "krun_set_root", 0),
        ("AddDisk", "krun_add_disk3", 0),
        ("SetWorkdir", "krun_set_workdir", 0),
        ("DisableImplicitVsock", "krun_disable_implicit_vsock", 1),
        ("AddVsock {", "krun_add_vsock", 1),
        ("AddNetUnixstream", "krun_add_net_unixstream", 1),
        ("AddVsockPort", "krun_add_vsock_port2", 1),
        ("SetConsoleOutput", "krun_set_console_output", 1),
        ("SetExec", "krun_set_exec", 1),
    ];
    for (request, call, stops) in calls {
        let mut host = Host::failing(request);
        match host.launch(&config(gvproxy())) {
            Err(VmError::Krun { func, code }) => {
                assert_eq!(func, call);
                assert_eq!(code, -22);
            }
            other => panic!("unexpected result {other:?}"),
        }
        assert_eq!(host.count("StopProxy"), stops, "{request}");
        assert_eq!(host.count("FreeContext"), 1);
        assert_eq!(host.asked.last().unwrap(), "FreeContext { ctx: 3 }");
    }
    for request in ["LoadLibrary", "InitLog", "CreateContext"] {
        let mut host = Host::failing(request);
        assert!(host.launch(&config(gvproxy())).is_err());
        assert_eq!(host.count("FreeContext"), 0);
    }
}

#[test]
fn other_failures_are_named() {
    let cases = [
        ("Boot", "Fork { message: \"boom\" }"),
        ("CreateLog", "Fork { message: \"failed to create gvproxy log: boom\" }"),
        ("SpawnProxy", "Fork { message: \"failed to start gvproxy: boom\" }"),
        (
            "Exists { path: \"/usr/bin/gvproxy\"",
            "BinaryNotFound { path: \"/usr/bin/gvproxy\", hint: \"Install Podman Desktop or place gvproxy in PATH\" }",
        ),
        (
            "Exists { path: \"/run/key.v\"",
            "Fork { message: \"gvproxy socket did not appear within 5s\" }",
        ),
        (
            "CreateDirAll",
            "RuntimeState { message: \"create vsock socket dir /run/vsock: boom\" }",
        ),
        (
            "HasAddDisk",
            "HostSetup { message: \"libkrun runtime does not expose krun_add_disk3; rebuild the VM runtime with block support\" }",
        ),
        ("ExposePort", "HostSetup { message: \"failed to forward port 30051 via gvproxy\" }"),
    ];
    for (request, message) in cases {
        let mut host = Host::failing(request);
        let err = host.launch(&config(gvproxy())).unwrap_err();
        assert_eq!(format!("{err:?}"), message);
        assert_eq!(host.asked.last().unwrap(), "FreeContext { ctx: 3 }");
    }
    let mut host = Host::refusing(Box::new(|q| match q {
        VmRequest::WaitGatewayReady { .. } => Some(VmReply::refused(VmError::HostSetup {
            message: "late".to_string(),
        })),
        _ => None,
    }));
    let err = host.launch(&config(gvproxy())).unwrap_err();
    assert_eq!(format!("{err:?}"), "HostSetup { message: \"late\" }");
    assert_eq!(host.count("StopProxy"), 1);
}

#[test]
fn unkept_description_ends_the_machine() {
    let mut host = Host::failing("WriteRuntimeState");
    assert!(host.launch(&config(gvproxy())).is_err());
    let tail: Vec<&str> = host.asked.iter().rev().take(4).rev().map(String::as_str).collect();
    assert_eq!(
        tail,
        vec![
            "TerminateMachine { pid: 1000 }",
            "StopProxy",
            "ClearRuntimeState",
            "FreeContext { ctx: 3 }",
        ]
    );
}

#[test]
fn nul_characters_are_refused_before_the_call() {
    let mut bad = config(NetBackend::Tsi);
    bad.args = vec!["ok".to_string(), "a\0b".to_string()];
    let mut host = Host::new();
    match host.launch(&bad) {
        Err(VmError::NulByte { text }) => assert_eq!(text, "a\0b"),
        other => panic!("unexpected result {other:?}"),
    }
    assert_eq!(host.count("SetExec"), 0);
    assert_eq!(host.count("FreeContext"), 1);
}

#[test]
fn waits_double_their_pauses_up_to_a_cap() {
    let mut host = Host::failing("Exists { path: \"/run/key.v\"");
    let _ = host.launch(&config(gvproxy()));
    let pauses: Vec<&str> =
        host.asked.iter().filter(|a| a.starts_with("Sleep")).map(String::as_str).collect();
    assert_eq!(
        &pauses[..7],
        [
            "Sleep { millis: 5 }",
            "Sleep { millis: 10 }",
            "Sleep { millis: 20 }",
            "Sleep { millis: 40 }",
            "Sleep { millis: 80 }",
            "Sleep { millis: 100 }",
            "Sleep { millis: 100 }",
        ]
    );
    let mut host = Host::failing("ExposePort");
    let ports = vec!["80".to_string()];
    assert!(host.drive(|d| setup_gvproxy_port_forwarding(d, "/api", &ports)).is_err());
    let pauses: Vec<&str> =
        host.asked.iter().filter(|a| a.starts_with("Sleep")).map(String::as_str).collect();
    assert_eq!(
        &pauses[..6],
        [
            "Sleep { millis: 100 }",
            "Sleep { millis: 200 }",
            "Sleep { millis: 400 }",
            "Sleep { millis: 800 }",
            "Sleep { millis: 1000 }",
            "Sleep { millis: 1000 }",
        ]
    );
}

#[test]
fn late_control_socket_is_tried_all_the_same() {
    let mut host = Host::failing("Exists");
    let ports = vec!["80:8080".to_string()];
    assert!(host.drive(|d| setup_gvproxy_port_forwarding(d, "/api", &ports)).is_ok());
    assert_eq!(host.count("ExposePort"), 1);
}

#[test]
fn guest_environment_keeps_what_is_given() {
    let mut c = config(NetBackend::Tsi);
    c.env = vec!["OPENSHELL_VM_STATE_DISK_DEVICE=/dev/vdb".to_string()];
    c.gpu_enabled = false;
    assert_eq!(guest_environment(&c), c.env);
    c.console_output = Some("/tmp/console".to_string());
    assert_eq!(console_log_path(&c), "/tmp/console");
}

#[test]
fn wait_statuses_become_exit_codes() {
    assert_eq!(decode_wait_status(0), 0);
    assert_eq!(decode_wait_status(0x2a00), 42);
    assert_eq!(decode_wait_status(0xff00), 255);
    assert_eq!(decode_wait_status(9), 137);
    assert_eq!(decode_wait_status(15 | 0x80), 143);
    assert_eq!(decode_wait_status(0x137f), 0x137f);
}
