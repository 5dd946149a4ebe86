//! The compute driver, against a scripted host.

use openshell_vm::dialogue::Dialogue;
use openshell_vm::driver::config::{resolve_vm_binary, VmDriverConfig, VmDriverTlsPaths};
use openshell_vm::driver::create::{prepare_guest_tls_materials, SandboxRecord};
use openshell_vm::driver::environment::Environment;
use openshell_vm::driver::guest::{
    build_guest_environment, default_console_log_path, merged_environment, sandbox_log_level,
    sandbox_state_dir, validate_vm_sandbox, GUEST_SSH_PORT, GUEST_TLS_CA_PATH,
    GUEST_TLS_CERT_PATH, GUEST_TLS_KEY_PATH,
};
use openshell_vm::driver::host::{HostDialogue, HostReply, HostRequest};
use openshell_vm::driver::sandbox::{
    build_driver_config, error_condition, FieldValue, Sandbox, SandboxPhase, SandboxSpec,
    SandboxStatus, SandboxTemplate,
};
use openshell_vm::driver::status::{Code, Status};
use openshell_vm::driver::vm_driver::{
    required_sandbox, terminate_vm_process, watch_step, MonitorAction, MonitorEvent, VmDriver,
    WatchEvent, WatchInput, WatchStep,
};
use openshell_vm::fault::FaultKind;

/// A host that succeeds, but for the requests that `refuse` answers.
struct Host {
    asked: Vec<String>,
    refuse: Box<dyn Fn(&HostRequest) -> Option<HostReply>>,
}

impl Host {
    fn new() -> Host {
        Host { asked: Vec::new(), refuse: Box::new(|_| None) }
    }

    fn refusing(refuse: Box<dyn Fn(&HostRequest) -> Option<HostReply>>) -> Host {
        Host { asked: Vec::new(), refuse }
    }

    fn perform(&mut self, request: &HostRequest) -> HostReply {
        self.asked.push(format!("{request:?}"));
        if let Some(reply) = (self.refuse)(request) {
            return reply;
        }
        match request {
            HostRequest::LocalPort => HostReply::port(40022),
            HostRequest::Spawn { .. } | HostRequest::ProcessId { .. } => {
                HostReply::process(Some(42))
            }
            _ => HostReply::flag(true),
        }
    }

    fn drive<T, F>(&mut self, mut procedure: F) -> T
    where
        F: FnMut(&mut HostDialogue) -> Option<T>,
    {
        let mut dialogue = Dialogue::new();
        loop {
            if let Some(result) = procedure(&mut dialogue) {
                return result;
            }
            let reply = self.perform(dialogue.pending().unwrap());
            dialogue.record(reply);
            dialogue.rewind();
        }
    }
}

fn env(pairs: &[(&str, &str)]) -> Environment {
    let mut e = Environment::new();
    for (name, value) in pairs {
        e.set(name, value);
    }
    e
}

fn plain_sandbox(id: &str, name: &str) -> Sandbox {
    Sandbox {
        id: id.to_string(),
        name: name.to_string(),
        namespace: "default".to_string(),
        sandbox_spec: Some(SandboxSpec::default()),
        ..Default::default()
    }
}

fn plain_config() -> VmDriverConfig {
    VmDriverConfig {
        openshell_endpoint: "http://127.0.0.1:8080".to_string(),
        ssh_handshake_secret: "secret".to_string(),
        state_dir: "/state".to_string(),
        ..Default::default()
    }
}

fn tls_config() -> VmDriverConfig {
    VmDriverConfig {
        openshell_endpoint: "https://127.0.0.1:8443".to_string(),
        state_dir: "/state".to_string(),
        tls_ca: Some("/host/ca.crt".to_string()),
        tls_cert: Some("/host/tls.crt".to_string()),
        tls_key: Some("/host/tls.key".to_string()),
        ..Default::default()
    }
}

fn started(host: &mut Host, config: fn() -> VmDriverConfig) -> VmDriver {
    host.drive(|d| VmDriver::new(config(), d)).unwrap()
}

fn create(
    host: &mut Host,
    driver: &mut VmDriver,
    sandbox: &Sandbox,
) -> Result<Option<SandboxStatus>, Status> {
    host.drive(|d| driver.create_sandbox(sandbox, "/srv/init.sh", d))
}

#[test]
fn validate_vm_sandbox_rejects_gpu() {
    let sandbox = Sandbox {
        sandbox_spec: Some(SandboxSpec { gpu: true, ..Default::default() }),
        ..Default::default()
    };
    let err = validate_vm_sandbox(&sandbox).expect_err("gpu should be rejected");
    assert_eq!(err.code(), Code::FailedPrecondition);
    assert!(err.message().contains("gpu"));
}

#[test]
fn validate_vm_sandbox_rejects_runtime_class() {
    let sandbox = Sandbox {
        sandbox_spec: Some(SandboxSpec {
            template: Some(SandboxTemplate {
                runtime_class_name: "kata".to_string(),
                ..Default::default()
            }),
            ..Default::default()
        }),
        ..Default::default()
    };
    let err = validate_vm_sandbox(&sandbox).expect_err("runtime class should be rejected");
    assert_eq!(err.code(), Code::FailedPrecondition);
    assert!(err.message().contains("runtime_class_name"));
}

#[test]
fn validate_vm_sandbox_names_every_unsupported_part() {
    let err = validate_vm_sandbox(&Sandbox::default()).unwrap_err();
    assert_eq!(err.code(), Code::InvalidArgument);
    assert_eq!(err.message(), "sandbox spec is required");
    let templates = [
        ("image", SandboxTemplate { image: "x".to_string(), ..Default::default() }),
        ("agent_socket", SandboxTemplate { agent_socket: "x".to_string(), ..Default::default() }),
        (
            "volume_claim_templates",
            SandboxTemplate { volume_claim_templates: true, ..Default::default() },
        ),
        ("resources", SandboxTemplate { resources: true, ..Default::default() }),
    ];
    for (part, template) in templates {
        let sandbox = Sandbox {
            sandbox_spec: Some(SandboxSpec { template: Some(template), ..Default::default() }),
            ..Default::default()
        };
        let err = validate_vm_sandbox(&sandbox).unwrap_err();
        assert_eq!(err.message(), format!("vm sandboxes do not support template.{part}"));
    }
    assert!(validate_vm_sandbox(&plain_sandbox("a", "a")).is_ok());
}

#[test]
fn merged_environment_prefers_spec_values() {
    let sandbox = Sandbox {
        sandbox_spec: Some(SandboxSpec {
            environment: env(&[("A", "spec")]),
            template: Some(SandboxTemplate {
                environment: env(&[("A", "template"), ("B", "template")]),
                ..Default::default()
            }),
            ..Default::default()
        }),
        ..Default::default()
    };
    let merged = merged_environment(&sandbox);
    assert_eq!(merged.get("A"), Some("spec"));
    assert_eq!(merged.get("B"), Some("template"));
    assert_eq!(merged.get("C"), None);
}

#[test]
fn build_guest_environment_sets_supervisor_defaults() {
    let config = VmDriverConfig {
        openshell_endpoint: "http://127.0.0.1:8080".to_string(),
        ssh_handshake_secret: "secret".to_string(),
        ..Default::default()
    };
    let env = build_guest_environment(&plain_sandbox("sandbox-123", "sandbox-123"), &config);
    assert!(env.contains(&"HOME=/root".to_string()));
    assert!(env.contains(&"OPENSHELL_ENDPOINT=http://127.0.0.1:8080".to_string()));
    assert!(env.contains(&"OPENSHELL_SANDBOX_ID=sandbox-123".to_string()));
    assert!(env.contains(&format!("OPENSHELL_SSH_LISTEN_ADDR=0.0.0.0:{GUEST_SSH_PORT}")));
}

#[test]
fn build_guest_environment_includes_tls_paths_for_https_endpoint() {
    let config = VmDriverConfig {
        openshell_endpoint: "https://127.0.0.1:8443".to_string(),
        ssh_handshake_secret: "secret".to_string(),
        tls_ca: Some("/host/ca.crt".to_string()),
        tls_cert: Some("/host/tls.crt".to_string()),
        tls_key: Some("/host/tls.key".to_string()),
        ..Default::default()
    };
    let env = build_guest_environment(&plain_sandbox("sandbox-123", "sandbox-123"), &config);
    assert!(env.contains(&format!("OPENSHELL_TLS_CA={GUEST_TLS_CA_PATH}")));
    assert!(env.contains(&format!("OPENSHELL_TLS_CERT={GUEST_TLS_CERT_PATH}")));
    assert!(env.contains(&format!("OPENSHELL_TLS_KEY={GUEST_TLS_KEY_PATH}")));
}

#[test]
fn guest_environment_is_sorted_and_the_sandbox_wins() {
    let mut sandbox = plain_sandbox("id-1", "box");
    sandbox.sandbox_spec = Some(SandboxSpec {
        environment: env(&[("TERM", "dumb"), ("A", "1")]),
        log_level: "debug".to_string(),
        ..Default::default()
    });
    let lines = build_guest_environment(&sandbox, &plain_config());
    assert_eq!(
        lines,
        vec![
            "A=1",
            "HOME=/root",
            "OPENSHELL_ENDPOINT=http://127.0.0.1:8080",
            "OPENSHELL_LOG_LEVEL=debug",
            "OPENSHELL_SANDBOX=box",
            "OPENSHELL_SANDBOX_COMMAND=tail -f /dev/null",
            "OPENSHELL_SANDBOX_ID=id-1",
            "OPENSHELL_SSH_HANDSHAKE_SECRET=secret",
            "OPENSHELL_SSH_HANDSHAKE_SKEW_SECS=300",
            "OPENSHELL_SSH_LISTEN_ADDR=0.0.0.0:2222",
            "PATH=/usr/local/sbin:/usr/local/bin:/usr/sbin:/usr/bin:/sbin:/bin",
            "TERM=dumb",
        ]
    );
    assert_eq!(sandbox_log_level(&plain_sandbox("a", "a"), "warn"), "warn");
}

#[test]
fn vm_driver_config_requires_tls_materials_for_https_endpoint() {
    let config = VmDriverConfig {
        openshell_endpoint: "https://127.0.0.1:8443".to_string(),
        ..Default::default()
    };
    let err = Host::new()
        .drive(|d| config.tls_paths(d))
        .expect_err("https endpoint should require TLS materials");
    assert!(err.contains("OPENSHELL_TLS_CA"));
}

#[test]
fn tls_files_have_to_be_complete_and_to_exist() {
    let mut config = tls_config();
    config.tls_ca = None;
    let err = Host::new().drive(|d| config.tls_paths(d)).unwrap_err();
    assert_eq!(err, "OPENSHELL_TLS_CA is required when TLS materials are configured");
    let mut config = tls_config();
    config.tls_cert = None;
    let err = Host::new().drive(|d| config.tls_paths(d)).unwrap_err();
    assert_eq!(err, "OPENSHELL_TLS_CERT is required when TLS materials are configured");
    let mut config = tls_config();
    config.tls_key = None;
    let err = Host::new().drive(|d| config.tls_paths(d)).unwrap_err();
    assert_eq!(err, "OPENSHELL_TLS_KEY is required when TLS materials are configured");
    for missing in ["/host/ca.crt", "/host/tls.crt", "/host/tls.key"] {
        let mut host = Host::refusing(Box::new(move |q| match q {
            HostRequest::IsFile { path } if path == missing => Some(HostReply::flag(false)),
            _ => None,
        }));
        let err = host.drive(|d| tls_config().tls_paths(d)).unwrap_err();
        assert_eq!(err, format!("TLS material '{missing}' does not exist or is not a file"));
    }
    assert!(Host::new().drive(|d| tls_config().tls_paths(d)).unwrap().is_some());
    assert!(Host::new().drive(|d| plain_config().tls_paths(d)).unwrap().is_none());
}

#[test]
fn prepare_guest_tls_materials_copies_bundle_into_rootfs() {
    let paths = VmDriverTlsPaths {
        ca: "/source/ca.crt".to_string(),
        cert: "/source/tls.crt".to_string(),
        key: "/source/tls.key".to_string(),
    };
    let mut host = Host::new();
    host.drive(|d| prepare_guest_tls_materials(d, "/rootfs", &paths)).unwrap();
    let dir = "/rootfs/opt/openshell/tls";
    let mut expected = vec![format!("CreateDirAll {{ path: \"{dir}\" }}")];
    for (name, mode) in [("ca.crt", 0o644), ("tls.crt", 0o644), ("tls.key", 0o600)] {
        expected.push(format!("CopyFile {{ from: \"/source/{name}\", to: \"{dir}/{name}\" }}"));
        expected.push(format!("SetMode {{ path: \"{dir}/{name}\", mode: {mode} }}"));
    }
    assert_eq!(host.asked, expected);
}

#[test]
fn build_driver_config_contains_paths() {
    let config = build_driver_config(
        "127.0.0.1",
        2200,
        42,
        "/tmp/rootfs",
        "/tmp/rootfs-console.log",
        "/tmp/state",
    );
    assert!(matches!(config.get("vm_pid"), Some(FieldValue::Number(42))));
    assert!(matches!(config.get("endpoint_port"), Some(FieldValue::Number(2200))));
    let text = |name: &str| match config.get(name) {
        Some(FieldValue::Text(s)) => Some(s.clone()),
        _ => None,
    };
    assert_eq!(text("rootfs_path").as_deref(), Some("/tmp/rootfs"));
    assert_eq!(text("console_log_path").as_deref(), Some("/tmp/rootfs-console.log"));
    assert_eq!(text("state_dir").as_deref(), Some("/tmp/state"));
    assert!(config.get("other").is_none());
}

#[test]
fn driver_start_checks_its_configuration() {
    let blank = || VmDriverConfig { openshell_endpoint: "  \t".to_string(), ..Default::default() };
    let mut host = Host::new();
    let err = host.drive(|d| VmDriver::new(blank(), d)).unwrap_err();
    assert_eq!(err, "openshell endpoint is required");
    assert!(host.asked.is_empty());
    let mut host = Host::refusing(Box::new(|q| match q {
        HostRequest::CreateDirAll { .. } => {
            Some(HostReply::failed(FaultKind::PermissionDenied, "denied".to_string()))
        }
        _ => None,
    }));
    let err = host.drive(|d| VmDriver::new(plain_config(), d)).unwrap_err();
    assert_eq!(err, "failed to create state dir '/state/sandboxes': denied");
    let driver = started(&mut Host::new(), plain_config);
    let c = driver.capabilities("1.2.3");
    assert_eq!(c.driver_name, "openshell-driver-vm");
    assert_eq!(c.driver_version, "1.2.3");
    assert!(!c.supports_gpu);
}

#[test]
fn created_sandbox_is_registered_and_told() {
    let mut host = Host::new();
    let mut driver = started(&mut host, tls_config);
    host.asked.clear();
    let status = create(&mut host, &mut driver, &plain_sandbox("id-1", "box")).unwrap().unwrap();
    assert_eq!(status.conditions[0].reason, "Starting");
    assert_eq!(status.driver_name, "openshell-driver-vm");
    assert_eq!(host.asked[0], "BindLocalPort");
    let spawn = host.asked.iter().find(|a| a.starts_with("Spawn")).unwrap();
    assert!(spawn.contains("\"--rootfs\", \"/state/sandboxes/id-1/rootfs\""), "{spawn}");
    assert!(spawn.contains("\"--exec\", \"/srv/init.sh\", \"--workdir\", \"/\""), "{spawn}");
    assert!(spawn.contains("\"--vcpus\", \"2\", \"--mem\", \"2048\""), "{spawn}");
    assert!(spawn.contains("\"--port\", \"40022:2222\", \"--env\", \"HOME=/root\""), "{spawn}");
    assert!(driver.is_registered("id-1"));
    let events = driver.take_events();
    assert_eq!(events.len(), 1);
    match &events[0] {
        WatchEvent::Sandbox { sandbox } => {
            assert_eq!(sandbox.id, "id-1");
            assert_eq!(sandbox.namespace, "default");
            assert_eq!(sandbox.phase, SandboxPhase::Provisioning);
            let config = sandbox.status.as_ref().unwrap().driver_config.as_ref().unwrap();
            assert!(matches!(config.get("vm_pid"), Some(FieldValue::Number(42))));
        }
        other => panic!("unexpected event {other:?}"),
    }
    let endpoint = driver.resolve_endpoint(&plain_sandbox("other", "box")).unwrap();
    assert_eq!(endpoint, ("127.0.0.1".to_string(), 40022));
    let err = driver.resolve_endpoint(&plain_sandbox("other", "none")).unwrap_err();
    assert_eq!(err.code(), Code::NotFound);
    let asked = host.asked.len();
    let err = create(&mut host, &mut driver, &plain_sandbox("id-1", "other")).unwrap_err();
    assert_eq!(err.code(), Code::AlreadyExists);
    assert_eq!(err.message(), "sandbox already exists");
    assert_eq!(host.asked.len(), asked);
    assert!(driver.take_events().is_empty());
    let kept = driver.current_snapshots();
    assert_eq!(kept.len(), 1);
    assert_eq!(kept[0].name, "box");
}

fn failing(which: &'static str, kind: FaultKind) -> Host {
    Host::refusing(Box::new(move |q| {
        if format!("{q:?}").starts_with(which) {
            Some(HostReply::failed(kind, "boom".to_string()))
        } else {
            None
        }
    }))
}

#[test]
fn every_failing_step_of_a_creation_is_named() {
    let steps = [
        ("BindLocalPort", FaultKind::Other, "failed to allocate local ssh port: boom"),
        ("LocalPort", FaultKind::Other, "failed to inspect local ssh port: boom"),
        ("CreateDirAll { path: \"/state/sandboxes/a\"", FaultKind::Other, "create state dir failed: boom"),
        ("ExtractRootfs", FaultKind::Other, "extract sandbox rootfs failed: boom"),
        ("ExtractRootfs", FaultKind::Panicked, "sandbox rootfs extraction panicked: boom"),
        ("CopyFile", FaultKind::Other, "prepare guest TLS materials failed: boom"),
        ("SetMode", FaultKind::Other, "prepare guest TLS materials failed: boom"),
        ("Spawn", FaultKind::Other, "failed to launch openshell-vm 'openshell-vm': boom"),
    ];
    for (step, kind, message) in steps {
        let mut host = failing(step, kind);
        let mut driver = started(&mut host, tls_config);
        let err = create(&mut host, &mut driver, &plain_sandbox("a", "a")).unwrap_err();
        assert_eq!(err.code(), Code::Internal);
        assert_eq!(err.message(), message);
        assert!(!driver.is_registered("a"));
        assert!(driver.take_events().is_empty());
        if step == "Spawn" {
            assert_eq!(host.asked.last().unwrap(), "RemoveDirAll { path: \"/state/sandboxes/a\" }");
        }
    }
    let mut host = Host::refusing(Box::new(|q| match q {
        HostRequest::Spawn { .. } => Some(HostReply::process(None)),
        _ => None,
    }));
    let mut driver = started(&mut host, plain_config);
    let err = create(&mut host, &mut driver, &plain_sandbox("a", "a")).unwrap_err();
    assert_eq!(err.message(), "openshell-vm pid is unavailable");
}

#[test]
fn missing_tls_file_refuses_a_creation() {
    let mut host = Host::new();
    let mut driver = started(&mut host, tls_config);
    let mut host = Host::refusing(Box::new(|q| match q {
        HostRequest::IsFile { .. } => Some(HostReply::flag(false)),
        _ => None,
    }));
    let err = create(&mut host, &mut driver, &plain_sandbox("a", "a")).unwrap_err();
    assert_eq!(err.code(), Code::FailedPrecondition);
}

#[test]
fn deleted_sandbox_is_ended_removed_and_told() {
    let mut host = Host::new();
    let mut driver = started(&mut host, plain_config);
    create(&mut host, &mut driver, &plain_sandbox("id-1", "box")).unwrap();
    driver.take_events();
    host.asked.clear();
    let record = driver.begin_delete_sandbox("unknown", "box");
    assert!(record.is_some());
    assert!(!driver.is_registered("id-1"));
    let deleted = host.drive(|d| driver.delete_sandbox(&record, "unknown", d)).unwrap();
    assert!(deleted);
    assert_eq!(
        host.asked,
        vec![
            "ProcessId { id: \"id-1\" }",
            "Terminate { pid: 42 }",
            "WaitEnd { id: \"id-1\", millis: 5000 }",
            "RemoveDirAll { path: \"/state/sandboxes/id-1\" }",
        ]
    );
    let events = driver.take_events();
    assert_eq!(events.len(), 2);
    match &events[0] {
        WatchEvent::Sandbox { sandbox } => {
            assert_eq!(sandbox.phase, SandboxPhase::Deleting);
            let status = sandbox.status.as_ref().unwrap();
            assert_eq!(status.conditions[0].reason, "Deleting");
            assert!(status.driver_config.is_some());
        }
        other => panic!("unexpected event {other:?}"),
    }
    assert!(matches!(&events[1], WatchEvent::Deleted { sandbox_id } if sandbox_id == "unknown"));
    let record = driver.begin_delete_sandbox("id-1", "box");
    assert!(record.is_none());
    let deleted = host.drive(|d| driver.delete_sandbox(&record, "id-1", d)).unwrap();
    assert!(!deleted);
}

#[test]
fn machine_that_does_not_end_is_killed() {
    let mut host = Host::refusing(Box::new(|q| match q {
        HostRequest::WaitEnd { .. } => Some(HostReply::timed_out()),
        HostRequest::Terminate { .. } => {
            Some(HostReply::failed(FaultKind::NoSuchProcess, "gone".to_string()))
        }
        _ => None,
    }));
    host.drive(|d| terminate_vm_process(d, "a")).unwrap();
    assert_eq!(&host.asked[3..], ["Kill { id: \"a\" }", "Wait { id: \"a\" }"]);
    let mut host = failing("Terminate", FaultKind::PermissionDenied);
    let err = host.drive(|d| terminate_vm_process(d, "a")).unwrap_err();
    assert_eq!(err.text(), "send SIGTERM to vm process 42: boom");
    let mut host = failing("WaitEnd", FaultKind::Other);
    assert_eq!(host.drive(|d| terminate_vm_process(d, "a")).unwrap_err().text(), "boom");
}

#[test]
fn failing_deletion_is_reported() {
    let record = || {
        Some(SandboxRecord {
            snapshot: plain_sandbox("a", "a"),
            ssh_port: 1,
            state_dir: "/state/sandboxes/a".to_string(),
        })
    };
    let mut driver = started(&mut Host::new(), plain_config);
    let mut host = failing("WaitEnd", FaultKind::Other);
    let err = host.drive(|d| driver.delete_sandbox(&record(), "a", d)).unwrap_err();
    assert_eq!(err.message(), "failed to stop vm: boom");
    let mut host = failing("RemoveDirAll", FaultKind::Other);
    let err = host.drive(|d| driver.delete_sandbox(&record(), "a", d)).unwrap_err();
    assert_eq!(err.message(), "failed to remove state dir: boom");
    let mut host = failing("RemoveDirAll", FaultKind::NotFound);
    assert!(host.drive(|d| driver.delete_sandbox(&record(), "a", d)).unwrap());
}

#[test]
fn monitor_reports_ready_once_and_ends_with_the_machine() {
    let mut host = Host::new();
    let mut driver = started(&mut host, plain_config);
    create(&mut host, &mut driver, &plain_sandbox("a", "box")).unwrap();
    driver.take_events();
    let (ready, action) = driver.monitor_sandbox("a", false, MonitorEvent::RoundBegins, 5);
    assert_eq!((ready, action), (false, MonitorAction::Poll { ssh_port: 40022 }));
    let running = || MonitorEvent::Running { ssh_port: 40022 };
    let (ready, action) = driver.monitor_sandbox("a", ready, running(), 5);
    assert_eq!((ready, action), (false, MonitorAction::ProbePort { port: 40022 }));
    let probed = MonitorEvent::PortProbed { ready: false };
    let (ready, action) = driver.monitor_sandbox("a", ready, probed, 5);
    assert_eq!((ready, action), (false, MonitorAction::Sleep { millis: 250 }));
    assert!(driver.take_events().is_empty());
    let probed = MonitorEvent::PortProbed { ready: true };
    let (ready, _) = driver.monitor_sandbox("a", ready, probed, 5);
    assert!(ready);
    assert_eq!(driver.current_snapshots()[0].phase, SandboxPhase::Ready);
    assert_eq!(driver.take_events().len(), 1);
    let (_, action) = driver.monitor_sandbox("a", ready, running(), 5);
    assert_eq!(action, MonitorAction::Sleep { millis: 250 });
    let exited = MonitorEvent::Exited { code: Some(-3) };
    let (_, action) = driver.monitor_sandbox("a", ready, exited, 77);
    assert_eq!(action, MonitorAction::Stop);
    let events = driver.take_events();
    match &events[1] {
        WatchEvent::Platform { sandbox_id, event } => {
            assert_eq!(sandbox_id, "a");
            assert_eq!(event.timestamp_ms, 77);
            assert_eq!(event.source, "vm");
            assert_eq!(event.event_type, "Warning");
            assert_eq!(event.reason, "ProcessExited");
            assert_eq!(event.message, "VM process exited with status -3");
        }
        other => panic!("unexpected event {other:?}"),
    }
    assert_eq!(driver.current_snapshots()[0].phase, SandboxPhase::Error);
}

#[test]
fn monitor_of_a_gone_sandbox_stops() {
    let mut driver = started(&mut Host::new(), plain_config);
    let (_, action) = driver.monitor_sandbox("a", false, MonitorEvent::RoundBegins, 0);
    assert_eq!(action, MonitorAction::Stop);
    let (_, action) = driver.monitor_sandbox("a", false, MonitorEvent::Deleting, 0);
    assert_eq!(action, MonitorAction::Stop);
    let failed = MonitorEvent::PollFailed { message: "lost".to_string() };
    driver.monitor_sandbox("a", false, failed, 0);
    let events = driver.take_events();
    assert_eq!(events.len(), 1);
    assert!(matches!(
        &events[0],
        WatchEvent::Platform { event, .. }
            if event.message == "Failed to poll openshell-vm child: lost"
    ));
    let condition = error_condition("R", "m");
    assert!(driver.set_snapshot_condition("a", SandboxPhase::Error, condition).is_none());
}

#[test]
fn snapshots_come_in_the_order_of_the_names() {
    let mut host = Host::new();
    let mut driver = started(&mut host, plain_config);
    for (id, name) in [("1", "zoo"), ("2", "ant"), ("3", "mid")] {
        create(&mut host, &mut driver, &plain_sandbox(id, name)).unwrap();
    }
    let names: Vec<String> = driver.current_snapshots().into_iter().map(|s| s.name).collect();
    assert_eq!(names, vec!["ant", "mid", "zoo"]);
    let first: Vec<String> = driver
        .initial_events()
        .into_iter()
        .map(|e| match e {
            WatchEvent::Sandbox { sandbox } => sandbox.id,
            other => panic!("unexpected event {other:?}"),
        })
        .collect();
    assert_eq!(first, vec!["2", "3", "1"]);
    assert_eq!(watch_step(WatchInput::Event), WatchStep::Forward);
    assert_eq!(watch_step(WatchInput::Lagged), WatchStep::Skip);
    assert_eq!(watch_step(WatchInput::Closed), WatchStep::Stop);
}

#[test]
fn requests_have_to_name_a_sandbox() {
    let err = required_sandbox(None).unwrap_err();
    assert_eq!(err.code(), Code::InvalidArgument);
    assert_eq!(err.message(), "sandbox is required");
    assert_eq!(required_sandbox(Some(plain_sandbox("a", "b"))).unwrap().name, "b");
}

#[test]
fn paths_of_a_sandbox_and_of_the_program() {
    assert_eq!(sandbox_state_dir("/state", "a"), "/state/sandboxes/a");
    assert_ne!(sandbox_state_dir("/state", "a"), sandbox_state_dir("/state", "b"));
    assert_eq!(
        default_console_log_path("/state/sandboxes/a/rootfs"),
        "/state/sandboxes/a/rootfs-console.log"
    );
    let given = resolve_vm_binary(Some("/opt/vm".to_string()), Err("no".to_string()), "");
    assert_eq!(given, Ok("/opt/vm".to_string()));
    let beside = resolve_vm_binary(None, Ok("/usr/bin/openshell-driver-vm".to_string()), ".exe");
    assert_eq!(beside, Ok("/usr/bin/openshell-vm.exe".to_string()));
    let unknown = resolve_vm_binary(None, Err("no".to_string()), "");
    assert_eq!(unknown, Err("failed to resolve current executable: no".to_string()));
}
