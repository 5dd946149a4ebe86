//! Starting the server, against a scripted host.

use openshell_vm::dialogue::Dialogue;
use openshell_vm::fault::{Fault, FaultKind};
use openshell_vm::server::config::{Config, ServerError, TlsConfig};
use openshell_vm::server::endpoint::{
    bind_address_of, compute_driver_bind_address, effective_compute_driver_endpoint,
    is_benign_tls_handshake_failure, EndpointHost, EndpointParts, DEFAULT_COMPUTE_DRIVER_ENDPOINT,
};
use openshell_vm::server::startup::{
    connection_step, run_server, ConnectionAction, ConnectionEvent, StartReply, StartRequest,
};
use openshell_vm::server::state::ServerState;

fn run(config: &Config, failing: &str) -> (Result<bool, ServerError>, Vec<String>) {
    let mut dialogue = Dialogue::new();
    let mut asked = Vec::new();
    loop {
        if let Some(result) = run_server(config, &mut dialogue) {
            return (result, asked);
        }
        let request = dialogue.pending().unwrap();
        let shown = match request {
            StartRequest::SpawnDriver { program, env } => {
                format!("SpawnDriver {program} {:?}", env.lines())
            }
            other => format!("{other:?}"),
        };
        let reply = if !failing.is_empty() && shown.starts_with(failing) {
            StartReply { ok: false, text: "boom".to_string() }
        } else {
            StartReply { ok: true, text: String::new() }
        };
        asked.push(shown);
        dialogue.record(reply);
        dialogue.rewind();
    }
}

fn config() -> Config {
    let mut c = Config::new(None);
    c.bind_address = "0.0.0.0:8080".to_string();
    c.database_url = " sqlite://db ".to_string();
    c.ssh_handshake_secret = "secret".to_string();
    c.ssh_handshake_skew_secs = 300;
    c.grpc_endpoint = "http://gw:8080".to_string();
    c.log_level = "info".to_string();
    c.sandbox_ssh_port = 2222;
    c
}

fn tls() -> TlsConfig {
    TlsConfig {
        cert_path: "/c".to_string(),
        key_path: "/k".to_string(),
        client_ca_path: "/ca".to_string(),
        allow_unauthenticated: false,
    }
}

fn message(e: ServerError) -> String {
    format!("{e:?}")
}

#[test]
fn classifies_probe_style_tls_disconnects_as_benign() {
    for kind in [FaultKind::UnexpectedEof, FaultKind::ConnectionReset] {
        let error = Fault::new(kind, "probe disconnected".to_string());
        assert!(is_benign_tls_handshake_failure(&error));
    }
}

#[test]
fn preserves_real_tls_failures_as_errors() {
    for kind in [FaultKind::InvalidData, FaultKind::PermissionDenied, FaultKind::Other] {
        let error = Fault::new(kind, "real tls failure".to_string());
        assert!(!is_benign_tls_handshake_failure(&error));
    }
}

#[test]
fn managed_compute_driver_defaults_endpoint() {
    let config = Config::new(None).with_compute_driver_bin("/tmp/driver".to_string());
    assert_eq!(
        effective_compute_driver_endpoint(&config).unwrap(),
        Some(DEFAULT_COMPUTE_DRIVER_ENDPOINT.to_string())
    );
}

#[test]
fn configured_endpoint_wins_over_the_default() {
    let mut config = Config::new(None).with_compute_driver_bin("/tmp/driver".to_string());
    config.compute_driver_endpoint = "http://10.0.0.1:9".to_string();
    assert_eq!(
        effective_compute_driver_endpoint(&config).unwrap(),
        Some("http://10.0.0.1:9".to_string())
    );
    config.compute_driver_endpoint = " \n".to_string();
    config.compute_driver_bin = None;
    assert_eq!(effective_compute_driver_endpoint(&config).unwrap(), None);
}

#[test]
fn compute_driver_bind_address_uses_host_and_port() {
    assert_eq!(compute_driver_bind_address("http://127.0.0.1:50061").unwrap(), "127.0.0.1:50061");
}

#[test]
fn endpoints_are_read_as_urls() {
    assert_eq!(compute_driver_bind_address("http://[::1]/x").unwrap(), "[::1]:80");
    let mapped = "http://[::ffff:1.2.3.4]:5";
    assert_eq!(compute_driver_bind_address(mapped).unwrap(), "[::ffff:1.2.3.4]:5");
    assert_eq!(compute_driver_bind_address("https://0x7f.1").unwrap(), "127.0.0.1:443");
    assert_eq!(compute_driver_bind_address("grpc://127.0.0.1:5").unwrap(), "127.0.0.1:5");
    assert_eq!(compute_driver_bind_address("grpc://[2001:DB8::1]:5").unwrap(), "[2001:db8::1]:5");
    let no_addresses = [
        "HTTPS://EXAMPLE.net",
        "http://localhost:50061",
        "grpc://127.0.0.01:5",
        "grpc://127.0.0.256:5",
        "grpc://127.0.0:5",
        "grpc://127.0.0.0.1:5",
        "grpc://127.0..1:5",
        "grpc://+1.0.0.1:5",
    ];
    for endpoint in no_addresses {
        assert_eq!(
            message(compute_driver_bind_address(endpoint).unwrap_err()),
            "Config { message: \"invalid compute driver bind address: \
             invalid socket address syntax\" }",
            "{endpoint}"
        );
    }
    let err = message(compute_driver_bind_address("nonsense").unwrap_err());
    assert_eq!(
        err,
        "Config { message: \"invalid compute driver endpoint 'nonsense': relative URL without a base\" }"
    );
    let err = message(compute_driver_bind_address("unix:/run/a.sock").unwrap_err());
    assert_eq!(
        err,
        "Config { message: \"compute driver endpoint 'unix:/run/a.sock' must include a host\" }"
    );
    let err = message(compute_driver_bind_address("grpc://host").unwrap_err());
    assert_eq!(
        err,
        "Config { message: \"compute driver endpoint 'grpc://host' must include a port\" }"
    );
}

#[test]
fn bind_address_follows_from_the_parts() {
    let hosts = [
        (EndpointHost::Name { text: "10.0.0.255".to_string() }, "10.0.0.255:7"),
        (EndpointHost::Ipv4 { text: "10.0.0.1".to_string() }, "10.0.0.1:7"),
        (EndpointHost::Ipv6 { text: "::1".to_string() }, "[::1]:7"),
    ];
    for (host, address) in hosts {
        let parts = EndpointParts { host: Some(host), port: Some(7) };
        assert_eq!(bind_address_of("e", Ok(parts)).unwrap(), address);
    }
    let name = EndpointHost::Name { text: "h".to_string() };
    assert!(bind_address_of("e", Ok(EndpointParts { host: Some(name), port: Some(7) })).is_err());
    assert!(bind_address_of("e", Err("bad".to_string())).is_err());
}

#[test]
fn server_with_a_managed_driver_starts_in_order() {
    let mut c = config().with_compute_driver_bin("/bin/driver".to_string());
    c.tls = Some(tls());
    let (result, asked) = run(&c, "");
    assert!(result.unwrap());
    assert_eq!(
        asked,
        vec![
            "ConnectStore { url: \"sqlite://db\" }",
            "SpawnDriver /bin/driver [\"OPENSHELL_COMPUTE_DRIVER_BIND=127.0.0.1:50061\", \
             \"OPENSHELL_GRPC_ENDPOINT=http://gw:8080\", \"OPENSHELL_LOG_LEVEL=info\", \
             \"OPENSHELL_SSH_HANDSHAKE_SECRET=secret\", \
             \"OPENSHELL_SSH_HANDSHAKE_SKEW_SECS=300\", \"OPENSHELL_TLS_CA=/ca\", \
             \"OPENSHELL_TLS_CERT=/c\", \"OPENSHELL_TLS_KEY=/k\"]",
            "ConnectDriver { endpoint: \"http://127.0.0.1:50061\" }",
            "SpawnWatchers",
            "SpawnSessionReaper { interval_secs: 3600 }",
            "Listen { address: \"0.0.0.0:8080\" }",
            "LoadTls { cert: \"/c\", key: \"/k\", client_ca: \"/ca\", allow_unauthenticated: false }",
        ]
    );
}

#[test]
fn server_without_a_driver_uses_kubernetes() {
    let (result, asked) = run(&config(), "");
    assert!(!result.unwrap());
    assert!(asked[1].starts_with("UseKubernetes"));
    assert!(asked[1].contains("ssh_listen_addr: \"0.0.0.0:2222\""));
}

#[test]
fn every_failing_step_of_the_start_is_named() {
    let steps = [
        ("ConnectStore", "Reported { message: \"boom\" }", false),
        (
            "SpawnDriver",
            "Execution { message: \"failed to spawn compute driver '/bin/driver': boom\" }",
            false,
        ),
        ("ConnectDriver", "Execution { message: \"failed to create compute runtime: boom\" }", true),
        ("Listen", "Transport { message: \"failed to bind to 0.0.0.0:8080: boom\" }", true),
        ("LoadTls", "Reported { message: \"boom\" }", true),
    ];
    for (step, text, stopped) in steps {
        let mut c = config().with_compute_driver_bin("/bin/driver".to_string());
        c.tls = Some(tls());
        let (result, asked) = run(&c, step);
        assert_eq!(message(result.unwrap_err()), text);
        assert_eq!(asked.last().unwrap() == "StopDriver", stopped, "{step}");
    }
    let mut c = config().with_compute_driver_bin("/bin/driver".to_string());
    c.compute_driver_endpoint = "http://driver:50061".to_string();
    let (result, asked) = run(&c, "");
    assert!(message(result.unwrap_err()).contains("invalid socket address syntax"));
    assert_eq!(asked, vec!["ConnectStore { url: \"sqlite://db\" }"]);
    let (result, asked) = run(&Config::new(None), "");
    assert_eq!(message(result.unwrap_err()), "Config { message: \"database_url is required\" }");
    assert!(asked.is_empty());
    let mut c = config();
    c.ssh_handshake_secret = String::new();
    let (result, _) = run(&c, "");
    assert!(message(result.unwrap_err()).contains("ssh_handshake_secret is required. Set"));
}

#[test]
fn connections_go_on_whatever_happens() {
    let reset = Fault::new(FaultKind::ConnectionReset, String::new());
    let real = Fault::new(FaultKind::InvalidData, String::new());
    let cases = [
        (ConnectionEvent::AcceptFailed, true, ConnectionAction::ReportError),
        (ConnectionEvent::Accepted, true, ConnectionAction::Handshake),
        (ConnectionEvent::Accepted, false, ConnectionAction::Serve),
        (ConnectionEvent::HandshakeFailed { error: reset }, true, ConnectionAction::ReportDebug),
        (ConnectionEvent::HandshakeFailed { error: real }, true, ConnectionAction::ReportError),
        (ConnectionEvent::HandshakeDone, true, ConnectionAction::Serve),
        (ConnectionEvent::ServeFailed, false, ConnectionAction::ReportError),
    ];
    for (event, tls, action) in cases {
        assert_eq!(connection_step(&event, tls), action);
    }
}

#[test]
fn new_server_state_has_no_tunnels() {
    let state = ServerState::new(Config::new(None), 1, 2, 3, 4, 5);
    assert!(state.ssh_connections_by_token.get("t").is_none());
    assert_eq!(state.ssh_connections_by_sandbox.len(), 0);
    assert_eq!(state.compute, 2);
}
