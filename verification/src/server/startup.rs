//! The steps from the configuration of the server to its first connection.

use vstd::prelude::*;

use crate::dialogue::{Dialogue, Transcript};
use crate::driver::environment::Environment;
use crate::fault::{Fault, FaultKind};
use crate::gpu::checks::name_view;
use crate::server::config::{Config, ServerError, ServerErrorView, ServerView, TlsView};
use crate::server::endpoint::{
    bind_address, compute_driver_bind_address, driver_endpoint,
    effective_compute_driver_endpoint, endpoint_parts, is_benign_tls_handshake_failure,
};
use crate::text::{decimal, decimal_text, glue2, glue4, trim, trimmed};

verus! {

/// What the Kubernetes compute driver is configured with.
#[derive(Debug)]
pub struct KubernetesComputeConfig {
    pub namespace: String,
    pub default_image: String,
    pub image_pull_policy: String,
    pub grpc_endpoint: String,
    pub ssh_listen_addr: String,
    pub ssh_port: u16,
    pub ssh_handshake_secret: String,
    pub ssh_handshake_skew_secs: u64,
    pub client_tls_secret_name: String,
    pub host_gateway_ip: String,
}

/// The view of a [`KubernetesComputeConfig`].
#[verifier::ext_equal]
pub struct KubernetesView {
    pub namespace: Seq<char>,
    pub default_image: Seq<char>,
    pub image_pull_policy: Seq<char>,
    pub grpc_endpoint: Seq<char>,
    pub ssh_listen_addr: Seq<char>,
    pub ssh_port: u16,
    pub ssh_handshake_secret: Seq<char>,
    pub ssh_handshake_skew_secs: u64,
    pub client_tls_secret_name: Seq<char>,
    pub host_gateway_ip: Seq<char>,
}

impl View for KubernetesComputeConfig {
    type V = KubernetesView;

    open spec fn view(&self) -> KubernetesView {
        KubernetesView {
            namespace: self.namespace@,
            default_image: self.default_image@,
            image_pull_policy: self.image_pull_policy@,
            grpc_endpoint: self.grpc_endpoint@,
            ssh_listen_addr: self.ssh_listen_addr@,
            ssh_port: self.ssh_port,
            ssh_handshake_secret: self.ssh_handshake_secret@,
            ssh_handshake_skew_secs: self.ssh_handshake_skew_secs,
            client_tls_secret_name: self.client_tls_secret_name@,
            host_gateway_ip: self.host_gateway_ip@,
        }
    }
}

/// The Kubernetes configuration that a configuration of the server leads to.
pub open spec fn kubernetes_view(config: ServerView) -> KubernetesView {
    KubernetesView {
        namespace: config.sandbox_namespace,
        default_image: config.sandbox_image,
        image_pull_policy: config.sandbox_image_pull_policy,
        grpc_endpoint: config.grpc_endpoint,
        ssh_listen_addr: "0.0.0.0:"@ + decimal(config.sandbox_ssh_port as nat),
        ssh_port: config.sandbox_ssh_port,
        ssh_handshake_secret: config.ssh_handshake_secret,
        ssh_handshake_skew_secs: config.ssh_handshake_skew_secs,
        client_tls_secret_name: config.client_tls_secret_name,
        host_gateway_ip: config.host_gateway_ip,
    }
}

pub fn kubernetes_config(config: &Config) -> (k: KubernetesComputeConfig)
    ensures
        k@ == kubernetes_view(config@),
        k.namespace@ == config.sandbox_namespace@,
        k.default_image@ == config.sandbox_image@,
        k.image_pull_policy@ == config.sandbox_image_pull_policy@,
        k.grpc_endpoint@ == config.grpc_endpoint@,
        k.ssh_listen_addr@ == "0.0.0.0:"@ + decimal(config.sandbox_ssh_port as nat),
        k.ssh_port == config.sandbox_ssh_port,
        k.ssh_handshake_secret@ == config.ssh_handshake_secret@,
        k.ssh_handshake_skew_secs == config.ssh_handshake_skew_secs,
        k.client_tls_secret_name@ == config.client_tls_secret_name@,
        k.host_gateway_ip@ == config.host_gateway_ip@,
{
    KubernetesComputeConfig {
        namespace: config.sandbox_namespace.clone(),
        default_image: config.sandbox_image.clone(),
        image_pull_policy: config.sandbox_image_pull_policy.clone(),
        grpc_endpoint: config.grpc_endpoint.clone(),
        ssh_listen_addr: glue2(
            "0.0.0.0:",
            decimal_text(config.sandbox_ssh_port as u64).as_str(),
        ),
        ssh_port: config.sandbox_ssh_port,
        ssh_handshake_secret: config.ssh_handshake_secret.clone(),
        ssh_handshake_skew_secs: config.ssh_handshake_skew_secs,
        client_tls_secret_name: config.client_tls_secret_name.clone(),
        host_gateway_ip: config.host_gateway_ip.clone(),
    }
}

/// One operation that the surrounding program performs for the server.
#[derive(Debug)]
pub enum StartRequest {
    /// Connect to the database.
    ConnectStore { url: String },
    /// Start a compute driver with these variables added to its environment.
    SpawnDriver { program: String, env: Environment },
    /// Kill the compute driver and wait for its end.
    StopDriver,
    /// Connect to a compute driver.
    ConnectDriver { endpoint: String },
    /// Use a Kubernetes cluster.
    UseKubernetes { config: KubernetesComputeConfig },
    /// Begin to follow what the compute driver reports.
    SpawnWatchers,
    /// Begin to remove expired sessions, at this interval.
    SpawnSessionReaper { interval_secs: u64 },
    /// Listen for connections.
    Listen { address: String },
    /// Load the TLS files.
    LoadTls { cert: String, key: String, client_ca: String, allow_unauthenticated: bool },
}

/// The view of a [`StartRequest`].
pub enum StartRequestView {
    ConnectStore { url: Seq<char> },
    SpawnDriver { program: Seq<char>, env: Map<Seq<char>, Seq<char>> },
    StopDriver,
    ConnectDriver { endpoint: Seq<char> },
    UseKubernetes { config: KubernetesView },
    SpawnWatchers,
    SpawnSessionReaper { interval_secs: u64 },
    Listen { address: Seq<char> },
    LoadTls {
        cert: Seq<char>,
        key: Seq<char>,
        client_ca: Seq<char>,
        allow_unauthenticated: bool,
    },
}

impl View for StartRequest {
    type V = StartRequestView;

    open spec fn view(&self) -> StartRequestView {
        match self {
            StartRequest::ConnectStore { url } => StartRequestView::ConnectStore { url: url@ },
            StartRequest::SpawnDriver { program, env } => StartRequestView::SpawnDriver {
                program: program@,
                env: env@,
            },
            StartRequest::StopDriver => StartRequestView::StopDriver,
            StartRequest::ConnectDriver { endpoint } => StartRequestView::ConnectDriver {
                endpoint: endpoint@,
            },
            StartRequest::UseKubernetes { config } => StartRequestView::UseKubernetes {
                config: config@,
            },
            StartRequest::SpawnWatchers => StartRequestView::SpawnWatchers,
            StartRequest::SpawnSessionReaper { interval_secs } =>
            StartRequestView::SpawnSessionReaper { interval_secs: *interval_secs },
            StartRequest::Listen { address } => StartRequestView::Listen { address: address@ },
            StartRequest::LoadTls { cert, key, client_ca, allow_unauthenticated } =>
            StartRequestView::LoadTls {
                cert: cert@,
                key: key@,
                client_ca: client_ca@,
                allow_unauthenticated: *allow_unauthenticated,
            },
        }
    }
}

/// The reply to a [`StartRequest`]: whether it succeeded, and where it did not, why
/// not.
#[derive(Debug)]
pub struct StartReply {
    pub ok: bool,
    pub text: String,
}

/// The view of a [`StartReply`].
pub struct StartReplyView {
    pub ok: bool,
    pub text: Seq<char>,
}

impl View for StartReply {
    type V = StartReplyView;

    open spec fn view(&self) -> StartReplyView {
        StartReplyView { ok: self.ok, text: self.text@ }
    }
}

pub type StartDialogue = Dialogue<StartRequest, StartReply>;

pub type StartTranscript = Transcript<StartRequestView, StartReplyView>;

/// The last reply of an exchange; one that is still awaited counts as a failure.
pub open spec fn start_answer(t: StartTranscript) -> StartReplyView {
    t.reply(StartReplyView { ok: false, text: Seq::empty() })
}

fn ask_start(d: &mut StartDialogue, q: StartRequest) -> (r: Option<StartReply>)
    ensures
        final(d)@ == old(d)@.ask(q@),
        r is Some <==> final(d)@.live(),
        r is Some ==> r->0@ == start_answer(final(d)@),
{
    let at = d.ask(q)?;
    let a = d.reply(at);
    Some(StartReply { ok: a.ok, text: a.text.clone() })
}

/// What a compute driver that the server starts is told.
pub open spec fn driver_env(config: ServerView, address: Seq<char>) -> Map<Seq<char>, Seq<char>> {
    let base = Map::empty().insert("OPENSHELL_COMPUTE_DRIVER_BIND"@, address).insert(
        "OPENSHELL_GRPC_ENDPOINT"@,
        config.grpc_endpoint,
    ).insert("OPENSHELL_LOG_LEVEL"@, config.log_level).insert(
        "OPENSHELL_SSH_HANDSHAKE_SECRET"@,
        config.ssh_handshake_secret,
    ).insert(
        "OPENSHELL_SSH_HANDSHAKE_SKEW_SECS"@,
        decimal(config.ssh_handshake_skew_secs as nat),
    );
    match config.tls {
        Some(tls) => base.insert("OPENSHELL_TLS_CA"@, tls.client_ca_path).insert(
            "OPENSHELL_TLS_CERT"@,
            tls.cert_path,
        ).insert("OPENSHELL_TLS_KEY"@, tls.key_path),
        None => base,
    }
}

/// What a compute driver that the server starts is told.
pub fn driver_environment(config: &Config, address: &str) -> (env: Environment)
    ensures
        env@ == driver_env(config@, address@),
{
    let mut env = Environment::new();
    env.set("OPENSHELL_COMPUTE_DRIVER_BIND", address);
    env.set("OPENSHELL_GRPC_ENDPOINT", config.grpc_endpoint.as_str());
    env.set("OPENSHELL_LOG_LEVEL", config.log_level.as_str());
    env.set("OPENSHELL_SSH_HANDSHAKE_SECRET", config.ssh_handshake_secret.as_str());
    let skew = decimal_text(config.ssh_handshake_skew_secs);
    env.set("OPENSHELL_SSH_HANDSHAKE_SKEW_SECS", skew.as_str());
    match &config.tls {
        Some(tls) => {
            env.set("OPENSHELL_TLS_CA", tls.client_ca_path.as_str());
            env.set("OPENSHELL_TLS_CERT", tls.cert_path.as_str());
            env.set("OPENSHELL_TLS_KEY", tls.key_path.as_str());
        },
        None => {},
    }
    env
}

/// What a step of the start ends in.
pub type StartStep = Result<(), ServerErrorView>;

pub open spec fn start_step<T>(r: Result<T, ServerError>) -> Result<T, ServerErrorView> {
    match r {
        Ok(v) => Ok(v),
        Err(e) => Err(e@),
    }
}

/// Starts the compute driver at `binary`, to be reached at `endpoint`.
pub open spec fn spawn_driver_run(
    t: StartTranscript,
    config: ServerView,
    binary: Seq<char>,
    endpoint: Seq<char>,
) -> (StartTranscript, StartStep) {
    match bind_address(endpoint, endpoint_parts(endpoint)) {
        Err(e) => (t, Err(e)),
        Ok(address) => {
            let t = t.ask(
                StartRequestView::SpawnDriver {
                    program: binary,
                    env: driver_env(config, address),
                },
            );
            if !start_answer(t).ok {
                (
                    t,
                    Err(
                        ServerErrorView::Execution {
                            message: "failed to spawn compute driver '"@ + binary + "': "@
                                + start_answer(t).text,
                        },
                    ),
                )
            } else {
                (t, Ok(()))
            }
        },
    }
}

fn spawn_driver(d: &mut StartDialogue, config: &Config, binary: &str, endpoint: &str) -> (r: Option<
    Result<(), ServerError>,
>)
    requires
        old(d)@.live(),
    ensures
        final(d)@ == spawn_driver_run(old(d)@, config@, binary@, endpoint@).0,
        r is Some <==> final(d)@.live(),
        r is Some ==> start_step(r->0) == spawn_driver_run(
            old(d)@,
            config@,
            binary@,
            endpoint@,
        ).1,
{
    let address = match compute_driver_bind_address(endpoint) {
        Ok(address) => address,
        Err(e) => {
            return Some(Err(e));
        },
    };
    let env = driver_environment(config, address.as_str());
    let spawned = ask_start(d, StartRequest::SpawnDriver { program: binary.to_owned(), env })?;
    if !spawned.ok {
        let message = glue4(
            "failed to spawn compute driver '",
            binary,
            "': ",
            spawned.text.as_str(),
        );
        return Some(Err(ServerError::Execution { message }));
    }
    Some(Ok(()))
}

/// How often expired sessions are removed, in seconds.
pub const SESSION_REAPER_INTERVAL_SECS: u64 = 3600;

/// Connects to what runs the sandboxes: a compute driver, or a Kubernetes cluster.
pub open spec fn compute_run(
    t: StartTranscript,
    config: ServerView,
    endpoint: Option<Seq<char>>,
) -> (StartTranscript, StartStep) {
    let q = match endpoint {
        Some(endpoint) => StartRequestView::ConnectDriver { endpoint },
        None => StartRequestView::UseKubernetes { config: kubernetes_view(config) },
    };
    let t = t.ask(q);
    if start_answer(t).ok {
        (t, Ok(()))
    } else {
        (
            t,
            Err(
                ServerErrorView::Execution {
                    message: "failed to create compute runtime: "@ + start_answer(t).text,
                },
            ),
        )
    }
}

/// Loads the TLS files, where the server has any. The result says whether
/// connections are encrypted.
pub open spec fn load_tls_run(t: StartTranscript, tls: Option<TlsView>) -> (
    StartTranscript,
    Result<bool, ServerErrorView>,
) {
    match tls {
        None => (t, Ok(false)),
        Some(tls) => {
            let t = t.ask(
                StartRequestView::LoadTls {
                    cert: tls.cert_path,
                    key: tls.key_path,
                    client_ca: tls.client_ca_path,
                    allow_unauthenticated: tls.allow_unauthenticated,
                },
            );
            if start_answer(t).ok {
                (t, Ok(true))
            } else {
                (t, Err(ServerErrorView::Reported { message: start_answer(t).text }))
            }
        },
    }
}

/// From the compute driver to the first connection.
pub open spec fn serve_run(
    t: StartTranscript,
    config: ServerView,
    endpoint: Option<Seq<char>>,
) -> (StartTranscript, Result<bool, ServerErrorView>) {
    let (t, r) = compute_run(t, config, endpoint);
    match r {
        Err(e) => (t, Err(e)),
        Ok(_) => {
            let t = t.ask(StartRequestView::SpawnWatchers);
            let t = t.ask(
                StartRequestView::SpawnSessionReaper {
                    interval_secs: SESSION_REAPER_INTERVAL_SECS,
                },
            );
            let t = t.ask(StartRequestView::Listen { address: config.bind_address });
            if !start_answer(t).ok {
                (
                    t,
                    Err(
                        ServerErrorView::Transport {
                            message: "failed to bind to "@ + config.bind_address + ": "@
                                + start_answer(t).text,
                        },
                    ),
                )
            } else {
                load_tls_run(t, config.tls)
            }
        },
    }
}

fn serve(d: &mut StartDialogue, config: &Config, endpoint: &Option<String>) -> (r: Option<
    Result<bool, ServerError>,
>)
    ensures
        final(d)@ == serve_run(old(d)@, config@, name_view(*endpoint)).0,
        r is Some <==> final(d)@.live(),
        r is Some ==> start_step(r->0) == serve_run(
            old(d)@,
            config@,
            name_view(*endpoint),
        ).1,
{
    let q = match endpoint {
        Some(endpoint) => StartRequest::ConnectDriver { endpoint: endpoint.clone() },
        None => StartRequest::UseKubernetes { config: kubernetes_config(config) },
    };
    let compute = ask_start(d, q)?;
    if !compute.ok {
        let message = glue2("failed to create compute runtime: ", compute.text.as_str());
        return Some(Err(ServerError::Execution { message }));
    }
    let _ = ask_start(d, StartRequest::SpawnWatchers);
    let _ = ask_start(
        d,
        StartRequest::SpawnSessionReaper { interval_secs: SESSION_REAPER_INTERVAL_SECS },
    );
    let listening = match ask_start(
        d,
        StartRequest::Listen { address: config.bind_address.clone() },
    ) {
        Some(listening) => listening,
        None => {
            return None;
        },
    };
    if !listening.ok {
        let message = glue4(
            "failed to bind to ",
            config.bind_address.as_str(),
            ": ",
            listening.text.as_str(),
        );
        return Some(Err(ServerError::Transport { message }));
    }
    match &config.tls {
        None => Some(Ok(false)),
        Some(tls) => {
            let loaded = ask_start(
                d,
                StartRequest::LoadTls {
                    cert: tls.cert_path.clone(),
                    key: tls.key_path.clone(),
                    client_ca: tls.client_ca_path.clone(),
                    allow_unauthenticated: tls.allow_unauthenticated,
                },
            )?;
            if loaded.ok {
                Some(Ok(true))
            } else {
                Some(Err(ServerError::Reported { message: loaded.text }))
            }
        },
    }
}

/// From a connected database to the first connection. A compute driver that was
/// started is stopped again where a later step fails.
pub open spec fn with_store_run(t: StartTranscript, config: ServerView) -> (
    StartTranscript,
    Result<bool, ServerErrorView>,
) {
    let endpoint = driver_endpoint(config);
    match config.compute_driver_bin {
        None => serve_run(t, config, endpoint),
        Some(binary) => {
            let (t, r) = spawn_driver_run(t, config, binary, endpoint->0);
            match r {
                Err(e) => (t, Err(e)),
                Ok(_) => {
                    let (t, served) = serve_run(t, config, endpoint);
                    match served {
                        Ok(tls) => (t, Ok(tls)),
                        Err(e) => (t.ask(StartRequestView::StopDriver), Err(e)),
                    }
                },
            }
        },
    }
}

/// The start of the server: where it succeeds, the result says whether connections
/// are encrypted.
pub open spec fn start_run(t: StartTranscript, config: ServerView) -> (
    StartTranscript,
    Result<bool, ServerErrorView>,
) {
    let url = trimmed(config.database_url);
    if url.len() == 0 {
        (t, Err(ServerErrorView::Config { message: "database_url is required"@ }))
    } else if config.ssh_handshake_secret.len() == 0 {
        (
            t,
            Err(
                ServerErrorView::Config {
                    message:
                        "ssh_handshake_secret is required. Set --ssh-handshake-secret or OPENSHELL_SSH_HANDSHAKE_SECRET"@,
                },
            ),
        )
    } else {
        let t = t.ask(StartRequestView::ConnectStore { url });
        if !start_answer(t).ok {
            (t, Err(ServerErrorView::Reported { message: start_answer(t).text }))
        } else {
            with_store_run(t, config)
        }
    }
}

/// Starts the server. Where it succeeds, the result says whether connections are
/// encrypted.
pub fn run_server(config: &Config, d: &mut StartDialogue) -> (r: Option<
    Result<bool, ServerError>,
>)
    ensures
        final(d)@ == start_run(old(d)@, config@).0,
        r is Some <==> final(d)@.live(),
        r is Some ==> start_step(r->0) == start_run(old(d)@, config@).1,
{
    if !d.is_live() {
        return None;
    }
    let url = trim(config.database_url.as_str());
    if url.as_str().is_empty() {
        return Some(
            Err(ServerError::Config { message: "database_url is required".to_owned() }),
        );
    }
    if config.ssh_handshake_secret.as_str().is_empty() {
        return Some(
            Err(
                ServerError::Config {
                    message:
                        "ssh_handshake_secret is required. Set --ssh-handshake-secret or OPENSHELL_SSH_HANDSHAKE_SECRET".to_owned(),
                },
            ),
        );
    }
    let store = ask_start(d, StartRequest::ConnectStore { url })?;
    if !store.ok {
        return Some(Err(ServerError::Reported { message: store.text }));
    }
    let endpoint = match effective_compute_driver_endpoint(config) {
        Ok(endpoint) => endpoint,
        Err(e) => {
            return Some(Err(e));
        },
    };
    match (&config.compute_driver_bin, &endpoint) {
        (Some(binary), Some(address)) => {
            match spawn_driver(d, config, binary.as_str(), address.as_str()) {
                Some(Ok(())) => {},
                Some(Err(e)) => {
                    return Some(Err(e));
                },
                None => {
                    return None;
                },
            }
            match serve(d, config, &endpoint) {
                Some(Ok(tls)) => Some(Ok(tls)),
                Some(Err(e)) => {
                    let _ = ask_start(d, StartRequest::StopDriver)?;
                    Some(Err(e))
                },
                None => None,
            }
        },
        _ => serve(d, config, &endpoint),
    }
}

/// A compute driver that the server started does not outlive a start that fails
/// later: stopping it is the last thing asked.
pub proof fn law_driver_is_stopped_after_failure(t: StartTranscript, config: ServerView)
    requires
        config.compute_driver_bin is Some,
        spawn_driver_run(
            t,
            config,
            config.compute_driver_bin->0,
            driver_endpoint(config)->0,
        ).1 is Ok,
        with_store_run(t, config).1 is Err,
        with_store_run(t, config).0.live(),
    ensures
        with_store_run(t, config).0.asked.last() == StartRequestView::StopDriver,
{
}

/// A server without a database or without the secret of its handshakes asks nothing
/// and fails.
pub proof fn law_incomplete_server_asks_nothing(t: StartTranscript, config: ServerView)
    requires
        trimmed(config.database_url).len() == 0 || config.ssh_handshake_secret.len() == 0,
    ensures
        start_run(t, config).0 == t,
        start_run(t, config).1 is Err && start_run(t, config).1->Err_0 is Config,
{
}

/// Connections are encrypted exactly where TLS is configured.
pub proof fn law_tls_is_as_configured(t: StartTranscript, config: ServerView)
    requires
        start_run(t, config).1 is Ok,
    ensures
        start_run(t, config).1->Ok_0 == config.tls is Some,
{
}

/// What happens at the listener of the server.
#[derive(Debug)]
pub enum ConnectionEvent {
    /// A connection could not be accepted.
    AcceptFailed,
    /// A connection was accepted.
    Accepted,
    /// The TLS handshake of a connection failed.
    HandshakeFailed { error: Fault },
    /// The TLS handshake of a connection succeeded.
    HandshakeDone,
    /// Serving a connection failed.
    ServeFailed,
}

/// What to do about it.
#[derive(Debug, Clone, Copy, PartialEq, Eq, Structural)]
pub enum ConnectionAction {
    /// Report a failure, and go on.
    ReportError,
    /// Note it for debugging, and go on.
    ReportDebug,
    /// Begin a TLS handshake.
    Handshake,
    /// Serve the connection.
    Serve,
}

/// What to do about an event at the listener, where `tls` says whether connections
/// are encrypted. No event ends the server.
pub fn connection_step(event: &ConnectionEvent, tls: bool) -> (r: ConnectionAction)
    ensures
        r == match *event {
            ConnectionEvent::AcceptFailed => ConnectionAction::ReportError,
            ConnectionEvent::Accepted => if tls {
                ConnectionAction::Handshake
            } else {
                ConnectionAction::Serve
            },
            ConnectionEvent::HandshakeFailed { error } => if error.kind == FaultKind::UnexpectedEof
                || error.kind == FaultKind::ConnectionReset {
                ConnectionAction::ReportDebug
            } else {
                ConnectionAction::ReportError
            },
            ConnectionEvent::HandshakeDone => ConnectionAction::Serve,
            ConnectionEvent::ServeFailed => ConnectionAction::ReportError,
        },
{
    match event {
        ConnectionEvent::AcceptFailed => ConnectionAction::ReportError,
        ConnectionEvent::Accepted => if tls {
            ConnectionAction::Handshake
        } else {
            ConnectionAction::Serve
        },
        ConnectionEvent::HandshakeFailed { error } => if is_benign_tls_handshake_failure(error) {
            ConnectionAction::ReportDebug
        } else {
            ConnectionAction::ReportError
        },
        ConnectionEvent::HandshakeDone => ConnectionAction::Serve,
        ConnectionEvent::ServeFailed => ConnectionAction::ReportError,
    }
}

} // verus!
