//! Configuration of the server, and what can go wrong with it.

use vstd::prelude::*;

use crate::gpu::checks::name_view;

verus! {

/// The TLS files of the server.
#[derive(Debug)]
pub struct TlsConfig {
    pub cert_path: String,
    pub key_path: String,
    pub client_ca_path: String,
    pub allow_unauthenticated: bool,
}

/// The view of a [`TlsConfig`].
pub struct TlsView {
    pub cert_path: Seq<char>,
    pub key_path: Seq<char>,
    pub client_ca_path: Seq<char>,
    pub allow_unauthenticated: bool,
}

impl View for TlsConfig {
    type V = TlsView;

    open spec fn view(&self) -> TlsView {
        TlsView {
            cert_path: self.cert_path@,
            key_path: self.key_path@,
            client_ca_path: self.client_ca_path@,
            allow_unauthenticated: self.allow_unauthenticated,
        }
    }
}

pub open spec fn tls_view(t: Option<TlsConfig>) -> Option<TlsView> {
    match t {
        Some(tls) => Some(tls@),
        None => None,
    }
}

/// Configuration of the server.
#[derive(Debug)]
pub struct Config {
    pub bind_address: String,
    pub log_level: String,
    pub tls: Option<TlsConfig>,
    pub database_url: String,
    pub compute_driver_endpoint: String,
    pub compute_driver_bin: Option<String>,
    pub grpc_endpoint: String,
    pub sandbox_namespace: String,
    pub sandbox_image: String,
    pub sandbox_image_pull_policy: String,
    pub sandbox_ssh_port: u16,
    pub ssh_handshake_secret: String,
    pub ssh_handshake_skew_secs: u64,
    pub client_tls_secret_name: String,
    pub host_gateway_ip: String,
}

/// The view of a [`Config`].
#[verifier::ext_equal]
pub struct ServerView {
    pub bind_address: Seq<char>,
    pub log_level: Seq<char>,
    pub tls: Option<TlsView>,
    pub database_url: Seq<char>,
    pub compute_driver_endpoint: Seq<char>,
    pub compute_driver_bin: Option<Seq<char>>,
    pub grpc_endpoint: Seq<char>,
    pub sandbox_namespace: Seq<char>,
    pub sandbox_image: Seq<char>,
    pub sandbox_image_pull_policy: Seq<char>,
    pub sandbox_ssh_port: u16,
    pub ssh_handshake_secret: Seq<char>,
    pub ssh_handshake_skew_secs: u64,
    pub client_tls_secret_name: Seq<char>,
    pub host_gateway_ip: Seq<char>,
}

impl View for Config {
    type V = ServerView;

    open spec fn view(&self) -> ServerView {
        ServerView {
            bind_address: self.bind_address@,
            log_level: self.log_level@,
            tls: tls_view(self.tls),
            database_url: self.database_url@,
            compute_driver_endpoint: self.compute_driver_endpoint@,
            compute_driver_bin: name_view(self.compute_driver_bin),
            grpc_endpoint: self.grpc_endpoint@,
            sandbox_namespace: self.sandbox_namespace@,
            sandbox_image: self.sandbox_image@,
            sandbox_image_pull_policy: self.sandbox_image_pull_policy@,
            sandbox_ssh_port: self.sandbox_ssh_port,
            ssh_handshake_secret: self.ssh_handshake_secret@,
            ssh_handshake_skew_secs: self.ssh_handshake_skew_secs,
            client_tls_secret_name: self.client_tls_secret_name@,
            host_gateway_ip: self.host_gateway_ip@,
        }
    }
}

/// The configuration in which nothing but TLS is set.
pub open spec fn unset(tls: Option<TlsView>) -> ServerView {
    ServerView {
        bind_address: Seq::empty(),
        log_level: Seq::empty(),
        tls,
        database_url: Seq::empty(),
        compute_driver_endpoint: Seq::empty(),
        compute_driver_bin: None,
        grpc_endpoint: Seq::empty(),
        sandbox_namespace: Seq::empty(),
        sandbox_image: Seq::empty(),
        sandbox_image_pull_policy: Seq::empty(),
        sandbox_ssh_port: 0,
        ssh_handshake_secret: Seq::empty(),
        ssh_handshake_skew_secs: 0,
        client_tls_secret_name: Seq::empty(),
        host_gateway_ip: Seq::empty(),
    }
}

impl Config {
    /// The configuration in which nothing but TLS is set.
    pub fn new(tls: Option<TlsConfig>) -> (c: Config)
        ensures
            c@ == unset(tls_view(tls)),
            c.tls == tls,
            c.compute_driver_bin is None,
            c.compute_driver_endpoint@.len() == 0,
    {
        Config {
            bind_address: String::new(),
            log_level: String::new(),
            tls,
            database_url: String::new(),
            compute_driver_endpoint: String::new(),
            compute_driver_bin: None,
            grpc_endpoint: String::new(),
            sandbox_namespace: String::new(),
            sandbox_image: String::new(),
            sandbox_image_pull_policy: String::new(),
            sandbox_ssh_port: 0,
            ssh_handshake_secret: String::new(),
            ssh_handshake_skew_secs: 0,
            client_tls_secret_name: String::new(),
            host_gateway_ip: String::new(),
        }
    }

    /// The same configuration with a compute driver that the server starts.
    pub fn with_compute_driver_bin(self, binary: String) -> (c: Config)
        ensures
            c@ == (ServerView { compute_driver_bin: Some(binary@), ..self@ }),
    {
        let mut c = self;
        c.compute_driver_bin = Some(binary);
        c
    }
}

/// Why the server could not start.
#[derive(Debug)]
pub enum ServerError {
    /// The configuration is not complete or not valid.
    Config { message: String },
    /// Something that the server needs could not be started.
    Execution { message: String },
    /// The server could not listen.
    Transport { message: String },
    /// A failure of the database or of the TLS files, as it was reported.
    Reported { message: String },
}

/// The view of a [`ServerError`].
pub enum ServerErrorView {
    Config { message: Seq<char> },
    Execution { message: Seq<char> },
    Transport { message: Seq<char> },
    Reported { message: Seq<char> },
}

impl View for ServerError {
    type V = ServerErrorView;

    open spec fn view(&self) -> ServerErrorView {
        match self {
            ServerError::Config { message } => ServerErrorView::Config { message: message@ },
            ServerError::Execution { message } => ServerErrorView::Execution { message: message@ },
            ServerError::Transport { message } => ServerErrorView::Transport { message: message@ },
            ServerError::Reported { message } => ServerErrorView::Reported { message: message@ },
        }
    }
}

} // verus!
