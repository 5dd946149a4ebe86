//! Where the compute driver is reached.

use vstd::prelude::*;

use crate::fault::{Fault, FaultKind};
use crate::gpu::checks::name_view;
use crate::server::config::{Config, ServerError, ServerErrorView, ServerView};
use crate::text::{
    decimal, decimal_text, glue3, law_decimal_reads_back, parse_unsigned, same, split, split_on,
    texts, trim, trimmed,
};

verus! {

/// Where a compute driver that the server starts is reached by default.
pub const DEFAULT_COMPUTE_DRIVER_ENDPOINT: &'static str = "http://127.0.0.1:50061";

/// The host that an endpoint names.
#[derive(Debug)]
pub enum EndpointHost {
    /// A name. In a URL of a scheme that `url` does not know, an IPv4 address is one too.
    Name { text: String },
    Ipv4 { text: String },
    /// An IPv6 address, without brackets.
    Ipv6 { text: String },
}

/// The view of an [`EndpointHost`].
pub enum HostView {
    Name { text: Seq<char> },
    Ipv4 { text: Seq<char> },
    Ipv6 { text: Seq<char> },
}

impl View for EndpointHost {
    type V = HostView;

    open spec fn view(&self) -> HostView {
        match self {
            EndpointHost::Name { text } => HostView::Name { text: text@ },
            EndpointHost::Ipv4 { text } => HostView::Ipv4 { text: text@ },
            EndpointHost::Ipv6 { text } => HostView::Ipv6 { text: text@ },
        }
    }
}

/// What an endpoint names: a host, and a port.
#[derive(Debug)]
pub struct EndpointParts {
    pub host: Option<EndpointHost>,
    pub port: Option<u16>,
}

/// What an endpoint names, or why it is not a URL.
pub type PartsView = Result<(Option<HostView>, Option<u16>), Seq<char>>;

pub open spec fn parts_view(r: Result<EndpointParts, String>) -> PartsView {
    match r {
        Ok(parts) => Ok(
            (
                match parts.host {
                    Some(host) => Some(host@),
                    None => None,
                },
                parts.port,
            ),
        ),
        Err(message) => Err(message@),
    }
}

/// What `url::Url` reads from an endpoint.
pub uninterp spec fn endpoint_parts(endpoint: Seq<char>) -> PartsView;

/// Parses an endpoint with `url::Url::parse`. The result is the host as `Url::host`
/// gives it, an IP address in its usual notation, and the port as
/// `Url::port_or_known_default` gives it, or the message of the parse error. All of it
/// depends on the text alone.
#[verifier::external_body]
fn read_endpoint(endpoint: &str) -> (r: Result<EndpointParts, String>)
    ensures
        parts_view(r) == endpoint_parts(endpoint@),
{
    let parsed = url::Url::parse(endpoint).map_err(|e| e.to_string())?;
    let host = match parsed.host() {
        Some(url::Host::Domain(name)) => Some(EndpointHost::Name { text: name.to_owned() }),
        Some(url::Host::Ipv4(ip)) => Some(EndpointHost::Ipv4 { text: ip.to_string() }),
        Some(url::Host::Ipv6(ip)) => Some(EndpointHost::Ipv6 { text: ip.to_string() }),
        None => None,
    };
    Ok(EndpointParts { host, port: parsed.port_or_known_default() })
}

/// `s` is a number of one byte in decimal notation.
pub open spec fn is_octet(s: Seq<char>) -> bool {
    exists|n: nat| n <= 255 && s == #[trigger] decimal(n)
}

fn check_octet(s: &str) -> (r: bool)
    ensures
        r == is_octet(s@),
{
    proof {
        if is_octet(s@) {
            law_decimal_reads_back(choose|n: nat| n <= 255 && s@ == #[trigger] decimal(n), 255);
        }
    }
    match parse_unsigned(s, 255) {
        Some(n) => same(decimal_text(n).as_str(), s),
        None => false,
    }
}

/// `s` is an IPv4 address: four numbers of one byte with dots between them.
pub open spec fn is_dotted_quad(s: Seq<char>) -> bool {
    let parts = split_on(s, '.');
    parts.len() == 4 && forall|i: int| 0 <= i < 4 ==> is_octet(#[trigger] parts[i])
}

fn check_dotted_quad(s: &str) -> (r: bool)
    ensures
        r == is_dotted_quad(s@),
{
    let parts = split(s, '.');
    let ghost all = split_on(s@, '.');
    if parts.len() != 4 {
        return false;
    }
    let mut i: usize = 0;
    while i < 4
        invariant
            i <= 4,
            parts@.len() == 4,
            all == texts(parts@),
            all == split_on(s@, '.'),
            forall|j: int| 0 <= j < i ==> is_octet(#[trigger] all[j]),
        decreases 4 - i,
    {
        assert(all[i as int] == parts@[i as int]@);
        if !check_octet(parts[i].as_str()) {
            return false;
        }
        i = i + 1;
    }
    true
}

/// The notation of the host in a socket address, if it is an IP address.
pub open spec fn socket_host(host: HostView) -> Option<Seq<char>> {
    match host {
        HostView::Name { text } => if is_dotted_quad(text) {
            Some(text)
        } else {
            None
        },
        HostView::Ipv4 { text } => Some(text),
        HostView::Ipv6 { text } => Some("["@ + text + "]"@),
    }
}

fn socket_host_of(host: EndpointHost) -> (r: Option<String>)
    ensures
        name_view(r) == socket_host(host@),
{
    match host {
        EndpointHost::Name { text } => if check_dotted_quad(text.as_str()) {
            Some(text)
        } else {
            None
        },
        EndpointHost::Ipv4 { text } => Some(text),
        EndpointHost::Ipv6 { text } => Some(glue3("[", text.as_str(), "]")),
    }
}

/// The address on which a compute driver has to listen to be reached at `endpoint`,
/// given what the endpoint names. The host has to be an IP address: names are not
/// looked up.
pub open spec fn bind_address(endpoint: Seq<char>, parts: PartsView) -> Result<
    Seq<char>,
    ServerErrorView,
> {
    match parts {
        Err(reason) => Err(
            ServerErrorView::Config {
                message: "invalid compute driver endpoint '"@ + endpoint + "': "@ + reason,
            },
        ),
        Ok((host, port)) => match (host, port) {
            (None, _) => Err(
                ServerErrorView::Config {
                    message: "compute driver endpoint '"@ + endpoint + "' must include a host"@,
                },
            ),
            (Some(_), None) => Err(
                ServerErrorView::Config {
                    message: "compute driver endpoint '"@ + endpoint + "' must include a port"@,
                },
            ),
            (Some(host), Some(port)) => match socket_host(host) {
                Some(host) => Ok(host + ":"@ + decimal(port as nat)),
                None => Err(
                    ServerErrorView::Config {
                        message:
                            "invalid compute driver bind address: invalid socket address syntax"@,
                    },
                ),
            },
        },
    }
}

/// What looking for an address ended in, by its view.
pub open spec fn address_view(r: Result<String, ServerError>) -> Result<
    Seq<char>,
    ServerErrorView,
> {
    match r {
        Ok(address) => Ok(address@),
        Err(e) => Err(e@),
    }
}

/// The address on which a compute driver has to listen, given what its endpoint
/// names.
pub fn bind_address_of(endpoint: &str, parts: Result<EndpointParts, String>) -> (r: Result<
    String,
    ServerError,
>)
    ensures
        address_view(r) == bind_address(endpoint@, parts_view(parts)),
{
    let parts = match parts {
        Ok(parts) => parts,
        Err(reason) => {
            let mut message = glue3("invalid compute driver endpoint '", endpoint, "': ");
            message.append(reason.as_str());
            return Err(ServerError::Config { message });
        },
    };
    let host = match parts.host {
        Some(host) => host,
        None => {
            let message = glue3("compute driver endpoint '", endpoint, "' must include a host");
            return Err(ServerError::Config { message });
        },
    };
    match parts.port {
        Some(port) => match socket_host_of(host) {
            Some(host) => {
                let number = decimal_text(port as u64);
                Ok(glue3(host.as_str(), ":", number.as_str()))
            },
            None => {
                let message =
                    "invalid compute driver bind address: invalid socket address syntax".to_owned();
                Err(ServerError::Config { message })
            },
        },
        None => {
            let message = glue3("compute driver endpoint '", endpoint, "' must include a port");
            Err(ServerError::Config { message })
        },
    }
}

/// The socket address on which a compute driver has to listen to be reached at
/// `endpoint`, whose host has to be an IP address.
pub fn compute_driver_bind_address(endpoint: &str) -> (r: Result<String, ServerError>)
    ensures
        address_view(r) == bind_address(endpoint@, endpoint_parts(endpoint@)),
{
    bind_address_of(endpoint, read_endpoint(endpoint))
}

/// Where the compute driver is reached: where the configuration says, else at the
/// default for a driver that the server starts.
pub open spec fn driver_endpoint(config: ServerView) -> Option<Seq<char>> {
    if trimmed(config.compute_driver_endpoint).len() > 0 {
        Some(config.compute_driver_endpoint)
    } else if config.compute_driver_bin is Some {
        Some(DEFAULT_COMPUTE_DRIVER_ENDPOINT@)
    } else {
        None
    }
}

/// Where the compute driver is reached, if there is one outside the server.
pub fn effective_compute_driver_endpoint(config: &Config) -> (r: Result<
    Option<String>,
    ServerError,
>)
    ensures
        r is Ok,
        name_view(r->Ok_0) == driver_endpoint(config@),
        trimmed(config.compute_driver_endpoint@).len() > 0 ==> r->Ok_0 is Some && r->Ok_0->0@
            == config.compute_driver_endpoint@,
        trimmed(config.compute_driver_endpoint@).len() == 0 && config.compute_driver_bin is Some
            ==> r->Ok_0 is Some && r->Ok_0->0@ == "http://127.0.0.1:50061"@,
        trimmed(config.compute_driver_endpoint@).len() == 0 && config.compute_driver_bin is None
            ==> r->Ok_0 is None,
{
    if !trim(config.compute_driver_endpoint.as_str()).as_str().is_empty() {
        return Ok(Some(config.compute_driver_endpoint.clone()));
    }
    if config.compute_driver_bin.is_some() {
        return Ok(Some(DEFAULT_COMPUTE_DRIVER_ENDPOINT.to_owned()));
    }
    Ok(None)
}

/// A driver that the server starts always has an endpoint.
pub proof fn law_managed_driver_has_an_endpoint(config: ServerView)
    requires
        config.compute_driver_bin is Some,
    ensures
        driver_endpoint(config) is Some,
{
}

/// Whether a failed TLS handshake is only a client that went away, such as a probe
/// of the port, and not a failure to report.
pub fn is_benign_tls_handshake_failure(error: &Fault) -> (r: bool)
    ensures
        r == (error@.kind == FaultKind::UnexpectedEof || error@.kind
            == FaultKind::ConnectionReset),
{
    error.kind == FaultKind::UnexpectedEof || error.kind == FaultKind::ConnectionReset
}

} // verus!
