//! What the start of the server asks, and what it tells a compute driver.

use vstd::prelude::*;

use crate::dialogue::{goes_on, group_in_step};
use crate::server::config::{ServerErrorView, ServerView};
use crate::server::endpoint::{
    bind_address, driver_endpoint, endpoint_parts, is_dotted_quad, is_octet, HostView, PartsView,
};
use crate::server::replay::go_with_store;
use crate::server::startup::{driver_env, start_run, StartRequestView, StartTranscript};
use crate::text::{
    decimal, is_blank, law_blank_is_trimmed_away, law_decimal_has_no_leading_zero,
    law_first_piece, split_on, trimmed,
};

verus! {

/// The request to use the Kubernetes cluster is for what the server is configured with,
/// each setting in its own place.
pub open spec fn uses_cluster_as_configured(q: StartRequestView, config: ServerView) -> bool {
    &&& q is UseKubernetes
    &&& q->config.namespace == config.sandbox_namespace
    &&& q->config.default_image == config.sandbox_image
    &&& q->config.image_pull_policy == config.sandbox_image_pull_policy
    &&& q->config.grpc_endpoint == config.grpc_endpoint
    &&& q->config.ssh_listen_addr == "0.0.0.0:"@ + decimal(config.sandbox_ssh_port as nat)
    &&& q->config.ssh_port == config.sandbox_ssh_port
    &&& q->config.ssh_handshake_secret == config.ssh_handshake_secret
    &&& q->config.ssh_handshake_skew_secs == config.ssh_handshake_skew_secs
    &&& q->config.client_tls_secret_name == config.client_tls_secret_name
    &&& q->config.host_gateway_ip == config.host_gateway_ip
}

/// From request number `n` on, the server has connected to what runs its sandboxes,
/// follows it, removes expired sessions every hour, listens where it is configured to
/// and, where TLS is configured, has loaded those files. Nothing else was asked.
pub open spec fn serves(u: StartTranscript, n: int, config: ServerView) -> bool {
    &&& u.replies[n].ok
    &&& u.asked[n + 1] == StartRequestView::SpawnWatchers
    &&& u.asked[n + 2] == (StartRequestView::SpawnSessionReaper { interval_secs: 3600 })
    &&& u.asked[n + 3] == (StartRequestView::Listen { address: config.bind_address })
    &&& u.replies[n + 3].ok
    &&& match config.tls {
        None => u.asked.len() == n + 4,
        Some(tls) => {
            &&& u.asked.len() == n + 5
            &&& u.asked[n + 4] == (StartRequestView::LoadTls {
                cert: tls.cert_path,
                key: tls.key_path,
                client_ca: tls.client_ca_path,
                allow_unauthenticated: tls.allow_unauthenticated,
            })
            &&& u.replies[n + 4].ok
        },
    }
}

/// The database was connected to first.
pub open spec fn store_connected(t: StartTranscript, u: StartTranscript, config: ServerView) -> bool {
    let n = t.asked.len() as int;
    &&& t.leads_to(u)
    &&& u.live()
    &&& u.asked[n] == (StartRequestView::ConnectStore { url: trimmed(config.database_url) })
    &&& u.replies[n].ok
}

/// A server with neither a compute driver nor an endpoint of one runs its sandboxes in
/// the Kubernetes cluster, with the settings that it is configured with.
pub proof fn law_server_uses_its_cluster(t: StartTranscript, config: ServerView)
    requires
        t.live(),
        config.compute_driver_bin is None,
        trimmed(config.compute_driver_endpoint).len() == 0,
        start_run(t, config).1 is Ok,
    ensures
        ({
            let (u, r) = start_run(t, config);
            let n = t.asked.len() as int;
            &&& store_connected(t, u, config)
            &&& uses_cluster_as_configured(u.asked[n + 1], config)
            &&& serves(u, n + 1, config)
            &&& r->Ok_0 == config.tls is Some
        }),
{
}

/// A server that is given the endpoint of a compute driver, and no driver to start,
/// connects to that endpoint.
pub proof fn law_server_connects_to_its_driver(t: StartTranscript, config: ServerView)
    requires
        t.live(),
        config.compute_driver_bin is None,
        trimmed(config.compute_driver_endpoint).len() > 0,
        start_run(t, config).1 is Ok,
    ensures
        ({
            let (u, r) = start_run(t, config);
            let n = t.asked.len() as int;
            &&& store_connected(t, u, config)
            &&& u.asked[n + 1] == (StartRequestView::ConnectDriver {
                endpoint: config.compute_driver_endpoint,
            })
            &&& serves(u, n + 1, config)
            &&& r->Ok_0 == config.tls is Some
        }),
{
}

/// What a compute driver that listens on `address` is told by the variable `name`, if
/// anything.
pub open spec fn driver_variable(
    config: ServerView,
    address: Seq<char>,
    name: Seq<char>,
) -> Option<Seq<char>> {
    if name == "OPENSHELL_COMPUTE_DRIVER_BIND"@ {
        Some(address)
    } else if name == "OPENSHELL_GRPC_ENDPOINT"@ {
        Some(config.grpc_endpoint)
    } else if name == "OPENSHELL_LOG_LEVEL"@ {
        Some(config.log_level)
    } else if name == "OPENSHELL_SSH_HANDSHAKE_SECRET"@ {
        Some(config.ssh_handshake_secret)
    } else if name == "OPENSHELL_SSH_HANDSHAKE_SKEW_SECS"@ {
        Some(decimal(config.ssh_handshake_skew_secs as nat))
    } else if config.tls is None {
        None
    } else if name == "OPENSHELL_TLS_CA"@ {
        Some(config.tls->0.client_ca_path)
    } else if name == "OPENSHELL_TLS_CERT"@ {
        Some(config.tls->0.cert_path)
    } else if name == "OPENSHELL_TLS_KEY"@ {
        Some(config.tls->0.key_path)
    } else {
        None
    }
}

/// `env` holds exactly what a compute driver is to be told.
pub open spec fn tells_driver(
    env: Map<Seq<char>, Seq<char>>,
    config: ServerView,
    address: Seq<char>,
) -> bool {
    forall|name: Seq<char>|
        match #[trigger] driver_variable(config, address, name) {
            Some(value) => env.contains_key(name) && env[name] == value,
            None => !env.contains_key(name),
        }
}

proof fn lemma_driver_variables(config: ServerView, address: Seq<char>)
    ensures
        tells_driver(driver_env(config, address), config, address),
{
    reveal_strlit("OPENSHELL_COMPUTE_DRIVER_BIND");
    reveal_strlit("OPENSHELL_GRPC_ENDPOINT");
    reveal_strlit("OPENSHELL_LOG_LEVEL");
    reveal_strlit("OPENSHELL_SSH_HANDSHAKE_SECRET");
    reveal_strlit("OPENSHELL_SSH_HANDSHAKE_SKEW_SECS");
    reveal_strlit("OPENSHELL_TLS_CA");
    reveal_strlit("OPENSHELL_TLS_CERT");
    reveal_strlit("OPENSHELL_TLS_KEY");
    assert("OPENSHELL_COMPUTE_DRIVER_BIND"@.len() == 29);
    assert("OPENSHELL_GRPC_ENDPOINT"@.len() == 23);
    assert("OPENSHELL_LOG_LEVEL"@.len() == 19);
    assert("OPENSHELL_SSH_HANDSHAKE_SECRET"@.len() == 30);
    assert("OPENSHELL_SSH_HANDSHAKE_SKEW_SECS"@.len() == 33);
    assert("OPENSHELL_TLS_CA"@.len() == 16);
    assert("OPENSHELL_TLS_CERT"@.len() == 18);
    assert("OPENSHELL_TLS_KEY"@.len() == 17);
}

/// `address` is the host and the port that an endpoint names, as a socket address.
pub open spec fn is_named_by(address: Seq<char>, parts: PartsView) -> bool {
    match parts {
        Ok((Some(HostView::Ipv4 { text }), Some(port))) => address == text + ":"@ + decimal(
            port as nat,
        ),
        Ok((Some(HostView::Ipv6 { text }), Some(port))) => address == "["@ + text + "]:"@
            + decimal(port as nat),
        Ok((Some(HostView::Name { text }), Some(port))) => address == text + ":"@ + decimal(
            port as nat,
        ),
        _ => false,
    }
}

/// A server that is to start a compute driver starts the configured program, tells it to
/// listen where the endpoint says, with the server's own secrets and TLS files, and then
/// connects to that endpoint: the configured one, or the default.
pub proof fn law_server_starts_its_driver(t: StartTranscript, config: ServerView)
    requires
        t.live(),
        config.compute_driver_bin is Some,
        start_run(t, config).1 is Ok,
    ensures
        ({
            let (u, r) = start_run(t, config);
            let n = t.asked.len() as int;
            let endpoint = if trimmed(config.compute_driver_endpoint).len() > 0 {
                config.compute_driver_endpoint
            } else {
                "http://127.0.0.1:50061"@
            };
            let started = u.asked[n + 1];
            &&& store_connected(t, u, config)
            &&& started is SpawnDriver
            &&& started->program == config.compute_driver_bin->0
            &&& u.replies[n + 1].ok
            &&& exists|address: Seq<char>|
                is_named_by(address, endpoint_parts(endpoint)) && #[trigger] tells_driver(
                    started->env,
                    config,
                    address,
                )
            &&& u.asked[n + 2] == (StartRequestView::ConnectDriver { endpoint })
            &&& serves(u, n + 2, config)
            &&& r->Ok_0 == config.tls is Some
        }),
{
    reveal_strlit("]");
    reveal_strlit(":");
    reveal_strlit("]:");
    let (u, r) = start_run(t, config);
    let endpoint = driver_endpoint(config)->0;
    let address = bind_address(endpoint, endpoint_parts(endpoint))->Ok_0;
    lemma_driver_variables(config, address);
    assert("]"@ + ":"@ =~= "]:"@);
    match endpoint_parts(endpoint) {
        Ok((Some(HostView::Ipv6 { text }), Some(port))) => {
            assert("["@ + text + "]"@ + ":"@ + decimal(port as nat) =~= "["@ + text + "]:"@
                + decimal(port as nat));
        },
        _ => {},
    }
    assert(is_named_by(address, endpoint_parts(endpoint)));
    assert(tells_driver(u.asked[t.asked.len() as int + 1]->env, config, address));
}

/// A start that fails says what failed, and asks nothing more, but that a compute driver
/// which it had started be stopped: the configuration is incomplete, the endpoint of the
/// driver is of no use, or the last step did not succeed.
pub proof fn law_failed_start_says_why(t: StartTranscript, config: ServerView)
    requires
        t.live(),
        start_run(t, config).1 is Err,
        start_run(t, config).0.live(),
    ensures
        ({
            let (u, r) = start_run(t, config);
            let e = r->Err_0;
            let stopped = u.asked.len() > t.asked.len() && u.asked.last()
                == StartRequestView::StopDriver;
            let last = if stopped {
                u.asked.len() - 2
            } else {
                u.asked.len() - 1
            };
            let text = u.replies[last].text;
            &&& if u.asked.len() == t.asked.len() {
                e is Config
            } else {
                match u.asked[last] {
                    StartRequestView::ConnectStore { .. } => if u.replies[last].ok {
                        e is Config && config.compute_driver_bin is Some
                    } else {
                        e == (ServerErrorView::Reported { message: text })
                    },
                    StartRequestView::SpawnDriver { program, .. } => !u.replies[last].ok && e == (
                    ServerErrorView::Execution {
                        message: "failed to spawn compute driver '"@ + program + "': "@ + text,
                    }),
                    StartRequestView::ConnectDriver { .. } => !u.replies[last].ok && e == (
                    ServerErrorView::Execution {
                        message: "failed to create compute runtime: "@ + text,
                    }),
                    StartRequestView::UseKubernetes { .. } => !u.replies[last].ok && e == (
                    ServerErrorView::Execution {
                        message: "failed to create compute runtime: "@ + text,
                    }),
                    StartRequestView::Listen { address } => !u.replies[last].ok && e == (
                    ServerErrorView::Transport {
                        message: "failed to bind to "@ + address + ": "@ + text,
                    }),
                    StartRequestView::LoadTls { .. } => !u.replies[last].ok && e == (
                    ServerErrorView::Reported { message: text }),
                    _ => false,
                }
            }
            &&& stopped ==> config.compute_driver_bin is Some
        }),
{
}

proof fn lemma_dot()
    ensures
        "."@ == seq!['.'],
{
    reveal_strlit(".");
    assert("."@ =~= seq!['.']);
}

proof fn lemma_no_dot(n: nat)
    ensures
        !decimal(n).contains('.'),
{
    law_decimal_has_no_leading_zero(n);
    if decimal(n).contains('.') {
        let i = choose|i: int| 0 <= i < decimal(n).len() && decimal(n)[i] == '.';
        assert(crate::text::is_digit(decimal(n)[i]));
    }
}

/// Every IPv4 address can be the host of a compute driver, whether the scheme of its
/// endpoint is known or not, and the driver listens on it at the port that is named.
pub proof fn law_every_address_can_be_bound(
    endpoint: Seq<char>,
    a: u8,
    b: u8,
    c: u8,
    d: u8,
    port: u16,
)
    ensures
        ({
            let text = decimal(a as nat) + "."@ + decimal(b as nat) + "."@ + decimal(c as nat)
                + "."@ + decimal(d as nat);
            let address = text + ":"@ + decimal(port as nat);
            &&& bind_address(endpoint, Ok((Some(HostView::Name { text }), Some(port)))) == Ok::<
                Seq<char>,
                ServerErrorView,
            >(address)
            &&& bind_address(endpoint, Ok((Some(HostView::Ipv4 { text }), Some(port)))) == Ok::<
                Seq<char>,
                ServerErrorView,
            >(address)
        }),
{
    lemma_dot();
    lemma_no_dot(a as nat);
    lemma_no_dot(b as nat);
    lemma_no_dot(c as nat);
    lemma_no_dot(d as nat);
    let (w, x, y, z) = (
        decimal(a as nat),
        decimal(b as nat),
        decimal(c as nat),
        decimal(d as nat),
    );
    let text = w + "."@ + x + "."@ + y + "."@ + z;
    let t3 = y + seq!['.'] + z;
    let t2 = x + seq!['.'] + t3;
    law_first_piece(z, Seq::empty(), '.');
    law_first_piece(y, z, '.');
    law_first_piece(x, t3, '.');
    law_first_piece(w, t2, '.');
    assert(text =~= w + seq!['.'] + t2);
    assert(split_on(text, '.') =~= seq![w, x, y, z]);
    assert(is_octet(w) && is_octet(x) && is_octet(y) && is_octet(z));
    assert(is_dotted_quad(text));
}

/// A name is no address: a host that is a name with a letter in it is refused.
pub proof fn law_names_cannot_be_bound(
    endpoint: Seq<char>,
    text: Seq<char>,
    port: u16,
    i: int,
)
    requires
        0 <= i < text.len(),
        text[i] != '.',
        !crate::text::is_digit(text[i]),
    ensures
        bind_address(endpoint, Ok((Some(HostView::Name { text }), Some(port)))) is Err,
{
    if is_dotted_quad(text) {
        lemma_pieces_cover(text, '.', i);
        let parts = split_on(text, '.');
        let k = choose|k: int| 0 <= k < parts.len() && (#[trigger] parts[k]).contains(text[i]);
        assert(is_octet(parts[k]));
        let n = choose|n: nat| n <= 255 && parts[k] == #[trigger] decimal(n);
        law_decimal_has_no_leading_zero(n);
        let j = choose|j: int| 0 <= j < parts[k].len() && parts[k][j] == text[i];
        assert(crate::text::is_digit(decimal(n)[j]));
    }
}

proof fn lemma_pieces_cover(s: Seq<char>, sep: char, i: int)
    requires
        0 <= i < s.len(),
        s[i] != sep,
    ensures
        exists|k: int|
            0 <= k < split_on(s, sep).len() && (#[trigger] split_on(s, sep)[k]).contains(s[i]),
    decreases s.len(),
{
    let rest = s.drop_last();
    let before = split_on(rest, sep);
    let all = split_on(s, sep);
    crate::text::law_pieces_join_back(rest, sep);
    if i < rest.len() {
        lemma_pieces_cover(rest, sep, i);
        let k = choose|k: int| 0 <= k < before.len() && (#[trigger] before[k]).contains(rest[i]);
        let j = choose|j: int| 0 <= j < before[k].len() && before[k][j] == rest[i];
        assert(all[k][j] == s[i]);
        assert(all[k].contains(s[i]));
    } else {
        let last = all[all.len() - 1];
        assert(last[last.len() - 1] == s[i]);
        assert(last.contains(s[i]));
    }
}

/// What a server has to be given: a database, in more than white space, and a secret for its
/// handshakes, whatever it is. Without one of them the failure says which; with both, the
/// server begins with its database.
pub proof fn law_complete_server_begins(t: StartTranscript, config: ServerView)
    requires
        t.live(),
    ensures
        ({
            let (u, r) = start_run(t, config);
            if is_blank(config.database_url) {
                u == t && r == Err::<bool, ServerErrorView>(
                    ServerErrorView::Config { message: "database_url is required"@ },
                )
            } else if config.ssh_handshake_secret.len() == 0 {
                u == t && r == Err::<bool, ServerErrorView>(
                    ServerErrorView::Config {
                        message:
                            "ssh_handshake_secret is required. Set --ssh-handshake-secret or OPENSHELL_SSH_HANDSHAKE_SECRET"@,
                    },
                )
            } else {
                u.asked.len() > t.asked.len() && u.asked[t.asked.len() as int] is ConnectStore
            }
        }),
{
    broadcast use group_in_step;

    law_blank_is_trimmed_away(config.database_url);
    let q = StartRequestView::ConnectStore { url: trimmed(config.database_url) };
    go_with_store(t.ask(q), config);
    if !is_blank(config.database_url) && config.ssh_handshake_secret.len() > 0 {
        assert(t.ask(q).asked[t.asked.len() as int] == q);
        assert(goes_on(t.ask(q), start_run(t, config).0));
    }
}

/// An endpoint that a driver cannot be bound to is refused with what is wrong with it: that
/// it cannot be read, that it has no host, or that it has no port.
pub proof fn law_unusable_endpoint_says_why(
    endpoint: Seq<char>,
    reason: Seq<char>,
    host: HostView,
    port: Option<u16>,
)
    ensures
        bind_address(endpoint, Err(reason)) == Err::<Seq<char>, ServerErrorView>(
            ServerErrorView::Config {
                message: "invalid compute driver endpoint '"@ + endpoint + "': "@ + reason,
            },
        ),
        bind_address(endpoint, Ok((None, port))) == Err::<Seq<char>, ServerErrorView>(
            ServerErrorView::Config {
                message: "compute driver endpoint '"@ + endpoint + "' must include a host"@,
            },
        ),
        bind_address(endpoint, Ok((Some(host), None))) == Err::<Seq<char>, ServerErrorView>(
            ServerErrorView::Config {
                message: "compute driver endpoint '"@ + endpoint + "' must include a port"@,
            },
        ),
        port is Some && bind_address(endpoint, Ok((Some(host), port))) is Err ==> bind_address(
            endpoint,
            Ok((Some(host), port)),
        )->Err_0 == (ServerErrorView::Config {
            message: "invalid compute driver bind address: invalid socket address syntax"@,
        }),
{
}

} // verus!
