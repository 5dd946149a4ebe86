//! What is asked of the host for a new sandbox, and what its machine is started with.

use vstd::prelude::*;

use crate::driver::config::ConfigView;
use crate::driver::create::RecordView;
use crate::driver::environment::env_lines;
use crate::driver::guest::{env_args, guest_map, launch_args, merged_map, refusal};
use crate::driver::host::{HostRequestView, HostTranscript};
use crate::driver::sandbox::{field, FieldView, SandboxPhase, SandboxView};
use crate::driver::status::{Code, StatusView};
use crate::driver::vm_driver::{creation_run, DriverView, EventView};
use crate::fault::FaultKind;
use crate::paths::{joined_path, law_parent_of_child, settled};
use crate::text::{decimal, option_at, option_is};
use crate::text_map::{law_listing_lists_the_map, lemma_entry, listing, map_of};

verus! {

/// The directory of the sandbox `id`.
pub open spec fn sandbox_dir(config: ConfigView, id: Seq<char>) -> Seq<char> {
    joined_path(joined_path(config.state_dir, "sandboxes"@), id)
}

/// Where the machine of the sandbox `id` has its TLS file `name`.
pub open spec fn tls_file(config: ConfigView, id: Seq<char>, name: Seq<char>) -> Seq<char> {
    joined_path(
        joined_path(joined_path(sandbox_dir(config, id), "rootfs"@), "opt/openshell/tls"@),
        name,
    )
}

/// What is asked of the host for a sandbox before its machine is started, without TLS
/// files: a port, the directory of the sandbox, and its root file system in it.
pub open spec fn plain_preparation(config: ConfigView, id: Seq<char>) -> Seq<HostRequestView> {
    seq![
        HostRequestView::BindLocalPort,
        HostRequestView::LocalPort,
        HostRequestView::CreateDirAll { path: sandbox_dir(config, id) },
        HostRequestView::ExtractRootfs { path: joined_path(sandbox_dir(config, id), "rootfs"@) },
    ]
}

/// The same with TLS files: each has to be there, and is copied into the root file
/// system, the key for its owner's eyes only.
pub open spec fn tls_preparation(
    config: ConfigView,
    id: Seq<char>,
    ca: Seq<char>,
    cert: Seq<char>,
    key: Seq<char>,
) -> Seq<HostRequestView> {
    seq![
        HostRequestView::BindLocalPort,
        HostRequestView::LocalPort,
        HostRequestView::CreateDirAll { path: sandbox_dir(config, id) },
        HostRequestView::IsFile { path: ca },
        HostRequestView::IsFile { path: cert },
        HostRequestView::IsFile { path: key },
        HostRequestView::ExtractRootfs { path: joined_path(sandbox_dir(config, id), "rootfs"@) },
        HostRequestView::CreateDirAll {
            path: joined_path(
                joined_path(sandbox_dir(config, id), "rootfs"@),
                "opt/openshell/tls"@,
            ),
        },
        HostRequestView::CopyFile { from: ca, to: tls_file(config, id, "ca.crt"@) },
        HostRequestView::SetMode { path: tls_file(config, id, "ca.crt"@), mode: 0o644 },
        HostRequestView::CopyFile { from: cert, to: tls_file(config, id, "tls.crt"@) },
        HostRequestView::SetMode { path: tls_file(config, id, "tls.crt"@), mode: 0o644 },
        HostRequestView::CopyFile { from: key, to: tls_file(config, id, "tls.key"@) },
        HostRequestView::SetMode { path: tls_file(config, id, "tls.key"@), mode: 0o600 },
    ]
}

/// What a creation from `t` to `u` asked before it started the machine.
pub open spec fn asked_before_start(t: HostTranscript, u: HostTranscript) -> Seq<HostRequestView> {
    t.new_requests(u).drop_last()
}

/// A sandbox that was created has everything that its machine needs, and was given
/// nothing else: a port of its own, its directory, its root file system and, where TLS
/// files are configured, those, each from where it was configured to where the machine
/// looks for it. All of that succeeded, and starting the machine came last.
pub proof fn law_created_sandbox_has_its_files(
    t: HostTranscript,
    driver: DriverView,
    sandbox: SandboxView,
    init_path: Seq<char>,
)
    requires
        creation_run(t, driver, sandbox, init_path).1 is Ok,
    ensures
        ({
            let u = creation_run(t, driver, sandbox, init_path).0;
            let config = driver.config;
            &&& t.leads_to(u)
            &&& u.live()
            &&& u.asked.last() is Spawn
            &&& u.asked.last()->program == config.vm_bin
            &&& forall|k: int|
                t.asked.len() <= k < u.asked.len() ==> (#[trigger] u.replies[k]).ok
            &&& match (config.tls_ca, config.tls_cert, config.tls_key) {
                (Some(ca), Some(cert), Some(key)) => asked_before_start(t, u) == tls_preparation(
                    config,
                    sandbox.id,
                    ca,
                    cert,
                    key,
                ),
                (None, None, None) => {
                    &&& !"https://"@.is_prefix_of(config.openshell_endpoint)
                    &&& asked_before_start(t, u) == plain_preparation(config, sandbox.id)
                },
                _ => false,
            }
        }),
{
    let u = creation_run(t, driver, sandbox, init_path).0;
    let config = driver.config;
    match (config.tls_ca, config.tls_cert, config.tls_key) {
        (Some(ca), Some(cert), Some(key)) => {
            assert(asked_before_start(t, u) =~= tls_preparation(
                config,
                sandbox.id,
                ca,
                cert,
                key,
            ));
        },
        _ => {
            assert(asked_before_start(t, u) =~= plain_preparation(config, sandbox.id));
        },
    }
}

proof fn lemma_field(fields: Seq<(Seq<char>, FieldView)>, i: int)
    requires
        0 <= i < fields.len(),
        forall|j: int| 0 <= j < i ==> (#[trigger] fields[j]).0 != fields[i].0,
    ensures
        field(fields, fields[i].0) == Some(fields[i].1),
    decreases fields.len(),
{
    if i > 0 {
        let rest = fields.drop_first();
        assert(fields[0].0 != fields[i].0);
        assert forall|j: int| 0 <= j < i - 1 implies (#[trigger] rest[j]).0 != rest[i - 1].0 by {
            assert(rest[j] == fields[j + 1]);
        }
        lemma_field(rest, i - 1);
    }
}

/// The machine that a creation started, as it is filed and as watchers are told: under
/// the names of the sandbox, reached on the port that the host gave for it, with the
/// process that the host started for it, and not ready yet.
pub proof fn law_record_describes_the_machine(
    t: HostTranscript,
    driver: DriverView,
    sandbox: SandboxView,
    init_path: Seq<char>,
)
    requires
        creation_run(t, driver, sandbox, init_path).1 is Ok,
    ensures
        ({
            let (u, r) = creation_run(t, driver, sandbox, init_path);
            let record = r->Ok_0;
            let status = record.snapshot.status->0;
            let fields = status.driver_config->0;
            let dir = sandbox_dir(driver.config, sandbox.id);
            let started = u.replies[u.asked.len() - 1];
            &&& record.snapshot.id == sandbox.id
            &&& record.snapshot.name == sandbox.name
            &&& record.snapshot.namespace == sandbox.namespace
            &&& record.snapshot.sandbox_spec is None
            &&& record.snapshot.phase == SandboxPhase::Provisioning
            &&& record.snapshot.status is Some
            &&& record.ssh_port == u.replies[(t.asked.len() + 1) as int].port
            &&& record.state_dir == dir
            &&& status.sandbox_name == sandbox.name
            &&& status.driver_name == "openshell-driver-vm"@
            &&& status.conditions.len() == 1
            &&& status.conditions[0].condition_type == "Ready"@
            &&& status.conditions[0].status == "False"@
            &&& status.conditions[0].reason == "Starting"@
            &&& status.driver_config is Some
            &&& field(fields, "endpoint_host"@) == Some(FieldView::Text("127.0.0.1"@))
            &&& field(fields, "endpoint_port"@) == Some(FieldView::Number(record.ssh_port as u32))
            &&& field(fields, "vm_pid"@) == Some(FieldView::Number(started.pid->0))
            &&& field(fields, "rootfs_path"@) == Some(
                FieldView::Text(joined_path(dir, "rootfs"@)),
            )
            &&& field(fields, "state_dir"@) == Some(FieldView::Text(dir))
            &&& settled(dir) == dir && dir.len() > 0 ==> field(fields, "console_log_path"@) == Some(
                FieldView::Text(joined_path(dir, "rootfs-console.log"@)),
            )
            &&& started.pid is Some
        }),
{
    reveal_strlit("console_log_path");
    reveal_strlit("endpoint_host");
    reveal_strlit("endpoint_port");
    reveal_strlit("rootfs_path");
    reveal_strlit("state_dir");
    reveal_strlit("vm_pid");
    let (u, r) = creation_run(t, driver, sandbox, init_path);
    let record = r->Ok_0;
    let fields = record.snapshot.status->0.driver_config->0;
    assert(fields.len() == 6);
    assert("endpoint_host"@[9] == 'h' && "endpoint_port"@[9] == 'p');
    assert("state_dir"@.len() == 9 && "vm_pid"@.len() == 6 && "rootfs_path"@.len() == 11);
    assert("console_log_path"@.len() == 16);
    let dir = sandbox_dir(driver.config, sandbox.id);
    if settled(dir) == dir && dir.len() > 0 {
        reveal_strlit("rootfs");
        assert("rootfs"@.len() == 6);
        law_parent_of_child(dir, "rootfs"@);
    }
    lemma_field(fields, 0);
    lemma_field(fields, 1);
    lemma_field(fields, 2);
    lemma_field(fields, 3);
    lemma_field(fields, 4);
    lemma_field(fields, 5);
}

proof fn lemma_env_pairs(lines: Seq<Seq<char>>)
    ensures
        env_args(lines).len() == 2 * lines.len(),
        forall|i: int|
            0 <= i < lines.len() ==> #[trigger] option_at(env_args(lines), i) == (
                "--env"@,
                lines[i],
            ),
    decreases lines.len(),
{
    if lines.len() > 0 {
        let fewer = lines.drop_last();
        lemma_env_pairs(fewer);
        assert(env_args(lines) == env_args(fewer).push("--env"@).push(lines.last()));
        assert forall|i: int| 0 <= i < lines.len() implies #[trigger] option_at(
            env_args(lines),
            i,
        ) == ("--env"@, lines[i]) by {
            if i < fewer.len() {
                assert(option_at(env_args(fewer), i) == ("--env"@, fewer[i]));
            }
        }
    }
}

proof fn lemma_option_names()
    ensures
        "--rootfs"@.len() == 8 && "--name"@.len() == 6 && "--exec"@.len() == 6
            && "--workdir"@.len() == 9 && "--vcpus"@.len() == 7 && "--mem"@.len() == 5
            && "--krun-log-level"@.len() == 16 && "--net"@.len() == 5 && "--port"@.len() == 6
            && "--env"@.len() == 5,
        "--name"@[2] == 'n' && "--exec"@[2] == 'e' && "--port"@[2] == 'p',
        "--mem"@[2] == 'm' && "--net"@[2] == 'n' && "--env"@[2] == 'e',
{
    reveal_strlit("--rootfs");
    reveal_strlit("--name");
    reveal_strlit("--exec");
    reveal_strlit("--workdir");
    reveal_strlit("--vcpus");
    reveal_strlit("--mem");
    reveal_strlit("--krun-log-level");
    reveal_strlit("--net");
    reveal_strlit("--port");
    reveal_strlit("--env");
}

/// The pairs of a machine's command line: nine options, and one pair for each variable.
proof fn lemma_pairs(
    sandbox: SandboxView,
    config: ConfigView,
    rootfs: Seq<char>,
    init_path: Seq<char>,
    ssh_port: u16,
)
    ensures
        ({
            let args = launch_args(sandbox, config, rootfs, init_path, ssh_port);
            let lines = env_lines(guest_map(sandbox, config));
            &&& args.len() == 18 + 2 * lines.len()
            &&& option_at(args, 0) == ("--rootfs"@, rootfs)
            &&& option_at(args, 1) == ("--name"@, sandbox.id)
            &&& option_at(args, 2) == ("--exec"@, init_path)
            &&& option_at(args, 3) == ("--workdir"@, "/"@)
            &&& option_at(args, 4) == ("--vcpus"@, decimal(config.vcpus as nat))
            &&& option_at(args, 5) == ("--mem"@, decimal(config.mem_mib as nat))
            &&& option_at(args, 6) == ("--krun-log-level"@, decimal(config.krun_log_level as nat))
            &&& option_at(args, 7) == ("--net"@, "gvproxy"@)
            &&& option_at(args, 8) == ("--port"@, decimal(ssh_port as nat) + ":"@ + decimal(2222))
            &&& forall|i: int|
                9 <= i < 9 + lines.len() ==> #[trigger] option_at(args, i) == (
                    "--env"@,
                    lines[i - 9],
                )
        }),
{
    let args = launch_args(sandbox, config, rootfs, init_path, ssh_port);
    let lines = env_lines(guest_map(sandbox, config));
    lemma_env_pairs(lines);
    assert forall|i: int| 9 <= i < 9 + lines.len() implies #[trigger] option_at(args, i) == (
        "--env"@,
        lines[i - 9],
    ) by {
        let j = i - 9;
        assert(option_at(env_args(lines), j) == ("--env"@, lines[j]));
        assert(args[2 * i] == env_args(lines)[2 * i - 18]);
        assert(args[2 * i + 1] == env_args(lines)[2 * i + 1 - 18]);
    }
}

/// The command line of a machine has `value` behind the option `name`.
pub open spec fn machine_option(u: HostTranscript, name: Seq<char>, value: Seq<char>) -> bool {
    u.asked.last() is Spawn && option_is(u.asked.last()->args, name, value)
}

/// A machine is started as the sandbox and the configuration want it: with its own root
/// file system and name, the given program, in the root directory, of the configured
/// size, on the network of the proxy, and with the port that the host gave for it leading
/// to the machine's SSH port. No option is given a second time with another value.
pub proof fn law_machine_is_started_as_configured(
    t: HostTranscript,
    driver: DriverView,
    sandbox: SandboxView,
    init_path: Seq<char>,
)
    requires
        creation_run(t, driver, sandbox, init_path).1 is Ok,
    ensures
        ({
            let u = creation_run(t, driver, sandbox, init_path).0;
            let config = driver.config;
            let port = u.replies[(t.asked.len() + 1) as int].port;
            &&& machine_option(
                u,
                "--rootfs"@,
                joined_path(sandbox_dir(config, sandbox.id), "rootfs"@),
            )
            &&& machine_option(u, "--name"@, sandbox.id)
            &&& machine_option(u, "--exec"@, init_path)
            &&& machine_option(u, "--workdir"@, "/"@)
            &&& machine_option(u, "--vcpus"@, decimal(config.vcpus as nat))
            &&& machine_option(u, "--mem"@, decimal(config.mem_mib as nat))
            &&& machine_option(u, "--krun-log-level"@, decimal(config.krun_log_level as nat))
            &&& machine_option(u, "--net"@, "gvproxy"@)
            &&& machine_option(u, "--port"@, decimal(port as nat) + ":"@ + decimal(2222))
        }),
{
    let u = creation_run(t, driver, sandbox, init_path).0;
    let config = driver.config;
    let port = u.replies[(t.asked.len() + 1) as int].port;
    let rootfs = joined_path(sandbox_dir(config, sandbox.id), "rootfs"@);
    let args = launch_args(sandbox, config, rootfs, init_path, port);
    let lines = env_lines(guest_map(sandbox, config));
    assert(u.asked.last() == (HostRequestView::Spawn { program: config.vm_bin, args }));
    lemma_option_names();
    lemma_pairs(sandbox, config, rootfs, init_path, port);
    assert forall|i: int| 0 <= i && 2 * i + 1 < args.len() implies {
        ||| i == 0 && (#[trigger] option_at(args, i)).0 == "--rootfs"@
        ||| i == 1 && option_at(args, i).0 == "--name"@
        ||| i == 2 && option_at(args, i).0 == "--exec"@
        ||| i == 3 && option_at(args, i).0 == "--workdir"@
        ||| i == 4 && option_at(args, i).0 == "--vcpus"@
        ||| i == 5 && option_at(args, i).0 == "--mem"@
        ||| i == 6 && option_at(args, i).0 == "--krun-log-level"@
        ||| i == 7 && option_at(args, i).0 == "--net"@
        ||| i == 8 && option_at(args, i).0 == "--port"@
        ||| i >= 9 && option_at(args, i).0 == "--env"@
    } by {
        assert(i < 9 || i < 9 + lines.len());
    }
}

/// The variables that the sandbox itself asks for.
pub open spec fn own_env(sandbox: SandboxView) -> Map<Seq<char>, Seq<char>> {
    sandbox.sandbox_spec->0.environment
}

/// The variables that the template of the sandbox asks for, if it has one.
pub open spec fn template_env(sandbox: SandboxView) -> Map<Seq<char>, Seq<char>> {
    match sandbox.sandbox_spec->0.template {
        Some(template) => template.environment,
        None => Map::empty(),
    }
}

/// The value that the variable `name` has in the machine of a sandbox, if any: what the
/// sandbox asks for, else what its template asks for, else what the supervisor needs.
pub open spec fn variable(sandbox: SandboxView, config: ConfigView, name: Seq<char>) -> Option<
    Seq<char>,
> {
    let own_level = sandbox.sandbox_spec->0.log_level;
    if own_env(sandbox).contains_key(name) {
        Some(own_env(sandbox)[name])
    } else if template_env(sandbox).contains_key(name) {
        Some(template_env(sandbox)[name])
    } else if name == "HOME"@ {
        Some("/root"@)
    } else if name == "PATH"@ {
        Some("/usr/local/sbin:/usr/local/bin:/usr/sbin:/usr/bin:/sbin:/bin"@)
    } else if name == "TERM"@ {
        Some("xterm"@)
    } else if name == "OPENSHELL_ENDPOINT"@ {
        Some(config.openshell_endpoint)
    } else if name == "OPENSHELL_SANDBOX_ID"@ {
        Some(sandbox.id)
    } else if name == "OPENSHELL_SANDBOX"@ {
        Some(sandbox.name)
    } else if name == "OPENSHELL_SSH_LISTEN_ADDR"@ {
        Some("0.0.0.0:"@ + decimal(2222))
    } else if name == "OPENSHELL_SSH_HANDSHAKE_SECRET"@ {
        Some(config.ssh_handshake_secret)
    } else if name == "OPENSHELL_SSH_HANDSHAKE_SKEW_SECS"@ {
        Some(decimal(config.ssh_handshake_skew_secs as nat))
    } else if name == "OPENSHELL_SANDBOX_COMMAND"@ {
        Some("tail -f /dev/null"@)
    } else if name == "OPENSHELL_LOG_LEVEL"@ {
        Some(
            if own_level.len() > 0 {
                own_level
            } else {
                config.log_level
            },
        )
    } else if !"https://"@.is_prefix_of(config.openshell_endpoint) {
        None
    } else if name == "OPENSHELL_TLS_CA"@ {
        Some("/opt/openshell/tls/ca.crt"@)
    } else if name == "OPENSHELL_TLS_CERT"@ {
        Some("/opt/openshell/tls/tls.crt"@)
    } else if name == "OPENSHELL_TLS_KEY"@ {
        Some("/opt/openshell/tls/tls.key"@)
    } else {
        None
    }
}

proof fn lemma_variable_names()
    ensures
        "HOME"@ != "PATH"@ && "HOME"@ != "TERM"@ && "PATH"@ != "TERM"@,
        "HOME"@.len() == 4 && "PATH"@.len() == 4 && "TERM"@.len() == 4,
        "OPENSHELL_ENDPOINT"@.len() == 18 && "OPENSHELL_SANDBOX_ID"@.len() == 20
            && "OPENSHELL_SANDBOX"@.len() == 17 && "OPENSHELL_SSH_LISTEN_ADDR"@.len() == 25
            && "OPENSHELL_SSH_HANDSHAKE_SECRET"@.len() == 30
            && "OPENSHELL_SSH_HANDSHAKE_SKEW_SECS"@.len() == 33
            && "OPENSHELL_SANDBOX_COMMAND"@.len() == 25 && "OPENSHELL_LOG_LEVEL"@.len() == 19
            && "OPENSHELL_TLS_CA"@.len() == 16 && "OPENSHELL_TLS_CERT"@.len() == 18
            && "OPENSHELL_TLS_KEY"@.len() == 17,
        "OPENSHELL_ENDPOINT"@[10] == 'E' && "OPENSHELL_TLS_CERT"@[10] == 'T',
        "OPENSHELL_SANDBOX"@[10] == 'S' && "OPENSHELL_TLS_KEY"@[10] == 'T',
        "OPENSHELL_SSH_LISTEN_ADDR"@[11] == 'S' && "OPENSHELL_SANDBOX_COMMAND"@[11] == 'A',
{
    reveal_strlit("HOME");
    reveal_strlit("PATH");
    reveal_strlit("TERM");
    reveal_strlit("OPENSHELL_ENDPOINT");
    reveal_strlit("OPENSHELL_SANDBOX_ID");
    reveal_strlit("OPENSHELL_SANDBOX");
    reveal_strlit("OPENSHELL_SSH_LISTEN_ADDR");
    reveal_strlit("OPENSHELL_SSH_HANDSHAKE_SECRET");
    reveal_strlit("OPENSHELL_SSH_HANDSHAKE_SKEW_SECS");
    reveal_strlit("OPENSHELL_SANDBOX_COMMAND");
    reveal_strlit("OPENSHELL_LOG_LEVEL");
    reveal_strlit("OPENSHELL_TLS_CA");
    reveal_strlit("OPENSHELL_TLS_CERT");
    reveal_strlit("OPENSHELL_TLS_KEY");
    assert("HOME"@[0] == 'H' && "PATH"@[0] == 'P' && "TERM"@[0] == 'T');
}

/// The environment of a machine, looked up by name.
proof fn lemma_variable(sandbox: SandboxView, config: ConfigView, name: Seq<char>)
    requires
        sandbox.sandbox_spec is Some,
    ensures
        guest_map(sandbox, config).contains_key(name) == variable(sandbox, config, name) is Some,
        guest_map(sandbox, config).contains_key(name) ==> guest_map(sandbox, config)[name]
            == variable(sandbox, config, name)->0,
{
    lemma_variable_names();
    assert(merged_map(sandbox).contains_key(name) == (own_env(sandbox).contains_key(name)
        || template_env(sandbox).contains_key(name)));
}

proof fn lemma_guest_map_is_finite(sandbox: SandboxView, config: ConfigView)
    requires
        sandbox.sandbox_spec is Some,
        own_env(sandbox).dom().finite(),
        template_env(sandbox).dom().finite(),
    ensures
        guest_map(sandbox, config).dom().finite(),
{
    let merged = merged_map(sandbox);
    assert(merged.dom() =~= template_env(sandbox).dom().union(own_env(sandbox).dom()));
    let base = crate::driver::guest::supervisor_map(sandbox, config);
    let tls = crate::driver::guest::tls_map();
    assert(base.union_prefer_right(tls).dom() =~= base.dom().union(tls.dom()));
    assert(base.union_prefer_right(tls).union_prefer_right(merged).dom() =~= base.dom().union(
        tls.dom(),
    ).union(merged.dom()));
    assert(base.union_prefer_right(merged).dom() =~= base.dom().union(merged.dom()));
}

/// The machine gets the variable `name` with this value.
pub open spec fn machine_variable(u: HostTranscript, name: Seq<char>, value: Seq<char>) -> bool {
    &&& u.asked.last() is Spawn
    &&& exists|i: int|
        0 <= i && 2 * i + 1 < u.asked.last()->args.len() && #[trigger] option_at(
            u.asked.last()->args,
            i,
        ) == ("--env"@, name + "="@ + value)
}

/// `line` is one of the variables that the machine is to get.
pub open spec fn wanted_line(sandbox: SandboxView, config: ConfigView, line: Seq<char>) -> bool {
    exists|name: Seq<char>|
        (#[trigger] variable(sandbox, config, name)) is Some && line == name + "="@ + variable(
            sandbox,
            config,
            name,
        )->0
}

/// A machine gets exactly the variables that it is to have: what the sandbox asks for
/// wins over what its template asks for, and both win over what the supervisor needs.
/// Where the TLS files are is among it only where the gateway is reached over TLS.
pub proof fn law_machine_gets_its_variables(
    t: HostTranscript,
    driver: DriverView,
    sandbox: SandboxView,
    init_path: Seq<char>,
)
    requires
        creation_run(t, driver, sandbox, init_path).1 is Ok,
        own_env(sandbox).dom().finite(),
        template_env(sandbox).dom().finite(),
    ensures
        ({
            let u = creation_run(t, driver, sandbox, init_path).0;
            let config = driver.config;
            &&& forall|name: Seq<char>|
                (#[trigger] variable(sandbox, config, name)) is Some ==> machine_variable(
                    u,
                    name,
                    variable(sandbox, config, name)->0,
                )
            &&& forall|i: int|
                0 <= i && 2 * i + 1 < u.asked.last()->args.len() && (#[trigger] option_at(
                    u.asked.last()->args,
                    i,
                )).0 == "--env"@ ==> wanted_line(
                    sandbox,
                    config,
                    option_at(u.asked.last()->args, i).1,
                )
        }),
{
    let u = creation_run(t, driver, sandbox, init_path).0;
    let config = driver.config;
    let port = u.replies[(t.asked.len() + 1) as int].port;
    let rootfs = joined_path(sandbox_dir(config, sandbox.id), "rootfs"@);
    let args = launch_args(sandbox, config, rootfs, init_path, port);
    let map = guest_map(sandbox, config);
    let e = listing(map);
    let lines = env_lines(map);
    assert(u.asked.last() == (HostRequestView::Spawn { program: config.vm_bin, args }));
    lemma_option_names();
    lemma_pairs(sandbox, config, rootfs, init_path, port);
    lemma_guest_map_is_finite(sandbox, config);
    law_listing_lists_the_map(map);
    assert forall|name: Seq<char>|
        (#[trigger] variable(sandbox, config, name)) is Some implies machine_variable(
        u,
        name,
        variable(sandbox, config, name)->0,
    ) by {
        lemma_variable(sandbox, config, name);
        assert(map_of(e).contains_key(name));
        let k = choose|k: int| 0 <= k < e.len() && (#[trigger] e[k]).0 == name;
        lemma_entry(e, k);
        assert(lines[k] == name + "="@ + map[name]);
        assert(option_at(args, k + 9) == ("--env"@, lines[k]));
    }
    assert forall|i: int|
        0 <= i && 2 * i + 1 < args.len() && (#[trigger] option_at(args, i)).0
            == "--env"@ implies wanted_line(sandbox, config, option_at(args, i).1) by {
        assert(i >= 9);
        let k = i - 9;
        lemma_entry(e, k);
        lemma_variable(sandbox, config, e[k].0);
        assert(variable(sandbox, config, e[k].0) is Some);
    }
}

/// A sandbox is refused exactly where it asks for what a machine cannot give: no
/// specification at all, a GPU, or a template with anything but an environment. No
/// machine is started for it, and the refusal says which it is.
pub proof fn law_what_is_refused(
    t: HostTranscript,
    driver: DriverView,
    sandbox: SandboxView,
    init_path: Seq<char>,
)
    ensures
        refusal(sandbox) is None <==> {
            &&& sandbox.sandbox_spec is Some
            &&& !sandbox.sandbox_spec->0.gpu
            &&& sandbox.sandbox_spec->0.template matches Some(template) ==> {
                &&& template.image.len() == 0
                &&& template.runtime_class_name.len() == 0
                &&& template.agent_socket.len() == 0
                &&& !template.volume_claim_templates
                &&& !template.resources
            }
        },
        refusal(sandbox) is Some ==> {
            &&& creation_run(t, driver, sandbox, init_path).0 == t
            &&& creation_run(t, driver, sandbox, init_path).1 == Err::<RecordView, StatusView>(
                refusal(sandbox)->0,
            )
            &&& refusal(sandbox)->0.code == if sandbox.sandbox_spec is None {
                Code::InvalidArgument
            } else {
                Code::FailedPrecondition
            }
        },
{
}

/// A creation that fails, of a sandbox that is not refused, was stopped by the host: the
/// last thing asked of it did not succeed, or it did not say which process it had
/// started, or starting failed just before and the files were removed again, or the TLS
/// files are not all configured. After a failure nothing more is asked.
pub proof fn law_creation_stops_at_the_first_failure(
    t: HostTranscript,
    driver: DriverView,
    sandbox: SandboxView,
    init_path: Seq<char>,
)
    requires
        t.live(),
        refusal(sandbox) is None,
        !driver.records.contains_key(sandbox.id),
        creation_run(t, driver, sandbox, init_path).1 is Err,
        creation_run(t, driver, sandbox, init_path).0.live(),
    ensures
        ({
            let u = creation_run(t, driver, sandbox, init_path).0;
            let config = driver.config;
            let last = u.asked.len() - 1;
            &&& t.asked.len() <= last
            &&& forall|k: int|
                t.asked.len() <= k < last ==> (#[trigger] u.replies[k]).ok || u.asked[k] is Spawn
            &&& {
                ||| !u.replies[last].ok && !(u.asked[last] is Spawn)
                ||| u.asked[last] is Spawn && u.replies[last].ok && u.replies[last].pid is None
                ||| u.asked[last] == (HostRequestView::RemoveDirAll {
                    path: sandbox_dir(config, sandbox.id),
                }) && u.asked[last - 1] is Spawn && !u.replies[last - 1].ok
                ||| u.asked[last] is CreateDirAll && {
                    ||| config.tls_ca is None
                    ||| config.tls_cert is None
                    ||| config.tls_key is None
                }
            }
        }),
{
}

/// A sandbox whose creation succeeded is the one new entry of the registry, and its
/// filed state is the one event that is added; every other sandbox, and what watchers
/// were told before, stays.
pub proof fn law_creation_adds_one_sandbox(
    t: HostTranscript,
    driver: DriverView,
    sandbox: SandboxView,
    init_path: Seq<char>,
)
    requires
        creation_run(t, driver, sandbox, init_path).1 is Ok,
    ensures
        ({
            let record = creation_run(t, driver, sandbox, init_path).1->Ok_0;
            let after = driver.registered(record);
            &&& after.config == driver.config
            &&& after.records == driver.records.insert(sandbox.id, record)
            &&& after.events == driver.events.push(
                EventView::Sandbox { sandbox: record.snapshot },
            )
        }),
{
}

/// A creation that fails says what did: the step that the host refused and what it said of
/// it, or what is wrong with the TLS files.
pub proof fn law_failed_creation_says_why(
    t: HostTranscript,
    driver: DriverView,
    sandbox: SandboxView,
    init_path: Seq<char>,
)
    requires
        t.live(),
        refusal(sandbox) is None,
        !driver.records.contains_key(sandbox.id),
        creation_run(t, driver, sandbox, init_path).1 is Err,
        creation_run(t, driver, sandbox, init_path).0.live(),
    ensures
        ({
            let (u, r) = creation_run(t, driver, sandbox, init_path);
            let status = r->Err_0;
            let n = t.asked.len() as int;
            let last = u.asked.len() - 1;
            let a = u.replies[last];
            match u.asked[last] {
                HostRequestView::BindLocalPort => status == (StatusView {
                    code: Code::Internal,
                    message: "failed to allocate local ssh port: "@ + a.text,
                }),
                HostRequestView::LocalPort => status == (StatusView {
                    code: Code::Internal,
                    message: "failed to inspect local ssh port: "@ + a.text,
                }),
                HostRequestView::CreateDirAll { .. } => if last > n + 2 {
                    status == (StatusView {
                        code: Code::Internal,
                        message: "prepare guest TLS materials failed: "@ + a.text,
                    })
                } else if a.ok {
                    status.code == Code::FailedPrecondition
                } else {
                    status == (StatusView {
                        code: Code::Internal,
                        message: "create state dir failed: "@ + a.text,
                    })
                },
                HostRequestView::IsFile { path } => status == (StatusView {
                    code: Code::FailedPrecondition,
                    message: "TLS material '"@ + path + "' does not exist or is not a file"@,
                }),
                HostRequestView::ExtractRootfs { .. } => status == (StatusView {
                    code: Code::Internal,
                    message: (if a.kind == FaultKind::Panicked {
                        "sandbox rootfs extraction panicked: "@
                    } else {
                        "extract sandbox rootfs failed: "@
                    }) + a.text,
                }),
                HostRequestView::CopyFile { .. } => status == (StatusView {
                    code: Code::Internal,
                    message: "prepare guest TLS materials failed: "@ + a.text,
                }),
                HostRequestView::SetMode { .. } => status == (StatusView {
                    code: Code::Internal,
                    message: "prepare guest TLS materials failed: "@ + a.text,
                }),
                HostRequestView::Spawn { .. } => status == (StatusView {
                    code: Code::Internal,
                    message: "openshell-vm pid is unavailable"@,
                }),
                HostRequestView::RemoveDirAll { .. } => status == (StatusView {
                    code: Code::Internal,
                    message: "failed to launch openshell-vm '"@ + driver.config.vm_bin + "': "@
                        + u.replies[last - 1].text,
                }),
                _ => false,
            }
        }),
{
}

} // verus!
