//! What a machine is given: its environment, its files and its command line.

use vstd::prelude::*;

use crate::driver::config::{needs_tls, ConfigView, VmDriverConfig};
use crate::driver::environment::{env_lines, Environment};
use crate::driver::sandbox::{Sandbox, SandboxView, TemplateView};
use crate::driver::status::{Code, Status, StatusView};
use crate::paths::{join_path, joined_path, parent, parent_path};
use crate::text::{decimal, decimal_text, glue2, glue3, texts};
use crate::text_map::{ascending, listing, map_of};

verus! {

/// Port on which a machine listens for SSH connections.
pub const GUEST_SSH_PORT: u16 = 2222;

pub const GUEST_TLS_CA_PATH: &'static str = "/opt/openshell/tls/ca.crt";

pub const GUEST_TLS_CERT_PATH: &'static str = "/opt/openshell/tls/tls.crt";

pub const GUEST_TLS_KEY_PATH: &'static str = "/opt/openshell/tls/tls.key";

/// A refusal because the driver cannot do what is wanted.
pub open spec fn unsupported(message: Seq<char>) -> Option<StatusView> {
    Some(StatusView { code: Code::FailedPrecondition, message })
}

/// Why a machine cannot be made from this template.
pub open spec fn template_refusal(t: TemplateView) -> Option<StatusView> {
    if t.image.len() > 0 {
        unsupported("vm sandboxes do not support template.image"@)
    } else if t.runtime_class_name.len() > 0 {
        unsupported("vm sandboxes do not support template.runtime_class_name"@)
    } else if t.agent_socket.len() > 0 {
        unsupported("vm sandboxes do not support template.agent_socket"@)
    } else if t.volume_claim_templates {
        unsupported("vm sandboxes do not support template.volume_claim_templates"@)
    } else if t.resources {
        unsupported("vm sandboxes do not support template.resources"@)
    } else {
        None
    }
}

/// Why a sandbox cannot run as a machine, if it cannot.
pub open spec fn refusal(sandbox: SandboxView) -> Option<StatusView> {
    match sandbox.sandbox_spec {
        None => Some(
            StatusView { code: Code::InvalidArgument, message: "sandbox spec is required"@ },
        ),
        Some(wanted) => if wanted.gpu {
            unsupported("vm sandboxes do not support gpu=true"@)
        } else {
            match wanted.template {
                Some(template) => template_refusal(template),
                None => None,
            }
        },
    }
}

fn unsupported_status(message: &str) -> (r: Result<(), Status>)
    ensures
        r is Err,
        Some(r->Err_0@) == unsupported(message@),
{
    Err(Status::new(Code::FailedPrecondition, message.to_owned()))
}

/// Accepts the sandboxes that can run as machines.
pub fn validate_vm_sandbox(sandbox: &Sandbox) -> (r: Result<(), Status>)
    ensures
        match refusal(sandbox@) {
            Some(status) => r is Err && r->Err_0@ == status,
            None => r is Ok,
        },
{
    let wanted = match &sandbox.sandbox_spec {
        Some(wanted) => wanted,
        None => {
            return Err(Status::new(Code::InvalidArgument, "sandbox spec is required".to_owned()));
        },
    };
    if wanted.gpu {
        return unsupported_status("vm sandboxes do not support gpu=true");
    }
    match &wanted.template {
        Some(template) => {
            if !template.image.as_str().is_empty() {
                return unsupported_status("vm sandboxes do not support template.image");
            }
            if !template.runtime_class_name.as_str().is_empty() {
                return unsupported_status(
                    "vm sandboxes do not support template.runtime_class_name",
                );
            }
            if !template.agent_socket.as_str().is_empty() {
                return unsupported_status("vm sandboxes do not support template.agent_socket");
            }
            if template.volume_claim_templates {
                return unsupported_status(
                    "vm sandboxes do not support template.volume_claim_templates",
                );
            }
            if template.resources {
                return unsupported_status("vm sandboxes do not support template.resources");
            }
        },
        None => {},
    }
    Ok(())
}

/// The variables of the template, if there is one.
pub open spec fn template_map(sandbox: SandboxView) -> Map<Seq<char>, Seq<char>> {
    match sandbox.sandbox_spec {
        Some(wanted) => match wanted.template {
            Some(template) => template.environment,
            None => Map::empty(),
        },
        None => Map::empty(),
    }
}

/// The variables that a sandbox asks for: those of its template, and its own in
/// place of those.
pub open spec fn merged_map(sandbox: SandboxView) -> Map<Seq<char>, Seq<char>> {
    match sandbox.sandbox_spec {
        Some(wanted) => template_map(sandbox).union_prefer_right(wanted.environment),
        None => Map::empty(),
    }
}

/// The variables that a sandbox asks for.
pub fn merged_environment(sandbox: &Sandbox) -> (r: Environment)
    ensures
        r@ == merged_map(sandbox@),
{
    match &sandbox.sandbox_spec {
        Some(wanted) => {
            let mut environment = match &wanted.template {
                Some(template) => template.environment.copy(),
                None => Environment::new(),
            };
            environment.extend(&wanted.environment);
            environment
        },
        None => Environment::new(),
    }
}

/// The log level of a sandbox: its own, or the driver's where it has none.
pub open spec fn log_level(sandbox: SandboxView, default_level: Seq<char>) -> Seq<char> {
    match sandbox.sandbox_spec {
        Some(wanted) => if wanted.log_level.len() > 0 {
            wanted.log_level
        } else {
            default_level
        },
        None => default_level,
    }
}

pub fn sandbox_log_level(sandbox: &Sandbox, default_level: &str) -> (r: String)
    ensures
        r@ == log_level(sandbox@, default_level@),
        sandbox.sandbox_spec is Some && sandbox.sandbox_spec->0.log_level@.len() > 0 ==> r@
            == sandbox.sandbox_spec->0.log_level@,
        sandbox.sandbox_spec is None || sandbox.sandbox_spec->0.log_level@.len() == 0 ==> r@
            == default_level@,
{
    match &sandbox.sandbox_spec {
        Some(wanted) => if wanted.log_level.as_str().is_empty() {
            default_level.to_owned()
        } else {
            wanted.log_level.clone()
        },
        None => default_level.to_owned(),
    }
}

/// The variables that the supervisor in every machine needs.
pub open spec fn supervisor_map(sandbox: SandboxView, config: ConfigView) -> Map<
    Seq<char>,
    Seq<char>,
> {
    Map::empty().insert("HOME"@, "/root"@).insert(
        "PATH"@,
        "/usr/local/sbin:/usr/local/bin:/usr/sbin:/usr/bin:/sbin:/bin"@,
    ).insert("TERM"@, "xterm"@).insert("OPENSHELL_ENDPOINT"@, config.openshell_endpoint).insert(
        "OPENSHELL_SANDBOX_ID"@,
        sandbox.id,
    ).insert("OPENSHELL_SANDBOX"@, sandbox.name).insert(
        "OPENSHELL_SSH_LISTEN_ADDR"@,
        "0.0.0.0:"@ + decimal(GUEST_SSH_PORT as nat),
    ).insert("OPENSHELL_SSH_HANDSHAKE_SECRET"@, config.ssh_handshake_secret).insert(
        "OPENSHELL_SSH_HANDSHAKE_SKEW_SECS"@,
        decimal(config.ssh_handshake_skew_secs as nat),
    ).insert("OPENSHELL_SANDBOX_COMMAND"@, "tail -f /dev/null"@).insert(
        "OPENSHELL_LOG_LEVEL"@,
        log_level(sandbox, config.log_level),
    )
}

/// Where a machine finds its TLS files.
pub open spec fn tls_map() -> Map<Seq<char>, Seq<char>> {
    Map::empty().insert("OPENSHELL_TLS_CA"@, GUEST_TLS_CA_PATH@).insert(
        "OPENSHELL_TLS_CERT"@,
        GUEST_TLS_CERT_PATH@,
    ).insert("OPENSHELL_TLS_KEY"@, GUEST_TLS_KEY_PATH@)
}

/// The environment of a machine: what the supervisor needs, where the TLS files
/// are if the gateway needs them, and what the sandbox asks for in place of those.
pub open spec fn guest_map(sandbox: SandboxView, config: ConfigView) -> Map<Seq<char>, Seq<char>> {
    let base = supervisor_map(sandbox, config);
    let with_tls = if needs_tls(config.openshell_endpoint) {
        base.union_prefer_right(tls_map())
    } else {
        base
    };
    with_tls.union_prefer_right(merged_map(sandbox))
}

/// The environment of a machine as `name=value`, in the order of the names.
pub fn build_guest_environment(sandbox: &Sandbox, config: &VmDriverConfig) -> (r: Vec<String>)
    ensures
        texts(r@) == env_lines(guest_map(sandbox@, config@)),
        ascending(listing(guest_map(sandbox@, config@))),
        map_of(listing(guest_map(sandbox@, config@))) == guest_map(sandbox@, config@),
{
    let mut environment = Environment::new();
    environment.set("HOME", "/root");
    environment.set("PATH", "/usr/local/sbin:/usr/local/bin:/usr/sbin:/usr/bin:/sbin:/bin");
    environment.set("TERM", "xterm");
    environment.set("OPENSHELL_ENDPOINT", config.openshell_endpoint.as_str());
    environment.set("OPENSHELL_SANDBOX_ID", sandbox.id.as_str());
    environment.set("OPENSHELL_SANDBOX", sandbox.name.as_str());
    let listen = glue2("0.0.0.0:", decimal_text(GUEST_SSH_PORT as u64).as_str());
    environment.set("OPENSHELL_SSH_LISTEN_ADDR", listen.as_str());
    environment.set("OPENSHELL_SSH_HANDSHAKE_SECRET", config.ssh_handshake_secret.as_str());
    let skew = decimal_text(config.ssh_handshake_skew_secs);
    environment.set("OPENSHELL_SSH_HANDSHAKE_SKEW_SECS", skew.as_str());
    environment.set("OPENSHELL_SANDBOX_COMMAND", "tail -f /dev/null");
    let level = sandbox_log_level(sandbox, config.log_level.as_str());
    environment.set("OPENSHELL_LOG_LEVEL", level.as_str());
    if config.requires_tls_materials() {
        let mut tls = Environment::new();
        tls.set("OPENSHELL_TLS_CA", GUEST_TLS_CA_PATH);
        tls.set("OPENSHELL_TLS_CERT", GUEST_TLS_CERT_PATH);
        tls.set("OPENSHELL_TLS_KEY", GUEST_TLS_KEY_PATH);
        environment.extend(&tls);
    }
    environment.extend(&merged_environment(sandbox));
    environment.lines()
}

/// A value of the sandbox itself wins over one of its template, and every value
/// that the sandbox or its template asks for wins over the driver's own.
pub proof fn law_sandbox_values_win(sandbox: SandboxView, config: ConfigView, name: Seq<char>)
    requires
        merged_map(sandbox).contains_key(name),
    ensures
        guest_map(sandbox, config)[name] == merged_map(sandbox)[name],
        sandbox.sandbox_spec->0.environment.contains_key(name) ==> merged_map(sandbox)[name]
            == sandbox.sandbox_spec->0.environment[name],
        !sandbox.sandbox_spec->0.environment.contains_key(name) ==> merged_map(sandbox)[name]
            == template_map(sandbox)[name],
{
}

/// What a sandbox does not ask for is as the driver sets it.
pub proof fn law_other_values_stay(sandbox: SandboxView, config: ConfigView, name: Seq<char>)
    requires
        !merged_map(sandbox).contains_key(name),
        !tls_map().contains_key(name),
    ensures
        guest_map(sandbox, config).contains_key(name) == supervisor_map(
            sandbox,
            config,
        ).contains_key(name),
        supervisor_map(sandbox, config).contains_key(name) ==> guest_map(sandbox, config)[name]
            == supervisor_map(sandbox, config)[name],
{
}

/// Where the files of a sandbox lie.
pub open spec fn state_dir_of(root: Seq<char>, id: Seq<char>) -> Seq<char> {
    joined_path(joined_path(root, "sandboxes"@), id)
}

pub fn sandbox_state_dir(root: &str, sandbox_id: &str) -> (r: String)
    ensures
        r@ == state_dir_of(root@, sandbox_id@),
        r@ == joined_path(joined_path(root@, "sandboxes"@), sandbox_id@),
{
    let sandboxes = join_path(root, "sandboxes");
    join_path(sandboxes.as_str(), sandbox_id)
}

/// Where the console of a machine is logged: beside its root file system.
pub open spec fn console_log_of(rootfs: Seq<char>) -> Seq<char> {
    let dir = match parent_path(rootfs) {
        Some(dir) => dir,
        None => rootfs,
    };
    joined_path(dir, "rootfs-console.log"@)
}

pub fn default_console_log_path(rootfs: &str) -> (r: String)
    ensures
        r@ == console_log_of(rootfs@),
        parent_path(rootfs@) is Some ==> r@ == joined_path(
            parent_path(rootfs@)->0,
            "rootfs-console.log"@,
        ),
        parent_path(rootfs@) is None ==> r@ == joined_path(rootfs@, "rootfs-console.log"@),
{
    match parent(rootfs) {
        Some(dir) => join_path(dir.as_str(), "rootfs-console.log"),
        None => join_path(rootfs, "rootfs-console.log"),
    }
}

/// Two arguments for each variable.
pub open spec fn env_args(lines: Seq<Seq<char>>) -> Seq<Seq<char>>
    decreases lines.len(),
{
    if lines.len() == 0 {
        Seq::empty()
    } else {
        env_args(lines.drop_last()).push("--env"@).push(lines.last())
    }
}

/// The command line of a machine.
pub open spec fn launch_args(
    sandbox: SandboxView,
    config: ConfigView,
    rootfs: Seq<char>,
    init_path: Seq<char>,
    ssh_port: u16,
) -> Seq<Seq<char>> {
    seq![
        "--rootfs"@,
        rootfs,
        "--name"@,
        sandbox.id,
        "--exec"@,
        init_path,
        "--workdir"@,
        "/"@,
        "--vcpus"@,
        decimal(config.vcpus as nat),
        "--mem"@,
        decimal(config.mem_mib as nat),
        "--krun-log-level"@,
        decimal(config.krun_log_level as nat),
        "--net"@,
        "gvproxy"@,
        "--port"@,
        decimal(ssh_port as nat) + ":"@ + decimal(GUEST_SSH_PORT as nat),
    ] + env_args(env_lines(guest_map(sandbox, config)))
}

/// The command line of the machine for a sandbox.
pub fn machine_arguments(
    sandbox: &Sandbox,
    config: &VmDriverConfig,
    rootfs: &str,
    init_path: &str,
    ssh_port: u16,
) -> (r: Vec<String>)
    ensures
        texts(r@) == launch_args(sandbox@, config@, rootfs@, init_path@, ssh_port),
{
    let mut args: Vec<String> = Vec::new();
    args.push("--rootfs".to_owned());
    args.push(rootfs.to_owned());
    args.push("--name".to_owned());
    args.push(sandbox.id.clone());
    args.push("--exec".to_owned());
    args.push(init_path.to_owned());
    args.push("--workdir".to_owned());
    args.push("/".to_owned());
    args.push("--vcpus".to_owned());
    args.push(decimal_text(config.vcpus as u64));
    args.push("--mem".to_owned());
    args.push(decimal_text(config.mem_mib as u64));
    args.push("--krun-log-level".to_owned());
    args.push(decimal_text(config.krun_log_level as u64));
    args.push("--net".to_owned());
    args.push("gvproxy".to_owned());
    args.push("--port".to_owned());
    let host = decimal_text(ssh_port as u64);
    let guest = decimal_text(GUEST_SSH_PORT as u64);
    args.push(glue3(host.as_str(), ":", guest.as_str()));
    let ghost head = texts(args@);
    let lines = build_guest_environment(sandbox, config);
    let ghost all = texts(lines@);
    let mut i: usize = 0;
    assert(all.take(0) =~= Seq::empty());
    assert(texts(args@) =~= head + env_args(all.take(0)));
    while i < lines.len()
        invariant
            i <= lines@.len(),
            all == texts(lines@),
            texts(args@) == head + env_args(all.take(i as int)),
        decreases lines.len() - i,
    {
        let ghost before = texts(args@);
        args.push("--env".to_owned());
        args.push(lines[i].clone());
        assert(all.take(i + 1).drop_last() =~= all.take(i as int));
        assert(texts(args@) =~= before.push("--env"@).push(all[i as int]));
        assert(texts(args@) =~= head + env_args(all.take(i + 1)));
        i = i + 1;
    }
    assert(all.take(i as int) =~= all);
    assert(texts(args@) =~= launch_args(sandbox@, config@, rootfs@, init_path@, ssh_port));
    args
}

} // verus!
