//! What the views of configurations, sandboxes and requests show.

use vstd::prelude::*;

use crate::driver::config::{VmDriverConfig, VmDriverTlsPaths};
use crate::driver::host::{HostRequest, HostRequestView};
use crate::driver::sandbox::{
    condition_views, config_view, spec_part, status_part, template_view, Sandbox,
    SandboxCondition, SandboxSpec, SandboxStatus, SandboxTemplate,
};
use crate::driver::vm_driver::PlatformEvent;
use crate::gpu::bind::{pair_views, GpuBindState};
use crate::gpu::checks::name_view;
use crate::server::config::{tls_view, Config, TlsConfig};
use crate::server::startup::{StartRequest, StartRequestView};
use crate::sysfs::{SysfsRequest, SysfsRequestView};
use crate::text::texts;
use crate::vm::config::{disk_view, vsock_views, StateDiskConfig, VmConfig};
use crate::vm::gvproxy::GvproxySetup;
use crate::vm::host::{VmRequest, VmRequestView};

verus! {

/// The view of a machine configuration shows each setting as it is.
pub proof fn law_machine_config_shows(c: VmConfig)
    ensures
        c@.host_os == c.host_os,
        c@.rootfs == c.rootfs@,
        c@.rootfs_key == c.rootfs_key@,
        c@.vcpus == c.vcpus,
        c@.mem_mib == c.mem_mib,
        c@.exec_path == c.exec_path@,
        c@.args == texts(c.args@),
        c@.env == texts(c.env@),
        c@.workdir == c.workdir@,
        c@.port_map == texts(c.port_map@),
        c@.vsock_ports == vsock_views(c.vsock_ports@),
        c@.log_level == c.log_level,
        c@.console_output == name_view(c.console_output),
        c@.net == c.net@,
        c@.gpu_enabled == c.gpu_enabled,
        c@.state_disk == disk_view(c.state_disk),
        c@.gateway_name == c.gateway_name@,
        c@.gateway_port == c.gateway_port,
{
}

/// The view of a state disk shows each setting as it is.
pub proof fn law_disk_shows(c: StateDiskConfig)
    ensures
        c@.path == c.path@,
        c@.block_id == c.block_id@,
        c@.guest_device == c.guest_device@,
{
}

/// The view of a driver configuration shows each setting as it is.
pub proof fn law_driver_config_shows(c: VmDriverConfig)
    ensures
        c@.vm_bin == c.vm_bin@,
        c@.openshell_endpoint == c.openshell_endpoint@,
        c@.state_dir == c.state_dir@,
        c@.ssh_handshake_secret == c.ssh_handshake_secret@,
        c@.ssh_handshake_skew_secs == c.ssh_handshake_skew_secs,
        c@.log_level == c.log_level@,
        c@.krun_log_level == c.krun_log_level,
        c@.vcpus == c.vcpus,
        c@.mem_mib == c.mem_mib,
        c@.tls_ca == name_view(c.tls_ca),
        c@.tls_cert == name_view(c.tls_cert),
        c@.tls_key == name_view(c.tls_key),
{
}

/// The view of the TLS files of a driver shows each path as it is.
pub proof fn law_tls_paths_show(c: VmDriverTlsPaths)
    ensures
        c@.ca == c.ca@,
        c@.cert == c.cert@,
        c@.key == c.key@,
{
}

/// The view of a server configuration shows each setting as it is.
pub proof fn law_server_config_shows(c: Config)
    ensures
        c@.bind_address == c.bind_address@,
        c@.log_level == c.log_level@,
        c@.tls == tls_view(c.tls),
        c@.database_url == c.database_url@,
        c@.compute_driver_endpoint == c.compute_driver_endpoint@,
        c@.compute_driver_bin == name_view(c.compute_driver_bin),
        c@.grpc_endpoint == c.grpc_endpoint@,
        c@.sandbox_namespace == c.sandbox_namespace@,
        c@.sandbox_image == c.sandbox_image@,
        c@.sandbox_image_pull_policy == c.sandbox_image_pull_policy@,
        c@.sandbox_ssh_port == c.sandbox_ssh_port,
        c@.ssh_handshake_secret == c.ssh_handshake_secret@,
        c@.ssh_handshake_skew_secs == c.ssh_handshake_skew_secs,
        c@.client_tls_secret_name == c.client_tls_secret_name@,
        c@.host_gateway_ip == c.host_gateway_ip@,
{
}

/// The view of the TLS settings of a server shows each as it is.
pub proof fn law_tls_config_shows(c: TlsConfig)
    ensures
        c@.cert_path == c.cert_path@,
        c@.key_path == c.key_path@,
        c@.client_ca_path == c.client_ca_path@,
        c@.allow_unauthenticated == c.allow_unauthenticated,
{
}

/// The view of a sandbox shows each part as it is.
pub proof fn law_sandbox_shows(s: Sandbox)
    ensures
        s@.id == s.id@,
        s@.name == s.name@,
        s@.namespace == s.namespace@,
        s@.sandbox_spec == spec_part(s.sandbox_spec),
        s@.status == status_part(s.status),
        s@.phase == s.phase,
{
}

/// The view of what is wanted of a sandbox shows each part as it is.
pub proof fn law_wanted_sandbox_shows(s: SandboxSpec)
    ensures
        s@.log_level == s.log_level@,
        s@.environment == s.environment@,
        s@.template == template_view(s.template),
        s@.gpu == s.gpu,
{
}

/// The view of a template shows each part as it is.
pub proof fn law_template_shows(s: SandboxTemplate)
    ensures
        s@.image == s.image@,
        s@.runtime_class_name == s.runtime_class_name@,
        s@.agent_socket == s.agent_socket@,
        s@.environment == s.environment@,
        s@.volume_claim_templates == s.volume_claim_templates,
        s@.resources == s.resources,
{
}

/// The view of the status of a sandbox shows each part as it is.
pub proof fn law_sandbox_status_shows(s: SandboxStatus)
    ensures
        s@.sandbox_name == s.sandbox_name@,
        s@.agent_pod == s.agent_pod@,
        s@.agent_fd == s.agent_fd@,
        s@.sandbox_fd == s.sandbox_fd@,
        s@.conditions == condition_views(s.conditions@),
        s@.driver_name == s.driver_name@,
        s@.driver_config == config_view(s.driver_config),
{
}

/// The view of a condition shows each part as it is.
pub proof fn law_condition_shows(c: SandboxCondition)
    ensures
        c@.condition_type == c.condition_type@,
        c@.status == c.status@,
        c@.reason == c.reason@,
        c@.message == c.message@,
        c@.last_transition_time == c.last_transition_time@,
{
}

/// The view of a platform event shows each part as it is.
pub proof fn law_platform_event_shows(e: PlatformEvent)
    ensures
        e@.timestamp_ms == e.timestamp_ms,
        e@.source == e.source@,
        e@.event_type == e.event_type@,
        e@.reason == e.reason@,
        e@.message == e.message@,
{
}

/// The view of a bound GPU shows each part as it is.
pub proof fn law_bind_state_shows(s: GpuBindState)
    ensures
        s@.pci_addr == s.pci_addr@,
        s@.original_driver == s.original_driver@,
        s@.peer_binds == pair_views(s.peer_binds@),
        s@.did_bind == s.did_bind,
{
}

/// The view of a network proxy shows each part as it is.
pub proof fn law_proxy_shows(p: GvproxySetup)
    ensures
        p@.api_sock == p.api_sock@,
        p@.net_sock == p.net_sock@,
        p@.pid == p.pid,
{
}

/// The view of a request with several parts shows each of them as it is.
pub proof fn law_sysfs_request_shows(q: SysfsRequest)
    ensures
        match q {
            SysfsRequest::WriteGuarded { path, data } => q@ == (SysfsRequestView::WriteGuarded {
                path: path@,
                data: data@,
            }),
            SysfsRequest::WriteFile { path, data } => q@ == (SysfsRequestView::WriteFile {
                path: path@,
                data: data@,
            }),
            _ => true,
        },
{
}

/// The view of a request with several parts shows each of them as it is.
pub proof fn law_host_request_shows(q: HostRequest)
    ensures
        match q {
            HostRequest::CopyFile { from, to } => q@ == (HostRequestView::CopyFile {
                from: from@,
                to: to@,
            }),
            HostRequest::SetMode { path, mode } => q@ == (HostRequestView::SetMode {
                path: path@,
                mode,
            }),
            HostRequest::Spawn { program, args } => q@ == (HostRequestView::Spawn {
                program: program@,
                args: texts(args@),
            }),
            HostRequest::WaitEnd { id, millis } => q@ == (HostRequestView::WaitEnd {
                id: id@,
                millis,
            }),
            _ => true,
        },
{
}

/// The view of a request with several parts shows each of them as it is.
pub proof fn law_vm_request_shows(q: VmRequest)
    ensures
        match q {
            VmRequest::SetVmConfig { ctx, vcpus, mem_mib } => q@ == (VmRequestView::SetVmConfig {
                ctx,
                vcpus,
                mem_mib,
            }),
            VmRequest::SetRoot { ctx, path } => q@ == (VmRequestView::SetRoot {
                ctx,
                path: path@,
            }),
            VmRequest::AddDisk { ctx, block_id, path } => q@ == (VmRequestView::AddDisk {
                ctx,
                block_id: block_id@,
                path: path@,
            }),
            VmRequest::SetWorkdir { ctx, path } => q@ == (VmRequestView::SetWorkdir {
                ctx,
                path: path@,
            }),
            VmRequest::AddVsock { ctx, features } => q@ == (VmRequestView::AddVsock {
                ctx,
                features,
            }),
            VmRequest::AddNetUnixstream { ctx, socket, mac, features } => q@ == (VmRequestView::AddNetUnixstream {
                ctx,
                socket: socket@,
                mac: mac@,
                features,
            }),
            VmRequest::AddNetUnixgram { ctx, socket, mac, features, flags } => q@ == (VmRequestView::AddNetUnixgram {
                ctx,
                socket: socket@,
                mac: mac@,
                features,
                flags,
            }),
            VmRequest::SetPortMap { ctx, ports } => q@ == (VmRequestView::SetPortMap {
                ctx,
                ports: texts(ports@),
            }),
            VmRequest::AddVsockPort { ctx, guest_port, socket, listen } => q@ == (VmRequestView::AddVsockPort {
                ctx,
                guest_port,
                socket: socket@,
                listen,
            }),
            VmRequest::SetConsoleOutput { ctx, path } => q@ == (VmRequestView::SetConsoleOutput {
                ctx,
                path: path@,
            }),
            VmRequest::SetExec { ctx, program, args, env } => q@ == (VmRequestView::SetExec {
                ctx,
                program: program@,
                args: texts(args@),
                env: texts(env@),
            }),
            VmRequest::SpawnProxy { program, args } => q@ == (VmRequestView::SpawnProxy {
                program: program@,
                args: texts(args@),
            }),
            VmRequest::ExposePort { socket, body } => q@ == (VmRequestView::ExposePort {
                socket: socket@,
                body: body@,
            }),
            VmRequest::WriteRuntimeState { pid, console_log, proxy_pid } => q@ == (VmRequestView::WriteRuntimeState {
                pid,
                console_log: console_log@,
                proxy_pid,
            }),
            VmRequest::BootstrapGateway { name, port } => q@ == (VmRequestView::BootstrapGateway {
                name: name@,
                port,
            }),
            VmRequest::WaitGatewayReady { port, name } => q@ == (VmRequestView::WaitGatewayReady {
                port,
                name: name@,
            }),
            _ => true,
        },
{
}

/// The view of a request with several parts shows each of them as it is.
pub proof fn law_start_request_shows(q: StartRequest)
    ensures
        match q {
            StartRequest::SpawnDriver { program, env } => q@ == (StartRequestView::SpawnDriver {
                program: program@,
                env: env@,
            }),
            StartRequest::LoadTls { cert, key, client_ca, allow_unauthenticated } => q@ == (StartRequestView::LoadTls {
                cert: cert@,
                key: key@,
                client_ca: client_ca@,
                allow_unauthenticated,
            }),
            _ => true,
        },
{
}

} // verus!
