//! Configuration of a virtual machine, and what can go wrong with it.

use vstd::prelude::*;

use crate::gpu::checks::name_view;
use crate::text::texts;

verus! {

/// Operating system of the host.
#[derive(Debug, Clone, Copy, PartialEq, Eq, Structural)]
pub enum HostOs {
    Linux,
    MacOs,
}

/// How a machine reaches the network.
#[derive(Debug)]
pub enum NetBackend {
    /// Through the sockets of the host.
    Tsi,
    /// Not at all.
    Disabled,
    /// Through a proxy process.
    Gvproxy { binary: String },
}

/// The view of a [`NetBackend`].
pub enum NetView {
    Tsi,
    Disabled,
    Gvproxy { binary: Seq<char> },
}

impl View for NetBackend {
    type V = NetView;

    open spec fn view(&self) -> NetView {
        match self {
            NetBackend::Tsi => NetView::Tsi,
            NetBackend::Disabled => NetView::Disabled,
            NetBackend::Gvproxy { binary } => NetView::Gvproxy { binary: binary@ },
        }
    }
}

/// The disk that keeps the state of a machine.
#[derive(Debug)]
pub struct StateDiskConfig {
    pub path: String,
    pub block_id: String,
    pub guest_device: String,
}

/// The view of a [`StateDiskConfig`].
pub struct DiskView {
    pub path: Seq<char>,
    pub block_id: Seq<char>,
    pub guest_device: Seq<char>,
}

impl View for StateDiskConfig {
    type V = DiskView;

    open spec fn view(&self) -> DiskView {
        DiskView {
            path: self.path@,
            block_id: self.block_id@,
            guest_device: self.guest_device@,
        }
    }
}

/// A port of the machine that is reached through a socket of the host.
#[derive(Debug)]
pub struct VsockPort {
    pub port: u32,
    pub socket_path: String,
    pub listen: bool,
}

/// The view of a [`VsockPort`].
pub struct VsockView {
    pub port: u32,
    pub socket_path: Seq<char>,
    pub listen: bool,
}

impl View for VsockPort {
    type V = VsockView;

    open spec fn view(&self) -> VsockView {
        VsockView { port: self.port, socket_path: self.socket_path@, listen: self.listen }
    }
}

pub open spec fn vsock_views(v: Seq<VsockPort>) -> Seq<VsockView> {
    v.map_values(|p: VsockPort| p@)
}

pub open spec fn disk_view(d: Option<StateDiskConfig>) -> Option<DiskView> {
    match d {
        Some(disk) => Some(disk@),
        None => None,
    }
}

/// Configuration of a machine.
#[derive(Debug)]
pub struct VmConfig {
    pub host_os: HostOs,
    pub rootfs: String,
    /// Name under which the run files of this root file system are kept.
    pub rootfs_key: String,
    pub vcpus: u8,
    pub mem_mib: u32,
    pub exec_path: String,
    pub args: Vec<String>,
    pub env: Vec<String>,
    pub workdir: String,
    /// Forwarded ports, as `host:guest` or a single number for both.
    pub port_map: Vec<String>,
    pub vsock_ports: Vec<VsockPort>,
    pub log_level: u32,
    pub console_output: Option<String>,
    pub net: NetBackend,
    pub gpu_enabled: bool,
    pub state_disk: Option<StateDiskConfig>,
    pub gateway_name: String,
    /// Port of the host on which the gateway in the machine is reached.
    pub gateway_port: u16,
}

/// The view of a [`VmConfig`].
pub struct VmView {
    pub host_os: HostOs,
    pub rootfs: Seq<char>,
    pub rootfs_key: Seq<char>,
    pub vcpus: u8,
    pub mem_mib: u32,
    pub exec_path: Seq<char>,
    pub args: Seq<Seq<char>>,
    pub env: Seq<Seq<char>>,
    pub workdir: Seq<char>,
    pub port_map: Seq<Seq<char>>,
    pub vsock_ports: Seq<VsockView>,
    pub log_level: u32,
    pub console_output: Option<Seq<char>>,
    pub net: NetView,
    pub gpu_enabled: bool,
    pub state_disk: Option<DiskView>,
    pub gateway_name: Seq<char>,
    pub gateway_port: u16,
}

impl View for VmConfig {
    type V = VmView;

    open spec fn view(&self) -> VmView {
        VmView {
            host_os: self.host_os,
            rootfs: self.rootfs@,
            rootfs_key: self.rootfs_key@,
            vcpus: self.vcpus,
            mem_mib: self.mem_mib,
            exec_path: self.exec_path@,
            args: texts(self.args@),
            env: texts(self.env@),
            workdir: self.workdir@,
            port_map: texts(self.port_map@),
            vsock_ports: vsock_views(self.vsock_ports@),
            log_level: self.log_level,
            console_output: name_view(self.console_output),
            net: self.net@,
            gpu_enabled: self.gpu_enabled,
            state_disk: disk_view(self.state_disk),
            gateway_name: self.gateway_name@,
            gateway_port: self.gateway_port,
        }
    }
}

/// Why a machine could not be launched.
#[derive(Debug)]
pub enum VmError {
    /// A call into the virtual machine library failed.
    Krun { func: String, code: i32 },
    /// The host lacks something.
    HostSetup { message: String },
    /// A program is missing.
    BinaryNotFound { path: String, hint: String },
    /// A process could not be started.
    Fork { message: String },
    /// The files that describe running machines could not be kept.
    RuntimeState { message: String },
    /// A text that has to be handed on holds a NUL character.
    NulByte { text: String },
}

/// The view of a [`VmError`].
pub enum VmErrorView {
    Krun { func: Seq<char>, code: i32 },
    HostSetup { message: Seq<char> },
    BinaryNotFound { path: Seq<char>, hint: Seq<char> },
    Fork { message: Seq<char> },
    RuntimeState { message: Seq<char> },
    NulByte { text: Seq<char> },
}

impl View for VmError {
    type V = VmErrorView;

    open spec fn view(&self) -> VmErrorView {
        match self {
            VmError::Krun { func, code } => VmErrorView::Krun { func: func@, code: *code },
            VmError::HostSetup { message } => VmErrorView::HostSetup { message: message@ },
            VmError::BinaryNotFound { path, hint } => VmErrorView::BinaryNotFound {
                path: path@,
                hint: hint@,
            },
            VmError::Fork { message } => VmErrorView::Fork { message: message@ },
            VmError::RuntimeState { message } => VmErrorView::RuntimeState { message: message@ },
            VmError::NulByte { text } => VmErrorView::NulByte { text: text@ },
        }
    }
}

impl VmError {
    pub fn copy(&self) -> (r: VmError)
        ensures
            r@ == self@,
    {
        match self {
            VmError::Krun { func, code } => VmError::Krun { func: func.clone(), code: *code },
            VmError::HostSetup { message } => VmError::HostSetup { message: message.clone() },
            VmError::BinaryNotFound { path, hint } => VmError::BinaryNotFound {
                path: path.clone(),
                hint: hint.clone(),
            },
            VmError::Fork { message } => VmError::Fork { message: message.clone() },
            VmError::RuntimeState { message } => VmError::RuntimeState {
                message: message.clone(),
            },
            VmError::NulByte { text } => VmError::NulByte { text: text.clone() },
        }
    }
}

/// What a step of a launch ended in, with the failure taken by its view.
pub open spec fn launched<T>(r: Result<T, VmError>) -> Result<T, VmErrorView> {
    match r {
        Ok(v) => Ok(v),
        Err(e) => Err(e@),
    }
}

} // verus!
