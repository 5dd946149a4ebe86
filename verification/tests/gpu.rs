//! GPU passthrough against a file tree held in memory.

use openshell_vm::dialogue::Dialogue;
use openshell_vm::fault::{Fault, FaultKind};
use openshell_vm::gpu::bind::{
    bind_gpu_to_vfio, bind_iommu_group_peers, rebind_gpu_to_original, rebind_iommu_group_peers,
    GpuBindGuard, GpuBindState,
};
use openshell_vm::gpu::checks::{
    check_active_gpu_processes, check_display_attached, check_iommu_enabled,
    check_sysfs_permissions, check_vfio_modules_loaded, current_driver, iommu_group_peers,
    is_iommu_group_clean, validate_pci_addr,
};
use openshell_vm::gpu::prepare::{prepare_gpu_for_passthrough, prepare_gpu_with_sysfs};
use openshell_vm::gpu::probe::{
    nvidia_gpu_available_for_vm_passthrough, probe_host_nvidia_vfio_readiness,
    HostNvidiaVfioReadiness,
};
use openshell_vm::sysfs::{SysfsDialogue, SysfsReply, SysfsRequest, SysfsRoot};
use std::collections::{BTreeMap, BTreeSet};

const ROOT: &str = "/mock";
const GPU: &str = "0000:41:00.0";

enum Node {
    Dir,
    File(String),
    Link(String),
}

/// A file tree with symbolic links, and a record of every write to it.
struct Disk {
    nodes: BTreeMap<String, Node>,
    read_only: BTreeSet<String>,
    refused: BTreeMap<String, FaultKind>,
    writes: Vec<(String, String, bool)>,
    requests: usize,
}

impl Disk {
    fn new() -> Disk {
        Disk {
            nodes: BTreeMap::new(),
            read_only: BTreeSet::new(),
            refused: BTreeMap::new(),
            writes: Vec::new(),
            requests: 0,
        }
    }

    fn dir(&mut self, path: &str) {
        let mut at = String::new();
        for part in path.split('/').filter(|p| !p.is_empty()) {
            at.push('/');
            at.push_str(part);
            let resolved = self.resolve(&at).unwrap_or_else(|| at.clone());
            self.nodes.entry(resolved.clone()).or_insert(Node::Dir);
            at = resolved;
        }
    }

    fn file(&mut self, path: &str, content: &str) {
        let (parent, name) = path.rsplit_once('/').unwrap();
        self.dir(parent);
        let parent = self.resolve(parent).unwrap();
        self.nodes.insert(format!("{parent}/{name}"), Node::File(content.to_string()));
    }

    fn link(&mut self, path: &str, target: &str) {
        let (parent, name) = path.rsplit_once('/').unwrap();
        self.dir(parent);
        let parent = self.resolve(parent).unwrap();
        self.nodes.insert(format!("{parent}/{name}"), Node::Link(target.to_string()));
    }

    fn resolve(&self, path: &str) -> Option<String> {
        let mut at = String::new();
        for part in path.split('/').filter(|p| !p.is_empty()) {
            at = format!("{at}/{part}");
            for _ in 0..8 {
                match self.nodes.get(&at) {
                    Some(Node::Link(target)) => at = target.clone(),
                    _ => break,
                }
            }
            if !self.nodes.contains_key(&at) {
                return None;
            }
        }
        Some(at)
    }

    fn parent_and_name(&self, path: &str) -> Option<(String, String)> {
        let (parent, name) = path.rsplit_once('/')?;
        Some((self.resolve(parent)?, name.to_string()))
    }

    fn read(&self, path: &str) -> Option<String> {
        match self.nodes.get(&self.resolve(path)?) {
            Some(Node::File(content)) => Some(content.clone()),
            _ => None,
        }
    }

    fn children(&self, dir: &str) -> Vec<String> {
        let prefix = format!("{dir}/");
        self.nodes
            .keys()
            .filter_map(|k| k.strip_prefix(&prefix))
            .filter(|rest| !rest.contains('/'))
            .map(str::to_string)
            .collect()
    }

    fn missing(&self) -> SysfsReply {
        SysfsReply::failed(FaultKind::NotFound, "No such file or directory".to_string())
    }

    fn write(&mut self, path: &str, data: &str, guarded: bool) -> SysfsReply {
        self.writes.push((path.to_string(), data.to_string(), guarded));
        if let Some(kind) = self.refused.get(path) {
            return SysfsReply::failed(*kind, "refused".to_string());
        }
        match self.parent_and_name(path) {
            Some((parent, name)) => {
                self.nodes.insert(format!("{parent}/{name}"), Node::File(data.to_string()));
                SysfsReply::flag(true)
            }
            None => self.missing(),
        }
    }

    fn perform(&mut self, request: &SysfsRequest) -> SysfsReply {
        self.requests += 1;
        match request {
            SysfsRequest::ListDir { path } => match self.refused.get(path) {
                Some(kind) => SysfsReply::failed(*kind, "refused".to_string()),
                None => match self.resolve(path) {
                    Some(dir) => SysfsReply::listed(self.children(&dir)),
                    None => self.missing(),
                },
            },
            SysfsRequest::ListLinks { path } => match self.resolve(path) {
                Some(dir) => {
                    let mut targets = Vec::new();
                    for name in self.children(&dir) {
                        if let Some(Node::Link(target)) = self.nodes.get(&format!("{dir}/{name}")) {
                            targets.push(target.clone());
                        }
                    }
                    SysfsReply::listed(targets)
                }
                None => self.missing(),
            },
            SysfsRequest::ReadLink { path } => match self.parent_and_name(path) {
                Some((parent, name)) => match self.nodes.get(&format!("{parent}/{name}")) {
                    Some(Node::Link(target)) => SysfsReply::read(target.clone()),
                    _ => self.missing(),
                },
                None => self.missing(),
            },
            SysfsRequest::ReadText { path } => match self.read(path) {
                Some(text) => SysfsReply::read(text),
                None => self.missing(),
            },
            SysfsRequest::Exists { path } => SysfsReply::flag(self.resolve(path).is_some()),
            SysfsRequest::IsDir { path } => SysfsReply::flag(matches!(
                self.resolve(path).and_then(|p| self.nodes.get(&p)),
                Some(Node::Dir)
            )),
            SysfsRequest::IsFile { path } => SysfsReply::flag(self.read(path).is_some()),
            SysfsRequest::IsWritable { path } => match self.resolve(path) {
                Some(p) => SysfsReply::flag(!self.read_only.contains(&p)),
                None => SysfsReply::flag(false),
            },
            SysfsRequest::WriteGuarded { path, data } => self.write(path, data, true),
            SysfsRequest::WriteFile { path, data } => self.write(path, data, false),
        }
    }

    /// Runs a procedure again and again, performing what it asks for.
    fn drive<T, F>(&mut self, procedure: F) -> T
    where
        F: Fn(&mut SysfsDialogue) -> Option<T>,
    {
        let mut dialogue = Dialogue::new();
        loop {
            if let Some(result) = procedure(&mut dialogue) {
                assert!(dialogue.pending().is_none());
                return result;
            }
            let reply = self.perform(dialogue.pending().unwrap());
            dialogue.record(reply);
            dialogue.rewind();
        }
    }
}

fn at(path: &str) -> String {
    format!("{ROOT}/{path}")
}

fn sysfs() -> SysfsRoot {
    SysfsRoot::new(ROOT.to_string())
}

fn mock_pci_device(disk: &mut Disk, pci_addr: &str, vendor: &str, driver: Option<&str>) {
    let dev = at(&format!("sys/bus/pci/devices/{pci_addr}"));
    disk.file(&format!("{dev}/vendor"), vendor);
    disk.file(&format!("{dev}/class"), "0x030000");
    if let Some(driver) = driver {
        let driver_dir = at(&format!("sys/bus/pci/drivers/{driver}"));
        disk.dir(&driver_dir);
        disk.link(&format!("{dev}/driver"), &driver_dir);
    }
    disk.file(&format!("{dev}/driver_override"), "");
}

fn mock_drm_card(disk: &mut Disk, card: &str, pci_addr: &str, outputs: &[(&str, &str)]) {
    let card_dir = at(&format!("sys/class/drm/{card}"));
    disk.dir(&card_dir);
    disk.link(&format!("{card_dir}/device"), &at(&format!("sys/bus/pci/devices/{pci_addr}")));
    for (output, status) in outputs {
        disk.file(&format!("{card_dir}/{card}-{output}/status"), status);
    }
}

fn mock_iommu_group(disk: &mut Disk, group_id: u32, members: &[&str]) {
    let group_dir = at(&format!("sys/kernel/iommu_groups/{group_id}/devices"));
    disk.dir(&group_dir);
    for member in members {
        let dev = at(&format!("sys/bus/pci/devices/{member}"));
        disk.dir(&dev);
        disk.link(
            &format!("{dev}/iommu_group"),
            &at(&format!("sys/kernel/iommu_groups/{group_id}")),
        );
        disk.link(&format!("{group_dir}/{member}"), &dev);
    }
}

fn mock_modules(disk: &mut Disk) {
    disk.dir(&at("sys/module/vfio_pci"));
    disk.dir(&at("sys/module/vfio_iommu_type1"));
}

fn mock_bindable_gpu(disk: &mut Disk, pci_addr: &str) {
    mock_pci_device(disk, pci_addr, "0x10de", Some("nvidia"));
    disk.file(&at("sys/bus/pci/drivers/nvidia/unbind"), "");
    disk.file(&at("sys/bus/pci/drivers/vfio-pci/bind"), "");
    mock_iommu_group(disk, 15, &[pci_addr]);
}

/// What the kernel does once a device is bound: its link shows the new driver.
fn mock_moved_to_vfio(disk: &mut Disk, pci_addr: &str) {
    let vfio = at("sys/bus/pci/drivers/vfio-pci");
    disk.link(&at(&format!("sys/bus/pci/devices/{pci_addr}/driver")), &vfio);
    disk.file(&format!("{vfio}/unbind"), "");
    disk.file(&at("sys/bus/pci/drivers/nvidia/bind"), "");
}

fn mock_multi_gpu_host(disk: &mut Disk) {
    mock_bindable_gpu(disk, "0000:41:00.0");
    mock_drm_card(disk, "card0", "0000:41:00.0", &[("DP-1", "connected")]);
    mock_bindable_gpu(disk, "0000:42:00.0");
    mock_pci_device(disk, "0000:43:00.0", "0x10de", Some("vfio-pci"));
    mock_iommu_group(disk, 17, &["0000:43:00.0"]);
    mock_modules(disk);
}

fn prepare(disk: &mut Disk, asked: Option<&str>) -> Result<GpuBindState, Fault> {
    disk.drive(|d| prepare_gpu_with_sysfs(&sysfs(), d, asked))
}

fn bound_state() -> GpuBindState {
    GpuBindState {
        pci_addr: GPU.to_string(),
        original_driver: "nvidia".to_string(),
        peer_binds: vec![],
        did_bind: true,
    }
}

#[test]
fn passthrough_gate_is_false_without_env_var() {
    let mut disk = Disk::new();
    let available =
        disk.drive(|d| nvidia_gpu_available_for_vm_passthrough(None, Some("/runtime"), d));
    assert!(!available, "gate must return false when OPENSHELL_VM_GPU_E2E is unset");
    assert_eq!(disk.requests, 0);
}

#[test]
fn probe_returns_no_device_or_readiness_on_typical_ci() {
    let mut disk = Disk::new();
    let results = disk.drive(probe_host_nvidia_vfio_readiness);
    assert!(results.is_empty());

    let dev = "/sys/bus/pci/devices/0000:41:00.0";
    disk.file(&format!("{dev}/vendor"), "0x10de\n");
    disk.file("/sys/bus/pci/devices/0000:00:01.0/vendor", "0x8086\n");
    let results = disk.drive(probe_host_nvidia_vfio_readiness);
    assert_eq!(results.len(), 1);
    for (addr, state) in &results {
        assert!(!addr.is_empty(), "PCI address should not be empty");
        assert!(
            matches!(
                state,
                HostNvidiaVfioReadiness::BoundToNvidia
                    | HostNvidiaVfioReadiness::VfioBoundReady
                    | HostNvidiaVfioReadiness::VfioBoundDirtyGroup
            ),
            "unexpected per-device readiness state for {addr}: {state:?}"
        );
    }
}

#[test]
fn display_impl_is_meaningful() {
    let states = [
        HostNvidiaVfioReadiness::UnsupportedPlatform,
        HostNvidiaVfioReadiness::NoNvidiaDevice,
        HostNvidiaVfioReadiness::BoundToNvidia,
        HostNvidiaVfioReadiness::VfioBoundReady,
        HostNvidiaVfioReadiness::VfioBoundDirtyGroup,
        HostNvidiaVfioReadiness::MixedVfioAndOther,
    ];
    for state in &states {
        let msg = state.to_text();
        assert!(!msg.is_empty(), "text for {state:?} should not be empty");
    }
}

#[test]
fn readiness_texts_are_exact() {
    assert_eq!(
        HostNvidiaVfioReadiness::UnsupportedPlatform.to_text(),
        "VFIO passthrough is not supported on this platform (Linux required)"
    );
    assert_eq!(HostNvidiaVfioReadiness::NoNvidiaDevice.to_text(), "no NVIDIA PCI device found");
    assert_eq!(
        HostNvidiaVfioReadiness::MixedVfioAndOther.to_text(),
        "some NVIDIA devices are on vfio-pci while others use a different driver"
    );
}

#[test]
fn display_attached_detects_active_framebuffer() {
    let mut disk = Disk::new();
    mock_pci_device(&mut disk, GPU, "0x10de", None);
    mock_drm_card(&mut disk, "card0", GPU, &[("DP-1", "connected")]);
    assert!(disk.drive(|d| check_display_attached(&sysfs(), d, GPU)));
}

#[test]
fn display_attached_false_on_headless() {
    let mut disk = Disk::new();
    mock_pci_device(&mut disk, GPU, "0x10de", None);
    mock_drm_card(&mut disk, "card0", GPU, &[("DP-1", "disconnected")]);
    assert!(!disk.drive(|d| check_display_attached(&sysfs(), d, GPU)));
}

#[test]
fn display_attached_false_no_drm_card() {
    let mut disk = Disk::new();
    mock_pci_device(&mut disk, GPU, "0x10de", None);
    assert!(!disk.drive(|d| check_display_attached(&sysfs(), d, GPU)));
}

#[test]
fn display_attached_by_boot_vga_of_the_same_device_only() {
    let mut disk = Disk::new();
    mock_pci_device(&mut disk, GPU, "0x10de", None);
    mock_pci_device(&mut disk, "0000:42:00.0", "0x10de", None);
    mock_drm_card(&mut disk, "card0", GPU, &[]);
    disk.file(&at("sys/bus/pci/devices/0000:41:00.0/boot_vga"), "1\n");
    assert!(disk.drive(|d| check_display_attached(&sysfs(), d, GPU)));
    assert!(!disk.drive(|d| check_display_attached(&sysfs(), d, "0000:42:00.0")));
}

#[test]
fn iommu_check_fails_without_groups_dir() {
    let mut disk = Disk::new();
    mock_pci_device(&mut disk, GPU, "0x10de", None);
    assert!(!disk.drive(|d| check_iommu_enabled(&sysfs(), d, GPU)));
}

#[test]
fn iommu_check_passes_with_group() {
    let mut disk = Disk::new();
    mock_pci_device(&mut disk, GPU, "0x10de", None);
    mock_iommu_group(&mut disk, 15, &[GPU]);
    assert!(disk.drive(|d| check_iommu_enabled(&sysfs(), d, GPU)));
}

#[test]
fn vfio_modules_loaded_true() {
    let mut disk = Disk::new();
    mock_modules(&mut disk);
    assert!(disk.drive(|d| check_vfio_modules_loaded(&sysfs(), d)));
}

#[test]
fn vfio_modules_missing() {
    let mut disk = Disk::new();
    disk.dir(&at("sys/module/vfio_pci"));
    assert!(!disk.drive(|d| check_vfio_modules_loaded(&sysfs(), d)));
}

#[test]
fn permissions_writable() {
    let mut disk = Disk::new();
    mock_pci_device(&mut disk, GPU, "0x10de", None);
    disk.file(&at("sys/bus/pci/drivers/vfio-pci/bind"), "");
    assert!(disk.drive(|d| check_sysfs_permissions(&sysfs(), d, GPU)));
}

#[test]
fn permissions_readonly_driver_override() {
    let mut disk = Disk::new();
    mock_pci_device(&mut disk, GPU, "0x10de", None);
    disk.read_only.insert(at("sys/bus/pci/devices/0000:41:00.0/driver_override"));
    assert!(!disk.drive(|d| check_sysfs_permissions(&sysfs(), d, GPU)));
}

#[test]
fn permissions_readonly_bind() {
    let mut disk = Disk::new();
    mock_pci_device(&mut disk, GPU, "0x10de", None);
    disk.file(&at("sys/bus/pci/drivers/vfio-pci/bind"), "");
    disk.read_only.insert(at("sys/bus/pci/drivers/vfio-pci/bind"));
    assert!(!disk.drive(|d| check_sysfs_permissions(&sysfs(), d, GPU)));
}

#[test]
fn permissions_readonly_vfio_directory() {
    let mut disk = Disk::new();
    mock_pci_device(&mut disk, GPU, "0x10de", None);
    disk.file(&at("sys/bus/pci/drivers/vfio-pci/bind"), "");
    disk.read_only.insert(at("dev/vfio"));
    assert!(disk.drive(|d| check_sysfs_permissions(&sysfs(), d, GPU)));
    disk.dir(&at("dev/vfio"));
    assert!(!disk.drive(|d| check_sysfs_permissions(&sysfs(), d, GPU)));
    disk.read_only.clear();
    assert!(disk.drive(|d| check_sysfs_permissions(&sysfs(), d, GPU)));
}

#[test]
fn bind_gpu_writes_correct_sysfs_paths() {
    let mut disk = Disk::new();
    mock_bindable_gpu(&mut disk, GPU);
    disk.drive(|d| bind_gpu_to_vfio(&sysfs(), d, GPU)).unwrap();
    assert_eq!(disk.read(&at("sys/bus/pci/drivers/nvidia/unbind")).unwrap(), GPU);
    assert_eq!(
        disk.read(&at("sys/bus/pci/devices/0000:41:00.0/driver_override")).unwrap(),
        "vfio-pci"
    );
    assert_eq!(disk.read(&at("sys/bus/pci/drivers/vfio-pci/bind")).unwrap(), GPU);
}

#[test]
fn bind_returns_original_driver() {
    let mut disk = Disk::new();
    mock_bindable_gpu(&mut disk, GPU);
    let result = disk.drive(|d| bind_gpu_to_vfio(&sysfs(), d, GPU)).unwrap();
    assert_eq!(result, "nvidia");
}

#[test]
fn bind_noop_when_already_vfio() {
    let mut disk = Disk::new();
    mock_pci_device(&mut disk, GPU, "0x10de", Some("vfio-pci"));
    disk.file(&at("sys/bus/pci/drivers/vfio-pci/bind"), "");
    disk.file(&at("sys/bus/pci/drivers/nvidia/unbind"), "");
    let result = disk.drive(|d| bind_gpu_to_vfio(&sysfs(), d, GPU)).unwrap();
    assert_eq!(result, "vfio-pci");
    assert_eq!(
        disk.read(&at("sys/bus/pci/drivers/nvidia/unbind")).unwrap(),
        "",
        "nvidia unbind should NOT have been written"
    );
    assert!(disk.writes.is_empty());
}

#[test]
fn failed_bind_hands_the_device_back() {
    let mut disk = Disk::new();
    mock_bindable_gpu(&mut disk, GPU);
    disk.file(&at("sys/bus/pci/drivers/nvidia/bind"), "");
    disk.refused.insert(at("sys/bus/pci/drivers/vfio-pci/bind"), FaultKind::PermissionDenied);
    let err = disk.drive(|d| bind_gpu_to_vfio(&sysfs(), d, GPU)).unwrap_err();
    assert_eq!(err.kind, FaultKind::PermissionDenied);
    assert_eq!(
        err.text(),
        "Failed to bind to vfio-pci at /mock/sys/bus/pci/drivers/vfio-pci/bind \
         — run as root — is the vfio-pci module loaded?"
    );
    assert_eq!(disk.read(&at("sys/bus/pci/devices/0000:41:00.0/driver_override")).unwrap(), "");
    assert_eq!(disk.read(&at("sys/bus/pci/drivers/nvidia/bind")).unwrap(), GPU);
}

#[test]
fn failures_keep_their_kind() {
    let path = at("sys/bus/pci/devices/0000:41:00.0/driver/unbind");
    for kind in [FaultKind::ResourceBusy, FaultKind::NotADirectory, FaultKind::Uncategorized] {
        let mut disk = Disk::new();
        mock_bindable_gpu(&mut disk, GPU);
        disk.refused.insert(path.clone(), kind);
        let err = disk.drive(|d| bind_gpu_to_vfio(&sysfs(), d, GPU)).unwrap_err();
        assert_eq!(err.kind, kind);
        disk.refused.insert(at("sys/bus/pci/devices"), kind);
        let err = prepare(&mut disk, None).unwrap_err();
        assert_eq!(err.kind, kind);
        assert_eq!(err.text(), "cannot read /mock/sys/bus/pci/devices: refused");
    }
}

#[test]
fn failed_override_hands_the_device_back() {
    let mut disk = Disk::new();
    mock_bindable_gpu(&mut disk, GPU);
    disk.file(&at("sys/bus/pci/drivers/nvidia/bind"), "");
    let path = at("sys/bus/pci/devices/0000:41:00.0/driver_override");
    disk.refused.insert(path.clone(), FaultKind::Other);
    let err = disk.drive(|d| bind_gpu_to_vfio(&sysfs(), d, GPU)).unwrap_err();
    assert_eq!(err.text(), format!("Failed to write driver_override at {path}"));
    assert_eq!(disk.read(&at("sys/bus/pci/drivers/nvidia/bind")).unwrap(), GPU);
    assert_eq!(disk.read(&at("sys/bus/pci/drivers/vfio-pci/bind")).unwrap(), "");
}

#[test]
fn failed_unbind_stops_the_bind() {
    let mut disk = Disk::new();
    mock_bindable_gpu(&mut disk, GPU);
    let path = at("sys/bus/pci/devices/0000:41:00.0/driver/unbind");
    disk.refused.insert(path.clone(), FaultKind::PermissionDenied);
    let err = disk.drive(|d| bind_gpu_to_vfio(&sysfs(), d, GPU)).unwrap_err();
    assert_eq!(err.text(), format!("Failed to unbind device at {path} — run as root"));
    assert_eq!(disk.writes.len(), 1);
}

#[test]
fn rebind_clears_driver_override() {
    let mut disk = Disk::new();
    mock_bindable_gpu(&mut disk, GPU);
    disk.drive(|d| bind_gpu_to_vfio(&sysfs(), d, GPU)).unwrap();
    mock_moved_to_vfio(&mut disk, GPU);
    disk.drive(|d| rebind_gpu_to_original(&sysfs(), d, GPU, "nvidia")).unwrap();
    assert_eq!(disk.read(&at("sys/bus/pci/devices/0000:41:00.0/driver_override")).unwrap(), "");
}

#[test]
fn rebind_writes_to_original_driver_bind() {
    let mut disk = Disk::new();
    mock_bindable_gpu(&mut disk, GPU);
    disk.drive(|d| bind_gpu_to_vfio(&sysfs(), d, GPU)).unwrap();
    mock_moved_to_vfio(&mut disk, GPU);
    disk.drive(|d| rebind_gpu_to_original(&sysfs(), d, GPU, "nvidia")).unwrap();
    assert_eq!(disk.read(&at("sys/bus/pci/drivers/nvidia/bind")).unwrap(), GPU);
}

#[test]
fn rebind_without_a_driver_rescans_the_bus() {
    let mut disk = Disk::new();
    mock_bindable_gpu(&mut disk, GPU);
    mock_moved_to_vfio(&mut disk, GPU);
    disk.drive(|d| rebind_gpu_to_original(&sysfs(), d, GPU, "none")).unwrap();
    assert_eq!(disk.read(&at("sys/bus/pci/rescan")).unwrap(), "1");
    assert_eq!(disk.read(&at("sys/bus/pci/drivers/nvidia/bind")).unwrap(), "");
}

#[test]
fn rebind_reports_each_failing_step() {
    let steps = [
        ("sys/bus/pci/devices/0000:41:00.0/driver/unbind", "Failed to unbind device at "),
        ("sys/bus/pci/devices/0000:41:00.0/driver_override", "Failed to clear driver_override at "),
        ("sys/bus/pci/drivers/nvidia/bind", "Failed to rebind to nvidia at "),
    ];
    for (path, message) in steps {
        let mut disk = Disk::new();
        mock_bindable_gpu(&mut disk, GPU);
        mock_moved_to_vfio(&mut disk, GPU);
        disk.refused.insert(at(path), FaultKind::Other);
        let err = disk.drive(|d| rebind_gpu_to_original(&sysfs(), d, GPU, "nvidia")).unwrap_err();
        assert_eq!(err.text(), format!("{message}{}", at(path)));
    }
}

#[test]
fn iommu_peers_listed_correctly() {
    let mut disk = Disk::new();
    mock_pci_device(&mut disk, "0000:41:00.0", "0x10de", None);
    mock_pci_device(&mut disk, "0000:41:00.1", "0x10de", None);
    mock_iommu_group(&mut disk, 15, &["0000:41:00.0", "0000:41:00.1"]);
    let peers = disk.drive(|d| iommu_group_peers(&sysfs(), d, GPU)).unwrap();
    assert_eq!(peers, vec!["0000:41:00.1"]);
}

#[test]
fn iommu_peers_without_a_group_are_none() {
    let mut disk = Disk::new();
    mock_pci_device(&mut disk, GPU, "0x10de", None);
    let peers = disk.drive(|d| iommu_group_peers(&sysfs(), d, GPU)).unwrap();
    assert!(peers.is_empty());
    let group = at("sys/bus/pci/devices/0000:41:00.0/iommu_group/devices");
    disk.refused.insert(group, FaultKind::PermissionDenied);
    let err = disk.drive(|d| iommu_group_peers(&sysfs(), d, GPU)).unwrap_err();
    assert_eq!(err.kind, FaultKind::PermissionDenied);
    assert!(!disk.drive(|d| is_iommu_group_clean(&sysfs(), d, GPU)));
}

fn mock_gpu_with_peer(disk: &mut Disk) {
    mock_bindable_gpu(disk, "0000:41:00.0");
    mock_pci_device(disk, "0000:41:00.1", "0x10de", Some("nvidia"));
    disk.file(&at("sys/bus/pci/drivers/nvidia/unbind"), "");
    mock_iommu_group(disk, 15, &["0000:41:00.0", "0000:41:00.1"]);
}

#[test]
fn iommu_peers_bound_together() {
    let mut disk = Disk::new();
    mock_gpu_with_peer(&mut disk);
    let restore = disk.drive(|d| bind_iommu_group_peers(&sysfs(), d, GPU)).unwrap();
    assert_eq!(restore, vec![("0000:41:00.1".to_string(), "nvidia".to_string())]);
    assert_eq!(
        disk.read(&at("sys/bus/pci/devices/0000:41:00.1/driver_override")).unwrap(),
        "vfio-pci"
    );
}

#[test]
fn peer_restore_rebinds_to_original() {
    let mut disk = Disk::new();
    mock_gpu_with_peer(&mut disk);
    let restore = disk.drive(|d| bind_iommu_group_peers(&sysfs(), d, GPU)).unwrap();
    mock_moved_to_vfio(&mut disk, "0000:41:00.1");
    disk.drive(|d| rebind_iommu_group_peers(&sysfs(), d, &restore)).unwrap();
    assert_eq!(disk.read(&at("sys/bus/pci/devices/0000:41:00.1/driver_override")).unwrap(), "");
}

#[test]
fn failed_peer_rolls_the_group_back() {
    let mut disk = Disk::new();
    mock_gpu_with_peer(&mut disk);
    mock_modules(&mut disk);
    mock_pci_device(&mut disk, "0000:41:00.2", "0x10de", Some("snd"));
    mock_iommu_group(&mut disk, 15, &["0000:41:00.2"]);
    disk.file(&at("sys/bus/pci/drivers/nvidia/bind"), "");
    let unbind = at("sys/bus/pci/devices/0000:41:00.2/driver/unbind");
    disk.refused.insert(unbind.clone(), FaultKind::Other);
    let err = prepare(&mut disk, Some(GPU)).unwrap_err();
    assert_eq!(
        err.text(),
        format!(
            "Failed to bind IOMMU peer 0000:41:00.2: Failed to unbind device at {unbind}. \
             Rolled back 1 peer(s)."
        )
    );
    let handed_back: Vec<&str> = disk
        .writes
        .iter()
        .filter(|(path, _, _)| path.ends_with("drivers/nvidia/bind"))
        .map(|(_, data, _)| data.as_str())
        .collect();
    assert_eq!(handed_back, vec!["0000:41:00.1", "0000:41:00.0"]);
}

#[test]
fn peer_restore_tries_all_and_reports_the_first_failure() {
    let mut disk = Disk::new();
    mock_bindable_gpu(&mut disk, "0000:41:00.1");
    mock_bindable_gpu(&mut disk, "0000:41:00.2");
    disk.file(&at("sys/bus/pci/drivers/nvidia/bind"), "");
    let first = at("sys/bus/pci/devices/0000:41:00.1/driver_override");
    disk.refused.insert(first.clone(), FaultKind::Other);
    let peers = vec![
        ("0000:41:00.1".to_string(), "nvidia".to_string()),
        ("0000:41:00.2".to_string(), "nvidia".to_string()),
    ];
    let err = disk.drive(|d| rebind_iommu_group_peers(&sysfs(), d, &peers)).unwrap_err();
    assert_eq!(err.text(), format!("Failed to clear driver_override at {first}"));
    assert_eq!(disk.read(&at("sys/bus/pci/drivers/nvidia/bind")).unwrap(), "0000:41:00.2");
}

#[test]
fn auto_prefers_already_vfio() {
    let mut disk = Disk::new();
    mock_multi_gpu_host(&mut disk);
    let state = prepare(&mut disk, None).unwrap();
    assert_eq!(state.pci_addr, "0000:43:00.0");
    assert!(!state.did_bind);
    assert!(disk.writes.is_empty());
}

#[test]
fn auto_selects_idle_gpu_when_no_vfio() {
    let mut disk = Disk::new();
    mock_pci_device(&mut disk, "0000:41:00.0", "0x10de", Some("nvidia"));
    mock_drm_card(&mut disk, "card0", "0000:41:00.0", &[("DP-1", "connected")]);
    mock_iommu_group(&mut disk, 15, &["0000:41:00.0"]);
    mock_pci_device(&mut disk, "0000:42:00.0", "0x10de", Some("nvidia"));
    mock_iommu_group(&mut disk, 16, &["0000:42:00.0"]);
    disk.file(&at("sys/bus/pci/drivers/nvidia/unbind"), "");
    disk.file(&at("sys/bus/pci/drivers/vfio-pci/bind"), "");
    mock_modules(&mut disk);
    let state = prepare(&mut disk, None).unwrap();
    assert_eq!(state.pci_addr, "0000:42:00.0");
    assert!(state.did_bind);
}

#[test]
fn auto_fails_when_all_blocked() {
    let mut disk = Disk::new();
    mock_pci_device(&mut disk, "0000:41:00.0", "0x10de", Some("nvidia"));
    mock_drm_card(&mut disk, "card0", "0000:41:00.0", &[("DP-1", "connected")]);
    mock_iommu_group(&mut disk, 15, &["0000:41:00.0"]);
    mock_pci_device(&mut disk, "0000:42:00.0", "0x10de", Some("nvidia"));
    mock_drm_card(&mut disk, "card1", "0000:42:00.0", &[("HDMI-1", "connected")]);
    mock_iommu_group(&mut disk, 16, &["0000:42:00.0"]);
    mock_modules(&mut disk);
    let msg = prepare(&mut disk, None).unwrap_err().text();
    assert!(msg.contains("display"), "error should mention display: {msg}");
    assert!(msg.contains("0000:41:00.0"), "error should list first GPU: {msg}");
    assert!(msg.contains("0000:42:00.0"), "error should list second GPU: {msg}");
    assert_eq!(
        msg,
        "GPU passthrough blocked by safety checks.\n\n  Detected devices:\n    \
         0000:41:00.0: has active display outputs (DRM framebuffer attached)\n    \
         0000:42:00.0: has active display outputs (DRM framebuffer attached)\n\n  \
         No GPU is available for passthrough. To resolve:\n    \
         - 0000:41:00.0: detach the display or use a different GPU for the monitor\n    \
         - 0000:42:00.0: detach the display or use a different GPU for the monitor"
    );
    assert!(disk.writes.is_empty());
}

#[test]
fn auto_fails_on_empty_host() {
    let mut disk = Disk::new();
    disk.dir(&at("sys/bus/pci/devices"));
    let err = prepare(&mut disk, None).unwrap_err();
    assert!(err.text().contains("no NVIDIA PCI device found"), "unexpected error: {err:?}");
}

#[test]
fn auto_fails_where_devices_cannot_be_listed() {
    let mut disk = Disk::new();
    let err = prepare(&mut disk, None).unwrap_err();
    assert_eq!(err.kind, FaultKind::NotFound);
    assert_eq!(
        err.text(),
        "cannot read /mock/sys/bus/pci/devices: No such file or directory"
    );
}

#[test]
fn auto_names_the_reason_of_every_check() {
    let mut disk = Disk::new();
    mock_pci_device(&mut disk, GPU, "0x10de", Some("vfio-pci"));
    mock_pci_device(&mut disk, "0000:41:00.1", "0x10de", Some("snd"));
    mock_iommu_group(&mut disk, 15, &[GPU, "0000:41:00.1"]);
    disk.file(&at("sys/bus/pci/devices/0000:41:00.1/class"), "0x040300");
    let msg = prepare(&mut disk, None).unwrap_err().text();
    assert!(
        msg.contains("    0000:41:00.0: IOMMU group not clean (non-VFIO peers: 0000:41:00.1)\n"),
        "{msg}"
    );
    assert!(
        msg.ends_with(
            "\n    - 0000:41:00.0: unbind the other devices of its IOMMU group and bind them to \
             vfio-pci, then retry"
        ),
        "{msg}"
    );
    let group = at("sys/bus/pci/devices/0000:41:00.0/iommu_group/devices");
    disk.refused.insert(group, FaultKind::PermissionDenied);
    let msg = prepare(&mut disk, None).unwrap_err().text();
    assert!(msg.contains("    0000:41:00.0: IOMMU group not clean\n"), "{msg}");

    let mut disk = Disk::new();
    mock_pci_device(&mut disk, GPU, "0x10de", Some("nvidia"));
    let msg = prepare(&mut disk, None).unwrap_err().text();
    assert!(msg.contains("    0000:41:00.0: IOMMU is not enabled\n"), "{msg}");
    assert!(
        msg.ends_with(
            "\n    - 0000:41:00.0: add intel_iommu=on or amd_iommu=on to kernel cmdline"
        ),
        "{msg}"
    );
    mock_iommu_group(&mut disk, 15, &[GPU]);
    let msg = prepare(&mut disk, None).unwrap_err().text();
    assert!(msg.contains("    0000:41:00.0: vfio-pci kernel module not loaded\n"), "{msg}");
    assert!(msg.ends_with("\n    - 0000:41:00.0: run: sudo modprobe vfio-pci"), "{msg}");
    mock_modules(&mut disk);
    let msg = prepare(&mut disk, None).unwrap_err().text();
    assert!(msg.contains("    0000:41:00.0: insufficient permissions\n"), "{msg}");
    assert!(msg.ends_with("\n    - 0000:41:00.0: run as root or with CAP_NET_ADMIN"), "{msg}");
    disk.file("/proc/77/comm", "python3\n");
    disk.link("/proc/77/fd/5", "/dev/nvidia0");
    disk.file("/proc/78/comm", "idle\n");
    disk.link("/proc/78/fd/5", "/dev/null");
    disk.dir("/proc/self");
    let msg = prepare(&mut disk, None).unwrap_err().text();
    assert!(msg.contains("    0000:41:00.0: in use by PIDs: 77 (python3)\n"), "{msg}");
    assert!(
        msg.ends_with("\n    - 0000:41:00.0: stop processes using the GPU, then retry"),
        "{msg}"
    );
    assert!(disk.writes.is_empty());
}

#[test]
fn specific_bdf_binds_target() {
    let mut disk = Disk::new();
    mock_bindable_gpu(&mut disk, GPU);
    mock_modules(&mut disk);
    let state = prepare(&mut disk, Some(GPU)).unwrap();
    assert_eq!(state.pci_addr, GPU);
    assert!(state.did_bind);
    assert_eq!(state.original_driver, "nvidia");
}

#[test]
fn specific_bdf_validates_format() {
    let mut disk = Disk::new();
    let err = prepare(&mut disk, Some("invalid")).unwrap_err();
    assert!(err.text().contains("invalid PCI address"), "unexpected error: {err:?}");
}

#[test]
fn specific_bdf_fails_display_check() {
    let mut disk = Disk::new();
    mock_pci_device(&mut disk, GPU, "0x10de", Some("nvidia"));
    mock_drm_card(&mut disk, "card0", GPU, &[("DP-1", "connected")]);
    let err = prepare(&mut disk, Some(GPU)).unwrap_err();
    assert!(err.text().contains("display"), "error should mention display: {err:?}");
    assert_eq!(
        err.text(),
        "GPU 0000:41:00.0 has active display outputs — \
         cannot passthrough without losing host display"
    );
}

#[test]
fn specific_bdf_fails_iommu_check() {
    let mut disk = Disk::new();
    mock_pci_device(&mut disk, GPU, "0x10de", Some("nvidia"));
    let err = prepare(&mut disk, Some(GPU)).unwrap_err();
    assert!(err.text().contains("IOMMU"), "error should mention IOMMU: {err:?}");
    assert_eq!(
        err.text(),
        "IOMMU is not enabled — add intel_iommu=on or amd_iommu=on to kernel cmdline"
    );
}

#[test]
fn specific_bdf_names_what_is_wrong_with_the_device() {
    let mut disk = Disk::new();
    let err = prepare(&mut disk, Some(GPU)).unwrap_err();
    assert_eq!(err.kind, FaultKind::NotFound);
    assert_eq!(err.text(), "PCI device 0000:41:00.0 not found in sysfs");

    mock_pci_device(&mut disk, GPU, " 0X8086\n", None);
    let err = prepare(&mut disk, Some(GPU)).unwrap_err();
    assert_eq!(err.kind, FaultKind::InvalidInput);
    assert_eq!(err.text(), "PCI device 0000:41:00.0 is not an NVIDIA device (vendor: 0x8086)");

    mock_pci_device(&mut disk, GPU, "0x10DE\n", None);
    disk.file(&at("sys/bus/pci/devices/0000:41:00.0/class"), "0x040300\n");
    let err = prepare(&mut disk, Some(GPU)).unwrap_err();
    assert_eq!(err.text(), "PCI device 0000:41:00.0 is not a GPU (class: 0x040300)");
}

#[test]
fn specific_bdf_names_the_failing_check() {
    let mut disk = Disk::new();
    mock_pci_device(&mut disk, GPU, "0x10de", Some("nvidia"));
    mock_iommu_group(&mut disk, 15, &[GPU]);
    let err = prepare(&mut disk, Some(GPU)).unwrap_err();
    assert_eq!(err.text(), "vfio-pci kernel module not loaded — run: sudo modprobe vfio-pci");
    mock_modules(&mut disk);
    let err = prepare(&mut disk, Some(GPU)).unwrap_err();
    assert_eq!(err.kind, FaultKind::PermissionDenied);
    assert_eq!(err.text(), "insufficient permissions — run as root or with CAP_NET_ADMIN");
    disk.link("/proc/12/fd/0", "/dev/nvidiactl");
    disk.link("/proc/15/fd/3", "/dev/nvidia-uvm");
    disk.file("/proc/15/comm", "smi\n");
    let err = prepare(&mut disk, Some(GPU)).unwrap_err();
    assert_eq!(
        err.text(),
        "GPU 0000:41:00.0 is in use by PIDs: 12 (), 15 (smi) — stop these processes first"
    );
    assert!(disk.writes.is_empty());
}

#[test]
fn specific_bdf_that_is_ready_is_left_alone() {
    let mut disk = Disk::new();
    mock_pci_device(&mut disk, GPU, "0x10de", Some("vfio-pci"));
    mock_iommu_group(&mut disk, 15, &[GPU]);
    let state = prepare(&mut disk, Some(GPU)).unwrap();
    assert!(!state.did_bind);
    assert_eq!(state.original_driver, "vfio-pci");
    assert!(disk.writes.is_empty());
}

#[test]
fn specific_bdf_on_vfio_takes_its_peers_along() {
    let mut disk = Disk::new();
    mock_gpu_with_peer(&mut disk);
    mock_modules(&mut disk);
    mock_moved_to_vfio(&mut disk, GPU);
    let state = prepare(&mut disk, Some(GPU)).unwrap();
    assert!(!state.did_bind);
    assert_eq!(state.original_driver, "vfio-pci");
    assert_eq!(state.peer_binds, vec![("0000:41:00.1".to_string(), "nvidia".to_string())]);
    assert_eq!(disk.read(&at("sys/bus/pci/drivers/vfio-pci/bind")).unwrap(), "0000:41:00.1");

    mock_moved_to_vfio(&mut disk, "0000:41:00.1");
    disk.writes.clear();
    disk.drive(|d| state.restore_with_sysfs(&sysfs(), d)).unwrap();
    assert_eq!(disk.read(&at("sys/bus/pci/drivers/nvidia/bind")).unwrap(), "0000:41:00.1");
    assert_eq!(disk.read(&at("sys/bus/pci/devices/0000:41:00.1/driver_override")).unwrap(), "");
    assert!(disk.writes.iter().all(|(path, data, _)| !path.contains(GPU) && data != GPU));
}

/// A host that moves devices as the kernel does.
fn kernel_moves(disk: &mut Disk) {
    let writes: Vec<(String, String, bool)> = disk.writes.drain(..).collect();
    for (path, data, _) in writes {
        if let Some(dev) = path.strip_suffix("/driver/unbind") {
            disk.nodes.remove(&format!("{dev}/driver"));
        } else if let Some(driver) = path.strip_suffix("/bind") {
            let dev = format!("/sys/bus/pci/devices/{data}");
            disk.link(&format!("{dev}/driver"), driver);
        }
    }
}

/// Runs a procedure on the live host, with the kernel moving devices between requests.
fn drive_kernel<T, F>(disk: &mut Disk, procedure: F) -> T
where
    F: Fn(&mut SysfsDialogue) -> Option<T>,
{
    let mut dialogue = Dialogue::new();
    loop {
        if let Some(result) = procedure(&mut dialogue) {
            return result;
        }
        let reply = disk.perform(dialogue.pending().unwrap());
        kernel_moves(disk);
        dialogue.record(reply);
        dialogue.rewind();
    }
}

fn driver_links(disk: &Disk) -> Vec<(String, String)> {
    let mut links = Vec::new();
    for (path, node) in &disk.nodes {
        if let (true, Node::Link(target)) = (path.ends_with("/driver"), node) {
            links.push((path.clone(), target.clone()));
        }
    }
    links
}

#[test]
fn restore_leaves_every_device_where_it_was() {
    let mut disk = Disk::new();
    for (addr, driver, class) in [
        ("0000:41:00.0", "nvidia", "0x030000"),
        ("0000:41:00.1", "snd_hda_intel", "0x040300"),
        ("0000:41:00.2", "vfio-pci", "0x0c0330"),
        ("0000:50:00.0", "e1000", "0x020000"),
    ] {
        let dev = format!("/sys/bus/pci/devices/{addr}");
        disk.file(&format!("{dev}/vendor"), "0x10de\n");
        disk.file(&format!("{dev}/class"), class);
        disk.file(&format!("{dev}/driver_override"), "");
        for attribute in ["bind", "unbind"] {
            disk.file(&format!("/sys/bus/pci/drivers/{driver}/{attribute}"), "");
        }
        disk.link(&format!("{dev}/driver"), &format!("/sys/bus/pci/drivers/{driver}"));
        if addr.starts_with("0000:41") {
            disk.link(&format!("/sys/kernel/iommu_groups/7/devices/{addr}"), &dev);
            disk.link(&format!("{dev}/iommu_group"), "/sys/kernel/iommu_groups/7");
        }
    }
    disk.file("/sys/bus/pci/devices/0000:50:00.0/vendor", "0x8086\n");
    disk.dir("/sys/module/vfio_pci");
    disk.dir("/sys/module/vfio_iommu_type1");
    let before = driver_links(&disk);

    let state = drive_kernel(&mut disk, |d| prepare_gpu_for_passthrough(d, None)).unwrap();
    assert_eq!(state.pci_addr, GPU);
    assert!(state.did_bind);
    assert_eq!(state.peer_binds, vec![("0000:41:00.1".to_string(), "snd_hda_intel".to_string())]);
    let found = disk.drive(probe_host_nvidia_vfio_readiness);
    assert_eq!(found[0], (GPU.to_string(), HostNvidiaVfioReadiness::VfioBoundReady));

    drive_kernel(&mut disk, |d| state.restore(d)).unwrap();
    assert_eq!(driver_links(&disk), before);
    for addr in ["0000:41:00.0", "0000:41:00.1", "0000:41:00.2", "0000:50:00.0"] {
        let path = format!("/sys/bus/pci/devices/{addr}/driver_override");
        assert_eq!(disk.read(&path).unwrap(), "");
    }
    let found = disk.drive(probe_host_nvidia_vfio_readiness);
    assert_eq!(found[0], (GPU.to_string(), HostNvidiaVfioReadiness::BoundToNvidia));
}

#[test]
fn restore_round_trips() {
    let mut disk = Disk::new();
    mock_bindable_gpu(&mut disk, GPU);
    mock_modules(&mut disk);
    let state = prepare(&mut disk, Some(GPU)).unwrap();
    assert!(state.did_bind);
    assert_eq!(state.original_driver, "nvidia");
    mock_moved_to_vfio(&mut disk, GPU);
    disk.drive(|d| state.restore_with_sysfs(&sysfs(), d)).unwrap();
    assert_eq!(disk.read(&at("sys/bus/pci/devices/0000:41:00.0/driver_override")).unwrap(), "");
    assert_eq!(disk.read(&at("sys/bus/pci/drivers/nvidia/bind")).unwrap(), GPU);
}

#[test]
fn restore_noop_when_did_not_bind() {
    let state = GpuBindState {
        pci_addr: "0000:43:00.0".to_string(),
        original_driver: "vfio-pci".to_string(),
        peer_binds: vec![],
        did_bind: false,
    };
    let mut disk = Disk::new();
    disk.drive(|d| state.restore_with_sysfs(&sysfs(), d)).unwrap();
    assert_eq!(disk.requests, 0);
}

#[test]
fn guard_has_pci_addr() {
    let guard = GpuBindGuard::new(bound_state());
    assert_eq!(guard.pci_addr(), Some("0000:41:00.0"));
}

#[test]
fn guard_disarm_returns_state() {
    let mut guard = GpuBindGuard::new(bound_state());
    let taken = guard.disarm();
    assert!(taken.is_some());
    assert_eq!(guard.pci_addr(), None);
}

#[test]
fn guard_disarm_prevents_double_restore() {
    let mut guard = GpuBindGuard::new(bound_state());
    let _ = guard.disarm();
    let second = guard.disarm();
    assert!(second.is_none());
    let mut disk = Disk::new();
    disk.drive(|d| guard.release(d)).unwrap();
    assert_eq!(disk.requests, 0);
}

#[test]
fn guard_drop_noop_when_did_not_bind() {
    let mut state = bound_state();
    state.did_bind = false;
    let guard = GpuBindGuard::new(state);
    let mut disk = Disk::new();
    disk.drive(|d| guard.release(d)).unwrap();
    assert_eq!(disk.requests, 0);
}

#[test]
fn guard_release_restores_on_the_live_host_under_a_time_limit() {
    let mut disk = Disk::new();
    let dev = "/sys/bus/pci/devices/0000:41:00.0";
    disk.link(&format!("{dev}/driver"), "/sys/bus/pci/drivers/vfio-pci");
    disk.file("/sys/bus/pci/drivers/vfio-pci/unbind", "");
    disk.file(&format!("{dev}/driver_override"), "vfio-pci");
    disk.file("/sys/bus/pci/drivers/nvidia/bind", "");
    let guard = GpuBindGuard::new(bound_state());
    disk.drive(|d| guard.release(d)).unwrap();
    assert_eq!(disk.read("/sys/bus/pci/drivers/nvidia/bind").unwrap(), GPU);
    assert_eq!(disk.writes.len(), 3);
    assert!(disk.writes.iter().all(|(_, _, guarded)| *guarded));
}

#[test]
fn prepare_on_the_live_host_reads_below_the_root() {
    let mut disk = Disk::new();
    let err = disk.drive(|d| prepare_gpu_for_passthrough(d, None)).unwrap_err();
    assert_eq!(err.text(), "cannot read /sys/bus/pci/devices: No such file or directory");
}

#[test]
fn pci_addresses_are_checked_to_the_letter() {
    for good in ["0000:41:00.0", "ffff:FF:aB.9"] {
        assert!(validate_pci_addr(good).is_ok());
    }
    for bad in ["", "0000:41:00", "0000:41:00.a", "000g:41:00.0", "0000-41:00.0", "0000:41:00.00"] {
        let err = validate_pci_addr(bad).unwrap_err();
        assert_eq!(
            err.text(),
            format!("invalid PCI address '{bad}': expected DDDD:BB:DD.F format")
        );
    }
}

#[test]
fn processes_without_proc_are_a_failure_and_without_permission_none() {
    let mut disk = Disk::new();
    assert!(disk.drive(check_active_gpu_processes).is_err());
    disk.refused.insert("/proc".to_string(), FaultKind::PermissionDenied);
    assert!(disk.drive(check_active_gpu_processes).unwrap().is_empty());
}

#[test]
fn current_driver_is_the_last_name_of_the_link() {
    let mut disk = Disk::new();
    mock_pci_device(&mut disk, GPU, "0x10de", Some("nvidia"));
    let driver = disk.drive(|d| current_driver(&sysfs(), d, GPU));
    assert_eq!(driver, Some("nvidia".to_string()));
    assert_eq!(disk.drive(|d| current_driver(&sysfs(), d, "0000:42:00.0")), None);
}

#[test]
fn probe_tells_ready_from_dirty_groups() {
    let mut disk = Disk::new();
    for (addr, group) in [("0000:41:00.0", "1"), ("0000:42:00.0", "2"), ("0000:42:00.1", "2")] {
        let dev = format!("/sys/bus/pci/devices/{addr}");
        disk.file(&format!("{dev}/vendor"), "0x10de\n");
        let driver = if addr == "0000:42:00.1" { "nvidia" } else { "vfio-pci" };
        disk.dir(&format!("/sys/bus/pci/drivers/{driver}"));
        disk.link(&format!("{dev}/driver"), &format!("/sys/bus/pci/drivers/{driver}"));
        let members = format!("/sys/kernel/iommu_groups/{group}/devices");
        disk.link(&format!("{members}/{addr}"), &dev);
        disk.link(&format!("{dev}/iommu_group"), &format!("/sys/kernel/iommu_groups/{group}"));
    }
    let found = disk.drive(probe_host_nvidia_vfio_readiness);
    assert_eq!(
        found,
        vec![
            ("0000:41:00.0".to_string(), HostNvidiaVfioReadiness::VfioBoundReady),
            ("0000:42:00.0".to_string(), HostNvidiaVfioReadiness::VfioBoundDirtyGroup),
            ("0000:42:00.1".to_string(), HostNvidiaVfioReadiness::BoundToNvidia),
        ]
    );
    let gate = |d: &mut SysfsDialogue| {
        nvidia_gpu_available_for_vm_passthrough(Some("1"), Some("/runtime"), d)
    };
    assert!(!disk.drive(gate));
    disk.file("/runtime/cloud-hypervisor", "");
    assert!(disk.drive(gate));
}
