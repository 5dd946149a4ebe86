//! Survey of the NVIDIA devices of a host, without changing anything.

use vstd::prelude::*;

use crate::gpu::checks::{is_vfio, linked_driver, name_view, VFIO_DRIVER};
use crate::paths::{file_name, join_path, joined_path};
use crate::sysfs::{
    answer, ask, SysfsDialogue, SysfsReplyView, SysfsRequest, SysfsRequestView, SysfsTranscript,
};
use crate::text::{lowercased, same, texts, trim, trimmed};

verus! {

/// PCI vendor number of NVIDIA, as sysfs shows it.
pub const NVIDIA_VENDOR_ID: &'static str = "0x10de";

/// Where a live host lists its PCI devices.
pub const PCI_DEVICES: &'static str = "/sys/bus/pci/devices";

/// How ready an NVIDIA device is to be handed to a virtual machine.
#[derive(Debug, Clone, Copy, PartialEq, Eq, Structural)]
pub enum HostNvidiaVfioReadiness {
    /// The platform has no passthrough.
    UnsupportedPlatform,
    /// The host has no NVIDIA device.
    NoNvidiaDevice,
    /// The device is on another driver than the passthrough driver.
    BoundToNvidia,
    /// The device and all of its IOMMU group are on the passthrough driver.
    VfioBoundReady,
    /// The device is on the passthrough driver, but not all of its group are.
    VfioBoundDirtyGroup,
    /// Some devices are on the passthrough driver while others are not.
    MixedVfioAndOther,
}

impl HostNvidiaVfioReadiness {
    pub open spec fn message(self) -> Seq<char> {
        match self {
            HostNvidiaVfioReadiness::UnsupportedPlatform =>
                "VFIO passthrough is not supported on this platform (Linux required)"@,
            HostNvidiaVfioReadiness::NoNvidiaDevice => "no NVIDIA PCI device found"@,
            HostNvidiaVfioReadiness::BoundToNvidia =>
                "NVIDIA device found but not bound to vfio-pci driver"@,
            HostNvidiaVfioReadiness::VfioBoundReady =>
                "NVIDIA device bound to vfio-pci and IOMMU group is clean"@,
            HostNvidiaVfioReadiness::VfioBoundDirtyGroup =>
                "NVIDIA device bound to vfio-pci but IOMMU group contains non-VFIO devices"@,
            HostNvidiaVfioReadiness::MixedVfioAndOther =>
                "some NVIDIA devices are on vfio-pci while others use a different driver"@,
        }
    }

    /// The state in words.
    pub fn to_text(&self) -> (s: String)
        ensures
            s@ == self.message(),
            s@ == match self {
                HostNvidiaVfioReadiness::UnsupportedPlatform =>
                    "VFIO passthrough is not supported on this platform (Linux required)"@,
                HostNvidiaVfioReadiness::NoNvidiaDevice => "no NVIDIA PCI device found"@,
                HostNvidiaVfioReadiness::BoundToNvidia =>
                    "NVIDIA device found but not bound to vfio-pci driver"@,
                HostNvidiaVfioReadiness::VfioBoundReady =>
                    "NVIDIA device bound to vfio-pci and IOMMU group is clean"@,
                HostNvidiaVfioReadiness::VfioBoundDirtyGroup =>
                    "NVIDIA device bound to vfio-pci but IOMMU group contains non-VFIO devices"@,
                HostNvidiaVfioReadiness::MixedVfioAndOther =>
                    "some NVIDIA devices are on vfio-pci while others use a different driver"@,
            },
    {
        let words = match self {
            HostNvidiaVfioReadiness::UnsupportedPlatform =>
                "VFIO passthrough is not supported on this platform (Linux required)",
            HostNvidiaVfioReadiness::NoNvidiaDevice => "no NVIDIA PCI device found",
            HostNvidiaVfioReadiness::BoundToNvidia =>
                "NVIDIA device found but not bound to vfio-pci driver",
            HostNvidiaVfioReadiness::VfioBoundReady =>
                "NVIDIA device bound to vfio-pci and IOMMU group is clean",
            HostNvidiaVfioReadiness::VfioBoundDirtyGroup =>
                "NVIDIA device bound to vfio-pci but IOMMU group contains non-VFIO devices",
            HostNvidiaVfioReadiness::MixedVfioAndOther =>
                "some NVIDIA devices are on vfio-pci while others use a different driver",
        };
        words.to_owned()
    }
}

/// The value that the reply to reading an attribute file gives: its text without
/// surrounding white space, in lowercase.
pub open spec fn attribute_value(a: SysfsReplyView) -> Option<Seq<char>> {
    if a.ok {
        Some(lowercased(trimmed(a.text)))
    } else {
        None
    }
}

pub open spec fn attribute_run(t: SysfsTranscript, dev: Seq<char>, name: Seq<char>) -> (
    SysfsTranscript,
    Option<Seq<char>>,
) {
    let t = t.ask(SysfsRequestView::ReadText { path: joined_path(dev, name) });
    (t, attribute_value(answer(t)))
}

/// Reads the attribute `name` of the device whose directory is `dev`.
pub fn read_attribute(d: &mut SysfsDialogue, dev: &str, name: &str) -> (r: Option<Option<String>>)
    ensures
        final(d)@ == attribute_run(old(d)@, dev@, name@).0,
        r is Some <==> final(d)@.live(),
        r is Some ==> name_view(r->0) == attribute_run(old(d)@, dev@, name@).1,
{
    let a = ask(d, SysfsRequest::ReadText { path: join_path(dev, name) })?;
    if a.ok {
        let text = trim(a.text.as_str());
        Some(Some(text.as_str().to_lowercase()))
    } else {
        Some(None)
    }
}

/// Whether all of the devices `members[i..]`, listed in `group`, are on the
/// passthrough driver.
pub open spec fn members_run(
    t: SysfsTranscript,
    group: Seq<char>,
    members: Seq<Seq<char>>,
    i: nat,
) -> (SysfsTranscript, bool)
    decreases members.len() - i,
{
    if i >= members.len() {
        (t, true)
    } else {
        let t = t.ask(
            SysfsRequestView::ReadLink {
                path: joined_path(joined_path(group, members[i as int]), "driver"@),
            },
        );
        if linked_driver(answer(t)) == Some(VFIO_DRIVER@) {
            members_run(t, group, members, i + 1)
        } else {
            (t, false)
        }
    }
}

/// The state of the NVIDIA device whose directory is `dev`.
pub open spec fn readiness_run(t: SysfsTranscript, dev: Seq<char>) -> (
    SysfsTranscript,
    HostNvidiaVfioReadiness,
) {
    let t = t.ask(SysfsRequestView::ReadLink { path: joined_path(dev, "driver"@) });
    if linked_driver(answer(t)) != Some(VFIO_DRIVER@) {
        (t, HostNvidiaVfioReadiness::BoundToNvidia)
    } else {
        let group = joined_path(dev, "iommu_group/devices"@);
        let t = t.ask(SysfsRequestView::ListDir { path: group });
        if !answer(t).ok {
            (t, HostNvidiaVfioReadiness::VfioBoundDirtyGroup)
        } else {
            let (t, clean) = members_run(t, group, answer(t).names, 0);
            if clean {
                (t, HostNvidiaVfioReadiness::VfioBoundReady)
            } else {
                (t, HostNvidiaVfioReadiness::VfioBoundDirtyGroup)
            }
        }
    }
}

/// `found` and, after it, the NVIDIA devices among `names[i..]` with their states.
pub open spec fn survey_run(
    t: SysfsTranscript,
    names: Seq<Seq<char>>,
    i: nat,
    found: Seq<(Seq<char>, HostNvidiaVfioReadiness)>,
) -> (SysfsTranscript, Seq<(Seq<char>, HostNvidiaVfioReadiness)>)
    decreases names.len() - i,
{
    if i >= names.len() {
        (t, found)
    } else {
        let dev = joined_path(PCI_DEVICES@, names[i as int]);
        let (t, vendor) = attribute_run(t, dev, "vendor"@);
        if vendor == Some(NVIDIA_VENDOR_ID@) {
            let (t, state) = readiness_run(t, dev);
            survey_run(t, names, i + 1, found.push((names[i as int], state)))
        } else {
            survey_run(t, names, i + 1, found)
        }
    }
}

/// Every NVIDIA device of the host with its state, in the order of the listing.
pub open spec fn probe_run(t: SysfsTranscript) -> (
    SysfsTranscript,
    Seq<(Seq<char>, HostNvidiaVfioReadiness)>,
) {
    let t = t.ask(SysfsRequestView::ListDir { path: PCI_DEVICES@ });
    if answer(t).ok {
        survey_run(t, answer(t).names, 0, Seq::empty())
    } else {
        (t, Seq::empty())
    }
}

pub proof fn lemma_survey_wait(
    t: SysfsTranscript,
    names: Seq<Seq<char>>,
    i: nat,
    found: Seq<(Seq<char>, HostNvidiaVfioReadiness)>,
)
    ensures
        !t.live() ==> survey_run(t, names, i, found).0 == t,
    decreases names.len() - i,
{
    if !t.live() && i < names.len() {
        lemma_survey_wait(t, names, i + 1, found);
    }
}

/// A list of devices with their states, with the addresses by their characters.
pub open spec fn survey_views(v: Seq<(String, HostNvidiaVfioReadiness)>) -> Seq<
    (Seq<char>, HostNvidiaVfioReadiness),
> {
    v.map_values(|p: (String, HostNvidiaVfioReadiness)| (p.0@, p.1))
}

fn driver_linked_at(d: &mut SysfsDialogue, dev: &str) -> (r: Option<Option<String>>)
    ensures
        final(d)@ == old(d)@.ask(SysfsRequestView::ReadLink { path: joined_path(dev@, "driver"@) }),
        r is Some <==> final(d)@.live(),
        r is Some ==> name_view(r->0) == linked_driver(answer(final(d)@)),
{
    let a = ask(d, SysfsRequest::ReadLink { path: join_path(dev, "driver") })?;
    if a.ok {
        Some(file_name(a.text.as_str()))
    } else {
        Some(None)
    }
}

fn readiness_of(d: &mut SysfsDialogue, dev: &str) -> (r: Option<HostNvidiaVfioReadiness>)
    ensures
        final(d)@ == readiness_run(old(d)@, dev@).0,
        r is Some <==> final(d)@.live(),
        r is Some ==> r->0 == readiness_run(old(d)@, dev@).1,
{
    let driver = driver_linked_at(d, dev)?;
    if !is_vfio(&driver) {
        return Some(HostNvidiaVfioReadiness::BoundToNvidia);
    }
    let group = join_path(dev, "iommu_group/devices");
    let members = ask(d, SysfsRequest::ListDir { path: group.clone() })?;
    if !members.ok {
        return Some(HostNvidiaVfioReadiness::VfioBoundDirtyGroup);
    }
    let ghost listed = d@;
    let mut i: usize = 0;
    while i < members.names.len()
        invariant
            i <= members.names@.len(),
            d@.live(),
            members_run(d@, group@, texts(members.names@), i as nat) == members_run(
                listed,
                group@,
                texts(members.names@),
                0,
            ),
            readiness_run(old(d)@, dev@) == ({
                let (t, clean) = members_run(listed, group@, texts(members.names@), 0);
                if clean {
                    (t, HostNvidiaVfioReadiness::VfioBoundReady)
                } else {
                    (t, HostNvidiaVfioReadiness::VfioBoundDirtyGroup)
                }
            }),
        decreases members.names.len() - i,
    {
        let member = join_path(group.as_str(), members.names[i].as_str());
        let peer = driver_linked_at(d, member.as_str())?;
        if !is_vfio(&peer) {
            return Some(HostNvidiaVfioReadiness::VfioBoundDirtyGroup);
        }
        i = i + 1;
    }
    Some(HostNvidiaVfioReadiness::VfioBoundReady)
}

/// The NVIDIA devices of the host, each with its state. Where the host does not
/// list PCI devices the result is empty.
pub fn probe_host_nvidia_vfio_readiness(d: &mut SysfsDialogue) -> (r: Option<
    Vec<(String, HostNvidiaVfioReadiness)>,
>)
    ensures
        final(d)@ == probe_run(old(d)@).0,
        r is Some <==> final(d)@.live(),
        r is Some ==> survey_views(r->0@) == probe_run(old(d)@).1,
{
    let mut found: Vec<(String, HostNvidiaVfioReadiness)> = Vec::new();
    assert(survey_views(found@) =~= Seq::empty());
    let entries = ask(d, SysfsRequest::ListDir { path: PCI_DEVICES.to_owned() })?;
    if !entries.ok {
        return Some(found);
    }
    let ghost names = texts(entries.names@);
    let mut i: usize = 0;
    while i < entries.names.len()
        invariant
            i <= entries.names@.len(),
            names == texts(entries.names@),
            d@.live(),
            survey_run(d@, names, i as nat, survey_views(found@)) == probe_run(old(d)@),
        decreases entries.names.len() - i,
    {
        let ghost before = survey_views(found@);
        let dev = join_path(PCI_DEVICES, entries.names[i].as_str());
        let vendor = match read_attribute(d, dev.as_str(), "vendor") {
            Some(vendor) => vendor,
            None => {
                proof {
                    lemma_survey_wait(d@, names, (i + 1) as nat, before);
                }
                return None;
            },
        };
        let is_nvidia = match &vendor {
            Some(v) => same(v.as_str(), NVIDIA_VENDOR_ID),
            None => false,
        };
        if is_nvidia {
            let ghost at = d@;
            match readiness_of(d, dev.as_str()) {
                Some(state) => {
                    found.push((entries.names[i].clone(), state));
                    assert(survey_views(found@) =~= before.push((names[i as int], state)));
                },
                None => {
                    proof {
                        let state = readiness_run(at, dev@).1;
                        lemma_survey_wait(
                            d@,
                            names,
                            (i + 1) as nat,
                            before.push((names[i as int], state)),
                        );
                    }
                    return None;
                },
            }
        }
        i = i + 1;
    }
    Some(found)
}

pub open spec fn some_ready(found: Seq<(Seq<char>, HostNvidiaVfioReadiness)>) -> bool {
    exists|i: int|
        0 <= i < found.len() && (#[trigger] found[i]).1 == HostNvidiaVfioReadiness::VfioBoundReady
}

/// Whether a GPU can be handed to a virtual machine: `gate` switches the probing
/// on, some device is ready, and the hypervisor is in `runtime_dir`.
pub open spec fn available_run(
    t: SysfsTranscript,
    gate: Option<Seq<char>>,
    runtime_dir: Option<Seq<char>>,
) -> (SysfsTranscript, bool) {
    if gate != Some("1"@) {
        (t, false)
    } else {
        let (t, found) = probe_run(t);
        if !some_ready(found) || runtime_dir is None {
            (t, false)
        } else {
            let t = t.ask(
                SysfsRequestView::IsFile { path: joined_path(runtime_dir->0, "cloud-hypervisor"@) },
            );
            (t, answer(t).ok)
        }
    }
}

pub open spec fn str_view(s: Option<&str>) -> Option<Seq<char>> {
    match s {
        Some(s) => Some(s@),
        None => None,
    }
}

fn any_ready(found: &Vec<(String, HostNvidiaVfioReadiness)>) -> (r: bool)
    ensures
        r == some_ready(survey_views(found@)),
{
    let mut i: usize = 0;
    while i < found.len()
        invariant
            i <= found@.len(),
            forall|j: int|
                0 <= j < i ==> (#[trigger] survey_views(found@)[j]).1
                    != HostNvidiaVfioReadiness::VfioBoundReady,
        decreases found.len() - i,
    {
        assert(survey_views(found@)[i as int].1 == found@[i as int].1);
        if found[i].1 == HostNvidiaVfioReadiness::VfioBoundReady {
            return true;
        }
        i = i + 1;
    }
    false
}

/// Whether any NVIDIA GPU is available for passthrough.
///
/// `gate` is the value of `OPENSHELL_VM_GPU_E2E`: unless it is `1`, nothing is
/// probed. `runtime_dir` is the directory of the runtime bundle.
pub fn nvidia_gpu_available_for_vm_passthrough(
    gate: Option<&str>,
    runtime_dir: Option<&str>,
    d: &mut SysfsDialogue,
) -> (r: Option<bool>)
    ensures
        final(d)@ == available_run(old(d)@, str_view(gate), str_view(runtime_dir)).0,
        r is Some <==> final(d)@.live(),
        r is Some ==> r->0 == available_run(old(d)@, str_view(gate), str_view(runtime_dir)).1,
{
    if !d.is_live() {
        return None;
    }
    let activated = match gate {
        Some(value) => same(value, "1"),
        None => false,
    };
    if !activated {
        return Some(false);
    }
    let found = probe_host_nvidia_vfio_readiness(d)?;
    if !any_ready(&found) {
        return Some(false);
    }
    match runtime_dir {
        Some(dir) => {
            let a = ask(d, SysfsRequest::IsFile { path: join_path(dir, "cloud-hypervisor") })?;
            Some(a.ok)
        },
        None => Some(false),
    }
}

} // verus!
