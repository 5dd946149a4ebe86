//! What a probe tells of each device, and what a preparation leaves of a whole group.

use vstd::prelude::*;

use crate::fault::FaultKind;
use crate::gpu::checks::{gpu_processes_run, is_pci_addr, linked_driver};
use crate::gpu::meaning::{law_probe_means, member_on_vfio, states_among, told_by, Host};
use crate::gpu::moves::left_on;
use crate::gpu::prepare::{is_ready_run, prepare_run, refusal_run};
use crate::gpu::probe::{attribute_run, attribute_value, probe_run, HostNvidiaVfioReadiness};
use crate::gpu::round_trip::{
    group_on_vfio, hardware_told, lemma_claimed_group, lemma_prepared_group, lemma_ready_group,
    lemma_state_is_listed, probed_as,
};
use crate::gpu::safety::of_device;
use crate::gpu::undo::{truthful, Drivers};
use crate::paths::joined_path;
use crate::sysfs::{device_dir, SysfsRequestView, SysfsTranscript};
use crate::text::{lowercased, trimmed};

verus! {

/// The file `part` of the device `name` of the live host.
pub open spec fn of_live_device(name: Seq<char>, part: Seq<char>) -> Seq<char> {
    joined_path(joined_path("/sys/bus/pci/devices"@, name), part)
}

/// On `host`, the link at `path` leads to the driver for machines.
pub open spec fn leads_to_vfio(host: Host, path: Seq<char>) -> bool {
    linked_driver(host(SysfsRequestView::ReadLink { path })) == Some("vfio-pci"@)
}

/// On `host`, the device `name` is listed and is made by NVIDIA.
pub open spec fn is_live_nvidia(host: Host, name: Seq<char>) -> bool {
    let devices = host(SysfsRequestView::ListDir { path: "/sys/bus/pci/devices"@ });
    &&& devices.ok && devices.names.contains(name)
    &&& attribute_value(
        host(SysfsRequestView::ReadText { path: of_live_device(name, "vendor"@) }),
    ) == Some("0x10de"@)
}

/// On `host`, every member of the IOMMU group of the device `name` is on the driver for
/// machines, as its link in the group shows.
pub open spec fn group_is_live_vfio(host: Host, name: Seq<char>) -> bool {
    let group = of_live_device(name, "iommu_group/devices"@);
    let members = host(SysfsRequestView::ListDir { path: group });
    &&& members.ok
    &&& forall|m: Seq<char>|
        #![trigger members.names.contains(m)]
        members.names.contains(m) ==> leads_to_vfio(
            host,
            joined_path(joined_path(group, m), "driver"@),
        )
}

/// A probe tells of every NVIDIA device of the host whether it is ready: on the driver
/// for machines together with all of its group, there without all of its group, or not
/// there at all.
pub proof fn law_probe_tells_states(t: SysfsTranscript, host: Host, name: Seq<char>)
    requires
        told_by(probe_run(t).0, host),
        is_live_nvidia(host, name),
    ensures
        probed_as(
            probe_run(t).1,
            name,
            if !leads_to_vfio(host, of_live_device(name, "driver"@)) {
                HostNvidiaVfioReadiness::BoundToNvidia
            } else if group_is_live_vfio(host, name) {
                HostNvidiaVfioReadiness::VfioBoundReady
            } else {
                HostNvidiaVfioReadiness::VfioBoundDirtyGroup
            },
        ),
{
    law_probe_means(t, host);
    let names = host(SysfsRequestView::ListDir { path: "/sys/bus/pci/devices"@ }).names;
    lemma_state_is_listed(host, names, name);
    let dev = joined_path("/sys/bus/pci/devices"@, name);
    let group = joined_path(dev, "iommu_group/devices"@);
    let members = host(SysfsRequestView::ListDir { path: group });
    if members.ok {
        if group_is_live_vfio(host, name) {
            assert forall|j: int| 0 <= j < members.names.len() implies member_on_vfio(
                host,
                group,
                #[trigger] members.names[j],
            ) by {
                assert(members.names.contains(members.names[j]));
            }
        } else {
            let m = choose|m: Seq<char>|
                #![trigger members.names.contains(m)]
                members.names.contains(m) && !leads_to_vfio(
                    host,
                    joined_path(joined_path(group, m), "driver"@),
                );
            let j = choose|j: int| 0 <= j < members.names.len() && members.names[j] == m;
            assert(!member_on_vfio(host, group, members.names[j]));
        }
    }
}

proof fn lemma_only_nvidia(host: Host, names: Seq<Seq<char>>, k: int)
    requires
        0 <= k < states_among(host, names).len(),
    ensures
        ({
            let name = states_among(host, names)[k].0;
            &&& names.contains(name)
            &&& attribute_value(
                host(SysfsRequestView::ReadText { path: of_live_device(name, "vendor"@) }),
            ) == Some("0x10de"@)
        }),
    decreases names.len(),
{
    let fewer = names.drop_last();
    let before = states_among(host, fewer);
    let name = states_among(host, names)[k].0;
    if k < before.len() {
        lemma_only_nvidia(host, fewer, k);
        let j = choose|j: int| 0 <= j < fewer.len() && fewer[j] == name;
        assert(names[j] == name);
    } else {
        assert(names[names.len() - 1] == name);
    }
}

/// A probe tells of no device but the NVIDIA devices of the host.
pub proof fn law_probe_tells_of_nvidia_only(t: SysfsTranscript, host: Host, k: int)
    requires
        told_by(probe_run(t).0, host),
        0 <= k < probe_run(t).1.len(),
    ensures
        is_live_nvidia(host, probe_run(t).1[k].0),
{
    law_probe_means(t, host);
    let names = host(SysfsRequestView::ListDir { path: "/sys/bus/pci/devices"@ }).names;
    lemma_only_nvidia(host, names, k);
}

/// A GPU that was prepared is on the driver for machines together with everything that
/// its IOMMU group lists, whether it was asked for or chosen, and whether it was bound or
/// stood ready.
pub proof fn law_prepared_group_is_set_aside(
    t: SysfsTranscript,
    host: Host,
    root: Seq<char>,
    asked: Option<Seq<char>>,
    start: Drivers,
)
    requires
        prepare_run(t, root, asked).1 is Ok,
        truthful(prepare_run(t, root, asked).0, root, start),
        hardware_told(prepare_run(t, root, asked).0, root, host),
    ensures
        ({
            let (u, r) = prepare_run(t, root, asked);
            let addr = r->Ok_0.pci_addr;
            let group = host(
                SysfsRequestView::ListDir { path: of_device(root, addr, "iommu_group/devices"@) },
            );
            &&& is_pci_addr(addr)
            &&& left_on(u, root, addr, start(addr)) == Some("vfio-pci"@)
            &&& group.ok ==> forall|member: Seq<char>|
                #![trigger group.names.contains(member)]
                group.names.contains(member) && is_pci_addr(member) ==> left_on(
                    u,
                    root,
                    member,
                    start(member),
                ) == Some("vfio-pci"@)
        }),
{
    let (u, r) = prepare_run(t, root, asked);
    let addr = r->Ok_0.pci_addr;
    match asked {
        None => {
            lemma_prepared_group(t, host, root, start);
        },
        Some(wanted) => {
            let dev = device_dir(root, wanted);
            let t1 = t.ask(SysfsRequestView::Exists { path: dev });
            let (t2, vendor) = attribute_run(t1, dev, "vendor"@);
            let (t3, class) = attribute_run(t2, dev, "class"@);
            let (t4, ready) = is_ready_run(t3, root, wanted);
            if ready {
                lemma_ready_group(t3, host, root, wanted, start);
            } else {
                let t5 = refusal_run(t4, root, wanted).0;
                lemma_claimed_group(t5, host, root, wanted, start);
            }
        },
    }
    assert(group_on_vfio(u, host, root, addr, start));
    let group = host(
        SysfsRequestView::ListDir { path: of_device(root, addr, "iommu_group/devices"@) },
    );
    if group.ok {
        assert forall|member: Seq<char>|
            #![trigger group.names.contains(member)]
            group.names.contains(member) && is_pci_addr(member) implies left_on(
            u,
            root,
            member,
            start(member),
        ) == Some("vfio-pci"@) by {
            let j = choose|j: int| 0 <= j < group.names.len() && group.names[j] == member;
            assert(is_pci_addr(group.names[j]));
        }
    }
}

/// Where the processes of the host cannot be listed, nobody is found to use a GPU; that is
/// reported as a failure unless it was only forbidden.
pub proof fn law_unlisted_processes(t: SysfsTranscript)
    requires
        t.replies.len() > t.asked.len(),
        !t.replies[t.asked.len() as int].ok,
    ensures
        ({
            let (u, r) = gpu_processes_run(t);
            let a = t.replies[t.asked.len() as int];
            &&& u.asked == t.asked.push(SysfsRequestView::ListDir { path: "/proc"@ })
            &&& a.kind == FaultKind::PermissionDenied ==> r is Ok && r->Ok_0.len() == 0
            &&& a.kind != FaultKind::PermissionDenied ==> r is Err && r->Err_0.kind == a.kind
                && r->Err_0.message == a.text
        }),
{
}

/// An attribute of a device is read from the file of its name, without the white space
/// around it and in lower case; one that cannot be read has no value.
pub proof fn law_attribute_is_read(t: SysfsTranscript, dev: Seq<char>, name: Seq<char>)
    requires
        t.live(),
        attribute_run(t, dev, name).0.live(),
    ensures
        ({
            let (u, value) = attribute_run(t, dev, name);
            let a = u.replies[t.asked.len() as int];
            &&& u.asked == t.asked.push(
                SysfsRequestView::ReadText { path: joined_path(dev, name) },
            )
            &&& value == if a.ok {
                Some(lowercased(trimmed(a.text)))
            } else {
                None
            }
        }),
{
}

/// Where the devices of the host cannot be listed, no GPU can be chosen, and the failure
/// says what could not be read and why; nothing else is asked.
pub proof fn law_unlisted_devices(t: SysfsTranscript, root: Seq<char>)
    requires
        t.asked.len() == 0,
        t.replies.len() > 0,
        !t.replies[0].ok,
    ensures
        ({
            let (u, r) = prepare_run(t, root, None);
            let dir = joined_path(root, "sys/bus/pci/devices"@);
            &&& u.asked == seq![SysfsRequestView::ListDir { path: dir }]
            &&& r is Err
            &&& r->Err_0.kind == t.replies[0].kind
            &&& r->Err_0.message == "cannot read "@ + dir + ": "@ + t.replies[0].text
        }),
{
    let u = prepare_run(t, root, None).0;
    assert(u.asked =~= seq![
        SysfsRequestView::ListDir { path: joined_path(root, "sys/bus/pci/devices"@) },
    ]);
}

} // verus!
