//! What a probe shows of the GPU that a preparation chose, before and after it is
//! restored.

use vstd::prelude::*;

use crate::gpu::bind::{bind_run, no_driver, restore_run};
use crate::gpu::checks::{
    all_vfio_run, current_driver_run, differs_from, gpu_processes_run, is_pci_addr, linked_driver,
    others, peers_run, VFIO_DRIVER,
};
use crate::gpu::meaning::{law_probe_means, member_on_vfio, readiness, states_among, told_by, Host};
use crate::gpu::moves::left_on;
use crate::gpu::obstacle::Blocked;
use crate::gpu::prepare::{
    claim_run, first_free_run, first_ready_run, found_processes, gpus_run, is_ready_run,
    prepare_run, reason_run,
};
use crate::gpu::probe::{
    attribute_run, attribute_value, probe_run, HostNvidiaVfioReadiness, NVIDIA_VENDOR_ID,
    PCI_DEVICES,
};
use crate::gpu::reads::{
    group_reads, lemma_all_vfio_read, lemma_first_ready_reads, lemma_gpu_processes_read,
    lemma_gpus_read, only_reads,
};
use crate::gpu::replay::{go_bind_each, go_first_free};
use crate::gpu::undo::{
    bound_by, bound_devices, driver_link, law_preparation_binds_what_it_lists,
    law_restore_undoes_preparation, lemma_claim_binds, lemma_driver_told,
    lemma_reads_keep_drivers, lemma_truthful_before, truthful, Drivers,
};
use crate::order::{in_order, law_text_order_is_total, text_order};
use crate::paths::joined_path;
use crate::sysfs::{answer, device_dir, devices_dir, SysfsRequestView, SysfsTranscript};

verus! {

/// Listing the devices of the host.
pub open spec fn device_listing(root: Seq<char>) -> SysfsRequestView {
    SysfsRequestView::ListDir { path: devices_dir(root) }
}

/// Listing the IOMMU group of the device at `addr`.
pub open spec fn group_listing(root: Seq<char>, addr: Seq<char>) -> SysfsRequestView {
    SysfsRequestView::ListDir { path: joined_path(device_dir(root, addr), "iommu_group/devices"@) }
}

/// Reading who made the device at `addr`.
pub open spec fn vendor_reading(root: Seq<char>, addr: Seq<char>) -> SysfsRequestView {
    SysfsRequestView::ReadText { path: joined_path(device_dir(root, addr), "vendor"@) }
}

/// `q` asks which devices there are, or what is built in with the one at `addr`.
pub open spec fn is_hardware(root: Seq<char>, q: SysfsRequestView, addr: Seq<char>) -> bool {
    q == device_listing(root) || q == group_listing(root, addr) || q == vendor_reading(root, addr)
}

/// All that the exchange has read of the hardware is what `host` gives.
pub open spec fn hardware_told(t: SysfsTranscript, root: Seq<char>, host: Host) -> bool {
    &&& t.live()
    &&& forall|i: int, addr: Seq<char>|
        0 <= i < t.asked.len() && #[trigger] is_hardware(root, t.asked[i], addr) ==> t.replies[i]
            == host(t.asked[i])
}

proof fn lemma_hardware_told_before(
    t: SysfsTranscript,
    later: SysfsTranscript,
    root: Seq<char>,
    host: Host,
)
    requires
        t.leads_to(later),
        hardware_told(later, root, host),
    ensures
        hardware_told(t, root, host),
        t.asked.len() > 0 ==> forall|addr: Seq<char>|
            #[trigger] is_hardware(root, t.asked.last(), addr) ==> answer(t) == host(
                t.asked.last(),
            ),
{
    assert forall|i: int, addr: Seq<char>|
        0 <= i < t.asked.len() && #[trigger] is_hardware(
            root,
            t.asked[i],
            addr,
        ) implies t.replies[i] == host(t.asked[i]) by {
        assert(later.asked[i] == t.asked[i]);
        assert(is_hardware(root, later.asked[i], addr));
    }
}

/// On `host`, the device `name` is listed and is made by NVIDIA.
pub open spec fn listed_nvidia(host: Host, root: Seq<char>, name: Seq<char>) -> bool {
    let devices = host(device_listing(root));
    &&& devices.ok && devices.names.contains(name)
    &&& attribute_value(host(vendor_reading(root, name))) == Some(NVIDIA_VENDOR_ID@)
}

/// Everything that the group of the device at `addr` lists on `host` is left on the
/// passthrough driver, and so is the device itself.
pub open spec fn group_on_vfio(
    u: SysfsTranscript,
    host: Host,
    root: Seq<char>,
    addr: Seq<char>,
    start: Drivers,
) -> bool {
    let group = host(group_listing(root, addr));
    &&& is_pci_addr(addr)
    &&& left_on(u, root, addr, start(addr)) == Some(VFIO_DRIVER@)
    &&& group.ok ==> forall|j: int|
        0 <= j < group.names.len() && is_pci_addr(#[trigger] group.names[j]) ==> left_on(
            u,
            root,
            group.names[j],
            start(group.names[j]),
        ) == Some(VFIO_DRIVER@)
}

proof fn lemma_all_vfio_found(
    t: SysfsTranscript,
    root: Seq<char>,
    peers: Seq<Seq<char>>,
    i: nat,
    start: Drivers,
)
    requires
        all_vfio_run(t, root, peers, i).1,
        truthful(all_vfio_run(t, root, peers, i).0, root, start),
    ensures
        forall|j: int|
            i <= j < peers.len() && is_pci_addr(#[trigger] peers[j]) ==> left_on(
                t,
                root,
                peers[j],
                start(peers[j]),
            ) == Some(VFIO_DRIVER@),
    decreases peers.len() - i,
{
    if i < peers.len() {
        let peer = peers[i as int];
        let end = all_vfio_run(t, root, peers, i).0;
        let u = current_driver_run(t, root, peer).0;
        lemma_all_vfio_read(u, root, peers, i + 1);
        lemma_truthful_before(u, end, root, start);
        lemma_all_vfio_found(u, root, peers, i + 1, start);
        if is_pci_addr(peer) {
            lemma_driver_told(t, root, peer, start);
        }
        assert forall|j: int|
            i <= j < peers.len() && is_pci_addr(#[trigger] peers[j]) implies left_on(
            t,
            root,
            peers[j],
            start(peers[j]),
        ) == Some(VFIO_DRIVER@) by {
            lemma_same_drivers(t, u, root, peers[j], start(peers[j]));
        }
    }
}

proof fn lemma_same_drivers(
    t: SysfsTranscript,
    u: SysfsTranscript,
    root: Seq<char>,
    addr: Seq<char>,
    start: Option<Seq<char>>,
)
    requires
        only_reads(t, u),
    ensures
        left_on(u, root, addr, start) == left_on(t, root, addr, start),
{
    let n = t.asked.len() as int;
    assert(u.asked.take(n) =~= t.asked);
    lemma_reads_keep_drivers(u.asked, n, root, addr, start);
}

proof fn lemma_other_is_peer(names: Seq<Seq<char>>, addr: Seq<char>, j: int)
    requires
        0 <= j < names.len(),
        names[j] != addr,
    ensures
        others(names, addr).contains(names[j]),
{
    names.lemma_filter_contains(differs_from(addr), j);
}

pub proof fn lemma_ready_group(
    t: SysfsTranscript,
    host: Host,
    root: Seq<char>,
    addr: Seq<char>,
    start: Drivers,
)
    requires
        is_ready_run(t, root, addr).1,
        truthful(is_ready_run(t, root, addr).0, root, start),
        hardware_told(is_ready_run(t, root, addr).0, root, host),
    ensures
        group_on_vfio(is_ready_run(t, root, addr).0, host, root, addr, start),
{
    broadcast use group_reads;

    let end = is_ready_run(t, root, addr).0;
    let t1 = current_driver_run(t, root, addr).0;
    let (t2, peers) = peers_run(t1, root, addr);
    assert(is_pci_addr(addr) && peers is Ok);
    let listed = peers->Ok_0;
    lemma_all_vfio_read(t2, root, listed, 0);
    assert(only_reads(t, t1));
    assert(only_reads(t1, t2));
    lemma_truthful_before(t1, end, root, start);
    lemma_driver_told(t, root, addr, start);
    lemma_same_drivers(t, end, root, addr, start(addr));
    lemma_all_vfio_found(t2, root, listed, 0, start);
    lemma_hardware_told_before(t2, end, root, host);
    let group = host(group_listing(root, addr));
    assert(is_hardware(root, t2.asked.last(), addr));
    assert(answer(t2) == group);
    if group.ok {
        assert forall|j: int|
            0 <= j < group.names.len() && is_pci_addr(#[trigger] group.names[j]) implies left_on(
            end,
            root,
            group.names[j],
            start(group.names[j]),
        ) == Some(VFIO_DRIVER@) by {
            if group.names[j] != addr {
                lemma_other_is_peer(group.names, addr, j);
                let k = choose|k: int| 0 <= k < listed.len() && listed[k] == group.names[j];
                assert(is_pci_addr(listed[k]));
                lemma_same_drivers(t2, end, root, listed[k], start(listed[k]));
            }
        }
    }
}

proof fn lemma_first_ready_group(
    t: SysfsTranscript,
    host: Host,
    root: Seq<char>,
    addrs: Seq<Seq<char>>,
    i: nat,
    start: Drivers,
)
    requires
        first_ready_run(t, root, addrs, i).1 is Some,
        truthful(first_ready_run(t, root, addrs, i).0, root, start),
        hardware_told(first_ready_run(t, root, addrs, i).0, root, host),
    ensures
        ({
            let (u, found) = first_ready_run(t, root, addrs, i);
            addrs.contains(found->0) && group_on_vfio(u, host, root, found->0, start)
        }),
    decreases addrs.len() - i,
{
    let (u, is_ready) = is_ready_run(t, root, addrs[i as int]);
    if is_ready {
        lemma_ready_group(t, host, root, addrs[i as int], start);
    } else {
        lemma_first_ready_group(u, host, root, addrs, i + 1, start);
    }
}

pub proof fn lemma_claimed_group(
    m: SysfsTranscript,
    host: Host,
    root: Seq<char>,
    addr: Seq<char>,
    start: Drivers,
)
    requires
        claim_run(m, root, addr).1 is Ok,
        truthful(claim_run(m, root, addr).0, root, start),
        hardware_told(claim_run(m, root, addr).0, root, host),
    ensures
        claim_run(m, root, addr).1->Ok_0.pci_addr == addr,
        group_on_vfio(claim_run(m, root, addr).0, host, root, addr, start),
{
    assert(only_reads(m, m));
    lemma_claim_binds(m, m, root, addr, start);
    let end = claim_run(m, root, addr).0;
    let m1 = bind_run(m, root, addr).0;
    let (m2, peers) = peers_run(m1, root, addr);
    let listed = peers->Ok_0;
    go_bind_each(m2, root, listed, 0, Seq::empty());
    lemma_hardware_told_before(m2, end, root, host);
    lemma_hardware_told_before(m1, end, root, host);
    let group = host(group_listing(root, addr));
    assert(is_hardware(root, m2.asked.last(), addr));
    assert(answer(m2) == group);
    if group.ok {
        assert forall|j: int|
            0 <= j < group.names.len() && is_pci_addr(#[trigger] group.names[j]) implies left_on(
            end,
            root,
            group.names[j],
            start(group.names[j]),
        ) == Some(VFIO_DRIVER@) by {
            if group.names[j] != addr {
                lemma_other_is_peer(group.names, addr, j);
                let k = choose|k: int| 0 <= k < listed.len() && listed[k] == group.names[j];
                assert(is_pci_addr(listed[k]));
            }
        }
    }
}

proof fn lemma_first_free_group(
    t: SysfsTranscript,
    host: Host,
    root: Seq<char>,
    addrs: Seq<Seq<char>>,
    i: nat,
    users: Seq<(u32, Seq<char>)>,
    blocked: Blocked,
    start: Drivers,
)
    requires
        first_free_run(t, root, addrs, i, users, blocked).1 is Ok,
        truthful(first_free_run(t, root, addrs, i, users, blocked).0, root, start),
        hardware_told(first_free_run(t, root, addrs, i, users, blocked).0, root, host),
    ensures
        ({
            let (u, r) = first_free_run(t, root, addrs, i, users, blocked);
            addrs.contains(r->Ok_0.pci_addr) && group_on_vfio(
                u,
                host,
                root,
                r->Ok_0.pci_addr,
                start,
            )
        }),
    decreases addrs.len() - i,
{
    let (u, reason) = reason_run(t, root, addrs[i as int], users);
    match reason {
        Some(reason) => {
            let more = blocked.push((addrs[i as int], reason));
            lemma_first_free_group(u, host, root, addrs, i + 1, users, more, start);
        },
        None => {
            lemma_claimed_group(u, host, root, addrs[i as int], start);
        },
    }
}

/// Every GPU that is found is a listed NVIDIA device.
proof fn lemma_found_gpus(
    t: SysfsTranscript,
    host: Host,
    root: Seq<char>,
    names: Seq<Seq<char>>,
    i: nat,
    found: Seq<Seq<char>>,
)
    requires
        host(device_listing(root)).ok,
        host(device_listing(root)).names == names,
        forall|k: int| 0 <= k < found.len() ==> listed_nvidia(host, root, #[trigger] found[k]),
        hardware_told(gpus_run(t, root, names, i, found).0, root, host),
    ensures
        ({
            let gpus = gpus_run(t, root, names, i, found).1;
            forall|k: int| 0 <= k < gpus.len() ==> listed_nvidia(host, root, #[trigger] gpus[k])
        }),
    decreases names.len() - i,
{
    if i < names.len() {
        let end = gpus_run(t, root, names, i, found).0;
        let name = names[i as int];
        let dev = device_dir(root, name);
        let (t1, vendor) = attribute_run(t, dev, "vendor"@);
        let (t2, class) = attribute_run(t1, dev, "class"@);
        if vendor is None {
            lemma_found_gpus(t1, host, root, names, i + 1, found);
            assert(gpus_run(t, root, names, i, found) == gpus_run(t1, root, names, i + 1, found));
        } else if class is Some && vendor->0 == NVIDIA_VENDOR_ID@ && "0x03"@.is_prefix_of(
            class->0,
        ) {
            let more = found.push(name);
            lemma_gpus_read(t2, root, names, i + 1, more);
            assert(t1.leads_to(t2));
            lemma_hardware_told_before(t2, end, root, host);
            lemma_hardware_told_before(t1, end, root, host);
            assert(is_hardware(root, t1.asked.last(), name));
            assert(names.contains(name));
            assert(listed_nvidia(host, root, name));
            lemma_found_gpus(t2, host, root, names, i + 1, more);
            assert(gpus_run(t, root, names, i, found) == gpus_run(t2, root, names, i + 1, more));
        } else {
            lemma_found_gpus(t2, host, root, names, i + 1, found);
            assert(gpus_run(t, root, names, i, found) == gpus_run(t2, root, names, i + 1, found));
        }
    }
}

proof fn lemma_ordered_is_found(v: Seq<Seq<char>>, a: Seq<char>)
    requires
        in_order(v).contains(a),
    ensures
        v.contains(a),
{
    law_text_order_is_total();
    v.lemma_sort_by_ensures(text_order());
    in_order(v).to_multiset_ensures();
    v.to_multiset_ensures();
    assert(in_order(v).to_multiset().count(a) > 0);
}

/// Where no GPU is asked for, the one that is prepared is a listed NVIDIA device, and
/// it and its group are left on the passthrough driver.
pub proof fn lemma_prepared_group(t: SysfsTranscript, host: Host, root: Seq<char>, start: Drivers)
    requires
        prepare_run(t, root, None).1 is Ok,
        truthful(prepare_run(t, root, None).0, root, start),
        hardware_told(prepare_run(t, root, None).0, root, host),
    ensures
        ({
            let (u, r) = prepare_run(t, root, None);
            &&& listed_nvidia(host, root, r->Ok_0.pci_addr)
            &&& group_on_vfio(u, host, root, r->Ok_0.pci_addr, start)
        }),
{
    let (u, r) = prepare_run(t, root, None);
    let t1 = t.ask(device_listing(root));
    let names = answer(t1).names;
    let (t2, gpus) = gpus_run(t1, root, names, 0, Seq::empty());
    let addrs = in_order(gpus);
    let (t3, ready) = first_ready_run(t2, root, addrs, 0);
    let (t4, users) = gpu_processes_run(t3);
    lemma_gpus_read(t1, root, names, 0, Seq::empty());
    lemma_first_ready_reads(t2, root, addrs, 0);
    lemma_gpu_processes_read(t3);
    if ready is Some {
        lemma_hardware_told_before(t2, u, root, host);
        lemma_first_ready_group(t2, host, root, addrs, 0, start);
    } else {
        lemma_first_free_group(
            t4,
            host,
            root,
            addrs,
            0,
            found_processes(users),
            Seq::empty(),
            start,
        );
        go_first_free(t4, root, addrs, 0, found_processes(users), Seq::empty());
        lemma_hardware_told_before(t2, u, root, host);
    }
    lemma_hardware_told_before(t1, t2, root, host);
    assert(is_hardware(root, t1.asked.last(), r->Ok_0.pci_addr));
    lemma_found_gpus(t1, host, root, names, 0, Seq::empty());
    let addr = r->Ok_0.pci_addr;
    lemma_ordered_is_found(gpus, addr);
    let k = choose|k: int| 0 <= k < gpus.len() && gpus[k] == addr;
    assert(listed_nvidia(host, root, gpus[k]));
}

/// Reading which driver the member `m` of the group of the device at `addr` is on.
pub open spec fn member_link(root: Seq<char>, addr: Seq<char>, m: Seq<char>) -> SysfsRequestView {
    let group = joined_path(device_dir(root, addr), "iommu_group/devices"@);
    SysfsRequestView::ReadLink { path: joined_path(joined_path(group, m), "driver"@) }
}

/// On `host`, the links of every device show that it is on what `drivers` says.
pub open spec fn shows_drivers(host: Host, root: Seq<char>, drivers: Drivers) -> bool {
    &&& forall|a: Seq<char>|
        is_pci_addr(a) ==> linked_driver(host(#[trigger] driver_link(root, a))) == drivers(a)
    &&& forall|a: Seq<char>, m: Seq<char>|
        is_pci_addr(m) ==> linked_driver(host(#[trigger] member_link(root, a, m))) == drivers(m)
}

/// The driver that each device is left on by all that an exchange has asked.
pub open spec fn drivers_after(u: SysfsTranscript, root: Seq<char>, start: Drivers) -> Drivers {
    |a: Seq<char>| left_on(u, root, a, start(a))
}

/// On `host`, the group of the device at `addr` can be listed, as addresses of devices.
pub open spec fn has_group(host: Host, root: Seq<char>, addr: Seq<char>) -> bool {
    let group = host(group_listing(root, addr));
    &&& group.ok
    &&& forall|j: int| 0 <= j < group.names.len() ==> is_pci_addr(#[trigger] group.names[j])
}

/// The device at `addr` is among those that were probed, always in the same state.
pub open spec fn probed_as(
    results: Seq<(Seq<char>, HostNvidiaVfioReadiness)>,
    addr: Seq<char>,
    state: HostNvidiaVfioReadiness,
) -> bool {
    &&& exists|k: int| 0 <= k < results.len() && (#[trigger] results[k]).0 == addr
    &&& forall|k: int|
        0 <= k < results.len() && (#[trigger] results[k]).0 == addr ==> results[k].1 == state
}

pub proof fn lemma_state_is_listed(host: Host, names: Seq<Seq<char>>, addr: Seq<char>)
    requires
        names.contains(addr),
        attribute_value(
            host(
                SysfsRequestView::ReadText {
                    path: joined_path(joined_path(PCI_DEVICES@, addr), "vendor"@),
                },
            ),
        ) == Some(NVIDIA_VENDOR_ID@),
    ensures
        probed_as(
            states_among(host, names),
            addr,
            readiness(host, joined_path(PCI_DEVICES@, addr)),
        ),
    decreases names.len(),
{
    let state = readiness(host, joined_path(PCI_DEVICES@, addr));
    let all = states_among(host, names);
    lemma_states_agree(host, names, addr);
    if names.last() == addr {
        assert(all.last().0 == addr);
    } else {
        let j = choose|j: int| 0 <= j < names.len() && names[j] == addr;
        assert(names.drop_last()[j] == addr);
        lemma_state_is_listed(host, names.drop_last(), addr);
        let before = states_among(host, names.drop_last());
        let k = choose|k: int| 0 <= k < before.len() && (#[trigger] before[k]).0 == addr;
        assert(all[k] == before[k]);
    }
}

proof fn lemma_states_agree(host: Host, names: Seq<Seq<char>>, addr: Seq<char>)
    ensures
        ({
            let all = states_among(host, names);
            forall|k: int|
                0 <= k < all.len() && (#[trigger] all[k]).0 == addr ==> all[k].1 == readiness(
                    host,
                    joined_path(PCI_DEVICES@, addr),
                )
        }),
    decreases names.len(),
{
    if names.len() > 0 {
        lemma_states_agree(host, names.drop_last(), addr);
        let before = states_among(host, names.drop_last());
        let all = states_among(host, names);
        assert forall|k: int| 0 <= k < all.len() && (#[trigger] all[k]).0 == addr implies all[k].1
            == readiness(host, joined_path(PCI_DEVICES@, addr)) by {
            if k < before.len() {
                assert(all[k] == before[k]);
            }
        }
    }
}

/// The devices below the root directory are where a probe looks for them.
proof fn lemma_probed_root()
    ensures
        devices_dir("/"@) == PCI_DEVICES@,
{
    reveal_strlit("/");
    reveal_strlit("sys/bus/pci/devices");
    reveal_strlit("/sys/bus/pci/devices");
    assert(devices_dir("/"@) =~= PCI_DEVICES@);
}

/// After a GPU of the host was prepared, a probe lists it as ready: it and its whole
/// group are on the passthrough driver.
pub proof fn law_prepared_gpu_probes_ready(
    t: SysfsTranscript,
    probe: SysfsTranscript,
    host: Host,
    start: Drivers,
)
    requires
        prepare_run(t, "/"@, None).1 is Ok,
        truthful(prepare_run(t, "/"@, None).0, "/"@, start),
        hardware_told(prepare_run(t, "/"@, None).0, "/"@, host),
        has_group(host, "/"@, prepare_run(t, "/"@, None).1->Ok_0.pci_addr),
        shows_drivers(host, "/"@, drivers_after(prepare_run(t, "/"@, None).0, "/"@, start)),
        told_by(probe_run(probe).0, host),
    ensures
        probed_as(
            probe_run(probe).1,
            prepare_run(t, "/"@, None).1->Ok_0.pci_addr,
            HostNvidiaVfioReadiness::VfioBoundReady,
        ),
{
    let root = "/"@;
    let (u, r) = prepare_run(t, root, None);
    let addr = r->Ok_0.pci_addr;
    lemma_probed_root();
    lemma_prepared_group(t, host, root, start);
    law_probe_means(probe, host);
    lemma_state_is_listed(host, host(device_listing(root)).names, addr);
    let dev = device_dir(root, addr);
    let group = joined_path(dev, "iommu_group/devices"@);
    let members = host(group_listing(root, addr));
    assert(linked_driver(host(driver_link(root, addr))) == Some(VFIO_DRIVER@));
    assert forall|j: int| 0 <= j < members.names.len() implies member_on_vfio(
        host,
        group,
        #[trigger] members.names[j],
    ) by {
        let m = members.names[j];
        assert(linked_driver(host(member_link(root, addr, m))) == left_on(u, root, m, start(m)));
    }
    assert(readiness(host, dev) == HostNvidiaVfioReadiness::VfioBoundReady);
}

/// After a GPU that was bound is restored to its driver, a probe lists it as not bound
/// for passthrough.
pub proof fn law_restored_gpu_probes_unbound(
    t: SysfsTranscript,
    fresh: SysfsTranscript,
    probe: SysfsTranscript,
    host: Host,
    start: Drivers,
)
    requires
        prepare_run(t, "/"@, None).1 is Ok,
        truthful(prepare_run(t, "/"@, None).0, "/"@, start),
        hardware_told(prepare_run(t, "/"@, None).0, "/"@, host),
        prepare_run(t, "/"@, None).1->Ok_0.did_bind,
        !no_driver(prepare_run(t, "/"@, None).1->Ok_0.original_driver),
        fresh.asked.len() == 0,
        restore_run(fresh, "/"@, prepare_run(t, "/"@, None).1->Ok_0).1 is Ok,
        shows_drivers(
            host,
            "/"@,
            drivers_after(
                restore_run(fresh, "/"@, prepare_run(t, "/"@, None).1->Ok_0).0,
                "/"@,
                drivers_after(prepare_run(t, "/"@, None).0, "/"@, start),
            ),
        ),
        told_by(probe_run(probe).0, host),
    ensures
        probed_as(
            probe_run(probe).1,
            prepare_run(t, "/"@, None).1->Ok_0.pci_addr,
            HostNvidiaVfioReadiness::BoundToNvidia,
        ),
{
    let root = "/"@;
    let (u, r) = prepare_run(t, root, None);
    let state = r->Ok_0;
    let addr = state.pci_addr;
    let list = bound_devices(state);
    lemma_probed_root();
    lemma_prepared_group(t, host, root, start);
    law_preparation_binds_what_it_lists(t, root, None, start);
    assert(bound_by(t, u, root, list, addr, start(addr), Seq::empty()));
    assert(list[0] == (addr, state.original_driver));
    law_restore_undoes_preparation(t, fresh, root, None, start, addr, Seq::empty());
    law_probe_means(probe, host);
    lemma_state_is_listed(host, host(device_listing(root)).names, addr);
    let before = left_on(t, root, addr, start(addr));
    assert(linked_driver(host(driver_link(root, addr))) == before);
}

} // verus!
