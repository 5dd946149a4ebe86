//! What the checks on a GPU mean, on a host that does not change meanwhile.

use vstd::prelude::*;

use crate::fault::FaultKind;
use crate::gpu::checks::{
    all_vfio_run, allowed_run, card_run, cards_run, connectors_run, current_driver_run,
    differs_from, dirty_group_run, dirty_peers_run, display_run, gpu_processes_run,
    group_clean_run, iommu_run, is_card_name, is_pci_addr, linked_driver, modules_run, peers_run,
    permissions_run, process_run, processes_run, some_nvidia_handle, VFIO_DRIVER,
};
use crate::gpu::prepare::{found_processes, gpus_run, is_ready_run};
use crate::gpu::probe::{
    attribute_run, attribute_value, members_run, probe_run, readiness_run, survey_run,
    HostNvidiaVfioReadiness, NVIDIA_VENDOR_ID, PCI_DEVICES,
};
use crate::gpu::reads::{
    group_reads, lemma_all_vfio_read, lemma_card_reads, lemma_cards_read, lemma_connectors_read,
    lemma_dirty_peers_read, lemma_display_reads, lemma_gpus_read, lemma_group_clean_reads,
    lemma_members_read, lemma_processes_read, lemma_readiness_reads, lemma_survey_reads, only_reads,
};
use crate::paths::joined_path;
use crate::sysfs::{
    answer, device_dir, driver_dir, drm_dir, iommu_groups_dir, module_dir, vfio_dir,
    SysfsReplyView, SysfsRequestView, SysfsTranscript,
};
use crate::text::{decimal, trimmed, unsigned_value};

verus! {

/// What a host that does not change replies to each request.
pub type Host = spec_fn(SysfsRequestView) -> SysfsReplyView;

/// Every reply that the exchange has used is the one that `host` gives.
pub open spec fn told_by(t: SysfsTranscript, host: Host) -> bool {
    &&& t.live()
    &&& forall|i: int| 0 <= i < t.asked.len() ==> #[trigger] t.replies[i] == host(t.asked[i])
}

proof fn lemma_told_so_far(t: SysfsTranscript, later: SysfsTranscript, host: Host)
    requires
        t.leads_to(later),
        told_by(later, host),
    ensures
        told_by(t, host),
        t.asked.len() > 0 ==> answer(t) == host(t.asked.last()),
{
    assert forall|i: int| 0 <= i < t.asked.len() implies #[trigger] t.replies[i] == host(
        t.asked[i],
    ) by {
        assert(later.replies[i] == host(later.asked[i]));
    }
}

pub broadcast proof fn lemma_told_before(t: SysfsTranscript, later: SysfsTranscript, host: Host)
    requires
        #[trigger] only_reads(t, later),
        #[trigger] told_by(later, host),
    ensures
        told_by(t, host),
        t.asked.len() > 0 ==> answer(t) == host(t.asked.last()),
{
    lemma_told_so_far(t, later, host);
}

/// On `host`, the entry `sub` of a card is an output that is connected.
pub open spec fn output_connected(
    host: Host,
    card_dir: Seq<char>,
    output_prefix: Seq<char>,
    sub: Seq<char>,
) -> bool {
    let status = host(
        SysfsRequestView::ReadText { path: joined_path(joined_path(card_dir, sub), "status"@) },
    );
    &&& output_prefix.is_prefix_of(sub)
    &&& status.ok
    &&& trimmed(status.text) == "connected"@
}

/// On `host`, the display adapter `name` belongs to the device at `addr` and either
/// was used to boot or has a connected output.
pub open spec fn card_in_use(
    host: Host,
    drm: Seq<char>,
    name: Seq<char>,
    addr: Seq<char>,
) -> bool {
    let card = joined_path(drm, name);
    let device = joined_path(card, "device"@);
    let link = host(SysfsRequestView::ReadLink { path: device });
    let boot = host(SysfsRequestView::ReadText { path: joined_path(device, "boot_vga"@) });
    let subs = host(SysfsRequestView::ListDir { path: card });
    &&& is_card_name(name)
    &&& link.ok && addr.is_suffix_of(link.text)
    &&& {
        ||| boot.ok && trimmed(boot.text) == "1"@
        ||| subs.ok && exists|j: int|
            0 <= j < subs.names.len() && output_connected(
                host,
                card,
                name + "-"@,
                #[trigger] subs.names[j],
            )
    }
}

proof fn lemma_connectors_mean(
    t: SysfsTranscript,
    host: Host,
    card_dir: Seq<char>,
    output_prefix: Seq<char>,
    subs: Seq<Seq<char>>,
    i: nat,
)
    requires
        told_by(connectors_run(t, card_dir, output_prefix, subs, i).0, host),
    ensures
        connectors_run(t, card_dir, output_prefix, subs, i).1 <==> exists|j: int|
            i <= j < subs.len() && output_connected(
                host,
                card_dir,
                output_prefix,
                #[trigger] subs[j],
            ),
    decreases subs.len() - i,
{
    if i < subs.len() {
        let sub = subs[i as int];
        let end = connectors_run(t, card_dir, output_prefix, subs, i).0;
        let path = joined_path(joined_path(card_dir, sub), "status"@);
        if output_prefix.is_prefix_of(sub) {
            let u = t.ask(SysfsRequestView::ReadText { path });
            lemma_connectors_read(u, card_dir, output_prefix, subs, i + 1);
            lemma_connectors_read(t, card_dir, output_prefix, subs, i);
            lemma_told_so_far(u, end, host);
            lemma_told_so_far(t, end, host);
            if answer(u).ok && trimmed(answer(u).text) == "connected"@ {
                assert(output_connected(host, card_dir, output_prefix, subs[i as int]));
            } else {
                assert(!output_connected(host, card_dir, output_prefix, sub));
                lemma_connectors_mean(u, host, card_dir, output_prefix, subs, i + 1);
            }
        } else {
            lemma_connectors_mean(t, host, card_dir, output_prefix, subs, i + 1);
        }
    }
}

proof fn lemma_card_means(
    t: SysfsTranscript,
    host: Host,
    drm: Seq<char>,
    name: Seq<char>,
    addr: Seq<char>,
)
    requires
        told_by(card_run(t, drm, name, addr).0, host),
    ensures
        card_run(t, drm, name, addr).1 == card_in_use(host, drm, name, addr),
{
    broadcast use group_reads;

    let end = card_run(t, drm, name, addr).0;
    let card = joined_path(drm, name);
    let device = joined_path(card, "device"@);
    let t1 = t.ask(SysfsRequestView::ReadLink { path: device });
    let t2 = t1.ask(SysfsRequestView::ReadText { path: joined_path(device, "boot_vga"@) });
    let t3 = t2.ask(SysfsRequestView::ListDir { path: card });
    let subs = answer(t3).names;
    lemma_connectors_read(t3, card, name + "-"@, subs, 0);
    lemma_card_reads(t, drm, name, addr);
    lemma_told_so_far(t, end, host);
    if is_card_name(name) {
        lemma_told_so_far(t1, end, host);
        if answer(t1).ok && addr.is_suffix_of(answer(t1).text) {
            lemma_told_so_far(t2, end, host);
            if !(answer(t2).ok && trimmed(answer(t2).text) == "1"@) {
                lemma_told_so_far(t3, end, host);
                if answer(t3).ok {
                    lemma_connectors_mean(t3, host, card, name + "-"@, subs, 0);
                }
            }
        }
    }
}

proof fn lemma_cards_mean(
    t: SysfsTranscript,
    host: Host,
    drm: Seq<char>,
    addr: Seq<char>,
    names: Seq<Seq<char>>,
    i: nat,
)
    requires
        told_by(cards_run(t, drm, addr, names, i).0, host),
    ensures
        cards_run(t, drm, addr, names, i).1 <==> exists|j: int|
            i <= j < names.len() && card_in_use(host, drm, #[trigger] names[j], addr),
    decreases names.len() - i,
{
    if i < names.len() {
        let end = cards_run(t, drm, addr, names, i).0;
        let (u, attached) = card_run(t, drm, names[i as int], addr);
        lemma_cards_read(u, drm, addr, names, i + 1);
        lemma_told_so_far(u, end, host);
        lemma_card_means(t, host, drm, names[i as int], addr);
        if attached {
            assert(card_in_use(host, drm, names[i as int], addr));
        } else {
            lemma_cards_mean(u, host, drm, addr, names, i + 1);
        }
    }
}

/// On `host`, one of the display adapters belongs to the GPU at `addr` and either
/// was used to boot or has a connected output.
pub open spec fn drives_display(host: Host, root: Seq<char>, addr: Seq<char>) -> bool {
    let cards = host(SysfsRequestView::ListDir { path: drm_dir(root) });
    cards.ok && exists|j: int|
        0 <= j < cards.names.len() && card_in_use(
            host,
            drm_dir(root),
            #[trigger] cards.names[j],
            addr,
        )
}

/// A GPU counts as attached to a display exactly where one of the host's display
/// adapters belongs to it and either was used to boot or has a connected output.
pub proof fn law_display_check_means(
    t: SysfsTranscript,
    host: Host,
    root: Seq<char>,
    addr: Seq<char>,
)
    requires
        told_by(display_run(t, root, addr).0, host),
    ensures
        display_run(t, root, addr).1 == drives_display(host, root, addr),
{
    let end = display_run(t, root, addr).0;
    let u = t.ask(SysfsRequestView::ListDir { path: drm_dir(root) });
    lemma_cards_read(u, drm_dir(root), addr, answer(u).names, 0);
    lemma_display_reads(t, root, addr);
    lemma_told_so_far(t, end, host);
    lemma_told_so_far(u, end, host);
    if answer(u).ok {
        lemma_cards_mean(u, host, drm_dir(root), addr, answer(u).names, 0);
    }
}

/// On `host`, the device at `addr` is on the passthrough driver.
pub open spec fn on_vfio(host: Host, root: Seq<char>, addr: Seq<char>) -> bool {
    linked_driver(
        host(SysfsRequestView::ReadLink { path: joined_path(device_dir(root, addr), "driver"@) }),
    ) == Some(VFIO_DRIVER@)
}

proof fn lemma_all_vfio_mean(
    t: SysfsTranscript,
    host: Host,
    root: Seq<char>,
    peers: Seq<Seq<char>>,
    i: nat,
)
    requires
        told_by(all_vfio_run(t, root, peers, i).0, host),
    ensures
        all_vfio_run(t, root, peers, i).1 <==> forall|j: int|
            i <= j < peers.len() ==> on_vfio(host, root, #[trigger] peers[j]),
    decreases peers.len() - i,
{
    if i < peers.len() {
        let end = all_vfio_run(t, root, peers, i).0;
        let (u, driver) = current_driver_run(t, root, peers[i as int]);
        lemma_all_vfio_read(u, root, peers, i + 1);
        lemma_all_vfio_read(t, root, peers, i);
        lemma_told_so_far(t, end, host);
        lemma_told_so_far(u, end, host);
        if driver == Some(VFIO_DRIVER@) {
            assert(on_vfio(host, root, peers[i as int]));
            lemma_all_vfio_mean(u, host, root, peers, i + 1);
        } else {
            assert(!on_vfio(host, root, peers[i as int]));
        }
    }
}

/// On `host`, the IOMMU group of the device at `addr` can be listed, or does not
/// exist, and all of its other devices are on the passthrough driver.
pub open spec fn group_clean(host: Host, root: Seq<char>, addr: Seq<char>) -> bool {
    let group = host(
        SysfsRequestView::ListDir {
            path: joined_path(device_dir(root, addr), "iommu_group/devices"@),
        },
    );
    &&& is_pci_addr(addr)
    &&& if group.ok {
        forall|j: int|
            0 <= j < group.names.len() && group.names[j] != addr ==> on_vfio(
                host,
                root,
                #[trigger] group.names[j],
            )
    } else {
        group.kind == FaultKind::NotFound
    }
}

/// An IOMMU group is clean exactly where it can be listed, or does not exist, and
/// all of its other devices are on the passthrough driver.
pub proof fn law_clean_group_means(
    t: SysfsTranscript,
    host: Host,
    root: Seq<char>,
    addr: Seq<char>,
)
    requires
        told_by(group_clean_run(t, root, addr).0, host),
    ensures
        group_clean_run(t, root, addr).1 == group_clean(host, root, addr),
{
    let end = group_clean_run(t, root, addr).0;
    let (u, peers) = peers_run(t, root, addr);
    let names = answer(u).names;
    match peers {
        Ok(peers) => {
            lemma_all_vfio_read(u, root, peers, 0);
        },
        Err(_) => {},
    }
    lemma_told_so_far(u, end, host);
    match peers {
        Ok(listed) => {
            lemma_all_vfio_mean(u, host, root, listed, 0);
            assert(answer(u) == host(u.asked.last()));
            if answer(u).ok {
                let differs = differs_from(addr);
                assert forall|j: int| 0 <= j < listed.len() implies names.contains(
                    #[trigger] listed[j],
                ) && listed[j] != addr by {
                    assert(listed.contains(listed[j]));
                    names.lemma_filter_contains_rev(differs, listed[j]);
                    names.lemma_filter_pred(differs, j);
                }
                if group_clean_run(t, root, addr).1 {
                    assert forall|j: int| 0 <= j < names.len() && names[j] != addr implies on_vfio(
                        host,
                        root,
                        #[trigger] names[j],
                    ) by {
                        names.lemma_filter_contains(differs, j);
                        let k = choose|k: int| 0 <= k < listed.len() && listed[k] == names[j];
                        assert(on_vfio(host, root, listed[k]));
                    }
                } else {
                    let k = choose|k: int|
                        0 <= k < listed.len() && !on_vfio(host, root, #[trigger] listed[k]);
                    let j = choose|j: int| 0 <= j < names.len() && names[j] == listed[k];
                    assert(!on_vfio(host, root, names[j]));
                }
            }
        },
        Err(_) => {},
    }
}

/// On `host`, a device is not on the passthrough driver.
pub open spec fn off_vfio(host: Host, root: Seq<char>) -> spec_fn(Seq<char>) -> bool {
    |addr: Seq<char>| !on_vfio(host, root, addr)
}

/// On `host`, the other devices of the IOMMU group that are not on the passthrough
/// driver, in the order of the listing. None are known of a group that cannot be
/// listed.
pub open spec fn dirty_peers(host: Host, root: Seq<char>, addr: Seq<char>) -> Seq<Seq<char>> {
    let group = host(
        SysfsRequestView::ListDir {
            path: joined_path(device_dir(root, addr), "iommu_group/devices"@),
        },
    );
    if is_pci_addr(addr) && group.ok {
        group.names.filter(differs_from(addr)).filter(off_vfio(host, root))
    } else {
        Seq::empty()
    }
}

proof fn lemma_dirty_peers_mean(
    t: SysfsTranscript,
    host: Host,
    root: Seq<char>,
    peers: Seq<Seq<char>>,
    i: nat,
    found: Seq<Seq<char>>,
)
    requires
        i <= peers.len(),
        found == peers.take(i as int).filter(off_vfio(host, root)),
        told_by(dirty_peers_run(t, root, peers, i, found).0, host),
    ensures
        dirty_peers_run(t, root, peers, i, found).1 == peers.filter(off_vfio(host, root)),
    decreases peers.len() - i,
{
    broadcast use {group_reads, lemma_told_before};

    if i < peers.len() {
        let peer = peers[i as int];
        let next = peers.take((i + 1) as int);
        assert(next.drop_last() =~= peers.take(i as int));
        assert(next.last() == peer);
        reveal(Seq::filter);
        let (u, driver) = current_driver_run(t, root, peer);
        let now = if driver == Some(VFIO_DRIVER@) {
            found
        } else {
            found.push(peer)
        };
        lemma_dirty_peers_read(u, root, peers, i + 1, now);
        assert(only_reads(u, u));
        assert(told_by(u, host));
        assert(off_vfio(host, root)(peer) == (driver != Some(VFIO_DRIVER@)));
        lemma_dirty_peers_mean(u, host, root, peers, i + 1, now);
    } else {
        assert(peers.take(i as int) =~= peers);
    }
}

/// The devices of an IOMMU group that are found not to be on the passthrough driver
/// are exactly those that are not.
pub proof fn law_dirty_group_means(t: SysfsTranscript, host: Host, root: Seq<char>, addr: Seq<char>)
    requires
        told_by(dirty_group_run(t, root, addr).0, host),
    ensures
        dirty_group_run(t, root, addr).1 == dirty_peers(host, root, addr),
{
    broadcast use {group_reads, lemma_told_before};

    let (u, peers) = peers_run(t, root, addr);
    reveal(Seq::filter);
    match peers {
        Ok(listed) => {
            lemma_dirty_peers_read(u, root, listed, 0, Seq::empty());
            assert(only_reads(u, u));
            assert(told_by(u, host));
            assert(listed.take(0) =~= Seq::empty());
            assert(listed.take(0).filter(off_vfio(host, root)) =~= Seq::empty());
            lemma_dirty_peers_mean(u, host, root, listed, 0, Seq::empty());
            assert(answer(u) == host(u.asked.last()));
        },
        Err(_) => {},
    }
}

/// On `host`, the GPU at `addr` is on the passthrough driver together with all of
/// its group: it can be used as it is.
pub open spec fn is_ready(host: Host, root: Seq<char>, addr: Seq<char>) -> bool {
    on_vfio(host, root, addr) && group_clean(host, root, addr)
}

/// A GPU is found ready exactly where it is.
pub proof fn law_ready_check_means(t: SysfsTranscript, host: Host, root: Seq<char>, addr: Seq<char>)
    requires
        told_by(is_ready_run(t, root, addr).0, host),
    ensures
        is_ready_run(t, root, addr).1 == is_ready(host, root, addr),
{
    broadcast use {group_reads, lemma_told_before};

    let (u, driver) = current_driver_run(t, root, addr);
    lemma_group_clean_reads(u, root, addr);
    assert(only_reads(t, u));
    if driver == Some(VFIO_DRIVER@) {
        law_clean_group_means(u, host, root, addr);
    }
}

/// On `host`, there are IOMMU groups, and the device at `addr` belongs to one.
pub open spec fn has_iommu(host: Host, root: Seq<char>, addr: Seq<char>) -> bool {
    &&& host(SysfsRequestView::IsDir { path: iommu_groups_dir(root) }).ok
    &&& host(
        SysfsRequestView::Exists { path: joined_path(device_dir(root, addr), "iommu_group"@) },
    ).ok
}

/// On `host`, both kernel modules that passthrough needs are loaded.
pub open spec fn has_modules(host: Host, root: Seq<char>) -> bool {
    &&& host(SysfsRequestView::IsDir { path: module_dir(root, "vfio_pci"@) }).ok
    &&& host(SysfsRequestView::IsDir { path: module_dir(root, "vfio_iommu_type1"@) }).ok
}

/// On `host`, `path` is writable, where it exists.
pub open spec fn may_write(host: Host, path: Seq<char>) -> bool {
    host(SysfsRequestView::Exists { path }).ok ==> host(SysfsRequestView::IsWritable { path }).ok
}

/// On `host`, every attribute that binding the device at `addr` writes is writable,
/// and so is the directory of the devices that a machine is given, where it exists.
pub open spec fn may_bind(host: Host, root: Seq<char>, addr: Seq<char>) -> bool {
    let dev = device_dir(root, addr);
    let unbind = joined_path(dev, "driver/unbind"@);
    let bind = joined_path(driver_dir(root, VFIO_DRIVER@), "bind"@);
    &&& may_write(host, unbind)
    &&& host(SysfsRequestView::IsWritable { path: joined_path(dev, "driver_override"@) }).ok
    &&& host(SysfsRequestView::IsWritable { path: bind }).ok
    &&& may_write(host, vfio_dir(root))
}

/// The checks of IOMMU, kernel modules and permissions pass exactly where the host
/// has what each asks for.
pub proof fn law_host_checks_mean(t: SysfsTranscript, host: Host, root: Seq<char>, addr: Seq<char>)
    ensures
        told_by(iommu_run(t, root, addr).0, host) ==> iommu_run(t, root, addr).1 == has_iommu(
            host,
            root,
            addr,
        ),
        told_by(modules_run(t, root).0, host) ==> modules_run(t, root).1 == has_modules(host, root),
        told_by(permissions_run(t, root, addr).0, host) ==> permissions_run(t, root, addr).1
            == may_bind(host, root, addr),
{
    broadcast use {group_reads, lemma_told_before};

    let dev = device_dir(root, addr);
    let t1 = allowed_run(t, joined_path(dev, "driver/unbind"@)).0;
    assert(only_reads(t, t1));
    let t2 = t1.ask(SysfsRequestView::IsWritable { path: joined_path(dev, "driver_override"@) });
    let t3 = t2.ask(
        SysfsRequestView::IsWritable {
            path: joined_path(driver_dir(root, VFIO_DRIVER@), "bind"@),
        },
    );
    assert(only_reads(t3, allowed_run(t3, vfio_dir(root)).0));
}

/// On `host`, the process behind an entry of `/proc`, where it is one that holds an
/// NVIDIA device open.
pub open spec fn gpu_user(host: Host, name: Seq<char>) -> Option<(u32, Seq<char>)> {
    let handles = host(
        SysfsRequestView::ListLinks { path: joined_path(joined_path("/proc"@, name), "fd"@) },
    );
    match unsigned_value(name, u32::MAX as nat) {
        None => None,
        Some(pid) => if handles.ok && some_nvidia_handle(handles.names) {
            let command = host(
                SysfsRequestView::ReadText { path: "/proc/"@ + decimal(pid) + "/comm"@ },
            );
            Some(
                (
                    pid as u32,
                    if command.ok {
                        trimmed(command.text)
                    } else {
                        Seq::empty()
                    },
                ),
            )
        } else {
            None
        },
    }
}

/// On `host`, the processes among `names` that hold an NVIDIA device open, in order.
pub open spec fn gpu_users_among(host: Host, names: Seq<Seq<char>>) -> Seq<(u32, Seq<char>)>
    decreases names.len(),
{
    if names.len() == 0 {
        Seq::empty()
    } else {
        let before = gpu_users_among(host, names.drop_last());
        match gpu_user(host, names.last()) {
            Some(user) => before.push(user),
            None => before,
        }
    }
}

/// On `host`, the processes that hold an NVIDIA device open. Where processes cannot
/// be listed, none are known.
pub open spec fn gpu_users(host: Host) -> Seq<(u32, Seq<char>)> {
    let all = host(SysfsRequestView::ListDir { path: "/proc"@ });
    if all.ok {
        gpu_users_among(host, all.names)
    } else {
        Seq::empty()
    }
}

proof fn lemma_process_means(t: SysfsTranscript, host: Host, name: Seq<char>)
    requires
        told_by(process_run(t, name).0, host),
    ensures
        process_run(t, name).1 == gpu_user(host, name),
{
    broadcast use {group_reads, lemma_told_before};

}

proof fn lemma_processes_mean(
    t: SysfsTranscript,
    host: Host,
    names: Seq<Seq<char>>,
    i: nat,
    found: Seq<(u32, Seq<char>)>,
)
    requires
        i <= names.len(),
        found == gpu_users_among(host, names.take(i as int)),
        told_by(processes_run(t, names, i, found).0, host),
    ensures
        processes_run(t, names, i, found).1 == gpu_users_among(host, names),
    decreases names.len() - i,
{
    broadcast use {group_reads, lemma_told_before};

    if i < names.len() {
        let (u, process) = process_run(t, names[i as int]);
        let next = names.take((i + 1) as int);
        assert(next.drop_last() =~= names.take(i as int));
        assert(next.last() == names[i as int]);
        let now = match process {
            Some(p) => found.push(p),
            None => found,
        };
        lemma_processes_read(u, names, i + 1, now);
        lemma_process_means(t, host, names[i as int]);
        lemma_processes_mean(u, host, names, i + 1, now);
    } else {
        assert(names.take(i as int) =~= names);
    }
}

/// The processes that are found to hold an NVIDIA device open are exactly those that
/// do.
pub proof fn law_process_check_means(t: SysfsTranscript, host: Host)
    requires
        told_by(gpu_processes_run(t).0, host),
    ensures
        found_processes(gpu_processes_run(t).1) == gpu_users(host),
{
    broadcast use {group_reads, lemma_told_before};

    let u = t.ask(SysfsRequestView::ListDir { path: "/proc"@ });
    let names = answer(u).names;
    lemma_processes_read(u, names, 0, Seq::empty());
    if answer(u).ok {
        assert(names.take(0) =~= Seq::empty());
        assert(gpu_users_among(host, names.take(0)) =~= Seq::empty());
        lemma_processes_mean(u, host, names, 0, Seq::empty());
    }
}

/// On `host`, the device `name` is an NVIDIA GPU.
pub open spec fn is_gpu(host: Host, root: Seq<char>) -> spec_fn(Seq<char>) -> bool {
    |name: Seq<char>|
        {
            let dev = device_dir(root, name);
            let vendor = attribute_value(
                host(SysfsRequestView::ReadText { path: joined_path(dev, "vendor"@) }),
            );
            let class = attribute_value(
                host(SysfsRequestView::ReadText { path: joined_path(dev, "class"@) }),
            );
            &&& vendor == Some(NVIDIA_VENDOR_ID@)
            &&& class is Some && "0x03"@.is_prefix_of(class->0)
        }
}

proof fn lemma_gpus_mean(
    t: SysfsTranscript,
    host: Host,
    root: Seq<char>,
    names: Seq<Seq<char>>,
    i: nat,
    found: Seq<Seq<char>>,
)
    requires
        i <= names.len(),
        found == names.take(i as int).filter(is_gpu(host, root)),
        told_by(gpus_run(t, root, names, i, found).0, host),
    ensures
        gpus_run(t, root, names, i, found).1 == names.filter(is_gpu(host, root)),
    decreases names.len() - i,
{
    broadcast use {group_reads, lemma_told_before};

    if i < names.len() {
        let pred = is_gpu(host, root);
        let name = names[i as int];
        let next = names.take((i + 1) as int);
        assert(next.drop_last() =~= names.take(i as int));
        assert(next.last() == name);
        reveal(Seq::filter);
        let dev = device_dir(root, name);
        let (t1, vendor) = attribute_run(t, dev, "vendor"@);
        let (t2, class) = attribute_run(t1, dev, "class"@);
        assert(only_reads(t, t1));
        assert(only_reads(t1, t2));
        if vendor is None {
            lemma_gpus_read(t1, root, names, i + 1, found);
            assert(!pred(name));
            lemma_gpus_mean(t1, host, root, names, i + 1, found);
        } else {
            let found_one = class is Some && vendor->0 == NVIDIA_VENDOR_ID@ && "0x03"@.is_prefix_of(
                class->0,
            );
            let now = if found_one {
                found.push(name)
            } else {
                found
            };
            lemma_gpus_read(t2, root, names, i + 1, now);
            assert(pred(name) == found_one);
            lemma_gpus_mean(t2, host, root, names, i + 1, now);
        }
    } else {
        assert(names.take(i as int) =~= names);
    }
}

/// The GPUs that are found among the devices of a host are exactly its NVIDIA GPUs.
pub proof fn law_gpus_are_found(
    t: SysfsTranscript,
    host: Host,
    root: Seq<char>,
    names: Seq<Seq<char>>,
)
    requires
        told_by(gpus_run(t, root, names, 0, Seq::empty()).0, host),
    ensures
        gpus_run(t, root, names, 0, Seq::empty()).1 == names.filter(is_gpu(host, root)),
{
    reveal(Seq::filter);
    assert(names.take(0) =~= Seq::empty());
    assert(names.take(0).filter(is_gpu(host, root)) =~= Seq::empty());
    lemma_gpus_mean(t, host, root, names, 0, Seq::empty());
}

/// On `host`, the entry `member` of an IOMMU group is on the passthrough driver.
pub open spec fn member_on_vfio(host: Host, group: Seq<char>, member: Seq<char>) -> bool {
    linked_driver(
        host(
            SysfsRequestView::ReadLink {
                path: joined_path(joined_path(group, member), "driver"@),
            },
        ),
    ) == Some(VFIO_DRIVER@)
}

/// On `host`, the state of the NVIDIA device whose directory is `dev`.
pub open spec fn readiness(host: Host, dev: Seq<char>) -> HostNvidiaVfioReadiness {
    let group = joined_path(dev, "iommu_group/devices"@);
    let members = host(SysfsRequestView::ListDir { path: group });
    if linked_driver(host(SysfsRequestView::ReadLink { path: joined_path(dev, "driver"@) }))
        != Some(VFIO_DRIVER@) {
        HostNvidiaVfioReadiness::BoundToNvidia
    } else if members.ok && forall|j: int|
        0 <= j < members.names.len() ==> member_on_vfio(host, group, #[trigger] members.names[j]) {
        HostNvidiaVfioReadiness::VfioBoundReady
    } else {
        HostNvidiaVfioReadiness::VfioBoundDirtyGroup
    }
}

proof fn lemma_members_mean(
    t: SysfsTranscript,
    host: Host,
    group: Seq<char>,
    members: Seq<Seq<char>>,
    i: nat,
)
    requires
        told_by(members_run(t, group, members, i).0, host),
    ensures
        members_run(t, group, members, i).1 <==> forall|j: int|
            i <= j < members.len() ==> member_on_vfio(host, group, #[trigger] members[j]),
    decreases members.len() - i,
{
    broadcast use {group_reads, lemma_told_before};

    if i < members.len() {
        let path = joined_path(joined_path(group, members[i as int]), "driver"@);
        let u = t.ask(SysfsRequestView::ReadLink { path });
        lemma_members_read(u, group, members, i + 1);
        assert(only_reads(u, u));
        assert(told_by(u, host));
        if member_on_vfio(host, group, members[i as int]) {
            lemma_members_mean(u, host, group, members, i + 1);
        }
    }
}

proof fn lemma_readiness_means(t: SysfsTranscript, host: Host, dev: Seq<char>)
    requires
        told_by(readiness_run(t, dev).0, host),
    ensures
        readiness_run(t, dev).1 == readiness(host, dev),
{
    broadcast use {group_reads, lemma_told_before};

    let group = joined_path(dev, "iommu_group/devices"@);
    let u = t.ask(SysfsRequestView::ReadLink { path: joined_path(dev, "driver"@) });
    let v = u.ask(SysfsRequestView::ListDir { path: group });
    let names = answer(v).names;
    lemma_members_read(v, group, names, 0);
    assert(only_reads(v, v));
    if linked_driver(answer(u)) == Some(VFIO_DRIVER@) && answer(v).ok {
        lemma_members_mean(v, host, group, names, 0);
    }
}

/// On `host`, the NVIDIA devices among `names` with their states, in order.
pub open spec fn states_among(host: Host, names: Seq<Seq<char>>) -> Seq<
    (Seq<char>, HostNvidiaVfioReadiness),
>
    decreases names.len(),
{
    if names.len() == 0 {
        Seq::empty()
    } else {
        let before = states_among(host, names.drop_last());
        let dev = joined_path(PCI_DEVICES@, names.last());
        if attribute_value(host(SysfsRequestView::ReadText { path: joined_path(dev, "vendor"@) }))
            == Some(NVIDIA_VENDOR_ID@) {
            before.push((names.last(), readiness(host, dev)))
        } else {
            before
        }
    }
}

proof fn lemma_survey_means(
    t: SysfsTranscript,
    host: Host,
    names: Seq<Seq<char>>,
    i: nat,
    found: Seq<(Seq<char>, HostNvidiaVfioReadiness)>,
)
    requires
        i <= names.len(),
        found == states_among(host, names.take(i as int)),
        told_by(survey_run(t, names, i, found).0, host),
    ensures
        survey_run(t, names, i, found).1 == states_among(host, names),
    decreases names.len() - i,
{
    broadcast use {group_reads, lemma_told_before};

    if i < names.len() {
        let next = names.take((i + 1) as int);
        assert(next.drop_last() =~= names.take(i as int));
        assert(next.last() == names[i as int]);
        let dev = joined_path(PCI_DEVICES@, names[i as int]);
        let (u, vendor) = attribute_run(t, dev, "vendor"@);
        assert(only_reads(t, u));
        lemma_readiness_reads(u, dev);
        let (v, state) = readiness_run(u, dev);
        let now = found.push((names[i as int], state));
        lemma_survey_reads(v, names, i + 1, now);
        lemma_survey_reads(u, names, i + 1, found);
        if vendor == Some(NVIDIA_VENDOR_ID@) {
            assert(told_by(v, host));
            lemma_readiness_means(u, host, dev);
            lemma_survey_means(v, host, names, i + 1, now);
        } else {
            lemma_survey_means(u, host, names, i + 1, found);
        }
    } else {
        assert(names.take(i as int) =~= names);
    }
}

/// Probing lists exactly the NVIDIA devices of a host, in the order of its listing,
/// each with its state, and only reads. A host that does not list devices has none.
pub proof fn law_probe_means(t: SysfsTranscript, host: Host)
    requires
        told_by(probe_run(t).0, host),
    ensures
        only_reads(t, probe_run(t).0),
        ({
            let devices = host(SysfsRequestView::ListDir { path: PCI_DEVICES@ });
            probe_run(t).1 == if devices.ok {
                states_among(host, devices.names)
            } else {
                Seq::empty()
            }
        }),
{
    broadcast use {group_reads, lemma_told_before};

    let u = t.ask(SysfsRequestView::ListDir { path: PCI_DEVICES@ });
    let names = answer(u).names;
    lemma_survey_reads(u, names, 0, Seq::empty());
    if answer(u).ok {
        assert(names.take(0) =~= Seq::empty());
        assert(states_among(host, names.take(0)) =~= Seq::empty());
        lemma_survey_means(u, host, names, 0, Seq::empty());
    }
}

} // verus!
