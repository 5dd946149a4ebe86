//! What only reads: every check on a GPU, and looking for GPUs.

use vstd::prelude::*;

use crate::gpu::checks::{
    all_vfio_run, allowed_run, card_run, cards_run, connectors_run, current_driver_run,
    dirty_group_run, dirty_peers_run, display_run, gpu_processes_run, group_clean_run, iommu_run,
    modules_run, peers_run, permissions_run, process_run, processes_run, VFIO_DRIVER,
};
use crate::gpu::prepare::{first_ready_run, gpus_run, is_ready_run, reason_run, refusal_run};
use crate::gpu::probe::{
    attribute_run, members_run, readiness_run, survey_run, HostNvidiaVfioReadiness, PCI_DEVICES,
};
use crate::paths::joined_path;
use crate::sysfs::{
    answer, device_dir, driver_dir, drm_dir, vfio_dir, SysfsRequestView, SysfsTranscript,
};

verus! {

/// `later` went on from `t` without asking for a write.
pub open spec fn only_reads(t: SysfsTranscript, later: SysfsTranscript) -> bool {
    &&& t.leads_to(later)
    &&& forall|i: int|
        t.asked.len() <= i < later.asked.len() ==> !(#[trigger] later.asked[i]).is_write()
}

pub broadcast proof fn lemma_read(t: SysfsTranscript, q: SysfsRequestView)
    requires
        !q.is_write(),
    ensures
        only_reads(t, #[trigger] t.ask(q)),
{
}

pub broadcast proof fn lemma_reads_on(a: SysfsTranscript, b: SysfsTranscript, c: SysfsTranscript)
    requires
        #[trigger] only_reads(a, b),
        #[trigger] only_reads(b, c),
    ensures
        only_reads(a, c),
{
    assert forall|i: int| a.asked.len() <= i < c.asked.len() implies !(
    #[trigger] c.asked[i]).is_write() by {
        if i < b.asked.len() {
            assert(c.asked[i] == b.asked[i]);
        }
    }
}

pub broadcast group group_reads {
    lemma_read,
    lemma_reads_on,
}

pub proof fn lemma_connectors_read(
    t: SysfsTranscript,
    card_dir: Seq<char>,
    output_prefix: Seq<char>,
    subs: Seq<Seq<char>>,
    i: nat,
)
    ensures
        only_reads(t, connectors_run(t, card_dir, output_prefix, subs, i).0),
    decreases subs.len() - i,
{
    broadcast use group_reads;

    if i < subs.len() {
        let path = joined_path(
            joined_path(card_dir, subs[i as int]),
            "status"@,
        );
        let u = t.ask(SysfsRequestView::ReadText { path });
        lemma_connectors_read(u, card_dir, output_prefix, subs, i + 1);
        lemma_connectors_read(t, card_dir, output_prefix, subs, i + 1);
    }
}

pub proof fn lemma_card_reads(t: SysfsTranscript, drm: Seq<char>, name: Seq<char>, addr: Seq<char>)
    ensures
        only_reads(t, card_run(t, drm, name, addr).0),
{
    broadcast use group_reads;

    let card = joined_path(drm, name);
    let device = joined_path(card, "device"@);
    let t1 = t.ask(SysfsRequestView::ReadLink { path: device });
    let t2 = t1.ask(
        SysfsRequestView::ReadText { path: joined_path(device, "boot_vga"@) },
    );
    let t3 = t2.ask(SysfsRequestView::ListDir { path: card });
    lemma_connectors_read(t3, card, name + "-"@, answer(t3).names, 0);
}

pub proof fn lemma_cards_read(
    t: SysfsTranscript,
    drm: Seq<char>,
    addr: Seq<char>,
    names: Seq<Seq<char>>,
    i: nat,
)
    ensures
        only_reads(t, cards_run(t, drm, addr, names, i).0),
    decreases names.len() - i,
{
    broadcast use group_reads;

    if i < names.len() {
        lemma_card_reads(t, drm, names[i as int], addr);
        lemma_cards_read(card_run(t, drm, names[i as int], addr).0, drm, addr, names, i + 1);
    }
}

pub proof fn lemma_display_reads(t: SysfsTranscript, root: Seq<char>, addr: Seq<char>)
    ensures
        only_reads(t, display_run(t, root, addr).0),
{
    broadcast use group_reads;

    let drm = drm_dir(root);
    let u = t.ask(SysfsRequestView::ListDir { path: drm });
    lemma_cards_read(u, drm, addr, answer(u).names, 0);
}

pub proof fn lemma_processes_read(
    t: SysfsTranscript,
    names: Seq<Seq<char>>,
    i: nat,
    found: Seq<(u32, Seq<char>)>,
)
    ensures
        only_reads(t, processes_run(t, names, i, found).0),
    decreases names.len() - i,
{
    broadcast use group_reads;

    if i < names.len() {
        let (u, process) = process_run(t, names[i as int]);
        assert(only_reads(t, u));
        match process {
            Some(p) => {
                lemma_processes_read(u, names, i + 1, found.push(p));
            },
            None => {
                lemma_processes_read(u, names, i + 1, found);
            },
        }
    }
}

pub proof fn lemma_gpu_processes_read(t: SysfsTranscript)
    ensures
        only_reads(t, gpu_processes_run(t).0),
{
    broadcast use group_reads;

    let u = t.ask(SysfsRequestView::ListDir { path: "/proc"@ });
    lemma_processes_read(u, answer(u).names, 0, Seq::empty());
}

pub proof fn lemma_host_reads(t: SysfsTranscript, root: Seq<char>, addr: Seq<char>)
    ensures
        only_reads(t, iommu_run(t, root, addr).0),
        only_reads(t, modules_run(t, root).0),
        only_reads(t, permissions_run(t, root, addr).0),
{
    broadcast use group_reads;

    let dev = device_dir(root, addr);
    let unbind = joined_path(dev, "driver/unbind"@);
    let t1 = allowed_run(t, unbind).0;
    assert(only_reads(t, t1));
    let t2 = t1.ask(SysfsRequestView::IsWritable { path: joined_path(dev, "driver_override"@) });
    let t3 = t2.ask(
        SysfsRequestView::IsWritable {
            path: joined_path(driver_dir(root, VFIO_DRIVER@), "bind"@),
        },
    );
    assert(only_reads(t3, allowed_run(t3, vfio_dir(root)).0));
}

pub proof fn lemma_all_vfio_read(t: SysfsTranscript, root: Seq<char>, peers: Seq<Seq<char>>, i: nat)
    ensures
        only_reads(t, all_vfio_run(t, root, peers, i).0),
    decreases peers.len() - i,
{
    broadcast use group_reads;

    if i < peers.len() {
        let u = current_driver_run(t, root, peers[i as int]).0;
        assert(only_reads(t, u));
        lemma_all_vfio_read(u, root, peers, i + 1);
    }
}

pub proof fn lemma_group_clean_reads(t: SysfsTranscript, root: Seq<char>, addr: Seq<char>)
    ensures
        only_reads(t, group_clean_run(t, root, addr).0),
{
    broadcast use group_reads;

    let (v, peers) = peers_run(t, root, addr);
    assert(only_reads(t, v));
    match peers {
        Ok(peers) => {
            lemma_all_vfio_read(v, root, peers, 0);
        },
        Err(_) => {},
    }
}

pub proof fn lemma_dirty_peers_read(
    t: SysfsTranscript,
    root: Seq<char>,
    peers: Seq<Seq<char>>,
    i: nat,
    found: Seq<Seq<char>>,
)
    ensures
        only_reads(t, dirty_peers_run(t, root, peers, i, found).0),
    decreases peers.len() - i,
{
    broadcast use group_reads;

    if i < peers.len() {
        let u = current_driver_run(t, root, peers[i as int]).0;
        assert(only_reads(t, u));
        lemma_dirty_peers_read(u, root, peers, i + 1, found);
        lemma_dirty_peers_read(u, root, peers, i + 1, found.push(peers[i as int]));
    }
}

pub proof fn lemma_dirty_group_reads(t: SysfsTranscript, root: Seq<char>, addr: Seq<char>)
    ensures
        only_reads(t, dirty_group_run(t, root, addr).0),
{
    broadcast use group_reads;

    let (v, peers) = peers_run(t, root, addr);
    assert(only_reads(t, v));
    match peers {
        Ok(peers) => {
            lemma_dirty_peers_read(v, root, peers, 0, Seq::empty());
        },
        Err(_) => {},
    }
}

pub proof fn lemma_is_ready_reads(t: SysfsTranscript, root: Seq<char>, addr: Seq<char>)
    ensures
        only_reads(t, is_ready_run(t, root, addr).0),
{
    broadcast use group_reads;

    let u = current_driver_run(t, root, addr).0;
    assert(only_reads(t, u));
    lemma_group_clean_reads(u, root, addr);
}

pub proof fn lemma_refusal_reads(t: SysfsTranscript, root: Seq<char>, addr: Seq<char>)
    ensures
        only_reads(t, refusal_run(t, root, addr).0),
{
    broadcast use lemma_reads_on;

    lemma_display_reads(t, root, addr);
    let t1 = display_run(t, root, addr).0;
    lemma_gpu_processes_read(t1);
    let t2 = gpu_processes_run(t1).0;
    lemma_host_reads(t2, root, addr);
    let t3 = iommu_run(t2, root, addr).0;
    lemma_host_reads(t3, root, addr);
    let t4 = modules_run(t3, root).0;
    lemma_host_reads(t4, root, addr);
}

pub proof fn lemma_reason_reads(
    t: SysfsTranscript,
    root: Seq<char>,
    addr: Seq<char>,
    users: Seq<(u32, Seq<char>)>,
)
    ensures
        only_reads(t, reason_run(t, root, addr, users).0),
{
    broadcast use group_reads;

    let t0 = current_driver_run(t, root, addr).0;
    assert(only_reads(t, t0));
    lemma_dirty_group_reads(t0, root, addr);
    lemma_display_reads(t0, root, addr);
    let t1 = display_run(t0, root, addr).0;
    lemma_host_reads(t1, root, addr);
    let t2 = iommu_run(t1, root, addr).0;
    lemma_host_reads(t2, root, addr);
    let t3 = modules_run(t2, root).0;
    lemma_host_reads(t3, root, addr);
}

pub proof fn lemma_gpus_read(
    t: SysfsTranscript,
    root: Seq<char>,
    names: Seq<Seq<char>>,
    i: nat,
    found: Seq<Seq<char>>,
)
    ensures
        only_reads(t, gpus_run(t, root, names, i, found).0),
    decreases names.len() - i,
{
    broadcast use group_reads;

    if i < names.len() {
        let dev = device_dir(root, names[i as int]);
        let (t1, vendor) = attribute_run(t, dev, "vendor"@);
        let (t2, class) = attribute_run(t1, dev, "class"@);
        assert(only_reads(t, t1));
        assert(only_reads(t1, t2));
        lemma_gpus_read(t1, root, names, i + 1, found);
        lemma_gpus_read(t2, root, names, i + 1, found);
        lemma_gpus_read(t2, root, names, i + 1, found.push(names[i as int]));
    }
}

pub proof fn lemma_first_ready_reads(
    t: SysfsTranscript,
    root: Seq<char>,
    addrs: Seq<Seq<char>>,
    i: nat,
)
    ensures
        only_reads(t, first_ready_run(t, root, addrs, i).0),
    decreases addrs.len() - i,
{
    broadcast use lemma_reads_on;

    if i < addrs.len() {
        lemma_is_ready_reads(t, root, addrs[i as int]);
        lemma_first_ready_reads(is_ready_run(t, root, addrs[i as int]).0, root, addrs, i + 1);
    } else {
        assert(only_reads(t, t));
    }
}

pub proof fn lemma_members_read(
    t: SysfsTranscript,
    group: Seq<char>,
    members: Seq<Seq<char>>,
    i: nat,
)
    ensures
        only_reads(t, members_run(t, group, members, i).0),
    decreases members.len() - i,
{
    broadcast use group_reads;

    if i < members.len() {
        let path = joined_path(joined_path(group, members[i as int]), "driver"@);
        lemma_members_read(t.ask(SysfsRequestView::ReadLink { path }), group, members, i + 1);
    }
}

pub proof fn lemma_readiness_reads(t: SysfsTranscript, dev: Seq<char>)
    ensures
        only_reads(t, readiness_run(t, dev).0),
{
    broadcast use group_reads;

    let group = joined_path(dev, "iommu_group/devices"@);
    let u = t.ask(SysfsRequestView::ReadLink { path: joined_path(dev, "driver"@) });
    let v = u.ask(SysfsRequestView::ListDir { path: group });
    lemma_members_read(v, group, answer(v).names, 0);
}

pub proof fn lemma_survey_reads(
    t: SysfsTranscript,
    names: Seq<Seq<char>>,
    i: nat,
    found: Seq<(Seq<char>, HostNvidiaVfioReadiness)>,
)
    ensures
        only_reads(t, survey_run(t, names, i, found).0),
    decreases names.len() - i,
{
    broadcast use group_reads;

    if i < names.len() {
        let dev = joined_path(PCI_DEVICES@, names[i as int]);
        let (u, vendor) = attribute_run(t, dev, "vendor"@);
        assert(only_reads(t, u));
        lemma_readiness_reads(u, dev);
        let (v, state) = readiness_run(u, dev);
        lemma_survey_reads(v, names, i + 1, found.push((names[i as int], state)));
        lemma_survey_reads(u, names, i + 1, found);
    }
}

} // verus!
