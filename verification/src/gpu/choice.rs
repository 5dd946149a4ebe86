//! Which GPU is prepared, on a host that does not change while it is looked at.

use vstd::prelude::*;

use crate::fault::{FaultKind, FaultView};
use crate::gpu::bind::BindView;
use crate::gpu::checks::{
    bad_pci_addr, current_driver_run, dirty_group_run, display_run, gpu_processes_run, iommu_run,
    is_pci_addr, modules_run,
};
use crate::gpu::meaning::{
    dirty_peers, drives_display, gpu_users, has_iommu, has_modules, is_gpu, is_ready,
    law_dirty_group_means, law_display_check_means, law_gpus_are_found, law_host_checks_mean,
    law_process_check_means, law_ready_check_means, lemma_told_before, may_bind, on_vfio, told_by,
    Host,
};
use crate::gpu::obstacle::{all_blocked, BlockageView, Blocked, ObstacleView};
use crate::gpu::prepare::{
    auto_run, claim_run, first_free_run, first_ready_run, found_processes, gpus_run, is_ready_run,
    ready_state, reason_run, refusal_run, select_run, specific_run, value_or_empty, Prepared,
};
use crate::gpu::probe::{attribute_run, attribute_value, NVIDIA_VENDOR_ID};
use crate::gpu::reads::{
    group_reads, lemma_dirty_group_reads, lemma_display_reads, lemma_first_ready_reads,
    lemma_gpu_processes_read, lemma_gpus_read, lemma_host_reads, lemma_is_ready_reads,
    lemma_reads_on, lemma_reason_reads, lemma_refusal_reads, only_reads,
};
use crate::order::in_order;
use crate::paths::joined_path;
use crate::sysfs::{answer, device_dir, devices_dir, SysfsRequestView, SysfsTranscript};

verus! {

/// On `host`, what stands in the way of choosing the GPU at `addr`, if anything.
pub open spec fn obstacle(host: Host, root: Seq<char>, addr: Seq<char>) -> Option<BlockageView> {
    if on_vfio(host, root, addr) {
        Some(BlockageView::DirtyGroup { peers: dirty_peers(host, root, addr) })
    } else {
        match refusal(host, root, addr) {
            Some(obstacle) => Some(BlockageView::Unsafe { obstacle }),
            None => None,
        }
    }
}

/// On `host`, what stands in the way of taking the GPU at `addr`, if anything.
pub open spec fn refusal(host: Host, root: Seq<char>, addr: Seq<char>) -> Option<ObstacleView> {
    if drives_display(host, root, addr) {
        Some(ObstacleView::Display)
    } else if gpu_users(host).len() > 0 {
        Some(ObstacleView::InUse { users: gpu_users(host) })
    } else if !has_iommu(host, root, addr) {
        Some(ObstacleView::NoIommu)
    } else if !has_modules(host, root) {
        Some(ObstacleView::NoModules)
    } else if !may_bind(host, root, addr) {
        Some(ObstacleView::NoPermission)
    } else {
        None
    }
}

proof fn lemma_reason_means(t: SysfsTranscript, host: Host, root: Seq<char>, addr: Seq<char>)
    requires
        told_by(reason_run(t, root, addr, gpu_users(host)).0, host),
    ensures
        reason_run(t, root, addr, gpu_users(host)).1 == obstacle(host, root, addr),
{
    broadcast use {group_reads, lemma_told_before};

    let t0 = current_driver_run(t, root, addr).0;
    assert(only_reads(t, t0));
    lemma_dirty_group_reads(t0, root, addr);
    lemma_display_reads(t0, root, addr);
    let t1 = display_run(t0, root, addr).0;
    lemma_host_reads(t1, root, addr);
    let t2 = iommu_run(t1, root, addr).0;
    lemma_host_reads(t2, root, addr);
    let t3 = modules_run(t2, root).0;
    lemma_host_reads(t3, root, addr);
    law_host_checks_mean(t1, host, root, addr);
    law_host_checks_mean(t2, host, root, addr);
    law_host_checks_mean(t3, host, root, addr);
    if told_by(t1, host) {
        law_display_check_means(t0, host, root, addr);
    }
    if told_by(dirty_group_run(t0, root, addr).0, host) {
        law_dirty_group_means(t0, host, root, addr);
    }
}

/// Where looking for obstacles among `addrs[i..]` stops: at the first GPU that has
/// none, or at the end.
pub open spec fn obstacles_seen(
    t: SysfsTranscript,
    root: Seq<char>,
    addrs: Seq<Seq<char>>,
    i: nat,
    users: Seq<(u32, Seq<char>)>,
) -> SysfsTranscript
    decreases addrs.len() - i,
{
    if i >= addrs.len() {
        t
    } else {
        let (t, reason) = reason_run(t, root, addrs[i as int], users);
        match reason {
            Some(_) => obstacles_seen(t, root, addrs, i + 1, users),
            None => t,
        }
    }
}

proof fn lemma_obstacles_read(
    t: SysfsTranscript,
    root: Seq<char>,
    addrs: Seq<Seq<char>>,
    i: nat,
    users: Seq<(u32, Seq<char>)>,
)
    ensures
        only_reads(t, obstacles_seen(t, root, addrs, i, users)),
    decreases addrs.len() - i,
{
    broadcast use lemma_reads_on;

    if i < addrs.len() {
        lemma_reason_reads(t, root, addrs[i as int], users);
        let u = reason_run(t, root, addrs[i as int], users).0;
        lemma_obstacles_read(u, root, addrs, i + 1, users);
    }
}

/// Where the choice among the GPUs `addrs` is made: all there is to see has been seen
/// then, and nothing has been written.
pub open spec fn all_seen(
    t: SysfsTranscript,
    root: Seq<char>,
    addrs: Seq<Seq<char>>,
) -> SysfsTranscript {
    let (t, found) = first_ready_run(t, root, addrs, 0);
    match found {
        Some(_) => t,
        None => {
            let (t, users) = gpu_processes_run(t);
            obstacles_seen(t, root, addrs, 0, found_processes(users))
        },
    }
}

pub proof fn lemma_all_seen_reads(t: SysfsTranscript, root: Seq<char>, addrs: Seq<Seq<char>>)
    ensures
        only_reads(t, all_seen(t, root, addrs)),
        only_reads(first_ready_run(t, root, addrs, 0).0, all_seen(t, root, addrs)),
        first_ready_run(t, root, addrs, 0).1 is None ==> only_reads(
            gpu_processes_run(first_ready_run(t, root, addrs, 0).0).0,
            all_seen(t, root, addrs),
        ),
{
    broadcast use lemma_reads_on;

    lemma_first_ready_reads(t, root, addrs, 0);
    let u = first_ready_run(t, root, addrs, 0).0;
    lemma_gpu_processes_read(u);
    let (v, users) = gpu_processes_run(u);
    lemma_obstacles_read(v, root, addrs, 0, found_processes(users));
    assert(only_reads(u, u));
}

proof fn lemma_ready_found(
    t: SysfsTranscript,
    host: Host,
    root: Seq<char>,
    addrs: Seq<Seq<char>>,
    i: nat,
    k: int,
)
    requires
        told_by(first_ready_run(t, root, addrs, i).0, host),
        i <= k < addrs.len(),
        is_ready(host, root, addrs[k]),
        forall|j: int| i <= j < k ==> !is_ready(host, root, #[trigger] addrs[j]),
    ensures
        first_ready_run(t, root, addrs, i).1 == Some(addrs[k]),
    decreases addrs.len() - i,
{
    broadcast use lemma_told_before;

    let u = is_ready_run(t, root, addrs[i as int]).0;
    lemma_first_ready_reads(u, root, addrs, i + 1);
    assert(only_reads(u, u));
    assert(told_by(u, host));
    law_ready_check_means(t, host, root, addrs[i as int]);
    if i < k {
        lemma_ready_found(u, host, root, addrs, i + 1, k);
    }
}

proof fn lemma_none_ready(
    t: SysfsTranscript,
    host: Host,
    root: Seq<char>,
    addrs: Seq<Seq<char>>,
    i: nat,
)
    requires
        told_by(first_ready_run(t, root, addrs, i).0, host),
        forall|j: int| i <= j < addrs.len() ==> !is_ready(host, root, #[trigger] addrs[j]),
    ensures
        first_ready_run(t, root, addrs, i).1 is None,
    decreases addrs.len() - i,
{
    broadcast use lemma_told_before;

    if i < addrs.len() {
        let u = is_ready_run(t, root, addrs[i as int]).0;
        lemma_first_ready_reads(u, root, addrs, i + 1);
        assert(only_reads(u, u));
        assert(told_by(u, host));
        law_ready_check_means(t, host, root, addrs[i as int]);
        lemma_none_ready(u, host, root, addrs, i + 1);
    }
}

proof fn lemma_free_found(
    t: SysfsTranscript,
    host: Host,
    root: Seq<char>,
    addrs: Seq<Seq<char>>,
    i: nat,
    blocked: Blocked,
    k: int,
)
    requires
        told_by(obstacles_seen(t, root, addrs, i, gpu_users(host)), host),
        i <= k < addrs.len(),
        obstacle(host, root, addrs[k]) is None,
        forall|j: int| i <= j < k ==> obstacle(host, root, #[trigger] addrs[j]) is Some,
    ensures
        first_free_run(t, root, addrs, i, gpu_users(host), blocked) == claim_run(
            obstacles_seen(t, root, addrs, i, gpu_users(host)),
            root,
            addrs[k],
        ),
    decreases addrs.len() - i,
{
    broadcast use lemma_told_before;

    let users = gpu_users(host);
    let (u, reason) = reason_run(t, root, addrs[i as int], users);
    lemma_obstacles_read(u, root, addrs, i + 1, users);
    assert(only_reads(u, u));
    assert(told_by(u, host));
    lemma_reason_means(t, host, root, addrs[i as int]);
    if i < k {
        let now = blocked.push((addrs[i as int], reason->0));
        lemma_free_found(u, host, root, addrs, i + 1, now, k);
    }
}

/// The report on the GPUs `addrs`, each with what stands in its way.
pub open spec fn obstacle_report(host: Host, root: Seq<char>, addrs: Seq<Seq<char>>) -> Blocked {
    Seq::new(addrs.len(), |i: int| (addrs[i], obstacle(host, root, addrs[i])->0))
}

proof fn lemma_none_free(
    t: SysfsTranscript,
    host: Host,
    root: Seq<char>,
    addrs: Seq<Seq<char>>,
    i: nat,
)
    requires
        told_by(obstacles_seen(t, root, addrs, i, gpu_users(host)), host),
        i <= addrs.len(),
        forall|j: int| 0 <= j < addrs.len() ==> obstacle(host, root, #[trigger] addrs[j]) is Some,
    ensures
        first_free_run(
            t,
            root,
            addrs,
            i,
            gpu_users(host),
            obstacle_report(host, root, addrs).take(i as int),
        ) == (
            obstacles_seen(t, root, addrs, i, gpu_users(host)),
            Err::<BindView, FaultView>(all_blocked(obstacle_report(host, root, addrs))),
        ),
    decreases addrs.len() - i,
{
    broadcast use lemma_told_before;

    let users = gpu_users(host);
    let report = obstacle_report(host, root, addrs);
    if i < addrs.len() {
        let (u, reason) = reason_run(t, root, addrs[i as int], users);
        lemma_obstacles_read(u, root, addrs, i + 1, users);
        assert(only_reads(u, u));
        assert(told_by(u, host));
        lemma_reason_means(t, host, root, addrs[i as int]);
        assert(report.take(i as int).push((addrs[i as int], reason->0)) =~= report.take(
            (i + 1) as int,
        ));
        lemma_none_free(u, host, root, addrs, i + 1);
    } else {
        assert(report.take(i as int) =~= report);
    }
}

/// A GPU that is ready comes first: the first such one is used as it is, and nothing
/// is written.
pub proof fn law_ready_gpu_comes_first(
    t: SysfsTranscript,
    host: Host,
    root: Seq<char>,
    addrs: Seq<Seq<char>>,
    k: int,
)
    requires
        told_by(all_seen(t, root, addrs), host),
        0 <= k < addrs.len(),
        is_ready(host, root, addrs[k]),
        forall|j: int| 0 <= j < k ==> !is_ready(host, root, #[trigger] addrs[j]),
    ensures
        select_run(t, root, addrs) == (
            all_seen(t, root, addrs),
            Ok::<BindView, FaultView>(ready_state(addrs[k])),
        ),
        only_reads(t, select_run(t, root, addrs).0),
{
    broadcast use lemma_told_before;

    lemma_all_seen_reads(t, root, addrs);
    lemma_ready_found(t, host, root, addrs, 0, k);
}

/// Where no GPU is ready, the first that nothing stands in the way of is claimed.
pub proof fn law_first_free_gpu_is_claimed(
    t: SysfsTranscript,
    host: Host,
    root: Seq<char>,
    addrs: Seq<Seq<char>>,
    k: int,
)
    requires
        told_by(all_seen(t, root, addrs), host),
        forall|j: int| 0 <= j < addrs.len() ==> !is_ready(host, root, #[trigger] addrs[j]),
        0 <= k < addrs.len(),
        obstacle(host, root, addrs[k]) is None,
        forall|j: int| 0 <= j < k ==> obstacle(host, root, #[trigger] addrs[j]) is Some,
    ensures
        select_run(t, root, addrs) == claim_run(all_seen(t, root, addrs), root, addrs[k]),
{
    broadcast use lemma_told_before;

    lemma_all_seen_reads(t, root, addrs);
    lemma_none_ready(t, host, root, addrs, 0);
    let u = first_ready_run(t, root, addrs, 0).0;
    law_process_check_means(u, host);
    lemma_free_found(gpu_processes_run(u).0, host, root, addrs, 0, Seq::empty(), k);
}

/// Where something stands in the way of every GPU, the failure names each one with
/// what it is, in order, and nothing is written.
pub proof fn law_blocked_gpus_are_all_named(
    t: SysfsTranscript,
    host: Host,
    root: Seq<char>,
    addrs: Seq<Seq<char>>,
)
    requires
        told_by(all_seen(t, root, addrs), host),
        forall|j: int| 0 <= j < addrs.len() ==> !is_ready(host, root, #[trigger] addrs[j]),
        forall|j: int| 0 <= j < addrs.len() ==> obstacle(host, root, #[trigger] addrs[j]) is Some,
    ensures
        select_run(t, root, addrs) == (
            all_seen(t, root, addrs),
            Err::<BindView, FaultView>(all_blocked(obstacle_report(host, root, addrs))),
        ),
        only_reads(t, select_run(t, root, addrs).0),
{
    broadcast use lemma_told_before;

    lemma_all_seen_reads(t, root, addrs);
    lemma_none_ready(t, host, root, addrs, 0);
    let u = first_ready_run(t, root, addrs, 0).0;
    law_process_check_means(u, host);
    assert(obstacle_report(host, root, addrs).take(0) =~= Seq::empty());
    lemma_none_free(gpu_processes_run(u).0, host, root, addrs, 0);
}

/// Where no GPU is asked for, the choice is among exactly the NVIDIA GPUs of the host,
/// in the order of their addresses. A host without one is a failure.
pub proof fn law_choice_is_among_the_gpus(t: SysfsTranscript, host: Host, root: Seq<char>)
    requires
        ({
            let u = t.ask(SysfsRequestView::ListDir { path: devices_dir(root) });
            &&& answer(u).ok
            &&& told_by(gpus_run(u, root, answer(u).names, 0, Seq::empty()).0, host)
        }),
    ensures
        ({
            let u = t.ask(SysfsRequestView::ListDir { path: devices_dir(root) });
            let seen = gpus_run(u, root, answer(u).names, 0, Seq::empty()).0;
            let devices = host(SysfsRequestView::ListDir { path: devices_dir(root) }).names;
            let gpus = devices.filter(is_gpu(host, root));
            &&& only_reads(t, seen)
            &&& auto_run(t, root) == if gpus.len() == 0 {
                (
                    seen,
                    Err::<BindView, FaultView>(
                        FaultView {
                            kind: FaultKind::NotFound,
                            message: "no NVIDIA PCI device found"@,
                        },
                    ),
                )
            } else {
                select_run(seen, root, in_order(gpus))
            }
        }),
{
    broadcast use {group_reads, lemma_told_before};

    let u = t.ask(SysfsRequestView::ListDir { path: devices_dir(root) });
    lemma_gpus_read(u, root, answer(u).names, 0, Seq::empty());
    law_gpus_are_found(u, host, root, answer(u).names);
}

proof fn lemma_refusal_means(t: SysfsTranscript, host: Host, root: Seq<char>, addr: Seq<char>)
    requires
        told_by(refusal_run(t, root, addr).0, host),
    ensures
        refusal_run(t, root, addr).1 == refusal(host, root, addr),
{
    broadcast use {lemma_reads_on, lemma_told_before};

    lemma_display_reads(t, root, addr);
    let t1 = display_run(t, root, addr).0;
    lemma_gpu_processes_read(t1);
    let t2 = gpu_processes_run(t1).0;
    lemma_host_reads(t2, root, addr);
    let t3 = iommu_run(t2, root, addr).0;
    lemma_host_reads(t3, root, addr);
    let t4 = modules_run(t3, root).0;
    lemma_host_reads(t4, root, addr);
    law_display_check_means(t, host, root, addr);
    law_host_checks_mean(t2, host, root, addr);
    law_host_checks_mean(t3, host, root, addr);
    law_host_checks_mean(t4, host, root, addr);
    if told_by(t2, host) {
        law_process_check_means(t1, host);
    }
}

/// On `host`, what asking for the GPU at `addr` leads to, where it is not claimed.
pub open spec fn unclaimed(host: Host, root: Seq<char>, addr: Seq<char>) -> Option<Prepared> {
    let dev = device_dir(root, addr);
    let vendor = value_or_empty(
        attribute_value(host(SysfsRequestView::ReadText { path: joined_path(dev, "vendor"@) })),
    );
    let class = value_or_empty(
        attribute_value(host(SysfsRequestView::ReadText { path: joined_path(dev, "class"@) })),
    );
    if !is_pci_addr(addr) {
        Some(Err(bad_pci_addr(addr)))
    } else if !host(SysfsRequestView::Exists { path: dev }).ok {
        Some(
            Err(
                FaultView {
                    kind: FaultKind::NotFound,
                    message: "PCI device "@ + addr + " not found in sysfs"@,
                },
            ),
        )
    } else if vendor != NVIDIA_VENDOR_ID@ {
        Some(
            Err(
                FaultView {
                    kind: FaultKind::InvalidInput,
                    message: "PCI device "@ + addr + " is not an NVIDIA device (vendor: "@ + vendor
                        + ")"@,
                },
            ),
        )
    } else if !"0x03"@.is_prefix_of(class) {
        Some(
            Err(
                FaultView {
                    kind: FaultKind::InvalidInput,
                    message: "PCI device "@ + addr + " is not a GPU (class: "@ + class + ")"@,
                },
            ),
        )
    } else if is_ready(host, root, addr) {
        Some(Ok(ready_state(addr)))
    } else {
        match refusal(host, root, addr) {
            Some(obstacle) => Some(Err(obstacle.refusal(addr))),
            None => None,
        }
    }
}

/// Where all there is to see of the GPU at `addr` has been seen, and nothing has been
/// written.
pub open spec fn asked_seen(
    t: SysfsTranscript,
    root: Seq<char>,
    addr: Seq<char>,
) -> SysfsTranscript {
    let dev = device_dir(root, addr);
    let t1 = t.ask(SysfsRequestView::Exists { path: dev });
    let (t2, vendor) = attribute_run(t1, dev, "vendor"@);
    let (t3, class) = attribute_run(t2, dev, "class"@);
    let (t4, is_ready) = is_ready_run(t3, root, addr);
    if !is_pci_addr(addr) {
        t
    } else if !answer(t1).ok {
        t1
    } else if value_or_empty(vendor) != NVIDIA_VENDOR_ID@ {
        t2
    } else if !"0x03"@.is_prefix_of(value_or_empty(class)) {
        t3
    } else if is_ready {
        t4
    } else {
        refusal_run(t4, root, addr).0
    }
}

/// A GPU that is asked for is claimed exactly where it is an NVIDIA GPU of the host
/// that is not ready and passes every check; else the result says what it is.
pub proof fn law_asked_gpu_is_judged(
    t: SysfsTranscript,
    host: Host,
    root: Seq<char>,
    addr: Seq<char>,
)
    requires
        told_by(asked_seen(t, root, addr), host),
    ensures
        only_reads(t, asked_seen(t, root, addr)),
        specific_run(t, root, addr) == match unclaimed(host, root, addr) {
            Some(r) => (asked_seen(t, root, addr), r),
            None => claim_run(asked_seen(t, root, addr), root, addr),
        },
{
    broadcast use {group_reads, lemma_told_before};

    let dev = device_dir(root, addr);
    let t1 = t.ask(SysfsRequestView::Exists { path: dev });
    let t2 = attribute_run(t1, dev, "vendor"@).0;
    let t3 = attribute_run(t2, dev, "class"@).0;
    assert(only_reads(t1, t2));
    assert(only_reads(t2, t3));
    lemma_is_ready_reads(t3, root, addr);
    let t4 = is_ready_run(t3, root, addr).0;
    lemma_refusal_reads(t4, root, addr);
    assert(only_reads(t, t));
    if told_by(t4, host) {
        law_ready_check_means(t3, host, root, addr);
    }
    if told_by(refusal_run(t4, root, addr).0, host) {
        lemma_refusal_means(t4, host, root, addr);
    }
}

} // verus!
