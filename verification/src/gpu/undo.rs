//! A restore undoes a preparation, on a kernel whose links tell the truth.

use vstd::prelude::*;

use crate::gpu::bind::{
    bind_each_run, bind_run, no_driver, rebind_peers_run, rebind_run, restore_run, BindView,
};
use crate::gpu::checks::{current_driver_run, is_pci_addr, linked_driver, peers_run, VFIO_DRIVER};
use crate::gpu::laws::{bound_nothing, claimed_at, law_nothing_is_taken_unchecked};
use crate::gpu::moves::{
    distinct_devices, driver_left, known_drivers, left_on, lemma_bind_run_moves,
    lemma_linked_name, lemma_rebind_listed, lemma_rebind_moves, lemma_rebind_others, not_listed,
};
use crate::gpu::overrides::{
    lemma_bind_overrides, lemma_reads_keep_overrides, lemma_rebind_overrides,
    lemma_rebind_peers_overrides, override_on,
};
use crate::gpu::prepare::{claim_run, prepare_run};
use crate::gpu::reads::only_reads;
use crate::gpu::replay::{go_bind, go_bind_each};
use crate::paths::joined_path;
use crate::sysfs::{device_dir, SysfsRequestView, SysfsTranscript};

verus! {

/// The driver that each device is on, if any.
pub type Drivers = spec_fn(Seq<char>) -> Option<Seq<char>>;

/// Reading which driver a device is on.
pub open spec fn driver_link(root: Seq<char>, addr: Seq<char>) -> SysfsRequestView {
    SysfsRequestView::ReadLink { path: joined_path(device_dir(root, addr), "driver"@) }
}

/// Where request number `i` reads the driver of the device at `addr`, the reply is the
/// one that the writes before it have left the device on, from `start`.
pub open spec fn shows_driver(
    t: SysfsTranscript,
    root: Seq<char>,
    start: Drivers,
    i: int,
    addr: Seq<char>,
) -> bool {
    t.asked[i] == driver_link(root, addr) ==> linked_driver(t.replies[i]) == driver_left(
        t.asked.take(i),
        root,
        addr,
        start(addr),
    )
}

/// Every driver link that the exchange has read told the truth, where `start` is what
/// each device was on at first.
pub open spec fn truthful(t: SysfsTranscript, root: Seq<char>, start: Drivers) -> bool {
    &&& t.live()
    &&& forall|i: int, addr: Seq<char>|
        0 <= i < t.asked.len() && is_pci_addr(addr) ==> #[trigger] shows_driver(
            t,
            root,
            start,
            i,
            addr,
        )
}

pub proof fn lemma_truthful_before(
    t: SysfsTranscript,
    later: SysfsTranscript,
    root: Seq<char>,
    start: Drivers,
)
    requires
        t.leads_to(later),
        truthful(later, root, start),
    ensures
        truthful(t, root, start),
{
    assert forall|i: int, addr: Seq<char>|
        0 <= i < t.asked.len() && is_pci_addr(addr) implies #[trigger] shows_driver(
        t,
        root,
        start,
        i,
        addr,
    ) by {
        assert(shows_driver(later, root, start, i, addr));
        assert(later.asked.take(i) =~= t.asked.take(i));
    }
}

pub proof fn lemma_driver_told(t: SysfsTranscript, root: Seq<char>, addr: Seq<char>, start: Drivers)
    requires
        is_pci_addr(addr),
        truthful(current_driver_run(t, root, addr).0, root, start),
    ensures
        current_driver_run(t, root, addr).1 == left_on(t, root, addr, start(addr)),
{
    let u = current_driver_run(t, root, addr).0;
    assert(t.live());
    let i = t.asked.len() as int;
    assert(u.asked == t.asked.push(driver_link(root, addr)));
    assert(shows_driver(u, root, start, i, addr));
    assert(u.asked.take(i) =~= t.asked);
}

/// The name of the driver that a device was on, empty for none.
pub open spec fn name_or_empty(driver: Option<Seq<char>>) -> Seq<char> {
    match driver {
        Some(name) => name,
        None => Seq::empty(),
    }
}

/// What has become of the device at `addr` in going from `t` to `u`, where `list` are
/// the devices that were bound. A listed device was on the driver that is listed with
/// it, and is now on the passthrough driver, by its override. Any other device is on
/// what it was on, and its override holds what it held.
pub open spec fn bound_by(
    t: SysfsTranscript,
    u: SysfsTranscript,
    root: Seq<char>,
    list: Seq<(Seq<char>, Seq<char>)>,
    addr: Seq<char>,
    start: Option<Seq<char>>,
    over: Seq<char>,
) -> bool {
    let before = left_on(t, root, addr, start);
    let after = left_on(u, root, addr, start);
    &&& forall|k: int|
        0 <= k < list.len() && (#[trigger] list[k]).0 == addr ==> {
            &&& before != Some(VFIO_DRIVER@)
            &&& list[k].1 == name_or_empty(before)
            &&& after == Some(VFIO_DRIVER@)
            &&& override_on(u, root, addr, over) == VFIO_DRIVER@
        }
    &&& not_listed(list, 0, addr) ==> after == before && override_on(u, root, addr, over)
        == override_on(t, root, addr, over)
}

/// The list holds each device once, by its address, with a driver or none.
pub open spec fn proper_list(list: Seq<(Seq<char>, Seq<char>)>) -> bool {
    &&& known_drivers(list)
    &&& distinct_devices(list)
    &&& forall|k: int| 0 <= k < list.len() ==> is_pci_addr((#[trigger] list[k]).0)
}

/// [`bound_by`] of every device.
pub open spec fn all_bound_by(
    t: SysfsTranscript,
    u: SysfsTranscript,
    root: Seq<char>,
    list: Seq<(Seq<char>, Seq<char>)>,
    start: Drivers,
) -> bool {
    forall|addr: Seq<char>, over: Seq<char>|
        is_pci_addr(addr) ==> #[trigger] bound_by(t, u, root, list, addr, start(addr), over)
}

/// A device is bound and added to the list, unless it is on the passthrough driver
/// already.
proof fn lemma_one_more_bound(
    t: SysfsTranscript,
    u: SysfsTranscript,
    root: Seq<char>,
    list: Seq<(Seq<char>, Seq<char>)>,
    device: Seq<char>,
    start: Drivers,
)
    requires
        proper_list(list),
        all_bound_by(t, u, root, list, start),
        bind_run(u, root, device).1 is Ok,
        truthful(bind_run(u, root, device).0, root, start),
    ensures
        ({
            let (v, r) = bind_run(u, root, device);
            let more = if r->Ok_0 == VFIO_DRIVER@ {
                list
            } else {
                list.push((device, r->Ok_0))
            };
            &&& is_pci_addr(device)
            &&& proper_list(more)
            &&& all_bound_by(t, v, root, more, start)
            &&& left_on(v, root, device, start(device)) == Some(VFIO_DRIVER@)
            &&& forall|d: Seq<char>|
                is_pci_addr(d) && #[trigger] left_on(u, root, d, start(d)) == Some(VFIO_DRIVER@)
                    ==> left_on(v, root, d, start(d)) == Some(VFIO_DRIVER@)
        }),
{
    broadcast use go_bind;

    reveal_strlit("vfio-pci");
    let (v, r) = bind_run(u, root, device);
    let original = r->Ok_0;
    let (u1, driver) = current_driver_run(u, root, device);
    lemma_bind_reads_first(u, root, device);
    lemma_truthful_before(u1, v, root, start);
    lemma_driver_told(u, root, device, start);
    lemma_linked_name(u, root, device);
    lemma_bind_run_moves(u, root, device, device, start(device));
    let more = if original == VFIO_DRIVER@ {
        list
    } else {
        list.push((device, original))
    };
    assert(original == name_or_empty(driver));
    let now = left_on(u, root, device, start(device));
    assert(bound_by(t, u, root, list, device, start(device), Seq::empty()));
    if original != VFIO_DRIVER@ {
        assert(now != Some(VFIO_DRIVER@));
        assert(not_listed(list, 0, device)) by {
            if !not_listed(list, 0, device) {
                let k = choose|k: int| 0 <= k < list.len() && (#[trigger] list[k]).0 == device;
                assert(now == Some(VFIO_DRIVER@));
            }
        }
    }
    assert forall|addr: Seq<char>, over: Seq<char>|
        is_pci_addr(addr) implies #[trigger] bound_by(
        t,
        v,
        root,
        more,
        addr,
        start(addr),
        over,
    ) by {
        assert(bound_by(t, u, root, list, addr, start(addr), over));
        lemma_bind_run_moves(u, root, device, addr, start(addr));
        lemma_bind_overrides(u, root, device, addr, over);
        if original == VFIO_DRIVER@ {
            assert(left_on(v, root, addr, start(addr)) == left_on(u, root, addr, start(addr)));
        } else if addr == device {
            assert(more.last().0 == addr);
            assert(!not_listed(more, 0, addr));
        } else {
            assert forall|k: int| 0 <= k < more.len() && (#[trigger] more[k]).0 == addr implies k
                < list.len() && more[k] == list[k] by {}
            if not_listed(more, 0, addr) {
                assert forall|k: int| 0 <= k < list.len() implies (#[trigger] list[k]).0
                    != addr by {
                    assert(more[k] == list[k]);
                }
            }
        }
    }
    assert forall|d: Seq<char>|
        is_pci_addr(d) && #[trigger] left_on(u, root, d, start(d)) == Some(
            VFIO_DRIVER@,
        ) implies left_on(v, root, d, start(d)) == Some(VFIO_DRIVER@) by {
        lemma_bind_run_moves(u, root, device, d, start(d));
    }
}

/// Binding reads the device's driver before anything else.
proof fn lemma_bind_reads_first(t: SysfsTranscript, root: Seq<char>, device: Seq<char>)
    ensures
        is_pci_addr(device) ==> current_driver_run(t, root, device).0.leads_to(
            bind_run(t, root, device).0,
        ),
{
}

/// Binding `peers[i..]`, where the devices in `head` and `done` are bound already.
proof fn lemma_peers_bound(
    t: SysfsTranscript,
    u: SysfsTranscript,
    root: Seq<char>,
    head: Seq<(Seq<char>, Seq<char>)>,
    peers: Seq<Seq<char>>,
    i: nat,
    done: Seq<(Seq<char>, Seq<char>)>,
    start: Drivers,
)
    requires
        proper_list(head + done),
        all_bound_by(t, u, root, head + done, start),
        bind_each_run(u, root, peers, i, done).1 is Ok,
        truthful(bind_each_run(u, root, peers, i, done).0, root, start),
    ensures
        ({
            let (v, r) = bind_each_run(u, root, peers, i, done);
            &&& proper_list(head + r->Ok_0)
            &&& all_bound_by(t, v, root, head + r->Ok_0, start)
            &&& forall|j: int|
                i <= j < peers.len() ==> is_pci_addr(#[trigger] peers[j]) && left_on(
                    v,
                    root,
                    peers[j],
                    start(peers[j]),
                ) == Some(VFIO_DRIVER@)
            &&& forall|d: Seq<char>|
                is_pci_addr(d) && #[trigger] left_on(u, root, d, start(d)) == Some(VFIO_DRIVER@)
                    ==> left_on(v, root, d, start(d)) == Some(VFIO_DRIVER@)
        }),
    decreases peers.len() - i,
{
    if i < peers.len() {
        let peer = peers[i as int];
        let (w, r) = bind_run(u, root, peer);
        let original = r->Ok_0;
        let (v, all) = bind_each_run(u, root, peers, i, done);
        let more = if original == VFIO_DRIVER@ {
            done
        } else {
            done.push((peer, original))
        };
        go_bind_each(w, root, peers, i + 1, more);
        lemma_truthful_before(w, v, root, start);
        lemma_one_more_bound(t, u, root, head + done, peer, start);
        if original != VFIO_DRIVER@ {
            assert((head + done).push((peer, original)) =~= head + more);
        }
        lemma_peers_bound(t, w, root, head, peers, i + 1, more, start);
        assert(left_on(w, root, peer, start(peer)) == Some(VFIO_DRIVER@));
        assert forall|d: Seq<char>|
            is_pci_addr(d) && #[trigger] left_on(u, root, d, start(d)) == Some(
                VFIO_DRIVER@,
            ) implies left_on(v, root, d, start(d)) == Some(VFIO_DRIVER@) by {
            assert(left_on(w, root, d, start(d)) == Some(VFIO_DRIVER@));
        }
    }
}

/// The devices that were bound for a GPU, each with the driver that it was on: the GPU
/// itself, where it was, and then the others of its group.
pub open spec fn bound_devices(state: BindView) -> Seq<(Seq<char>, Seq<char>)> {
    if state.did_bind {
        seq![(state.pci_addr, state.original_driver)] + state.peer_binds
    } else {
        state.peer_binds
    }
}

/// Only reading leaves every device on its driver.
pub proof fn lemma_reads_keep_drivers(
    log: Seq<SysfsRequestView>,
    n: int,
    root: Seq<char>,
    addr: Seq<char>,
    start: Option<Seq<char>>,
)
    requires
        0 <= n <= log.len(),
        forall|i: int| n <= i < log.len() ==> !(#[trigger] log[i]).is_write(),
    ensures
        driver_left(log, root, addr, start) == driver_left(log.take(n), root, addr, start),
    decreases log.len() - n,
{
    if n < log.len() {
        let shorter = log.drop_last();
        lemma_reads_keep_drivers(shorter, n, root, addr, start);
        assert(shorter.take(n) =~= log.take(n));
    } else {
        assert(log.take(n) =~= log);
    }
}

/// Only reading binds nothing.
proof fn lemma_reads_bind_nothing(
    t: SysfsTranscript,
    u: SysfsTranscript,
    root: Seq<char>,
    start: Drivers,
)
    requires
        only_reads(t, u),
    ensures
        all_bound_by(t, u, root, Seq::empty(), start),
{
    let n = t.asked.len() as int;
    assert(u.asked.take(n) =~= t.asked);
    assert forall|addr: Seq<char>, over: Seq<char>|
        is_pci_addr(addr) implies #[trigger] bound_by(
        t,
        u,
        root,
        Seq::empty(),
        addr,
        start(addr),
        over,
    ) by {
        lemma_reads_keep_drivers(u.asked, n, root, addr, start(addr));
        lemma_reads_keep_overrides(u.asked, n, root, addr, over);
    }
}

/// Every one of `peers` is left on the passthrough driver.
pub open spec fn peers_on_vfio(
    u: SysfsTranscript,
    root: Seq<char>,
    peers: Seq<Seq<char>>,
    start: Drivers,
) -> bool {
    forall|j: int|
        0 <= j < peers.len() ==> is_pci_addr(#[trigger] peers[j]) && left_on(
            u,
            root,
            peers[j],
            start(peers[j]),
        ) == Some(VFIO_DRIVER@)
}

/// A claim after only reading binds the devices that its result lists, and the whole
/// group is left on the passthrough driver.
pub proof fn lemma_claim_binds(
    t: SysfsTranscript,
    m: SysfsTranscript,
    root: Seq<char>,
    addr: Seq<char>,
    start: Drivers,
)
    requires
        only_reads(t, m),
        claim_run(m, root, addr).1 is Ok,
        truthful(claim_run(m, root, addr).0, root, start),
    ensures
        ({
            let (u, r) = claim_run(m, root, addr);
            let list = bound_devices(r->Ok_0);
            &&& r->Ok_0.pci_addr == addr
            &&& is_pci_addr(addr)
            &&& proper_list(list)
            &&& all_bound_by(t, u, root, list, start)
            &&& left_on(u, root, addr, start(addr)) == Some(VFIO_DRIVER@)
            &&& peers_on_vfio(
                u,
                root,
                peers_run(bind_run(m, root, addr).0, root, addr).1->Ok_0,
                start,
            )
        }),
{
    let (m1, bound) = bind_run(m, root, addr);
    let original = bound->Ok_0;
    let (m2, peers) = peers_run(m1, root, addr);
    let (u, listed) = bind_each_run(m2, root, peers->Ok_0, 0, Seq::empty());
    let none = Seq::<(Seq<char>, Seq<char>)>::empty();
    go_bind_each(m2, root, peers->Ok_0, 0, Seq::empty());
    lemma_truthful_before(m2, u, root, start);
    lemma_truthful_before(m1, u, root, start);
    lemma_reads_bind_nothing(t, m, root, start);
    lemma_one_more_bound(t, m, root, none, addr, start);
    let head = if original == VFIO_DRIVER@ {
        none
    } else {
        none.push((addr, original))
    };
    assert(only_reads(m1, m2));
    assert(all_bound_by(t, m2, root, head, start)) by {
        lemma_reads_bind_nothing(m1, m2, root, start);
        assert forall|d: Seq<char>, over: Seq<char>|
            is_pci_addr(d) implies #[trigger] bound_by(t, m2, root, head, d, start(d), over) by {
            assert(bound_by(m1, m2, root, none, d, start(d), over));
            assert(bound_by(t, m1, root, head, d, start(d), over));
            assert(not_listed(none, 0, d));
        }
    }
    assert(left_on(m2, root, addr, start(addr)) == Some(VFIO_DRIVER@)) by {
        lemma_reads_bind_nothing(m1, m2, root, start);
        assert(bound_by(m1, m2, root, none, addr, start(addr), Seq::empty()));
        assert(not_listed(none, 0, addr));
    }
    assert(head + none =~= head);
    lemma_peers_bound(t, m2, root, head, peers->Ok_0, 0, none, start);
    let state = claim_run(m, root, addr).1->Ok_0;
    assert(bound_devices(state) =~= head + listed->Ok_0);
}

/// A preparation that succeeds binds exactly the devices that its result lists, each
/// once, with the driver that it was on.
pub proof fn law_preparation_binds_what_it_lists(
    t: SysfsTranscript,
    root: Seq<char>,
    asked: Option<Seq<char>>,
    start: Drivers,
)
    requires
        prepare_run(t, root, asked).1 is Ok,
        truthful(prepare_run(t, root, asked).0, root, start),
    ensures
        ({
            let (u, r) = prepare_run(t, root, asked);
            let list = bound_devices(r->Ok_0);
            &&& proper_list(list)
            &&& all_bound_by(t, u, root, list, start)
        }),
{
    law_nothing_is_taken_unchecked(t, root, asked);
    let end = prepare_run(t, root, asked);
    if only_reads(t, end.0) && bound_nothing(end.1) {
        lemma_reads_bind_nothing(t, end.0, root, start);
        assert(bound_devices(end.1->Ok_0) =~= Seq::empty());
    } else {
        let (m, addr) = choose|m: SysfsTranscript, addr: Seq<char>| #[trigger]
            claimed_at(t, root, m, addr, end);
        lemma_claim_binds(t, m, root, addr, start);
    }
}

/// What has become of the device at `addr` in a restore from `t` to `u`, where `list`
/// are the devices that were bound. The override of a listed device is empty, and the
/// device is on the driver that is listed with it, if that is one. Any other device is
/// on what it was on, and its override holds what it held.
pub open spec fn freed_by(
    t: SysfsTranscript,
    u: SysfsTranscript,
    root: Seq<char>,
    list: Seq<(Seq<char>, Seq<char>)>,
    addr: Seq<char>,
    start: Option<Seq<char>>,
    over: Seq<char>,
) -> bool {
    &&& forall|k: int|
        0 <= k < list.len() && (#[trigger] list[k]).0 == addr ==> {
            &&& override_on(u, root, addr, over) == Seq::<char>::empty()
            &&& !no_driver(list[k].1) ==> left_on(u, root, addr, start) == Some(list[k].1)
        }
    &&& not_listed(list, 0, addr) ==> left_on(u, root, addr, start) == left_on(
        t,
        root,
        addr,
        start,
    ) && override_on(u, root, addr, over) == override_on(t, root, addr, over)
}

/// A restore that succeeds frees exactly the devices that were bound.
pub proof fn law_restore_frees_what_was_bound(
    t: SysfsTranscript,
    root: Seq<char>,
    state: BindView,
    addr: Seq<char>,
    start: Option<Seq<char>>,
    over: Seq<char>,
)
    requires
        is_pci_addr(addr),
        proper_list(bound_devices(state)),
        restore_run(t, root, state).1 is Ok,
    ensures
        freed_by(
            t,
            restore_run(t, root, state).0,
            root,
            bound_devices(state),
            addr,
            start,
            over,
        ),
{
    let list = bound_devices(state);
    let peers = state.peer_binds;
    let first: int = if state.did_bind {
        1
    } else {
        0
    };
    assert forall|k: int| 0 <= k < peers.len() implies #[trigger] peers[k] == list[k + first] by {}
    let t1 = if state.did_bind {
        rebind_run(t, root, state.pci_addr, state.original_driver).0
    } else {
        t
    };
    let u = restore_run(t, root, state).0;
    assert(u == rebind_peers_run(t1, root, peers, 0, None).0);
    if state.did_bind {
        assert(list[0] == (state.pci_addr, state.original_driver));
        lemma_rebind_moves(t, root, state.pci_addr, state.original_driver, addr, start);
        lemma_rebind_overrides(t, root, state.pci_addr, state.original_driver, addr, over);
    }
    lemma_rebind_peers_overrides(t1, root, peers, 0, addr, over);
    if not_listed(peers, 0, addr) {
        lemma_rebind_others(t1, root, peers, 0, None, addr, start);
    }
    assert forall|k: int| 0 <= k < list.len() && (#[trigger] list[k]).0 == addr implies override_on(
        u,
        root,
        addr,
        over,
    ) == Seq::<char>::empty() && (!no_driver(list[k].1) ==> left_on(u, root, addr, start) == Some(
        list[k].1,
    )) by {
        if k < first {
            assert forall|j: int| 0 <= j < peers.len() implies (#[trigger] peers[j]).0 != addr by {
                assert(peers[j] == list[j + first]);
            }
        } else {
            assert(peers[k - first] == list[k]);
            lemma_rebind_listed(t1, root, peers, 0, k - first, start);
        }
    }
    if not_listed(list, 0, addr) {
        assert forall|j: int| 0 <= j < peers.len() implies (#[trigger] peers[j]).0 != addr by {
            assert(peers[j] == list[j + first]);
        }
    }
}

/// Restoring undoes preparing. After both have succeeded, every device of the host is
/// on the driver that it was on before: the GPU, the devices that were bound with it,
/// and all that were not touched. The overrides of the devices that were bound are
/// empty, and the others hold what they held.
///
/// Left out is a device that was bound and had no driver, or one by the name of `none`:
/// for such a one the kernel is told to look for a driver.
pub proof fn law_restore_undoes_preparation(
    t: SysfsTranscript,
    fresh: SysfsTranscript,
    root: Seq<char>,
    asked: Option<Seq<char>>,
    start: Drivers,
    addr: Seq<char>,
    over: Seq<char>,
)
    requires
        is_pci_addr(addr),
        prepare_run(t, root, asked).1 is Ok,
        truthful(prepare_run(t, root, asked).0, root, start),
        fresh.asked.len() == 0,
        restore_run(fresh, root, prepare_run(t, root, asked).1->Ok_0).1 is Ok,
    ensures
        ({
            let (u, r) = prepare_run(t, root, asked);
            let v = restore_run(fresh, root, r->Ok_0).0;
            let untouched = not_listed(bound_devices(r->Ok_0), 0, addr);
            let before = left_on(t, root, addr, start(addr));
            let between = left_on(u, root, addr, start(addr));
            &&& untouched || (before is Some && !no_driver(before->0)) ==> left_on(
                v,
                root,
                addr,
                between,
            ) == before
            &&& override_on(v, root, addr, override_on(u, root, addr, over)) == if untouched {
                override_on(t, root, addr, over)
            } else {
                Seq::empty()
            }
        }),
{
    law_preparation_binds_what_it_lists(t, root, asked, start);
    let (u, r) = prepare_run(t, root, asked);
    let list = bound_devices(r->Ok_0);
    let between = left_on(u, root, addr, start(addr));
    let held = override_on(u, root, addr, over);
    assert(bound_by(t, u, root, list, addr, start(addr), over));
    law_restore_frees_what_was_bound(fresh, root, r->Ok_0, addr, between, held);
    if !not_listed(list, 0, addr) {
        let k = choose|k: int| 0 <= k < list.len() && (#[trigger] list[k]).0 == addr;
        assert(list[k].0 == addr);
    }
}

} // verus!
