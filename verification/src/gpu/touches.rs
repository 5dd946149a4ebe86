//! Which devices the writes of a preparation and of a restore touch.

use vstd::prelude::*;

use crate::fault::FaultView;
use crate::gpu::bind::{
    bind_each_run, bind_path, bind_run, override_path, reassign_run, rebind_peers_run, rebind_run,
    restore_run, take_run, unbind_path, BindView,
};
use crate::gpu::checks::{current_driver_run, is_pci_addr, peers_run, VFIO_DRIVER};
use crate::gpu::laws::{bound_nothing, claimed_at, law_nothing_is_taken_unchecked};
use crate::gpu::moves::{is_driver_name, known_drivers, lemma_linked_name};
use crate::gpu::prepare::{claim_run, prepare_run};
use crate::gpu::reads::only_reads;
use crate::gpu::undo::bound_devices;
use crate::paths::joined_path;
use crate::sysfs::{write_run, SysfsRequestView, SysfsTranscript};

verus! {

/// A write of `data` to `path` binds the device to some driver.
pub open spec fn is_bind(
    path: Seq<char>,
    data: Seq<char>,
    root: Seq<char>,
    device: Seq<char>,
) -> bool {
    data == device && exists|n: Seq<char>| #[trigger]
        is_driver_name(n) && path == bind_path(root, n)
}

/// A write of `data` to `path` is to an attribute of the device, binds it to a driver,
/// or has the kernel look for drivers.
pub open spec fn touches(
    path: Seq<char>,
    data: Seq<char>,
    root: Seq<char>,
    device: Seq<char>,
) -> bool {
    ||| path == unbind_path(root, device)
    ||| path == override_path(root, device)
    ||| is_bind(path, data, root, device)
    ||| path == joined_path(root, "sys/bus/pci/rescan"@)
}

/// The request, where it writes, touches a device of `list` and no other.
pub open spec fn touches_listed(
    q: SysfsRequestView,
    root: Seq<char>,
    list: Seq<(Seq<char>, Seq<char>)>,
) -> bool {
    q.is_write() ==> exists|k: int|
        0 <= k < list.len() && touches(q.target().0, q.target().1, root, (#[trigger] list[k]).0)
}

/// `later` went on from `t`, and every write on the way touches a device of `list` and
/// no other.
pub open spec fn only_touches(
    t: SysfsTranscript,
    later: SysfsTranscript,
    root: Seq<char>,
    list: Seq<(Seq<char>, Seq<char>)>,
) -> bool {
    &&& t.leads_to(later)
    &&& forall|i: int|
        t.asked.len() <= i < later.asked.len() ==> touches_listed(
            #[trigger] later.asked[i],
            root,
            list,
        )
}

proof fn lemma_touches_on(
    a: SysfsTranscript,
    b: SysfsTranscript,
    c: SysfsTranscript,
    root: Seq<char>,
    list: Seq<(Seq<char>, Seq<char>)>,
)
    requires
        only_touches(a, b, root, list),
        only_touches(b, c, root, list),
    ensures
        only_touches(a, c, root, list),
{
    assert forall|i: int| a.asked.len() <= i < c.asked.len() implies touches_listed(
        #[trigger] c.asked[i],
        root,
        list,
    ) by {
        if i < b.asked.len() {
            assert(c.asked[i] == b.asked[i]);
        }
    }
}

proof fn lemma_reads_touch_nothing(
    t: SysfsTranscript,
    u: SysfsTranscript,
    root: Seq<char>,
    list: Seq<(Seq<char>, Seq<char>)>,
)
    requires
        only_reads(t, u),
    ensures
        only_touches(t, u, root, list),
{
}

proof fn lemma_ask_touches(
    t: SysfsTranscript,
    q: SysfsRequestView,
    root: Seq<char>,
    list: Seq<(Seq<char>, Seq<char>)>,
)
    requires
        touches_listed(q, root, list),
    ensures
        only_touches(t, t.ask(q), root, list),
{
}

proof fn lemma_write_touches(
    t: SysfsTranscript,
    root: Seq<char>,
    path: Seq<char>,
    data: Seq<char>,
    list: Seq<(Seq<char>, Seq<char>)>,
    k: int,
)
    requires
        0 <= k < list.len(),
        touches(path, data, root, list[k].0),
    ensures
        only_touches(t, write_run(t, root, path, data).0, root, list),
{
    assert(touches(path, data, root, list[k].0));
    lemma_ask_touches(t, SysfsRequestView::WriteGuarded { path, data }, root, list);
    lemma_ask_touches(t, SysfsRequestView::WriteFile { path, data }, root, list);
}

/// A bind that succeeds touches only its device, and only where that was elsewhere.
proof fn lemma_bind_touches(
    t: SysfsTranscript,
    root: Seq<char>,
    device: Seq<char>,
    list: Seq<(Seq<char>, Seq<char>)>,
    k: int,
)
    requires
        bind_run(t, root, device).1 is Ok,
        bind_run(t, root, device).1->Ok_0 != VFIO_DRIVER@ ==> 0 <= k < list.len() && list[k].0
            == device,
    ensures
        only_touches(t, bind_run(t, root, device).0, root, list),
{
    reveal_strlit("vfio-pci");
    lemma_linked_name(t, root, device);
    let (t1, driver) = current_driver_run(t, root, device);
    assert(only_reads(t, t1));
    lemma_reads_touch_nothing(t, t1, root, list);
    if driver != Some(VFIO_DRIVER@) {
        assert(Seq::<char>::empty() != VFIO_DRIVER@);
        let t2 = if driver is None {
            t1
        } else {
            lemma_write_touches(t1, root, unbind_path(root, device), device, list, k);
            lemma_touches_on(
                t,
                t1,
                write_run(t1, root, unbind_path(root, device), device).0,
                root,
                list,
            );
            write_run(t1, root, unbind_path(root, device), device).0
        };
        assert(bind_run(t, root, device) == take_run(t2, root, device, driver));
        let over = override_path(root, device);
        let t3 = write_run(t2, root, over, VFIO_DRIVER@).0;
        lemma_write_touches(t2, root, over, VFIO_DRIVER@, list, k);
        lemma_touches_on(t, t2, t3, root, list);
        let bind = bind_path(root, VFIO_DRIVER@);
        assert(is_driver_name(VFIO_DRIVER@));
        assert(is_bind(bind, device, root, device));
        lemma_write_touches(t3, root, bind, device, list, k);
        lemma_touches_on(t, t3, write_run(t3, root, bind, device).0, root, list);
    }
}

proof fn lemma_reassign_touches(
    t: SysfsTranscript,
    root: Seq<char>,
    list: Seq<(Seq<char>, Seq<char>)>,
    k: int,
)
    requires
        0 <= k < list.len(),
        known_drivers(list),
    ensures
        only_touches(t, reassign_run(t, root, list[k].0, list[k].1).0, root, list),
{
    let (device, original) = list[k];
    let over = override_path(root, device);
    let t1 = write_run(t, root, over, Seq::empty()).0;
    lemma_write_touches(t, root, over, Seq::empty(), list, k);
    let path = joined_path(root, "sys/bus/pci/rescan"@);
    let q = SysfsRequestView::WriteFile { path, data: "1"@ };
    assert(touches(path, "1"@, root, list[k].0));
    lemma_ask_touches(t1, q, root, list);
    lemma_touches_on(t, t1, t1.ask(q), root, list);
    if is_driver_name(original) {
        let bind = bind_path(root, original);
        assert(is_bind(bind, device, root, device));
        lemma_write_touches(t1, root, bind, device, list, k);
        lemma_touches_on(t, t1, write_run(t1, root, bind, device).0, root, list);
    }
}

/// Moving a device back touches only that device.
proof fn lemma_rebind_touches(
    t: SysfsTranscript,
    root: Seq<char>,
    list: Seq<(Seq<char>, Seq<char>)>,
    k: int,
)
    requires
        0 <= k < list.len(),
        known_drivers(list),
    ensures
        only_touches(t, rebind_run(t, root, list[k].0, list[k].1).0, root, list),
{
    let (device, original) = list[k];
    if is_pci_addr(device) {
        let (t1, driver) = current_driver_run(t, root, device);
        assert(only_reads(t, t1));
        lemma_reads_touch_nothing(t, t1, root, list);
        lemma_reassign_touches(t1, root, list, k);
        lemma_touches_on(t, t1, reassign_run(t1, root, device, original).0, root, list);
        let unbind = unbind_path(root, device);
        let t2 = write_run(t1, root, unbind, device).0;
        lemma_write_touches(t1, root, unbind, device, list, k);
        lemma_touches_on(t, t1, t2, root, list);
        lemma_reassign_touches(t2, root, list, k);
        lemma_touches_on(t, t2, reassign_run(t2, root, device, original).0, root, list);
    }
}

/// Moving `peers[i..]` back touches only them, where `list` holds them from number
/// `first` on.
proof fn lemma_rebind_peers_touches(
    t: SysfsTranscript,
    root: Seq<char>,
    peers: Seq<(Seq<char>, Seq<char>)>,
    i: nat,
    failure: Option<FaultView>,
    list: Seq<(Seq<char>, Seq<char>)>,
    first: int,
)
    requires
        0 <= first,
        list.len() == first + peers.len(),
        forall|k: int| 0 <= k < peers.len() ==> #[trigger] peers[k] == list[first + k],
        known_drivers(list),
    ensures
        only_touches(t, rebind_peers_run(t, root, peers, i, failure).0, root, list),
    decreases peers.len() - i,
{
    if i < peers.len() {
        assert(peers[i as int] == list[first + i]);
        let (u, r) = rebind_run(t, root, peers[i as int].0, peers[i as int].1);
        lemma_rebind_touches(t, root, list, first + i);
        let now = match (failure, r) {
            (None, Err(e)) => Some(e),
            _ => failure,
        };
        lemma_rebind_peers_touches(u, root, peers, i + 1, now, list, first);
        let end = rebind_peers_run(u, root, peers, i + 1, now).0;
        lemma_touches_on(t, u, end, root, list);
        assert(rebind_peers_run(t, root, peers, i, failure).0 == end);
    }
}

/// Binding `peers[i..]` keeps what is listed already, and touches only what is listed in
/// the end.
proof fn lemma_bind_each_touches(
    t: SysfsTranscript,
    root: Seq<char>,
    peers: Seq<Seq<char>>,
    i: nat,
    done: Seq<(Seq<char>, Seq<char>)>,
)
    requires
        bind_each_run(t, root, peers, i, done).1 is Ok,
    ensures
        ({
            let (u, r) = bind_each_run(t, root, peers, i, done);
            &&& done.is_prefix_of(r->Ok_0)
            &&& only_touches(t, u, root, r->Ok_0)
        }),
    decreases peers.len() - i,
{
    if i < peers.len() {
        let peer = peers[i as int];
        let (u, r) = bind_run(t, root, peer);
        let original = r->Ok_0;
        let more = if original == VFIO_DRIVER@ {
            done
        } else {
            done.push((peer, original))
        };
        lemma_bind_each_touches(u, root, peers, i + 1, more);
        let (v, all) = bind_each_run(u, root, peers, i + 1, more);
        if original != VFIO_DRIVER@ {
            assert(all->Ok_0[done.len() as int] == more[done.len() as int]);
            assert(done.is_prefix_of(all->Ok_0));
        }
        lemma_bind_touches(t, root, peer, all->Ok_0, done.len() as int);
        lemma_touches_on(t, u, v, root, all->Ok_0);
    }
}

proof fn lemma_more_listed(
    t: SysfsTranscript,
    u: SysfsTranscript,
    root: Seq<char>,
    head: Seq<(Seq<char>, Seq<char>)>,
    list: Seq<(Seq<char>, Seq<char>)>,
)
    requires
        only_touches(t, u, root, list),
    ensures
        only_touches(t, u, root, head + list),
{
    assert forall|i: int| t.asked.len() <= i < u.asked.len() implies touches_listed(
        #[trigger] u.asked[i],
        root,
        head + list,
    ) by {
        let q = u.asked[i];
        assert(touches_listed(q, root, list));
        if q.is_write() {
            let k = choose|k: int|
                0 <= k < list.len() && touches(
                    q.target().0,
                    q.target().1,
                    root,
                    (#[trigger] list[k]).0,
                );
            assert((head + list)[head.len() + k] == list[k]);
        }
    }
}

proof fn lemma_claim_touches(m: SysfsTranscript, root: Seq<char>, addr: Seq<char>)
    requires
        claim_run(m, root, addr).1 is Ok,
    ensures
        only_touches(
            m,
            claim_run(m, root, addr).0,
            root,
            bound_devices(claim_run(m, root, addr).1->Ok_0),
        ),
{
    let (u, r) = claim_run(m, root, addr);
    let list = bound_devices(r->Ok_0);
    let (m1, bound) = bind_run(m, root, addr);
    let (m2, peers) = peers_run(m1, root, addr);
    assert(only_reads(m1, m2));
    lemma_bind_touches(m, root, addr, list, 0);
    lemma_reads_touch_nothing(m1, m2, root, list);
    lemma_touches_on(m, m1, m2, root, list);
    lemma_bind_each_touches(m2, root, peers->Ok_0, 0, Seq::empty());
    if r->Ok_0.did_bind {
        lemma_more_listed(m2, u, root, seq![(addr, bound->Ok_0)], r->Ok_0.peer_binds);
    }
    lemma_touches_on(m, m2, u, root, list);
}

/// A preparation that succeeds writes only to the devices that its result lists.
pub proof fn law_preparation_touches_what_it_lists(
    t: SysfsTranscript,
    root: Seq<char>,
    asked: Option<Seq<char>>,
)
    requires
        prepare_run(t, root, asked).1 is Ok,
    ensures
        only_touches(
            t,
            prepare_run(t, root, asked).0,
            root,
            bound_devices(prepare_run(t, root, asked).1->Ok_0),
        ),
{
    law_nothing_is_taken_unchecked(t, root, asked);
    let end = prepare_run(t, root, asked);
    let list = bound_devices(end.1->Ok_0);
    if only_reads(t, end.0) && bound_nothing(end.1) {
        lemma_reads_touch_nothing(t, end.0, root, list);
    } else {
        let (m, addr) = choose|m: SysfsTranscript, addr: Seq<char>| #[trigger]
            claimed_at(t, root, m, addr, end);
        lemma_reads_touch_nothing(t, m, root, list);
        lemma_claim_touches(m, root, addr);
        lemma_touches_on(t, m, end.0, root, list);
    }
}

/// A restore writes only to the devices that were bound, whether or not it succeeds.
pub proof fn law_restore_touches_what_was_bound(
    t: SysfsTranscript,
    root: Seq<char>,
    state: BindView,
)
    requires
        known_drivers(bound_devices(state)),
    ensures
        only_touches(t, restore_run(t, root, state).0, root, bound_devices(state)),
{
    let list = bound_devices(state);
    let peers = state.peer_binds;
    if state.did_bind {
        assert(list[0] == (state.pci_addr, state.original_driver));
        lemma_rebind_touches(t, root, list, 0);
        let u = rebind_run(t, root, state.pci_addr, state.original_driver).0;
        lemma_rebind_peers_touches(u, root, peers, 0, None, list, 1);
        lemma_touches_on(t, u, rebind_peers_run(u, root, peers, 0, None).0, root, list);
    } else {
        lemma_rebind_peers_touches(t, root, peers, 0, None, list, 0);
    }
}

} // verus!
