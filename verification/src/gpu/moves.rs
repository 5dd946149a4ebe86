//! Which driver the writes of an exchange leave a device on.
//!
//! The kernel moves a device off its driver when the device's `unbind` attribute
//! is written, and onto a driver when the device's address is written to that
//! driver's `bind` attribute. The laws here follow these writes through binding,
//! rolling back and restoring.

use vstd::prelude::*;

use crate::fault::FaultView;
use crate::gpu::bind::{
    bind_each_run, bind_path, bind_peers_run, bind_run, give_back_run, no_driver, override_path,
    reassign_run, rebind_peers_run, rebind_run, restore_run, take_run, unbind_path, BindView,
};
use crate::gpu::checks::{
    current_driver_run, differs_from, is_pci_addr, others, peers_run, VFIO_DRIVER,
};
use crate::gpu::prepare::claim_run;
use crate::paths::{joined_path, law_last_name_is_plain};
use crate::sysfs::{answer, device_dir, write_run, SysfsRequestView, SysfsTranscript};

verus! {

/// `n` can be the name of a driver: it is not empty and holds no separator.
pub open spec fn is_driver_name(n: Seq<char>) -> bool {
    n.len() > 0 && !n.contains('/')
}

/// The driver that a device is on after a write of `data` to `path`, where it was
/// on `driver`.
pub open spec fn moved(
    driver: Option<Seq<char>>,
    root: Seq<char>,
    addr: Seq<char>,
    path: Seq<char>,
    data: Seq<char>,
) -> Option<Seq<char>> {
    if path == unbind_path(root, addr) {
        None
    } else if data == addr && exists|n: Seq<char>| #[trigger]
        is_driver_name(n) && path == bind_path(root, n) {
        Some(choose|n: Seq<char>| #[trigger] is_driver_name(n) && path == bind_path(root, n))
    } else {
        driver
    }
}

/// The driver that the device is on once all of `log` is carried out, where it
/// was on `start`.
pub open spec fn driver_left(
    log: Seq<SysfsRequestView>,
    root: Seq<char>,
    addr: Seq<char>,
    start: Option<Seq<char>>,
) -> Option<Seq<char>>
    decreases log.len(),
{
    if log.len() == 0 {
        start
    } else {
        let driver = driver_left(log.drop_last(), root, addr, start);
        let q = log.last();
        if q.is_write() {
            moved(driver, root, addr, q.target().0, q.target().1)
        } else {
            driver
        }
    }
}

/// [`driver_left`] by all that an exchange has asked.
pub open spec fn left_on(
    t: SysfsTranscript,
    root: Seq<char>,
    addr: Seq<char>,
    start: Option<Seq<char>>,
) -> Option<Seq<char>> {
    driver_left(t.asked, root, addr, start)
}

proof fn lemma_base(root: Seq<char>, part: Seq<char>) -> (base: Seq<char>)
    ensures
        forall|n: Seq<char>|
            n.len() > 0 && n[0] != '/' ==> #[trigger] joined_path(joined_path(root, part), n)
                == base + n,
{
    let dir = joined_path(root, part);
    let base = if dir.len() > 0 && dir.last() != '/' {
        dir.push('/')
    } else {
        dir
    };
    base
}

pub proof fn lemma_bind_path(root: Seq<char>) -> (base: Seq<char>)
    ensures
        forall|n: Seq<char>| #[trigger]
            is_driver_name(n) ==> bind_path(root, n) == base + n + "/bind"@,
{
    reveal_strlit("bind");
    reveal_strlit("/bind");
    let base = lemma_base(root, "sys/bus/pci/drivers"@);
    assert forall|n: Seq<char>| #[trigger] is_driver_name(n) implies bind_path(root, n) == base + n
        + "/bind"@ by {
        assert(n.contains(n[0]));
        assert(n.contains(n.last()));
        let dir = joined_path(joined_path(root, "sys/bus/pci/drivers"@), n);
        assert(dir == base + n);
        assert(dir.last() == n.last());
        assert(dir.push('/') + "bind"@ =~= base + n + "/bind"@);
    }
    base
}

pub proof fn lemma_device_paths(root: Seq<char>) -> (base: Seq<char>)
    ensures
        forall|a: Seq<char>|
            is_pci_addr(a) ==> #[trigger] unbind_path(root, a) == base + a + "/driver/unbind"@,
        forall|a: Seq<char>|
            is_pci_addr(a) ==> #[trigger] override_path(root, a) == base + a + "/driver_override"@,
{
    reveal_strlit("driver/unbind");
    reveal_strlit("/driver/unbind");
    reveal_strlit("driver_override");
    reveal_strlit("/driver_override");
    let base = lemma_base(root, "sys/bus/pci/devices"@);
    assert forall|a: Seq<char>| is_pci_addr(a) implies #[trigger] unbind_path(root, a) == base + a
        + "/driver/unbind"@ by {
        let dir = device_dir(root, a);
        assert(dir == base + a);
        assert(dir.last() == a[11]);
        assert(dir.push('/') + "driver/unbind"@ =~= base + a + "/driver/unbind"@);
    }
    assert forall|a: Seq<char>| is_pci_addr(a) implies #[trigger] override_path(root, a) == base
        + a + "/driver_override"@ by {
        let dir = device_dir(root, a);
        assert(dir == base + a);
        assert(dir.last() == a[11]);
        assert(dir.push('/') + "driver_override"@ =~= base + a + "/driver_override"@);
    }
    base
}

proof fn lemma_unbind_moves(
    driver: Option<Seq<char>>,
    root: Seq<char>,
    addr: Seq<char>,
    other: Seq<char>,
    data: Seq<char>,
)
    requires
        is_pci_addr(addr),
        is_pci_addr(other),
    ensures
        moved(driver, root, addr, unbind_path(root, other), data) == if other == addr {
            None
        } else {
            driver
        },
{
    reveal_strlit("/driver/unbind");
    reveal_strlit("/bind");
    let base = lemma_device_paths(root);
    let drivers = lemma_bind_path(root);
    let path = unbind_path(root, other);
    if path == unbind_path(root, addr) {
        let k = base.len() as int;
        assert(path.subrange(k, k + 12) =~= other);
        assert(path.subrange(k, k + 12) =~= addr);
    }
    assert forall|n: Seq<char>| #[trigger] is_driver_name(n) implies path != bind_path(root, n) by {
        let p = bind_path(root, n);
        assert(p == drivers + n + "/bind"@);
        assert(p[p.len() - 5] == '/');
        assert(path[path.len() - 5] == 'n');
    }
}

proof fn lemma_bind_moves(
    driver: Option<Seq<char>>,
    root: Seq<char>,
    addr: Seq<char>,
    name: Seq<char>,
    data: Seq<char>,
)
    requires
        is_pci_addr(addr),
        is_driver_name(name),
    ensures
        moved(driver, root, addr, bind_path(root, name), data) == if data == addr {
            Some(name)
        } else {
            driver
        },
{
    reveal_strlit("/driver/unbind");
    reveal_strlit("/bind");
    let base = lemma_device_paths(root);
    let drivers = lemma_bind_path(root);
    let path = bind_path(root, name);
    assert(path == drivers + name + "/bind"@);
    let unbind = unbind_path(root, addr);
    assert(path != unbind) by {
        assert(path[path.len() - 5] == '/');
        assert(unbind[unbind.len() - 5] == 'n');
    }
    assert forall|n: Seq<char>| #[trigger] is_driver_name(n) && path == bind_path(root, n) implies n
        == name by {
        assert(path == drivers + n + "/bind"@);
        let k = drivers.len() as int;
        assert(path.subrange(k, path.len() - 5) =~= n);
        assert(path.subrange(k, path.len() - 5) =~= name);
    }
}

proof fn lemma_end_stays(
    driver: Option<Seq<char>>,
    root: Seq<char>,
    addr: Seq<char>,
    path: Seq<char>,
    data: Seq<char>,
)
    requires
        is_pci_addr(addr),
        path.len() == 0 || path.last() != 'd',
    ensures
        moved(driver, root, addr, path, data) == driver,
{
    reveal_strlit("/driver/unbind");
    reveal_strlit("/bind");
    let base = lemma_device_paths(root);
    let drivers = lemma_bind_path(root);
    assert(unbind_path(root, addr).last() == 'd');
    assert forall|n: Seq<char>| #[trigger] is_driver_name(n) implies path != bind_path(root, n) by {
        assert(bind_path(root, n).last() == 'd');
    }
}

proof fn lemma_override_stays(
    driver: Option<Seq<char>>,
    root: Seq<char>,
    addr: Seq<char>,
    other: Seq<char>,
    data: Seq<char>,
)
    requires
        is_pci_addr(addr),
        is_pci_addr(other),
    ensures
        moved(driver, root, addr, override_path(root, other), data) == driver,
{
    reveal_strlit("/driver_override");
    let base = lemma_device_paths(root);
    assert(override_path(root, other).last() == 'e');
    lemma_end_stays(driver, root, addr, override_path(root, other), data);
}

/// What one more request does to the driver that a device is left on.
proof fn lemma_ask_moves(
    t: SysfsTranscript,
    q: SysfsRequestView,
    root: Seq<char>,
    addr: Seq<char>,
    start: Option<Seq<char>>,
)
    ensures
        left_on(t.ask(q), root, addr, start) == if t.live() && q.is_write() {
            moved(left_on(t, root, addr, start), root, addr, q.target().0, q.target().1)
        } else {
            left_on(t, root, addr, start)
        },
{
    if t.live() {
        assert(t.ask(q).asked.drop_last() =~= t.asked);
    }
}

proof fn lemma_write_moves(
    t: SysfsTranscript,
    root: Seq<char>,
    path: Seq<char>,
    data: Seq<char>,
    addr: Seq<char>,
    start: Option<Seq<char>>,
)
    ensures
        left_on(write_run(t, root, path, data).0, root, addr, start) == if t.live() {
            moved(left_on(t, root, addr, start), root, addr, path, data)
        } else {
            left_on(t, root, addr, start)
        },
        !t.live() ==> write_run(t, root, path, data).0 == t,
{
    lemma_ask_moves(t, SysfsRequestView::WriteGuarded { path, data }, root, addr, start);
    lemma_ask_moves(t, SysfsRequestView::WriteFile { path, data }, root, addr, start);
}

/// A driver that a link named can be bound again.
pub proof fn lemma_linked_name(t: SysfsTranscript, root: Seq<char>, addr: Seq<char>)
    ensures
        current_driver_run(t, root, addr).1 is Some ==> is_driver_name(
            current_driver_run(t, root, addr).1->0,
        ),
{
    let (u, driver) = current_driver_run(t, root, addr);
    if driver is Some {
        law_last_name_is_plain(answer(u).text);
    }
}

proof fn lemma_vfio_name()
    ensures
        is_driver_name(VFIO_DRIVER@),
{
    reveal_strlit("vfio-pci");
}

proof fn lemma_give_back_moves(
    t: SysfsTranscript,
    root: Seq<char>,
    device: Seq<char>,
    driver: Option<Seq<char>>,
    addr: Seq<char>,
    start: Option<Seq<char>>,
)
    requires
        is_pci_addr(addr),
        driver is Some ==> is_driver_name(driver->0),
    ensures
        left_on(give_back_run(t, root, device, driver), root, addr, start) == if t.live()
            && driver is Some && device == addr {
            driver
        } else {
            left_on(t, root, addr, start)
        },
        !t.live() ==> give_back_run(t, root, device, driver) == t,
{
    match driver {
        Some(name) => {
            lemma_write_moves(t, root, bind_path(root, name), device, addr, start);
            lemma_bind_moves(left_on(t, root, addr, start), root, addr, name, device);
        },
        None => {},
    }
}

proof fn lemma_take_moves(
    t: SysfsTranscript,
    root: Seq<char>,
    device: Seq<char>,
    driver: Option<Seq<char>>,
    addr: Seq<char>,
    start: Option<Seq<char>>,
)
    requires
        is_pci_addr(addr),
        is_pci_addr(device),
        driver is Some ==> is_driver_name(driver->0),
    ensures
        ({
            let (u, r) = take_run(t, root, device, driver);
            &&& !t.live() ==> u == t
            &&& device != addr ==> left_on(u, root, addr, start) == left_on(t, root, addr, start)
            &&& device == addr && r is Ok ==> left_on(u, root, addr, start) == Some(VFIO_DRIVER@)
            &&& device == addr && r is Err && u.live() && driver is Some ==> left_on(
                u,
                root,
                addr,
                start,
            ) == driver
        }),
{
    lemma_vfio_name();
    let over = override_path(root, device);
    let bind = bind_path(root, VFIO_DRIVER@);
    lemma_write_moves(t, root, over, VFIO_DRIVER@, addr, start);
    lemma_override_stays(left_on(t, root, addr, start), root, addr, device, VFIO_DRIVER@);
    let (t1, w1) = write_run(t, root, over, VFIO_DRIVER@);
    lemma_give_back_moves(t1, root, device, driver, addr, start);
    lemma_write_moves(t1, root, bind, device, addr, start);
    lemma_bind_moves(left_on(t1, root, addr, start), root, addr, VFIO_DRIVER@, device);
    let (t2, w2) = write_run(t1, root, bind, device);
    let clear = SysfsRequestView::WriteFile { path: over, data: Seq::empty() };
    lemma_ask_moves(t2, clear, root, addr, start);
    lemma_override_stays(left_on(t2, root, addr, start), root, addr, device, Seq::empty());
    let t3 = t2.ask(clear);
    lemma_give_back_moves(t3, root, device, driver, addr, start);
}

pub proof fn lemma_bind_run_moves(
    t: SysfsTranscript,
    root: Seq<char>,
    device: Seq<char>,
    addr: Seq<char>,
    start: Option<Seq<char>>,
)
    requires
        is_pci_addr(addr),
    ensures
        ({
            let (u, r) = bind_run(t, root, device);
            &&& device != addr ==> left_on(u, root, addr, start) == left_on(t, root, addr, start)
            &&& device == addr && r is Ok ==> left_on(u, root, addr, start) == if r->Ok_0
                == VFIO_DRIVER@ {
                left_on(t, root, addr, start)
            } else {
                Some(VFIO_DRIVER@)
            }
        }),
{
    if is_pci_addr(device) {
        lemma_linked_name(t, root, device);
        let (t1, driver) = current_driver_run(t, root, device);
        let link = SysfsRequestView::ReadLink {
            path: joined_path(device_dir(root, device), "driver"@),
        };
        lemma_ask_moves(t, link, root, addr, start);
        lemma_take_moves(t1, root, device, driver, addr, start);
        let unbind = unbind_path(root, device);
        lemma_write_moves(t1, root, unbind, device, addr, start);
        lemma_unbind_moves(left_on(t1, root, addr, start), root, addr, device, device);
        let t2 = write_run(t1, root, unbind, device).0;
        lemma_take_moves(t2, root, device, driver, addr, start);
        if driver is None {
            reveal_strlit("vfio-pci");
            assert(Seq::<char>::empty() != VFIO_DRIVER@);
        }
    }
}

/// A successful bind leaves the device on the passthrough driver: either it was
/// there, and the writes move it nowhere, or they move it there.
pub proof fn law_bind_moves_the_device(
    t: SysfsTranscript,
    root: Seq<char>,
    addr: Seq<char>,
    start: Option<Seq<char>>,
)
    requires
        bind_run(t, root, addr).1 is Ok,
    ensures
        ({
            let (u, r) = bind_run(t, root, addr);
            if r->Ok_0 == VFIO_DRIVER@ {
                &&& current_driver_run(t, root, addr).1 == Some(VFIO_DRIVER@)
                &&& left_on(u, root, addr, start) == left_on(t, root, addr, start)
            } else {
                left_on(u, root, addr, start) == Some(VFIO_DRIVER@)
            }
        }),
{
    lemma_bind_run_moves(t, root, addr, addr, start);
    reveal_strlit("vfio-pci");
    assert(Seq::<char>::empty() != VFIO_DRIVER@);
}

/// A bind that fails after the device was unbound hands the device back to the
/// driver that it was on.
pub proof fn law_failed_bind_hands_back(
    t: SysfsTranscript,
    root: Seq<char>,
    addr: Seq<char>,
    start: Option<Seq<char>>,
)
    requires
        current_driver_run(t, root, addr).1 is Some,
        write_run(
            current_driver_run(t, root, addr).0,
            root,
            unbind_path(root, addr),
            addr,
        ).1 is Ok,
        is_pci_addr(addr),
        bind_run(t, root, addr).1 is Err,
        bind_run(t, root, addr).0.live(),
    ensures
        left_on(bind_run(t, root, addr).0, root, addr, start) == current_driver_run(
            t,
            root,
            addr,
        ).1,
{
    lemma_linked_name(t, root, addr);
    let (t1, driver) = current_driver_run(t, root, addr);
    let t2 = write_run(t1, root, unbind_path(root, addr), addr).0;
    lemma_take_moves(t2, root, addr, driver, addr, start);
}

pub proof fn lemma_rebind_moves(
    t: SysfsTranscript,
    root: Seq<char>,
    device: Seq<char>,
    original: Seq<char>,
    addr: Seq<char>,
    start: Option<Seq<char>>,
)
    requires
        is_pci_addr(addr),
        no_driver(original) || is_driver_name(original),
    ensures
        ({
            let (u, r) = rebind_run(t, root, device, original);
            &&& device != addr ==> left_on(u, root, addr, start) == left_on(t, root, addr, start)
            &&& device == addr && r is Ok && !no_driver(original) ==> left_on(
                u,
                root,
                addr,
                start,
            ) == Some(original)
        }),
{
    if is_pci_addr(device) {
        let (t1, driver) = current_driver_run(t, root, device);
        let link = SysfsRequestView::ReadLink {
            path: joined_path(device_dir(root, device), "driver"@),
        };
        lemma_ask_moves(t, link, root, addr, start);
        lemma_reassign_moves(t1, root, device, original, addr, start);
        let unbind = unbind_path(root, device);
        lemma_write_moves(t1, root, unbind, device, addr, start);
        lemma_unbind_moves(left_on(t1, root, addr, start), root, addr, device, device);
        let t2 = write_run(t1, root, unbind, device).0;
        lemma_reassign_moves(t2, root, device, original, addr, start);
    }
}

proof fn lemma_reassign_moves(
    t: SysfsTranscript,
    root: Seq<char>,
    device: Seq<char>,
    original: Seq<char>,
    addr: Seq<char>,
    start: Option<Seq<char>>,
)
    requires
        is_pci_addr(addr),
        is_pci_addr(device),
        no_driver(original) || is_driver_name(original),
    ensures
        ({
            let (u, r) = reassign_run(t, root, device, original);
            &&& device != addr ==> left_on(u, root, addr, start) == left_on(t, root, addr, start)
            &&& device == addr && r is Ok && !no_driver(original) ==> left_on(
                u,
                root,
                addr,
                start,
            ) == Some(original)
        }),
{
    let over = override_path(root, device);
    lemma_write_moves(t, root, over, Seq::empty(), addr, start);
    lemma_override_stays(left_on(t, root, addr, start), root, addr, device, Seq::empty());
    let t1 = write_run(t, root, over, Seq::empty()).0;
    let path = joined_path(root, "sys/bus/pci/rescan"@);
    let rescan = SysfsRequestView::WriteFile { path, data: "1"@ };
    lemma_ask_moves(t1, rescan, root, addr, start);
    reveal_strlit("sys/bus/pci/rescan");
    assert(path.last() == 'n');
    lemma_end_stays(left_on(t1, root, addr, start), root, addr, path, "1"@);
    if !no_driver(original) {
        lemma_write_moves(t1, root, bind_path(root, original), device, addr, start);
        lemma_bind_moves(left_on(t1, root, addr, start), root, addr, original, device);
    }
}

/// Every listed driver is one that can be bound again, or none.
pub open spec fn known_drivers(pairs: Seq<(Seq<char>, Seq<char>)>) -> bool {
    forall|k: int|
        0 <= k < pairs.len() ==> no_driver((#[trigger] pairs[k]).1) || is_driver_name(pairs[k].1)
}

/// No device is listed twice.
pub open spec fn distinct_devices(pairs: Seq<(Seq<char>, Seq<char>)>) -> bool {
    forall|j: int, k: int|
        0 <= j < k < pairs.len() ==> (#[trigger] pairs[j]).0 != (#[trigger] pairs[k]).0
}

/// The device is not among those listed from number `i` on.
pub open spec fn not_listed(pairs: Seq<(Seq<char>, Seq<char>)>, i: nat, addr: Seq<char>) -> bool {
    forall|k: int| i <= k < pairs.len() ==> (#[trigger] pairs[k]).0 != addr
}

/// After a failure, moving the rest back reports that failure.
pub proof fn lemma_first_failure_stays(
    t: SysfsTranscript,
    root: Seq<char>,
    peers: Seq<(Seq<char>, Seq<char>)>,
    i: nat,
    e: FaultView,
)
    ensures
        rebind_peers_run(t, root, peers, i, Some(e)).1 == Err::<(), FaultView>(e),
    decreases peers.len() - i,
{
    if i < peers.len() {
        let u = rebind_run(t, root, peers[i as int].0, peers[i as int].1).0;
        lemma_first_failure_stays(u, root, peers, i + 1, e);
    }
}

pub proof fn lemma_rebind_others(
    t: SysfsTranscript,
    root: Seq<char>,
    peers: Seq<(Seq<char>, Seq<char>)>,
    i: nat,
    first: Option<FaultView>,
    addr: Seq<char>,
    start: Option<Seq<char>>,
)
    requires
        is_pci_addr(addr),
        known_drivers(peers),
        not_listed(peers, i, addr),
    ensures
        left_on(rebind_peers_run(t, root, peers, i, first).0, root, addr, start) == left_on(
            t,
            root,
            addr,
            start,
        ),
    decreases peers.len() - i,
{
    if i < peers.len() {
        let (u, r) = rebind_run(t, root, peers[i as int].0, peers[i as int].1);
        lemma_rebind_moves(t, root, peers[i as int].0, peers[i as int].1, addr, start);
        match (first, r) {
            (None, Err(e)) => {
                lemma_rebind_others(u, root, peers, i + 1, Some(e), addr, start);
            },
            _ => {
                lemma_rebind_others(u, root, peers, i + 1, first, addr, start);
            },
        }
    }
}

pub proof fn lemma_rebind_listed(
    t: SysfsTranscript,
    root: Seq<char>,
    peers: Seq<(Seq<char>, Seq<char>)>,
    i: nat,
    k: int,
    start: Option<Seq<char>>,
)
    requires
        i <= k < peers.len(),
        known_drivers(peers),
        distinct_devices(peers),
        rebind_peers_run(t, root, peers, i, None).1 is Ok,
    ensures
        is_pci_addr(peers[k].0),
        !no_driver(peers[k].1) ==> left_on(
            rebind_peers_run(t, root, peers, i, None).0,
            root,
            peers[k].0,
            start,
        ) == Some(peers[k].1),
    decreases peers.len() - i,
{
    let (u, r) = rebind_run(t, root, peers[i as int].0, peers[i as int].1);
    if r is Err {
        lemma_first_failure_stays(u, root, peers, i + 1, r->Err_0);
    } else if k == i {
        let addr = peers[k].0;
        lemma_rebind_moves(t, root, addr, peers[k].1, addr, start);
        lemma_rebind_others(u, root, peers, i + 1, None, addr, start);
    } else {
        lemma_rebind_listed(u, root, peers, i + 1, k, start);
    }
}

/// The state lists every device once, with a driver to go back to or none.
pub open spec fn well_formed(state: BindView) -> bool {
    &&& no_driver(state.original_driver) || is_driver_name(state.original_driver)
    &&& known_drivers(state.peer_binds)
    &&& distinct_devices(state.peer_binds)
    &&& not_listed(state.peer_binds, 0, state.pci_addr)
}

/// A successful restore leaves the GPU, where it was bound, and every other device
/// that was bound with it, on the driver that it was on.
pub proof fn law_restore_moves_back(
    t: SysfsTranscript,
    root: Seq<char>,
    state: BindView,
    start: Option<Seq<char>>,
)
    requires
        well_formed(state),
        restore_run(t, root, state).1 is Ok,
    ensures
        ({
            let u = restore_run(t, root, state).0;
            &&& state.did_bind && !no_driver(state.original_driver) ==> left_on(
                u,
                root,
                state.pci_addr,
                start,
            ) == Some(state.original_driver)
            &&& forall|k: int|
                0 <= k < state.peer_binds.len() && !no_driver(state.peer_binds[k].1) ==> left_on(
                    u,
                    root,
                    (#[trigger] state.peer_binds[k]).0,
                    start,
                ) == Some(state.peer_binds[k].1)
        }),
{
    let addr = state.pci_addr;
    let (t1, r) = rebind_run(t, root, addr, state.original_driver);
    if state.did_bind {
        lemma_rebind_moves(t, root, addr, state.original_driver, addr, start);
        lemma_rebind_others(t1, root, state.peer_binds, 0, None, addr, start);
    }
    assert forall|k: int|
        0 <= k < state.peer_binds.len() && !no_driver(state.peer_binds[k].1) implies left_on(
        restore_run(t, root, state).0,
        root,
        (#[trigger] state.peer_binds[k]).0,
        start,
    ) == Some(state.peer_binds[k].1) by {
        if state.did_bind {
            lemma_rebind_listed(t1, root, state.peer_binds, 0, k, start);
        } else {
            lemma_rebind_listed(t, root, state.peer_binds, 0, k, start);
        }
    }
}

/// A GPU that was ready with all of its group needs no restoring: nothing is asked.
pub proof fn law_nothing_to_restore(t: SysfsTranscript, root: Seq<char>, state: BindView)
    requires
        !state.did_bind,
        state.peer_binds.len() == 0,
    ensures
        restore_run(t, root, state) == (t, Ok::<(), FaultView>(())),
{
}

/// What binding `peers[i..]` lists beyond `done`: devices of `peers[i..]` that were
/// elsewhere, each once, in order.
proof fn lemma_bound_list(
    t: SysfsTranscript,
    root: Seq<char>,
    peers: Seq<Seq<char>>,
    i: nat,
    done: Seq<(Seq<char>, Seq<char>)>,
)
    requires
        peers.no_duplicates(),
        known_drivers(done),
        distinct_devices(done),
        forall|k: int, j: int|
            0 <= k < done.len() && i <= j < peers.len() ==> (#[trigger] done[k]).0
                != #[trigger] peers[j],
        forall|k: int| 0 <= k < done.len() ==> peers.contains((#[trigger] done[k]).0),
        bind_each_run(t, root, peers, i, done).1 is Ok,
    ensures
        ({
            let all = bind_each_run(t, root, peers, i, done).1->Ok_0;
            &&& known_drivers(all)
            &&& distinct_devices(all)
            &&& forall|k: int| 0 <= k < all.len() ==> peers.contains((#[trigger] all[k]).0)
        }),
    decreases peers.len() - i,
{
    if i < peers.len() {
        let peer = peers[i as int];
        let (u, r) = bind_run(t, root, peer);
        let original = r->Ok_0;
        lemma_linked_name(t, root, peer);
        if original == VFIO_DRIVER@ {
            lemma_bound_list(u, root, peers, i + 1, done);
        } else {
            let more = done.push((peer, original));
            assert(no_driver(original) || is_driver_name(original));
            assert(peers.contains(peer));
            lemma_bound_list(u, root, peers, i + 1, more);
        }
    }
}

proof fn lemma_bind_others(
    t: SysfsTranscript,
    root: Seq<char>,
    peers: Seq<Seq<char>>,
    i: nat,
    done: Seq<(Seq<char>, Seq<char>)>,
    addr: Seq<char>,
    start: Option<Seq<char>>,
)
    requires
        is_pci_addr(addr),
        !peers.contains(addr),
        bind_each_run(t, root, peers, i, done).1 is Ok,
    ensures
        left_on(bind_each_run(t, root, peers, i, done).0, root, addr, start) == left_on(
            t,
            root,
            addr,
            start,
        ),
    decreases peers.len() - i,
{
    if i < peers.len() {
        let peer = peers[i as int];
        assert(peers.contains(peer));
        lemma_bind_run_moves(t, root, peer, addr, start);
        let (u, r) = bind_run(t, root, peer);
        let original = r->Ok_0;
        if original == VFIO_DRIVER@ {
            lemma_bind_others(u, root, peers, i + 1, done, addr, start);
        } else {
            lemma_bind_others(u, root, peers, i + 1, done.push((peer, original)), addr, start);
        }
    }
}

/// The devices that the IOMMU group of `addr` lists, the device itself left out.
pub open spec fn group_of(t: SysfsTranscript, root: Seq<char>, addr: Seq<char>) -> Seq<Seq<char>> {
    peers_run(bind_run(t, root, addr).0, root, addr).1->Ok_0
}

proof fn lemma_peers_leave_out(t: SysfsTranscript, root: Seq<char>, addr: Seq<char>)
    ensures
        peers_run(t, root, addr).1 is Ok ==> !peers_run(t, root, addr).1->Ok_0.contains(addr),
{
    let (u, r) = peers_run(t, root, addr);
    if r is Ok {
        let differs = differs_from(addr);
        let names = answer(u).names;
        if r->Ok_0.contains(addr) && r->Ok_0 == others(names, addr) {
            let k = choose|k: int| 0 <= k < r->Ok_0.len() && r->Ok_0[k] == addr;
            names.lemma_filter_pred(differs, k);
        }
    }
}

/// A claimed GPU is left on the passthrough driver, and the state that is returned
/// can be restored: it lists no device twice and only drivers that links named.
pub proof fn law_claimed_gpu_is_bound(
    t: SysfsTranscript,
    root: Seq<char>,
    addr: Seq<char>,
    start: Option<Seq<char>>,
)
    requires
        claim_run(t, root, addr).1 is Ok,
        group_of(t, root, addr).no_duplicates(),
    ensures
        ({
            let (u, r) = claim_run(t, root, addr);
            let state = r->Ok_0;
            &&& state.pci_addr == addr
            &&& state.did_bind == (state.original_driver != VFIO_DRIVER@)
            &&& well_formed(state)
            &&& state.original_driver != VFIO_DRIVER@ ==> left_on(u, root, addr, start) == Some(
                VFIO_DRIVER@,
            )
        }),
{
    lemma_bind_run_moves(t, root, addr, addr, start);
    lemma_linked_name(t, root, addr);
    let (t1, bound) = bind_run(t, root, addr);
    lemma_vfio_name();
    let original = bound->Ok_0;
    lemma_peers_leave_out(t1, root, addr);
    let (t2, peers) = peers_run(t1, root, addr);
    let names = peers->Ok_0;
    lemma_bound_list(t2, root, names, 0, Seq::empty());
    lemma_bind_others(t2, root, names, 0, Seq::empty(), addr, start);
    let link = SysfsRequestView::ListDir {
        path: joined_path(device_dir(root, addr), "iommu_group/devices"@),
    };
    lemma_ask_moves(t1, link, root, addr, start);
}

/// Restoring undoes claiming: the GPU, and every other device of its group that
/// was moved with it, is left on the driver that it was on before.
pub proof fn law_restore_undoes_claim(
    t: SysfsTranscript,
    root: Seq<char>,
    addr: Seq<char>,
    start: Option<Seq<char>>,
)
    requires
        claim_run(t, root, addr).1 is Ok,
        group_of(t, root, addr).no_duplicates(),
        restore_run(
            claim_run(t, root, addr).0,
            root,
            claim_run(t, root, addr).1->Ok_0,
        ).1 is Ok,
    ensures
        ({
            let (u, r) = claim_run(t, root, addr);
            let state = r->Ok_0;
            let v = restore_run(u, root, state).0;
            &&& match current_driver_run(t, root, addr).1 {
                Some(name) => !no_driver(name) && name != VFIO_DRIVER@ ==> left_on(
                    v,
                    root,
                    addr,
                    start,
                ) == Some(name),
                None => true,
            }
            &&& forall|k: int|
                0 <= k < state.peer_binds.len() && !no_driver(state.peer_binds[k].1) ==> left_on(
                    v,
                    root,
                    (#[trigger] state.peer_binds[k]).0,
                    start,
                ) == Some(state.peer_binds[k].1)
        }),
{
    law_claimed_gpu_is_bound(t, root, addr, start);
    let (u, r) = claim_run(t, root, addr);
    law_restore_moves_back(u, root, r->Ok_0, start);
}

/// A claim that fails once the GPU is bound moves the GPU back: where that
/// succeeds, the GPU is left on the driver that it was on.
pub proof fn law_failed_claim_moves_back(
    t: SysfsTranscript,
    root: Seq<char>,
    addr: Seq<char>,
    start: Option<Seq<char>>,
)
    requires
        claim_run(t, root, addr).1 is Err,
        bind_run(t, root, addr).1 is Ok,
        !no_driver(bind_run(t, root, addr).1->Ok_0),
        rebind_run(
            bind_peers_run(bind_run(t, root, addr).0, root, addr).0,
            root,
            addr,
            bind_run(t, root, addr).1->Ok_0,
        ).1 is Ok,
    ensures
        left_on(claim_run(t, root, addr).0, root, addr, start) == Some(
            bind_run(t, root, addr).1->Ok_0,
        ),
{
    lemma_linked_name(t, root, addr);
    lemma_vfio_name();
    let (t1, bound) = bind_run(t, root, addr);
    let t2 = bind_peers_run(t1, root, addr).0;
    lemma_rebind_moves(t2, root, addr, bound->Ok_0, addr, start);
}

} // verus!
