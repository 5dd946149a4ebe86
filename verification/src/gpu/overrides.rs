//! What the writes of an exchange leave in a device's `driver_override` attribute.

use vstd::prelude::*;

use crate::gpu::bind::{
    bind_path, bind_run, no_driver, override_path, reassign_run, rebind_peers_run, rebind_run,
    take_run, unbind_path,
};
use crate::gpu::checks::{current_driver_run, is_pci_addr, VFIO_DRIVER};
use crate::gpu::moves::{
    is_driver_name, known_drivers, lemma_bind_path, lemma_device_paths, lemma_first_failure_stays,
    lemma_linked_name, not_listed,
};
use crate::paths::joined_path;
use crate::sysfs::{write_run, SysfsRequestView, SysfsTranscript};

verus! {

/// What the override of the device holds once all of `log` is carried out, where it
/// held `start`.
pub open spec fn override_left(
    log: Seq<SysfsRequestView>,
    root: Seq<char>,
    addr: Seq<char>,
    start: Seq<char>,
) -> Seq<char>
    decreases log.len(),
{
    if log.len() == 0 {
        start
    } else if log.last().is_write() && log.last().target().0 == override_path(root, addr) {
        log.last().target().1
    } else {
        override_left(log.drop_last(), root, addr, start)
    }
}

/// [`override_left`] by all that an exchange has asked.
pub open spec fn override_on(
    t: SysfsTranscript,
    root: Seq<char>,
    addr: Seq<char>,
    start: Seq<char>,
) -> Seq<char> {
    override_left(t.asked, root, addr, start)
}

proof fn lemma_ask_overrides(
    t: SysfsTranscript,
    q: SysfsRequestView,
    root: Seq<char>,
    addr: Seq<char>,
    start: Seq<char>,
)
    ensures
        override_on(t.ask(q), root, addr, start) == if t.live() && q.is_write() && q.target().0
            == override_path(root, addr) {
            q.target().1
        } else {
            override_on(t, root, addr, start)
        },
{
    if t.live() {
        assert(t.ask(q).asked.drop_last() =~= t.asked);
    }
}

proof fn lemma_write_overrides(
    t: SysfsTranscript,
    root: Seq<char>,
    path: Seq<char>,
    data: Seq<char>,
    addr: Seq<char>,
    start: Seq<char>,
)
    ensures
        override_on(write_run(t, root, path, data).0, root, addr, start) == if t.live() && path
            == override_path(root, addr) {
            data
        } else {
            override_on(t, root, addr, start)
        },
        !t.live() ==> write_run(t, root, path, data).1 is Err,
{
    lemma_ask_overrides(t, SysfsRequestView::WriteGuarded { path, data }, root, addr, start);
    lemma_ask_overrides(t, SysfsRequestView::WriteFile { path, data }, root, addr, start);
}

/// An override belongs to one device, and is none of the other attributes that are
/// written.
proof fn lemma_override_is_apart(root: Seq<char>, addr: Seq<char>)
    requires
        is_pci_addr(addr),
    ensures
        forall|d: Seq<char>|
            is_pci_addr(d) && #[trigger] override_path(root, d) == override_path(root, addr) ==> d
                == addr,
        forall|d: Seq<char>|
            is_pci_addr(d) ==> #[trigger] unbind_path(root, d) != override_path(root, addr),
        forall|n: Seq<char>|
            is_driver_name(n) ==> #[trigger] bind_path(root, n) != override_path(root, addr),
        joined_path(root, "sys/bus/pci/rescan"@) != override_path(root, addr),
{
    reveal_strlit("/driver/unbind");
    reveal_strlit("/driver_override");
    reveal_strlit("/bind");
    reveal_strlit("sys/bus/pci/rescan");
    let base = lemma_device_paths(root);
    let drivers = lemma_bind_path(root);
    let over = override_path(root, addr);
    assert(over.last() == 'e');
    assert forall|d: Seq<char>|
        is_pci_addr(d) && #[trigger] override_path(root, d) == over implies d == addr by {
        let k = base.len() as int;
        assert(over.subrange(k, k + 12) =~= d);
        assert(over.subrange(k, k + 12) =~= addr);
    }
    assert forall|d: Seq<char>| is_pci_addr(d) implies #[trigger] unbind_path(root, d) != over by {
        assert(unbind_path(root, d).last() == 'd');
    }
    assert forall|n: Seq<char>| is_driver_name(n) implies #[trigger] bind_path(root, n) != over by {
        assert(bind_path(root, n).last() == 'd');
    }
    assert(joined_path(root, "sys/bus/pci/rescan"@).last() == 'n');
}

proof fn lemma_take_overrides(
    t: SysfsTranscript,
    root: Seq<char>,
    device: Seq<char>,
    driver: Option<Seq<char>>,
    addr: Seq<char>,
    start: Seq<char>,
)
    requires
        is_pci_addr(addr),
        is_pci_addr(device),
        take_run(t, root, device, driver).1 is Ok,
    ensures
        override_on(take_run(t, root, device, driver).0, root, addr, start) == if device == addr {
            VFIO_DRIVER@
        } else {
            override_on(t, root, addr, start)
        },
{
    reveal_strlit("vfio-pci");
    lemma_override_is_apart(root, addr);
    let over = override_path(root, device);
    lemma_write_overrides(t, root, over, VFIO_DRIVER@, addr, start);
    let t1 = write_run(t, root, over, VFIO_DRIVER@).0;
    lemma_write_overrides(t1, root, bind_path(root, VFIO_DRIVER@), device, addr, start);
}

/// A successful bind sets the override of a device that was elsewhere, and no other.
pub proof fn lemma_bind_overrides(
    t: SysfsTranscript,
    root: Seq<char>,
    device: Seq<char>,
    addr: Seq<char>,
    start: Seq<char>,
)
    requires
        is_pci_addr(addr),
        bind_run(t, root, device).1 is Ok,
    ensures
        override_on(bind_run(t, root, device).0, root, addr, start) == if device == addr
            && bind_run(t, root, device).1->Ok_0 != VFIO_DRIVER@ {
            VFIO_DRIVER@
        } else {
            override_on(t, root, addr, start)
        },
{
    reveal_strlit("vfio-pci");
    lemma_override_is_apart(root, addr);
    lemma_linked_name(t, root, device);
    let (t1, driver) = current_driver_run(t, root, device);
    lemma_ask_overrides(t, t1.asked.last(), root, addr, start);
    let t2 = write_run(t1, root, unbind_path(root, device), device).0;
    lemma_write_overrides(t1, root, unbind_path(root, device), device, addr, start);
    if driver is None {
        assert(Seq::<char>::empty() != VFIO_DRIVER@);
        lemma_take_overrides(t1, root, device, driver, addr, start);
    } else if driver != Some(VFIO_DRIVER@) {
        lemma_take_overrides(t2, root, device, driver, addr, start);
    }
}

proof fn lemma_reassign_overrides(
    t: SysfsTranscript,
    root: Seq<char>,
    device: Seq<char>,
    original: Seq<char>,
    addr: Seq<char>,
    start: Seq<char>,
)
    requires
        is_pci_addr(addr),
        is_pci_addr(device),
        no_driver(original) || is_driver_name(original),
        reassign_run(t, root, device, original).1 is Ok,
    ensures
        override_on(reassign_run(t, root, device, original).0, root, addr, start) == if device
            == addr {
            Seq::empty()
        } else {
            override_on(t, root, addr, start)
        },
{
    lemma_override_is_apart(root, addr);
    let over = override_path(root, device);
    lemma_write_overrides(t, root, over, Seq::empty(), addr, start);
    let t1 = write_run(t, root, over, Seq::empty()).0;
    let path = joined_path(root, "sys/bus/pci/rescan"@);
    lemma_ask_overrides(
        t1,
        SysfsRequestView::WriteFile { path, data: "1"@ },
        root,
        addr,
        start,
    );
    lemma_write_overrides(t1, root, bind_path(root, original), device, addr, start);
}

/// Moving a device back empties its override, and no other.
pub proof fn lemma_rebind_overrides(
    t: SysfsTranscript,
    root: Seq<char>,
    device: Seq<char>,
    original: Seq<char>,
    addr: Seq<char>,
    start: Seq<char>,
)
    requires
        is_pci_addr(addr),
        no_driver(original) || is_driver_name(original),
        rebind_run(t, root, device, original).1 is Ok,
    ensures
        override_on(rebind_run(t, root, device, original).0, root, addr, start) == if device
            == addr {
            Seq::empty()
        } else {
            override_on(t, root, addr, start)
        },
{
    lemma_override_is_apart(root, addr);
    let (t1, driver) = current_driver_run(t, root, device);
    lemma_ask_overrides(t, t1.asked.last(), root, addr, start);
    let t2 = write_run(t1, root, unbind_path(root, device), device).0;
    lemma_write_overrides(t1, root, unbind_path(root, device), device, addr, start);
    if driver is None {
        lemma_reassign_overrides(t1, root, device, original, addr, start);
    } else {
        lemma_reassign_overrides(t2, root, device, original, addr, start);
    }
}

/// Moving `peers[i..]` back empties their overrides, and no others.
pub proof fn lemma_rebind_peers_overrides(
    t: SysfsTranscript,
    root: Seq<char>,
    peers: Seq<(Seq<char>, Seq<char>)>,
    i: nat,
    addr: Seq<char>,
    start: Seq<char>,
)
    requires
        is_pci_addr(addr),
        known_drivers(peers),
        rebind_peers_run(t, root, peers, i, None).1 is Ok,
    ensures
        override_on(rebind_peers_run(t, root, peers, i, None).0, root, addr, start)
            == if not_listed(peers, i, addr) {
            override_on(t, root, addr, start)
        } else {
            Seq::empty()
        },
    decreases peers.len() - i,
{
    if i < peers.len() {
        let (u, r) = rebind_run(t, root, peers[i as int].0, peers[i as int].1);
        if r is Err {
            lemma_first_failure_stays(u, root, peers, i + 1, r->Err_0);
        } else {
            lemma_rebind_overrides(t, root, peers[i as int].0, peers[i as int].1, addr, start);
            lemma_rebind_peers_overrides(u, root, peers, i + 1, addr, start);
            assert(not_listed(peers, i, addr) <==> peers[i as int].0 != addr && not_listed(
                peers,
                i + 1,
                addr,
            ));
        }
    }
}

/// Only reading leaves every override as it is.
pub proof fn lemma_reads_keep_overrides(
    log: Seq<SysfsRequestView>,
    n: int,
    root: Seq<char>,
    addr: Seq<char>,
    start: Seq<char>,
)
    requires
        0 <= n <= log.len(),
        forall|i: int| n <= i < log.len() ==> !(#[trigger] log[i]).is_write(),
    ensures
        override_left(log, root, addr, start) == override_left(log.take(n), root, addr, start),
    decreases log.len() - n,
{
    if n < log.len() {
        let shorter = log.drop_last();
        lemma_reads_keep_overrides(shorter, n, root, addr, start);
        assert(shorter.take(n) =~= log.take(n));
    } else {
        assert(log.take(n) =~= log);
    }
}

} // verus!
