//! What is written to move a device to the driver for machines and back, in order.

use vstd::prelude::*;

use crate::dialogue::{
    goes_on, group_in_step, lemma_asked_earlier, lemma_asked_now, lemma_asked_stays, was_asked,
};
use crate::fault::{FaultKind, FaultView};
use crate::gpu::bind::{
    bind_each_run, bind_run, rebind_peers_run, rebind_run, take_run, unbind_path,
};
use crate::gpu::checks::{current_driver_run, is_pci_addr, linked_driver};
use crate::gpu::probe::{available_run, probe_run, HostNvidiaVfioReadiness};
use crate::gpu::replay::{go_probe, go_rebind, go_rebind_peers};
use crate::gpu::safety::of_device;
use crate::paths::{joined_path, settled};
use crate::sysfs::{write_run, SysfsReplyView, SysfsRequestView, SysfsTranscript};
use crate::text::decimal;

verus! {

/// Request number `i` wrote `data` to `path` and succeeded. On the live host it was under
/// a time limit, since a driver may block it for ever.
pub open spec fn wrote(
    u: SysfsTranscript,
    i: int,
    root: Seq<char>,
    path: Seq<char>,
    data: Seq<char>,
) -> bool {
    &&& 0 <= i < u.asked.len()
    &&& u.asked[i].is_write() && u.asked[i].target() == (path, data)
    &&& u.replies[i].ok
    &&& root == "/"@ ==> u.asked[i] is WriteGuarded
}

/// Request number `i` read the driver that the device at `addr` is on.
pub open spec fn read_driver(
    u: SysfsTranscript,
    i: int,
    root: Seq<char>,
    addr: Seq<char>,
) -> bool {
    0 <= i < u.asked.len() && u.asked[i] == (SysfsRequestView::ReadLink {
        path: of_device(root, addr, "driver"@),
    })
}

/// The file of a driver that takes the address of a device to be bound to it.
pub open spec fn bind_file(root: Seq<char>, driver: Seq<char>) -> Seq<char> {
    joined_path(joined_path(joined_path(root, "sys/bus/pci/drivers"@), driver), "bind"@)
}

proof fn lemma_live_root()
    ensures
        settled("/"@) == seq!['/'],
{
    reveal_strlit("/");
    assert("/"@ =~= seq!['/']);
}

/// A device is bound in three steps, after a look at the driver that it is on: it is taken
/// off that driver, where it is on one, its override is set, and its address is given to
/// the driver for machines. The result is the driver that it was on. A device that is on
/// the driver for machines already is only looked at.
pub proof fn law_binding_steps(t: SysfsTranscript, root: Seq<char>, addr: Seq<char>)
    requires
        t.live(),
        bind_run(t, root, addr).1 is Ok,
    ensures
        ({
            let (u, r) = bind_run(t, root, addr);
            let n = t.asked.len() as int;
            let unbind = of_device(root, addr, "driver/unbind"@);
            let over = of_device(root, addr, "driver_override"@);
            &&& is_pci_addr(addr)
            &&& t.leads_to(u)
            &&& read_driver(u, n, root, addr)
            &&& match linked_driver(u.replies[n]) {
                Some(driver) => r->Ok_0 == driver && if driver == "vfio-pci"@ {
                    u.asked.len() == n + 1
                } else {
                    &&& u.asked.len() == n + 4
                    &&& wrote(u, n + 1, root, unbind, addr)
                    &&& wrote(u, n + 2, root, over, "vfio-pci"@)
                    &&& wrote(u, n + 3, root, bind_file(root, "vfio-pci"@), addr)
                },
                None => {
                    &&& r->Ok_0.len() == 0
                    &&& u.asked.len() == n + 3
                    &&& wrote(u, n + 1, root, over, "vfio-pci"@)
                    &&& wrote(u, n + 2, root, bind_file(root, "vfio-pci"@), addr)
                },
            }
        }),
{
    lemma_live_root();
}

/// A device is moved back in three steps, after a look at the driver that it is on: it is
/// taken off that driver, where it is on one, its override is cleared, and its address is
/// given to the driver that it was on. Where that was none, the kernel is told to look
/// for one.
pub proof fn law_rebinding_steps(
    t: SysfsTranscript,
    root: Seq<char>,
    addr: Seq<char>,
    original: Seq<char>,
)
    requires
        t.live(),
        rebind_run(t, root, addr, original).1 is Ok,
    ensures
        ({
            let u = rebind_run(t, root, addr, original).0;
            let n = t.asked.len() as int;
            let was_bound = linked_driver(u.replies[n]) is Some;
            let m = if was_bound {
                n + 2
            } else {
                n + 1
            };
            let over = of_device(root, addr, "driver_override"@);
            &&& is_pci_addr(addr)
            &&& t.leads_to(u)
            &&& u.asked.len() == m + 2
            &&& read_driver(u, n, root, addr)
            &&& was_bound ==> wrote(u, n + 1, root, of_device(root, addr, "driver/unbind"@), addr)
            &&& wrote(u, m, root, over, Seq::empty())
            &&& if original.len() == 0 || original == "none"@ {
                u.asked[m + 1] == (SysfsRequestView::WriteFile {
                    path: joined_path(root, "sys/bus/pci/rescan"@),
                    data: "1"@,
                })
            } else {
                wrote(u, m + 1, root, bind_file(root, original), addr)
            }
        }),
{
    lemma_live_root();
}

/// A machine can be given a GPU exactly where probing is switched on, the probe found a
/// device that is ready, and the hypervisor is there. Nothing is looked at unless probing
/// is switched on.
pub proof fn law_availability(
    t: SysfsTranscript,
    gate: Option<Seq<char>>,
    runtime_dir: Option<Seq<char>>,
)
    requires
        t.live(),
        available_run(t, gate, runtime_dir).0.live(),
    ensures
        ({
            let (u, available) = available_run(t, gate, runtime_dir);
            let found = probe_run(t).1;
            let last = u.asked.len() - 1;
            &&& gate != Some("1"@) ==> u == t && !available
            &&& available ==> {
                &&& gate == Some("1"@)
                &&& exists|i: int|
                    0 <= i < found.len() && (#[trigger] found[i]).1
                        == HostNvidiaVfioReadiness::VfioBoundReady
                &&& runtime_dir is Some
                &&& u.asked[last] == (SysfsRequestView::IsFile {
                    path: joined_path(runtime_dir->0, "cloud-hypervisor"@),
                })
                &&& u.replies[last].ok
            }
            &&& gate == Some("1"@) && runtime_dir is Some && (exists|i: int|
                0 <= i < found.len() && (#[trigger] found[i]).1
                    == HostNvidiaVfioReadiness::VfioBoundReady) ==> {
                &&& u.asked[last] == (SysfsRequestView::IsFile {
                    path: joined_path(runtime_dir->0, "cloud-hypervisor"@),
                })
                &&& available == u.replies[last].ok
            }
        }),
{
    let (v, found) = probe_run(t);
    go_probe(t);
    if !v.live() {
        assert(available_run(t, gate, runtime_dir).0 == v || gate != Some("1"@));
    }
}

/// The requests of a bind that failed are taken back: what was on a driver is given back
/// to it, and an override that was set is cleared. Where the device could not be taken off
/// its driver, there is nothing to take back.
pub proof fn law_failed_binding_steps(t: SysfsTranscript, root: Seq<char>, addr: Seq<char>)
    requires
        t.live(),
        is_pci_addr(addr),
        bind_run(t, root, addr).1 is Err,
        bind_run(t, root, addr).0.live(),
    ensures
        ({
            let u = bind_run(t, root, addr).0;
            let n = t.asked.len() as int;
            let driver = linked_driver(u.replies[n]);
            let over = of_device(root, addr, "driver_override"@);
            let last = u.asked.len() - 1;
            &&& t.leads_to(u)
            &&& read_driver(u, n, root, addr)
            &&& match driver {
                Some(name) => {
                    &&& name != "vfio-pci"@
                    &&& {
                        ||| u.asked.len() == n + 2 && !u.replies[n + 1].ok
                        ||| u.asked.len() == n + 4 && !u.replies[n + 2].ok
                        ||| u.asked.len() == n + 6 && !u.replies[n + 3].ok && u.asked[n + 4]
                            == (SysfsRequestView::WriteFile { path: over, data: Seq::empty() })
                    }
                    &&& u.asked.len() > n + 2 ==> u.asked[last].is_write() && u.asked[last].target()
                        == (bind_file(root, name), addr)
                },
                None => {
                    ||| u.asked.len() == n + 2 && !u.replies[n + 1].ok
                    ||| u.asked.len() == n + 4 && !u.replies[n + 2].ok && u.asked[n + 3]
                        == (SysfsRequestView::WriteFile { path: over, data: Seq::empty() })
                },
            }
        }),
{
    let (t1, driver) = current_driver_run(t, root, addr);
    match driver {
        Some(name) => {
            let t2 = write_run(t1, root, unbind_path(root, addr), addr).0;
            lemma_failed_taking(t2, root, addr, driver);
        },
        None => {
            lemma_failed_taking(t1, root, addr, driver);
        },
    }
}

proof fn lemma_failed_taking(
    t: SysfsTranscript,
    root: Seq<char>,
    addr: Seq<char>,
    driver: Option<Seq<char>>,
)
    ensures
        ({
            let (u, r) = take_run(t, root, addr, driver);
            let n = t.asked.len() as int;
            let back = if driver is Some {
                1int
            } else {
                0int
            };
            r is Err && u.live() && t.live() ==> {
                &&& t.leads_to(u)
                &&& {
                    ||| u.asked.len() == n + 1 + back && !u.replies[n].ok
                    ||| u.asked.len() == n + 3 + back && !u.replies[n + 1].ok && u.asked[n + 2] == (
                    SysfsRequestView::WriteFile {
                        path: of_device(root, addr, "driver_override"@),
                        data: Seq::empty(),
                    })
                }
                &&& driver is Some ==> u.asked[u.asked.len() - 1].is_write() && u.asked[
                    u.asked.len() - 1].target() == (bind_file(root, driver->0), addr)
            }
        }),
{
}


/// Where the devices `peers` up to number `j` are bound one after another from `t`.
pub open spec fn after_binding(
    t: SysfsTranscript,
    root: Seq<char>,
    peers: Seq<Seq<char>>,
    j: nat,
) -> SysfsTranscript
    decreases j,
{
    if j == 0 {
        t
    } else {
        bind_run(
            after_binding(t, root, peers, (j - 1) as nat),
            root,
            peers[j - 1],
        ).0
    }
}

/// Any reply will do.
pub open spec fn any_reply() -> spec_fn(SysfsReplyView) -> bool {
    |a: SysfsReplyView| true
}

/// The device at `addr` begins to be moved back between `t` and `u`.
pub open spec fn moved_back(
    t: SysfsTranscript,
    u: SysfsTranscript,
    root: Seq<char>,
    addr: Seq<char>,
) -> bool {
    was_asked(
        t,
        u,
        SysfsRequestView::ReadLink { path: of_device(root, addr, "driver"@) },
        any_reply(),
    )
}

proof fn lemma_each_moved_back(
    t: SysfsTranscript,
    root: Seq<char>,
    list: Seq<(Seq<char>, Seq<char>)>,
    i: nat,
    first: Option<FaultView>,
    k: int,
)
    requires
        i <= k < list.len(),
        is_pci_addr(list[k].0),
        rebind_peers_run(t, root, list, i, first).0.live(),
    ensures
        moved_back(t, rebind_peers_run(t, root, list, i, first).0, root, list[k].0),
    decreases list.len() - i,
{
    broadcast use {group_in_step, lemma_asked_earlier, lemma_asked_stays};

    let (u, r) = rebind_run(t, root, list[i as int].0, list[i as int].1);
    let now = match (first, r) {
        (None, Err(e)) => Some(e),
        _ => first,
    };
    let end = rebind_peers_run(u, root, list, i + 1, now).0;
    go_rebind(t, root, list[i as int].0, list[i as int].1);
    go_rebind_peers(u, root, list, i + 1, now);
    assert(rebind_peers_run(t, root, list, i, first).0 == end);
    if k == i {
        let q = SysfsRequestView::ReadLink { path: of_device(root, list[k].0, "driver"@) };
        assert(t.live());
        assert(goes_on(t.ask(q), u));
        assert(t.ask(q).live());
        lemma_asked_now(t, q, any_reply());
    } else {
        lemma_each_moved_back(u, root, list, i + 1, now, k);
    }
}

proof fn lemma_rolled_back(
    t: SysfsTranscript,
    root: Seq<char>,
    peers: Seq<Seq<char>>,
    i: nat,
    done: Seq<(Seq<char>, Seq<char>)>,
    start: SysfsTranscript,
    failed: nat,
    d: Seq<char>,
)
    requires
        t == after_binding(start, root, peers, i),
        i <= failed < peers.len(),
        forall|j: nat|
            i <= j < failed ==> bind_run(
                #[trigger] after_binding(start, root, peers, j),
                root,
                peers[j as int],
            ).1 is Ok,
        bind_run(after_binding(start, root, peers, failed), root, peers[failed as int]).1 is Err,
        bind_each_run(t, root, peers, i, done).0.live(),
        is_pci_addr(d),
        (exists|k: int| 0 <= k < done.len() && (#[trigger] done[k]).0 == d) || (exists|j: nat|
            i <= j < failed && peers[j as int] == d && bind_run(
                #[trigger] after_binding(start, root, peers, j),
                root,
                peers[j as int],
            ).1->Ok_0 != "vfio-pci"@),
    ensures
        bind_each_run(t, root, peers, i, done).1 is Err,
        moved_back(
            after_binding(start, root, peers, (failed + 1) as nat),
            bind_each_run(t, root, peers, i, done).0,
            root,
            d,
        ),
    decreases peers.len() - i,
{
    let (u, r) = bind_run(t, root, peers[i as int]);
    assert(u == after_binding(start, root, peers, (i + 1) as nat));
    if i == failed {
        let k = choose|k: int| 0 <= k < done.len() && (#[trigger] done[k]).0 == d;
        lemma_each_moved_back(u, root, done, 0, None, k);
    } else {
        assert(bind_run(after_binding(start, root, peers, i), root, peers[i as int]).1 is Ok);
        let original = r->Ok_0;
        let more = if original == "vfio-pci"@ {
            done
        } else {
            done.push((peers[i as int], original))
        };
        if exists|k: int| 0 <= k < done.len() && (#[trigger] done[k]).0 == d {
            let k = choose|k: int| 0 <= k < done.len() && (#[trigger] done[k]).0 == d;
            assert(more[k].0 == d);
        } else {
            let j = choose|j: nat|
                i <= j < failed && peers[j as int] == d && bind_run(
                    #[trigger] after_binding(start, root, peers, j),
                    root,
                    peers[j as int],
                ).1->Ok_0 != "vfio-pci"@;
            if j == i {
                assert(more[done.len() as int].0 == d);
            } else {
                assert(bind_run(
                    after_binding(start, root, peers, j),
                    root,
                    peers[j as int],
                ).1->Ok_0 != "vfio-pci"@);
            }
        }
        lemma_rolled_back(u, root, peers, i + 1, more, start, failed, d);
    }
}

/// A group is bound whole or not at all: where one of its devices cannot be bound, every
/// device that was bound before it is moved back, however many those are, and the failure
/// is reported.
pub proof fn law_failed_group_is_moved_back(
    t: SysfsTranscript,
    root: Seq<char>,
    peers: Seq<Seq<char>>,
    failed: nat,
    j: nat,
)
    requires
        j < failed < peers.len(),
        forall|i: nat|
            i < failed ==> bind_run(
                #[trigger] after_binding(t, root, peers, i),
                root,
                peers[i as int],
            ).1 is Ok,
        bind_run(after_binding(t, root, peers, failed), root, peers[failed as int]).1 is Err,
        bind_run(after_binding(t, root, peers, j), root, peers[j as int]).1->Ok_0 != "vfio-pci"@,
        bind_each_run(t, root, peers, 0, Seq::empty()).0.live(),
    ensures
        bind_each_run(t, root, peers, 0, Seq::empty()).1 is Err,
        moved_back(
            after_binding(t, root, peers, (failed + 1) as nat),
            bind_each_run(t, root, peers, 0, Seq::empty()).0,
            root,
            peers[j as int],
        ),
{
    assert(bind_run(after_binding(t, root, peers, j), root, peers[j as int]).1 is Ok);
    assert(is_pci_addr(peers[j as int]));
    lemma_rolled_back(t, root, peers, 0, Seq::empty(), t, failed, peers[j as int]);
}

/// How many of the first `n` devices of a group were bound, and not found bound already.
pub open spec fn bound_among(
    t: SysfsTranscript,
    root: Seq<char>,
    peers: Seq<Seq<char>>,
    n: nat,
) -> nat
    decreases n,
{
    if n == 0 {
        0
    } else {
        let i = (n - 1) as nat;
        bound_among(t, root, peers, i) + if bind_run(
            after_binding(t, root, peers, i),
            root,
            peers[i as int],
        ).1->Ok_0 == "vfio-pci"@ {
            0nat
        } else {
            1nat
        }
    }
}

proof fn lemma_group_fails(
    t: SysfsTranscript,
    root: Seq<char>,
    peers: Seq<Seq<char>>,
    failed: nat,
    i: nat,
    done: Seq<(Seq<char>, Seq<char>)>,
)
    requires
        i <= failed < peers.len(),
        forall|k: nat|
            k < failed ==> bind_run(
                #[trigger] after_binding(t, root, peers, k),
                root,
                peers[k as int],
            ).1 is Ok,
        bind_run(after_binding(t, root, peers, failed), root, peers[failed as int]).1 is Err,
        done.len() == bound_among(t, root, peers, i),
    ensures
        ({
            let r = bind_each_run(after_binding(t, root, peers, i), root, peers, i, done).1;
            let e = bind_run(
                after_binding(t, root, peers, failed),
                root,
                peers[failed as int],
            ).1->Err_0;
            &&& r is Err
            &&& r->Err_0.kind == e.kind
            &&& r->Err_0.message == "Failed to bind IOMMU peer "@ + peers[failed as int] + ": "@
                + e.message + ". Rolled back "@ + decimal(bound_among(t, root, peers, failed))
                + " peer(s)."@
        }),
    decreases failed - i,
{
    if i < failed {
        let here = after_binding(t, root, peers, i);
        let original = bind_run(here, root, peers[i as int]).1->Ok_0;
        assert(after_binding(t, root, peers, i + 1) == bind_run(here, root, peers[i as int]).0);
        let next = if original == "vfio-pci"@ {
            done
        } else {
            done.push((peers[i as int], original))
        };
        lemma_group_fails(t, root, peers, failed, i + 1, next);
    }
}

/// The failure of a group names the device that could not be bound, says why, and counts
/// the devices that were moved back.
pub proof fn law_failed_group_says_why(
    t: SysfsTranscript,
    root: Seq<char>,
    peers: Seq<Seq<char>>,
    failed: nat,
)
    requires
        failed < peers.len(),
        forall|k: nat|
            k < failed ==> bind_run(
                #[trigger] after_binding(t, root, peers, k),
                root,
                peers[k as int],
            ).1 is Ok,
        bind_run(after_binding(t, root, peers, failed), root, peers[failed as int]).1 is Err,
    ensures
        ({
            let r = bind_each_run(t, root, peers, 0, Seq::empty()).1;
            let e = bind_run(
                after_binding(t, root, peers, failed),
                root,
                peers[failed as int],
            ).1->Err_0;
            &&& r is Err
            &&& r->Err_0.kind == e.kind
            &&& r->Err_0.message == "Failed to bind IOMMU peer "@ + peers[failed as int] + ": "@
                + e.message + ". Rolled back "@ + decimal(bound_among(t, root, peers, failed))
                + " peer(s)."@
        }),
{
    lemma_group_fails(t, root, peers, failed, 0, Seq::empty());
}

/// A device that cannot be moved back is reported with the step that failed: the last
/// request was the write of that step, and the failure has its kind and names its file.
pub proof fn law_failed_rebinding_says_why(
    t: SysfsTranscript,
    root: Seq<char>,
    addr: Seq<char>,
    original: Seq<char>,
)
    requires
        t.live(),
        is_pci_addr(addr),
        rebind_run(t, root, addr, original).1 is Err,
        rebind_run(t, root, addr, original).0.live(),
    ensures
        ({
            let (u, r) = rebind_run(t, root, addr, original);
            let last = u.asked.len() - 1;
            let a = u.replies[last];
            let path = u.asked[last].target().0;
            let hint = if a.kind == FaultKind::PermissionDenied {
                " — run as root"@
            } else {
                Seq::empty()
            };
            let m = r->Err_0.message;
            &&& u.asked[last].is_write() && !a.ok
            &&& r->Err_0.kind == a.kind
            &&& {
                ||| path == of_device(root, addr, "driver/unbind"@) && m
                    == "Failed to unbind device at "@ + path + hint
                ||| path == of_device(root, addr, "driver_override"@) && m
                    == "Failed to clear driver_override at "@ + path + hint
                ||| path == joined_path(
                    joined_path(joined_path(root, "sys/bus/pci/drivers"@), original),
                    "bind"@,
                ) && m == "Failed to rebind to "@ + original + " at "@ + path + hint
            }
        }),
{
}

/// A device that cannot be bound is reported with one of the three steps of a binding and
/// the file of that step, and, where the step was not permitted, with what helps.
pub proof fn law_failed_binding_says_why(t: SysfsTranscript, root: Seq<char>, addr: Seq<char>)
    requires
        t.live(),
        is_pci_addr(addr),
        bind_run(t, root, addr).1 is Err,
    ensures
        ({
            let e = bind_run(t, root, addr).1->Err_0;
            let hint = if e.kind == FaultKind::PermissionDenied {
                " — run as root"@
            } else {
                Seq::empty()
            };
            let vfio = joined_path(
                joined_path(joined_path(root, "sys/bus/pci/drivers"@), "vfio-pci"@),
                "bind"@,
            );
            ||| e.message == "Failed to unbind device at "@ + of_device(
                root,
                addr,
                "driver/unbind"@,
            ) + hint
            ||| e.message == "Failed to write driver_override at "@ + of_device(
                root,
                addr,
                "driver_override"@,
            ) + hint
            ||| e.message == "Failed to bind to vfio-pci at "@ + vfio + hint
                + " — is the vfio-pci module loaded?"@
        }),
{
}

} // verus!
