//! Which GPU a preparation uses where it may choose, in terms of the files of the host.

use vstd::prelude::*;

use crate::fault::FaultKind;
use crate::gpu::bind::BindView;
use crate::gpu::checks::{differs_from, is_pci_addr, linked_driver};
use crate::gpu::choice::{obstacle, obstacle_report};
use crate::gpu::meaning::{dirty_peers, is_gpu, is_ready, off_vfio, on_vfio, Host};
use crate::gpu::obstacle::{advice_lines, all_blocked, blocked_lines, Blocked};
use crate::gpu::prepare::prepare_run;
use crate::gpu::probe::attribute_value;
use crate::gpu::reads::only_reads;
use crate::gpu::safety::{
    claimed_from, gpus_of, is_headless, is_idle, is_nvidia_gpu, lemma_asked_is_judged,
    lemma_choice, lemma_class_prefix, lemma_found_gpu, lemma_joined_has,
    lemma_nothing_stands_in_the_way, lemma_part_of, looked_at, of_device, passthrough_is_possible,
};
use crate::order::{in_order, law_before_is_total, law_text_order_is_total, text_order};
use crate::paths::joined_path;
use crate::sysfs::{SysfsRequestView, SysfsTranscript};
use crate::text::{before, has_part, joined};

verus! {

/// On `host`, the GPU at `addr` is listed among the devices.
pub open spec fn is_listed(host: Host, root: Seq<char>, addr: Seq<char>) -> bool {
    let devices = host(
        SysfsRequestView::ListDir { path: joined_path(root, "sys/bus/pci/devices"@) },
    );
    devices.ok && devices.names.contains(addr)
}

/// On `host`, the device at `addr` is on the driver for machines.
pub open spec fn is_set_aside(host: Host, root: Seq<char>, addr: Seq<char>) -> bool {
    linked_driver(host(SysfsRequestView::ReadLink { path: of_device(root, addr, "driver"@) }))
        == Some("vfio-pci"@)
}

/// On `host`, the device `member` is another one of the IOMMU group of the GPU at `addr`.
pub open spec fn shares_group(
    host: Host,
    root: Seq<char>,
    addr: Seq<char>,
    member: Seq<char>,
) -> bool {
    let group = host(
        SysfsRequestView::ListDir { path: of_device(root, addr, "iommu_group/devices"@) },
    );
    group.ok && group.names.contains(member) && member != addr
}

/// On `host`, the GPU at `addr` can be used as it is: it and everything that shares its
/// IOMMU group is on the driver for machines.
pub open spec fn stands_ready(host: Host, root: Seq<char>, addr: Seq<char>) -> bool {
    let group = host(
        SysfsRequestView::ListDir { path: of_device(root, addr, "iommu_group/devices"@) },
    );
    &&& is_pci_addr(addr)
    &&& is_set_aside(host, root, addr)
    &&& group.ok || group.kind == FaultKind::NotFound
    &&& forall|member: Seq<char>| #[trigger]
        shares_group(host, root, addr, member) ==> is_set_aside(host, root, member)
}

proof fn lemma_stands_ready(host: Host, root: Seq<char>, addr: Seq<char>)
    ensures
        stands_ready(host, root, addr) == is_ready(host, root, addr),
{
    let group = host(
        SysfsRequestView::ListDir { path: of_device(root, addr, "iommu_group/devices"@) },
    );
    if stands_ready(host, root, addr) {
        if group.ok {
            assert forall|j: int|
                0 <= j < group.names.len() && group.names[j] != addr implies on_vfio(
                host,
                root,
                #[trigger] group.names[j],
            ) by {
                assert(shares_group(host, root, addr, group.names[j]));
            }
        }
    }
    if is_ready(host, root, addr) {
        assert forall|member: Seq<char>| #[trigger]
            shares_group(host, root, addr, member) implies is_set_aside(host, root, member) by {
            let j = choose|j: int| 0 <= j < group.names.len() && group.names[j] == member;
            assert(on_vfio(host, root, group.names[j]));
        }
    }
}

proof fn lemma_is_among(host: Host, root: Seq<char>, addr: Seq<char>) -> (k: int)
    requires
        is_listed(host, root, addr),
        is_nvidia_gpu(host, root, addr),
    ensures
        0 <= k < gpus_of(host, root).len(),
        gpus_of(host, root)[k] == addr,
{
    let names = host(
        SysfsRequestView::ListDir { path: joined_path(root, "sys/bus/pci/devices"@) },
    ).names;
    let pred = is_gpu(host, root);
    let class = attribute_value(
        host(SysfsRequestView::ReadText { path: of_device(root, addr, "class"@) }),
    );
    lemma_class_prefix(class->0);
    let j = choose|j: int| 0 <= j < names.len() && names[j] == addr;
    assert(pred(names[j]));
    names.lemma_filter_contains(pred, j);
    let gpus = names.filter(pred);
    law_text_order_is_total();
    gpus.lemma_sort_by_ensures(text_order());
    gpus.to_multiset_ensures();
    in_order(gpus).to_multiset_ensures();
    assert(gpus.to_multiset().count(addr) > 0);
    assert(in_order(gpus).contains(addr));
    choose|k: int| 0 <= k < in_order(gpus).len() && in_order(gpus)[k] == addr
}

proof fn lemma_in_address_order(host: Host, root: Seq<char>, j: int, k: int)
    requires
        0 <= j < k < gpus_of(host, root).len(),
    ensures
        !before(gpus_of(host, root)[k], gpus_of(host, root)[j]),
{
    let names = host(
        SysfsRequestView::ListDir { path: joined_path(root, "sys/bus/pci/devices"@) },
    ).names;
    let gpus = names.filter(is_gpu(host, root));
    law_text_order_is_total();
    gpus.lemma_sort_by_ensures(text_order());
    let leq = text_order();
    assert(leq(in_order(gpus)[j], in_order(gpus)[k]));
}

/// Nothing was bound, and nothing has to be given back.
pub open spec fn used_as_it_is(state: BindView) -> bool {
    !state.did_bind && state.peer_binds.len() == 0 && state.original_driver == "vfio-pci"@
}

/// Where some GPU of the host stands ready, one that does is used as it is, and nothing
/// is written. Of several it is the one with the first address.
pub proof fn law_ready_gpu_is_used(
    t: SysfsTranscript,
    host: Host,
    root: Seq<char>,
    addr: Seq<char>,
)
    requires
        t.asked.len() == 0,
        looked_at(prepare_run(t, root, None).0, host),
        is_listed(host, root, addr),
        is_nvidia_gpu(host, root, addr),
        stands_ready(host, root, addr),
    ensures
        ({
            let (u, r) = prepare_run(t, root, None);
            &&& r is Ok
            &&& used_as_it_is(r->Ok_0)
            &&& only_reads(t, u)
            &&& stands_ready(host, root, r->Ok_0.pci_addr)
            &&& !before(addr, r->Ok_0.pci_addr)
        }),
{
    let a = lemma_is_among(host, root, addr);
    let addrs = gpus_of(host, root);
    let k = lemma_choice(t, host, root);
    lemma_stands_ready(host, root, addr);
    assert(is_ready(host, root, addrs[a]));
    assert(0 <= k < addrs.len() && is_ready(host, root, addrs[k]));
    lemma_stands_ready(host, root, addrs[k]);
    assert(k <= a);
    if k < a {
        lemma_in_address_order(host, root, k, a);
    } else {
        law_before_is_total(addr, addr);
    }
}

/// A GPU that is asked for and stands ready is used as it is, and nothing is written.
pub proof fn law_asked_ready_gpu_is_used(
    t: SysfsTranscript,
    host: Host,
    root: Seq<char>,
    addr: Seq<char>,
)
    requires
        t.asked.len() == 0,
        looked_at(prepare_run(t, root, Some(addr)).0, host),
        host(
            SysfsRequestView::Exists {
                path: joined_path(joined_path(root, "sys/bus/pci/devices"@), addr),
            },
        ).ok,
        is_nvidia_gpu(host, root, addr),
        stands_ready(host, root, addr),
    ensures
        ({
            let (u, r) = prepare_run(t, root, Some(addr));
            &&& r is Ok
            &&& r->Ok_0.pci_addr == addr
            &&& used_as_it_is(r->Ok_0)
            &&& only_reads(t, u)
        }),
{
    lemma_asked_is_judged(t, host, root, addr);
    lemma_stands_ready(host, root, addr);
    let class = attribute_value(
        host(SysfsRequestView::ReadText { path: of_device(root, addr, "class"@) }),
    );
    lemma_class_prefix(class->0);
}

/// Where no GPU stands ready, but one is not on the driver for machines, no display
/// adapter belongs to it, nobody uses an NVIDIA device and passthrough is possible, then
/// a GPU is taken, after only reading: that one, or one with an earlier address.
pub proof fn law_idle_gpu_is_chosen(
    t: SysfsTranscript,
    host: Host,
    root: Seq<char>,
    addr: Seq<char>,
)
    requires
        t.asked.len() == 0,
        looked_at(prepare_run(t, root, None).0, host),
        forall|a: Seq<char>|
            is_listed(host, root, a) && is_nvidia_gpu(host, root, a) ==> !#[trigger] stands_ready(
                host,
                root,
                a,
            ),
        is_listed(host, root, addr),
        is_nvidia_gpu(host, root, addr),
        !is_set_aside(host, root, addr),
        is_headless(host, root, addr),
        is_idle(host),
        passthrough_is_possible(host, root, addr),
    ensures
        exists|taken: Seq<char>|
            !before(addr, taken) && is_listed(host, root, taken) && is_nvidia_gpu(host, root, taken)
                && #[trigger] claimed_from(t, root, taken, prepare_run(t, root, None)),
{
    let a = lemma_is_among(host, root, addr);
    let addrs = gpus_of(host, root);
    let k = lemma_choice(t, host, root);
    lemma_nothing_stands_in_the_way(host, root, addr);
    assert(obstacle(host, root, addrs[a]) is None);
    assert(0 <= k < addrs.len());
    let names = host(
        SysfsRequestView::ListDir { path: joined_path(root, "sys/bus/pci/devices"@) },
    ).names;
    assert(addrs.contains(addrs[k]));
    lemma_found_gpu(host, root, names, addrs[k]);
    lemma_stands_ready(host, root, addrs[k]);
    assert(!stands_ready(host, root, addrs[k]));
    assert(k <= a);
    if k < a {
        lemma_in_address_order(host, root, k, a);
    } else {
        law_before_is_total(addr, addr);
    }
    assert(claimed_from(t, root, addrs[k], prepare_run(t, root, None)));
}

proof fn lemma_line_of(blocked: Blocked, k: int) -> (r: (
    (Seq<char>, Seq<char>),
    (Seq<char>, Seq<char>),
))
    requires
        0 <= k < blocked.len(),
    ensures
        blocked_lines(blocked) == r.0.0 + ("    "@ + blocked[k].0 + ": "@ + blocked[k].1.text()
            + "\n"@) + r.0.1,
        advice_lines(blocked) == r.1.0 + ("\n    - "@ + blocked[k].0 + ": "@
            + blocked[k].1.advice()) + r.1.1,
    decreases blocked.len(),
{
    let fewer = blocked.drop_last();
    let none = Seq::<char>::empty();
    let line = "    "@ + blocked.last().0 + ": "@ + blocked.last().1.text() + "\n"@;
    let advice = "\n    - "@ + blocked.last().0 + ": "@ + blocked.last().1.advice();
    if k == blocked.len() - 1 {
        assert(blocked_lines(blocked) =~= blocked_lines(fewer) + line + none);
        assert(advice_lines(blocked) =~= advice_lines(fewer) + advice + none);
        ((blocked_lines(fewer), none), (advice_lines(fewer), none))
    } else {
        let (a, b) = lemma_line_of(fewer, k);
        let before = "    "@ + blocked[k].0 + ": "@ + blocked[k].1.text() + "\n"@;
        let hint = "\n    - "@ + blocked[k].0 + ": "@ + blocked[k].1.advice();
        assert(blocked_lines(blocked) =~= a.0 + before + (a.1 + line));
        assert(advice_lines(blocked) =~= b.0 + hint + (b.1 + advice));
        ((a.0, a.1 + line), (b.0, b.1 + advice))
    }
}

/// Where no GPU of the host can be used, nothing is written, and the failure has a line
/// for each of them and another with advice. A GPU that is on the driver for machines is
/// there because of what shares its group: every such device that is not is named.
pub proof fn law_unusable_gpus_are_reported(
    t: SysfsTranscript,
    host: Host,
    root: Seq<char>,
    addr: Seq<char>,
    member: Seq<char>,
)
    requires
        t.asked.len() == 0,
        looked_at(prepare_run(t, root, None).0, host),
        is_listed(host, root, addr),
        is_nvidia_gpu(host, root, addr),
        forall|a: Seq<char>|
            !#[trigger] claimed_from(t, root, a, prepare_run(t, root, None)),
        prepare_run(t, root, None).1 is Err,
    ensures
        ({
            let (u, r) = prepare_run(t, root, None);
            &&& only_reads(t, u)
            &&& r->Err_0.kind == FaultKind::Other
            &&& has_part(r->Err_0.message, "    "@ + addr + ": "@)
            &&& has_part(r->Err_0.message, "\n    - "@ + addr + ": "@)
            &&& is_pci_addr(addr) && is_set_aside(host, root, addr) && shares_group(
                host,
                root,
                addr,
                member,
            ) && !is_set_aside(host, root, member) ==> has_part(r->Err_0.message, member)
        }),
{
    let k = lemma_is_among(host, root, addr);
    let addrs = gpus_of(host, root);
    let c = lemma_choice(t, host, root);
    let blocked = obstacle_report(host, root, addrs);
    let message = all_blocked(blocked).message;
    assert(blocked[k] == (addr, obstacle(host, root, addr)->0));
    let (a, b) = lemma_line_of(blocked, k);
    let head = "GPU passthrough blocked by safety checks.\n\n  Detected devices:\n"@;
    let middle = "\n  No GPU is available for passthrough. To resolve:"@;
    let text = blocked[k].1.text();
    let advice = blocked[k].1.advice();
    let behind = a.1 + middle + advice_lines(blocked);
    let front = head + blocked_lines(blocked) + middle + b.0;
    assert(message =~= (head + a.0) + ("    "@ + addr + ": "@) + (text + "\n"@ + behind));
    lemma_part_of(head + a.0, "    "@ + addr + ": "@, text + "\n"@ + behind);
    assert(message =~= front + ("\n    - "@ + addr + ": "@) + (advice + b.1));
    lemma_part_of(front, "\n    - "@ + addr + ": "@, advice + b.1);
    if is_pci_addr(addr) && is_set_aside(host, root, addr) && shares_group(
        host,
        root,
        addr,
        member,
    ) && !is_set_aside(host, root, member) {
        let group = host(
            SysfsRequestView::ListDir { path: of_device(root, addr, "iommu_group/devices"@) },
        );
        let others = group.names.filter(differs_from(addr));
        let peers = dirty_peers(host, root, addr);
        let j = choose|j: int| 0 <= j < group.names.len() && group.names[j] == member;
        group.names.lemma_filter_contains(differs_from(addr), j);
        let i = choose|i: int| 0 <= i < others.len() && others[i] == member;
        others.lemma_filter_contains(off_vfio(host, root), i);
        let n = choose|n: int| 0 <= n < peers.len() && peers[n] == member;
        let (x, y) = lemma_joined_has(peers, ", "@, n);
        let lead = "IOMMU group not clean (non-VFIO peers: "@;
        assert(text == lead + joined(peers, ", "@) + ")"@);
        let before = head + a.0 + ("    "@ + addr + ": "@) + lead + x;
        let after = y + ")"@ + "\n"@ + behind;
        assert(message =~= before + member + after);
        lemma_part_of(before, member, after);
    }
}

} // verus!
