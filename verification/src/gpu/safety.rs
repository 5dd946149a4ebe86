//! What keeps a GPU from being taken, and what it takes to be taken, in terms of the
//! files of the host.

use vstd::prelude::*;

use crate::fault::{FaultKind, FaultView};
use crate::gpu::bind::BindView;
use crate::gpu::checks::{
    gpu_processes_run, is_card_name, is_pci_addr, linked_driver, some_nvidia_handle,
};
use crate::gpu::choice::{
    all_seen, asked_seen, law_asked_gpu_is_judged, law_blocked_gpus_are_all_named,
    law_choice_is_among_the_gpus, law_first_free_gpu_is_claimed, law_ready_gpu_comes_first,
    lemma_all_seen_reads, obstacle, obstacle_report, obstacles_seen, refusal, unclaimed,
};
use crate::gpu::meaning::{
    card_in_use, drives_display, gpu_user, gpu_users, gpu_users_among, has_iommu, has_modules,
    is_gpu, is_ready, law_gpus_are_found, may_bind, output_connected, told_by, Host,
};
use crate::gpu::obstacle::{all_blocked, process_text, Blocked, ObstacleView};
use crate::gpu::prepare::{
    claim_run, first_free_run, first_ready_run, found_processes, gpus_run, is_ready_run,
    prepare_run, ready_state, reason_run, select_run, specific_run, value_or_empty, Prepared,
};
use crate::gpu::probe::{attribute_run, attribute_value};
use crate::gpu::reads::{
    group_reads, lemma_gpus_read, lemma_is_ready_reads, lemma_read, lemma_reads_on,
    lemma_refusal_reads, only_reads,
};
use crate::gpu::replay::go_claim;
use crate::order::{in_order, law_text_order_is_total, text_order};
use crate::paths::joined_path;
use crate::sysfs::{answer, device_dir, devices_dir, SysfsRequestView, SysfsTranscript};
use crate::text::{
    decimal, has_part, is_digit, joined, law_decimal_has_no_leading_zero, law_decimal_reads_back,
    trimmed,
};

verus! {

/// The file `part` of the PCI device at `addr`.
pub open spec fn of_device(root: Seq<char>, addr: Seq<char>, part: Seq<char>) -> Seq<char> {
    joined_path(joined_path(joined_path(root, "sys/bus/pci/devices"@), addr), part)
}

/// The file `part` of the display adapter number `n`.
pub open spec fn of_card(root: Seq<char>, n: nat, part: Seq<char>) -> Seq<char> {
    joined_path(joined_path(joined_path(root, "sys/class/drm"@), "card"@ + decimal(n)), part)
}

/// On `host`, the display adapter number `n` is listed and belongs to the GPU at `addr`.
pub open spec fn card_of_gpu(host: Host, root: Seq<char>, addr: Seq<char>, n: nat) -> bool {
    let cards = host(SysfsRequestView::ListDir { path: joined_path(root, "sys/class/drm"@) });
    let link = host(SysfsRequestView::ReadLink { path: of_card(root, n, "device"@) });
    &&& cards.ok && cards.names.contains("card"@ + decimal(n))
    &&& link.ok && addr.is_suffix_of(link.text)
}

/// On `host`, the display adapter number `n` was used to boot.
pub open spec fn card_booted(host: Host, root: Seq<char>, n: nat) -> bool {
    let boot = host(
        SysfsRequestView::ReadText {
            path: joined_path(of_card(root, n, "device"@), "boot_vga"@),
        },
    );
    boot.ok && trimmed(boot.text) == "1"@
}

/// On `host`, a display is connected to the output `output` of the display adapter
/// number `n`.
pub open spec fn card_connected(host: Host, root: Seq<char>, n: nat, output: Seq<char>) -> bool {
    let card = joined_path(joined_path(root, "sys/class/drm"@), "card"@ + decimal(n));
    let subs = host(SysfsRequestView::ListDir { path: card });
    let name = "card"@ + decimal(n) + "-"@ + output;
    let status = host(
        SysfsRequestView::ReadText { path: joined_path(joined_path(card, name), "status"@) },
    );
    &&& subs.ok && subs.names.contains(name)
    &&& status.ok && trimmed(status.text) == "connected"@
}

/// On `host`, the display adapter number `n` belongs to the GPU at `addr`, and was used
/// to boot or has a display connected to its output `output`.
pub open spec fn card_shows(
    host: Host,
    root: Seq<char>,
    addr: Seq<char>,
    n: nat,
    output: Seq<char>,
) -> bool {
    &&& card_of_gpu(host, root, addr, n)
    &&& card_booted(host, root, n) || card_connected(host, root, n, output)
}

/// On `host`, the GPU at `addr` shows something: one of its display adapters, whatever
/// its number, was used to boot or has a display connected.
pub open spec fn shows_display(host: Host, root: Seq<char>, addr: Seq<char>) -> bool {
    exists|n: nat, output: Seq<char>| #[trigger] card_shows(host, root, addr, n, output)
}

/// On `host`, the process `pid` has an NVIDIA device open: a file whose name begins with
/// `/dev/nvidia`, whatever follows.
pub open spec fn has_nvidia_open(host: Host, pid: u32, rest: Seq<char>) -> bool {
    let all = host(SysfsRequestView::ListDir { path: "/proc"@ });
    let files = host(
        SysfsRequestView::ListLinks { path: "/proc/"@ + decimal(pid as nat) + "/fd"@ },
    );
    &&& all.ok && all.names.contains(decimal(pid as nat))
    &&& files.ok && files.names.contains("/dev/nvidia"@ + rest)
}

/// On `host`, some process has an NVIDIA device open.
pub open spec fn nvidia_in_use(host: Host) -> bool {
    exists|pid: u32, rest: Seq<char>| #[trigger] has_nvidia_open(host, pid, rest)
}

/// On `host`, the device at `addr` is an NVIDIA GPU: by its vendor, and by a class that
/// begins with `0x03`.
pub open spec fn is_nvidia_gpu(host: Host, root: Seq<char>, addr: Seq<char>) -> bool {
    let vendor = attribute_value(
        host(SysfsRequestView::ReadText { path: of_device(root, addr, "vendor"@) }),
    );
    let class = attribute_value(
        host(SysfsRequestView::ReadText { path: of_device(root, addr, "class"@) }),
    );
    &&& vendor == Some("0x10de"@)
    &&& class is Some && class->0.len() >= 4
    &&& class->0[0] == '0' && class->0[1] == 'x' && class->0[2] == '0' && class->0[3] == '3'
}

/// On `host`, what takes a GPU to a machine is there and may be used: IOMMU groups with
/// one for the device, both kernel modules, and every file that is written on the way.
pub open spec fn passthrough_is_possible(host: Host, root: Seq<char>, addr: Seq<char>) -> bool {
    let unbind = of_device(root, addr, "driver/unbind"@);
    let vfio = joined_path(root, "dev/vfio"@);
    &&& host(SysfsRequestView::IsDir { path: joined_path(root, "sys/kernel/iommu_groups"@) }).ok
    &&& host(SysfsRequestView::Exists { path: of_device(root, addr, "iommu_group"@) }).ok
    &&& host(
        SysfsRequestView::IsDir { path: joined_path(joined_path(root, "sys/module"@), "vfio_pci"@) },
    ).ok
    &&& host(
        SysfsRequestView::IsDir {
            path: joined_path(joined_path(root, "sys/module"@), "vfio_iommu_type1"@),
        },
    ).ok
    &&& host(SysfsRequestView::IsWritable { path: of_device(root, addr, "driver_override"@) }).ok
    &&& host(
        SysfsRequestView::IsWritable {
            path: joined_path(
                joined_path(joined_path(root, "sys/bus/pci/drivers"@), "vfio-pci"@),
                "bind"@,
            ),
        },
    ).ok
    &&& host(SysfsRequestView::Exists { path: unbind }).ok ==> host(
        SysfsRequestView::IsWritable { path: unbind },
    ).ok
    &&& host(SysfsRequestView::Exists { path: vfio }).ok ==> host(
        SysfsRequestView::IsWritable { path: vfio },
    ).ok
}

proof fn lemma_card_name(n: nat)
    ensures
        is_card_name("card"@ + decimal(n)),
{
    reveal_strlit("card");
    law_decimal_has_no_leading_zero(n);
    let name = "card"@ + decimal(n);
    assert("card"@ =~= name.take(4));
    if name.contains('-') {
        let i = choose|i: int| 0 <= i < name.len() && name[i] == '-';
        if i < 4 {
            assert(name[i] == "card"@[i]);
        } else {
            assert(name[i] == decimal(n)[i - 4]);
            assert(is_digit(decimal(n)[i - 4]));
        }
    }
}

proof fn lemma_display_drives(host: Host, root: Seq<char>, addr: Seq<char>)
    requires
        shows_display(host, root, addr),
    ensures
        drives_display(host, root, addr),
{
    let (n, output) = choose|n: nat, output: Seq<char>| #[trigger]
        card_shows(host, root, addr, n, output);
    let drm = joined_path(root, "sys/class/drm"@);
    let cards = host(SysfsRequestView::ListDir { path: drm });
    let name = "card"@ + decimal(n);
    lemma_card_name(n);
    let j = choose|j: int| 0 <= j < cards.names.len() && cards.names[j] == name;
    if !card_booted(host, root, n) {
        let card = joined_path(drm, name);
        let subs = host(SysfsRequestView::ListDir { path: card });
        let sub = name + "-"@ + output;
        let k = choose|k: int| 0 <= k < subs.names.len() && subs.names[k] == sub;
        assert((name + "-"@) =~= sub.take((name + "-"@).len() as int));
        assert(output_connected(host, card, name + "-"@, subs.names[k]));
    }
    assert(card_in_use(host, drm, cards.names[j], addr));
}

proof fn lemma_listed_user(host: Host, names: Seq<Seq<char>>, j: int)
    requires
        0 <= j < names.len(),
        gpu_user(host, names[j]) is Some,
    ensures
        gpu_users_among(host, names).contains(gpu_user(host, names[j])->0),
    decreases names.len(),
{
    let fewer = names.drop_last();
    let before = gpu_users_among(host, fewer);
    let all = gpu_users_among(host, names);
    if j < fewer.len() {
        lemma_listed_user(host, fewer, j);
        let k = choose|k: int| 0 <= k < before.len() && before[k] == gpu_user(host, names[j])->0;
        assert(all[k] == before[k]);
    } else {
        assert(all[all.len() - 1] == gpu_user(host, names[j])->0);
    }
}

/// The command of the process `pid`, as the host gives it.
pub open spec fn command_of(host: Host, pid: u32) -> Seq<char> {
    let command = host(
        SysfsRequestView::ReadText { path: "/proc/"@ + decimal(pid as nat) + "/comm"@ },
    );
    if command.ok {
        trimmed(command.text)
    } else {
        Seq::empty()
    }
}

proof fn lemma_user_is_listed(host: Host, pid: u32, rest: Seq<char>)
    requires
        has_nvidia_open(host, pid, rest),
    ensures
        gpu_users(host).contains((pid, command_of(host, pid))),
{
    reveal_strlit("/proc");
    reveal_strlit("/proc/");
    reveal_strlit("fd");
    reveal_strlit("/fd");
    let name = decimal(pid as nat);
    let all = host(SysfsRequestView::ListDir { path: "/proc"@ });
    law_decimal_reads_back(pid as nat, u32::MAX as nat);
    law_decimal_has_no_leading_zero(pid as nat);
    assert(is_digit(name[0]));
    assert(is_digit(name[name.len() - 1]));
    assert(joined_path("/proc"@, name) =~= "/proc/"@ + name);
    assert(joined_path("/proc/"@ + name, "fd"@) =~= "/proc/"@ + name + "/fd"@);
    let files = host(SysfsRequestView::ListLinks { path: "/proc/"@ + name + "/fd"@ });
    let target = "/dev/nvidia"@ + rest;
    let k = choose|k: int| 0 <= k < files.names.len() && files.names[k] == target;
    assert("/dev/nvidia"@ =~= target.take("/dev/nvidia"@.len() as int));
    assert("/dev/nvidia"@.is_prefix_of(files.names[k]));
    assert(some_nvidia_handle(files.names));
    let j = choose|j: int| 0 <= j < all.names.len() && all.names[j] == name;
    lemma_listed_user(host, all.names, j);
}

/// A GPU that nothing stands in the way of shows nothing, nobody uses an NVIDIA device,
/// and passthrough is possible.
proof fn lemma_nothing_in_the_way(host: Host, root: Seq<char>, addr: Seq<char>)
    requires
        refusal(host, root, addr) is None,
    ensures
        !shows_display(host, root, addr),
        !nvidia_in_use(host),
        passthrough_is_possible(host, root, addr),
{
    if shows_display(host, root, addr) {
        lemma_display_drives(host, root, addr);
    }
    if nvidia_in_use(host) {
        let (pid, rest) = choose|pid: u32, rest: Seq<char>| #[trigger]
            has_nvidia_open(host, pid, rest);
        lemma_user_is_listed(host, pid, rest);
        assert(gpu_users(host).len() > 0);
    }
    assert(has_iommu(host, root, addr));
    assert(has_modules(host, root));
    assert(may_bind(host, root, addr));
}

/// Up to request number `i` nothing was written.
pub open spec fn unwritten(u: SysfsTranscript, i: int) -> bool {
    forall|j: int| 0 <= j <= i ==> !(#[trigger] u.asked[j]).is_write()
}

/// Everything that the exchange has read before it first wrote is as `host` tells it.
pub open spec fn looked_at(u: SysfsTranscript, host: Host) -> bool {
    &&& u.live()
    &&& forall|i: int|
        0 <= i < u.asked.len() && #[trigger] unwritten(u, i) ==> u.replies[i] == host(u.asked[i])
}

proof fn lemma_looked(t: SysfsTranscript, m: SysfsTranscript, u: SysfsTranscript, host: Host)
    requires
        t.asked.len() == 0,
        only_reads(t, m),
        m.leads_to(u),
        looked_at(u, host),
    ensures
        told_by(m, host),
{
    assert forall|i: int| 0 <= i < m.asked.len() implies #[trigger] m.replies[i] == host(
        m.asked[i],
    ) by {
        assert forall|j: int| 0 <= j <= i implies !(#[trigger] u.asked[j]).is_write() by {
            assert(u.asked[j] == m.asked[j]);
        }
        assert(unwritten(u, i));
        assert(u.asked[i] == m.asked[i]);
    }
}

proof fn lemma_asked_seen_leads(t: SysfsTranscript, root: Seq<char>, addr: Seq<char>)
    ensures
        asked_seen(t, root, addr).leads_to(specific_run(t, root, addr).0),
{
    let m = asked_seen(t, root, addr);
    go_claim(m, root, addr);
}

proof fn lemma_asked_seen_reads(t: SysfsTranscript, root: Seq<char>, addr: Seq<char>)
    ensures
        only_reads(t, asked_seen(t, root, addr)),
{
    broadcast use group_reads;

    let dev = device_dir(root, addr);
    let t1 = t.ask(SysfsRequestView::Exists { path: dev });
    let t2 = attribute_run(t1, dev, "vendor"@).0;
    let t3 = attribute_run(t2, dev, "class"@).0;
    assert(only_reads(t1, t2));
    assert(only_reads(t2, t3));
    lemma_is_ready_reads(t3, root, addr);
    let t4 = is_ready_run(t3, root, addr).0;
    lemma_refusal_reads(t4, root, addr);
    assert(only_reads(t, t));
    assert(only_reads(t, t3));
    assert(only_reads(t, t4));
}

pub proof fn lemma_asked_is_judged(t: SysfsTranscript, host: Host, root: Seq<char>, addr: Seq<char>)
    requires
        t.asked.len() == 0,
        looked_at(specific_run(t, root, addr).0, host),
    ensures
        only_reads(t, asked_seen(t, root, addr)),
        specific_run(t, root, addr) == match unclaimed(host, root, addr) {
            Some(r) => (asked_seen(t, root, addr), r),
            None => claim_run(asked_seen(t, root, addr), root, addr),
        },
{
    lemma_asked_seen_leads(t, root, addr);
    lemma_asked_seen_reads(t, root, addr);
    lemma_looked(t, asked_seen(t, root, addr), specific_run(t, root, addr).0, host);
    law_asked_gpu_is_judged(t, host, root, addr);
}

pub proof fn lemma_class_prefix(class: Seq<char>)
    ensures
        "0x03"@.is_prefix_of(class) <==> class.len() >= 4 && class[0] == '0' && class[1] == 'x'
            && class[2] == '0' && class[3] == '3',
{
    reveal_strlit("0x03");
    if class.len() >= 4 && class[0] == '0' && class[1] == 'x' && class[2] == '0' && class[3] == '3' {
        assert("0x03"@ =~= class.take(4));
    }
    if "0x03"@.is_prefix_of(class) {
        assert(class[0] == "0x03"@[0] && class[1] == "0x03"@[1] && class[2] == "0x03"@[2]
            && class[3] == "0x03"@[3]);
    }
}

/// A GPU that is asked for and shows something is never taken: nothing is written. Where
/// it is an NVIDIA GPU of the host that is not on the passthrough driver, the failure
/// says that the host would lose its display.
pub proof fn law_display_gpu_is_not_taken(
    t: SysfsTranscript,
    host: Host,
    root: Seq<char>,
    addr: Seq<char>,
)
    requires
        t.asked.len() == 0,
        looked_at(prepare_run(t, root, Some(addr)).0, host),
        shows_display(host, root, addr),
    ensures
        only_reads(t, prepare_run(t, root, Some(addr)).0),
        ({
            let link = host(SysfsRequestView::ReadLink { path: of_device(root, addr, "driver"@) });
            let dev = joined_path(joined_path(root, "sys/bus/pci/devices"@), addr);
            is_pci_addr(addr) && host(SysfsRequestView::Exists { path: dev }).ok && is_nvidia_gpu(
                host,
                root,
                addr,
            ) && linked_driver(link) != Some("vfio-pci"@) ==> prepare_run(t, root, Some(addr)).1
                == Err::<BindView, FaultView>(
                FaultView {
                    kind: FaultKind::Other,
                    message: "GPU "@ + addr
                        + " has active display outputs — cannot passthrough without losing host display"@,
                },
            )
        }),
{
    lemma_asked_is_judged(t, host, root, addr);
    lemma_display_drives(host, root, addr);
    let class = attribute_value(
        host(SysfsRequestView::ReadText { path: of_device(root, addr, "class"@) }),
    );
    if class is Some {
        lemma_class_prefix(class->0);
    }
}

/// A GPU that is asked for is not taken while any process has an NVIDIA device open:
/// nothing is written. Where nothing worse is found, the failure names the process and
/// its command.
pub proof fn law_busy_gpu_is_not_taken(
    t: SysfsTranscript,
    host: Host,
    root: Seq<char>,
    addr: Seq<char>,
    pid: u32,
    rest: Seq<char>,
)
    requires
        t.asked.len() == 0,
        looked_at(prepare_run(t, root, Some(addr)).0, host),
        has_nvidia_open(host, pid, rest),
    ensures
        only_reads(t, prepare_run(t, root, Some(addr)).0),
        ({
            let link = host(SysfsRequestView::ReadLink { path: of_device(root, addr, "driver"@) });
            let dev = joined_path(joined_path(root, "sys/bus/pci/devices"@), addr);
            let r = prepare_run(t, root, Some(addr)).1;
            is_pci_addr(addr) && host(SysfsRequestView::Exists { path: dev }).ok && is_nvidia_gpu(
                host,
                root,
                addr,
            ) && linked_driver(link) != Some("vfio-pci"@) && !drives_display(host, root, addr) ==> {
                &&& r is Err
                &&& has_part(
                    r->Err_0.message,
                    decimal(pid as nat) + " ("@ + command_of(host, pid) + ")"@,
                )
            }
        }),
{
    lemma_asked_is_judged(t, host, root, addr);
    lemma_user_is_listed(host, pid, rest);
    let users = gpu_users(host);
    assert(users.len() > 0);
    let class = attribute_value(
        host(SysfsRequestView::ReadText { path: of_device(root, addr, "class"@) }),
    );
    if class is Some {
        lemma_class_prefix(class->0);
    }
    let k = choose|k: int| 0 <= k < users.len() && users[k] == (pid, command_of(host, pid));
    lemma_users_are_named(users, addr, k);
}

pub proof fn lemma_part_of(front: Seq<char>, part: Seq<char>, back: Seq<char>)
    ensures
        has_part(front + part + back, part),
{
    let s = front + part + back;
    let i = front.len() as int;
    assert(s.subrange(i, i + part.len()) =~= part);
}

pub proof fn lemma_joined_has(parts: Seq<Seq<char>>, sep: Seq<char>, k: int) -> (around: (
    Seq<char>,
    Seq<char>,
))
    requires
        0 <= k < parts.len(),
    ensures
        joined(parts, sep) == around.0 + parts[k] + around.1,
    decreases parts.len(),
{
    if parts.len() == 1 {
        let around = (Seq::<char>::empty(), Seq::<char>::empty());
        assert(around.0 + parts[k] + around.1 =~= parts[k]);
        around
    } else if k == parts.len() - 1 {
        let around = (joined(parts.drop_last(), sep) + sep, Seq::<char>::empty());
        assert(around.0 + parts[k] + around.1 =~= joined(parts, sep));
        around
    } else {
        let fewer = parts.drop_last();
        let (a, b) = lemma_joined_has(fewer, sep, k);
        let around = (a, b + sep + parts.last());
        assert(around.0 + parts[k] + around.1 =~= joined(parts, sep));
        around
    }
}

proof fn lemma_users_are_named(users: Seq<(u32, Seq<char>)>, addr: Seq<char>, k: int)
    requires
        0 <= k < users.len(),
    ensures
        has_part(
            (ObstacleView::InUse { users }).refusal(addr).message,
            decimal(users[k].0 as nat) + " ("@ + users[k].1 + ")"@,
        ),
        has_part(
            (ObstacleView::InUse { users }).text(),
            decimal(users[k].0 as nat) + " ("@ + users[k].1 + ")"@,
        ),
{
    let words = |p: (u32, Seq<char>)| process_text(p);
    let parts = users.map_values(words);
    let part = decimal(users[k].0 as nat) + " ("@ + users[k].1 + ")"@;
    assert(parts[k] == part);
    let (a, b) = lemma_joined_has(parts, ", "@, k);
    let text = (ObstacleView::InUse { users }).text();
    let message = (ObstacleView::InUse { users }).refusal(addr).message;
    let front = "in use by PIDs: "@ + a;
    lemma_part_of(front, part, b);
    assert(text =~= front + part + b);
    let before = "GPU "@ + addr + " is "@ + front;
    let behind = b + " — stop these processes first"@;
    lemma_part_of(before, part, behind);
    assert(message =~= before + part + behind);
}

/// On `host`, no display adapter belongs to the GPU at `addr`.
pub open spec fn is_headless(host: Host, root: Seq<char>, addr: Seq<char>) -> bool {
    let drm = joined_path(root, "sys/class/drm"@);
    let cards = host(SysfsRequestView::ListDir { path: drm });
    cards.ok ==> forall|j: int|
        0 <= j < cards.names.len() ==> {
            let link = host(
                SysfsRequestView::ReadLink {
                    path: joined_path(joined_path(drm, #[trigger] cards.names[j]), "device"@),
                },
            );
            !link.ok || !addr.is_suffix_of(link.text)
        }
}

/// On `host`, no process has a file open whose name begins with `/dev/nvidia`.
pub open spec fn is_idle(host: Host) -> bool {
    let all = host(SysfsRequestView::ListDir { path: "/proc"@ });
    all.ok ==> forall|j: int|
        0 <= j < all.names.len() ==> {
            let files = host(
                SysfsRequestView::ListLinks {
                    path: joined_path(joined_path("/proc"@, #[trigger] all.names[j]), "fd"@),
                },
            );
            !files.ok || forall|k: int|
                0 <= k < files.names.len() ==> !"/dev/nvidia"@.is_prefix_of(
                    #[trigger] files.names[k],
                )
        }
}

proof fn lemma_idle_has_no_users(host: Host, names: Seq<Seq<char>>)
    requires
        forall|j: int|
            0 <= j < names.len() ==> gpu_user(host, #[trigger] names[j]) is None,
    ensures
        gpu_users_among(host, names).len() == 0,
    decreases names.len(),
{
    if names.len() > 0 {
        let fewer = names.drop_last();
        assert forall|j: int| 0 <= j < fewer.len() implies gpu_user(
            host,
            #[trigger] fewer[j],
        ) is None by {
            assert(fewer[j] == names[j]);
        }
        lemma_idle_has_no_users(host, fewer);
        assert(gpu_user(host, names[names.len() - 1]) is None);
    }
}

pub proof fn lemma_nothing_stands_in_the_way(host: Host, root: Seq<char>, addr: Seq<char>)
    requires
        is_headless(host, root, addr),
        is_idle(host),
        passthrough_is_possible(host, root, addr),
    ensures
        refusal(host, root, addr) is None,
{
    let drm = joined_path(root, "sys/class/drm"@);
    let cards = host(SysfsRequestView::ListDir { path: drm });
    if drives_display(host, root, addr) {
        let j = choose|j: int|
            0 <= j < cards.names.len() && card_in_use(host, drm, #[trigger] cards.names[j], addr);
        assert(card_in_use(host, drm, cards.names[j], addr));
    }
    let all = host(SysfsRequestView::ListDir { path: "/proc"@ });
    if all.ok {
        assert forall|j: int| 0 <= j < all.names.len() implies gpu_user(
            host,
            #[trigger] all.names[j],
        ) is None by {
            let files = host(
                SysfsRequestView::ListLinks {
                    path: joined_path(joined_path("/proc"@, all.names[j]), "fd"@),
                },
            );
            if files.ok && some_nvidia_handle(files.names) {
                let k = choose|k: int|
                    0 <= k < files.names.len() && "/dev/nvidia"@.is_prefix_of(
                        #[trigger] files.names[k],
                    );
                assert(!"/dev/nvidia"@.is_prefix_of(files.names[k]));
            }
        }
        lemma_idle_has_no_users(host, all.names);
    }
    assert(has_iommu(host, root, addr));
    assert(has_modules(host, root));
    assert(may_bind(host, root, addr));
}

/// A GPU that is asked for, that no display adapter belongs to, on a host where nobody
/// uses an NVIDIA device and passthrough is possible, is taken: after only reading, it is
/// bound together with its group, unless it is on the passthrough driver already.
pub proof fn law_safe_gpu_is_taken(t: SysfsTranscript, host: Host, root: Seq<char>, addr: Seq<char>)
    requires
        t.asked.len() == 0,
        looked_at(prepare_run(t, root, Some(addr)).0, host),
        is_pci_addr(addr),
        host(
            SysfsRequestView::Exists {
                path: joined_path(joined_path(root, "sys/bus/pci/devices"@), addr),
            },
        ).ok,
        is_nvidia_gpu(host, root, addr),
        linked_driver(
            host(SysfsRequestView::ReadLink { path: of_device(root, addr, "driver"@) }),
        ) != Some("vfio-pci"@),
        is_headless(host, root, addr),
        is_idle(host),
        passthrough_is_possible(host, root, addr),
    ensures
        exists|m: SysfsTranscript|
            only_reads(t, m) && prepare_run(t, root, Some(addr)) == #[trigger] claim_run(
                m,
                root,
                addr,
            ),
{
    lemma_asked_is_judged(t, host, root, addr);
    lemma_nothing_stands_in_the_way(host, root, addr);
    let class = attribute_value(
        host(SysfsRequestView::ReadText { path: of_device(root, addr, "class"@) }),
    );
    lemma_class_prefix(class->0);
    assert(unclaimed(host, root, addr) is None);
    assert(prepare_run(t, root, Some(addr)) == claim_run(asked_seen(t, root, addr), root, addr));
}

proof fn lemma_free_leads(
    t: SysfsTranscript,
    root: Seq<char>,
    addrs: Seq<Seq<char>>,
    i: nat,
    users: Seq<(u32, Seq<char>)>,
    blocked: Blocked,
)
    ensures
        obstacles_seen(t, root, addrs, i, users).leads_to(
            first_free_run(t, root, addrs, i, users, blocked).0,
        ),
    decreases addrs.len() - i,
{
    if i < addrs.len() {
        let (u, reason) = reason_run(t, root, addrs[i as int], users);
        match reason {
            Some(reason) => {
                let more = blocked.push((addrs[i as int], reason));
                lemma_free_leads(u, root, addrs, i + 1, users, more);
            },
            None => {
                go_claim(u, root, addrs[i as int]);
            },
        }
    }
}

proof fn lemma_all_seen_leads(t: SysfsTranscript, root: Seq<char>, addrs: Seq<Seq<char>>)
    ensures
        all_seen(t, root, addrs).leads_to(select_run(t, root, addrs).0),
{
    let (u, found) = first_ready_run(t, root, addrs, 0);
    let (v, users) = gpu_processes_run(u);
    lemma_free_leads(v, root, addrs, 0, found_processes(users), Seq::empty());
}

/// The GPUs of `host`, in the order of their addresses.
pub open spec fn gpus_of(host: Host, root: Seq<char>) -> Seq<Seq<char>> {
    in_order(
        host(
            SysfsRequestView::ListDir { path: joined_path(root, "sys/bus/pci/devices"@) },
        ).names.filter(is_gpu(host, root)),
    )
}

/// The GPU at `addr` was claimed in going from `t` to `end`, after only reading.
pub open spec fn claimed_from(
    t: SysfsTranscript,
    root: Seq<char>,
    addr: Seq<char>,
    end: (SysfsTranscript, Prepared),
) -> bool {
    exists|m: SysfsTranscript| only_reads(t, m) && end == #[trigger] claim_run(m, root, addr)
}

/// What a preparation that may choose comes to, by what the host shows.
pub proof fn lemma_choice(t: SysfsTranscript, host: Host, root: Seq<char>) -> (k: int)
    requires
        t.asked.len() == 0,
        looked_at(prepare_run(t, root, None).0, host),
        host(
            SysfsRequestView::ListDir { path: joined_path(root, "sys/bus/pci/devices"@) },
        ).ok,
        gpus_of(host, root).len() > 0,
    ensures
        ({
            let end = prepare_run(t, root, None);
            let addrs = gpus_of(host, root);
            if 0 <= k < addrs.len() && is_ready(host, root, addrs[k]) {
                &&& end.1 == Ok::<BindView, FaultView>(ready_state(addrs[k]))
                &&& only_reads(t, end.0)
                &&& forall|j: int| 0 <= j < k ==> !is_ready(host, root, #[trigger] addrs[j])
            } else if 0 <= k < addrs.len() {
                &&& obstacle(host, root, addrs[k]) is None
                &&& claimed_from(t, root, addrs[k], end)
                &&& forall|j: int|
                    0 <= j < addrs.len() ==> !is_ready(host, root, #[trigger] addrs[j])
                &&& forall|j: int|
                    0 <= j < k ==> obstacle(host, root, #[trigger] addrs[j]) is Some
            } else {
                &&& end.1 == Err::<BindView, FaultView>(
                    all_blocked(obstacle_report(host, root, addrs)),
                )
                &&& only_reads(t, end.0)
                &&& forall|j: int|
                    0 <= j < addrs.len() ==> !is_ready(host, root, #[trigger] addrs[j])
                &&& forall|j: int|
                    0 <= j < addrs.len() ==> obstacle(host, root, #[trigger] addrs[j]) is Some
            }
        }),
{
    broadcast use lemma_reads_on;

    let (u, r) = prepare_run(t, root, None);
    let listing = SysfsRequestView::ListDir { path: devices_dir(root) };
    let t1 = t.ask(listing);
    lemma_read(t, listing);
    lemma_first_answer(t, host, root);
    let names = answer(t1).names;
    let (t2, gpus) = gpus_run(t1, root, names, 0, Seq::empty());
    let addrs = in_order(gpus);
    lemma_gpus_read(t1, root, names, 0, Seq::empty());
    assert(only_reads(t, t2));
    lemma_all_seen_reads(t2, root, addrs);
    lemma_all_seen_leads(t2, root, addrs);
    let m = all_seen(t2, root, addrs);
    assert(only_reads(t, m));
    assert(t2.leads_to(u)) by {
        if gpus.len() > 0 {
            assert(u == select_run(t2, root, addrs).0);
        }
    }
    lemma_looked(t, t2, u, host);
    law_choice_is_among_the_gpus(t, host, root);
    law_gpus_are_found(t1, host, root, names);
    assert(addrs == gpus_of(host, root));
    lemma_order_keeps_length(gpus);
    assert(u == select_run(t2, root, addrs).0);
    lemma_looked(t, m, u, host);
    let ready = |j: int| 0 <= j < addrs.len() && is_ready(host, root, addrs[j]);
    let free = |j: int| 0 <= j < addrs.len() && obstacle(host, root, addrs[j]) is None;
    if exists|j: int| #[trigger] ready(j) {
        let k = lemma_first(ready, choose|j: int| #[trigger] ready(j));
        assert forall|j: int| 0 <= j < k implies !is_ready(host, root, #[trigger] addrs[j]) by {
            assert(!ready(j));
        }
        law_ready_gpu_comes_first(t2, host, root, addrs, k);
        k
    } else {
        assert forall|j: int| 0 <= j < addrs.len() implies !is_ready(
            host,
            root,
            #[trigger] addrs[j],
        ) by {
            assert(!ready(j));
        }
        if exists|j: int| #[trigger] free(j) {
            let k = lemma_first(free, choose|j: int| #[trigger] free(j));
            assert forall|j: int| 0 <= j < k implies obstacle(
                host,
                root,
                #[trigger] addrs[j],
            ) is Some by {
                assert(!free(j));
            }
            law_first_free_gpu_is_claimed(t2, host, root, addrs, k);
            assert((u, r) == claim_run(m, root, addrs[k]));
            k
        } else {
            assert forall|j: int| 0 <= j < addrs.len() implies obstacle(
                host,
                root,
                #[trigger] addrs[j],
            ) is Some by {
                assert(!free(j));
            }
            law_blocked_gpus_are_all_named(t2, host, root, addrs);
            -1
        }
    }
}

/// The first thing that a preparation which may choose learns is the list of devices.
proof fn lemma_first_answer(t: SysfsTranscript, host: Host, root: Seq<char>)
    requires
        t.asked.len() == 0,
        looked_at(prepare_run(t, root, None).0, host),
    ensures
        ({
            let listing = SysfsRequestView::ListDir { path: devices_dir(root) };
            answer(t.ask(listing)) == host(listing)
        }),
{
    let u = prepare_run(t, root, None).0;
    let listing = SysfsRequestView::ListDir { path: devices_dir(root) };
    let t1 = t.ask(listing);
    go_auto_leads(t, root);
    lemma_read(t, listing);
    lemma_looked(t, t1, u, host);
    assert(t1.replies[0] == host(t1.asked[0]));
}

proof fn go_auto_leads(t: SysfsTranscript, root: Seq<char>)
    ensures
        t.ask(SysfsRequestView::ListDir { path: devices_dir(root) }).leads_to(
            prepare_run(t, root, None).0,
        ),
{
    broadcast use lemma_reads_on;

    let t1 = t.ask(SysfsRequestView::ListDir { path: devices_dir(root) });
    let names = answer(t1).names;
    let (t2, gpus) = gpus_run(t1, root, names, 0, Seq::empty());
    lemma_gpus_read(t1, root, names, 0, Seq::empty());
    let addrs = in_order(gpus);
    lemma_all_seen_reads(t2, root, addrs);
    lemma_all_seen_leads(t2, root, addrs);
}

proof fn lemma_first(p: spec_fn(int) -> bool, j: int) -> (k: int)
    requires
        p(j),
        j >= 0,
        forall|i: int| #[trigger] p(i) ==> i >= 0,
    ensures
        p(k),
        k >= 0,
        forall|i: int| 0 <= i < k ==> !(#[trigger] p(i)),
    decreases j,
{
    if exists|i: int| 0 <= i < j && #[trigger] p(i) {
        let i = choose|i: int| 0 <= i < j && #[trigger] p(i);
        lemma_first(p, i)
    } else {
        j
    }
}

/// A GPU that was bound, or whose group was, is safe to take, whether it was asked for or
/// chosen: it is an NVIDIA GPU that shows nothing, nobody has an NVIDIA device open, and
/// all that passthrough needs is there. One that was asked for is the one that is
/// prepared.
pub proof fn law_taken_gpu_is_safe(
    t: SysfsTranscript,
    host: Host,
    root: Seq<char>,
    asked: Option<Seq<char>>,
)
    requires
        t.asked.len() == 0,
        looked_at(prepare_run(t, root, asked).0, host),
        prepare_run(t, root, asked).1 is Ok,
    ensures
        ({
            let state = prepare_run(t, root, asked).1->Ok_0;
            &&& asked is Some ==> state.pci_addr == asked->0
            &&& is_nvidia_gpu(host, root, state.pci_addr)
            &&& state.did_bind || state.peer_binds.len() > 0 ==> {
                &&& !shows_display(host, root, state.pci_addr)
                &&& !nvidia_in_use(host)
                &&& passthrough_is_possible(host, root, state.pci_addr)
            }
        }),
{
    let (u, r) = prepare_run(t, root, asked);
    let state = r->Ok_0;
    let addr = state.pci_addr;
    match asked {
        Some(wanted) => {
            lemma_asked_is_judged(t, host, root, wanted);
            let class = attribute_value(
                host(SysfsRequestView::ReadText { path: of_device(root, wanted, "class"@) }),
            );
            reveal_strlit("0x10de");
            reveal_strlit("0x03");
            lemma_class_prefix(value_or_empty(class));
            if state.did_bind || state.peer_binds.len() > 0 {
                lemma_nothing_in_the_way(host, root, wanted);
            }
        },
        None => {
            let listing = SysfsRequestView::ListDir {
                path: joined_path(root, "sys/bus/pci/devices"@),
            };
            lemma_first_answer(t, host, root);
            lemma_some_gpu(t, host, root);
            let k = lemma_choice(t, host, root);
            assert(addr == gpus_of(host, root)[k]);
            lemma_found_gpu(host, root, host(listing).names, addr);
            if state.did_bind || state.peer_binds.len() > 0 {
                lemma_nothing_in_the_way(host, root, addr);
            }
        },
    }
}

proof fn lemma_some_gpu(t: SysfsTranscript, host: Host, root: Seq<char>)
    requires
        t.asked.len() == 0,
        looked_at(prepare_run(t, root, None).0, host),
        prepare_run(t, root, None).1 is Ok,
    ensures
        host(
            SysfsRequestView::ListDir { path: joined_path(root, "sys/bus/pci/devices"@) },
        ).ok,
        gpus_of(host, root).len() > 0,
{
    broadcast use lemma_reads_on;

    let u = prepare_run(t, root, None).0;
    let listing = SysfsRequestView::ListDir { path: devices_dir(root) };
    let t1 = t.ask(listing);
    lemma_first_answer(t, host, root);
    let names = answer(t1).names;
    let (t2, gpus) = gpus_run(t1, root, names, 0, Seq::empty());
    lemma_read(t, listing);
    lemma_gpus_read(t1, root, names, 0, Seq::empty());
    lemma_all_seen_reads(t2, root, in_order(gpus));
    lemma_all_seen_leads(t2, root, in_order(gpus));
    lemma_looked(t, t2, u, host);
    law_gpus_are_found(t1, host, root, names);
    lemma_order_keeps_length(gpus);
}

pub proof fn lemma_order_keeps_length(v: Seq<Seq<char>>)
    ensures
        in_order(v).len() == v.len(),
{
    law_text_order_is_total();
    v.lemma_sort_by_ensures(text_order());
    v.to_multiset_ensures();
    in_order(v).to_multiset_ensures();
}

pub proof fn lemma_found_gpu(host: Host, root: Seq<char>, names: Seq<Seq<char>>, addr: Seq<char>)
    requires
        in_order(names.filter(is_gpu(host, root))).contains(addr),
    ensures
        is_nvidia_gpu(host, root, addr),
        names.contains(addr),
{
    let pred = is_gpu(host, root);
    let gpus = names.filter(pred);
    law_text_order_is_total();
    gpus.lemma_sort_by_ensures(text_order());
    assert(gpus.contains(addr));
    let k = choose|k: int| 0 <= k < gpus.len() && gpus[k] == addr;
    names.lemma_filter_pred(pred, k);
    names.lemma_filter_contains_rev(pred, addr);
    let class = attribute_value(
        host(SysfsRequestView::ReadText { path: of_device(root, addr, "class"@) }),
    );
    lemma_class_prefix(class->0);
}

} // verus!
