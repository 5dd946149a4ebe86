//! Safety checks on a GPU before it may be taken from the host.
//!
//! Every check only reads. A `*_run` function gives, for the replies at hand,
//! the requests that the check asks in order and the verdict it reaches.

use vstd::prelude::*;

use crate::fault::{Fault, FaultKind, FaultView};
use crate::paths::{file_name, join_path, joined_path, last_name};
use crate::sysfs::{
    answer, ask, device_dir, driver_dir, drm_dir, iommu_groups_dir, module_dir, reply_fault,
    vfio_dir, SysfsDialogue, SysfsRequest, SysfsRequestView, SysfsRoot, SysfsTranscript,
};
use crate::text::{
    chars_of, contains_char, decimal, decimal_text, ends_with, glue2, glue3, is_digit,
    parse_unsigned, same, starts_with, texts, trim, trimmed, unsigned_value,
};

verus! {

/// Name of the driver that hands a device to a virtual machine.
pub const VFIO_DRIVER: &'static str = "vfio-pci";

pub open spec fn is_hex_digit(c: char) -> bool {
    is_digit(c) || ('a' <= c && c <= 'f') || ('A' <= c && c <= 'F')
}

/// `s` has the form `DDDD:BB:DD.F` of a PCI address.
pub open spec fn is_pci_addr(s: Seq<char>) -> bool {
    &&& s.len() == 12
    &&& s[4] == ':' && s[7] == ':' && s[10] == '.'
    &&& forall|i: int|
        (0 <= i < 4 || 5 <= i < 7 || 8 <= i < 10) ==> is_hex_digit(#[trigger] s[i])
    &&& is_digit(s[11])
}

/// The failure for an address that is not one.
pub open spec fn bad_pci_addr(addr: Seq<char>) -> FaultView {
    FaultView {
        kind: FaultKind::InvalidInput,
        message: "invalid PCI address '"@ + addr + "': expected DDDD:BB:DD.F format"@,
    }
}

/// A PCI address is a domain of four hexadecimal digits, a bus and a device of two each and
/// a function of one decimal digit, with colons and a dot between them; digits count in
/// either case, and nothing else is one.
pub proof fn law_pci_address_form(s: Seq<char>)
    ensures
        is_pci_addr(s) <==> exists|
            domain: Seq<char>,
            bus: Seq<char>,
            device: Seq<char>,
            function: Seq<char>,
        | #[trigger]
            address(domain, bus, device, function) == s && domain.len() == 4 && bus.len() == 2
                && device.len() == 2 && function.len() == 1 && all_of(
                domain + bus + device,
                "0123456789abcdefABCDEF"@,
            ) && all_of(function, "0123456789"@),
{
    reveal_strlit(":");
    reveal_strlit(".");
    reveal_strlit("0123456789abcdefABCDEF");
    reveal_strlit("0123456789");
    assert forall|c: char| is_hex_digit(c) == #[trigger] "0123456789abcdefABCDEF"@.contains(c) by {
        lemma_hex_digit(c);
    }
    assert forall|c: char| is_digit(c) == #[trigger] "0123456789"@.contains(c) by {
        lemma_digit(c);
    }
    if is_pci_addr(s) {
        let domain = s.subrange(0, 4);
        let bus = s.subrange(5, 7);
        let device = s.subrange(8, 10);
        let function = s.subrange(11, 12);
        assert(address(domain, bus, device, function) =~= s);
        let all = domain + bus + device;
        assert forall|i: int| 0 <= i < all.len() implies "0123456789abcdefABCDEF"@.contains(
            #[trigger] all[i],
        ) by {
            let at = if i < 4 {
                i
            } else if i < 6 {
                i + 1
            } else {
                i + 2
            };
            assert(all[i] == s[at]);
            assert(is_hex_digit(s[at]));
        }
        assert(all_of(all, "0123456789abcdefABCDEF"@));
        assert(function[0] == s[11]);
        assert(all_of(function, "0123456789"@));
    }
    if exists|domain: Seq<char>, bus: Seq<char>, device: Seq<char>, function: Seq<char>| #[trigger]
        address(domain, bus, device, function) == s && domain.len() == 4 && bus.len() == 2
            && device.len() == 2 && function.len() == 1 && all_of(
            domain + bus + device,
            "0123456789abcdefABCDEF"@,
        ) && all_of(function, "0123456789"@) {
        let (domain, bus, device, function) = choose|
            domain: Seq<char>,
            bus: Seq<char>,
            device: Seq<char>,
            function: Seq<char>,
        | #[trigger]
            address(domain, bus, device, function) == s && domain.len() == 4 && bus.len() == 2
                && device.len() == 2 && function.len() == 1 && all_of(
                domain + bus + device,
                "0123456789abcdefABCDEF"@,
            ) && all_of(function, "0123456789"@);
        let all = domain + bus + device;
        assert(s.len() == 12);
        assert forall|i: int| (0 <= i < 4 || 5 <= i < 7 || 8 <= i < 10) implies is_hex_digit(
            #[trigger] s[i],
        ) by {
            let at = if i < 4 {
                i
            } else if i < 7 {
                i - 1
            } else {
                i - 2
            };
            assert(all[at] == s[i]);
        }
        assert(s[11] == function[0]);
        assert(is_digit(function[0]));
        assert(s[4] == ':' && s[7] == ':' && s[10] == '.');
    }
}

/// The text of an address with these parts.
pub open spec fn address(
    domain: Seq<char>,
    bus: Seq<char>,
    device: Seq<char>,
    function: Seq<char>,
) -> Seq<char> {
    domain + ":"@ + bus + ":"@ + device + "."@ + function
}

/// Every character of `s` is one of `allowed`.
pub open spec fn all_of(s: Seq<char>, allowed: Seq<char>) -> bool {
    forall|i: int| 0 <= i < s.len() ==> allowed.contains(#[trigger] s[i])
}

proof fn lemma_digit(c: char)
    ensures
        is_digit(c) == "0123456789"@.contains(c),
{
    let list = "0123456789"@;
    reveal_strlit("0123456789");
    assert(list[0] == '0' && list[1] == '1' && list[2] == '2' && list[3] == '3' && list[4] == '4');
    assert(list[5] == '5' && list[6] == '6' && list[7] == '7' && list[8] == '8' && list[9] == '9');
    if is_digit(c) {
        assert(list[c as int - 48] == c);
    }
}

proof fn lemma_hex_digit(c: char)
    ensures
        is_hex_digit(c) == "0123456789abcdefABCDEF"@.contains(c),
{
    let list = "0123456789abcdefABCDEF"@;
    reveal_strlit("0123456789abcdefABCDEF");
    assert(list[0] == '0' && list[1] == '1' && list[2] == '2' && list[3] == '3' && list[4] == '4');
    assert(list[5] == '5' && list[6] == '6' && list[7] == '7' && list[8] == '8' && list[9] == '9');
    assert(list[10] == 'a' && list[11] == 'b' && list[12] == 'c' && list[13] == 'd');
    assert(list[14] == 'e' && list[15] == 'f' && list[16] == 'A' && list[17] == 'B');
    assert(list[18] == 'C' && list[19] == 'D' && list[20] == 'E' && list[21] == 'F');
    if is_hex_digit(c) {
        if is_digit(c) {
            assert(list[c as int - 48] == c);
        } else if 'a' <= c {
            assert(list[c as int - 87] == c);
        } else {
            assert(list[c as int - 49] == c);
        }
    }
}

fn hex_digit(c: char) -> (r: bool)
    ensures
        r == is_hex_digit(c),
{
    ('0' <= c && c <= '9') || ('a' <= c && c <= 'f') || ('A' <= c && c <= 'F')
}

/// Accepts exactly the addresses of the form `DDDD:BB:DD.F`.
pub fn validate_pci_addr(addr: &str) -> (r: Result<(), Fault>)
    ensures
        r is Ok <==> is_pci_addr(addr@),
        r is Err ==> r->Err_0@ == bad_pci_addr(addr@),
{
    let c = chars_of(addr);
    let valid = c.len() == 12 && c[4] == ':' && c[7] == ':' && c[10] == '.' && hex_digit(c[0])
        && hex_digit(c[1]) && hex_digit(c[2]) && hex_digit(c[3]) && hex_digit(c[5]) && hex_digit(
        c[6],
    ) && hex_digit(c[8]) && hex_digit(c[9]) && '0' <= c[11] && c[11] <= '9';
    if valid {
        Ok(())
    } else {
        let message = glue3(
            "invalid PCI address '",
            addr,
            "': expected DDDD:BB:DD.F format",
        );
        Err(Fault::new(FaultKind::InvalidInput, message))
    }
}

/// The driver that a device is bound to: the last name of its `driver` link.
pub open spec fn current_driver_run(t: SysfsTranscript, root: Seq<char>, addr: Seq<char>) -> (
    SysfsTranscript,
    Option<Seq<char>>,
) {
    let t = t.ask(
        SysfsRequestView::ReadLink { path: joined_path(device_dir(root, addr), "driver"@) },
    );
    (t, linked_driver(answer(t)))
}

/// The driver name that the reply to reading a `driver` link gives.
pub open spec fn linked_driver(a: crate::sysfs::SysfsReplyView) -> Option<Seq<char>> {
    if a.ok {
        last_name(a.text)
    } else {
        None
    }
}

/// The characters of an optional name.
pub open spec fn name_view(n: Option<String>) -> Option<Seq<char>> {
    match n {
        Some(s) => Some(s@),
        None => None,
    }
}

/// The driver that the device is bound to, if any.
pub fn current_driver(sysfs: &SysfsRoot, d: &mut SysfsDialogue, pci_addr: &str) -> (r: Option<
    Option<String>,
>)
    ensures
        final(d)@ == current_driver_run(old(d)@, sysfs@, pci_addr@).0,
        r is Some <==> final(d)@.live(),
        r is Some ==> name_view(r->0) == current_driver_run(old(d)@, sysfs@, pci_addr@).1,
{
    let dev = sysfs.device(pci_addr);
    let link = join_path(dev.as_str(), "driver");
    let a = ask(d, SysfsRequest::ReadLink { path: link })?;
    if a.ok {
        Some(file_name(a.text.as_str()))
    } else {
        Some(None)
    }
}

/// Whether `driver` is the driver that hands devices to virtual machines.
pub fn is_vfio(driver: &Option<String>) -> (r: bool)
    ensures
        r == (name_view(*driver) == Some(VFIO_DRIVER@)),
{
    match driver {
        Some(name) => same(name.as_str(), VFIO_DRIVER),
        None => false,
    }
}

/// Looks for a connected output among the entries `subs[i..]` of a card.
pub open spec fn connectors_run(
    t: SysfsTranscript,
    card_dir: Seq<char>,
    output_prefix: Seq<char>,
    subs: Seq<Seq<char>>,
    i: nat,
) -> (SysfsTranscript, bool)
    decreases subs.len() - i,
{
    if i >= subs.len() {
        (t, false)
    } else if output_prefix.is_prefix_of(subs[i as int]) {
        let t = t.ask(
            SysfsRequestView::ReadText {
                path: joined_path(joined_path(card_dir, subs[i as int]), "status"@),
            },
        );
        if answer(t).ok && trimmed(answer(t).text) == "connected"@ {
            (t, true)
        } else {
            connectors_run(t, card_dir, output_prefix, subs, i + 1)
        }
    } else {
        connectors_run(t, card_dir, output_prefix, subs, i + 1)
    }
}

/// `name` is that of a display adapter and not of one of its outputs.
pub open spec fn is_card_name(name: Seq<char>) -> bool {
    "card"@.is_prefix_of(name) && !name.contains('-')
}

/// Whether one display adapter belongs to the device at `addr` and is in use:
/// it was used to boot, or one of its outputs is connected.
pub open spec fn card_run(
    t: SysfsTranscript,
    drm: Seq<char>,
    name: Seq<char>,
    addr: Seq<char>,
) -> (SysfsTranscript, bool) {
    if !is_card_name(name) {
        (t, false)
    } else {
        let card = joined_path(drm, name);
        let device = joined_path(card, "device"@);
        let t = t.ask(SysfsRequestView::ReadLink { path: device });
        if !answer(t).ok || !addr.is_suffix_of(answer(t).text) {
            (t, false)
        } else {
            let t = t.ask(SysfsRequestView::ReadText { path: joined_path(device, "boot_vga"@) });
            if answer(t).ok && trimmed(answer(t).text) == "1"@ {
                (t, true)
            } else {
                let t = t.ask(SysfsRequestView::ListDir { path: card });
                if answer(t).ok {
                    connectors_run(t, card, name + "-"@, answer(t).names, 0)
                } else {
                    (t, false)
                }
            }
        }
    }
}

/// Whether one of the display adapters `names[i..]` is in use for `addr`.
pub open spec fn cards_run(
    t: SysfsTranscript,
    drm: Seq<char>,
    addr: Seq<char>,
    names: Seq<Seq<char>>,
    i: nat,
) -> (SysfsTranscript, bool)
    decreases names.len() - i,
{
    if i >= names.len() {
        (t, false)
    } else {
        let (t, attached) = card_run(t, drm, names[i as int], addr);
        if attached {
            (t, true)
        } else {
            cards_run(t, drm, addr, names, i + 1)
        }
    }
}

pub open spec fn display_run(t: SysfsTranscript, root: Seq<char>, addr: Seq<char>) -> (
    SysfsTranscript,
    bool,
) {
    let t = t.ask(SysfsRequestView::ListDir { path: drm_dir(root) });
    if answer(t).ok {
        cards_run(t, drm_dir(root), addr, answer(t).names, 0)
    } else {
        (t, false)
    }
}

pub proof fn lemma_connectors_wait(
    t: SysfsTranscript,
    card_dir: Seq<char>,
    output_prefix: Seq<char>,
    subs: Seq<Seq<char>>,
    i: nat,
)
    ensures
        !t.live() ==> connectors_run(t, card_dir, output_prefix, subs, i).0 == t,
    decreases subs.len() - i,
{
    if !t.live() && i < subs.len() {
        lemma_connectors_wait(t, card_dir, output_prefix, subs, i + 1);
    }
}

pub proof fn lemma_cards_wait(
    t: SysfsTranscript,
    drm: Seq<char>,
    addr: Seq<char>,
    names: Seq<Seq<char>>,
    i: nat,
)
    ensures
        !t.live() ==> cards_run(t, drm, addr, names, i).0 == t,
    decreases names.len() - i,
{
    if !t.live() && i < names.len() {
        lemma_cards_wait(t, drm, addr, names, i + 1);
    }
}

fn card_attached(drm: &str, d: &mut SysfsDialogue, name: &str, pci_addr: &str) -> (r: Option<bool>)
    requires
        old(d)@.live(),
    ensures
        final(d)@ == card_run(old(d)@, drm@, name@, pci_addr@).0,
        r is Some <==> final(d)@.live(),
        r is Some ==> r->0 == card_run(old(d)@, drm@, name@, pci_addr@).1,
{
    if !starts_with(name, "card") || contains_char(name, '-') {
        return Some(false);
    }
    let card = join_path(drm, name);
    let device = join_path(card.as_str(), "device");
    let target = ask(d, SysfsRequest::ReadLink { path: device.clone() })?;
    if !target.ok || !ends_with(target.text.as_str(), pci_addr) {
        return Some(false);
    }
    let boot_vga = join_path(device.as_str(), "boot_vga");
    let boot = ask(d, SysfsRequest::ReadText { path: boot_vga })?;
    if boot.ok && same(trim(boot.text.as_str()).as_str(), "1") {
        return Some(true);
    }
    let subs = ask(d, SysfsRequest::ListDir { path: card.clone() })?;
    if !subs.ok {
        return Some(false);
    }
    let prefix = glue2(name, "-");
    let mut i: usize = 0;
    while i < subs.names.len()
        invariant
            i <= subs.names@.len(),
            d@.live(),
            prefix@ == name@ + "-"@,
            connectors_run(d@, card@, prefix@, texts(subs.names@), i as nat) == card_run(
                old(d)@,
                drm@,
                name@,
                pci_addr@,
            ),
        decreases subs.names.len() - i,
    {
        if starts_with(subs.names[i].as_str(), prefix.as_str()) {
            let sub = join_path(card.as_str(), subs.names[i].as_str());
            let status_path = join_path(sub.as_str(), "status");
            let status = match ask(d, SysfsRequest::ReadText { path: status_path }) {
                Some(status) => status,
                None => {
                    proof {
                        lemma_connectors_wait(
                            d@,
                            card@,
                            prefix@,
                            texts(subs.names@),
                            (i + 1) as nat,
                        );
                    }
                    return None;
                },
            };
            if status.ok && same(trim(status.text.as_str()).as_str(), "connected") {
                return Some(true);
            }
        }
        i = i + 1;
    }
    Some(false)
}

/// Whether the GPU drives a display of the host.
pub fn check_display_attached(sysfs: &SysfsRoot, d: &mut SysfsDialogue, pci_addr: &str) -> (r:
    Option<bool>)
    ensures
        final(d)@ == display_run(old(d)@, sysfs@, pci_addr@).0,
        r is Some <==> final(d)@.live(),
        r is Some ==> r->0 == display_run(old(d)@, sysfs@, pci_addr@).1,
{
    let drm = sysfs.sys_class_drm();
    let cards = ask(d, SysfsRequest::ListDir { path: drm.clone() })?;
    if !cards.ok {
        return Some(false);
    }
    let mut i: usize = 0;
    while i < cards.names.len()
        invariant
            i <= cards.names@.len(),
            d@.live(),
            cards_run(d@, drm@, pci_addr@, texts(cards.names@), i as nat) == display_run(
                old(d)@,
                sysfs@,
                pci_addr@,
            ),
        decreases cards.names.len() - i,
    {
        match card_attached(drm.as_str(), d, cards.names[i].as_str(), pci_addr) {
            Some(true) => {
                return Some(true);
            },
            Some(false) => {},
            None => {
                proof {
                    lemma_cards_wait(d@, drm@, pci_addr@, texts(cards.names@), (i + 1) as nat);
                }
                return None;
            },
        }
        i = i + 1;
    }
    Some(false)
}

/// One entry of `/proc`: its process id and command name, where the entry is a
/// process that holds an NVIDIA device open.
pub open spec fn process_run(t: SysfsTranscript, name: Seq<char>) -> (
    SysfsTranscript,
    Option<(u32, Seq<char>)>,
) {
    match unsigned_value(name, u32::MAX as nat) {
        None => (t, None),
        Some(pid) => {
            let t = t.ask(
                SysfsRequestView::ListLinks {
                    path: joined_path(joined_path("/proc"@, name), "fd"@),
                },
            );
            if !answer(t).ok || !some_nvidia_handle(answer(t).names) {
                (t, None)
            } else {
                let t = t.ask(
                    SysfsRequestView::ReadText { path: "/proc/"@ + decimal(pid) + "/comm"@ },
                );
                (
                    t,
                    Some(
                        (
                            pid as u32,
                            if answer(t).ok {
                                trimmed(answer(t).text)
                            } else {
                                Seq::empty()
                            },
                        ),
                    ),
                )
            }
        },
    }
}

/// One of the open files is an NVIDIA device.
pub open spec fn some_nvidia_handle(targets: Seq<Seq<char>>) -> bool {
    exists|i: int| 0 <= i < targets.len() && "/dev/nvidia"@.is_prefix_of(#[trigger] targets[i])
}

/// `found` and, after it, the processes among `names[i..]` that hold an NVIDIA
/// device open.
pub open spec fn processes_run(
    t: SysfsTranscript,
    names: Seq<Seq<char>>,
    i: nat,
    found: Seq<(u32, Seq<char>)>,
) -> (SysfsTranscript, Seq<(u32, Seq<char>)>)
    decreases names.len() - i,
{
    if i >= names.len() {
        (t, found)
    } else {
        let (t, process) = process_run(t, names[i as int]);
        match process {
            Some(p) => processes_run(t, names, i + 1, found.push(p)),
            None => processes_run(t, names, i + 1, found),
        }
    }
}

pub open spec fn gpu_processes_run(t: SysfsTranscript) -> (
    SysfsTranscript,
    Result<Seq<(u32, Seq<char>)>, FaultView>,
) {
    let t = t.ask(SysfsRequestView::ListDir { path: "/proc"@ });
    if answer(t).ok {
        let (t, found) = processes_run(t, answer(t).names, 0, Seq::empty());
        (t, Ok(found))
    } else if answer(t).kind == FaultKind::PermissionDenied {
        (t, Ok(Seq::empty()))
    } else {
        (t, Err(reply_fault(answer(t))))
    }
}

pub proof fn lemma_processes_wait(
    t: SysfsTranscript,
    names: Seq<Seq<char>>,
    i: nat,
    found: Seq<(u32, Seq<char>)>,
)
    ensures
        !t.live() ==> processes_run(t, names, i, found).0 == t,
    decreases names.len() - i,
{
    if !t.live() && i < names.len() {
        lemma_processes_wait(t, names, i + 1, found);
        match process_run(t, names[i as int]).1 {
            Some(p) => {
                lemma_processes_wait(t, names, i + 1, found.push(p));
            },
            None => {},
        }
    }
}

/// A list of processes, with the command names by their characters.
pub open spec fn process_views(v: Seq<(u32, String)>) -> Seq<(u32, Seq<char>)> {
    v.map_values(|p: (u32, String)| (p.0, p.1@))
}

fn nvidia_handle_open(targets: &Vec<String>) -> (r: bool)
    ensures
        r == some_nvidia_handle(texts(targets@)),
{
    let mut i: usize = 0;
    while i < targets.len()
        invariant
            i <= targets@.len(),
            forall|j: int|
                0 <= j < i ==> !"/dev/nvidia"@.is_prefix_of(#[trigger] texts(targets@)[j]),
        decreases targets.len() - i,
    {
        if starts_with(targets[i].as_str(), "/dev/nvidia") {
            assert("/dev/nvidia"@.is_prefix_of(texts(targets@)[i as int]));
            return true;
        }
        i = i + 1;
    }
    false
}

fn process_of(d: &mut SysfsDialogue, name: &str) -> (r: Option<Option<(u32, String)>>)
    requires
        old(d)@.live(),
    ensures
        final(d)@ == process_run(old(d)@, name@).0,
        r is Some <==> final(d)@.live(),
        r is Some ==> match r->0 {
            Some(p) => process_run(old(d)@, name@).1 == Some((p.0, p.1@)),
            None => process_run(old(d)@, name@).1 is None,
        },
{
    let pid = match parse_unsigned(name, 4294967295) {
        Some(pid) => pid,
        None => {
            return Some(None);
        },
    };
    let dir = join_path("/proc", name);
    let fd_dir = join_path(dir.as_str(), "fd");
    let fds = ask(d, SysfsRequest::ListLinks { path: fd_dir })?;
    if !fds.ok || !nvidia_handle_open(&fds.names) {
        return Some(None);
    }
    let comm_path = glue3("/proc/", decimal_text(pid).as_str(), "/comm");
    let comm = ask(d, SysfsRequest::ReadText { path: comm_path })?;
    let command = if comm.ok {
        trim(comm.text.as_str())
    } else {
        String::new()
    };
    Some(Some((pid as u32, command)))
}

/// The processes of the host that hold any NVIDIA device open. The check covers
/// all NVIDIA devices, not only the one to be taken.
pub fn check_active_gpu_processes(d: &mut SysfsDialogue) -> (r: Option<
    Result<Vec<(u32, String)>, Fault>,
>)
    ensures
        final(d)@ == gpu_processes_run(old(d)@).0,
        r is Some <==> final(d)@.live(),
        r is Some ==> match r->0 {
            Ok(v) => gpu_processes_run(old(d)@).1 == Ok::<_, FaultView>(process_views(v@)),
            Err(e) => gpu_processes_run(old(d)@).1 == Err::<Seq<(u32, Seq<char>)>, _>(e@),
        },
{
    let entries = ask(d, SysfsRequest::ListDir { path: "/proc".to_owned() })?;
    if !entries.ok {
        if entries.kind == FaultKind::PermissionDenied {
            let none: Vec<(u32, String)> = Vec::new();
            assert(process_views(none@) =~= Seq::empty());
            return Some(Ok(none));
        }
        return Some(Err(Fault::new(entries.kind, entries.text)));
    }
    let mut found: Vec<(u32, String)> = Vec::new();
    let ghost names = texts(entries.names@);
    let ghost start = d@;
    assert(process_views(found@) =~= Seq::empty());
    let mut i: usize = 0;
    while i < entries.names.len()
        invariant
            i <= entries.names@.len(),
            names == texts(entries.names@),
            d@.live(),
            processes_run(d@, names, i as nat, process_views(found@)) == processes_run(
                start,
                names,
                0,
                Seq::empty(),
            ),
            start == old(d)@.ask(SysfsRequestView::ListDir { path: "/proc"@ }),
            start.live(),
            answer(start).ok,
            answer(start).names == names,
        decreases entries.names.len() - i,
    {
        let ghost before = process_views(found@);
        let ghost at = d@;
        match process_of(d, entries.names[i].as_str()) {
            Some(Some(p)) => {
                found.push(p);
                assert(process_views(found@) =~= before.push((p.0, p.1@)));
            },
            Some(None) => {},
            None => {
                proof {
                    match process_run(at, names[i as int]).1 {
                        Some(p) => {
                            lemma_processes_wait(d@, names, (i + 1) as nat, before.push(p));
                        },
                        None => {
                            lemma_processes_wait(d@, names, (i + 1) as nat, before);
                        },
                    }
                }
                return None;
            },
        }
        i = i + 1;
    }
    Some(Ok(found))
}

pub open spec fn iommu_run(t: SysfsTranscript, root: Seq<char>, addr: Seq<char>) -> (
    SysfsTranscript,
    bool,
) {
    let t = t.ask(SysfsRequestView::IsDir { path: iommu_groups_dir(root) });
    if !answer(t).ok {
        (t, false)
    } else {
        let t = t.ask(
            SysfsRequestView::Exists { path: joined_path(device_dir(root, addr), "iommu_group"@) },
        );
        (t, answer(t).ok)
    }
}

/// Whether the host has IOMMU groups and the device belongs to one.
pub fn check_iommu_enabled(sysfs: &SysfsRoot, d: &mut SysfsDialogue, pci_addr: &str) -> (r: Option<
    bool,
>)
    ensures
        final(d)@ == iommu_run(old(d)@, sysfs@, pci_addr@).0,
        r is Some <==> final(d)@.live(),
        r is Some ==> r->0 == iommu_run(old(d)@, sysfs@, pci_addr@).1,
{
    let groups = ask(d, SysfsRequest::IsDir { path: sysfs.sys_kernel_iommu_groups() })?;
    if !groups.ok {
        return Some(false);
    }
    let dev = sysfs.device(pci_addr);
    let group = ask(
        d,
        SysfsRequest::Exists { path: join_path(dev.as_str(), "iommu_group") },
    )?;
    Some(group.ok)
}

pub open spec fn modules_run(t: SysfsTranscript, root: Seq<char>) -> (SysfsTranscript, bool) {
    let t = t.ask(SysfsRequestView::IsDir { path: module_dir(root, "vfio_pci"@) });
    if !answer(t).ok {
        (t, false)
    } else {
        let t = t.ask(SysfsRequestView::IsDir { path: module_dir(root, "vfio_iommu_type1"@) });
        (t, answer(t).ok)
    }
}

/// Whether both kernel modules that passthrough needs are loaded.
pub fn check_vfio_modules_loaded(sysfs: &SysfsRoot, d: &mut SysfsDialogue) -> (r: Option<bool>)
    ensures
        final(d)@ == modules_run(old(d)@, sysfs@).0,
        r is Some <==> final(d)@.live(),
        r is Some ==> r->0 == modules_run(old(d)@, sysfs@).1,
{
    let pci = ask(d, SysfsRequest::IsDir { path: sysfs.sys_module("vfio_pci") })?;
    if !pci.ok {
        return Some(false);
    }
    let iommu = ask(d, SysfsRequest::IsDir { path: sysfs.sys_module("vfio_iommu_type1") })?;
    Some(iommu.ok)
}

/// Whether `path` is writable, where it exists.
pub open spec fn allowed_run(t: SysfsTranscript, path: Seq<char>) -> (SysfsTranscript, bool) {
    let t = t.ask(SysfsRequestView::Exists { path });
    if !answer(t).ok {
        (t, true)
    } else {
        let t = t.ask(SysfsRequestView::IsWritable { path });
        (t, answer(t).ok)
    }
}

fn allowed(d: &mut SysfsDialogue, path: String) -> (r: Option<bool>)
    ensures
        final(d)@ == allowed_run(old(d)@, path@).0,
        r is Some <==> final(d)@.live(),
        r is Some ==> r->0 == allowed_run(old(d)@, path@).1,
{
    let exists = ask(d, SysfsRequest::Exists { path: path.clone() })?;
    if exists.ok {
        let writable = ask(d, SysfsRequest::IsWritable { path })?;
        Some(writable.ok)
    } else {
        Some(true)
    }
}

pub open spec fn permissions_run(t: SysfsTranscript, root: Seq<char>, addr: Seq<char>) -> (
    SysfsTranscript,
    bool,
) {
    let dev = device_dir(root, addr);
    let (t, unbind_ok) = allowed_run(t, joined_path(dev, "driver/unbind"@));
    let t = t.ask(SysfsRequestView::IsWritable { path: joined_path(dev, "driver_override"@) });
    if !answer(t).ok || !unbind_ok {
        (t, false)
    } else {
        let t = t.ask(
            SysfsRequestView::IsWritable {
                path: joined_path(driver_dir(root, VFIO_DRIVER@), "bind"@),
            },
        );
        if !answer(t).ok {
            (t, false)
        } else {
            allowed_run(t, vfio_dir(root))
        }
    }
}

/// Whether every attribute that binding writes is writable, and so is the directory of
/// the devices that a machine is given, where it exists.
pub fn check_sysfs_permissions(sysfs: &SysfsRoot, d: &mut SysfsDialogue, pci_addr: &str) -> (r:
    Option<bool>)
    ensures
        final(d)@ == permissions_run(old(d)@, sysfs@, pci_addr@).0,
        r is Some <==> final(d)@.live(),
        r is Some ==> r->0 == permissions_run(old(d)@, sysfs@, pci_addr@).1,
{
    let dev = sysfs.device(pci_addr);
    let driver_override = join_path(dev.as_str(), "driver_override");
    let unbind = join_path(dev.as_str(), "driver/unbind");
    let vfio = sysfs.sys_bus_pci_drivers(VFIO_DRIVER);
    let bind = join_path(vfio.as_str(), "bind");
    let unbind_ok = allowed(d, unbind)?;
    let override_ok = ask(d, SysfsRequest::IsWritable { path: driver_override })?;
    if !override_ok.ok || !unbind_ok {
        return Some(false);
    }
    let bind_ok = ask(d, SysfsRequest::IsWritable { path: bind })?;
    if !bind_ok.ok {
        return Some(false);
    }
    allowed(d, sysfs.dev_vfio())
}

/// Being another name than `addr`.
pub open spec fn differs_from(addr: Seq<char>) -> spec_fn(Seq<char>) -> bool {
    |n: Seq<char>| n != addr
}

/// All names but `addr`, in their order.
pub open spec fn others(names: Seq<Seq<char>>, addr: Seq<char>) -> Seq<Seq<char>> {
    names.filter(differs_from(addr))
}

pub open spec fn peers_run(t: SysfsTranscript, root: Seq<char>, addr: Seq<char>) -> (
    SysfsTranscript,
    Result<Seq<Seq<char>>, FaultView>,
) {
    if !is_pci_addr(addr) {
        (t, Err(bad_pci_addr(addr)))
    } else {
        let t = t.ask(
            SysfsRequestView::ListDir {
                path: joined_path(device_dir(root, addr), "iommu_group/devices"@),
            },
        );
        if answer(t).ok {
            (t, Ok(others(answer(t).names, addr)))
        } else if answer(t).kind == FaultKind::NotFound {
            (t, Ok(Seq::empty()))
        } else {
            (t, Err(reply_fault(answer(t))))
        }
    }
}

/// The other devices of the IOMMU group. A device without a group has none.
pub fn iommu_group_peers(sysfs: &SysfsRoot, d: &mut SysfsDialogue, pci_addr: &str) -> (r: Option<
    Result<Vec<String>, Fault>,
>)
    ensures
        final(d)@ == peers_run(old(d)@, sysfs@, pci_addr@).0,
        r is Some <==> final(d)@.live(),
        r is Some ==> match r->0 {
            Ok(v) => peers_run(old(d)@, sysfs@, pci_addr@).1 == Ok::<_, FaultView>(texts(v@)),
            Err(e) => peers_run(old(d)@, sysfs@, pci_addr@).1 == Err::<Seq<Seq<char>>, _>(e@),
        },
{
    if !d.is_live() {
        return None;
    }
    match validate_pci_addr(pci_addr) {
        Err(e) => {
            return Some(Err(e));
        },
        Ok(()) => {},
    }
    let dev = sysfs.device(pci_addr);
    let group = join_path(dev.as_str(), "iommu_group/devices");
    let entries = ask(d, SysfsRequest::ListDir { path: group })?;
    let mut peers: Vec<String> = Vec::new();
    if !entries.ok {
        if entries.kind == FaultKind::NotFound {
            assert(texts(peers@) =~= Seq::empty());
            return Some(Ok(peers));
        }
        return Some(Err(Fault::new(entries.kind, entries.text)));
    }
    let ghost names = texts(entries.names@);
    let ghost differs = differs_from(pci_addr@);
    assert(names.take(0) =~= Seq::empty());
    assert(texts(peers@) =~= names.take(0).filter(differs)) by {
        reveal(Seq::filter);
    }
    let mut i: usize = 0;
    while i < entries.names.len()
        invariant
            i <= entries.names@.len(),
            names == texts(entries.names@),
            differs == differs_from(pci_addr@),
            texts(peers@) == names.take(i as int).filter(differs),
        decreases entries.names.len() - i,
    {
        let ghost kept = texts(peers@);
        let ghost name = names[i as int];
        assert(names.take(i + 1) =~= names.take(i as int).push(name));
        proof {
            names.take(i as int).lemma_filter_push(name, differs);
        }
        if !same(entries.names[i].as_str(), pci_addr) {
            peers.push(entries.names[i].clone());
            assert(texts(peers@) =~= kept.push(name));
        }
        i = i + 1;
    }
    assert(names.take(i as int) =~= names);
    Some(Ok(peers))
}

/// Whether all of `peers[i..]` are on the passthrough driver.
pub open spec fn all_vfio_run(
    t: SysfsTranscript,
    root: Seq<char>,
    peers: Seq<Seq<char>>,
    i: nat,
) -> (SysfsTranscript, bool)
    decreases peers.len() - i,
{
    if i >= peers.len() {
        (t, true)
    } else {
        let (t, driver) = current_driver_run(t, root, peers[i as int]);
        if driver == Some(VFIO_DRIVER@) {
            all_vfio_run(t, root, peers, i + 1)
        } else {
            (t, false)
        }
    }
}

pub open spec fn group_clean_run(t: SysfsTranscript, root: Seq<char>, addr: Seq<char>) -> (
    SysfsTranscript,
    bool,
) {
    let (t, peers) = peers_run(t, root, addr);
    match peers {
        Ok(peers) => all_vfio_run(t, root, peers, 0),
        Err(_) => (t, false),
    }
}

/// Whether every other device of the IOMMU group is on the passthrough driver.
pub fn is_iommu_group_clean(sysfs: &SysfsRoot, d: &mut SysfsDialogue, pci_addr: &str) -> (r: Option<
    bool,
>)
    ensures
        final(d)@ == group_clean_run(old(d)@, sysfs@, pci_addr@).0,
        r is Some <==> final(d)@.live(),
        r is Some ==> r->0 == group_clean_run(old(d)@, sysfs@, pci_addr@).1,
{
    let peers = match iommu_group_peers(sysfs, d, pci_addr)? {
        Ok(peers) => peers,
        Err(_) => {
            return Some(false);
        },
    };
    let mut i: usize = 0;
    while i < peers.len()
        invariant
            i <= peers@.len(),
            d@.live(),
            all_vfio_run(d@, sysfs@, texts(peers@), i as nat) == group_clean_run(
                old(d)@,
                sysfs@,
                pci_addr@,
            ),
        decreases peers.len() - i,
    {
        let driver = current_driver(sysfs, d, peers[i].as_str())?;
        if !is_vfio(&driver) {
            return Some(false);
        }
        i = i + 1;
    }
    Some(true)
}

/// `found` and, after it, those of `peers[i..]` that are not on the passthrough driver.
pub open spec fn dirty_peers_run(
    t: SysfsTranscript,
    root: Seq<char>,
    peers: Seq<Seq<char>>,
    i: nat,
    found: Seq<Seq<char>>,
) -> (SysfsTranscript, Seq<Seq<char>>)
    decreases peers.len() - i,
{
    if i >= peers.len() {
        (t, found)
    } else {
        let (t, driver) = current_driver_run(t, root, peers[i as int]);
        if driver == Some(VFIO_DRIVER@) {
            dirty_peers_run(t, root, peers, i + 1, found)
        } else {
            dirty_peers_run(t, root, peers, i + 1, found.push(peers[i as int]))
        }
    }
}

/// The other devices of the IOMMU group that are not on the passthrough driver. None
/// are known of a group that cannot be listed.
pub open spec fn dirty_group_run(t: SysfsTranscript, root: Seq<char>, addr: Seq<char>) -> (
    SysfsTranscript,
    Seq<Seq<char>>,
) {
    let (t, peers) = peers_run(t, root, addr);
    match peers {
        Ok(peers) => dirty_peers_run(t, root, peers, 0, Seq::empty()),
        Err(_) => (t, Seq::empty()),
    }
}

pub proof fn lemma_dirty_peers_wait(
    t: SysfsTranscript,
    root: Seq<char>,
    peers: Seq<Seq<char>>,
    i: nat,
    found: Seq<Seq<char>>,
)
    ensures
        !t.live() ==> dirty_peers_run(t, root, peers, i, found).0 == t,
    decreases peers.len() - i,
{
    if !t.live() && i < peers.len() {
        lemma_dirty_peers_wait(t, root, peers, i + 1, found);
        lemma_dirty_peers_wait(t, root, peers, i + 1, found.push(peers[i as int]));
    }
}

/// The other devices of the IOMMU group that are not on the passthrough driver.
pub fn dirty_group_peers(sysfs: &SysfsRoot, d: &mut SysfsDialogue, pci_addr: &str) -> (r: Option<
    Vec<String>,
>)
    ensures
        final(d)@ == dirty_group_run(old(d)@, sysfs@, pci_addr@).0,
        r is Some <==> final(d)@.live(),
        r is Some ==> texts(r->0@) == dirty_group_run(old(d)@, sysfs@, pci_addr@).1,
{
    let mut found: Vec<String> = Vec::new();
    assert(texts(found@) =~= Seq::empty());
    let listed = match iommu_group_peers(sysfs, d, pci_addr) {
        Some(listed) => listed,
        None => {
            proof {
                let peers = peers_run(old(d)@, sysfs@, pci_addr@).1;
                if peers is Ok {
                    lemma_dirty_peers_wait(d@, sysfs@, peers->Ok_0, 0, Seq::empty());
                }
            }
            return None;
        },
    };
    let peers = match listed {
        Ok(peers) => peers,
        Err(_) => {
            return Some(found);
        },
    };
    let ghost all = texts(peers@);
    let mut i: usize = 0;
    while i < peers.len()
        invariant
            i <= peers@.len(),
            all == texts(peers@),
            d@.live(),
            dirty_peers_run(d@, sysfs@, all, i as nat, texts(found@)) == dirty_group_run(
                old(d)@,
                sysfs@,
                pci_addr@,
            ),
        decreases peers.len() - i,
    {
        let ghost before = texts(found@);
        match current_driver(sysfs, d, peers[i].as_str()) {
            Some(driver) => if !is_vfio(&driver) {
                found.push(peers[i].clone());
                assert(texts(found@) =~= before.push(all[i as int]));
            },
            None => {
                proof {
                    lemma_dirty_peers_wait(d@, sysfs@, all, (i + 1) as nat, before);
                    lemma_dirty_peers_wait(
                        d@,
                        sysfs@,
                        all,
                        (i + 1) as nat,
                        before.push(all[i as int]),
                    );
                }
                return None;
            },
        }
        i = i + 1;
    }
    Some(found)
}

} // verus!
