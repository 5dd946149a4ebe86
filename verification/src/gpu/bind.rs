//! Moving a GPU and its IOMMU group to the passthrough driver and back.

use vstd::prelude::*;

use crate::fault::{outcome, root_hint, root_hint_text, text_outcome, Fault, FaultView};
use crate::gpu::checks::{
    bad_pci_addr, current_driver, current_driver_run, iommu_group_peers, is_pci_addr, is_vfio,
    name_view, peers_run, validate_pci_addr, VFIO_DRIVER,
};
use crate::paths::{join_path, joined_path};
use crate::sysfs::{
    ask, device_dir, driver_dir, write_run, SysfsDialogue, SysfsRequest, SysfsRequestView,
    SysfsRoot, SysfsTranscript,
};
use crate::text::{decimal, decimal_text, glue3, glue5, same, texts};

verus! {

pub open spec fn unbind_path(root: Seq<char>, addr: Seq<char>) -> Seq<char> {
    joined_path(device_dir(root, addr), "driver/unbind"@)
}

pub open spec fn override_path(root: Seq<char>, addr: Seq<char>) -> Seq<char> {
    joined_path(device_dir(root, addr), "driver_override"@)
}

pub open spec fn bind_path(root: Seq<char>, driver: Seq<char>) -> Seq<char> {
    joined_path(driver_dir(root, driver), "bind"@)
}

/// The failure `what` at `path`, with the advice for refused permissions.
pub open spec fn write_fault(e: FaultView, what: Seq<char>, path: Seq<char>) -> FaultView {
    FaultView { kind: e.kind, message: what + path + root_hint(e.kind) }
}

pub open spec fn vfio_bind_fault(e: FaultView, path: Seq<char>) -> FaultView {
    FaultView {
        kind: e.kind,
        message: "Failed to bind to vfio-pci at "@ + path + root_hint(e.kind)
            + " — is the vfio-pci module loaded?"@,
    }
}

/// Hands a device back to the driver that it was taken from. A failure is
/// not reported: a failure is already being reported.
pub open spec fn give_back_run(
    t: SysfsTranscript,
    root: Seq<char>,
    addr: Seq<char>,
    driver: Option<Seq<char>>,
) -> SysfsTranscript {
    match driver {
        Some(name) => write_run(t, root, bind_path(root, name), addr).0,
        None => t,
    }
}

/// Binds a device that is on no driver any more, where `driver` is the one it
/// was on. Where a step fails, the steps before it are taken back.
pub open spec fn take_run(
    t: SysfsTranscript,
    root: Seq<char>,
    addr: Seq<char>,
    driver: Option<Seq<char>>,
) -> (SysfsTranscript, Result<Seq<char>, FaultView>) {
    let over = override_path(root, addr);
    let (t, w) = write_run(t, root, over, VFIO_DRIVER@);
    match w {
        Err(e) => {
            let t = give_back_run(t, root, addr, driver);
            (t, Err(write_fault(e, "Failed to write driver_override at "@, over)))
        },
        Ok(_) => {
            let bind = bind_path(root, VFIO_DRIVER@);
            let (t, w) = write_run(t, root, bind, addr);
            match w {
                Err(e) => {
                    let t = t.ask(SysfsRequestView::WriteFile { path: over, data: Seq::empty() });
                    let t = give_back_run(t, root, addr, driver);
                    (t, Err(vfio_bind_fault(e, bind)))
                },
                Ok(_) => (
                    t,
                    Ok(
                        match driver {
                            Some(name) => name,
                            None => Seq::empty(),
                        },
                    ),
                ),
            }
        },
    }
}

/// Binds the device at `addr` to the passthrough driver and gives the driver
/// that it was on before, empty for none. A device that is there already is
/// left alone.
pub open spec fn bind_run(t: SysfsTranscript, root: Seq<char>, addr: Seq<char>) -> (
    SysfsTranscript,
    Result<Seq<char>, FaultView>,
) {
    if !is_pci_addr(addr) {
        (t, Err(bad_pci_addr(addr)))
    } else {
        let (t, driver) = current_driver_run(t, root, addr);
        if driver == Some(VFIO_DRIVER@) {
            (t, Ok(VFIO_DRIVER@))
        } else if driver is None {
            take_run(t, root, addr, driver)
        } else {
            let unbind = unbind_path(root, addr);
            let (t, w) = write_run(t, root, unbind, addr);
            match w {
                Err(e) => (t, Err(write_fault(e, "Failed to unbind device at "@, unbind))),
                Ok(_) => take_run(t, root, addr, driver),
            }
        }
    }
}

fn write_fault_of(e: &Fault, what: &str, path: &str) -> (f: Fault)
    ensures
        f@ == write_fault(e@, what@, path@),
{
    let hint = root_hint_text(e.kind);
    Fault::new(e.kind, glue3(what, path, hint.as_str()))
}

fn give_back(sysfs: &SysfsRoot, d: &mut SysfsDialogue, pci_addr: &str, driver: &Option<String>)
    ensures
        final(d)@ == give_back_run(old(d)@, sysfs@, pci_addr@, name_view(*driver)),
{
    match driver {
        Some(name) => {
            let dir = sysfs.sys_bus_pci_drivers(name.as_str());
            let bind = join_path(dir.as_str(), "bind");
            let _ = sysfs.write_sysfs(d, bind.as_str(), pci_addr);
        },
        None => {},
    }
}

fn take(sysfs: &SysfsRoot, d: &mut SysfsDialogue, pci_addr: &str, driver: Option<String>) -> (r:
    Option<Result<String, Fault>>)
    requires
        old(d)@.live(),
    ensures
        final(d)@ == take_run(old(d)@, sysfs@, pci_addr@, name_view(driver)).0,
        r is Some <==> final(d)@.live(),
        r is Some ==> text_outcome(r->0) == take_run(
            old(d)@,
            sysfs@,
            pci_addr@,
            name_view(driver),
        ).1,
{
    let dev = sysfs.device(pci_addr);
    let over = join_path(dev.as_str(), "driver_override");
    match sysfs.write_sysfs(d, over.as_str(), VFIO_DRIVER)? {
        Err(e) => {
            give_back(sysfs, d, pci_addr, &driver);
            if !d.is_live() {
                return None;
            }
            return Some(
                Err(write_fault_of(&e, "Failed to write driver_override at ", over.as_str())),
            );
        },
        Ok(()) => {},
    }
    let vfio = sysfs.sys_bus_pci_drivers(VFIO_DRIVER);
    let bind = join_path(vfio.as_str(), "bind");
    match sysfs.write_sysfs(d, bind.as_str(), pci_addr)? {
        Err(e) => {
            let cleared = String::new();
            assert(cleared@ == Seq::<char>::empty());
            let _ = ask(d, SysfsRequest::WriteFile { path: over, data: cleared });
            give_back(sysfs, d, pci_addr, &driver);
            if !d.is_live() {
                return None;
            }
            let hint = root_hint_text(e.kind);
            let head = glue3("Failed to bind to vfio-pci at ", bind.as_str(), hint.as_str());
            let mut message = head;
            message.append(" — is the vfio-pci module loaded?");
            return Some(Err(Fault::new(e.kind, message)));
        },
        Ok(()) => {},
    }
    match driver {
        Some(name) => Some(Ok(name)),
        None => Some(Ok(String::new())),
    }
}

/// Binds the device to the passthrough driver and returns the driver that it
/// was on before, empty for none.
///
/// Every `unbind` and `bind` of a driver is written under the time limit of
/// [`SysfsRoot::write_sysfs`], since a driver can block such a write for ever.
pub fn bind_gpu_to_vfio(sysfs: &SysfsRoot, d: &mut SysfsDialogue, pci_addr: &str) -> (r: Option<
    Result<String, Fault>,
>)
    ensures
        final(d)@ == bind_run(old(d)@, sysfs@, pci_addr@).0,
        r is Some <==> final(d)@.live(),
        r is Some ==> text_outcome(r->0) == bind_run(old(d)@, sysfs@, pci_addr@).1,
{
    if !d.is_live() {
        return None;
    }
    match validate_pci_addr(pci_addr) {
        Err(e) => {
            return Some(Err(e));
        },
        Ok(()) => {},
    }
    let driver = current_driver(sysfs, d, pci_addr)?;
    if is_vfio(&driver) {
        return Some(Ok(VFIO_DRIVER.to_owned()));
    }
    if driver.is_some() {
        let dev = sysfs.device(pci_addr);
        let unbind = join_path(dev.as_str(), "driver/unbind");
        match sysfs.write_sysfs(d, unbind.as_str(), pci_addr)? {
            Err(e) => {
                return Some(
                    Err(write_fault_of(&e, "Failed to unbind device at ", unbind.as_str())),
                );
            },
            Ok(()) => {},
        }
    }
    take(sysfs, d, pci_addr, driver)
}

/// The device had no driver to go back to.
pub open spec fn no_driver(original: Seq<char>) -> bool {
    original.len() == 0 || original == "none"@
}

/// The end of [`rebind_run`]: clears the override and binds the device to
/// `original`, or lets the kernel look for a driver.
pub open spec fn reassign_run(
    t: SysfsTranscript,
    root: Seq<char>,
    addr: Seq<char>,
    original: Seq<char>,
) -> (SysfsTranscript, Result<(), FaultView>) {
    let over = override_path(root, addr);
    let (t, w) = write_run(t, root, over, Seq::empty());
    match w {
        Err(e) => (t, Err(write_fault(e, "Failed to clear driver_override at "@, over))),
        Ok(_) => {
            if no_driver(original) {
                let t = t.ask(
                    SysfsRequestView::WriteFile {
                        path: joined_path(root, "sys/bus/pci/rescan"@),
                        data: "1"@,
                    },
                );
                (t, Ok(()))
            } else {
                let bind = bind_path(root, original);
                let (t, w) = write_run(t, root, bind, addr);
                match w {
                    Err(e) => (
                        t,
                        Err(
                            FaultView {
                                kind: e.kind,
                                message: "Failed to rebind to "@ + original + " at "@ + bind
                                    + root_hint(e.kind),
                            },
                        ),
                    ),
                    Ok(_) => (t, Ok(())),
                }
            }
        },
    }
}

/// Moves the device at `addr` back to the driver `original`.
pub open spec fn rebind_run(
    t: SysfsTranscript,
    root: Seq<char>,
    addr: Seq<char>,
    original: Seq<char>,
) -> (SysfsTranscript, Result<(), FaultView>) {
    if !is_pci_addr(addr) {
        (t, Err(bad_pci_addr(addr)))
    } else {
        let (t, driver) = current_driver_run(t, root, addr);
        if driver is None {
            reassign_run(t, root, addr, original)
        } else {
            let unbind = unbind_path(root, addr);
            let (t, w) = write_run(t, root, unbind, addr);
            match w {
                Err(e) => (t, Err(write_fault(e, "Failed to unbind device at "@, unbind))),
                Ok(_) => reassign_run(t, root, addr, original),
            }
        }
    }
}

fn reassign(
    sysfs: &SysfsRoot,
    d: &mut SysfsDialogue,
    pci_addr: &str,
    original_driver: &str,
) -> (r: Option<Result<(), Fault>>)
    requires
        old(d)@.live(),
    ensures
        final(d)@ == reassign_run(old(d)@, sysfs@, pci_addr@, original_driver@).0,
        r is Some <==> final(d)@.live(),
        r is Some ==> outcome(r->0) == reassign_run(
            old(d)@,
            sysfs@,
            pci_addr@,
            original_driver@,
        ).1,
{
    let dev = sysfs.device(pci_addr);
    let over = join_path(dev.as_str(), "driver_override");
    let cleared = String::new();
    match sysfs.write_sysfs(d, over.as_str(), cleared.as_str())? {
        Err(e) => {
            return Some(
                Err(write_fault_of(&e, "Failed to clear driver_override at ", over.as_str())),
            );
        },
        Ok(()) => {},
    }
    if original_driver.is_empty() || same(original_driver, "none") {
        let rescan = join_path(sysfs.0.as_str(), "sys/bus/pci/rescan");
        let _ = ask(d, SysfsRequest::WriteFile { path: rescan, data: "1".to_owned() })?;
        return Some(Ok(()));
    }
    let dir = sysfs.sys_bus_pci_drivers(original_driver);
    let bind = join_path(dir.as_str(), "bind");
    match sysfs.write_sysfs(d, bind.as_str(), pci_addr)? {
        Err(e) => {
            let hint = root_hint_text(e.kind);
            let message = glue5(
                "Failed to rebind to ",
                original_driver,
                " at ",
                bind.as_str(),
                hint.as_str(),
            );
            Some(Err(Fault::new(e.kind, message)))
        },
        Ok(()) => Some(Ok(())),
    }
}

/// Moves the device back to the driver that it was on before it was bound.
pub fn rebind_gpu_to_original(
    sysfs: &SysfsRoot,
    d: &mut SysfsDialogue,
    pci_addr: &str,
    original_driver: &str,
) -> (r: Option<Result<(), Fault>>)
    ensures
        final(d)@ == rebind_run(old(d)@, sysfs@, pci_addr@, original_driver@).0,
        r is Some <==> final(d)@.live(),
        r is Some ==> outcome(r->0) == rebind_run(
            old(d)@,
            sysfs@,
            pci_addr@,
            original_driver@,
        ).1,
{
    if !d.is_live() {
        return None;
    }
    match validate_pci_addr(pci_addr) {
        Err(e) => {
            return Some(Err(e));
        },
        Ok(()) => {},
    }
    let driver = current_driver(sysfs, d, pci_addr)?;
    if driver.is_some() {
        let dev = sysfs.device(pci_addr);
        let unbind = join_path(dev.as_str(), "driver/unbind");
        match sysfs.write_sysfs(d, unbind.as_str(), pci_addr)? {
            Err(e) => {
                return Some(
                    Err(write_fault_of(&e, "Failed to unbind device at ", unbind.as_str())),
                );
            },
            Ok(()) => {},
        }
    }
    reassign(sysfs, d, pci_addr, original_driver)
}

/// A list of devices with a driver for each, by their characters.
pub open spec fn pair_views(v: Seq<(String, String)>) -> Seq<(Seq<char>, Seq<char>)> {
    v.map_values(|p: (String, String)| (p.0@, p.1@))
}

/// Moves the devices `peers[i..]` back to their drivers, all of them, and gives
/// the first failure, where `first` is the first one so far.
pub open spec fn rebind_peers_run(
    t: SysfsTranscript,
    root: Seq<char>,
    peers: Seq<(Seq<char>, Seq<char>)>,
    i: nat,
    first: Option<FaultView>,
) -> (SysfsTranscript, Result<(), FaultView>)
    decreases peers.len() - i,
{
    if i >= peers.len() {
        (
            t,
            match first {
                Some(e) => Err(e),
                None => Ok(()),
            },
        )
    } else {
        let (t, r) = rebind_run(t, root, peers[i as int].0, peers[i as int].1);
        match (first, r) {
            (None, Err(e)) => rebind_peers_run(t, root, peers, i + 1, Some(e)),
            _ => rebind_peers_run(t, root, peers, i + 1, first),
        }
    }
}

pub proof fn lemma_rebind_peers_wait(
    t: SysfsTranscript,
    root: Seq<char>,
    peers: Seq<(Seq<char>, Seq<char>)>,
    i: nat,
    first: Option<FaultView>,
)
    ensures
        !t.live() ==> rebind_peers_run(t, root, peers, i, first).0 == t,
    decreases peers.len() - i,
{
    if !t.live() && i < peers.len() {
        let r = rebind_run(t, root, peers[i as int].0, peers[i as int].1).1;
        match (first, r) {
            (None, Err(e)) => {
                lemma_rebind_peers_wait(t, root, peers, i + 1, Some(e));
            },
            _ => {
                lemma_rebind_peers_wait(t, root, peers, i + 1, first);
            },
        }
    }
}

/// The failure of a group whose device `peer` could not be bound after `undone`
/// devices had been.
pub open spec fn peer_fault(e: FaultView, peer: Seq<char>, undone: nat) -> FaultView {
    FaultView {
        kind: e.kind,
        message: "Failed to bind IOMMU peer "@ + peer + ": "@ + e.message + ". Rolled back "@
            + decimal(undone) + " peer(s)."@,
    }
}

/// Binds the devices `peers[i..]`, where `done` lists those bound so far with
/// the drivers they were on. Where one fails, those are moved back.
pub open spec fn bind_each_run(
    t: SysfsTranscript,
    root: Seq<char>,
    peers: Seq<Seq<char>>,
    i: nat,
    done: Seq<(Seq<char>, Seq<char>)>,
) -> (SysfsTranscript, Result<Seq<(Seq<char>, Seq<char>)>, FaultView>)
    decreases peers.len() - i,
{
    if i >= peers.len() {
        (t, Ok(done))
    } else {
        let (t, r) = bind_run(t, root, peers[i as int]);
        match r {
            Ok(original) => if original == VFIO_DRIVER@ {
                bind_each_run(t, root, peers, i + 1, done)
            } else {
                bind_each_run(t, root, peers, i + 1, done.push((peers[i as int], original)))
            },
            Err(e) => (
                rebind_peers_run(t, root, done, 0, None).0,
                Err(peer_fault(e, peers[i as int], done.len())),
            ),
        }
    }
}

pub open spec fn bind_peers_run(t: SysfsTranscript, root: Seq<char>, addr: Seq<char>) -> (
    SysfsTranscript,
    Result<Seq<(Seq<char>, Seq<char>)>, FaultView>,
) {
    let (t, peers) = peers_run(t, root, addr);
    match peers {
        Ok(peers) => bind_each_run(t, root, peers, 0, Seq::empty()),
        Err(e) => (t, Err(e)),
    }
}

/// Moves every listed device back to its driver. All are tried; the first
/// failure is returned.
pub fn rebind_iommu_group_peers(
    sysfs: &SysfsRoot,
    d: &mut SysfsDialogue,
    peers: &Vec<(String, String)>,
) -> (r: Option<Result<(), Fault>>)
    ensures
        final(d)@ == rebind_peers_run(old(d)@, sysfs@, pair_views(peers@), 0, None).0,
        r is Some <==> final(d)@.live(),
        r is Some ==> outcome(r->0) == rebind_peers_run(
            old(d)@,
            sysfs@,
            pair_views(peers@),
            0,
            None,
        ).1,
{
    let ghost listed = pair_views(peers@);
    if !d.is_live() {
        proof {
            lemma_rebind_peers_wait(d@, sysfs@, listed, 0, None);
        }
        return None;
    }
    let mut first: Option<Fault> = None;
    let ghost mut first_view: Option<FaultView> = None;
    let mut i: usize = 0;
    while i < peers.len()
        invariant
            i <= peers@.len(),
            listed == pair_views(peers@),
            d@.live(),
            match first {
                Some(e) => first_view == Some(e@),
                None => first_view is None,
            },
            rebind_peers_run(d@, sysfs@, listed, i as nat, first_view) == rebind_peers_run(
                old(d)@,
                sysfs@,
                listed,
                0,
                None,
            ),
        decreases peers.len() - i,
    {
        let ghost at = d@;
        match rebind_gpu_to_original(sysfs, d, peers[i].0.as_str(), peers[i].1.as_str()) {
            Some(Err(e)) => {
                if first.is_none() {
                    proof {
                        first_view = Some(e@);
                    }
                    first = Some(e);
                }
            },
            Some(Ok(())) => {},
            None => {
                proof {
                    let r = rebind_run(at, sysfs@, listed[i as int].0, listed[i as int].1).1;
                    let next = match (first_view, r) {
                        (None, Err(e)) => Some(e),
                        _ => first_view,
                    };
                    lemma_rebind_peers_wait(d@, sysfs@, listed, (i + 1) as nat, next);
                }
                return None;
            },
        }
        i = i + 1;
    }
    match first {
        Some(e) => Some(Err(e)),
        None => Some(Ok(())),
    }
}

/// Binds all other devices of the IOMMU group, and returns those that were on
/// another driver with that driver. Where one fails, those already bound are
/// moved back.
pub fn bind_iommu_group_peers(sysfs: &SysfsRoot, d: &mut SysfsDialogue, pci_addr: &str) -> (r:
    Option<Result<Vec<(String, String)>, Fault>>)
    ensures
        final(d)@ == bind_peers_run(old(d)@, sysfs@, pci_addr@).0,
        r is Some <==> final(d)@.live(),
        r is Some ==> match r->0 {
            Ok(v) => bind_peers_run(old(d)@, sysfs@, pci_addr@).1 == Ok::<_, FaultView>(
                pair_views(v@),
            ),
            Err(e) => bind_peers_run(old(d)@, sysfs@, pci_addr@).1 == Err::<
                Seq<(Seq<char>, Seq<char>)>,
                _,
            >(e@),
        },
{
    let peers = match iommu_group_peers(sysfs, d, pci_addr)? {
        Ok(peers) => peers,
        Err(e) => {
            return Some(Err(e));
        },
    };
    let ghost names = texts(peers@);
    let mut bound: Vec<(String, String)> = Vec::new();
    assert(pair_views(bound@) =~= Seq::empty());
    let mut i: usize = 0;
    while i < peers.len()
        invariant
            i <= peers@.len(),
            names == texts(peers@),
            bound@.len() <= i,
            d@.live(),
            bind_each_run(d@, sysfs@, names, i as nat, pair_views(bound@)) == bind_peers_run(
                old(d)@,
                sysfs@,
                pci_addr@,
            ),
        decreases peers.len() - i,
    {
        let ghost done = pair_views(bound@);
        let ghost at = d@;
        match bind_gpu_to_vfio(sysfs, d, peers[i].as_str()) {
            Some(Ok(original)) => {
                if !same(original.as_str(), VFIO_DRIVER) {
                    let pair = (peers[i].clone(), original);
                    bound.push(pair);
                    assert(pair_views(bound@) =~= done.push((pair.0@, pair.1@)));
                }
            },
            Some(Err(e)) => {
                let _ = rebind_iommu_group_peers(sysfs, d, &bound)?;
                let count = decimal_text(bound.len() as u64);
                let mut message = glue5(
                    "Failed to bind IOMMU peer ",
                    peers[i].as_str(),
                    ": ",
                    e.message.as_str(),
                    ". Rolled back ",
                );
                message.append(count.as_str());
                message.append(" peer(s).");
                return Some(Err(Fault::new(e.kind, message)));
            },
            None => {
                proof {
                    lemma_rebind_peers_wait(d@, sysfs@, done, 0, None);
                }
                return None;
            },
        }
        i = i + 1;
    }
    Some(Ok(bound))
}

/// How a GPU was bound, as needed to move it back.
#[derive(Debug)]
pub struct GpuBindState {
    /// PCI address of the GPU.
    pub pci_addr: String,
    /// Driver that the GPU was on before, such as `nvidia`; empty for none.
    pub original_driver: String,
    /// Other devices of the IOMMU group that were bound, with their drivers.
    pub peer_binds: Vec<(String, String)>,
    /// Whether the GPU itself was bound: not where it was already on `vfio-pci`.
    pub did_bind: bool,
}

/// The view of a [`GpuBindState`].
#[verifier::ext_equal]
pub struct BindView {
    pub pci_addr: Seq<char>,
    pub original_driver: Seq<char>,
    pub peer_binds: Seq<(Seq<char>, Seq<char>)>,
    pub did_bind: bool,
}

impl View for GpuBindState {
    type V = BindView;

    open spec fn view(&self) -> BindView {
        BindView {
            pci_addr: self.pci_addr@,
            original_driver: self.original_driver@,
            peer_binds: pair_views(self.peer_binds@),
            did_bind: self.did_bind,
        }
    }
}

/// Moves a GPU that was bound back first, and where that succeeded, the rest of its
/// group that was.
pub open spec fn restore_run(t: SysfsTranscript, root: Seq<char>, state: BindView) -> (
    SysfsTranscript,
    Result<(), FaultView>,
) {
    if !state.did_bind {
        rebind_peers_run(t, root, state.peer_binds, 0, None)
    } else {
        let (t, r) = rebind_run(t, root, state.pci_addr, state.original_driver);
        match r {
            Ok(_) => rebind_peers_run(t, root, state.peer_binds, 0, None),
            Err(e) => (t, Err(e)),
        }
    }
}

impl GpuBindState {
    /// Moves the GPU and its group back to their drivers on this host.
    pub fn restore(&self, d: &mut SysfsDialogue) -> (r: Option<Result<(), Fault>>)
        ensures
            final(d)@ == restore_run(old(d)@, "/"@, self@).0,
            r is Some <==> final(d)@.live(),
            r is Some ==> outcome(r->0) == restore_run(old(d)@, "/"@, self@).1,
    {
        self.restore_with_sysfs(&SysfsRoot::default(), d)
    }

    /// Moves the GPU and its group back to their drivers.
    pub fn restore_with_sysfs(&self, sysfs: &SysfsRoot, d: &mut SysfsDialogue) -> (r: Option<
        Result<(), Fault>,
    >)
        ensures
            final(d)@ == restore_run(old(d)@, sysfs@, self@).0,
            r is Some <==> final(d)@.live(),
            r is Some ==> outcome(r->0) == restore_run(old(d)@, sysfs@, self@).1,
    {
        if !d.is_live() {
            proof {
                lemma_rebind_peers_wait(d@, sysfs@, self@.peer_binds, 0, None);
            }
            return None;
        }
        if !self.did_bind {
            return rebind_iommu_group_peers(sysfs, d, &self.peer_binds);
        }
        match rebind_gpu_to_original(
            sysfs,
            d,
            self.pci_addr.as_str(),
            self.original_driver.as_str(),
        ) {
            Some(Ok(())) => rebind_iommu_group_peers(sysfs, d, &self.peer_binds),
            Some(Err(e)) => Some(Err(e)),
            None => {
                proof {
                    lemma_rebind_peers_wait(d@, sysfs@, self@.peer_binds, 0, None);
                }
                None
            },
        }
    }
}

/// Holds a bind state until it is restored or taken out.
pub struct GpuBindGuard {
    state: Option<GpuBindState>,
}

impl View for GpuBindGuard {
    type V = Option<GpuBindState>;

    closed spec fn view(&self) -> Option<GpuBindState> {
        self.state
    }
}

/// What the end of a guard does: it restores the state that the guard holds.
pub open spec fn release_run(t: SysfsTranscript, root: Seq<char>, held: Option<GpuBindState>) -> (
    SysfsTranscript,
    Result<(), FaultView>,
) {
    match held {
        Some(state) => restore_run(t, root, state@),
        None => (t, Ok(())),
    }
}

impl GpuBindGuard {
    pub fn new(state: GpuBindState) -> (g: GpuBindGuard)
        ensures
            g@ == Some(state),
    {
        GpuBindGuard { state: Some(state) }
    }

    /// Takes the state out. Afterwards there is nothing left to restore.
    pub fn disarm(&mut self) -> (r: Option<GpuBindState>)
        ensures
            r == old(self)@,
            final(self)@ is None,
    {
        self.state.take()
    }

    /// PCI address of the GPU that the guard holds, if any.
    pub fn pci_addr(&self) -> (r: Option<&str>)
        ensures
            match self@ {
                Some(state) => r is Some && r->0@ == state.pci_addr@,
                None => r is None,
            },
    {
        match &self.state {
            Some(state) => Some(state.pci_addr.as_str()),
            None => None,
        }
    }

    /// Restores the state that the guard holds, as the end of the guard does.
    pub fn release(&self, d: &mut SysfsDialogue) -> (r: Option<Result<(), Fault>>)
        ensures
            final(d)@ == release_run(old(d)@, "/"@, self@).0,
            r is Some <==> final(d)@.live(),
            r is Some ==> outcome(r->0) == release_run(old(d)@, "/"@, self@).1,
    {
        match &self.state {
            Some(state) => state.restore(d),
            None => if d.is_live() {
                Some(Ok(()))
            } else {
                None
            },
        }
    }
}

} // verus!
