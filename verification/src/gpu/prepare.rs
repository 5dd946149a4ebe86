//! Choosing a GPU, checking that it may be taken, and binding it.

use vstd::prelude::*;

use crate::fault::{Fault, FaultKind, FaultView};
use crate::gpu::bind::{
    bind_gpu_to_vfio, bind_iommu_group_peers, bind_peers_run, bind_run, rebind_gpu_to_original,
    rebind_run, BindView, GpuBindState,
};
use crate::gpu::checks::{
    bad_pci_addr, check_active_gpu_processes, check_display_attached, check_iommu_enabled,
    check_sysfs_permissions, check_vfio_modules_loaded, current_driver, current_driver_run,
    dirty_group_peers, dirty_group_run, display_run, gpu_processes_run, group_clean_run, iommu_run,
    is_iommu_group_clean, is_pci_addr, is_vfio, modules_run, name_view, permissions_run,
    process_views, validate_pci_addr, VFIO_DRIVER,
};
use crate::gpu::obstacle::{
    all_blocked, blockage_view, blocked_report, blocked_views, copy_processes, obstacle_view,
    Blockage, BlockageView, Blocked, Obstacle, ObstacleView,
};
use crate::gpu::probe::{attribute_run, read_attribute, str_view, NVIDIA_VENDOR_ID};
use crate::order::{in_order, sorted_texts};
use crate::sysfs::{
    answer, ask, device_dir, devices_dir, SysfsDialogue, SysfsRequest, SysfsRequestView, SysfsRoot,
    SysfsTranscript,
};
use crate::text::{glue3, glue4, glue5, same, starts_with, texts};

verus! {

/// What a preparation ends in.
pub type Prepared = Result<BindView, FaultView>;

/// What a preparation ended in, by its view.
pub open spec fn prepared(r: Result<GpuBindState, Fault>) -> Prepared {
    match r {
        Ok(state) => Ok(state@),
        Err(e) => Err(e@),
    }
}

/// The state of a GPU that is ready as it is.
pub open spec fn ready_state(addr: Seq<char>) -> BindView {
    BindView {
        pci_addr: addr,
        original_driver: VFIO_DRIVER@,
        peer_binds: Seq::empty(),
        did_bind: false,
    }
}

fn ready(addr: &str) -> (s: GpuBindState)
    ensures
        s@ == ready_state(addr@),
{
    let s = GpuBindState {
        pci_addr: addr.to_owned(),
        original_driver: VFIO_DRIVER.to_owned(),
        peer_binds: Vec::new(),
        did_bind: false,
    };
    assert(s@ =~= ready_state(addr@));
    s
}

/// Whether the GPU is on the passthrough driver together with all of its group.
pub open spec fn is_ready_run(t: SysfsTranscript, root: Seq<char>, addr: Seq<char>) -> (
    SysfsTranscript,
    bool,
) {
    let (t, driver) = current_driver_run(t, root, addr);
    if driver == Some(VFIO_DRIVER@) {
        group_clean_run(t, root, addr)
    } else {
        (t, false)
    }
}

fn is_ready(sysfs: &SysfsRoot, d: &mut SysfsDialogue, addr: &str) -> (r: Option<bool>)
    ensures
        final(d)@ == is_ready_run(old(d)@, sysfs@, addr@).0,
        r is Some <==> final(d)@.live(),
        r is Some ==> r->0 == is_ready_run(old(d)@, sysfs@, addr@).1,
{
    let driver = current_driver(sysfs, d, addr)?;
    if is_vfio(&driver) {
        is_iommu_group_clean(sysfs, d, addr)
    } else {
        Some(false)
    }
}

/// Binds a GPU that passed all checks and then its group. Where the group
/// fails, the GPU is moved back.
pub open spec fn claim_run(t: SysfsTranscript, root: Seq<char>, addr: Seq<char>) -> (
    SysfsTranscript,
    Prepared,
) {
    let (t, bound) = bind_run(t, root, addr);
    match bound {
        Err(e) => (t, Err(e)),
        Ok(original) => {
            let (t, peers) = bind_peers_run(t, root, addr);
            match peers {
                Ok(peer_binds) => (
                    t,
                    Ok(
                        BindView {
                            pci_addr: addr,
                            original_driver: original,
                            peer_binds,
                            did_bind: original != VFIO_DRIVER@,
                        },
                    ),
                ),
                Err(e) => (rebind_run(t, root, addr, original).0, Err(e)),
            }
        },
    }
}

fn claim(sysfs: &SysfsRoot, d: &mut SysfsDialogue, addr: &str) -> (r: Option<
    Result<GpuBindState, Fault>,
>)
    ensures
        final(d)@ == claim_run(old(d)@, sysfs@, addr@).0,
        r is Some <==> final(d)@.live(),
        r is Some ==> prepared(r->0) == claim_run(old(d)@, sysfs@, addr@).1,
{
    let original_driver = match bind_gpu_to_vfio(sysfs, d, addr) {
        Some(Ok(driver)) => driver,
        Some(Err(e)) => {
            return Some(Err(e));
        },
        None => {
            return None;
        },
    };
    match bind_iommu_group_peers(sysfs, d, addr) {
        Some(Ok(peer_binds)) => {
            let did_bind = !same(original_driver.as_str(), VFIO_DRIVER);
            let pci_addr = addr.to_owned();
            Some(Ok(GpuBindState { pci_addr, original_driver, peer_binds, did_bind }))
        },
        Some(Err(e)) => {
            let _ = rebind_gpu_to_original(sysfs, d, addr, original_driver.as_str())?;
            Some(Err(e))
        },
        None => None,
    }
}

/// The processes that a check found. A check that failed found none.
pub open spec fn found_processes(r: Result<Seq<(u32, Seq<char>)>, FaultView>) -> Seq<
    (u32, Seq<char>),
> {
    match r {
        Ok(found) => found,
        Err(_) => Seq::empty(),
    }
}

fn found_by_check(d: &mut SysfsDialogue) -> (r: Option<Vec<(u32, String)>>)
    ensures
        final(d)@ == gpu_processes_run(old(d)@).0,
        r is Some <==> final(d)@.live(),
        r is Some ==> process_views(r->0@) == found_processes(gpu_processes_run(old(d)@).1),
{
    match check_active_gpu_processes(d)? {
        Ok(found) => Some(found),
        Err(_) => {
            let none: Vec<(u32, String)> = Vec::new();
            assert(process_views(none@) =~= Seq::empty());
            Some(none)
        },
    }
}

/// What stands in the way of a GPU that was asked for by its address: the first check
/// that fails.
pub open spec fn refusal_run(t: SysfsTranscript, root: Seq<char>, addr: Seq<char>) -> (
    SysfsTranscript,
    Option<ObstacleView>,
) {
    let (t, attached) = display_run(t, root, addr);
    if attached {
        (t, Some(ObstacleView::Display))
    } else {
        let (t, users) = gpu_processes_run(t);
        if found_processes(users).len() > 0 {
            (t, Some(ObstacleView::InUse { users: found_processes(users) }))
        } else {
            let (t, iommu) = iommu_run(t, root, addr);
            if !iommu {
                (t, Some(ObstacleView::NoIommu))
            } else {
                let (t, modules) = modules_run(t, root);
                if !modules {
                    (t, Some(ObstacleView::NoModules))
                } else {
                    let (t, allowed) = permissions_run(t, root, addr);
                    if !allowed {
                        (t, Some(ObstacleView::NoPermission))
                    } else {
                        (t, None)
                    }
                }
            }
        }
    }
}

fn refusal(sysfs: &SysfsRoot, d: &mut SysfsDialogue, addr: &str) -> (r: Option<Option<Obstacle>>)
    ensures
        final(d)@ == refusal_run(old(d)@, sysfs@, addr@).0,
        r is Some <==> final(d)@.live(),
        r is Some ==> obstacle_view(r->0) == refusal_run(old(d)@, sysfs@, addr@).1,
{
    if check_display_attached(sysfs, d, addr)? {
        return Some(Some(Obstacle::Display));
    }
    let users = found_by_check(d)?;
    assert(process_views(users@).len() == users@.len());
    if users.len() > 0 {
        return Some(Some(Obstacle::InUse { users }));
    }
    if !check_iommu_enabled(sysfs, d, addr)? {
        return Some(Some(Obstacle::NoIommu));
    }
    if !check_vfio_modules_loaded(sysfs, d)? {
        return Some(Some(Obstacle::NoModules));
    }
    if !check_sysfs_permissions(sysfs, d, addr)? {
        return Some(Some(Obstacle::NoPermission));
    }
    Some(None)
}

/// An attribute that could not be read counts as empty.
pub open spec fn value_or_empty(v: Option<Seq<char>>) -> Seq<char> {
    match v {
        Some(text) => text,
        None => Seq::empty(),
    }
}

/// Prepares the GPU at `addr`: it has to be an NVIDIA GPU of the host, and either
/// ready as it is or safe to take.
pub open spec fn specific_run(t: SysfsTranscript, root: Seq<char>, addr: Seq<char>) -> (
    SysfsTranscript,
    Prepared,
) {
    if !is_pci_addr(addr) {
        (t, Err(bad_pci_addr(addr)))
    } else {
        let dev = device_dir(root, addr);
        let t = t.ask(SysfsRequestView::Exists { path: dev });
        if !answer(t).ok {
            (
                t,
                Err(
                    FaultView {
                        kind: FaultKind::NotFound,
                        message: "PCI device "@ + addr + " not found in sysfs"@,
                    },
                ),
            )
        } else {
            let (t, vendor) = attribute_run(t, dev, "vendor"@);
            if value_or_empty(vendor) != NVIDIA_VENDOR_ID@ {
                (
                    t,
                    Err(
                        FaultView {
                            kind: FaultKind::InvalidInput,
                            message: "PCI device "@ + addr + " is not an NVIDIA device (vendor: "@
                                + value_or_empty(vendor) + ")"@,
                        },
                    ),
                )
            } else {
                let (t, class) = attribute_run(t, dev, "class"@);
                if !"0x03"@.is_prefix_of(value_or_empty(class)) {
                    (
                        t,
                        Err(
                            FaultView {
                                kind: FaultKind::InvalidInput,
                                message: "PCI device "@ + addr + " is not a GPU (class: "@
                                    + value_or_empty(class) + ")"@,
                            },
                        ),
                    )
                } else {
                    let (t, is_ready) = is_ready_run(t, root, addr);
                    if is_ready {
                        (t, Ok(ready_state(addr)))
                    } else {
                        let (t, refused) = refusal_run(t, root, addr);
                        match refused {
                            Some(obstacle) => (t, Err(obstacle.refusal(addr))),
                            None => claim_run(t, root, addr),
                        }
                    }
                }
            }
        }
    }
}

fn attribute_or_empty(d: &mut SysfsDialogue, dev: &str, name: &str) -> (r: Option<String>)
    ensures
        final(d)@ == attribute_run(old(d)@, dev@, name@).0,
        r is Some <==> final(d)@.live(),
        r is Some ==> r->0@ == value_or_empty(attribute_run(old(d)@, dev@, name@).1),
{
    match read_attribute(d, dev, name)? {
        Some(value) => Some(value),
        None => Some(String::new()),
    }
}

/// Prepares the GPU at the address `bdf`.
pub fn prepare_specific_gpu(sysfs: &SysfsRoot, d: &mut SysfsDialogue, bdf: &str) -> (r: Option<
    Result<GpuBindState, Fault>,
>)
    ensures
        final(d)@ == specific_run(old(d)@, sysfs@, bdf@).0,
        r is Some <==> final(d)@.live(),
        r is Some ==> prepared(r->0) == specific_run(old(d)@, sysfs@, bdf@).1,
{
    if !d.is_live() {
        return None;
    }
    match validate_pci_addr(bdf) {
        Err(e) => {
            return Some(Err(e));
        },
        Ok(()) => {},
    }
    let dev = sysfs.device(bdf);
    let exists = ask(d, SysfsRequest::Exists { path: dev.clone() })?;
    if !exists.ok {
        let message = glue3("PCI device ", bdf, " not found in sysfs");
        return Some(Err(Fault::new(FaultKind::NotFound, message)));
    }
    let vendor = attribute_or_empty(d, dev.as_str(), "vendor")?;
    if !same(vendor.as_str(), NVIDIA_VENDOR_ID) {
        let message = glue5(
            "PCI device ",
            bdf,
            " is not an NVIDIA device (vendor: ",
            vendor.as_str(),
            ")",
        );
        return Some(Err(Fault::new(FaultKind::InvalidInput, message)));
    }
    let class = attribute_or_empty(d, dev.as_str(), "class")?;
    if !starts_with(class.as_str(), "0x03") {
        let message = glue5("PCI device ", bdf, " is not a GPU (class: ", class.as_str(), ")");
        return Some(Err(Fault::new(FaultKind::InvalidInput, message)));
    }
    if is_ready(sysfs, d, bdf)? {
        return Some(Ok(ready(bdf)));
    }
    match refusal(sysfs, d, bdf)? {
        Some(obstacle) => Some(Err(obstacle.refusal(bdf))),
        None => claim(sysfs, d, bdf),
    }
}

/// `found` and, after it, the NVIDIA GPUs among the devices `names[i..]`.
pub open spec fn gpus_run(
    t: SysfsTranscript,
    root: Seq<char>,
    names: Seq<Seq<char>>,
    i: nat,
    found: Seq<Seq<char>>,
) -> (SysfsTranscript, Seq<Seq<char>>)
    decreases names.len() - i,
{
    if i >= names.len() {
        (t, found)
    } else {
        let dev = device_dir(root, names[i as int]);
        let (t, vendor) = attribute_run(t, dev, "vendor"@);
        if vendor is None {
            gpus_run(t, root, names, i + 1, found)
        } else {
            let (t, class) = attribute_run(t, dev, "class"@);
            if class is Some && vendor->0 == NVIDIA_VENDOR_ID@ && "0x03"@.is_prefix_of(class->0) {
                gpus_run(t, root, names, i + 1, found.push(names[i as int]))
            } else {
                gpus_run(t, root, names, i + 1, found)
            }
        }
    }
}

/// The first of `addrs[i..]` that is ready as it is.
pub open spec fn first_ready_run(
    t: SysfsTranscript,
    root: Seq<char>,
    addrs: Seq<Seq<char>>,
    i: nat,
) -> (SysfsTranscript, Option<Seq<char>>)
    decreases addrs.len() - i,
{
    if i >= addrs.len() {
        (t, None)
    } else {
        let (t, is_ready) = is_ready_run(t, root, addrs[i as int]);
        if is_ready {
            (t, Some(addrs[i as int]))
        } else {
            first_ready_run(t, root, addrs, i + 1)
        }
    }
}

/// What stands in the way of the GPU at `addr` while the processes `users` hold NVIDIA
/// devices open: the first check that fails.
pub open spec fn reason_run(
    t: SysfsTranscript,
    root: Seq<char>,
    addr: Seq<char>,
    users: Seq<(u32, Seq<char>)>,
) -> (SysfsTranscript, Option<BlockageView>) {
    let (t, driver) = current_driver_run(t, root, addr);
    if driver == Some(VFIO_DRIVER@) {
        let (t, peers) = dirty_group_run(t, root, addr);
        (t, Some(BlockageView::DirtyGroup { peers }))
    } else {
        let (t, attached) = display_run(t, root, addr);
        if attached {
            (t, Some(BlockageView::Unsafe { obstacle: ObstacleView::Display }))
        } else if users.len() > 0 {
            (t, Some(BlockageView::Unsafe { obstacle: ObstacleView::InUse { users } }))
        } else {
            let (t, iommu) = iommu_run(t, root, addr);
            if !iommu {
                (t, Some(BlockageView::Unsafe { obstacle: ObstacleView::NoIommu }))
            } else {
                let (t, modules) = modules_run(t, root);
                if !modules {
                    (t, Some(BlockageView::Unsafe { obstacle: ObstacleView::NoModules }))
                } else {
                    let (t, allowed) = permissions_run(t, root, addr);
                    if !allowed {
                        (t, Some(BlockageView::Unsafe { obstacle: ObstacleView::NoPermission }))
                    } else {
                        (t, None)
                    }
                }
            }
        }
    }
}

/// Takes the first of `addrs[i..]` that may be taken, where `blocked` lists the
/// ones before with what stands in the way of each.
pub open spec fn first_free_run(
    t: SysfsTranscript,
    root: Seq<char>,
    addrs: Seq<Seq<char>>,
    i: nat,
    users: Seq<(u32, Seq<char>)>,
    blocked: Blocked,
) -> (SysfsTranscript, Prepared)
    decreases addrs.len() - i,
{
    if i >= addrs.len() {
        (t, Err(all_blocked(blocked)))
    } else {
        let (t, reason) = reason_run(t, root, addrs[i as int], users);
        match reason {
            Some(reason) => first_free_run(
                t,
                root,
                addrs,
                i + 1,
                users,
                blocked.push((addrs[i as int], reason)),
            ),
            None => claim_run(t, root, addrs[i as int]),
        }
    }
}

/// Chooses among the GPUs `addrs`: the first that is ready as it is, else the
/// first that may be taken.
pub open spec fn select_run(t: SysfsTranscript, root: Seq<char>, addrs: Seq<Seq<char>>) -> (
    SysfsTranscript,
    Prepared,
) {
    let (t, found) = first_ready_run(t, root, addrs, 0);
    match found {
        Some(addr) => (t, Ok(ready_state(addr))),
        None => {
            let (t, users) = gpu_processes_run(t);
            first_free_run(t, root, addrs, 0, found_processes(users), Seq::empty())
        },
    }
}

/// Prepares a GPU of the host, chosen in the order of the addresses.
pub open spec fn auto_run(t: SysfsTranscript, root: Seq<char>) -> (SysfsTranscript, Prepared) {
    let t = t.ask(SysfsRequestView::ListDir { path: devices_dir(root) });
    if !answer(t).ok {
        (
            t,
            Err(
                FaultView {
                    kind: answer(t).kind,
                    message: "cannot read "@ + devices_dir(root) + ": "@ + answer(t).text,
                },
            ),
        )
    } else {
        let (t, gpus) = gpus_run(t, root, answer(t).names, 0, Seq::empty());
        if gpus.len() == 0 {
            (
                t,
                Err(
                    FaultView {
                        kind: FaultKind::NotFound,
                        message: "no NVIDIA PCI device found"@,
                    },
                ),
            )
        } else {
            select_run(t, root, in_order(gpus))
        }
    }
}

/// Prepares the GPU that was asked for, or one of the host's.
pub open spec fn prepare_run(t: SysfsTranscript, root: Seq<char>, asked: Option<Seq<char>>) -> (
    SysfsTranscript,
    Prepared,
) {
    match asked {
        Some(addr) => specific_run(t, root, addr),
        None => auto_run(t, root),
    }
}

pub proof fn lemma_gpus_wait(
    t: SysfsTranscript,
    root: Seq<char>,
    names: Seq<Seq<char>>,
    i: nat,
    found: Seq<Seq<char>>,
)
    ensures
        !t.live() ==> gpus_run(t, root, names, i, found) == (t, found),
    decreases names.len() - i,
{
    if !t.live() && i < names.len() {
        lemma_gpus_wait(t, root, names, i + 1, found);
    }
}

pub proof fn lemma_first_ready_wait(
    t: SysfsTranscript,
    root: Seq<char>,
    addrs: Seq<Seq<char>>,
    i: nat,
)
    ensures
        !t.live() ==> first_ready_run(t, root, addrs, i) == (t, None::<Seq<char>>),
    decreases addrs.len() - i,
{
    if !t.live() && i < addrs.len() {
        lemma_first_ready_wait(t, root, addrs, i + 1);
    }
}

pub proof fn lemma_first_free_wait(
    t: SysfsTranscript,
    root: Seq<char>,
    addrs: Seq<Seq<char>>,
    i: nat,
    users: Seq<(u32, Seq<char>)>,
    blocked: Blocked,
)
    ensures
        !t.live() ==> first_free_run(t, root, addrs, i, users, blocked).0 == t,
    decreases addrs.len() - i,
{
    if !t.live() && i < addrs.len() {
        match reason_run(t, root, addrs[i as int], users).1 {
            Some(reason) => {
                lemma_first_free_wait(
                    t,
                    root,
                    addrs,
                    i + 1,
                    users,
                    blocked.push((addrs[i as int], reason)),
                );
            },
            None => {},
        }
    }
}

proof fn lemma_select_wait(t: SysfsTranscript, root: Seq<char>, addrs: Seq<Seq<char>>)
    ensures
        !t.live() ==> select_run(t, root, addrs).0 == t,
{
    lemma_first_ready_wait(t, root, addrs, 0);
    let (u, users) = gpu_processes_run(first_ready_run(t, root, addrs, 0).0);
    lemma_first_free_wait(u, root, addrs, 0, found_processes(users), Seq::empty());
}

fn blocking_reason(
    sysfs: &SysfsRoot,
    d: &mut SysfsDialogue,
    addr: &str,
    users: &Vec<(u32, String)>,
) -> (r: Option<Option<Blockage>>)
    ensures
        final(d)@ == reason_run(old(d)@, sysfs@, addr@, process_views(users@)).0,
        r is Some <==> final(d)@.live(),
        r is Some ==> blockage_view(r->0) == reason_run(
            old(d)@,
            sysfs@,
            addr@,
            process_views(users@),
        ).1,
{
    let driver = current_driver(sysfs, d, addr)?;
    if is_vfio(&driver) {
        let peers = dirty_group_peers(sysfs, d, addr)?;
        return Some(Some(Blockage::DirtyGroup { peers }));
    }
    if check_display_attached(sysfs, d, addr)? {
        return Some(Some(Blockage::Unsafe { obstacle: Obstacle::Display }));
    }
    assert(process_views(users@).len() == users@.len());
    if users.len() > 0 {
        let obstacle = Obstacle::InUse { users: copy_processes(users) };
        return Some(Some(Blockage::Unsafe { obstacle }));
    }
    if !check_iommu_enabled(sysfs, d, addr)? {
        return Some(Some(Blockage::Unsafe { obstacle: Obstacle::NoIommu }));
    }
    if !check_vfio_modules_loaded(sysfs, d)? {
        return Some(Some(Blockage::Unsafe { obstacle: Obstacle::NoModules }));
    }
    if !check_sysfs_permissions(sysfs, d, addr)? {
        return Some(Some(Blockage::Unsafe { obstacle: Obstacle::NoPermission }));
    }
    Some(None)
}

fn find_ready(sysfs: &SysfsRoot, d: &mut SysfsDialogue, addrs: &Vec<String>) -> (r: Option<
    Option<String>,
>)
    requires
        old(d)@.live(),
    ensures
        final(d)@ == first_ready_run(old(d)@, sysfs@, texts(addrs@), 0).0,
        r is Some <==> final(d)@.live(),
        r is Some ==> name_view(r->0) == first_ready_run(old(d)@, sysfs@, texts(addrs@), 0).1,
{
    let mut i: usize = 0;
    while i < addrs.len()
        invariant
            i <= addrs@.len(),
            d@.live(),
            first_ready_run(d@, sysfs@, texts(addrs@), i as nat) == first_ready_run(
                old(d)@,
                sysfs@,
                texts(addrs@),
                0,
            ),
        decreases addrs.len() - i,
    {
        match is_ready(sysfs, d, addrs[i].as_str()) {
            Some(true) => {
                return Some(Some(addrs[i].clone()));
            },
            Some(false) => {},
            None => {
                proof {
                    lemma_first_ready_wait(d@, sysfs@, texts(addrs@), (i + 1) as nat);
                }
                return None;
            },
        }
        i = i + 1;
    }
    Some(None)
}

fn take_first_free(
    sysfs: &SysfsRoot,
    d: &mut SysfsDialogue,
    addrs: &Vec<String>,
    users: &Vec<(u32, String)>,
) -> (r: Option<Result<GpuBindState, Fault>>)
    requires
        old(d)@.live(),
    ensures
        final(d)@ == first_free_run(
            old(d)@,
            sysfs@,
            texts(addrs@),
            0,
            process_views(users@),
            Seq::empty(),
        ).0,
        r is Some <==> final(d)@.live(),
        r is Some ==> prepared(r->0) == first_free_run(
            old(d)@,
            sysfs@,
            texts(addrs@),
            0,
            process_views(users@),
            Seq::empty(),
        ).1,
{
    let ghost names = texts(addrs@);
    let ghost held = process_views(users@);
    let mut blocked: Vec<(String, Blockage)> = Vec::new();
    assert(blocked_views(blocked@) =~= Seq::empty());
    let mut i: usize = 0;
    while i < addrs.len()
        invariant
            i <= addrs@.len(),
            names == texts(addrs@),
            held == process_views(users@),
            d@.live(),
            first_free_run(d@, sysfs@, names, i as nat, held, blocked_views(blocked@))
                == first_free_run(old(d)@, sysfs@, names, 0, held, Seq::empty()),
        decreases addrs.len() - i,
    {
        let ghost at = d@;
        let ghost before = blocked_views(blocked@);
        match blocking_reason(sysfs, d, addrs[i].as_str(), users) {
            Some(Some(reason)) => {
                let entry = (addrs[i].clone(), reason);
                blocked.push(entry);
                assert(blocked_views(blocked@) =~= before.push((entry.0@, entry.1@)));
            },
            Some(None) => {
                return claim(sysfs, d, addrs[i].as_str());
            },
            None => {
                proof {
                    match reason_run(at, sysfs@, names[i as int], held).1 {
                        Some(reason) => {
                            lemma_first_free_wait(
                                d@,
                                sysfs@,
                                names,
                                (i + 1) as nat,
                                held,
                                before.push((names[i as int], reason)),
                            );
                        },
                        None => {},
                    }
                }
                return None;
            },
        }
        i = i + 1;
    }
    Some(Err(blocked_report(&blocked)))
}

fn list_gpus(sysfs: &SysfsRoot, d: &mut SysfsDialogue, names: &Vec<String>) -> (r: Option<
    Vec<String>,
>)
    requires
        old(d)@.live(),
    ensures
        final(d)@ == gpus_run(old(d)@, sysfs@, texts(names@), 0, Seq::empty()).0,
        r is Some <==> final(d)@.live(),
        r is Some ==> texts(r->0@) == gpus_run(
            old(d)@,
            sysfs@,
            texts(names@),
            0,
            Seq::empty(),
        ).1,
{
    let ghost all = texts(names@);
    let mut found: Vec<String> = Vec::new();
    assert(texts(found@) =~= Seq::empty());
    let mut i: usize = 0;
    while i < names.len()
        invariant
            i <= names@.len(),
            all == texts(names@),
            d@.live(),
            gpus_run(d@, sysfs@, all, i as nat, texts(found@)) == gpus_run(
                old(d)@,
                sysfs@,
                all,
                0,
                Seq::empty(),
            ),
        decreases names.len() - i,
    {
        let ghost before = texts(found@);
        let dev = sysfs.device(names[i].as_str());
        match read_attribute(d, dev.as_str(), "vendor") {
            Some(Some(vendor)) => {
                let class = match read_attribute(d, dev.as_str(), "class") {
                    Some(class) => class,
                    None => {
                        proof {
                            lemma_gpus_wait(d@, sysfs@, all, (i + 1) as nat, before);
                        }
                        return None;
                    },
                };
                let is_gpu = match &class {
                    Some(class) => same(vendor.as_str(), NVIDIA_VENDOR_ID) && starts_with(
                        class.as_str(),
                        "0x03",
                    ),
                    None => false,
                };
                if is_gpu {
                    found.push(names[i].clone());
                    assert(texts(found@) =~= before.push(all[i as int]));
                }
            },
            Some(None) => {},
            None => {
                proof {
                    lemma_gpus_wait(d@, sysfs@, all, (i + 1) as nat, before);
                }
                return None;
            },
        }
        i = i + 1;
    }
    Some(found)
}

/// Prepares a GPU of the host: one that is ready as it is, else the first that
/// passes all checks. Where none does, the failure lists each with its reason.
pub fn prepare_auto_gpu(sysfs: &SysfsRoot, d: &mut SysfsDialogue) -> (r: Option<
    Result<GpuBindState, Fault>,
>)
    ensures
        final(d)@ == auto_run(old(d)@, sysfs@).0,
        r is Some <==> final(d)@.live(),
        r is Some ==> prepared(r->0) == auto_run(old(d)@, sysfs@).1,
{
    let dir = sysfs.sys_bus_pci_devices();
    let entries = ask(d, SysfsRequest::ListDir { path: dir.clone() })?;
    if !entries.ok {
        let message = glue4("cannot read ", dir.as_str(), ": ", entries.text.as_str());
        return Some(Err(Fault::new(entries.kind, message)));
    }
    let ghost listed = d@;
    let gpus = match list_gpus(sysfs, d, &entries.names) {
        Some(gpus) => gpus,
        None => {
            proof {
                let gpus = gpus_run(listed, sysfs@, texts(entries.names@), 0, Seq::empty()).1;
                lemma_select_wait(d@, sysfs@, in_order(gpus));
            }
            return None;
        },
    };
    assert(texts(gpus@).len() == gpus@.len());
    if gpus.len() == 0 {
        return Some(
            Err(Fault::new(FaultKind::NotFound, "no NVIDIA PCI device found".to_owned())),
        );
    }
    let addrs = sorted_texts(&gpus);
    let ghost names = texts(addrs@);
    match find_ready(sysfs, d, &addrs) {
        Some(Some(addr)) => Some(Ok(ready(addr.as_str()))),
        Some(None) => {
            let ghost at = d@;
            match found_by_check(d) {
                Some(users) => take_first_free(sysfs, d, &addrs, &users),
                None => {
                    proof {
                        let users = found_processes(gpu_processes_run(at).1);
                        lemma_first_free_wait(d@, sysfs@, names, 0, users, Seq::empty());
                    }
                    None
                },
            }
        },
        None => {
            proof {
                let (t, users) = gpu_processes_run(d@);
                lemma_first_free_wait(t, sysfs@, names, 0, found_processes(users), Seq::empty());
            }
            None
        },
    }
}

/// Prepares a GPU below the sysfs root `sysfs`.
pub fn prepare_gpu_with_sysfs(
    sysfs: &SysfsRoot,
    d: &mut SysfsDialogue,
    requested_bdf: Option<&str>,
) -> (r: Option<Result<GpuBindState, Fault>>)
    ensures
        final(d)@ == prepare_run(old(d)@, sysfs@, str_view(requested_bdf)).0,
        r is Some <==> final(d)@.live(),
        r is Some ==> prepared(r->0) == prepare_run(old(d)@, sysfs@, str_view(requested_bdf)).1,
{
    match requested_bdf {
        Some(bdf) => prepare_specific_gpu(sysfs, d, bdf),
        None => prepare_auto_gpu(sysfs, d),
    }
}

/// Prepares a GPU of this host for passthrough: the one at `requested_bdf`, or
/// the best one available.
///
/// Every check is a hard failure: nothing is bound unless all of them pass.
pub fn prepare_gpu_for_passthrough(d: &mut SysfsDialogue, requested_bdf: Option<&str>) -> (r:
    Option<Result<GpuBindState, Fault>>)
    ensures
        final(d)@ == prepare_run(old(d)@, "/"@, str_view(requested_bdf)).0,
        r is Some <==> final(d)@.live(),
        r is Some ==> prepared(r->0) == prepare_run(old(d)@, "/"@, str_view(requested_bdf)).1,
{
    prepare_gpu_with_sysfs(&SysfsRoot::default(), d, requested_bdf)
}

} // verus!
