//! Every procedure on GPUs can be run again from the start with more replies at
//! hand: it asks the same, in the same order, and goes on where it had to wait.
//!
//! For each procedure, `go_*` shows that it only goes on from where it is, and
//! `step_*` that two runs of it agree as far as the first gets.

use vstd::prelude::*;

use crate::dialogue::{goes_on, group_in_step, in_step};
use crate::fault::FaultView;
use crate::gpu::bind::{
    bind_each_run, bind_peers_run, bind_run, give_back_run, reassign_run, rebind_peers_run,
    rebind_run, restore_run, take_run, BindView,
};
use crate::gpu::checks::{
    all_vfio_run, card_run, cards_run, connectors_run, current_driver_run, dirty_group_run,
    dirty_peers_run, display_run, gpu_processes_run, group_clean_run, iommu_run, modules_run,
    peers_run, permissions_run, process_run, processes_run, VFIO_DRIVER,
};
use crate::gpu::obstacle::Blocked;
use crate::gpu::prepare::{
    auto_run, claim_run, first_free_run, first_ready_run, gpus_run, is_ready_run, prepare_run,
    reason_run, refusal_run, select_run, specific_run,
};
use crate::gpu::probe::{
    attribute_run, available_run, members_run, probe_run, readiness_run, survey_run,
    HostNvidiaVfioReadiness, PCI_DEVICES,
};
use crate::paths::joined_path;
use crate::sysfs::{device_dir, write_run, SysfsRequestView, SysfsTranscript};

verus! {

pub broadcast proof fn go_write(t: SysfsTranscript, root: Seq<char>, path: Seq<char>, data: Seq<char>)
    ensures
        goes_on(t, (#[trigger] write_run(t, root, path, data)).0),
{
    broadcast use group_in_step;

}

broadcast proof fn step_write(
    t: SysfsTranscript,
    u: SysfsTranscript,
    root: Seq<char>,
    path: Seq<char>,
    data: Seq<char>,
)
    requires
        t.replays_in(u),
    ensures
        in_step(
            #[trigger] write_run(t, root, path, data),
            #[trigger] write_run(u, root, path, data),
        ),
{
    broadcast use group_in_step;

}

pub broadcast proof fn go_driver(t: SysfsTranscript, root: Seq<char>, addr: Seq<char>)
    ensures
        goes_on(t, (#[trigger] current_driver_run(t, root, addr)).0),
{
    broadcast use group_in_step;

}

broadcast proof fn step_driver(
    t: SysfsTranscript,
    u: SysfsTranscript,
    root: Seq<char>,
    addr: Seq<char>,
)
    requires
        t.replays_in(u),
    ensures
        in_step(
            #[trigger] current_driver_run(t, root, addr),
            #[trigger] current_driver_run(u, root, addr),
        ),
{
    broadcast use group_in_step;

}

pub broadcast proof fn go_iommu(t: SysfsTranscript, root: Seq<char>, addr: Seq<char>)
    ensures
        goes_on(t, (#[trigger] iommu_run(t, root, addr)).0),
{
    broadcast use group_in_step;

}

broadcast proof fn step_iommu(
    t: SysfsTranscript,
    u: SysfsTranscript,
    root: Seq<char>,
    addr: Seq<char>,
)
    requires
        t.replays_in(u),
    ensures
        in_step(#[trigger] iommu_run(t, root, addr), #[trigger] iommu_run(u, root, addr)),
{
    broadcast use group_in_step;

}

pub broadcast proof fn go_modules(t: SysfsTranscript, root: Seq<char>)
    ensures
        goes_on(t, (#[trigger] modules_run(t, root)).0),
{
    broadcast use group_in_step;

}

broadcast proof fn step_modules(t: SysfsTranscript, u: SysfsTranscript, root: Seq<char>)
    requires
        t.replays_in(u),
    ensures
        in_step(#[trigger] modules_run(t, root), #[trigger] modules_run(u, root)),
{
    broadcast use group_in_step;

}

pub broadcast proof fn go_permissions(t: SysfsTranscript, root: Seq<char>, addr: Seq<char>)
    ensures
        goes_on(t, (#[trigger] permissions_run(t, root, addr)).0),
{
    broadcast use group_in_step;

}

broadcast proof fn step_permissions(
    t: SysfsTranscript,
    u: SysfsTranscript,
    root: Seq<char>,
    addr: Seq<char>,
)
    requires
        t.replays_in(u),
    ensures
        in_step(
            #[trigger] permissions_run(t, root, addr),
            #[trigger] permissions_run(u, root, addr),
        ),
{
    broadcast use group_in_step;

}

pub broadcast proof fn go_peers(t: SysfsTranscript, root: Seq<char>, addr: Seq<char>)
    ensures
        goes_on(t, (#[trigger] peers_run(t, root, addr)).0),
{
    broadcast use group_in_step;

}

broadcast proof fn step_peers(
    t: SysfsTranscript,
    u: SysfsTranscript,
    root: Seq<char>,
    addr: Seq<char>,
)
    requires
        t.replays_in(u),
    ensures
        in_step(#[trigger] peers_run(t, root, addr), #[trigger] peers_run(u, root, addr)),
{
    broadcast use group_in_step;

}

pub broadcast proof fn go_process(t: SysfsTranscript, name: Seq<char>)
    ensures
        goes_on(t, (#[trigger] process_run(t, name)).0),
{
    broadcast use group_in_step;

}

broadcast proof fn step_process(t: SysfsTranscript, u: SysfsTranscript, name: Seq<char>)
    requires
        t.replays_in(u),
    ensures
        in_step(#[trigger] process_run(t, name), #[trigger] process_run(u, name)),
{
    broadcast use group_in_step;

}

pub broadcast proof fn go_attribute(t: SysfsTranscript, dev: Seq<char>, name: Seq<char>)
    ensures
        goes_on(t, (#[trigger] attribute_run(t, dev, name)).0),
{
    broadcast use group_in_step;

}

broadcast proof fn step_attribute(
    t: SysfsTranscript,
    u: SysfsTranscript,
    dev: Seq<char>,
    name: Seq<char>,
)
    requires
        t.replays_in(u),
    ensures
        in_step(#[trigger] attribute_run(t, dev, name), #[trigger] attribute_run(u, dev, name)),
{
    broadcast use group_in_step;

}

broadcast group group_checks {
    go_write,
    step_write,
    go_driver,
    step_driver,
    go_iommu,
    step_iommu,
    go_modules,
    step_modules,
    go_permissions,
    step_permissions,
    go_peers,
    step_peers,
    go_process,
    step_process,
    go_attribute,
    step_attribute,
}

pub broadcast proof fn go_connectors(
    t: SysfsTranscript,
    card_dir: Seq<char>,
    output_prefix: Seq<char>,
    subs: Seq<Seq<char>>,
    i: nat,
)
    ensures
        goes_on(t, (#[trigger] connectors_run(t, card_dir, output_prefix, subs, i)).0),
    decreases subs.len() - i,
{
    broadcast use group_in_step;

    if i < subs.len() {
        let path = joined_path(joined_path(card_dir, subs[i as int]), "status"@);
        let q = SysfsRequestView::ReadText { path };
        go_connectors(t, card_dir, output_prefix, subs, i + 1);
        go_connectors(t.ask(q), card_dir, output_prefix, subs, i + 1);
    }
}

broadcast proof fn step_connectors(
    t: SysfsTranscript,
    u: SysfsTranscript,
    card_dir: Seq<char>,
    output_prefix: Seq<char>,
    subs: Seq<Seq<char>>,
    i: nat,
)
    requires
        t.replays_in(u),
    ensures
        in_step(
            #[trigger] connectors_run(t, card_dir, output_prefix, subs, i),
            #[trigger] connectors_run(u, card_dir, output_prefix, subs, i),
        ),
    decreases subs.len() - i,
{
    broadcast use group_in_step;

    if i < subs.len() {
        let path = joined_path(joined_path(card_dir, subs[i as int]), "status"@);
        let q = SysfsRequestView::ReadText { path };
        step_connectors(t, u, card_dir, output_prefix, subs, i + 1);
        step_connectors(t.ask(q), u.ask(q), card_dir, output_prefix, subs, i + 1);
        go_connectors(t.ask(q), card_dir, output_prefix, subs, i + 1);
        go_connectors(u.ask(q), card_dir, output_prefix, subs, i + 1);
    }
}

pub broadcast proof fn go_card(t: SysfsTranscript, drm: Seq<char>, name: Seq<char>, addr: Seq<char>)
    ensures
        goes_on(t, (#[trigger] card_run(t, drm, name, addr)).0),
{
    broadcast use {group_in_step, go_connectors, step_connectors};

}

broadcast proof fn step_card(
    t: SysfsTranscript,
    u: SysfsTranscript,
    drm: Seq<char>,
    name: Seq<char>,
    addr: Seq<char>,
)
    requires
        t.replays_in(u),
    ensures
        in_step(#[trigger] card_run(t, drm, name, addr), #[trigger] card_run(u, drm, name, addr)),
{
    broadcast use {group_in_step, go_connectors, step_connectors};

}

pub broadcast proof fn go_cards(
    t: SysfsTranscript,
    drm: Seq<char>,
    addr: Seq<char>,
    names: Seq<Seq<char>>,
    i: nat,
)
    ensures
        goes_on(t, (#[trigger] cards_run(t, drm, addr, names, i)).0),
    decreases names.len() - i,
{
    broadcast use {group_in_step, go_card, step_card};

    if i < names.len() {
        let v = card_run(t, drm, names[i as int], addr).0;
        go_cards(v, drm, addr, names, i + 1);
    }
}

broadcast proof fn step_cards(
    t: SysfsTranscript,
    u: SysfsTranscript,
    drm: Seq<char>,
    addr: Seq<char>,
    names: Seq<Seq<char>>,
    i: nat,
)
    requires
        t.replays_in(u),
    ensures
        in_step(
            #[trigger] cards_run(t, drm, addr, names, i),
            #[trigger] cards_run(u, drm, addr, names, i),
        ),
    decreases names.len() - i,
{
    broadcast use {group_in_step, go_card, step_card};

    if i < names.len() {
        let v = card_run(t, drm, names[i as int], addr).0;
        let w = card_run(u, drm, names[i as int], addr).0;
        step_cards(v, w, drm, addr, names, i + 1);
        go_cards(v, drm, addr, names, i + 1);
        go_cards(w, drm, addr, names, i + 1);
    }
}

pub broadcast proof fn go_display(t: SysfsTranscript, root: Seq<char>, addr: Seq<char>)
    ensures
        goes_on(t, (#[trigger] display_run(t, root, addr)).0),
{
    broadcast use {group_in_step, go_cards, step_cards};

}

broadcast proof fn step_display(
    t: SysfsTranscript,
    u: SysfsTranscript,
    root: Seq<char>,
    addr: Seq<char>,
)
    requires
        t.replays_in(u),
    ensures
        in_step(#[trigger] display_run(t, root, addr), #[trigger] display_run(u, root, addr)),
{
    broadcast use {group_in_step, go_cards, step_cards};

}

pub broadcast proof fn go_processes(
    t: SysfsTranscript,
    names: Seq<Seq<char>>,
    i: nat,
    found: Seq<(u32, Seq<char>)>,
)
    ensures
        goes_on(t, (#[trigger] processes_run(t, names, i, found)).0),
    decreases names.len() - i,
{
    broadcast use {group_in_step, go_process, step_process};

    if i < names.len() {
        let (v, process) = process_run(t, names[i as int]);
        match process {
            Some(p) => {
                go_processes(v, names, i + 1, found.push(p));
            },
            None => {
                go_processes(v, names, i + 1, found);
            },
        }
    }
}

broadcast proof fn step_processes(
    t: SysfsTranscript,
    u: SysfsTranscript,
    names: Seq<Seq<char>>,
    i: nat,
    found: Seq<(u32, Seq<char>)>,
)
    requires
        t.replays_in(u),
    ensures
        in_step(
            #[trigger] processes_run(t, names, i, found),
            #[trigger] processes_run(u, names, i, found),
        ),
    decreases names.len() - i,
{
    broadcast use {group_in_step, go_process, step_process};

    if i < names.len() {
        let (v, process) = process_run(t, names[i as int]);
        let (w, other) = process_run(u, names[i as int]);
        match process {
            Some(p) => {
                go_processes(v, names, i + 1, found.push(p));
            },
            None => {
                go_processes(v, names, i + 1, found);
            },
        }
        match other {
            Some(p) => {
                go_processes(w, names, i + 1, found.push(p));
            },
            None => {
                go_processes(w, names, i + 1, found);
            },
        }
        match process {
            Some(p) => {
                step_processes(v, w, names, i + 1, found.push(p));
            },
            None => {
                step_processes(v, w, names, i + 1, found);
            },
        }
    }
}

pub broadcast proof fn go_gpu_processes(t: SysfsTranscript)
    ensures
        goes_on(t, (#[trigger] gpu_processes_run(t)).0),
{
    broadcast use {group_in_step, go_processes, step_processes};

}

broadcast proof fn step_gpu_processes(t: SysfsTranscript, u: SysfsTranscript)
    requires
        t.replays_in(u),
    ensures
        in_step(#[trigger] gpu_processes_run(t), #[trigger] gpu_processes_run(u)),
{
    broadcast use {group_in_step, go_processes, step_processes};

}

pub broadcast proof fn go_all_vfio(t: SysfsTranscript, root: Seq<char>, peers: Seq<Seq<char>>, i: nat)
    ensures
        goes_on(t, (#[trigger] all_vfio_run(t, root, peers, i)).0),
    decreases peers.len() - i,
{
    broadcast use {group_in_step, group_checks};

    if i < peers.len() {
        let v = current_driver_run(t, root, peers[i as int]).0;
        go_all_vfio(v, root, peers, i + 1);
    }
}

broadcast proof fn step_all_vfio(
    t: SysfsTranscript,
    u: SysfsTranscript,
    root: Seq<char>,
    peers: Seq<Seq<char>>,
    i: nat,
)
    requires
        t.replays_in(u),
    ensures
        in_step(
            #[trigger] all_vfio_run(t, root, peers, i),
            #[trigger] all_vfio_run(u, root, peers, i),
        ),
    decreases peers.len() - i,
{
    broadcast use {group_in_step, group_checks};

    if i < peers.len() {
        let v = current_driver_run(t, root, peers[i as int]).0;
        let w = current_driver_run(u, root, peers[i as int]).0;
        step_all_vfio(v, w, root, peers, i + 1);
        go_all_vfio(v, root, peers, i + 1);
        go_all_vfio(w, root, peers, i + 1);
    }
}

pub broadcast proof fn go_group_clean(t: SysfsTranscript, root: Seq<char>, addr: Seq<char>)
    ensures
        goes_on(t, (#[trigger] group_clean_run(t, root, addr)).0),
{
    broadcast use {group_in_step, group_checks, go_all_vfio, step_all_vfio};

}

broadcast proof fn step_group_clean(
    t: SysfsTranscript,
    u: SysfsTranscript,
    root: Seq<char>,
    addr: Seq<char>,
)
    requires
        t.replays_in(u),
    ensures
        in_step(
            #[trigger] group_clean_run(t, root, addr),
            #[trigger] group_clean_run(u, root, addr),
        ),
{
    broadcast use {group_in_step, group_checks, go_all_vfio, step_all_vfio};

}

pub broadcast proof fn go_dirty_peers(
    t: SysfsTranscript,
    root: Seq<char>,
    peers: Seq<Seq<char>>,
    i: nat,
    found: Seq<Seq<char>>,
)
    ensures
        goes_on(t, (#[trigger] dirty_peers_run(t, root, peers, i, found)).0),
    decreases peers.len() - i,
{
    broadcast use {group_in_step, group_checks};

    if i < peers.len() {
        let more = found.push(peers[i as int]);
        let v = current_driver_run(t, root, peers[i as int]).0;
        go_dirty_peers(v, root, peers, i + 1, found);
        go_dirty_peers(v, root, peers, i + 1, more);
    }
}

broadcast proof fn step_dirty_peers(
    t: SysfsTranscript,
    u: SysfsTranscript,
    root: Seq<char>,
    peers: Seq<Seq<char>>,
    i: nat,
    found: Seq<Seq<char>>,
)
    requires
        t.replays_in(u),
    ensures
        in_step(
            #[trigger] dirty_peers_run(t, root, peers, i, found),
            #[trigger] dirty_peers_run(u, root, peers, i, found),
        ),
    decreases peers.len() - i,
{
    broadcast use {group_in_step, group_checks};

    if i < peers.len() {
        let more = found.push(peers[i as int]);
        let v = current_driver_run(t, root, peers[i as int]).0;
        let w = current_driver_run(u, root, peers[i as int]).0;
        step_dirty_peers(v, w, root, peers, i + 1, found);
        step_dirty_peers(v, w, root, peers, i + 1, more);
        go_dirty_peers(v, root, peers, i + 1, found);
        go_dirty_peers(v, root, peers, i + 1, more);
        go_dirty_peers(w, root, peers, i + 1, found);
        go_dirty_peers(w, root, peers, i + 1, more);
    }
}

pub broadcast proof fn go_dirty_group(t: SysfsTranscript, root: Seq<char>, addr: Seq<char>)
    ensures
        goes_on(t, (#[trigger] dirty_group_run(t, root, addr)).0),
{
    broadcast use {group_in_step, group_checks, go_dirty_peers, step_dirty_peers};

}

broadcast proof fn step_dirty_group(
    t: SysfsTranscript,
    u: SysfsTranscript,
    root: Seq<char>,
    addr: Seq<char>,
)
    requires
        t.replays_in(u),
    ensures
        in_step(
            #[trigger] dirty_group_run(t, root, addr),
            #[trigger] dirty_group_run(u, root, addr),
        ),
{
    broadcast use {group_in_step, group_checks, go_dirty_peers, step_dirty_peers};

}

broadcast group group_surveys {
    go_display,
    step_display,
    go_gpu_processes,
    step_gpu_processes,
    go_group_clean,
    step_group_clean,
    go_dirty_group,
    step_dirty_group,
}

pub broadcast proof fn go_give_back(
    t: SysfsTranscript,
    root: Seq<char>,
    addr: Seq<char>,
    driver: Option<Seq<char>>,
)
    ensures
        goes_on(t, #[trigger] give_back_run(t, root, addr, driver)),
{
    broadcast use {group_in_step, group_checks};

}

broadcast proof fn step_give_back(
    t: SysfsTranscript,
    u: SysfsTranscript,
    root: Seq<char>,
    addr: Seq<char>,
    driver: Option<Seq<char>>,
)
    requires
        t.replays_in(u),
    ensures
        (#[trigger] give_back_run(t, root, addr, driver)).replays_in(
            #[trigger] give_back_run(u, root, addr, driver),
        ),
{
    broadcast use {group_in_step, group_checks};

}

pub broadcast proof fn go_take(
    t: SysfsTranscript,
    root: Seq<char>,
    addr: Seq<char>,
    driver: Option<Seq<char>>,
)
    ensures
        goes_on(t, (#[trigger] take_run(t, root, addr, driver)).0),
{
    broadcast use {group_in_step, group_checks, go_give_back, step_give_back};

}

broadcast proof fn step_take(
    t: SysfsTranscript,
    u: SysfsTranscript,
    root: Seq<char>,
    addr: Seq<char>,
    driver: Option<Seq<char>>,
)
    requires
        t.replays_in(u),
    ensures
        in_step(
            #[trigger] take_run(t, root, addr, driver),
            #[trigger] take_run(u, root, addr, driver),
        ),
{
    broadcast use {group_in_step, group_checks, go_give_back, step_give_back};

}

pub broadcast proof fn go_bind(t: SysfsTranscript, root: Seq<char>, addr: Seq<char>)
    ensures
        goes_on(t, (#[trigger] bind_run(t, root, addr)).0),
{
    broadcast use {group_in_step, group_checks, go_take, step_take};

}

broadcast proof fn step_bind(
    t: SysfsTranscript,
    u: SysfsTranscript,
    root: Seq<char>,
    addr: Seq<char>,
)
    requires
        t.replays_in(u),
    ensures
        in_step(#[trigger] bind_run(t, root, addr), #[trigger] bind_run(u, root, addr)),
{
    broadcast use {group_in_step, group_checks, go_take, step_take};

}

pub broadcast proof fn go_reassign(
    t: SysfsTranscript,
    root: Seq<char>,
    addr: Seq<char>,
    original: Seq<char>,
)
    ensures
        goes_on(t, (#[trigger] reassign_run(t, root, addr, original)).0),
{
    broadcast use {group_in_step, group_checks};

}

broadcast proof fn step_reassign(
    t: SysfsTranscript,
    u: SysfsTranscript,
    root: Seq<char>,
    addr: Seq<char>,
    original: Seq<char>,
)
    requires
        t.replays_in(u),
    ensures
        in_step(
            #[trigger] reassign_run(t, root, addr, original),
            #[trigger] reassign_run(u, root, addr, original),
        ),
{
    broadcast use {group_in_step, group_checks};

}

pub broadcast proof fn go_rebind(
    t: SysfsTranscript,
    root: Seq<char>,
    addr: Seq<char>,
    original: Seq<char>,
)
    ensures
        goes_on(t, (#[trigger] rebind_run(t, root, addr, original)).0),
{
    broadcast use {group_in_step, group_checks, go_reassign, step_reassign};

}

broadcast proof fn step_rebind(
    t: SysfsTranscript,
    u: SysfsTranscript,
    root: Seq<char>,
    addr: Seq<char>,
    original: Seq<char>,
)
    requires
        t.replays_in(u),
    ensures
        in_step(
            #[trigger] rebind_run(t, root, addr, original),
            #[trigger] rebind_run(u, root, addr, original),
        ),
{
    broadcast use {group_in_step, group_checks, go_reassign, step_reassign};

}

pub broadcast proof fn go_rebind_peers(
    t: SysfsTranscript,
    root: Seq<char>,
    peers: Seq<(Seq<char>, Seq<char>)>,
    i: nat,
    first: Option<FaultView>,
)
    ensures
        goes_on(t, (#[trigger] rebind_peers_run(t, root, peers, i, first)).0),
    decreases peers.len() - i,
{
    broadcast use {group_in_step, go_rebind, step_rebind};

    if i < peers.len() {
        let (v, r) = rebind_run(t, root, peers[i as int].0, peers[i as int].1);
        let v_first = match (first, r) {
            (None, Err(e)) => Some(e),
            _ => first,
        };
        go_rebind_peers(v, root, peers, i + 1, v_first);
    }
}

broadcast proof fn step_rebind_peers(
    t: SysfsTranscript,
    u: SysfsTranscript,
    root: Seq<char>,
    peers: Seq<(Seq<char>, Seq<char>)>,
    i: nat,
    first: Option<FaultView>,
)
    requires
        t.replays_in(u),
    ensures
        in_step(
            #[trigger] rebind_peers_run(t, root, peers, i, first),
            #[trigger] rebind_peers_run(u, root, peers, i, first),
        ),
    decreases peers.len() - i,
{
    broadcast use {group_in_step, go_rebind, step_rebind};

    if i < peers.len() {
        let (v, r) = rebind_run(t, root, peers[i as int].0, peers[i as int].1);
        let (w, s) = rebind_run(u, root, peers[i as int].0, peers[i as int].1);
        let v_first = match (first, r) {
            (None, Err(e)) => Some(e),
            _ => first,
        };
        go_rebind_peers(v, root, peers, i + 1, v_first);
        let w_first = match (first, s) {
            (None, Err(e)) => Some(e),
            _ => first,
        };
        go_rebind_peers(w, root, peers, i + 1, w_first);
        step_rebind_peers(v, w, root, peers, i + 1, v_first);
    }
}

pub broadcast proof fn go_bind_each(
    t: SysfsTranscript,
    root: Seq<char>,
    peers: Seq<Seq<char>>,
    i: nat,
    done: Seq<(Seq<char>, Seq<char>)>,
)
    ensures
        goes_on(t, (#[trigger] bind_each_run(t, root, peers, i, done)).0),
    decreases peers.len() - i,
{
    broadcast use {group_in_step, go_bind, step_bind, go_rebind_peers, step_rebind_peers};

    if i < peers.len() {
        let (v, r) = bind_run(t, root, peers[i as int]);
        let v_done = if r is Ok && r->Ok_0 != VFIO_DRIVER@ {
            done.push((peers[i as int], r->Ok_0))
        } else {
            done
        };
        go_bind_each(v, root, peers, i + 1, v_done);
    }
}

broadcast proof fn step_bind_each(
    t: SysfsTranscript,
    u: SysfsTranscript,
    root: Seq<char>,
    peers: Seq<Seq<char>>,
    i: nat,
    done: Seq<(Seq<char>, Seq<char>)>,
)
    requires
        t.replays_in(u),
    ensures
        in_step(
            #[trigger] bind_each_run(t, root, peers, i, done),
            #[trigger] bind_each_run(u, root, peers, i, done),
        ),
    decreases peers.len() - i,
{
    broadcast use {group_in_step, go_bind, step_bind, go_rebind_peers, step_rebind_peers};

    if i < peers.len() {
        let (v, r) = bind_run(t, root, peers[i as int]);
        let (w, s) = bind_run(u, root, peers[i as int]);
        let v_done = if r is Ok && r->Ok_0 != VFIO_DRIVER@ {
            done.push((peers[i as int], r->Ok_0))
        } else {
            done
        };
        go_bind_each(v, root, peers, i + 1, v_done);
        let w_done = if s is Ok && s->Ok_0 != VFIO_DRIVER@ {
            done.push((peers[i as int], s->Ok_0))
        } else {
            done
        };
        go_bind_each(w, root, peers, i + 1, w_done);
        step_bind_each(v, w, root, peers, i + 1, v_done);
    }
}

pub broadcast proof fn go_bind_peers(t: SysfsTranscript, root: Seq<char>, addr: Seq<char>)
    ensures
        goes_on(t, (#[trigger] bind_peers_run(t, root, addr)).0),
{
    broadcast use {group_in_step, group_checks, go_bind_each, step_bind_each};

}

broadcast proof fn step_bind_peers(
    t: SysfsTranscript,
    u: SysfsTranscript,
    root: Seq<char>,
    addr: Seq<char>,
)
    requires
        t.replays_in(u),
    ensures
        in_step(#[trigger] bind_peers_run(t, root, addr), #[trigger] bind_peers_run(u, root, addr)),
{
    broadcast use {group_in_step, group_checks, go_bind_each, step_bind_each};

}

broadcast group group_moves {
    go_bind,
    step_bind,
    go_rebind,
    step_rebind,
    go_rebind_peers,
    step_rebind_peers,
    go_bind_peers,
    step_bind_peers,
}

pub broadcast proof fn go_is_ready(t: SysfsTranscript, root: Seq<char>, addr: Seq<char>)
    ensures
        goes_on(t, (#[trigger] is_ready_run(t, root, addr)).0),
{
    broadcast use {group_in_step, group_checks, group_surveys};

}

broadcast proof fn step_is_ready(
    t: SysfsTranscript,
    u: SysfsTranscript,
    root: Seq<char>,
    addr: Seq<char>,
)
    requires
        t.replays_in(u),
    ensures
        in_step(#[trigger] is_ready_run(t, root, addr), #[trigger] is_ready_run(u, root, addr)),
{
    broadcast use {group_in_step, group_checks, group_surveys};

}

pub broadcast proof fn go_claim(t: SysfsTranscript, root: Seq<char>, addr: Seq<char>)
    ensures
        goes_on(t, (#[trigger] claim_run(t, root, addr)).0),
{
    broadcast use {group_in_step, group_moves};

}

broadcast proof fn step_claim(
    t: SysfsTranscript,
    u: SysfsTranscript,
    root: Seq<char>,
    addr: Seq<char>,
)
    requires
        t.replays_in(u),
    ensures
        in_step(#[trigger] claim_run(t, root, addr), #[trigger] claim_run(u, root, addr)),
{
    broadcast use {group_in_step, group_moves};

}

pub broadcast proof fn go_refusal(t: SysfsTranscript, root: Seq<char>, addr: Seq<char>)
    ensures
        goes_on(t, (#[trigger] refusal_run(t, root, addr)).0),
{
    broadcast use {group_in_step, group_checks, group_surveys};

}

broadcast proof fn step_refusal(
    t: SysfsTranscript,
    u: SysfsTranscript,
    root: Seq<char>,
    addr: Seq<char>,
)
    requires
        t.replays_in(u),
    ensures
        in_step(#[trigger] refusal_run(t, root, addr), #[trigger] refusal_run(u, root, addr)),
{
    broadcast use {group_in_step, group_checks, group_surveys};

}

pub broadcast proof fn go_reason(
    t: SysfsTranscript,
    root: Seq<char>,
    addr: Seq<char>,
    users: Seq<(u32, Seq<char>)>,
)
    ensures
        goes_on(t, (#[trigger] reason_run(t, root, addr, users)).0),
{
    broadcast use {group_in_step, group_checks, group_surveys};

}

broadcast proof fn step_reason(
    t: SysfsTranscript,
    u: SysfsTranscript,
    root: Seq<char>,
    addr: Seq<char>,
    users: Seq<(u32, Seq<char>)>,
)
    requires
        t.replays_in(u),
    ensures
        in_step(
            #[trigger] reason_run(t, root, addr, users),
            #[trigger] reason_run(u, root, addr, users),
        ),
{
    broadcast use {group_in_step, group_checks, group_surveys};

}

broadcast group group_decisions {
    go_is_ready,
    step_is_ready,
    go_claim,
    step_claim,
    go_refusal,
    step_refusal,
    go_reason,
    step_reason,
}

broadcast proof fn step_specific(
    t: SysfsTranscript,
    u: SysfsTranscript,
    root: Seq<char>,
    addr: Seq<char>,
)
    requires
        t.replays_in(u),
    ensures
        in_step(#[trigger] specific_run(t, root, addr), #[trigger] specific_run(u, root, addr)),
{
    broadcast use {group_in_step, group_checks, group_decisions};

}

pub broadcast proof fn go_gpus(
    t: SysfsTranscript,
    root: Seq<char>,
    names: Seq<Seq<char>>,
    i: nat,
    found: Seq<Seq<char>>,
)
    ensures
        goes_on(t, (#[trigger] gpus_run(t, root, names, i, found)).0),
    decreases names.len() - i,
{
    broadcast use {group_in_step, group_checks};

    if i < names.len() {
        let dev = device_dir(root, names[i as int]);
        let more = found.push(names[i as int]);
        let v = attribute_run(t, dev, "vendor"@).0;
        let x = attribute_run(v, dev, "class"@).0;
        go_gpus(v, root, names, i + 1, found);
        go_gpus(v, root, names, i + 1, more);
        go_gpus(x, root, names, i + 1, found);
        go_gpus(x, root, names, i + 1, more);
    }
}

broadcast proof fn step_gpus(
    t: SysfsTranscript,
    u: SysfsTranscript,
    root: Seq<char>,
    names: Seq<Seq<char>>,
    i: nat,
    found: Seq<Seq<char>>,
)
    requires
        t.replays_in(u),
    ensures
        in_step(
            #[trigger] gpus_run(t, root, names, i, found),
            #[trigger] gpus_run(u, root, names, i, found),
        ),
    decreases names.len() - i,
{
    broadcast use {group_in_step, group_checks};

    if i < names.len() {
        let dev = device_dir(root, names[i as int]);
        let more = found.push(names[i as int]);
        let v = attribute_run(t, dev, "vendor"@).0;
        let x = attribute_run(v, dev, "class"@).0;
        let w = attribute_run(u, dev, "vendor"@).0;
        let y = attribute_run(w, dev, "class"@).0;
        go_gpus(v, root, names, i + 1, found);
        go_gpus(v, root, names, i + 1, more);
        go_gpus(x, root, names, i + 1, found);
        go_gpus(x, root, names, i + 1, more);
        go_gpus(w, root, names, i + 1, found);
        go_gpus(w, root, names, i + 1, more);
        go_gpus(y, root, names, i + 1, found);
        go_gpus(y, root, names, i + 1, more);
        step_gpus(v, w, root, names, i + 1, found);
        step_gpus(x, y, root, names, i + 1, found);
        step_gpus(x, y, root, names, i + 1, more);
    }
}

pub broadcast proof fn go_first_ready(
    t: SysfsTranscript,
    root: Seq<char>,
    addrs: Seq<Seq<char>>,
    i: nat,
)
    ensures
        goes_on(t, (#[trigger] first_ready_run(t, root, addrs, i)).0),
    decreases addrs.len() - i,
{
    broadcast use {group_in_step, group_decisions};

    if i < addrs.len() {
        let v = is_ready_run(t, root, addrs[i as int]).0;
        go_first_ready(v, root, addrs, i + 1);
    }
}

broadcast proof fn step_first_ready(
    t: SysfsTranscript,
    u: SysfsTranscript,
    root: Seq<char>,
    addrs: Seq<Seq<char>>,
    i: nat,
)
    requires
        t.replays_in(u),
    ensures
        in_step(
            #[trigger] first_ready_run(t, root, addrs, i),
            #[trigger] first_ready_run(u, root, addrs, i),
        ),
    decreases addrs.len() - i,
{
    broadcast use {group_in_step, group_decisions};

    if i < addrs.len() {
        let v = is_ready_run(t, root, addrs[i as int]).0;
        let w = is_ready_run(u, root, addrs[i as int]).0;
        step_first_ready(v, w, root, addrs, i + 1);
        go_first_ready(v, root, addrs, i + 1);
        go_first_ready(w, root, addrs, i + 1);
    }
}

pub broadcast proof fn go_first_free(
    t: SysfsTranscript,
    root: Seq<char>,
    addrs: Seq<Seq<char>>,
    i: nat,
    users: Seq<(u32, Seq<char>)>,
    blocked: Blocked,
)
    ensures
        goes_on(t, (#[trigger] first_free_run(t, root, addrs, i, users, blocked)).0),
    decreases addrs.len() - i,
{
    broadcast use {group_in_step, group_decisions};

    if i < addrs.len() {
        let (v, r) = reason_run(t, root, addrs[i as int], users);
        let v_blocked = match r {
            Some(reason) => blocked.push((addrs[i as int], reason)),
            None => blocked,
        };
        go_first_free(v, root, addrs, i + 1, users, v_blocked);
    }
}

broadcast proof fn step_first_free(
    t: SysfsTranscript,
    u: SysfsTranscript,
    root: Seq<char>,
    addrs: Seq<Seq<char>>,
    i: nat,
    users: Seq<(u32, Seq<char>)>,
    blocked: Blocked,
)
    requires
        t.replays_in(u),
    ensures
        in_step(
            #[trigger] first_free_run(t, root, addrs, i, users, blocked),
            #[trigger] first_free_run(u, root, addrs, i, users, blocked),
        ),
    decreases addrs.len() - i,
{
    broadcast use {group_in_step, group_decisions};

    if i < addrs.len() {
        let (v, r) = reason_run(t, root, addrs[i as int], users);
        let (w, s) = reason_run(u, root, addrs[i as int], users);
        let v_blocked = match r {
            Some(reason) => blocked.push((addrs[i as int], reason)),
            None => blocked,
        };
        go_first_free(v, root, addrs, i + 1, users, v_blocked);
        let w_blocked = match s {
            Some(reason) => blocked.push((addrs[i as int], reason)),
            None => blocked,
        };
        go_first_free(w, root, addrs, i + 1, users, w_blocked);
        step_first_free(v, w, root, addrs, i + 1, users, v_blocked);
    }
}

pub broadcast proof fn go_select(t: SysfsTranscript, root: Seq<char>, addrs: Seq<Seq<char>>)
    ensures
        goes_on(t, (#[trigger] select_run(t, root, addrs)).0),
{
    broadcast use {
        group_in_step,
        group_surveys,
        go_first_ready,
        step_first_ready,
        go_first_free,
        step_first_free,
    };

}

broadcast proof fn step_select(
    t: SysfsTranscript,
    u: SysfsTranscript,
    root: Seq<char>,
    addrs: Seq<Seq<char>>,
)
    requires
        t.replays_in(u),
    ensures
        in_step(#[trigger] select_run(t, root, addrs), #[trigger] select_run(u, root, addrs)),
{
    broadcast use {
        group_in_step,
        group_surveys,
        go_first_ready,
        step_first_ready,
        go_first_free,
        step_first_free,
    };

}

broadcast proof fn step_auto(t: SysfsTranscript, u: SysfsTranscript, root: Seq<char>)
    requires
        t.replays_in(u),
    ensures
        in_step(#[trigger] auto_run(t, root), #[trigger] auto_run(u, root)),
{
    broadcast use {group_in_step, go_gpus, step_gpus, go_select, step_select};

}

pub broadcast proof fn go_members(t: SysfsTranscript, group: Seq<char>, members: Seq<Seq<char>>, i: nat)
    ensures
        goes_on(t, (#[trigger] members_run(t, group, members, i)).0),
    decreases members.len() - i,
{
    broadcast use group_in_step;

    if i < members.len() {
        let path = joined_path(joined_path(group, members[i as int]), "driver"@);
        let q = SysfsRequestView::ReadLink { path };
        go_members(t.ask(q), group, members, i + 1);
    }
}

broadcast proof fn step_members(
    t: SysfsTranscript,
    u: SysfsTranscript,
    group: Seq<char>,
    members: Seq<Seq<char>>,
    i: nat,
)
    requires
        t.replays_in(u),
    ensures
        in_step(
            #[trigger] members_run(t, group, members, i),
            #[trigger] members_run(u, group, members, i),
        ),
    decreases members.len() - i,
{
    broadcast use group_in_step;

    if i < members.len() {
        let path = joined_path(joined_path(group, members[i as int]), "driver"@);
        let q = SysfsRequestView::ReadLink { path };
        step_members(t.ask(q), u.ask(q), group, members, i + 1);
        go_members(t.ask(q), group, members, i + 1);
        go_members(u.ask(q), group, members, i + 1);
    }
}

pub broadcast proof fn go_readiness(t: SysfsTranscript, dev: Seq<char>)
    ensures
        goes_on(t, (#[trigger] readiness_run(t, dev)).0),
{
    broadcast use {group_in_step, go_members, step_members};

}

broadcast proof fn step_readiness(t: SysfsTranscript, u: SysfsTranscript, dev: Seq<char>)
    requires
        t.replays_in(u),
    ensures
        in_step(#[trigger] readiness_run(t, dev), #[trigger] readiness_run(u, dev)),
{
    broadcast use {group_in_step, go_members, step_members};

}

pub broadcast proof fn go_survey(
    t: SysfsTranscript,
    names: Seq<Seq<char>>,
    i: nat,
    found: Seq<(Seq<char>, HostNvidiaVfioReadiness)>,
)
    ensures
        goes_on(t, (#[trigger] survey_run(t, names, i, found)).0),
    decreases names.len() - i,
{
    broadcast use {group_in_step, group_checks, go_readiness, step_readiness};

    if i < names.len() {
        let dev = joined_path(PCI_DEVICES@, names[i as int]);
        let v = attribute_run(t, dev, "vendor"@).0;
        let (x, state) = readiness_run(v, dev);
        go_survey(v, names, i + 1, found);
        go_survey(x, names, i + 1, found.push((names[i as int], state)));
    }
}

broadcast proof fn step_survey(
    t: SysfsTranscript,
    u: SysfsTranscript,
    names: Seq<Seq<char>>,
    i: nat,
    found: Seq<(Seq<char>, HostNvidiaVfioReadiness)>,
)
    requires
        t.replays_in(u),
    ensures
        in_step(
            #[trigger] survey_run(t, names, i, found),
            #[trigger] survey_run(u, names, i, found),
        ),
    decreases names.len() - i,
{
    broadcast use {group_in_step, group_checks, go_readiness, step_readiness};

    if i < names.len() {
        let dev = joined_path(PCI_DEVICES@, names[i as int]);
        let v = attribute_run(t, dev, "vendor"@).0;
        let (x, state) = readiness_run(v, dev);
        let w = attribute_run(u, dev, "vendor"@).0;
        let (y, other) = readiness_run(w, dev);
        go_survey(v, names, i + 1, found);
        go_survey(x, names, i + 1, found.push((names[i as int], state)));
        go_survey(w, names, i + 1, found);
        go_survey(y, names, i + 1, found.push((names[i as int], other)));
        step_survey(v, w, names, i + 1, found);
        step_survey(x, y, names, i + 1, found.push((names[i as int], state)));
    }
}

pub broadcast proof fn go_probe(t: SysfsTranscript)
    ensures
        goes_on(t, (#[trigger] probe_run(t)).0),
{
    broadcast use {group_in_step, go_survey, step_survey};

}

broadcast proof fn step_probe(t: SysfsTranscript, u: SysfsTranscript)
    requires
        t.replays_in(u),
    ensures
        in_step(#[trigger] probe_run(t), #[trigger] probe_run(u)),
{
    broadcast use {group_in_step, go_survey, step_survey};

}

/// Preparing a GPU can be run again with more replies: it goes on where it waited,
/// and once it has come to an end, more replies change nothing.
pub proof fn law_preparing_is_replayed(
    t: SysfsTranscript,
    fuller: SysfsTranscript,
    root: Seq<char>,
    asked: Option<Seq<char>>,
)
    requires
        t.replays_in(fuller),
    ensures
        in_step(prepare_run(t, root, asked), prepare_run(fuller, root, asked)),
{
    broadcast use {group_in_step, step_specific, step_auto};

}

/// Restoring a GPU can be run again with more replies.
pub proof fn law_restoring_is_replayed(
    t: SysfsTranscript,
    fuller: SysfsTranscript,
    root: Seq<char>,
    state: BindView,
)
    requires
        t.replays_in(fuller),
    ensures
        in_step(restore_run(t, root, state), restore_run(fuller, root, state)),
{
    broadcast use {group_in_step, group_moves};

}

/// Surveying the host can be run again with more replies.
pub proof fn law_probing_is_replayed(
    t: SysfsTranscript,
    fuller: SysfsTranscript,
    gate: Option<Seq<char>>,
    runtime_dir: Option<Seq<char>>,
)
    requires
        t.replays_in(fuller),
    ensures
        in_step(probe_run(t), probe_run(fuller)),
        in_step(available_run(t, gate, runtime_dir), available_run(fuller, gate, runtime_dir)),
{
    broadcast use {group_in_step, go_probe, step_probe};

}

} // verus!
