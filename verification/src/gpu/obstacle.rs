//! What can stand in the way of taking a GPU, and how it is reported.

use vstd::prelude::*;

use crate::fault::{Fault, FaultKind, FaultView};
use crate::gpu::checks::process_views;
use crate::text::{decimal, decimal_text, glue2, glue3, glue4, glue5, join, joined, texts};

verus! {

/// The check that a GPU has failed.
#[derive(Debug)]
pub enum Obstacle {
    /// It drives a display of the host.
    Display,
    /// These processes hold NVIDIA devices open.
    InUse { users: Vec<(u32, String)> },
    /// The host has no IOMMU groups, or the GPU belongs to none.
    NoIommu,
    /// A kernel module that passthrough needs is not loaded.
    NoModules,
    /// The process may not write what binding writes.
    NoPermission,
}

/// The view of an [`Obstacle`].
pub enum ObstacleView {
    Display,
    InUse { users: Seq<(u32, Seq<char>)> },
    NoIommu,
    NoModules,
    NoPermission,
}

impl View for Obstacle {
    type V = ObstacleView;

    open spec fn view(&self) -> ObstacleView {
        match self {
            Obstacle::Display => ObstacleView::Display,
            Obstacle::InUse { users } => ObstacleView::InUse { users: process_views(users@) },
            Obstacle::NoIommu => ObstacleView::NoIommu,
            Obstacle::NoModules => ObstacleView::NoModules,
            Obstacle::NoPermission => ObstacleView::NoPermission,
        }
    }
}

/// The view of an optional obstacle.
pub open spec fn obstacle_view(o: Option<Obstacle>) -> Option<ObstacleView> {
    match o {
        Some(o) => Some(o@),
        None => None,
    }
}

/// Why one of the host's GPUs is not chosen.
#[derive(Debug)]
pub enum Blockage {
    /// It is on the passthrough driver, but these devices of its IOMMU group are not.
    DirtyGroup { peers: Vec<String> },
    /// It has failed a check.
    Unsafe { obstacle: Obstacle },
}

/// The view of a [`Blockage`].
pub enum BlockageView {
    DirtyGroup { peers: Seq<Seq<char>> },
    Unsafe { obstacle: ObstacleView },
}

impl View for Blockage {
    type V = BlockageView;

    open spec fn view(&self) -> BlockageView {
        match self {
            Blockage::DirtyGroup { peers } => BlockageView::DirtyGroup { peers: texts(peers@) },
            Blockage::Unsafe { obstacle } => BlockageView::Unsafe { obstacle: obstacle@ },
        }
    }
}

/// The view of an optional blockage.
pub open spec fn blockage_view(b: Option<Blockage>) -> Option<BlockageView> {
    match b {
        Some(b) => Some(b@),
        None => None,
    }
}

/// One process in words: its number and its command.
pub open spec fn process_text(p: (u32, Seq<char>)) -> Seq<char> {
    decimal(p.0 as nat) + " ("@ + p.1 + ")"@
}

/// The users of a GPU in words.
pub open spec fn in_use_by(found: Seq<(u32, Seq<char>)>) -> Seq<char> {
    "in use by PIDs: "@ + joined(found.map_values(|p: (u32, Seq<char>)| process_text(p)), ", "@)
}

fn in_use_text(found: &Vec<(u32, String)>) -> (s: String)
    ensures
        s@ == in_use_by(process_views(found@)),
{
    let ghost words = |p: (u32, Seq<char>)| process_text(p);
    let mut parts: Vec<String> = Vec::new();
    let mut i: usize = 0;
    while i < found.len()
        invariant
            i <= found@.len(),
            parts@.len() == i,
            forall|j: int|
                0 <= j < i ==> (#[trigger] parts@[j])@ == process_text(process_views(found@)[j]),
        decreases found.len() - i,
    {
        let pid = decimal_text(found[i].0 as u64);
        parts.push(glue4(pid.as_str(), " (", found[i].1.as_str(), ")"));
        i = i + 1;
    }
    assert(texts(parts@) =~= process_views(found@).map_values(words));
    let list = join(&parts, ", ");
    glue2("in use by PIDs: ", list.as_str())
}

/// A group that is not clean in words: the devices of it that are not on the
/// passthrough driver, where they are known.
pub open spec fn dirty_group(peers: Seq<Seq<char>>) -> Seq<char> {
    if peers.len() == 0 {
        "IOMMU group not clean"@
    } else {
        "IOMMU group not clean (non-VFIO peers: "@ + joined(peers, ", "@) + ")"@
    }
}

fn dirty_group_text(peers: &Vec<String>) -> (s: String)
    ensures
        s@ == dirty_group(texts(peers@)),
{
    assert(texts(peers@).len() == peers@.len());
    if peers.len() == 0 {
        "IOMMU group not clean".to_owned()
    } else {
        let list = join(peers, ", ");
        glue3("IOMMU group not clean (non-VFIO peers: ", list.as_str(), ")")
    }
}

impl ObstacleView {
    /// The obstacle in words, as one line of a report on all GPUs.
    pub open spec fn text(self) -> Seq<char> {
        match self {
            ObstacleView::Display => "has active display outputs (DRM framebuffer attached)"@,
            ObstacleView::InUse { users } => in_use_by(users),
            ObstacleView::NoIommu => "IOMMU is not enabled"@,
            ObstacleView::NoModules => "vfio-pci kernel module not loaded"@,
            ObstacleView::NoPermission => "insufficient permissions"@,
        }
    }

    /// What an operator can do about it.
    pub open spec fn advice(self) -> Seq<char> {
        match self {
            ObstacleView::Display => "detach the display or use a different GPU for the monitor"@,
            ObstacleView::InUse { .. } => "stop processes using the GPU, then retry"@,
            ObstacleView::NoIommu => "add intel_iommu=on or amd_iommu=on to kernel cmdline"@,
            ObstacleView::NoModules => "run: sudo modprobe vfio-pci"@,
            ObstacleView::NoPermission => "run as root or with CAP_NET_ADMIN"@,
        }
    }

    /// The refusal of the GPU at `addr`, asked for by its address, with advice.
    pub open spec fn refusal(self, addr: Seq<char>) -> FaultView {
        match self {
            ObstacleView::Display => FaultView {
                kind: FaultKind::Other,
                message: "GPU "@ + addr
                    + " has active display outputs — cannot passthrough without losing host display"@,
            },
            ObstacleView::InUse { users } => FaultView {
                kind: FaultKind::Other,
                message: "GPU "@ + addr + " is "@ + in_use_by(users)
                    + " — stop these processes first"@,
            },
            ObstacleView::NoIommu => FaultView {
                kind: FaultKind::Other,
                message:
                    "IOMMU is not enabled — add intel_iommu=on or amd_iommu=on to kernel cmdline"@,
            },
            ObstacleView::NoModules => FaultView {
                kind: FaultKind::Other,
                message: "vfio-pci kernel module not loaded — run: sudo modprobe vfio-pci"@,
            },
            ObstacleView::NoPermission => FaultView {
                kind: FaultKind::PermissionDenied,
                message: "insufficient permissions — run as root or with CAP_NET_ADMIN"@,
            },
        }
    }
}

proof fn lemma_users_in_words(o: ObstacleView)
    ensures
        o is InUse ==> in_use_by(o->users) == "in use by PIDs: "@ + joined(
            o->users.map_values(|p: (u32, Seq<char>)| decimal(p.0 as nat) + " ("@ + p.1 + ")"@),
            ", "@,
        ),
{
    if o is InUse {
        assert(o->users.map_values(|p: (u32, Seq<char>)| process_text(p)) =~= o->users.map_values(
            |p: (u32, Seq<char>)| decimal(p.0 as nat) + " ("@ + p.1 + ")"@,
        ));
    }
}

impl Obstacle {
    /// The obstacle in words, as one line of a report on all GPUs.
    pub fn text(&self) -> (s: String)
        ensures
            s@ == self@.text(),
            match self {
                Obstacle::Display => s@
                    == "has active display outputs (DRM framebuffer attached)"@,
                Obstacle::InUse { users } => s@ == "in use by PIDs: "@ + joined(
                    process_views(users@).map_values(
                        |p: (u32, Seq<char>)| decimal(p.0 as nat) + " ("@ + p.1 + ")"@,
                    ),
                    ", "@,
                ),
                Obstacle::NoIommu => s@ == "IOMMU is not enabled"@,
                Obstacle::NoModules => s@ == "vfio-pci kernel module not loaded"@,
                Obstacle::NoPermission => s@ == "insufficient permissions"@,
            },
    {
        proof {
            lemma_users_in_words(self@);
        }
        match self {
            Obstacle::Display =>
                "has active display outputs (DRM framebuffer attached)".to_owned(),
            Obstacle::InUse { users } => in_use_text(users),
            Obstacle::NoIommu => "IOMMU is not enabled".to_owned(),
            Obstacle::NoModules => "vfio-pci kernel module not loaded".to_owned(),
            Obstacle::NoPermission => "insufficient permissions".to_owned(),
        }
    }

    /// What an operator can do about it.
    pub fn advice(&self) -> (s: String)
        ensures
            s@ == self@.advice(),
            s@ == match self {
                Obstacle::Display => "detach the display or use a different GPU for the monitor"@,
                Obstacle::InUse { .. } => "stop processes using the GPU, then retry"@,
                Obstacle::NoIommu => "add intel_iommu=on or amd_iommu=on to kernel cmdline"@,
                Obstacle::NoModules => "run: sudo modprobe vfio-pci"@,
                Obstacle::NoPermission => "run as root or with CAP_NET_ADMIN"@,
            },
    {
        let words = match self {
            Obstacle::Display => "detach the display or use a different GPU for the monitor",
            Obstacle::InUse { .. } => "stop processes using the GPU, then retry",
            Obstacle::NoIommu => "add intel_iommu=on or amd_iommu=on to kernel cmdline",
            Obstacle::NoModules => "run: sudo modprobe vfio-pci",
            Obstacle::NoPermission => "run as root or with CAP_NET_ADMIN",
        };
        words.to_owned()
    }

    /// The refusal of the GPU at `addr`, asked for by its address, with advice.
    pub fn refusal(&self, addr: &str) -> (f: Fault)
        ensures
            f@ == self@.refusal(addr@),
            f.kind == if *self is NoPermission {
                FaultKind::PermissionDenied
            } else {
                FaultKind::Other
            },
            match self {
                Obstacle::Display => f.message@ == "GPU "@ + addr@
                    + " has active display outputs — cannot passthrough without losing host display"@,
                Obstacle::InUse { users } => f.message@ == "GPU "@ + addr@ + " is "@ + (
                "in use by PIDs: "@ + joined(
                    process_views(users@).map_values(
                        |p: (u32, Seq<char>)| decimal(p.0 as nat) + " ("@ + p.1 + ")"@,
                    ),
                    ", "@,
                )) + " — stop these processes first"@,
                Obstacle::NoIommu => f.message@
                    == "IOMMU is not enabled — add intel_iommu=on or amd_iommu=on to kernel cmdline"@,
                Obstacle::NoModules => f.message@
                    == "vfio-pci kernel module not loaded — run: sudo modprobe vfio-pci"@,
                Obstacle::NoPermission => f.message@
                    == "insufficient permissions — run as root or with CAP_NET_ADMIN"@,
            },
    {
        proof {
            lemma_users_in_words(self@);
        }
        match self {
            Obstacle::Display => Fault::new(
                FaultKind::Other,
                glue3(
                    "GPU ",
                    addr,
                    " has active display outputs — cannot passthrough without losing host display",
                ),
            ),
            Obstacle::InUse { users } => {
                let text = in_use_text(users);
                Fault::new(
                    FaultKind::Other,
                    glue5("GPU ", addr, " is ", text.as_str(), " — stop these processes first"),
                )
            },
            Obstacle::NoIommu => Fault::new(
                FaultKind::Other,
                "IOMMU is not enabled — add intel_iommu=on or amd_iommu=on to kernel cmdline".to_owned(),
            ),
            Obstacle::NoModules => Fault::new(
                FaultKind::Other,
                "vfio-pci kernel module not loaded — run: sudo modprobe vfio-pci".to_owned(),
            ),
            Obstacle::NoPermission => Fault::new(
                FaultKind::PermissionDenied,
                "insufficient permissions — run as root or with CAP_NET_ADMIN".to_owned(),
            ),
        }
    }
}

impl BlockageView {
    /// The reason in words, as one line of a report on all GPUs.
    pub open spec fn text(self) -> Seq<char> {
        match self {
            BlockageView::DirtyGroup { peers } => dirty_group(peers),
            BlockageView::Unsafe { obstacle } => obstacle.text(),
        }
    }

    /// What an operator can do about it.
    pub open spec fn advice(self) -> Seq<char> {
        match self {
            BlockageView::DirtyGroup { .. } =>
                "unbind the other devices of its IOMMU group and bind them to vfio-pci, then retry"@,
            BlockageView::Unsafe { obstacle } => obstacle.advice(),
        }
    }
}

impl Blockage {
    /// The reason in words, as one line of a report on all GPUs.
    pub fn text(&self) -> (s: String)
        ensures
            s@ == self@.text(),
    {
        match self {
            Blockage::DirtyGroup { peers } => dirty_group_text(peers),
            Blockage::Unsafe { obstacle } => obstacle.text(),
        }
    }

    /// What an operator can do about it.
    pub fn advice(&self) -> (s: String)
        ensures
            s@ == self@.advice(),
    {
        match self {
            Blockage::DirtyGroup { .. } =>
                "unbind the other devices of its IOMMU group and bind them to vfio-pci, then retry".to_owned(),
            Blockage::Unsafe { obstacle } => obstacle.advice(),
        }
    }
}

/// GPUs with what stands in the way of each.
pub type Blocked = Seq<(Seq<char>, BlockageView)>;

/// A list of GPUs with what stands in the way of each, by their views.
pub open spec fn blocked_views(v: Seq<(String, Blockage)>) -> Blocked {
    v.map_values(|b: (String, Blockage)| (b.0@, b.1@))
}

/// What stands in the way of each GPU, one line for each.
pub open spec fn blocked_lines(blocked: Blocked) -> Seq<char>
    decreases blocked.len(),
{
    if blocked.len() == 0 {
        Seq::empty()
    } else {
        let (addr, reason) = blocked.last();
        blocked_lines(blocked.drop_last()) + ("    "@ + addr + ": "@ + reason.text() + "\n"@)
    }
}

/// What can be done about each GPU, one line for each.
pub open spec fn advice_lines(blocked: Blocked) -> Seq<char>
    decreases blocked.len(),
{
    if blocked.len() == 0 {
        Seq::empty()
    } else {
        let (addr, reason) = blocked.last();
        advice_lines(blocked.drop_last()) + ("\n    - "@ + addr + ": "@ + reason.advice())
    }
}

/// The report that every GPU is blocked: what stands in the way of each, and what can
/// be done about it.
pub open spec fn all_blocked(blocked: Blocked) -> FaultView {
    FaultView {
        kind: FaultKind::Other,
        message: "GPU passthrough blocked by safety checks.\n\n  Detected devices:\n"@
            + blocked_lines(blocked) + "\n  No GPU is available for passthrough. To resolve:"@
            + advice_lines(blocked),
    }
}

/// The report that every GPU is blocked.
pub fn blocked_report(blocked: &Vec<(String, Blockage)>) -> (f: Fault)
    ensures
        f@ == all_blocked(blocked_views(blocked@)),
{
    let ghost all = blocked_views(blocked@);
    let mut message =
        "GPU passthrough blocked by safety checks.\n\n  Detected devices:\n".to_owned();
    let ghost head = message@;
    assert(all.take(0) =~= Seq::empty());
    assert(message@ =~= head + blocked_lines(all.take(0)));
    let mut i: usize = 0;
    while i < blocked.len()
        invariant
            i <= blocked@.len(),
            all == blocked_views(blocked@),
            message@ == head + blocked_lines(all.take(i as int)),
        decreases blocked.len() - i,
    {
        let text = blocked[i].1.text();
        let line = glue5("    ", blocked[i].0.as_str(), ": ", text.as_str(), "\n");
        assert(all[i as int] == (blocked@[i as int].0@, blocked@[i as int].1@));
        assert(all.take(i + 1).drop_last() =~= all.take(i as int));
        message.append(line.as_str());
        assert(message@ =~= head + blocked_lines(all.take(i + 1)));
        i = i + 1;
    }
    assert(all.take(i as int) =~= all);
    message.append("\n  No GPU is available for passthrough. To resolve:");
    let ghost body = message@;
    assert(message@ =~= body + advice_lines(all.take(0)));
    let mut k: usize = 0;
    while k < blocked.len()
        invariant
            k <= blocked@.len(),
            all == blocked_views(blocked@),
            message@ == body + advice_lines(all.take(k as int)),
        decreases blocked.len() - k,
    {
        let advice = blocked[k].1.advice();
        let line = glue4("\n    - ", blocked[k].0.as_str(), ": ", advice.as_str());
        assert(all[k as int] == (blocked@[k as int].0@, blocked@[k as int].1@));
        assert(all.take(k + 1).drop_last() =~= all.take(k as int));
        message.append(line.as_str());
        assert(message@ =~= body + advice_lines(all.take(k + 1)));
        k = k + 1;
    }
    assert(all.take(k as int) =~= all);
    Fault::new(FaultKind::Other, message)
}

/// The same processes, copied.
pub fn copy_processes(v: &Vec<(u32, String)>) -> (r: Vec<(u32, String)>)
    ensures
        process_views(r@) == process_views(v@),
{
    let mut r: Vec<(u32, String)> = Vec::new();
    let mut i: usize = 0;
    while i < v.len()
        invariant
            i <= v@.len(),
            r@.len() == i,
            forall|j: int|
                0 <= j < i ==> (#[trigger] r@[j]).0 == v@[j].0 && r@[j].1@ == v@[j].1@,
        decreases v.len() - i,
    {
        r.push((v[i].0, v[i].1.clone()));
        i = i + 1;
    }
    assert(process_views(r@) =~= process_views(v@));
    r
}

} // verus!
