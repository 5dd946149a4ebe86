//! The sysfs tree: where things lie in it, and how it is read and written.

use vstd::prelude::*;

use crate::dialogue::{Dialogue, Transcript};
use crate::fault::{outcome, Fault, FaultKind, FaultView};
use crate::paths::{is_root, join_path, joined_path, settled};
use crate::text::{copy_texts, glue4, texts};

verus! {

/// One operation on the file system that the surrounding program performs.
#[derive(Debug)]
pub enum SysfsRequest {
    /// Names of the entries of a directory.
    ListDir { path: String },
    /// Targets of the symbolic links in a directory.
    ListLinks { path: String },
    /// Target of a symbolic link.
    ReadLink { path: String },
    /// Content of a file.
    ReadText { path: String },
    /// Whether a path exists, symbolic links followed.
    Exists { path: String },
    /// Whether a path is a directory, symbolic links followed.
    IsDir { path: String },
    /// Whether a path is a regular file, symbolic links followed.
    IsFile { path: String },
    /// Whether the process may write to a path.
    IsWritable { path: String },
    /// Write to a kernel attribute from a subprocess under a time limit.
    WriteGuarded { path: String, data: String },
    /// Plain write of a file.
    WriteFile { path: String, data: String },
}

/// The view of a [`SysfsRequest`].
pub enum SysfsRequestView {
    ListDir { path: Seq<char> },
    ListLinks { path: Seq<char> },
    ReadLink { path: Seq<char> },
    ReadText { path: Seq<char> },
    Exists { path: Seq<char> },
    IsDir { path: Seq<char> },
    IsFile { path: Seq<char> },
    IsWritable { path: Seq<char> },
    WriteGuarded { path: Seq<char>, data: Seq<char> },
    WriteFile { path: Seq<char>, data: Seq<char> },
}

impl View for SysfsRequest {
    type V = SysfsRequestView;

    open spec fn view(&self) -> SysfsRequestView {
        match self {
            SysfsRequest::ListDir { path } => SysfsRequestView::ListDir { path: path@ },
            SysfsRequest::ListLinks { path } => SysfsRequestView::ListLinks { path: path@ },
            SysfsRequest::ReadLink { path } => SysfsRequestView::ReadLink { path: path@ },
            SysfsRequest::ReadText { path } => SysfsRequestView::ReadText { path: path@ },
            SysfsRequest::Exists { path } => SysfsRequestView::Exists { path: path@ },
            SysfsRequest::IsDir { path } => SysfsRequestView::IsDir { path: path@ },
            SysfsRequest::IsFile { path } => SysfsRequestView::IsFile { path: path@ },
            SysfsRequest::IsWritable { path } => SysfsRequestView::IsWritable { path: path@ },
            SysfsRequest::WriteGuarded { path, data } => SysfsRequestView::WriteGuarded {
                path: path@,
                data: data@,
            },
            SysfsRequest::WriteFile { path, data } => SysfsRequestView::WriteFile {
                path: path@,
                data: data@,
            },
        }
    }
}

impl SysfsRequestView {
    /// The request changes the file system.
    pub open spec fn is_write(self) -> bool {
        self is WriteGuarded || self is WriteFile
    }

    /// What is written where, for a request that writes.
    pub open spec fn target(self) -> (Seq<char>, Seq<char>) {
        match self {
            SysfsRequestView::WriteGuarded { path, data } => (path, data),
            SysfsRequestView::WriteFile { path, data } => (path, data),
            _ => (Seq::empty(), Seq::empty()),
        }
    }
}

/// The reply to a [`SysfsRequest`].
///
/// `ok` is the answer to a question and the success of any other operation.
/// On success `text` is what was read and `names` what was listed; on failure
/// `kind` and `text` describe it.
#[derive(Debug)]
pub struct SysfsReply {
    pub ok: bool,
    pub kind: FaultKind,
    pub text: String,
    pub names: Vec<String>,
}

/// The view of a [`SysfsReply`].
pub struct SysfsReplyView {
    pub ok: bool,
    pub kind: FaultKind,
    pub text: Seq<char>,
    pub names: Seq<Seq<char>>,
}

impl View for SysfsReply {
    type V = SysfsReplyView;

    open spec fn view(&self) -> SysfsReplyView {
        SysfsReplyView {
            ok: self.ok,
            kind: self.kind,
            text: self.text@,
            names: texts(self.names@),
        }
    }
}

/// A reply that holds nothing beyond `ok`.
pub open spec fn plain_reply(ok: bool) -> SysfsReplyView {
    SysfsReplyView { ok, kind: FaultKind::Other, text: Seq::empty(), names: Seq::empty() }
}

impl SysfsReply {
    /// The answer to a question, or the plain success of a write.
    pub fn flag(ok: bool) -> (r: SysfsReply)
        ensures
            r@ == plain_reply(ok),
            r.ok == ok,
    {
        let r = SysfsReply {
            ok,
            kind: FaultKind::Other,
            text: String::new(),
            names: Vec::new(),
        };
        assert(r@.names =~= Seq::empty());
        r
    }

    /// What was read.
    pub fn read(text: String) -> (r: SysfsReply)
        ensures
            r@ == (SysfsReplyView { text: text@, ..plain_reply(true) }),
            r.ok && r.text == text,
    {
        let mut r = SysfsReply::flag(true);
        r.text = text;
        r
    }

    /// What was listed.
    pub fn listed(names: Vec<String>) -> (r: SysfsReply)
        ensures
            r@ == (SysfsReplyView { names: texts(names@), ..plain_reply(true) }),
            r.ok && r.names == names,
    {
        let mut r = SysfsReply::flag(true);
        r.names = names;
        r
    }

    /// A failure.
    pub fn failed(kind: FaultKind, text: String) -> (r: SysfsReply)
        ensures
            r@ == (SysfsReplyView { kind, text: text@, ..plain_reply(false) }),
            !r.ok && r.kind == kind && r.text == text,
    {
        let mut r = SysfsReply::flag(false);
        r.kind = kind;
        r.text = text;
        r
    }
}

pub type SysfsDialogue = Dialogue<SysfsRequest, SysfsReply>;

pub type SysfsTranscript = Transcript<SysfsRequestView, SysfsReplyView>;

/// The last reply of an exchange; one that is still awaited counts as a failure.
pub open spec fn answer(t: SysfsTranscript) -> SysfsReplyView {
    t.reply(plain_reply(false))
}

/// The failure that a reply describes.
pub open spec fn reply_fault(r: SysfsReplyView) -> FaultView {
    FaultView { kind: r.kind, message: r.text }
}

/// Asks `q` and gives a copy of its reply, once it is there.
pub fn ask(d: &mut SysfsDialogue, q: SysfsRequest) -> (r: Option<SysfsReply>)
    ensures
        final(d)@ == old(d)@.ask(q@),
        r is Some <==> final(d)@.live(),
        r is Some ==> r->0@ == answer(final(d)@),
{
    let at = d.ask(q)?;
    let a = d.reply(at);
    let copy = SysfsReply {
        ok: a.ok,
        kind: a.kind,
        text: a.text.clone(),
        names: copy_texts(&a.names),
    };
    assert(copy@ == a@);
    Some(copy)
}

pub open spec fn devices_dir(root: Seq<char>) -> Seq<char> {
    joined_path(root, "sys/bus/pci/devices"@)
}

pub open spec fn device_dir(root: Seq<char>, addr: Seq<char>) -> Seq<char> {
    joined_path(devices_dir(root), addr)
}

pub open spec fn drm_dir(root: Seq<char>) -> Seq<char> {
    joined_path(root, "sys/class/drm"@)
}

pub open spec fn module_dir(root: Seq<char>, module: Seq<char>) -> Seq<char> {
    joined_path(joined_path(root, "sys/module"@), module)
}

pub open spec fn driver_dir(root: Seq<char>, driver: Seq<char>) -> Seq<char> {
    joined_path(joined_path(root, "sys/bus/pci/drivers"@), driver)
}

pub open spec fn iommu_groups_dir(root: Seq<char>) -> Seq<char> {
    joined_path(root, "sys/kernel/iommu_groups"@)
}

pub open spec fn vfio_dir(root: Seq<char>) -> Seq<char> {
    joined_path(root, "dev/vfio"@)
}

/// The directory below which sysfs is mounted: `/` on a live host.
#[derive(Debug)]
pub struct SysfsRoot(pub String);

impl View for SysfsRoot {
    type V = Seq<char>;

    open spec fn view(&self) -> Seq<char> {
        self.0@
    }
}

impl Default for SysfsRoot {
    fn default() -> (r: SysfsRoot)
        ensures
            r@ == "/"@,
    {
        SysfsRoot("/".to_owned())
    }
}

/// `root` is the sysfs of the running kernel.
pub open spec fn is_real(root: Seq<char>) -> bool {
    settled(root) == seq!['/']
}

/// A write to a sysfs attribute: under a time limit on the running kernel's
/// sysfs, where a driver may block it for ever, and plain elsewhere.
pub open spec fn write_run(
    t: SysfsTranscript,
    root: Seq<char>,
    path: Seq<char>,
    data: Seq<char>,
) -> (SysfsTranscript, Result<(), FaultView>) {
    if is_real(root) {
        let t = t.ask(SysfsRequestView::WriteGuarded { path, data });
        if answer(t).ok {
            (t, Ok(()))
        } else {
            (t, Err(reply_fault(answer(t))))
        }
    } else {
        let t = t.ask(SysfsRequestView::WriteFile { path, data });
        if answer(t).ok {
            (t, Ok(()))
        } else {
            (
                t,
                Err(
                    FaultView {
                        kind: answer(t).kind,
                        message: "failed to write "@ + path + ": "@ + answer(t).text,
                    },
                ),
            )
        }
    }
}

impl SysfsRoot {
    pub fn new(root: String) -> (r: SysfsRoot)
        ensures
            r@ == root@,
    {
        SysfsRoot(root)
    }

    /// Directory with one entry per PCI device.
    pub fn sys_bus_pci_devices(&self) -> (p: String)
        ensures
            p@ == devices_dir(self@),
            p@ == joined_path(self.0@, "sys/bus/pci/devices"@),
    {
        join_path(self.0.as_str(), "sys/bus/pci/devices")
    }

    /// Directory with one entry per display adapter.
    pub fn sys_class_drm(&self) -> (p: String)
        ensures
            p@ == drm_dir(self@),
            p@ == joined_path(self.0@, "sys/class/drm"@),
    {
        join_path(self.0.as_str(), "sys/class/drm")
    }

    /// Directory of a loaded kernel module.
    pub fn sys_module(&self, module: &str) -> (p: String)
        ensures
            p@ == module_dir(self@, module@),
            p@ == joined_path(joined_path(self.0@, "sys/module"@), module@),
    {
        let modules = join_path(self.0.as_str(), "sys/module");
        join_path(modules.as_str(), module)
    }

    /// Directory of a PCI driver.
    pub fn sys_bus_pci_drivers(&self, driver: &str) -> (p: String)
        ensures
            p@ == driver_dir(self@, driver@),
            p@ == joined_path(joined_path(self.0@, "sys/bus/pci/drivers"@), driver@),
    {
        let drivers = join_path(self.0.as_str(), "sys/bus/pci/drivers");
        join_path(drivers.as_str(), driver)
    }

    /// Directory with one entry per IOMMU group.
    pub fn sys_kernel_iommu_groups(&self) -> (p: String)
        ensures
            p@ == iommu_groups_dir(self@),
            p@ == joined_path(self.0@, "sys/kernel/iommu_groups"@),
    {
        join_path(self.0.as_str(), "sys/kernel/iommu_groups")
    }

    /// Directory of the devices that a virtual machine is given.
    pub fn dev_vfio(&self) -> (p: String)
        ensures
            p@ == vfio_dir(self@),
            p@ == joined_path(self.0@, "dev/vfio"@),
    {
        join_path(self.0.as_str(), "dev/vfio")
    }

    /// Directory of one PCI device.
    pub fn device(&self, addr: &str) -> (p: String)
        ensures
            p@ == device_dir(self@, addr@),
            p@ == joined_path(joined_path(self.0@, "sys/bus/pci/devices"@), addr@),
    {
        let devices = self.sys_bus_pci_devices();
        join_path(devices.as_str(), addr)
    }

    /// Whether this is the sysfs of the running kernel.
    pub fn is_real_sysfs(&self) -> (r: bool)
        ensures
            r == is_real(self@),
    {
        is_root(self.0.as_str())
    }

    /// Writes `data` to the attribute at `path`.
    pub fn write_sysfs(&self, d: &mut SysfsDialogue, path: &str, data: &str) -> (r: Option<
        Result<(), Fault>,
    >)
        ensures
            final(d)@ == write_run(old(d)@, self@, path@, data@).0,
            r is Some <==> final(d)@.live(),
            r is Some ==> outcome(r->0) == write_run(old(d)@, self@, path@, data@).1,
    {
        if self.is_real_sysfs() {
            let a = ask(
                d,
                SysfsRequest::WriteGuarded { path: path.to_owned(), data: data.to_owned() },
            )?;
            if a.ok {
                Some(Ok(()))
            } else {
                Some(Err(Fault::new(a.kind, a.text)))
            }
        } else {
            let a = ask(
                d,
                SysfsRequest::WriteFile { path: path.to_owned(), data: data.to_owned() },
            )?;
            if a.ok {
                Some(Ok(()))
            } else {
                let message = glue4("failed to write ", path, ": ", a.text.as_str());
                Some(Err(Fault::new(a.kind, message)))
            }
        }
    }
}

/// A write goes once to its file with its data, guarded on the running kernel's sysfs and
/// plain elsewhere; it succeeds where the reply says so, and otherwise fails with the kind of
/// the reply and a text that ends in its text.
pub proof fn law_write_goes_to_its_file(
    t: SysfsTranscript,
    root: Seq<char>,
    path: Seq<char>,
    data: Seq<char>,
)
    requires
        t.live(),
        write_run(t, root, path, data).0.live(),
    ensures
        ({
            let (u, r) = write_run(t, root, path, data);
            let a = u.replies[t.asked.len() as int];
            &&& settled(root) == seq!['/'] ==> u.asked == t.asked.push(
                SysfsRequestView::WriteGuarded { path, data },
            )
            &&& settled(root) != seq!['/'] ==> u.asked == t.asked.push(
                SysfsRequestView::WriteFile { path, data },
            )
            &&& r is Ok <==> a.ok
            &&& r is Err ==> r->Err_0.kind == a.kind && a.text.is_suffix_of(r->Err_0.message)
        }),
{
    let (u, r) = write_run(t, root, path, data);
    if r is Err && settled(root) != seq!['/'] {
        let a = u.replies[t.asked.len() as int];
        let head = "failed to write "@ + path + ": "@;
        assert(r->Err_0.message =~= head + a.text);
        assert(r->Err_0.message.skip(head.len() as int) =~= a.text);
    }
}

} // verus!
