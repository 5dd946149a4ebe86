//! What the driver asks of its host.

use vstd::prelude::*;

use crate::dialogue::{Dialogue, Transcript};
use crate::fault::FaultKind;
use crate::text::texts;

verus! {

/// One operation that the surrounding program performs for the driver.
#[derive(Debug)]
pub enum HostRequest {
    /// Listen on any free port of the loopback address.
    BindLocalPort,
    /// The port of the listener, which is then closed.
    LocalPort,
    /// Make a directory and all above it.
    CreateDirAll { path: String },
    /// Remove a directory and all below it.
    RemoveDirAll { path: String },
    /// Whether a path is a regular file.
    IsFile { path: String },
    /// Unpack the root file system of sandboxes.
    ExtractRootfs { path: String },
    /// Copy a file.
    CopyFile { from: String, to: String },
    /// Set the permission bits of a file.
    SetMode { path: String, mode: u32 },
    /// Start a program. Its process is killed when the handle on it is dropped.
    Spawn { program: String, args: Vec<String> },
    /// The process id of the machine of a sandbox, while it has not been reaped.
    ProcessId { id: String },
    /// Ask a process to end.
    Terminate { pid: u32 },
    /// Wait for the machine of a sandbox to end, at most this long.
    WaitEnd { id: String, millis: u64 },
    /// Kill the machine of a sandbox.
    Kill { id: String },
    /// Wait for the machine of a sandbox to end.
    Wait { id: String },
}

/// The view of a [`HostRequest`].
pub enum HostRequestView {
    BindLocalPort,
    LocalPort,
    CreateDirAll { path: Seq<char> },
    RemoveDirAll { path: Seq<char> },
    IsFile { path: Seq<char> },
    ExtractRootfs { path: Seq<char> },
    CopyFile { from: Seq<char>, to: Seq<char> },
    SetMode { path: Seq<char>, mode: u32 },
    Spawn { program: Seq<char>, args: Seq<Seq<char>> },
    ProcessId { id: Seq<char> },
    Terminate { pid: u32 },
    WaitEnd { id: Seq<char>, millis: u64 },
    Kill { id: Seq<char> },
    Wait { id: Seq<char> },
}

impl View for HostRequest {
    type V = HostRequestView;

    open spec fn view(&self) -> HostRequestView {
        match self {
            HostRequest::BindLocalPort => HostRequestView::BindLocalPort,
            HostRequest::LocalPort => HostRequestView::LocalPort,
            HostRequest::CreateDirAll { path } => HostRequestView::CreateDirAll { path: path@ },
            HostRequest::RemoveDirAll { path } => HostRequestView::RemoveDirAll { path: path@ },
            HostRequest::IsFile { path } => HostRequestView::IsFile { path: path@ },
            HostRequest::ExtractRootfs { path } => HostRequestView::ExtractRootfs { path: path@ },
            HostRequest::CopyFile { from, to } => HostRequestView::CopyFile {
                from: from@,
                to: to@,
            },
            HostRequest::SetMode { path, mode } => HostRequestView::SetMode {
                path: path@,
                mode: *mode,
            },
            HostRequest::Spawn { program, args } => HostRequestView::Spawn {
                program: program@,
                args: texts(args@),
            },
            HostRequest::ProcessId { id } => HostRequestView::ProcessId { id: id@ },
            HostRequest::Terminate { pid } => HostRequestView::Terminate { pid: *pid },
            HostRequest::WaitEnd { id, millis } => HostRequestView::WaitEnd {
                id: id@,
                millis: *millis,
            },
            HostRequest::Kill { id } => HostRequestView::Kill { id: id@ },
            HostRequest::Wait { id } => HostRequestView::Wait { id: id@ },
        }
    }
}

/// The reply to a [`HostRequest`].
///
/// `ok` is the answer to a question and the success of any other operation. On
/// failure `kind` and `text` describe it, and `expired` says that the time was
/// over. `port` is the port of a listener, `pid` the id of a process.
#[derive(Debug)]
pub struct HostReply {
    pub ok: bool,
    pub kind: FaultKind,
    pub text: String,
    pub expired: bool,
    pub port: u16,
    pub pid: Option<u32>,
}

/// The view of a [`HostReply`].
pub struct HostReplyView {
    pub ok: bool,
    pub kind: FaultKind,
    pub text: Seq<char>,
    pub expired: bool,
    pub port: u16,
    pub pid: Option<u32>,
}

impl View for HostReply {
    type V = HostReplyView;

    open spec fn view(&self) -> HostReplyView {
        HostReplyView {
            ok: self.ok,
            kind: self.kind,
            text: self.text@,
            expired: self.expired,
            port: self.port,
            pid: self.pid,
        }
    }
}

/// A reply that holds nothing beyond `ok`.
pub open spec fn plain_reply(ok: bool) -> HostReplyView {
    HostReplyView {
        ok,
        kind: FaultKind::Other,
        text: Seq::empty(),
        expired: false,
        port: 0,
        pid: None,
    }
}

impl HostReply {
    /// The answer to a question, or plain success.
    pub fn flag(ok: bool) -> (r: HostReply)
        ensures
            r@ == plain_reply(ok),
    {
        HostReply { ok, kind: FaultKind::Other, text: String::new(), expired: false, port: 0, pid: None }
    }

    /// A port.
    pub fn port(port: u16) -> (r: HostReply)
        ensures
            r@ == (HostReplyView { port, ..plain_reply(true) }),
    {
        let mut r = HostReply::flag(true);
        r.port = port;
        r
    }

    /// A process id, or none.
    pub fn process(pid: Option<u32>) -> (r: HostReply)
        ensures
            r@ == (HostReplyView { pid, ..plain_reply(true) }),
    {
        let mut r = HostReply::flag(true);
        r.pid = pid;
        r
    }

    /// A failure.
    pub fn failed(kind: FaultKind, text: String) -> (r: HostReply)
        ensures
            r@ == (HostReplyView { kind, text: text@, ..plain_reply(false) }),
    {
        let mut r = HostReply::flag(false);
        r.kind = kind;
        r.text = text;
        r
    }

    /// The time was over before the operation ended.
    pub fn timed_out() -> (r: HostReply)
        ensures
            r@ == (HostReplyView { expired: true, ..plain_reply(false) }),
    {
        let mut r = HostReply::flag(false);
        r.expired = true;
        r
    }
}

pub type HostDialogue = Dialogue<HostRequest, HostReply>;

pub type HostTranscript = Transcript<HostRequestView, HostReplyView>;

/// The last reply of an exchange; one that is still awaited counts as a failure.
pub open spec fn host_answer(t: HostTranscript) -> HostReplyView {
    t.reply(plain_reply(false))
}

/// Asks `q` and gives a copy of its reply, once it is there.
pub fn ask_host(d: &mut HostDialogue, q: HostRequest) -> (r: Option<HostReply>)
    ensures
        final(d)@ == old(d)@.ask(q@),
        r is Some <==> final(d)@.live(),
        r is Some ==> r->0@ == host_answer(final(d)@),
{
    let at = d.ask(q)?;
    let a = d.reply(at);
    Some(
        HostReply {
            ok: a.ok,
            kind: a.kind,
            text: a.text.clone(),
            expired: a.expired,
            port: a.port,
            pid: a.pid,
        },
    )
}

} // verus!
