//! Failures of outside operations, and of the procedures that use them.

use vstd::prelude::*;

verus! {

/// What kind of failure an outside operation reported: the kinds of I/O failures, and
/// two of the library's own.
#[derive(Debug, Clone, Copy, PartialEq, Eq, Structural)]
pub enum FaultKind {
    NotFound,
    PermissionDenied,
    ConnectionRefused,
    ConnectionReset,
    HostUnreachable,
    NetworkUnreachable,
    ConnectionAborted,
    NotConnected,
    AddrInUse,
    AddrNotAvailable,
    NetworkDown,
    BrokenPipe,
    AlreadyExists,
    WouldBlock,
    NotADirectory,
    IsADirectory,
    DirectoryNotEmpty,
    ReadOnlyFilesystem,
    StaleNetworkFileHandle,
    InvalidInput,
    InvalidData,
    TimedOut,
    WriteZero,
    StorageFull,
    NotSeekable,
    QuotaExceeded,
    FileTooLarge,
    ResourceBusy,
    ExecutableFileBusy,
    Deadlock,
    CrossesDevices,
    TooManyLinks,
    InvalidFilename,
    ArgumentListTooLong,
    Interrupted,
    Unsupported,
    UnexpectedEof,
    OutOfMemory,
    FilesystemLoop,
    InProgress,
    /// A failure of the system that belongs to none of the other kinds.
    Uncategorized,
    /// There is no such process.
    NoSuchProcess,
    /// The operation never ended: its task died.
    Panicked,
    Other,
}

/// A failure with its kind and its message.
#[derive(Debug)]
pub struct Fault {
    pub kind: FaultKind,
    pub message: String,
}

/// The kind and the characters of the message of a [`Fault`].
#[verifier::ext_equal]
pub struct FaultView {
    pub kind: FaultKind,
    pub message: Seq<char>,
}

impl View for Fault {
    type V = FaultView;

    open spec fn view(&self) -> FaultView {
        FaultView { kind: self.kind, message: self.message@ }
    }
}

impl Fault {
    pub fn new(kind: FaultKind, message: String) -> (f: Fault)
        ensures
            f@ == (FaultView { kind, message: message@ }),
    {
        Fault { kind, message }
    }

    /// The message, as shown to an operator.
    pub fn text(&self) -> (s: String)
        ensures
            s@ == self@.message,
    {
        self.message.clone()
    }
}

/// What a procedure returned, with the failure taken by its view.
pub open spec fn outcome<T>(r: Result<T, Fault>) -> Result<T, FaultView> {
    match r {
        Ok(v) => Ok(v),
        Err(e) => Err(e@),
    }
}

/// What a procedure returned, with the text and the failure taken by their views.
pub open spec fn text_outcome(r: Result<String, Fault>) -> Result<Seq<char>, FaultView> {
    match r {
        Ok(s) => Ok(s@),
        Err(e) => Err(e@),
    }
}

/// The advice to add where an operation was refused for want of permission.
pub open spec fn root_hint(kind: FaultKind) -> Seq<char> {
    if kind == FaultKind::PermissionDenied {
        " — run as root"@
    } else {
        Seq::empty()
    }
}

pub fn root_hint_text(kind: FaultKind) -> (s: String)
    ensures
        s@ == root_hint(kind),
        kind == FaultKind::PermissionDenied ==> s@ == " — run as root"@,
        kind != FaultKind::PermissionDenied ==> s@.len() == 0,
{
    if kind == FaultKind::PermissionDenied {
        " — run as root".to_owned()
    } else {
        String::new()
    }
}

} // verus!
