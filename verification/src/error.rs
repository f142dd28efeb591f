//! Errors of file operations and of the shell.

use vstd::prelude::*;

verus! {

/// What went wrong with a file operation: the kinds of `std::io::ErrorKind`.
#[derive(Clone, Copy, Debug, PartialEq, Eq, Structural)]
pub enum IoErrorKind {
    NotFound,
    PermissionDenied,
    ConnectionRefused,
    ConnectionReset,
    HostUnreachable,
    NetworkUnreachable,
    ConnectionAborted,
    NotConnected,
    AddrInUse,
    AddrNotAvailable,
    NetworkDown,
    BrokenPipe,
    AlreadyExists,
    WouldBlock,
    NotADirectory,
    IsADirectory,
    DirectoryNotEmpty,
    ReadOnlyFilesystem,
    StaleNetworkFileHandle,
    InvalidInput,
    InvalidData,
    TimedOut,
    WriteZero,
    StorageFull,
    NotSeekable,
    QuotaExceeded,
    FileTooLarge,
    ResourceBusy,
    ExecutableFileBusy,
    Deadlock,
    CrossesDevices,
    TooManyLinks,
    InvalidFilename,
    ArgumentListTooLong,
    Interrupted,
    Unsupported,
    UnexpectedEof,
    OutOfMemory,
    Other,
}

/// An error of a file operation, with the message that is shown for it.
#[derive(Debug)]
pub struct IoError {
    pub kind: IoErrorKind,
    pub message: String,
}

impl IoError {
    /// Whether this is an error of the given kind with the given message.
    pub open spec fn says(self, kind: IoErrorKind, message: Seq<char>) -> bool {
        self.kind == kind && self.message@ == message
    }

    /// An error of the given kind with the given message.
    pub fn new(kind: IoErrorKind, message: &str) -> (e: IoError)
        ensures
            e.says(kind, message@),
    {
        IoError { kind, message: message.to_owned() }
    }
}

/// An error of the shell.
#[derive(Debug)]
pub enum ShellError {
    /// The path names something that is not a directory.
    NotADirectory(String),
    /// A file operation failed.
    Io(IoError),
    /// The variable of that name cannot be changed.
    ReadonlyVariable(String),
}

} // verus!
