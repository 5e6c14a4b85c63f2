//! The errors that the virtual machine answers with.
use vstd::prelude::*;

verus! {

/// The category of an error.
#[derive(Clone, Copy, Debug, PartialEq, Eq, Structural)]
pub enum ErrorKind {
    NotFound,
    PermissionDenied,
    ConnectionRefused,
    ConnectionReset,
    ConnectionAborted,
    NotConnected,
    AddrInUse,
    AddrNotAvailable,
    BrokenPipe,
    AlreadyExists,
    WouldBlock,
    InvalidInput,
    InvalidData,
    TimedOut,
    WriteZero,
    Interrupted,
    Unsupported,
    UnexpectedEof,
    OutOfMemory,
    HostUnreachable,
    NetworkUnreachable,
    NetworkDown,
    NotADirectory,
    IsADirectory,
    DirectoryNotEmpty,
    ReadOnlyFilesystem,
    StaleNetworkFileHandle,
    StorageFull,
    NotSeekable,
    QuotaExceeded,
    FileTooLarge,
    ResourceBusy,
    ExecutableFileBusy,
    Deadlock,
    CrossesDevices,
    TooManyLinks,
    InvalidFilename,
    ArgumentListTooLong,
    Other,
}

/// An error: its category, and what it says.
#[derive(Debug)]
pub struct Error {
    pub kind: ErrorKind,
    pub message: String,
}

/// What an error is, with its text as a sequence.
pub struct ErrorView {
    pub kind: ErrorKind,
    pub message: Seq<char>,
}

impl View for Error {
    type V = ErrorView;

    open spec fn view(&self) -> ErrorView {
        ErrorView { kind: self.kind, message: self.message@ }
    }
}

/// The error of a kind with a text.
pub open spec fn error_of(kind: ErrorKind, message: Seq<char>) -> ErrorView {
    ErrorView { kind, message }
}

/// What an outcome is, with its value and its error as their views.
pub open spec fn outcome<T: View>(r: Result<T, Error>) -> Result<T::V, ErrorView> {
    match r {
        Ok(value) => Ok(value@),
        Err(e) => Err(e@),
    }
}

impl Error {
    /// Makes an error of a kind that says `message`.
    pub fn new(kind: ErrorKind, message: &str) -> (r: Self)
        ensures
            r@ == error_of(kind, message@),
            r.kind == kind,
            r.message@ == message@,
    {
        Error { kind, message: message.to_owned() }
    }
}

/// An error says what it is: its view has its kind and its words, and so does the
/// error that is made of them. Of an outcome, the view is that of its value or of its
/// error, and is as good or as bad as the outcome.
pub proof fn errors_tell_kind_and_words(e: Error, kind: ErrorKind, message: Seq<char>)
    ensures
        e@.kind == e.kind,
        e@.message == e.message@,
        error_of(kind, message).kind == kind,
        error_of(kind, message).message == message,
        outcome::<Error>(Ok(e)) == Ok::<ErrorView, ErrorView>(e@),
        outcome::<Error>(Err(e)) == Err::<ErrorView, ErrorView>(e@),
{
}

} // verus!
