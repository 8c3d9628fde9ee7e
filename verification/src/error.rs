//! The errors of this library, and how failed system calls become such errors.
use vstd::prelude::*;

verus! {

/// An error of the standard library, carried from where it was reported to the caller.
#[verifier::external_type_specification]
#[verifier::external_body]
pub struct ExIoError(std::io::Error);

/// An error of the parsers in `procfs_core`, carried to the caller.
#[verifier::external_type_specification]
#[verifier::external_body]
pub struct ExParserError(procfs_core::ProcError);

/// The kinds of failed system calls that are told apart.
#[derive(Clone, Copy, Debug, PartialEq, Eq, Structural)]
pub enum ErrorKind {
    /// The file does not exist.
    NotFound,
    /// The caller may not do this.
    PermissionDenied,
    /// Anything else.
    Other,
}

/// The error number of "no such process".
pub const ESRCH: i32 = 3;

/// A failed system call: the error, and what decides how it is reported.
#[derive(Debug)]
pub struct IoFailure {
    /// The kind of the error.
    pub kind: ErrorKind,
    /// The number that the operating system gave.
    pub raw_os_error: Option<i32>,
    /// Whether the error holds another error as its cause.
    pub has_cause: bool,
    /// The error itself.
    pub error: std::io::Error,
}

/// An error that nothing in the file system should bring about.
#[derive(Debug)]
pub enum InternalError {
    /// A value was missing.
    Missing,
    /// This text is not a number of the type that was expected.
    BadNumber(String),
    /// A parser found the value malformed.
    Malformed(procfs_core::ProcError),
}

/// The error of an operation on the `/proc` file system.
///
/// Where the operation was one on a file, the path of that file may come with the error.
#[derive(Debug)]
pub enum ProcfsError {
    /// Permission was denied.
    PermissionDenied(Option<Vec<u8>>),
    /// The file, or the process it speaks of, does not exist.
    NotFound(Option<Vec<u8>>),
    /// Another error of the operating system.
    Io(std::io::Error, Option<Vec<u8>>),
    /// The data ended before they were complete.
    UnexpectedEof,
    /// Another error, in words.
    Other(String),
    /// An error that should not occur.
    InternalError(InternalError),
    /// A parser rejected the contents of a file.
    Parse(procfs_core::ProcError),
    /// The contents of a file do not have the shape on which the parser is defined.
    Unparsable,
}

/// What an [`InternalError`] stands for.
pub ghost enum InternalView {
    Missing,
    BadNumber(Seq<char>),
    Malformed(procfs_core::ProcError),
}

/// What a [`ProcfsError`] stands for.
pub ghost enum ErrorView {
    PermissionDenied(Option<Seq<u8>>),
    NotFound(Option<Seq<u8>>),
    Io(std::io::Error, Option<Seq<u8>>),
    UnexpectedEof,
    Other(Seq<char>),
    InternalError(InternalView),
    Parse(procfs_core::ProcError),
    Unparsable,
}

/// The bytes of a path, if there is one.
pub open spec fn path_view(path: Option<Vec<u8>>) -> Option<Seq<u8>> {
    match path {
        Some(p) => Some(p@),
        None => None,
    }
}

impl View for InternalError {
    type V = InternalView;

    open spec fn view(&self) -> InternalView {
        match *self {
            InternalError::Missing => InternalView::Missing,
            InternalError::BadNumber(text) => InternalView::BadNumber(text@),
            InternalError::Malformed(e) => InternalView::Malformed(e),
        }
    }
}

impl View for ProcfsError {
    type V = ErrorView;

    open spec fn view(&self) -> ErrorView {
        match *self {
            ProcfsError::PermissionDenied(path) => ErrorView::PermissionDenied(path_view(path)),
            ProcfsError::NotFound(path) => ErrorView::NotFound(path_view(path)),
            ProcfsError::Io(e, path) => ErrorView::Io(e, path_view(path)),
            ProcfsError::UnexpectedEof => ErrorView::UnexpectedEof,
            ProcfsError::Other(text) => ErrorView::Other(text@),
            ProcfsError::InternalError(e) => ErrorView::InternalError(e@),
            ProcfsError::Parse(e) => ErrorView::Parse(e),
            ProcfsError::Unparsable => ErrorView::Unparsable,
        }
    }
}

/// How a failed call on the file `path` is reported.
///
/// A process that has gone away counts as a file that was not found.
pub open spec fn reported_on(failure: IoFailure, path: Seq<u8>) -> ErrorView {
    match failure.kind {
        ErrorKind::PermissionDenied => ErrorView::PermissionDenied(Some(path)),
        ErrorKind::NotFound => ErrorView::NotFound(Some(path)),
        ErrorKind::Other => if failure.raw_os_error == Some(ESRCH) {
            ErrorView::NotFound(Some(path))
        } else {
            ErrorView::Io(failure.error, Some(path))
        },
    }
}

/// How a failed call is reported when the file is not named.
pub open spec fn reported(failure: IoFailure) -> ErrorView {
    if failure.has_cause {
        ErrorView::Io(failure.error, None)
    } else {
        match failure.kind {
            ErrorKind::PermissionDenied => ErrorView::PermissionDenied(None),
            ErrorKind::NotFound => ErrorView::NotFound(None),
            ErrorKind::Other => ErrorView::Io(failure.error, None),
        }
    }
}

/// `path`, if no path is known yet.
pub open spec fn first_path(known: Option<Seq<u8>>, path: Seq<u8>) -> Option<Seq<u8>> {
    match known {
        Some(p) => Some(p),
        None => Some(path),
    }
}

/// The error with `path` as its path, if it can have one and has none yet.
pub open spec fn with_error_path(error: ErrorView, path: Seq<u8>) -> ErrorView {
    match error {
        ErrorView::PermissionDenied(known) => ErrorView::PermissionDenied(first_path(known, path)),
        ErrorView::NotFound(known) => ErrorView::NotFound(first_path(known, path)),
        ErrorView::Io(e, known) => ErrorView::Io(e, first_path(known, path)),
        _ => error,
    }
}

/// Tells whether `r` is an error that stands for `error`.
pub open spec fn fails_with<T>(r: Result<T, ProcfsError>, error: ErrorView) -> bool {
    r matches Err(e) && e@ == error
}

impl ProcfsError {
    /// The error for a failed call on the file `path`.
    pub fn on_file(failure: IoFailure, path: Vec<u8>) -> (r: ProcfsError)
        ensures
            r@ == reported_on(failure, path@),
    {
        match failure.kind {
            ErrorKind::PermissionDenied => ProcfsError::PermissionDenied(Some(path)),
            ErrorKind::NotFound => ProcfsError::NotFound(Some(path)),
            ErrorKind::Other => match failure.raw_os_error {
                Some(ESRCH) => ProcfsError::NotFound(Some(path)),
                _ => ProcfsError::Io(failure.error, Some(path)),
            },
        }
    }

    /// The error for a failed call on a file that is not named.
    pub fn unnamed(failure: IoFailure) -> (r: ProcfsError)
        ensures
            r@ == reported(failure),
    {
        if failure.has_cause {
            ProcfsError::Io(failure.error, None)
        } else {
            match failure.kind {
                ErrorKind::PermissionDenied => ProcfsError::PermissionDenied(None),
                ErrorKind::NotFound => ProcfsError::NotFound(None),
                ErrorKind::Other => ProcfsError::Io(failure.error, None),
            }
        }
    }

    /// Names the file of an error that can have a path and has none yet.
    pub fn error_path(self, path: Vec<u8>) -> (r: ProcfsError)
        ensures
            r@ == with_error_path(self@, path@),
    {
        match self {
            ProcfsError::PermissionDenied(None) => ProcfsError::PermissionDenied(Some(path)),
            ProcfsError::NotFound(None) => ProcfsError::NotFound(Some(path)),
            ProcfsError::Io(e, None) => ProcfsError::Io(e, Some(path)),
            other => other,
        }
    }
}

/// What becomes of the result of a parser: the value, or the parser's error.
pub open spec fn parser_result<T>(
    parsed: Result<T, procfs_core::ProcError>,
) -> Result<T, ErrorView> {
    match parsed {
        Ok(value) => Ok(value),
        Err(e) => Err(ErrorView::Parse(e)),
    }
}

/// Takes the result of a parser over.
pub fn take_parsed<T>(parsed: Result<T, procfs_core::ProcError>) -> (r: Result<T, ProcfsError>)
    ensures
        match parser_result(parsed) {
            Ok(value) => r == Ok::<T, ProcfsError>(value),
            Err(error) => fails_with(r, error),
        },
{
    match parsed {
        Ok(value) => Ok(value),
        Err(e) => Err(ProcfsError::Parse(e)),
    }
}

/// Naming the file of an error twice is naming it once: the first path stays.
pub proof fn the_first_error_path_stays(error: ErrorView, first: Seq<u8>, second: Seq<u8>)
    ensures
        with_error_path(with_error_path(error, first), second) == with_error_path(error, first),
{
}

/// For an error of the operating system it makes no difference whether the file is named at once
/// or afterwards, unless the process has gone away.
pub proof fn naming_the_file_later(failure: IoFailure, path: Seq<u8>)
    requires
        !failure.has_cause,
        failure.raw_os_error != Some(ESRCH),
    ensures
        with_error_path(reported(failure), path) == reported_on(failure, path),
{
}

/// What came of opening a file and reading all of it.
#[derive(Debug)]
pub enum FileRead<T> {
    /// The file could not be opened.
    NotOpened(IoFailure),
    /// The file was opened, but could not be read.
    NotRead(IoFailure),
    /// The contents of the file.
    Read(T),
}

/// What came of opening a file and writing to it.
#[derive(Debug)]
pub enum FileWrite {
    /// The file could not be opened.
    NotOpened(IoFailure),
    /// The file was opened, but could not be written.
    NotWritten(IoFailure),
    /// Everything was written.
    Written,
}

/// A failed call on a file is reported under the path of that file, as not found exactly if the
/// file or its process does not exist, as denied exactly if the caller may not do this, and
/// otherwise with the error itself.
pub proof fn failures_keep_their_path(failure: IoFailure, path: Seq<u8>)
    ensures
        reported_on(failure, path) is NotFound <==> failure.kind == ErrorKind::NotFound || (
        failure.kind == ErrorKind::Other && failure.raw_os_error == Some(3i32)),
        reported_on(failure, path) is PermissionDenied <==> failure.kind
            == ErrorKind::PermissionDenied,
        match reported_on(failure, path) {
            ErrorView::NotFound(named) => named == Some(path),
            ErrorView::PermissionDenied(named) => named == Some(path),
            ErrorView::Io(error, named) => error == failure.error && named == Some(path),
            _ => false,
        },
{
}

/// A failed call that is reported without a file names none. One with a cause is handed on as it
/// is; of the others, only those that are told by their kind are told apart.
pub proof fn unnamed_failures_name_no_file(failure: IoFailure)
    ensures
        reported(failure) is NotFound <==> !failure.has_cause && failure.kind == ErrorKind::NotFound,
        reported(failure) is PermissionDenied <==> !failure.has_cause && failure.kind
            == ErrorKind::PermissionDenied,
        match reported(failure) {
            ErrorView::NotFound(named) => named is None,
            ErrorView::PermissionDenied(named) => named is None,
            ErrorView::Io(error, named) => error == failure.error && named is None,
            _ => false,
        },
{
}

/// Naming the file of an error changes nothing but a path that is missing.
pub proof fn naming_changes_missing_paths_only(
    known: Option<Seq<u8>>,
    path: Seq<u8>,
    error: std::io::Error,
    other: ErrorView,
)
    requires
        !(other is PermissionDenied),
        !(other is NotFound),
        !(other is Io),
    ensures
        ({
            let named = if known is Some {
                known
            } else {
                Some(path)
            };
            &&& with_error_path(ErrorView::PermissionDenied(known), path)
                == ErrorView::PermissionDenied(named)
            &&& with_error_path(ErrorView::NotFound(known), path) == ErrorView::NotFound(named)
            &&& with_error_path(ErrorView::Io(error, known), path) == ErrorView::Io(error, named)
            &&& with_error_path(other, path) == other
        }),
{
}

/// What an error stands for is what it holds.
pub proof fn errors_show_what_they_hold(
    path: Vec<u8>,
    error: std::io::Error,
    text: String,
    rejection: procfs_core::ProcError,
)
    ensures
        ProcfsError::PermissionDenied(Some(path))@ == ErrorView::PermissionDenied(Some(path@)),
        ProcfsError::PermissionDenied(None)@ == ErrorView::PermissionDenied(None),
        ProcfsError::NotFound(Some(path))@ == ErrorView::NotFound(Some(path@)),
        ProcfsError::NotFound(None)@ == ErrorView::NotFound(None),
        ProcfsError::Io(error, Some(path))@ == ErrorView::Io(error, Some(path@)),
        ProcfsError::Io(error, None)@ == ErrorView::Io(error, None),
        ProcfsError::UnexpectedEof@ == ErrorView::UnexpectedEof,
        ProcfsError::Other(text)@ == ErrorView::Other(text@),
        ProcfsError::InternalError(InternalError::Missing)@ == ErrorView::InternalError(
            InternalView::Missing,
        ),
        ProcfsError::InternalError(InternalError::BadNumber(text))@ == ErrorView::InternalError(
            InternalView::BadNumber(text@),
        ),
        ProcfsError::InternalError(InternalError::Malformed(rejection))@
            == ErrorView::InternalError(InternalView::Malformed(rejection)),
        ProcfsError::Parse(rejection)@ == ErrorView::Parse(rejection),
        ProcfsError::Unparsable@ == ErrorView::Unparsable,
{
}

/// A result fails with an error exactly if it is that error.
pub proof fn a_failure_is_its_error<T>(value: T, e: ProcfsError, error: ErrorView)
    ensures
        !fails_with(Ok::<T, ProcfsError>(value), error),
        fails_with(Err::<T, ProcfsError>(e), error) <==> e@ == error,
{
}

/// The value that a parser gave is taken over, and so is its error.
pub proof fn results_of_parsers_are_taken_over<T>(value: T, e: procfs_core::ProcError)
    ensures
        parser_result(Ok::<T, procfs_core::ProcError>(value)) == Ok::<T, ErrorView>(value),
        parser_result(Err::<T, procfs_core::ProcError>(e)) == Err::<T, ErrorView>(
            ErrorView::Parse(e),
        ),
{
}

} // verus!
