//! The `/proc` file system as a whole.
use vstd::prelude::*;
use vstd::utf8::{decode_utf8, encode_utf8};

use crate::bytes::copied;
use crate::error::{
    fails_with, reported, reported_on, with_error_path, ErrorKind, ErrorView, FileRead, FileWrite,
    IoFailure, ProcfsError,
};
use crate::open::{replacing, replacing_access, stored, Access};
use crate::path::{join, joined};
use crate::sys::AsyncProcfsSys;
use crate::text::{chars_of, is_trimmed, string_of, trim, trim_range, trimming_gives_the_text_back};

verus! {

/// A `/proc` file system.
#[derive(Debug)]
pub struct AsyncProcfs {
    /// The path at which it is mounted.
    pub root: Vec<u8>,
}

/// How the contents of a file below the root are taken when the file is named in every error.
pub open spec fn file_outcome<T>(
    root: Seq<u8>,
    path: Seq<u8>,
    read: FileRead<T>,
    r: Result<T, ProcfsError>,
) -> bool {
    match read {
        FileRead::NotOpened(failure) | FileRead::NotRead(failure) => fails_with(
            r,
            with_error_path(reported(failure), joined(root, path)),
        ),
        FileRead::Read(content) => r == Ok::<T, ProcfsError>(content),
    }
}

/// The text without the white space around it.
pub fn trimmed(text: &str) -> (r: String)
    ensures
        r@ == trim(text@),
{
    let chars = chars_of(text);
    let (from, to) = trim_range(&chars);
    string_of(&chars, from, to)
}

impl AsyncProcfs {
    /// Access to the files below the root.
    pub fn io(&self) -> (r: AsyncProcfsIo<'_>)
        ensures
            r.inner == self,
    {
        AsyncProcfsIo::new(self)
    }

    /// Access to the part in which the system is configured.
    pub fn sys(&self) -> (r: AsyncProcfsSys<'_>)
        ensures
            r.inner == self,
    {
        AsyncProcfsSys::new(self)
    }

    /// The path of a file below the root.
    pub fn file(&self, path: &[u8]) -> (r: Vec<u8>)
        ensures
            r@ == joined(self.root@, path@),
    {
        join(&self.root, path)
    }

    /// The contents of the file that a value is read from. A failure to open the file names it.
    pub fn current<T>(&self, path: &str, read: FileRead<T>) -> (r: Result<T, ProcfsError>)
        ensures
            match read {
                FileRead::NotOpened(failure) => fails_with(
                    r,
                    reported_on(failure, joined(self.root@, encode_utf8(path@))),
                ),
                FileRead::NotRead(failure) => fails_with(r, reported(failure)),
                FileRead::Read(content) => r == Ok::<T, ProcfsError>(content),
            },
    {
        match read {
            FileRead::NotOpened(failure) => Err(
                ProcfsError::on_file(failure, self.file(path.as_bytes())),
            ),
            FileRead::NotRead(failure) => Err(ProcfsError::unnamed(failure)),
            FileRead::Read(content) => Ok(content),
        }
    }
}

/// That a file below the root is given new contents.
#[derive(Debug)]
pub struct WriteRequest {
    /// The path of the file from the root.
    pub path: Vec<u8>,
    /// The new contents.
    pub data: Vec<u8>,
}

impl WriteRequest {
    /// What the file holds once the request is carried out, given what it held before; `None`
    /// stands for a file that is not there.
    pub open spec fn leaves(&self, before: Option<Seq<u8>>) -> Option<Seq<u8>> {
        stored(before, replacing_access(), self.data@)
    }

    /// That the file is given the bytes.
    pub fn file(path: &[u8], data: &[u8]) -> (r: WriteRequest)
        ensures
            r.path@ == path@,
            r.data@ == data@,
            forall|before: Option<Seq<u8>>| #[trigger] r.leaves(before) == Some(data@),
    {
        WriteRequest { path: copied(path), data: copied(data) }
    }

    /// That the file is given the text of a value.
    pub fn value(path: &[u8], text: &str) -> (r: WriteRequest)
        ensures
            r.path@ == path@,
            r.data@ == encode_utf8(text@),
            forall|before: Option<Seq<u8>>| #[trigger] r.leaves(before) == Some(encode_utf8(text@)),
    {
        WriteRequest::file(path, text.as_bytes())
    }

    /// How the file is opened: it is made if it is not there, and what it holds is dropped.
    pub fn access(&self) -> (r: Access)
        ensures
            r == replacing_access(),
            forall|before: Option<Seq<u8>>| #[trigger]
                stored(before, r, self.data@) == self.leaves(before),
    {
        replacing()
    }
}

/// Access to the files below the root of a `/proc` file system.
#[derive(Debug)]
pub struct AsyncProcfsIo<'a> {
    /// The file system.
    pub inner: &'a AsyncProcfs,
}

impl<'a> AsyncProcfsIo<'a> {
    /// Access to the files of `procfs`.
    pub fn new(procfs: &'a AsyncProcfs) -> (r: AsyncProcfsIo<'a>)
        ensures
            r.inner == procfs,
    {
        AsyncProcfsIo { inner: procfs }
    }

    /// The text of a file. Any failure names the file.
    pub fn read_file(&self, path: &[u8], read: FileRead<String>) -> (r: Result<String, ProcfsError>)
        ensures
            file_outcome(self.inner.root@, path@, read, r),
    {
        match read {
            FileRead::NotOpened(failure) | FileRead::NotRead(failure) => Err(
                ProcfsError::unnamed(failure).error_path(self.inner.file(path)),
            ),
            FileRead::Read(content) => Ok(content),
        }
    }

    /// What came of giving a file its new contents. Any failure names the file.
    pub fn write_file(&self, request: &WriteRequest, write: FileWrite) -> (r: Result<
        (),
        ProcfsError,
    >)
        ensures
            match write {
                FileWrite::NotOpened(failure) | FileWrite::NotWritten(failure) => fails_with(
                    r,
                    with_error_path(
                        reported(failure),
                        joined(self.inner.root@, request.path@),
                    ),
                ),
                FileWrite::Written => r is Ok,
            },
    {
        match write {
            FileWrite::NotOpened(failure) | FileWrite::NotWritten(failure) => Err(
                ProcfsError::unnamed(failure).error_path(self.inner.file(request.path.as_slice())),
            ),
            FileWrite::Written => Ok(()),
        }
    }

    /// The text of the value in a file: what the file holds, without the white space around it.
    pub fn read_value(&self, path: &[u8], read: FileRead<String>) -> (r: Result<
        String,
        ProcfsError,
    >)
        ensures
            match read {
                FileRead::Read(content) => r matches Ok(text) && text@ == trim(content@),
                _ => file_outcome(self.inner.root@, path@, read, r),
            },
    {
        match self.read_file(path, read) {
            Ok(content) => Ok(trimmed(content.as_str())),
            Err(e) => Err(e),
        }
    }

    /// The text of the value in an open file. A failure does not name the file.
    pub fn read_value_from(&self, read: Result<String, IoFailure>) -> (r: Result<
        String,
        ProcfsError,
    >)
        ensures
            match read {
                Ok(content) => r matches Ok(text) && text@ == trim(content@),
                Err(failure) => fails_with(r, reported(failure)),
            },
    {
        match read {
            Ok(content) => Ok(trimmed(content.as_str())),
            Err(failure) => Err(ProcfsError::unnamed(failure)),
        }
    }

    /// What came of giving a file a value as its new contents. Any failure names the file.
    pub fn write_value(&self, request: &WriteRequest, write: FileWrite) -> (r: Result<
        (),
        ProcfsError,
    >)
        ensures
            match write {
                FileWrite::NotOpened(failure) | FileWrite::NotWritten(failure) => fails_with(
                    r,
                    with_error_path(
                        reported(failure),
                        joined(self.inner.root@, request.path@),
                    ),
                ),
                FileWrite::Written => r is Ok,
            },
    {
        self.write_file(request, write)
    }

    /// What came of writing a value to an open file. A failure does not name the file.
    pub fn write_value_to(&self, write: Result<(), IoFailure>) -> (r: Result<(), ProcfsError>)
        ensures
            match write {
                Ok(()) => r is Ok,
                Err(failure) => fails_with(r, reported(failure)),
            },
    {
        match write {
            Ok(()) => Ok(()),
            Err(failure) => Err(ProcfsError::unnamed(failure)),
        }
    }
}

/// A value that was written to a file is the value that is read from it: what the file then holds,
/// without the white space around it, is the text of the value.
pub proof fn a_written_value_reads_back(
    request: WriteRequest,
    text: Seq<char>,
    before: Option<Seq<u8>>,
)
    requires
        request.data@ == encode_utf8(text),
        is_trimmed(text),
    ensures
        request.leaves(before) matches Some(content) && trim(decode_utf8(content)) == text,
{
    broadcast use vstd::utf8::encode_utf8_decode_utf8;

    let none = Seq::<char>::empty();
    trimming_gives_the_text_back(none, text, none);
    assert(none + text + none == text);
}

/// What comes of a file below the root: what was read, or an error that names the file unless it is
/// one that holds no path.
pub proof fn files_below_the_root_are_named<T>(
    root: Seq<u8>,
    path: Seq<u8>,
    failure: IoFailure,
    content: T,
    r: Result<T, ProcfsError>,
    unread: Result<T, ProcfsError>,
    unopened: Result<T, ProcfsError>,
)
    requires
        file_outcome(root, path, FileRead::Read(content), r),
        file_outcome(root, path, FileRead::NotRead(failure), unread),
        file_outcome(root, path, FileRead::NotOpened(failure), unopened),
    ensures
        r == Ok::<T, ProcfsError>(content),
        unread matches Err(e) && (match e@ {
            ErrorView::NotFound(named) => named == Some(joined(root, path)) && failure.kind
                == ErrorKind::NotFound,
            ErrorView::PermissionDenied(named) => named == Some(joined(root, path)) && failure.kind
                == ErrorKind::PermissionDenied,
            ErrorView::Io(error, named) => named == Some(joined(root, path)) && error
                == failure.error,
            _ => false,
        }),
        unread matches Err(a) && (unopened matches Err(b) && a@ == b@),
{
}

} // verus!
