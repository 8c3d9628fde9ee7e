//! The part of `/proc` in which the system is configured.
use vstd::prelude::*;
use vstd::utf8::encode_utf8;

use crate::error::{fails_with, reported, with_error_path, ErrorView, FileRead, ProcfsError};
use crate::kernel::{is_version_error, version_in, Version};
use crate::path::joined;
use crate::procfs::AsyncProcfs;
use crate::text::trim;

verus! {

/// The path, from the root, of the file that holds the version of the running kernel.
pub open spec fn version_path() -> Seq<char> {
    "sys/kernel/osrelease"@
}

/// Access to `sys`.
#[derive(Debug)]
pub struct AsyncProcfsSys<'a> {
    /// The file system.
    pub inner: &'a AsyncProcfs,
}

/// Access to `sys/kernel`.
#[derive(Debug)]
pub struct AsyncProcfsSysKernel<'a> {
    /// The file system.
    pub inner: &'a AsyncProcfs,
}

impl<'a> AsyncProcfsSys<'a> {
    /// Access to `sys` of `procfs`.
    pub fn new(procfs: &'a AsyncProcfs) -> (r: AsyncProcfsSys<'a>)
        ensures
            r.inner == procfs,
    {
        AsyncProcfsSys { inner: procfs }
    }

    /// Access to `sys/kernel` of the same file system.
    pub fn kernel(&self) -> (r: AsyncProcfsSysKernel<'_>)
        ensures
            r.inner == self.inner,
    {
        AsyncProcfsSysKernel::new(self.inner)
    }
}

impl<'a> AsyncProcfsSysKernel<'a> {
    /// Access to `sys/kernel` of `procfs`.
    pub fn new(procfs: &'a AsyncProcfs) -> (r: AsyncProcfsSysKernel<'a>)
        ensures
            r.inner == procfs,
    {
        AsyncProcfsSysKernel { inner: procfs }
    }

    /// The path, from the root, of the file that holds the version of the running kernel.
    pub fn version_file() -> (r: &'static str)
        ensures
            r@ == version_path(),
    {
        "sys/kernel/osrelease"
    }

    /// The version of the running kernel.
    pub fn version(&self, read: FileRead<String>) -> (r: Result<Version, ProcfsError>)
        ensures
            match read {
                FileRead::NotOpened(failure) | FileRead::NotRead(failure) => fails_with(
                    r,
                    with_error_path(
                        reported(failure),
                        joined(self.inner.root@, encode_utf8(version_path())),
                    ),
                ),
                FileRead::Read(content) => match version_in(trim(content@)) {
                    Some(version) => r == Ok::<Version, ProcfsError>(version),
                    None => r matches Err(e) && (e@ matches ErrorView::Other(message)
                        && is_version_error(trim(content@), message)),
                },
            },
    {
        let path = AsyncProcfsSysKernel::version_file();
        match self.inner.io().read_value(path.as_bytes(), read) {
            Ok(text) => Version::read(text.as_str()),
            Err(e) => Err(e),
        }
    }
}

} // verus!
