//! How files are opened.
use vstd::prelude::*;

use crate::kernel::{precedes, Version};

verus! {

/// The flags of an open call, besides those for reading and writing.
#[derive(Clone, Copy, Debug, PartialEq, Eq, Structural)]
pub struct OpenFlags {
    /// `O_PATH`: get a handle on the file without opening it.
    pub path: bool,
    /// `O_DIRECTORY`: fail unless the file is a directory.
    pub directory: bool,
    /// `O_NOFOLLOW`: do not follow a symbolic link.
    pub no_follow: bool,
    /// `O_CLOEXEC`: close the handle when another program is executed.
    pub close_on_exec: bool,
}

/// The first kernel version in which `fstat` works on handles that were opened with `O_PATH`.
pub open spec fn first_with_path_stat() -> Version {
    Version { major: 3, minor: 6, patch: 0 }
}

/// Tells whether `O_PATH` is used: always, unless the kernel is known to be too old for it.
pub open spec fn uses_path_handles(version: Option<Version>) -> bool {
    match version {
        Some(v) => !precedes(v, first_with_path_stat()),
        None => true,
    }
}

/// Decides whether `O_PATH` is used, given the kernel version as far as it is known.
pub fn path_handles(version: Option<Version>) -> (r: bool)
    ensures
        r == uses_path_handles(version),
{
    match version {
        Some(v) => !v.is_before(&Version::new(3, 6, 0)),
        None => true,
    }
}

/// The flags with which the directory of a process is opened.
pub fn process_flags(version: Option<Version>) -> (r: OpenFlags)
    ensures
        r == (OpenFlags {
            path: uses_path_handles(version),
            directory: true,
            no_follow: false,
            close_on_exec: true,
        }),
{
    OpenFlags {
        path: path_handles(version),
        directory: true,
        no_follow: false,
        close_on_exec: true,
    }
}

/// The flags with which the link of a file descriptor is opened.
pub fn descriptor_flags(version: Option<Version>) -> (r: OpenFlags)
    ensures
        r == (OpenFlags {
            path: uses_path_handles(version),
            directory: false,
            no_follow: true,
            close_on_exec: true,
        }),
{
    OpenFlags {
        path: path_handles(version),
        directory: false,
        no_follow: true,
        close_on_exec: true,
    }
}

/// The flags with which the directory of a thread is opened.
pub fn task_flags() -> (r: OpenFlags)
    ensures
        r == (OpenFlags { path: true, directory: true, no_follow: false, close_on_exec: false }),
{
    OpenFlags { path: true, directory: true, no_follow: false, close_on_exec: false }
}

/// The flags, besides reading, with which a directory is opened to be walked.
pub fn listing_flags() -> (r: OpenFlags)
    ensures
        r == (OpenFlags { path: false, directory: true, no_follow: false, close_on_exec: false }),
{
    OpenFlags { path: false, directory: true, no_follow: false, close_on_exec: false }
}

/// Once a kernel is new enough for `O_PATH`, every later one is.
pub proof fn path_handles_stay(older: Version, newer: Version)
    requires
        uses_path_handles(Some(older)),
        precedes(older, newer),
    ensures
        uses_path_handles(Some(newer)),
{
}

/// How a file is opened for writing.
#[derive(Clone, Copy, Debug, PartialEq, Eq, Structural)]
pub struct Access {
    /// `O_WRONLY`: the file can be written to.
    pub write: bool,
    /// `O_CREAT`: the file is made if it is not there.
    pub create: bool,
    /// `O_TRUNC`: what the file holds is dropped.
    pub truncate: bool,
}

/// How a file is opened that gets new contents.
pub open spec fn replacing_access() -> Access {
    Access { write: true, create: true, truncate: true }
}

/// How a file is opened that has to be there and takes what is written to it.
pub open spec fn updating_access() -> Access {
    Access { write: true, create: false, truncate: false }
}

/// How a file is opened that gets new contents.
pub fn replacing() -> (r: Access)
    ensures
        r == replacing_access(),
{
    Access { write: true, create: true, truncate: true }
}

/// How a file is opened that has to be there and takes what is written to it.
pub fn updating() -> (r: Access)
    ensures
        r == updating_access(),
{
    Access { write: true, create: false, truncate: false }
}

/// What a regular file holds once it was opened in that way and all the data were written from its
/// start, given what it held before. `None` stands for a file that is not there.
pub open spec fn stored(before: Option<Seq<u8>>, access: Access, data: Seq<u8>) -> Option<Seq<u8>> {
    match before {
        None => if access.write && access.create {
            Some(data)
        } else {
            None
        },
        Some(old) => if !access.write {
            Some(old)
        } else if access.truncate || data.len() >= old.len() {
            Some(data)
        } else {
            Some(data + old.skip(data.len() as int))
        },
    }
}

/// A file that gets new contents holds exactly these, whether it was there or not and whatever it
/// held.
pub proof fn new_contents_replace_the_old(before: Option<Seq<u8>>, data: Seq<u8>)
    ensures
        stored(before, replacing_access(), data) == Some(data),
{
}

/// Handles that were opened with `O_PATH` are used from version 3.6 on, and where the version is
/// not known.
pub proof fn path_handles_are_used_since_then(version: Version)
    ensures
        uses_path_handles(Some(version)) <==> version.major > 3 || (version.major == 3
            && version.minor >= 6),
        uses_path_handles(None),
{
}

/// A file that is updated is not made if it is not there, and keeps what is behind the data.
pub proof fn an_update_keeps_the_rest(front: Seq<u8>, rest: Seq<u8>, data: Seq<u8>)
    requires
        front.len() == data.len(),
    ensures
        stored(None, updating_access(), data) is None,
        stored(Some(front + rest), updating_access(), data) == Some(data + rest),
        stored(Some(front), updating_access(), data) == Some(data),
{
    let old = front + rest;
    assert(old.skip(data.len() as int) =~= rest);
    if rest.len() == 0 {
        assert(data + rest =~= data);
    }
}

} // verus!
