//! The file descriptors of a process.
use vstd::prelude::*;
use vstd::utf8::{
    decode_utf8, encode_utf8, encode_utf8_decode_utf8, encode_utf8_valid_utf8, valid_utf8,
};

use crate::error::{
    fails_with, reported_on, ErrorView, InternalError, InternalView, IoFailure, ProcfsError,
};
use crate::number::{decimal, decimal_bytes};
use crate::parse::{is_target_error, parse_target, target_of};
use crate::path::{join, joined, SLASH};
use crate::process::files::{file_name, ProcessFile};
use crate::process::Process;
use crate::text::utf8_text;

verus! {

/// The bits of a mode that hold the permissions of the owner.
pub const OWNER_BITS: u32 = 0o700;

/// A file descriptor of a process.
pub struct FDInfo {
    /// The number of the descriptor.
    pub raw_fd: i32,
    /// The permissions of the owner: to read, to write and to execute. No other bit is set.
    pub mode: u32,
    /// What the descriptor refers to.
    pub target: procfs_core::process::FDTarget,
}

/// What came of looking at a file descriptor.
#[derive(Debug)]
pub enum DescriptorProbe {
    /// The link could not be opened.
    NotOpened(IoFailure),
    /// The link was opened, but could not be read.
    LinkNotRead(IoFailure),
    /// The link was read, but its metadata could not be had.
    NoMetadata(IoFailure),
    /// All went well.
    Found {
        /// The text of the link.
        link: Vec<u8>,
        /// The mode of the link.
        mode: u32,
    },
}

/// The path of a file descriptor, from the directory of its process.
pub open spec fn descriptor_path(fd: int) -> Seq<u8> {
    joined(encode_utf8(file_name(ProcessFile::Fd)), encode_utf8(decimal(fd)))
}

/// The path of a file descriptor, from the directory of its process.
pub fn relative_descriptor_path(fd: i32) -> (r: Vec<u8>)
    ensures
        r@ == descriptor_path(fd as int),
{
    join(ProcessFile::Fd.name().as_bytes(), decimal_bytes(fd).as_slice())
}

/// What a link refers to, unless its text is rejected or is no text.
pub open spec fn link_target(link: Seq<u8>) -> Option<procfs_core::process::FDTarget> {
    if valid_utf8(link) {
        target_of(decode_utf8(link))
    } else {
        None
    }
}

/// Tells whether `r` is the descriptor `fd` of the process in that directory, given what came of
/// looking at it.
pub open spec fn is_descriptor(
    r: Result<FDInfo, ProcfsError>,
    process: Seq<u8>,
    fd: i32,
    probe: DescriptorProbe,
) -> bool {
    match probe {
        DescriptorProbe::NotOpened(failure) | DescriptorProbe::LinkNotRead(
            failure,
        ) | DescriptorProbe::NoMetadata(failure) => fails_with(
            r,
            reported_on(failure, joined(process, descriptor_path(fd as int))),
        ),
        DescriptorProbe::Found { link, mode } => if valid_utf8(link@) {
            match target_of(decode_utf8(link@)) {
                Some(target) => r == Ok::<FDInfo, ProcfsError>(
                    FDInfo { raw_fd: fd, mode: mode & OWNER_BITS, target },
                ),
                None => r matches Err(e) && (e@ matches ErrorView::InternalError(
                    InternalView::Malformed(error),
                ) && is_target_error(decode_utf8(link@), error)),
            }
        } else {
            fails_with(r, ErrorView::InternalError(InternalView::Missing))
        },
    }
}

/// Tells whether `r` is the descriptor `fd` with that target and the owner's part of that mode, or
/// an error if there is no target.
pub open spec fn shows(
    r: Result<FDInfo, ProcfsError>,
    fd: i32,
    mode: u32,
    target: Option<procfs_core::process::FDTarget>,
) -> bool {
    match target {
        Some(found) => r matches Ok(info) && {
            &&& info.raw_fd == fd
            &&& info.mode == mode & 0o700
            &&& info.target == found
        },
        None => r matches Err(e) && e@ is InternalError,
    }
}

/// The file descriptor, given what its link was found to refer to.
pub fn describe(
    fd: i32,
    mode: u32,
    target: Option<Result<procfs_core::process::FDTarget, procfs_core::ProcError>>,
) -> (r: Result<FDInfo, ProcfsError>)
    ensures
        match target {
            Some(Ok(found)) => r == Ok::<FDInfo, ProcfsError>(
                FDInfo { raw_fd: fd, mode: mode & OWNER_BITS, target: found },
            ),
            Some(Err(e)) => fails_with(r, ErrorView::InternalError(InternalView::Malformed(e))),
            None => fails_with(r, ErrorView::InternalError(InternalView::Missing)),
        },
{
    match target {
        Some(Ok(found)) => Ok(FDInfo { raw_fd: fd, mode: mode & OWNER_BITS, target: found }),
        Some(Err(e)) => Err(ProcfsError::InternalError(InternalError::Malformed(e))),
        None => Err(ProcfsError::InternalError(InternalError::Missing)),
    }
}

impl FDInfo {
    /// The descriptor `fd` of the process, given what came of looking at it.
    pub fn from_process_at(process: &Process, fd: i32, probe: DescriptorProbe) -> (r: Result<
        FDInfo,
        ProcfsError,
    >)
        ensures
            is_descriptor(r, process.path@, fd, probe),
            probe matches DescriptorProbe::Found { link, mode } ==> forall|text: Seq<char>|
                link@ == #[trigger] encode_utf8(text) ==> shows(r, fd, mode, target_of(text)),
    {
        match probe {
            DescriptorProbe::NotOpened(failure)
            | DescriptorProbe::LinkNotRead(failure)
            | DescriptorProbe::NoMetadata(failure) => {
                let path = join(process.path.as_slice(), relative_descriptor_path(fd).as_slice());
                Err(ProcfsError::on_file(failure, path))
            },
            DescriptorProbe::Found { link, mode } => {
                proof {
                    assert forall|text: Seq<char>| link@ == #[trigger] encode_utf8(text) implies {
                        &&& valid_utf8(link@)
                        &&& decode_utf8(link@) == text
                    } by {
                        encode_utf8_valid_utf8(text);
                        encode_utf8_decode_utf8(text);
                    }
                }
                let target = match utf8_text(link.as_slice()) {
                    Some(text) => Some(parse_target(text.as_str())),
                    None => None,
                };
                describe(fd, mode, target)
            },
        }
    }
}

/// Of the mode of a descriptor only the permissions of the owner are kept: what remains are the
/// three bits that the owner's permissions take up, each as it was.
pub proof fn only_owner_bits_are_kept(mode: u32, bit: u32)
    requires
        bit < 32,
    ensures
        ((mode & OWNER_BITS) >> bit) & 1 == if 6 <= bit <= 8 {
            (mode >> bit) & 1
        } else {
            0
        },
{
    assert(((mode & 0o700) >> bit) & 1 == (if 6 <= bit && bit <= 8 {
        (mode >> bit) & 1
    } else {
        0
    })) by (bit_vector)
        requires
            bit < 32,
    ;
}

/// A link that holds the bytes of a text refers to what the parser makes of that whole text; one
/// that does not hold a text refers to nothing.
pub proof fn the_whole_link_is_the_target(text: Seq<char>, link: Seq<u8>)
    ensures
        link_target(encode_utf8(text)) == target_of(text),
        !valid_utf8(link) ==> link_target(link) is None,
{
    encode_utf8_valid_utf8(text);
    encode_utf8_decode_utf8(text);
}

/// What is shown of a descriptor whose link holds a text: its own number, what the parser makes of
/// the whole text, and of the mode the three bits of the owner, each as it was.
pub proof fn a_descriptor_shows_the_whole_link(
    r: Result<FDInfo, ProcfsError>,
    process: Seq<u8>,
    fd: i32,
    link: Vec<u8>,
    mode: u32,
    text: Seq<char>,
    bit: u32,
)
    requires
        link@ == encode_utf8(text),
        is_descriptor(r, process, fd, DescriptorProbe::Found { link, mode }),
        bit < 32,
    ensures
        r is Ok <==> target_of(text) is Some,
        r matches Ok(info) ==> {
            &&& info.raw_fd == fd
            &&& target_of(text) == Some(info.target)
            &&& (info.mode >> bit) & 1 == if 6 <= bit <= 8 {
                (mode >> bit) & 1
            } else {
                0
            }
        },
        r matches Err(e) ==> (e@ matches ErrorView::InternalError(InternalView::Malformed(error))
            && is_target_error(text, error)),
{
    encode_utf8_valid_utf8(text);
    encode_utf8_decode_utf8(text);
    only_owner_bits_are_kept(mode, bit);
}

/// A descriptor that cannot be looked at is reported under its own path, whichever of the calls
/// failed; a link that is no text is reported as a missing value.
pub proof fn a_descriptor_that_fails_is_named(
    r: Result<FDInfo, ProcfsError>,
    process: Seq<u8>,
    fd: i32,
    probe: DescriptorProbe,
    failure: IoFailure,
)
    requires
        process.len() > 0,
        process.last() != SLASH,
        is_descriptor(r, process, fd, probe),
    ensures
        (probe == DescriptorProbe::NotOpened(failure) || probe == DescriptorProbe::LinkNotRead(
            failure,
        ) || probe == DescriptorProbe::NoMetadata(failure)) ==> fails_with(
            r,
            reported_on(
                failure,
                process + seq![SLASH] + encode_utf8("fd"@) + seq![SLASH] + encode_utf8(
                    decimal(fd as int),
                ),
            ),
        ),
        (probe matches DescriptorProbe::Found { link, mode } && !valid_utf8(link@)) ==> fails_with(
            r,
            ErrorView::InternalError(InternalView::Missing),
        ),
{
    crate::process::lemma_descriptor_path(process, fd as int);
}

} // verus!
