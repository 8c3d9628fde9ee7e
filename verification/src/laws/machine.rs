//! What is told of the machine and of the file system as a whole.
use vstd::prelude::*;
use vstd::utf8::{encode_utf8, encode_utf8_decode_utf8};

use crate::error::{
    fails_with, reported, reported_on, ErrorKind, ErrorView, FileRead, FileWrite, InternalView,
    IoFailure, ProcfsError,
};
use crate::encoding::{encoding_of_ascii, encoding_of_two_texts};
use crate::kernel::{versions_read_back, Version};
use crate::laws::{below, is_directory};
use crate::number::decimal;
use crate::open::{
    descriptor_flags, listing_flags, path_handles_are_used_since_then, process_flags, replacing,
    stored, task_flags, updating, Access, OpenFlags,
};
use crate::parse::{is_kernel_stats_error, is_load_average_error, kernel_stats_of, load_average_of};
use crate::path::{joined, paths_are_joined_by_one_slash, SLASH};
use crate::procfs::{AsyncProcfs, AsyncProcfsIo, WriteRequest};
use crate::runtime::{execution, Execution, Flavor};
use crate::sys::AsyncProcfsSysKernel;
use crate::system_info::{
    boot_time, boot_time_secs, boot_timestamp, current_system_info, kernel_stats, load_average,
    low_byte_comes_first, AsyncLocalSystemInfo,
};
use crate::text::{is_blank, is_trimmed, trimming_gives_the_text_back};

verus! {

proof fn lemma_plain_path(root: Seq<u8>, name: Seq<char>)
    requires
        is_directory(root),
        name.len() > 0,
        name[0] == 's' || name[0] == 'l',
    ensures
        joined(root, encode_utf8(name)) == below(root, name),
{
    let first = seq![name[0]];
    assert(name =~= first + name.skip(1));
    encoding_of_two_texts(first, name.skip(1));
    encoding_of_ascii(name[0]);
    assert(encode_utf8(name)[0] == name[0] as u8);
    paths_are_joined_by_one_slash(root, encode_utf8(name));
}

/// The statistics of the kernel and the boot time are what the parser makes of the whole `stat`
/// file below the root, for the clock ticks of the machine.
pub proof fn the_statistics_are_what_the_parser_makes_of_them(
    procfs: AsyncProcfs,
    info: AsyncLocalSystemInfo,
    read: FileRead<Vec<u8>>,
    ticks: u64,
    r: Result<(procfs_core::KernelStats, u64), ProcfsError>,
    secs: Result<u64, ProcfsError>,
    again: Result<u64, ProcfsError>,
)
    requires
        is_directory(procfs.root@),
        info.inner.root@ == procfs.root@,
        call_ensures(kernel_stats, (&procfs, read, ticks), r),
        call_ensures(boot_time_secs, (&procfs, read, ticks), secs),
        call_ensures(AsyncLocalSystemInfo::boot_time_secs, (&info, read, ticks), again),
    ensures
        match read {
            FileRead::Read(content) => match kernel_stats_of(content@, ticks) {
                Some((stats, btime)) => {
                    &&& r matches Ok(found) && found.0 == stats && found.1 == btime
                    &&& secs == Ok::<u64, ProcfsError>(btime)
                    &&& again == Ok::<u64, ProcfsError>(btime)
                },
                None => {
                    &&& r matches Err(ProcfsError::Parse(e)) && is_kernel_stats_error(
                        content@,
                        ticks,
                        e,
                    )
                    &&& secs matches Err(ProcfsError::Parse(e)) && is_kernel_stats_error(
                        content@,
                        ticks,
                        e,
                    )
                    &&& again matches Err(ProcfsError::Parse(e)) && is_kernel_stats_error(
                        content@,
                        ticks,
                        e,
                    )
                },
            },
            FileRead::NotOpened(failure) => {
                &&& fails_with(r, reported_on(failure, below(procfs.root@, "stat"@)))
                &&& fails_with(secs, reported_on(failure, below(procfs.root@, "stat"@)))
                &&& fails_with(again, reported_on(failure, below(procfs.root@, "stat"@)))
            },
            FileRead::NotRead(failure) => {
                &&& fails_with(r, reported(failure))
                &&& fails_with(secs, reported(failure))
                &&& fails_with(again, reported(failure))
            },
        },
{
    reveal_strlit("stat");
    lemma_plain_path(procfs.root@, "stat"@);
}

/// The load is what the parser makes of the whole `loadavg` file below the root.
pub proof fn the_load_is_what_the_parser_makes_of_it(
    procfs: AsyncProcfs,
    read: FileRead<Vec<u8>>,
    r: Result<procfs_core::LoadAverage, ProcfsError>,
)
    requires
        is_directory(procfs.root@),
        call_ensures(load_average, (&procfs, read), r),
    ensures
        match read {
            FileRead::Read(content) => match load_average_of(content@) {
                Some(load) => r == Ok::<procfs_core::LoadAverage, ProcfsError>(load),
                None => r matches Err(ProcfsError::Parse(e)) && is_load_average_error(content@, e),
            },
            FileRead::NotOpened(failure) => fails_with(
                r,
                reported_on(failure, below(procfs.root@, "loadavg"@)),
            ),
            FileRead::NotRead(failure) => fails_with(r, reported(failure)),
        },
{
    reveal_strlit("loadavg");
    lemma_plain_path(procfs.root@, "loadavg"@);
}

/// The moment of the boot is the one that its seconds stand for; the seconds wrap around as a
/// signed number of 64 bits.
pub proof fn the_moment_of_the_boot<T>(
    secs: Result<u64, ProcfsError>,
    moment: Option<T>,
    r: Result<T, ProcfsError>,
    n: u64,
    stamp: i64,
)
    requires
        call_ensures(boot_time::<T>, (secs, moment), r),
        call_ensures(boot_timestamp, (n,), stamp),
    ensures
        secs matches Err(e) ==> r == Err::<T, ProcfsError>(e),
        secs is Ok && moment is Some ==> r == Ok::<T, ProcfsError>(moment->Some_0),
        secs is Ok && moment is None ==> fails_with(
            r,
            ErrorView::InternalError(InternalView::Missing),
        ),
        stamp as int % 0x1_0000_0000_0000_0000 == n as int,
{
}

/// Values below the root: what is read is the text in the file without the white space around it,
/// and a file is read as it is; a failure names the file.
pub proof fn values_are_read_without_white_space(
    io: AsyncProcfsIo,
    path: &[u8],
    before: Seq<char>,
    text: Seq<char>,
    after: Seq<char>,
    content: String,
    value: Result<String, ProcfsError>,
    direct: Result<String, ProcfsError>,
    whole: Result<String, ProcfsError>,
)
    requires
        is_blank(before),
        is_trimmed(text),
        is_blank(after),
        content@ == before + text + after,
        call_ensures(AsyncProcfsIo::read_value, (&io, path, FileRead::Read(content)), value),
        call_ensures(AsyncProcfsIo::read_value_from, (&io, Ok(content)), direct),
        call_ensures(AsyncProcfsIo::read_file, (&io, path, FileRead::Read(content)), whole),
    ensures
        value matches Ok(found) && found@ == text,
        direct matches Ok(found) && found@ == text,
        whole == Ok::<String, ProcfsError>(content),
{
    trimming_gives_the_text_back(before, text, after);
}

/// Failures below the root name the file that was to be read or written; those of an open file name
/// none.
pub proof fn failures_below_the_root_name_the_file(
    io: AsyncProcfsIo,
    path: &[u8],
    request: WriteRequest,
    failure: IoFailure,
    read: FileRead<String>,
    write: FileWrite,
    whole: Result<String, ProcfsError>,
    value: Result<String, ProcfsError>,
    direct: Result<String, ProcfsError>,
    written: Result<(), ProcfsError>,
    set: Result<(), ProcfsError>,
    put: Result<(), ProcfsError>,
)
    requires
        is_directory(io.inner.root@),
        path@.len() > 0,
        path@[0] != SLASH,
        request.path@ == path@,
        read == FileRead::<String>::NotOpened(failure) || read == FileRead::<String>::NotRead(
            failure,
        ),
        write == FileWrite::NotOpened(failure) || write == FileWrite::NotWritten(failure),
        call_ensures(AsyncProcfsIo::read_file, (&io, path, read), whole),
        call_ensures(AsyncProcfsIo::read_value, (&io, path, read), value),
        call_ensures(AsyncProcfsIo::read_value_from, (&io, Err(failure)), direct),
        call_ensures(AsyncProcfsIo::write_file, (&io, &request, write), written),
        call_ensures(AsyncProcfsIo::write_value, (&io, &request, write), set),
        call_ensures(AsyncProcfsIo::write_value_to, (&io, Err(failure)), put),
    ensures
        ({
            let named = Some(io.inner.root@ + seq![SLASH] + path@);
            let error = if failure.has_cause || failure.kind == ErrorKind::Other {
                ErrorView::Io(failure.error, named)
            } else if failure.kind == ErrorKind::NotFound {
                ErrorView::NotFound(named)
            } else {
                ErrorView::PermissionDenied(named)
            };
            &&& fails_with(whole, error)
            &&& fails_with(value, error)
            &&& fails_with(written, error)
            &&& fails_with(set, error)
            &&& fails_with(direct, reported(failure))
            &&& fails_with(put, reported(failure))
        }),
{
    paths_are_joined_by_one_slash(io.inner.root@, path@);
}

/// What is written is what is asked for: after a write that succeeded the file holds exactly the
/// data, whether it was there or not, and a value that was written is the value that is read.
pub proof fn what_is_written_is_read(
    io: AsyncProcfsIo,
    path: &[u8],
    data: &[u8],
    text: &str,
    file: WriteRequest,
    value: WriteRequest,
    access: Access,
    before: Option<Seq<u8>>,
    content: String,
    r: Result<String, ProcfsError>,
    written: Result<(), ProcfsError>,
    set: Result<(), ProcfsError>,
    put: Result<(), ProcfsError>,
)
    requires
        is_trimmed(text@),
        call_ensures(WriteRequest::file, (path, data), file),
        call_ensures(WriteRequest::value, (path, text), value),
        call_ensures(WriteRequest::access, (&value,), access),
        stored(before, access, value.data@) == Some(encode_utf8(content@)),
        call_ensures(AsyncProcfsIo::read_value, (&io, path, FileRead::Read(content)), r),
        call_ensures(AsyncProcfsIo::write_file, (&io, &file, FileWrite::Written), written),
        call_ensures(AsyncProcfsIo::write_value, (&io, &value, FileWrite::Written), set),
        call_ensures(AsyncProcfsIo::write_value_to, (&io, Ok(())), put),
    ensures
        file.path@ == path@ && value.path@ == path@,
        file.data@ == data@,
        stored(before, access, file.data@) == Some(data@),
        r matches Ok(found) && found@ == text@,
        written is Ok && set is Ok && put is Ok,
        access.write && access.create && access.truncate,
{
    let none = Seq::<char>::empty();
    assert(value.leaves(before) == Some(encode_utf8(text@)));
    encode_utf8_decode_utf8(text@);
    encode_utf8_decode_utf8(content@);
    trimming_gives_the_text_back(none, text@, none);
    assert(none + text@ + none =~= text@);
}

/// The contents of a current file are taken as they are; a failure to open it names it.
pub proof fn current_files_are_taken_as_they_are<T>(
    procfs: AsyncProcfs,
    path: &str,
    read: FileRead<T>,
    r: Result<T, ProcfsError>,
)
    requires
        call_ensures(AsyncProcfs::current::<T>, (&procfs, path, read), r),
    ensures
        match read {
            FileRead::Read(content) => r == Ok::<T, ProcfsError>(content),
            FileRead::NotOpened(failure) => fails_with(
                r,
                reported_on(failure, joined(procfs.root@, encode_utf8(path@))),
            ),
            FileRead::NotRead(failure) => fails_with(r, reported(failure)),
        },
{
}

/// The version of the kernel is the one that its file begins with, whatever follows it.
pub proof fn the_version_is_the_one_in_the_file(
    kernel: AsyncProcfsSysKernel,
    version: Version,
    rest: Seq<char>,
    after: Seq<char>,
    content: String,
    r: Result<Version, ProcfsError>,
)
    requires
        rest.len() > 0 ==> rest[0] != '.' && !('0' <= rest[0] <= '9'),
        is_trimmed(rest),
        is_blank(after),
        content@ == decimal(version.major as int) + seq!['.'] + decimal(version.minor as int) + seq![
            '.',
        ] + decimal(version.patch as int) + rest + after,
        call_ensures(AsyncProcfsSysKernel::version, (&kernel, FileRead::Read(content)), r),
    ensures
        r == Ok::<Version, ProcfsError>(version),
{
    let none = Seq::<char>::empty();
    let text = decimal(version.major as int) + seq!['.'] + decimal(version.minor as int) + seq!['.']
        + decimal(version.patch as int) + rest;
    versions_read_back(version, rest);
    crate::number::decimal_is_a_word(version.major as int);
    crate::number::decimal_is_a_word(version.patch as int);
    assert(text[0] == decimal(version.major as int)[0]);
    if rest.len() == 0 {
        assert(text.last() == decimal(version.patch as int).last());
    } else {
        assert(text.last() == rest.last());
    }
    trimming_gives_the_text_back(none, text, after);
    assert(none + text + after =~= content@);
}

/// Earlier versions come before later ones: the major number decides, then the minor one, then the
/// patch level.
pub proof fn earlier_versions_come_first(a: Version, b: Version, r: bool, back: bool)
    requires
        call_ensures(Version::is_before, (&a, &b), r),
        call_ensures(Version::is_before, (&b, &a), back),
    ensures
        r <==> (a.major * 256 + a.minor) * 65536 + a.patch < (b.major * 256 + b.minor) * 65536
            + b.patch,
        !(r && back),
        !r && !back ==> a == b,
{
}

/// With which flags files are opened: a handle without opening the file unless the kernel is known
/// to be older than 3.6, and for threads in any case.
pub proof fn files_are_opened_with_their_flags(
    version: Option<Version>,
    process: OpenFlags,
    descriptor: OpenFlags,
    task: OpenFlags,
    listing: OpenFlags,
    new: Access,
    old: Access,
)
    requires
        call_ensures(process_flags, (version,), process),
        call_ensures(descriptor_flags, (version,), descriptor),
        call_ensures(task_flags, (), task),
        call_ensures(listing_flags, (), listing),
        call_ensures(replacing, (), new),
        call_ensures(updating, (), old),
    ensures
        ({
            let recent = version matches Some(v) ==> v.major > 3 || (v.major == 3 && v.minor >= 6);
            &&& process.path == recent
            &&& descriptor.path == recent
        }),
        process.directory && !process.no_follow && process.close_on_exec,
        !descriptor.directory && descriptor.no_follow && descriptor.close_on_exec,
        task.path && task.directory && !task.no_follow && !task.close_on_exec,
        !listing.path && listing.directory && !listing.no_follow && !listing.close_on_exec,
        new.write && new.create && new.truncate,
        old.write && !old.create && !old.truncate,
{
    if let Some(v) = version {
        path_handles_are_used_since_then(v);
    }
}

/// Where work is run: never on a runtime of a single thread that waits for it.
pub proof fn work_is_run_where_it_can_end(single: Execution, several: Execution, none: Execution)
    requires
        call_ensures(execution, (Some(Flavor::CurrentThread),), single),
        call_ensures(execution, (Some(Flavor::MultiThread),), several),
        call_ensures(execution, (None,), none),
    ensures
        single == Execution::OnOtherThread,
        several == Execution::OnThisRuntime,
        none == Execution::OnNewRuntime,
{
}

/// Access to the parts of a file system is access to those of the same file system, and the path of
/// a file lies below its root.
pub proof fn parts_belong_to_their_file_system(
    procfs: AsyncProcfs,
    path: &[u8],
    file: Vec<u8>,
    io: AsyncProcfsIo,
    info: AsyncLocalSystemInfo,
    number: u16,
    low_first: bool,
)
    requires
        is_directory(procfs.root@),
        call_ensures(AsyncProcfs::file, (&procfs, path), file),
        call_ensures(AsyncProcfs::io, (&procfs,), io),
        call_ensures(current_system_info, (&procfs,), info),
        call_ensures(low_byte_comes_first, (number,), low_first),
    ensures
        file@ == if path@.len() > 0 && path@[0] == SLASH {
            path@
        } else {
            procfs.root@ + seq![SLASH] + path@
        },
        io.inner == &procfs,
        info.inner.root@ == procfs.root@,
        low_first <==> number == 256,
{
    paths_are_joined_by_one_slash(procfs.root@, path@);
    if path@.len() > 0 && path@[0] == SLASH {
        paths_are_joined_by_one_slash(procfs.root@, path@.skip(1));
        assert(seq![SLASH] + path@.skip(1) =~= path@);
    }
}

} // verus!
