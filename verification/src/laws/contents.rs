//! What is read from the files that parsers read.
use std::collections::HashMap;
use vstd::prelude::*;
use vstd::utf8::encode_utf8;

use crate::error::{fails_with, reported_on, ErrorView, FileRead, ProcfsError};
use crate::laws::{below, is_directory};
use crate::number::decimal;
use crate::parse::shape::{
    arp_line, arp_shape, arp_start, begins_with, io_shape, limits_line, limits_shape, maps_shape,
    maps_start, stat_shape, with_line_feeds,
};
use crate::parse::written::{
    are_text_lines, arp_files_fit_line_by_line, hexadecimal_numbers_can_be_cut, io_text,
    is_smaps_line, limits_files_fit_line_by_line, lists_hold_their_numbers, number_list,
    smaps_texts, stat_text, written_io_files_fit, written_smaps_files_fit, written_stat_files_fit,
    SmapsLine,
};
use crate::parse::{
    arp_of, by_text, dev_status_of, io_of, is_arp_error, is_dev_status_error, is_io_error,
    is_limits_error, is_maps_error, is_mountinfo_error, is_mountstats_error, is_route_error,
    is_schedstat_error, is_smaps_rollup_error, is_snmp6_error, is_snmp_error, is_stat_error,
    is_statm_error, is_status_error, is_syscall_error, is_tcp_error, is_udp_error, is_unix_error,
    limits_of, maps_held, maps_of, mount_stats_held, mountinfo_of, mounts_held, mountstats_of,
    rollup_held, route_of, schedstat_of, smaps_rollup_of, snmp6_of, snmp_of, stat_of, statm_of,
    status_of, syscall_of, tcp_of, udp_of, unix_of,
};
use crate::process::reading::where_files_lie;
use crate::process::task::Task;
use crate::process::Process;
use crate::system_info::is_little_endian;
use crate::text::{is_blank, is_trimmed, is_word, lacks, trim, words};

verus! {

/// What `io` of a process holds is what the parser makes of all of it; a failure is reported.
pub proof fn process_io_is_what_the_parser_makes_of_it(
    process: Process,
    read: FileRead<Vec<u8>>,
    r: Result<procfs_core::process::Io, ProcfsError>,
)
    requires
        is_directory(process.path@),
        call_ensures(Process::io, (&process, read), r),
    ensures
        match read {
            FileRead::NotOpened(failure) => fails_with(
                r,
                reported_on(failure, below(process.path@, "io"@)),
            ),
            FileRead::NotRead(failure) => fails_with(
                r,
                reported_on(failure, below(process.path@, "io"@)),
            ),
            FileRead::Read(content) => if io_shape(content@) {
                match io_of(content@) {
                    Some(found) => r == Ok::<procfs_core::process::Io, ProcfsError>(found),
                    None => r matches Err(ProcfsError::Parse(e)) && is_io_error(content@, e),
                }
            } else {
                fails_with(r, ErrorView::Unparsable)
            },
        },
{
    where_files_lie(process.path@);
}

/// What `status` of a process holds is what the parser makes of all of it; a failure is reported.
pub proof fn process_status_is_what_the_parser_makes_of_it(
    process: Process,
    read: FileRead<Vec<u8>>,
    r: Result<procfs_core::process::Status, ProcfsError>,
)
    requires
        is_directory(process.path@),
        call_ensures(Process::status, (&process, read), r),
    ensures
        match read {
            FileRead::NotOpened(failure) => fails_with(
                r,
                reported_on(failure, below(process.path@, "status"@)),
            ),
            FileRead::NotRead(failure) => fails_with(
                r,
                reported_on(failure, below(process.path@, "io"@)),
            ),
            FileRead::Read(content) => match status_of(content@) {
                Some(found) => r == Ok::<procfs_core::process::Status, ProcfsError>(found),
                None => r matches Err(ProcfsError::Parse(e)) && is_status_error(content@, e),
            },
        },
{
    where_files_lie(process.path@);
}

/// What `limits` of a process holds is what the parser makes of all of it; a failure is reported.
pub proof fn process_limits_is_what_the_parser_makes_of_it(
    process: Process,
    read: FileRead<Vec<u8>>,
    r: Result<procfs_core::process::Limits, ProcfsError>,
)
    requires
        is_directory(process.path@),
        call_ensures(Process::limits, (&process, read), r),
    ensures
        match read {
            FileRead::NotOpened(failure) => fails_with(
                r,
                reported_on(failure, below(process.path@, "limits"@)),
            ),
            FileRead::NotRead(failure) => fails_with(
                r,
                reported_on(failure, below(process.path@, "io"@)),
            ),
            FileRead::Read(content) => if limits_shape(content@) {
                match limits_of(content@) {
                    Some(found) => r == Ok::<procfs_core::process::Limits, ProcfsError>(found),
                    None => r matches Err(ProcfsError::Parse(e)) && is_limits_error(content@, e),
                }
            } else {
                fails_with(r, ErrorView::Unparsable)
            },
        },
{
    where_files_lie(process.path@);
}

/// What `statm` of a process holds is what the parser makes of all of it; a failure is reported.
pub proof fn process_statm_is_what_the_parser_makes_of_it(
    process: Process,
    read: FileRead<Vec<u8>>,
    r: Result<procfs_core::process::StatM, ProcfsError>,
)
    requires
        is_directory(process.path@),
        call_ensures(Process::statm, (&process, read), r),
    ensures
        match read {
            FileRead::NotOpened(failure) => fails_with(
                r,
                reported_on(failure, below(process.path@, "statm"@)),
            ),
            FileRead::NotRead(failure) => fails_with(
                r,
                reported_on(failure, below(process.path@, "io"@)),
            ),
            FileRead::Read(content) => match statm_of(content@) {
                Some(found) => r == Ok::<procfs_core::process::StatM, ProcfsError>(found),
                None => r matches Err(ProcfsError::Parse(e)) && is_statm_error(content@, e),
            },
        },
{
    where_files_lie(process.path@);
}

/// What `schedstat` of a process holds is what the parser makes of all of it; a failure is
/// reported.
pub proof fn process_schedstat_is_what_the_parser_makes_of_it(
    process: Process,
    read: FileRead<Vec<u8>>,
    r: Result<procfs_core::process::Schedstat, ProcfsError>,
)
    requires
        is_directory(process.path@),
        call_ensures(Process::schedstat, (&process, read), r),
    ensures
        match read {
            FileRead::NotOpened(failure) => fails_with(
                r,
                reported_on(failure, below(process.path@, "schedstat"@)),
            ),
            FileRead::NotRead(failure) => fails_with(
                r,
                reported_on(failure, below(process.path@, "io"@)),
            ),
            FileRead::Read(content) => match schedstat_of(content@) {
                Some(found) => r == Ok::<procfs_core::process::Schedstat, ProcfsError>(found),
                None => r matches Err(ProcfsError::Parse(e)) && is_schedstat_error(content@, e),
            },
        },
{
    where_files_lie(process.path@);
}

/// What `syscall` of a process holds is what the parser makes of all of it; a failure is reported.
pub proof fn process_syscall_is_what_the_parser_makes_of_it(
    process: Process,
    read: FileRead<Vec<u8>>,
    r: Result<procfs_core::process::Syscall, ProcfsError>,
)
    requires
        is_directory(process.path@),
        call_ensures(Process::syscall, (&process, read), r),
    ensures
        match read {
            FileRead::NotOpened(failure) => fails_with(
                r,
                reported_on(failure, below(process.path@, "syscall"@)),
            ),
            FileRead::NotRead(failure) => fails_with(
                r,
                reported_on(failure, below(process.path@, "io"@)),
            ),
            FileRead::Read(content) => match syscall_of(content@) {
                Some(found) => r == Ok::<procfs_core::process::Syscall, ProcfsError>(found),
                None => r matches Err(ProcfsError::Parse(e)) && is_syscall_error(content@, e),
            },
        },
{
    where_files_lie(process.path@);
}

/// What `stat` of a process holds is what the parser makes of all of it; a failure is reported.
pub proof fn process_stat_is_what_the_parser_makes_of_it(
    process: Process,
    read: FileRead<Vec<u8>>,
    r: Result<procfs_core::process::Stat, ProcfsError>,
)
    requires
        is_directory(process.path@),
        call_ensures(Process::stat, (&process, read), r),
    ensures
        match read {
            FileRead::NotOpened(failure) => fails_with(
                r,
                reported_on(failure, below(process.path@, "stat"@)),
            ),
            FileRead::NotRead(failure) => fails_with(
                r,
                reported_on(failure, below(process.path@, "io"@)),
            ),
            FileRead::Read(content) => if stat_shape(content@) {
                match stat_of(content@) {
                    Some(found) => r == Ok::<procfs_core::process::Stat, ProcfsError>(found.0),
                    None => r matches Err(ProcfsError::Parse(e)) && is_stat_error(content@, e),
                }
            } else {
                fails_with(r, ErrorView::Unparsable)
            },
        },
{
    where_files_lie(process.path@);
}

/// What `maps` of a process holds is what the parser makes of all of it; a failure is reported.
pub proof fn process_maps_is_what_the_parser_makes_of_it(
    process: Process,
    read: FileRead<Vec<u8>>,
    r: Result<procfs_core::process::MemoryMaps, ProcfsError>,
)
    requires
        is_directory(process.path@),
        call_ensures(Process::maps, (&process, read), r),
    ensures
        match read {
            FileRead::NotOpened(failure) => fails_with(
                r,
                reported_on(failure, below(process.path@, "maps"@)),
            ),
            FileRead::NotRead(failure) => fails_with(
                r,
                reported_on(failure, below(process.path@, "io"@)),
            ),
            FileRead::Read(content) => if maps_shape(content@) {
                match maps_of(content@) {
                    Some(found) => r matches Ok(value) && maps_held(value) == found,
                    None => r matches Err(ProcfsError::Parse(e)) && is_maps_error(content@, e),
                }
            } else {
                &&& r matches Err(e) && (e@ is Parse || e@ is Unparsable)
                &&& maps_of(maps_start(content@)) is Some ==> (r matches Err(e) && e@ is Unparsable)
            },
        },
{
    where_files_lie(process.path@);
}

/// What `smaps` of a process holds is what the parser makes of all of it; a failure is reported.
pub proof fn process_smaps_is_what_the_parser_makes_of_it(
    process: Process,
    read: FileRead<Vec<u8>>,
    r: Result<procfs_core::process::MemoryMaps, ProcfsError>,
)
    requires
        is_directory(process.path@),
        call_ensures(Process::smaps, (&process, read), r),
    ensures
        match read {
            FileRead::NotOpened(failure) => fails_with(
                r,
                reported_on(failure, below(process.path@, "smaps"@)),
            ),
            FileRead::NotRead(failure) => fails_with(
                r,
                reported_on(failure, below(process.path@, "io"@)),
            ),
            FileRead::Read(content) => if maps_shape(content@) {
                match maps_of(content@) {
                    Some(found) => r matches Ok(value) && maps_held(value) == found,
                    None => r matches Err(ProcfsError::Parse(e)) && is_maps_error(content@, e),
                }
            } else {
                &&& r matches Err(e) && (e@ is Parse || e@ is Unparsable)
                &&& maps_of(maps_start(content@)) is Some ==> (r matches Err(e) && e@ is Unparsable)
            },
        },
{
    where_files_lie(process.path@);
}

/// What `smaps_rollup` of a process holds is what the parser makes of all of it; a failure is
/// reported.
pub proof fn process_smaps_rollup_is_what_the_parser_makes_of_it(
    process: Process,
    read: FileRead<Vec<u8>>,
    r: Result<procfs_core::process::SmapsRollup, ProcfsError>,
)
    requires
        is_directory(process.path@),
        call_ensures(Process::smaps_rollup, (&process, read), r),
    ensures
        match read {
            FileRead::NotOpened(failure) => fails_with(
                r,
                reported_on(failure, below(process.path@, "smaps_rollup"@)),
            ),
            FileRead::NotRead(failure) => fails_with(
                r,
                reported_on(failure, below(process.path@, "io"@)),
            ),
            FileRead::Read(content) => if maps_shape(content@) {
                match smaps_rollup_of(content@) {
                    Some(found) => r matches Ok(value) && rollup_held(value) == found,
                    None => r matches Err(ProcfsError::Parse(e)) && is_smaps_rollup_error(content@, e),
                }
            } else {
                &&& r matches Err(e) && (e@ is Parse || e@ is Unparsable)
                &&& smaps_rollup_of(maps_start(content@)) is Some ==> (r matches Err(e) && e@ is Unparsable)
            },
        },
{
    where_files_lie(process.path@);
}

/// What `mountstats` of a process holds is what the parser makes of all of it; a failure is
/// reported.
pub proof fn process_mountstats_is_what_the_parser_makes_of_it(
    process: Process,
    read: FileRead<Vec<u8>>,
    r: Result<procfs_core::process::MountStats, ProcfsError>,
)
    requires
        is_directory(process.path@),
        call_ensures(Process::mountstats, (&process, read), r),
    ensures
        match read {
            FileRead::NotOpened(failure) => fails_with(
                r,
                reported_on(failure, below(process.path@, "mountstats"@)),
            ),
            FileRead::NotRead(failure) => fails_with(
                r,
                reported_on(failure, below(process.path@, "io"@)),
            ),
            FileRead::Read(content) => match mountstats_of(content@) {
                Some(found) => r matches Ok(value) && mount_stats_held(value) == found,
                None => r matches Err(ProcfsError::Parse(e)) && is_mountstats_error(content@, e),
            },
        },
{
    where_files_lie(process.path@);
}

/// What `mountinfo` of a process holds is what the parser makes of all of it; a failure is
/// reported.
pub proof fn process_mountinfo_is_what_the_parser_makes_of_it(
    process: Process,
    read: FileRead<Vec<u8>>,
    r: Result<procfs_core::process::MountInfos, ProcfsError>,
)
    requires
        is_directory(process.path@),
        call_ensures(Process::mountinfo, (&process, read), r),
    ensures
        match read {
            FileRead::NotOpened(failure) => fails_with(
                r,
                reported_on(failure, below(process.path@, "mountinfo"@)),
            ),
            FileRead::NotRead(failure) => fails_with(
                r,
                reported_on(failure, below(process.path@, "io"@)),
            ),
            FileRead::Read(content) => match mountinfo_of(content@) {
                Some(found) => r matches Ok(value) && mounts_held(value) == found,
                None => r matches Err(ProcfsError::Parse(e)) && is_mountinfo_error(content@, e),
            },
        },
{
    where_files_lie(process.path@);
}

/// What `net/tcp` of a process holds is what the parser makes of all of it; a failure is reported.
pub proof fn process_tcp_is_what_the_parser_makes_of_it(
    process: Process,
    read: FileRead<Vec<u8>>,
    little_endian: bool,
    r: Result<Vec<procfs_core::net::TcpNetEntry>, ProcfsError>,
)
    requires
        is_directory(process.path@),
        call_ensures(Process::tcp, (&process, read, little_endian), r),
    ensures
        match read {
            FileRead::NotOpened(failure) => fails_with(
                r,
                reported_on(failure, below(process.path@, "net/tcp"@)),
            ),
            FileRead::NotRead(failure) => fails_with(
                r,
                reported_on(failure, below(process.path@, "io"@)),
            ),
            FileRead::Read(content) => match tcp_of(content@, little_endian) {
                Some(found) => r matches Ok(list) && list@ == found,
                None => r matches Err(ProcfsError::Parse(e)) && is_tcp_error(content@, little_endian, e),
            },
        },
{
    where_files_lie(process.path@);
}

/// What `net/tcp6` of a process holds is what the parser makes of all of it; a failure is reported.
pub proof fn process_tcp6_is_what_the_parser_makes_of_it(
    process: Process,
    read: FileRead<Vec<u8>>,
    little_endian: bool,
    r: Result<Vec<procfs_core::net::TcpNetEntry>, ProcfsError>,
)
    requires
        is_directory(process.path@),
        call_ensures(Process::tcp6, (&process, read, little_endian), r),
    ensures
        match read {
            FileRead::NotOpened(failure) => fails_with(
                r,
                reported_on(failure, below(process.path@, "net/tcp6"@)),
            ),
            FileRead::NotRead(failure) => fails_with(
                r,
                reported_on(failure, below(process.path@, "io"@)),
            ),
            FileRead::Read(content) => match tcp_of(content@, little_endian) {
                Some(found) => r matches Ok(list) && list@ == found,
                None => r matches Err(ProcfsError::Parse(e)) && is_tcp_error(content@, little_endian, e),
            },
        },
{
    where_files_lie(process.path@);
}

/// What `net/udp` of a process holds is what the parser makes of all of it; a failure is reported.
pub proof fn process_udp_is_what_the_parser_makes_of_it(
    process: Process,
    read: FileRead<Vec<u8>>,
    little_endian: bool,
    r: Result<Vec<procfs_core::net::UdpNetEntry>, ProcfsError>,
)
    requires
        is_directory(process.path@),
        call_ensures(Process::udp, (&process, read, little_endian), r),
    ensures
        match read {
            FileRead::NotOpened(failure) => fails_with(
                r,
                reported_on(failure, below(process.path@, "net/udp"@)),
            ),
            FileRead::NotRead(failure) => fails_with(
                r,
                reported_on(failure, below(process.path@, "io"@)),
            ),
            FileRead::Read(content) => match udp_of(content@, little_endian) {
                Some(found) => r matches Ok(list) && list@ == found,
                None => r matches Err(ProcfsError::Parse(e)) && is_udp_error(content@, little_endian, e),
            },
        },
{
    where_files_lie(process.path@);
}

/// What `net/udp6` of a process holds is what the parser makes of all of it; a failure is reported.
pub proof fn process_udp6_is_what_the_parser_makes_of_it(
    process: Process,
    read: FileRead<Vec<u8>>,
    little_endian: bool,
    r: Result<Vec<procfs_core::net::UdpNetEntry>, ProcfsError>,
)
    requires
        is_directory(process.path@),
        call_ensures(Process::udp6, (&process, read, little_endian), r),
    ensures
        match read {
            FileRead::NotOpened(failure) => fails_with(
                r,
                reported_on(failure, below(process.path@, "net/udp6"@)),
            ),
            FileRead::NotRead(failure) => fails_with(
                r,
                reported_on(failure, below(process.path@, "io"@)),
            ),
            FileRead::Read(content) => match udp_of(content@, little_endian) {
                Some(found) => r matches Ok(list) && list@ == found,
                None => r matches Err(ProcfsError::Parse(e)) && is_udp_error(content@, little_endian, e),
            },
        },
{
    where_files_lie(process.path@);
}

/// What `net/unix` of a process holds is what the parser makes of all of it; a failure is reported.
pub proof fn process_unix_is_what_the_parser_makes_of_it(
    process: Process,
    read: FileRead<Vec<u8>>,
    r: Result<Vec<procfs_core::net::UnixNetEntry>, ProcfsError>,
)
    requires
        is_directory(process.path@),
        call_ensures(Process::unix, (&process, read), r),
    ensures
        match read {
            FileRead::NotOpened(failure) => fails_with(
                r,
                reported_on(failure, below(process.path@, "net/unix"@)),
            ),
            FileRead::NotRead(failure) => fails_with(
                r,
                reported_on(failure, below(process.path@, "io"@)),
            ),
            FileRead::Read(content) => match unix_of(content@) {
                Some(found) => r matches Ok(list) && list@ == found,
                None => r matches Err(ProcfsError::Parse(e)) && is_unix_error(content@, e),
            },
        },
{
    where_files_lie(process.path@);
}

/// What `net/arp` of a process holds is what the parser makes of all of it; a failure is reported.
pub proof fn process_arp_is_what_the_parser_makes_of_it(
    process: Process,
    read: FileRead<Vec<u8>>,
    r: Result<Vec<procfs_core::net::ARPEntry>, ProcfsError>,
)
    requires
        is_directory(process.path@),
        call_ensures(Process::arp, (&process, read), r),
    ensures
        match read {
            FileRead::NotOpened(failure) => fails_with(
                r,
                reported_on(failure, below(process.path@, "net/arp"@)),
            ),
            FileRead::NotRead(failure) => fails_with(
                r,
                reported_on(failure, below(process.path@, "io"@)),
            ),
            FileRead::Read(content) => if arp_shape(content@) {
                match arp_of(content@) {
                    Some(found) => r matches Ok(list) && list@ == found,
                    None => r matches Err(ProcfsError::Parse(e)) && is_arp_error(content@, e),
                }
            } else {
                &&& r matches Err(e) && (e@ is Parse || e@ is Unparsable)
                &&& arp_of(arp_start(content@)) is Some ==> (r matches Err(e) && e@ is Unparsable)
            },
        },
{
    where_files_lie(process.path@);
}

/// What `net/dev` of a process holds is what the parser makes of all of it; a failure is reported.
pub proof fn process_dev_status_is_what_the_parser_makes_of_it(
    process: Process,
    read: FileRead<Vec<u8>>,
    r: Result<HashMap<String, procfs_core::net::DeviceStatus>, ProcfsError>,
)
    requires
        is_directory(process.path@),
        call_ensures(Process::dev_status, (&process, read), r),
    ensures
        match read {
            FileRead::NotOpened(failure) => fails_with(
                r,
                reported_on(failure, below(process.path@, "net/dev"@)),
            ),
            FileRead::NotRead(failure) => fails_with(
                r,
                reported_on(failure, below(process.path@, "io"@)),
            ),
            FileRead::Read(content) => match dev_status_of(content@) {
                Some(found) => r matches Ok(table) && by_text(table@) == found,
                None => r matches Err(ProcfsError::Parse(e)) && is_dev_status_error(content@, e),
            },
        },
{
    where_files_lie(process.path@);
}

/// What `net/snmp` of a process holds is what the parser makes of all of it; a failure is reported.
pub proof fn process_snmp_is_what_the_parser_makes_of_it(
    process: Process,
    read: FileRead<Vec<u8>>,
    r: Result<procfs_core::net::Snmp, ProcfsError>,
)
    requires
        is_directory(process.path@),
        call_ensures(Process::snmp, (&process, read), r),
    ensures
        match read {
            FileRead::NotOpened(failure) => fails_with(
                r,
                reported_on(failure, below(process.path@, "net/snmp"@)),
            ),
            FileRead::NotRead(failure) => fails_with(
                r,
                reported_on(failure, below(process.path@, "io"@)),
            ),
            FileRead::Read(content) => match snmp_of(content@) {
                Some(found) => r == Ok::<procfs_core::net::Snmp, ProcfsError>(found),
                None => r matches Err(ProcfsError::Parse(e)) && is_snmp_error(content@, e),
            },
        },
{
    where_files_lie(process.path@);
}

/// What `net/snmp6` of a process holds is what the parser makes of all of it; a failure is
/// reported.
pub proof fn process_snmp6_is_what_the_parser_makes_of_it(
    process: Process,
    read: FileRead<Vec<u8>>,
    r: Result<procfs_core::net::Snmp6, ProcfsError>,
)
    requires
        is_directory(process.path@),
        call_ensures(Process::snmp6, (&process, read), r),
    ensures
        match read {
            FileRead::NotOpened(failure) => fails_with(
                r,
                reported_on(failure, below(process.path@, "net/snmp6"@)),
            ),
            FileRead::NotRead(failure) => fails_with(
                r,
                reported_on(failure, below(process.path@, "io"@)),
            ),
            FileRead::Read(content) => match snmp6_of(content@) {
                Some(found) => r == Ok::<procfs_core::net::Snmp6, ProcfsError>(found),
                None => r matches Err(ProcfsError::Parse(e)) && is_snmp6_error(content@, e),
            },
        },
{
    where_files_lie(process.path@);
}

/// What `stat` of a thread holds is what the parser makes of all of it; a failure is reported.
pub proof fn task_stat_is_what_the_parser_makes_of_it(
    task: Task,
    read: FileRead<Vec<u8>>,
    r: Result<procfs_core::process::Stat, ProcfsError>,
)
    requires
        is_directory(task.path@),
        call_ensures(Task::stat, (&task, read), r),
    ensures
        match read {
            FileRead::NotOpened(failure) => fails_with(
                r,
                reported_on(failure, below(task.path@, "stat"@)),
            ),
            FileRead::NotRead(failure) => fails_with(
                r,
                reported_on(failure, below(task.path@, "io"@)),
            ),
            FileRead::Read(content) => if stat_shape(content@) {
                match stat_of(content@) {
                    Some(found) => r == Ok::<procfs_core::process::Stat, ProcfsError>(found.0),
                    None => r matches Err(ProcfsError::Parse(e)) && is_stat_error(content@, e),
                }
            } else {
                fails_with(r, ErrorView::Unparsable)
            },
        },
{
    where_files_lie(task.path@);
}

/// What `status` of a thread holds is what the parser makes of all of it; a failure is reported.
pub proof fn task_status_is_what_the_parser_makes_of_it(
    task: Task,
    read: FileRead<Vec<u8>>,
    r: Result<procfs_core::process::Status, ProcfsError>,
)
    requires
        is_directory(task.path@),
        call_ensures(Task::status, (&task, read), r),
    ensures
        match read {
            FileRead::NotOpened(failure) => fails_with(
                r,
                reported_on(failure, below(task.path@, "status"@)),
            ),
            FileRead::NotRead(failure) => fails_with(
                r,
                reported_on(failure, below(task.path@, "io"@)),
            ),
            FileRead::Read(content) => match status_of(content@) {
                Some(found) => r == Ok::<procfs_core::process::Status, ProcfsError>(found),
                None => r matches Err(ProcfsError::Parse(e)) && is_status_error(content@, e),
            },
        },
{
    where_files_lie(task.path@);
}

/// What `io` of a thread holds is what the parser makes of all of it; a failure is reported.
pub proof fn task_io_is_what_the_parser_makes_of_it(
    task: Task,
    read: FileRead<Vec<u8>>,
    r: Result<procfs_core::process::Io, ProcfsError>,
)
    requires
        is_directory(task.path@),
        call_ensures(Task::io, (&task, read), r),
    ensures
        match read {
            FileRead::NotOpened(failure) => fails_with(
                r,
                reported_on(failure, below(task.path@, "io"@)),
            ),
            FileRead::NotRead(failure) => fails_with(
                r,
                reported_on(failure, below(task.path@, "io"@)),
            ),
            FileRead::Read(content) => if io_shape(content@) {
                match io_of(content@) {
                    Some(found) => r == Ok::<procfs_core::process::Io, ProcfsError>(found),
                    None => r matches Err(ProcfsError::Parse(e)) && is_io_error(content@, e),
                }
            } else {
                fails_with(r, ErrorView::Unparsable)
            },
        },
{
    where_files_lie(task.path@);
}

/// What `schedstat` of a thread holds is what the parser makes of all of it; a failure is reported.
pub proof fn task_schedstat_is_what_the_parser_makes_of_it(
    task: Task,
    read: FileRead<Vec<u8>>,
    r: Result<procfs_core::process::Schedstat, ProcfsError>,
)
    requires
        is_directory(task.path@),
        call_ensures(Task::schedstat, (&task, read), r),
    ensures
        match read {
            FileRead::NotOpened(failure) => fails_with(
                r,
                reported_on(failure, below(task.path@, "schedstat"@)),
            ),
            FileRead::NotRead(failure) => fails_with(
                r,
                reported_on(failure, below(task.path@, "io"@)),
            ),
            FileRead::Read(content) => match schedstat_of(content@) {
                Some(found) => r == Ok::<procfs_core::process::Schedstat, ProcfsError>(found),
                None => r matches Err(ProcfsError::Parse(e)) && is_schedstat_error(content@, e),
            },
        },
{
    where_files_lie(task.path@);
}

/// What `syscall` of a thread holds is what the parser makes of all of it; a failure is reported.
pub proof fn task_syscall_is_what_the_parser_makes_of_it(
    task: Task,
    read: FileRead<Vec<u8>>,
    r: Result<procfs_core::process::Syscall, ProcfsError>,
)
    requires
        is_directory(task.path@),
        call_ensures(Task::syscall, (&task, read), r),
    ensures
        match read {
            FileRead::NotOpened(failure) => fails_with(
                r,
                reported_on(failure, below(task.path@, "syscall"@)),
            ),
            FileRead::NotRead(failure) => fails_with(
                r,
                reported_on(failure, below(task.path@, "io"@)),
            ),
            FileRead::Read(content) => match syscall_of(content@) {
                Some(found) => r == Ok::<procfs_core::process::Syscall, ProcfsError>(found),
                None => r matches Err(ProcfsError::Parse(e)) && is_syscall_error(content@, e),
            },
        },
{
    where_files_lie(task.path@);
}

/// The routes of a process are those that the parser finds, in the byte order of the machine.
pub proof fn process_routes_are_in_the_byte_order_of_the_machine(
    process: Process,
    read: FileRead<Vec<u8>>,
    little_endian: bool,
    r: Result<Vec<procfs_core::net::RouteEntry>, ProcfsError>,
)
    requires
        is_directory(process.path@),
        call_ensures(Process::route, (&process, read), r),
        call_ensures(is_little_endian, (), little_endian),
    ensures
        match read {
            FileRead::NotOpened(failure) => fails_with(
                r,
                reported_on(failure, below(process.path@, "net/route"@)),
            ),
            FileRead::NotRead(failure) => fails_with(
                r,
                reported_on(failure, below(process.path@, "io"@)),
            ),
            FileRead::Read(content) => match route_of(content@, little_endian) {
                Some(found) => r matches Ok(list) && list@ == found,
                None => r matches Err(ProcfsError::Parse(e)) && is_route_error(content@, e),
            },
        },
{
    where_files_lie(process.path@);
}

/// A `stat` file as the kernel writes it is never refused: the process or thread is read as the
/// parser reads it, and is alive unless it is a zombie or dead.
pub proof fn written_stat_files_are_read(
    process: Process,
    task: Task,
    content: Vec<u8>,
    pid: int,
    name: Seq<char>,
    rest: Seq<char>,
    after: Seq<char>,
    r: Result<procfs_core::process::Stat, ProcfsError>,
    of_task: Result<procfs_core::process::Stat, ProcfsError>,
    alive: Option<bool>,
)
    requires
        rest.len() > 0,
        is_trimmed(rest),
        lacks(rest, ')'),
        is_blank(after),
        content@ == encode_utf8(decimal(pid) + seq![' ', '('] + name + seq![')', ' '] + rest + after),
        call_ensures(Process::stat, (&process, FileRead::Read(content)), r),
        call_ensures(Task::stat, (&task, FileRead::Read(content)), of_task),
        call_ensures(Process::is_alive, (&process, FileRead::Read(content)), alive),
    ensures
        match stat_of(content@) {
            Some((stat, state)) => {
                &&& r == Ok::<procfs_core::process::Stat, ProcfsError>(stat)
                &&& of_task == Ok::<procfs_core::process::Stat, ProcfsError>(stat)
                &&& alive == Some(state != 'Z' && state != 'X' && state != 'x')
            },
            None => {
                &&& r matches Err(ProcfsError::Parse(e)) && is_stat_error(content@, e)
                &&& of_task matches Err(ProcfsError::Parse(e)) && is_stat_error(content@, e)
                &&& alive == Some(false)
            },
        },
{
    let none = Seq::<char>::empty();
    written_stat_files_fit(pid, name, rest, none, after);
    assert(none + stat_text(pid, name, rest) + after =~= decimal(pid) + seq![' ', '('] + name + seq![
        ')',
        ' ',
    ] + rest + after);
}

/// A process whose `stat` file cannot be read is not alive; there is no answer exactly if the
/// contents do not fit the parser.
pub proof fn unread_processes_are_not_alive(
    process: Process,
    read: FileRead<Vec<u8>>,
    alive: Option<bool>,
)
    requires
        call_ensures(Process::is_alive, (&process, read), alive),
    ensures
        !(read is Read) ==> alive == Some(false),
        alive is None <==> (read matches FileRead::Read(content) && !stat_shape(content@)),
{
}

/// `maps`, `smaps` and `smaps_rollup` files as the kernel writes them are never refused, however
/// large the maps are: what the parser makes of them is what is read.
pub proof fn written_smaps_files_are_read(
    process: Process,
    content: Vec<u8>,
    file: Seq<SmapsLine>,
    maps: Result<procfs_core::process::MemoryMaps, ProcfsError>,
    smaps: Result<procfs_core::process::MemoryMaps, ProcfsError>,
    sums: Result<procfs_core::process::SmapsRollup, ProcfsError>,
)
    requires
        forall|i: int| 0 <= i < file.len() ==> is_smaps_line(#[trigger] file[i]),
        content@ == encode_utf8(with_line_feeds(smaps_texts(file))),
        call_ensures(Process::maps, (&process, FileRead::Read(content)), maps),
        call_ensures(Process::smaps, (&process, FileRead::Read(content)), smaps),
        call_ensures(Process::smaps_rollup, (&process, FileRead::Read(content)), sums),
    ensures
        match maps_of(content@) {
            Some(found) => {
                &&& maps matches Ok(value) && maps_held(value) == found
                &&& smaps matches Ok(value) && maps_held(value) == found
            },
            None => {
                &&& maps matches Err(ProcfsError::Parse(e)) && is_maps_error(content@, e)
                &&& smaps matches Err(ProcfsError::Parse(e)) && is_maps_error(content@, e)
            },
        },
        match smaps_rollup_of(content@) {
            Some(found) => sums matches Ok(value) && rollup_held(value) == found,
            None => sums matches Err(ProcfsError::Parse(e)) && is_smaps_rollup_error(content@, e),
        },
{
    written_smaps_files_fit(file);
}

/// An `io` file as the kernel writes it is never refused.
pub proof fn written_io_files_are_read(
    process: Process,
    task: Task,
    content: Vec<u8>,
    labels: Seq<Seq<char>>,
    numbers: Seq<u64>,
    r: Result<procfs_core::process::Io, ProcfsError>,
    of_task: Result<procfs_core::process::Io, ProcfsError>,
)
    requires
        labels.len() == numbers.len(),
        forall|i: int|
            0 <= i < labels.len() ==> is_word(#[trigger] labels[i]) && labels[i].last() == ':',
        content@ == encode_utf8(
            with_line_feeds(
                Seq::new(labels.len(), |i: int| labels[i] + seq![' '] + decimal(numbers[i] as int)),
            ),
        ),
        call_ensures(Process::io, (&process, FileRead::Read(content)), r),
        call_ensures(Task::io, (&task, FileRead::Read(content)), of_task),
    ensures
        match io_of(content@) {
            Some(found) => {
                &&& r == Ok::<procfs_core::process::Io, ProcfsError>(found)
                &&& of_task == Ok::<procfs_core::process::Io, ProcfsError>(found)
            },
            None => {
                &&& r matches Err(ProcfsError::Parse(e)) && is_io_error(content@, e)
                &&& of_task matches Err(ProcfsError::Parse(e)) && is_io_error(content@, e)
            },
        },
{
    written_io_files_fit(labels, numbers);
    assert(Seq::new(labels.len(), |i: int| io_text(labels[i], numbers[i] as int)) =~= Seq::new(
        labels.len(),
        |i: int| labels[i] + seq![' '] + decimal(numbers[i] as int),
    ));
}

/// A `limits` file is never refused if each of its lines is the heading or has three words.
pub proof fn written_limits_files_are_read(
    process: Process,
    content: Vec<u8>,
    texts: Seq<Seq<char>>,
    r: Result<procfs_core::process::Limits, ProcfsError>,
)
    requires
        are_text_lines(texts),
        forall|i: int|
            0 <= i < texts.len() ==> words(#[trigger] texts[i]).len() >= 3 || begins_with(
                trim(texts[i]),
                "Limit"@,
            ),
        content@ == encode_utf8(with_line_feeds(texts)),
        call_ensures(Process::limits, (&process, FileRead::Read(content)), r),
    ensures
        match limits_of(content@) {
            Some(found) => r == Ok::<procfs_core::process::Limits, ProcfsError>(found),
            None => r matches Err(ProcfsError::Parse(e)) && is_limits_error(content@, e),
        },
{
    assert forall|i: int| 0 <= i < texts.len() implies limits_line(#[trigger] texts[i]) by {
        assert(words(texts[i]).len() >= 3 || begins_with(trim(texts[i]), "Limit"@));
    }
    limits_files_fit_line_by_line(texts);
}

/// An `arp` file is never refused if the second and the third word of each of its lines begin with
/// `0x`, whatever its heading is.
pub proof fn written_arp_files_are_read(
    process: Process,
    content: Vec<u8>,
    heading: Seq<char>,
    texts: Seq<Seq<char>>,
    r: Result<Vec<procfs_core::net::ARPEntry>, ProcfsError>,
)
    requires
        lacks(heading, '\n'),
        are_text_lines(texts),
        forall|i: int, k: int|
            0 <= i < texts.len() && (k == 1 || k == 2) && k < words(texts[i]).len() ==> (
            #[trigger] words(texts[i])[k]).len() >= 2 && words(texts[i])[k][0] == '0' && words(
                texts[i],
            )[k][1] == 'x',
        content@ == encode_utf8(with_line_feeds(seq![heading] + texts)),
        call_ensures(Process::arp, (&process, FileRead::Read(content)), r),
    ensures
        match arp_of(content@) {
            Some(found) => r matches Ok(list) && list@ == found,
            None => r matches Err(ProcfsError::Parse(e)) && is_arp_error(content@, e),
        },
{
    assert forall|i: int| 0 <= i < texts.len() implies arp_line(#[trigger] texts[i]) by {
        let found = words(texts[i]);
        if found.len() >= 2 {
            let word = words(texts[i])[1];
            assert(word =~= seq!['0', 'x'] + word.skip(2));
            hexadecimal_numbers_can_be_cut(word.skip(2), seq![], 0);
        }
        if found.len() >= 3 {
            let word = words(texts[i])[2];
            assert(word =~= seq!['0', 'x'] + word.skip(2));
            hexadecimal_numbers_can_be_cut(word.skip(2), seq![], 0);
        }
    }
    arp_files_fit_line_by_line(heading, texts);
}

/// The files that hold a list of numbers are read exactly if there are enough of them.
pub proof fn lists_of_numbers_are_read(
    process: Process,
    task: Task,
    content: Vec<u8>,
    numbers: Seq<u64>,
    sizes: Result<procfs_core::process::StatM, ProcfsError>,
    times: Result<procfs_core::process::Schedstat, ProcfsError>,
    of_task: Result<procfs_core::process::Schedstat, ProcfsError>,
)
    requires
        content@ == encode_utf8(number_list(numbers)),
        call_ensures(Process::statm, (&process, FileRead::Read(content)), sizes),
        call_ensures(Process::schedstat, (&process, FileRead::Read(content)), times),
        call_ensures(Task::schedstat, (&task, FileRead::Read(content)), of_task),
    ensures
        sizes is Ok <==> numbers.len() >= 7,
        times is Ok <==> numbers.len() >= 3,
        of_task is Ok <==> numbers.len() >= 3,
{
    lists_hold_their_numbers(numbers, 7);
    lists_hold_their_numbers(numbers, 3);
}

} // verus!
