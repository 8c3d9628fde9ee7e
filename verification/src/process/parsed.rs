//! The files of a process that the parsers of `procfs_core` read.
use std::collections::HashMap;
use vstd::prelude::*;
use vstd::utf8::encode_utf8;

use crate::error::{fails_with, take_parsed, ErrorView, FileRead, ProcfsError};
use crate::parse::shape::{
    arp_cut_short, arp_fits, arp_shape, arp_start, io_fits, io_shape, limits_fit, limits_shape,
    maps_cut_short, maps_fit, maps_shape, maps_start, stat_fits, stat_shape, with_line_feeds,
};
use crate::parse::written::{
    is_smaps_line, smaps_texts, stat_text, written_smaps_files_fit, written_stat_files_fit,
    SmapsLine,
};
use crate::parse::{
    arp_of, by_text, dev_status_of, holds_numbers, io_of, is_arp_error, is_dev_status_error,
    is_io_error, is_limits_error, is_maps_error, is_mountinfo_error, is_mountstats_error,
    is_route_error, is_schedstat_error, is_smaps_rollup_error, is_snmp6_error, is_snmp_error,
    is_stat_error, is_statm_error, is_status_error, is_syscall_error, is_tcp_error, is_udp_error,
    is_unix_error, limits_of, maps_held, maps_of, mount_stats_held, mountinfo_of, mounts_held,
    mountstats_of, parse_arp, parse_dev_status, parse_io, parse_limits, parse_maps, parse_mountinfo,
    parse_mountstats, parse_route, parse_schedstat, parse_smaps_rollup, parse_snmp, parse_snmp6,
    parse_stat, parse_statm, parse_status, parse_syscall, parse_tcp, parse_udp, parse_unix,
    rollup_held, route_of, schedstat_of, smaps_rollup_of, snmp6_of, snmp_of, stat_of, statm_of,
    status_of, syscall_of, tcp_of, udp_of, unix_of,
};
use crate::process::files::ProcessFile;
use crate::process::reading::{
    contents, failure_of_parsed, is_parsed, is_parsed_list, is_rejection, is_result,
    take_for_parser,
};
use crate::process::Process;
use crate::system_info::is_byte_order;
use crate::text::{is_blank, is_trimmed, lacks};

verus! {

/// What the parser makes of the contents of a `stat` file.
pub open spec fn stat_record(content: Seq<u8>) -> Option<procfs_core::process::Stat> {
    match stat_of(content) {
        Some((stat, _)) => Some(stat),
        None => None,
    }
}

/// Tells whether a process in that state is alive: zombies and the dead are not.
pub open spec fn alive(state: char) -> bool {
    state != 'Z' && state != 'X' && state != 'x'
}

/// Decides whether a process in that state is alive.
pub fn state_is_alive(state: char) -> (r: bool)
    ensures
        r == alive(state),
{
    state != 'Z' && state != 'X' && state != 'x'
}

/// Tells whether `r` is the memory maps in the contents. Contents that do not fit the parser are
/// rejected all the same if the parser rejects what is in front of the place where they do not fit.
pub open spec fn is_maps(
    r: Result<procfs_core::process::MemoryMaps, ProcfsError>,
    content: Seq<u8>,
) -> bool {
    if maps_shape(content) {
        match maps_of(content) {
            Some(held) => r matches Ok(value) && maps_held(value) == held,
            None => is_rejection(r, |e: procfs_core::ProcError| is_maps_error(content, e)),
        }
    } else if maps_shape(maps_start(content)) && maps_of(maps_start(content)) is None {
        is_rejection(r, |e: procfs_core::ProcError| is_maps_error(maps_start(content), e))
    } else {
        fails_with(r, ErrorView::Unparsable)
    }
}

/// Reads the memory maps in the contents.
fn read_maps(content: &Vec<u8>) -> (r: Result<procfs_core::process::MemoryMaps, ProcfsError>)
    ensures
        is_maps(r, content@),
{
    if maps_fit(content) {
        return take_parsed(parse_maps(content.as_slice()));
    }
    let start = maps_cut_short(content);
    if maps_fit(&start) {
        match parse_maps(start.as_slice()) {
            Ok(_) => Err(ProcfsError::Unparsable),
            Err(e) => Err(ProcfsError::Parse(e)),
        }
    } else {
        Err(ProcfsError::Unparsable)
    }
}

/// Tells whether `r` is the sums over the memory maps in the contents. Contents that do not fit the
/// parser are rejected all the same if the parser rejects what is in front of the place where they
/// do not fit.
pub open spec fn is_smaps_rollup(
    r: Result<procfs_core::process::SmapsRollup, ProcfsError>,
    content: Seq<u8>,
) -> bool {
    if maps_shape(content) {
        match smaps_rollup_of(content) {
            Some(held) => r matches Ok(value) && rollup_held(value) == held,
            None => is_rejection(r, |e: procfs_core::ProcError| is_smaps_rollup_error(content, e)),
        }
    } else if maps_shape(maps_start(content)) && smaps_rollup_of(maps_start(content)) is None {
        is_rejection(r, |e: procfs_core::ProcError| is_smaps_rollup_error(maps_start(content), e))
    } else {
        fails_with(r, ErrorView::Unparsable)
    }
}

/// Reads the sums over the memory maps in the contents.
fn read_smaps_rollup(content: &Vec<u8>) -> (r: Result<
    procfs_core::process::SmapsRollup,
    ProcfsError,
>)
    ensures
        is_smaps_rollup(r, content@),
{
    if maps_fit(content) {
        return take_parsed(parse_smaps_rollup(content.as_slice()));
    }
    let start = maps_cut_short(content);
    if maps_fit(&start) {
        match parse_smaps_rollup(start.as_slice()) {
            Ok(_) => Err(ProcfsError::Unparsable),
            Err(e) => Err(ProcfsError::Parse(e)),
        }
    } else {
        Err(ProcfsError::Unparsable)
    }
}

/// Tells whether `r` is the ARP table in the contents. Contents that do not fit the parser are
/// rejected all the same if the parser rejects what is in front of the place where they do not fit.
pub open spec fn is_arp_table(
    r: Result<Vec<procfs_core::net::ARPEntry>, ProcfsError>,
    content: Seq<u8>,
) -> bool {
    if arp_shape(content) {
        match arp_of(content) {
            Some(entries) => r matches Ok(list) && list@ == entries,
            None => is_rejection(r, |e: procfs_core::ProcError| is_arp_error(content, e)),
        }
    } else if arp_shape(arp_start(content)) && arp_of(arp_start(content)) is None {
        is_rejection(r, |e: procfs_core::ProcError| is_arp_error(arp_start(content), e))
    } else {
        fails_with(r, ErrorView::Unparsable)
    }
}

/// Reads the ARP table in the contents.
fn read_arp_table(content: &Vec<u8>) -> (r: Result<Vec<procfs_core::net::ARPEntry>, ProcfsError>)
    ensures
        is_arp_table(r, content@),
{
    if arp_fits(content) {
        return take_parsed(parse_arp(content.as_slice()));
    }
    let start = arp_cut_short(content);
    if arp_fits(&start) {
        match parse_arp(start.as_slice()) {
            Ok(_) => Err(ProcfsError::Unparsable),
            Err(e) => Err(ProcfsError::Parse(e)),
        }
    } else {
        Err(ProcfsError::Unparsable)
    }
}

impl Process {
    /// Takes what was read from a file for a parser.
    pub fn read_with_cursor(&self, file: ProcessFile, read: FileRead<Vec<u8>>) -> (r: Result<
        Vec<u8>,
        ProcfsError,
    >)
        ensures
            is_result(r, failure_of_parsed(self.path@, file, read), contents(read)),
    {
        take_for_parser(&self.path, file, read)
    }

    /// The contents of the `stat` file, and the state of the process in them.
    pub fn stat_with_state(&self, read: FileRead<Vec<u8>>) -> (r: Result<
        (procfs_core::process::Stat, char),
        ProcfsError,
    >)
        ensures
            is_parsed(
                r,
                failure_of_parsed(self.path@, ProcessFile::Stat, read),
                stat_shape(contents(read)@),
                stat_of(contents(read)@),
                |e: procfs_core::ProcError| is_stat_error(contents(read)@, e),
            ),
    {
        match self.read_with_cursor(ProcessFile::Stat, read) {
            Ok(content) => if stat_fits(&content) {
                take_parsed(parse_stat(content.as_slice()))
            } else {
                Err(ProcfsError::Unparsable)
            },
            Err(e) => Err(e),
        }
    }

    /// The status of the process, from its `stat` file.
    pub fn stat(&self, read: FileRead<Vec<u8>>) -> (r: Result<
        procfs_core::process::Stat,
        ProcfsError,
    >)
        ensures
            is_parsed(
                r,
                failure_of_parsed(self.path@, ProcessFile::Stat, read),
                stat_shape(contents(read)@),
                stat_record(contents(read)@),
                |e: procfs_core::ProcError| is_stat_error(contents(read)@, e),
            ),
    {
        match self.stat_with_state(read) {
            Ok((stat, _)) => Ok(stat),
            Err(e) => Err(e),
        }
    }

    /// Is this process still alive? One whose `stat` file cannot be read or is rejected is not.
    ///
    /// There is no answer if the contents of the file do not fit the parser.
    pub fn is_alive(&self, read: FileRead<Vec<u8>>) -> (r: Option<bool>)
        ensures
            match read {
                FileRead::Read(content) => if !stat_shape(content@) {
                    r is None
                } else {
                    match stat_of(content@) {
                        Some((_, state)) => r == Some(alive(state)),
                        None => r == Some(false),
                    }
                },
                _ => r == Some(false),
            },
    {
        match self.stat_with_state(read) {
            Ok((_, state)) => Some(state_is_alive(state)),
            Err(ProcfsError::Unparsable) => None,
            Err(_) => Some(false),
        }
    }

    /// The I/O counters of the process.
    pub fn io(&self, read: FileRead<Vec<u8>>) -> (r: Result<
        procfs_core::process::Io,
        ProcfsError,
    >)
        ensures
            is_parsed(
                r,
                failure_of_parsed(self.path@, ProcessFile::Io, read),
                io_shape(contents(read)@),
                io_of(contents(read)@),
                |e: procfs_core::ProcError| is_io_error(contents(read)@, e),
            ),
    {
        match self.read_with_cursor(ProcessFile::Io, read) {
            Ok(content) => if io_fits(&content) {
                take_parsed(parse_io(content.as_slice()))
            } else {
                Err(ProcfsError::Unparsable)
            },
            Err(e) => Err(e),
        }
    }

    /// The memory maps of the process.
    pub fn maps(&self, read: FileRead<Vec<u8>>) -> (r: Result<
        procfs_core::process::MemoryMaps,
        ProcfsError,
    >)
        ensures
            match failure_of_parsed(self.path@, ProcessFile::Maps, read) {
                Some(error) => fails_with(r, error),
                None => is_maps(r, contents(read)@),
            },
    {
        match self.read_with_cursor(ProcessFile::Maps, read) {
            Ok(content) => read_maps(&content),
            Err(e) => Err(e),
        }
    }

    /// The memory maps of the process, with what they take up.
    pub fn smaps(&self, read: FileRead<Vec<u8>>) -> (r: Result<
        procfs_core::process::MemoryMaps,
        ProcfsError,
    >)
        ensures
            match failure_of_parsed(self.path@, ProcessFile::Smaps, read) {
                Some(error) => fails_with(r, error),
                None => is_maps(r, contents(read)@),
            },
    {
        match self.read_with_cursor(ProcessFile::Smaps, read) {
            Ok(content) => read_maps(&content),
            Err(e) => Err(e),
        }
    }

    /// The sums over the memory maps of the process.
    pub fn smaps_rollup(&self, read: FileRead<Vec<u8>>) -> (r: Result<
        procfs_core::process::SmapsRollup,
        ProcfsError,
    >)
        ensures
            match failure_of_parsed(self.path@, ProcessFile::SmapsRollup, read) {
                Some(error) => fails_with(r, error),
                None => is_smaps_rollup(r, contents(read)@),
            },
    {
        match self.read_with_cursor(ProcessFile::SmapsRollup, read) {
            Ok(content) => read_smaps_rollup(&content),
            Err(e) => Err(e),
        }
    }

    /// The statistics of the mounts that the process sees.
    pub fn mountstats(&self, read: FileRead<Vec<u8>>) -> (r: Result<
        procfs_core::process::MountStats,
        ProcfsError,
    >)
        ensures
            match failure_of_parsed(self.path@, ProcessFile::Mountstats, read) {
                Some(error) => fails_with(r, error),
                None => match mountstats_of(contents(read)@) {
                    Some(held) => r matches Ok(value) && mount_stats_held(value) == held,
                    None => is_rejection(
                        r,
                        |e: procfs_core::ProcError| is_mountstats_error(contents(read)@, e),
                    ),
                },
            },
    {
        match self.read_with_cursor(ProcessFile::Mountstats, read) {
            Ok(content) => take_parsed(parse_mountstats(content.as_slice())),
            Err(e) => Err(e),
        }
    }

    /// The mounts that the process sees.
    pub fn mountinfo(&self, read: FileRead<Vec<u8>>) -> (r: Result<
        procfs_core::process::MountInfos,
        ProcfsError,
    >)
        ensures
            match failure_of_parsed(self.path@, ProcessFile::Mountinfo, read) {
                Some(error) => fails_with(r, error),
                None => match mountinfo_of(contents(read)@) {
                    Some(held) => r matches Ok(value) && mounts_held(value) == held,
                    None => is_rejection(
                        r,
                        |e: procfs_core::ProcError| is_mountinfo_error(contents(read)@, e),
                    ),
                },
            },
    {
        match self.read_with_cursor(ProcessFile::Mountinfo, read) {
            Ok(content) => take_parsed(parse_mountinfo(content.as_slice())),
            Err(e) => Err(e),
        }
    }

    /// The status of the process, from its `status` file.
    pub fn status(&self, read: FileRead<Vec<u8>>) -> (r: Result<
        procfs_core::process::Status,
        ProcfsError,
    >)
        ensures
            is_parsed(
                r,
                failure_of_parsed(self.path@, ProcessFile::Status, read),
                true,
                status_of(contents(read)@),
                |e: procfs_core::ProcError| is_status_error(contents(read)@, e),
            ),
    {
        match self.read_with_cursor(ProcessFile::Status, read) {
            Ok(content) => take_parsed(parse_status(content.as_slice())),
            Err(e) => Err(e),
        }
    }

    /// The resource limits of the process.
    pub fn limits(&self, read: FileRead<Vec<u8>>) -> (r: Result<
        procfs_core::process::Limits,
        ProcfsError,
    >)
        ensures
            is_parsed(
                r,
                failure_of_parsed(self.path@, ProcessFile::Limits, read),
                limits_shape(contents(read)@),
                limits_of(contents(read)@),
                |e: procfs_core::ProcError| is_limits_error(contents(read)@, e),
            ),
    {
        match self.read_with_cursor(ProcessFile::Limits, read) {
            Ok(content) => if limits_fit(&content) {
                take_parsed(parse_limits(content.as_slice()))
            } else {
                Err(ProcfsError::Unparsable)
            },
            Err(e) => Err(e),
        }
    }

    /// The memory sizes of the process.
    pub fn statm(&self, read: FileRead<Vec<u8>>) -> (r: Result<
        procfs_core::process::StatM,
        ProcfsError,
    >)
        ensures
            is_parsed(
                r,
                failure_of_parsed(self.path@, ProcessFile::Statm, read),
                true,
                statm_of(contents(read)@),
                |e: procfs_core::ProcError| is_statm_error(contents(read)@, e),
            ),
            read is Read ==> (r is Ok <==> holds_numbers(contents(read)@, 7)),
    {
        match self.read_with_cursor(ProcessFile::Statm, read) {
            Ok(content) => take_parsed(parse_statm(content.as_slice())),
            Err(e) => Err(e),
        }
    }

    /// The times of the scheduler for the process.
    pub fn schedstat(&self, read: FileRead<Vec<u8>>) -> (r: Result<
        procfs_core::process::Schedstat,
        ProcfsError,
    >)
        ensures
            is_parsed(
                r,
                failure_of_parsed(self.path@, ProcessFile::Schedstat, read),
                true,
                schedstat_of(contents(read)@),
                |e: procfs_core::ProcError| is_schedstat_error(contents(read)@, e),
            ),
            read is Read ==> (r is Ok <==> holds_numbers(contents(read)@, 3)),
    {
        match self.read_with_cursor(ProcessFile::Schedstat, read) {
            Ok(content) => take_parsed(parse_schedstat(content.as_slice())),
            Err(e) => Err(e),
        }
    }

    /// The system call that the process is in.
    pub fn syscall(&self, read: FileRead<Vec<u8>>) -> (r: Result<
        procfs_core::process::Syscall,
        ProcfsError,
    >)
        ensures
            is_parsed(
                r,
                failure_of_parsed(self.path@, ProcessFile::Syscall, read),
                true,
                syscall_of(contents(read)@),
                |e: procfs_core::ProcError| is_syscall_error(contents(read)@, e),
            ),
    {
        match self.read_with_cursor(ProcessFile::Syscall, read) {
            Ok(content) => take_parsed(parse_syscall(content.as_slice())),
            Err(e) => Err(e),
        }
    }

    /// The TCP sockets over IPv4 in the network namespace of the process, on a machine of that byte
    /// order.
    pub fn tcp(&self, read: FileRead<Vec<u8>>, little_endian: bool) -> (r: Result<
        Vec<procfs_core::net::TcpNetEntry>,
        ProcfsError,
    >)
        ensures
            is_parsed_list(
                r,
                failure_of_parsed(self.path@, ProcessFile::Tcp, read),
                true,
                tcp_of(contents(read)@, little_endian),
                |e: procfs_core::ProcError| is_tcp_error(contents(read)@, little_endian, e),
            ),
    {
        match self.read_with_cursor(ProcessFile::Tcp, read) {
            Ok(content) => take_parsed(parse_tcp(content.as_slice(), little_endian)),
            Err(e) => Err(e),
        }
    }

    /// The TCP sockets over IPv6 in the network namespace of the process, on a machine of that byte
    /// order.
    pub fn tcp6(&self, read: FileRead<Vec<u8>>, little_endian: bool) -> (r: Result<
        Vec<procfs_core::net::TcpNetEntry>,
        ProcfsError,
    >)
        ensures
            is_parsed_list(
                r,
                failure_of_parsed(self.path@, ProcessFile::Tcp6, read),
                true,
                tcp_of(contents(read)@, little_endian),
                |e: procfs_core::ProcError| is_tcp_error(contents(read)@, little_endian, e),
            ),
    {
        match self.read_with_cursor(ProcessFile::Tcp6, read) {
            Ok(content) => take_parsed(parse_tcp(content.as_slice(), little_endian)),
            Err(e) => Err(e),
        }
    }

    /// The UDP sockets over IPv4 in the network namespace of the process, on a machine of that byte
    /// order.
    pub fn udp(&self, read: FileRead<Vec<u8>>, little_endian: bool) -> (r: Result<
        Vec<procfs_core::net::UdpNetEntry>,
        ProcfsError,
    >)
        ensures
            is_parsed_list(
                r,
                failure_of_parsed(self.path@, ProcessFile::Udp, read),
                true,
                udp_of(contents(read)@, little_endian),
                |e: procfs_core::ProcError| is_udp_error(contents(read)@, little_endian, e),
            ),
    {
        match self.read_with_cursor(ProcessFile::Udp, read) {
            Ok(content) => take_parsed(parse_udp(content.as_slice(), little_endian)),
            Err(e) => Err(e),
        }
    }

    /// The UDP sockets over IPv6 in the network namespace of the process, on a machine of that byte
    /// order.
    pub fn udp6(&self, read: FileRead<Vec<u8>>, little_endian: bool) -> (r: Result<
        Vec<procfs_core::net::UdpNetEntry>,
        ProcfsError,
    >)
        ensures
            is_parsed_list(
                r,
                failure_of_parsed(self.path@, ProcessFile::Udp6, read),
                true,
                udp_of(contents(read)@, little_endian),
                |e: procfs_core::ProcError| is_udp_error(contents(read)@, little_endian, e),
            ),
    {
        match self.read_with_cursor(ProcessFile::Udp6, read) {
            Ok(content) => take_parsed(parse_udp(content.as_slice(), little_endian)),
            Err(e) => Err(e),
        }
    }

    /// The network devices in the network namespace of the process, by their names.
    pub fn dev_status(&self, read: FileRead<Vec<u8>>) -> (r: Result<
        HashMap<String, procfs_core::net::DeviceStatus>,
        ProcfsError,
    >)
        ensures
            match failure_of_parsed(self.path@, ProcessFile::Dev, read) {
                Some(error) => fails_with(r, error),
                None => match dev_status_of(contents(read)@) {
                    Some(devices) => r matches Ok(table) && by_text(table@) == devices,
                    None => is_rejection(
                        r,
                        |e: procfs_core::ProcError| is_dev_status_error(contents(read)@, e),
                    ),
                },
            },
    {
        match self.read_with_cursor(ProcessFile::Dev, read) {
            Ok(content) => take_parsed(parse_dev_status(content.as_slice())),
            Err(e) => Err(e),
        }
    }

    /// The Unix sockets.
    pub fn unix(&self, read: FileRead<Vec<u8>>) -> (r: Result<
        Vec<procfs_core::net::UnixNetEntry>,
        ProcfsError,
    >)
        ensures
            is_parsed_list(
                r,
                failure_of_parsed(self.path@, ProcessFile::Unix, read),
                true,
                unix_of(contents(read)@),
                |e: procfs_core::ProcError| is_unix_error(contents(read)@, e),
            ),
    {
        match self.read_with_cursor(ProcessFile::Unix, read) {
            Ok(content) => take_parsed(parse_unix(content.as_slice())),
            Err(e) => Err(e),
        }
    }

    /// The ARP table in the network namespace of the process.
    pub fn arp(&self, read: FileRead<Vec<u8>>) -> (r: Result<
        Vec<procfs_core::net::ARPEntry>,
        ProcfsError,
    >)
        ensures
            match failure_of_parsed(self.path@, ProcessFile::Arp, read) {
                Some(error) => fails_with(r, error),
                None => is_arp_table(r, contents(read)@),
            },
    {
        match self.read_with_cursor(ProcessFile::Arp, read) {
            Ok(content) => read_arp_table(&content),
            Err(e) => Err(e),
        }
    }

    /// The routes in the network namespace of the process.
    ///
    /// Their addresses are laid out in the byte order of the machine.
    pub fn route(&self, read: FileRead<Vec<u8>>) -> (r: Result<
        Vec<procfs_core::net::RouteEntry>,
        ProcfsError,
    >)
        ensures
            forall|little_endian: bool| #[trigger]
                is_byte_order(little_endian) ==> is_parsed_list(
                    r,
                    failure_of_parsed(self.path@, ProcessFile::Route, read),
                    true,
                    route_of(contents(read)@, little_endian),
                    |e: procfs_core::ProcError| is_route_error(contents(read)@, e),
                ),
            is_parsed_list(
                r,
                failure_of_parsed(self.path@, ProcessFile::Route, read),
                true,
                route_of(contents(read)@, true),
                |e: procfs_core::ProcError| is_route_error(contents(read)@, e),
            ) || is_parsed_list(
                r,
                failure_of_parsed(self.path@, ProcessFile::Route, read),
                true,
                route_of(contents(read)@, false),
                |e: procfs_core::ProcError| is_route_error(contents(read)@, e),
            ),
    {
        match self.read_with_cursor(ProcessFile::Route, read) {
            Ok(content) => take_parsed(parse_route(content.as_slice())),
            Err(e) => Err(e),
        }
    }

    /// The counters of IPv4 in the network namespace of the process.
    pub fn snmp(&self, read: FileRead<Vec<u8>>) -> (r: Result<
        procfs_core::net::Snmp,
        ProcfsError,
    >)
        ensures
            is_parsed(
                r,
                failure_of_parsed(self.path@, ProcessFile::Snmp, read),
                true,
                snmp_of(contents(read)@),
                |e: procfs_core::ProcError| is_snmp_error(contents(read)@, e),
            ),
    {
        match self.read_with_cursor(ProcessFile::Snmp, read) {
            Ok(content) => take_parsed(parse_snmp(content.as_slice())),
            Err(e) => Err(e),
        }
    }

    /// The counters of IPv6 in the network namespace of the process.
    pub fn snmp6(&self, read: FileRead<Vec<u8>>) -> (r: Result<
        procfs_core::net::Snmp6,
        ProcfsError,
    >)
        ensures
            is_parsed(
                r,
                failure_of_parsed(self.path@, ProcessFile::Snmp6, read),
                true,
                snmp6_of(contents(read)@),
                |e: procfs_core::ProcError| is_snmp6_error(contents(read)@, e),
            ),
    {
        match self.read_with_cursor(ProcessFile::Snmp6, read) {
            Ok(content) => take_parsed(parse_snmp6(content.as_slice())),
            Err(e) => Err(e),
        }
    }
}

/// Which states count as alive: all but those of zombies and of the dead.
pub proof fn only_zombies_and_the_dead_are_not_alive(state: char)
    ensures
        !alive(state) <==> state == 'Z' || state == 'X' || state == 'x',
{
}

/// A `stat` file as the kernel writes it goes to the parser, whatever the number and the name of
/// the process: what the parser makes of it is what is read.
pub proof fn written_stat_files_are_parsed(
    r: Result<procfs_core::process::Stat, ProcfsError>,
    directory: Seq<u8>,
    read: FileRead<Vec<u8>>,
    pid: int,
    name: Seq<char>,
    rest: Seq<char>,
    after: Seq<char>,
)
    requires
        rest.len() > 0,
        is_trimmed(rest),
        lacks(rest, ')'),
        is_blank(after),
        read is Read,
        contents(read)@ == encode_utf8(stat_text(pid, name, rest) + after),
        is_parsed(
            r,
            failure_of_parsed(directory, ProcessFile::Stat, read),
            stat_shape(contents(read)@),
            stat_record(contents(read)@),
            |e: procfs_core::ProcError| is_stat_error(contents(read)@, e),
        ),
    ensures
        match stat_of(contents(read)@) {
            Some((stat, _)) => r == Ok::<procfs_core::process::Stat, ProcfsError>(stat),
            None => r matches Err(ProcfsError::Parse(e)) && is_stat_error(contents(read)@, e),
        },
{
    let none = Seq::<char>::empty();
    written_stat_files_fit(pid, name, rest, none, after);
    let text = stat_text(pid, name, rest);
    assert(none + text + after =~= text + after);
}

/// A `maps`, `smaps` or `smaps_rollup` file as the kernel writes it goes to the parser, however
/// large the maps are: what the parser makes of it is what is read.
pub proof fn written_smaps_files_are_parsed(
    r: Result<procfs_core::process::MemoryMaps, ProcfsError>,
    sums: Result<procfs_core::process::SmapsRollup, ProcfsError>,
    content: Seq<u8>,
    file: Seq<SmapsLine>,
)
    requires
        forall|i: int| 0 <= i < file.len() ==> is_smaps_line(#[trigger] file[i]),
        content == encode_utf8(with_line_feeds(smaps_texts(file))),
        is_maps(r, content),
        is_smaps_rollup(sums, content),
    ensures
        match maps_of(content) {
            Some(held) => r matches Ok(maps) && maps_held(maps) == held,
            None => r matches Err(ProcfsError::Parse(e)) && is_maps_error(content, e),
        },
        match smaps_rollup_of(content) {
            Some(held) => sums matches Ok(rollup) && rollup_held(rollup) == held,
            None => sums matches Err(ProcfsError::Parse(e)) && is_smaps_rollup_error(content, e),
        },
{
    written_smaps_files_fit(file);
}

/// A file that fits is parsed as a whole; one that does not fit is never parsed as a whole: it is
/// unparsable, unless what is in front of the misfit is rejected.
pub proof fn what_fits_is_parsed(
    maps: Result<procfs_core::process::MemoryMaps, ProcfsError>,
    sums: Result<procfs_core::process::SmapsRollup, ProcfsError>,
    table: Result<Vec<procfs_core::net::ARPEntry>, ProcfsError>,
    content: Seq<u8>,
)
    requires
        is_maps(maps, content),
        is_smaps_rollup(sums, content),
        is_arp_table(table, content),
    ensures
        maps is Ok <==> maps_shape(content) && maps_of(content) is Some,
        maps matches Ok(value) ==> maps_of(content) == Some(maps_held(value)),
        maps matches Err(e) ==> e@ is Unparsable || e@ is Parse,
        sums is Ok <==> maps_shape(content) && smaps_rollup_of(content) is Some,
        sums matches Ok(value) ==> smaps_rollup_of(content) == Some(rollup_held(value)),
        sums matches Err(e) ==> e@ is Unparsable || e@ is Parse,
        table is Ok <==> arp_shape(content) && arp_of(content) is Some,
        table matches Ok(list) ==> arp_of(content) == Some(list@),
        table matches Err(e) ==> e@ is Unparsable || e@ is Parse,
        maps_shape(content) ==> !(maps matches Err(e) && e@ is Unparsable),
        arp_shape(content) ==> !(table matches Err(e) && e@ is Unparsable),
        !maps_shape(content) && maps_of(maps_start(content)) is Some ==> (maps matches Err(e)
            && e@ is Unparsable),
        !arp_shape(content) && arp_of(arp_start(content)) is Some ==> (table matches Err(e)
            && e@ is Unparsable),
{
}

} // verus!
