//! The parsers of `procfs_core`, as functions of the contents of a file.
//!
//! What a parser makes of contents takes pages to write down, so it has a name here and nothing
//! more is said of it. A parser that is not defined on all contents is called only on contents of
//! the shape that [`shape`] tells.
use procfs_core::{FromRead, FromReadSI};
use std::collections::HashMap;
use std::str::FromStr;
use vstd::prelude::*;
use vstd::utf8::{decode_utf8, valid_utf8};

use crate::number::{decimal, unsigned_int, within};
use crate::parse::shape::{arp_shape, io_shape, limits_shape, maps_shape, stat_shape};
use crate::system_info::is_byte_order;
use crate::text::words;

pub mod shape;
pub mod written;

verus! {

/// `procfs_core::process::Io`: the counters of an `io` file.
#[verifier::external_type_specification]
#[verifier::external_body]
pub struct ExIo(procfs_core::process::Io);

/// `procfs_core::process::Status`: the fields of a `status` file.
#[verifier::external_type_specification]
#[verifier::external_body]
pub struct ExStatus(procfs_core::process::Status);

/// `procfs_core::process::Stat`: the fields of a `stat` file.
#[verifier::external_type_specification]
#[verifier::external_body]
pub struct ExStat(procfs_core::process::Stat);

/// `procfs_core::process::Limits`: the limits of a process.
#[verifier::external_type_specification]
#[verifier::external_body]
pub struct ExLimits(procfs_core::process::Limits);

/// `procfs_core::process::StatM`: the sizes in a `statm` file.
#[verifier::external_type_specification]
#[verifier::external_body]
pub struct ExStatM(procfs_core::process::StatM);

/// `procfs_core::process::Schedstat`: the times in a `schedstat` file.
#[verifier::external_type_specification]
#[verifier::external_body]
pub struct ExSchedstat(procfs_core::process::Schedstat);

/// `procfs_core::process::Syscall`: the system call of a process.
#[verifier::external_type_specification]
#[verifier::external_body]
pub struct ExSyscall(procfs_core::process::Syscall);

/// `procfs_core::process::MemoryMaps`: the memory maps of a process.
#[verifier::external_type_specification]
#[verifier::external_body]
pub struct ExMemoryMaps(procfs_core::process::MemoryMaps);

/// `procfs_core::process::SmapsRollup`: the sums over the memory maps of a process.
#[verifier::external_type_specification]
#[verifier::external_body]
pub struct ExSmapsRollup(procfs_core::process::SmapsRollup);

/// `procfs_core::process::MountStats`: the statistics of mounts.
#[verifier::external_type_specification]
#[verifier::external_body]
pub struct ExMountStats(procfs_core::process::MountStats);

/// `procfs_core::process::MountInfos`: the mounts of a process.
#[verifier::external_type_specification]
#[verifier::external_body]
pub struct ExMountInfos(procfs_core::process::MountInfos);

/// `procfs_core::net::TcpNetEntry`: a TCP socket.
#[verifier::external_type_specification]
#[verifier::external_body]
pub struct ExTcpNetEntry(procfs_core::net::TcpNetEntry);

/// `procfs_core::net::UdpNetEntry`: a UDP socket.
#[verifier::external_type_specification]
#[verifier::external_body]
pub struct ExUdpNetEntry(procfs_core::net::UdpNetEntry);

/// `procfs_core::net::UnixNetEntry`: a Unix socket.
#[verifier::external_type_specification]
#[verifier::external_body]
pub struct ExUnixNetEntry(procfs_core::net::UnixNetEntry);

/// `procfs_core::net::ARPEntry`: an entry of the ARP table.
#[verifier::external_type_specification]
#[verifier::external_body]
pub struct ExArpEntry(procfs_core::net::ARPEntry);

/// `procfs_core::net::RouteEntry`: a route.
#[verifier::external_type_specification]
#[verifier::external_body]
pub struct ExRouteEntry(procfs_core::net::RouteEntry);

/// `procfs_core::net::DeviceStatus`: the counters of a network device.
#[verifier::external_type_specification]
#[verifier::external_body]
pub struct ExDeviceStatus(procfs_core::net::DeviceStatus);

/// `procfs_core::net::Snmp`: the counters of IPv4.
#[verifier::external_type_specification]
#[verifier::external_body]
pub struct ExSnmp(procfs_core::net::Snmp);

/// `procfs_core::net::Snmp6`: the counters of IPv6.
#[verifier::external_type_specification]
#[verifier::external_body]
pub struct ExSnmp6(procfs_core::net::Snmp6);

/// `procfs_core::KernelStats`: the statistics of the kernel.
#[verifier::external_type_specification]
#[verifier::external_body]
pub struct ExKernelStats(procfs_core::KernelStats);

/// `procfs_core::LoadAverage`: the load of the machine.
#[verifier::external_type_specification]
#[verifier::external_body]
pub struct ExLoadAverage(procfs_core::LoadAverage);

/// Tells whether a parser gave the value that is expected, or an error if none is. Which error it
/// is is left open: it may hold the place in the parser's source.
pub open spec fn gives<T>(r: Result<T, procfs_core::ProcError>, expected: Option<T>) -> bool {
    match r {
        Ok(value) => expected == Some(value),
        Err(_) => expected is None,
    }
}

/// Tells whether a parser gave a list of the entries that are expected, or an error if none are.
pub open spec fn lists<T>(
    r: Result<Vec<T>, procfs_core::ProcError>,
    expected: Option<Seq<T>>,
) -> bool {
    match r {
        Ok(entries) => expected == Some(entries@),
        Err(_) => expected is None,
    }
}

/// What `procfs_core::process::Io` makes of the contents of a `io` file, unless it rejects them.
pub uninterp spec fn io_of(content: Seq<u8>) -> Option<procfs_core::process::Io>;

/// `procfs_core::process::Io::from_read`: its result is named; the contents have the shape on which
/// it is defined.
#[verifier::external_body]
pub(crate) fn parse_io(content: &[u8]) -> (r: Result<
    procfs_core::process::Io,
    procfs_core::ProcError,
>)
    requires
        io_shape(content@),
    ensures
        gives(r, io_of(content@)),
{
    procfs_core::process::Io::from_read(content)
}

/// Tells whether `error` is one with which a call of `procfs_core::process::Io::from_read` on the
/// contents fails.
pub open(crate) spec fn is_io_error(content: Seq<u8>, error: procfs_core::ProcError) -> bool {
    exists|bytes: &[u8]|
        bytes@ == content && #[trigger] call_ensures(parse_io, (bytes,), Err(error))
}

/// What `procfs_core::process::Status` makes of the contents of a `status` file, unless it rejects
/// them.
pub uninterp spec fn status_of(content: Seq<u8>) -> Option<procfs_core::process::Status>;

/// `procfs_core::process::Status::from_read`: its result is named.
#[verifier::external_body]
pub(crate) fn parse_status(content: &[u8]) -> (r: Result<
    procfs_core::process::Status,
    procfs_core::ProcError,
>)
    ensures
        gives(r, status_of(content@)),
{
    procfs_core::process::Status::from_read(content)
}

/// Tells whether `error` is one with which a call of `procfs_core::process::Status::from_read` on
/// the contents fails.
pub open(crate) spec fn is_status_error(content: Seq<u8>, error: procfs_core::ProcError) -> bool {
    exists|bytes: &[u8]|
        bytes@ == content && #[trigger] call_ensures(parse_status, (bytes,), Err(error))
}

/// What `procfs_core::process::Limits` makes of the contents of a `limits` file, unless it rejects
/// them.
pub uninterp spec fn limits_of(content: Seq<u8>) -> Option<procfs_core::process::Limits>;

/// `procfs_core::process::Limits::from_read`: its result is named; the contents have the shape on
/// which it is defined.
#[verifier::external_body]
pub(crate) fn parse_limits(content: &[u8]) -> (r: Result<
    procfs_core::process::Limits,
    procfs_core::ProcError,
>)
    requires
        limits_shape(content@),
    ensures
        gives(r, limits_of(content@)),
{
    procfs_core::process::Limits::from_read(content)
}

/// Tells whether `error` is one with which a call of `procfs_core::process::Limits::from_read` on
/// the contents fails.
pub open(crate) spec fn is_limits_error(content: Seq<u8>, error: procfs_core::ProcError) -> bool {
    exists|bytes: &[u8]|
        bytes@ == content && #[trigger] call_ensures(parse_limits, (bytes,), Err(error))
}

/// Tells whether contents are a text whose first `n` words are numbers of 64 bits.
pub open spec fn holds_numbers(content: Seq<u8>, n: int) -> bool {
    let found = words(decode_utf8(content));
    &&& valid_utf8(content)
    &&& found.len() >= n
    &&& forall|i: int|
        0 <= i < n ==> within(unsigned_int(#[trigger] found[i], 10), 0, u64::MAX as int) is Some
}

/// What `procfs_core::process::StatM` makes of the contents of a `statm` file, unless it rejects
/// them.
pub uninterp spec fn statm_of(content: Seq<u8>) -> Option<procfs_core::process::StatM>;

/// `procfs_core::process::StatM::from_read`: its result is named. Contents are rejected exactly if
/// they are not a text that begins with seven numbers.
#[verifier::external_body]
pub(crate) fn parse_statm(content: &[u8]) -> (r: Result<
    procfs_core::process::StatM,
    procfs_core::ProcError,
>)
    ensures
        gives(r, statm_of(content@)),
        r is Ok <==> holds_numbers(content@, 7),
{
    procfs_core::process::StatM::from_read(content)
}

/// Tells whether `error` is one with which a call of `procfs_core::process::StatM::from_read` on
/// the contents fails.
pub open(crate) spec fn is_statm_error(content: Seq<u8>, error: procfs_core::ProcError) -> bool {
    exists|bytes: &[u8]|
        bytes@ == content && #[trigger] call_ensures(parse_statm, (bytes,), Err(error))
}

/// What `procfs_core::process::Schedstat` makes of the contents of a `schedstat` file, unless it
/// rejects them.
pub uninterp spec fn schedstat_of(content: Seq<u8>) -> Option<procfs_core::process::Schedstat>;

/// `procfs_core::process::Schedstat::from_read`: its result is named. Contents are rejected exactly
/// if they are not a text that begins with three numbers.
#[verifier::external_body]
pub(crate) fn parse_schedstat(content: &[u8]) -> (r: Result<
    procfs_core::process::Schedstat,
    procfs_core::ProcError,
>)
    ensures
        gives(r, schedstat_of(content@)),
        r is Ok <==> holds_numbers(content@, 3),
{
    procfs_core::process::Schedstat::from_read(content)
}

/// Tells whether `error` is one with which a call of `procfs_core::process::Schedstat::from_read`
/// on the contents fails.
pub open(crate) spec fn is_schedstat_error(
    content: Seq<u8>,
    error: procfs_core::ProcError,
) -> bool {
    exists|bytes: &[u8]|
        bytes@ == content && #[trigger] call_ensures(parse_schedstat, (bytes,), Err(error))
}

/// What `procfs_core::process::Syscall` makes of the contents of a `syscall` file, unless it
/// rejects them.
pub uninterp spec fn syscall_of(content: Seq<u8>) -> Option<procfs_core::process::Syscall>;

/// `procfs_core::process::Syscall::from_read`: its result is named.
#[verifier::external_body]
pub(crate) fn parse_syscall(content: &[u8]) -> (r: Result<
    procfs_core::process::Syscall,
    procfs_core::ProcError,
>)
    ensures
        gives(r, syscall_of(content@)),
{
    procfs_core::process::Syscall::from_read(content)
}

/// Tells whether `error` is one with which a call of `procfs_core::process::Syscall::from_read` on
/// the contents fails.
pub open(crate) spec fn is_syscall_error(content: Seq<u8>, error: procfs_core::ProcError) -> bool {
    exists|bytes: &[u8]|
        bytes@ == content && #[trigger] call_ensures(parse_syscall, (bytes,), Err(error))
}

/// What `procfs_core::process::Stat` makes of the contents of a `stat` file, and the state in it,
/// unless it rejects them.
pub uninterp spec fn stat_of(content: Seq<u8>) -> Option<(procfs_core::process::Stat, char)>;

/// `procfs_core::process::Stat::from_read`: its result is named, with its field `state` beside it;
/// the contents have the shape on which it is defined.
#[verifier::external_body]
pub(crate) fn parse_stat(content: &[u8]) -> (r: Result<
    (procfs_core::process::Stat, char),
    procfs_core::ProcError,
>)
    requires
        stat_shape(content@),
    ensures
        gives(r, stat_of(content@)),
{
    procfs_core::process::Stat::from_read(content).map(
        |stat|
            {
                let state = stat.state;
                (stat, state)
            },
    )
}

/// Tells whether `error` is one with which a call of `procfs_core::process::Stat::from_read` on the
/// contents fails.
pub open(crate) spec fn is_stat_error(content: Seq<u8>, error: procfs_core::ProcError) -> bool {
    exists|bytes: &[u8]|
        bytes@ == content && #[trigger] call_ensures(parse_stat, (bytes,), Err(error))
}

/// What a value of `procfs_core::process::MemoryMaps` holds: for each memory map the text of all
/// its fields, with the entries of a table in the order of their keys.
pub uninterp spec fn maps_held(maps: procfs_core::process::MemoryMaps) -> Seq<Seq<char>>;

/// What the value holds that `procfs_core::process::MemoryMaps` makes of the contents of a `maps`
/// or `smaps` file, unless it rejects them.
pub uninterp spec fn maps_of(content: Seq<u8>) -> Option<Seq<Seq<char>>>;

/// `procfs_core::process::MemoryMaps::from_read`: what its result holds is named; the contents have
/// the shape on which it is defined. The order in which the tables in it are walked is left open.
#[verifier::external_body]
pub(crate) fn parse_maps(content: &[u8]) -> (r: Result<
    procfs_core::process::MemoryMaps,
    procfs_core::ProcError,
>)
    requires
        maps_shape(content@),
    ensures
        match r {
            Ok(value) => maps_of(content@) == Some(maps_held(value)),
            Err(_) => maps_of(content@) is None,
        },
{
    procfs_core::process::MemoryMaps::from_read(content)
}

/// Tells whether `error` is one with which a call of `procfs_core::process::MemoryMaps::from_read`
/// on the contents fails.
pub open(crate) spec fn is_maps_error(content: Seq<u8>, error: procfs_core::ProcError) -> bool {
    exists|bytes: &[u8]|
        bytes@ == content && #[trigger] call_ensures(parse_maps, (bytes,), Err(error))
}

/// What a value of `procfs_core::process::SmapsRollup` holds: for each memory map in the sums the
/// text of all its fields, with the entries of a table in the order of their keys.
pub uninterp spec fn rollup_held(rollup: procfs_core::process::SmapsRollup) -> Seq<Seq<char>>;

/// What the value holds that `procfs_core::process::SmapsRollup` makes of the contents of a
/// `smaps_rollup` file, unless it rejects them.
pub uninterp spec fn smaps_rollup_of(content: Seq<u8>) -> Option<Seq<Seq<char>>>;

/// `procfs_core::process::SmapsRollup::from_read`: what its result holds is named; the contents
/// have the shape on which it is defined. The order in which the tables in it are walked is left
/// open.
#[verifier::external_body]
pub(crate) fn parse_smaps_rollup(content: &[u8]) -> (r: Result<
    procfs_core::process::SmapsRollup,
    procfs_core::ProcError,
>)
    requires
        maps_shape(content@),
    ensures
        match r {
            Ok(value) => smaps_rollup_of(content@) == Some(rollup_held(value)),
            Err(_) => smaps_rollup_of(content@) is None,
        },
{
    procfs_core::process::SmapsRollup::from_read(content)
}

/// Tells whether `error` is one with which a call of `procfs_core::process::SmapsRollup::from_read`
/// on the contents fails.
pub open(crate) spec fn is_smaps_rollup_error(
    content: Seq<u8>,
    error: procfs_core::ProcError,
) -> bool {
    exists|bytes: &[u8]|
        bytes@ == content && #[trigger] call_ensures(parse_smaps_rollup, (bytes,), Err(error))
}

/// What a value of `procfs_core::process::MountStats` holds: for each mount the text of all its
/// fields, with the entries of a table in the order of their keys.
pub uninterp spec fn mount_stats_held(stats: procfs_core::process::MountStats) -> Seq<Seq<char>>;

/// What the value holds that `procfs_core::process::MountStats` makes of the contents of a
/// `mountstats` file, unless it rejects them.
pub uninterp spec fn mountstats_of(content: Seq<u8>) -> Option<Seq<Seq<char>>>;

/// `procfs_core::process::MountStats::from_read`: what its result holds is named. The order in
/// which the tables in it are walked is left open.
#[verifier::external_body]
pub(crate) fn parse_mountstats(content: &[u8]) -> (r: Result<
    procfs_core::process::MountStats,
    procfs_core::ProcError,
>)
    ensures
        match r {
            Ok(value) => mountstats_of(content@) == Some(mount_stats_held(value)),
            Err(_) => mountstats_of(content@) is None,
        },
{
    procfs_core::process::MountStats::from_read(content)
}

/// Tells whether `error` is one with which a call of `procfs_core::process::MountStats::from_read`
/// on the contents fails.
pub open(crate) spec fn is_mountstats_error(
    content: Seq<u8>,
    error: procfs_core::ProcError,
) -> bool {
    exists|bytes: &[u8]|
        bytes@ == content && #[trigger] call_ensures(parse_mountstats, (bytes,), Err(error))
}

/// What a value of `procfs_core::process::MountInfos` holds: for each mount the text of all its
/// fields, with the entries of a table in the order of their keys.
pub uninterp spec fn mounts_held(mounts: procfs_core::process::MountInfos) -> Seq<Seq<char>>;

/// What the value holds that `procfs_core::process::MountInfos` makes of the contents of a
/// `mountinfo` file, unless it rejects them.
pub uninterp spec fn mountinfo_of(content: Seq<u8>) -> Option<Seq<Seq<char>>>;

/// `procfs_core::process::MountInfos::from_read`: what its result holds is named. The order in
/// which the tables in it are walked is left open.
#[verifier::external_body]
pub(crate) fn parse_mountinfo(content: &[u8]) -> (r: Result<
    procfs_core::process::MountInfos,
    procfs_core::ProcError,
>)
    ensures
        match r {
            Ok(value) => mountinfo_of(content@) == Some(mounts_held(value)),
            Err(_) => mountinfo_of(content@) is None,
        },
{
    procfs_core::process::MountInfos::from_read(content)
}

/// Tells whether `error` is one with which a call of `procfs_core::process::MountInfos::from_read`
/// on the contents fails.
pub open(crate) spec fn is_mountinfo_error(
    content: Seq<u8>,
    error: procfs_core::ProcError,
) -> bool {
    exists|bytes: &[u8]|
        bytes@ == content && #[trigger] call_ensures(parse_mountinfo, (bytes,), Err(error))
}

/// The sockets that `procfs_core::net::TcpNetEntries` finds in the contents of a `tcp` or `tcp6`
/// file of a machine of that byte order, unless it rejects them.
pub uninterp spec fn tcp_of(content: Seq<u8>, little_endian: bool) -> Option<
    Seq<procfs_core::net::TcpNetEntry>,
>;

/// `procfs_core::net::TcpNetEntries::from_read`: the list in its result is named. Of the machine it
/// asks the byte order and nothing else.
#[verifier::external_body]
pub(crate) fn parse_tcp(content: &[u8], little_endian: bool) -> (r: Result<
    Vec<procfs_core::net::TcpNetEntry>,
    procfs_core::ProcError,
>)
    ensures
        lists(r, tcp_of(content@, little_endian)),
{
    let machine = procfs_core::ExplicitSystemInfo {
        boot_time_secs: 0,
        ticks_per_second: 0,
        page_size: 0,
        is_little_endian: little_endian,
    };
    procfs_core::net::TcpNetEntries::from_read(content, &machine).map(|entries| entries.0)
}

/// Tells whether `error` is one with which a call of `procfs_core::net::TcpNetEntries::from_read`
/// on the contents fails.
pub open(crate) spec fn is_tcp_error(
    content: Seq<u8>,
    little_endian: bool,
    error: procfs_core::ProcError,
) -> bool {
    exists|bytes: &[u8]|
        bytes@ == content && #[trigger] call_ensures(parse_tcp, (bytes, little_endian), Err(error))
}

/// The sockets that `procfs_core::net::UdpNetEntries` finds in the contents of a `udp` or `udp6`
/// file of a machine of that byte order, unless it rejects them.
pub uninterp spec fn udp_of(content: Seq<u8>, little_endian: bool) -> Option<
    Seq<procfs_core::net::UdpNetEntry>,
>;

/// `procfs_core::net::UdpNetEntries::from_read`: the list in its result is named. Of the machine it
/// asks the byte order and nothing else.
#[verifier::external_body]
pub(crate) fn parse_udp(content: &[u8], little_endian: bool) -> (r: Result<
    Vec<procfs_core::net::UdpNetEntry>,
    procfs_core::ProcError,
>)
    ensures
        lists(r, udp_of(content@, little_endian)),
{
    let machine = procfs_core::ExplicitSystemInfo {
        boot_time_secs: 0,
        ticks_per_second: 0,
        page_size: 0,
        is_little_endian: little_endian,
    };
    procfs_core::net::UdpNetEntries::from_read(content, &machine).map(|entries| entries.0)
}

/// Tells whether `error` is one with which a call of `procfs_core::net::UdpNetEntries::from_read`
/// on the contents fails.
pub open(crate) spec fn is_udp_error(
    content: Seq<u8>,
    little_endian: bool,
    error: procfs_core::ProcError,
) -> bool {
    exists|bytes: &[u8]|
        bytes@ == content && #[trigger] call_ensures(parse_udp, (bytes, little_endian), Err(error))
}

/// The sockets that `procfs_core::net::UnixNetEntries` finds in the contents of a `unix` file,
/// unless it rejects them.
pub uninterp spec fn unix_of(content: Seq<u8>) -> Option<Seq<procfs_core::net::UnixNetEntry>>;

/// `procfs_core::net::UnixNetEntries::from_read`: the list in its result is named.
#[verifier::external_body]
pub(crate) fn parse_unix(content: &[u8]) -> (r: Result<
    Vec<procfs_core::net::UnixNetEntry>,
    procfs_core::ProcError,
>)
    ensures
        lists(r, unix_of(content@)),
{
    procfs_core::net::UnixNetEntries::from_read(content).map(|entries| entries.0)
}

/// Tells whether `error` is one with which a call of `procfs_core::net::UnixNetEntries::from_read`
/// on the contents fails.
pub open(crate) spec fn is_unix_error(content: Seq<u8>, error: procfs_core::ProcError) -> bool {
    exists|bytes: &[u8]|
        bytes@ == content && #[trigger] call_ensures(parse_unix, (bytes,), Err(error))
}

/// The entries that `procfs_core::net::ArpEntries` finds in the contents of a `arp` file, unless it
/// rejects them.
pub uninterp spec fn arp_of(content: Seq<u8>) -> Option<Seq<procfs_core::net::ARPEntry>>;

/// `procfs_core::net::ArpEntries::from_read`: the list in its result is named; the contents have
/// the shape on which it is defined.
#[verifier::external_body]
pub(crate) fn parse_arp(content: &[u8]) -> (r: Result<
    Vec<procfs_core::net::ARPEntry>,
    procfs_core::ProcError,
>)
    requires
        arp_shape(content@),
    ensures
        lists(r, arp_of(content@)),
{
    procfs_core::net::ArpEntries::from_read(content).map(|entries| entries.0)
}

/// Tells whether `error` is one with which a call of `procfs_core::net::ArpEntries::from_read` on
/// the contents fails.
pub open(crate) spec fn is_arp_error(content: Seq<u8>, error: procfs_core::ProcError) -> bool {
    exists|bytes: &[u8]|
        bytes@ == content && #[trigger] call_ensures(parse_arp, (bytes,), Err(error))
}

/// The routes that `procfs_core::net::RouteEntries` finds in the contents of a `route` file on a
/// machine of that byte order, unless it rejects them.
pub uninterp spec fn route_of(content: Seq<u8>, little_endian: bool) -> Option<
    Seq<procfs_core::net::RouteEntry>,
>;

/// `procfs_core::net::RouteEntries::from_read`: the list in its result is named. The addresses in
/// it are laid out in the byte order of the machine on which the parser runs, that in which
/// `u16::from_ne_bytes` reads; whether the contents are rejected does not depend on that order.
#[verifier::external_body]
pub(crate) fn parse_route(content: &[u8]) -> (r: Result<
    Vec<procfs_core::net::RouteEntry>,
    procfs_core::ProcError,
>)
    ensures
        r is Ok <==> route_of(content@, true) is Some,
        r is Ok <==> route_of(content@, false) is Some,
        lists(r, route_of(content@, true)) || lists(r, route_of(content@, false)),
        forall|little_endian: bool| #[trigger]
            is_byte_order(little_endian) ==> lists(r, route_of(content@, little_endian)),
{
    procfs_core::net::RouteEntries::from_read(content).map(|entries| entries.0)
}

/// Tells whether `error` is one with which a call of `procfs_core::net::RouteEntries::from_read` on
/// the contents fails.
pub open(crate) spec fn is_route_error(content: Seq<u8>, error: procfs_core::ProcError) -> bool {
    exists|bytes: &[u8]|
        bytes@ == content && #[trigger] call_ensures(parse_route, (bytes,), Err(error))
}

/// A table that is keyed by strings, as one that is keyed by texts.
pub open spec fn by_text<T>(table: Map<String, T>) -> Map<Seq<char>, T> {
    Map::new(
        |text: Seq<char>| exists|key: String| table.contains_key(key) && #[trigger] key@ == text,
        |text: Seq<char>|
            table[choose|key: String| table.contains_key(key) && #[trigger] key@ == text],
    )
}

/// The devices that `procfs_core::net::InterfaceDeviceStatus` finds in the contents of a `dev`
/// file, by their names, unless it rejects them.
pub uninterp spec fn dev_status_of(content: Seq<u8>) -> Option<
    Map<Seq<char>, procfs_core::net::DeviceStatus>,
>;

/// `procfs_core::net::InterfaceDeviceStatus::from_read`: the table in its result is named.
#[verifier::external_body]
pub(crate) fn parse_dev_status(content: &[u8]) -> (r: Result<
    HashMap<String, procfs_core::net::DeviceStatus>,
    procfs_core::ProcError,
>)
    ensures
        match r {
            Ok(devices) => dev_status_of(content@) == Some(by_text(devices@)),
            Err(_) => dev_status_of(content@) is None,
        },
{
    procfs_core::net::InterfaceDeviceStatus::from_read(content).map(|devices| devices.0)
}

/// Tells whether `error` is one with which a call of
/// `procfs_core::net::InterfaceDeviceStatus::from_read` on the contents fails.
pub open(crate) spec fn is_dev_status_error(
    content: Seq<u8>,
    error: procfs_core::ProcError,
) -> bool {
    exists|bytes: &[u8]|
        bytes@ == content && #[trigger] call_ensures(parse_dev_status, (bytes,), Err(error))
}

/// What `procfs_core::net::Snmp` makes of the contents of a `snmp` file, unless it rejects them.
pub uninterp spec fn snmp_of(content: Seq<u8>) -> Option<procfs_core::net::Snmp>;

/// `procfs_core::net::Snmp::from_read`: its result is named.
#[verifier::external_body]
pub(crate) fn parse_snmp(content: &[u8]) -> (r: Result<
    procfs_core::net::Snmp,
    procfs_core::ProcError,
>)
    ensures
        gives(r, snmp_of(content@)),
{
    procfs_core::net::Snmp::from_read(content)
}

/// Tells whether `error` is one with which a call of `procfs_core::net::Snmp::from_read` on the
/// contents fails.
pub open(crate) spec fn is_snmp_error(content: Seq<u8>, error: procfs_core::ProcError) -> bool {
    exists|bytes: &[u8]|
        bytes@ == content && #[trigger] call_ensures(parse_snmp, (bytes,), Err(error))
}

/// What `procfs_core::net::Snmp6` makes of the contents of a `snmp6` file, unless it rejects them.
pub uninterp spec fn snmp6_of(content: Seq<u8>) -> Option<procfs_core::net::Snmp6>;

/// `procfs_core::net::Snmp6::from_read`: its result is named.
#[verifier::external_body]
pub(crate) fn parse_snmp6(content: &[u8]) -> (r: Result<
    procfs_core::net::Snmp6,
    procfs_core::ProcError,
>)
    ensures
        gives(r, snmp6_of(content@)),
{
    procfs_core::net::Snmp6::from_read(content)
}

/// Tells whether `error` is one with which a call of `procfs_core::net::Snmp6::from_read` on the
/// contents fails.
pub open(crate) spec fn is_snmp6_error(content: Seq<u8>, error: procfs_core::ProcError) -> bool {
    exists|bytes: &[u8]|
        bytes@ == content && #[trigger] call_ensures(parse_snmp6, (bytes,), Err(error))
}

/// What `procfs_core::KernelStats` makes of the contents of the `stat` file of a machine with that
/// many clock ticks in a second, and the boot time in it, unless it rejects them.
pub uninterp spec fn kernel_stats_of(content: Seq<u8>, ticks_per_second: u64) -> Option<
    (procfs_core::KernelStats, u64),
>;

/// `procfs_core::KernelStats::from_read`: its result is named, with its field `btime` beside it. Of
/// the machine it asks the number of clock ticks in a second and nothing else.
#[verifier::external_body]
pub(crate) fn parse_kernel_stats(content: &[u8], ticks_per_second: u64) -> (r: Result<
    (procfs_core::KernelStats, u64),
    procfs_core::ProcError,
>)
    ensures
        gives(r, kernel_stats_of(content@, ticks_per_second)),
{
    let machine = procfs_core::ExplicitSystemInfo {
        boot_time_secs: 0,
        ticks_per_second,
        page_size: 0,
        is_little_endian: false,
    };
    procfs_core::KernelStats::from_read(content, &machine).map(
        |stats|
            {
                let btime = stats.btime;
                (stats, btime)
            },
    )
}

/// Tells whether `error` is one with which a call of `procfs_core::KernelStats::from_read` on the
/// contents fails.
pub open(crate) spec fn is_kernel_stats_error(
    content: Seq<u8>,
    ticks_per_second: u64,
    error: procfs_core::ProcError,
) -> bool {
    exists|bytes: &[u8]|
        bytes@ == content && #[trigger] call_ensures(
            parse_kernel_stats,
            (bytes, ticks_per_second),
            Err(error),
        )
}

/// What `procfs_core::LoadAverage` makes of the contents of a `loadavg` file, unless it rejects
/// them.
pub uninterp spec fn load_average_of(content: Seq<u8>) -> Option<procfs_core::LoadAverage>;

/// `procfs_core::LoadAverage::from_read`: its result is named.
#[verifier::external_body]
pub(crate) fn parse_load_average(content: &[u8]) -> (r: Result<
    procfs_core::LoadAverage,
    procfs_core::ProcError,
>)
    ensures
        gives(r, load_average_of(content@)),
{
    procfs_core::LoadAverage::from_read(content)
}

/// Tells whether `error` is one with which a call of `procfs_core::LoadAverage::from_read` on the
/// contents fails.
pub open(crate) spec fn is_load_average_error(
    content: Seq<u8>,
    error: procfs_core::ProcError,
) -> bool {
    exists|bytes: &[u8]|
        bytes@ == content && #[trigger] call_ensures(parse_load_average, (bytes,), Err(error))
}

/// `procfs_core::process::CoredumpFlags`: what is written to a core dump.
#[verifier::external_type_specification]
#[verifier::external_body]
pub struct ExCoredumpFlags(procfs_core::process::CoredumpFlags);

/// `procfs_core::process::FDTarget`: what a file descriptor refers to.
#[verifier::external_type_specification]
#[verifier::external_body]
pub struct ExFDTarget(procfs_core::process::FDTarget);

/// All the bits that stand for something in a core dump filter.
pub const COREDUMP_BITS: u32 = 0x1ff;

/// The flags that `procfs_core::process::CoredumpFlags::from_bits` makes of bits.
pub uninterp spec fn coredump_flags_of(bits: u32) -> Option<procfs_core::process::CoredumpFlags>;

/// `procfs_core::process::CoredumpFlags::from_bits`: bits are flags exactly if each of them stands
/// for something. The flags are named.
#[verifier::external_body]
pub(crate) fn coredump_flags(bits: u32) -> (r: Option<procfs_core::process::CoredumpFlags>)
    ensures
        r == coredump_flags_of(bits),
        r is Some <==> bits <= COREDUMP_BITS,
{
    procfs_core::process::CoredumpFlags::from_bits(bits)
}

/// What `procfs_core::process::FDTarget::from_str` makes of the text of a link, unless it rejects
/// it.
pub uninterp spec fn target_of(link: Seq<char>) -> Option<procfs_core::process::FDTarget>;

/// `procfs_core::process::FDTarget::from_str`: its result is named.
#[verifier::external_body]
pub(crate) fn parse_target(link: &str) -> (r: Result<
    procfs_core::process::FDTarget,
    procfs_core::ProcError,
>)
    ensures
        gives(r, target_of(link@)),
{
    procfs_core::process::FDTarget::from_str(link)
}

/// Tells whether `error` is one with which a call of `procfs_core::process::FDTarget::from_str` on
/// the text of a link fails.
pub open(crate) spec fn is_target_error(link: Seq<char>, error: procfs_core::ProcError) -> bool {
    exists|string: &str|
        string@ == link && #[trigger] call_ensures(parse_target, (string,), Err(error))
}

/// The user or group number that is the word `i` of a text.
pub open spec fn id_in(text: Seq<char>, i: int) -> Option<int> {
    if i < words(text).len() {
        within(unsigned_int(words(text)[i], 10), 0, u32::MAX as int)
    } else {
        None
    }
}

/// `procfs_core::process::Status::parse_uid_gid`: reads the word `i` of a text as a decimal number
/// of 32 bits, and fails exactly if there is no such word or it is no such number.
#[verifier::external_body]
pub(crate) fn parse_id(text: &str, i: usize) -> (r: Result<u32, procfs_core::ProcError>)
    ensures
        match r {
            Ok(id) => id_in(text@, i as int) == Some(id as int),
            Err(_) => id_in(text@, i as int) is None,
        },
{
    procfs_core::process::Status::parse_uid_gid(text, i)
}

/// Tells whether `error` is one with which a call of `procfs_core::process::Status::parse_uid_gid`
/// on a text fails.
pub open(crate) spec fn is_id_error(
    text: Seq<char>,
    i: usize,
    error: procfs_core::ProcError,
) -> bool {
    exists|string: &str|
        string@ == text && #[trigger] call_ensures(parse_id, (string, i), Err(error))
}

/// What can be cleared for a process.
#[derive(Clone, Copy, Debug, PartialEq, Eq, Structural)]
pub enum ClearRefs {
    /// The referenced and accessed bits of all pages.
    PGReferencedAll,
    /// The referenced and accessed bits of the anonymous pages.
    PGReferencedAnonymous,
    /// The referenced and accessed bits of the pages that map files.
    PGReferencedFile,
    /// The bits that tell which pages were written to.
    SoftDirty,
    /// The peak size of the resident set.
    PeakRSS,
}

/// The number by which the kernel is told what to clear.
pub open spec fn clear_number(clear: ClearRefs) -> int {
    match clear {
        ClearRefs::PGReferencedAll => 1,
        ClearRefs::PGReferencedAnonymous => 2,
        ClearRefs::PGReferencedFile => 3,
        ClearRefs::SoftDirty => 4,
        ClearRefs::PeakRSS => 5,
    }
}

/// The text that `procfs_core::process::ClearRefs` displays: its number in decimal.
#[verifier::external_body]
pub(crate) fn clear_text(clear: ClearRefs) -> (r: String)
    ensures
        r@ == decimal(clear_number(clear)),
{
    let outside = match clear {
        ClearRefs::PGReferencedAll => procfs_core::process::ClearRefs::PGReferencedAll,
        ClearRefs::PGReferencedAnonymous => procfs_core::process::ClearRefs::PGReferencedAnonymous,
        ClearRefs::PGReferencedFile => procfs_core::process::ClearRefs::PGReferencedFile,
        ClearRefs::SoftDirty => procfs_core::process::ClearRefs::SoftDirty,
        ClearRefs::PeakRSS => procfs_core::process::ClearRefs::PeakRSS,
    };
    outside.to_string()
}

} // verus!
