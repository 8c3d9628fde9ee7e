//! Facts about the machine.
use vstd::prelude::*;
use vstd::utf8::encode_utf8;

use crate::bytes::copied;
use crate::error::{
    fails_with, reported, reported_on, take_parsed, ErrorView, FileRead, InternalError,
    InternalView, IoFailure, ProcfsError,
};
use crate::parse::{
    is_kernel_stats_error, is_load_average_error, kernel_stats_of, load_average_of,
    parse_kernel_stats, parse_load_average,
};
use crate::path::joined;
use crate::process::reading::{contents, is_parsed};
use crate::procfs::AsyncProcfs;

verus! {

/// The file with the statistics of the kernel, from the root.
pub open spec fn kernel_stats_path() -> Seq<char> {
    "stat"@
}

/// The file with the load of the machine, from the root.
pub open spec fn load_average_path() -> Seq<char> {
    "loadavg"@
}

/// The file with the statistics of the kernel, from the root.
pub fn kernel_stats_file() -> (r: &'static str)
    ensures
        r@ == kernel_stats_path(),
{
    "stat"
}

/// The file with the load of the machine, from the root.
pub fn load_average_file() -> (r: &'static str)
    ensures
        r@ == load_average_path(),
{
    "loadavg"
}

/// The error for a file below the root that was not read: a failure to open it names the file, a
/// failure to read it names none.
pub open spec fn failure_below<T>(root: Seq<u8>, path: Seq<char>, read: FileRead<T>) -> Option<
    ErrorView,
> {
    match read {
        FileRead::NotOpened(failure) => Some(
            reported_on(failure, joined(root, encode_utf8(path))),
        ),
        FileRead::NotRead(failure) => Some(reported(failure)),
        FileRead::Read(_) => None,
    }
}

/// The statistics of the kernel, and the boot time in them, on a machine with that many clock ticks
/// in a second.
pub fn kernel_stats(
    procfs: &AsyncProcfs,
    read: FileRead<Vec<u8>>,
    ticks_per_second: u64,
) -> (r: Result<(procfs_core::KernelStats, u64), ProcfsError>)
    ensures
        is_parsed(
            r,
            failure_below(procfs.root@, kernel_stats_path(), read),
            true,
            kernel_stats_of(contents(read)@, ticks_per_second),
            |e: procfs_core::ProcError| is_kernel_stats_error(contents(read)@, ticks_per_second, e),
        ),
{
    match procfs.current(kernel_stats_file(), read) {
        Ok(content) => take_parsed(parse_kernel_stats(content.as_slice(), ticks_per_second)),
        Err(e) => Err(e),
    }
}

/// The load of the machine.
pub fn load_average(procfs: &AsyncProcfs, read: FileRead<Vec<u8>>) -> (r: Result<
    procfs_core::LoadAverage,
    ProcfsError,
>)
    ensures
        is_parsed(
            r,
            failure_below(procfs.root@, load_average_path(), read),
            true,
            load_average_of(contents(read)@),
            |e: procfs_core::ProcError| is_load_average_error(contents(read)@, e),
        ),
{
    match procfs.current(load_average_file(), read) {
        Ok(content) => take_parsed(parse_load_average(content.as_slice())),
        Err(e) => Err(e),
    }
}

/// The boot time in the statistics of the kernel, in seconds since the epoch.
pub open spec fn boot_time_in(content: Seq<u8>, ticks_per_second: u64) -> Option<u64> {
    match kernel_stats_of(content, ticks_per_second) {
        Some((_, btime)) => Some(btime),
        None => None,
    }
}

/// The boot time of the machine, in seconds since the epoch, from the statistics of the kernel.
pub fn boot_time_secs(
    procfs: &AsyncProcfs,
    read: FileRead<Vec<u8>>,
    ticks_per_second: u64,
) -> (r: Result<u64, ProcfsError>)
    ensures
        is_parsed(
            r,
            failure_below(procfs.root@, kernel_stats_path(), read),
            true,
            boot_time_in(contents(read)@, ticks_per_second),
            |e: procfs_core::ProcError| is_kernel_stats_error(contents(read)@, ticks_per_second, e),
        ),
{
    match kernel_stats(procfs, read, ticks_per_second) {
        Ok((_, btime)) => Ok(btime),
        Err(e) => Err(e),
    }
}

/// The seconds as a signed number of 64 bits.
pub open spec fn wrapped_seconds(secs: u64) -> int {
    if secs <= i64::MAX {
        secs as int
    } else {
        secs - 0x1_0000_0000_0000_0000
    }
}

/// The boot time as a signed number of seconds, which wraps around.
pub fn boot_timestamp(secs: u64) -> (r: i64)
    ensures
        r == wrapped_seconds(secs),
{
    if secs <= i64::MAX as u64 {
        secs as i64
    } else {
        -((u64::MAX - secs) as i64) - 1
    }
}

/// The boot time as a moment of the local time zone, given the seconds and the one moment that they
/// stand for. Seconds that stand for no moment, or for more than one, are an error.
pub fn boot_time<T>(secs: Result<u64, ProcfsError>, moment: Option<T>) -> (r: Result<
    T,
    ProcfsError,
>)
    ensures
        match secs {
            Err(e) => r == Err::<T, ProcfsError>(e),
            Ok(_) => match moment {
                Some(time) => r == Ok::<T, ProcfsError>(time),
                None => fails_with(r, ErrorView::InternalError(InternalView::Missing)),
            },
        },
{
    match secs {
        Err(e) => Err(e),
        Ok(_) => match moment {
            Some(time) => Ok(time),
            None => Err(ProcfsError::InternalError(InternalError::Missing)),
        },
    }
}

/// `rustix::param::clock_ticks_per_second`: what the machine says. Nothing is promised of it.
#[verifier::external_body]
fn clock_ticks_per_second() -> u64 {
    rustix::param::clock_ticks_per_second()
}

/// `rustix::param::page_size`: what the machine says. Nothing is promised of it.
#[verifier::external_body]
fn machine_page_size() -> usize {
    rustix::param::page_size()
}

/// `u16::from_ne_bytes`: the number that two bytes stand for in the byte order of the machine.
/// Which of the two orders that is is left open.
#[verifier::external_body]
fn native_number(low: u8, high: u8) -> (r: u16)
    ensures
        r == low + 256 * high || r == 256 * low + high,
{
    u16::from_ne_bytes([low, high])
}

/// Tells whether `ticks` is what a call of `rustix::param::clock_ticks_per_second` gives.
pub closed spec fn is_tick_count(ticks: u64) -> bool {
    call_ensures(clock_ticks_per_second, (), ticks)
}

/// Tells whether `size` is what a call of `rustix::param::page_size` gives.
pub closed spec fn is_page_size(size: usize) -> bool {
    call_ensures(machine_page_size, (), size)
}

/// Tells whether `number` is what a call of `u16::from_ne_bytes` gives for the two bytes.
pub closed spec fn is_native_number(low: u8, high: u8, number: u16) -> bool {
    call_ensures(native_number, (low, high), number)
}

/// Tells whether the machine is of that byte order: it is little-endian if it takes the bytes 0 and
/// 1 for the number 256, and big-endian if it takes them for 1.
pub open spec fn is_byte_order(little_endian: bool) -> bool {
    exists|number: u16|
        {
            &&& #[trigger] is_native_number(0, 1, number)
            &&& number == 1 || number == 256
            &&& little_endian == (number == 256)
        }
}

/// The number of clock ticks in a second: what the machine says.
///
/// This is not part of `/proc`, but several fields count in ticks.
pub fn ticks_per_second() -> (r: u64)
    ensures
        is_tick_count(r),
{
    clock_ticks_per_second()
}

/// The size of a page of memory, in bytes: what the machine says.
pub fn page_size() -> (r: u64)
    ensures
        r <= usize::MAX,
        is_page_size(r as usize),
{
    machine_page_size() as u64
}

/// Whether the machine is little-endian, given the number that the bytes 0 and 1 stand for on it:
/// it is if the first byte counts the ones and the second byte the multiples of 256.
pub fn low_byte_comes_first(number: u16) -> (r: bool)
    ensures
        r <==> number == 0 + 256 * 1,
{
    number == 256
}

/// Whether the machine is little-endian: whether it takes the bytes 0 and 1 for the number 256.
pub fn is_little_endian() -> (r: bool)
    ensures
        is_byte_order(r),
{
    let number: u16 = native_number(0, 1);
    assert(is_native_number(0, 1, number));
    low_byte_comes_first(number)
}

/// Access to facts about the machine that is running.
#[derive(Debug)]
pub struct AsyncLocalSystemInfo {
    /// The file system that the facts are read from.
    pub inner: AsyncProcfs,
}

/// Access to facts about the machine whose `/proc` file system it is.
pub fn current_system_info(procfs: &AsyncProcfs) -> (r: AsyncLocalSystemInfo)
    ensures
        r.inner.root@ == procfs.root@,
{
    AsyncLocalSystemInfo { inner: AsyncProcfs { root: copied(procfs.root.as_slice()) } }
}

impl AsyncLocalSystemInfo {
    /// The boot time of the machine, in seconds since the epoch.
    pub fn boot_time_secs(&self, read: FileRead<Vec<u8>>, ticks_per_second: u64) -> (r: Result<
        u64,
        ProcfsError,
    >)
        ensures
            is_parsed(
                r,
                failure_below(self.inner.root@, kernel_stats_path(), read),
                true,
                boot_time_in(contents(read)@, ticks_per_second),
                |e: procfs_core::ProcError|
                    is_kernel_stats_error(contents(read)@, ticks_per_second, e),
            ),
    {
        boot_time_secs(&self.inner, read, ticks_per_second)
    }

    /// The number of clock ticks in a second: what the machine says.
    pub fn ticks_per_second(&self) -> (r: u64)
        ensures
            is_tick_count(r),
    {
        ticks_per_second()
    }

    /// The size of a page of memory, in bytes: what the machine says.
    pub fn page_size(&self) -> (r: u64)
        ensures
            r <= usize::MAX,
            is_page_size(r as usize),
    {
        page_size()
    }

    /// Whether the machine is little-endian: whether it takes the bytes 0 and 1 for the number 256.
    pub fn is_little_endian(&self) -> (r: bool)
        ensures
            is_byte_order(r),
    {
        is_little_endian()
    }
}

/// A file below the root that was not read is reported as such, under its own path if it was not
/// opened and under none otherwise.
pub proof fn unread_files_below_the_root_are_reported(
    root: Seq<u8>,
    path: Seq<char>,
    failure: IoFailure,
    content: Vec<u8>,
)
    ensures
        failure_below(root, path, FileRead::<Vec<u8>>::NotOpened(failure)) == Some(
            reported_on(failure, joined(root, encode_utf8(path))),
        ),
        failure_below(root, path, FileRead::<Vec<u8>>::NotRead(failure)) == Some(reported(failure)),
        failure_below(root, path, FileRead::Read(content)) is None,
{
}

/// The boot time is the one in the statistics of the kernel, and there is one exactly if these can
/// be read.
pub proof fn the_boot_time_is_that_of_the_statistics(content: Seq<u8>, ticks_per_second: u64)
    ensures
        boot_time_in(content, ticks_per_second) is Some <==> kernel_stats_of(
            content,
            ticks_per_second,
        ) is Some,
        kernel_stats_of(content, ticks_per_second) matches Some(stats) ==> boot_time_in(
            content,
            ticks_per_second,
        ) == Some(stats.1),
{
}

/// Seconds as a signed number: the one of 64 bits from which they differ by a multiple of two to
/// the power of 64.
pub proof fn seconds_wrap_around(secs: u64)
    ensures
        i64::MIN <= wrapped_seconds(secs) <= i64::MAX,
        wrapped_seconds(secs) % 0x1_0000_0000_0000_0000 == secs as int,
        secs <= i64::MAX ==> wrapped_seconds(secs) == secs,
{
}

} // verus!
