//! Processes.
use std::collections::HashMap;
use vstd::prelude::*;
use vstd::utf8::{decode_utf8, encode_utf8, is_ascii_chars, is_ascii_chars_encode_utf8};

use crate::bytes::copied;
use crate::error::{
    fails_with, reported, reported_on, take_parsed, ErrorView, FileRead, FileWrite, InternalError,
    InternalView, IoFailure, ProcfsError,
};
use crate::number::{
    decimal, decimal_bytes, decimal_is_a_word, decimal_reads_back, decimal_text,
    lemma_decimal_characters, only_digits_make_a_number, signed,
};
use crate::parse::{
    clear_number, clear_text, coredump_flags, coredump_flags_of, id_in, is_id_error, parse_id,
    target_of, COREDUMP_BITS, ClearRefs,
};
use crate::path::{
    final_name, final_name_range, is_bare, join, joined, joined_names,
    the_name_behind_the_last_slash, SLASH,
};
use crate::process::auxv::{auxiliary_vector, read_auxiliary_vector};
use crate::process::cmdline::{arguments, read_arguments, texts};
use crate::process::environ::{as_map, distinct_names, environment, read_environment, Variable};
use crate::process::fd::{descriptor_path, DescriptorProbe, FDInfo};
use crate::process::files::ProcessFile;
use crate::process::reading::{
    a_number_in_a_file_reads_back, bad_number, contents, failure_of_call, failure_on,
    failure_to_open, file_path, is_rejection, is_result, path_of, signed_in, signed_value,
    take_call, take_named, take_opened, take_write, unsigned_in, unsigned_value,
};
use crate::process::scan::{
    all_found, count_entries, counted, entries_of, entry_texts, every_entry_has_its_item, items,
    number_in, numbered, numbered_entries_are_counted, read_number, readable, Entries, Listing,
    Phase, Scan, Sight,
};
use crate::process::task::{task_path, Task};
use crate::procfs::AsyncProcfs;
use crate::text::{
    bytes_stand_for_their_text, chars_of, is_blank, is_space, lacks, lossy, string_of, text_of,
    the_first_word, trim, trim_range,
};

pub mod auxv;
pub mod cmdline;
pub mod environ;
pub mod fd;
pub mod files;
pub mod parsed;
pub mod reading;
pub mod scan;
pub mod task;

verus! {

/// A process.
#[derive(Debug)]
pub struct Process {
    /// The number of the process.
    pub pid: i32,
    /// The path of the directory of the process, such as `/proc/9` or `/proc/self`.
    pub path: Vec<u8>,
}

/// The link, from the root, to the process that reads it.
pub open spec fn self_path() -> Seq<char> {
    "self"@
}

/// The process number in which a path ends.
pub open spec fn number_of_path(path: Seq<char>) -> Option<int> {
    match final_name(path) {
        Some(name) => number_in(name),
        None => None,
    }
}

/// The number of the process at a path: the number in which the path ends, or else the number that
/// the path is a link to.
pub open spec fn process_number(path: Seq<char>, link: Option<Seq<u8>>) -> Option<int> {
    match number_of_path(path) {
        Some(n) => Some(n),
        None => match link {
            Some(bytes) => number_in(text_of(bytes)),
            None => None,
        },
    }
}

/// The bytes of a link, if there is one.
pub open spec fn link_view(link: Option<Vec<u8>>) -> Option<Seq<u8>> {
    match link {
        Some(bytes) => Some(bytes@),
        None => None,
    }
}

/// Reads the process number in which a path ends.
pub fn path_number(path: &str) -> (r: Option<i32>)
    ensures
        r is Some <==> number_of_path(path@) is Some,
        r matches Some(n) ==> number_of_path(path@) == Some(n as int),
{
    let chars = chars_of(path);
    match final_name_range(&chars) {
        Some((from, to)) => read_number(string_of(&chars, from, to).as_str()),
        None => None,
    }
}

/// The entries that were listed; none if nothing was listed.
pub open spec fn texts_listed(listed: Option<Result<Entries, IoFailure>>) -> Seq<
    Result<Seq<char>, IoFailure>,
> {
    match listed {
        Some(Ok(entries)) => entry_texts(entries@),
        _ => seq![],
    }
}

/// The number of descriptors, given the size of the directory that lists them and its entries: the
/// size, unless it is zero; then the number of descriptors that are listed.
pub open spec fn descriptor_count(size: u64, entries: Seq<Result<Seq<char>, IoFailure>>) -> nat {
    if size > 0 {
        (size as usize) as nat
    } else {
        counted(entries)
    }
}

/// Tells whether `r` is the process at `path` below `root`, given what came of opening its
/// directory and where the path is a link to.
pub open spec fn is_process(
    r: Result<Process, ProcfsError>,
    root: Seq<u8>,
    path: Seq<char>,
    opened: Result<(), IoFailure>,
    link: Option<Seq<u8>>,
) -> bool {
    match opened {
        Err(failure) => fails_with(r, reported_on(failure, encode_utf8(path))),
        Ok(_) => match process_number(path, link) {
            Some(n) => r matches Ok(process) && {
                &&& process.pid == n
                &&& process.path@ == joined(root, encode_utf8(path))
            },
            None => fails_with(r, ErrorView::NotFound(Some(encode_utf8(path)))),
        },
    }
}

impl Process {
    /// The process at `relative_path` below the root, given what came of opening its directory and
    /// of reading the path as a link. The link matters only where the path does not end in a
    /// number.
    pub fn new_with_path(
        procfs: &AsyncProcfs,
        relative_path: &str,
        opened: Result<(), IoFailure>,
        link: Option<Vec<u8>>,
    ) -> (r: Result<Process, ProcfsError>)
        ensures
            is_process(r, procfs.root@, relative_path@, opened, link_view(link)),
    {
        let relative: &[u8] = relative_path.as_bytes();
        match opened {
            Err(failure) => Err(ProcfsError::on_file(failure, copied(relative))),
            Ok(_) => {
                let number = match path_number(relative_path) {
                    Some(n) => Some(n),
                    None => match link {
                        Some(bytes) => read_number(lossy(bytes.as_slice()).as_str()),
                        None => None,
                    },
                };
                match number {
                    Some(pid) => Ok(Process { pid, path: procfs.file(relative) }),
                    None => Err(ProcfsError::NotFound(Some(copied(relative)))),
                }
            },
        }
    }

    /// The path, from the root, of the process of that number.
    pub fn relative_path(pid: i32) -> (r: String)
        ensures
            r@ == decimal(pid as int),
    {
        decimal_text(pid)
    }

    /// The process of that number, given what came of opening its directory.
    ///
    /// This can fail if the process does not exist, or if the caller may not look at it.
    pub fn new(procfs: &AsyncProcfs, pid: i32, opened: Result<(), IoFailure>) -> (r: Result<
        Process,
        ProcfsError,
    >)
        ensures
            is_process(r, procfs.root@, decimal(pid as int), opened, None),
            opened is Ok ==> (r matches Ok(process) && process.pid == pid),
    {
        proof {
            a_number_is_its_own_path(pid);
        }
        let relative = Process::relative_path(pid);
        Process::new_with_path(procfs, relative.as_str(), opened, None)
    }

    /// The process that asks, given what came of opening its directory, and what the link `self`
    /// holds.
    pub fn myself(
        procfs: &AsyncProcfs,
        opened: Result<(), IoFailure>,
        link: Option<Vec<u8>>,
    ) -> (r: Result<Process, ProcfsError>)
        ensures
            is_process(r, procfs.root@, self_path(), opened, link_view(link)),
    {
        Process::new_with_path(procfs, "self", opened, link)
    }

    /// The number of the process.
    pub fn pid(&self) -> (r: i32)
        ensures
            r == self.pid,
    {
        self.pid
    }

    /// The path of a file in the directory of the process.
    pub fn file(&self, path: &[u8]) -> (r: Vec<u8>)
        ensures
            r@ == joined(self.path@, path@),
    {
        join(self.path.as_slice(), path)
    }

    /// The command line of the process.
    pub fn cmdline(&self, read: FileRead<String>) -> (r: Result<Vec<String>, ProcfsError>)
        ensures
            match failure_on(self.path@, ProcessFile::Cmdline, read) {
                Some(error) => fails_with(r, error),
                None => r matches Ok(list) && texts(list@) == arguments(contents(read)@),
            },
    {
        match take_named(&self.path, ProcessFile::Cmdline, read) {
            Ok(line) => Ok(read_arguments(line.as_str())),
            Err(e) => Err(e),
        }
    }

    /// The user who owns the process, given the metadata of its directory.
    pub fn uid(&self, owner: Result<u32, IoFailure>) -> (r: Result<u32, ProcfsError>)
        ensures
            match owner {
                Ok(uid) => r == Ok::<u32, ProcfsError>(uid),
                Err(failure) => fails_with(r, reported(failure)),
            },
    {
        match owner {
            Ok(uid) => Ok(uid),
            Err(failure) => Err(ProcfsError::unnamed(failure)),
        }
    }

    /// The working directory of the process, given what came of reading the link to it.
    pub fn cwd(&self, link: Result<Vec<u8>, IoFailure>) -> (r: Result<Vec<u8>, ProcfsError>)
        ensures
            is_result(r, failure_of_call(self.path@, ProcessFile::Cwd, link), link->Ok_0),
    {
        take_call(&self.path, ProcessFile::Cwd, link)
    }

    /// The root directory of the process, given what came of reading the link to it.
    pub fn root(&self, link: Result<Vec<u8>, IoFailure>) -> (r: Result<Vec<u8>, ProcfsError>)
        ensures
            is_result(r, failure_of_call(self.path@, ProcessFile::Root, link), link->Ok_0),
    {
        take_call(&self.path, ProcessFile::Root, link)
    }

    /// The program that the process executes, given what came of reading the link to it.
    pub fn exe(&self, link: Result<Vec<u8>, IoFailure>) -> (r: Result<Vec<u8>, ProcfsError>)
        ensures
            is_result(r, failure_of_call(self.path@, ProcessFile::Exe, link), link->Ok_0),
    {
        take_call(&self.path, ProcessFile::Exe, link)
    }

    /// The environment of the process.
    pub fn environ(&self, read: FileRead<Vec<u8>>) -> (r: Result<Vec<Variable>, ProcfsError>)
        ensures
            match failure_to_open(self.path@, ProcessFile::Environ, read) {
                Some(error) => fails_with(r, error),
                None => r matches Ok(variables) && {
                    &&& distinct_names(variables@)
                    &&& as_map(variables@) == environment(contents(read)@)
                },
            },
    {
        match take_opened(&self.path, ProcessFile::Environ, read) {
            Ok(content) => Ok(read_environment(&content)),
            Err(e) => Err(e),
        }
    }

    /// Whether the descriptors have to be listed to be counted, given the size of the directory
    /// that lists them: kernels that tell their number tell it as that size, for the others it is
    /// zero.
    pub fn fd_count_needs_listing(size: &Result<u64, IoFailure>) -> (r: bool)
        ensures
            r == (*size matches Ok(n) && n == 0),
    {
        match size {
            Ok(n) => *n == 0,
            Err(_) => false,
        }
    }

    /// The number of open file descriptors, given the size of the directory that lists them, and,
    /// where they have to be listed, what came of opening and reading that directory.
    ///
    /// Every descriptor that is listed is counted, whether it can be looked at or not.
    pub fn fd_count(
        &self,
        size: Result<u64, IoFailure>,
        listed: Option<Result<Entries, IoFailure>>,
    ) -> (r: Result<usize, ProcfsError>)
        requires
            (size matches Ok(n) && n == 0) ==> listed is Some,
        ensures
            match size {
                Err(failure) => fails_with(
                    r,
                    reported_on(failure, path_of(self.path@, ProcessFile::Fd)),
                ),
                Ok(n) => match listed {
                    Some(Err(failure)) if n == 0 => fails_with(
                        r,
                        reported_on(failure, path_of(self.path@, ProcessFile::Fd)),
                    ),
                    _ => r matches Ok(count) && count == descriptor_count(n, texts_listed(listed)),
                },
            },
    {
        let n: u64 = match take_call(&self.path, ProcessFile::Fd, size) {
            Ok(n) => n,
            Err(e) => return Err(e),
        };
        if n > 0 {
            return Ok(#[verifier::truncate] (n as usize));
        }
        match listed {
            Some(Ok(entries)) => Ok(count_entries(&entries)),
            Some(Err(failure)) => Err(
                ProcfsError::on_file(failure, file_path(&self.path, ProcessFile::Fd)),
            ),
            None => Ok(0),
        }
    }

    /// The walk through the open file descriptors, given what came of opening the directory that
    /// lists them.
    pub fn fds(&self, opened: Result<(), IoFailure>) -> (r: Result<Scan, ProcfsError>)
        ensures
            is_result(
                r,
                failure_of_call(self.path@, ProcessFile::Fd, opened),
                Scan { listing: Listing::Descriptors, phase: Phase::Reading },
            ),
    {
        match take_call(&self.path, ProcessFile::Fd, opened) {
            Ok(_) => Ok(Scan::new(Listing::Descriptors)),
            Err(e) => Err(e),
        }
    }

    /// The walk through the threads, given what came of opening the directory that lists them.
    ///
    /// The threads are not those of one moment, but whatever is running when the walk gets there.
    pub fn tasks(&self, opened: Result<(), IoFailure>) -> (r: Result<Scan, ProcfsError>)
        ensures
            is_result(
                r,
                failure_of_call(self.path@, ProcessFile::Task, opened),
                Scan { listing: Listing::Tasks, phase: Phase::Reading },
            ),
    {
        match take_call(&self.path, ProcessFile::Task, opened) {
            Ok(_) => Ok(Scan::new(Listing::Tasks)),
            Err(e) => Err(e),
        }
    }

    /// Which memory is written to a core dump. There is no answer if the file is blank.
    pub fn coredump_filter(&self, read: FileRead<String>) -> (r: Result<
        Option<procfs_core::process::CoredumpFlags>,
        ProcfsError,
    >)
        ensures
            match failure_to_open(self.path@, ProcessFile::CoredumpFilter, read) {
                Some(error) => fails_with(r, error),
                None => {
                    let text = contents(read)@;
                    if trim(text).len() == 0 {
                        r matches Ok(None)
                    } else {
                        match unsigned_in(text, 16, u32::MAX as int) {
                            Some(bits) => if bits <= COREDUMP_BITS {
                                &&& r matches Ok(Some(_))
                                &&& r->Ok_0 == coredump_flags_of(bits as u32)
                            } else {
                                fails_with(r, ErrorView::InternalError(InternalView::Missing))
                            },
                            None => fails_with(r, bad_number(text)),
                        }
                    }
                },
            },
    {
        let text = match take_opened(&self.path, ProcessFile::CoredumpFilter, read) {
            Ok(text) => text,
            Err(e) => return Err(e),
        };
        let (from, to) = trim_range(&chars_of(text.as_str()));
        if from == to {
            return Ok(None);
        }
        match unsigned_value(text.as_str(), 16, u32::MAX as u64) {
            Ok(bits) => match coredump_flags(bits as u32) {
                Some(flags) => Ok(Some(flags)),
                None => Err(ProcfsError::InternalError(InternalError::Missing)),
            },
            Err(e) => Err(e),
        }
    }

    /// The group in which the process is scheduled.
    pub fn autogroup(&self, read: FileRead<String>) -> (r: Result<String, ProcfsError>)
        ensures
            is_result(
                r,
                failure_to_open(self.path@, ProcessFile::Autogroup, read),
                contents(read),
            ),
    {
        take_opened(&self.path, ProcessFile::Autogroup, read)
    }

    /// Where in the kernel the process sleeps.
    pub fn wchan(&self, read: FileRead<String>) -> (r: Result<String, ProcfsError>)
        ensures
            is_result(r, failure_to_open(self.path@, ProcessFile::Wchan, read), contents(read)),
    {
        take_opened(&self.path, ProcessFile::Wchan, read)
    }

    /// The auxiliary vector of the process, on a machine with words of `width` bytes in that byte
    /// order.
    pub fn auxv(&self, read: FileRead<Vec<u8>>, width: usize, little_endian: bool) -> (r: Result<
        HashMap<u64, u64>,
        ProcfsError,
    >)
        requires
            1 <= width <= 8,
        ensures
            match failure_to_open(self.path@, ProcessFile::Auxv, read) {
                Some(error) => fails_with(r, error),
                None => match auxiliary_vector(contents(read)@, width as nat, little_endian) {
                    Some(map) => r matches Ok(vector) && vector@ == map,
                    None => fails_with(r, ErrorView::UnexpectedEof),
                },
            },
    {
        match take_opened(&self.path, ProcessFile::Auxv, read) {
            Ok(content) => match read_auxiliary_vector(&content, width, little_endian) {
                Some(map) => Ok(map),
                None => Err(ProcfsError::UnexpectedEof),
            },
            Err(e) => Err(e),
        }
    }

    /// The user who logged in to start the process.
    pub fn loginuid(&self, read: FileRead<String>) -> (r: Result<u32, ProcfsError>)
        ensures
            match failure_to_open(self.path@, ProcessFile::Loginuid, read) {
                Some(error) => fails_with(r, error),
                None => match id_in(contents(read)@, 0) {
                    Some(id) => r matches Ok(uid) && uid == id,
                    None => is_rejection(
                        r,
                        |e: procfs_core::ProcError| is_id_error(contents(read)@, 0, e),
                    ),
                },
            },
    {
        match take_opened(&self.path, ProcessFile::Loginuid, read) {
            Ok(text) => take_parsed(parse_id(text.as_str(), 0)),
            Err(e) => Err(e),
        }
    }

    /// The score of the process for the OOM killer. A process with a higher score is more likely to
    /// be killed.
    pub fn oom_score(&self, read: FileRead<String>) -> (r: Result<u16, ProcfsError>)
        ensures
            match failure_to_open(self.path@, ProcessFile::OomScore, read) {
                Some(error) => fails_with(r, error),
                None => match unsigned_in(contents(read)@, 10, u16::MAX as int) {
                    Some(n) => r matches Ok(score) && score == n,
                    None => fails_with(r, bad_number(contents(read)@)),
                },
            },
    {
        match take_opened(&self.path, ProcessFile::OomScore, read) {
            Ok(text) => match unsigned_value(text.as_str(), 10, u16::MAX as u64) {
                Ok(score) => Ok(score as u16),
                Err(e) => Err(e),
            },
            Err(e) => Err(e),
        }
    }

    /// What is added to the score of the process for the OOM killer.
    pub fn oom_score_adj(&self, read: FileRead<String>) -> (r: Result<i16, ProcfsError>)
        ensures
            match failure_to_open(self.path@, ProcessFile::OomScoreAdj, read) {
                Some(error) => fails_with(r, error),
                None => match signed_in(contents(read)@, i16::MIN as int, i16::MAX as int) {
                    Some(n) => r matches Ok(adjustment) && adjustment == n,
                    None => fails_with(r, bad_number(contents(read)@)),
                },
            },
    {
        match take_opened(&self.path, ProcessFile::OomScoreAdj, read) {
            Ok(text) => match signed_value(text.as_str(), i16::MIN as i32, i16::MAX as i32) {
                Ok(adjustment) => Ok(adjustment as i16),
                Err(e) => Err(e),
            },
            Err(e) => Err(e),
        }
    }

    /// What is written to the file to set what is added to the score for the OOM killer.
    pub fn oom_score_adj_data(new_oom_score_adj: i16) -> (r: Vec<u8>)
        ensures
            r@ == encode_utf8(decimal(new_oom_score_adj as int)),
    {
        decimal_bytes(new_oom_score_adj as i32)
    }

    /// Sets what is added to the score for the OOM killer, given what came of writing it.
    pub fn set_oom_score_adj(&self, write: FileWrite) -> (r: Result<(), ProcfsError>)
        ensures
            match write {
                FileWrite::NotOpened(failure) => fails_with(
                    r,
                    reported_on(failure, path_of(self.path@, ProcessFile::OomScoreAdj)),
                ),
                FileWrite::NotWritten(failure) => fails_with(r, reported(failure)),
                FileWrite::Written => r is Ok,
            },
    {
        take_write(&self.path, ProcessFile::OomScoreAdj, write)
    }

    /// What is written to the file to clear something.
    pub fn clear_refs_data(clear: ClearRefs) -> (r: Vec<u8>)
        ensures
            r@ == encode_utf8(decimal(clear_number(clear))),
    {
        copied(clear_text(clear).as_str().as_bytes())
    }

    /// Clears something for the process, given what came of writing what it is.
    pub fn clear_refs(&self, write: FileWrite) -> (r: Result<(), ProcfsError>)
        ensures
            match write {
                FileWrite::NotOpened(failure) => fails_with(
                    r,
                    reported_on(failure, path_of(self.path@, ProcessFile::ClearRefs)),
                ),
                FileWrite::NotWritten(failure) => fails_with(r, reported(failure)),
                FileWrite::Written => r is Ok,
            },
    {
        take_write(&self.path, ProcessFile::ClearRefs, write)
    }

    /// The descriptor `fd` of the process, given what came of looking at it.
    pub fn fd_from_fd(&self, fd: i32, probe: DescriptorProbe) -> (r: Result<FDInfo, ProcfsError>)
        ensures
            fd::is_descriptor(r, self.path@, fd, probe),
            probe matches DescriptorProbe::Found { link, mode } ==> forall|text: Seq<char>|
                link@ == #[trigger] encode_utf8(text) ==> fd::shows(r, fd, mode, target_of(text)),
    {
        FDInfo::from_process_at(self, fd, probe)
    }

    /// The thread `tid` of the process, given what came of opening its directory.
    pub fn task_from_tid(&self, tid: i32, opened: Result<(), IoFailure>) -> (r: Result<
        Task,
        ProcfsError,
    >)
        ensures
            task::is_task(r, *self, tid, opened),
    {
        Task::from_process_at(self, tid, opened)
    }

    /// The main thread of the process, given what came of opening its directory.
    pub fn task_main_thread(&self, opened: Result<(), IoFailure>) -> (r: Result<Task, ProcfsError>)
        ensures
            task::is_task(r, *self, self.pid, opened),
    {
        self.task_from_tid(self.pid, opened)
    }

    /// The memory of the process, given what came of opening the file.
    pub fn mem<T>(&self, opened: Result<T, IoFailure>) -> (r: Result<T, ProcfsError>)
        ensures
            is_result(r, failure_of_call(self.path@, ProcessFile::Mem, opened), opened->Ok_0),
    {
        take_call(&self.path, ProcessFile::Mem, opened)
    }

    /// A file below the directory of the process, given what came of opening it.
    pub fn open_relative<T>(&self, path: &[u8], opened: Result<T, IoFailure>) -> (r: Result<
        T,
        ProcfsError,
    >)
        ensures
            match opened {
                Ok(file) => r == Ok::<T, ProcfsError>(file),
                Err(failure) => fails_with(r, reported_on(failure, joined(self.path@, path@))),
            },
    {
        match opened {
            Ok(file) => Ok(file),
            Err(failure) => Err(ProcfsError::on_file(failure, self.file(path))),
        }
    }

    /// A file below the directory of the process, given what came of opening it with flags.
    pub fn open_relative_flags<T>(&self, path: &[u8], opened: Result<T, IoFailure>) -> (r: Result<
        T,
        ProcfsError,
    >)
        ensures
            match opened {
                Ok(file) => r == Ok::<T, ProcfsError>(file),
                Err(failure) => fails_with(r, reported_on(failure, joined(self.path@, path@))),
            },
    {
        self.open_relative(path, opened)
    }
}

/// The walk through all processes, given what came of opening the root directory.
///
/// A process that cannot be looked at is reported as an error.
pub fn all_processes(procfs: &AsyncProcfs, opened: Result<(), IoFailure>) -> (r: Result<
    Scan,
    ProcfsError,
>)
    ensures
        match opened {
            Ok(_) => r == Ok::<Scan, ProcfsError>(
                (Scan { listing: Listing::Processes, phase: Phase::Reading }),
            ),
            Err(failure) => fails_with(
                r,
                reported_on(failure, joined(procfs.root@, encode_utf8("."@))),
            ),
        },
{
    match opened {
        Ok(_) => Ok(Scan::new(Listing::Processes)),
        Err(failure) => Err(ProcfsError::on_file(failure, procfs.file(".".as_bytes()))),
    }
}

/// The path of a process number ends in that number, so no link is read for it.
pub proof fn a_number_is_its_own_path(pid: i32)
    ensures
        number_of_path(decimal(pid as int)) == Some(pid as int),
{
    let path = decimal(pid as int);
    decimal_reads_back(pid as int);
    crate::number::lemma_decimal_characters(pid as int);
    assert(path[0] != '.');
    assert(path != seq!['.', '.']);
    crate::path::lemma_plain_name(path);
}

/// What is written to set the adjustment of the score for the OOM killer reads back as that
/// adjustment, whatever white space is put around it.
pub proof fn an_adjustment_reads_back(adjustment: i16, before: Seq<char>, after: Seq<char>)
    requires
        is_blank(before),
        is_blank(after),
    ensures
        signed_in(
            before + decode_utf8(encode_utf8(decimal(adjustment as int))) + after,
            i16::MIN as int,
            i16::MAX as int,
        ) == Some(adjustment as int),
{
    broadcast use vstd::utf8::encode_utf8_decode_utf8;

    a_number_in_a_file_reads_back(adjustment as int, before, after);
}

/// A user number reads back as that number, whatever white space is around it.
pub proof fn a_user_reads_back(uid: u32, after: Seq<char>)
    requires
        after.len() > 0 ==> is_space(after[0]),
    ensures
        id_in(decimal(uid as int) + after, 0) == Some(uid as int),
{
    decimal_is_a_word(uid as int);
    decimal_reads_back(uid as int);
    the_first_word(decimal(uid as int), after);
}

proof fn lemma_ascii_path(name: Seq<char>)
    requires
        is_ascii_chars(name),
        name.len() > 0,
        name[0] != '/',
        name.last() != '/',
    ensures
        is_bare(encode_utf8(name)),
{
    is_ascii_chars_encode_utf8(name);
    let bytes = encode_utf8(name);
    assert(name[0] as u8 == bytes[0]);
    assert(name[bytes.len() - 1] as u8 == bytes[bytes.len() - 1]);
}

proof fn lemma_decimal_path(n: int)
    ensures
        is_bare(encode_utf8(decimal(n))),
{
    crate::number::lemma_decimal_characters(n);
    assert(decimal(n)[decimal(n).len() - 1] != '/');
    lemma_ascii_path(decimal(n));
}

proof fn lemma_directory_paths()
    ensures
        is_bare(encode_utf8("task"@)),
        is_bare(encode_utf8("fd"@)),
{
    reveal_strlit("task");
    reveal_strlit("fd");
    lemma_ascii_path("task"@);
    lemma_ascii_path("fd"@);
}

/// Where things lie: the directory of a process is named by its number below the root, that of a
/// thread lies at `task/<tid>` below that of its process, and a descriptor at `fd/<fd>`.
pub proof fn where_things_lie(root: Seq<u8>, pid: int, number: int)
    requires
        root.len() > 0,
        root.last() != SLASH,
    ensures
        ({
            let process = joined(root, encode_utf8(decimal(pid)));
            let name = encode_utf8(decimal(number));
            &&& process == root + seq![SLASH] + encode_utf8(decimal(pid))
            &&& joined(process, task_path(number)) == process + seq![SLASH] + encode_utf8("task"@)
                + seq![SLASH] + name
            &&& joined(process, descriptor_path(number)) == process + seq![SLASH] + encode_utf8(
                "fd"@,
            ) + seq![SLASH] + name
        }),
{
    let process = joined(root, encode_utf8(decimal(pid)));
    let name = encode_utf8(decimal(number));
    lemma_decimal_path(pid);
    lemma_decimal_path(number);
    lemma_directory_paths();
    joined_names(root, encode_utf8(decimal(pid)), name);
    joined_names(process, encode_utf8("task"@), name);
    joined_names(process, encode_utf8("fd"@), name);
}

/// Where the size of the directory is zero or the number of descriptors, and every descriptor can
/// be read and looked at, it makes no difference whether the size tells the number or the
/// descriptors are listed: both give the number of items of the walk.
pub proof fn size_and_listing_agree<T>(size: u64, sights: Seq<Sight<T>>)
    requires
        readable(sights),
        all_found(sights),
        size == 0 || size == numbered(sights),
        size <= usize::MAX,
    ensures
        descriptor_count(size, entries_of(sights)) == items(Listing::Descriptors, sights).len(),
        descriptor_count(size, entries_of(sights)) == descriptor_count(0, entries_of(sights)),
{
    numbered_entries_are_counted(sights);
    every_entry_has_its_item(Listing::Descriptors, sights);
}

/// The path of a descriptor: `fd` and its number behind the path of its process.
pub proof fn lemma_descriptor_path(process: Seq<u8>, number: int)
    requires
        process.len() > 0,
        process.last() != SLASH,
    ensures
        joined(process, descriptor_path(number)) == process + seq![SLASH] + encode_utf8("fd"@)
            + seq![SLASH] + encode_utf8(decimal(number)),
        joined(process, task_path(number)) == process + seq![SLASH] + encode_utf8("task"@)
            + seq![SLASH] + encode_utf8(decimal(number)),
{
    lemma_decimal_path(number);
    lemma_directory_paths();
    joined_names(process, encode_utf8("task"@), encode_utf8(decimal(number)));
    joined_names(process, encode_utf8("fd"@), encode_utf8(decimal(number)));
}

/// Where the size of the directory tells the number of descriptors, the count is that size,
/// whatever was listed and also if nothing was.
pub proof fn the_size_is_the_count(
    size: u64,
    entries: Seq<Result<Seq<char>, IoFailure>>,
    listed: Option<Result<Entries, IoFailure>>,
)
    requires
        0 < size <= usize::MAX,
    ensures
        descriptor_count(size, entries) == size,
        descriptor_count(size, texts_listed(listed)) == size,
        descriptor_count(size, seq![]) == size,
{
}

/// Where it does not, the descriptors that are listed are counted, all of them.
pub proof fn listed_descriptors_are_counted(entries: Seq<Result<Seq<char>, IoFailure>>, list: Entries)
    ensures
        descriptor_count(0, entries) == counted(entries),
        texts_listed(Some(Ok(list))) == entry_texts(list@),
        texts_listed(None).len() == 0,
{
}

/// The link `self` tells the number of the process that reads it; a path that ends in a number
/// tells it without a link.
pub proof fn links_and_paths_tell_the_number(n: i32, m: i32, directory: Seq<char>, other: Seq<u8>)
    ensures
        process_number(self_path(), Some(encode_utf8(decimal(n as int)))) == Some(n as int),
        process_number(self_path(), None) is None,
        process_number(decimal(n as int), Some(encode_utf8(decimal(m as int)))) == Some(n as int),
        process_number(directory.push('/') + decimal(n as int), Some(other)) == Some(n as int),
        process_number(directory.push('/') + decimal(n as int), None) == Some(n as int),
{
    let name = self_path();
    reveal_strlit("self");
    assert(lacks(name, '/'));
    assert(name.len() == 4);
    crate::path::lemma_plain_name(name);
    only_digits_make_a_number(name, 0, 10);
    bytes_stand_for_their_text(decimal(n as int));
    decimal_reads_back(n as int);
    a_number_is_its_own_path(n);
    let number = decimal(n as int);
    lemma_decimal_characters(n as int);
    assert(number[0] != '.');
    assert(number != seq!['.', '.']);
    the_name_behind_the_last_slash(directory, number);
}

/// What is made of a process directory that was opened: the process of that number, at that path
/// below the root. One that was not opened is reported under the path from the root.
pub proof fn a_process_is_where_it_was_looked_for(
    r: Result<Process, ProcfsError>,
    root: Seq<u8>,
    n: i32,
    opened: Result<(), IoFailure>,
    link: Option<Seq<u8>>,
)
    requires
        root.len() > 0,
        root.last() != SLASH,
        is_process(r, root, decimal(n as int), opened, link),
    ensures
        opened is Ok ==> (r matches Ok(process) && process.pid == n && process.path@ == root + seq![
            SLASH,
        ] + encode_utf8(decimal(n as int))),
        opened matches Err(failure) ==> fails_with(
            r,
            reported_on(failure, encode_utf8(decimal(n as int))),
        ),
{
    a_number_is_its_own_path(n);
    where_things_lie(root, n as int, 0);
}

/// The process that asks is at `self` below the root, and has the number that the link holds.
pub proof fn the_process_that_asks_is_at_self(
    r: Result<Process, ProcfsError>,
    root: Seq<u8>,
    n: i32,
)
    requires
        is_process(r, root, self_path(), Ok(()), Some(encode_utf8(decimal(n as int)))),
    ensures
        r matches Ok(process) && process.pid == n && process.path@ == joined(
            root,
            encode_utf8("self"@),
        ),
{
    links_and_paths_tell_the_number(n, 0, seq![], seq![]);
}

/// A path that neither ends in a number nor is a link to one leads to no process.
pub proof fn no_number_no_process(
    r: Result<Process, ProcfsError>,
    root: Seq<u8>,
    path: Seq<char>,
    link: Option<Seq<u8>>,
)
    requires
        is_process(r, root, path, Ok(()), link),
        final_name(path) matches Some(name) ==> signed(name, 10) is None,
        link matches Some(bytes) ==> signed(text_of(bytes), 10) is None,
    ensures
        fails_with(r, ErrorView::NotFound(Some(encode_utf8(path)))),
{
}

} // verus!
