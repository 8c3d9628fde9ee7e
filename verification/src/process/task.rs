//! The threads of a process.
use vstd::prelude::*;
use vstd::utf8::encode_utf8;

use crate::error::{
    fails_with, reported_on, take_parsed, ErrorView, FileRead, IoFailure, ProcfsError,
};
use crate::number::{
    decimal, decimal_bytes, decimal_is_a_word, decimal_reads_back, read_unsigned, unsigned_int,
    within,
};
use crate::parse::shape::{io_fits, io_shape, stat_fits, stat_shape};
use crate::parse::{
    holds_numbers, io_of, is_io_error, is_schedstat_error, is_stat_error, is_status_error,
    is_syscall_error, parse_io, parse_schedstat, parse_stat, parse_status, parse_syscall,
    schedstat_of, stat_of, status_of, syscall_of,
};
use crate::path::{join, joined, SLASH};
use crate::process::files::{file_name, ProcessFile};
use crate::process::parsed::stat_record;
use crate::process::reading::{
    contents, failure_of_parsed, failure_to_open, is_parsed, is_result, take_for_parser,
    take_opened,
};
use crate::process::Process;
use crate::text::{chars_of, is_space, is_word, the_first_word, word_ranges, words};

verus! {

/// A thread of a process.
#[derive(Debug)]
pub struct Task {
    /// The number of the process that the thread belongs to.
    pub pid: i32,
    /// The number of the thread.
    pub tid: i32,
    /// The path of the directory of the thread.
    pub path: Vec<u8>,
}

/// The path of the directory of a thread, from the directory of its process.
pub open spec fn task_path(tid: int) -> Seq<u8> {
    joined(encode_utf8(file_name(ProcessFile::Task)), encode_utf8(decimal(tid)))
}

/// The path of the directory of a thread, from the directory of its process.
pub fn relative_task_path(tid: i32) -> (r: Vec<u8>)
    ensures
        r@ == task_path(tid as int),
{
    join(ProcessFile::Task.name().as_bytes(), decimal_bytes(tid).as_slice())
}

/// Tells whether `r` is the thread `tid` of the process, given what came of opening its directory.
pub open spec fn is_task(
    r: Result<Task, ProcfsError>,
    process: Process,
    tid: i32,
    opened: Result<(), IoFailure>,
) -> bool {
    match opened {
        Ok(_) => r matches Ok(task) && {
            &&& task.pid == process.pid
            &&& task.tid == tid
            &&& task.path@ == joined(process.path@, task_path(tid as int))
        },
        Err(failure) => fails_with(
            r,
            reported_on(failure, joined(process.path@, task_path(tid as int))),
        ),
    }
}

/// What is said of a list of children that is not made of process numbers.
pub open spec fn bad_children() -> ErrorView {
    ErrorView::Other("Failed to parse task's child PIDs"@)
}

/// The process number in a word.
pub open spec fn child_in(word: Seq<char>) -> Option<int> {
    within(unsigned_int(word, 10), 0, u32::MAX as int)
}

/// Tells whether every word of the text is a process number.
pub open spec fn holds_children(text: Seq<char>) -> bool {
    forall|i: int| 0 <= i < words(text).len() ==> child_in(#[trigger] words(text)[i]) is Some
}

/// Tells whether `list` is made of the process numbers in the text, in their order.
pub open spec fn are_children(list: Seq<u32>, text: Seq<char>) -> bool {
    &&& list.len() == words(text).len()
    &&& forall|i: int|
        0 <= i < list.len() ==> child_in(words(text)[i]) == Some(#[trigger] list[i] as int)
}

/// Reads the process numbers in a text.
pub fn read_children(text: &str) -> (r: Result<Vec<u32>, ProcfsError>)
    ensures
        if holds_children(text@) {
            r matches Ok(list) && are_children(list@, text@)
        } else {
            fails_with(r, bad_children())
        },
{
    let chars = chars_of(text);
    let found = word_ranges(&chars);
    let mut list: Vec<u32> = Vec::new();
    let mut i: usize = 0;
    while i < found.len()
        invariant
            i <= found@.len() == words(text@).len(),
            chars@ == text@,
            forall|k: int| #![trigger found@[k]]
                0 <= k < found@.len() ==> {
                    &&& found@[k].0 <= found@[k].1 <= chars@.len()
                    &&& chars@.subrange(found@[k].0 as int, found@[k].1 as int) == words(chars@)[k]
                },
            list@.len() == i,
            forall|k: int|
                0 <= k < i ==> child_in(words(text@)[k]) == Some(#[trigger] list@[k] as int),
        decreases found@.len() - i,
    {
        let (from, to) = found[i];
        let ghost word = words(text@)[i as int];
        match read_unsigned(&chars, from, to, 10, u32::MAX as u64) {
            Some(child) => list.push(child as u32),
            None => {
                assert(child_in(words(text@)[i as int]) is None);
                return Err(ProcfsError::Other(String::from_str("Failed to parse task's child PIDs")));
            },
        }
        i = i + 1;
    }
    assert forall|k: int| 0 <= k < words(text@).len() implies child_in(
        #[trigger] words(text@)[k],
    ) is Some by {
        assert(child_in(words(text@)[k]) == Some(list@[k] as int));
    }
    Ok(list)
}

impl Task {
    /// The thread `tid` of the process, given what came of opening its directory.
    pub fn from_process_at(process: &Process, tid: i32, opened: Result<(), IoFailure>) -> (r: Result<
        Task,
        ProcfsError,
    >)
        ensures
            is_task(r, *process, tid, opened),
    {
        let path = join(process.path.as_slice(), relative_task_path(tid).as_slice());
        match opened {
            Ok(_) => Ok(Task { pid: process.pid, tid, path }),
            Err(failure) => Err(ProcfsError::on_file(failure, path)),
        }
    }

    /// Takes what was read from a file for a parser.
    pub fn read_with_cursor(&self, file: ProcessFile, read: FileRead<Vec<u8>>) -> (r: Result<
        Vec<u8>,
        ProcfsError,
    >)
        ensures
            is_result(r, failure_of_parsed(self.path@, file, read), contents(read)),
    {
        take_for_parser(&self.path, file, read)
    }

    /// The status of the thread, from its `stat` file, and the state in it.
    fn stat_with_state(&self, read: FileRead<Vec<u8>>) -> (r: Result<
        (procfs_core::process::Stat, char),
        ProcfsError,
    >)
        ensures
            is_parsed(
                r,
                failure_of_parsed(self.path@, ProcessFile::Stat, read),
                stat_shape(contents(read)@),
                stat_of(contents(read)@),
                |e: procfs_core::ProcError| is_stat_error(contents(read)@, e),
            ),
    {
        match self.read_with_cursor(ProcessFile::Stat, read) {
            Ok(content) => if stat_fits(&content) {
                take_parsed(parse_stat(content.as_slice()))
            } else {
                Err(ProcfsError::Unparsable)
            },
            Err(e) => Err(e),
        }
    }

    /// The status of the thread, from its `stat` file.
    ///
    /// Many of the fields are those of the process; some, such as the times, are those of the
    /// thread.
    pub fn stat(&self, read: FileRead<Vec<u8>>) -> (r: Result<
        procfs_core::process::Stat,
        ProcfsError,
    >)
        ensures
            is_parsed(
                r,
                failure_of_parsed(self.path@, ProcessFile::Stat, read),
                stat_shape(contents(read)@),
                stat_record(contents(read)@),
                |e: procfs_core::ProcError| is_stat_error(contents(read)@, e),
            ),
    {
        match self.stat_with_state(read) {
            Ok((stat, _)) => Ok(stat),
            Err(e) => Err(e),
        }
    }

    /// The status of the thread, from its `status` file.
    pub fn status(&self, read: FileRead<Vec<u8>>) -> (r: Result<
        procfs_core::process::Status,
        ProcfsError,
    >)
        ensures
            is_parsed(
                r,
                failure_of_parsed(self.path@, ProcessFile::Status, read),
                true,
                status_of(contents(read)@),
                |e: procfs_core::ProcError| is_status_error(contents(read)@, e),
            ),
    {
        match self.read_with_cursor(ProcessFile::Status, read) {
            Ok(content) => take_parsed(parse_status(content.as_slice())),
            Err(e) => Err(e),
        }
    }

    /// The I/O counters of the thread.
    pub fn io(&self, read: FileRead<Vec<u8>>) -> (r: Result<
        procfs_core::process::Io,
        ProcfsError,
    >)
        ensures
            is_parsed(
                r,
                failure_of_parsed(self.path@, ProcessFile::Io, read),
                io_shape(contents(read)@),
                io_of(contents(read)@),
                |e: procfs_core::ProcError| is_io_error(contents(read)@, e),
            ),
    {
        match self.read_with_cursor(ProcessFile::Io, read) {
            Ok(content) => if io_fits(&content) {
                take_parsed(parse_io(content.as_slice()))
            } else {
                Err(ProcfsError::Unparsable)
            },
            Err(e) => Err(e),
        }
    }

    /// The times of the scheduler for the thread.
    pub fn schedstat(&self, read: FileRead<Vec<u8>>) -> (r: Result<
        procfs_core::process::Schedstat,
        ProcfsError,
    >)
        ensures
            is_parsed(
                r,
                failure_of_parsed(self.path@, ProcessFile::Schedstat, read),
                true,
                schedstat_of(contents(read)@),
                |e: procfs_core::ProcError| is_schedstat_error(contents(read)@, e),
            ),
            read is Read ==> (r is Ok <==> holds_numbers(contents(read)@, 3)),
    {
        match self.read_with_cursor(ProcessFile::Schedstat, read) {
            Ok(content) => take_parsed(parse_schedstat(content.as_slice())),
            Err(e) => Err(e),
        }
    }

    /// The system call that the thread is in.
    pub fn syscall(&self, read: FileRead<Vec<u8>>) -> (r: Result<
        procfs_core::process::Syscall,
        ProcfsError,
    >)
        ensures
            is_parsed(
                r,
                failure_of_parsed(self.path@, ProcessFile::Syscall, read),
                true,
                syscall_of(contents(read)@),
                |e: procfs_core::ProcError| is_syscall_error(contents(read)@, e),
            ),
    {
        match self.read_with_cursor(ProcessFile::Syscall, read) {
            Ok(content) => take_parsed(parse_syscall(content.as_slice())),
            Err(e) => Err(e),
        }
    }

    /// The children of the thread.
    ///
    /// The list is complete only if all the children are stopped or frozen while it is read.
    pub fn children(&self, read: FileRead<String>) -> (r: Result<Vec<u32>, ProcfsError>)
        ensures
            match failure_to_open(self.path@, ProcessFile::Children, read) {
                Some(error) => fails_with(r, error),
                None => if holds_children(contents(read)@) {
                    r matches Ok(list) && are_children(list@, contents(read)@)
                } else {
                    fails_with(r, bad_children())
                },
            },
    {
        match take_opened(&self.path, ProcessFile::Children, read) {
            Ok(text) => read_children(text.as_str()),
            Err(e) => Err(e),
        }
    }
}

/// A list of process numbers as the kernel writes it: each number with a space behind it.
pub open spec fn children_text(list: Seq<u32>) -> Seq<char>
    decreases list.len(),
{
    if list.len() == 0 {
        seq![]
    } else {
        decimal(list[0] as int) + seq![' '] + children_text(list.drop_first())
    }
}

/// A list of process numbers reads back as that list.
pub proof fn children_read_back(list: Seq<u32>)
    ensures
        holds_children(children_text(list)),
        are_children(list, children_text(list)),
    decreases list.len(),
{
    if list.len() > 0 {
        let first = decimal(list[0] as int);
        let rest = children_text(list.drop_first());
        let text = children_text(list);
        children_read_back(list.drop_first());
        decimal_is_a_word(list[0] as int);
        decimal_reads_back(list[0] as int);
        assert(text == first + (seq![' '] + rest));
        assert((seq![' '] + rest).drop_first() == rest);
        the_first_word(first, seq![' '] + rest);
        assert(words(text) == seq![first] + words(rest));
        assert forall|i: int| 0 <= i < list.len() implies child_in(words(text)[i]) == Some(
            #[trigger] list[i] as int,
        ) by {
            if i > 0 {
                assert(words(text)[i] == words(rest)[i - 1]);
                assert(list.drop_first()[i - 1] == list[i]);
            }
        }
        assert forall|i: int| 0 <= i < words(text).len() implies child_in(
            #[trigger] words(text)[i],
        ) is Some by {
            assert(child_in(words(text)[i]) == Some(list[i] as int));
        }
    }
}

/// Where a thread lies: it has its own number and that of its process, and its directory is
/// `task/<tid>` below that of the process. One whose directory was not opened is reported under
/// that path.
pub proof fn a_task_is_below_its_process(
    r: Result<Task, ProcfsError>,
    process: Process,
    tid: i32,
    opened: Result<(), IoFailure>,
)
    requires
        process.path@.len() > 0,
        process.path@.last() != SLASH,
        is_task(r, process, tid, opened),
    ensures
        ({
            let path = process.path@ + seq![SLASH] + encode_utf8("task"@) + seq![SLASH]
                + encode_utf8(decimal(tid as int));
            match opened {
                Ok(_) => r matches Ok(task) && task.pid == process.pid && task.tid == tid
                    && task.path@ == path,
                Err(failure) => fails_with(r, reported_on(failure, path)),
            }
        }),
{
    crate::process::lemma_descriptor_path(process.path@, tid as int);
}

/// A list of children is read exactly if every word in it is a number of 32 bits; a single word
/// that is not spoils it.
pub proof fn one_bad_word_spoils_the_list(
    list: Seq<u32>,
    word: Seq<char>,
    rest: Seq<char>,
)
    requires
        is_word(word),
        rest.len() > 0 ==> is_space(rest[0]),
        within(unsigned_int(word, 10), 0, u32::MAX as int) is None,
    ensures
        !holds_children(children_text(list) + word + rest),
        holds_children(seq![]),
        are_children(seq![], seq![]),
        bad_children() == ErrorView::Other("Failed to parse task's child PIDs"@),
    decreases list.len(),
{
    let text = children_text(list) + word + rest;
    if list.len() == 0 {
        assert(text =~= word + rest);
        the_first_word(word, rest);
        assert(words(text)[0] == word);
        assert(child_in(words(text)[0]) is None);
    } else {
        let first = decimal(list[0] as int);
        let later = list.drop_first();
        one_bad_word_spoils_the_list(later, word, rest);
        let tail = children_text(later) + word + rest;
        decimal_is_a_word(list[0] as int);
        the_first_word(first, seq![' '] + tail);
        assert((seq![' '] + tail).drop_first() =~= tail);
        assert(text =~= first + (seq![' '] + tail));
        assert(words(text) == seq![first] + words(tail));
        let i = choose|i: int| 0 <= i < words(tail).len() && child_in(#[trigger] words(tail)[i])
            is None;
        assert(words(text)[i + 1] == words(tail)[i]);
        assert(child_in(words(text)[i + 1]) is None);
    }
}

/// Two lists of children of the same text are the same list.
pub proof fn children_are_told_apart(a: Seq<u32>, b: Seq<u32>, text: Seq<char>)
    requires
        are_children(a, text),
        are_children(b, text),
    ensures
        a == b,
{
    assert forall|i: int| 0 <= i < a.len() implies a[i] == b[i] by {
        assert(child_in(words(text)[i]) == Some(a[i] as int));
        assert(child_in(words(text)[i]) == Some(b[i] as int));
    }
    assert(a =~= b);
}

} // verus!
