//! What is taken from the outcome of reading a file of a process or a thread.
use vstd::prelude::*;
use vstd::utf8::{encode_utf8, is_ascii_chars, is_ascii_chars_encode_utf8};

use crate::error::{
    fails_with, reported, reported_on, ErrorKind, ErrorView, FileRead, FileWrite, InternalError,
    InternalView, IoFailure, ProcfsError, ESRCH,
};
use crate::number::{
    decimal, decimal_is_a_word, decimal_reads_back, read_signed, read_unsigned, signed,
    unsigned_int, within,
};
use crate::path::{is_bare, join, joined, joined_names, SLASH};
use crate::process::files::{file_name, ProcessFile};
use crate::text::{
    chars_of, is_blank, is_trimmed, string_of, trim, trim_range, trimming_gives_the_text_back,
};

verus! {

/// The path of a file in the directory of a process or a thread.
pub open spec fn path_of(directory: Seq<u8>, file: ProcessFile) -> Seq<u8> {
    joined(directory, encode_utf8(file_name(file)))
}

/// The path of a file in the directory of a process or a thread.
pub fn file_path(directory: &Vec<u8>, file: ProcessFile) -> (r: Vec<u8>)
    ensures
        r@ == path_of(directory@, file),
{
    join(directory.as_slice(), file.name().as_bytes())
}

/// What was read from the file.
pub open spec fn contents<T>(read: FileRead<T>) -> T {
    read->Read_0
}

/// The error for a file that was not read, where every failure names the file.
pub open spec fn failure_on<T>(directory: Seq<u8>, file: ProcessFile, read: FileRead<T>) -> Option<
    ErrorView,
> {
    match read {
        FileRead::NotOpened(failure) | FileRead::NotRead(failure) => Some(
            reported_on(failure, path_of(directory, file)),
        ),
        FileRead::Read(_) => None,
    }
}

/// The error for a file that was not read, where a failure to open it names the file and a failure
/// to read it names none.
pub open spec fn failure_to_open<T>(
    directory: Seq<u8>,
    file: ProcessFile,
    read: FileRead<T>,
) -> Option<ErrorView> {
    match read {
        FileRead::NotOpened(failure) => Some(reported_on(failure, path_of(directory, file))),
        FileRead::NotRead(failure) => Some(reported(failure)),
        FileRead::Read(_) => None,
    }
}

/// The error for a file that was not read and whose contents would have gone to a parser: a failure
/// to open it names the file, and a failure to read it names the `io` file beside it.
pub open spec fn failure_of_parsed<T>(
    directory: Seq<u8>,
    file: ProcessFile,
    read: FileRead<T>,
) -> Option<ErrorView> {
    match read {
        FileRead::NotOpened(failure) => Some(reported_on(failure, path_of(directory, file))),
        FileRead::NotRead(failure) => Some(
            reported_on(failure, path_of(directory, ProcessFile::Io)),
        ),
        FileRead::Read(_) => None,
    }
}

/// Tells whether `r` is the error, or else the value.
pub open spec fn is_result<T>(
    r: Result<T, ProcfsError>,
    failure: Option<ErrorView>,
    value: T,
) -> bool {
    match failure {
        Some(error) => fails_with(r, error),
        None => r == Ok::<T, ProcfsError>(value),
    }
}

/// Tells whether `r` is an error of a parser, and one of those that it can be.
pub open spec fn is_rejection<T>(
    r: Result<T, ProcfsError>,
    is_error: spec_fn(procfs_core::ProcError) -> bool,
) -> bool {
    r matches Err(e) && (e@ matches ErrorView::Parse(error) && is_error(error))
}

/// Tells whether `r` is what comes of a file that a parser reads: the error if it was not read,
/// else the value that is expected. Contents that the parser rejects are reported with the error
/// that the parser gave; contents that do not fit the parser are an error of their own.
pub open spec fn is_parsed<T>(
    r: Result<T, ProcfsError>,
    failure: Option<ErrorView>,
    fits: bool,
    expected: Option<T>,
    is_error: spec_fn(procfs_core::ProcError) -> bool,
) -> bool {
    match failure {
        Some(error) => fails_with(r, error),
        None => if !fits {
            fails_with(r, ErrorView::Unparsable)
        } else {
            match expected {
                Some(value) => r == Ok::<T, ProcfsError>(value),
                None => is_rejection(r, is_error),
            }
        },
    }
}

/// [`is_parsed`] for a list of entries.
pub open spec fn is_parsed_list<T>(
    r: Result<Vec<T>, ProcfsError>,
    failure: Option<ErrorView>,
    fits: bool,
    expected: Option<Seq<T>>,
    is_error: spec_fn(procfs_core::ProcError) -> bool,
) -> bool {
    match failure {
        Some(error) => fails_with(r, error),
        None => if !fits {
            fails_with(r, ErrorView::Unparsable)
        } else {
            match expected {
                Some(entries) => r matches Ok(list) && list@ == entries,
                None => is_rejection(r, is_error),
            }
        },
    }
}

/// Takes what was read. Every failure names the file.
pub fn take_named<T>(directory: &Vec<u8>, file: ProcessFile, read: FileRead<T>) -> (r: Result<
    T,
    ProcfsError,
>)
    ensures
        is_result(r, failure_on(directory@, file, read), contents(read)),
{
    match read {
        FileRead::NotOpened(failure) | FileRead::NotRead(failure) => Err(
            ProcfsError::on_file(failure, file_path(directory, file)),
        ),
        FileRead::Read(content) => Ok(content),
    }
}

/// Takes what was read. A failure to open the file names it; a failure to read it names no file.
pub fn take_opened<T>(directory: &Vec<u8>, file: ProcessFile, read: FileRead<T>) -> (r: Result<
    T,
    ProcfsError,
>)
    ensures
        is_result(r, failure_to_open(directory@, file, read), contents(read)),
{
    match read {
        FileRead::NotOpened(failure) => Err(
            ProcfsError::on_file(failure, file_path(directory, file)),
        ),
        FileRead::NotRead(failure) => Err(ProcfsError::unnamed(failure)),
        FileRead::Read(content) => Ok(content),
    }
}

/// Takes what was read for a parser. A failure to open the file names it; a failure to read it
/// names the `io` file beside it.
pub fn take_for_parser<T>(directory: &Vec<u8>, file: ProcessFile, read: FileRead<T>) -> (r: Result<
    T,
    ProcfsError,
>)
    ensures
        is_result(r, failure_of_parsed(directory@, file, read), contents(read)),
{
    match read {
        FileRead::NotOpened(failure) => Err(
            ProcfsError::on_file(failure, file_path(directory, file)),
        ),
        FileRead::NotRead(failure) => Err(
            ProcfsError::on_file(failure, file_path(directory, ProcessFile::Io)),
        ),
        FileRead::Read(content) => Ok(content),
    }
}

/// The error of a call on a file that failed, if it did.
pub open spec fn failure_of_call<T>(
    directory: Seq<u8>,
    file: ProcessFile,
    done: Result<T, IoFailure>,
) -> Option<ErrorView> {
    match done {
        Ok(_) => None,
        Err(failure) => Some(reported_on(failure, path_of(directory, file))),
    }
}

/// Takes what a call on a file gave. A failure names the file.
pub fn take_call<T>(directory: &Vec<u8>, file: ProcessFile, done: Result<T, IoFailure>) -> (r: Result<
    T,
    ProcfsError,
>)
    ensures
        is_result(r, failure_of_call(directory@, file, done), done->Ok_0),
{
    match done {
        Ok(value) => Ok(value),
        Err(failure) => Err(ProcfsError::on_file(failure, file_path(directory, file))),
    }
}

/// Takes what came of writing to a file. A failure to open the file names it; a failure to write to
/// it names no file.
pub fn take_write(directory: &Vec<u8>, file: ProcessFile, write: FileWrite) -> (r: Result<
    (),
    ProcfsError,
>)
    ensures
        match write {
            FileWrite::NotOpened(failure) => fails_with(
                r,
                reported_on(failure, path_of(directory@, file)),
            ),
            FileWrite::NotWritten(failure) => fails_with(r, reported(failure)),
            FileWrite::Written => r is Ok,
        },
{
    match write {
        FileWrite::NotOpened(failure) => Err(
            ProcfsError::on_file(failure, file_path(directory, file)),
        ),
        FileWrite::NotWritten(failure) => Err(ProcfsError::unnamed(failure)),
        FileWrite::Written => Ok(()),
    }
}

/// The error for a text that is not a number of the type that was expected.
pub open spec fn bad_number(text: Seq<char>) -> ErrorView {
    ErrorView::InternalError(InternalView::BadNumber(trim(text)))
}

/// The unsigned number that a text holds, with white space around it.
pub open spec fn unsigned_in(text: Seq<char>, radix: nat, max: int) -> Option<int> {
    within(unsigned_int(trim(text), radix), 0, max)
}

/// The signed decimal number that a text holds, with white space around it.
pub open spec fn signed_in(text: Seq<char>, min: int, max: int) -> Option<int> {
    within(signed(trim(text), 10), min, max)
}

/// Reads an unsigned number with white space around it.
pub fn unsigned_value(text: &str, radix: u64, max: u64) -> (r: Result<u64, ProcfsError>)
    requires
        2 <= radix <= 36,
    ensures
        match unsigned_in(text@, radix as nat, max as int) {
            Some(n) => r matches Ok(v) && v == n,
            None => fails_with(r, bad_number(text@)),
        },
{
    let chars = chars_of(text);
    let (from, to) = trim_range(&chars);
    match read_unsigned(&chars, from, to, radix, max) {
        Some(v) => Ok(v),
        None => Err(
            ProcfsError::InternalError(InternalError::BadNumber(string_of(&chars, from, to))),
        ),
    }
}

/// Reads a signed decimal number with white space around it.
pub fn signed_value(text: &str, min: i32, max: i32) -> (r: Result<i32, ProcfsError>)
    requires
        min <= 0 <= max,
    ensures
        match signed_in(text@, min as int, max as int) {
            Some(n) => r matches Ok(v) && v == n,
            None => fails_with(r, bad_number(text@)),
        },
{
    let chars = chars_of(text);
    let (from, to) = trim_range(&chars);
    match read_signed(&chars, from, to, min, max) {
        Some(v) => Ok(v),
        None => Err(
            ProcfsError::InternalError(InternalError::BadNumber(string_of(&chars, from, to))),
        ),
    }
}

/// A number in decimal reads back as that number, whatever white space is around it.
pub proof fn a_number_in_a_file_reads_back(n: int, before: Seq<char>, after: Seq<char>)
    requires
        is_blank(before),
        is_blank(after),
    ensures
        forall|min: int, max: int|
            min <= n <= max ==> #[trigger] signed_in(before + decimal(n) + after, min, max) == Some(n),
        forall|max: int|
            0 <= n <= max ==> #[trigger] unsigned_in(before + decimal(n) + after, 10, max) == Some(n),
{
    decimal_is_a_word(n);
    trimming_gives_the_text_back(before, decimal(n), after);
    decimal_reads_back(n);
}

/// A file that does not exist, or whose process has gone away, is reported as not found, under its
/// path, whichever way it was to be read.
pub proof fn a_missing_file_is_not_found(directory: Seq<u8>, file: ProcessFile, failure: IoFailure)
    requires
        failure.kind == ErrorKind::NotFound || failure.kind == ErrorKind::Other
            && failure.raw_os_error == Some(ESRCH),
    ensures
        ({
            let read = FileRead::<Vec<u8>>::NotOpened(failure);
            let error = Some(ErrorView::NotFound(Some(path_of(directory, file))));
            &&& failure_on(directory, file, read) == error
            &&& failure_to_open(directory, file, read) == error
            &&& failure_of_parsed(directory, file, read) == error
            &&& failure_of_call(directory, file, Err::<(), IoFailure>(failure)) == error
        }),
{
}

/// How a file that was not read is reported, whatever the failure: a file that was not opened under
/// its own path; one that was not read under its own path, under none, or under that of the `io`
/// file beside it, as the file is read. A file that was read is not reported.
pub proof fn unread_files_are_reported(
    directory: Seq<u8>,
    file: ProcessFile,
    failure: IoFailure,
    content: Vec<u8>,
)
    requires
        directory.len() > 0,
        directory.last() != SLASH,
    ensures
        ({
            let opened = FileRead::<Vec<u8>>::NotRead(failure);
            let unopened = FileRead::<Vec<u8>>::NotOpened(failure);
            let done = FileRead::Read(content);
            let own = Some(reported_on(failure, path_of(directory, file)));
            &&& failure_on(directory, file, unopened) == own
            &&& failure_to_open(directory, file, unopened) == own
            &&& failure_of_parsed(directory, file, unopened) == own
            &&& failure_of_call(directory, file, Err::<(), IoFailure>(failure)) == own
            &&& failure_on(directory, file, opened) == own
            &&& failure_to_open(directory, file, opened) == Some(reported(failure))
            &&& failure_of_parsed(directory, file, opened) == Some(
                reported_on(failure, directory + seq![SLASH] + encode_utf8("io"@)),
            )
            &&& failure_on(directory, file, done) is None
            &&& failure_to_open(directory, file, done) is None
            &&& failure_of_parsed(directory, file, done) is None
            &&& failure_of_call(directory, file, Ok::<(), IoFailure>(())) is None
            &&& contents(done) == content
        }),
{
    where_files_lie(directory);
}

/// What comes of a file that was read: if it fits the parser, exactly the value that the parser
/// gives or its error; otherwise it is unparsable.
pub proof fn what_is_read_is_parsed<T>(
    r: Result<T, ProcfsError>,
    list: Result<Vec<T>, ProcfsError>,
    fits: bool,
    expected: Option<T>,
    entries: Option<Seq<T>>,
    is_error: spec_fn(procfs_core::ProcError) -> bool,
)
    requires
        is_parsed(r, None, fits, expected, is_error),
        is_parsed_list(list, None, fits, entries, is_error),
    ensures
        r is Ok <==> fits && expected is Some,
        r matches Ok(value) ==> expected == Some(value),
        (r matches Err(e) && e@ is Unparsable) <==> !fits,
        r matches Err(ProcfsError::Parse(e)) ==> is_error(e),
        list is Ok <==> fits && entries is Some,
        list matches Ok(found) ==> entries == Some(found@),
        (list matches Err(e) && e@ is Unparsable) <==> !fits,
        list matches Err(ProcfsError::Parse(e)) ==> is_error(e),
{
}

/// What comes of a file that was not read is its failure.
pub proof fn what_is_not_read_fails<T>(
    r: Result<T, ProcfsError>,
    list: Result<Vec<T>, ProcfsError>,
    plain: Result<T, ProcfsError>,
    error: ErrorView,
    fits: bool,
    expected: Option<T>,
    entries: Option<Seq<T>>,
    value: T,
    is_error: spec_fn(procfs_core::ProcError) -> bool,
)
    requires
        is_parsed(r, Some(error), fits, expected, is_error),
        is_parsed_list(list, Some(error), fits, entries, is_error),
        is_result(plain, Some(error), value),
    ensures
        r matches Err(e) && e@ == error,
        list matches Err(e) && e@ == error,
        plain matches Err(e) && e@ == error,
{
}

/// What comes of a file that is taken as it is.
pub proof fn what_is_read_is_taken<T>(r: Result<T, ProcfsError>, value: T)
    requires
        is_result(r, None, value),
    ensures
        r == Ok::<T, ProcfsError>(value),
{
}

/// A text that is no number is reported without the white space around it.
pub proof fn bad_numbers_are_shown(before: Seq<char>, text: Seq<char>, after: Seq<char>)
    requires
        is_blank(before),
        is_trimmed(text),
        is_blank(after),
    ensures
        bad_number(before + text + after) == ErrorView::InternalError(InternalView::BadNumber(text)),
        forall|min: int, max: int| #[trigger]
            signed_in(before + text + after, min, max) == within(signed(text, 10), min, max),
        forall|radix: nat, max: int| #[trigger]
            unsigned_in(before + text + after, radix, max) == within(
                unsigned_int(text, radix),
                0,
                max,
            ),
{
    trimming_gives_the_text_back(before, text, after);
}

/// Where the files of a process or a thread lie: each below the directory, under the name that the
/// kernel gives it.
pub proof fn where_files_lie(directory: Seq<u8>)
    requires
        directory.len() > 0,
        directory.last() != SLASH,
    ensures
        path_of(directory, ProcessFile::Cmdline) == directory + seq![SLASH] + encode_utf8(
            "cmdline"@,
        ),
        path_of(directory, ProcessFile::Environ) == directory + seq![SLASH] + encode_utf8(
            "environ"@,
        ),
        path_of(directory, ProcessFile::Auxv) == directory + seq![SLASH] + encode_utf8("auxv"@),
        path_of(directory, ProcessFile::Io) == directory + seq![SLASH] + encode_utf8("io"@),
        path_of(directory, ProcessFile::Maps) == directory + seq![SLASH] + encode_utf8("maps"@),
        path_of(directory, ProcessFile::Smaps) == directory + seq![SLASH] + encode_utf8("smaps"@),
        path_of(directory, ProcessFile::SmapsRollup) == directory + seq![SLASH] + encode_utf8(
            "smaps_rollup"@,
        ),
        path_of(directory, ProcessFile::Mountstats) == directory + seq![SLASH] + encode_utf8(
            "mountstats"@,
        ),
        path_of(directory, ProcessFile::Mountinfo) == directory + seq![SLASH] + encode_utf8(
            "mountinfo"@,
        ),
        path_of(directory, ProcessFile::Status) == directory + seq![SLASH] + encode_utf8("status"@),
        path_of(directory, ProcessFile::Stat) == directory + seq![SLASH] + encode_utf8("stat"@),
        path_of(directory, ProcessFile::Limits) == directory + seq![SLASH] + encode_utf8("limits"@),
        path_of(directory, ProcessFile::Loginuid) == directory + seq![SLASH] + encode_utf8(
            "loginuid"@,
        ),
        path_of(directory, ProcessFile::OomScore) == directory + seq![SLASH] + encode_utf8(
            "oom_score"@,
        ),
        path_of(directory, ProcessFile::OomScoreAdj) == directory + seq![SLASH] + encode_utf8(
            "oom_score_adj"@,
        ),
        path_of(directory, ProcessFile::Statm) == directory + seq![SLASH] + encode_utf8("statm"@),
        path_of(directory, ProcessFile::Schedstat) == directory + seq![SLASH] + encode_utf8(
            "schedstat"@,
        ),
        path_of(directory, ProcessFile::Syscall) == directory + seq![SLASH] + encode_utf8(
            "syscall"@,
        ),
        path_of(directory, ProcessFile::CoredumpFilter) == directory + seq![SLASH] + encode_utf8(
            "coredump_filter"@,
        ),
        path_of(directory, ProcessFile::Autogroup) == directory + seq![SLASH] + encode_utf8(
            "autogroup"@,
        ),
        path_of(directory, ProcessFile::Wchan) == directory + seq![SLASH] + encode_utf8("wchan"@),
        path_of(directory, ProcessFile::ClearRefs) == directory + seq![SLASH] + encode_utf8(
            "clear_refs"@,
        ),
        path_of(directory, ProcessFile::Mem) == directory + seq![SLASH] + encode_utf8("mem"@),
        path_of(directory, ProcessFile::Cwd) == directory + seq![SLASH] + encode_utf8("cwd"@),
        path_of(directory, ProcessFile::Root) == directory + seq![SLASH] + encode_utf8("root"@),
        path_of(directory, ProcessFile::Exe) == directory + seq![SLASH] + encode_utf8("exe"@),
        path_of(directory, ProcessFile::Fd) == directory + seq![SLASH] + encode_utf8("fd"@),
        path_of(directory, ProcessFile::Task) == directory + seq![SLASH] + encode_utf8("task"@),
        path_of(directory, ProcessFile::Children) == directory + seq![SLASH] + encode_utf8(
            "children"@,
        ),
        path_of(directory, ProcessFile::Tcp) == directory + seq![SLASH] + encode_utf8("net/tcp"@),
        path_of(directory, ProcessFile::Tcp6) == directory + seq![SLASH] + encode_utf8("net/tcp6"@),
        path_of(directory, ProcessFile::Udp) == directory + seq![SLASH] + encode_utf8("net/udp"@),
        path_of(directory, ProcessFile::Udp6) == directory + seq![SLASH] + encode_utf8("net/udp6"@),
        path_of(directory, ProcessFile::Dev) == directory + seq![SLASH] + encode_utf8("net/dev"@),
        path_of(directory, ProcessFile::Unix) == directory + seq![SLASH] + encode_utf8("net/unix"@),
        path_of(directory, ProcessFile::Arp) == directory + seq![SLASH] + encode_utf8("net/arp"@),
        path_of(directory, ProcessFile::Route) == directory + seq![SLASH] + encode_utf8(
            "net/route"@,
        ),
        path_of(directory, ProcessFile::Snmp) == directory + seq![SLASH] + encode_utf8("net/snmp"@),
        path_of(directory, ProcessFile::Snmp6) == directory + seq![SLASH] + encode_utf8(
            "net/snmp6"@,
        ),
{
    assert forall|file: ProcessFile| #[trigger]
        path_of(directory, file) == directory + seq![SLASH] + encode_utf8(file_name(file)) by {
        lemma_file_names(file);
        joined_names(directory, encode_utf8(file_name(file)), encode_utf8(file_name(file)));
    }
}

proof fn lemma_file_names(file: ProcessFile)
    ensures
        is_bare(encode_utf8(file_name(file))),
{
    reveal_strlit("cmdline");
    reveal_strlit("environ");
    reveal_strlit("auxv");
    reveal_strlit("io");
    reveal_strlit("maps");
    reveal_strlit("smaps");
    reveal_strlit("smaps_rollup");
    reveal_strlit("mountstats");
    reveal_strlit("mountinfo");
    reveal_strlit("status");
    reveal_strlit("stat");
    reveal_strlit("limits");
    reveal_strlit("loginuid");
    reveal_strlit("oom_score");
    reveal_strlit("oom_score_adj");
    reveal_strlit("statm");
    reveal_strlit("schedstat");
    reveal_strlit("syscall");
    reveal_strlit("coredump_filter");
    reveal_strlit("autogroup");
    reveal_strlit("wchan");
    reveal_strlit("clear_refs");
    reveal_strlit("mem");
    reveal_strlit("cwd");
    reveal_strlit("root");
    reveal_strlit("exe");
    reveal_strlit("fd");
    reveal_strlit("task");
    reveal_strlit("children");
    reveal_strlit("net/tcp");
    reveal_strlit("net/tcp6");
    reveal_strlit("net/udp");
    reveal_strlit("net/udp6");
    reveal_strlit("net/dev");
    reveal_strlit("net/unix");
    reveal_strlit("net/arp");
    reveal_strlit("net/route");
    reveal_strlit("net/snmp");
    reveal_strlit("net/snmp6");
    let name = file_name(file);
    assert(is_ascii_chars(name));
    assert(name.len() > 0 && name[0] != '/' && name[name.len() - 1] != '/');
    is_ascii_chars_encode_utf8(name);
    let bytes = encode_utf8(name);
    assert(name[0] as u8 == bytes[0]);
    assert(name[bytes.len() - 1] as u8 == bytes[bytes.len() - 1]);
}

} // verus!
