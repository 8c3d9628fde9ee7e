//! What is told of processes, their threads and their descriptors.
use std::collections::HashMap;
use vstd::prelude::*;
use vstd::utf8::{decode_utf8, encode_utf8, encode_utf8_decode_utf8, valid_utf8};

use crate::encoding::encoding_of_ascii;
use crate::error::{
    fails_with, reported, reported_on, ErrorView, FileRead, FileWrite, InternalView, IoFailure,
    ProcfsError,
};
use crate::laws::{below, is_directory};
use crate::number::{
    decimal, decimal_is_a_word, decimal_reads_back, is_digits, only_digits_make_a_number, signed,
    unsigned, unsigned_int, within,
};
use crate::parse::{coredump_flags_of, is_id_error, is_target_error, target_of, ClearRefs};
use crate::path::{joined, SLASH};
use crate::process::auxv::{a_vector_ends_at_the_zeros, insert_all, storable, vector_bytes};
use crate::process::cmdline::{
    arguments_read_back, arguments_stand_between_nul_characters, command_line, texts,
};
use crate::process::environ::{
    a_final_zero_changes_nothing, as_map, distinct_names, entries_bind_at_the_first_equals_sign,
    environ_bytes, last_values, the_last_binding_counts, variables_read_back, writable, Variable,
};
use crate::process::fd::{
    a_descriptor_shows_the_whole_link, a_descriptor_that_fails_is_named, describe, DescriptorProbe,
    FDInfo,
};
use crate::process::reading::{
    a_number_in_a_file_reads_back, bad_numbers_are_shown, where_files_lie,
};
use crate::process::scan::{
    all_found, count_entries, counted, entries_of, entry_texts, items, numbered, readable, Entries,
    Listing, Phase, Scan, Sight,
};
use crate::process::task::{
    a_task_is_below_its_process, child_in, children_are_told_apart, children_read_back,
    children_text, one_bad_word_spoils_the_list, Task,
};
use crate::process::{
    a_process_is_where_it_was_looked_for, a_user_reads_back, all_processes, size_and_listing_agree,
    the_process_that_asks_is_at_self, Process,
};
use crate::procfs::AsyncProcfs;
use crate::text::{
    bytes_stand_for_their_text, is_blank, is_space, is_trimmed, is_word, lacks, text_of,
    trimming_gives_the_text_back, words,
};
use crate::process::parsed::state_is_alive;

verus! {

/// The process of a number has that number and lies under it below the root; it is found exactly if
/// its directory was opened.
pub proof fn processes_are_found_by_their_number(
    procfs: AsyncProcfs,
    pid: i32,
    opened: Result<(), IoFailure>,
    r: Result<Process, ProcfsError>,
)
    requires
        is_directory(procfs.root@),
        call_ensures(Process::new, (&procfs, pid, opened), r),
    ensures
        match opened {
            Ok(_) => r matches Ok(process) && process.pid == pid && process.path@ == below(
                procfs.root@,
                decimal(pid as int),
            ),
            Err(failure) => fails_with(
                r,
                reported_on(failure, encode_utf8(decimal(pid as int))),
            ),
        },
{
    a_process_is_where_it_was_looked_for(r, procfs.root@, pid, opened, None);
}

/// Two processes are the same process only if their numbers are the same.
pub proof fn processes_are_told_apart_by_their_numbers(
    procfs: AsyncProcfs,
    a: i32,
    b: i32,
    first: Result<Process, ProcfsError>,
    second: Result<Process, ProcfsError>,
)
    requires
        call_ensures(Process::new, (&procfs, a, Ok(())), first),
        call_ensures(Process::new, (&procfs, b, Ok(())), second),
        first->Ok_0.pid == second->Ok_0.pid,
    ensures
        a == b,
{
}

/// The process that asks has the number that the link `self` holds, and lies at `self` below the
/// root.
pub proof fn the_link_tells_who_asks(
    procfs: AsyncProcfs,
    link: Vec<u8>,
    n: i32,
    r: Result<Process, ProcfsError>,
)
    requires
        is_directory(procfs.root@),
        link@ == encode_utf8(decimal(n as int)),
        call_ensures(Process::myself, (&procfs, Ok(()), Some(link)), r),
    ensures
        r matches Ok(process) && process.pid == n && process.path@ == below(procfs.root@, "self"@),
{
    the_process_that_asks_is_at_self(r, procfs.root@, n);
    lemma_self_path(procfs.root@);
}

proof fn lemma_self_path(root: Seq<u8>)
    requires
        is_directory(root),
    ensures
        joined(root, encode_utf8("self"@)) == below(root, "self"@),
{
    reveal_strlit("self");
    let name = "self"@;
    assert(name =~= seq!['s'] + name.skip(1));
    crate::encoding::encoding_of_two_texts(seq!['s'], name.skip(1));
    encoding_of_ascii('s');
    assert(encode_utf8(name)[0] == 115);
    crate::path::paths_are_joined_by_one_slash(root, encode_utf8(name));
}

/// Without a link, or with one that does not hold a number, it is not known who asks; a directory
/// that was not opened is reported.
pub proof fn no_link_no_answer(
    procfs: AsyncProcfs,
    opened: Result<(), IoFailure>,
    link: Option<Vec<u8>>,
    r: Result<Process, ProcfsError>,
)
    requires
        link matches Some(bytes) ==> signed(text_of(bytes@), 10) is None,
        call_ensures(Process::myself, (&procfs, opened, link), r),
    ensures
        match opened {
            Ok(_) => fails_with(r, ErrorView::NotFound(Some(encode_utf8("self"@)))),
            Err(failure) => fails_with(r, reported_on(failure, encode_utf8("self"@))),
        },
{
    let name = "self"@;
    reveal_strlit("self");
    assert(lacks(name, '/'));
    assert(name.len() == 4);
    crate::path::lemma_plain_name(name);
    only_digits_make_a_number(name, 0, 10);
}

/// The arguments that the kernel wrote are the arguments of the process, each of them and in their
/// order; a failure names the file.
pub proof fn command_lines_read_back(
    process: Process,
    args: Seq<Seq<char>>,
    read: FileRead<String>,
    r: Result<Vec<String>, ProcfsError>,
)
    requires
        is_directory(process.path@),
        forall|i: int| #![trigger args[i]]
            0 <= i < args.len() ==> args[i].len() > 0 && lacks(args[i], '\0'),
        read matches FileRead::Read(line) ==> line@ == command_line(args),
        call_ensures(Process::cmdline, (&process, read), r),
    ensures
        match read {
            FileRead::Read(_) => r matches Ok(list) && list@.len() == args.len() && forall|i: int|
                0 <= i < args.len() ==> (#[trigger] list@[i])@ == args[i],
            FileRead::NotOpened(failure) | FileRead::NotRead(failure) => fails_with(
                r,
                reported_on(failure, below(process.path@, "cmdline"@)),
            ),
        },
{
    where_files_lie(process.path@);
    arguments_read_back(args);
    if read is Read {
        let list = r->Ok_0;
        assert(texts(list@) == args);
        assert forall|i: int| 0 <= i < args.len() implies (#[trigger] list@[i])@ == args[i] by {
            assert(texts(list@)[i] == list@[i]@);
        }
    }
}

/// The variables that the kernel wrote are the variables of the process, under different names and
/// each with its last value; only a failure to open the file names it.
pub proof fn environments_read_back(
    process: Process,
    written: Seq<(Seq<u8>, Seq<u8>)>,
    read: FileRead<Vec<u8>>,
    r: Result<Vec<Variable>, ProcfsError>,
)
    requires
        is_directory(process.path@),
        writable(written),
        read matches FileRead::Read(content) ==> content@ == environ_bytes(written),
        call_ensures(Process::environ, (&process, read), r),
    ensures
        match read {
            FileRead::Read(_) => r matches Ok(variables) && distinct_names(variables@) && as_map(
                variables@,
            ) == last_values(written),
            FileRead::NotOpened(failure) => fails_with(
                r,
                reported_on(failure, below(process.path@, "environ"@)),
            ),
            FileRead::NotRead(failure) => fails_with(r, reported(failure)),
        },
{
    where_files_lie(process.path@);
    variables_read_back(written);
}

/// The entries that the kernel wrote are the auxiliary vector of the process, whatever follows the
/// pair of zeros; one that ends before it is an error, but for an empty file.
pub proof fn auxiliary_vectors_read_back(
    process: Process,
    entries: Seq<(u64, u64)>,
    rest: Seq<u8>,
    cut: int,
    width: usize,
    little_endian: bool,
    whole: Vec<u8>,
    part: Vec<u8>,
    empty: Vec<u8>,
    of_whole: Result<HashMap<u64, u64>, ProcfsError>,
    of_part: Result<HashMap<u64, u64>, ProcfsError>,
    of_empty: Result<HashMap<u64, u64>, ProcfsError>,
)
    requires
        1 <= width <= 8,
        storable(entries, width as nat),
        whole@ == vector_bytes(entries, width as nat, little_endian) + rest,
        0 < cut < vector_bytes(entries, width as nat, little_endian).len(),
        part@ == vector_bytes(entries, width as nat, little_endian).take(cut),
        empty@.len() == 0,
        call_ensures(
            Process::auxv,
            (&process, FileRead::Read(whole), width, little_endian),
            of_whole,
        ),
        call_ensures(Process::auxv, (&process, FileRead::Read(part), width, little_endian), of_part),
        call_ensures(
            Process::auxv,
            (&process, FileRead::Read(empty), width, little_endian),
            of_empty,
        ),
    ensures
        of_whole matches Ok(vector) && vector@ == insert_all(Map::empty(), entries),
        fails_with(of_part, ErrorView::UnexpectedEof),
        of_empty matches Ok(vector) && vector@ == Map::<u64, u64>::empty(),
{
    a_vector_ends_at_the_zeros(entries, width as nat, little_endian, rest, cut);
    assert(empty@ =~= Seq::<u8>::empty());
}

/// Where the size of the directory tells the number of descriptors, the count is that size,
/// whatever was listed and also if nothing was.
pub proof fn descriptors_are_counted_by_the_size(
    process: Process,
    size: u64,
    listed: Option<Result<Entries, IoFailure>>,
    r: Result<usize, ProcfsError>,
)
    requires
        0 < size <= usize::MAX,
        call_ensures(Process::fd_count, (&process, Ok(size), listed), r),
    ensures
        r matches Ok(count) && count == size,
{
}

/// Where it does not, every entry that is named by a number is counted; so the count is the number
/// of items of a walk in which everything can be looked at.
pub proof fn descriptors_are_counted_by_their_entries<T>(
    process: Process,
    entries: Entries,
    sights: Seq<Sight<T>>,
    r: Result<usize, ProcfsError>,
)
    requires
        entries_of(sights) == entry_texts(entries@),
        readable(sights),
        call_ensures(Process::fd_count, (&process, Ok(0), Some(Ok(entries))), r),
    ensures
        r matches Ok(count) && count == numbered(sights),
        all_found(sights) ==> (r matches Ok(count) && count == items(
            Listing::Descriptors,
            sights,
        ).len()),
{
    crate::process::scan::numbered_entries_are_counted(sights);
    if all_found(sights) {
        size_and_listing_agree(0, sights);
    }
}

/// Whether the descriptors are to be listed, and how a failure to count them is reported.
pub proof fn descriptors_that_cannot_be_counted_are_reported(
    process: Process,
    size: Result<u64, IoFailure>,
    listed: Option<Result<Entries, IoFailure>>,
    needed: bool,
    failure: IoFailure,
    r: Result<usize, ProcfsError>,
)
    requires
        is_directory(process.path@),
        call_ensures(Process::fd_count_needs_listing, (&size,), needed),
        call_ensures(Process::fd_count, (&process, size, listed), r),
    ensures
        needed <==> (size matches Ok(n) && n == 0),
        size == Err::<u64, IoFailure>(failure) ==> fails_with(
            r,
            reported_on(failure, below(process.path@, "fd"@)),
        ),
        needed && listed == Some(Err::<Entries, IoFailure>(failure)) ==> fails_with(
            r,
            reported_on(failure, below(process.path@, "fd"@)),
        ),
{
    where_files_lie(process.path@);
}

/// A walk begins once its directory is open, at its first entry; a directory that is not opened is
/// named.
pub proof fn walks_begin_at_the_first_entry(
    procfs: AsyncProcfs,
    process: Process,
    opened: Result<(), IoFailure>,
    processes: Result<Scan, ProcfsError>,
    tasks: Result<Scan, ProcfsError>,
    descriptors: Result<Scan, ProcfsError>,
)
    requires
        is_directory(process.path@),
        is_directory(procfs.root@),
        call_ensures(all_processes, (&procfs, opened), processes),
        call_ensures(Process::tasks, (&process, opened), tasks),
        call_ensures(Process::fds, (&process, opened), descriptors),
    ensures
        match opened {
            Ok(_) => {
                &&& processes matches Ok(scan) && scan.listing == Listing::Processes && scan.phase
                    == Phase::Reading
                &&& tasks matches Ok(scan) && scan.listing == Listing::Tasks && scan.phase
                    == Phase::Reading
                &&& descriptors matches Ok(scan) && scan.listing == Listing::Descriptors
                    && scan.phase == Phase::Reading
            },
            Err(failure) => {
                &&& fails_with(processes, reported_on(failure, below(procfs.root@, "."@)))
                &&& fails_with(tasks, reported_on(failure, below(process.path@, "task"@)))
                &&& fails_with(descriptors, reported_on(failure, below(process.path@, "fd"@)))
            },
        },
{
    where_files_lie(process.path@);
    reveal_strlit(".");
    assert("."@ =~= seq!['.']);
    encoding_of_ascii('.');
    crate::path::paths_are_joined_by_one_slash(procfs.root@, encode_utf8("."@));
}

/// A descriptor shows its own number, what the parser makes of the whole text of its link, and of
/// the mode the three bits of the owner.
pub proof fn descriptors_show_their_whole_link(
    process: Process,
    fd: i32,
    link: Vec<u8>,
    mode: u32,
    text: Seq<char>,
    bit: u32,
    r: Result<FDInfo, ProcfsError>,
    direct: Result<FDInfo, ProcfsError>,
)
    requires
        link@ == encode_utf8(text),
        bit < 32,
        call_ensures(Process::fd_from_fd, (&process, fd, DescriptorProbe::Found { link, mode }), r),
        call_ensures(
            FDInfo::from_process_at,
            (&process, fd, DescriptorProbe::Found { link, mode }),
            direct,
        ),
    ensures
        r is Ok <==> target_of(text) is Some,
        direct is Ok <==> target_of(text) is Some,
        r matches Ok(info) ==> {
            &&& info.raw_fd == fd
            &&& target_of(text) == Some(info.target)
            &&& (info.mode >> bit) & 1 == if 6 <= bit <= 8 {
                (mode >> bit) & 1
            } else {
                0
            }
            &&& direct == r
        },
        r matches Err(e) ==> (e@ matches ErrorView::InternalError(InternalView::Malformed(error))
            && is_target_error(text, error)),
{
    a_descriptor_shows_the_whole_link(r, process.path@, fd, link, mode, text, bit);
    a_descriptor_shows_the_whole_link(direct, process.path@, fd, link, mode, text, bit);
    crate::text::bytes_stand_for_their_text(text);
    vstd::utf8::encode_utf8_valid_utf8(text);
    encode_utf8_decode_utf8(text);
}

/// A descriptor that cannot be looked at is named, and a link that is no text is a missing value.
pub proof fn descriptors_that_fail_are_named(
    process: Process,
    fd: i32,
    probe: DescriptorProbe,
    failure: IoFailure,
    r: Result<FDInfo, ProcfsError>,
)
    requires
        is_directory(process.path@),
        call_ensures(Process::fd_from_fd, (&process, fd, probe), r),
    ensures
        (probe == DescriptorProbe::NotOpened(failure) || probe == DescriptorProbe::LinkNotRead(
            failure,
        ) || probe == DescriptorProbe::NoMetadata(failure)) ==> fails_with(
            r,
            reported_on(
                failure,
                below(process.path@, "fd"@) + seq![SLASH] + encode_utf8(decimal(fd as int)),
            ),
        ),
        (probe matches DescriptorProbe::Found { link, mode } && !valid_utf8(link@)) ==> fails_with(
            r,
            ErrorView::InternalError(InternalView::Missing),
        ),
{
    a_descriptor_that_fails_is_named(r, process.path@, fd, probe, failure);
}

/// A thread has its own number and that of its process, and lies at `task/<tid>` below it; the main
/// thread is the one with the number of the process.
pub proof fn threads_lie_below_their_process(
    process: Process,
    tid: i32,
    opened: Result<(), IoFailure>,
    r: Result<Task, ProcfsError>,
    direct: Result<Task, ProcfsError>,
    main: Result<Task, ProcfsError>,
)
    requires
        is_directory(process.path@),
        call_ensures(Process::task_from_tid, (&process, tid, opened), r),
        call_ensures(Task::from_process_at, (&process, tid, opened), direct),
        call_ensures(Process::task_main_thread, (&process, opened), main),
    ensures
        match opened {
            Ok(_) => {
                &&& r matches Ok(task) && task.pid == process.pid && task.tid == tid && task.path@
                    == below(process.path@, "task"@) + seq![SLASH] + encode_utf8(decimal(tid as int))
                &&& direct matches Ok(task) && task.pid == process.pid && task.tid == tid
                    && task.path@ == r->Ok_0.path@
                &&& main matches Ok(task) && task.pid == process.pid && task.tid == process.pid
                    && task.path@ == below(process.path@, "task"@) + seq![SLASH] + encode_utf8(
                    decimal(process.pid as int),
                )
            },
            Err(failure) => {
                &&& fails_with(
                    r,
                    reported_on(
                        failure,
                        below(process.path@, "task"@) + seq![SLASH] + encode_utf8(
                            decimal(tid as int),
                        ),
                    ),
                )
                &&& fails_with(
                    main,
                    reported_on(
                        failure,
                        below(process.path@, "task"@) + seq![SLASH] + encode_utf8(
                            decimal(process.pid as int),
                        ),
                    ),
                )
            },
        },
{
    a_task_is_below_its_process(r, process, tid, opened);
    a_task_is_below_its_process(direct, process, tid, opened);
    a_task_is_below_its_process(main, process, process.pid, opened);
}

/// The children that the kernel wrote are the children of the thread; a word that is no number
/// spoils the list.
pub proof fn children_of_threads_read_back(
    task: Task,
    list: Seq<u32>,
    word: Seq<char>,
    good: String,
    bad: String,
    r: Result<Vec<u32>, ProcfsError>,
    spoilt: Result<Vec<u32>, ProcfsError>,
)
    requires
        good@ == children_text(list),
        is_word(word),
        within(unsigned_int(word, 10), 0, u32::MAX as int) is None,
        bad@ == children_text(list) + word,
        call_ensures(Task::children, (&task, FileRead::Read(good)), r),
        call_ensures(Task::children, (&task, FileRead::Read(bad)), spoilt),
    ensures
        r matches Ok(children) && children@ == list,
        fails_with(spoilt, ErrorView::Other("Failed to parse task's child PIDs"@)),
{
    let none = Seq::<char>::empty();
    children_read_back(list);
    children_are_told_apart(r->Ok_0@, list, good@);
    one_bad_word_spoils_the_list(list, word, none);
    assert(children_text(list) + word + none =~= children_text(list) + word);
}

/// A file with children that was not read is reported.
pub proof fn unread_children_are_reported(
    task: Task,
    read: FileRead<String>,
    r: Result<Vec<u32>, ProcfsError>,
)
    requires
        is_directory(task.path@),
        call_ensures(Task::children, (&task, read), r),
    ensures
        read matches FileRead::NotOpened(failure) ==> fails_with(
            r,
            reported_on(failure, below(task.path@, "children"@)),
        ),
        read matches FileRead::NotRead(failure) ==> fails_with(r, reported(failure)),
{
    where_files_lie(task.path@);
}

/// The scores for the OOM killer are the numbers in their files, whatever white space is around
/// them, if they have 16 bits; other numbers and texts are shown in the error.
pub proof fn scores_read_back(
    process: Process,
    before: Seq<char>,
    n: int,
    after: Seq<char>,
    text: String,
    score: Result<u16, ProcfsError>,
    adjustment: Result<i16, ProcfsError>,
)
    requires
        is_blank(before),
        is_blank(after),
        text@ == before + decimal(n) + after,
        call_ensures(Process::oom_score, (&process, FileRead::Read(text)), score),
        call_ensures(Process::oom_score_adj, (&process, FileRead::Read(text)), adjustment),
    ensures
        if 0 <= n <= 65535 {
            score matches Ok(v) && v == n
        } else {
            fails_with(score, ErrorView::InternalError(InternalView::BadNumber(decimal(n))))
        },
        if -32768 <= n <= 32767 {
            adjustment matches Ok(v) && v == n
        } else {
            fails_with(adjustment, ErrorView::InternalError(InternalView::BadNumber(decimal(n))))
        },
{
    a_number_in_a_file_reads_back(n, before, after);
    decimal_is_a_word(n);
    bad_numbers_are_shown(before, decimal(n), after);
    decimal_reads_back(n);
    if n < 0 {
        assert(decimal(n)[0] == '-');
        assert(unsigned(decimal(n), 10) is None) by {
            crate::number::digits_have_their_values('-');
            assert(decimal(n)[0] != '+');
            assert(!is_digits(decimal(n), 10));
        }
    }
}

/// What is written to set an adjustment is the adjustment that is read afterwards, with or without
/// white space around it.
pub proof fn adjustments_read_back(
    process: Process,
    value: i16,
    data: Vec<u8>,
    before: Seq<char>,
    after: Seq<char>,
    text: String,
    r: Result<i16, ProcfsError>,
)
    requires
        is_blank(before),
        is_blank(after),
        call_ensures(Process::oom_score_adj_data, (value,), data),
        text@ == before + decode_utf8(data@) + after,
        call_ensures(Process::oom_score_adj, (&process, FileRead::Read(text)), r),
    ensures
        data@ == encode_utf8(decimal(value as int)),
        r matches Ok(v) && v == value,
{
    encode_utf8_decode_utf8(decimal(value as int));
    a_number_in_a_file_reads_back(value as int, before, after);
}

/// The login user is the first number in the file.
pub proof fn login_users_read_back(
    process: Process,
    uid: u32,
    after: Seq<char>,
    word: Seq<char>,
    good: String,
    bad: String,
    r: Result<u32, ProcfsError>,
    rejected: Result<u32, ProcfsError>,
)
    requires
        after.len() > 0 ==> is_space(after[0]),
        good@ == decimal(uid as int) + after,
        is_word(word),
        within(unsigned_int(word, 10), 0, u32::MAX as int) is None,
        bad@ == word + after,
        call_ensures(Process::loginuid, (&process, FileRead::Read(good)), r),
        call_ensures(Process::loginuid, (&process, FileRead::Read(bad)), rejected),
    ensures
        r matches Ok(v) && v == uid,
        rejected matches Err(ProcfsError::Parse(e)) && is_id_error(word + after, 0, e),
{
    a_user_reads_back(uid, after);
    crate::text::the_first_word(word, after);
    assert(words(word + after)[0] == word);
}

/// The core dump filter is the hexadecimal number in its file, as flags if each of its bits stands
/// for something; a blank file holds none.
pub proof fn filters_read_back(
    process: Process,
    before: Seq<char>,
    digits: Seq<char>,
    after: Seq<char>,
    text: String,
    blank: String,
    r: Result<Option<procfs_core::process::CoredumpFlags>, ProcfsError>,
    none: Result<Option<procfs_core::process::CoredumpFlags>, ProcfsError>,
)
    requires
        is_blank(before),
        is_digits(digits, 16),
        is_blank(after),
        text@ == before + digits + after,
        is_blank(blank@),
        call_ensures(Process::coredump_filter, (&process, FileRead::Read(text)), r),
        call_ensures(Process::coredump_filter, (&process, FileRead::Read(blank)), none),
    ensures
        ({
            let bits = unsigned(digits, 16)->Some_0;
            if bits <= 0x1ff {
                r matches Ok(Some(flags)) && coredump_flags_of(bits as u32) == Some(flags)
            } else if bits <= 0xffff_ffff {
                fails_with(r, ErrorView::InternalError(InternalView::Missing))
            } else {
                fails_with(r, ErrorView::InternalError(InternalView::BadNumber(digits)))
            }
        }),
        none matches Ok(None),
{
    let nothing = Seq::<char>::empty();
    crate::number::a_sign_counts(digits, 16);
    assert forall|i: int| 0 <= i < digits.len() implies !is_space(#[trigger] digits[i]) by {
        assert(crate::number::digit_value(digits[i]) < 16);
    }
    assert(!is_space(digits[0]) && !is_space(digits[digits.len() - 1]));
    bad_numbers_are_shown(before, digits, after);
    trimming_gives_the_text_back(before, digits, after);
    trimming_gives_the_text_back(blank@, nothing, nothing);
    assert(blank@ + nothing + nothing =~= blank@);
}

/// The number that the kernel is told to clear something.
pub proof fn what_is_cleared_is_told_by_a_number(
    all: Vec<u8>,
    anonymous: Vec<u8>,
    mapped: Vec<u8>,
    dirty: Vec<u8>,
    peak: Vec<u8>,
)
    requires
        call_ensures(Process::clear_refs_data, (ClearRefs::PGReferencedAll,), all),
        call_ensures(Process::clear_refs_data, (ClearRefs::PGReferencedAnonymous,), anonymous),
        call_ensures(Process::clear_refs_data, (ClearRefs::PGReferencedFile,), mapped),
        call_ensures(Process::clear_refs_data, (ClearRefs::SoftDirty,), dirty),
        call_ensures(Process::clear_refs_data, (ClearRefs::PeakRSS,), peak),
    ensures
        all@ == encode_utf8(decimal(1)),
        anonymous@ == encode_utf8(decimal(2)),
        mapped@ == encode_utf8(decimal(3)),
        dirty@ == encode_utf8(decimal(4)),
        peak@ == encode_utf8(decimal(5)),
{
}

/// What came of writing to a file of a process: a file that was not opened is named, one that was
/// not written is not.
pub proof fn failed_writes_are_reported(
    process: Process,
    write: FileWrite,
    set: Result<(), ProcfsError>,
    cleared: Result<(), ProcfsError>,
)
    requires
        is_directory(process.path@),
        call_ensures(Process::set_oom_score_adj, (&process, write), set),
        call_ensures(Process::clear_refs, (&process, write), cleared),
    ensures
        match write {
            FileWrite::Written => set is Ok && cleared is Ok,
            FileWrite::NotWritten(failure) => fails_with(set, reported(failure)) && fails_with(
                cleared,
                reported(failure),
            ),
            FileWrite::NotOpened(failure) => {
                &&& fails_with(set, reported_on(failure, below(process.path@, "oom_score_adj"@)))
                &&& fails_with(cleared, reported_on(failure, below(process.path@, "clear_refs"@)))
            },
        },
{
    where_files_lie(process.path@);
}

/// Texts are taken as they are, and a file that was not read is reported, named if it was not
/// opened.
pub proof fn texts_are_taken_as_they_are(
    process: Process,
    read: FileRead<String>,
    group: Result<String, ProcfsError>,
    place: Result<String, ProcfsError>,
)
    requires
        is_directory(process.path@),
        call_ensures(Process::autogroup, (&process, read), group),
        call_ensures(Process::wchan, (&process, read), place),
    ensures
        match read {
            FileRead::Read(text) => group == Ok::<String, ProcfsError>(text) && place == Ok::<
                String,
                ProcfsError,
            >(text),
            FileRead::NotRead(failure) => fails_with(group, reported(failure)) && fails_with(
                place,
                reported(failure),
            ),
            FileRead::NotOpened(failure) => {
                &&& fails_with(group, reported_on(failure, below(process.path@, "autogroup"@)))
                &&& fails_with(place, reported_on(failure, below(process.path@, "wchan"@)))
            },
        },
{
    where_files_lie(process.path@);
}

/// Small values that were not read are reported, under the path of their file if it was not opened.
pub proof fn unread_values_are_reported(
    process: Process,
    read: FileRead<String>,
    bytes: FileRead<Vec<u8>>,
    width: usize,
    little_endian: bool,
    filter: Result<Option<procfs_core::process::CoredumpFlags>, ProcfsError>,
    user: Result<u32, ProcfsError>,
    score: Result<u16, ProcfsError>,
    adjustment: Result<i16, ProcfsError>,
    vector: Result<HashMap<u64, u64>, ProcfsError>,
)
    requires
        is_directory(process.path@),
        1 <= width <= 8,
        call_ensures(Process::coredump_filter, (&process, read), filter),
        call_ensures(Process::loginuid, (&process, read), user),
        call_ensures(Process::oom_score, (&process, read), score),
        call_ensures(Process::oom_score_adj, (&process, read), adjustment),
        call_ensures(Process::auxv, (&process, bytes, width, little_endian), vector),
    ensures
        read matches FileRead::NotOpened(failure) ==> {
            &&& fails_with(filter, reported_on(failure, below(process.path@, "coredump_filter"@)))
            &&& fails_with(user, reported_on(failure, below(process.path@, "loginuid"@)))
            &&& fails_with(score, reported_on(failure, below(process.path@, "oom_score"@)))
            &&& fails_with(adjustment, reported_on(failure, below(process.path@, "oom_score_adj"@)))
        },
        read matches FileRead::NotRead(failure) ==> {
            &&& fails_with(filter, reported(failure))
            &&& fails_with(user, reported(failure))
            &&& fails_with(score, reported(failure))
            &&& fails_with(adjustment, reported(failure))
        },
        bytes matches FileRead::NotOpened(failure) ==> fails_with(
            vector,
            reported_on(failure, below(process.path@, "auxv"@)),
        ),
        bytes matches FileRead::NotRead(failure) ==> fails_with(vector, reported(failure)),
{
    where_files_lie(process.path@);
}

/// Links are taken as they are, and so is the owner; a failure names the link, but not the
/// directory of the process.
pub proof fn links_are_taken_as_they_are(
    process: Process,
    link: Result<Vec<u8>, IoFailure>,
    owner: Result<u32, IoFailure>,
    cwd: Result<Vec<u8>, ProcfsError>,
    root: Result<Vec<u8>, ProcfsError>,
    exe: Result<Vec<u8>, ProcfsError>,
    uid: Result<u32, ProcfsError>,
    pid: i32,
)
    requires
        is_directory(process.path@),
        call_ensures(Process::cwd, (&process, link), cwd),
        call_ensures(Process::root, (&process, link), root),
        call_ensures(Process::exe, (&process, link), exe),
        call_ensures(Process::uid, (&process, owner), uid),
        call_ensures(Process::pid, (&process,), pid),
    ensures
        match link {
            Ok(text) => {
                &&& cwd == Ok::<Vec<u8>, ProcfsError>(text)
                &&& root == Ok::<Vec<u8>, ProcfsError>(text)
                &&& exe == Ok::<Vec<u8>, ProcfsError>(text)
            },
            Err(failure) => {
                &&& fails_with(cwd, reported_on(failure, below(process.path@, "cwd"@)))
                &&& fails_with(root, reported_on(failure, below(process.path@, "root"@)))
                &&& fails_with(exe, reported_on(failure, below(process.path@, "exe"@)))
            },
        },
        match owner {
            Ok(user) => uid == Ok::<u32, ProcfsError>(user),
            Err(failure) => fails_with(uid, reported(failure)),
        },
        pid == process.pid,
{
    where_files_lie(process.path@);
}

/// Files are handed on as they were opened; one that was not is named.
pub proof fn opened_files_are_handed_on<T>(
    process: Process,
    path: &[u8],
    opened: Result<T, IoFailure>,
    mem: Result<T, ProcfsError>,
    file: Result<T, ProcfsError>,
    flagged: Result<T, ProcfsError>,
)
    requires
        is_directory(process.path@),
        path@.len() > 0,
        call_ensures(Process::mem::<T>, (&process, opened), mem),
        call_ensures(Process::open_relative::<T>, (&process, path, opened), file),
        call_ensures(Process::open_relative_flags::<T>, (&process, path, opened), flagged),
    ensures
        match opened {
            Ok(handle) => {
                &&& mem == Ok::<T, ProcfsError>(handle)
                &&& file == Ok::<T, ProcfsError>(handle)
                &&& flagged == Ok::<T, ProcfsError>(handle)
            },
            Err(failure) => {
                let named = if path@[0] == SLASH {
                    path@
                } else {
                    process.path@ + seq![SLASH] + path@
                };
                &&& fails_with(mem, reported_on(failure, below(process.path@, "mem"@)))
                &&& fails_with(file, reported_on(failure, named))
                &&& fails_with(flagged, reported_on(failure, named))
            },
        },
{
    where_files_lie(process.path@);
    crate::path::paths_are_joined_by_one_slash(process.path@, path@);
    if path@[0] == SLASH {
        crate::path::paths_are_joined_by_one_slash(process.path@, path@.skip(1));
        assert(seq![SLASH] + path@.skip(1) =~= path@);
    }
}

/// A path that ends in a number leads to the process of that number, whatever it is a link to.
pub proof fn paths_lead_to_their_number(
    procfs: AsyncProcfs,
    path: &str,
    directory: Seq<char>,
    n: i32,
    link: Option<Vec<u8>>,
    r: Result<Process, ProcfsError>,
)
    requires
        path@ == directory.push('/') + decimal(n as int) || path@ == decimal(n as int),
        call_ensures(Process::new_with_path, (&procfs, path, Ok(()), link), r),
    ensures
        r matches Ok(process) && process.pid == n && process.path@ == joined(
            procfs.root@,
            encode_utf8(path@),
        ),
{
    let other = if link is Some {
        link->Some_0@
    } else {
        seq![]
    };
    crate::process::links_and_paths_tell_the_number(n, n, directory, other);
    crate::process::a_number_is_its_own_path(n);
}

/// A state, a link and a directory on their own: who is alive, what a descriptor shows, and how
/// many things are listed.
pub proof fn parts_are_told_alike(
    state: char,
    alive: bool,
    fd: i32,
    mode: u32,
    target: procfs_core::process::FDTarget,
    error: procfs_core::ProcError,
    shown: Result<FDInfo, ProcfsError>,
    malformed: Result<FDInfo, ProcfsError>,
    missing: Result<FDInfo, ProcfsError>,
    entries: Entries,
    count: usize,
)
    requires
        call_ensures(state_is_alive, (state,), alive),
        call_ensures(describe, (fd, mode, Some(Ok(target))), shown),
        call_ensures(describe, (fd, mode, Some(Err(error))), malformed),
        call_ensures(describe, (fd, mode, None), missing),
        call_ensures(count_entries, (&entries,), count),
    ensures
        alive <==> state != 'Z' && state != 'X' && state != 'x',
        shown matches Ok(info) && info.raw_fd == fd && info.mode == mode & 0o700 && info.target
            == target,
        fails_with(malformed, ErrorView::InternalError(InternalView::Malformed(error))),
        fails_with(missing, ErrorView::InternalError(InternalView::Missing)),
        count == counted(entry_texts(entries@)),
{
}

/// A command line is taken apart at its NUL characters: the arguments of two parts with one between
/// them are those of the first part and then those of the second. A part without one is a single
/// argument, unless it is empty.
pub proof fn command_lines_are_taken_apart_at_nul(
    process: Process,
    front: String,
    rest: String,
    line: String,
    of_front: Result<Vec<String>, ProcfsError>,
    of_rest: Result<Vec<String>, ProcfsError>,
    of_line: Result<Vec<String>, ProcfsError>,
)
    requires
        lacks(front@, '\0'),
        line@ == front@.push('\0') + rest@,
        call_ensures(Process::cmdline, (&process, FileRead::Read(front)), of_front),
        call_ensures(Process::cmdline, (&process, FileRead::Read(rest)), of_rest),
        call_ensures(Process::cmdline, (&process, FileRead::Read(line)), of_line),
    ensures
        of_front is Ok && of_rest is Ok && of_line is Ok,
        of_front->Ok_0@.len() == if front@.len() == 0 {
            0nat
        } else {
            1nat
        },
        front@.len() > 0 ==> of_front->Ok_0@[0]@ == front@,
        of_line->Ok_0@.len() == of_front->Ok_0@.len() + of_rest->Ok_0@.len(),
        front@.len() > 0 ==> of_line->Ok_0@[0]@ == front@,
        forall|i: int|
            0 <= i < of_rest->Ok_0@.len() ==> of_line->Ok_0@[of_front->Ok_0@.len() + i]@
                == #[trigger] of_rest->Ok_0@[i]@,
{
    arguments_stand_between_nul_characters(front@, rest@);
    let a = of_front->Ok_0@;
    let b = of_rest->Ok_0@;
    let all = of_line->Ok_0@;
    assert(texts(a).len() == a.len() && texts(b).len() == b.len() && texts(all).len() == all.len());
    assert(texts(all) == texts(a) + texts(b));
    if front@.len() > 0 {
        assert(texts(a)[0] == a[0]@);
        assert(texts(all)[0] == all[0]@);
    }
    assert forall|i: int| 0 <= i < b.len() implies all[a.len() + i]@ == #[trigger] b[i]@ by {
        assert(texts(b)[i] == b[i]@);
        assert(texts(all)[a.len() + i] == all[a.len() + i]@);
    }
}

/// A binding behind a zero byte sets its variable and leaves the others as they are; an entry
/// without a `=`, and a zero byte at the end, change nothing.
pub proof fn environments_grow_binding_by_binding(
    process: Process,
    content: Vec<u8>,
    name: Seq<u8>,
    value: Seq<u8>,
    entry: Seq<u8>,
    bound: Vec<u8>,
    unbound: Vec<u8>,
    ended: Vec<u8>,
    r: Result<Vec<Variable>, ProcfsError>,
    of_bound: Result<Vec<Variable>, ProcfsError>,
    of_unbound: Result<Vec<Variable>, ProcfsError>,
    of_ended: Result<Vec<Variable>, ProcfsError>,
)
    requires
        lacks(name, 0),
        lacks(name, 61),
        lacks(value, 0),
        lacks(entry, 0),
        lacks(entry, 61),
        bound@ == content@.push(0) + (name.push(61) + value),
        unbound@ == content@.push(0) + entry,
        ended@ == content@.push(0),
        call_ensures(Process::environ, (&process, FileRead::Read(content)), r),
        call_ensures(Process::environ, (&process, FileRead::Read(bound)), of_bound),
        call_ensures(Process::environ, (&process, FileRead::Read(unbound)), of_unbound),
        call_ensures(Process::environ, (&process, FileRead::Read(ended)), of_ended),
    ensures
        r is Ok && of_bound is Ok && of_unbound is Ok && of_ended is Ok,
        as_map(of_bound->Ok_0@) == as_map(r->Ok_0@).insert(name, value),
        as_map(of_unbound->Ok_0@) == as_map(r->Ok_0@),
        as_map(of_ended->Ok_0@) == as_map(r->Ok_0@),
{
    the_last_binding_counts(content@, name, value);
    entries_bind_at_the_first_equals_sign(content@, entry, name, value);
    a_final_zero_changes_nothing(content@);
}

/// The children of a thread are the words in its file, if all of them are numbers of 32 bits.
pub proof fn children_are_the_words_in_the_file(
    task: Task,
    text: String,
    r: Result<Vec<u32>, ProcfsError>,
)
    requires
        call_ensures(Task::children, (&task, FileRead::Read(text)), r),
    ensures
        r is Ok <==> forall|i: int|
            0 <= i < words(text@).len() ==> within(
                unsigned_int(#[trigger] words(text@)[i], 10),
                0,
                0xffff_ffff,
            ) is Some,
        r matches Ok(list) ==> list@.len() == words(text@).len() && forall|i: int|
            0 <= i < list@.len() ==> unsigned_int(words(text@)[i], 10) == Some(
                #[trigger] list@[i] as int,
            ),
        r matches Err(e) ==> e@ == ErrorView::Other("Failed to parse task's child PIDs"@),
{
    if r is Ok {
        let list = r->Ok_0@;
        assert forall|i: int| 0 <= i < words(text@).len() implies within(
            unsigned_int(#[trigger] words(text@)[i], 10),
            0,
            0xffff_ffff,
        ) is Some by {
            assert(child_in(words(text@)[i]) == Some(list[i] as int));
        }
        assert forall|i: int| 0 <= i < list.len() implies unsigned_int(words(text@)[i], 10) == Some(
            #[trigger] list[i] as int,
        ) by {
            assert(child_in(words(text@)[i]) == Some(list[i] as int));
        }
    } else {
        let i = choose|i: int|
            0 <= i < words(text@).len() && child_in(#[trigger] words(text@)[i]) is None;
        assert(within(unsigned_int(words(text@)[i], 10), 0, 0xffff_ffff) is None);
    }
}

/// Small values are the numbers in their files without the white space around them, in whatever way
/// the numbers are written; what is no number of the right size is shown in the error.
pub proof fn small_values_are_the_numbers_in_their_files(
    process: Process,
    before: Seq<char>,
    core: Seq<char>,
    after: Seq<char>,
    text: String,
    score: Result<u16, ProcfsError>,
    adjustment: Result<i16, ProcfsError>,
    filter: Result<Option<procfs_core::process::CoredumpFlags>, ProcfsError>,
)
    requires
        is_blank(before),
        core.len() > 0,
        is_trimmed(core),
        is_blank(after),
        text@ == before + core + after,
        call_ensures(Process::oom_score, (&process, FileRead::Read(text)), score),
        call_ensures(Process::oom_score_adj, (&process, FileRead::Read(text)), adjustment),
        call_ensures(Process::coredump_filter, (&process, FileRead::Read(text)), filter),
    ensures
        ({
            let bad = ErrorView::InternalError(InternalView::BadNumber(core));
            &&& match unsigned(core, 10) {
                Some(n) if n <= 65535 => score matches Ok(v) && v == n,
                _ => fails_with(score, bad),
            }
            &&& match signed(core, 10) {
                Some(n) if -32768 <= n <= 32767 => adjustment matches Ok(v) && v == n,
                _ => fails_with(adjustment, bad),
            }
            &&& match unsigned(core, 16) {
                Some(n) if n <= 0x1ff => filter matches Ok(Some(flags)) && coredump_flags_of(
                    n as u32,
                ) == Some(flags),
                Some(n) if n <= 0xffff_ffff => fails_with(
                    filter,
                    ErrorView::InternalError(InternalView::Missing),
                ),
                _ => fails_with(filter, bad),
            }
        }),
{
    bad_numbers_are_shown(before, core, after);
    trimming_gives_the_text_back(before, core, after);
}

/// The login user is the first word of the file, if that is a number of 32 bits, whatever white
/// space is in front of it.
pub proof fn the_login_user_is_the_first_word(
    process: Process,
    before: Seq<char>,
    word: Seq<char>,
    after: Seq<char>,
    text: String,
    r: Result<u32, ProcfsError>,
)
    requires
        is_blank(before),
        is_word(word),
        after.len() > 0 ==> is_space(after[0]),
        text@ == before + (word + after),
        call_ensures(Process::loginuid, (&process, FileRead::Read(text)), r),
    ensures
        match unsigned(word, 10) {
            Some(n) if n <= 0xffff_ffff => r matches Ok(v) && v == n,
            _ => r matches Err(ProcfsError::Parse(e)) && is_id_error(text@, 0, e),
        },
{
    crate::text::leading_space_adds_no_word(before, word + after);
    crate::text::the_first_word(word, after);
    assert(words(text@)[0] == word);
}

} // verus!
