//! What is told of errors, texts, numbers and paths.
use vstd::prelude::*;
use vstd::utf8::encode_utf8;

use crate::error::{take_parsed, ErrorKind, ErrorView, IoFailure, ProcfsError};
use crate::laws::is_directory;
use crate::number::{decimal_bytes, decimal_reads_back, decimal_text, read_signed, read_unsigned};
use crate::path::{final_name_range, join, paths_are_joined_by_one_slash, SLASH};
use crate::process::scan::read_number;
use crate::process::path_number;
use crate::text::{is_blank, is_trimmed, lacks, trimming_gives_the_text_back};
use crate::convert::IntoOption;
use crate::procfs::trimmed;

verus! {

/// How failures become errors: under the path of the file where there is one, told apart by what
/// happened, with the error itself where nothing more is known.
pub proof fn failures_become_errors(
    failure: IoFailure,
    path: Vec<u8>,
    named: ProcfsError,
    unnamed: ProcfsError,
)
    requires
        call_ensures(ProcfsError::on_file, (failure, path), named),
        call_ensures(ProcfsError::unnamed, (failure,), unnamed),
    ensures
        ({
            let gone = failure.kind == ErrorKind::Other && failure.raw_os_error == Some(3i32);
            if failure.kind == ErrorKind::NotFound || gone {
                named@ == ErrorView::NotFound(Some(path@))
            } else if failure.kind == ErrorKind::PermissionDenied {
                named@ == ErrorView::PermissionDenied(Some(path@))
            } else {
                named@ == ErrorView::Io(failure.error, Some(path@))
            }
        }),
        if failure.has_cause || failure.kind == ErrorKind::Other {
            unnamed@ == ErrorView::Io(failure.error, None)
        } else if failure.kind == ErrorKind::NotFound {
            unnamed@ == ErrorView::NotFound(None)
        } else {
            unnamed@ == ErrorView::PermissionDenied(None)
        },
{
}

/// An error that names no file yet can be given one; one that names a file keeps it.
pub proof fn errors_are_named_once(
    failure: IoFailure,
    path: Vec<u8>,
    other: Vec<u8>,
    named: ProcfsError,
    again: ProcfsError,
)
    requires
        call_ensures(ProcfsError::on_file, (failure, path), named),
        call_ensures(ProcfsError::error_path, (named, other), again),
    ensures
        again@ == named@,
{
}

/// Numbers that were written are the numbers that are read, if they lie between the bounds.
pub proof fn written_numbers_are_read(
    n: i32,
    text: String,
    bytes: Vec<u8>,
    chars: Vec<char>,
    from: usize,
    to: usize,
    min: i32,
    max: i32,
    limit: u64,
    signed: Option<i32>,
    unsigned: Option<u64>,
    name: &str,
    number: Option<i32>,
    at_end: Option<i32>,
)
    requires
        call_ensures(decimal_text, (n,), text),
        call_ensures(decimal_bytes, (n,), bytes),
        from <= to <= chars@.len(),
        chars@.subrange(from as int, to as int) == text@,
        min <= 0 <= max,
        name@ == text@,
        call_ensures(read_signed, (&chars, from, to, min, max), signed),
        call_ensures(read_unsigned, (&chars, from, to, 10, limit), unsigned),
        call_ensures(read_number, (name,), number),
        call_ensures(path_number, (name,), at_end),
    ensures
        bytes@ == encode_utf8(text@),
        signed == if min <= n <= max {
            Some(n)
        } else {
            None
        },
        n >= 0 ==> unsigned == if n <= limit {
            Some(n as u64)
        } else {
            None
        },
        number == Some(n),
        at_end == Some(n),
{
    decimal_reads_back(n as int);
    crate::process::a_number_is_its_own_path(n);
}

/// Paths are joined by one slash; an absolute path stands for itself.
pub proof fn paths_are_joined(base: &[u8], path: &[u8], r: Vec<u8>)
    requires
        is_directory(base@),
        call_ensures(join, (base, path), r),
    ensures
        r@ == if path@.len() > 0 && path@[0] == SLASH {
            path@
        } else {
            base@ + seq![SLASH] + path@
        },
{
    paths_are_joined_by_one_slash(base@, path@);
    if path@.len() > 0 && path@[0] == SLASH {
        paths_are_joined_by_one_slash(base@, path@.skip(1));
        assert(seq![SLASH] + path@.skip(1) =~= path@);
    }
}

/// The name in which a path ends is the one behind its last slash.
pub proof fn paths_end_in_their_last_name(
    directory: Seq<char>,
    name: Seq<char>,
    path: Vec<char>,
    r: Option<(usize, usize)>,
)
    requires
        lacks(name, '/'),
        name.len() > 0,
        name[0] != '.',
        path@ == directory.push('/') + name,
        call_ensures(final_name_range, (&path,), r),
    ensures
        r matches Some((from, to)) && from <= to <= path@.len() && path@.subrange(
            from as int,
            to as int,
        ) == name,
{
    assert(name != seq!['.'] && name != seq!['.', '.']);
    crate::path::the_name_behind_the_last_slash(directory, name);
}

/// Values and errors are taken over as they are.
pub proof fn results_are_taken_over<T, E>(
    parsed: Result<T, procfs_core::ProcError>,
    taken: Result<T, ProcfsError>,
    option: Option<T>,
    result: Result<T, E>,
    same: Option<T>,
    value: Option<T>,
)
    requires
        call_ensures(take_parsed::<T>, (parsed,), taken),
        call_ensures(<Option<T> as IntoOption<T>>::into_option, (option,), same),
        call_ensures(<Result<T, E> as IntoOption<T>>::into_option, (result,), value),
    ensures
        match parsed {
            Ok(found) => taken == Ok::<T, ProcfsError>(found),
            Err(e) => taken matches Err(ProcfsError::Parse(error)) && error == e,
        },
        same == option,
        value == match result {
            Ok(found) => Some(found),
            Err(_) => None,
        },
{
}

/// Of a text with white space around it, the text itself is what is left.
pub proof fn white_space_is_taken_off(
    before: Seq<char>,
    core: Seq<char>,
    after: Seq<char>,
    text: &str,
    r: String,
)
    requires
        is_blank(before),
        is_trimmed(core),
        is_blank(after),
        text@ == before + core + after,
        call_ensures(trimmed, (text,), r),
    ensures
        r@ == core,
{
    trimming_gives_the_text_back(before, core, after);
}

} // verus!
