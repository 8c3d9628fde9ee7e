//! The version of the running kernel.
use vstd::prelude::*;

use crate::error::{ErrorView, ProcfsError};
use crate::number::{decimal, decimal_reads_back, lemma_decimal_digits, unsigned_int, within};
use crate::text::{lacks, split, split_first_piece, split_of_one_piece};

verus! {

/// A kernel version.
#[derive(Clone, Copy, Debug, PartialEq, Eq, Structural)]
pub struct Version {
    /// The major number.
    pub major: u8,
    /// The minor number.
    pub minor: u8,
    /// The patch level.
    pub patch: u16,
}

/// Tells whether `a` came before `b`: the first number in which they differ decides.
pub open spec fn precedes(a: Version, b: Version) -> bool {
    ||| a.major < b.major
    ||| a.major == b.major && a.minor < b.minor
    ||| a.major == b.major && a.minor == b.minor && a.patch < b.patch
}

impl Version {
    /// The version `major.minor.patch`.
    pub fn new(major: u8, minor: u8, patch: u16) -> (r: Version)
        ensures
            r == (Version { major, minor, patch }),
    {
        Version { major, minor, patch }
    }

    /// Tells whether this version came before `other`.
    pub fn is_before(&self, other: &Version) -> (r: bool)
        ensures
            r == precedes(*self, *other),
    {
        self.major < other.major || (self.major == other.major && (self.minor < other.minor || (
        self.minor == other.minor && self.patch < other.patch)))
    }
}

/// Versions are in a line: of two different ones exactly one came before the other.
pub proof fn versions_are_in_a_line(a: Version, b: Version)
    ensures
        precedes(a, b) || precedes(b, a) || a == b,
        !(precedes(a, b) && precedes(b, a)),
        !precedes(a, a),
{
}

/// What came before an earlier version came before a later one.
pub proof fn precedes_is_transitive(a: Version, b: Version, c: Version)
    requires
        precedes(a, b),
        precedes(b, c),
    ensures
        precedes(a, c),
{
}

/// The number of digits and dots that a text begins with.
pub open spec fn dotted_len(s: Seq<char>) -> nat
    decreases s.len(),
{
    if s.len() > 0 && (s[0] == '.' || '0' <= s[0] <= '9') {
        1 + dotted_len(s.drop_first())
    } else {
        0
    }
}

/// The version that a text begins with: three numbers with dots between them. What follows the last
/// digit or dot, and a further number, is left out.
pub open spec fn version_in(text: Seq<char>) -> Option<Version> {
    let parts = split(text.take(dotted_len(text) as int), '.');
    if parts.len() < 3 {
        None
    } else {
        match (
            within(unsigned_int(parts[0], 10), 0, u8::MAX as int),
            within(unsigned_int(parts[1], 10), 0, u8::MAX as int),
            within(unsigned_int(parts[2], 10), 0, u16::MAX as int),
        ) {
            (Some(major), Some(minor), Some(patch)) => Some(
                Version { major: major as u8, minor: minor as u8, patch: patch as u16 },
            ),
            _ => None,
        }
    }
}

/// `procfs_core::sys::kernel::Version::from_str`: reads the version that a text begins with, and
/// fails exactly if there is none. What it then says has no name.
#[verifier::external_body]
fn parse_version(text: &str) -> (r: Result<Version, String>)
    ensures
        match r {
            Ok(version) => version_in(text@) == Some(version),
            Err(_) => version_in(text@) is None,
        },
{
    match procfs_core::sys::kernel::Version::from_str(text) {
        Ok(v) => Ok(Version { major: v.major, minor: v.minor, patch: v.patch }),
        Err(e) => Err(e.to_string()),
    }
}

/// Tells whether `message` is what a call of `procfs_core::sys::kernel::Version::from_str` says on
/// a text that does not begin with a version.
pub closed spec fn is_version_error(text: Seq<char>, message: Seq<char>) -> bool {
    exists|string: &str, said: String|
        string@ == text && said@ == message && #[trigger] call_ensures(
            parse_version,
            (string,),
            Err(said),
        )
}

impl Version {
    /// The version that a text begins with.
    pub fn read(text: &str) -> (r: Result<Version, ProcfsError>)
        ensures
            match version_in(text@) {
                Some(version) => r == Ok::<Version, ProcfsError>(version),
                None => r matches Err(e) && (e@ matches ErrorView::Other(message)
                    && is_version_error(text@, message)),
            },
    {
        match parse_version(text) {
            Ok(version) => Ok(version),
            Err(message) => Err(ProcfsError::Other(message)),
        }
    }
}

/// Versions are ordered as the numbers that their parts make up, the major number first.
pub proof fn versions_are_ordered_by_their_parts(a: Version, b: Version)
    ensures
        precedes(a, b) <==> (a.major * 256 + a.minor) * 65536 + a.patch < (b.major * 256 + b.minor)
            * 65536 + b.patch,
{
}

proof fn lemma_dotted_len(front: Seq<char>, rest: Seq<char>)
    requires
        forall|i: int|
            0 <= i < front.len() ==> #[trigger] front[i] == '.' || '0' <= front[i] <= '9',
        rest.len() > 0 ==> rest[0] != '.' && !('0' <= rest[0] <= '9'),
    ensures
        dotted_len(front + rest) == front.len(),
    decreases front.len(),
{
    let s = front + rest;
    if front.len() > 0 {
        let later = front.drop_first();
        assert(front[0] == '.' || '0' <= front[0] <= '9');
        assert forall|i: int| 0 <= i < later.len() implies #[trigger] later[i] == '.' || '0'
            <= later[i] <= '9' by {
            assert(later[i] == front[i + 1]);
        }
        lemma_dotted_len(later, rest);
        assert(s.drop_first() =~= later + rest);
    } else {
        assert(s =~= rest);
    }
}

proof fn lemma_decimal_lacks_dots(n: int)
    requires
        n >= 0,
    ensures
        forall|i: int| 0 <= i < decimal(n).len() ==> '0' <= #[trigger] decimal(n)[i] <= '9',
        lacks(decimal(n), '.'),
{
    lemma_decimal_digits(n as nat);
}

/// A version that was written with dots between its numbers reads back, whatever follows that does
/// not begin with a digit or a dot.
pub proof fn versions_read_back(version: Version, rest: Seq<char>)
    requires
        rest.len() > 0 ==> rest[0] != '.' && !('0' <= rest[0] <= '9'),
    ensures
        version_in(
            decimal(version.major as int) + seq!['.'] + decimal(version.minor as int) + seq!['.']
                + decimal(version.patch as int) + rest,
        ) == Some(version),
        version_in(decimal(version.major as int) + seq!['.'] + decimal(version.minor as int) + rest)
            is None,
{
    let a = decimal(version.major as int);
    let b = decimal(version.minor as int);
    let c = decimal(version.patch as int);
    lemma_decimal_lacks_dots(version.major as int);
    lemma_decimal_lacks_dots(version.minor as int);
    lemma_decimal_lacks_dots(version.patch as int);
    decimal_reads_back(version.major as int);
    decimal_reads_back(version.minor as int);
    decimal_reads_back(version.patch as int);
    let front = a + seq!['.'] + b + seq!['.'] + c;
    let text = front + rest;
    assert forall|i: int| 0 <= i < front.len() implies #[trigger] front[i] == '.' || '0' <= front[i]
        <= '9' by {
        if i < a.len() {
            assert(front[i] == a[i]);
        } else if a.len() < i < a.len() + 1 + b.len() {
            assert(front[i] == b[i - a.len() - 1]);
        } else if i > a.len() + 1 + b.len() {
            assert(front[i] == c[i - a.len() - b.len() - 2]);
        }
    }
    lemma_dotted_len(front, rest);
    assert(text.take(front.len() as int) =~= front);
    assert(front =~= a.push('.') + (b.push('.') + c));
    split_first_piece(a, b.push('.') + c, '.');
    split_first_piece(b, c, '.');
    split_of_one_piece(c, '.');
    assert(split(front, '.') =~= seq![a, b, c]);
    let short = a + seq!['.'] + b;
    let less = short + rest;
    assert forall|i: int| 0 <= i < short.len() implies #[trigger] short[i] == '.' || '0' <= short[i]
        <= '9' by {
        if i < a.len() {
            assert(short[i] == a[i]);
        } else if i > a.len() {
            assert(short[i] == b[i - a.len() - 1]);
        }
    }
    lemma_dotted_len(short, rest);
    assert(less.take(short.len() as int) =~= short);
    assert(short =~= a.push('.') + b);
    split_first_piece(a, b, '.');
    split_of_one_piece(b, '.');
    assert(split(short, '.') =~= seq![a, b]);
    assert(decimal(version.major as int) + seq!['.'] + decimal(version.minor as int) + seq!['.']
        + decimal(version.patch as int) + rest =~= text);
}

} // verus!
