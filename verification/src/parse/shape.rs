//! The shapes of contents on which the parsers of `procfs_core` are defined.
//!
//! Some of those parsers cut texts at fixed distances, or count words and multiply numbers without
//! looking whether they can. The functions here tell the contents on which that goes well.
use vstd::prelude::*;
use vstd::string::*;
use vstd::utf8::{decode_utf8, encode_utf8, is_char_boundary, valid_utf8};

use crate::bytes::{copied, copy_range};
use crate::number::{read_unsigned, unsigned_int, within};
use crate::text::{
    byte_pieces, chars_of, index_of, is_space, is_whitespace, lossy, split, string_of, text_of,
    trim, trim_range, utf8_text, word_ranges, words,
};

verus! {

/// The byte that ends a line.
pub const NEWLINE: u8 = 10;

/// The lines of the contents of a file.
pub open spec fn lines(content: Seq<u8>) -> Seq<Seq<u8>> {
    let pieces = split(content, NEWLINE);
    if pieces.last().len() == 0 {
        pieces.drop_last()
    } else {
        pieces
    }
}

/// The texts of the lines before the first that is not a text.
pub open spec fn texts_of(lines: Seq<Seq<u8>>) -> Seq<Seq<char>>
    decreases lines.len(),
{
    if lines.len() == 0 || !valid_utf8(lines[0]) {
        seq![]
    } else {
        seq![decode_utf8(lines[0])] + texts_of(lines.drop_first())
    }
}

/// The lines that a parser gets to see which passes over the first `skipped` of them and stops at
/// one that is not a text.
pub open spec fn text_lines(content: Seq<u8>, skipped: nat) -> Seq<Seq<char>> {
    if lines(content).len() <= skipped {
        seq![]
    } else {
        texts_of(lines(content).skip(skipped as int))
    }
}

/// The lines that a parser gets to see which passes over the first `skipped` of them.
fn lines_seen(content: &Vec<u8>, skipped: usize) -> (r: Vec<Vec<char>>)
    ensures
        r@.len() == text_lines(content@, skipped as nat).len(),
        forall|i: int|
            0 <= i < r@.len() ==> (#[trigger] r@[i])@ == text_lines(content@, skipped as nat)[i],
{
    let pieces = byte_pieces(content, NEWLINE);
    let ghost all = lines(content@);
    proof {
        crate::text::pieces_lack_the_separator(content@, NEWLINE);
    }
    let mut count: usize = pieces.len();
    let (from, to) = pieces[count - 1];
    assert(split(content@, NEWLINE).last().len() == to - from);
    if from == to {
        count = count - 1;
    }
    assert(count == all.len());
    let mut r: Vec<Vec<char>> = Vec::new();
    if count <= skipped {
        return r;
    }
    let ghost mut seen: Seq<Seq<char>> = seq![];
    let ghost wanted = text_lines(content@, skipped as nat);
    let mut i: usize = skipped;
    assert(wanted == seen + texts_of(all.skip(i as int)));
    while i < count
        invariant_except_break
            wanted == seen + texts_of(all.skip(i as int)),
        invariant
            skipped <= i <= count == all.len(),
            count <= pieces@.len(),
            all == lines(content@),
            forall|k: int| #![trigger pieces@[k]]
                0 <= k < pieces@.len() ==> {
                    &&& pieces@[k].0 <= pieces@[k].1 <= content@.len()
                    &&& content@.subrange(pieces@[k].0 as int, pieces@[k].1 as int) == split(
                        content@,
                        NEWLINE,
                    )[k]
                },
            r@.len() == seen.len(),
            forall|k: int| 0 <= k < r@.len() ==> (#[trigger] r@[k])@ == seen[k],
        ensures
            wanted == seen,
        decreases count - i,
    {
        let (from, to) = pieces[i];
        let line = copy_range(content, from, to);
        assert(line@ == all[i as int]);
        assert(all.skip(i as int)[0] == line@);
        match utf8_text(&line) {
            Some(text) => {
                r.push(chars_of(text.as_str()));
                proof {
                    assert(all.skip(i as int).drop_first() == all.skip(i + 1));
                    seen = seen.push(text@);
                    assert(wanted =~= seen + texts_of(all.skip(i + 1)));
                }
            },
            None => {
                assert(wanted =~= seen);
                break;
            },
        }
        i = i + 1;
    }
    r
}

/// Tells whether the text begins with `prefix`.
pub open spec fn begins_with(s: Seq<char>, prefix: Seq<char>) -> bool {
    s.len() >= prefix.len() && s.take(prefix.len() as int) == prefix
}

/// Decides whether `chars[from..to]` begins with `prefix`.
fn range_begins_with(chars: &Vec<char>, from: usize, to: usize, prefix: &str) -> (r: bool)
    requires
        from <= to <= chars@.len(),
    ensures
        r == begins_with(chars@.subrange(from as int, to as int), prefix@),
{
    let wanted = chars_of(prefix);
    let ghost s = chars@.subrange(from as int, to as int);
    if to - from < wanted.len() {
        return false;
    }
    let mut i: usize = 0;
    while i < wanted.len()
        invariant
            i <= wanted@.len() <= to - from,
            from <= to <= chars@.len(),
            s == chars@.subrange(from as int, to as int),
            wanted@ == prefix@,
            forall|k: int| 0 <= k < i ==> s[k] == wanted@[k],
        decreases wanted@.len() - i,
    {
        assert(s[i as int] == chars@[from + i]);
        if chars[from + i] != wanted[i] {
            assert(s.take(wanted@.len() as int)[i as int] != wanted@[i as int]);
            return false;
        }
        i = i + 1;
    }
    assert(s.take(wanted@.len() as int) == wanted@);
    true
}

/// Tells whether the text can be cut after that many of its bytes.
pub open spec fn can_cut(s: Seq<char>, at: int) -> bool {
    is_char_boundary(encode_utf8(s), at)
}

/// Decides whether `chars[from..to]` can be cut after that many of its bytes.
fn range_can_cut(chars: &Vec<char>, from: usize, to: usize, at: usize) -> (r: bool)
    requires
        from <= to <= chars@.len(),
    ensures
        r == can_cut(chars@.subrange(from as int, to as int), at as int),
{
    let text = string_of(chars, from, to);
    text.as_str().is_char_boundary(at)
}

/// Tells whether a character is encoded in one byte.
pub open spec fn is_one_byte(c: char) -> bool {
    (c as u32) < 128
}

/// The position of the last `c` in `s`, or -1.
pub open spec fn last_index_of(s: Seq<char>, c: char) -> int
    decreases s.len(),
{
    if s.len() == 0 {
        -1
    } else if s.last() == c {
        s.len() - 1
    } else {
        last_index_of(s.drop_last(), c)
    }
}

/// Tells whether a text has the shape `.. (..) ..`, so that it can be cut in front of the space
/// before the first `(` and behind the space after the last `)`; a text without one of the two
/// parentheses is not cut.
pub open spec fn framed(s: Seq<char>) -> bool {
    let open = index_of(s, '(') as int;
    let close = last_index_of(s, ')');
    open >= s.len() || close < 0 || {
        &&& 1 <= open < close
        &&& close + 1 < s.len()
        &&& is_one_byte(s[open - 1])
        &&& is_one_byte(s[close + 1])
    }
}

/// Tells whether the contents of a `stat` file are framed as [`framed`] says.
pub open spec fn stat_shape(content: Seq<u8>) -> bool {
    framed(trim(text_of(content)))
}

/// Decides whether the contents of a `stat` file are framed.
pub fn stat_fits(content: &Vec<u8>) -> (r: bool)
    ensures
        r == stat_shape(content@),
{
    let text = lossy(content);
    let all = chars_of(text.as_str());
    assert(all@ == text_of(content@));
    let (from, to) = trim_range(&all);
    let ghost s = all@.subrange(from as int, to as int);
    let mut open: usize = from;
    while open < to && all[open] != '('
        invariant
            from <= open <= to <= all@.len(),
            s == all@.subrange(from as int, to as int),
            forall|k: int| 0 <= k < open - from ==> s[k] != '(',
        decreases to - open,
    {
        assert(s[open - from] == all@[open as int]);
        open = open + 1;
    }
    proof {
        if open < to {
            assert(s[open - from] == all@[open as int]);
        }
        crate::text::lemma_index_of_is(s, '(', open - from);
    }
    if open == to {
        return true;
    }
    let mut end: usize = to;
    assert(s.take(end - from) == s);
    while end > from && all[end - 1] != ')'
        invariant
            from <= end <= to <= all@.len(),
            s == all@.subrange(from as int, to as int),
            last_index_of(s, ')') == last_index_of(s.take(end - from), ')'),
        decreases end,
    {
        assert(s.take(end - from).last() == all@[end - 1]);
        assert(s.take(end - from).drop_last() == s.take(end - from - 1));
        end = end - 1;
    }
    if end == from {
        return true;
    }
    assert(s.take(end - from).last() == all@[end - 1]);
    let close: usize = end - 1;
    assert(last_index_of(s, ')') == close - from);
    if open == from || close <= open || close + 1 >= to {
        return false;
    }
    assert(s[open - from - 1] == all@[open - 1]);
    assert(s[close - from + 1] == all@[close + 1]);
    (all[open - 1] as u32) < 128 && (all[close + 1] as u32) < 128
}

/// Tells whether a line of an `io` file holds a number: it has a space in it, and its second word
/// is a number.
pub open spec fn io_number(s: Seq<char>) -> bool {
    s.contains(' ') && words(s).len() >= 2 && within(
        unsigned_int(words(s)[1], 10),
        0,
        u64::MAX as int,
    ) is Some
}

/// Tells whether a line of an `io` file is either passed over or counted. Any other is rejected,
/// and the file with it.
pub open spec fn io_line_counts(s: Seq<char>) -> bool {
    !s.contains(' ') || io_number(s)
}

/// Tells whether the first word of a line of an `io` file, which loses its last byte, ends in a
/// character of one byte, if a number follows it.
pub open spec fn io_line(s: Seq<char>) -> bool {
    io_number(s) ==> is_one_byte(words(s)[0].last())
}

/// Tells whether every line of an `io` file before the first that is rejected, and this one, has
/// the shape that [`io_line`] tells.
pub open spec fn io_shape(content: Seq<u8>) -> bool {
    forall|i: int|
        0 <= i < text_lines(content, 0).len() && (forall|k: int|
            0 <= k < i ==> io_line_counts(#[trigger] text_lines(content, 0)[k])) ==> io_line(
            #[trigger] text_lines(content, 0)[i],
        )
}

/// Decides whether a text has a space in it.
fn has_space(chars: &Vec<char>) -> (r: bool)
    ensures
        r == chars@.contains(' '),
{
    let mut i: usize = 0;
    while i < chars.len()
        invariant
            i <= chars@.len(),
            forall|k: int| 0 <= k < i ==> chars@[k] != ' ',
        decreases chars@.len() - i,
    {
        if chars[i] == ' ' {
            assert(chars@[i as int] == ' ');
            return true;
        }
        i = i + 1;
    }
    false
}

/// Decides whether a line of an `io` file holds a number.
fn io_has_number(chars: &Vec<char>) -> (r: bool)
    ensures
        r == io_number(chars@),
{
    let found = word_ranges(chars);
    if !has_space(chars) || found.len() < 2 {
        return false;
    }
    let (from, to) = found[1];
    read_unsigned(chars, from, to, 10, u64::MAX).is_some()
}

/// Decides whether a line of an `io` file is either passed over or counted.
fn io_line_is_counted(chars: &Vec<char>) -> (r: bool)
    ensures
        r == io_line_counts(chars@),
{
    !has_space(chars) || io_has_number(chars)
}

/// Decides whether a line of an `io` file has its shape.
fn io_line_fits(chars: &Vec<char>) -> (r: bool)
    ensures
        r == io_line(chars@),
{
    if !io_has_number(chars) {
        return true;
    }
    let found = word_ranges(chars);
    let (start, end) = found[0];
    proof {
        lemma_words_are_not_empty(chars@);
    }
    assert(words(chars@)[0].last() == chars@[end - 1]);
    (chars[end - 1] as u32) < 128
}

proof fn lemma_words_are_not_empty(s: Seq<char>)
    ensures
        forall|i: int| 0 <= i < words(s).len() ==> (#[trigger] words(s)[i]).len() > 0,
    decreases s.len(),
{
    if s.len() > 0 {
        if crate::text::is_space(s[0]) {
            lemma_words_are_not_empty(s.drop_first());
            assert(words(s) == words(s.drop_first()));
        } else {
            let n = crate::text::word_len(s) as int;
            crate::text::lemma_word_len(s);
            let rest = words(s.skip(n));
            lemma_words_are_not_empty(s.skip(n));
            assert(words(s) == seq![s.take(n)] + rest);
            assert forall|i: int| 0 <= i < words(s).len() implies (#[trigger] words(s)[i]).len()
                > 0 by {
                if i > 0 {
                    assert(words(s)[i] == rest[i - 1]);
                }
            }
        }
    }
}

/// Decides whether every line of an `io` file has its shape.
pub fn io_fits(content: &Vec<u8>) -> (r: bool)
    ensures
        r == io_shape(content@),
{
    let found = lines_seen(content, 0);
    let ghost texts = text_lines(content@, 0);
    let mut i: usize = 0;
    while i < found.len()
        invariant
            i <= found@.len() == texts.len(),
            texts == text_lines(content@, 0),
            forall|k: int| 0 <= k < found@.len() ==> (#[trigger] found@[k])@ == texts[k],
            forall|k: int| 0 <= k < i ==> io_line_counts(#[trigger] texts[k]) && io_line(texts[k]),
        decreases found@.len() - i,
    {
        let chars = &found[i];
        assert(chars@ == texts[i as int]);
        if !io_line_fits(chars) {
            return false;
        }
        if !io_line_is_counted(chars) {
            assert(!io_line_counts(texts[i as int]));
            return true;
        }
        i = i + 1;
    }
    true
}

/// The text behind the first `n` spaces; nothing if there are fewer of them.
pub open spec fn behind_spaces(s: Seq<char>, n: nat) -> Seq<char>
    decreases n,
{
    if n == 0 {
        s
    } else if index_of(s, ' ') >= s.len() {
        seq![]
    } else {
        behind_spaces(s.skip(index_of(s, ' ') as int + 1), (n - 1) as nat)
    }
}

/// Tells whether the path of a memory map can be cut where it is: the eight hexadecimal digits
/// after `/SYSV` are taken out, and the last byte of what begins with `[stack:` is taken off.
pub open spec fn map_path(s: Seq<char>) -> bool {
    &&& begins_with(s, "/SYSV"@) ==> can_cut(s, 13)
    &&& begins_with(s, "[stack:"@) ==> can_cut(s, encode_utf8(s).len() - 1)
}

/// `c`, unless it is white space outside ASCII, which then stands for a letter.
pub open spec fn ascii_spaced(c: char) -> char {
    if is_space(c) && c != ' ' && c != '\t' && c != '\n' && c != '\r' && c != '\u{c}' {
        'x'
    } else {
        c
    }
}

/// The words of a text between which ASCII white space stands; other white space in a word is
/// replaced by a letter.
pub open spec fn ascii_words(s: Seq<char>) -> Seq<Seq<char>> {
    words(s.map_values(|c: char| ascii_spaced(c)))
}

/// Tells whether the number in the text, if it has a unit, is small enough for a number of
/// kibibytes.
pub open spec fn small_number(s: Seq<char>) -> bool {
    ascii_words(s).len() >= 3 ==> match within(
        unsigned_int(ascii_words(s)[1], 10),
        0,
        u64::MAX as int,
    ) {
        Some(n) => n * 1024 <= u64::MAX,
        None => true,
    }
}

/// Tells whether a line of a `maps` or `smaps` file can be read: either it begins with a capital
/// letter, and holds the flags or a small number, or its sixth field is a path that can be cut.
pub open spec fn maps_line(s: Seq<char>) -> bool {
    if s.len() > 0 && 'A' <= s[0] <= 'Z' {
        begins_with(s, "VmFlags"@) || small_number(s)
    } else {
        map_path(trim(behind_spaces(s, 5)))
    }
}

/// Tells whether every line of a `maps` or `smaps` file has the shape that [`maps_line`] tells.
pub open spec fn maps_shape(content: Seq<u8>) -> bool {
    forall|i: int|
        0 <= i < text_lines(content, 0).len() ==> maps_line(#[trigger] text_lines(content, 0)[i])
}

/// The text in which white space outside ASCII is replaced by a letter.
fn with_ascii_spaces(chars: &Vec<char>) -> (r: Vec<char>)
    ensures
        r@ == chars@.map_values(|c: char| ascii_spaced(c)),
{
    let mut r: Vec<char> = Vec::new();
    let mut i: usize = 0;
    while i < chars.len()
        invariant
            i <= chars@.len(),
            r@.len() == i,
            forall|k: int| 0 <= k < i ==> r@[k] == ascii_spaced(chars@[k]),
        decreases chars@.len() - i,
    {
        let c = chars[i];
        if is_whitespace(c) && c != ' ' && c != '\t' && c != '\n' && c != '\r' && c != '\u{c}' {
            r.push('x');
        } else {
            r.push(c);
        }
        i = i + 1;
    }
    assert(r@ =~= chars@.map_values(|c: char| ascii_spaced(c)));
    r
}

/// Decides whether the number in the text is small enough, if it has a unit.
fn has_small_number(chars: &Vec<char>) -> (r: bool)
    ensures
        r == small_number(chars@),
{
    let plain = with_ascii_spaces(chars);
    let found = word_ranges(&plain);
    if found.len() < 3 {
        return true;
    }
    let (from, to) = found[1];
    match read_unsigned(&plain, from, to, 10, u64::MAX) {
        Some(n) => n <= u64::MAX / 1024,
        None => true,
    }
}

/// Where the text behind the first five spaces begins.
fn behind_five_spaces(chars: &Vec<char>) -> (r: usize)
    ensures
        r <= chars@.len(),
        chars@.skip(r as int) == behind_spaces(chars@, 5),
{
    let len: usize = chars.len();
    let mut left: usize = 5;
    let mut at: usize = 0;
    assert(chars@.skip(0) == chars@);
    while left > 0
        invariant
            left <= 5,
            at <= len == chars@.len(),
            behind_spaces(chars@.skip(at as int), left as nat) == behind_spaces(chars@, 5),
        decreases left,
    {
        let ghost rest = chars@.skip(at as int);
        let mut next: usize = at;
        while next < len && chars[next] != ' '
            invariant
                at <= next <= len == chars@.len(),
                rest == chars@.skip(at as int),
                forall|k: int| 0 <= k < next - at ==> rest[k] != ' ',
            decreases len - next,
        {
            assert(rest[next - at] == chars@[next as int]);
            next = next + 1;
        }
        proof {
            if next < len {
                assert(rest[next - at] == chars@[next as int]);
            }
            crate::text::lemma_index_of_is(rest, ' ', next - at);
        }
        if next == len {
            assert(chars@.skip(len as int) == Seq::<char>::empty());
            return len;
        }
        assert(rest.skip(next - at + 1) == chars@.skip(next + 1));
        at = next + 1;
        left = left - 1;
    }
    at
}

/// Decides whether a line of a `maps` or `smaps` file has its shape.
fn maps_line_fits(chars: &Vec<char>) -> (r: bool)
    ensures
        r == maps_line(chars@),
{
    if chars.len() > 0 && 'A' <= chars[0] && chars[0] <= 'Z' {
        assert(chars@.subrange(0, chars@.len() as int) == chars@);
        range_begins_with(chars, 0, chars.len(), "VmFlags") || has_small_number(chars)
    } else {
        let at = behind_five_spaces(chars);
        let field = string_of(chars, at, chars.len());
        assert(field@ == chars@.skip(at as int));
        let rest = chars_of(field.as_str());
        let (from, to) = trim_range(&rest);
        let path = string_of(&rest, from, to);
        let bytes: &[u8] = path.as_str().as_bytes();
        let count: usize = bytes.len();
        let ghost s = trim(behind_spaces(chars@, 5));
        assert(path@ == s);
        if range_begins_with(&rest, from, to, "/SYSV") && !range_can_cut(&rest, from, to, 13) {
            return false;
        }
        if range_begins_with(&rest, from, to, "[stack:") {
            proof {
                lemma_encoding_is_not_shorter(s);
                reveal_strlit("[stack:");
            }
            return range_can_cut(&rest, from, to, count - 1);
        }
        true
    }
}

/// A text has no more characters than bytes.
pub proof fn lemma_encoding_is_not_shorter(s: Seq<char>)
    ensures
        encode_utf8(s).len() >= s.len(),
    decreases s.len(),
{
    if s.len() > 0 {
        lemma_encoding_is_not_shorter(s.drop_first());
    }
}

/// Decides whether every line of a `maps` or `smaps` file has its shape.
pub fn maps_fit(content: &Vec<u8>) -> (r: bool)
    ensures
        r == maps_shape(content@),
{
    let found = lines_seen(content, 0);
    let ghost texts = text_lines(content@, 0);
    let mut i: usize = 0;
    while i < found.len()
        invariant
            i <= found@.len() == texts.len(),
            texts == text_lines(content@, 0),
            forall|k: int| 0 <= k < found@.len() ==> (#[trigger] found@[k])@ == texts[k],
            forall|k: int| 0 <= k < i ==> maps_line(#[trigger] texts[k]),
        decreases found@.len() - i,
    {
        assert(found@[i as int]@ == texts[i as int]);
        if !maps_line_fits(&found[i]) {
            return false;
        }
        i = i + 1;
    }
    true
}

/// Tells whether a line of a `limits` file is the heading or has at least three words.
pub open spec fn limits_line(s: Seq<char>) -> bool {
    begins_with(trim(s), "Limit"@) || words(s).len() >= 3
}

/// Tells whether every line of a `limits` file has the shape that [`limits_line`] tells.
pub open spec fn limits_shape(content: Seq<u8>) -> bool {
    forall|i: int|
        0 <= i < text_lines(content, 0).len() ==> limits_line(#[trigger] text_lines(content, 0)[i])
}

/// Decides whether a line of a `limits` file has its shape.
fn limits_line_fits(chars: &Vec<char>) -> (r: bool)
    ensures
        r == limits_line(chars@),
{
    let (from, to) = trim_range(chars);
    range_begins_with(chars, from, to, "Limit") || word_ranges(chars).len() >= 3
}

/// Decides whether every line of a `limits` file has its shape.
pub fn limits_fit(content: &Vec<u8>) -> (r: bool)
    ensures
        r == limits_shape(content@),
{
    let found = lines_seen(content, 0);
    let ghost texts = text_lines(content@, 0);
    let mut i: usize = 0;
    while i < found.len()
        invariant
            i <= found@.len() == texts.len(),
            texts == text_lines(content@, 0),
            forall|k: int| 0 <= k < found@.len() ==> (#[trigger] found@[k])@ == texts[k],
            forall|k: int| 0 <= k < i ==> limits_line(#[trigger] texts[k]),
        decreases found@.len() - i,
    {
        assert(found@[i as int]@ == texts[i as int]);
        if !limits_line_fits(&found[i]) {
            return false;
        }
        i = i + 1;
    }
    true
}

/// Tells whether the second and the third word of a line of an `arp` file, which lose their first
/// two bytes, can be cut there.
pub open spec fn arp_line(s: Seq<char>) -> bool {
    &&& words(s).len() >= 2 ==> can_cut(words(s)[1], 2)
    &&& words(s).len() >= 3 ==> can_cut(words(s)[2], 2)
}

/// Tells whether every line of an `arp` file but the heading has the shape that [`arp_line`] tells.
pub open spec fn arp_shape(content: Seq<u8>) -> bool {
    forall|i: int|
        0 <= i < text_lines(content, 1).len() ==> arp_line(#[trigger] text_lines(content, 1)[i])
}

/// Decides whether a line of an `arp` file has its shape.
fn arp_line_fits(chars: &Vec<char>) -> (r: bool)
    ensures
        r == arp_line(chars@),
{
    let found = word_ranges(chars);
    if found.len() >= 2 {
        let (from, to) = found[1];
        if !range_can_cut(chars, from, to, 2) {
            return false;
        }
    }
    if found.len() >= 3 {
        let (from, to) = found[2];
        if !range_can_cut(chars, from, to, 2) {
            return false;
        }
    }
    true
}

/// Decides whether every line of an `arp` file but the heading has its shape.
pub fn arp_fits(content: &Vec<u8>) -> (r: bool)
    ensures
        r == arp_shape(content@),
{
    let found = lines_seen(content, 1);
    let ghost texts = text_lines(content@, 1);
    let mut i: usize = 0;
    while i < found.len()
        invariant
            i <= found@.len() == texts.len(),
            texts == text_lines(content@, 1),
            forall|k: int| 0 <= k < found@.len() ==> (#[trigger] found@[k])@ == texts[k],
            forall|k: int| 0 <= k < i ==> arp_line(#[trigger] texts[k]),
        decreases found@.len() - i,
    {
        assert(found@[i as int]@ == texts[i as int]);
        if !arp_line_fits(&found[i]) {
            return false;
        }
        i = i + 1;
    }
    true
}

/// The lines, each with a line feed behind it.
pub open spec fn with_line_feeds(lines: Seq<Seq<char>>) -> Seq<char>
    decreases lines.len(),
{
    if lines.len() == 0 {
        seq![]
    } else {
        with_line_feeds(lines.drop_last()) + lines.last() + seq!['\n']
    }
}

/// The number of lines before the first that does not fit.
pub open spec fn fitting_lines(lines: Seq<Seq<char>>, fits: spec_fn(Seq<char>) -> bool) -> nat
    decreases lines.len(),
{
    if lines.len() == 0 || !fits(lines[0]) {
        0
    } else {
        1 + fitting_lines(lines.drop_first(), fits)
    }
}

/// The lines before the first that does not fit are those that fit.
pub proof fn lemma_fitting_lines(lines: Seq<Seq<char>>, fits: spec_fn(Seq<char>) -> bool, n: int)
    requires
        0 <= n < lines.len(),
        !fits(lines[n]),
        forall|k: int| 0 <= k < n ==> fits(#[trigger] lines[k]),
    ensures
        fitting_lines(lines, fits) == n,
    decreases n,
{
    if n > 0 {
        let rest = lines.drop_first();
        assert(fits(lines[0]));
        assert(rest[n - 1] == lines[n]);
        assert forall|k: int| 0 <= k < n - 1 implies fits(#[trigger] rest[k]) by {
            assert(fits(lines[k + 1]));
        }
        lemma_fitting_lines(rest, fits, n - 1);
    }
}

/// Appends `chars[from..to]` to a text.
fn append_range(text: &mut String, chars: &Vec<char>, from: usize, to: usize)
    requires
        from <= to <= chars@.len(),
    ensures
        final(text)@ == old(text)@ + chars@.subrange(from as int, to as int),
{
    let ghost before = text@;
    let mut i: usize = from;
    assert(text@ == before + chars@.subrange(from as int, i as int));
    while i < to
        invariant
            from <= i <= to <= chars@.len(),
            text@ == before + chars@.subrange(from as int, i as int),
        decreases to - i,
    {
        text.push(chars[i]);
        i = i + 1;
        assert(text@ =~= before + chars@.subrange(from as int, i as int));
    }
}

/// A line of a `maps` or `smaps` file, cut short in front of what does not fit: of a line that
/// begins with a capital letter the letter remains, of any other the first five fields.
pub open spec fn maps_line_start(s: Seq<char>) -> Seq<char> {
    if s.len() > 0 && 'A' <= s[0] <= 'Z' {
        s.take(1)
    } else {
        s.take(s.len() - behind_spaces(s, 5).len())
    }
}

/// The contents of a `maps` or `smaps` file up to where they do not fit. The parser gets that far
/// exactly if it does not reject what is in front.
pub open spec fn maps_start(content: Seq<u8>) -> Seq<u8> {
    let seen = text_lines(content, 0);
    let n = fitting_lines(seen, |s: Seq<char>| maps_line(s)) as int;
    encode_utf8(with_line_feeds(seen.take(n)) + maps_line_start(seen[n]))
}

/// Cuts the contents of a `maps` or `smaps` file short where they do not fit.
pub fn maps_cut_short(content: &Vec<u8>) -> (r: Vec<u8>)
    requires
        !maps_shape(content@),
    ensures
        r@ == maps_start(content@),
{
    let found = lines_seen(content, 0);
    let ghost seen = text_lines(content@, 0);
    let ghost fits = |s: Seq<char>| maps_line(s);
    let mut text = String::new();
    let mut i: usize = 0;
    assert(text@ == with_line_feeds(seen.take(0)));
    while i < found.len()
        invariant
            i <= found@.len() == seen.len(),
            seen == text_lines(content@, 0),
            fits == (|s: Seq<char>| maps_line(s)),
            forall|k: int| 0 <= k < found@.len() ==> (#[trigger] found@[k])@ == seen[k],
            forall|k: int| 0 <= k < i ==> maps_line(#[trigger] seen[k]),
            text@ == with_line_feeds(seen.take(i as int)),
        decreases found@.len() - i,
    {
        let chars = &found[i];
        let len: usize = chars.len();
        assert(chars@ == seen[i as int]);
        if !maps_line_fits(chars) {
            proof {
                assert forall|k: int| 0 <= k < i implies fits(#[trigger] seen[k]) by {
                    assert(maps_line(seen[k]));
                }
                lemma_fitting_lines(seen, fits, i as int);
            }
            let until: usize = if len > 0 && 'A' <= chars[0] && chars[0] <= 'Z' {
                1
            } else {
                behind_five_spaces(chars)
            };
            append_range(&mut text, chars, 0, until);
            assert(chars@.subrange(0, until as int) == maps_line_start(chars@));
            return copied(text.as_str().as_bytes());
        }
        append_range(&mut text, chars, 0, len);
        text.push('\n');
        proof {
            assert(chars@.subrange(0, len as int) == chars@);
            let more = seen.take(i + 1);
            assert(more.drop_last() == seen.take(i as int));
            assert(text@ =~= with_line_feeds(more));
        }
        i = i + 1;
    }
    proof {
        assert forall|k: int| 0 <= k < seen.len() implies maps_line(#[trigger] seen[k]) by {}
    }
    Vec::new()
}

/// A line of an `arp` file, with its words from the first that does not fit on replaced by words
/// that do.
pub open spec fn arp_line_start(s: Seq<char>) -> Seq<char> {
    if !can_cut(words(s)[1], 2) {
        words(s)[0] + " 0x0 0x0 * * *"@
    } else {
        words(s)[0] + seq![' '] + words(s)[1] + " 0x0 * * *"@
    }
}

/// The contents of an `arp` file up to where they do not fit, with an empty heading. The parser
/// gets that far exactly if it does not reject what is in front.
pub open spec fn arp_start(content: Seq<u8>) -> Seq<u8> {
    let seen = text_lines(content, 1);
    let n = fitting_lines(seen, |s: Seq<char>| arp_line(s)) as int;
    encode_utf8(seq!['\n'] + with_line_feeds(seen.take(n)) + arp_line_start(seen[n]))
}

/// Cuts the contents of an `arp` file short where they do not fit.
pub fn arp_cut_short(content: &Vec<u8>) -> (r: Vec<u8>)
    requires
        !arp_shape(content@),
    ensures
        r@ == arp_start(content@),
{
    let found = lines_seen(content, 1);
    let ghost seen = text_lines(content@, 1);
    let ghost fits = |s: Seq<char>| arp_line(s);
    let mut text = String::new();
    text.push('\n');
    let mut i: usize = 0;
    assert(text@ =~= seq!['\n'] + with_line_feeds(seen.take(0)));
    while i < found.len()
        invariant
            i <= found@.len() == seen.len(),
            seen == text_lines(content@, 1),
            fits == (|s: Seq<char>| arp_line(s)),
            forall|k: int| 0 <= k < found@.len() ==> (#[trigger] found@[k])@ == seen[k],
            forall|k: int| 0 <= k < i ==> arp_line(#[trigger] seen[k]),
            text@ == seq!['\n'] + with_line_feeds(seen.take(i as int)),
        decreases found@.len() - i,
    {
        let chars = &found[i];
        let len: usize = chars.len();
        assert(chars@ == seen[i as int]);
        if !arp_line_fits(chars) {
            proof {
                assert forall|k: int| 0 <= k < i implies fits(#[trigger] seen[k]) by {
                    assert(arp_line(seen[k]));
                }
                lemma_fitting_lines(seen, fits, i as int);
            }
            let ghost before = text@;
            let ranges = word_ranges(chars);
            let (from, to) = ranges[0];
            let (second_from, second_to) = ranges[1];
            append_range(&mut text, chars, from, to);
            if !range_can_cut(chars, second_from, second_to, 2) {
                let rest = chars_of(" 0x0 0x0 * * *");
                append_range(&mut text, &rest, 0, rest.len());
                assert(rest@.subrange(0, rest@.len() as int) == rest@);
            } else {
                let rest = chars_of(" 0x0 * * *");
                text.push(' ');
                append_range(&mut text, chars, second_from, second_to);
                append_range(&mut text, &rest, 0, rest.len());
                assert(rest@.subrange(0, rest@.len() as int) == rest@);
            }
            assert(text@ =~= before + arp_line_start(chars@));
            return copied(text.as_str().as_bytes());
        }
        append_range(&mut text, chars, 0, len);
        text.push('\n');
        proof {
            assert(chars@.subrange(0, len as int) == chars@);
            let more = seen.take(i + 1);
            assert(more.drop_last() == seen.take(i as int));
            assert(text@ =~= seq!['\n'] + with_line_feeds(more));
        }
        i = i + 1;
    }
    proof {
        assert forall|k: int| 0 <= k < seen.len() implies arp_line(#[trigger] seen[k]) by {}
    }
    Vec::new()
}

} // verus!
