//! Text as sequences of characters: white space, splitting, and numbers.
use vstd::prelude::*;
use vstd::utf8::{decode_utf8, encode_utf8, valid_utf8};

verus! {

/// The characters with the Unicode property `White_Space`.
pub open spec fn is_space(c: char) -> bool {
    ||| '\u{9}' <= c <= '\u{d}'
    ||| c == ' '
    ||| c == '\u{85}'
    ||| c == '\u{a0}'
    ||| c == '\u{1680}'
    ||| '\u{2000}' <= c <= '\u{200a}'
    ||| c == '\u{2028}'
    ||| c == '\u{2029}'
    ||| c == '\u{202f}'
    ||| c == '\u{205f}'
    ||| c == '\u{3000}'
}

/// Tells whether `c` is white space.
pub fn is_whitespace(c: char) -> (r: bool)
    ensures
        r == is_space(c),
{
    ('\u{9}' <= c && c <= '\u{d}') || c == ' ' || c == '\u{85}' || c == '\u{a0}' || c
        == '\u{1680}' || ('\u{2000}' <= c && c <= '\u{200a}') || c == '\u{2028}' || c == '\u{2029}'
        || c == '\u{202f}' || c == '\u{205f}' || c == '\u{3000}'
}

/// `std::string::String::push`: the character becomes the last one of the string.
pub assume_specification[ std::string::String::push ](s: &mut String, c: char)
    ensures
        final(s)@ == old(s)@.push(c),
;

/// The characters of `s`, in order.
pub fn chars_of(s: &str) -> (r: Vec<char>)
    ensures
        r@ == s@,
{
    let mut r: Vec<char> = Vec::new();
    for c in it: s.chars()
        invariant
            r@ == it.seq().take(it.index()),
    {
        r.push(c);
    }
    r
}

/// The string made of `chars[from..to]`.
pub fn string_of(chars: &Vec<char>, from: usize, to: usize) -> (r: String)
    requires
        from <= to <= chars@.len(),
    ensures
        r@ == chars@.subrange(from as int, to as int),
{
    let mut r = String::new();
    let mut i: usize = from;
    while i < to
        invariant
            from <= i <= to <= chars@.len(),
            r@ == chars@.subrange(from as int, i as int),
        decreases to - i,
    {
        r.push(chars[i]);
        i = i + 1;
    }
    r
}

/// `std::str::from_utf8`: bytes are a text exactly if they are valid UTF-8, and the text is then
/// what they encode.
#[verifier::external_body]
pub(crate) fn utf8_text(bytes: &[u8]) -> (r: Option<String>)
    ensures
        r is Some <==> valid_utf8(bytes@),
        r matches Some(text) ==> text@ == decode_utf8(bytes@),
{
    std::str::from_utf8(bytes).ok().map(String::from)
}

/// What `std::string::String::from_utf8_lossy` makes of bytes: the text in which what is not valid
/// UTF-8 is replaced.
pub uninterp spec fn lossy_text(bytes: Seq<u8>) -> Seq<char>;

/// `std::string::String::from_utf8_lossy`: its result is named. Valid UTF-8 is kept as it is.
#[verifier::external_body]
pub(crate) fn lossy(bytes: &[u8]) -> (r: String)
    ensures
        r@ == lossy_text(bytes@),
        valid_utf8(bytes@) ==> r@ == decode_utf8(bytes@),
{
    String::from_utf8_lossy(bytes).into_owned()
}

/// The text that bytes stand for; in bytes that are not valid UTF-8, what is not valid is replaced.
pub open spec fn text_of(bytes: Seq<u8>) -> Seq<char> {
    if valid_utf8(bytes) {
        decode_utf8(bytes)
    } else {
        lossy_text(bytes)
    }
}

/// The bytes of a text stand for that text.
pub proof fn bytes_stand_for_their_text(text: Seq<char>)
    ensures
        text_of(encode_utf8(text)) == text,
{
    vstd::utf8::encode_utf8_valid_utf8(text);
    vstd::utf8::encode_utf8_decode_utf8(text);
}

/// `s` without the white space at its start.
pub open spec fn trim_start(s: Seq<char>) -> Seq<char>
    decreases s.len(),
{
    if s.len() > 0 && is_space(s[0]) {
        trim_start(s.drop_first())
    } else {
        s
    }
}

/// `s` without the white space at its end.
pub open spec fn trim_end(s: Seq<char>) -> Seq<char>
    decreases s.len(),
{
    if s.len() > 0 && is_space(s.last()) {
        trim_end(s.drop_last())
    } else {
        s
    }
}

/// `s` without the white space at its start and at its end.
pub open spec fn trim(s: Seq<char>) -> Seq<char> {
    trim_end(trim_start(s))
}

/// Where the trimmed text lies: `chars[r.0..r.1]` is `chars` without the white space around it.
pub fn trim_range(chars: &Vec<char>) -> (r: (usize, usize))
    ensures
        r.0 <= r.1 <= chars@.len(),
        chars@.subrange(r.0 as int, r.1 as int) == trim(chars@),
{
    let len: usize = chars.len();
    let mut from: usize = 0;
    assert(chars@.skip(0) == chars@);
    while from < len && is_whitespace(chars[from])
        invariant
            from <= len == chars@.len(),
            trim_start(chars@.skip(from as int)) == trim_start(chars@),
        decreases len - from,
    {
        assert(chars@.skip(from as int).drop_first() == chars@.skip(from + 1));
        from = from + 1;
    }
    let mut to: usize = len;
    assert(chars@.subrange(from as int, to as int) == chars@.skip(from as int));
    while from < to && is_whitespace(chars[to - 1])
        invariant
            from <= to <= chars@.len(),
            trim_end(chars@.subrange(from as int, to as int)) == trim(chars@),
        decreases to,
    {
        assert(chars@.subrange(from as int, to as int).drop_last() == chars@.subrange(
            from as int,
            to - 1,
        ));
        to = to - 1;
    }
    (from, to)
}

/// The number of characters before the first white space of `s`.
pub open spec fn word_len(s: Seq<char>) -> nat
    decreases s.len(),
{
    if s.len() == 0 || is_space(s[0]) {
        0
    } else {
        1 + word_len(s.drop_first())
    }
}

/// A word is no longer than the text.
pub proof fn lemma_word_len(s: Seq<char>)
    ensures
        word_len(s) <= s.len(),
    decreases s.len(),
{
    if s.len() > 0 && !is_space(s[0]) {
        lemma_word_len(s.drop_first());
    }
}

/// The words of `s`: the longest runs of characters that are not white space.
pub open spec fn words(s: Seq<char>) -> Seq<Seq<char>>
    decreases s.len(),
    via words_decreases
{
    if s.len() == 0 {
        seq![]
    } else if is_space(s[0]) {
        words(s.drop_first())
    } else {
        seq![s.take(word_len(s) as int)] + words(s.skip(word_len(s) as int))
    }
}

#[via_fn]
proof fn words_decreases(s: Seq<char>) {
    lemma_word_len(s);
}

/// Where the words of the text lie.
pub fn word_ranges(chars: &Vec<char>) -> (r: Vec<(usize, usize)>)
    ensures
        r@.len() == words(chars@).len(),
        forall|i: int| #![trigger r@[i]]
            0 <= i < r@.len() ==> {
                &&& r@[i].0 <= r@[i].1 <= chars@.len()
                &&& chars@.subrange(r@[i].0 as int, r@[i].1 as int) == words(chars@)[i]
            },
{
    let len: usize = chars.len();
    let mut r: Vec<(usize, usize)> = Vec::new();
    let ghost mut found: Seq<Seq<char>> = seq![];
    let mut at: usize = 0;
    assert(chars@.skip(0) == chars@);
    while at < len
        invariant
            at <= len == chars@.len(),
            found + words(chars@.skip(at as int)) == words(chars@),
            found.len() == r@.len(),
            forall|i: int| #![trigger r@[i]]
                0 <= i < r@.len() ==> {
                    &&& r@[i].0 <= r@[i].1 <= chars@.len()
                    &&& chars@.subrange(r@[i].0 as int, r@[i].1 as int) == found[i]
                },
        decreases len - at,
    {
        let ghost rest = chars@.skip(at as int);
        if is_whitespace(chars[at]) {
            assert(rest.drop_first() == chars@.skip(at + 1));
            at = at + 1;
        } else {
            let mut end: usize = at;
            while end < len && !is_whitespace(chars[end])
                invariant
                    at <= end <= len == chars@.len(),
                    word_len(chars@.skip(at as int)) == (end - at) + word_len(
                        chars@.skip(end as int),
                    ),
                decreases len - end,
            {
                assert(chars@.skip(end as int).drop_first() == chars@.skip(end + 1));
                end = end + 1;
            }
            assert(word_len(rest) == end - at);
            assert(rest.take(end - at) == chars@.subrange(at as int, end as int));
            assert(rest.skip(end - at) == chars@.skip(end as int));
            r.push((at, end));
            proof {
                let next = words(chars@.skip(end as int));
                let word = rest.take(end - at);
                assert(found + (seq![word] + next) == found.push(word) + next);
                found = found.push(word);
            }
            at = end;
        }
    }
    assert(words(chars@.skip(len as int)) == Seq::<Seq<char>>::empty());
    assert(found == words(chars@));
    r
}

/// The position of the first `sep` in `s`, or the length of `s`.
pub open spec fn index_of<T>(s: Seq<T>, sep: T) -> nat
    decreases s.len(),
{
    if s.len() == 0 || s[0] == sep {
        0
    } else {
        1 + index_of(s.drop_first(), sep)
    }
}

/// What `index_of` finds: no `sep` stands before it, and one stands there if it is a position.
pub proof fn lemma_index_of<T>(s: Seq<T>, sep: T)
    ensures
        index_of(s, sep) <= s.len(),
        index_of(s, sep) < s.len() ==> s[index_of(s, sep) as int] == sep,
        forall|i: int| 0 <= i < index_of(s, sep) ==> s[i] != sep,
    decreases s.len(),
{
    if s.len() > 0 && s[0] != sep {
        let rest = s.drop_first();
        lemma_index_of(rest, sep);
        assert forall|i: int| 0 <= i < index_of(s, sep) implies s[i] != sep by {
            if i > 0 {
                assert(rest[i - 1] != sep);
            }
        }
    }
}

/// `index_of` is the only position with these properties.
pub proof fn lemma_index_of_is<T>(s: Seq<T>, sep: T, n: int)
    requires
        0 <= n <= s.len(),
        n < s.len() ==> s[n] == sep,
        forall|i: int| 0 <= i < n ==> s[i] != sep,
    ensures
        index_of(s, sep) == n,
{
    lemma_index_of(s, sep);
    let m = index_of(s, sep) as int;
    if m < n {
        assert(s[m] != sep);
    }
}

/// The pieces of `s` between the separators. There is one more of them than of the separators.
pub open spec fn split<T>(s: Seq<T>, sep: T) -> Seq<Seq<T>>
    decreases s.len(),
{
    let n = index_of(s, sep) as int;
    if n >= s.len() {
        seq![s]
    } else {
        seq![s.take(n)] + split(s.skip(n + 1), sep)
    }
}

/// Tells whether `sep` does not occur in `s`.
pub open spec fn lacks<T>(s: Seq<T>, sep: T) -> bool {
    forall|i: int| 0 <= i < s.len() ==> s[i] != sep
}

/// No piece holds a separator.
pub proof fn pieces_lack_the_separator<T>(s: Seq<T>, sep: T)
    ensures
        split(s, sep).len() > 0,
        forall|i: int| 0 <= i < split(s, sep).len() ==> lacks(#[trigger] split(s, sep)[i], sep),
    decreases s.len(),
{
    lemma_index_of(s, sep);
    let n = index_of(s, sep) as int;
    if n < s.len() {
        let rest = s.skip(n + 1);
        pieces_lack_the_separator(rest, sep);
        assert forall|i: int| 0 <= i < split(s, sep).len() implies lacks(
            #[trigger] split(s, sep)[i],
            sep,
        ) by {
            if i > 0 {
                assert(split(s, sep)[i] == split(rest, sep)[i - 1]);
            }
        }
    }
}

/// A piece that comes first in the text is the first of the pieces.
pub proof fn split_first_piece<T>(piece: Seq<T>, rest: Seq<T>, sep: T)
    requires
        lacks(piece, sep),
    ensures
        split(piece.push(sep) + rest, sep) == seq![piece] + split(rest, sep),
{
    let s = piece.push(sep) + rest;
    lemma_index_of_is(s, sep, piece.len() as int);
    assert(s.take(piece.len() as int) == piece);
    assert(s.skip(piece.len() as int + 1) == rest);
}

/// A piece that comes last in the text is the last of the pieces.
pub proof fn split_last_piece<T>(front: Seq<T>, piece: Seq<T>, sep: T)
    requires
        lacks(piece, sep),
    ensures
        split(front.push(sep) + piece, sep) == split(front, sep).push(piece),
    decreases front.len(),
{
    let s = front.push(sep) + piece;
    lemma_index_of(front, sep);
    let n = index_of(front, sep) as int;
    if n < front.len() {
        let head = front.take(n);
        let tail = front.skip(n + 1);
        split_last_piece(tail, piece, sep);
        assert(s == head.push(sep) + (tail.push(sep) + piece));
        split_first_piece(head, tail.push(sep) + piece, sep);
        assert(seq![head] + split(tail, sep).push(piece) == (seq![head] + split(tail, sep)).push(
            piece,
        ));
    } else {
        split_first_piece(front, piece, sep);
        lemma_index_of_is(piece, sep, piece.len() as int);
        assert(split(piece, sep) == seq![piece]);
        assert(seq![front] + seq![piece] == seq![front].push(piece));
    }
}

/// Where the pieces of the text between the separators lie.
pub fn char_pieces(chars: &Vec<char>, sep: char) -> (r: Vec<(usize, usize)>)
    ensures
        r@.len() == split(chars@, sep).len(),
        forall|i: int| #![trigger r@[i]]
            0 <= i < r@.len() ==> {
                &&& r@[i].0 <= r@[i].1 <= chars@.len()
                &&& chars@.subrange(r@[i].0 as int, r@[i].1 as int) == split(chars@, sep)[i]
            },
{
    let len: usize = chars.len();
    let mut r: Vec<(usize, usize)> = Vec::new();
    let ghost mut found: Seq<Seq<char>> = seq![];
    let mut start: usize = 0;
    let mut at: usize = 0;
    assert(chars@.skip(0) == chars@);
    assert(found + split(chars@, sep) == split(chars@, sep));
    while at < len
        invariant
            start <= at <= len == chars@.len(),
            forall|i: int| start <= i < at ==> chars@[i] != sep,
            found + split(chars@.skip(start as int), sep) == split(chars@, sep),
            found.len() == r@.len(),
            forall|i: int| #![trigger r@[i]]
                0 <= i < r@.len() ==> {
                    &&& r@[i].0 <= r@[i].1 <= chars@.len()
                    &&& chars@.subrange(r@[i].0 as int, r@[i].1 as int) == found[i]
                },
        decreases len - at,
    {
        if chars[at] == sep {
            let ghost rest = chars@.skip(start as int);
            proof {
                lemma_index_of_is(rest, sep, at - start);
                let piece = rest.take(at - start);
                assert(piece == chars@.subrange(start as int, at as int));
                assert(rest.skip(at - start + 1) == chars@.skip(at + 1));
                let next = split(chars@.skip(at + 1), sep);
                assert(found + (seq![piece] + next) == found.push(piece) + next);
                found = found.push(piece);
            }
            r.push((start, at));
            start = at + 1;
        }
        at = at + 1;
    }
    proof {
        let rest = chars@.skip(start as int);
        lemma_index_of_is(rest, sep, len - start);
        assert(rest == chars@.subrange(start as int, len as int));
        assert(found + seq![rest] == found.push(rest));
    }
    r.push((start, len));
    r
}

/// Where the pieces of the bytes between the separators lie.
pub fn byte_pieces(bytes: &Vec<u8>, sep: u8) -> (r: Vec<(usize, usize)>)
    ensures
        r@.len() == split(bytes@, sep).len(),
        forall|i: int| #![trigger r@[i]]
            0 <= i < r@.len() ==> {
                &&& r@[i].0 <= r@[i].1 <= bytes@.len()
                &&& bytes@.subrange(r@[i].0 as int, r@[i].1 as int) == split(bytes@, sep)[i]
            },
{
    let len: usize = bytes.len();
    let mut r: Vec<(usize, usize)> = Vec::new();
    let ghost mut found: Seq<Seq<u8>> = seq![];
    let mut start: usize = 0;
    let mut at: usize = 0;
    assert(bytes@.skip(0) == bytes@);
    assert(found + split(bytes@, sep) == split(bytes@, sep));
    while at < len
        invariant
            start <= at <= len == bytes@.len(),
            forall|i: int| start <= i < at ==> bytes@[i] != sep,
            found + split(bytes@.skip(start as int), sep) == split(bytes@, sep),
            found.len() == r@.len(),
            forall|i: int| #![trigger r@[i]]
                0 <= i < r@.len() ==> {
                    &&& r@[i].0 <= r@[i].1 <= bytes@.len()
                    &&& bytes@.subrange(r@[i].0 as int, r@[i].1 as int) == found[i]
                },
        decreases len - at,
    {
        if bytes[at] == sep {
            let ghost rest = bytes@.skip(start as int);
            proof {
                lemma_index_of_is(rest, sep, at - start);
                let piece = rest.take(at - start);
                assert(piece == bytes@.subrange(start as int, at as int));
                assert(rest.skip(at - start + 1) == bytes@.skip(at + 1));
                let next = split(bytes@.skip(at + 1), sep);
                assert(found + (seq![piece] + next) == found.push(piece) + next);
                found = found.push(piece);
            }
            r.push((start, at));
            start = at + 1;
        }
        at = at + 1;
    }
    proof {
        let rest = bytes@.skip(start as int);
        lemma_index_of_is(rest, sep, len - start);
        assert(rest == bytes@.subrange(start as int, len as int));
        assert(found + seq![rest] == found.push(rest));
    }
    r.push((start, len));
    r
}

/// Tells whether every character is white space.
pub open spec fn is_blank(s: Seq<char>) -> bool {
    forall|i: int| 0 <= i < s.len() ==> is_space(#[trigger] s[i])
}

/// Tells whether a text neither begins nor ends with white space.
pub open spec fn is_trimmed(s: Seq<char>) -> bool {
    s.len() > 0 ==> !is_space(s[0]) && !is_space(s.last())
}

proof fn lemma_trim_start(before: Seq<char>, rest: Seq<char>)
    requires
        is_blank(before),
    ensures
        trim_start(before + rest) == trim_start(rest),
    decreases before.len(),
{
    if before.len() > 0 {
        let shorter = before.drop_first();
        assert((before + rest).drop_first() == shorter + rest);
        assert(is_space(before[0]));
        assert forall|i: int| 0 <= i < shorter.len() implies is_space(#[trigger] shorter[i]) by {
            assert(is_space(before[i + 1]));
        }
        lemma_trim_start(shorter, rest);
    } else {
        assert(before + rest == rest);
    }
}

proof fn lemma_trim_end(rest: Seq<char>, after: Seq<char>)
    requires
        is_blank(after),
    ensures
        trim_end(rest + after) == trim_end(rest),
    decreases after.len(),
{
    if after.len() > 0 {
        let shorter = after.drop_last();
        assert((rest + after).drop_last() == rest + shorter);
        assert(is_space(after[after.len() - 1]));
        assert forall|i: int| 0 <= i < shorter.len() implies is_space(#[trigger] shorter[i]) by {
            assert(is_space(after[i]));
        }
        lemma_trim_end(rest, shorter);
    } else {
        assert(rest + after == rest);
    }
}

/// Of a text with white space around it, the text itself is what remains when it is trimmed.
pub proof fn trimming_gives_the_text_back(before: Seq<char>, text: Seq<char>, after: Seq<char>)
    requires
        is_blank(before),
        is_trimmed(text),
        is_blank(after),
    ensures
        trim(before + text + after) == text,
{
    if text.len() == 0 {
        assert(before + text + after == before + after);
        lemma_trim_start(before, after);
        lemma_trim_start(after, text);
        assert(after + text == after);
    } else {
        assert(before + text + after == before + (text + after));
        lemma_trim_start(before, text + after);
        assert((text + after)[0] == text[0]);
        lemma_trim_end(text, after);
    }
}

/// Tells whether a text is a word: it is not empty and has no white space in it.
pub open spec fn is_word(s: Seq<char>) -> bool {
    s.len() > 0 && forall|i: int| 0 <= i < s.len() ==> !is_space(#[trigger] s[i])
}

proof fn lemma_word_len_is(word: Seq<char>, rest: Seq<char>)
    requires
        forall|i: int| 0 <= i < word.len() ==> !is_space(#[trigger] word[i]),
        rest.len() > 0 ==> is_space(rest[0]),
    ensures
        word_len(word + rest) == word.len(),
    decreases word.len(),
{
    if word.len() > 0 {
        let shorter = word.drop_first();
        assert((word + rest).drop_first() == shorter + rest);
        assert(!is_space(word[0]));
        assert forall|i: int| 0 <= i < shorter.len() implies !is_space(#[trigger] shorter[i]) by {
            assert(!is_space(word[i + 1]));
        }
        lemma_word_len_is(shorter, rest);
    } else {
        assert(word + rest == rest);
    }
}

/// A word in front of white space is the first of the words.
pub proof fn the_first_word(word: Seq<char>, rest: Seq<char>)
    requires
        is_word(word),
        rest.len() > 0 ==> is_space(rest[0]),
    ensures
        words(word + rest) == seq![word] + words(rest),
{
    lemma_word_len_is(word, rest);
    assert(!is_space(word[0]));
    assert((word + rest).take(word.len() as int) == word);
    assert((word + rest).skip(word.len() as int) == rest);
}

/// White space in front of a text adds no word to it; a text of white space alone has none.
pub proof fn leading_space_adds_no_word(before: Seq<char>, rest: Seq<char>)
    requires
        is_blank(before),
    ensures
        words(before + rest) == words(rest),
        words(before).len() == 0,
    decreases before.len(),
{
    if before.len() > 0 {
        let shorter = before.drop_first();
        assert((before + rest).drop_first() == shorter + rest);
        assert(is_space(before[0]));
        assert forall|i: int| 0 <= i < shorter.len() implies is_space(#[trigger] shorter[i]) by {
            assert(is_space(before[i + 1]));
        }
        leading_space_adds_no_word(shorter, rest);
        assert(words(before + rest) == words(shorter + rest));
        assert(words(before) == words(shorter));
    } else {
        assert(before + rest == rest);
    }
}

/// A text without separator is its own only piece.
pub proof fn split_of_one_piece<T>(s: Seq<T>, sep: T)
    requires
        lacks(s, sep),
    ensures
        split(s, sep) == seq![s],
{
    lemma_index_of_is(s, sep, s.len() as int);
}

} // verus!
