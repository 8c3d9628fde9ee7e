//! Files as the kernel writes them: what the parsers get to see of them, and that they fit.
use vstd::prelude::*;
use vstd::utf8::{encode_utf8, encode_utf8_decode_utf8, encode_utf8_valid_utf8, valid_utf8};

use crate::encoding::{
    cuts_are_between_characters, encoding_lacks, encoding_of_ascii, encoding_of_two_texts,
};
use crate::number::{
    decimal, decimal_is_a_word, decimal_reads_back, lemma_decimal_characters, unsigned_int, within,
};
use crate::parse::shape::{
    arp_line, arp_line_start, arp_shape, arp_start, ascii_spaced, ascii_words, begins_with,
    behind_spaces, can_cut, framed, io_line, io_line_counts, io_shape, is_one_byte, last_index_of,
    lemma_fitting_lines, limits_line, limits_shape, lines, map_path, maps_line, maps_line_start,
    maps_shape, maps_start, stat_shape, text_lines, texts_of, with_line_feeds, NEWLINE,
};
use crate::text::{
    bytes_stand_for_their_text, index_of, is_blank, is_space, is_trimmed, is_word, lacks,
    leading_space_adds_no_word, lemma_index_of, lemma_index_of_is, split, split_first_piece,
    split_of_one_piece, the_first_word, trimming_gives_the_text_back, words,
};
use crate::parse::{by_text, holds_numbers};

verus! {

/// The pieces, each with a line feed behind it.
pub open spec fn feed_each(pieces: Seq<Seq<u8>>) -> Seq<u8>
    decreases pieces.len(),
{
    if pieces.len() == 0 {
        seq![]
    } else {
        pieces[0].push(NEWLINE) + feed_each(pieces.drop_first())
    }
}

/// Tells whether no piece holds a line feed.
pub open spec fn are_lines(pieces: Seq<Seq<u8>>) -> bool {
    forall|i: int| 0 <= i < pieces.len() ==> lacks(#[trigger] pieces[i], NEWLINE)
}

proof fn lemma_split_fed(pieces: Seq<Seq<u8>>, last: Seq<u8>)
    requires
        are_lines(pieces),
        lacks(last, NEWLINE),
    ensures
        split(feed_each(pieces) + last, NEWLINE) == pieces.push(last),
    decreases pieces.len(),
{
    if pieces.len() == 0 {
        assert(feed_each(pieces) + last == last);
        split_of_one_piece(last, NEWLINE);
        assert(pieces.push(last) =~= seq![last]);
    } else {
        let rest = pieces.drop_first();
        assert(lacks(pieces[0], NEWLINE));
        assert forall|i: int| 0 <= i < rest.len() implies lacks(#[trigger] rest[i], NEWLINE) by {
            assert(rest[i] == pieces[i + 1]);
        }
        lemma_split_fed(rest, last);
        split_first_piece(pieces[0], feed_each(rest) + last, NEWLINE);
        assert(feed_each(pieces) + last =~= pieces[0].push(NEWLINE) + (feed_each(rest) + last));
        assert(pieces.push(last) =~= seq![pieces[0]] + rest.push(last));
    }
}

/// The lines of a file are what stands in front of its line feeds, and what follows the last of
/// them unless that is nothing.
pub proof fn lines_are_between_line_feeds(pieces: Seq<Seq<u8>>, last: Seq<u8>)
    requires
        are_lines(pieces),
        lacks(last, NEWLINE),
    ensures
        lines(feed_each(pieces)) == pieces,
        last.len() > 0 ==> lines(feed_each(pieces) + last) == pieces.push(last),
{
    let none = Seq::<u8>::empty();
    lemma_split_fed(pieces, none);
    lemma_split_fed(pieces, last);
    assert(feed_each(pieces) + none == feed_each(pieces));
    assert(pieces.push(none).last() == none);
    assert(pieces.push(none).drop_last() == pieces);
    assert(pieces.push(last).last() == last);
}

/// The bytes of the texts.
pub open spec fn encoded(texts: Seq<Seq<char>>) -> Seq<Seq<u8>> {
    texts.map_values(|text: Seq<char>| encode_utf8(text))
}

/// Lines are seen up to the first that is not a text.
pub proof fn lines_are_seen_up_to_one_that_is_no_text(
    texts: Seq<Seq<char>>,
    bad: Seq<u8>,
    rest: Seq<Seq<u8>>,
)
    requires
        !valid_utf8(bad),
    ensures
        texts_of(encoded(texts)) == texts,
        texts_of(encoded(texts) + seq![bad] + rest) == texts,
    decreases texts.len(),
{
    let all = encoded(texts) + seq![bad] + rest;
    if texts.len() == 0 {
        assert(all[0] == bad);
        assert(texts_of(all) =~= texts);
        assert(texts_of(encoded(texts)) =~= texts);
    } else {
        let later = texts.drop_first();
        lines_are_seen_up_to_one_that_is_no_text(later, bad, rest);
        encode_utf8_valid_utf8(texts[0]);
        encode_utf8_decode_utf8(texts[0]);
        assert(all[0] == encode_utf8(texts[0]));
        assert(encoded(texts)[0] == encode_utf8(texts[0]));
        assert(all.drop_first() =~= encoded(later) + seq![bad] + rest);
        assert(encoded(texts).drop_first() =~= encoded(later));
        assert(texts =~= seq![texts[0]] + later);
    }
}

proof fn lemma_texts_of_encoded(texts: Seq<Seq<char>>)
    ensures
        texts_of(encoded(texts)) == texts,
    decreases texts.len(),
{
    if texts.len() == 0 {
        assert(texts_of(encoded(texts)) =~= texts);
    } else {
        let later = texts.drop_first();
        lemma_texts_of_encoded(later);
        encode_utf8_valid_utf8(texts[0]);
        encode_utf8_decode_utf8(texts[0]);
        assert(encoded(texts)[0] == encode_utf8(texts[0]));
        assert(encoded(texts).drop_first() =~= encoded(later));
        assert(texts =~= seq![texts[0]] + later);
    }
}

/// Tells whether no text holds a line feed.
pub open spec fn are_text_lines(texts: Seq<Seq<char>>) -> bool {
    forall|i: int| 0 <= i < texts.len() ==> lacks(#[trigger] texts[i], '\n')
}

proof fn lemma_feed_each_push(pieces: Seq<Seq<u8>>, piece: Seq<u8>)
    ensures
        feed_each(pieces.push(piece)) == feed_each(pieces) + piece.push(NEWLINE),
    decreases pieces.len(),
{
    let all = pieces.push(piece);
    if pieces.len() == 0 {
        assert(all.drop_first() =~= pieces);
        assert(feed_each(all) =~= feed_each(pieces) + piece.push(NEWLINE));
    } else {
        lemma_feed_each_push(pieces.drop_first(), piece);
        assert(all.drop_first() =~= pieces.drop_first().push(piece));
        assert(feed_each(all) =~= feed_each(pieces) + piece.push(NEWLINE));
    }
}

proof fn lemma_encoded_lines(texts: Seq<Seq<char>>)
    ensures
        encode_utf8(with_line_feeds(texts)) == feed_each(encoded(texts)),
    decreases texts.len(),
{
    if texts.len() > 0 {
        let front = texts.drop_last();
        let last = texts.last();
        lemma_encoded_lines(front);
        encoding_of_two_texts(with_line_feeds(front), last);
        encoding_of_two_texts(with_line_feeds(front) + last, seq!['\n']);
        encoding_of_ascii('\n');
        lemma_feed_each_push(encoded(front), encode_utf8(last));
        assert(encoded(texts) =~= encoded(front).push(encode_utf8(last)));
        assert(encode_utf8(with_line_feeds(texts)) =~= feed_each(encoded(texts)));
    }
}

/// The lines that were written are the lines that a parser gets to see, but for those that it
/// passes over. The last line may lack its line feed.
pub proof fn written_lines_are_seen(texts: Seq<Seq<char>>, last: Seq<char>, skipped: nat)
    requires
        are_text_lines(texts),
        lacks(last, '\n'),
        skipped <= texts.len(),
    ensures
        text_lines(encode_utf8(with_line_feeds(texts)), skipped) == texts.skip(skipped as int),
        last.len() > 0 ==> text_lines(encode_utf8(with_line_feeds(texts) + last), skipped)
            == texts.push(last).skip(skipped as int),
{
    let pieces = encoded(texts);
    lemma_encoded_lines(texts);
    assert forall|i: int| 0 <= i < pieces.len() implies lacks(#[trigger] pieces[i], NEWLINE) by {
        assert(lacks(texts[i], '\n'));
        encoding_lacks(texts[i], '\n');
    }
    encoding_lacks(last, '\n');
    encoding_of_two_texts(with_line_feeds(texts), last);
    lines_are_between_line_feeds(pieces, encode_utf8(last));
    let n = skipped as int;
    lemma_texts_of_encoded(texts.skip(n));
    assert(pieces.skip(n) =~= encoded(texts.skip(n)));
    assert(texts.skip(texts.len() as int) =~= Seq::<Seq<char>>::empty());
    if last.len() > 0 {
        crate::parse::shape::lemma_encoding_is_not_shorter(last);
        let more = texts.push(last);
        lemma_texts_of_encoded(more.skip(n));
        assert(pieces.push(encode_utf8(last)).skip(n) =~= encoded(more.skip(n)));
    }
}

proof fn lemma_last_index_of(s: Seq<char>, c: char, n: int)
    requires
        -1 <= n < s.len(),
        n >= 0 ==> s[n] == c,
        forall|i: int| n < i < s.len() ==> s[i] != c,
    ensures
        last_index_of(s, c) == n,
    decreases s.len(),
{
    if s.len() > 0 {
        if n < s.len() - 1 {
            assert(s.last() != c);
            lemma_last_index_of(s.drop_last(), c, n);
        }
    }
}

/// A text in a frame: what stands in front of the first `(` with one character between, what stands
/// between the parentheses, and what stands behind the last `)` with one character between.
pub open spec fn frame(
    front: Seq<char>,
    left: char,
    name: Seq<char>,
    right: char,
    rest: Seq<char>,
) -> Seq<char> {
    front + seq![left, '('] + name + seq![')', right] + rest
}

/// What a framed text is: a frame with characters of one byte around its parentheses. Whatever is
/// in the frame may hold parentheses of its own.
pub proof fn framed_texts_are_frames(
    front: Seq<char>,
    left: char,
    name: Seq<char>,
    right: char,
    rest: Seq<char>,
)
    requires
        lacks(front, '('),
        left != '(',
        right != ')',
        lacks(rest, ')'),
    ensures
        framed(frame(front, left, name, right, rest)) <==> is_one_byte(left) && is_one_byte(right),
{
    let s = frame(front, left, name, right, rest);
    let open = front.len() as int + 1;
    let close = open + name.len() + 1;
    assert(s.len() == front.len() + 2 + name.len() + 2 + rest.len());
    assert forall|i: int| 0 <= i < open implies s[i] != '(' by {
        if i < front.len() {
            assert(s[i] == front[i]);
        }
    }
    lemma_index_of_is(s, '(', open);
    assert(s[close] == ')');
    assert(s[close + 1] == right);
    assert(s[open - 1] == left);
    assert forall|i: int| close < i < s.len() implies s[i] != ')' by {
        if i > close + 1 {
            assert(s[i] == rest[i - close - 2]);
        }
    }
    lemma_last_index_of(s, ')', close);
}

/// Whatever is framed either lacks one of the parentheses or is a frame.
pub proof fn only_frames_are_framed(s: Seq<char>)
    requires
        framed(s),
    ensures
        lacks(s, '(') || lacks(s, ')') || exists|
            front: Seq<char>,
            left: char,
            name: Seq<char>,
            right: char,
            rest: Seq<char>,
        | #[trigger]
            frame(front, left, name, right, rest) == s && lacks(front, '(') && lacks(rest, ')')
                && is_one_byte(left) && is_one_byte(right),
{
    let open = index_of(s, '(') as int;
    let close = last_index_of(s, ')');
    lemma_index_of(s, '(');
    lemma_behind_last(s, ')');
    if open < s.len() && close >= 0 {
        let front = s.take(open - 1);
        let name = s.subrange(open + 1, close);
        let rest = s.skip(close + 2);
        assert(frame(front, s[open - 1], name, s[close + 1], rest) =~= s);
    }
}

/// A text that lacks one of the parentheses is not cut, so it counts as framed.
pub proof fn texts_without_parentheses_are_framed(s: Seq<char>)
    requires
        lacks(s, '(') || lacks(s, ')'),
    ensures
        framed(s),
{
    lemma_index_of(s, '(');
    lemma_behind_last(s, ')');
}

proof fn lemma_behind_last(s: Seq<char>, c: char)
    ensures
        -1 <= last_index_of(s, c) < s.len(),
        last_index_of(s, c) >= 0 ==> s[last_index_of(s, c)] == c,
        forall|i: int| last_index_of(s, c) < i < s.len() ==> s[i] != c,
    decreases s.len(),
{
    if s.len() > 0 && s.last() != c {
        let short = s.drop_last();
        lemma_behind_last(short, c);
        assert forall|i: int| last_index_of(s, c) < i < s.len() implies s[i] != c by {
            if i < short.len() {
                assert(short[i] == s[i]);
            }
        }
    }
}

/// The contents of a `stat` file: the number of the process, its name in parentheses, and the rest.
pub open spec fn stat_text(pid: int, name: Seq<char>, rest: Seq<char>) -> Seq<char> {
    decimal(pid) + seq![' ', '('] + name + seq![')', ' '] + rest
}

/// A `stat` file as the kernel writes it always fits the parser, whatever the number and the name
/// of the process, and whatever white space is around it.
pub proof fn written_stat_files_fit(
    pid: int,
    name: Seq<char>,
    rest: Seq<char>,
    before: Seq<char>,
    after: Seq<char>,
)
    requires
        rest.len() > 0,
        is_trimmed(rest),
        lacks(rest, ')'),
        is_blank(before),
        is_blank(after),
    ensures
        stat_shape(encode_utf8(before + stat_text(pid, name, rest) + after)),
{
    let s = stat_text(pid, name, rest);
    decimal_is_a_word(pid);
    lemma_decimal_characters(pid);
    assert(s[0] == decimal(pid)[0]);
    assert(s.last() == rest.last());
    trimming_gives_the_text_back(before, s, after);
    bytes_stand_for_their_text(before + s + after);
    assert(s =~= frame(decimal(pid), ' ', name, ' ', rest));
    framed_texts_are_frames(decimal(pid), ' ', name, ' ', rest);
}

/// Two words with white space between them, and a rest that begins with white space, are the first
/// two words of the text.
pub proof fn the_first_two_words(
    first: Seq<char>,
    gap: Seq<char>,
    second: Seq<char>,
    rest: Seq<char>,
)
    requires
        is_word(first),
        gap.len() > 0,
        is_blank(gap),
        is_word(second),
        rest.len() > 0 ==> is_space(rest[0]),
    ensures
        words(first + gap + second + rest) == seq![first, second] + words(rest),
{
    assert(is_space(gap[0]));
    let tail = gap + (second + rest);
    assert(tail[0] == gap[0]);
    assert(first + gap + second + rest =~= first + tail);
    the_first_word(first, tail);
    leading_space_adds_no_word(gap, second + rest);
    the_first_word(second, rest);
    assert(seq![first] + (seq![second] + words(rest)) =~= seq![first, second] + words(rest));
}

/// A line of an `io` file: a label, a space and a number.
pub open spec fn io_text(label: Seq<char>, n: int) -> Seq<char> {
    label + seq![' '] + decimal(n)
}

/// A line of an `io` file with a number of 64 bits is counted, and fits exactly if its label ends
/// in a character of one byte, such as the colon with which the kernel ends it.
pub proof fn written_io_lines_fit(label: Seq<char>, n: int)
    requires
        is_word(label),
        0 <= n <= u64::MAX,
    ensures
        io_line_counts(io_text(label, n)),
        io_line(io_text(label, n)) <==> is_one_byte(label.last()),
{
    let s = io_text(label, n);
    let none = Seq::<char>::empty();
    decimal_is_a_word(n);
    decimal_reads_back(n);
    the_first_two_words(label, seq![' '], decimal(n), none);
    assert(s =~= label + seq![' '] + decimal(n) + none);
    assert(s[label.len() as int] == ' ');
    assert(s.contains(' '));
    assert(words(s)[0] == label);
    assert(words(s)[1] == decimal(n));
}

/// A line of an `io` file that has a space in it, and whose second word is not a number, is
/// rejected; one without a space is passed over.
pub proof fn other_io_lines_are_rejected(s: Seq<char>)
    ensures
        lacks(s, ' ') ==> io_line_counts(s) && io_line(s),
        s.contains(' ') && words(s).len() < 2 ==> !io_line_counts(s) && io_line(s),
        s.contains(' ') && words(s).len() >= 2 && within(
            unsigned_int(words(s)[1], 10),
            0,
            u64::MAX as int,
        ) is None ==> !io_line_counts(s) && io_line(s),
{
}

/// An `io` file fits exactly if its lines do, up to the first that is rejected.
pub proof fn io_files_fit_line_by_line(texts: Seq<Seq<char>>)
    requires
        are_text_lines(texts),
    ensures
        io_shape(encode_utf8(with_line_feeds(texts))) <==> forall|i: int|
            0 <= i < texts.len() && (forall|k: int| 0 <= k < i ==> io_line_counts(#[trigger] texts[k]))
                ==> io_line(#[trigger] texts[i]),
{
    written_lines_are_seen(texts, seq![], 0);
    assert(texts.skip(0) == texts);
}

/// An `io` file as the kernel writes it always fits the parser.
pub proof fn written_io_files_fit(labels: Seq<Seq<char>>, numbers: Seq<u64>)
    requires
        labels.len() == numbers.len(),
        forall|i: int|
            0 <= i < labels.len() ==> is_word(#[trigger] labels[i]) && labels[i].last() == ':',
    ensures
        io_shape(
            encode_utf8(
                with_line_feeds(
                    Seq::new(labels.len(), |i: int| io_text(labels[i], numbers[i] as int)),
                ),
            ),
        ),
{
    let texts = Seq::new(labels.len(), |i: int| io_text(labels[i], numbers[i] as int));
    assert forall|i: int| 0 <= i < texts.len() implies lacks(#[trigger] texts[i], '\n') && io_line(
        texts[i],
    ) by {
        assert(is_word(labels[i]) && labels[i].last() == ':');
        written_io_lines_fit(labels[i], numbers[i] as int);
        decimal_is_a_word(numbers[i] as int);
        lemma_words_lack_line_feeds(labels[i]);
        lemma_words_lack_line_feeds(decimal(numbers[i] as int));
        assert forall|k: int| 0 <= k < texts[i].len() implies texts[i][k] != '\n' by {
            if k < labels[i].len() {
                assert(texts[i][k] == labels[i][k]);
            } else if k > labels[i].len() {
                assert(texts[i][k] == decimal(numbers[i] as int)[k - labels[i].len() - 1]);
            }
        }
    }
    io_files_fit_line_by_line(texts);
}

proof fn lemma_words_lack_line_feeds(word: Seq<char>)
    requires
        is_word(word),
    ensures
        lacks(word, '\n'),
        lacks(word, ' '),
{
    assert forall|i: int| 0 <= i < word.len() implies word[i] != '\n' && word[i] != ' ' by {
        assert(!is_space(word[i]));
    }
}

/// Tells whether the text is made of spaces and tabs, and not empty.
pub open spec fn is_gap(s: Seq<char>) -> bool {
    s.len() > 0 && forall|i: int| 0 <= i < s.len() ==> #[trigger] s[i] == ' ' || s[i] == '\t'
}

/// A line of an `smaps` file: a name, a colon, white space, a number and its unit.
pub open spec fn size_line(name: Seq<char>, gap: Seq<char>, n: int) -> Seq<char> {
    name + seq![':'] + gap + decimal(n) + seq![' ', 'k', 'B']
}

/// Tells whether a name can stand in front of a size.
pub open spec fn is_size_name(name: Seq<char>) -> bool {
    &&& is_word(name)
    &&& 'A' <= name[0] <= 'Z'
    &&& !begins_with(name.push(':'), "VmFlags"@)
}

proof fn lemma_size_line(name: Seq<char>, gap: Seq<char>, n: int)
    requires
        is_size_name(name),
        is_gap(gap),
    ensures
        ascii_words(size_line(name, gap, n)) == seq![
            name.push(':'),
            decimal(n),
            seq!['k', 'B'],
        ],
        size_line(name, gap, n)[0] == name[0],
        !begins_with(size_line(name, gap, n), "VmFlags"@),
        lacks(size_line(name, gap, n), '\n'),
{
    let s = size_line(name, gap, n);
    let label = name.push(':');
    let unit = seq!['k', 'B'];
    let none = Seq::<char>::empty();
    let tail = seq![' '] + unit;
    decimal_is_a_word(n);
    lemma_decimal_characters(n);
    assert forall|i: int| 0 <= i < label.len() implies !is_space(#[trigger] label[i]) by {
        if i < name.len() {
            assert(!is_space(name[i]));
        }
    }
    assert(is_word(label));
    assert forall|i: int| 0 <= i < gap.len() implies is_space(#[trigger] gap[i]) by {
        assert(gap[i] == ' ' || gap[i] == '\t');
    }
    assert(s =~= label + gap + decimal(n) + tail);
    the_first_two_words(label, gap, decimal(n), tail);
    leading_space_adds_no_word(seq![' '], unit);
    the_first_word(unit, none);
    assert(unit + none =~= unit);
    assert(words(none) == Seq::<Seq<char>>::empty());
    assert(words(tail) =~= seq![unit]);
    assert(words(s) =~= seq![label, decimal(n), unit]);
    let plain = s.map_values(|c: char| ascii_spaced(c));
    assert forall|i: int| 0 <= i < s.len() implies ascii_spaced(#[trigger] s[i]) == s[i] && s[i]
        != '\n' by {
        if i < label.len() {
            assert(s[i] == label[i]);
            assert(!is_space(label[i]));
        } else if i < label.len() + gap.len() {
            assert(s[i] == gap[i - label.len()]);
        } else if i < label.len() + gap.len() + decimal(n).len() {
            let k = i - label.len() - gap.len();
            assert(s[i] == decimal(n)[k]);
            assert(!is_space(decimal(n)[k]));
        }
    }
    assert(plain =~= s);
    reveal_strlit("VmFlags");
    let flags = "VmFlags"@;
    if begins_with(s, flags) {
        assert(s.take(7) == flags);
        assert forall|i: int| 0 <= i < 7 implies #[trigger] s[i] == flags[i] by {
            assert(s.take(7)[i] == s[i]);
        }
        if label.len() >= 7 {
            assert(label.take(7) =~= flags) by {
                assert forall|i: int| 0 <= i < 7 implies label[i] == flags[i] by {
                    assert(label[i] == s[i]);
                }
            }
        } else {
            let at = name.len() as int;
            assert(s[at] == ':');
            assert(flags[at] != ':');
        }
        assert(false);
    }
}

/// A size can be read exactly if the number of bytes fits in 64 bits.
pub proof fn written_sizes_fit(name: Seq<char>, gap: Seq<char>, n: int)
    requires
        is_size_name(name),
        is_gap(gap),
        0 <= n <= u64::MAX,
    ensures
        maps_line(size_line(name, gap, n)) <==> n * 1024 <= u64::MAX,
{
    lemma_size_line(name, gap, n);
    decimal_reads_back(n);
    let s = size_line(name, gap, n);
    assert(ascii_words(s)[1] == decimal(n));
}

/// The flags of a map can always be read, and so can a number without a unit.
pub proof fn flags_and_bare_numbers_fit(s: Seq<char>)
    requires
        s.len() > 0,
        'A' <= s[0] <= 'Z',
        begins_with(s, "VmFlags"@) || ascii_words(s).len() < 3,
    ensures
        maps_line(s),
{
}

/// The fields, each with a space behind it.
pub open spec fn spaced(fields: Seq<Seq<char>>) -> Seq<char>
    decreases fields.len(),
{
    if fields.len() == 0 {
        seq![]
    } else {
        fields[0].push(' ') + spaced(fields.drop_first())
    }
}

/// Tells whether no field holds a space.
pub open spec fn are_fields(fields: Seq<Seq<char>>) -> bool {
    forall|i: int| 0 <= i < fields.len() ==> lacks(#[trigger] fields[i], ' ')
}

/// What is behind as many spaces as there are fields is what follows the fields.
pub proof fn fields_are_passed_over(fields: Seq<Seq<char>>, rest: Seq<char>)
    requires
        are_fields(fields),
    ensures
        behind_spaces(spaced(fields) + rest, fields.len()) == rest,
    decreases fields.len(),
{
    let s = spaced(fields) + rest;
    if fields.len() == 0 {
        assert(s == rest);
    } else {
        let first = fields[0];
        let later = fields.drop_first();
        assert(lacks(first, ' '));
        assert forall|i: int| 0 <= i < later.len() implies lacks(#[trigger] later[i], ' ') by {
            assert(later[i] == fields[i + 1]);
        }
        fields_are_passed_over(later, rest);
        assert forall|i: int| 0 <= i < first.len() implies s[i] != ' ' by {
            assert(s[i] == first[i]);
        }
        lemma_index_of_is(s, ' ', first.len() as int);
        assert(s.skip(first.len() as int + 1) =~= spaced(later) + rest);
    }
}

/// A line of a `maps` file: five fields and a path.
pub open spec fn map_line_text(fields: Seq<Seq<char>>, path: Seq<char>) -> Seq<char> {
    spaced(fields) + path
}

/// Tells whether the fields can begin a line of a `maps` file.
pub open spec fn are_map_fields(fields: Seq<Seq<char>>) -> bool {
    &&& fields.len() == 5
    &&& are_fields(fields)
    &&& fields[0].len() > 0
    &&& !('A' <= fields[0][0] <= 'Z')
}

/// A line of a `maps` file fits exactly if its path does, whatever white space is around the path.
pub proof fn written_maps_fit(
    fields: Seq<Seq<char>>,
    before: Seq<char>,
    path: Seq<char>,
    after: Seq<char>,
)
    requires
        are_map_fields(fields),
        is_blank(before),
        is_trimmed(path),
        is_blank(after),
    ensures
        maps_line(map_line_text(fields, before + path + after)) <==> map_path(path),
{
    let rest = before + path + after;
    let s = map_line_text(fields, rest);
    fields_are_passed_over(fields, rest);
    trimming_gives_the_text_back(before, path, after);
    assert(s[0] == fields[0][0]);
}

/// Which paths fit: all but those that begin with `/SYSV` or `[stack:`. Of these, one fits if it
/// can be cut where it is cut: `/SYSV` with eight characters of one byte behind it, and `[stack:`
/// with a character of one byte at the end.
pub proof fn paths_that_fit(path: Seq<char>)
    ensures
        !begins_with(path, "/SYSV"@) && !begins_with(path, "[stack:"@) ==> map_path(path),
        begins_with(path, "/SYSV"@) ==> (map_path(path) <==> exists|n: int|
            0 <= n <= path.len() && #[trigger] encode_utf8(path.take(n)).len() == 13),
        begins_with(path, "[stack:"@) ==> (map_path(path) <==> is_one_byte(path.last())),
{
    reveal_strlit("/SYSV");
    reveal_strlit("[stack:");
    cuts_are_between_characters(path, 13);
    if begins_with(path, "/SYSV"@) {
        assert(path.take(5)[0] == path[0]);
    }
    if begins_with(path, "[stack:"@) {
        assert(path.take(7)[0] == path[0]);
        let bytes = encode_utf8(path);
        let short = path.drop_last();
        let last = path.last();
        assert(path =~= short + seq![last]);
        encoding_of_two_texts(short, seq![last]);
        cuts_are_between_characters(path, bytes.len() - 1);
        if is_one_byte(last) {
            encoding_of_ascii(last);
            assert(path.take(short.len() as int) =~= short);
            assert(encode_utf8(path.take(short.len() as int)).len() == bytes.len() - 1);
        } else {
            crate::encoding::wide_characters_take_more_bytes(last);
            assert forall|n: int| 0 <= n <= path.len() implies #[trigger] encode_utf8(
                path.take(n),
            ).len() != bytes.len() - 1 by {
                if n < path.len() {
                    assert(short =~= path.take(n) + short.skip(n));
                    encoding_of_two_texts(path.take(n), short.skip(n));
                } else {
                    assert(path.take(n) == path);
                }
            }
        }
    }
}

/// A `maps` or `smaps` file fits exactly if all its lines do.
pub proof fn maps_files_fit_line_by_line(texts: Seq<Seq<char>>)
    requires
        are_text_lines(texts),
    ensures
        maps_shape(encode_utf8(with_line_feeds(texts))) <==> forall|i: int|
            0 <= i < texts.len() ==> maps_line(#[trigger] texts[i]),
{
    written_lines_are_seen(texts, seq![], 0);
    assert(texts.skip(0) == texts);
}

/// A line of an `smaps` file.
pub ghost enum SmapsLine {
    Area { fields: Seq<Seq<char>>, before: Seq<char>, path: Seq<char> },
    Size { name: Seq<char>, gap: Seq<char>, kibibytes: int },
    Flags { rest: Seq<char> },
}

/// The text of a line of an `smaps` file.
pub open spec fn smaps_text(line: SmapsLine) -> Seq<char> {
    match line {
        SmapsLine::Area { fields, before, path } => map_line_text(fields, before + path),
        SmapsLine::Size { name, gap, kibibytes } => size_line(name, gap, kibibytes),
        SmapsLine::Flags { rest } => "VmFlags"@ + rest,
    }
}

/// Tells whether the kernel writes such a line: a map with an ordinary path, a number of bytes that
/// fits in 64 bits, or flags.
pub open spec fn is_smaps_line(line: SmapsLine) -> bool {
    &&& lacks(smaps_text(line), '\n')
    &&& match line {
        SmapsLine::Area { fields, before, path } => {
            &&& are_map_fields(fields)
            &&& is_blank(before)
            &&& is_trimmed(path)
            &&& !begins_with(path, "/SYSV"@)
            &&& !begins_with(path, "[stack:"@)
        },
        SmapsLine::Size { name, gap, kibibytes } => {
            &&& is_size_name(name)
            &&& is_gap(gap)
            &&& 0 <= kibibytes
            &&& kibibytes * 1024 <= u64::MAX
        },
        SmapsLine::Flags { rest } => true,
    }
}

/// The texts of the lines of an `smaps` file.
pub open spec fn smaps_texts(file: Seq<SmapsLine>) -> Seq<Seq<char>> {
    file.map_values(|line: SmapsLine| smaps_text(line))
}

/// A `maps`, `smaps` or `smaps_rollup` file as the kernel writes it always fits the parser, however
/// large the maps are.
pub proof fn written_smaps_files_fit(file: Seq<SmapsLine>)
    requires
        forall|i: int| 0 <= i < file.len() ==> is_smaps_line(#[trigger] file[i]),
    ensures
        maps_shape(encode_utf8(with_line_feeds(smaps_texts(file)))),
{
    let texts = smaps_texts(file);
    assert forall|i: int| 0 <= i < texts.len() implies lacks(#[trigger] texts[i], '\n') && maps_line(
        texts[i],
    ) by {
        let line = file[i];
        assert(is_smaps_line(line));
        assert(texts[i] == smaps_text(line));
        match line {
            SmapsLine::Area { fields, before, path } => {
                let none = Seq::<char>::empty();
                written_maps_fit(fields, before, path, none);
                assert(before + path + none =~= before + path);
                paths_that_fit(path);
            },
            SmapsLine::Size { name, gap, kibibytes } => {
                written_sizes_fit(name, gap, kibibytes);
            },
            SmapsLine::Flags { rest } => {
                reveal_strlit("VmFlags");
                let s = "VmFlags"@ + rest;
                assert(s.take(7) =~= "VmFlags"@);
                assert(s[0] == 'V');
                flags_and_bare_numbers_fit(s);
            },
        }
    }
    maps_files_fit_line_by_line(texts);
}

/// A `maps` or `smaps` file is cut short at the first line that does not fit.
pub proof fn maps_files_are_cut_at_the_first_misfit(
    good: Seq<Seq<char>>,
    bad: Seq<char>,
    rest: Seq<Seq<char>>,
)
    requires
        are_text_lines(good + seq![bad] + rest),
        forall|i: int| 0 <= i < good.len() ==> maps_line(#[trigger] good[i]),
        !maps_line(bad),
    ensures
        maps_start(encode_utf8(with_line_feeds(good + seq![bad] + rest))) == encode_utf8(
            with_line_feeds(good) + maps_line_start(bad),
        ),
{
    let all = good + seq![bad] + rest;
    let fits = |s: Seq<char>| maps_line(s);
    written_lines_are_seen(all, seq![], 0);
    assert(all.skip(0) == all);
    assert forall|k: int| 0 <= k < good.len() implies fits(#[trigger] all[k]) by {
        assert(all[k] == good[k]);
    }
    lemma_fitting_lines(all, fits, good.len() as int);
    assert(all.take(good.len() as int) =~= good);
}

/// What remains of a line that does not fit: of a size its first letter, of a map its fields.
pub proof fn what_remains_of_a_maps_line(
    name: Seq<char>,
    gap: Seq<char>,
    n: int,
    fields: Seq<Seq<char>>,
    path: Seq<char>,
)
    requires
        is_size_name(name),
        is_gap(gap),
        are_map_fields(fields),
    ensures
        maps_line_start(size_line(name, gap, n)) == seq![name[0]],
        maps_line_start(map_line_text(fields, path)) == spaced(fields),
{
    lemma_size_line(name, gap, n);
    let s = size_line(name, gap, n);
    assert(s.take(1) =~= seq![name[0]]);
    let m = map_line_text(fields, path);
    fields_are_passed_over(fields, path);
    assert(m[0] == fields[0][0]);
    assert(m.take(spaced(fields).len() as int) =~= spaced(fields));
}

/// A text that begins with another one is that one with something behind it.
pub proof fn beginnings_are_prefixes(prefix: Seq<char>, s: Seq<char>)
    ensures
        begins_with(s, prefix) <==> exists|rest: Seq<char>| s == #[trigger] (prefix + rest),
{
    if begins_with(s, prefix) {
        assert(s =~= prefix + s.skip(prefix.len() as int));
    }
    if exists|rest: Seq<char>| s == #[trigger] (prefix + rest) {
        let rest = choose|rest: Seq<char>| s == #[trigger] (prefix + rest);
        assert(s.take(prefix.len() as int) =~= prefix);
    }
}

/// A line of a `limits` file with three words or more fits; so does the heading. A line of fewer
/// words that is not the heading does not fit.
pub proof fn written_limits_fit(
    first: Seq<char>,
    gap: Seq<char>,
    second: Seq<char>,
    space: Seq<char>,
    third: Seq<char>,
    rest: Seq<char>,
)
    requires
        is_word(first),
        gap.len() > 0,
        is_blank(gap),
        is_word(second),
        space.len() > 0,
        is_blank(space),
        is_word(third),
        rest.len() > 0 ==> is_space(rest[0]),
    ensures
        limits_line(first + gap + second + space + third + rest),
        begins_with(first, "Limit"@) ==> limits_line(first) && limits_line(first + gap + second),
        !begins_with(first, "Limit"@) && !begins_with(first + gap + second, "Limit"@) ==> {
            &&& !limits_line(first)
            &&& !limits_line(first + gap + second)
        },
        !limits_line(gap),
{
    let none = Seq::<char>::empty();
    reveal_strlit("Limit");
    let tail = space + third + rest;
    assert(is_space(space[0]));
    assert(tail[0] == space[0]);
    the_first_two_words(first, gap, second, tail);
    assert(first + gap + second + space + third + rest =~= first + gap + second + tail);
    leading_space_adds_no_word(space, third + rest);
    the_first_word(third, rest);
    assert(tail =~= space + (third + rest));
    assert(words(none) == Seq::<Seq<char>>::empty());
    the_first_word(first, none);
    assert(first + none =~= first);
    the_first_two_words(first, gap, second, none);
    let two = first + gap + second;
    assert(two + none =~= two);
    assert(!is_space(first[0]) && !is_space(first[first.len() - 1]) && !is_space(
        second[second.len() - 1],
    ));
    trimming_gives_the_text_back(none, first, none);
    assert(none + first + none =~= first);
    assert(two[0] == first[0] && two.last() == second.last());
    trimming_gives_the_text_back(none, two, none);
    assert(none + two + none =~= two);
    if begins_with(first, "Limit"@) {
        assert(two.take(5) =~= first.take(5));
    }
    leading_space_adds_no_word(gap, none);
    trimming_gives_the_text_back(gap, none, none);
    assert(gap + none + none =~= gap);
}

/// A `limits` file fits exactly if all its lines do.
pub proof fn limits_files_fit_line_by_line(texts: Seq<Seq<char>>)
    requires
        are_text_lines(texts),
    ensures
        limits_shape(encode_utf8(with_line_feeds(texts))) <==> forall|i: int|
            0 <= i < texts.len() ==> limits_line(#[trigger] texts[i]),
{
    written_lines_are_seen(texts, seq![], 0);
    assert(texts.skip(0) == texts);
}

/// A line of an `arp` file: an address, a kind, flags, and a rest that begins with white space.
pub open spec fn arp_text(
    address: Seq<char>,
    gap: Seq<char>,
    kind: Seq<char>,
    space: Seq<char>,
    flags: Seq<char>,
    rest: Seq<char>,
) -> Seq<char> {
    address + gap + kind + space + flags + rest
}

proof fn lemma_arp_words(
    address: Seq<char>,
    gap: Seq<char>,
    kind: Seq<char>,
    space: Seq<char>,
    flags: Seq<char>,
    rest: Seq<char>,
)
    requires
        is_word(address),
        gap.len() > 0,
        is_blank(gap),
        is_word(kind),
        space.len() > 0,
        is_blank(space),
        is_word(flags),
        rest.len() > 0 ==> is_space(rest[0]),
    ensures
        words(arp_text(address, gap, kind, space, flags, rest)) == seq![address, kind, flags]
            + words(rest),
{
    let tail = space + flags + rest;
    assert(is_space(space[0]));
    assert(tail[0] == space[0]);
    the_first_two_words(address, gap, kind, tail);
    leading_space_adds_no_word(space, flags + rest);
    the_first_word(flags, rest);
    assert(tail =~= space + (flags + rest));
    assert(arp_text(address, gap, kind, space, flags, rest) =~= address + gap + kind + tail);
    assert(seq![address, kind] + (seq![flags] + words(rest)) =~= seq![address, kind, flags] + words(
        rest,
    ));
}

/// A line of an `arp` file fits exactly if the first two bytes can be taken off its kind and its
/// flags, as they can from `0x` and what follows; what does not fit is replaced where it is cut
/// short.
pub proof fn written_arp_lines_fit(
    address: Seq<char>,
    gap: Seq<char>,
    kind: Seq<char>,
    space: Seq<char>,
    flags: Seq<char>,
    rest: Seq<char>,
)
    requires
        is_word(address),
        gap.len() > 0,
        is_blank(gap),
        is_word(kind),
        space.len() > 0,
        is_blank(space),
        is_word(flags),
        rest.len() > 0 ==> is_space(rest[0]),
    ensures
        arp_line(arp_text(address, gap, kind, space, flags, rest)) <==> can_cut(kind, 2) && can_cut(
            flags,
            2,
        ),
        !can_cut(kind, 2) ==> arp_line_start(arp_text(address, gap, kind, space, flags, rest))
            == address + " 0x0 0x0 * * *"@,
        can_cut(kind, 2) && !can_cut(flags, 2) ==> arp_line_start(
            arp_text(address, gap, kind, space, flags, rest),
        ) == address + seq![' '] + kind + " 0x0 * * *"@,
{
    lemma_arp_words(address, gap, kind, space, flags, rest);
    let found = words(arp_text(address, gap, kind, space, flags, rest));
    assert(found[0] == address && found[1] == kind && found[2] == flags);
}

/// A text can be cut after two bytes exactly if it begins with two characters of one byte or with
/// one of two bytes; so hexadecimal numbers with `0x` in front of them can.
pub proof fn hexadecimal_numbers_can_be_cut(digits: Seq<char>, s: Seq<char>, at: int)
    ensures
        can_cut(seq!['0', 'x'] + digits, 2),
        can_cut(s, at) <==> exists|n: int|
            0 <= n <= s.len() && #[trigger] encode_utf8(s.take(n)).len() == at,
{
    let word = seq!['0', 'x'] + digits;
    cuts_are_between_characters(word, 2);
    cuts_are_between_characters(s, at);
    assert(word.take(2) =~= seq!['0'] + seq!['x']);
    encoding_of_ascii('0');
    encoding_of_ascii('x');
    encoding_of_two_texts(seq!['0'], seq!['x']);
    assert(encode_utf8(word.take(2)).len() == 2);
}

/// An `arp` file fits exactly if all its lines but the heading do.
pub proof fn arp_files_fit_line_by_line(heading: Seq<char>, texts: Seq<Seq<char>>)
    requires
        lacks(heading, '\n'),
        are_text_lines(texts),
    ensures
        arp_shape(encode_utf8(with_line_feeds(seq![heading] + texts))) <==> forall|i: int|
            0 <= i < texts.len() ==> arp_line(#[trigger] texts[i]),
{
    let all = seq![heading] + texts;
    assert forall|i: int| 0 <= i < all.len() implies lacks(#[trigger] all[i], '\n') by {
        if i > 0 {
            assert(all[i] == texts[i - 1]);
        }
    }
    written_lines_are_seen(all, seq![], 1);
    assert(all.skip(1) =~= texts);
}

/// An `arp` file is cut short at the first line that does not fit, and gets an empty heading.
pub proof fn arp_files_are_cut_at_the_first_misfit(
    heading: Seq<char>,
    good: Seq<Seq<char>>,
    bad: Seq<char>,
    rest: Seq<Seq<char>>,
)
    requires
        lacks(heading, '\n'),
        are_text_lines(good + seq![bad] + rest),
        forall|i: int| 0 <= i < good.len() ==> arp_line(#[trigger] good[i]),
        !arp_line(bad),
    ensures
        arp_start(encode_utf8(with_line_feeds(seq![heading] + (good + seq![bad] + rest))))
            == encode_utf8(seq!['\n'] + with_line_feeds(good) + arp_line_start(bad)),
{
    let texts = good + seq![bad] + rest;
    let all = seq![heading] + texts;
    let fits = |s: Seq<char>| arp_line(s);
    assert forall|i: int| 0 <= i < all.len() implies lacks(#[trigger] all[i], '\n') by {
        if i > 0 {
            assert(all[i] == texts[i - 1]);
        }
    }
    written_lines_are_seen(all, seq![], 1);
    assert(all.skip(1) =~= texts);
    assert forall|k: int| 0 <= k < good.len() implies fits(#[trigger] texts[k]) by {
        assert(texts[k] == good[k]);
    }
    lemma_fitting_lines(texts, fits, good.len() as int);
    assert(texts.take(good.len() as int) =~= good);
}

/// What the texts with line feeds are: the lines one after the other.
pub proof fn line_feeds_follow_lines(texts: Seq<Seq<char>>, line: Seq<char>)
    ensures
        with_line_feeds(seq![]) == Seq::<char>::empty(),
        with_line_feeds(texts.push(line)) == with_line_feeds(texts) + line.push('\n'),
{
    assert(texts.push(line).drop_last() == texts);
    assert(with_line_feeds(texts.push(line)) =~= with_line_feeds(texts) + line.push('\n'));
}

/// Only ASCII white space separates the words of a size: what has none in it is one word, whatever
/// other white space it holds.
pub proof fn other_white_space_separates_no_sizes(token: Seq<char>)
    requires
        token.len() > 0,
        forall|i: int|
            0 <= i < token.len() ==> #[trigger] token[i] != ' ' && token[i] != '\t' && token[i]
                != '\n' && token[i] != '\r' && token[i] != '\u{c}',
    ensures
        ascii_words(token).len() == 1,
        ascii_words(token)[0].len() == token.len(),
{
    let plain = token.map_values(|c: char| ascii_spaced(c));
    let none = Seq::<char>::empty();
    assert forall|i: int| 0 <= i < plain.len() implies !is_space(#[trigger] plain[i]) by {
        let c = token[i];
        assert(plain[i] == ascii_spaced(c));
    }
    the_first_word(plain, none);
    assert(plain + none =~= plain);
    assert(words(none) == Seq::<Seq<char>>::empty());
}

/// Numbers, each with a space behind it.
pub open spec fn number_list(numbers: Seq<u64>) -> Seq<char>
    decreases numbers.len(),
{
    if numbers.len() == 0 {
        seq![]
    } else {
        decimal(numbers[0] as int) + seq![' '] + number_list(numbers.drop_first())
    }
}

proof fn lemma_number_list(numbers: Seq<u64>)
    ensures
        words(number_list(numbers)).len() == numbers.len(),
        forall|i: int|
            0 <= i < numbers.len() ==> #[trigger] words(number_list(numbers))[i] == decimal(
                numbers[i] as int,
            ),
    decreases numbers.len(),
{
    if numbers.len() > 0 {
        let first = decimal(numbers[0] as int);
        let later = numbers.drop_first();
        let rest = number_list(later);
        let text = number_list(numbers);
        lemma_number_list(later);
        decimal_is_a_word(numbers[0] as int);
        the_first_word(first, seq![' '] + rest);
        assert(text =~= first + (seq![' '] + rest));
        assert((seq![' '] + rest).drop_first() =~= rest);
        assert(words(text) == seq![first] + words(rest));
        assert forall|i: int| 0 <= i < numbers.len() implies #[trigger] words(text)[i] == decimal(
            numbers[i] as int,
        ) by {
            if i > 0 {
                assert(words(text)[i] == words(rest)[i - 1]);
                assert(later[i - 1] == numbers[i]);
            }
        }
    }
}

/// A list of numbers holds as many numbers as it is long, and no more.
pub proof fn lists_hold_their_numbers(numbers: Seq<u64>, n: int)
    requires
        0 <= n,
    ensures
        holds_numbers(encode_utf8(number_list(numbers)), n) <==> n <= numbers.len(),
{
    let text = number_list(numbers);
    encode_utf8_valid_utf8(text);
    encode_utf8_decode_utf8(text);
    lemma_number_list(numbers);
    if n <= numbers.len() {
        assert forall|i: int| 0 <= i < n implies within(
            unsigned_int(#[trigger] words(text)[i], 10),
            0,
            u64::MAX as int,
        ) is Some by {
            decimal_reads_back(numbers[i] as int);
        }
    }
}

/// A table whose keys are told apart by their texts holds, by text, exactly what it holds by key.
pub proof fn tables_hold_the_same_by_text<T>(table: Map<String, T>, key: String, text: Seq<char>)
    requires
        forall|a: String, b: String|
            table.contains_key(a) && table.contains_key(b) && #[trigger] a@ == #[trigger] b@ ==> a
                == b,
    ensures
        table.contains_key(key) ==> by_text(table).contains_key(key@) && by_text(table)[key@]
            == table[key],
        by_text(table).contains_key(text) ==> exists|name: String|
            table.contains_key(name) && #[trigger] name@ == text,
{
    if table.contains_key(key) {
        let found = choose|other: String| table.contains_key(other) && #[trigger] other@ == key@;
        assert(found@ == key@);
    }
}

} // verus!
