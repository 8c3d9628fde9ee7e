//! The auxiliary vector of a process.
use std::collections::HashMap;
use vstd::prelude::*;

verus! {

broadcast use vstd::std_specs::hash::group_hash_axioms;

/// The number of values that `n` bytes can have.
pub open spec fn byte_values(n: nat) -> nat
    decreases n,
{
    if n == 0 {
        1
    } else {
        256 * byte_values((n - 1) as nat)
    }
}

/// The number whose least significant byte comes first.
pub open spec fn little_value(bytes: Seq<u8>) -> nat
    decreases bytes.len(),
{
    if bytes.len() == 0 {
        0
    } else {
        bytes[0] as nat + 256 * little_value(bytes.drop_first())
    }
}

/// The number whose most significant byte comes first.
pub open spec fn big_value(bytes: Seq<u8>) -> nat
    decreases bytes.len(),
{
    if bytes.len() == 0 {
        0
    } else {
        256 * big_value(bytes.drop_last()) + bytes.last() as nat
    }
}

/// The number that the bytes are on a machine of the given byte order.
pub open spec fn word_value(bytes: Seq<u8>, little_endian: bool) -> nat {
    if little_endian {
        little_value(bytes)
    } else {
        big_value(bytes)
    }
}

proof fn lemma_word_value_bound(bytes: Seq<u8>, little_endian: bool)
    ensures
        word_value(bytes, little_endian) < byte_values(bytes.len()),
    decreases bytes.len(),
{
    if bytes.len() > 0 {
        if little_endian {
            lemma_word_value_bound(bytes.drop_first(), little_endian);
        } else {
            lemma_word_value_bound(bytes.drop_last(), little_endian);
        }
    }
}

proof fn lemma_byte_values(n: nat)
    requires
        n <= 8,
    ensures
        byte_values(n) <= u64::MAX + 1,
{
    reveal_with_fuel(byte_values, 9);
}

/// Reads the word of `width` bytes at `at`.
fn read_word(bytes: &Vec<u8>, at: usize, width: usize, little_endian: bool) -> (r: u64)
    requires
        at + width <= bytes@.len(),
        width <= 8,
    ensures
        r == word_value(bytes@.subrange(at as int, at + width), little_endian),
{
    let len: usize = bytes.len();
    let mut value: u64 = 0;
    if little_endian {
        let mut left: usize = width;
        assert(bytes@.subrange(at + left, at + width) == Seq::<u8>::empty());
        while left > 0
            invariant
                left <= width <= 8,
                at + width <= len == bytes@.len(),
                value == little_value(bytes@.subrange(at + left, at + width)),
            decreases left,
        {
            let ghost longer = bytes@.subrange(at + left - 1, at + width);
            proof {
                assert(longer.drop_first() == bytes@.subrange(at + left, at + width));
                lemma_word_value_bound(longer, true);
                lemma_byte_values(longer.len());
            }
            value = value * 256 + bytes[at + left - 1] as u64;
            left = left - 1;
        }
    } else {
        let mut done: usize = 0;
        assert(bytes@.subrange(at as int, at + done) == Seq::<u8>::empty());
        while done < width
            invariant
                done <= width <= 8,
                at + width <= len == bytes@.len(),
                value == big_value(bytes@.subrange(at as int, at + done)),
            decreases width - done,
        {
            let ghost longer = bytes@.subrange(at as int, at + done + 1);
            proof {
                assert(longer.drop_last() == bytes@.subrange(at as int, at + done));
                lemma_word_value_bound(longer, false);
                lemma_byte_values(longer.len());
            }
            value = value * 256 + bytes[at + done] as u64;
            done = done + 1;
        }
    }
    value
}

/// The entries that follow, added to `so_far`: pairs of words, a later value of a key in place of
/// an earlier one, up to the pair of zeros that must end them.
pub open spec fn entries_from(
    content: Seq<u8>,
    width: nat,
    little_endian: bool,
    so_far: Map<u64, u64>,
) -> Option<Map<u64, u64>>
    decreases content.len(),
{
    if width == 0 || content.len() < 2 * width {
        None
    } else {
        let key = word_value(content.take(width as int), little_endian) as u64;
        let value = word_value(content.subrange(width as int, 2 * width as int), little_endian) as u64;
        if key == 0 && value == 0 {
            Some(so_far)
        } else {
            entries_from(
                content.skip(2 * width as int),
                width,
                little_endian,
                so_far.insert(key, value),
            )
        }
    }
}

/// The auxiliary vector in the contents of an `auxv` file. An empty file, which some kernel threads
/// have, holds no entry; one that ends before the pair of zeros holds no vector.
pub open spec fn auxiliary_vector(content: Seq<u8>, width: nat, little_endian: bool) -> Option<
    Map<u64, u64>,
> {
    if content.len() == 0 {
        Some(Map::empty())
    } else {
        entries_from(content, width, little_endian, Map::empty())
    }
}

/// Reads the contents of an `auxv` file made of words of `width` bytes.
pub fn read_auxiliary_vector(content: &Vec<u8>, width: usize, little_endian: bool) -> (r: Option<
    HashMap<u64, u64>,
>)
    requires
        1 <= width <= 8,
    ensures
        r is Some <==> auxiliary_vector(content@, width as nat, little_endian) is Some,
        r matches Some(map) ==> auxiliary_vector(content@, width as nat, little_endian) == Some(
            map@,
        ),
{
    let mut map: HashMap<u64, u64> = HashMap::new();
    let len: usize = content.len();
    if len == 0 {
        return Some(map);
    }
    let mut at: usize = 0;
    assert(content@.skip(0) == content@);
    while len - at >= 2 * width
        invariant
            at <= len == content@.len(),
            1 <= width <= 8,
            len > 0,
            entries_from(content@.skip(at as int), width as nat, little_endian, map@)
                == auxiliary_vector(content@, width as nat, little_endian),
        decreases len - at,
    {
        let ghost rest = content@.skip(at as int);
        let key: u64 = read_word(content, at, width, little_endian);
        let value: u64 = read_word(content, at + width, width, little_endian);
        proof {
            assert(rest.take(width as int) == content@.subrange(at as int, at + width));
            assert(rest.subrange(width as int, 2 * width as int) == content@.subrange(
                at + width,
                at + width + width,
            ));
            assert(rest.skip(2 * width as int) == content@.skip(at + 2 * width));
        }
        if key == 0 && value == 0 {
            return Some(map);
        }
        map.insert(key, value);
        at = at + 2 * width;
    }
    None
}

/// The `width` bytes of a word on a machine of the given byte order.
pub open spec fn word_bytes(value: nat, width: nat, little_endian: bool) -> Seq<u8>
    decreases width,
{
    if width == 0 {
        seq![]
    } else if little_endian {
        seq![(value % 256) as u8] + word_bytes(value / 256, (width - 1) as nat, little_endian)
    } else {
        word_bytes(value / 256, (width - 1) as nat, little_endian).push((value % 256) as u8)
    }
}

proof fn lemma_word_reads_back(value: nat, width: nat, little_endian: bool)
    requires
        value < byte_values(width),
    ensures
        word_bytes(value, width, little_endian).len() == width,
        word_value(word_bytes(value, width, little_endian), little_endian) == value,
    decreases width,
{
    let bytes = word_bytes(value, width, little_endian);
    if width > 0 {
        let rest = word_bytes(value / 256, (width - 1) as nat, little_endian);
        lemma_word_reads_back(value / 256, (width - 1) as nat, little_endian);
        if little_endian {
            assert(bytes.drop_first() == rest);
        } else {
            assert(bytes.drop_last() == rest);
        }
    }
}

/// The contents of an `auxv` file with these entries, as the kernel writes it.
pub open spec fn vector_bytes(entries: Seq<(u64, u64)>, width: nat, little_endian: bool) -> Seq<u8>
    decreases entries.len(),
{
    if entries.len() == 0 {
        word_bytes(0, width, little_endian) + word_bytes(0, width, little_endian)
    } else {
        word_bytes(entries[0].0 as nat, width, little_endian) + word_bytes(
            entries[0].1 as nat,
            width,
            little_endian,
        ) + vector_bytes(entries.drop_first(), width, little_endian)
    }
}

/// The entries, added to `so_far` one after the other.
pub open spec fn insert_all(so_far: Map<u64, u64>, entries: Seq<(u64, u64)>) -> Map<u64, u64>
    decreases entries.len(),
{
    if entries.len() == 0 {
        so_far
    } else {
        insert_all(so_far.insert(entries[0].0, entries[0].1), entries.drop_first())
    }
}

/// Tells whether the entries can stand in a vector of words of `width` bytes.
pub open spec fn storable(entries: Seq<(u64, u64)>, width: nat) -> bool {
    forall|i: int| #![trigger entries[i]]
        0 <= i < entries.len() ==> {
            &&& entries[i].0 < byte_values(width)
            &&& entries[i].1 < byte_values(width)
            &&& entries[i] != (0u64, 0u64)
        }
}

proof fn lemma_entries_read_back(
    entries: Seq<(u64, u64)>,
    width: nat,
    little_endian: bool,
    so_far: Map<u64, u64>,
)
    requires
        1 <= width <= 8,
        storable(entries, width),
    ensures
        entries_from(vector_bytes(entries, width, little_endian), width, little_endian, so_far)
            == Some(insert_all(so_far, entries)),
    decreases entries.len(),
{
    let content = vector_bytes(entries, width, little_endian);
    assert(0 < byte_values(width)) by {
        reveal_with_fuel(byte_values, 9);
    }
    let (key, value) = if entries.len() == 0 {
        (0u64, 0u64)
    } else {
        entries[0]
    };
    let first = word_bytes(key as nat, width, little_endian);
    let second = word_bytes(value as nat, width, little_endian);
    lemma_word_reads_back(key as nat, width, little_endian);
    lemma_word_reads_back(value as nat, width, little_endian);
    assert(content.take(width as int) == first);
    assert(content.subrange(width as int, 2 * width as int) == second);
    if entries.len() > 0 {
        let rest = entries.drop_first();
        assert forall|i: int| #![trigger rest[i]] 0 <= i < rest.len() implies {
            &&& rest[i].0 < byte_values(width)
            &&& rest[i].1 < byte_values(width)
            &&& rest[i] != (0u64, 0u64)
        } by {
            assert(rest[i] == entries[i + 1]);
        }
        lemma_entries_read_back(rest, width, little_endian, so_far.insert(key, value));
        assert(content.skip(2 * width as int) == vector_bytes(rest, width, little_endian));
    }
}

/// The entries that the kernel wrote are the entries that are read.
pub proof fn vector_reads_back(entries: Seq<(u64, u64)>, width: nat, little_endian: bool)
    requires
        1 <= width <= 8,
        storable(entries, width),
    ensures
        auxiliary_vector(vector_bytes(entries, width, little_endian), width, little_endian)
            == Some(insert_all(Map::empty(), entries)),
{
    lemma_entries_read_back(entries, width, little_endian, Map::empty());
    let key = if entries.len() == 0 {
        0
    } else {
        entries[0].0 as nat
    };
    assert(0 < byte_values(width)) by {
        reveal_with_fuel(byte_values, 9);
    }
    lemma_word_reads_back(key, width, little_endian);
}

/// The places of the bytes of a word: on a little-endian machine the first byte counts the ones, on
/// a big-endian one the last byte does, and the other bytes count 256 times as much as they do
/// without it.
pub proof fn bytes_have_their_places(bytes: Seq<u8>, b: u8)
    ensures
        word_value(seq![], true) == 0,
        word_value(seq![], false) == 0,
        word_value(seq![b] + bytes, true) == b + 256 * word_value(bytes, true),
        word_value(bytes.push(b), false) == 256 * word_value(bytes, false) + b,
{
    assert((seq![b] + bytes).drop_first() == bytes);
    assert(bytes.push(b).drop_last() == bytes);
}

/// The bytes of a word are as many as its width, and stand for its value in either byte order.
pub proof fn words_read_back(value: nat, width: nat, little_endian: bool)
    requires
        value < byte_values(width),
    ensures
        word_bytes(value, width, little_endian).len() == width,
        word_value(word_bytes(value, width, little_endian), little_endian) == value,
{
    lemma_word_reads_back(value, width, little_endian);
}

/// Of two entries with the same key the later one counts.
pub proof fn the_last_entry_counts(so_far: Map<u64, u64>, entries: Seq<(u64, u64)>, key: u64, value: u64)
    ensures
        insert_all(so_far, seq![]) == so_far,
        insert_all(so_far, entries.push((key, value))) == insert_all(so_far, entries).insert(
            key,
            value,
        ),
    decreases entries.len(),
{
    let more = entries.push((key, value));
    if entries.len() == 0 {
        assert(more.drop_first() == entries);
        assert(insert_all(so_far.insert(key, value), entries) == so_far.insert(key, value));
    } else {
        the_last_entry_counts(
            so_far.insert(entries[0].0, entries[0].1),
            entries.drop_first(),
            key,
            value,
        );
        assert(more.drop_first() =~= entries.drop_first().push((key, value)));
    }
}

proof fn lemma_rest_is_not_read(
    entries: Seq<(u64, u64)>,
    width: nat,
    little_endian: bool,
    so_far: Map<u64, u64>,
    rest: Seq<u8>,
    n: int,
)
    requires
        1 <= width <= 8,
        storable(entries, width),
        0 <= n < vector_bytes(entries, width, little_endian).len(),
    ensures
        entries_from(
            vector_bytes(entries, width, little_endian) + rest,
            width,
            little_endian,
            so_far,
        ) == Some(insert_all(so_far, entries)),
        entries_from(
            vector_bytes(entries, width, little_endian).take(n),
            width,
            little_endian,
            so_far,
        ) is None,
    decreases entries.len(),
{
    let written = vector_bytes(entries, width, little_endian);
    let content = written + rest;
    let short = written.take(n);
    let w = width as int;
    assert(0 < byte_values(width)) by {
        reveal_with_fuel(byte_values, 9);
    }
    assert(byte_values(width) <= 0x1_0000_0000_0000_0000) by {
        reveal_with_fuel(byte_values, 9);
    }
    if entries.len() == 0 {
        lemma_word_reads_back(0, width, little_endian);
        let zero = word_bytes(0, width, little_endian);
        assert(written == zero + zero);
        assert(content.take(w) =~= zero);
        assert(content.subrange(w, 2 * w) =~= zero);
        assert(short.len() < 2 * w);
    } else {
        let key = entries[0].0;
        let value = entries[0].1;
        let later = entries.drop_first();
        let first = word_bytes(key as nat, width, little_endian);
        let second = word_bytes(value as nat, width, little_endian);
        let tail = vector_bytes(later, width, little_endian);
        lemma_word_reads_back(key as nat, width, little_endian);
        lemma_word_reads_back(value as nat, width, little_endian);
        assert forall|i: int| #![trigger later[i]] 0 <= i < later.len() implies {
            &&& later[i].0 < byte_values(width)
            &&& later[i].1 < byte_values(width)
            &&& later[i] != (0u64, 0u64)
        } by {
            assert(later[i] == entries[i + 1]);
        }
        assert(written == first + second + tail);
        assert(content.take(w) =~= first);
        assert(content.subrange(w, 2 * w) =~= second);
        assert(content.skip(2 * w) =~= tail + rest);
        lemma_vector_is_not_empty(later, width, little_endian);
        let m: int = if n >= 2 * w {
            n - 2 * w
        } else {
            0
        };
        lemma_rest_is_not_read(later, width, little_endian, so_far.insert(key, value), rest, m);
        if n >= 2 * w {
            assert(short.take(w) =~= first);
            assert(short.subrange(w, 2 * w) =~= second);
            assert(short.skip(2 * w) =~= tail.take(m));
        }
    }
}

proof fn lemma_vector_is_not_empty(entries: Seq<(u64, u64)>, width: nat, little_endian: bool)
    requires
        1 <= width <= 8,
        storable(entries, width),
    ensures
        vector_bytes(entries, width, little_endian).len() >= 2 * width,
    decreases entries.len(),
{
    assert(0 < byte_values(width)) by {
        reveal_with_fuel(byte_values, 9);
    }
    if entries.len() == 0 {
        lemma_word_reads_back(0, width, little_endian);
    } else {
        lemma_word_reads_back(entries[0].0 as nat, width, little_endian);
        lemma_word_reads_back(entries[0].1 as nat, width, little_endian);
    }
}

/// What follows the pair of zeros is not read; a vector that ends before it is none, but for an
/// empty file, which holds no entry.
pub proof fn a_vector_ends_at_the_zeros(
    entries: Seq<(u64, u64)>,
    width: nat,
    little_endian: bool,
    rest: Seq<u8>,
    n: int,
)
    requires
        1 <= width <= 8,
        storable(entries, width),
        0 < n < vector_bytes(entries, width, little_endian).len(),
    ensures
        auxiliary_vector(vector_bytes(entries, width, little_endian) + rest, width, little_endian)
            == Some(insert_all(Map::empty(), entries)),
        auxiliary_vector(
            vector_bytes(entries, width, little_endian).take(n),
            width,
            little_endian,
        ) is None,
        auxiliary_vector(seq![], width, little_endian) == Some(Map::<u64, u64>::empty()),
{
    lemma_rest_is_not_read(entries, width, little_endian, Map::empty(), rest, n);
}

} // verus!
