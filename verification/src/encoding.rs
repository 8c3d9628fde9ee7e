//! Facts about texts and the bytes that encode them.
use vstd::prelude::*;
use vstd::utf8::{
    char_u32_cast, encode_scalar, encode_utf8, encode_utf8_decode_utf8, encode_utf8_first_scalar,
    encode_utf8_valid_utf8, has_width_1_encoding, is_char_boundary, pop_first_scalar,
};

use crate::text::lacks;

verus! {

/// The bytes of two texts, one behind the other, are the bytes of the two texts.
pub proof fn encoding_of_two_texts(a: Seq<char>, b: Seq<char>)
    ensures
        encode_utf8(a + b) == encode_utf8(a) + encode_utf8(b),
    decreases a.len(),
{
    if a.len() == 0 {
        assert(a + b == b);
        assert(encode_utf8(a) + encode_utf8(b) == encode_utf8(b));
    } else {
        encoding_of_two_texts(a.drop_first(), b);
        assert((a + b).drop_first() == a.drop_first() + b);
        assert(encode_utf8(a + b) =~= encode_utf8(a) + encode_utf8(b));
    }
}

proof fn lemma_scalar_bytes(scalar: u32)
    ensures
        has_width_1_encoding(scalar) ==> encode_scalar(scalar) == seq![scalar as u8],
        !has_width_1_encoding(scalar) ==> forall|i: int|
            0 <= i < encode_scalar(scalar).len() ==> #[trigger] encode_scalar(scalar)[i] >= 0x80,
        encode_scalar(scalar).len() > 0,
{
    if has_width_1_encoding(scalar) {
        assert(scalar & 0x7f == scalar) by (bit_vector)
            requires
                scalar <= 0x7f,
        ;
    } else {
        let a = ((scalar >> 6) & 0x1f) as u8;
        let b = ((scalar >> 12) & 0x0f) as u8;
        let c = ((scalar >> 18) & 0x7) as u8;
        let d = (scalar & 0x3f) as u8;
        let e = ((scalar >> 6) & 0x3f) as u8;
        let f = ((scalar >> 12) & 0x3f) as u8;
        assert(0xc0 | a >= 0x80u8) by (bit_vector);
        assert(0xe0 | b >= 0x80u8) by (bit_vector);
        assert(0xf0 | c >= 0x80u8) by (bit_vector);
        assert(0x80 | d >= 0x80u8) by (bit_vector);
        assert(0x80 | e >= 0x80u8) by (bit_vector);
        assert(0x80 | f >= 0x80u8) by (bit_vector);
    }
}

/// An ASCII character that does not occur in a text does not occur in its bytes either.
pub proof fn encoding_lacks(s: Seq<char>, c: char)
    requires
        (c as u32) < 128,
        lacks(s, c),
    ensures
        lacks(encode_utf8(s), c as u8),
    decreases s.len(),
{
    if s.len() > 0 {
        let rest = s.drop_first();
        let scalar = s[0] as u32;
        assert forall|i: int| 0 <= i < rest.len() implies rest[i] != c by {
            assert(rest[i] == s[i + 1]);
        }
        encoding_lacks(rest, c);
        lemma_scalar_bytes(scalar);
        let head = encode_scalar(scalar);
        assert(encode_utf8(s) == head + encode_utf8(rest));
        assert(scalar != c as u32) by {
            if scalar == c as u32 {
                char_u32_cast(s[0], scalar);
                char_u32_cast(c, scalar);
            }
        }
        assert forall|i: int| 0 <= i < encode_utf8(s).len() implies encode_utf8(s)[i] != c as u8 by {
            if i < head.len() {
                assert(encode_utf8(s)[i] == head[i]);
            } else {
                assert(encode_utf8(s)[i] == encode_utf8(rest)[i - head.len()]);
            }
        }
    }
}

/// The bytes of one ASCII character.
pub proof fn encoding_of_ascii(c: char)
    requires
        (c as u32) < 128,
    ensures
        encode_utf8(seq![c]) == seq![c as u8],
{
    lemma_scalar_bytes(c as u32);
    let s = seq![c];
    assert(s.drop_first() == Seq::<char>::empty());
    assert(encode_utf8(s.drop_first()) == Seq::<u8>::empty());
    assert(encode_utf8(s) =~= seq![c as u8]);
}

/// A text can be cut after some of its bytes exactly if these are the bytes of its first
/// characters.
pub proof fn cuts_are_between_characters(s: Seq<char>, at: int)
    ensures
        is_char_boundary(encode_utf8(s), at) <==> exists|n: int|
            0 <= n <= s.len() && #[trigger] encode_utf8(s.take(n)).len() == at,
    decreases s.len(),
{
    let bytes = encode_utf8(s);
    encode_utf8_valid_utf8(s);
    if at == 0 {
        assert(s.take(0) == Seq::<char>::empty());
        assert(encode_utf8(s.take(0)).len() == 0);
    } else if at < 0 {
    } else if s.len() == 0 {
        assert forall|n: int| 0 <= n <= s.len() implies encode_utf8(s.take(n)).len() == 0 by {
            assert(s.take(n) == s);
        }
    } else {
        let rest = s.drop_first();
        let width = encode_scalar(s[0] as u32).len();
        encode_utf8_first_scalar(s);
        lemma_scalar_bytes(s[0] as u32);
        assert(bytes == encode_scalar(s[0] as u32) + encode_utf8(rest));
        assert(pop_first_scalar(bytes) =~= encode_utf8(rest));
        cuts_are_between_characters(rest, at - width);
        assert forall|n: int| 1 <= n <= s.len() implies #[trigger] encode_utf8(s.take(n)).len()
            == width + encode_utf8(rest.take(n - 1)).len() by {
            assert(s.take(n).drop_first() == rest.take(n - 1));
            assert(s.take(n)[0] == s[0]);
        }
        assert(s.take(0) == Seq::<char>::empty());
        if is_char_boundary(encode_utf8(rest), at - width) {
            let m = choose|m: int|
                0 <= m <= rest.len() && #[trigger] encode_utf8(rest.take(m)).len() == at - width;
            assert(encode_utf8(s.take(m + 1)).len() == at);
        }
        if exists|n: int| 0 <= n <= s.len() && #[trigger] encode_utf8(s.take(n)).len() == at {
            let n = choose|n: int| 0 <= n <= s.len() && #[trigger] encode_utf8(s.take(n)).len() == at;
            assert(n >= 1);
            assert(encode_utf8(rest.take(n - 1)).len() == at - width);
        }
        if at > bytes.len() {
            assert forall|n: int| 0 <= n <= s.len() implies #[trigger] encode_utf8(s.take(n)).len()
                <= bytes.len() by {
                assert(s == s.take(n) + s.skip(n));
                encoding_of_two_texts(s.take(n), s.skip(n));
            }
        }
    }
}

/// The bytes of a text are those of no other text.
pub proof fn encodings_differ(a: Seq<char>, b: Seq<char>)
    requires
        encode_utf8(a) == encode_utf8(b),
    ensures
        a == b,
{
    encode_utf8_decode_utf8(a);
    encode_utf8_decode_utf8(b);
}

/// A character outside ASCII takes more than one byte.
pub proof fn wide_characters_take_more_bytes(c: char)
    requires
        (c as u32) >= 128,
    ensures
        encode_utf8(seq![c]).len() > 1,
{
    let s = seq![c];
    assert(s.drop_first() == Seq::<char>::empty());
    assert(encode_utf8(s.drop_first()) == Seq::<u8>::empty());
}

} // verus!
