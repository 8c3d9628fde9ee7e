//! Integers written as text.
use vstd::prelude::*;
use vstd::utf8::{encode_utf8, is_ascii_chars, is_ascii_chars_encode_utf8};

use crate::text::{is_space, is_trimmed, is_word, utf8_text};

verus! {

/// The value of a digit, for the radixes 2 to 36; letters count in either case.
pub open spec fn digit_value(c: char) -> nat {
    if '0' <= c <= '9' {
        (c as int - '0' as int) as nat
    } else if 'a' <= c <= 'z' {
        (c as int - 'a' as int + 10) as nat
    } else if 'A' <= c <= 'Z' {
        (c as int - 'A' as int + 10) as nat
    } else {
        36
    }
}

/// Tells whether `s` is one or more digits of `radix`.
pub open spec fn is_digits(s: Seq<char>, radix: nat) -> bool {
    &&& s.len() > 0
    &&& forall|i: int| 0 <= i < s.len() ==> digit_value(#[trigger] s[i]) < radix
}

/// The number whose digits are `s`, the most significant one first.
pub open spec fn digits_value(s: Seq<char>, radix: nat) -> nat
    decreases s.len(),
{
    if s.len() == 0 {
        0
    } else {
        digits_value(s.drop_last(), radix) * radix + digit_value(s.last())
    }
}

/// An unsigned number: digits, after an optional `+`.
pub open spec fn unsigned(s: Seq<char>, radix: nat) -> Option<nat> {
    let digits = if s.len() > 0 && s[0] == '+' {
        s.drop_first()
    } else {
        s
    };
    if is_digits(digits, radix) {
        Some(digits_value(digits, radix))
    } else {
        None
    }
}

/// A signed number: digits, after an optional `+` or `-`.
pub open spec fn signed(s: Seq<char>, radix: nat) -> Option<int> {
    if s.len() > 0 && s[0] == '-' {
        if is_digits(s.drop_first(), radix) {
            Some(-digits_value(s.drop_first(), radix))
        } else {
            None
        }
    } else {
        match unsigned(s, radix) {
            Some(n) => Some(n as int),
            None => None,
        }
    }
}

/// The number, if there is one and it lies between the bounds.
pub open spec fn within(n: Option<int>, min: int, max: int) -> Option<int> {
    match n {
        Some(v) if min <= v <= max => Some(v),
        _ => None,
    }
}

/// `unsigned` as an integer.
pub open spec fn unsigned_int(s: Seq<char>, radix: nat) -> Option<int> {
    match unsigned(s, radix) {
        Some(n) => Some(n as int),
        None => None,
    }
}

proof fn lemma_digits_value_grows(s: Seq<char>, n: int, radix: nat)
    requires
        radix >= 1,
        0 <= n <= s.len(),
    ensures
        digits_value(s.take(n), radix) <= digits_value(s, radix),
    decreases s.len(),
{
    if n < s.len() {
        let short = s.drop_last();
        lemma_digits_value_grows(short, n, radix);
        assert(short.take(n) == s.take(n));
        let v = digits_value(short, radix);
        assert(v <= v * radix) by (nonlinear_arith)
            requires
                radix >= 1,
                v >= 0,
        ;
    } else {
        assert(s.take(n) == s);
    }
}

/// The value of a digit of radix 10 or 16, or at least 36 for any other character.
fn digit(c: char) -> (r: u64)
    ensures
        r == digit_value(c),
{
    if '0' <= c && c <= '9' {
        c as u64 - '0' as u64
    } else if 'a' <= c && c <= 'z' {
        c as u64 - 'a' as u64 + 10
    } else if 'A' <= c && c <= 'Z' {
        c as u64 - 'A' as u64 + 10
    } else {
        36
    }
}

/// Reads `chars[from..to]` as digits of a number no larger than `max`.
fn read_digits(chars: &Vec<char>, from: usize, to: usize, radix: u64, max: u64) -> (r: Option<u64>)
    requires
        from <= to <= chars@.len(),
        2 <= radix <= 36,
    ensures
        ({
            let s = chars@.subrange(from as int, to as int);
            match r {
                Some(v) => is_digits(s, radix as nat) && digits_value(s, radix as nat) == v && v
                    <= max,
                None => !(is_digits(s, radix as nat) && digits_value(s, radix as nat) <= max),
            }
        }),
{
    let ghost s = chars@.subrange(from as int, to as int);
    if from == to {
        return None;
    }
    let mut value: u64 = 0;
    let mut i: usize = from;
    while i < to
        invariant
            from <= i <= to <= chars@.len(),
            from < to,
            2 <= radix <= 36,
            s == chars@.subrange(from as int, to as int),
            value == digits_value(s.take(i - from), radix as nat),
            value <= max,
            forall|k: int| 0 <= k < i - from ==> digit_value(#[trigger] s[k]) < radix,
        decreases to - i,
    {
        let d: u64 = digit(chars[i]);
        let ghost k = i - from;
        assert(s[k] == chars@[i as int]);
        assert(s.take(k + 1).drop_last() == s.take(k));
        assert(s.take(k + 1).last() == s[k]);
        if d >= radix {
            return None;
        }
        assert(value as u128 * radix as u128 <= u64::MAX * 36) by (nonlinear_arith)
            requires
                value <= u64::MAX,
                radix <= 36,
        ;
        let next: u128 = value as u128 * radix as u128 + d as u128;
        assert(next == digits_value(s.take(k + 1), radix as nat));
        if next > max as u128 {
            proof {
                lemma_digits_value_grows(s, k + 1, radix as nat);
            }
            return None;
        }
        value = next as u64;
        i = i + 1;
    }
    assert(s.take(to - from) == s);
    Some(value)
}

/// Reads `chars[from..to]` as an unsigned number of the given radix, no larger than `max`.
pub fn read_unsigned(chars: &Vec<char>, from: usize, to: usize, radix: u64, max: u64) -> (r: Option<
    u64,
>)
    requires
        from <= to <= chars@.len(),
        2 <= radix <= 36,
    ensures
        r is Some <==> within(
            unsigned_int(chars@.subrange(from as int, to as int), radix as nat),
            0,
            max as int,
        ) is Some,
        r matches Some(v) ==> within(
            unsigned_int(chars@.subrange(from as int, to as int), radix as nat),
            0,
            max as int,
        ) == Some(v as int),
{
    let ghost s = chars@.subrange(from as int, to as int);
    if from < to && chars[from] == '+' {
        assert(s.drop_first() == chars@.subrange(from + 1, to as int));
        read_digits(chars, from + 1, to, radix, max)
    } else {
        read_digits(chars, from, to, radix, max)
    }
}

/// Reads `chars[from..to]` as a signed decimal number between `min` and `max`.
pub fn read_signed(chars: &Vec<char>, from: usize, to: usize, min: i32, max: i32) -> (r: Option<
    i32,
>)
    requires
        from <= to <= chars@.len(),
        min <= 0 <= max,
    ensures
        r is Some <==> within(
            signed(chars@.subrange(from as int, to as int), 10),
            min as int,
            max as int,
        ) is Some,
        r matches Some(v) ==> within(
            signed(chars@.subrange(from as int, to as int), 10),
            min as int,
            max as int,
        ) == Some(v as int),
{
    let ghost s = chars@.subrange(from as int, to as int);
    if from < to && chars[from] == '-' {
        assert(s.drop_first() == chars@.subrange(from + 1, to as int));
        let least: i64 = min as i64;
        match read_digits(chars, from + 1, to, 10, (-least) as u64) {
            Some(v) => Some((-(v as i64)) as i32),
            None => None,
        }
    } else {
        match read_unsigned(chars, from, to, 10, max as u64) {
            Some(v) => Some(v as i32),
            None => None,
        }
    }
}

/// The character of a decimal digit.
pub open spec fn digit_char(d: nat) -> char
    recommends
        d < 10,
{
    ('0' as int + d) as char
}

/// The decimal digits of `n`, without leading zeros.
pub open spec fn decimal_digits(n: nat) -> Seq<char>
    decreases n,
{
    if n < 10 {
        seq![digit_char(n)]
    } else {
        decimal_digits(n / 10).push(digit_char(n % 10))
    }
}

/// `n` in decimal, with a `-` before a negative number.
pub open spec fn decimal(n: int) -> Seq<char> {
    if n < 0 {
        seq!['-'] + decimal_digits((-n) as nat)
    } else {
        decimal_digits(n as nat)
    }
}

proof fn lemma_digit_char(d: nat)
    requires
        d < 10,
    ensures
        '0' <= digit_char(d) <= '9',
        digit_value(digit_char(d)) == d,
{
}

/// Decimal digits are digits, and they read back as the number that they were made of.
pub proof fn lemma_decimal_digits(n: nat)
    ensures
        is_digits(decimal_digits(n), 10),
        digits_value(decimal_digits(n), 10) == n,
        forall|i: int|
            0 <= i < decimal_digits(n).len() ==> '0' <= #[trigger] decimal_digits(n)[i] <= '9',
    decreases n,
{
    if n < 10 {
        lemma_digit_char(n);
        let s = decimal_digits(n);
        assert(s.drop_last() == Seq::<char>::empty());
        assert(digits_value(s.drop_last(), 10) == 0);
    } else {
        let short = decimal_digits(n / 10);
        lemma_decimal_digits(n / 10);
        lemma_digit_char(n % 10);
        let s = decimal_digits(n);
        assert(s.drop_last() == short);
        assert forall|i: int| 0 <= i < s.len() implies '0' <= #[trigger] s[i] <= '9' && digit_value(
            s[i],
        ) < 10 by {
            if i < short.len() {
                assert(s[i] == short[i]);
            }
        }
    }
}

/// A number in decimal reads back as that number.
pub proof fn decimal_reads_back(n: int)
    ensures
        signed(decimal(n), 10) == Some(n),
        n >= 0 ==> unsigned(decimal(n), 10) == Some(n as nat),
{
    if n < 0 {
        let digits = decimal_digits((-n) as nat);
        lemma_decimal_digits((-n) as nat);
        assert(decimal(n).drop_first() == digits);
    } else {
        lemma_decimal_digits(n as nat);
    }
}

/// A number in decimal is made of ASCII characters that are neither white space nor slashes.
pub proof fn lemma_decimal_characters(n: int)
    ensures
        decimal(n).len() > 0,
        forall|i: int|
            0 <= i < decimal(n).len() ==> {
                let c = #[trigger] decimal(n)[i];
                c == '-' || '0' <= c <= '9'
            },
        is_ascii_chars(decimal(n)),
{
    lemma_decimal_digits(if n < 0 {
        (-n) as nat
    } else {
        n as nat
    });
    if n < 0 {
        let digits = decimal_digits((-n) as nat);
        assert forall|i: int| 0 <= i < decimal(n).len() implies {
            let c = #[trigger] decimal(n)[i];
            c == '-' || '0' <= c <= '9'
        } by {
            if i > 0 {
                assert(decimal(n)[i] == digits[i - 1]);
            }
        }
    }
}

/// `n` in decimal, as the bytes of its characters.
pub fn decimal_bytes(n: i32) -> (r: Vec<u8>)
    ensures
        r@ == encode_utf8(decimal(n as int)),
{
    let value: i64 = n as i64;
    let magnitude: u64 = if value < 0 {
        (-value) as u64
    } else {
        value as u64
    };
    // The digits, the least significant one first.
    let mut reversed: Vec<u8> = Vec::new();
    let mut left: u64 = magnitude;
    let ghost all = decimal_digits(magnitude as nat);
    let ghost mut done: Seq<char> = seq![];
    while left >= 10
        invariant
            all == decimal_digits(left as nat) + done,
            reversed@.len() == done.len(),
            forall|i: int|
                0 <= i < done.len() ==> {
                    &&& '0' <= #[trigger] done[i] <= '9'
                    &&& reversed@[done.len() - 1 - i] == done[i] as u8
                },
        decreases left,
    {
        let d: u8 = '0' as u8 + (left % 10) as u8;
        proof {
            let c = digit_char((left % 10) as nat);
            lemma_digit_char((left % 10) as nat);
            assert(decimal_digits(left as nat) == decimal_digits((left / 10) as nat).push(c));
            assert(decimal_digits((left / 10) as nat).push(c) + done == decimal_digits(
                (left / 10) as nat,
            ) + (seq![c] + done));
            done = seq![c] + done;
            assert(d == c as u8);
        }
        reversed.push(d);
        left = left / 10;
    }
    let last: u8 = '0' as u8 + left as u8;
    proof {
        let c = digit_char(left as nat);
        lemma_digit_char(left as nat);
        assert(last == c as u8);
        done = seq![c] + done;
        assert(all == done);
    }
    reversed.push(last);
    let mut r: Vec<u8> = Vec::new();
    if value < 0 {
        r.push('-' as u8);
    }
    let ghost sign: Seq<char> = if value < 0 {
        seq!['-']
    } else {
        seq![]
    };
    let mut i: usize = reversed.len();
    while i > 0
        invariant
            i <= reversed@.len(),
            reversed@.len() == done.len(),
            forall|k: int|
                0 <= k < done.len() ==> {
                    &&& '0' <= #[trigger] done[k] <= '9'
                    &&& reversed@[done.len() - 1 - k] == done[k] as u8
                },
            sign.len() <= 1,
            sign.len() == 1 ==> sign[0] == '-',
            r@.len() == sign.len() + (reversed@.len() - i),
            forall|k: int| 0 <= k < r@.len() ==> #[trigger] r@[k] == (sign + done)[k] as u8,
        decreases i,
    {
        i = i - 1;
        assert((sign + done)[r@.len() as int] == done[reversed@.len() - 1 - i]);
        r.push(reversed[i]);
    }
    proof {
        assert(sign + done == decimal(n as int));
        lemma_decimal_characters(n as int);
        is_ascii_chars_encode_utf8(decimal(n as int));
        assert(r@ =~= encode_utf8(decimal(n as int)));
    }
    r
}

/// `n` in decimal.
pub fn decimal_text(n: i32) -> (r: String)
    ensures
        r@ == decimal(n as int),
{
    broadcast use {vstd::utf8::encode_utf8_valid_utf8, vstd::utf8::encode_utf8_decode_utf8};

    match utf8_text(decimal_bytes(n).as_slice()) {
        Some(text) => text,
        None => String::new(),
    }
}

/// A number in decimal is a word, and no white space can be taken off it.
pub proof fn decimal_is_a_word(n: int)
    ensures
        is_word(decimal(n)),
        is_trimmed(decimal(n)),
{
    lemma_decimal_characters(n);
    assert forall|i: int| 0 <= i < decimal(n).len() implies !is_space(#[trigger] decimal(n)[i]) by {
        let c = decimal(n)[i];
        assert(c == '-' || '0' <= c <= '9');
    }
    let last = decimal(n)[decimal(n).len() - 1];
    assert(!is_space(decimal(n)[0]) && !is_space(last));
}

/// The values of digits: those of the decimal digits, then those of the letters in either case.
pub proof fn digits_have_their_values(c: char)
    ensures
        '0' <= c <= '9' ==> digit_value(c) + 48 == c as int,
        'a' <= c <= 'z' ==> digit_value(c) + 87 == c as int,
        'A' <= c <= 'Z' ==> digit_value(c) + 55 == c as int,
        !('0' <= c <= '9') && !('a' <= c <= 'z') && !('A' <= c <= 'Z') ==> digit_value(c) >= 36,
{
}

/// Numbers are positional: a digit behind a number multiplies it by the radix and is added to it,
/// and a single digit is its own value.
pub proof fn a_further_digit_counts(s: Seq<char>, c: char, radix: nat)
    requires
        radix <= 36,
        digit_value(c) < radix,
    ensures
        unsigned(seq![c], radix) == Some(digit_value(c)),
        unsigned(s, radix) matches Some(n) ==> unsigned(s.push(c), radix) == Some(
            n * radix + digit_value(c),
        ),
{
    let one = seq![c];
    assert(c != '+');
    assert(one.drop_last() == Seq::<char>::empty());
    assert(digits_value(one.drop_last(), radix) == 0);
    assert(0 * radix == 0);
    assert(is_digits(one, radix));
    if unsigned(s, radix) is Some {
        let digits = if s.len() > 0 && s[0] == '+' {
            s.drop_first()
        } else {
            s
        };
        let longer = digits.push(c);
        assert(s.push(c)[0] == s[0]);
        assert(s.push(c).drop_first() =~= s.drop_first().push(c));
        assert(longer.drop_last() == digits);
        assert forall|i: int| 0 <= i < longer.len() implies digit_value(#[trigger] longer[i])
            < radix by {
            if i < digits.len() {
                assert(digit_value(digits[i]) < radix);
            }
        }
    }
}

/// A `+` in front of digits changes nothing, a `-` turns the sign of the number.
pub proof fn a_sign_counts(s: Seq<char>, radix: nat)
    requires
        radix <= 36,
        is_digits(s, radix),
    ensures
        unsigned(s, radix) is Some,
        unsigned(seq!['+'] + s, radix) == unsigned(s, radix),
        unsigned(seq!['-'] + s, radix) is None,
        signed(s, radix) == Some(unsigned(s, radix)->Some_0 as int),
        signed(seq!['+'] + s, radix) == signed(s, radix),
        signed(seq!['-'] + s, radix) == Some(-(unsigned(s, radix)->Some_0 as int)),
{
    assert(digit_value(s[0]) < radix);
    assert((seq!['+'] + s).drop_first() == s);
    assert((seq!['-'] + s).drop_first() == s);
    assert(digit_value((seq!['-'] + s)[0]) >= 36);
}

/// What is no number: nothing, a sign alone, and a text with anything but a digit behind its first
/// character or with neither a digit nor a sign as its first.
pub proof fn only_digits_make_a_number(s: Seq<char>, i: int, radix: nat)
    requires
        radix <= 36,
        s.len() == 0 || (s.len() == 1 && (s[0] == '+' || s[0] == '-')) || (0 <= i < s.len()
            && digit_value(s[i]) >= radix && (i > 0 || (s[0] != '+' && s[0] != '-'))),
    ensures
        unsigned(s, radix) is None,
        signed(s, radix) is None,
{
    if s.len() > 0 {
        let rest = s.drop_first();
        if i > 0 && i < s.len() {
            assert(rest[i - 1] == s[i]);
        }
        if s.len() == 1 && (s[0] == '+' || s[0] == '-') {
            assert(rest.len() == 0);
            assert(digit_value(s[0]) >= 36);
        } else if i > 0 {
            assert(!is_digits(rest, radix));
            assert(!is_digits(s, radix));
        } else {
            assert(!is_digits(s, radix));
        }
    }
}

/// A number is taken exactly if it lies between the bounds.
pub proof fn numbers_in_bounds_are_taken(n: int, min: int, max: int)
    ensures
        min <= n <= max ==> within(Some(n), min, max) == Some(n),
        !(min <= n <= max) ==> within(Some(n), min, max) is None,
        within(None, min, max) is None,
{
}

/// How a number is written: one digit as itself, a larger number digit by digit, a negative one
/// with a `-` in front.
pub proof fn decimal_digit_by_digit(n: int)
    ensures
        0 <= n < 10 ==> decimal(n) == seq![(48 + n) as char],
        n >= 10 ==> decimal(n) == decimal(n / 10).push((48 + n % 10) as char),
        n < 0 ==> decimal(n) == seq!['-'] + decimal(-n),
{
}

} // verus!
