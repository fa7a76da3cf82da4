//! Character classes and decimal numerals.
//!
//! Everything the translator needs to know about single characters lives here:
//! which characters separate words, how a number is written in decimal, and how
//! a decimal numeral is read back.

use vstd::prelude::*;

verus! {

/// The characters that carry the Unicode `White_Space` property.
pub open spec fn is_whitespace(c: char) -> bool {
    let n = c as u32;
    ||| 0x09 <= n <= 0x0D
    ||| n == 0x20
    ||| n == 0x85
    ||| n == 0xA0
    ||| n == 0x1680
    ||| 0x2000 <= n <= 0x200A
    ||| n == 0x2028
    ||| n == 0x2029
    ||| n == 0x202F
    ||| n == 0x205F
    ||| n == 0x3000
}

/// True when no character of `s` is whitespace.
pub open spec fn whitespace_free(s: Seq<char>) -> bool {
    forall|i: int| 0 <= i < s.len() ==> !is_whitespace(#[trigger] s[i])
}

/// Decides [`is_whitespace`].
pub fn char_is_whitespace(c: char) -> (b: bool)
    ensures
        b == is_whitespace(c),
{
    let n: u32 = c as u32;
    (0x09 <= n && n <= 0x0D) || n == 0x20 || n == 0x85 || n == 0xA0 || n == 0x1680 || (0x2000 <= n
        && n <= 0x200A) || n == 0x2028 || n == 0x2029 || n == 0x202F || n == 0x205F || n == 0x3000
}

/// Whether a character carries the Unicode `Alphabetic` property, as decided
/// by `char::is_alphabetic`.
pub uninterp spec fn is_alphabetic(c: char) -> bool;

/// `char::is_alphabetic`. The Unicode tables behind it are not restated here;
/// the result is only given the name [`is_alphabetic`].
#[verifier::external_body]
pub(crate) fn char_is_alphabetic(c: char) -> (b: bool)
    ensures
        b == is_alphabetic(c),
{
    c.is_alphabetic()
}

/// `String::push`: the string grows by exactly the given character.
#[verifier::external_body]
pub(crate) fn push_char(s: &mut String, c: char)
    ensures
        final(s)@ == old(s)@.push(c),
{
    s.push(c)
}

/// The character that writes the digit `d`.
pub open spec fn digit_char(d: nat) -> char {
    if d == 0 {
        '0'
    } else if d == 1 {
        '1'
    } else if d == 2 {
        '2'
    } else if d == 3 {
        '3'
    } else if d == 4 {
        '4'
    } else if d == 5 {
        '5'
    } else if d == 6 {
        '6'
    } else if d == 7 {
        '7'
    } else if d == 8 {
        '8'
    } else {
        '9'
    }
}

/// True for the ten ASCII digits.
pub open spec fn is_digit(c: char) -> bool {
    '0' <= c <= '9'
}

/// The value of an ASCII digit.
pub open spec fn digit_value(c: char) -> nat {
    (c as u32 - 0x30) as nat
}

/// The decimal numeral of `n`, without sign or leading zeros.
pub open spec fn decimal(n: nat) -> Seq<char>
    decreases n,
{
    if n < 10 {
        seq![digit_char(n)]
    } else {
        decimal(n / 10).push(digit_char(n % 10))
    }
}

/// The decimal numeral of an integer, with a leading `-` when negative.
pub open spec fn signed_decimal(v: int) -> Seq<char> {
    if v < 0 {
        seq!['-'] + decimal((-v) as nat)
    } else {
        decimal(v as nat)
    }
}

/// True when every character of `s` is an ASCII digit.
pub open spec fn all_digits(s: Seq<char>) -> bool {
    forall|i: int| 0 <= i < s.len() ==> is_digit(#[trigger] s[i])
}

/// The number that a string of digits denotes; zero for the empty string.
pub open spec fn digits_value(s: Seq<char>) -> nat
    decreases s.len(),
{
    if s.len() == 0 {
        0
    } else {
        10 * digits_value(s.drop_last()) + digit_value(s.last())
    }
}

/// The number that a sign and a string of digits denote, when it fits in
/// sixteen bits.
pub open spec fn parse_magnitude(negative: bool, body: Seq<char>) -> Option<i16> {
    if body.len() == 0 || !all_digits(body) {
        None
    } else {
        let magnitude = digits_value(body) as int;
        let value = if negative {
            -magnitude
        } else {
            magnitude
        };
        if -32768 <= value <= 32767 {
            Some(value as i16)
        } else {
            None
        }
    }
}

/// Reading of a signed 16-bit decimal numeral: an optional `+` or `-`, then
/// one or more digits whose value fits the type. Anything else is no number.
pub open spec fn parse_i16(s: Seq<char>) -> Option<i16> {
    if s.len() > 0 && s[0] == '-' {
        parse_magnitude(true, s.drop_first())
    } else if s.len() > 0 && s[0] == '+' {
        parse_magnitude(false, s.drop_first())
    } else {
        parse_magnitude(false, s)
    }
}

/// Every character of a decimal numeral is a digit.
pub proof fn lemma_decimal_digits(n: nat)
    ensures
        decimal(n).len() >= 1,
        all_digits(decimal(n)),
    decreases n,
{
    if n >= 10 {
        lemma_decimal_digits(n / 10);
        assert forall|i: int| 0 <= i < decimal(n).len() implies is_digit(
            #[trigger] decimal(n)[i],
        ) by {
            if i < decimal(n / 10).len() {
                assert(decimal(n)[i] == decimal(n / 10)[i]);
            }
        }
    }
}

/// A digit's character is a digit whose value is that digit.
pub proof fn lemma_digit_char(d: nat)
    requires
        d < 10,
    ensures
        is_digit(digit_char(d)),
        digit_value(digit_char(d)) == d,
{
}

/// Different numbers have different numerals.
pub proof fn lemma_decimal_injective(a: nat, b: nat)
    requires
        decimal(a) == decimal(b),
    ensures
        a == b,
    decreases a,
{
    lemma_decimal_digits(a / 10);
    lemma_decimal_digits(b / 10);
    lemma_digit_char(a % 10);
    lemma_digit_char(b % 10);
    if a < 10 && b < 10 {
        assert(decimal(a)[0] == digit_char(a));
        assert(decimal(b)[0] == digit_char(b));
    } else if a >= 10 && b >= 10 {
        let da = decimal(a / 10);
        let db = decimal(b / 10);
        assert(decimal(a) == da.push(digit_char(a % 10)));
        assert(decimal(b) == db.push(digit_char(b % 10)));
        assert(da.len() + 1 == db.len() + 1);
        assert(decimal(a).last() == digit_char(a % 10));
        assert(decimal(b).last() == digit_char(b % 10));
        assert(da =~= decimal(a).drop_last());
        assert(db =~= decimal(b).drop_last());
        lemma_decimal_injective(a / 10, b / 10);
        assert(digit_char(a % 10) == digit_char(b % 10));
    } else if a >= 10 {
        assert(decimal(a) == decimal(a / 10).push(digit_char(a % 10)));
        assert(decimal(a).len() >= 2);
        assert(decimal(b).len() == 1);
    } else {
        assert(decimal(b) == decimal(b / 10).push(digit_char(b % 10)));
        assert(decimal(b).len() >= 2);
        assert(decimal(a).len() == 1);
    }
}

/// The digits of a numeral denote the number it was written from.
pub proof fn lemma_digits_value_decimal(n: nat)
    ensures
        digits_value(decimal(n)) == n,
    decreases n,
{
    lemma_digit_char(n % 10);
    if n < 10 {
        let s = decimal(n);
        assert(s.drop_last().len() == 0);
        assert(digits_value(s.drop_last()) == 0);
        assert(s.last() == digit_char(n));
    } else {
        lemma_digits_value_decimal(n / 10);
        let s = decimal(n);
        assert(s.drop_last() =~= decimal(n / 10));
        assert(s.last() == digit_char(n % 10));
    }
}

/// What is written can be read back: the numeral of a 16-bit number reads
/// as that number.
pub proof fn lemma_read_back(v: i16)
    ensures
        parse_i16(signed_decimal(v as int)) == Some(v),
{
    let magnitude = if v < 0 {
        (-(v as int)) as nat
    } else {
        v as nat
    };
    lemma_decimal_digits(magnitude);
    lemma_digits_value_decimal(magnitude);
    let body = decimal(magnitude);
    if v < 0 {
        let s = seq!['-'] + body;
        assert(s[0] == '-');
        assert(s.drop_first() =~= body);
    } else {
        assert(is_digit(body[0]));
    }
}

/// Maps a value below ten to its digit.
fn digit_of(d: u64) -> (c: char)
    requires
        d < 10,
    ensures
        c == digit_char(d as nat),
{
    if d == 0 {
        '0'
    } else if d == 1 {
        '1'
    } else if d == 2 {
        '2'
    } else if d == 3 {
        '3'
    } else if d == 4 {
        '4'
    } else if d == 5 {
        '5'
    } else if d == 6 {
        '6'
    } else if d == 7 {
        '7'
    } else if d == 8 {
        '8'
    } else {
        '9'
    }
}

/// Appends the decimal numeral of `n` to `out`.
pub fn push_decimal(out: &mut String, n: u64)
    ensures
        final(out)@ == old(out)@ + decimal(n as nat),
    decreases n,
{
    if n >= 10 {
        push_decimal(out, n / 10);
    }
    push_char(out, digit_of(n % 10));
    assert(out@ =~= old(out)@ + decimal(n as nat));
}

/// Appends the decimal numeral of a signed 16-bit number to `out`.
pub fn push_signed(out: &mut String, v: i16)
    ensures
        final(out)@ == old(out)@ + signed_decimal(v as int),
{
    if v < 0 {
        push_char(out, '-');
        let magnitude: u64 = (-(v as i32)) as u64;
        push_decimal(out, magnitude);
        assert(out@ =~= old(out)@ + signed_decimal(v as int));
    } else {
        push_decimal(out, v as u64);
    }
}

/// Reads a signed 16-bit decimal numeral from `token[from..to]`.
pub fn read_i16(token: &Vec<char>, from: usize, to: usize) -> (r: Option<i16>)
    requires
        from <= to <= token.len(),
    ensures
        r == parse_i16(token@.subrange(from as int, to as int)),
{
    let ghost s = token@.subrange(from as int, to as int);
    let mut start: usize = from;
    let mut negative = false;
    if from < to && (token[from] == '-' || token[from] == '+') {
        negative = token[from] == '-';
        start = from + 1;
    }
    let ghost body = token@.subrange(start as int, to as int);
    proof {
        if from < to {
            assert(s[0] == token@[from as int]);
        }
        if start == from + 1 {
            assert(body =~= s.drop_first());
        } else {
            assert(body =~= s);
        }
        assert(parse_i16(s) == parse_magnitude(negative, body));
    }
    if start == to {
        return None;
    }
    let mut value: i32 = 0;
    let mut i: usize = start;
    proof {
        assert(body.take(0).len() == 0);
    }
    while i < to
        invariant
            start <= i <= to <= token.len(),
            start < to,
            body == token@.subrange(start as int, to as int),
            all_digits(body.take(i - start)),
            value == digits_value(body.take(i - start)),
            0 <= value <= 32768,
            parse_i16(token@.subrange(from as int, to as int)) == parse_magnitude(negative, body),
        decreases to - i,
    {
        let c = token[i];
        let ghost prefix = body.take(i - start + 1);
        proof {
            assert(body[i - start] == c);
            assert(prefix.drop_last() =~= body.take(i - start));
            assert(prefix.last() == c);
        }
        if !('0' <= c && c <= '9') {
            proof {
                assert(!is_digit(body[i - start]));
            }
            return None;
        }
        let d: i32 = (c as u32 - 0x30) as i32;
        let next: i32 = value * 10 + d;
        proof {
            assert(next == digits_value(prefix));
            assert forall|k: int| 0 <= k < prefix.len() implies is_digit(#[trigger] prefix[k]) by {
                if k < i - start {
                    assert(prefix[k] == body.take(i - start)[k]);
                }
            }
        }
        if next > 32768 {
            proof {
                lemma_digits_value_monotone(body, i - start + 1);
            }
            return None;
        }
        value = next;
        i += 1;
    }
    proof {
        assert(body.take(to - start) =~= body);
    }
    if negative {
        Some((-value) as i16)
    } else if value == 32768 {
        None
    } else {
        Some(value as i16)
    }
}

/// The value of a digit string never falls below the value of one of its prefixes.
proof fn lemma_digits_value_monotone(s: Seq<char>, k: int)
    requires
        0 <= k <= s.len(),
    ensures
        digits_value(s.take(k)) <= digits_value(s),
    decreases s.len(),
{
    if k == s.len() {
        assert(s.take(k) =~= s);
    } else {
        assert(s.drop_last().take(k) =~= s.take(k));
        lemma_digits_value_monotone(s.drop_last(), k);
    }
}

} // verus!
