//! Base-10 text of 32-bit signed integers: what a text denotes, how a
//! number is written, and that reading what was written gives the number
//! back.

use vstd::prelude::*;
use vstd::string::*;

verus! {

/// Whether `c` is one of the ten ASCII digits.
pub open spec fn is_digit(c: char) -> bool {
    '0' <= c && c <= '9'
}

/// The number a digit character stands for.
pub open spec fn digit_value(c: char) -> int {
    c as int - '0' as int
}

/// The character that stands for the digit `d`.
pub open spec fn digit_char(d: int) -> char
    recommends
        0 <= d < 10,
{
    (d + '0' as int) as char
}

/// Whether every character of `s` is a digit.
pub open spec fn all_digits(s: Seq<char>) -> bool {
    forall|i: int| 0 <= i < s.len() ==> is_digit(#[trigger] s[i])
}

/// The number that a run of digits denotes, most significant digit first.
pub open spec fn digits_value(s: Seq<char>) -> int
    decreases s.len(),
{
    if s.len() == 0 {
        0
    } else {
        10 * digits_value(s.drop_last()) + digit_value(s.last())
    }
}

/// Whether `s` starts with a sign.
pub open spec fn has_sign(s: Seq<char>) -> bool {
    s.len() > 0 && (s[0] == '-' || s[0] == '+')
}

/// `s` without its sign, if it has one.
pub open spec fn unsigned_part(s: Seq<char>) -> Seq<char> {
    if has_sign(s) {
        s.subrange(1, s.len() as int)
    } else {
        s
    }
}

/// The integer that `s` denotes in base 10: an optional `+` or `-`, then one
/// or more digits and nothing else. Any other text denotes nothing.
pub open spec fn decimal_value(s: Seq<char>) -> Option<int> {
    let body = unsigned_part(s);
    if body.len() > 0 && all_digits(body) {
        if has_sign(s) && s[0] == '-' {
            Some(-digits_value(body))
        } else {
            Some(digits_value(body))
        }
    } else {
        None
    }
}

/// The `i32` that `s` denotes: `decimal_value`, where that fits 32 bits.
pub open spec fn parse_i32_spec(s: Seq<char>) -> Option<i32> {
    match decimal_value(s) {
        Some(v) => if i32::MIN <= v <= i32::MAX {
            Some(v as i32)
        } else {
            None
        },
        None => None,
    }
}

/// The digits of `n`, most significant first, without leading zeros.
pub open spec fn digits_text(n: nat) -> Seq<char>
    decreases n,
{
    if n < 10 {
        seq![digit_char(n as int)]
    } else {
        digits_text(n / 10).push(digit_char((n % 10) as int))
    }
}

/// The canonical base-10 text of `v`: a `-` for a negative number, then the
/// digits of its magnitude.
pub open spec fn decimal_text(v: int) -> Seq<char> {
    if v < 0 {
        seq!['-'] + digits_text((-v) as nat)
    } else {
        digits_text(v as nat)
    }
}

/// A run of digits denotes a number that is not negative.
pub proof fn lemma_digits_value_nonnegative(s: Seq<char>)
    requires
        all_digits(s),
    ensures
        digits_value(s) >= 0,
    decreases s.len(),
{
    if s.len() > 0 {
        lemma_digits_value_nonnegative(s.drop_last());
    }
}

/// A run of digits denotes at least what any of its prefixes denotes.
pub proof fn lemma_prefix_value_bounded(s: Seq<char>, k: int)
    requires
        all_digits(s),
        0 <= k <= s.len(),
    ensures
        digits_value(s.take(k)) <= digits_value(s),
    decreases s.len(),
{
    if k == s.len() {
        assert(s.take(k) =~= s);
    } else {
        let shorter = s.drop_last();
        lemma_prefix_value_bounded(shorter, k);
        lemma_digits_value_nonnegative(shorter);
        assert(shorter.take(k) =~= s.take(k));
    }
}

/// The digits written for `n` are digits, there is at least one, and they
/// denote `n`.
pub proof fn lemma_digits_round_trip(n: nat)
    ensures
        digits_text(n).len() > 0,
        all_digits(digits_text(n)),
        digits_value(digits_text(n)) == n,
    decreases n,
{
    let text = digits_text(n);
    if n < 10 {
        assert(digits_value(text.drop_last()) == 0);
    } else {
        lemma_digits_round_trip(n / 10);
        assert(text.drop_last() =~= digits_text(n / 10));
    }
}

/// Reading the canonical text of an integer gives that integer.
pub proof fn lemma_decimal_round_trip(v: int)
    ensures
        decimal_value(decimal_text(v)) == Some(v),
{
    let text = decimal_text(v);
    if v < 0 {
        lemma_digits_round_trip((-v) as nat);
        assert(unsigned_part(text) =~= digits_text((-v) as nat));
    } else {
        lemma_digits_round_trip(v as nat);
    }
}

/// Reading the canonical text of an `i32` gives that `i32`.
pub proof fn lemma_i32_round_trip(v: i32)
    ensures
        parse_i32_spec(decimal_text(v as int)) == Some(v),
{
    lemma_decimal_round_trip(v as int);
}

/// Reads one character as a decimal digit.
pub fn digit_of(c: char) -> (r: Option<u8>)
    ensures
        r is Some <==> is_digit(c),
        r matches Some(d) ==> d as int == digit_value(c) && d < 10,
{
    if '0' <= c && c <= '9' {
        Some((c as u32 - '0' as u32) as u8)
    } else {
        None
    }
}

/// Reads `text` as a base-10 `i32`. The whole text must be an optional sign
/// followed by digits, and the number must fit 32 bits.
pub fn parse_i32(text: &str) -> (r: Option<i32>)
    ensures
        r == parse_i32_spec(text@),
{
    let n: usize = text.unicode_len();
    if n == 0 {
        return None;
    }
    let first: char = text.get_char(0);
    let negative: bool = first == '-';
    let signed: bool = negative || first == '+';
    let body: &str = if signed {
        text.substring_char(1, n)
    } else {
        text
    };
    let mut magnitude: i64 = 0;
    let mut any_digit: bool = false;
    for c in it: body.chars()
        invariant
            it.seq() == body@,
            all_digits(body@.take(it.index() as int)),
            magnitude == digits_value(body@.take(it.index() as int)),
            0 <= magnitude <= 2147483648,
            any_digit == (it.index() > 0),
            body@ == unsigned_part(text@),
            negative == (has_sign(text@) && text@[0] == '-'),
    {
        proof {
            // what has been read, with the character at hand, without it
            assert(body@.take(it.index() + 1).drop_last() =~= body@.take(it.index() as int));
        }
        match digit_of(c) {
            None => {
                return None;
            },
            Some(d) => {
                magnitude = magnitude * 10 + d as i64;
                if magnitude > 2147483648 {
                    proof {
                        if all_digits(body@) {
                            lemma_prefix_value_bounded(body@, it.index() + 1);
                        }
                    }
                    return None;
                }
                any_digit = true;
            },
        }
    }
    assert(body@.take(body@.len() as int) =~= body@);
    if !any_digit {
        None
    } else if negative {
        Some((-magnitude) as i32)
    } else if magnitude > 2147483647 {
        None
    } else {
        Some(magnitude as i32)
    }
}

/// The one-character text of the digit `d`.
fn digit_text(d: u8) -> (r: &'static str)
    requires
        d < 10,
    ensures
        r@ == seq![digit_char(d as int)],
{
    proof {
        reveal_strlit("0123456789");
    }
    let digits: &'static str = "0123456789";
    digits.substring_ascii(d as usize, d as usize + 1)
}

/// Appends the digits of `n` to `out`.
fn push_digits(out: &mut String, n: u32)
    ensures
        final(out)@ == old(out)@ + digits_text(n as nat),
    decreases n,
{
    if n >= 10 {
        push_digits(out, n / 10);
    }
    out.append(digit_text((n % 10) as u8));
}

/// Writes `v` in base 10: a `-` for a negative number, then the digits of
/// its magnitude without leading zeros.
pub fn render_i32(v: i32) -> (r: String)
    ensures
        r@ == decimal_text(v as int),
{
    let mut out = String::new();
    let magnitude: u32 = if v < 0 {
        proof {
            reveal_strlit("-");
        }
        out.append("-");
        (-(v as i64)) as u32
    } else {
        v as u32
    };
    push_digits(&mut out, magnitude);
    out
}

} // verus!
