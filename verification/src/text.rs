//! Text as sequences of characters: comparison, and integers in decimal.

use std::str::Chars;
use vstd::prelude::*;
use vstd::std_specs::iter::IteratorSpec;
use vstd::string::{StrSliceExecFns, StringExecFns};

verus! {

broadcast use vstd::string::group_string_axioms;

/// Whether `text` begins with `prefix`.
pub fn starts_with(text: &str, prefix: &str) -> (yes: bool)
    ensures
        yes == prefix@.is_prefix_of(text@),
{
    let mut rest = text.chars();
    let mut want = prefix.chars();
    let ghost mut k: int = 0;
    assert(text@.skip(0) == text@);
    assert(prefix@.skip(0) == prefix@);
    loop
        invariant
            0 <= k <= prefix@.len(),
            k <= text@.len(),
            want.remaining() == prefix@.skip(k),
            rest.remaining() == text@.skip(k),
            text@.take(k) == prefix@.take(k),
        decreases prefix@.len() - k,
    {
        match want.next() {
            None => {
                assert(prefix@.take(k) == prefix@);
                assert(text@.take(k) == text@.subrange(0, k));
                return true;
            },
            Some(p) => {
                match rest.next() {
                    None => {
                        return false;
                    },
                    Some(c) => {
                        assert(p == prefix@[k]);
                        assert(c == text@[k]);
                        if c != p {
                            assert(prefix@.len() <= text@.len() ==> text@.subrange(
                                0,
                                prefix@.len() as int,
                            )[k] == text@[k]);
                            return false;
                        }
                        proof {
                            assert(text@.skip(k).drop_first() == text@.skip(k + 1));
                            assert(prefix@.skip(k).drop_first() == prefix@.skip(k + 1));
                            assert(text@.take(k + 1) == text@.take(k).push(text@[k]));
                            assert(prefix@.take(k + 1) == prefix@.take(k).push(prefix@[k]));
                            k = k + 1;
                        }
                    },
                }
            },
        }
    }
}

/// What follows `prefix` in `text`, or `None` where `text` does not begin
/// with it.
pub fn after_prefix<'a>(text: &'a str, prefix: &str) -> (rest: Option<&'a str>)
    ensures
        rest is Some <==> prefix@.is_prefix_of(text@),
        rest matches Some(r) ==> r@ == text@.skip(prefix@.len() as int),
{
    if starts_with(text, prefix) {
        Some(text.substring_char(prefix.unicode_len(), text.unicode_len()))
    } else {
        None
    }
}

/// Whether two texts are the same, character by character.
pub fn same_text(a: &str, b: &str) -> (same: bool)
    ensures
        same == (a@ == b@),
{
    let mut left = a.chars();
    let mut right = b.chars();
    let ghost mut k: int = 0;
    assert(a@.skip(0) == a@);
    assert(b@.skip(0) == b@);
    loop
        invariant
            0 <= k <= a@.len(),
            k <= b@.len(),
            left.remaining() == a@.skip(k),
            right.remaining() == b@.skip(k),
            a@.take(k) == b@.take(k),
        decreases a@.len() - k,
    {
        match left.next() {
            None => {
                let other = right.next();
                assert(a@.take(k) == a@);
                proof {
                    if other is None {
                        assert(b@.take(k) == b@);
                    }
                }
                return other.is_none();
            },
            Some(x) => {
                match right.next() {
                    None => {
                        return false;
                    },
                    Some(y) => {
                        assert(x == a@[k]);
                        assert(y == b@[k]);
                        if x != y {
                            return false;
                        }
                        proof {
                            assert(a@.skip(k).drop_first() == a@.skip(k + 1));
                            assert(b@.skip(k).drop_first() == b@.skip(k + 1));
                            assert(a@.take(k + 1) == a@.take(k).push(a@[k]));
                            assert(b@.take(k + 1) == b@.take(k).push(b@[k]));
                            k = k + 1;
                        }
                    },
                }
            },
        }
    }
}

/// The character that writes the digit `d`.
pub open spec fn digit_char(d: int) -> char {
    (d + 48) as u8 as char
}

/// The decimal numeral of `n`: no sign, no leading zero but for 0 itself.
pub open spec fn decimal(n: nat) -> Seq<char>
    decreases n,
{
    if n < 10 {
        seq![digit_char(n as int)]
    } else {
        decimal(n / 10).push(digit_char((n % 10) as int))
    }
}

/// The decimal numeral of `v`, with `-` before a negative one.
pub open spec fn signed_decimal(v: int) -> Seq<char> {
    if v < 0 {
        seq!['-'] + decimal((-v) as nat)
    } else {
        decimal(v as nat)
    }
}

fn digit_text(d: u64) -> (text: &'static str)
    requires
        d < 10,
    ensures
        text@ == seq![digit_char(d as int)],
{
    proof {
        reveal_strlit("0");
        reveal_strlit("1");
        reveal_strlit("2");
        reveal_strlit("3");
        reveal_strlit("4");
        reveal_strlit("5");
        reveal_strlit("6");
        reveal_strlit("7");
        reveal_strlit("8");
        reveal_strlit("9");
    }
    let text = if d == 0 {
        "0"
    } else if d == 1 {
        "1"
    } else if d == 2 {
        "2"
    } else if d == 3 {
        "3"
    } else if d == 4 {
        "4"
    } else if d == 5 {
        "5"
    } else if d == 6 {
        "6"
    } else if d == 7 {
        "7"
    } else if d == 8 {
        "8"
    } else {
        "9"
    };
    assert(text@ =~= seq![digit_char(d as int)]);
    text
}

/// Writes `n` in decimal at the end of `out`.
pub fn append_decimal(out: &mut String, n: u64)
    ensures
        final(out)@ == old(out)@ + decimal(n as nat),
    decreases n,
{
    if n >= 10 {
        append_decimal(out, n / 10);
    }
    out.append(digit_text(n % 10));
}

/// Writes `v` in decimal at the end of `out`, with its sign if negative.
pub fn append_signed_decimal(out: &mut String, v: i64)
    ensures
        final(out)@ == old(out)@ + signed_decimal(v as int),
{
    if v < 0 {
        proof {
            reveal_strlit("-");
        }
        out.append("-");
        assert("-"@ =~= seq!['-']);
        let magnitude: u64 = if v == i64::MIN {
            9223372036854775808u64
        } else {
            (-v) as u64
        };
        append_decimal(out, magnitude);
    } else {
        append_decimal(out, v as u64);
    }
}

/// Whether `c` is one of `0` to `9`.
pub open spec fn is_digit(c: char) -> bool {
    '0' <= c && c <= '9'
}

/// The number that the digit `c` writes.
pub open spec fn digit_value(c: char) -> nat {
    (c as u32 - '0' as u32) as nat
}

/// Whether `s` holds digits only.
pub open spec fn all_digits(s: Seq<char>) -> bool {
    forall|i: int| 0 <= i < s.len() ==> is_digit(#[trigger] s[i])
}

/// The number that a run of digits writes, most significant digit first.
pub open spec fn digits_value(s: Seq<char>) -> nat
    decreases s.len(),
{
    if s.len() == 0 {
        0
    } else {
        digits_value(s.drop_last()) * 10 + digit_value(s.last())
    }
}

/// The number written by one or more digits, if it is at most `limit`.
pub open spec fn bounded_value(digits: Seq<char>, limit: u64) -> Option<u64> {
    if digits.len() > 0 && all_digits(digits) && digits_value(digits) <= limit {
        Some(digits_value(digits) as u64)
    } else {
        None
    }
}

/// What an unsigned numeral denotes within `u64`: an optional `+`, then one
/// or more digits and nothing else.
pub open spec fn unsigned_numeral(s: Seq<char>) -> Option<u64> {
    if s.len() > 0 && s[0] == '+' {
        bounded_value(s.drop_first(), u64::MAX)
    } else {
        bounded_value(s, u64::MAX)
    }
}

/// What a signed numeral denotes within `i64`: an optional `+` or `-`,
/// then one or more digits and nothing else.
pub open spec fn signed_numeral(s: Seq<char>) -> Option<i64> {
    if s.len() > 0 && s[0] == '-' {
        match bounded_value(s.drop_first(), 9223372036854775808u64) {
            Some(m) => Some((-m) as i64),
            None => None,
        }
    } else if s.len() > 0 && s[0] == '+' {
        match bounded_value(s.drop_first(), 9223372036854775807u64) {
            Some(m) => Some(m as i64),
            None => None,
        }
    } else {
        match bounded_value(s, 9223372036854775807u64) {
            Some(m) => Some(m as i64),
            None => None,
        }
    }
}

/// Reading more digits never makes the number smaller.
proof fn lemma_value_grows(s: Seq<char>, k: int)
    requires
        0 <= k <= s.len(),
    ensures
        digits_value(s.take(k)) <= digits_value(s),
    decreases s.len(),
{
    if k == s.len() {
        assert(s.take(k) == s);
    } else {
        assert(s.drop_last().take(k) == s.take(k));
        lemma_value_grows(s.drop_last(), k);
    }
}

/// Reads all of `rest` as digits.
fn read_magnitude(rest: Chars<'_>, Ghost(digits): Ghost<Seq<char>>, limit: u64) -> (value: Option<
    u64,
>)
    requires
        rest.remaining() == digits,
        limit >= 9,
    ensures
        value == bounded_value(digits, limit),
{
    let mut rest = rest;
    let mut acc: u64 = 0;
    let mut any = false;
    let ghost mut k: int = 0;
    assert(digits.skip(0) == digits);
    assert(digits.take(0) == Seq::<char>::empty());
    loop
        invariant
            0 <= k <= digits.len(),
            any == (k > 0),
            rest.remaining() == digits.skip(k),
            all_digits(digits.take(k)),
            acc == digits_value(digits.take(k)),
            acc <= limit,
            limit >= 9,
        decreases digits.len() - k,
    {
        match rest.next() {
            None => {
                assert(digits.take(k) == digits);
                return if any {
                    Some(acc)
                } else {
                    None
                };
            },
            Some(c) => {
                assert(c == digits[k]);
                if !(c >= '0' && c <= '9') {
                    return None;
                }
                let d: u64 = (c as u32 - '0' as u32) as u64;
                proof {
                    assert(digits.skip(k).drop_first() == digits.skip(k + 1));
                    assert(digits.take(k + 1).drop_last() == digits.take(k));
                    assert(digits.take(k + 1).last() == c);
                    assert(all_digits(digits.take(k + 1))) by {
                        assert forall|i: int| 0 <= i < k + 1 implies is_digit(
                            #[trigger] digits.take(k + 1)[i],
                        ) by {
                            if i < k {
                                assert(digits.take(k + 1)[i] == digits.take(k)[i]);
                            }
                        }
                    }
                    assert(digits_value(digits.take(k + 1)) == acc * 10 + d);
                }
                if acc > (limit - d) / 10 {
                    proof {
                        lemma_value_grows(digits, k + 1);
                    }
                    return None;
                }
                acc = acc * 10 + d;
                any = true;
                proof {
                    k = k + 1;
                }
            },
        }
    }
}

/// Reads an unsigned decimal numeral. Spaces, an empty text, a lone sign
/// and a number beyond `u64` are all refused.
pub fn parse_u64(text: &str) -> (value: Option<u64>)
    ensures
        value == unsigned_numeral(text@),
{
    let mut probe = text.chars();
    let first = probe.next();
    if first == Some('+') {
        read_magnitude(probe, Ghost(text@.drop_first()), u64::MAX)
    } else {
        read_magnitude(text.chars(), Ghost(text@), u64::MAX)
    }
}

/// Reads a signed decimal numeral. Spaces, an empty text, a lone sign and
/// a number beyond `i64` are all refused.
pub fn parse_i64(text: &str) -> (value: Option<i64>)
    ensures
        value == signed_numeral(text@),
{
    let mut probe = text.chars();
    let first = probe.next();
    if first == Some('-') {
        match read_magnitude(probe, Ghost(text@.drop_first()), 9223372036854775808u64) {
            Some(m) => if m == 9223372036854775808u64 {
                Some(i64::MIN)
            } else {
                Some(-(m as i64))
            },
            None => None,
        }
    } else if first == Some('+') {
        match read_magnitude(probe, Ghost(text@.drop_first()), 9223372036854775807u64) {
            Some(m) => Some(m as i64),
            None => None,
        }
    } else {
        match read_magnitude(text.chars(), Ghost(text@), 9223372036854775807u64) {
            Some(m) => Some(m as i64),
            None => None,
        }
    }
}

} // verus!
