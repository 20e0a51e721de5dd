//! Decimal numbers written as text: the grammar of `str::parse` for unsigned
//! integers, and the digits that `to_string` prints.

use vstd::prelude::*;
use crate::text::{chars_of, push_char};

verus! {

/// Whether `c` is one of the ASCII digits `0`..`9`.
pub open spec fn is_digit(c: char) -> bool {
    '0' <= c <= '9'
}

/// The value of an ASCII digit.
pub open spec fn digit_value(c: char) -> nat {
    ((c as int) - ('0' as int)) as nat
}

/// The value of a run of ASCII digits, most significant first.
pub open spec fn digits_value(s: Seq<char>) -> nat
    decreases s.len(),
{
    if s.len() == 0 {
        0
    } else {
        digits_value(s.drop_last()) * 10 + digit_value(s.last())
    }
}

/// Whether every character of `s` is an ASCII digit.
pub open spec fn all_digits(s: Seq<char>) -> bool {
    forall|i: int| 0 <= i < s.len() ==> is_digit(#[trigger] s[i])
}

/// What `str::parse` gives for an unsigned integer with the given maximum:
/// an optional `+`, then at least one ASCII digit and nothing else, of a value
/// that does not exceed `max`.
pub open spec fn spec_parse_unsigned(s: Seq<char>, max: nat) -> Option<nat> {
    let d = if s.len() > 0 && s[0] == '+' { s.drop_first() } else { s };
    if d.len() > 0 && all_digits(d) && digits_value(d) <= max {
        Some(digits_value(d))
    } else {
        None
    }
}

/// What `str::parse::<usize>` gives.
pub open spec fn spec_parse_usize(s: Seq<char>) -> Option<usize> {
    match spec_parse_unsigned(s, usize::MAX as nat) {
        Some(n) => Some(n as usize),
        None => None,
    }
}

proof fn lemma_digits_value_prefix_grows(s: Seq<char>, i: int)
    requires
        0 <= i <= s.len(),
        all_digits(s),
    ensures
        digits_value(s.take(i)) <= digits_value(s),
    decreases s.len() - i,
{
    if i < s.len() {
        lemma_digits_value_prefix_grows(s, i + 1);
        assert(s.take(i + 1).drop_last() == s.take(i));
    } else {
        assert(s.take(i) == s);
    }
}

/// Parses `v[from..to]` as decimal digits; `None` when a character is not a
/// digit, when the range is empty or when the value exceeds `usize::MAX`.
fn parse_digits(v: &Vec<char>, from: usize, to: usize) -> (r: Option<usize>)
    requires
        from <= to <= v@.len(),
    ensures
        ({
            let d = v@.subrange(from as int, to as int);
            r == (if d.len() > 0 && all_digits(d) && digits_value(d) <= usize::MAX as nat {
                Some(digits_value(d) as usize)
            } else {
                None::<usize>
            })
        }),
{
    let ghost d = v@.subrange(from as int, to as int);
    if from == to {
        return None;
    }
    let mut acc: usize = 0;
    let mut overflow = false;
    let mut i = from;
    while i < to
        invariant
            from <= i <= to <= v@.len(),
            d == v@.subrange(from as int, to as int),
            all_digits(d.take(i - from)),
            !overflow ==> acc as nat == digits_value(d.take(i - from)),
            overflow ==> digits_value(d.take(i - from)) > usize::MAX as nat,
        decreases to - i,
    {
        let c = v[i];
        if !('0' <= c && c <= '9') {
            assert(!is_digit(d[i - from]));
            return None;
        }
        let ghost k = i - from;
        assert(d.take(k + 1).drop_last() == d.take(k));
        assert(d.take(k + 1).last() == c);
        let dv = (c as u32 - '0' as u32) as usize;
        assert(dv == digit_value(c));
        if !overflow {
            match acc.checked_mul(10) {
                Some(m) => match m.checked_add(dv) {
                    Some(n) => {
                        acc = n;
                    },
                    None => {
                        overflow = true;
                    },
                },
                None => {
                    overflow = true;
                },
            }
        } else {
            assert(digits_value(d.take(k + 1)) >= digits_value(d.take(k)) * 10);
        }
        i += 1;
    }
    assert(d.take(i - from) == d);
    if overflow {
        None
    } else {
        Some(acc)
    }
}

/// `str::parse::<usize>` on `v[from..to]`.
pub fn parse_usize_range(v: &Vec<char>, from: usize, to: usize) -> (r: Option<usize>)
    requires
        from <= to <= v@.len(),
    ensures
        r == spec_parse_usize(v@.subrange(from as int, to as int)),
{
    let ghost s = v@.subrange(from as int, to as int);
    if from < to && v[from] == '+' {
        assert(s.drop_first() == v@.subrange(from + 1, to as int));
        parse_digits(v, from + 1, to)
    } else {
        parse_digits(v, from, to)
    }
}

/// `str::parse::<usize>`.
pub fn parse_usize(s: &str) -> (r: Option<usize>)
    ensures
        r == spec_parse_usize(s@),
{
    let v = chars_of(s);
    assert(v@.subrange(0, v@.len() as int) == v@);
    parse_usize_range(&v, 0, v.len())
}

/// The ASCII digit for a value below ten.
pub open spec fn digit_char(d: nat) -> char {
    (('0' as int) + d) as char
}

/// The decimal digits of `n`, as `to_string` prints an unsigned integer.
pub open spec fn decimal(n: nat) -> Seq<char>
    decreases n,
{
    if n < 10 {
        seq![digit_char(n)]
    } else {
        decimal(n / 10).push(digit_char(n % 10))
    }
}

fn push_decimal(out: &mut String, n: usize)
    ensures
        final(out)@ == old(out)@ + decimal(n as nat),
    decreases n,
{
    if n >= 10 {
        push_decimal(out, n / 10);
    }
    let d = (n % 10) as u8;
    let c = (48u8 + d) as char;
    assert(c == digit_char((n % 10) as nat));
    push_char(out, c);
}

/// The decimal text of `n` (`n.to_string()`).
pub fn usize_to_string(n: usize) -> (r: String)
    ensures
        r@ == decimal(n as nat),
{
    let mut s = String::new();
    push_decimal(&mut s, n);
    assert(s@ == decimal(n as nat));
    s
}

} // verus!

verus! {

/// What `str::parse::<u32>` gives.
pub open spec fn spec_parse_u32(s: Seq<char>) -> Option<u32> {
    match spec_parse_unsigned(s, u32::MAX as nat) {
        Some(n) => Some(n as u32),
        None => None,
    }
}

/// `str::parse::<u32>`.
pub fn parse_u32(s: &str) -> (r: Option<u32>)
    ensures
        r == spec_parse_u32(s@),
{
    match parse_usize(s) {
        Some(n) => {
            if n <= 0xFFFF_FFFFusize {
                Some(n as u32)
            } else {
                None
            }
        },
        None => None,
    }
}

/// The decimal text of `n` (`n.to_string()`).
pub fn u32_to_string(n: u32) -> (r: String)
    ensures
        r@ == decimal(n as nat),
{
    usize_to_string(n as usize)
}

} // verus!

verus! {

fn push_decimal_u64(out: &mut String, n: u64)
    ensures
        final(out)@ == old(out)@ + decimal(n as nat),
    decreases n,
{
    if n >= 10 {
        push_decimal_u64(out, n / 10);
    }
    let d = (n % 10) as u8;
    let c = (48u8 + d) as char;
    assert(c == digit_char((n % 10) as nat));
    push_char(out, c);
}

/// The decimal text of `n` (`n.to_string()`).
pub fn u64_to_string(n: u64) -> (r: String)
    ensures
        r@ == decimal(n as nat),
{
    let mut s = String::new();
    push_decimal_u64(&mut s, n);
    assert(s@ == decimal(n as nat));
    s
}

} // verus!

verus! {

/// The decimal text of a signed integer, as `to_string` prints it.
pub open spec fn signed_decimal(i: int) -> Seq<char> {
    if i < 0 {
        seq!['-'] + decimal((-i) as nat)
    } else {
        decimal(i as nat)
    }
}

/// The decimal text of `n` (`n.to_string()`).
pub fn i32_to_string(n: i32) -> (r: String)
    ensures
        r@ == signed_decimal(n as int),
{
    if n < 0 {
        let magnitude: u64 = (0i64 - (n as i64)) as u64;
        let mut s = String::new();
        push_char(&mut s, '-');
        push_decimal_u64(&mut s, magnitude);
        assert(s@ =~= seq!['-'] + decimal(magnitude as nat));
        s
    } else {
        u64_to_string(n as u64)
    }
}

} // verus!

verus! {

/// What `str::parse::<i32>` gives: an optional `+` or `-`, then at least one
/// ASCII digit and nothing else, of a value within the range of `i32`.
pub open spec fn spec_parse_i32(s: Seq<char>) -> Option<i32> {
    let neg = s.len() > 0 && s[0] == '-';
    let d = if s.len() > 0 && (s[0] == '+' || s[0] == '-') {
        s.drop_first()
    } else {
        s
    };
    let limit: nat = if neg {
        2147483648
    } else {
        2147483647
    };
    if d.len() > 0 && all_digits(d) && digits_value(d) <= limit {
        Some(
            (if neg {
                -(digits_value(d) as int)
            } else {
                digits_value(d) as int
            }) as i32,
        )
    } else {
        None
    }
}

/// `str::parse::<i32>` on `v[from..to]`.
pub fn parse_i32_range(v: &Vec<char>, from: usize, to: usize) -> (r: Option<i32>)
    requires
        from <= to <= v@.len(),
    ensures
        r == spec_parse_i32(v@.subrange(from as int, to as int)),
{
    let ghost s = v@.subrange(from as int, to as int);
    let neg = from < to && v[from] == '-';
    let signed = from < to && (v[from] == '+' || v[from] == '-');
    let start = if signed {
        from + 1
    } else {
        from
    };
    proof {
        if signed {
            assert(s.drop_first() =~= v@.subrange(start as int, to as int));
        }
    }
    match parse_digits(v, start, to) {
        Some(n) => {
            if neg {
                if n <= 2147483648 {
                    Some((0i64 - n as i64) as i32)
                } else {
                    None
                }
            } else if n <= 2147483647 {
                Some(n as i32)
            } else {
                None
            }
        },
        None => None,
    }
}

} // verus!

verus! {

/// The decimal text of `n` (`n.to_string()`).
pub fn i64_to_string(n: i64) -> (r: String)
    ensures
        r@ == signed_decimal(n as int),
{
    if n < 0 {
        let magnitude: u64 = (0i128 - (n as i128)) as u64;
        let mut s = String::new();
        push_char(&mut s, '-');
        push_decimal_u64(&mut s, magnitude);
        assert(s@ =~= seq!['-'] + decimal(magnitude as nat));
        s
    } else {
        u64_to_string(n as u64)
    }
}

} // verus!
