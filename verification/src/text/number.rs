//! Decimal numbers as text.

use crate::text::chars::chars_of;
use vstd::prelude::*;

verus! {

/// The decimal digit for `d`, which is below ten.
pub open spec fn digit(d: nat) -> char {
    ((48 + d) as u32) as char
}

/// The decimal digits of `n`, without leading zeros.
pub open spec fn decimal(n: nat) -> Seq<char>
    decreases n,
{
    if n < 10 {
        seq![digit(n)]
    } else {
        decimal(n / 10).push(digit(n % 10))
    }
}

/// Writes one decimal digit.
fn digit_char(d: u64) -> (c: char)
    requires
        d < 10,
    ensures
        c == digit(d as nat),
{
    (48 + d as u8) as char
}

/// Appends a number in decimal.
pub fn push_decimal(out: &mut String, n: u64)
    ensures
        final(out)@ == old(out)@ + decimal(n as nat),
    decreases n,
{
    if n < 10 {
        out.push(digit_char(n));
        assert(out@ =~= old(out)@ + decimal(n as nat));
    } else {
        push_decimal(out, n / 10);
        out.push(digit_char(n % 10));
        assert(out@ =~= old(out)@ + decimal(n as nat));
    }
}

/// A number in decimal.
pub fn decimal_of(n: u64) -> (r: String)
    ensures
        r@ == decimal(n as nat),
{
    let mut r = String::new();
    push_decimal(&mut r, n);
    assert(r@ =~= decimal(n as nat));
    r
}

/// Whether a character is an ASCII digit.
pub open spec fn is_digit(c: char) -> bool {
    '0' <= c <= '9'
}

/// The value of a sequence of digits.
pub open spec fn value(s: Seq<char>) -> nat
    decreases s.len(),
{
    if s.len() == 0 {
        0
    } else {
        (value(s.drop_last()) * 10 + (s.last() as u32 - 48)) as nat
    }
}

/// Whether `s` is a non-empty sequence of digits.
pub open spec fn all_digits(s: Seq<char>) -> bool {
    s.len() > 0 && forall|i: int| 0 <= i < s.len() ==> is_digit(#[trigger] s[i])
}

/// The digits of an unsigned number: what is left without a leading plus sign.
pub open spec fn unsigned_digits(s: Seq<char>) -> Seq<char> {
    if s.len() > 0 && s[0] == '+' {
        s.skip(1)
    } else {
        s
    }
}

/// The number that `s` denotes, if it is one of at most `max`.
pub open spec fn parse_unsigned(s: Seq<char>, max: nat) -> Option<nat> {
    let d = unsigned_digits(s);
    if all_digits(d) && value(d) <= max {
        Some(value(d))
    } else {
        None
    }
}

/// The signed 32-bit number that `s` denotes.
pub open spec fn parse_signed(s: Seq<char>) -> Option<int> {
    if s.len() > 0 && s[0] == '-' {
        let d = s.skip(1);
        if all_digits(d) && value(d) <= 0x8000_0000 {
            Some(-(value(d) as int))
        } else {
            None
        }
    } else {
        match parse_unsigned(s, 0x7fff_ffff) {
            Some(n) => Some(n as int),
            None => None,
        }
    }
}

proof fn lemma_value_monotone(s: Seq<char>, k: int)
    requires
        0 <= k <= s.len(),
        forall|i: int| 0 <= i < s.len() ==> is_digit(#[trigger] s[i]),
    ensures
        value(s.take(k)) <= value(s),
    decreases s.len(),
{
    if k < s.len() {
        lemma_value_monotone(s.drop_last(), k);
        assert(s.drop_last().take(k) == s.take(k));
        assert(is_digit(s.last()));
    } else {
        assert(s.take(k) == s);
    }
}

/// The value of the digits `cs[from..]`, if they are digits and at most `max`.
fn parse_digits(cs: &[char], from: usize, max: u32) -> (r: Option<u32>)
    requires
        from <= cs@.len(),
    ensures
        match r {
            Some(n) => all_digits(cs@.skip(from as int)) && n == value(cs@.skip(from as int)) && n
                <= max,
            None => !(all_digits(cs@.skip(from as int)) && value(cs@.skip(from as int)) <= max),
        },
{
    let ghost d = cs@.skip(from as int);
    let n: usize = cs.len();
    if from == n {
        return None;
    }
    let mut acc: u64 = 0;
    let mut i: usize = from;
    while i < n
        invariant
            n == cs@.len(),
            from <= i <= n,
            d == cs@.skip(from as int),
            forall|j: int| 0 <= j < i - from ==> is_digit(#[trigger] d[j]),
            acc == value(d.take(i - from)),
            acc <= max,
        decreases n - i,
    {
        let c: char = cs[i];
        assert(d[i - from] == c);
        if !('0' <= c && c <= '9') {
            return None;
        }
        assert(d.take(i - from + 1).drop_last() == d.take(i - from));
        let v: u64 = (c as u32 - 48) as u64;
        acc = acc * 10 + v;
        i = i + 1;
        assert(forall|j: int| 0 <= j < i - from ==> is_digit(#[trigger] d[j])) by {
            assert(is_digit(d[i - from - 1]));
        }
        if acc > max as u64 {
            proof {
                if all_digits(d) {
                    lemma_value_monotone(d, i - from);
                }
            }
            return None;
        }
    }
    assert(d.take(n - from) == d);
    Some(acc as u32)
}

/// Parses an unsigned 32-bit number: an optional plus sign and digits.
pub fn parse_u32(s: &str) -> (r: Option<u32>)
    ensures
        match r {
            Some(n) => parse_unsigned(s@, u32::MAX as nat) == Some(n as nat),
            None => parse_unsigned(s@, u32::MAX as nat) is None,
        },
{
    let cs = chars_of(s);
    assert(cs@.skip(0) == cs@);
    if cs.len() > 0 && cs[0] == '+' {
        parse_digits(cs.as_slice(), 1, u32::MAX)
    } else {
        parse_digits(cs.as_slice(), 0, u32::MAX)
    }
}

/// Parses a signed 32-bit number: an optional sign and digits.
pub fn parse_i32(s: &str) -> (r: Option<i32>)
    ensures
        match r {
            Some(n) => parse_signed(s@) == Some(n as int),
            None => parse_signed(s@) is None,
        },
{
    let cs = chars_of(s);
    assert(cs@.skip(0) == cs@);
    if cs.len() > 0 && cs[0] == '-' {
        match parse_digits(cs.as_slice(), 1, 0x8000_0000) {
            Some(n) => Some((0 - n as i64) as i32),
            None => None,
        }
    } else if cs.len() > 0 && cs[0] == '+' {
        match parse_digits(cs.as_slice(), 1, 0x7fff_ffff) {
            Some(n) => Some(n as i32),
            None => None,
        }
    } else {
        match parse_digits(cs.as_slice(), 0, 0x7fff_ffff) {
            Some(n) => Some(n as i32),
            None => None,
        }
    }
}

/// Reading back a number that was written in decimal gives the number.
pub proof fn lemma_decimal_round_trip(n: nat, max: nat)
    requires
        n <= max,
    ensures
        all_digits(decimal(n)),
        value(decimal(n)) == n,
        parse_unsigned(decimal(n), max) == Some(n),
    decreases n,
{
    if n < 10 {
        assert(decimal(n).drop_last() =~= Seq::<char>::empty());
        assert(value(Seq::<char>::empty()) == 0);
        assert(value(decimal(n)) == n);
    } else {
        lemma_decimal_round_trip(n / 10, max);
        let d = decimal(n);
        assert(d.drop_last() =~= decimal(n / 10));
        assert(value(d) == value(decimal(n / 10)) * 10 + (d.last() as u32 - 48));
        assert(d[0] == decimal(n / 10)[0]);
        assert forall|i: int| 0 <= i < d.len() implies is_digit(#[trigger] d[i]) by {
            if i < d.len() - 1 {
                assert(d[i] == decimal(n / 10)[i]);
            }
        }
    }
    assert(is_digit(decimal(n)[0]));
}

} // verus!
