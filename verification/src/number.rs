//! Whole numbers written in decimal: reading one as `u16::from_str` and its kin read it, and
//! writing one as `{}` writes it.

use vstd::prelude::*;
use crate::text::{chars_of, push_char};

verus! {

/// An ASCII decimal digit.
pub open spec fn is_digit(c: char) -> bool {
    '0' <= c <= '9'
}

/// The value of a digit.
pub open spec fn digit_value(c: char) -> nat {
    (c as u32 - '0' as u32) as nat
}

/// The value of a run of digits, most significant first.
pub open spec fn digits_value(s: Seq<char>) -> nat
    decreases s.len(),
{
    if s.len() == 0 {
        0
    } else {
        digits_value(s.drop_last()) * 10 + digit_value(s.last())
    }
}

/// The digits of an unsigned number's text: all of it, or all after one leading `+`.
pub open spec fn unsigned_digits(s: Seq<char>) -> Seq<char> {
    if s.len() > 0 && s[0] == '+' {
        s.drop_first()
    } else {
        s
    }
}

/// Text that an unsigned integer's `from_str` reads: an optional `+`, then one or more ASCII
/// digits.
pub open spec fn is_unsigned_text(s: Seq<char>) -> bool {
    let d = unsigned_digits(s);
    &&& d.len() > 0
    &&& forall|i: int| 0 <= i < d.len() ==> is_digit(#[trigger] d[i])
}

/// What an unsigned integer type with largest value `max` reads from `s`, as `from_str` reads
/// it: `None` for anything but an optional `+` and digits, or for a value above `max`.
pub open spec fn unsigned_value(s: Seq<char>, max: nat) -> Option<nat> {
    if is_unsigned_text(s) && digits_value(unsigned_digits(s)) <= max {
        Some(digits_value(unsigned_digits(s)))
    } else {
        None
    }
}

/// `s` read as an unsigned number no greater than `max`, as `u16::from_str`, `u64::from_str` and
/// `usize::from_str` read one for their own largest value.
pub fn parse_unsigned(s: &str, max: u64) -> (r: Option<u64>)
    ensures
        match unsigned_value(s@, max as nat) {
            Some(v) => r == Some(v as u64),
            None => r is None,
        },
{
    let v = chars_of(s);
    let start: usize = if v.len() > 0 && v[0] == '+' { 1 } else { 0 };
    let ghost d = unsigned_digits(s@);
    assert(d =~= v@.skip(start as int));
    if start >= v.len() {
        return None;
    }
    let mut value: u64 = 0;
    let mut i: usize = start;
    while i < v.len()
        invariant
            start <= i <= v@.len(),
            v@ == s@,
            d == v@.skip(start as int),
            d == unsigned_digits(s@),
            max as nat >= value,
            forall|k: int| 0 <= k < i - start ==> is_digit(#[trigger] d[k]),
            value as nat == digits_value(d.take(i - start)),
        decreases v@.len() - i,
    {
        let c = v[i];
        assert(d[i - start] == c);
        if !('0' <= c && c <= '9') {
            assert(!is_digit(d[i - start]));
            return None;
        }
        let dv = (c as u32 - '0' as u32) as u64;
        assert(d.take(i - start + 1).drop_last() =~= d.take(i - start));
        assert(d.take(i - start + 1).last() == c);
        if dv > max || value > (max - dv) / 10 {
            proof {
                lemma_digits_grow(d, (i - start + 1) as nat, d.len());
                assert(d.take(d.len() as int) =~= d);
                if dv <= max {
                    assert(value * 10 + dv > max) by (nonlinear_arith)
                        requires
                            value > (max - dv) / 10,
                            dv <= max,
                    ;
                }
            }
            return None;
        }
        assert(value * 10 + dv <= max) by (nonlinear_arith)
            requires
                value <= (max - dv) / 10,
                dv <= max,
        ;
        value = value * 10 + dv;
        i = i + 1;
    }
    assert(d.take(d.len() as int) =~= d);
    Some(value)
}

/// A longer run of digits is worth at least as much as the run it starts with.
proof fn lemma_digits_grow(d: Seq<char>, n: nat, m: nat)
    requires
        n <= m <= d.len(),
    ensures
        digits_value(d.take(n as int)) <= digits_value(d.take(m as int)),
    decreases m - n,
{
    if n < m {
        lemma_digits_grow(d, n, (m - 1) as nat);
        assert(d.take(m as int).drop_last() =~= d.take(m - 1));
    }
}

/// The decimal digits of `n`, most significant first, with no leading zero.
pub open spec fn decimal(n: nat) -> Seq<char>
    decreases n,
{
    if n < 10 {
        seq![('0' as u32 + n) as char]
    } else {
        decimal(n / 10) + seq![('0' as u32 + n % 10) as char]
    }
}

fn digit_char(d: u64) -> (c: char)
    requires
        d < 10,
    ensures
        c == ('0' as u32 + d) as char,
{
    let b: u8 = 0x30 + d as u8;
    b as char
}

/// `n` written as `{}` writes an integer.
pub fn decimal_text(n: u64) -> (s: String)
    ensures
        s@ == decimal(n as nat),
    decreases n,
{
    if n < 10 {
        let mut s = String::new();
        push_char(&mut s, digit_char(n));
        s
    } else {
        let mut s = decimal_text(n / 10);
        push_char(&mut s, digit_char(n % 10));
        s
    }
}

} // verus!
