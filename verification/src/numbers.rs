//! Verified decimal parsing and rendering: the track number is a `u16`, the
//! year an `i32`, and the templates render both as plain decimal text.

use crate::chars::is_digit;
use vstd::prelude::*;

verus! {

pub open spec fn digit_val(c: char) -> nat {
    (c as u32 - 48) as nat
}

pub open spec fn all_digits(s: Seq<char>) -> bool {
    forall|i: int| 0 <= i < s.len() ==> is_digit(#[trigger] s[i])
}

/// The value of a run of decimal digits.
pub open spec fn digits_val(s: Seq<char>) -> nat
    decreases s.len(),
{
    if s.len() == 0 {
        0
    } else {
        digits_val(s.drop_last()) * 10 + digit_val(s.last())
    }
}

/// What `str::parse::<u16>` returns: an optional `+`, then at least one
/// digit, with the value within range.
pub open spec fn parse_u16_spec(s: Seq<char>) -> Option<u16> {
    let d = if s.len() > 0 && s[0] == '+' {
        s.skip(1)
    } else {
        s
    };
    if d.len() > 0 && all_digits(d) && digits_val(d) <= u16::MAX {
        Some(digits_val(d) as u16)
    } else {
        None
    }
}

/// What `str::parse::<i32>` returns: an optional sign, then at least one
/// digit, with the value within range.
pub open spec fn parse_i32_spec(s: Seq<char>) -> Option<i32> {
    if s.len() > 0 && (s[0] == '+' || s[0] == '-') {
        let d = s.skip(1);
        if d.len() > 0 && all_digits(d) {
            if s[0] == '-' {
                if digits_val(d) <= 0x8000_0000 {
                    Some((-(digits_val(d) as int)) as i32)
                } else {
                    None
                }
            } else {
                if digits_val(d) <= 0x7fff_ffff {
                    Some(digits_val(d) as i32)
                } else {
                    None
                }
            }
        } else {
            None
        }
    } else if s.len() > 0 && all_digits(s) && digits_val(s) <= 0x7fff_ffff {
        Some(digits_val(s) as i32)
    } else {
        None
    }
}

fn all_digits_exec(v: &Vec<char>, from: usize) -> (r: bool)
    requires
        from <= v@.len(),
    ensures
        r == all_digits(v@.skip(from as int)),
{
    let mut i: usize = from;
    while i < v.len()
        invariant
            from <= i <= v@.len(),
            forall|k: int| from <= k < i ==> is_digit(#[trigger] v@[k]),
        decreases v@.len() - i,
    {
        if !(48 <= v[i] as u32 && v[i] as u32 <= 57) {
            proof {
                assert(v@.skip(from as int)[i - from] == v@[i as int]);
            }
            return false;
        }
        i = i + 1;
    }
    proof {
        assert(forall|k: int|
            0 <= k < v@.skip(from as int).len() ==> #[trigger] v@.skip(from as int)[k] == v@[k
                + from]);
    }
    true
}

/// A longer digit run never has a smaller value.
proof fn lemma_digits_prefix(s: Seq<char>, from: int, j: int, k: int)
    requires
        0 <= from <= j <= k <= s.len(),
    ensures
        digits_val(s.subrange(from, j)) <= digits_val(s.subrange(from, k)),
    decreases k - j,
{
    if j < k {
        lemma_digits_prefix(s, from, j, k - 1);
        let p = s.subrange(from, k);
        assert(p.drop_last() =~= s.subrange(from, k - 1));
        assert(digits_val(p) == digits_val(p.drop_last()) * 10 + digit_val(p.last()));
        assert(digits_val(p.drop_last()) * 10 >= digits_val(p.drop_last())) by (nonlinear_arith);
    }
}

/// The value of the digits of `v` from `from` on, unless it exceeds `cap`.
fn digits_value(v: &Vec<char>, from: usize, cap: u64) -> (r: Option<u64>)
    requires
        from <= v@.len(),
        all_digits(v@.skip(from as int)),
        cap <= 0x1_0000_0000,
    ensures
        match r {
            Some(x) => x == digits_val(v@.skip(from as int)) && x <= cap,
            None => digits_val(v@.skip(from as int)) > cap,
        },
{
    let ghost whole = v@.skip(from as int);
    proof {
        assert(v@.subrange(from as int, from as int) =~= Seq::<char>::empty());
        assert(v@.subrange(from as int, v@.len() as int) =~= whole);
    }
    let mut acc: u64 = 0;
    let mut i: usize = from;
    while i < v.len()
        invariant
            from <= i <= v@.len(),
            all_digits(whole),
            whole == v@.skip(from as int),
            cap <= 0x1_0000_0000,
            acc == digits_val(v@.subrange(from as int, i as int)),
            acc <= cap,
        decreases v@.len() - i,
    {
        proof {
            assert(whole[i - from] == v@[i as int]);
            assert(is_digit(v@[i as int]));
            assert(v@.subrange(from as int, i as int + 1).drop_last() =~= v@.subrange(
                from as int,
                i as int,
            ));
            assert(v@.subrange(from as int, i as int + 1).last() == v@[i as int]);
        }
        let d: u64 = (v[i] as u32 - 48) as u64;
        let next: u64 = acc * 10 + d;
        if next > cap {
            proof {
                lemma_digits_prefix(v@, from as int, i as int + 1, v@.len() as int);
                assert(v@.subrange(from as int, v@.len() as int) =~= whole);
            }
            return None;
        }
        acc = next;
        i = i + 1;
    }
    proof {
        assert(v@.subrange(from as int, i as int) =~= whole);
    }
    Some(acc)
}

/// Parses a `u16` from the characters of `v`, as `str::parse` does.
pub fn parse_u16_chars(v: &Vec<char>) -> (r: Option<u16>)
    ensures
        r == parse_u16_spec(v@),
{
    let start: usize = if v.len() > 0 && v[0] == '+' {
        1
    } else {
        0
    };
    let ghost d = if v@.len() > 0 && v@[0] == '+' {
        v@.skip(1)
    } else {
        v@
    };
    proof {
        assert(v@.skip(0) =~= v@);
        assert(d == v@.skip(start as int));
    }
    if v.len() == start {
        return None;
    }
    if !all_digits_exec(v, start) {
        return None;
    }
    match digits_value(v, start, 65535) {
        Some(x) => Some(x as u16),
        None => None,
    }
}

/// Parses an `i32` from the characters of `v`, as `str::parse` does.
pub fn parse_i32_chars(v: &Vec<char>) -> (r: Option<i32>)
    ensures
        r == parse_i32_spec(v@),
{
    if v.len() == 0 {
        return None;
    }
    let signed: bool = v[0] == '+' || v[0] == '-';
    let neg: bool = v[0] == '-';
    let start: usize = if signed {
        1
    } else {
        0
    };
    proof {
        assert(v@.skip(0) =~= v@);
    }
    if v.len() == start {
        return None;
    }
    if !all_digits_exec(v, start) {
        return None;
    }
    let cap: u64 = if neg {
        0x8000_0000
    } else {
        0x7fff_ffff
    };
    match digits_value(v, start, cap) {
        Some(x) => {
            if neg {
                Some((-(x as i64)) as i32)
            } else {
                Some(x as i32)
            }
        },
        None => None,
    }
}

// ---------------------------------------------------------------------------
// Rendering
// ---------------------------------------------------------------------------
pub open spec fn dec_digit(n: nat) -> char {
    if n == 0 {
        '0'
    } else if n == 1 {
        '1'
    } else if n == 2 {
        '2'
    } else if n == 3 {
        '3'
    } else if n == 4 {
        '4'
    } else if n == 5 {
        '5'
    } else if n == 6 {
        '6'
    } else if n == 7 {
        '7'
    } else if n == 8 {
        '8'
    } else {
        '9'
    }
}

/// The decimal rendering of `n`, as `Display` for unsigned integers writes it.
pub open spec fn dec_seq(n: nat) -> Seq<char>
    decreases n,
{
    if n < 10 {
        seq![dec_digit(n)]
    } else {
        dec_seq(n / 10).push(dec_digit(n % 10))
    }
}

/// The decimal rendering of a signed value, as `Display` for `i32` writes it.
pub open spec fn dec_seq_i32(n: int) -> Seq<char> {
    if n < 0 {
        seq!['-'] + dec_seq((-n) as nat)
    } else {
        dec_seq(n as nat)
    }
}

fn dec_digit_exec(n: u64) -> (r: char)
    requires
        n < 10,
    ensures
        r == dec_digit(n as nat),
{
    if n == 0 {
        '0'
    } else if n == 1 {
        '1'
    } else if n == 2 {
        '2'
    } else if n == 3 {
        '3'
    } else if n == 4 {
        '4'
    } else if n == 5 {
        '5'
    } else if n == 6 {
        '6'
    } else if n == 7 {
        '7'
    } else if n == 8 {
        '8'
    } else {
        '9'
    }
}

pub fn push_decimal(n: u64, out: &mut Vec<char>)
    ensures
        final(out)@ == old(out)@ + dec_seq(n as nat),
    decreases n,
{
    if n < 10 {
        out.push(dec_digit_exec(n));
        proof {
            assert(final(out)@ =~= old(out)@ + dec_seq(n as nat));
        }
    } else {
        push_decimal(n / 10, out);
        out.push(dec_digit_exec(n % 10));
        proof {
            assert(final(out)@ =~= old(out)@ + dec_seq(n as nat));
        }
    }
}

pub fn push_decimal_i32(n: i32, out: &mut Vec<char>)
    ensures
        final(out)@ == old(out)@ + dec_seq_i32(n as int),
{
    if n < 0 {
        out.push('-');
        let m: u64 = (-(n as i64)) as u64;
        push_decimal(m, out);
        proof {
            assert(final(out)@ =~= old(out)@ + dec_seq_i32(n as int));
        }
    } else {
        push_decimal(n as u64, out);
    }
}

} // verus!
