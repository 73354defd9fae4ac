//! Decimal numerals: how integers are written into the assembly text, and how
//! the numbers of a command are read (as `str::parse` reads them).

use vstd::prelude::*;
use crate::text::push_char;

verus! {

/// The character of the decimal digit `d` (`0 <= d < 10`).
pub open spec fn digit_char(d: int) -> char {
    (d + 48) as char
}

/// The decimal numeral of `n`, without leading zeros.
pub open spec fn nat_dec(n: nat) -> Seq<char>
    decreases n,
{
    if n < 10 {
        seq![digit_char(n as int)]
    } else {
        nat_dec(n / 10).push(digit_char((n % 10) as int))
    }
}

/// The decimal numeral of `i`, with a `-` in front where `i` is negative
/// (how `Display` writes an integer).
pub open spec fn int_dec(i: int) -> Seq<char> {
    if i < 0 {
        seq!['-'] + nat_dec((-i) as nat)
    } else {
        nat_dec(i as nat)
    }
}

fn digit(d: u64) -> (c: char)
    requires
        d < 10,
    ensures
        c == digit_char(d as int),
{
    let b: u8 = (d as u8) + 48;
    b as char
}

/// Appends the decimal numeral of `n` to `s`.
pub fn push_u64(s: &mut String, n: u64)
    ensures
        final(s)@ == old(s)@ + nat_dec(n as nat),
    decreases n,
{
    if n >= 10 {
        push_u64(s, n / 10);
    }
    push_char(s, digit(n % 10));
    assert(s@ =~= old(s)@ + nat_dec(n as nat));
}

/// Appends the decimal numeral of `n` to `s`.
pub fn push_usize(s: &mut String, n: usize)
    ensures
        final(s)@ == old(s)@ + nat_dec(n as nat),
{
    push_u64(s, n as u64);
}

/// Appends the decimal numeral of `i` to `s`, signed.
pub fn push_i32(s: &mut String, i: i32)
    ensures
        final(s)@ == old(s)@ + int_dec(i as int),
{
    if i < 0 {
        push_char(s, '-');
        let m: i64 = -(i as i64);
        push_u64(s, m as u64);
        assert(s@ =~= old(s)@ + int_dec(i as int));
    } else {
        push_u64(s, i as u64);
    }
}

/// `c` is an ASCII decimal digit.
pub open spec fn is_digit(c: char) -> bool {
    48 <= (c as u32) <= 57
}

/// The value of the digit `c`.
pub open spec fn digit_value(c: char) -> int {
    (c as u32) - 48
}

/// The value of the digits of `s`, read in base ten.
pub open spec fn digits_value(s: Seq<char>) -> int
    decreases s.len(),
{
    if s.len() == 0 {
        0
    } else {
        digits_value(s.drop_last()) * 10 + digit_value(s.last())
    }
}

/// Every character of `s` is a decimal digit.
pub open spec fn all_digits(s: Seq<char>) -> bool {
    forall|i: int| 0 <= i < s.len() ==> is_digit(#[trigger] s[i])
}

/// The value of `s` where `s` is a nonempty run of digits whose value is at
/// most `bound`.
pub open spec fn bounded_digits(s: Seq<char>, bound: int) -> Option<int> {
    if s.len() > 0 && all_digits(s) && digits_value(s) <= bound {
        Some(digits_value(s))
    } else {
        None
    }
}

/// `str::parse::<usize>`: an optional `+`, then digits, the value in range.
pub open spec fn parse_usize_spec(s: Seq<char>) -> Option<usize> {
    let r = if s.len() > 0 && s[0] == '+' {
        if s.len() == 1 {
            None
        } else {
            bounded_digits(s.skip(1), usize::MAX as int)
        }
    } else {
        bounded_digits(s, usize::MAX as int)
    };
    match r {
        Some(v) => Some(v as usize),
        None => None,
    }
}

/// `str::parse::<i16>`: an optional `+` or `-`, then digits, the value in range.
pub open spec fn parse_i16_spec(s: Seq<char>) -> Option<i16> {
    if s.len() > 0 && s[0] == '+' {
        if s.len() == 1 {
            None
        } else {
            match bounded_digits(s.skip(1), 32767) {
                Some(v) => Some(v as i16),
                None => None,
            }
        }
    } else if s.len() > 0 && s[0] == '-' {
        if s.len() == 1 {
            None
        } else {
            match bounded_digits(s.skip(1), 32768) {
                Some(v) => Some((-v) as i16),
                None => None,
            }
        }
    } else {
        match bounded_digits(s, 32767) {
            Some(v) => Some(v as i16),
            None => None,
        }
    }
}

proof fn lemma_digits_value_nonneg(s: Seq<char>)
    requires
        all_digits(s),
    ensures
        digits_value(s) >= 0,
    decreases s.len(),
{
    if s.len() > 0 {
        assert(all_digits(s.drop_last()));
        assert(is_digit(s[s.len() - 1]));
        lemma_digits_value_nonneg(s.drop_last());
    }
}

proof fn lemma_digits_value_prefix(s: Seq<char>, k: int)
    requires
        all_digits(s),
        0 <= k <= s.len(),
    ensures
        digits_value(s.take(k)) <= digits_value(s),
    decreases s.len(),
{
    if k < s.len() {
        assert(all_digits(s.drop_last()));
        assert(is_digit(s[s.len() - 1]));
        lemma_digits_value_prefix(s.drop_last(), k);
        assert(s.drop_last().take(k) =~= s.take(k));
        lemma_digits_value_nonneg(s.drop_last());
    } else {
        assert(s.take(k) =~= s);
    }
}

/// Reads the digits of `s[start..]` as a number of at most `bound`.
fn parse_digits(s: &Vec<char>, start: usize, bound: u64) -> (r: Option<u64>)
    requires
        start <= s.len(),
    ensures
        match r {
            Some(v) => bounded_digits(s@.skip(start as int), bound as int) == Some(v as int),
            None => bounded_digits(s@.skip(start as int), bound as int).is_none(),
        },
{
    let ghost t = s@.skip(start as int);
    if start == s.len() {
        return None;
    }
    let mut acc: u64 = 0;
    let mut i: usize = start;
    while i < s.len()
        invariant
            start <= i <= s.len(),
            t == s@.skip(start as int),
            all_digits(t.take(i - start)),
            acc as int == digits_value(t.take(i - start)),
            acc <= bound,
        decreases s.len() - i,
    {
        let c = s[i];
        let u: u32 = c as u32;
        if u < 48 || u > 57 {
            assert(!is_digit(t[i - start]));
            return None;
        }
        let next: u128 = (acc as u128) * 10 + ((u - 48) as u128);
        assert(t.take(i + 1 - start).drop_last() =~= t.take(i - start));
        assert(all_digits(t.take(i + 1 - start)));
        if next > bound as u128 {
            proof {
                if all_digits(t) {
                    lemma_digits_value_prefix(t, i + 1 - start);
                }
            }
            return None;
        }
        acc = next as u64;
        i = i + 1;
    }
    assert(t.take(i - start) =~= t);
    Some(acc)
}

/// Reads `s` as `str::parse::<usize>` does.
pub fn parse_usize(s: &Vec<char>) -> (r: Option<usize>)
    ensures
        r == parse_usize_spec(s@),
{
    let start: usize = if s.len() > 0 && s[0] == '+' {
        if s.len() == 1 {
            return None;
        }
        1
    } else {
        0
    };
    assert(s@.skip(0) =~= s@);
    match parse_digits(s, start, usize::MAX as u64) {
        Some(v) => Some(v as usize),
        None => None,
    }
}

/// Reads `s` as `str::parse::<i16>` does.
pub fn parse_i16(s: &Vec<char>) -> (r: Option<i16>)
    ensures
        r == parse_i16_spec(s@),
{
    assert(s@.skip(0) =~= s@);
    if s.len() > 0 && s[0] == '+' {
        if s.len() == 1 {
            return None;
        }
        match parse_digits(s, 1, 32767) {
            Some(v) => Some(v as i16),
            None => None,
        }
    } else if s.len() > 0 && s[0] == '-' {
        if s.len() == 1 {
            return None;
        }
        match parse_digits(s, 1, 32768) {
            Some(v) => {
                let w: i32 = -(v as i32);
                Some(w as i16)
            },
            None => None,
        }
    } else {
        match parse_digits(s, 0, 32767) {
            Some(v) => Some(v as i16),
            None => None,
        }
    }
}


pub proof fn lemma_nat_dec_digits(n: nat)
    ensures
        nat_dec(n).len() >= 1,
        all_digits(nat_dec(n)),
        digits_value(nat_dec(n)) == n,
    decreases n,
{
    let s = nat_dec(n);
    if n < 10 {
        assert(s.drop_last() =~= Seq::<char>::empty());
        assert(digits_value(s.drop_last()) == 0);
        assert(digit_value(s.last()) == n);
        assert(is_digit(s[0]));
    } else {
        lemma_nat_dec_digits(n / 10);
        let p = nat_dec(n / 10);
        assert(s.drop_last() =~= p);
        assert(s.last() == digit_char((n % 10) as int));
        assert(digit_value(s.last()) == n % 10);
        assert(digits_value(s) == digits_value(p) * 10 + digit_value(s.last()));
        assert((n / 10) * 10 + n % 10 == n) by (nonlinear_arith);
        assert forall|i: int| 0 <= i < s.len() implies is_digit(#[trigger] s[i]) by {
            if i < p.len() {
                assert(s[i] == p[i]);
            }
        }
    }
}

/// Reading back the numeral written for a `usize` gives the number:
/// `parse_usize` undoes `push_usize`.
pub proof fn lemma_usize_roundtrip(n: usize)
    ensures
        parse_usize_spec(nat_dec(n as nat)) == Some(n),
{
    lemma_nat_dec_digits(n as nat);
    assert(is_digit(nat_dec(n as nat)[0]));
}

/// Reading back the numeral written for an `i16` gives the number:
/// `parse_i16` undoes the signed numeral of `push_i32`.
pub proof fn lemma_i16_roundtrip(v: i16)
    ensures
        parse_i16_spec(int_dec(v as int)) == Some(v),
{
    if v < 0 {
        let m = (-v) as nat;
        lemma_nat_dec_digits(m);
        let s = int_dec(v as int);
        assert(s.skip(1) =~= nat_dec(m));
    } else {
        lemma_nat_dec_digits(v as nat);
        assert(is_digit(nat_dec(v as nat)[0]));
    }
}


/// Distinct numbers have distinct numerals; hence the comparisons of one
/// file, whose internal labels end in the comparison's index, and the
/// `call`s, whose return labels end in the call's number, get labels of their
/// own.
pub proof fn lemma_nat_dec_injective(a: nat, b: nat)
    ensures
        nat_dec(a) == nat_dec(b) ==> a == b,
{
    lemma_nat_dec_digits(a);
    lemma_nat_dec_digits(b);
}

} // verus!
