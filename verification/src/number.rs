//! Decimal numbers as text.

use vstd::prelude::*;
use vstd::string::StringExecFns;

use crate::text::{char_is_digit, chars_of};
#[allow(unused_imports)]
use crate::text::is_digit;

verus! {

/// The decimal digit with value `d`.
pub open spec fn digit(d: nat) -> char {
    (48 + d) as char
}

/// The decimal numeral of `n`, without leading zeros.
pub open spec fn dec(n: nat) -> Seq<char>
    decreases n,
{
    if n < 10 {
        seq![digit(n)]
    } else {
        dec(n / 10).push(digit(n % 10))
    }
}

/// The value of a string of decimal digits.
pub open spec fn digits_value(s: Seq<char>) -> nat
    decreases s.len(),
{
    if s.len() == 0 {
        0
    } else {
        digits_value(s.drop_last()) * 10 + (s.last() as nat - 48) as nat
    }
}

/// Whether `s` holds decimal digits only.
pub open spec fn all_digits(s: Seq<char>) -> bool {
    forall|i: int| 0 <= i < s.len() ==> is_digit(#[trigger] s[i])
}

/// The digits of an unsigned numeral: what follows an optional `+`.
pub open spec fn unsigned_digits(s: Seq<char>) -> Seq<char> {
    if s.len() > 0 && s[0] == '+' {
        s.drop_first()
    } else {
        s
    }
}

/// What `str::parse` gives for an unsigned type with the greatest value `max`.
pub open spec fn parse_unsigned(s: Seq<char>, max: nat) -> Option<nat> {
    let d = unsigned_digits(s);
    if d.len() > 0 && all_digits(d) && digits_value(d) <= max {
        Some(digits_value(d))
    } else {
        None
    }
}

/// The decimal numeral of `n`.
pub fn u64_to_string(n: u64) -> (r: String)
    ensures
        r@ == dec(n as nat),
    decreases n,
{
    if n < 10 {
        let mut s = String::new();
        s.push((48 + n as u8) as char);
        assert(s@ =~= dec(n as nat));
        s
    } else {
        let mut s = u64_to_string(n / 10);
        s.push((48 + (n % 10) as u8) as char);
        s
    }
}

/// The decimal numeral of `n`.
pub fn usize_to_string(n: usize) -> (r: String)
    ensures
        r@ == dec(n as nat),
{
    u64_to_string(n as u64)
}

/// The decimal numeral of a signed number: a minus sign before the magnitude where it is negative.
pub open spec fn signed_dec(n: int) -> Seq<char> {
    if n < 0 {
        seq!['-'] + dec((-n) as nat)
    } else {
        dec(n as nat)
    }
}

/// The decimal numeral of `n`.
pub fn u128_to_string(n: u128) -> (r: String)
    ensures
        r@ == dec(n as nat),
    decreases n,
{
    if n < 10 {
        let mut s = String::new();
        s.push((48 + n as u8) as char);
        assert(s@ =~= dec(n as nat));
        s
    } else {
        let mut s = u128_to_string(n / 10);
        s.push((48 + (n % 10) as u8) as char);
        s
    }
}

/// The decimal numeral of `n`.
pub fn i128_to_string(n: i128) -> (r: String)
    ensures
        r@ == signed_dec(n as int),
{
    if n < 0 {
        let m: u128 = (-(n + 1)) as u128 + 1;
        let d = u128_to_string(m);
        let mut s = String::new();
        s.push('-');
        let v = chars_of(d.as_str());
        for i in 0..v.len()
            invariant
                s@ == seq!['-'] + v@.take(i as int),
        {
            s.push(v[i]);
            assert(v@.take(i + 1) =~= v@.take(i as int).push(v@[i as int]));
        }
        assert(v@.take(v@.len() as int) =~= v@);
        s
    } else {
        u128_to_string(n as u128)
    }
}

proof fn lemma_digits_prefix(s: Seq<char>, i: int)
    requires
        0 <= i <= s.len(),
        all_digits(s),
    ensures
        digits_value(s.take(i)) <= digits_value(s),
    decreases s.len() - i,
{
    if i == s.len() {
        assert(s.take(i) =~= s);
    } else {
        lemma_digits_prefix(s, i + 1);
        assert(s.take(i + 1).drop_last() =~= s.take(i));
        assert(is_digit(s[i]));
    }
}

/// The numeral of a number holds digits only, and reads back as that number.
pub proof fn lemma_dec_reads_back(n: nat)
    ensures
        dec(n).len() > 0,
        all_digits(dec(n)),
        digits_value(dec(n)) == n,
        parse_unsigned(dec(n), n) == Some(n),
    decreases n,
{
    if n < 10 {
        assert(dec(n).drop_last() =~= Seq::<char>::empty());
        assert(digits_value(Seq::<char>::empty()) == 0);
    } else {
        lemma_dec_reads_back(n / 10);
        assert(dec(n).drop_last() =~= dec(n / 10));
    }
    assert(is_digit(dec(n)[0]));
}

/// Two numbers with the same numeral are equal.
pub proof fn lemma_dec_injective(a: nat, b: nat)
    requires
        dec(a) == dec(b),
    ensures
        a == b,
{
    lemma_dec_reads_back(a);
    lemma_dec_reads_back(b);
}

/// Reads an unsigned number that is at most `max`.
pub fn parse_up_to(s: &str, max: u64) -> (r: Option<u64>)
    ensures
        match r {
            Some(n) => parse_unsigned(s@, max as nat) == Some(n as nat),
            None => parse_unsigned(s@, max as nat) is None,
        },
{
    let v = chars_of(s);
    let start: usize = if v.len() > 0 && v[0] == '+' {
        1
    } else {
        0
    };
    let ghost d = unsigned_digits(s@);
    assert(d =~= v@.skip(start as int));
    if start == v.len() {
        return None;
    }
    let mut n: u64 = 0;
    let mut i: usize = start;
    assert(d.take(0) =~= Seq::<char>::empty());
    while i < v.len()
        invariant
            start <= i <= v@.len(),
            d == v@.skip(start as int),
            d == unsigned_digits(s@),
            n == digits_value(d.take(i - start)),
            n <= max,
            forall|j: int| 0 <= j < i - start ==> is_digit(#[trigger] d[j]),
        decreases v@.len() - i,
    {
        let c = v[i];
        assert(d[i - start] == c);
        if !char_is_digit(c) {
            return None;
        }
        let x: u64 = (c as u32 - 48) as u64;
        assert(d.take(i - start + 1).drop_last() =~= d.take(i - start));
        if n as u128 * 10 + x as u128 > max as u128 {
            proof {
                if all_digits(d) {
                    lemma_digits_prefix(d, i - start + 1);
                }
            }
            return None;
        }
        n = n * 10 + x;
        i += 1;
    }
    assert(d.take(d.len() as int) =~= d);
    Some(n)
}

/// `str::parse::<u64>`.
pub fn parse_u64(s: &str) -> (r: Option<u64>)
    ensures
        match r {
            Some(n) => parse_unsigned(s@, u64::MAX as nat) == Some(n as nat),
            None => parse_unsigned(s@, u64::MAX as nat) is None,
        },
{
    parse_up_to(s, u64::MAX)
}

/// `str::parse::<u32>`.
pub fn parse_u32(s: &str) -> (r: Option<u32>)
    ensures
        match r {
            Some(n) => parse_unsigned(s@, u32::MAX as nat) == Some(n as nat),
            None => parse_unsigned(s@, u32::MAX as nat) is None,
        },
{
    match parse_up_to(s, u32::MAX as u64) {
        Some(n) => Some(n as u32),
        None => None,
    }
}

// ---------------------------------------------------------------------------
// Sizes
// ---------------------------------------------------------------------------

/// The bytes of a mebibyte.
pub const MEBIBYTE: u64 = 1_048_576;

/// The whole number nearest to `n / d`; of two that are equally near the even one.
pub open spec fn rounded(n: nat, d: nat) -> nat {
    let q = n / d;
    let r = n % d;
    if 2 * r > d || (2 * r == d && q % 2 == 1) {
        q + 1
    } else {
        q
    }
}

/// The distance between two neighbouring double-precision numbers where `n` is: they hold 53
/// binary digits.
pub open spec fn spacing(n: nat) -> nat
    decreases n,
{
    if n < 0x20_0000_0000_0000 {
        1
    } else {
        2 * spacing(n / 2)
    }
}

/// The double-precision number nearest to `n`; of two that are equally near the even one.
pub open spec fn as_double(n: nat) -> nat {
    rounded(n, spacing(n)) * spacing(n)
}

/// A size in mebibytes with one decimal. The size is taken as a double-precision number.
pub open spec fn mebibytes_1(size: nat) -> Seq<char> {
    let v = rounded(as_double(size) * 10, MEBIBYTE as nat);
    dec(v / 10) + "."@ + seq![digit(v % 10)]
}

/// A size in mebibytes with two decimals. The size is taken as a double-precision number.
pub open spec fn mebibytes_2(size: nat) -> Seq<char> {
    let v = rounded(as_double(size) * 100, MEBIBYTE as nat);
    dec(v / 100) + "."@ + seq![digit(v / 10 % 10), digit(v % 10)]
}

fn round_to_even(n: u128, d: u128) -> (r: u128)
    requires
        n < 0x1_0000_0000_0000_0000_0000,
        0 < d <= 0x10_0000,
    ensures
        r == rounded(n as nat, d as nat),
        r <= n / d + 1,
{
    let q: u128 = n / d;
    let rest: u128 = n % d;
    assert(q <= n) by (nonlinear_arith)
        requires
            q == n / d,
            d > 0,
    ;
    if 2 * rest > d || (2 * rest == d && q % 2 == 1) {
        q + 1
    } else {
        q
    }
}

/// The double-precision number nearest to a whole number.
fn nearest_double(n: u64) -> (r: u128)
    ensures
        r == as_double(n as nat),
        r <= 0x2_0000_0000_0000_0000,
{
    let mut unit: u64 = 1;
    let mut rest: u64 = n;
    assert(n / 1 == n);
    while rest >= 0x20_0000_0000_0000
        invariant
            0 < unit <= 4096,
            rest == n / unit,
            spacing(n as nat) == unit * spacing(rest as nat),
        decreases rest,
    {
        assert(unit < 2048) by (nonlinear_arith)
            requires
                n / unit >= 0x20_0000_0000_0000,
                n <= 0xffff_ffff_ffff_ffff,
                unit > 0,
        ;
        proof {
            vstd::arithmetic::div_mod::lemma_div_denominator(n as int, unit as int, 2);
            assert(unit * (2 * spacing((rest / 2) as nat)) == (unit * 2) * spacing(
                (rest / 2) as nat,
            )) by (nonlinear_arith);
        }
        rest = rest / 2;
        unit = unit * 2;
    }
    assert(spacing(rest as nat) == 1);
    assert(unit * spacing(rest as nat) == unit) by (nonlinear_arith)
        requires
            spacing(rest as nat) == 1,
    ;
    let q: u128 = round_to_even(n as u128, unit as u128);
    assert(q * unit <= 0x2_0000_0000_0000_0000) by (nonlinear_arith)
        requires
            q <= 0x20_0000_0000_0000,
            0 < unit <= 4096,
    ;
    q * unit as u128
}

fn digit_of(d: u64) -> (r: char)
    requires
        d < 10,
    ensures
        r == digit(d as nat),
{
    (48 + d as u8) as char
}

/// Writes a size in mebibytes with one decimal.
pub fn format_mb1(size: u64) -> (r: String)
    ensures
        r@ == mebibytes_1(size as nat),
{
    let v: u64 = round_to_even(nearest_double(size) * 10, 1_048_576) as u64;
    let mut s = u64_to_string(v / 10).concat(".");
    s.push(digit_of(v % 10));
    assert(s@ =~= mebibytes_1(size as nat));
    s
}

/// Writes a size in mebibytes with two decimals.
pub fn format_mb2(size: u64) -> (r: String)
    ensures
        r@ == mebibytes_2(size as nat),
{
    let v: u64 = round_to_even(nearest_double(size) * 100, 1_048_576) as u64;
    let mut s = u64_to_string(v / 100).concat(".");
    s.push(digit_of(v / 10 % 10));
    s.push(digit_of(v % 10));
    assert(s@ =~= mebibytes_2(size as nat));
    s
}

} // verus!
