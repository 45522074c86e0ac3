//! Human-readable byte counts in binary units.
use vstd::prelude::*;
use vstd::arithmetic::div_mod::{lemma_div_denominator, lemma_fundamental_div_mod};
use crate::text::{decimal, digit_char, push_decimal, string_of};

verus! {

/// 1 KB: 1024 bytes.
pub const KB: u128 = 1024;

/// 1 MB: 1024 KB.
pub const MB: u128 = 1048576;

/// 1 GB: 1024 MB.
pub const GB: u128 = 1073741824;

/// The spacing of the `f64` values around `n`: 1 below 2^53, and twice the
/// spacing of `n / 2` above it (a significand has 53 bits).
pub open spec fn f64_spacing(n: nat) -> nat
    decreases n,
{
    if n < 0x20_0000_0000_0000 {
        1
    } else {
        2 * f64_spacing(n / 2)
    }
}

/// `n as f64`, as the integer it is: `n` rounded to a multiple of its
/// spacing, to the nearest one, ties to the one with an even multiplier.
pub open spec fn to_f64(n: nat) -> nat {
    let p = f64_spacing(n);
    let q = n / p;
    let r = n % p;
    if 2 * r > p || (2 * r == p && q % 2 == 1) {
        (q + 1) * p
    } else {
        q * p
    }
}

/// The number of tenths that `format!("{:.1}", v / unit)` shows: `10 * v / unit`
/// rounded to the nearest integer, ties to even.
pub open spec fn round_tenths(v: nat, unit: nat) -> nat {
    let t = v * 10 / unit;
    let r = v * 10 % unit;
    if 2 * r > unit || (2 * r == unit && t % 2 == 1) {
        t + 1
    } else {
        t
    }
}

/// A count of tenths written with one decimal place.
pub open spec fn one_decimal(tenths: nat) -> Seq<char> {
    decimal(tenths / 10).push('.').push(digit_char(tenths % 10))
}

/// The text of `format_bytes(bytes)`: the value `bytes as f64` in the largest
/// of GB, MB and KB that it reaches, with one decimal place, or in bytes with
/// none.
pub open spec fn bytes_text(bytes: u64) -> Seq<char> {
    let v = to_f64(bytes as nat);
    if v >= GB {
        one_decimal(round_tenths(v, GB as nat)) + seq![' ', 'G', 'B']
    } else if v >= MB {
        one_decimal(round_tenths(v, MB as nat)) + seq![' ', 'M', 'B']
    } else if v >= KB {
        one_decimal(round_tenths(v, KB as nat)) + seq![' ', 'K', 'B']
    } else {
        decimal(v) + seq![' ', 'B']
    }
}

/// `bytes as f64`, exactly, as an integer.
pub fn f64_value(bytes: u64) -> (v: u128)
    ensures
        v == to_f64(bytes as nat),
        v <= 0x4_0000_0000_0000_0000,
{
    let n: u128 = bytes as u128;
    let mut m: u128 = n;
    let mut p: u128 = 1;
    while m >= 0x20_0000_0000_0000
        invariant
            1 <= p <= 4096,
            m == n / p,
            n == bytes,
            f64_spacing(n as nat) == p * f64_spacing(m as nat),
            p * m <= n,
        decreases m,
    {
        assert(p < 2048) by (nonlinear_arith)
            requires
                m >= 0x20_0000_0000_0000,
                p * m <= n,
                n < 0x1_0000_0000_0000_0000,
                p >= 1,
        ;
        proof {
            lemma_div_denominator(n as int, p as int, 2);
            lemma_fundamental_div_mod(n as int, (p * 2) as int);
            assert(f64_spacing(m as nat) == 2 * f64_spacing((m / 2) as nat));
            assert(p * (2 * f64_spacing((m / 2) as nat)) == (p * 2) * f64_spacing((m / 2) as nat))
                by (nonlinear_arith);
        }
        m = m / 2;
        p = p * 2;
        assert(p * m <= n) by {
            assert(n % p >= 0);
        }
    }
    proof {
        lemma_fundamental_div_mod(n as int, p as int);
    }
    let r: u128 = n - p * m;
    assert(f64_spacing(m as nat) == 1);
    assert(p * f64_spacing(m as nat) == p) by (nonlinear_arith)
        requires
            f64_spacing(m as nat) == 1,
    ;
    assert(f64_spacing(n as nat) == p);
    assert(m * p == p * m) by (nonlinear_arith);
    assert(r == n % p);
    assert((m + 1) * p <= 0x4_0000_0000_0000_0000) by (nonlinear_arith)
        requires
            m < 0x20_0000_0000_0000,
            p <= 4096,
    ;
    if 2 * r > p || (2 * r == p && m % 2 == 1) {
        (m + 1) * p
    } else {
        m * p
    }
}

/// Appends `v / unit` with one decimal place.
fn push_one_decimal(out: &mut Vec<char>, v: u128, unit: u128)
    requires
        0 < unit <= GB,
        v <= 0x4_0000_0000_0000_0000,
    ensures
        final(out)@ == old(out)@ + one_decimal(round_tenths(v as nat, unit as nat)),
{
    let t = v * 10 / unit;
    let r = v * 10 % unit;
    let tenths = if 2 * r > unit || (2 * r == unit && t % 2 == 1) {
        t + 1
    } else {
        t
    };
    assert(tenths == round_tenths(v as nat, unit as nat));
    push_decimal(out, tenths / 10);
    out.push('.');
    let d: u8 = (tenths % 10) as u8;
    out.push((48 + d) as char);
    assert(final(out)@ =~= old(out)@ + one_decimal(tenths as nat));
}

/// A byte count in the largest binary unit that it reaches: "1.5 KB",
/// "2.0 GB", "512 B".
pub fn format_bytes(bytes: u64) -> (s: String)
    ensures
        s@ == bytes_text(bytes),
{
    let v = f64_value(bytes);
    let mut out: Vec<char> = Vec::new();
    if v >= GB {
        push_one_decimal(&mut out, v, GB);
        out.push(' ');
        out.push('G');
        out.push('B');
    } else if v >= MB {
        push_one_decimal(&mut out, v, MB);
        out.push(' ');
        out.push('M');
        out.push('B');
    } else if v >= KB {
        push_one_decimal(&mut out, v, KB);
        out.push(' ');
        out.push('K');
        out.push('B');
    } else {
        push_decimal(&mut out, v);
        out.push(' ');
        out.push('B');
    }
    assert(out@ =~= bytes_text(bytes));
    string_of(out.as_slice())
}

} // verus!
