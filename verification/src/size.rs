//! Integer rounding behind the human-readable size of a document: how a
//! byte count becomes a double, and how a double is shown with one
//! decimal place.

use vstd::prelude::*;
use vstd::arithmetic::div_mod::{lemma_div_denominator, lemma_fundamental_div_mod};
use crate::text::{decimal, digit_char, push_decimal};

verus! {

/// `num / den` rounded to the nearest integer, a tie going to the even one.
pub open spec fn round_half_even(num: nat, den: nat) -> nat
    recommends
        den > 0,
{
    let q = num / den;
    let r = num % den;
    if 2 * r < den {
        q
    } else if 2 * r > den {
        q + 1
    } else if q % 2 == 0 {
        q
    } else {
        q + 1
    }
}

/// The distance between neighbouring doubles near `n`: 1 below 2^53, where
/// every integer is a double, and doubling with each further binary digit.
pub open spec fn f64_spacing(n: nat) -> nat
    decreases n,
{
    if n < 0x20_0000_0000_0000 {
        1
    } else {
        2 * f64_spacing(n / 2)
    }
}

/// The double nearest to `n` (a tie going to the even significand), which
/// is what converting an integer to `f64` gives.
pub open spec fn nearest_f64(n: nat) -> nat {
    round_half_even(n, f64_spacing(n)) * f64_spacing(n)
}

/// A count of tenths written with one decimal place, as `{:.1}` shows it.
pub open spec fn tenths_text(t: nat) -> Seq<char> {
    decimal(t / 10).push('.').push(digit_char(t % 10))
}

/// The text for a size in bytes: whole bytes below 1 KiB, otherwise the
/// value in KiB (below 1 MiB) or MiB, rounded to one decimal place. The
/// MiB value is taken from the size as a double.
pub open spec fn human_size_text(n: nat) -> Seq<char> {
    if n < 1024 {
        decimal(n) + seq![' ', 'B']
    } else if n < 1048576 {
        tenths_text(round_half_even(10 * n, 1024)) + seq![' ', 'K', 'i', 'B']
    } else {
        tenths_text(round_half_even(10 * nearest_f64(n), 1048576)) + seq![' ', 'M', 'i', 'B']
    }
}

/// Rounds `num / den` half to even.
pub fn round_div_half_even(num: u128, den: u128) -> (r: u128)
    requires
        0 < den,
    ensures
        r == round_half_even(num as nat, den as nat),
{
    let q = num / den;
    let rem = num % den;
    proof {
        lemma_fundamental_div_mod(num as int, den as int);
    }
    if rem < den - rem {
        q
    } else {
        assert(q < 0xffff_ffff_ffff_ffff_ffff_ffff_ffff_ffff) by (nonlinear_arith)
            requires
                num == den * q + rem,
                rem >= den - rem,
                0 <= rem < den,
                num <= 0xffff_ffff_ffff_ffff_ffff_ffff_ffff_ffff,
        ;
        if rem > den - rem {
            q + 1
        } else if q % 2 == 0 {
            q
        } else {
            q + 1
        }
    }
}

/// The value of `n` converted to a double, as an integer.
pub fn nearest_f64_value(n: u64) -> (r: u128)
    ensures
        r == nearest_f64(n as nat),
        r < 0x1_0000_0000_0000_1000,
{
    let mut m: u64 = n;
    let mut p: u64 = 1;
    while m >= 0x20_0000_0000_0000
        invariant
            1 <= p < 0x1000,
            m == n / p,
            f64_spacing(n as nat) == p * f64_spacing(m as nat),
        decreases m,
    {
        proof {
            lemma_fundamental_div_mod(n as int, p as int);
            assert(p < 0x800) by (nonlinear_arith)
                requires
                    m >= 0x20_0000_0000_0000,
                    n >= p * m,
                    n < 0x1_0000_0000_0000_0000,
                    p >= 1,
            ;
            lemma_div_denominator(n as int, p as int, 2);
            assert(f64_spacing(m as nat) == 2 * f64_spacing((m / 2) as nat));
            assert(p * (2 * f64_spacing((m / 2) as nat)) == (p * 2) * f64_spacing((m / 2) as nat))
                by (nonlinear_arith);
        }
        m = m / 2;
        p = p * 2;
    }
    assert(f64_spacing(m as nat) == 1);
    assert(f64_spacing(n as nat) == p) by (nonlinear_arith)
        requires
            f64_spacing(n as nat) == p * f64_spacing(m as nat),
            f64_spacing(m as nat) == 1,
    ;
    let q = round_div_half_even(n as u128, p as u128);
    proof {
        lemma_fundamental_div_mod(n as int, p as int);
        assert(q * p < 0x1_0000_0000_0000_1000) by (nonlinear_arith)
            requires
                q <= n / p + 1,
                p * (n / p) <= n,
                n < 0x1_0000_0000_0000_0000,
                p < 0x1000,
                p >= 1,
        ;
    }
    assert(round_half_even(n as nat, f64_spacing(n as nat)) == q);
    q * (p as u128)
}

/// Below 2^53 a size is a double as it is, so the MiB figure is the exact
/// size rounded to a tenth.
pub proof fn law_sizes_below_2_pow_53_are_exact(n: nat)
    requires
        n < 0x20_0000_0000_0000,
    ensures
        nearest_f64(n) == n,
{
    assert(f64_spacing(n) == 1);
    assert(n % 1 == 0 && n / 1 == n) by (nonlinear_arith);
    assert(round_half_even(n, 1) == n);
    assert(n * 1 == n);
}


/// Sizes below 1 KiB are shown in bytes; whole numbers of KiB below 1 MiB
/// and whole numbers of MiB (below 2^53 bytes) are shown with `.0`.
pub proof fn law_whole_units(k: nat)
    ensures
        k < 1024 ==> human_size_text(k) == decimal(k) + seq![' ', 'B'],
        1 <= k < 1024 ==> human_size_text(1024 * k) == decimal(k) + seq!['.', '0', ' ', 'K', 'i', 'B'],
        1 <= k < 0x2_0000_0000 ==> human_size_text(1048576 * k) == decimal(k) + seq![
            '.',
            '0',
            ' ',
            'M',
            'i',
            'B',
        ],
{
    if 1 <= k < 1024 {
        let n = 1024 * k;
        assert(n >= 1024 && n < 1048576) by (nonlinear_arith)
            requires
                1 <= k < 1024,
                n == 1024 * k,
        ;
        assert((10 * n) / 1024 == 10 * k && (10 * n) % 1024 == 0) by (nonlinear_arith)
            requires
                n == 1024 * k,
        ;
        assert((10 * k) / 10 == k && (10 * k) % 10 == 0) by (nonlinear_arith);
        assert(digit_char(0) == '0');
        assert(human_size_text(n) =~= decimal(k) + seq!['.', '0', ' ', 'K', 'i', 'B']);
    }
    if 1 <= k < 0x2_0000_0000 {
        let n = 1048576 * k;
        assert(n >= 1048576 && n < 0x20_0000_0000_0000) by (nonlinear_arith)
            requires
                1 <= k < 0x2_0000_0000,
                n == 1048576 * k,
        ;
        law_sizes_below_2_pow_53_are_exact(n);
        assert((10 * n) / 1048576 == 10 * k && (10 * n) % 1048576 == 0) by (nonlinear_arith)
            requires
                n == 1048576 * k,
        ;
        assert((10 * k) / 10 == k && (10 * k) % 10 == 0) by (nonlinear_arith);
        assert(human_size_text(n) =~= decimal(k) + seq!['.', '0', ' ', 'M', 'i', 'B']);
    }
}


/// Rounding half to even gives the integer nearest to `num / den`, and on a
/// tie the even one of the two.
pub proof fn law_round_half_even_is_nearest(num: nat, den: nat)
    requires
        den > 0,
    ensures
        ({
            let r = round_half_even(num, den);
            let diff = if num >= r * den { num - r * den } else { r * den - num };
            &&& 2 * diff <= den
            &&& 2 * diff == den ==> r % 2 == 0
        }),
{
    let q = num / den;
    let rem = num % den;
    lemma_fundamental_div_mod(num as int, den as int);
    assert(num == den * q + rem);
    assert(q * den == den * q) by (nonlinear_arith);
    assert((q + 1) * den == den * q + den) by (nonlinear_arith);
}

} // verus!
