//! How the dashboards print byte sizes of a gigabyte and more.
//!
//! Sizes of a gigabyte and more are shown with one decimal, as Rust's `{:.1}`
//! prints the `f64` quotient: the byte count is first rounded to the nearest
//! `f64` (ties to even), and the printed decimal is the exact value rounded
//! to one digit, ties to even.

use vstd::prelude::*;
use vstd::arithmetic::power2::{
    lemma2_to64, lemma2_to64_rest, lemma_pow2_adds, lemma_pow2_pos, lemma_pow2_strictly_increases,
    lemma_pow2_unfold, pow2,
};
use crate::text::{dec, push_char, push_dec};

verus! {

/// `a / b` rounded to the nearest integer, ties to even.
pub open spec fn round_half_even(a: nat, b: nat) -> nat
    recommends
        b > 0,
{
    let q = a / b;
    let r = a % b;
    if 2 * r < b {
        q
    } else if 2 * r > b {
        q + 1
    } else if q % 2 == 0 {
        q
    } else {
        q + 1
    }
}

/// Number of binary digits of `n`.
pub open spec fn bit_len(n: nat) -> nat
    decreases n,
{
    if n == 0 {
        0
    } else {
        1 + bit_len(n / 2)
    }
}

/// The value of `n as f64`: `n` rounded to 53 significant bits, ties to
/// even.
pub open spec fn f64_value(n: nat) -> nat {
    if bit_len(n) <= 53 {
        n
    } else {
        let p = pow2((bit_len(n) - 53) as nat);
        round_half_even(n, p) * p
    }
}

/// `n / 2^s` printed with one decimal (`{:.1}`), as characters.
pub open spec fn one_decimal(n: nat, s: nat) -> Seq<char> {
    let q = round_half_even(10 * n, pow2(s));
    dec(q / 10) + "."@ + seq![crate::text::digit_char(q % 10)]
}

fn bit_length(n: u64) -> (res: u64)
    ensures
        res == bit_len(n as nat),
        res <= 64,
{
    proof {
        lemma_bit_len_bound(n as nat);
    }
    let mut m = n;
    let mut c: u64 = 0;
    while m > 0
        invariant
            bit_len(n as nat) == c + bit_len(m as nat),
            bit_len(n as nat) <= 64,
        decreases m,
    {
        m = m / 2;
        c = c + 1;
    }
    c
}

proof fn lemma_bit_len_bound(n: nat)
    ensures
        n < pow2(bit_len(n)),
        n > 0 ==> pow2((bit_len(n) - 1) as nat) <= n,
        n <= u64::MAX ==> bit_len(n) <= 64,
    decreases n,
{
    lemma2_to64();
    if n > 0 {
        lemma_bit_len_bound(n / 2);
        let b = bit_len(n);
        lemma_pow2_unfold(b);
        if b >= 2 {
            lemma_pow2_unfold((b - 1) as nat);
        }
        if n <= u64::MAX && b > 64 {
            lemma_pow2_strictly_increases(64, (b - 1) as nat);
        }
        if n <= u64::MAX && b == 65 {
            assert(pow2(64) <= n);
        }
    }
}

fn pow2_exec(e: u64) -> (res: u128)
    requires
        e <= 64,
    ensures
        res == pow2(e as nat),
{
    proof {
        lemma2_to64();
    }
    let mut r: u128 = 1;
    let mut i: u64 = 0;
    while i < e
        invariant
            i <= e <= 64,
            r == pow2(i as nat),
            pow2(64) == 0x1_0000_0000_0000_0000,
        decreases e - i,
    {
        proof {
            if i < 64 {
                lemma_pow2_strictly_increases(i as nat, 64);
            }
            lemma_pow2_unfold((i + 1) as nat);
        }
        r = r * 2;
        i = i + 1;
    }
    r
}

pub fn round_half_even_u128(a: u128, b: u128) -> (res: u128)
    requires
        0 < b <= 0x1_0000_0000_0000_0000u128,
        a < 0x1_0000_0000_0000_0000_0000u128,
    ensures
        res == round_half_even(a as nat, b as nat),
{
    let q = a / b;
    let r = a % b;
    if 2 * r < b {
        q
    } else if 2 * r > b {
        q + 1
    } else if q % 2 == 0 {
        q
    } else {
        q + 1
    }
}

/// `n as f64`, as an exact integer.
pub fn f64_of(n: u64) -> (res: u128)
    ensures
        res == f64_value(n as nat),
        res <= 0x1_0000_0000_0000_0000u128,
{
    let bl = bit_length(n);
    if bl <= 53 {
        return n as u128;
    }
    let p = pow2_exec(bl - 53);
    proof {
        lemma_pow2_pos((bl - 53) as nat);
        lemma2_to64();
        lemma_pow2_strictly_increases((bl - 53) as nat, 64);
    }
    let q = round_half_even_u128(n as u128, p);
    proof {
        lemma_f64_bound(n as nat, bl as nat, p as nat, q as nat);
    }
    q * p
}

proof fn lemma_round_bound(a: nat, b: nat)
    requires
        b > 0,
    ensures
        round_half_even(a, b) <= a / b + 1,
        round_half_even(a, b) <= a + 1,
{
    assert(a / b <= a) by (nonlinear_arith)
        requires
            b > 0,
    ;
}

proof fn lemma_f64_bound(n: nat, bl: nat, p: nat, q: nat)
    requires
        n <= u64::MAX,
        bl == bit_len(n),
        bl > 53,
        p == pow2((bl - 53) as nat),
        q == round_half_even(n, p),
    ensures
        q * p <= 0x1_0000_0000_0000_0000,
{
    lemma2_to64();
    lemma2_to64_rest();
    lemma_bit_len_bound(n);
    lemma_pow2_pos((bl - 53) as nat);
    lemma_round_bound(n, p);
    lemma_pow2_adds(53, (bl - 53) as nat);
    assert(pow2(bl) == pow2(53) * p);
    assert(n < pow2(53) * p);
    assert(n / p < pow2(53)) by (nonlinear_arith)
        requires
            n < pow2(53) * p,
            p > 0,
    ;
    assert(q <= pow2(53));
    if bl < 64 {
        lemma_pow2_strictly_increases(bl, 64);
    }
    assert(q * p <= pow2(53) * p) by (nonlinear_arith)
        requires
            q <= pow2(53),
    ;
}

/// Appends `n / 2^s` with one decimal.
pub fn push_one_decimal(out: &mut String, n: u128, s: u64)
    requires
        n <= 0x1_0000_0000_0000_0000u128,
        10 <= s <= 30,
    ensures
        final(out)@ == old(out)@ + one_decimal(n as nat, s as nat),
{
    let p = pow2_exec(s);
    proof {
        lemma2_to64();
        if s > 10 {
            lemma_pow2_strictly_increases(10, s as nat);
        }
    }
    let q = round_half_even_u128(10 * n, p);
    proof {
        lemma_round_bound((10 * n) as nat, p as nat);
        assert((10 * n) as nat / (p as nat) <= (10 * n) as nat / 1024) by (nonlinear_arith)
            requires
                p >= 1024,
        ;
    }
    proof {
        assert(q / 10 <= u64::MAX);
    }
    let whole = (q / 10) as u64;
    let tenth = (q % 10) as u64;
    let ghost mid = out@;
    push_dec(out, whole);
    push_char(out, '.');
    push_char(out, crate::text::digit(tenth));
    proof {
        reveal_strlit(".");
        assert(out@ =~= mid + one_decimal(n as nat, s as nat));
    }
}

} // verus!
