//! Exact integer arithmetic helpers.
//!
//! The similarity scores of the engine are integers in millionths, so
//! the one place where the reference formulas need a real-valued
//! operation — the logarithm of the PSNR path — uses a fixed-point
//! computation whose exact result is defined here.

use vstd::prelude::*;

verus! {

/// 10 to the power `e`.
pub open spec fn pow10(e: nat) -> int
    decreases e,
{
    if e == 0 {
        1
    } else {
        10 * pow10((e - 1) as nat)
    }
}

/// How many times `q` can be multiplied by 10 while staying at or
/// below `p`; for `1 <= q <= p` this is the integer part of
/// `log10(p / q)`.
pub open spec fn digits_above(p: int, q: int) -> int
    decreases p - q,
{
    if q < 1 || p < 10 * q {
        0
    } else {
        1 + digits_above(p, 10 * q)
    }
}

/// One fixed-point mantissa raised to the 10th power, step by step:
/// `i` remaining multiplications by `m`, each truncated back to a
/// scale of 10^8.
pub open spec fn pow_step(t: int, m: int, i: nat) -> int
    decreases i,
{
    if i == 0 {
        t
    } else {
        pow_step(t * m / 100_000_000, m, (i - 1) as nat)
    }
}

/// Digit-by-digit extraction of the fractional part of a base-10
/// logarithm: `rounds` more digits are appended to the accumulator
/// `r`, reading each from the mantissa `m` (scaled by 10^8) raised to
/// the 10th power.
pub open spec fn frac_digits(m: int, r: int, rounds: nat) -> int
    decreases rounds,
{
    if rounds == 0 {
        r
    } else {
        let t = pow_step(m, m, 9);
        let d = digits_above(t, 100_000_000);
        frac_digits(t / pow10(d as nat), r * 10 + d, (rounds - 1) as nat)
    }
}

/// `log10(p / q)` in hundred-thousandths, computed to five fractional
/// digits by the classical digit-by-digit method with truncating
/// fixed-point arithmetic.  This is the exact definition of what
/// [`log10_fixed`] returns.
pub open spec fn spec_log10_fixed(p: int, q: int) -> int {
    let k = digits_above(p, q);
    let m = p * 100_000_000 / (q * pow10(k as nat));
    frac_digits(m, k, 5)
}

/// `pow10` is positive.
pub proof fn lemma_pow10_pos(e: nat)
    ensures
        pow10(e) >= 1,
    decreases e,
{
    if e > 0 {
        lemma_pow10_pos((e - 1) as nat);
    }
}

/// `pow10` is monotone.
pub proof fn lemma_pow10_at_least(lo: nat, hi: nat)
    requires
        lo <= hi,
    ensures
        pow10(lo) <= pow10(hi),
    decreases hi - lo,
{
    if lo < hi {
        lemma_pow10_at_least(lo, (hi - 1) as nat);
        lemma_pow10_pos((hi - 1) as nat);
    }
}

/// A value bracketed between `base * 10^d` and `base * 10^(d+1)` has
/// exactly `d` digits above `base`.
proof fn lemma_digits_above_bracket(t: int, base: int, d: nat)
    requires
        base >= 1,
        base * pow10(d) <= t,
        t < 10 * (base * pow10(d)),
    ensures
        digits_above(t, base) == d,
    decreases d,
{
    lemma_pow10_pos(d);
    if d == 0 {
        assert(digits_above(t, base) == 0);
    } else {
        assert(pow10(d) == 10 * pow10((d - 1) as nat));
        lemma_pow10_pos((d - 1) as nat);
        assert(base * pow10(d) == (10 * base) * pow10((d - 1) as nat)) by (nonlinear_arith)
            requires
                pow10(d) == 10 * pow10((d - 1) as nat),
        ;
        assert(t >= 10 * base) by (nonlinear_arith)
            requires
                base >= 1,
                pow10((d - 1) as nat) >= 1,
                t >= (10 * base) * pow10((d - 1) as nat),
        ;
        lemma_digits_above_bracket(t, 10 * base, (d - 1) as nat);
    }
}

/// `log10(p / q)` in hundred-thousandths, by the digit-by-digit
/// method of [`spec_log10_fixed`].
///
/// Used by the PSNR similarity mapping, where `p / q` is the ratio of
/// the zero-error bound to the accumulated squared error.
pub fn log10_fixed(p: u64, q: u64) -> (r: u64)
    requires
        1 <= q <= p,
    ensures
        r == spec_log10_fixed(p as int, q as int),
        r <= 2_000_000,
{
    let p128: u128 = p as u128;
    let mut qq: u128 = q as u128;
    let mut k: u64 = 0;
    while p128 >= qq * 10
        invariant
            p128 == p as int,
            p128 < 0x1_0000_0000_0000_0000,
            1 <= q,
            1 <= qq,
            qq == q * pow10(k as nat),
            qq <= p128,
            k <= 19,
        decreases p128 - qq,
    {
        proof {
            lemma_pow10_pos(k as nat);
            assert(qq * 10 == q * (10 * pow10(k as nat))) by (nonlinear_arith)
                requires
                    qq == q * pow10(k as nat),
            ;
            if k >= 19 {
                // q * 10^19 * 10 >= 10^20 > 2^64 > p: the loop cannot run
                lemma_pow10_at_least(19, k as nat);
                assert(pow10(19) == 10_000_000_000_000_000_000) by {
                    reveal_with_fuel(pow10, 20);
                }
                assert(qq >= pow10(k as nat)) by (nonlinear_arith)
                    requires
                        q >= 1,
                        pow10(k as nat) >= 1,
                        qq == q * pow10(k as nat),
                ;
                assert(false);
            }
            lemma_pow10_pos((k + 1) as nat);
            assert(q * (10 * pow10(k as nat)) >= 1) by (nonlinear_arith)
                requires
                    q >= 1,
                    10 * pow10(k as nat) >= 1,
            ;
        }
        qq = qq * 10;
        k = k + 1;
    }
    proof {
        lemma_pow10_pos(k as nat);
        assert(10 * (q * pow10(k as nat)) == qq * 10) by (nonlinear_arith)
            requires
                qq == q * pow10(k as nat),
        ;
        lemma_digits_above_bracket(p as int, q as int, k as nat);
    }
    // mantissa in [10^8, 10^9), scaled by 10^8
    let mut m: u128 = p128 * 100_000_000 / qq;
    proof {
        assert(m >= 100_000_000) by (nonlinear_arith)
            requires
                qq <= p128,
                qq >= 1,
                m == p128 as int * 100_000_000 / qq as int,
        ;
        assert(m < 1_000_000_000) by (nonlinear_arith)
            requires
                p128 < qq * 10,
                qq >= 1,
                m == p128 as int * 100_000_000 / qq as int,
        ;
    }
    let ghost m0: int = m as int;
    let mut r: u64 = k;
    let mut round: u64 = 0;
    while round < 5
        invariant
            100_000_000 <= m < 1_000_000_000,
            round <= 5,
            r <= 20 * pow10(round as nat) - 1,
            frac_digits(m as int, r as int, (5 - round) as nat) == frac_digits(m0, k as int, 5),
        decreases 5 - round,
    {
        let ghost m_in: int = m as int;
        let ghost r_in: int = r as int;
        proof {
            assert(pow10(9) == 1_000_000_000) by {
                reveal_with_fuel(pow10, 10);
            }
        }
        // raise the mantissa to the 10th power, truncating each step
        let mut t: u128 = m;
        let mut j: u64 = 0;
        while j < 9
            invariant
                100_000_000 <= m < 1_000_000_000,
                j <= 9,
                t == pow_step(m_in, m_in, j as nat),
                m_in == m as int,
                100_000_000 <= t,
                t < pow10((9 + j) as nat),
            decreases 9 - j,
        {
            proof {
                lemma_pow10_pos((9 + j) as nat);
                assert(t * m < pow10((9 + j) as nat) * 1_000_000_000) by (nonlinear_arith)
                    requires
                        t < pow10((9 + j) as nat),
                        m < 1_000_000_000,
                        t >= 0,
                        pow10((9 + j) as nat) >= 1,
                ;
                lemma_pow10_mul_ten((9 + j) as nat);
                assert(t * m / 100_000_000 >= 100_000_000) by (nonlinear_arith)
                    requires
                        t >= 100_000_000,
                        m >= 100_000_000,
                ;
                assert(t * m / 100_000_000 < pow10((9 + j + 1) as nat)) by (nonlinear_arith)
                    requires
                        t * m < pow10((9 + j) as nat) * 1_000_000_000,
                        pow10((9 + j) as nat) * 1_000_000_000 == pow10((9 + j + 1) as nat)
                            * 100_000_000,
                ;
                assert(pow10((9 + j + 1) as nat) <= pow10(18)) by {
                    lemma_pow10_at_least((9 + j + 1) as nat, 18);
                }
                assert(pow10(18) == 1_000_000_000_000_000_000) by {
                    reveal_with_fuel(pow10, 19);
                }
                assert(t * m <= pow10(18) * 1_000_000_000) by (nonlinear_arith)
                    requires
                        t < pow10(18),
                        m < 1_000_000_000,
                        t >= 0,
                        m >= 0,
                ;
                lemma_pow_step_snoc(m_in, m_in, j as nat);
            }
            t = t * m / 100_000_000;
            j = j + 1;
        }
        // extract the next digit: the decimal magnitude of t / 10^8
        let mut d: u64 = 0;
        let mut bound: u128 = 1_000_000_000;
        proof {
            assert(pow10(18) == 1_000_000_000_000_000_000) by {
                reveal_with_fuel(pow10, 19);
            }
        }
        while t >= bound
            invariant
                bound == 1_000_000_000 * pow10(d as nat),
                1_000_000_000 <= bound <= 1_000_000_000_000_000_000,
                100_000_000 * pow10(d as nat) <= t,
                t < pow10(18),
                pow10(18) == 1_000_000_000_000_000_000,
                d <= 9,
            decreases 9 - d,
        {
            proof {
                lemma_pow10_pos(d as nat);
                if d >= 9 {
                    lemma_pow10_at_least(9, d as nat);
                    assert(pow10(9) == 1_000_000_000) by {
                        reveal_with_fuel(pow10, 10);
                    }
                    assert(pow10(18) == 1_000_000_000_000_000_000) by {
                        reveal_with_fuel(pow10, 19);
                    }
                    assert(1_000_000_000 * pow10(d as nat) >= pow10(18)) by (nonlinear_arith)
                        requires
                            pow10(d as nat) >= pow10(9),
                            pow10(9) == 1_000_000_000,
                            pow10(18) == 1_000_000_000_000_000_000,
                    ;
                    assert(false);
                }
                assert(bound * 10 == 1_000_000_000 * pow10((d + 1) as nat)) by (nonlinear_arith)
                    requires
                        bound == 1_000_000_000 * pow10(d as nat),
                        pow10((d + 1) as nat) == 10 * pow10(d as nat),
                ;
                assert(100_000_000 * pow10((d + 1) as nat) == 1_000_000_000 * pow10(d as nat))
                    by (nonlinear_arith)
                    requires
                        pow10((d + 1) as nat) == 10 * pow10(d as nat),
                ;
                lemma_pow10_at_least((d + 1) as nat, 9);
                assert(pow10(9) == 1_000_000_000) by {
                    reveal_with_fuel(pow10, 10);
                }
                assert(1_000_000_000 * pow10((d + 1) as nat) <= 1_000_000_000 * 1_000_000_000)
                    by (nonlinear_arith)
                    requires
                        pow10((d + 1) as nat) <= 1_000_000_000,
                ;
            }
            bound = bound * 10;
            d = d + 1;
        }
        proof {
            assert(t < 10 * (100_000_000 * pow10(d as nat))) by (nonlinear_arith)
                requires
                    t < 1_000_000_000 * pow10(d as nat),
            ;
            lemma_digits_above_bracket(t as int, 100_000_000, d as nat);
        }
        let ghost t_int: int = t as int;
        // renormalize the mantissa
        let divisor: u128 = pow10_u128(d);
        let new_m: u128 = t / divisor;
        proof {
            lemma_pow10_pos(d as nat);
            assert(new_m >= 100_000_000) by (nonlinear_arith)
                requires
                    t_int >= 100_000_000 * pow10(d as nat),
                    pow10(d as nat) >= 1,
                    new_m == t_int / pow10(d as nat),
            ;
            assert(new_m < 1_000_000_000) by (nonlinear_arith)
                requires
                    t_int < 1_000_000_000 * pow10(d as nat),
                    pow10(d as nat) >= 1,
                    new_m == t_int / pow10(d as nat),
            ;
            // the step taken matches one unfolding of frac_digits
            assert(frac_digits(m_in, r_in, (5 - round) as nat) == frac_digits(
                new_m as int,
                r_in * 10 + d,
                (5 - round - 1) as nat,
            ));
            lemma_pow10_pos(round as nat);
            assert(r_in * 10 + d <= 20 * pow10((round + 1) as nat) - 1) by (nonlinear_arith)
                requires
                    r_in <= 20 * pow10(round as nat) - 1,
                    d <= 9,
                    pow10((round + 1) as nat) == 10 * pow10(round as nat),
                    pow10(round as nat) >= 1,
            ;
            lemma_pow10_at_least(round as nat, 4);
            assert(pow10(4) == 10_000) by {
                reveal_with_fuel(pow10, 5);
            }
        }
        m = new_m;
        r = r * 10 + d;
        round = round + 1;
    }
    proof {
        assert(pow10(5) == 100_000) by {
            reveal_with_fuel(pow10, 6);
        }
        assert(frac_digits(m as int, r as int, 0) == r as int);
    }
    r
}

/// 10 to the power `d`, executable, for `d <= 9`.
fn pow10_u128(d: u64) -> (r: u128)
    requires
        d <= 9,
    ensures
        r == pow10(d as nat),
{
    let mut r: u128 = 1;
    let mut i: u64 = 0;
    while i < d
        invariant
            i <= d <= 9,
            r == pow10(i as nat),
            r <= 1_000_000_000,
        decreases d - i,
    {
        proof {
            lemma_pow10_at_least((i + 1) as nat, 9);
            assert(pow10(9) == 1_000_000_000) by {
                reveal_with_fuel(pow10, 10);
            }
        }
        r = r * 10;
        i = i + 1;
    }
    r
}

/// Scaling a fraction `num / den` with `num <= den` by `s` and
/// truncating stays within `[0, s]`.
pub proof fn lemma_div_le_scale(num: int, den: int, s: int)
    requires
        0 <= num <= den,
        1 <= den,
        0 <= s,
    ensures
        0 <= num * s / den <= s,
{
    assert(num * s <= den * s) by (nonlinear_arith)
        requires
            num <= den,
            0 <= s,
    ;
    assert(0 <= num * s / den) by (nonlinear_arith)
        requires
            0 <= num,
            0 <= s,
            1 <= den,
    ;
    assert(num * s / den <= s) by (nonlinear_arith)
        requires
            num * s <= den * s,
            0 <= num * s,
            1 <= den,
            0 <= s,
    ;
}

/// `pow_step` can also be unfolded from the back: one more step is
/// one more truncated multiplication applied to the result so far.
proof fn lemma_pow_step_snoc(t: int, m: int, i: nat)
    ensures
        pow_step(t, m, (i + 1) as nat) == pow_step(t, m, i) * m / 100_000_000,
    decreases i,
{
    if i == 0 {
        assert(pow_step(t, m, 1) == pow_step(t * m / 100_000_000, m, 0));
    } else {
        let t2 = t * m / 100_000_000;
        lemma_pow_step_snoc(t2, m, (i - 1) as nat);
        assert(pow_step(t2, m, ((i - 1) + 1) as nat) == pow_step(t2, m, (i - 1) as nat) * m
            / 100_000_000);
        assert(pow_step(t, m, (i + 1) as nat) == pow_step(t2, m, i));
        assert(pow_step(t, m, i) == pow_step(t2, m, (i - 1) as nat));
    }
}

proof fn lemma_pow10_mul_ten(e: nat)
    ensures
        pow10(e) * 1_000_000_000 == pow10((e + 1) as nat) * 100_000_000,
{
    assert(pow10((e + 1) as nat) == 10 * pow10(e));
    assert(pow10(e) * 1_000_000_000 == (10 * pow10(e)) * 100_000_000) by (nonlinear_arith);
}

} // verus!
