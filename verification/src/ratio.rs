//! Split fractions and the single-precision arithmetic that applies them.
//!
//! A fraction between 0.05 and 0.95 is held exactly, as a whole number of
//! steps of 2^-28: every single-precision number in that range is one. What a
//! fraction of a length is worth follows single-precision arithmetic too:
//! each product keeps 24 significant binary digits, ties going to the even one.

use vstd::prelude::*;
use vstd::arithmetic::div_mod::*;
use vstd::arithmetic::power::lemma_pow0;
use vstd::arithmetic::power2::*;

verus! {

/// The number of steps in one whole.
pub const ONE: u32 = 0x1000_0000;

/// The smallest fraction a split can have: 0.05 in single precision.
pub const MIN_RATIO: u32 = 13421773;

/// The largest fraction a split can have: 0.95 in single precision.
pub const MAX_RATIO: u32 = 255013680;

/// An even split.
pub const HALF_RATIO: u32 = 0x0800_0000;

/// How many finer steps (of 2^-52) one step of a fraction has.
pub const FINE: i64 = 0x0100_0000;

/// The weight of the last of the 24 significant binary digits of `n`.
pub open spec fn granule(n: nat) -> nat
    decreases n,
{
    if n < 0x0100_0000 {
        1
    } else {
        2 * granule(n / 2)
    }
}

/// The multiple of `d` nearest to `n`; halfway, the even multiple.
pub open spec fn nearest_even(n: nat, d: nat) -> nat {
    let q = n / d;
    let r = n % d;
    if 2 * r < d || (2 * r == d && q % 2 == 0) {
        q * d
    } else {
        (q + 1) * d
    }
}

/// `n` rounded to 24 significant binary digits.
pub open spec fn single(n: nat) -> nat {
    nearest_even(n, granule(n))
}

/// What `units` steps of 2^-28 of a non-negative length `w` come to, in whole
/// pixels, halves rounding up.
pub open spec fn share_of(w: nat, units: nat) -> nat {
    (single(single(w) * units) + 0x0800_0000) / 0x1000_0000
}

/// What `units` steps of 2^-28 of a length come to; a negative length is
/// treated as its opposite is.
pub open spec fn share(w: int, units: nat) -> int {
    if w >= 0 {
        share_of(w as nat, units) as int
    } else {
        -(share_of((-w) as nat, units) as int)
    }
}

/// The last kept digit of a number is worth at most 2^-23 of it.
pub proof fn lemma_granule(n: nat)
    ensures
        granule(n) >= 1,
        granule(n) > 1 ==> granule(n) * 0x0080_0000 <= n,
        n < granule(n) * 0x0100_0000,
    decreases n,
{
    if n >= 0x0100_0000 {
        lemma_granule(n / 2);
    }
}

/// Of a number with more than 23 + `e` binary digits only multiples of 2^`e`
/// are kept.
proof fn lemma_granule_multiple(n: nat, e: nat)
    requires
        n >= pow2(23 + e),
    ensures
        granule(n) % pow2(e) == 0,
    decreases e,
{
    lemma_pow2_pos(e);
    if e == 0 {
        lemma_pow2(0);
        lemma_pow0(2);
    } else {
        lemma_pow2_unfold(e);
        lemma_pow2_unfold(23 + e);
        let p = pow2((e - 1) as nat);
        lemma_pow2_pos((e - 1) as nat);
        assert(pow2(24) == 0x0100_0000) by {
            lemma2_to64();
        }
        assert(pow2(23 + e) >= pow2(24)) by {
            if e > 1 {
                lemma_pow2_strictly_increases(24, 23 + e);
            }
        }
        lemma_granule_multiple(n / 2, (e - 1) as nat);
        let g = granule(n / 2);
        lemma_fundamental_div_mod(g as int, p as int);
        let m = g as int / p as int;
        assert(2 * g == m * (2 * p)) by (nonlinear_arith)
            requires
                g == p * m,
        ;
        lemma_mod_multiples_basic(m, (2 * p) as int);
    }
}

/// Rounding moves a number by at most half of its last kept digit.
pub proof fn lemma_single_error(n: nat)
    ensures
        single(n) * 0x0100_0000 <= n * 0x0100_0001,
        single(n) * 0x0100_0000 >= n * 0x00FF_FFFF,
        n < 0x0100_0000 ==> single(n) == n,
{
    lemma_granule(n);
    let d = granule(n);
    lemma_fundamental_div_mod(n as int, d as int);
    let q = n / d;
    let r = n % d;
    assert(n == d * q + r);
    assert((q + 1) * d == d * q + d) by (nonlinear_arith);
    assert(q * d == d * q) by (nonlinear_arith);
    lemma_mod_bound(n as int, d as int);
    if d == 1 {
        assert(r == 0);
    }
}

/// The share of a length lies between nothing and the whole length.
pub proof fn lemma_share_bounds(w: nat, units: nat)
    requires
        units <= MAX_RATIO,
    ensures
        share_of(w, units) <= w,
{
    let a = single(w);
    let p = single(a * units);
    lemma_single_error(w);
    lemma_single_error(a * units);
    assert(p * 0x0100_0000 * 0x0100_0000 <= w * units * 0x0100_0001 * 0x0100_0001) by (nonlinear_arith)
        requires
            p * 0x0100_0000 <= (a * units) * 0x0100_0001,
            a * 0x0100_0000 <= w * 0x0100_0001,
            a >= 0,
            units >= 0,
    ;
    assert(w * units * 0x0100_0001 * 0x0100_0001 <= w * 255013680 * 0x0100_0001 * 0x0100_0001) by (nonlinear_arith)
        requires
            0 <= units <= 255013680,
            w >= 0,
    ;
    assert(p <= w * 255013711) by (nonlinear_arith)
        requires
            p * 0x0100_0000 * 0x0100_0000 <= w * 255013680 * 0x0100_0001 * 0x0100_0001,
            w >= 0,
            p >= 0,
    ;
}

/// A split of at least eleven pixels leaves something to both of its sides.
pub proof fn law_share_leaves_both_sides(w: nat, units: nat)
    requires
        w >= 11,
        MIN_RATIO <= units <= MAX_RATIO,
    ensures
        1 <= share_of(w, units) < w,
{
    let a = single(w);
    let p = single(a * units);
    lemma_single_error(w);
    lemma_single_error(a * units);
    assert(p * 0x0100_0000 * 0x0100_0000 <= w * units * 0x0100_0001 * 0x0100_0001) by (nonlinear_arith)
        requires
            p * 0x0100_0000 <= (a * units) * 0x0100_0001,
            a * 0x0100_0000 <= w * 0x0100_0001,
            a >= 0,
            units >= 0,
    ;
    assert(p * 0x0100_0000 * 0x0100_0000 >= w * units * 0x00FF_FFFF * 0x00FF_FFFF) by (nonlinear_arith)
        requires
            p * 0x0100_0000 >= (a * units) * 0x00FF_FFFF,
            a * 0x0100_0000 >= w * 0x00FF_FFFF,
            a >= 0,
            units >= 0,
    ;
    assert(w * units * 0x0100_0001 * 0x0100_0001 <= w * 255013680 * 0x0100_0001 * 0x0100_0001) by (nonlinear_arith)
        requires
            0 <= units <= 255013680,
            w >= 0,
    ;
    assert(w * units * 0x00FF_FFFF * 0x00FF_FFFF >= w * 13421773 * 0x00FF_FFFF * 0x00FF_FFFF) by (nonlinear_arith)
        requires
            units >= 13421773,
            w >= 0,
    ;
    assert(p <= w * 255013711) by (nonlinear_arith)
        requires
            p * 0x0100_0000 * 0x0100_0000 <= w * 255013680 * 0x0100_0001 * 0x0100_0001,
            w >= 0,
            p >= 0,
    ;
    assert(p >= w * 13421771) by (nonlinear_arith)
        requires
            p * 0x0100_0000 * 0x0100_0000 >= w * 13421773 * 0x00FF_FFFF * 0x00FF_FFFF,
            w >= 0,
            p >= 0,
    ;
}

/// Rounds to 24 significant binary digits.
pub fn to_single(n: u64) -> (r: u64)
    requires
        n <= 0x8020_0000_0000_0000,
    ensures
        r == single(n as nat),
{
    let mut q: u64 = n;
    let mut d: u64 = 1;
    while q >= 0x0100_0000
        invariant
            n <= 0x8020_0000_0000_0000,
            1 <= d,
            d * q <= n,
            q == n as nat / d as nat,
            granule(n as nat) == d * granule(q as nat),
        decreases q,
    {
        proof {
            let (nn, qq, dd) = (n as nat, q as nat, d as nat);
            assert(dd * 0x0100_0000 <= nn) by (nonlinear_arith)
                requires
                    dd * qq <= nn,
                    qq >= 0x0100_0000,
            ;
            lemma_div_denominator(nn as int, dd as int, 2);
            assert(dd * granule(qq) == (dd * 2) * granule(qq / 2)) by (nonlinear_arith)
                requires
                    granule(qq) == 2 * granule(qq / 2),
            ;
            assert((dd * 2) * (qq / 2) <= nn) by (nonlinear_arith)
                requires
                    dd * qq <= nn,
                    2 * (qq / 2) <= qq,
            ;
        }
        q = q / 2;
        d = d * 2;
    }
    proof {
        assert(granule(q as nat) == 1);
        assert(d * granule(q as nat) == d) by (nonlinear_arith)
            requires
                granule(q as nat) == 1,
        ;
        lemma_fundamental_div_mod(n as int, d as int);
        lemma_granule(n as nat);
        assert(n as nat == d as nat * q as nat + n as nat % d as nat);
        assert(q * d == d * q && (q + 1) * d == d * q + d) by (nonlinear_arith);
        lemma_mod_bound(n as int, d as int);
        assert(d > 1 ==> d * 0x0080_0000 <= n);
        assert(d * q >= 0) by (nonlinear_arith);
    }
    let base: u64 = d * q;
    let rest: u64 = n - base;
    if 2 * rest < d || (2 * rest == d && q % 2 == 0) {
        base
    } else {
        base + d
    }
}

/// A split fraction, between 0.05 and 0.95.
#[derive(Clone, Copy, PartialEq, Eq, Structural, Debug)]
pub struct Ratio {
    /// Steps of 2^-28.
    pub units: u32,
}

/// The nearest fraction a split can have to `raw` steps of 2^-28.
pub open spec fn clamped_units(raw: int) -> int {
    if raw < MIN_RATIO {
        MIN_RATIO as int
    } else if raw > MAX_RATIO {
        MAX_RATIO as int
    } else {
        raw
    }
}

/// The fraction `units` steps of 2^-28 and `delta` steps of 2^-52 add up to, in
/// steps of 2^-28, before it is brought into range.
pub open spec fn nudged_units(units: int, delta: int) -> int {
    let sum = units * FINE + delta;
    if sum < 0 {
        -1
    } else {
        single(sum as nat) as int / FINE as int
    }
}

impl Ratio {
    pub open spec fn wf(&self) -> bool {
        MIN_RATIO <= self.units <= MAX_RATIO
    }

    /// An even split.
    pub fn half() -> (r: Ratio)
        ensures
            r.wf(),
            r.units == HALF_RATIO,
    {
        Ratio { units: HALF_RATIO }
    }

    /// The fraction of `raw` steps of 2^-28, brought between 0.05 and 0.95.
    pub fn clamped(raw: i64) -> (r: Ratio)
        ensures
            r.wf(),
            r.units == clamped_units(raw as int),
    {
        if raw < MIN_RATIO as i64 {
            Ratio { units: MIN_RATIO }
        } else if raw > MAX_RATIO as i64 {
            Ratio { units: MAX_RATIO }
        } else {
            Ratio { units: raw as u32 }
        }
    }

    /// The single-precision sum of the fraction and `delta` steps of 2^-52,
    /// brought between 0.05 and 0.95.
    pub fn nudged(self, delta: i64) -> (r: Ratio)
        requires
            self.wf(),
        ensures
            r.wf(),
            r.units == clamped_units(nudged_units(self.units as int, delta as int)),
    {
        let sum: i128 = self.units as i128 * FINE as i128 + delta as i128;
        if sum < 0 {
            Ratio { units: MIN_RATIO }
        } else {
            let rounded: u64 = to_single(sum as u64);
            let units: u64 = rounded / FINE as u64;
            proof {
                lemma_single_error(sum as nat);
            }
            if units > MAX_RATIO as u64 {
                Ratio { units: MAX_RATIO }
            } else if units < MIN_RATIO as u64 {
                Ratio { units: MIN_RATIO }
            } else {
                Ratio { units: units as u32 }
            }
        }
    }

    /// How much of `length` the fraction takes.
    pub fn of(self, length: i32) -> (r: i32)
        requires
            self.wf(),
        ensures
            r == share(length as int, self.units as nat),
            length >= 0 ==> 0 <= r <= length,
            length <= 0 ==> length <= r <= 0,
    {
        let magnitude: u64 = if length >= 0 {
            length as u64
        } else {
            (-(length as i64)) as u64
        };
        proof {
            lemma_single_error(magnitude as nat);
            lemma_share_bounds(magnitude as nat, self.units as nat);
        }
        let a: u64 = to_single(magnitude);
        proof {
            assert(a * self.units <= 0x1_0000_0000 * 0x1000_0000) by (nonlinear_arith)
                requires
                    0 <= a <= 0x1_0000_0000,
                    0 <= self.units <= 0x1000_0000,
            ;
            lemma_single_error((a * self.units) as nat);
        }
        let p: u64 = to_single(a * self.units as u64);
        let s: u64 = (p + 0x0800_0000) / 0x1000_0000;
        if length >= 0 {
            s as i32
        } else {
            (-(s as i64)) as i32
        }
    }
}

/// Within range, a nudged fraction is a whole number of steps: nothing of the
/// rounded sum is lost.
pub proof fn law_nudge_is_exact(units: int, delta: int)
    requires
        units * FINE + delta >= 0x0000_8000_0000_0000,
    ensures
        nudged_units(units, delta) * FINE == single((units * FINE + delta) as nat),
{
    let n = (units * FINE + delta) as nat;
    assert(pow2(24) == FINE && pow2(23 + 24) == 0x0000_8000_0000_0000) by {
        lemma2_to64();
        lemma2_to64_rest();
    }
    lemma_granule_multiple(n, 24);
    lemma_granule(n);
    let d = granule(n);
    let f = FINE as int;
    lemma_fundamental_div_mod(d as int, f);
    let m = d as int / f;
    assert(d == f * m);
    let q = n as int / d as int;
    assert(q * d == (q * m) * f) by (nonlinear_arith)
        requires
            d == f * m,
    ;
    assert((q + 1) * d == ((q + 1) * m) * f) by (nonlinear_arith)
        requires
            d == f * m,
    ;
    lemma_div_multiples_vanish(q * m, f);
    lemma_div_multiples_vanish((q + 1) * m, f);
    assert(f * (q * m) == (q * m) * f && f * ((q + 1) * m) == ((q + 1) * m) * f) by (nonlinear_arith);
}

} // verus!
