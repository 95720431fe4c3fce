//! The luminance quantiser: from a pixel to a position on a glyph ramp.
//!
//! A pixel's luminance `L` is a rational in `[0, 1]`. Gamma correction
//! raises it to a rational power `p/q`, the result is scaled to the ramp,
//! `x = (1 - L^(p/q)) * (n - 1)` on a ramp that starts with its lightest
//! glyph and `x = L^(p/q) * (n - 1)` on one that starts with its densest, and
//! `x` is rounded to the nearest integer, halves away from zero, and clamped
//! into `0..=n-1`.
//!
//! `L^(p/q)` is irrational in general, so nothing here computes it. For a
//! position `k >= 1`, the rounded value is at least `k` exactly when
//! `x >= k - 1/2`, and that comparison clears to one between products of
//! integer powers, which is decided exactly.

use crate::color::Rgba;
use crate::natural::Natural;
use crate::ramp::RampOrder;
use vstd::arithmetic::power::{lemma0_pow, lemma_pow1, lemma_pow_positive, pow};
use vstd::prelude::*;

verus! {

/// How a pixel's luminance is taken from its channels.
#[derive(Clone, Copy, Debug, PartialEq, Eq, Structural)]
pub enum LuminanceFormula {
    /// Relative luminance with the ITU-R BT.709 weights:
    /// `0.2126 R + 0.7152 G + 0.0722 B`, over 255.
    Bt709,
    /// The red channel alone, over 255.
    RedChannel,
}

/// The numerator of a pixel's luminance; the luminance is this over
/// [`luma_scale`].
pub open spec fn luma_weight(c: Rgba, formula: LuminanceFormula) -> nat {
    match formula {
        LuminanceFormula::Bt709 => (2126 * c.r + 7152 * c.g + 722 * c.b) as nat,
        LuminanceFormula::RedChannel => c.r as nat,
    }
}

/// The denominator of every luminance under `formula`: the weight of white.
pub open spec fn luma_scale(formula: LuminanceFormula) -> nat {
    match formula {
        LuminanceFormula::Bt709 => 2_550_000,
        LuminanceFormula::RedChannel => 255,
    }
}

/// Whether the level `a/d`, gamma-corrected by the exponent `p/q` and scaled
/// to a ramp of `n` glyphs, rounds to position `k` or beyond, for
/// `1 <= k <= n - 1`.
///
/// With `m = 2 (n - 1)`: on a light-first ramp the scaled value is
/// `(1 - (a/d)^(p/q)) (n - 1)`, which is at least `k - 1/2` exactly when
/// `(a/d)^(p/q) <= (m + 1 - 2k) / m`; on a dense-first ramp it is
/// `(a/d)^(p/q) (n - 1)`, which is at least `k - 1/2` exactly when
/// `(a/d)^(p/q) >= (2k - 1) / m`. Both sides are non-negative, so raising
/// them to the power `q` and clearing denominators keeps the comparison.
pub open spec fn reaches(a: nat, d: nat, p: nat, q: nat, order: RampOrder, n: nat, k: nat) -> bool {
    let m = 2 * (n - 1);
    match order {
        RampOrder::LightFirst => pow(a as int, p) * pow(m, q) <= pow(d as int, p) * pow(
            m + 1 - 2 * k,
            q,
        ),
        RampOrder::DenseFirst => pow(d as int, p) * pow(2 * k - 1, q) <= pow(a as int, p) * pow(
            m,
            q,
        ),
    }
}

/// The highest position in `1..=k` that the level reaches, or 0 when it
/// reaches none of them.
pub open spec fn highest_reached(
    a: nat,
    d: nat,
    p: nat,
    q: nat,
    order: RampOrder,
    n: nat,
    k: nat,
) -> nat
    decreases k,
{
    if k == 0 {
        0
    } else if reaches(a, d, p, q, order, n, k) {
        k
    } else {
        highest_reached(a, d, p, q, order, n, (k - 1) as nat)
    }
}

/// The ramp position of the level `a/d` under the gamma exponent `p/q` on a
/// ramp of `n` glyphs: the scaled value rounded to the nearest integer and
/// clamped into `0..=n-1`.
pub open spec fn level_index(a: nat, d: nat, p: nat, q: nat, order: RampOrder, n: nat) -> nat {
    if n == 0 {
        0
    } else {
        highest_reached(a, d, p, q, order, n, (n - 1) as nat)
    }
}

/// Powers of non-negative bases grow with the base.
pub proof fn lemma_pow_base_le(x: int, y: int, e: nat)
    requires
        0 <= x <= y,
    ensures
        0 <= pow(x, e) <= pow(y, e),
    decreases e,
{
    reveal(pow);
    if e > 0 {
        lemma_pow_base_le(x, y, (e - 1) as nat);
        let a = pow(x, (e - 1) as nat);
        let b = pow(y, (e - 1) as nat);
        assert(0 <= x * a <= y * b) by (nonlinear_arith)
            requires
                0 <= x <= y,
                0 <= a <= b,
        ;
    }
}

/// Positive powers of non-negative bases grow strictly with the base.
pub proof fn lemma_pow_base_lt(x: int, y: int, e: nat)
    requires
        0 <= x < y,
        e >= 1,
    ensures
        0 <= pow(x, e) < pow(y, e),
{
    reveal(pow);
    lemma_pow_base_le(x, y, (e - 1) as nat);
    lemma_pow_positive(y, (e - 1) as nat);
    let a = pow(x, (e - 1) as nat);
    let b = pow(y, (e - 1) as nat);
    assert(0 <= x * a < y * b) by (nonlinear_arith)
        requires
            0 <= x < y,
            0 <= a <= b,
            b > 0,
    ;
}

/// A level that reaches a position reaches every lower one.
pub proof fn lemma_reaches_downward(
    a: nat,
    d: nat,
    p: nat,
    q: nat,
    order: RampOrder,
    n: nat,
    k1: nat,
    k2: nat,
)
    requires
        1 <= k1 <= k2 <= n - 1,
        reaches(a, d, p, q, order, n, k2),
    ensures
        reaches(a, d, p, q, order, n, k1),
{
    let m = 2 * (n - 1);
    let unit = pow(d as int, p);
    lemma_pow_base_le(0, d as int, p);
    match order {
        RampOrder::LightFirst => {
            let j1 = m + 1 - 2 * k1;
            let j2 = m + 1 - 2 * k2;
            lemma_pow_base_le(j2, j1, q);
            assert(unit * pow(j2, q) <= unit * pow(j1, q)) by (nonlinear_arith)
                requires
                    0 <= unit,
                    pow(j2, q) <= pow(j1, q),
            ;
        },
        RampOrder::DenseFirst => {
            let j1 = 2 * k1 - 1;
            let j2 = 2 * k2 - 1;
            lemma_pow_base_le(j1, j2, q);
            assert(unit * pow(j1, q) <= unit * pow(j2, q)) by (nonlinear_arith)
                requires
                    0 <= unit,
                    pow(j1, q) <= pow(j2, q),
            ;
        },
    }
}

/// The highest position reached is the one position that is reached, or is
/// zero, while no higher position up to the bound is reached.
pub proof fn lemma_highest_reached_is(
    a: nat,
    d: nat,
    p: nat,
    q: nat,
    order: RampOrder,
    n: nat,
    bound: nat,
    r: nat,
)
    requires
        r <= bound,
        r == 0 || reaches(a, d, p, q, order, n, r),
        forall|k: nat| r < k <= bound ==> !reaches(a, d, p, q, order, n, k),
    ensures
        highest_reached(a, d, p, q, order, n, bound) == r,
    decreases bound,
{
    if bound > r {
        lemma_highest_reached_is(a, d, p, q, order, n, (bound - 1) as nat, r);
    }
}

/// The highest position reached up to `k` is at most `k`.
pub proof fn lemma_highest_reached_le(
    a: nat,
    d: nat,
    p: nat,
    q: nat,
    order: RampOrder,
    n: nat,
    k: nat,
)
    ensures
        highest_reached(a, d, p, q, order, n, k) <= k,
    decreases k,
{
    if k > 0 {
        lemma_highest_reached_le(a, d, p, q, order, n, (k - 1) as nat);
    }
}

/// The highest position reached up to `k` is reached, unless it is zero, and
/// no position between it and `k` is.
proof fn lemma_highest_reached_brackets(
    a: nat,
    d: nat,
    p: nat,
    q: nat,
    order: RampOrder,
    n: nat,
    k: nat,
)
    ensures
        ({
            let r = highest_reached(a, d, p, q, order, n, k);
            &&& r <= k
            &&& r >= 1 ==> reaches(a, d, p, q, order, n, r)
            &&& forall|j: nat| r < j <= k ==> !reaches(a, d, p, q, order, n, j)
        }),
    decreases k,
{
    if k > 0 {
        lemma_highest_reached_brackets(a, d, p, q, order, n, (k - 1) as nat);
    }
}

/// The position of a level is the nearest one: the scaled value is at least
/// half a step below it, unless it is the first position, and less than
/// half a step above it, unless it is the last.
pub proof fn lemma_level_index_is_nearest(
    a: nat,
    d: nat,
    p: nat,
    q: nat,
    order: RampOrder,
    n: nat,
)
    requires
        n >= 1,
    ensures
        ({
            let r = level_index(a, d, p, q, order, n);
            &&& r <= n - 1
            &&& r >= 1 ==> reaches(a, d, p, q, order, n, r)
            &&& r + 1 <= n - 1 ==> !reaches(a, d, p, q, order, n, r + 1)
        }),
{
    lemma_highest_reached_brackets(a, d, p, q, order, n, (n - 1) as nat);
}

/// Every level lands on the ramp.
pub proof fn lemma_level_index_in_range(a: nat, d: nat, p: nat, q: nat, order: RampOrder, n: nat)
    requires
        n >= 1,
    ensures
        level_index(a, d, p, q, order, n) <= n - 1,
{
    lemma_highest_reached_le(a, d, p, q, order, n, (n - 1) as nat);
}

/// Of two levels over one denominator, the lower reaches at least as far on
/// a light-first ramp and at most as far on a dense-first ramp.
proof fn lemma_highest_reached_monotone(
    a1: nat,
    a2: nat,
    d: nat,
    p: nat,
    q: nat,
    order: RampOrder,
    n: nat,
    k: nat,
)
    requires
        a1 <= a2,
        1 <= n,
        k <= n - 1,
    ensures
        order == RampOrder::LightFirst ==> highest_reached(a1, d, p, q, order, n, k)
            >= highest_reached(a2, d, p, q, order, n, k),
        order == RampOrder::DenseFirst ==> highest_reached(a1, d, p, q, order, n, k)
            <= highest_reached(a2, d, p, q, order, n, k),
    decreases k,
{
    if k > 0 {
        let m = 2 * (n - 1);
        lemma_highest_reached_monotone(a1, a2, d, p, q, order, n, (k - 1) as nat);
        lemma_highest_reached_le(a1, d, p, q, order, n, (k - 1) as nat);
        lemma_highest_reached_le(a2, d, p, q, order, n, (k - 1) as nat);
        lemma_pow_base_le(a1 as int, a2 as int, p);
        lemma_pow_base_le(0, m, q);
        assert(pow(a1 as int, p) * pow(m, q) <= pow(a2 as int, p) * pow(m, q))
            by (nonlinear_arith)
            requires
                pow(a1 as int, p) <= pow(a2 as int, p),
                0 <= pow(m, q),
        ;
    }
}

/// Brightness and density run against each other: of two levels over one
/// denominator, the darker takes the position of the denser glyph, or the
/// same position. On a light-first ramp that is the higher index, on a
/// dense-first ramp the lower.
pub proof fn lemma_level_index_monotone(
    a1: nat,
    a2: nat,
    d: nat,
    p: nat,
    q: nat,
    order: RampOrder,
    n: nat,
)
    requires
        a1 <= a2,
    ensures
        order == RampOrder::LightFirst ==> level_index(a1, d, p, q, order, n) >= level_index(
            a2,
            d,
            p,
            q,
            order,
            n,
        ),
        order == RampOrder::DenseFirst ==> level_index(a1, d, p, q, order, n) <= level_index(
            a2,
            d,
            p,
            q,
            order,
            n,
        ),
{
    if n >= 1 {
        lemma_highest_reached_monotone(a1, a2, d, p, q, order, n, (n - 1) as nat);
    }
}

/// The level zero takes the densest glyph: the last position of a
/// light-first ramp, the first of a dense-first ramp.
pub proof fn lemma_zero_level(d: nat, p: nat, q: nat, order: RampOrder, n: nat)
    requires
        d >= 1,
        p >= 1,
        n >= 1,
    ensures
        order == RampOrder::LightFirst ==> level_index(0, d, p, q, order, n) == n - 1,
        order == RampOrder::DenseFirst ==> level_index(0, d, p, q, order, n) == 0,
{
    let m = 2 * (n - 1);
    lemma0_pow(p);
    lemma_pow_positive(d as int, p);
    let unit = pow(d as int, p);
    match order {
        RampOrder::LightFirst => {
            if n >= 2 {
                lemma_pow_positive(1, q);
                assert(0 * pow(m, q) <= unit * pow(1, q)) by (nonlinear_arith)
                    requires
                        unit > 0,
                        pow(1, q) > 0,
                ;
                assert(reaches(0, d, p, q, order, n, (n - 1) as nat));
            }
        },
        RampOrder::DenseFirst => {
            assert forall|k: nat| 0 < k <= n - 1 implies !reaches(0, d, p, q, order, n, k) by {
                lemma_pow_positive(2 * k - 1, q);
                assert(unit * pow(2 * k - 1, q) > 0 * pow(m, q)) by (nonlinear_arith)
                    requires
                        unit > 0,
                        pow(2 * k - 1, q) > 0,
                ;
            }
            lemma_highest_reached_is(0, d, p, q, order, n, (n - 1) as nat, 0);
        },
    }
}

/// The full level, numerator equal to denominator, takes the lightest glyph:
/// the first position of a light-first ramp, the last of a dense-first ramp.
pub proof fn lemma_full_level(d: nat, p: nat, q: nat, order: RampOrder, n: nat)
    requires
        d >= 1,
        q >= 1,
        n >= 1,
    ensures
        order == RampOrder::LightFirst ==> level_index(d, d, p, q, order, n) == 0,
        order == RampOrder::DenseFirst ==> level_index(d, d, p, q, order, n) == n - 1,
{
    let m = 2 * (n - 1);
    lemma_pow_positive(d as int, p);
    let unit = pow(d as int, p);
    match order {
        RampOrder::LightFirst => {
            assert forall|k: nat| 0 < k <= n - 1 implies !reaches(d, d, p, q, order, n, k) by {
                lemma_pow_base_lt(m + 1 - 2 * k, m, q);
                assert(unit * pow(m + 1 - 2 * k, q) < unit * pow(m, q)) by (nonlinear_arith)
                    requires
                        unit > 0,
                        pow(m + 1 - 2 * k, q) < pow(m, q),
                ;
            }
            lemma_highest_reached_is(d, d, p, q, order, n, (n - 1) as nat, 0);
        },
        RampOrder::DenseFirst => {
            if n >= 2 {
                lemma_pow_base_le(m - 1, m, q);
                assert(unit * pow(m - 1, q) <= unit * pow(m, q)) by (nonlinear_arith)
                    requires
                        unit > 0,
                        pow(m - 1, q) <= pow(m, q),
                ;
                assert(reaches(d, d, p, q, order, n, (n - 1) as nat));
            }
        },
    }
}

/// Clamping at the top of the ramp. On a dense-first ramp of `n` glyphs the
/// scaled value of the level `a/d` is `(a/d)^(p/q) (n - 1)`; where that is
/// exactly `n - 1/2`, which rounds to `n`, one past the last glyph, the
/// position is the last one, `n - 1`.
pub proof fn lemma_overshoot_clamps_to_last(a: nat, d: nat, p: nat, q: nat, n: nat)
    requires
        n >= 1,
        pow(a as int, p) * pow(2 * (n - 1), q) == pow(d as int, p) * pow(2 * (n - 1) + 1, q),
    ensures
        level_index(a, d, p, q, RampOrder::DenseFirst, n) == n - 1,
{
    let m = 2 * (n - 1);
    if n >= 2 {
        lemma_pow_base_le(0, d as int, p);
        lemma_pow_base_le(m - 1, m + 1, q);
        let unit = pow(d as int, p);
        assert(unit * pow(m - 1, q) <= unit * pow(m + 1, q)) by (nonlinear_arith)
            requires
                unit >= 0,
                pow(m - 1, q) <= pow(m + 1, q),
        ;
        assert(reaches(a, d, p, q, RampOrder::DenseFirst, n, (n - 1) as nat));
    }
}

/// The quotient `num / den` rounded to the nearest integer, halves upward,
/// for a non-negative numerator and a positive denominator.
pub open spec fn rounded(num: int, den: int) -> int {
    (2 * num + den) / (2 * den)
}

/// A bound on a floored quotient is a bound on the dividend.
proof fn lemma_floor_bound(k: int, total: int, den: int)
    by (nonlinear_arith)
    requires
        den > 0,
    ensures
        k <= total / den <==> k * den <= total,
{
    assert(total == den * (total / den) + total % den);
    assert(0 <= total % den < den);
}

/// Without gamma correction the position is the scaled level rounded to the
/// nearest integer and clamped to the last glyph: for a level `a/d` in
/// `[0, 1]` on a ramp of `n` glyphs, `(1 - a/d) (n - 1)` rounded on a
/// light-first ramp; for any level, `(a/d) (n - 1)` rounded on a dense-first
/// ramp.
pub proof fn lemma_linear_level_index(a: nat, d: nat, order: RampOrder, n: nat)
    requires
        d >= 1,
        n >= 1,
        order == RampOrder::LightFirst ==> a <= d,
    ensures
        order == RampOrder::LightFirst ==> level_index(a, d, 1, 1, order, n) == vstd::math::min(
            n - 1,
            rounded((d - a) * (n - 1), d as int),
        ),
        order == RampOrder::DenseFirst ==> level_index(a, d, 1, 1, order, n) == vstd::math::min(
            n - 1,
            rounded(a * (n - 1), d as int),
        ),
{
    let m = 2 * (n - 1);
    let scaled: int = match order {
        RampOrder::LightFirst => (d - a) * (n - 1),
        RampOrder::DenseFirst => a * (n - 1),
    };
    let total = 2 * scaled + d;
    let floor = rounded(scaled, d as int);
    assert(scaled >= 0) by (nonlinear_arith)
        requires
            scaled == (d - a) * (n - 1) || scaled == a * (n - 1),
            d - a >= 0 || scaled == a * (n - 1),
            a >= 0,
            n - 1 >= 0,
    ;
    lemma_floor_bound(0, total, 2 * (d as int));
    let r: nat = vstd::math::min(n - 1, floor) as nat;
    lemma_pow1(a as int);
    lemma_pow1(d as int);
    lemma_pow1(m);
    assert forall|k: nat| 1 <= k <= n - 1 implies (reaches(a, d, 1, 1, order, n, k) <==> k
        <= floor) by {
        lemma_floor_bound(k as int, total, 2 * (d as int));
        lemma_pow1(m + 1 - 2 * k);
        lemma_pow1(2 * k - 1);
        match order {
            RampOrder::LightFirst => {
                assert(a * m <= d * (m + 1 - 2 * k) <==> k * (2 * d) <= 2 * ((d - a) * (n - 1))
                    + d) by (nonlinear_arith)
                    requires
                        m == 2 * (n - 1),
                ;
            },
            RampOrder::DenseFirst => {
                assert(d * (2 * k - 1) <= a * m <==> k * (2 * d) <= 2 * (a * (n - 1)) + d)
                    by (nonlinear_arith)
                    requires
                        m == 2 * (n - 1),
                ;
            },
        }
    }
    lemma_highest_reached_is(a, d, 1, 1, order, n, (n - 1) as nat, r);
}

/// A gamma exponent: a positive rational `numerator / denominator`.
#[derive(Clone, Copy, Debug)]
pub struct Gamma {
    num: u8,
    den: u8,
}

impl Gamma {
    /// Both parts of the exponent are positive.
    #[verifier::type_invariant]
    pub open spec fn wf(self) -> bool {
        self.numerator() >= 1 && self.denominator() >= 1
    }

    /// The numerator of the exponent.
    pub closed spec fn numerator(self) -> nat {
        self.num as nat
    }

    /// The denominator of the exponent.
    pub closed spec fn denominator(self) -> nat {
        self.den as nat
    }

    /// The exponent `num / den`; none unless both are positive.
    pub fn new(num: u8, den: u8) -> (gamma: Option<Gamma>)
        ensures
            (num == 0 || den == 0) <==> gamma is None,
            gamma matches Some(g) ==> g.wf() && g.numerator() == num && g.denominator() == den,
    {
        if num == 0 || den == 0 {
            None
        } else {
            Some(Gamma { num, den })
        }
    }

    /// The exponent 1: no correction.
    pub fn identity() -> (g: Gamma)
        ensures
            g.wf(),
            g.numerator() == 1,
            g.denominator() == 1,
    {
        Gamma { num: 1, den: 1 }
    }

    /// The exponent 1.2, as 6/5.
    pub fn standard() -> (g: Gamma)
        ensures
            g.wf(),
            g.numerator() == 6,
            g.denominator() == 5,
    {
        Gamma { num: 6, den: 5 }
    }

    /// The numerator of the exponent, at least 1.
    pub fn num(&self) -> (p: u8)
        ensures
            p == self.numerator(),
            p >= 1,
    {
        proof {
            use_type_invariant(self);
        }
        self.num
    }

    /// The denominator of the exponent, at least 1.
    pub fn den(&self) -> (q: u8)
        ensures
            q == self.denominator(),
            q >= 1,
    {
        proof {
            use_type_invariant(self);
        }
        self.den
    }
}

/// The ramp position of the level `num / den` on a ramp of `n` glyphs.
///
/// The level need not lie in `[0, 1]`: one beyond either end is clamped to
/// the nearest end of the ramp.
pub fn index_of_level(
    num: u64,
    den: u64,
    gamma: Gamma,
    order: RampOrder,
    n: usize,
) -> (index: usize)
    ensures
        index == level_index(
            num as nat,
            den as nat,
            gamma.numerator(),
            gamma.denominator(),
            order,
            n as nat,
        ),
        n >= 1 ==> index < n,
{
    if n <= 1 {
        return 0;
    }
    let p: u8 = gamma.num();
    let q: u8 = gamma.den();
    let m: u128 = 2 * (n as u128 - 1);
    let level = Natural::one().times_power(num as u128, p).times_power(m, q);
    let unit = Natural::one().times_power(den as u128, p);
    let ghost a = num as nat;
    let ghost d = den as nat;
    let ghost e = p as nat;
    let ghost f = q as nat;
    let ghost len = n as nat;
    let mut lo: usize = 0;
    let mut hi: usize = n;
    while hi - lo > 1
        invariant
            lo < hi <= n,
            n >= 2,
            m == 2 * (n - 1),
            a == num && d == den && e == p && f == q && len == n,
            level@ == pow(num as int, e) * pow(m as int, f),
            unit@ == pow(den as int, e),
            lo == 0 || reaches(a, d, e, f, order, len, lo as nat),
            forall|k: nat| hi <= k <= n - 1 ==> !reaches(a, d, e, f, order, len, k),
        decreases hi - lo,
    {
        let mid: usize = lo + (hi - lo) / 2;
        let hit: bool = match order {
            RampOrder::LightFirst => {
                let j: u128 = m + 1 - 2 * (mid as u128);
                level.le(&unit.times_power(j, q))
            },
            RampOrder::DenseFirst => {
                let j: u128 = 2 * (mid as u128) - 1;
                unit.times_power(j, q).le(&level)
            },
        };
        assert(hit == reaches(a, d, e, f, order, len, mid as nat));
        if hit {
            lo = mid;
        } else {
            proof {
                assert forall|k: nat| mid <= k <= n - 1 implies !reaches(
                    a,
                    d,
                    e,
                    f,
                    order,
                    len,
                    k,
                ) by {
                    if reaches(a, d, e, f, order, len, k) {
                        lemma_reaches_downward(a, d, e, f, order, len, mid as nat, k);
                    }
                }
            }
            hi = mid;
        }
    }
    proof {
        lemma_highest_reached_is(a, d, e, f, order, len, (n - 1) as nat, lo as nat);
    }
    lo
}

/// A quantiser: how luminance is measured and how it is gamma-corrected.
#[derive(Clone, Copy, Debug)]
pub struct Quantizer {
    pub formula: LuminanceFormula,
    pub gamma: Gamma,
}

impl Quantizer {
    /// The ramp position this quantiser gives a pixel on a ramp of `n`
    /// glyphs in the given order.
    pub open spec fn index_of(self, c: Rgba, order: RampOrder, n: nat) -> nat {
        level_index(
            luma_weight(c, self.formula),
            luma_scale(self.formula),
            self.gamma.numerator(),
            self.gamma.denominator(),
            order,
            n,
        )
    }

    /// BT.709 luminance with the gamma exponent 1.2.
    pub fn perceptual() -> (q: Quantizer)
        ensures
            q.formula == LuminanceFormula::Bt709,
            q.gamma.wf(),
            q.gamma.numerator() == 6,
            q.gamma.denominator() == 5,
    {
        Quantizer { formula: LuminanceFormula::Bt709, gamma: Gamma::standard() }
    }

    /// The red channel as luminance, without gamma correction.
    pub fn red_channel() -> (q: Quantizer)
        ensures
            q.formula == LuminanceFormula::RedChannel,
            q.gamma.wf(),
            q.gamma.numerator() == 1,
            q.gamma.denominator() == 1,
    {
        Quantizer { formula: LuminanceFormula::RedChannel, gamma: Gamma::identity() }
    }

    /// The numerator of a pixel's luminance under this quantiser's formula.
    pub fn luminance(&self, c: Rgba) -> (w: u32)
        ensures
            w == luma_weight(c, self.formula),
            w <= luma_scale(self.formula),
    {
        match self.formula {
            LuminanceFormula::Bt709 => {
                2126 * (c.r as u32) + 7152 * (c.g as u32) + 722 * (c.b as u32)
            },
            LuminanceFormula::RedChannel => c.r as u32,
        }
    }

    /// The denominator of every luminance under this quantiser's formula.
    pub fn scale(&self) -> (d: u32)
        ensures
            d == luma_scale(self.formula),
    {
        match self.formula {
            LuminanceFormula::Bt709 => 2_550_000,
            LuminanceFormula::RedChannel => 255,
        }
    }

    /// The ramp position of a pixel on a ramp of `n` glyphs.
    pub fn ramp_index(&self, c: Rgba, order: RampOrder, n: usize) -> (index: usize)
        ensures
            index == self.index_of(c, order, n as nat),
            n >= 1 ==> index < n,
    {
        index_of_level(self.luminance(c) as u64, self.scale() as u64, self.gamma, order, n)
    }
}

impl Default for Quantizer {
    /// The default quantiser: BT.709 luminance with the gamma exponent 1.2.
    fn default() -> (q: Quantizer)
        ensures
            q.formula == LuminanceFormula::Bt709,
            q.gamma.wf(),
            q.gamma.numerator() == 6,
            q.gamma.denominator() == 5,
    {
        Quantizer::perceptual()
    }
}

} // verus!
