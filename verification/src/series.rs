//! The integer coefficients of the Fresnel series of a clothoid.
//!
//! With `a` the absolute deflection angle at arc length `s`, the local
//! coordinates of the point at `s` are
//!
//! ```text
//! x = s * sum over n in 0..=NUMITER of (-1)^n * a^(2n)     / ((4n + 1) * (2n)!)
//! y = s * sum over n in 0..NUMITER  of (-1)^n * a^(2n + 1) / ((4n + 3) * (2n + 1)!)
//! ```
//!
//! Each term is a sign, a power of `a` and an integer divisor. [`x_term`] and
//! [`y_term`] compute the three for every term; the caller raises `a` to the
//! power and adds up, in the arithmetic of its choice. [`x_sum`] and
//! [`y_sum`] say what the sums are over the real numbers.
//!
//! # Truncation
//!
//! Both series alternate in sign, and by [`lemma_x_divisor_increasing`] and
//! [`lemma_y_divisor_increasing`] their divisors grow with `n`. So for
//! `a <= 1` (a deflection of up to 57 degrees) the terms shrink in magnitude,
//! and by [`lemma_truncation`] no longer sum differs from the truncated one
//! by more than the first term left out: `a^14 / (29 * 14!)`, about
//! `4e-13`, for `x / s`, and `a^13 / (27 * 13!)`, about `6e-12`, for `y / s`.

use vstd::prelude::*;
use crate::factorial;
use crate::lemma_factorial_monotonic;
use crate::lemma_factorial_step;
use crate::lemma_factorial_table;
use crate::spec_factorial;

verus! {

/// Index of the last term of the `x` series. The `y` series stops one term
/// earlier.
pub const NUMITER: u64 = 6;

/// The largest index for which the divisor of a term fits in a `u64`.
pub const MAX_TERM: u64 = 9;

/// One term of a series: `(-1)^n * a^power / divisor`.
#[derive(Clone, Copy, Debug, PartialEq, Eq, Structural)]
pub struct SeriesTerm {
    /// Whether the term is subtracted: true for odd `n`.
    pub negative: bool,
    /// The power to which the deflection angle is raised.
    pub power: u32,
    /// The integer by which the power is divided.
    pub divisor: u64,
}

/// The divisor of term `n` of the `x` series: `(4n + 1) * (2n)!`.
pub open spec fn x_divisor(n: nat) -> nat {
    (4 * n + 1) * spec_factorial(2 * n)
}

/// The divisor of term `n` of the `y` series: `(4n + 3) * (2n + 1)!`.
pub open spec fn y_divisor(n: nat) -> nat {
    (4 * n + 3) * spec_factorial(2 * n + 1)
}

/// `base` raised to the power `exponent`.
pub open spec fn power(base: real, exponent: nat) -> real
    decreases exponent,
{
    if exponent == 0 {
        1real
    } else {
        base * power(base, (exponent - 1) as nat)
    }
}

impl SeriesTerm {
    /// The value of the term at the deflection angle `a`.
    pub open spec fn value(self, a: real) -> real {
        let magnitude = power(a, self.power as nat) / (self.divisor as real);
        if self.negative {
            -magnitude
        } else {
            magnitude
        }
    }
}

/// The value of term `n` of the `x` series at the deflection angle `a`:
/// `(-1)^n * a^(2n) / ((4n + 1) * (2n)!)`.
pub open spec fn x_term_value(a: real, n: nat) -> real {
    let magnitude = power(a, 2 * n) / (x_divisor(n) as real);
    if n % 2 == 1 {
        -magnitude
    } else {
        magnitude
    }
}

/// The value of term `n` of the `y` series at the deflection angle `a`:
/// `(-1)^n * a^(2n + 1) / ((4n + 3) * (2n + 1)!)`.
pub open spec fn y_term_value(a: real, n: nat) -> real {
    let magnitude = power(a, 2 * n + 1) / (y_divisor(n) as real);
    if n % 2 == 1 {
        -magnitude
    } else {
        magnitude
    }
}

/// The sum of the first `terms` terms of the `x` series at the deflection
/// angle `a`.
pub open spec fn x_sum(a: real, terms: nat) -> real
    decreases terms,
{
    if terms == 0 {
        0real
    } else {
        x_sum(a, (terms - 1) as nat) + x_term_value(a, (terms - 1) as nat)
    }
}

/// The sum of the first `terms` terms of the `y` series at the deflection
/// angle `a`.
pub open spec fn y_sum(a: real, terms: nat) -> real
    decreases terms,
{
    if terms == 0 {
        0real
    } else {
        y_sum(a, (terms - 1) as nat) + y_term_value(a, (terms - 1) as nat)
    }
}

/// Term `n` of the `x` series.
pub open spec fn spec_x_term(n: nat) -> SeriesTerm {
    SeriesTerm { negative: n % 2 == 1, power: (2 * n) as u32, divisor: x_divisor(n) as u64 }
}

/// Term `n` of the `y` series.
pub open spec fn spec_y_term(n: nat) -> SeriesTerm {
    SeriesTerm { negative: n % 2 == 1, power: (2 * n + 1) as u32, divisor: y_divisor(n) as u64 }
}

/// A product of two naturals is bounded by the product of their bounds.
proof fn lemma_product_bound(a: nat, b: nat, a_max: nat, b_max: nat)
    requires
        a <= a_max,
        b <= b_max,
    ensures
        a * b <= a_max * b_max,
{
    assert(a * b <= a_max * b_max) by (nonlinear_arith)
        requires
            0 <= a <= a_max,
            0 <= b <= b_max,
    ;
}

/// The divisors of the terms up to [`MAX_TERM`] fit in a `u64`.
pub proof fn lemma_divisors_fit(n: nat)
    requires
        n <= MAX_TERM,
    ensures
        0 < x_divisor(n) <= u64::MAX,
        0 < y_divisor(n) <= u64::MAX,
{
    lemma_factorial_table();
    lemma_factorial_monotonic(2 * n, 18);
    lemma_factorial_monotonic(2 * n + 1, 19);
    lemma_product_bound(4 * n + 1, spec_factorial(2 * n), 37, spec_factorial(18));
    lemma_product_bound(4 * n + 3, spec_factorial(2 * n + 1), 39, spec_factorial(19));
    lemma_product_bound(1, 1, 4 * n + 1, spec_factorial(2 * n));
    lemma_product_bound(1, 1, 4 * n + 3, spec_factorial(2 * n + 1));
}

/// The divisors of the `x` series grow strictly with `n`.
pub proof fn lemma_x_divisor_increasing(n: nat)
    ensures
        x_divisor(n) < x_divisor(n + 1),
{
    lemma_factorial_monotonic(2 * n, 2 * n + 2);
    lemma_product_bound(4 * n + 1, spec_factorial(2 * n), 4 * n + 1, spec_factorial(2 * n + 2));
    let above = spec_factorial(2 * n + 2);
    assert((4 * n + 1) * above < (4 * n + 5) * above) by (nonlinear_arith)
        requires
            above > 0,
    ;
}

/// The divisors of the `y` series grow strictly with `n`.
pub proof fn lemma_y_divisor_increasing(n: nat)
    ensures
        y_divisor(n) < y_divisor(n + 1),
{
    lemma_factorial_monotonic(2 * n + 1, 2 * n + 3);
    lemma_product_bound(
        4 * n + 3,
        spec_factorial(2 * n + 1),
        4 * n + 3,
        spec_factorial(2 * n + 3),
    );
    let above = spec_factorial(2 * n + 3);
    assert((4 * n + 3) * above < (4 * n + 7) * above) by (nonlinear_arith)
        requires
            above > 0,
    ;
}

/// The divisors of the terms of the `x` series that are summed, and of the
/// first one that is left out, `29 * 14!`.
pub proof fn lemma_x_divisor_table()
    ensures
        x_divisor(0) == 1,
        x_divisor(1) == 10,
        x_divisor(2) == 216,
        x_divisor(3) == 9360,
        x_divisor(4) == 685440,
        x_divisor(5) == 76204800,
        x_divisor(6) == 11975040000,
        x_divisor((NUMITER + 1) as nat) == 2528170444800,
{
    lemma_factorial_table();
    assert(x_divisor(1) == 5 * spec_factorial(2));
    assert(x_divisor(2) == 9 * spec_factorial(4));
    assert(x_divisor(3) == 13 * spec_factorial(6));
    assert(x_divisor(4) == 17 * spec_factorial(8));
    assert(x_divisor(5) == 21 * spec_factorial(10));
    assert(x_divisor(6) == 25 * spec_factorial(12));
    assert(x_divisor(7) == 29 * spec_factorial(14));
}

/// The divisors of the terms of the `y` series that are summed, and of the
/// first one that is left out, `27 * 13!`.
pub proof fn lemma_y_divisor_table()
    ensures
        y_divisor(0) == 3,
        y_divisor(1) == 42,
        y_divisor(2) == 1320,
        y_divisor(3) == 75600,
        y_divisor(4) == 6894720,
        y_divisor(5) == 918086400,
        y_divisor(NUMITER as nat) == 168129561600,
{
    lemma_factorial_table();
    assert(y_divisor(0) == 3 * spec_factorial(1));
    assert(y_divisor(1) == 7 * spec_factorial(3));
    assert(y_divisor(2) == 11 * spec_factorial(5));
    assert(y_divisor(3) == 15 * spec_factorial(7));
    assert(y_divisor(4) == 19 * spec_factorial(9));
    assert(y_divisor(5) == 23 * spec_factorial(11));
    assert(y_divisor(6) == 27 * spec_factorial(13));
}

/// The sum of the first `terms` magnitudes, with alternating signs: the
/// first one is added, the second one subtracted, and so on.
spec fn alternating_sum(magnitude: spec_fn(nat) -> real, terms: nat) -> real
    decreases terms,
{
    if terms == 0 {
        0real
    } else {
        let last = (terms - 1) as nat;
        alternating_sum(magnitude, last) + if last % 2 == 1 {
            -magnitude(last)
        } else {
            magnitude(last)
        }
    }
}

/// Whether the magnitudes are positive or zero and never grow from `first`
/// on.
spec fn shrinking_from(magnitude: spec_fn(nat) -> real, first: nat) -> bool {
    forall|n: nat| n >= first ==> 0real <= #[trigger] magnitude(n + 1) <= magnitude(n)
}

/// What an alternating sum of shrinking magnitudes gains after its first
/// `first` terms is bounded by the next magnitude, and has the sign of the
/// next term: the later terms cancel each other in pairs.
///
/// The claim is stronger than that, so that it carries through the
/// induction on `terms`: it also says on which side of the last magnitude
/// taken in the gain lies.
proof fn lemma_alternating_tail(magnitude: spec_fn(nat) -> real, first: nat, terms: nat)
    requires
        shrinking_from(magnitude, first),
        first <= terms,
    ensures
        0real <= magnitude(terms) <= magnitude(first),
        ({
            let gain = alternating_sum(magnitude, terms) - alternating_sum(magnitude, first);
            let signed = if first % 2 == 1 {
                -gain
            } else {
                gain
            };
            if (terms - first) % 2 == 0 {
                0real <= signed <= magnitude(first) - magnitude(terms)
            } else {
                magnitude(terms) <= signed <= magnitude(first)
            }
        }),
    decreases terms,
{
    if terms == first {
        assert(0real <= magnitude(first + 1) <= magnitude(first));
    } else {
        let last = (terms - 1) as nat;
        lemma_alternating_tail(magnitude, first, last);
        assert(0real <= magnitude(last + 1) <= magnitude(last));
    }
}

/// The magnitude of term `n` of the `x` series at the deflection angle `a`.
spec fn x_magnitude(a: real) -> spec_fn(nat) -> real {
    |n: nat| power(a, 2 * n) / (x_divisor(n) as real)
}

/// The magnitude of term `n` of the `y` series at the deflection angle `a`.
spec fn y_magnitude(a: real) -> spec_fn(nat) -> real {
    |n: nat| power(a, 2 * n + 1) / (y_divisor(n) as real)
}

/// The two series are alternating sums of their magnitudes.
proof fn lemma_sums_alternate(a: real, terms: nat)
    ensures
        x_sum(a, terms) == alternating_sum(x_magnitude(a), terms),
        y_sum(a, terms) == alternating_sum(y_magnitude(a), terms),
    decreases terms,
{
    if terms > 0 {
        lemma_sums_alternate(a, (terms - 1) as nat);
    }
}

/// A power of a number between zero and one lies between zero and one, and
/// it does not grow with the exponent.
pub proof fn lemma_power_shrinks(a: real, n: nat)
    requires
        0real <= a <= 1real,
    ensures
        0real <= power(a, n + 1) <= power(a, n) <= 1real,
    decreases n,
{
    reveal_with_fuel(power, 2);
    if n > 0 {
        lemma_power_shrinks(a, (n - 1) as nat);
    }
    let p = power(a, n);
    assert(0real <= a * p <= p) by (nonlinear_arith)
        requires
            0real <= a <= 1real,
            0real <= p,
    ;
}

/// A power of a positive number is positive.
pub proof fn lemma_power_positive(a: real, n: nat)
    requires
        0real < a,
    ensures
        0real < power(a, n),
    decreases n,
{
    if n > 0 {
        lemma_power_positive(a, (n - 1) as nat);
        let p = power(a, (n - 1) as nat);
        assert(0real < a * p) by (nonlinear_arith)
            requires
                0real < a,
                0real < p,
        ;
    }
}

/// The magnitudes of both series shrink from the first term on, as long as
/// the deflection angle is within one radian.
proof fn lemma_magnitudes_shrink(a: real)
    requires
        0real <= a <= 1real,
    ensures
        shrinking_from(x_magnitude(a), 0),
        shrinking_from(y_magnitude(a), 0),
{
    assert forall|n: nat| 0real <= #[trigger] x_magnitude(a)(n + 1) <= x_magnitude(a)(n) by {
        lemma_power_shrinks(a, 2 * n);
        lemma_power_shrinks(a, 2 * n + 1);
        lemma_x_divisor_increasing(n);
        lemma_factorial_monotonic(0, 2 * n);
        lemma_product_bound(1, 1, 4 * n + 1, spec_factorial(2 * n));
        let p = power(a, 2 * n);
        let q = power(a, 2 * (n + 1));
        let d = x_divisor(n) as real;
        let e = x_divisor(n + 1) as real;
        assert(0real <= q / e <= p / d) by (nonlinear_arith)
            requires
                0real <= q <= p,
                0real < d < e,
        ;
    }
    assert forall|n: nat| 0real <= #[trigger] y_magnitude(a)(n + 1) <= y_magnitude(a)(n) by {
        lemma_power_shrinks(a, 2 * n + 1);
        lemma_power_shrinks(a, 2 * n + 2);
        lemma_y_divisor_increasing(n);
        lemma_factorial_monotonic(0, 2 * n + 1);
        lemma_product_bound(1, 1, 4 * n + 3, spec_factorial(2 * n + 1));
        let p = power(a, 2 * n + 1);
        let q = power(a, 2 * (n + 1) + 1);
        let d = y_divisor(n) as real;
        let e = y_divisor(n + 1) as real;
        assert(0real <= q / e <= p / d) by (nonlinear_arith)
            requires
                0real <= q <= p,
                0real < d < e,
        ;
    }
}

/// Truncation: as long as the deflection angle is within one radian,
/// however many terms more of a series are summed, the sum moves by no more
/// than the first term that was left out, and in the direction of that
/// term. For `x` that term is `-a^14 / (29 * 14!)`, for `y` it is
/// `a^13 / (27 * 13!)`.
pub proof fn lemma_truncation(a: real, terms: nat)
    requires
        0real <= a <= 1real,
        terms > NUMITER,
    ensures
        -(power(a, 14) / 2528170444800real) <= x_sum(a, terms) - x_sum(a, (NUMITER + 1) as nat)
            <= 0real,
        0real <= y_sum(a, terms) - y_sum(a, NUMITER as nat) <= power(a, 13) / 168129561600real,
{
    lemma_magnitudes_shrink(a);
    lemma_sums_alternate(a, terms);
    lemma_sums_alternate(a, 7);
    lemma_sums_alternate(a, 6);
    lemma_alternating_tail(x_magnitude(a), 7, terms);
    lemma_alternating_tail(y_magnitude(a), 6, terms);
    lemma_x_divisor_table();
    lemma_y_divisor_table();
    assert(x_magnitude(a)(7) == power(a, 14) / 2528170444800real);
    assert(y_magnitude(a)(6) == power(a, 13) / 168129561600real);
}

/// The terms that [`x_term`] and [`y_term`] return have the values of the
/// terms of the two series.
pub proof fn lemma_term_values(a: real, n: nat)
    requires
        n <= MAX_TERM,
    ensures
        spec_x_term(n).value(a) == x_term_value(a, n),
        spec_y_term(n).value(a) == y_term_value(a, n),
{
    lemma_divisors_fit(n);
}

/// Term `n` of the `x` series: its sign, the power `2n` and the divisor
/// `(4n + 1) * (2n)!`.
pub fn x_term(n: u64) -> (term: SeriesTerm)
    requires
        n <= MAX_TERM,
    ensures
        term == spec_x_term(n as nat),
        term.negative <==> n % 2 == 1,
        term.power == 2 * n,
        term.divisor == x_divisor(n as nat),
        forall|a: real| #[trigger] term.value(a) == x_term_value(a, n as nat),
{
    proof {
        lemma_divisors_fit(n as nat);
    }
    let negative = n % 2 == 1;
    let power: u32 = (2 * n) as u32;
    let divisor: u64 = (4 * n + 1) * factorial(2 * n);
    SeriesTerm { negative, power, divisor }
}

/// Term `n` of the `y` series: its sign, the power `2n + 1` and the divisor
/// `(4n + 3) * (2n + 1)!`.
pub fn y_term(n: u64) -> (term: SeriesTerm)
    requires
        n <= MAX_TERM,
    ensures
        term == spec_y_term(n as nat),
        term.negative <==> n % 2 == 1,
        term.power == 2 * n + 1,
        term.divisor == y_divisor(n as nat),
        forall|a: real| #[trigger] term.value(a) == y_term_value(a, n as nat),
{
    proof {
        lemma_divisors_fit(n as nat);
    }
    let negative = n % 2 == 1;
    let power: u32 = (2 * n + 1) as u32;
    let divisor: u64 = (4 * n + 3) * factorial(2 * n + 1);
    SeriesTerm { negative, power, divisor }
}

} // verus!
