//! How far the abscissa of a clothoid grows with the arc length.
//!
//! The abscissa `x(s)` grows as fast as the truncated cosine series of the
//! deflection angle `a`,
//!
//! ```text
//! 1 - a^2 / 2! + a^4 / 4! - a^6 / 6! + a^8 / 8! - a^10 / 10! + a^12 / 12!
//! ```
//!
//! which is positive up to a right angle and a little beyond. So the
//! abscissa grows up to there. The proof has no derivative at hand: it
//! bounds the growth over a short step from below, by the even terms at the
//! start of the step less the odd terms at its end, and goes from one arc
//! length to another in steps that are short enough.

use vstd::prelude::*;
use crate::series::lemma_x_divisor_table;
use crate::series::power;
use crate::series::x_divisor;
use crate::series::x_sum;
use crate::series::x_term_value;

verus! {

/// The largest square of a deflection angle that is covered: a little above
/// the square of a right angle, `pi^2 / 4`, and below the square of the
/// first zero of the truncated cosine series.
pub open spec fn square_limit() -> real {
    2467401101real / 1000000000real
}

/// What the truncated cosine series stays above, up to [`square_limit`].
pub open spec fn cosine_floor() -> real {
    6real / 1000000000real
}

/// The second power of `u`.
pub open spec fn second(u: real) -> real {
    u * u
}

/// The third power of `u`.
pub open spec fn third(u: real) -> real {
    second(u) * u
}

/// The fourth power of `u`.
pub open spec fn fourth(u: real) -> real {
    third(u) * u
}

/// The fifth power of `u`.
pub open spec fn fifth(u: real) -> real {
    fourth(u) * u
}

/// The sixth power of `u`.
pub open spec fn sixth(u: real) -> real {
    fifth(u) * u
}

/// The terms of the truncated cosine series that are added, as a function of
/// the square `u` of the angle: `1 + u^2 / 4! + u^4 / 8! + u^6 / 12!`.
pub open spec fn even_part(u: real) -> real {
    1real + second(u) / 24real + fourth(u) / 40320real + sixth(u) / 479001600real
}

/// The terms of the truncated cosine series that are subtracted, as a
/// function of the square `u` of the angle: `u / 2! + u^3 / 6! + u^5 / 10!`.
pub open spec fn odd_part(u: real) -> real {
    u / 2real + third(u) / 720real + fifth(u) / 3628800real
}

/// One more factor on two powers `w` of `x` and `v` of `y`, for
/// `x >= y >= 0`: the growth from the one to the other stays positive or
/// zero, and it is multiplied by no more than `x + y`.
proof fn lemma_next_power(x: real, y: real, w: real, v: real)
    requires
        x >= y >= 0real,
        w >= v >= 0real,
        y * w >= x * v,
    ensures
        w * x >= v * y >= 0real,
        y * (w * x) >= x * (v * y),
        w * x - v * y <= (x + y) * (w - v),
{
    assert(w * x >= v * y >= 0real) by (nonlinear_arith)
        requires
            x >= y >= 0real,
            w >= v >= 0real,
    ;
    assert(y * (w * x) - x * (v * y) == (x * y) * (w - v)) by (nonlinear_arith);
    assert((x * y) * (w - v) >= 0real) by (nonlinear_arith)
        requires
            x >= y >= 0real,
            w >= v,
    ;
    assert((x + y) * (w - v) - (w * x - v * y) == y * w - x * v) by (nonlinear_arith);
}

/// The growth of the powers between two numbers from zero to five halves:
/// each power grows by at most five times as much as the one before it.
proof fn lemma_power_growth(y: real, x: real)
    requires
        0real <= y <= x,
        x + y <= 5real,
    ensures
        0real <= second(x) - second(y) <= 5real * (x - y),
        0real <= third(x) - third(y) <= 5real * (second(x) - second(y)),
        0real <= fourth(x) - fourth(y) <= 5real * (third(x) - third(y)),
        0real <= fifth(x) - fifth(y) <= 5real * (fourth(x) - fourth(y)),
        0real <= sixth(x) - sixth(y) <= 5real * (fifth(x) - fifth(y)),
{
    assert(y * x >= x * y) by (nonlinear_arith);
    lemma_next_power(x, y, x, y);
    lemma_next_power(x, y, second(x), second(y));
    lemma_next_power(x, y, third(x), third(y));
    lemma_next_power(x, y, fourth(x), fourth(y));
    lemma_next_power(x, y, fifth(x), fifth(y));
    lemma_scaled(x + y, x - y);
    lemma_scaled(x + y, second(x) - second(y));
    lemma_scaled(x + y, third(x) - third(y));
    lemma_scaled(x + y, fourth(x) - fourth(y));
    lemma_scaled(x + y, fifth(x) - fifth(y));
}

/// A factor of at most five on a number that is not negative.
proof fn lemma_scaled(factor: real, d: real)
    requires
        0real <= factor <= 5real,
        d >= 0real,
    ensures
        factor * d <= 5real * d,
{
    assert(factor * d <= 5real * d) by (nonlinear_arith)
        requires
            0real <= factor <= 5real,
            d >= 0real,
    ;
}

/// The truncated cosine series falls as the angle grows, and its even part
/// grows by less than a quarter of the growth of the square of the angle.
pub proof fn lemma_cosine_falls(u1: real, u2: real)
    requires
        0real <= u1 <= u2,
        u2 <= 5real / 2real,
    ensures
        even_part(u1) - odd_part(u1) >= even_part(u2) - odd_part(u2),
        even_part(u2) - even_part(u1) <= (u2 - u1) / 4real,
{
    lemma_power_growth(u1, u2);
}

/// The truncated cosine series stays above [`cosine_floor`] up to
/// [`square_limit`].
pub proof fn lemma_cosine_floor(u: real)
    requires
        0real <= u <= square_limit(),
    ensures
        even_part(u) - odd_part(u) >= cosine_floor(),
{
    let top = square_limit();
    lemma_cosine_falls(u, top);
    let t2 = top * top;
    let t3 = t2 * top;
    let t4 = t3 * top;
    let t5 = t4 * top;
    let t6 = t5 * top;
    assert(t2 == 6088068193216012201real / 1000000000000000000real);
    assert(t3 == 15021706162904269235576833301real / 1000000000000000000000000000real);
    assert(t4 == 37064574325248479269462706856980864401real / 1000000000000000000000000000000000000real);
    assert(t5 == 91453171498214429848047958577354834358959105501real / 1000000000000000000000000000000000000000000000real);
    assert(t6 == 225651656044636103741160795694567711964968326127142556601real / 1000000000000000000000000000000000000000000000000000000real);
    assert(1real + t2 / 24real + t4 / 40320real + t6 / 479001600real - (top / 2real + t3 / 720real
        + t5 / 3628800real) >= 6real / 1000000000real);
}

/// `s * a^(2n)`: the numerator of the magnitude of term `n` of the abscissa
/// at the arc length `s`, where the deflection angle is `a`.
spec fn numerator(s: real, a: real, n: nat) -> real {
    s * power(a, 2 * n)
}

/// The magnitude of term `n` of the abscissa at the arc length `s`, where
/// the deflection angle is `a`.
spec fn magnitude(s: real, a: real, n: nat) -> real {
    numerator(s, a, n) / (x_divisor(n) as real)
}

/// From one term to the next the numerator is multiplied by `a^2`.
proof fn lemma_numerator_step(s: real, a: real, n: nat)
    ensures
        numerator(s, a, n + 1) == numerator(s, a, n) * (a * a),
{
    reveal_with_fuel(power, 3);
    let p = power(a, 2 * n);
    assert(power(a, 2 * (n + 1)) == a * (a * p));
    assert(s * (a * (a * p)) == (s * p) * (a * a)) by (nonlinear_arith);
}

/// Term `n` of the abscissa at the arc length `s` is its magnitude, with
/// the sign of the term.
proof fn lemma_term_magnitude(s: real, a: real, n: nat)
    requires
        n <= 6,
    ensures
        n % 2 == 0 ==> s * x_term_value(a, n) == magnitude(s, a, n),
        n % 2 == 1 ==> s * x_term_value(a, n) == -magnitude(s, a, n),
{
    lemma_x_divisor_table();
    let p = power(a, 2 * n);
    let d = x_divisor(n) as real;
    assert(d > 0real);
    assert(s * (p / d) == (s * p) / d && s * (-(p / d)) == -((s * p) / d)) by (nonlinear_arith)
        requires
            d > 0real,
    ;
}

/// The abscissa as the alternating sum of the magnitudes of its terms.
proof fn lemma_x_unfold(s: real, a: real)
    ensures
        s * x_sum(a, 7) == magnitude(s, a, 0) - magnitude(s, a, 1) + magnitude(s, a, 2) - magnitude(
            s,
            a,
            3,
        ) + magnitude(s, a, 4) - magnitude(s, a, 5) + magnitude(s, a, 6),
{
    reveal_with_fuel(x_sum, 8);
    let t0 = x_term_value(a, 0);
    let t1 = x_term_value(a, 1);
    let t2 = x_term_value(a, 2);
    let t3 = x_term_value(a, 3);
    let t4 = x_term_value(a, 4);
    let t5 = x_term_value(a, 5);
    let t6 = x_term_value(a, 6);
    assert(x_sum(a, 7) == 0real + t0 + t1 + t2 + t3 + t4 + t5 + t6);
    assert(s * (0real + t0 + t1 + t2 + t3 + t4 + t5 + t6) == s * t0 + s * t1 + s * t2 + s * t3 + s
        * t4 + s * t5 + s * t6) by (nonlinear_arith);
    lemma_term_magnitude(s, a, 0);
    lemma_term_magnitude(s, a, 1);
    lemma_term_magnitude(s, a, 2);
    lemma_term_magnitude(s, a, 3);
    lemma_term_magnitude(s, a, 4);
    lemma_term_magnitude(s, a, 5);
    lemma_term_magnitude(s, a, 6);
}

/// One more factor `u` on the numerators of a term at two arc lengths.
///
/// `p1 = s1 * q1` and `p2 = s2 * q2` are the numerators at the arc lengths
/// `s1` and `s2 = s1 + h`, where the squares of the deflection angles are
/// `u1` and `u2`. If the numerator grows by between `c * h * q1` and
/// `c * h * q2`, then the next one grows by between `(c + 4) * h * q1 * u1`
/// and `(c + 4) * h * q2 * u2`.
proof fn lemma_next_numerator(
    h: real,
    s1: real,
    s2: real,
    u1: real,
    u2: real,
    q1: real,
    q2: real,
    p1: real,
    p2: real,
    c: real,
)
    requires
        h >= 0real,
        s1 >= 0real,
        s2 >= 0real,
        0real <= u1 <= u2,
        s2 * (u2 - u1) >= 4real * (h * u1),
        s1 * (u2 - u1) <= 4real * (h * u2),
        0real <= q1 <= q2,
        p1 == s1 * q1,
        p2 == s2 * q2,
        c >= 1real,
        c * (h * q1) <= p2 - p1 <= c * (h * q2),
    ensures
        p1 * u1 == s1 * (q1 * u1),
        p2 * u2 == s2 * (q2 * u2),
        0real <= q1 * u1 <= q2 * u2,
        (c + 4real) * (h * (q1 * u1)) <= p2 * u2 - p1 * u1 <= (c + 4real) * (h * (q2 * u2)),
{
    assert(p1 * u1 == s1 * (q1 * u1) && p2 * u2 == s2 * (q2 * u2)) by (nonlinear_arith)
        requires
            p1 == s1 * q1,
            p2 == s2 * q2,
    ;
    assert(0real <= q1 * u1 <= q2 * u2) by (nonlinear_arith)
        requires
            0real <= u1 <= u2,
            0real <= q1 <= q2,
    ;
    let grown = p2 - p1;
    let low = c * (h * q1);
    let high = c * (h * q2);
    assert(grown * u1 >= low * u1 && grown * u2 <= high * u2) by (nonlinear_arith)
        requires
            low <= grown <= high,
            0real <= u1 <= u2,
    ;
    assert(low * u1 == c * (h * (q1 * u1)) && high * u2 == c * (h * (q2 * u2)))
        by (nonlinear_arith)
        requires
            low == c * (h * q1),
            high == c * (h * q2),
    ;
    let wider = s2 * (u2 - u1);
    let narrower = s1 * (u2 - u1);
    assert(p2 * (u2 - u1) == q2 * wider && p1 * (u2 - u1) == q1 * narrower) by (nonlinear_arith)
        requires
            p1 == s1 * q1,
            p2 == s2 * q2,
            wider == s2 * (u2 - u1),
            narrower == s1 * (u2 - u1),
    ;
    let least = 4real * (h * u1);
    let most = 4real * (h * u2);
    assert(least >= 0real) by (nonlinear_arith)
        requires
            least == 4real * (h * u1),
            h >= 0real,
            u1 >= 0real,
    ;
    assert(q2 * wider >= q1 * least) by (nonlinear_arith)
        requires
            wider >= least,
            least >= 0real,
            0real <= q1 <= q2,
    ;
    assert(most >= 0real) by (nonlinear_arith)
        requires
            most == 4real * (h * u2),
            h >= 0real,
            u2 >= 0real,
    ;
    assert(q1 * narrower <= q2 * most) by (nonlinear_arith)
        requires
            narrower <= most,
            most >= 0real,
            0real <= q1 <= q2,
    ;
    assert(q1 * least == 4real * (h * (q1 * u1)) && q2 * most == 4real * (h * (q2 * u2)))
        by (nonlinear_arith)
        requires
            least == 4real * (h * u1),
            most == 4real * (h * u2),
    ;
    assert(p2 * u2 - p1 * u1 == grown * u1 + p2 * (u2 - u1) && p2 * u2 - p1 * u1 == grown * u2
        + p1 * (u2 - u1)) by (nonlinear_arith)
        requires
            grown == p2 - p1,
    ;
    let lower = h * (q1 * u1);
    let upper = h * (q2 * u2);
    assert((c + 4real) * lower == c * lower + 4real * lower && (c + 4real) * upper == c * upper
        + 4real * upper) by (nonlinear_arith);
}

/// Over a short step the abscissa grows.
///
/// `a1` and `a2` are the deflection angles at the arc lengths `s1` and
/// `s2`. The step is short where the square of the deflection angle grows by
/// less than four times [`cosine_floor`] over it.
proof fn lemma_short_step(s1: real, s2: real, a1: real, a2: real)
    requires
        0real <= s1 < s2,
        0real <= a1 <= a2,
        s2 * (a2 * a2 - a1 * a1) >= 4real * ((s2 - s1) * (a1 * a1)),
        s1 * (a2 * a2 - a1 * a1) <= 4real * ((s2 - s1) * (a2 * a2)),
        a2 * a2 <= square_limit(),
        a2 * a2 - a1 * a1 < 4real * cosine_floor(),
    ensures
        s1 * x_sum(a1, 7) < s2 * x_sum(a2, 7),
{
    let h = s2 - s1;
    let u1 = a1 * a1;
    let u2 = a2 * a2;
    assert(0real <= u1 <= u2) by (nonlinear_arith)
        requires
            0real <= a1 <= a2,
            u1 == a1 * a1,
            u2 == a2 * a2,
    ;
    // The numerators of the seven terms, and how much each of them grows.
    assert(numerator(s1, a1, 0) == s1 && numerator(s2, a2, 0) == s2) by {
        assert(power(a1, 0) == 1real && power(a2, 0) == 1real);
    }
    lemma_numerator_step(s1, a1, 0);
    lemma_numerator_step(s2, a2, 0);
    lemma_numerator_step(s1, a1, 1);
    lemma_numerator_step(s2, a2, 1);
    lemma_numerator_step(s1, a1, 2);
    lemma_numerator_step(s2, a2, 2);
    lemma_numerator_step(s1, a1, 3);
    lemma_numerator_step(s2, a2, 3);
    lemma_numerator_step(s1, a1, 4);
    lemma_numerator_step(s2, a2, 4);
    lemma_numerator_step(s1, a1, 5);
    lemma_numerator_step(s2, a2, 5);
    lemma_next_numerator(h, s1, s2, u1, u2, 1real, 1real, s1, s2, 1real);
    lemma_next_numerator(
        h,
        s1,
        s2,
        u1,
        u2,
        u1,
        u2,
        numerator(s1, a1, 1),
        numerator(s2, a2, 1),
        5real,
    );
    lemma_next_numerator(
        h,
        s1,
        s2,
        u1,
        u2,
        second(u1),
        second(u2),
        numerator(s1, a1, 2),
        numerator(s2, a2, 2),
        9real,
    );
    lemma_next_numerator(
        h,
        s1,
        s2,
        u1,
        u2,
        third(u1),
        third(u2),
        numerator(s1, a1, 3),
        numerator(s2, a2, 3),
        13real,
    );
    lemma_next_numerator(
        h,
        s1,
        s2,
        u1,
        u2,
        fourth(u1),
        fourth(u2),
        numerator(s1, a1, 4),
        numerator(s2, a2, 4),
        17real,
    );
    lemma_next_numerator(
        h,
        s1,
        s2,
        u1,
        u2,
        fifth(u1),
        fifth(u2),
        numerator(s1, a1, 5),
        numerator(s2, a2, 5),
        21real,
    );
    // The growth of the abscissa, from the growth of the magnitudes.
    lemma_x_divisor_table();
    lemma_x_unfold(s1, a1);
    lemma_x_unfold(s2, a2);
    let g0 = h * 1real;
    let g1 = h * u2;
    let g2 = h * second(u1);
    let g3 = h * third(u2);
    let g4 = h * fourth(u1);
    let g5 = h * fifth(u2);
    let g6 = h * sixth(u1);
    let d0 = magnitude(s2, a2, 0) - magnitude(s1, a1, 0);
    let d1 = magnitude(s2, a2, 1) - magnitude(s1, a1, 1);
    let d2 = magnitude(s2, a2, 2) - magnitude(s1, a1, 2);
    let d3 = magnitude(s2, a2, 3) - magnitude(s1, a1, 3);
    let d4 = magnitude(s2, a2, 4) - magnitude(s1, a1, 4);
    let d5 = magnitude(s2, a2, 5) - magnitude(s1, a1, 5);
    let d6 = magnitude(s2, a2, 6) - magnitude(s1, a1, 6);
    assert(d0 == g0) by {
        assert(x_divisor(0) as real == 1real);
        assert(g0 == h);
    }
    assert(d1 <= g1 / 2real) by {
        assert(numerator(s2, a2, 1) - numerator(s1, a1, 1) <= 5real * g1);
        assert(x_divisor(1) as real == 10real);
    }
    assert(d2 >= g2 / 24real) by {
        assert(numerator(s2, a2, 2) - numerator(s1, a1, 2) >= 9real * g2);
        assert(x_divisor(2) as real == 216real);
    }
    assert(d3 <= g3 / 720real) by {
        assert(numerator(s2, a2, 3) - numerator(s1, a1, 3) <= 13real * g3);
        assert(x_divisor(3) as real == 9360real);
    }
    assert(d4 >= g4 / 40320real) by {
        assert(numerator(s2, a2, 4) - numerator(s1, a1, 4) >= 17real * g4);
        assert(x_divisor(4) as real == 685440real);
    }
    assert(d5 <= g5 / 3628800real) by {
        assert(numerator(s2, a2, 5) - numerator(s1, a1, 5) <= 21real * g5);
        assert(x_divisor(5) as real == 76204800real);
    }
    assert(d6 >= g6 / 479001600real) by {
        assert(numerator(s2, a2, 6) - numerator(s1, a1, 6) >= 25real * g6);
        assert(x_divisor(6) as real == 11975040000real);
    }
    let grown = s2 * x_sum(a2, 7) - s1 * x_sum(a1, 7);
    assert(grown == d0 - d1 + d2 - d3 + d4 - d5 + d6);
    assert(grown >= g0 - g1 / 2real + g2 / 24real - g3 / 720real + g4 / 40320real - g5
        / 3628800real + g6 / 479001600real);
    // That is the step times the cosine series, taken at the two ends.
    let cosine = even_part(u1) - odd_part(u2);
    lemma_cosine_falls(u1, u2);
    lemma_cosine_floor(u2);
    assert(cosine > 0real);
    assert(h * cosine == g0 - g1 / 2real + g2 / 24real - g3 / 720real + g4 / 40320real - g5
        / 3628800real + g6 / 479001600real) by (nonlinear_arith)
        requires
            cosine == 1real + second(u1) / 24real + fourth(u1) / 40320real + sixth(u1)
                / 479001600real - (u2 / 2real + third(u2) / 720real + fifth(u2) / 3628800real),
            g0 == h * 1real,
            g1 == h * u2,
            g2 == h * second(u1),
            g3 == h * third(u2),
            g4 == h * fourth(u1),
            g5 == h * fifth(u2),
            g6 == h * sixth(u1),
    ;
    assert(h * cosine > 0real) by (nonlinear_arith)
        requires
            h > 0real,
            cosine > 0real,
    ;
}

/// The abscissa at the arc length `s` of a clothoid with `2 A^2 = k`.
pub open spec fn abscissa(k: real, s: real) -> real {
    s * x_sum(s * s / k, 7)
}

/// The square of the deflection angle at the arc length `s` of a clothoid
/// with `2 A^2 = k`.
pub open spec fn square(k: real, s: real) -> real {
    (s * s / k) * (s * s / k)
}

/// How the square of the deflection angle grows between two arc lengths.
proof fn lemma_square_growth(k: real, s1: real, s2: real)
    requires
        k > 0real,
        0real <= s1 <= s2,
    ensures
        0real <= s1 * s1 / k <= s2 * s2 / k,
        0real <= square(k, s1) <= square(k, s2),
        s2 * (square(k, s2) - square(k, s1)) >= 4real * ((s2 - s1) * square(k, s1)),
        s1 * (square(k, s2) - square(k, s1)) <= 4real * ((s2 - s1) * square(k, s2)),
        (square(k, s2) - square(k, s1)) * (k * k) <= 4real * ((s2 * s2 * s2) * (s2 - s1)),
{
    let c = 1real / k;
    let a1 = s1 * s1 / k;
    let a2 = s2 * s2 / k;
    assert(c > 0real && a1 == c * (s1 * s1) && a2 == c * (s2 * s2) && c * k == 1real)
        by (nonlinear_arith)
        requires
            c == 1real / k,
            a1 == s1 * s1 / k,
            a2 == s2 * s2 / k,
            k > 0real,
    ;
    assert(0real <= s1 * s1 <= s2 * s2) by (nonlinear_arith)
        requires
            0real <= s1 <= s2,
    ;
    assert(0real <= a1 <= a2) by (nonlinear_arith)
        requires
            a1 == c * (s1 * s1),
            a2 == c * (s2 * s2),
            0real <= s1 * s1 <= s2 * s2,
            c > 0real,
    ;
    let f1 = s1 * s1 * s1 * s1;
    let f2 = s2 * s2 * s2 * s2;
    let cc = c * c;
    assert(cc > 0real && cc * (k * k) == 1real) by (nonlinear_arith)
        requires
            cc == c * c,
            c > 0real,
            c * k == 1real,
    ;
    assert(a1 * a1 == cc * f1 && a2 * a2 == cc * f2) by (nonlinear_arith)
        requires
            a1 == c * (s1 * s1),
            a2 == c * (s2 * s2),
            f1 == s1 * s1 * s1 * s1,
            f2 == s2 * s2 * s2 * s2,
            cc == c * c,
    ;
    let h = s2 - s1;
    assert(0real <= f1 <= f2) by (nonlinear_arith)
        requires
            0real <= s1 <= s2,
            f1 == s1 * s1 * s1 * s1,
            f2 == s2 * s2 * s2 * s2,
    ;
    assert(s1 * (f2 - f1) <= 4real * (h * f2)) by (nonlinear_arith)
        requires
            0real <= s1 <= s2,
            h == s2 - s1,
            f1 == s1 * s1 * s1 * s1,
            f2 == s2 * s2 * s2 * s2,
    ;
    assert(s2 * (f2 - f1) >= 4real * (h * f1)) by (nonlinear_arith)
        requires
            0real <= s1 <= s2,
            h == s2 - s1,
            f1 == s1 * s1 * s1 * s1,
            f2 == s2 * s2 * s2 * s2,
    ;
    assert(f2 - f1 <= 4real * ((s2 * s2 * s2) * h)) by (nonlinear_arith)
        requires
            0real <= s1 <= s2,
            h == s2 - s1,
            f1 == s1 * s1 * s1 * s1,
            f2 == s2 * s2 * s2 * s2,
    ;
    let u1 = cc * f1;
    let u2 = cc * f2;
    assert(0real <= u1 <= u2) by (nonlinear_arith)
        requires
            u1 == cc * f1,
            u2 == cc * f2,
            0real <= f1 <= f2,
            cc > 0real,
    ;
    assert(square(k, s1) == u1 && square(k, s2) == u2);
    assert(s2 * (u2 - u1) == cc * (s2 * (f2 - f1)) && s1 * (u2 - u1) == cc * (s1 * (f2 - f1)) && 4real
        * (h * u1) == cc * (4real * (h * f1)) && 4real * (h * u2) == cc * (4real * (h * f2)))
        by (nonlinear_arith)
        requires
            u1 == cc * f1,
            u2 == cc * f2,
    ;
    lemma_scale_order(cc, 4real * (h * f1), s2 * (f2 - f1));
    lemma_scale_order(cc, s1 * (f2 - f1), 4real * (h * f2));
    assert((u2 - u1) * (k * k) == f2 - f1) by (nonlinear_arith)
        requires
            u1 == cc * f1,
            u2 == cc * f2,
            cc * (k * k) == 1real,
    ;
}

/// A positive factor keeps the order of two numbers.
proof fn lemma_scale_order(factor: real, low: real, high: real)
    requires
        factor > 0real,
        low <= high,
    ensures
        factor * low <= factor * high,
{
    assert(factor * low <= factor * high) by (nonlinear_arith)
        requires
            factor > 0real,
            low <= high,
    ;
}

/// Over a step of the arc length that is short enough, the abscissa grows.
proof fn lemma_one_step(k: real, s1: real, s2: real)
    requires
        k > 0real,
        0real <= s1 < s2,
        square(k, s2) <= square_limit(),
        (s2 * s2 * s2) * (s2 - s1) < cosine_floor() * (k * k),
    ensures
        abscissa(k, s1) < abscissa(k, s2),
{
    lemma_square_growth(k, s1, s2);
    let grown = square(k, s2) - square(k, s1);
    let kk = k * k;
    assert(grown < 4real * cosine_floor()) by (nonlinear_arith)
        requires
            grown * kk <= 4real * ((s2 * s2 * s2) * (s2 - s1)),
            (s2 * s2 * s2) * (s2 - s1) < cosine_floor() * kk,
            kk == k * k,
            k > 0real,
    ;
    lemma_short_step(s1, s2, s1 * s1 / k, s2 * s2 / k);
}

/// Over any number of steps that are short enough, the abscissa grows.
proof fn lemma_steps(k: real, s1: real, step: real, count: nat)
    requires
        k > 0real,
        s1 >= 0real,
        step > 0real,
        square(k, s1 + count as real * step) <= square_limit(),
        ({
            let top = s1 + count as real * step;
            (top * top * top) * step < cosine_floor() * (k * k)
        }),
    ensures
        count > 0 ==> abscissa(k, s1) < abscissa(k, s1 + count as real * step),
    decreases count,
{
    if count > 0 {
        let before = (count - 1) as nat;
        let top = s1 + count as real * step;
        let mid = s1 + before as real * step;
        assert(before as real == count as real - 1real);
        assert(mid + step == top && 0real <= s1 <= mid) by (nonlinear_arith)
            requires
                top == s1 + count as real * step,
                mid == s1 + (count as real - 1real) * step,
                count as real >= 1real,
                step > 0real,
                s1 >= 0real,
        ;
        lemma_square_growth(k, mid, top);
        assert((mid * mid * mid) * step <= (top * top * top) * step) by (nonlinear_arith)
            requires
                0real <= mid <= top,
                step > 0real,
        ;
        lemma_steps(k, s1, step, before);
        lemma_one_step(k, mid, top);
        if before == 0 {
            assert(0real * step == 0real) by (nonlinear_arith);
            assert(mid == s1);
        }
    }
}

/// The abscissa grows with the arc length as long as the square of the
/// deflection angle stays within [`square_limit`].
pub proof fn lemma_abscissa_grows(k: real, s1: real, s2: real)
    requires
        k > 0real,
        0real <= s1 < s2,
        square(k, s2) <= square_limit(),
    ensures
        abscissa(k, s1) < abscissa(k, s2),
{
    let h = s2 - s1;
    let room = cosine_floor() * (k * k);
    assert(room > 0real) by (nonlinear_arith)
        requires
            room == (6real / 1000000000real) * (k * k),
            k > 0real,
    ;
    let weight = (s2 * s2 * s2) * h;
    assert(weight >= 0real) by (nonlinear_arith)
        requires
            weight == (s2 * s2 * s2) * h,
            s2 >= 0real,
            h >= 0real,
    ;
    let ratio = weight / room;
    assert(ratio >= 0real && ratio * room == weight) by (nonlinear_arith)
        requires
            ratio == weight / room,
            weight >= 0real,
            room > 0real,
    ;
    let count = (ratio.floor() + 1) as nat;
    let n = count as real;
    assert(n > ratio && n >= 1real);
    let step = h / n;
    assert(step > 0real && n * step == h) by (nonlinear_arith)
        requires
            step == h / n,
            h > 0real,
            n >= 1real,
    ;
    assert((s2 * s2 * s2) * step < room) by (nonlinear_arith)
        requires
            n * step == h,
            weight == (s2 * s2 * s2) * h,
            ratio * room == weight,
            n > ratio,
            room > 0real,
            step > 0real,
            ratio >= 0real,
    ;
    assert(s1 + count as real * step == s2);
    lemma_steps(k, s1, step, count);
}

} // verus!
