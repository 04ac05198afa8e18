//! Verified kernel of a road horizontal-alignment geometry library.
//!
//! A horizontal alignment is the centreline of a road seen from above: a chain
//! of straight tangents, circular arcs and clothoid transitions. Its
//! coordinates are real numbers, which a caller computes in floating point.
//! This crate holds what does not depend on how the numbers are rounded, in
//! two layers.
//!
//! The first layer is executable, and decides on discrete data:
//!
//! - the integer coefficients of the Fresnel series that place a point on a
//!   clothoid ([`series`], [`factorial`]);
//! - which parameters describe a clothoid, a tangent, an arc or a transition,
//!   which way each of them turns and on which side a centre lies
//!   ([`clothoid`], [`section`]), from the signs of the parameters ([`sign`]);
//! - in which quadrant the heading of a vector lies ([`heading`]);
//! - the plain value types and the alignment container, generic over the
//!   scalar ([`point`], [`vector`], [`alignment`]).
//!
//! The second layer is the same geometry over the real numbers, for proofs
//! only: the sums of the two series ([`series::x_sum`], [`series::y_sum`]),
//! the clothoid ([`clothoid::Clothoid`], with the proof that its abscissa
//! grows in [`abscissa`]), azimuths and angles ([`angles`])
//! and the three kinds of section ([`tangent`], [`arc`], [`transition`]). It
//! states what the floating-point code of a caller approximates, and it
//! carries the laws of the geometry: the length of a clothoid is positive,
//! the clothoid starts at the origin and mirrors with the sign of its
//! radius, its abscissa grows with the arc length, the terms that the
//! truncated series leave out stay below the first of them, azimuths and
//! angles convert into each other without loss, and a quarter of a circle
//! turns the azimuth by 90 degrees.

use vstd::prelude::*;

pub mod abscissa;
pub mod alignment;
pub mod angles;
pub mod arc;
pub mod clothoid;
pub mod error;
pub mod heading;
pub mod point;
pub mod section;
pub mod series;
pub mod sign;
pub mod tangent;
pub mod transition;
pub mod vector;

verus! {

/// The product `1 * 2 * ... * n`, with `0! = 1`.
pub open spec fn spec_factorial(n: nat) -> nat
    decreases n,
{
    if n == 0 {
        1
    } else {
        n * spec_factorial((n - 1) as nat)
    }
}

/// For `n > 0`, `(n - 1)!` is positive, is no larger than `n!`, and `n!` is
/// `n` times it.
pub proof fn lemma_factorial_step(n: nat)
    requires
        n > 0,
    ensures
        0 < spec_factorial((n - 1) as nat) <= spec_factorial(n),
        spec_factorial(n) == spec_factorial((n - 1) as nat) * n,
    decreases n,
{
    let below = spec_factorial((n - 1) as nat);
    if n > 1 {
        lemma_factorial_step((n - 1) as nat);
    }
    assert(0 < below);
    assert(below <= below * n && below * n == n * below) by (nonlinear_arith)
        requires
            n >= 1,
            below > 0,
    ;
}

/// The factorial never decreases: `i <= j` gives `i! <= j!`.
pub proof fn lemma_factorial_monotonic(i: nat, j: nat)
    requires
        i <= j,
    ensures
        0 < spec_factorial(i) <= spec_factorial(j),
    decreases j,
{
    if i < j {
        lemma_factorial_monotonic(i, (j - 1) as nat);
        lemma_factorial_step(j);
    } else if j > 0 {
        lemma_factorial_step(j);
    }
}

/// The factorials of 0 to 20, the largest one that fits in 64 bits.
pub proof fn lemma_factorial_table()
    ensures
        spec_factorial(0) == 1,
        spec_factorial(1) == 1,
        spec_factorial(2) == 2,
        spec_factorial(3) == 6,
        spec_factorial(4) == 24,
        spec_factorial(5) == 120,
        spec_factorial(6) == 720,
        spec_factorial(7) == 5040,
        spec_factorial(8) == 40320,
        spec_factorial(9) == 362880,
        spec_factorial(10) == 3628800,
        spec_factorial(11) == 39916800,
        spec_factorial(12) == 479001600,
        spec_factorial(13) == 6227020800,
        spec_factorial(14) == 87178291200,
        spec_factorial(15) == 1307674368000,
        spec_factorial(16) == 20922789888000,
        spec_factorial(17) == 355687428096000,
        spec_factorial(18) == 6402373705728000,
        spec_factorial(19) == 121645100408832000,
        spec_factorial(20) == 2432902008176640000,
{
    assert(spec_factorial(8) == 40320) by {
        reveal_with_fuel(spec_factorial, 9);
    }
    reveal_with_fuel(spec_factorial, 9);
    lemma_factorial_step(9);
    assert(spec_factorial(9) == 362880);
    lemma_factorial_step(10);
    assert(spec_factorial(10) == 3628800);
    lemma_factorial_step(11);
    assert(spec_factorial(11) == 39916800);
    lemma_factorial_step(12);
    assert(spec_factorial(12) == 479001600);
    lemma_factorial_step(13);
    assert(spec_factorial(13) == 6227020800);
    lemma_factorial_step(14);
    assert(spec_factorial(14) == 87178291200);
    lemma_factorial_step(15);
    assert(spec_factorial(15) == 1307674368000);
    lemma_factorial_step(16);
    assert(spec_factorial(16) == 20922789888000);
    lemma_factorial_step(17);
    assert(spec_factorial(17) == 355687428096000);
    lemma_factorial_step(18);
    assert(spec_factorial(18) == 6402373705728000);
    lemma_factorial_step(19);
    assert(spec_factorial(19) == 121645100408832000);
    lemma_factorial_step(20);
    assert(spec_factorial(20) == 2432902008176640000);
}

/// `20!` fits in 64 bits, and `21!` does not.
pub proof fn lemma_factorial_limit()
    ensures
        spec_factorial(20) <= u64::MAX < spec_factorial(21),
{
    lemma_factorial_table();
    lemma_factorial_step(21);
}

/// A factorial fits in a `u64` exactly when its argument is at most 20.
pub proof fn lemma_factorial_fits(n: nat)
    ensures
        spec_factorial(n) <= u64::MAX <==> n <= 20,
{
    lemma_factorial_limit();
    if n <= 20 {
        lemma_factorial_monotonic(n, 20);
    } else {
        lemma_factorial_monotonic(21, n);
    }
}

/// Computes `num!`.
///
/// The result must fit in a `u64`, which by [`lemma_factorial_fits`] means
/// `num <= 20`.
pub fn factorial(num: u64) -> (result: u64)
    requires
        num <= 20,
    ensures
        result == spec_factorial(num as nat),
{
    let mut result: u64 = 1;
    let mut done: u64 = 0;
    while done < num
        invariant
            done <= num <= 20,
            result == spec_factorial(done as nat),
        decreases num - done,
    {
        done = done + 1;
        proof {
            lemma_factorial_step(done as nat);
            lemma_factorial_fits(done as nat);
        }
        result = result * done;
    }
    result
}

} // verus!
