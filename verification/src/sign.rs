//! The sign and the absolute value of a real quantity.

use vstd::prelude::*;

verus! {

/// The sign of a real quantity, as its owner has classified it.
///
/// `Zero` stands for every value that the owner does not tell from zero: the
/// value zero alone under an exact comparison, or a small interval round it
/// under a comparison with a tolerance. Each rule of this crate says which of
/// the two it expects.
#[derive(Clone, Copy, Debug, PartialEq, Eq, Structural)]
pub enum Sign {
    Negative,
    Zero,
    Positive,
}

impl Sign {
    /// The exact sign of a real number.
    pub open spec fn of(x: real) -> Sign {
        if x < 0real {
            Sign::Negative
        } else if x > 0real {
            Sign::Positive
        } else {
            Sign::Zero
        }
    }

    /// The sign of a real number when every number closer to zero than
    /// `tolerance` is taken for zero. With a tolerance of zero it is the
    /// exact sign.
    pub open spec fn within(x: real, tolerance: real) -> Sign {
        if x < 0real && x <= -tolerance {
            Sign::Negative
        } else if x > 0real && x >= tolerance {
            Sign::Positive
        } else {
            Sign::Zero
        }
    }

    /// The sign as an integer: `-1`, `0` or `1`.
    pub open spec fn as_int(self) -> int {
        match self {
            Sign::Negative => -1,
            Sign::Zero => 0,
            Sign::Positive => 1,
        }
    }

    /// The sign of the negated quantity.
    pub open spec fn negate(self) -> Sign {
        match self {
            Sign::Negative => Sign::Positive,
            Sign::Zero => Sign::Zero,
            Sign::Positive => Sign::Negative,
        }
    }

    /// The sign of the product of two quantities with the signs `self` and
    /// `other`.
    pub open spec fn times(self, other: Sign) -> Sign {
        match (self, other) {
            (Sign::Zero, _) | (_, Sign::Zero) => Sign::Zero,
            (Sign::Positive, Sign::Positive) | (Sign::Negative, Sign::Negative) => Sign::Positive,
            _ => Sign::Negative,
        }
    }
}

/// The absolute value of a real number.
pub open spec fn abs(x: real) -> real {
    if x < 0real {
        -x
    } else {
        x
    }
}

/// A sign taken with a tolerance is either `Zero` or the exact sign, and it
/// is the exact sign where the tolerance is zero.
pub proof fn lemma_sign_within(x: real, tolerance: real)
    requires
        tolerance >= 0real,
    ensures
        Sign::within(x, tolerance) == Sign::Zero <==> -tolerance < x < tolerance || x == 0real,
        Sign::within(x, tolerance) != Sign::Zero ==> Sign::within(x, tolerance) == Sign::of(x),
        Sign::within(x, 0real) == Sign::of(x),
{
}

/// The signs of a negated number, of a product and of a quotient follow from
/// the signs of the operands.
pub proof fn lemma_sign_arithmetic(x: real, y: real)
    ensures
        Sign::of(-x) == Sign::of(x).negate(),
        Sign::of(x * y) == Sign::of(x).times(Sign::of(y)),
        y != 0real ==> Sign::of(x / y) == Sign::of(x).times(Sign::of(y)),
{
    let p = x * y;
    assert((p > 0real <==> (x > 0real && y > 0real) || (x < 0real && y < 0real)) && (p < 0real
        <==> (x > 0real && y < 0real) || (x < 0real && y > 0real))) by (nonlinear_arith)
        requires
            p == x * y,
    ;
    if y != 0real {
        let q = x / y;
        assert(x == q * y) by (nonlinear_arith)
            requires
                q == x / y,
                y != 0real,
        ;
        assert((x > 0real <==> (q > 0real && y > 0real) || (q < 0real && y < 0real)) && (x < 0real
            <==> (q > 0real && y < 0real) || (q < 0real && y > 0real))) by (nonlinear_arith)
            requires
                x == q * y,
        ;
    }
}

} // verus!
