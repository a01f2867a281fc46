//! Ratios of two counters, kept exact.
//!
//! A ratio is held as the two counters it was made of, so that two ratios can
//! be ordered without rounding. A ratio whose lower counter is zero counts as
//! zero.

use vstd::prelude::*;

verus! {

/// The ratio `num / den`, or zero where `den` is zero.
#[derive(Clone, Copy, Debug)]
pub struct Ratio {
    pub num: i64,
    pub den: i64,
}

impl Ratio {
    /// The upper part of the ratio once its lower part is made positive.
    pub open spec fn top(self) -> int {
        if self.den == 0 {
            0
        } else if self.den < 0 {
            -(self.num as int)
        } else {
            self.num as int
        }
    }

    /// The lower part of the ratio, made positive.
    pub open spec fn bottom(self) -> int {
        if self.den == 0 {
            1
        } else if self.den < 0 {
            -(self.den as int)
        } else {
            self.den as int
        }
    }

    /// `self` is the greater of the two ratios.
    pub open spec fn exceeds(self, other: Ratio) -> bool {
        self.top() * other.bottom() > other.top() * self.bottom()
    }

    /// The two ratios have the same value.
    pub open spec fn equals(self, other: Ratio) -> bool {
        self.top() * other.bottom() == other.top() * self.bottom()
    }

    /// The ratio of two counters of which either may be missing: zero unless
    /// both are there and the lower one is not zero.
    pub open spec fn of_spec(upper: Option<i64>, lower: Option<i64>) -> Ratio {
        match (upper, lower) {
            (Some(num), Some(den)) => if den == 0 {
                Ratio { num: 0, den: 1 }
            } else {
                Ratio { num, den }
            },
            _ => Ratio { num: 0, den: 1 },
        }
    }

    /// The ratio zero.
    pub fn zero() -> (r: Ratio)
        ensures
            r == (Ratio { num: 0, den: 1 }),
            r.top() == 0,
    {
        Ratio { num: 0, den: 1 }
    }

    /// The ratio of two counters of which either may be missing.
    pub fn of(upper: Option<i64>, lower: Option<i64>) -> (r: Ratio)
        ensures
            r == Ratio::of_spec(upper, lower),
            upper is None || lower is None || lower == Some(0i64) ==> r.top() == 0,
            upper is Some && lower is Some && lower != Some(0i64) ==> r.num == upper->0 && r.den
                == lower->0,
    {
        match (upper, lower) {
            (Some(num), Some(den)) => {
                if den == 0 {
                    Ratio::zero()
                } else {
                    Ratio { num, den }
                }
            },
            _ => Ratio::zero(),
        }
    }

    /// Whether the ratio is zero.
    pub fn is_zero(&self) -> (b: bool)
        ensures
            b == (self.top() == 0),
    {
        self.den == 0 || self.num == 0
    }

    /// Whether `self` is the greater of the two ratios.
    pub fn is_greater(&self, other: &Ratio) -> (b: bool)
        ensures
            b == self.exceeds(*other),
    {
        let (a, b) = self.parts();
        let (c, d) = other.parts();
        proof {
            lemma_product_fits(a as int, d as int);
            lemma_product_fits(c as int, b as int);
        }
        a * d > c * b
    }

    /// Whether the two ratios have the same value.
    pub fn is_equal(&self, other: &Ratio) -> (b: bool)
        ensures
            b == self.equals(*other),
    {
        let (a, b) = self.parts();
        let (c, d) = other.parts();
        proof {
            lemma_product_fits(a as int, d as int);
            lemma_product_fits(c as int, b as int);
        }
        a * d == c * b
    }

    /// The two parts of the ratio with the lower part made positive.
    fn parts(&self) -> (p: (i128, i128))
        ensures
            p.0 == self.top(),
            p.1 == self.bottom(),
            -0x8000_0000_0000_0000 <= p.0 <= 0x8000_0000_0000_0000,
            0 < p.1 <= 0x8000_0000_0000_0000,
    {
        if self.den == 0 {
            (0, 1)
        } else if self.den < 0 {
            (-(self.num as i128), -(self.den as i128))
        } else {
            (self.num as i128, self.den as i128)
        }
    }
}

proof fn lemma_product_fits(a: int, b: int)
    requires
        -0x8000_0000_0000_0000 <= a <= 0x8000_0000_0000_0000,
        -0x8000_0000_0000_0000 <= b <= 0x8000_0000_0000_0000,
    ensures
        -0x4000_0000_0000_0000_0000_0000_0000_0000 <= a * b
            <= 0x4000_0000_0000_0000_0000_0000_0000_0000,
{
    assert(-0x4000_0000_0000_0000_0000_0000_0000_0000 <= a * b
        <= 0x4000_0000_0000_0000_0000_0000_0000_0000) by (nonlinear_arith)
        requires
            -0x8000_0000_0000_0000 <= a <= 0x8000_0000_0000_0000,
            -0x8000_0000_0000_0000 <= b <= 0x8000_0000_0000_0000,
    ;
}

/// No ratio is greater than itself, and of two ratios at most one is the
/// greater.
pub proof fn lemma_exceeds_one_way(a: Ratio, b: Ratio)
    ensures
        !a.exceeds(a),
        a.exceeds(b) ==> !b.exceeds(a),
        a.equals(b) <==> !a.exceeds(b) && !b.exceeds(a),
{
}

/// A ratio that is greater than `b` is greater than everything that `b` is
/// not smaller than.
pub proof fn lemma_exceeds_chain(a: Ratio, b: Ratio, c: Ratio)
    requires
        a.exceeds(b),
        !c.exceeds(b),
    ensures
        a.exceeds(c),
{
    let (at, ab) = (a.top(), a.bottom());
    let (bt, bb) = (b.top(), b.bottom());
    let (ct, cb) = (c.top(), c.bottom());
    assert(at * cb > ct * ab) by (nonlinear_arith)
        requires
            at * bb > bt * ab,
            ct * bb <= bt * cb,
            ab > 0,
            bb > 0,
            cb > 0,
    {
        assert((at * bb) * cb > (bt * ab) * cb);
        assert((ct * bb) * ab <= (bt * cb) * ab);
        assert((bt * ab) * cb == (bt * cb) * ab);
        assert((at * bb) * cb == (at * cb) * bb);
        assert((ct * bb) * ab == (ct * ab) * bb);
        assert((at * cb) * bb > (ct * ab) * bb);
    }
}

} // verus!
