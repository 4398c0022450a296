//! Exact ratios of whole numbers, and the order teams are ranked in.
//!
//! A mean or a proportion is kept as the pair it is the quotient of, so that
//! nothing is rounded before two of them are held against each other. A ratio
//! with denominator zero has no value; it ranks below every ratio that has
//! one, and level with every other ratio that has none.

use vstd::prelude::*;
use vstd::arithmetic::div_mod::lemma_fundamental_div_mod;

verus! {

/// The quotient `num / den`, kept unreduced. It has a value unless `den` is 0.
///
/// `==` holds two ratios equal when they are the same pair of numbers;
/// [`Ratio::compare`] tells whether they have the same value.
#[derive(Clone, Copy, Debug, PartialEq, Eq, Structural)]
pub struct Ratio {
    pub num: u128,
    pub den: u128,
}

/// How one ratio stands to another in the ranking order.
#[derive(Clone, Copy, Debug, PartialEq, Eq, Structural)]
pub enum Standing {
    Below,
    Level,
    Above,
}

/// The standing that the sign of `x` stands for.
pub open spec fn standing_of(x: int) -> Standing {
    if x < 0 {
        Standing::Below
    } else if x == 0 {
        Standing::Level
    } else {
        Standing::Above
    }
}

impl Ratio {
    /// Whether the ratio has a value.
    pub open spec fn defined(self) -> bool {
        self.den != 0
    }

    /// `self` ranks strictly below `other`.
    pub open spec fn below(self, other: Ratio) -> bool {
        if self.defined() {
            other.defined() && self.num * other.den < other.num * self.den
        } else {
            other.defined()
        }
    }

    /// `self` and `other` rank level: neither has a value, or both have the
    /// same one.
    pub open spec fn level(self, other: Ratio) -> bool {
        if self.defined() {
            other.defined() && self.num * other.den == other.num * self.den
        } else {
            !other.defined()
        }
    }

    /// How `self` stands to `other`.
    pub open spec fn standing(self, other: Ratio) -> Standing {
        if self.below(other) {
            Standing::Below
        } else if self.level(other) {
            Standing::Level
        } else {
            Standing::Above
        }
    }

    /// The value lies between 0 and 1, both included.
    pub open spec fn is_proportion(self) -> bool {
        self.defined() && self.num <= self.den
    }

    /// Tests whether the ratio has a value.
    pub fn is_defined(&self) -> (b: bool)
        ensures
            b == self.defined(),
    {
        self.den != 0
    }

    /// Finds how `self` stands to `other`, without rounding and without
    /// overflow, whatever the four numbers are.
    pub fn compare(&self, other: &Ratio) -> (s: Standing)
        ensures
            s == self.standing(*other),
    {
        if self.den == 0 {
            if other.den == 0 {
                Standing::Level
            } else {
                Standing::Below
            }
        } else if other.den == 0 {
            Standing::Above
        } else {
            compare_quotients(self.num, self.den, other.num, other.den)
        }
    }

    /// Of any two ratios exactly one ranks below the other, or they are level.
    pub proof fn lemma_trichotomy(self, other: Ratio)
        ensures
            self.below(other) || self.level(other) || other.below(self),
            !(self.below(other) && self.level(other)),
            !(self.below(other) && other.below(self)),
            !(self.level(other) && other.below(self)),
            self.level(other) == other.level(self),
            self.level(self),
    {
    }

    /// Ranking below is transitive, also across ratios that are level.
    pub proof fn lemma_transitive(self, mid: Ratio, other: Ratio)
        ensures
            self.below(mid) && mid.below(other) ==> self.below(other),
            self.below(mid) && mid.level(other) ==> self.below(other),
            self.level(mid) && mid.below(other) ==> self.below(other),
            self.level(mid) && mid.level(other) ==> self.level(other),
    {
        if self.defined() && mid.defined() && other.defined() {
            lemma_cross_transitive(
                self.num as int,
                self.den as int,
                mid.num as int,
                mid.den as int,
                other.num as int,
                other.den as int,
            );
        }
    }
}

/// Cross products order fractions with positive denominators transitively.
proof fn lemma_cross_transitive(a: int, b: int, c: int, d: int, e: int, f: int)
    requires
        0 <= a,
        0 <= c,
        0 <= e,
        0 < b,
        0 < d,
        0 < f,
    ensures
        a * d < c * b && c * f < e * d ==> a * f < e * b,
        a * d < c * b && c * f == e * d ==> a * f < e * b,
        a * d == c * b && c * f < e * d ==> a * f < e * b,
        a * d == c * b && c * f == e * d ==> a * f == e * b,
{
    assert((a * d) * f == (a * f) * d) by (nonlinear_arith);
    assert((c * b) * f == (c * f) * b) by (nonlinear_arith);
    assert((e * d) * b == (e * b) * d) by (nonlinear_arith);
    assert(a * d < c * b ==> (a * d) * f < (c * b) * f) by (nonlinear_arith)
        requires
            0 < f,
    ;
    assert(c * f < e * d ==> (c * f) * b < (e * d) * b) by (nonlinear_arith)
        requires
            0 < b,
    ;
    assert((a * f) * d < (e * b) * d ==> a * f < e * b) by (nonlinear_arith)
        requires
            0 < d,
    ;
    assert((a * f) * d == (e * b) * d ==> a * f == e * b) by (nonlinear_arith)
        requires
            0 < d,
    ;
}

/// One step of the comparison: split both fractions into whole part and rest.
proof fn lemma_quotient_step(a: int, b: int, c: int, d: int)
    requires
        0 <= a,
        0 <= c,
        0 < b,
        0 < d,
    ensures
        a / b < c / d ==> a * d - c * b < 0,
        a / b > c / d ==> a * d - c * b > 0,
        a / b == c / d ==> a * d - c * b == (a % b) * d - (c % d) * b,
        0 <= a % b < b,
        0 <= c % d < d,
{
    let qa = a / b;
    let ra = a % b;
    let qc = c / d;
    let rc = c % d;
    lemma_fundamental_div_mod(a, b);
    lemma_fundamental_div_mod(c, d);
    assert(a * d - c * b == (qa - qc) * (b * d) + (ra * d - rc * b)) by (nonlinear_arith)
        requires
            a == b * qa + ra,
            c == d * qc + rc,
    ;
    assert(0 <= ra * d < b * d) by (nonlinear_arith)
        requires
            0 <= ra < b,
            0 < d,
    ;
    assert(0 <= rc * b < b * d) by (nonlinear_arith)
        requires
            0 <= rc < d,
            0 < b,
    ;
    assert(qa < qc ==> (qa - qc) * (b * d) <= -(b * d)) by (nonlinear_arith)
        requires
            0 < b,
            0 < d,
    ;
    assert(qa > qc ==> (qa - qc) * (b * d) >= b * d) by (nonlinear_arith)
        requires
            0 < b,
            0 < d,
    ;
    assert(qa == qc ==> (qa - qc) * (b * d) == 0) by (nonlinear_arith);
}

/// Compares `a / b` with `c / d` by their continued fractions: whole parts
/// first, then the rests with both fractions turned over.
fn compare_quotients(num: u128, den: u128, other_num: u128, other_den: u128) -> (s: Standing)
    requires
        den > 0,
        other_den > 0,
    ensures
        s == standing_of(num * other_den - other_num * den),
{
    let mut a = num;
    let mut b = den;
    let mut c = other_num;
    let mut d = other_den;
    loop
        invariant
            b > 0,
            d > 0,
            standing_of(a * d - c * b) == standing_of(num * other_den - other_num * den),
        decreases b + d,
    {
        let qa = a / b;
        let ra = a % b;
        let qc = c / d;
        let rc = c % d;
        proof {
            lemma_quotient_step(a as int, b as int, c as int, d as int);
        }
        if qa < qc {
            return Standing::Below;
        }
        if qa > qc {
            return Standing::Above;
        }
        if ra == 0 {
            proof {
                assert(ra * d == 0) by (nonlinear_arith)
                    requires
                        ra == 0,
                ;
                assert(rc > 0 ==> rc * b > 0) by (nonlinear_arith)
                    requires
                        b > 0,
                ;
                assert(rc == 0 ==> rc * b == 0) by (nonlinear_arith);
            }
            return if rc == 0 {
                Standing::Level
            } else {
                Standing::Below
            };
        }
        if rc == 0 {
            proof {
                assert(rc * b == 0) by (nonlinear_arith)
                    requires
                        rc == 0,
                ;
                assert(ra * d > 0) by (nonlinear_arith)
                    requires
                        ra > 0,
                        d > 0,
                ;
            }
            return Standing::Above;
        }
        proof {
            assert(ra * d - rc * b == d * ra - b * rc) by (nonlinear_arith);
        }
        let next_b = rc;
        let next_d = ra;
        a = d;
        c = b;
        b = next_b;
        d = next_d;
    }
}

} // verus!
