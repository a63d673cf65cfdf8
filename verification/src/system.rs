//! A system of exactly two equations, and the resolver that solves it.
//!
//! The resolver dispatches on the pair of categories of its two equations.
//! Every cell with a unique solution reduces to the one general elimination
//! rule with determinant `D = x1*y2 - x2*y1`; the remaining cells either
//! apply a documented convention (an unconstrained axis is reported as zero)
//! or fail with a build-time diagnostic.
//!
//! Two coincident general equations (proportional coefficients, consistent
//! right-hand sides) have infinitely many solutions; the resolver refuses to
//! pick one and fails with [`BuildError::Underdetermined`], while parallel,
//! non-intersecting general equations fail with [`BuildError::Contradiction`].

use vstd::prelude::*;
use crate::equation::{Category, Equation};
use crate::error::BuildError;
use crate::ratio::{canon_den, canon_num, lemma_canon_val, Ratio};

verus! {

/// A solved coordinate pair, as exact rationals in canonical form.
#[derive(Clone, Copy, Debug, PartialEq, Eq, Structural)]
pub struct Solution {
    /// Value assigned to the unknown `x`.
    pub x: Ratio,
    /// Value assigned to the unknown `y`.
    pub y: Ratio,
}

/// Exactly two equations, order-significant.
#[derive(Clone, Copy, Debug, PartialEq, Eq, Structural)]
pub struct EquationSystem {
    /// The first equation.
    pub first: Equation,
    /// The second equation.
    pub second: Equation,
}

/// Determinant of the coefficient matrix: `x1*y2 - x2*y1`.
pub open spec fn det(e1: Equation, e2: Equation) -> int {
    e1.x_coeff * e2.y_coeff - e2.x_coeff * e1.y_coeff
}

/// Numerator of the eliminated `x` value: `rhs1*y2 - rhs2*y1`.
pub open spec fn x_num(e1: Equation, e2: Equation) -> int {
    e1.rhs * e2.y_coeff - e2.rhs * e1.y_coeff
}

/// Numerator of the eliminated `y` value: `x1*rhs2 - x2*rhs1`.
pub open spec fn y_num(e1: Equation, e2: Equation) -> int {
    e1.x_coeff * e2.rhs - e2.x_coeff * e1.rhs
}

/// What the resolver returns for each cell of the category matrix.
pub open spec fn resolves_to(e1: Equation, e2: Equation, r: Result<
    Solution,
    BuildError,
>) -> bool {
    match (e1.spec_classify(), e2.spec_classify()) {
        (Category::Degenerate, Category::Degenerate) => r matches Ok(s) && s.x.is_canon(0, 1)
            && s.y.is_canon(0, 1),
        (Category::Degenerate, Category::YOnly) => r matches Ok(s) && s.x.is_canon(0, 1)
            && s.y.is_canon(e2.rhs as int, e2.y_coeff as int),
        (Category::Degenerate, Category::XOnly) => r matches Ok(s) && s.x.is_canon(
            e2.rhs as int,
            e2.x_coeff as int,
        ) && s.y.is_canon(0, 1),
        (Category::Degenerate, Category::General) => r == Err::<Solution, BuildError>(
            BuildError::Underdetermined,
        ),
        (Category::YOnly, Category::Degenerate) => r matches Ok(s) && s.x.is_canon(0, 1)
            && s.y.is_canon(e1.rhs as int, e1.y_coeff as int),
        (Category::XOnly, Category::Degenerate) => r matches Ok(s) && s.x.is_canon(
            e1.rhs as int,
            e1.x_coeff as int,
        ) && s.y.is_canon(0, 1),
        (Category::General, Category::Degenerate) => r == Err::<Solution, BuildError>(
            BuildError::Underdetermined,
        ),
        (Category::YOnly, Category::YOnly) => if x_num(e1, e2) == 0 {
            r matches Ok(s) && s.x.is_canon(0, 1) && s.y.is_canon(e1.rhs as int, e1.y_coeff as int)
        } else {
            r == Err::<Solution, BuildError>(BuildError::Contradiction)
        },
        (Category::XOnly, Category::XOnly) => if y_num(e1, e2) == 0 {
            r matches Ok(s) && s.x.is_canon(e1.rhs as int, e1.x_coeff as int) && s.y.is_canon(0, 1)
        } else {
            r == Err::<Solution, BuildError>(BuildError::Contradiction)
        },
        (Category::General, Category::General) => if det(e1, e2) == 0 {
            if e1.x_coeff * e2.rhs == e2.x_coeff * e1.rhs {
                r == Err::<Solution, BuildError>(BuildError::Underdetermined)
            } else {
                r == Err::<Solution, BuildError>(BuildError::Contradiction)
            }
        } else {
            r matches Ok(s) && s.x.is_canon(x_num(e1, e2), det(e1, e2)) && s.y.is_canon(
                y_num(e1, e2),
                det(e1, e2),
            )
        },
        _ => r matches Ok(s) && s.x.is_canon(x_num(e1, e2), det(e1, e2)) && s.y.is_canon(
            y_num(e1, e2),
            det(e1, e2),
        ),
    }
}

/// The rational pair `(x, y)` satisfies `a*x + b*y = r`, stated by
/// cross-multiplication so that no division appears.
pub open spec fn satisfies(e: Equation, x: Ratio, y: Ratio) -> bool {
    e.x_coeff * x.num * y.den + e.y_coeff * y.num * x.den == e.rhs * x.den * y.den
}

/// Products of two 32-bit values stay far inside the 128-bit range.
proof fn lemma_i32_prod_bound(a: int, b: int)
    by (nonlinear_arith)
    requires
        -0x8000_0000 <= a <= 0x7fff_ffff,
        -0x8000_0000 <= b <= 0x7fff_ffff,
    ensures
        -0x4000_0000_0000_0000 <= a * b <= 0x4000_0000_0000_0000,
{
}

/// A product of two nonzero integers is nonzero.
proof fn lemma_nonzero_prod(a: int, b: int)
    by (nonlinear_arith)
    requires
        a != 0,
        b != 0,
    ensures
        a * b != 0,
{
}

/// A product with a zero factor vanishes.
proof fn lemma_zero_prod(a: int, b: int)
    by (nonlinear_arith)
    requires
        a == 0 || b == 0,
    ensures
        a * b == 0,
{
}

/// General 2x2 elimination for a pair of equations whose determinant is
/// nonzero: `x = (rhs1*y2 - rhs2*y1)/D`, `y = (x1*rhs2 - x2*rhs1)/D`.
fn cramer(e1: &Equation, e2: &Equation) -> (s: Solution)
    requires
        det(*e1, *e2) != 0,
    ensures
        s.x.is_canon(x_num(*e1, *e2), det(*e1, *e2)),
        s.y.is_canon(y_num(*e1, *e2), det(*e1, *e2)),
{
    let x1 = e1.x_coeff as i128;
    let y1 = e1.y_coeff as i128;
    let r1 = e1.rhs as i128;
    let x2 = e2.x_coeff as i128;
    let y2 = e2.y_coeff as i128;
    let r2 = e2.rhs as i128;
    proof {
        lemma_i32_prod_bound(x1 as int, y2 as int);
        lemma_i32_prod_bound(x2 as int, y1 as int);
        lemma_i32_prod_bound(r1 as int, y2 as int);
        lemma_i32_prod_bound(r2 as int, y1 as int);
        lemma_i32_prod_bound(x1 as int, r2 as int);
        lemma_i32_prod_bound(x2 as int, r1 as int);
    }
    let d = x1 * y2 - x2 * y1;
    let xn = r1 * y2 - r2 * y1;
    let yn = x1 * r2 - x2 * r1;
    Solution { x: Ratio::new(xn, d), y: Ratio::new(yn, d) }
}

impl EquationSystem {
    /// Both equations passed validation.
    pub open spec fn wf(self) -> bool {
        self.first.wf() && self.second.wf()
    }

    /// Assemble a system from the parsed equations; exactly two are required.
    pub fn new(eqs: Vec<Equation>) -> (r: Result<EquationSystem, BuildError>)
        requires
            forall|i: int| 0 <= i < eqs@.len() ==> eqs@[i].wf(),
        ensures
            eqs@.len() == 2 ==> r == Ok::<EquationSystem, BuildError>(
                EquationSystem { first: eqs@[0], second: eqs@[1] },
            ),
            eqs@.len() != 2 ==> r == Err::<EquationSystem, BuildError>(BuildError::ArityError),
            r is Ok ==> r->Ok_0.wf(),
    {
        if eqs.len() != 2 {
            return Err(BuildError::ArityError);
        }
        Ok(EquationSystem { first: eqs[0], second: eqs[1] })
    }

    /// Solve the system, dispatching on the pair of categories.
    ///
    /// Cells with a unique solution are answered by general elimination; a
    /// cell that leaves an axis unconstrained reports `0` for it by
    /// documented convention; the rest fail with a diagnostic, per
    /// [`resolves_to`].
    pub fn solve(&self) -> (r: Result<Solution, BuildError>)
        requires
            self.wf(),
        ensures
            resolves_to(self.first, self.second, r),
    {
        let e1 = &self.first;
        let e2 = &self.second;
        match (e1.classify(), e2.classify()) {
            (Category::Degenerate, Category::Degenerate) => Ok(
                Solution { x: Ratio::new(0, 1), y: Ratio::new(0, 1) },
            ),
            (Category::Degenerate, Category::YOnly) => Ok(
                Solution {
                    x: Ratio::new(0, 1),
                    y: Ratio::new(e2.rhs as i128, e2.y_coeff as i128),
                },
            ),
            (Category::Degenerate, Category::XOnly) => Ok(
                Solution {
                    x: Ratio::new(e2.rhs as i128, e2.x_coeff as i128),
                    y: Ratio::new(0, 1),
                },
            ),
            (Category::Degenerate, Category::General) => Err(BuildError::Underdetermined),
            (Category::YOnly, Category::Degenerate) => Ok(
                Solution {
                    x: Ratio::new(0, 1),
                    y: Ratio::new(e1.rhs as i128, e1.y_coeff as i128),
                },
            ),
            (Category::XOnly, Category::Degenerate) => Ok(
                Solution {
                    x: Ratio::new(e1.rhs as i128, e1.x_coeff as i128),
                    y: Ratio::new(0, 1),
                },
            ),
            (Category::General, Category::Degenerate) => Err(BuildError::Underdetermined),
            (Category::YOnly, Category::YOnly) => {
                proof {
                    lemma_i32_prod_bound(e1.rhs as int, e2.y_coeff as int);
                    lemma_i32_prod_bound(e2.rhs as int, e1.y_coeff as int);
                }
                let lhs = (e1.rhs as i128) * (e2.y_coeff as i128);
                let rhs = (e2.rhs as i128) * (e1.y_coeff as i128);
                if lhs == rhs {
                    Ok(
                        Solution {
                            x: Ratio::new(0, 1),
                            y: Ratio::new(e1.rhs as i128, e1.y_coeff as i128),
                        },
                    )
                } else {
                    Err(BuildError::Contradiction)
                }
            },
            (Category::XOnly, Category::XOnly) => {
                proof {
                    lemma_i32_prod_bound(e1.x_coeff as int, e2.rhs as int);
                    lemma_i32_prod_bound(e2.x_coeff as int, e1.rhs as int);
                }
                let lhs = (e1.x_coeff as i128) * (e2.rhs as i128);
                let rhs = (e2.x_coeff as i128) * (e1.rhs as i128);
                if lhs == rhs {
                    Ok(
                        Solution {
                            x: Ratio::new(e1.rhs as i128, e1.x_coeff as i128),
                            y: Ratio::new(0, 1),
                        },
                    )
                } else {
                    Err(BuildError::Contradiction)
                }
            },
            (Category::General, Category::General) => {
                proof {
                    lemma_i32_prod_bound(e1.x_coeff as int, e2.y_coeff as int);
                    lemma_i32_prod_bound(e2.x_coeff as int, e1.y_coeff as int);
                    lemma_i32_prod_bound(e1.x_coeff as int, e2.rhs as int);
                    lemma_i32_prod_bound(e2.x_coeff as int, e1.rhs as int);
                }
                let d = (e1.x_coeff as i128) * (e2.y_coeff as i128) - (e2.x_coeff as i128) * (
                e1.y_coeff as i128);
                if d == 0 {
                    let lhs = (e1.x_coeff as i128) * (e2.rhs as i128);
                    let rhs = (e2.x_coeff as i128) * (e1.rhs as i128);
                    if lhs == rhs {
                        Err(BuildError::Underdetermined)
                    } else {
                        Err(BuildError::Contradiction)
                    }
                } else {
                    Ok(cramer(e1, e2))
                }
            },
            (Category::YOnly, Category::XOnly) => {
                proof {
                    lemma_zero_prod(e1.x_coeff as int, e2.y_coeff as int);
                    lemma_nonzero_prod(e2.x_coeff as int, e1.y_coeff as int);
                }
                Ok(cramer(e1, e2))
            },
            (Category::XOnly, Category::YOnly) => {
                proof {
                    lemma_zero_prod(e2.x_coeff as int, e1.y_coeff as int);
                    lemma_nonzero_prod(e1.x_coeff as int, e2.y_coeff as int);
                }
                Ok(cramer(e1, e2))
            },
            (Category::YOnly, Category::General) => {
                proof {
                    lemma_zero_prod(e1.x_coeff as int, e2.y_coeff as int);
                    lemma_nonzero_prod(e2.x_coeff as int, e1.y_coeff as int);
                }
                Ok(cramer(e1, e2))
            },
            (Category::General, Category::YOnly) => {
                proof {
                    lemma_zero_prod(e2.x_coeff as int, e1.y_coeff as int);
                    lemma_nonzero_prod(e1.x_coeff as int, e2.y_coeff as int);
                }
                Ok(cramer(e1, e2))
            },
            (Category::XOnly, Category::General) => {
                proof {
                    lemma_zero_prod(e2.x_coeff as int, e1.y_coeff as int);
                    lemma_nonzero_prod(e1.x_coeff as int, e2.y_coeff as int);
                }
                Ok(cramer(e1, e2))
            },
            (Category::General, Category::XOnly) => {
                proof {
                    lemma_zero_prod(e1.x_coeff as int, e2.y_coeff as int);
                    lemma_nonzero_prod(e2.x_coeff as int, e1.y_coeff as int);
                }
                Ok(cramer(e1, e2))
            },
        }
    }
}

/// A solution produced by elimination with a nonzero determinant satisfies
/// both original equations exactly — stronger than the floating-point
/// tolerance the surrounding code generator could check.
pub proof fn lemma_unique_solution_satisfies(e1: Equation, e2: Equation, s: Solution)
    requires
        det(e1, e2) != 0,
        s.x.is_canon(x_num(e1, e2), det(e1, e2)),
        s.y.is_canon(y_num(e1, e2), det(e1, e2)),
    ensures
        satisfies(e1, s.x, s.y),
        satisfies(e2, s.x, s.y),
{
    let dd = det(e1, e2);
    let xv = x_num(e1, e2);
    let yv = y_num(e1, e2);
    lemma_canon_val(xv, dd);
    lemma_canon_val(yv, dd);
    let xn = s.x.num as int;
    let xd = s.x.den as int;
    let yn = s.y.num as int;
    let yd = s.y.den as int;
    assert(xn * dd == xv * xd);
    assert(yn * dd == yv * yd);
    let x1 = e1.x_coeff as int;
    let y1 = e1.y_coeff as int;
    let r1 = e1.rhs as int;
    let x2 = e2.x_coeff as int;
    let y2 = e2.y_coeff as int;
    let r2 = e2.rhs as int;
    assert(x1 * xv + y1 * yv == r1 * dd) by (nonlinear_arith)
        requires
            xv == r1 * y2 - r2 * y1,
            yv == x1 * r2 - x2 * r1,
            dd == x1 * y2 - x2 * y1,
    ;
    assert(x2 * xv + y2 * yv == r2 * dd) by (nonlinear_arith)
        requires
            xv == r1 * y2 - r2 * y1,
            yv == x1 * r2 - x2 * r1,
            dd == x1 * y2 - x2 * y1,
    ;
    lemma_cramer_row(x1, y1, r1, xn, xd, yn, yd, xv, yv, dd);
    lemma_cramer_row(x2, y2, r2, xn, xd, yn, yd, xv, yv, dd);
}

/// One row of the elimination argument: if the pair `(xn/xd, yn/yd)` carries
/// the values `xv/dd` and `yv/dd`, and the row identity
/// `a*xv + b*yv == r*dd` holds, then the pair satisfies `a*x + b*y = r`.
proof fn lemma_cramer_row(
    a: int,
    b: int,
    r: int,
    xn: int,
    xd: int,
    yn: int,
    yd: int,
    xv: int,
    yv: int,
    dd: int,
)
    requires
        dd != 0,
        xn * dd == xv * xd,
        yn * dd == yv * yd,
        a * xv + b * yv == r * dd,
    ensures
        a * xn * yd + b * yn * xd == r * xd * yd,
{
    let u = a * xn * yd;
    let v = b * yn * xd;
    lemma_add_distrib(u, v, dd);
    lemma_mul_shuffle(a, xn, yd, dd);
    lemma_mul_shuffle(b, yn, xd, dd);
    assert((a * yd) * (xn * dd) == (a * yd) * (xv * xd));
    assert((b * xd) * (yn * dd) == (b * xd) * (yv * yd));
    lemma_mul_pair(a, yd, xv, xd);
    lemma_mul_pair(b, xd, yv, yd);
    assert(yd * xd == xd * yd) by (nonlinear_arith);
    lemma_add_distrib(a * xv, b * yv, xd * yd);
    assert((a * xv + b * yv) * (xd * yd) == (r * dd) * (xd * yd));
    lemma_mul_pair(r, dd, xd, yd);
    let s = r * xd;
    lemma_mul_assoc(s, yd, dd);
    assert((u + v) * dd == (r * xd * yd) * dd);
    assert(u + v == r * xd * yd) by (nonlinear_arith)
        requires
            (u + v) * dd == (r * xd * yd) * dd,
            dd != 0,
    ;
}

/// Multiplication distributes over a sum.
proof fn lemma_add_distrib(u: int, v: int, w: int)
    by (nonlinear_arith)
    ensures
        (u + v) * w == u * w + v * w,
{
}

/// Regroup a product of four factors.
proof fn lemma_mul_shuffle(p: int, q: int, s: int, t: int)
    by (nonlinear_arith)
    ensures
        (p * q * s) * t == (p * s) * (q * t),
{
}

/// Exchange factors across a product of two pairs.
proof fn lemma_mul_pair(p: int, q: int, s: int, t: int)
    by (nonlinear_arith)
    ensures
        (p * q) * (s * t) == (p * s) * (t * q),
{
}

/// Multiplication is associative.
proof fn lemma_mul_assoc(p: int, q: int, s: int)
    by (nonlinear_arith)
    ensures
        p * (q * s) == (p * q) * s,
{
}

/// Round trip: a `(YOnly, XOnly)` system with unit coefficients,
/// `{x: 0, y: 1, rhs: r1}` and `{x: 1, y: 0, rhs: r2}`, resolves to exactly
/// the integer pair `(r2, r1)`.
pub proof fn lemma_round_trip(e1: Equation, e2: Equation, s: Solution)
    requires
        e1.x_coeff == 0,
        e1.y_coeff == 1,
        e2.x_coeff == 1,
        e2.y_coeff == 0,
        resolves_to(e1, e2, Ok(s)),
    ensures
        s.x.num == e2.rhs as int,
        s.x.den == 1,
        s.y.num == e1.rhs as int,
        s.y.den == 1,
{
    let r1 = e1.rhs as int;
    let r2 = e2.rhs as int;
    assert(e1.spec_classify() == Category::YOnly);
    assert(e2.spec_classify() == Category::XOnly);
    assert(det(e1, e2) == -1) by (nonlinear_arith)
        requires
            det(e1, e2) == e1.x_coeff * e2.y_coeff - e2.x_coeff * e1.y_coeff,
            e1.x_coeff == 0,
            e1.y_coeff == 1,
            e2.x_coeff == 1,
            e2.y_coeff == 0,
    ;
    assert(x_num(e1, e2) == -r2 && y_num(e1, e2) == -r1) by (nonlinear_arith)
        requires
            x_num(e1, e2) == e1.rhs * e2.y_coeff - e2.rhs * e1.y_coeff,
            y_num(e1, e2) == e1.x_coeff * e2.rhs - e2.x_coeff * e1.rhs,
            e1.x_coeff == 0,
            e1.y_coeff == 1,
            e2.x_coeff == 1,
            e2.y_coeff == 0,
            r1 == e1.rhs,
            r2 == e2.rhs,
    ;
    lemma_canon_neg_unit(r2);
    lemma_canon_neg_unit(r1);
}

/// The canonical form of `-n / -1` is the integer `n` over 1.
proof fn lemma_canon_neg_unit(n: int)
    ensures
        canon_num(-n, -1) == n,
        canon_den(-n, -1) == 1,
{
    crate::gcd::lemma_gcd_one(crate::ratio::abs_int(-n) as nat);
    assert(crate::ratio::common(-n, -1) == 1);
}

/// Two identical general equations with different right-hand sides are
/// parallel, non-intersecting lines: the resolver fails with `Contradiction`.
pub proof fn lemma_identical_coefficients_contradict(
    e1: Equation,
    e2: Equation,
    r: Result<Solution, BuildError>,
)
    requires
        e1.spec_classify() == Category::General,
        e2.spec_classify() == Category::General,
        e1.x_coeff == e2.x_coeff,
        e1.y_coeff == e2.y_coeff,
        e1.rhs != e2.rhs,
        resolves_to(e1, e2, r),
    ensures
        r == Err::<Solution, BuildError>(BuildError::Contradiction),
{
    assert(det(e1, e2) == 0) by (nonlinear_arith)
        requires
            det(e1, e2) == e1.x_coeff * e2.y_coeff - e2.x_coeff * e1.y_coeff,
            e1.x_coeff == e2.x_coeff,
            e1.y_coeff == e2.y_coeff,
    ;
    assert(e1.x_coeff * e2.rhs != e2.x_coeff * e1.rhs) by (nonlinear_arith)
        requires
            e1.x_coeff == e2.x_coeff,
            e1.x_coeff != 0,
            e1.rhs != e2.rhs,
    ;
}

} // verus!
