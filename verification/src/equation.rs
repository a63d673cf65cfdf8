//! One equation `a*x + b*y = r` and its classification.

use vstd::prelude::*;
use crate::error::BuildError;

verus! {

/// An immutable record of one equation's coefficients and right-hand side.
#[derive(Clone, Copy, Debug, PartialEq, Eq, Structural)]
pub struct Equation {
    /// Coefficient of the unknown `x`.
    pub x_coeff: i32,
    /// Coefficient of the unknown `y`, sign of the surface `+`/`-` already
    /// folded in.
    pub y_coeff: i32,
    /// Right-hand side.
    pub rhs: i32,
}

/// The shape of one equation, a pure function of its coefficient pair.
#[derive(Clone, Copy, Debug, PartialEq, Eq, Structural)]
pub enum Category {
    /// Both coefficients are zero.
    Degenerate,
    /// Only the `y` coefficient is nonzero.
    YOnly,
    /// Only the `x` coefficient is nonzero.
    XOnly,
    /// Both coefficients are nonzero.
    General,
}

impl Equation {
    /// An equation whose coefficients are both zero must have a zero
    /// right-hand side; [`Equation::validate`] establishes this, and every
    /// later stage relies on it.
    pub open spec fn wf(self) -> bool {
        self.x_coeff == 0 && self.y_coeff == 0 ==> self.rhs == 0
    }

    /// Build an equation, rejecting the unsatisfiable identity `0 = c` with
    /// `c != 0`.  Any other combination is accepted unchanged.
    pub fn validate(x_coeff: i32, y_coeff: i32, rhs: i32) -> (r: Result<Equation, BuildError>)
        ensures
            x_coeff == 0 && y_coeff == 0 && rhs != 0 ==> r == Err::<Equation, BuildError>(
                BuildError::ContradictoryIdentity,
            ),
            !(x_coeff == 0 && y_coeff == 0 && rhs != 0) ==> r == Ok::<Equation, BuildError>(
                Equation { x_coeff, y_coeff, rhs },
            ),
            r is Ok ==> r->Ok_0.wf(),
    {
        if x_coeff == 0 && y_coeff == 0 && rhs != 0 {
            Err(BuildError::ContradictoryIdentity)
        } else {
            Ok(Equation { x_coeff, y_coeff, rhs })
        }
    }

    /// The category of this equation, at the specification level.
    pub open spec fn spec_classify(self) -> Category {
        if self.x_coeff == 0 && self.y_coeff == 0 {
            Category::Degenerate
        } else if self.x_coeff == 0 {
            Category::YOnly
        } else if self.y_coeff == 0 {
            Category::XOnly
        } else {
            Category::General
        }
    }

    /// Classify this equation by the zero-pattern of its coefficients.
    /// Total: every equation falls in exactly one category.
    pub fn classify(&self) -> (c: Category)
        ensures
            c == self.spec_classify(),
    {
        match (self.x_coeff == 0, self.y_coeff == 0) {
            (true, true) => Category::Degenerate,
            (true, false) => Category::YOnly,
            (false, true) => Category::XOnly,
            (false, false) => Category::General,
        }
    }
}

/// Fold the surface sign token into the parsed `y` magnitude: a `-` token
/// negates the magnitude before it is stored as the `y` coefficient.
pub fn signed_y_coeff(magnitude: i32, negative: bool) -> (r: i32)
    requires
        magnitude >= 0,
    ensures
        r == if negative {
            -(magnitude as int)
        } else {
            magnitude as int
        },
{
    if negative {
        -magnitude
    } else {
        magnitude
    }
}

/// The four categories partition all coefficient pairs: every equation is in
/// the category whose defining condition its coefficients meet, and the four
/// conditions are mutually exclusive and exhaustive.
pub proof fn lemma_classify_partition(e: Equation)
    ensures
        e.spec_classify() == Category::Degenerate <==> e.x_coeff == 0 && e.y_coeff == 0,
        e.spec_classify() == Category::YOnly <==> e.x_coeff == 0 && e.y_coeff != 0,
        e.spec_classify() == Category::XOnly <==> e.x_coeff != 0 && e.y_coeff == 0,
        e.spec_classify() == Category::General <==> e.x_coeff != 0 && e.y_coeff != 0,
{
}

} // verus!
