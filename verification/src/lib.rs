//! Build-time resolver for a linear system of two equations in two unknowns.
//!
//! An [`equation::Equation`] records the integer coefficients and right-hand
//! side of one equation `a*x + b*y = r`.  Each equation is classified by the
//! zero-pattern of its coefficients, and [`system::EquationSystem::solve`]
//! dispatches on the pair of categories, returning an exact rational solution
//! or a diagnostic that aborts code generation.

pub mod equation;
pub mod error;
pub mod gcd;
pub mod ratio;
pub mod system;
pub mod attrmerge;
