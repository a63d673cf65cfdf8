use linsys::equation::{Category, Equation};
use linsys::error::BuildError;
use linsys::ratio::Ratio;
use linsys::system::{EquationSystem, Solution};

fn eq(x: i32, y: i32, r: i32) -> Equation {
    Equation::validate(x, y, r).expect("equation must validate")
}

fn solve2(e1: Equation, e2: Equation) -> Result<Solution, BuildError> {
    let sys = EquationSystem::new(vec![e1, e2]).expect("two equations");
    sys.solve()
}

fn ratio(num: i128, den: i128) -> Ratio {
    Ratio { num, den }
}

#[test]
fn validate_accepts_trivial_identity() {
    let e = Equation::validate(0, 0, 0).expect("0 = 0 is fine");
    assert_eq!(e.x_coeff, 0);
    assert_eq!(e.y_coeff, 0);
    assert_eq!(e.rhs, 0);
}

#[test]
fn validate_rejects_contradictory_identity() {
    assert_eq!(Equation::validate(0, 0, 5), Err(BuildError::ContradictoryIdentity));
    assert_eq!(Equation::validate(0, 0, -1), Err(BuildError::ContradictoryIdentity));
}

#[test]
fn validate_keeps_ordinary_equations_unchanged() {
    let e = Equation::validate(3, -4, 7).expect("ordinary equation");
    assert_eq!(e, Equation { x_coeff: 3, y_coeff: -4, rhs: 7 });
}

#[test]
fn classify_covers_all_four_categories() {
    assert_eq!(eq(0, 0, 0).classify(), Category::Degenerate);
    assert_eq!(eq(0, 2, 1).classify(), Category::YOnly);
    assert_eq!(eq(-3, 0, 1).classify(), Category::XOnly);
    assert_eq!(eq(1, -1, 1).classify(), Category::General);
}

#[test]
fn arity_one_equation_fails() {
    let r = EquationSystem::new(vec![eq(1, 1, 1)]);
    assert_eq!(r, Err(BuildError::ArityError));
}

#[test]
fn arity_three_equations_fail() {
    let r = EquationSystem::new(vec![eq(1, 1, 1), eq(1, 2, 3), eq(0, 1, 2)]);
    assert_eq!(r, Err(BuildError::ArityError));
}

#[test]
fn arity_two_equations_accepted() {
    let sys = EquationSystem::new(vec![eq(1, 1, 1), eq(1, 2, 3)]).expect("two equations");
    assert_eq!(sys.first, eq(1, 1, 1));
    assert_eq!(sys.second, eq(1, 2, 3));
}

#[test]
fn scenario_general_pair() {
    // 1*x + 1*y = 2, 2*x + 1*y = 9 has the unique solution (7, -5).
    let s = solve2(eq(1, 1, 2), eq(2, 1, 9)).expect("unique solution");
    assert_eq!(s.x, ratio(7, 1));
    assert_eq!(s.y, ratio(-5, 1));
}

#[test]
fn scenario_single_axis_pair() {
    // 0*x + 1*y = 5, 1*x + 0*y = 3 pins y then x: (3, 5).
    let s = solve2(eq(0, 1, 5), eq(1, 0, 3)).expect("unique solution");
    assert_eq!(s.x, ratio(3, 1));
    assert_eq!(s.y, ratio(5, 1));
}

#[test]
fn scenario_trivial_identities() {
    // 0 = 0 twice constrains nothing; the canonical output is (0, 0).
    let s = solve2(eq(0, 0, 0), eq(0, 0, 0)).expect("canonical output");
    assert_eq!(s.x, ratio(0, 1));
    assert_eq!(s.y, ratio(0, 1));
}

#[test]
fn scenario_proportional_consistent_fails() {
    // 1*x + 1*y = 4 and 2*x + 2*y = 8 are coincident: infinitely many
    // solutions, and the resolver refuses to pick one.
    let r = solve2(eq(1, 1, 4), eq(2, 2, 8));
    assert_eq!(r, Err(BuildError::Underdetermined));
}

#[test]
fn identical_equations_different_rhs_contradict() {
    let r = solve2(eq(1, 2, 3), eq(1, 2, 4));
    assert_eq!(r, Err(BuildError::Contradiction));
}

#[test]
fn round_trip_unit_coefficients() {
    // {x: 0, y: 1, rhs: r1} and {x: 1, y: 0, rhs: r2} resolve to (r2, r1).
    let r1 = 11;
    let r2 = -4;
    let s = solve2(eq(0, 1, r1), eq(1, 0, r2)).expect("unique solution");
    assert_eq!(s.x, ratio(r2 as i128, 1));
    assert_eq!(s.y, ratio(r1 as i128, 1));
}

fn check_satisfies(e: Equation, s: &Solution) {
    let a = e.x_coeff as i128;
    let b = e.y_coeff as i128;
    let r = e.rhs as i128;
    assert_eq!(
        a * s.x.num * s.y.den + b * s.y.num * s.x.den,
        r * s.x.den * s.y.den,
        "solution must satisfy the original equation exactly"
    );
}

#[test]
fn general_solution_satisfies_both_equations() {
    let cases = [
        (eq(3, -2, 7), eq(5, 4, -1)),
        (eq(1, 999, 123), eq(-999, 1, -456)),
        (eq(2, 2, 2), eq(4, 2, 10)),
        (eq(-7, 11, 0), eq(13, -5, 999)),
    ];
    for (e1, e2) in cases {
        let s = solve2(e1, e2).expect("determinant is nonzero");
        check_satisfies(e1, &s);
        check_satisfies(e2, &s);
        assert!(s.x.den > 0 && s.y.den > 0);
    }
}

#[test]
fn fractional_solution_is_reduced() {
    // 2*x + 0*y = 3 and 0*x + 2*y = 5: x = 3/2, y = 5/2 in lowest terms.
    let s = solve2(eq(2, 0, 3), eq(0, 2, 5)).expect("unique solution");
    assert_eq!(s.x, ratio(3, 2));
    assert_eq!(s.y, ratio(5, 2));
}

#[test]
fn float_rendering_of_solution() {
    let s = solve2(eq(1, 1, 2), eq(2, 1, 9)).expect("unique solution");
    let x = s.x.num as f32 / s.x.den as f32;
    let y = s.y.num as f32 / s.y.den as f32;
    assert_eq!(x, 7.0);
    assert_eq!(y, -5.0);
}

#[test]
fn degenerate_with_single_axis_uses_convention() {
    let s = solve2(eq(0, 0, 0), eq(0, 2, 5)).expect("convention output");
    assert_eq!(s.x, ratio(0, 1));
    assert_eq!(s.y, ratio(5, 2));

    let s = solve2(eq(3, 0, 6), eq(0, 0, 0)).expect("convention output");
    assert_eq!(s.x, ratio(2, 1));
    assert_eq!(s.y, ratio(0, 1));
}

#[test]
fn degenerate_with_general_is_underdetermined() {
    assert_eq!(solve2(eq(0, 0, 0), eq(1, 1, 2)), Err(BuildError::Underdetermined));
    assert_eq!(solve2(eq(1, 1, 2), eq(0, 0, 0)), Err(BuildError::Underdetermined));
}

#[test]
fn same_axis_pair_agreeing() {
    // y = 2 both times; x is unconstrained and reported as 0 by convention.
    let s = solve2(eq(0, 2, 4), eq(0, 3, 6)).expect("consistent");
    assert_eq!(s.x, ratio(0, 1));
    assert_eq!(s.y, ratio(2, 1));

    let s = solve2(eq(2, 0, 4), eq(3, 0, 6)).expect("consistent");
    assert_eq!(s.x, ratio(2, 1));
    assert_eq!(s.y, ratio(0, 1));
}

#[test]
fn same_axis_pair_disagreeing() {
    assert_eq!(solve2(eq(0, 2, 4), eq(0, 2, 5)), Err(BuildError::Contradiction));
    assert_eq!(solve2(eq(2, 0, 4), eq(2, 0, 5)), Err(BuildError::Contradiction));
}

#[test]
fn single_axis_with_general() {
    // y = 5 from the first equation, then x + 5 = 7 gives x = 2.
    let s = solve2(eq(0, 1, 5), eq(1, 1, 7)).expect("unique solution");
    assert_eq!(s.x, ratio(2, 1));
    assert_eq!(s.y, ratio(5, 1));

    let s = solve2(eq(1, 1, 7), eq(0, 1, 5)).expect("unique solution");
    assert_eq!(s.x, ratio(2, 1));
    assert_eq!(s.y, ratio(5, 1));
}

#[test]
fn parallel_distinct_general_pair_contradicts() {
    // Proportional coefficients, right-hand sides off the proportion.
    assert_eq!(solve2(eq(1, 1, 4), eq(2, 2, 9)), Err(BuildError::Contradiction));
}

#[test]
fn error_messages_match_diagnostics() {
    assert_eq!(BuildError::ContradictoryIdentity.message(), "invalid equal");
    assert_eq!(BuildError::ArityError.message(), "require two formula");
    assert_eq!(BuildError::Underdetermined.message(), "no solution");
    assert_eq!(BuildError::Contradiction.message(), "no solution");
    assert_eq!(BuildError::DuplicateAttribute.message(), "redundant attribute argument");
}

#[test]
fn signed_y_coefficient_folds_sign() {
    assert_eq!(linsys::equation::signed_y_coeff(3, false), 3);
    assert_eq!(linsys::equation::signed_y_coeff(3, true), -3);
    assert_eq!(linsys::equation::signed_y_coeff(0, true), 0);
}

#[test]
fn ratio_reduction_examples() {
    assert_eq!(Ratio::new(6, 4), ratio(3, 2));
    assert_eq!(Ratio::new(-6, 4), ratio(-3, 2));
    assert_eq!(Ratio::new(6, -4), ratio(-3, 2));
    assert_eq!(Ratio::new(-6, -4), ratio(3, 2));
    assert_eq!(Ratio::new(0, -7), ratio(0, 1));
}
