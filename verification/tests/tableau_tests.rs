use numerical_analysis_rs::lp::{ConstraintKind, LinearProblem, LinearProblemError};
use numerical_analysis_rs::rational::Rat;
use numerical_analysis_rs::tableau::{Simplex, SolveStep};

fn rats(nums: &[i64]) -> Vec<Rat> {
    let mut v = Vec::new();
    for &n in nums {
        v.push(Rat::from_int(n));
    }
    v
}

fn sample_problem() -> LinearProblem {
    LinearProblem::builder(2)
        .constraint(rats(&[1, 1]), ConstraintKind::Less, Rat::from_int(4))
        .constraint(rats(&[1, 0]), ConstraintKind::Less, Rat::from_int(2))
        .objective(rats(&[-3, -2]))
        .build()
        .unwrap()
}

#[test]
fn slack_columns_form_identity_block() {
    let s = Simplex::new(sample_problem());
    assert_eq!(s.constraints.len(), 2);
    assert_eq!(s.objective.coefs, rats(&[-3, -2, 0, 0]));
    assert_eq!(s.constraints[0].coefs, rats(&[1, 1, 1, 0]));
    assert_eq!(s.constraints[0].rhs, Rat::from_int(4));
    assert_eq!(s.constraints[1].coefs, rats(&[1, 0, 0, 1]));
    assert_eq!(s.constraints[1].rhs, Rat::from_int(2));
}

#[test]
fn first_pivot_selects_most_negative_column_and_min_ratio_row() {
    let mut s = Simplex::new(sample_problem());
    let step = s.solve().unwrap();
    assert_eq!(step, SolveStep::Continuing { pivot_row: 1, pivot_col: 0 });
}

#[test]
fn pivot_updates_tableau_rows() {
    let mut s = Simplex::new(sample_problem());
    s.solve().unwrap();
    assert_eq!(s.constraints[1].coefs, rats(&[1, 0, 0, 1]));
    assert_eq!(s.constraints[1].rhs, Rat::from_int(2));
    assert_eq!(s.constraints[0].coefs, rats(&[0, 1, 1, -1]));
    assert_eq!(s.constraints[0].rhs, Rat::from_int(2));
    assert_eq!(s.objective.coefs, rats(&[0, -2, 0, 3]));
}

#[test]
fn solve_reaches_optimal() {
    let mut s = Simplex::new(sample_problem());
    assert_eq!(
        s.solve().unwrap(),
        SolveStep::Continuing { pivot_row: 1, pivot_col: 0 }
    );
    assert_eq!(
        s.solve().unwrap(),
        SolveStep::Continuing { pivot_row: 0, pivot_col: 1 }
    );
    assert_eq!(s.solve().unwrap(), SolveStep::Optimal);
    assert_eq!(s.objective.coefs, rats(&[0, 0, 2, 1]));
    assert_eq!(s.constraints[0].rhs, Rat::from_int(2));
    assert_eq!(s.constraints[1].rhs, Rat::from_int(2));
}

#[test]
fn optimal_is_idempotent() {
    let mut s = Simplex::new(sample_problem());
    while s.solve().unwrap() != SolveStep::Optimal {}
    let rows: Vec<(Vec<Rat>, Rat)> = s
        .constraints
        .iter()
        .map(|c| (c.coefs.clone(), c.rhs))
        .collect();
    let obj = s.objective.coefs.clone();
    for _ in 0..3 {
        assert_eq!(s.solve().unwrap(), SolveStep::Optimal);
        for (i, (coefs, rhs)) in rows.iter().enumerate() {
            assert_eq!(&s.constraints[i].coefs, coefs);
            assert_eq!(&s.constraints[i].rhs, rhs);
        }
        assert_eq!(s.objective.coefs, obj);
    }
}

#[test]
fn unbounded_problem_reports_unbound() {
    let p = LinearProblem::builder(1)
        .constraint(rats(&[-1]), ConstraintKind::Less, Rat::from_int(1))
        .objective(rats(&[-1]))
        .build()
        .unwrap();
    let mut s = Simplex::new(p);
    assert_eq!(s.solve(), Err(LinearProblemError::Unbound));
    assert_eq!(s.constraints[0].coefs, rats(&[-1, 1]));
    assert_eq!(s.objective.coefs, rats(&[-1, 0]));
}

#[test]
fn overflowing_ratio_reports_overflow() {
    let p = LinearProblem::builder(1)
        .constraint(
            vec![Rat::new(1, 3)],
            ConstraintKind::Less,
            Rat::from_int(i64::MAX),
        )
        .objective(rats(&[-1]))
        .build()
        .unwrap();
    let mut s = Simplex::new(p);
    assert_eq!(s.solve(), Err(LinearProblemError::Overflow));
    assert_eq!(s.constraints[0].rhs, Rat::from_int(i64::MAX));
}

#[test]
fn problem_without_constraints_is_unbounded() {
    let p = LinearProblem::builder(1)
        .objective(rats(&[-1]))
        .build()
        .unwrap();
    let mut s = Simplex::new(p);
    assert_eq!(s.solve(), Err(LinearProblemError::Unbound));
}

#[test]
fn non_negative_objective_is_immediately_optimal() {
    let p = LinearProblem::builder(2)
        .constraint(rats(&[1, 1]), ConstraintKind::Less, Rat::from_int(4))
        .objective(rats(&[3, 0]))
        .build()
        .unwrap();
    let mut s = Simplex::new(p);
    assert_eq!(s.solve().unwrap(), SolveStep::Optimal);
    assert_eq!(s.constraints[0].coefs, rats(&[1, 1, 1]));
}

#[test]
fn fractional_pivot_is_exact() {
    let p = LinearProblem::builder(1)
        .constraint(rats(&[2]), ConstraintKind::Less, Rat::from_int(3))
        .objective(rats(&[-1]))
        .build()
        .unwrap();
    let mut s = Simplex::new(p);
    assert_eq!(
        s.solve().unwrap(),
        SolveStep::Continuing { pivot_row: 0, pivot_col: 0 }
    );
    assert_eq!(s.constraints[0].rhs, Rat::new(3, 2));
    assert_eq!(s.constraints[0].coefs[0], Rat::new(2, 2));
    assert_eq!(s.solve().unwrap(), SolveStep::Optimal);
}
