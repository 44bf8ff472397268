use numerical_analysis_rs::lp::{ConstraintKind, LinearProblem, LinearProblemError};
use numerical_analysis_rs::rational::Rat;

fn rats(nums: &[i64]) -> Vec<Rat> {
    let mut v = Vec::new();
    for &n in nums {
        v.push(Rat::from_int(n));
    }
    v
}

#[test]
fn objective_required() {
    let r = LinearProblem::builder(2)
        .constraint(rats(&[1, 1]), ConstraintKind::Less, Rat::from_int(4))
        .build();
    match r {
        Err(e) => assert_eq!(e, LinearProblemError::ObjectiveRequired),
        Ok(_) => panic!("building without an objective must fail"),
    }
}

#[test]
fn objective_required_without_constraints() {
    let r = LinearProblem::builder(3).build();
    match r {
        Err(e) => assert_eq!(e, LinearProblemError::ObjectiveRequired),
        Ok(_) => panic!("building without an objective must fail"),
    }
}

#[test]
fn build_with_objective() {
    let p = LinearProblem::builder(2)
        .constraint(rats(&[1, 1]), ConstraintKind::Less, Rat::from_int(4))
        .constraint(rats(&[1, 0]), ConstraintKind::Less, Rat::from_int(2))
        .objective(rats(&[-3, -2]))
        .build()
        .unwrap();
    assert_eq!(p.n_constraints(), 2);
    assert_eq!(p.n_vars, 2);
    assert_eq!(p.objective.coefs, rats(&[-3, -2]));
    assert_eq!(p.constraints[0].coefs, rats(&[1, 1]));
    assert_eq!(p.constraints[0].rhs, Rat::from_int(4));
    assert_eq!(p.constraints[1].coefs, rats(&[1, 0]));
    assert_eq!(p.constraints[1].rhs, Rat::from_int(2));
}

#[test]
fn objective_overwrites_earlier_one() {
    let p = LinearProblem::builder(1)
        .objective(rats(&[5]))
        .objective(rats(&[-7]))
        .build()
        .unwrap();
    assert_eq!(p.objective.coefs, rats(&[-7]));
}
