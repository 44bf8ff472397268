use numerical_analysis_rs::rational::{
    copy_rats, rat_add, rat_div, rat_le, rat_lt, rat_mul, rat_sub, Rat,
};

#[test]
fn add_exact() {
    let r = rat_add(Rat::new(1, 2), Rat::new(1, 3)).unwrap();
    assert_eq!(r, Rat::new(5, 6));
}

#[test]
fn sub_exact() {
    let r = rat_sub(Rat::new(1, 2), Rat::new(1, 3)).unwrap();
    assert_eq!(r, Rat::new(1, 6));
}

#[test]
fn mul_exact() {
    let r = rat_mul(Rat::new(-2, 3), Rat::new(3, 4)).unwrap();
    assert_eq!(r, Rat::new(-6, 12));
}

#[test]
fn div_exact() {
    let r = rat_div(Rat::new(1, 2), Rat::new(3, 5)).unwrap();
    assert_eq!(r, Rat::new(5, 6));
}

#[test]
fn div_by_negative_keeps_denominator_positive() {
    let r = rat_div(Rat::from_int(1), Rat::new(-2, 1)).unwrap();
    assert_eq!(r, Rat::new(-1, 2));
    assert!(r.den > 0);
}

#[test]
fn add_overflow_is_none() {
    assert_eq!(rat_add(Rat::new(i64::MAX, 1), Rat::new(1, 1)), None);
}

#[test]
fn mul_overflow_is_none() {
    assert_eq!(rat_mul(Rat::new(i64::MAX, 1), Rat::new(2, 1)), None);
}

#[test]
fn compare_across_denominators() {
    assert!(rat_lt(Rat::new(1, 2), Rat::new(2, 3)));
    assert!(!rat_lt(Rat::new(2, 3), Rat::new(1, 2)));
    assert!(rat_le(Rat::new(1, 2), Rat::new(2, 4)));
    assert!(rat_le(Rat::new(2, 4), Rat::new(1, 2)));
}

#[test]
fn copy_preserves_elements() {
    let v = vec![Rat::new(1, 2), Rat::from_int(-3)];
    let c = copy_rats(&v);
    assert_eq!(c, v);
}
