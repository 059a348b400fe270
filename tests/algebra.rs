use intpoly::polynomial::Polynomial;

fn poly(c: &[i64]) -> Polynomial {
    Polynomial::of_vec(&c.to_vec())
}

fn coefs(p: &Polynomial) -> Vec<i64> {
    p.coefficients().clone()
}

fn value_at(p: &Polynomial, x: i64) -> i64 {
    let mut total: i64 = 0;
    let mut power: i64 = 1;
    for c in p.coefficients() {
        total += c * power;
        power *= x;
    }
    total
}

fn same_at_every_exponent(a: &[i64], b: &[i64]) -> bool {
    let n = a.len().max(b.len());
    (0..n).all(|i| a.get(i).copied().unwrap_or(0) == b.get(i).copied().unwrap_or(0))
}

#[test]
fn new_is_empty_and_zero() {
    let p = Polynomial::new();
    assert!(coefs(&p).is_empty());
    assert!(p.is_zero());
    assert_eq!(p.var_name(), "p");
}

#[test]
fn of_vec_copies_verbatim() {
    let p = poly(&[1, 2, 3, 0, 0]);
    assert_eq!(coefs(&p), vec![1, 2, 3, 0, 0]);
    assert_eq!(p.var_name(), "p");
}

#[test]
fn monomial_places_one_coefficient() {
    assert_eq!(coefs(&Polynomial::monomial(5, 3)), vec![0, 0, 0, 5]);
    assert_eq!(coefs(&Polynomial::monomial(7, 0)), vec![7]);
    assert_eq!(coefs(&Polynomial::monomial(0, 2)), vec![0, 0, 0]);
}

#[test]
fn add_grows_to_longer_operand() {
    let a = poly(&[1, 2]);
    let b = poly(&[3, 4, 5]);
    assert_eq!(coefs(&a.add(&b)), vec![4, 6, 5]);
    assert_eq!(coefs(&b.add(&a)), vec![4, 6, 5]);
    assert_eq!(coefs(&poly(&[1, 2, 3]).add(&poly(&[1]))), vec![2, 2, 3]);
    assert_eq!(coefs(&a), vec![1, 2]);
    assert_eq!(coefs(&b), vec![3, 4, 5]);
}

#[test]
fn sub_grows_to_longer_operand() {
    let a = poly(&[1, 2]);
    let b = poly(&[3, 4, 5]);
    assert_eq!(coefs(&a.sub(&b)), vec![-2, -2, -5]);
    assert_eq!(coefs(&b.sub(&a)), vec![2, 2, 5]);
}

#[test]
fn add_inplace_mutates_receiver() {
    let mut a = poly(&[1, 2]).with_var_name("t");
    a.add_inplace(&poly(&[3, 4, 5]));
    assert_eq!(coefs(&a), vec![4, 6, 5]);
    assert_eq!(a.var_name(), "t");
    a.add_inplace(&poly(&[1]));
    assert_eq!(coefs(&a), vec![5, 6, 5]);
}

#[test]
fn sub_inplace_mutates_receiver() {
    let mut a = poly(&[1, 2]);
    a.sub_inplace(&poly(&[3, 4, 5]));
    assert_eq!(coefs(&a), vec![-2, -2, -5]);
    a.sub_inplace(&poly(&[-2]));
    assert_eq!(coefs(&a), vec![0, -2, -5]);
}

#[test]
fn mul_is_convolution() {
    assert_eq!(coefs(&poly(&[1, 1]).mul(&poly(&[1, 1]))), vec![1, 2, 1]);
    assert_eq!(coefs(&poly(&[1, 2, 3]).mul(&poly(&[4, 5]))), vec![4, 13, 22, 15]);
    assert_eq!(coefs(&poly(&[2, 0, 0]).mul(&poly(&[3]))), vec![6, 0, 0]);
}

#[test]
fn mul_with_empty_is_empty() {
    assert!(coefs(&Polynomial::new().mul(&poly(&[1, 2]))).is_empty());
    assert!(coefs(&poly(&[1, 2]).mul(&Polynomial::new())).is_empty());
}

#[test]
fn pow_repeats_multiplication() {
    assert_eq!(coefs(&poly(&[1, 1]).pow(3)), vec![1, 3, 3, 1]);
    assert_eq!(coefs(&poly(&[0, 2]).pow(4)), vec![0, 0, 0, 0, 16]);
    assert_eq!(coefs(&poly(&[1, -1]).pow(2)), vec![1, -2, 1]);
}

#[test]
fn pow_zero_and_one() {
    let p = poly(&[3, 0, -2]);
    assert_eq!(coefs(&p.pow(0)), vec![1]);
    assert_eq!(coefs(&p.pow(1)), vec![3, 0, -2]);
    assert_eq!(coefs(&Polynomial::new().pow(0)), vec![1]);
}

#[test]
fn apply_composes() {
    let f = poly(&[1, 0, 1]);
    let g = poly(&[1, 1]);
    assert_eq!(coefs(&f.apply(&g)), vec![2, 2, 1]);
    let h = poly(&[0, 1]);
    assert_eq!(coefs(&poly(&[4, -3, 2]).apply(&h)), vec![4, -3, 2]);
    assert!(coefs(&Polynomial::new().apply(&g)).is_empty());
}

#[test]
fn differentiate_drops_constant() {
    assert_eq!(coefs(&poly(&[5, 3, 2, 7]).differentiate()), vec![3, 4, 21]);
    assert!(coefs(&poly(&[5]).differentiate()).is_empty());
    assert!(coefs(&Polynomial::new().differentiate()).is_empty());
    assert_eq!(coefs(&poly(&[1, 0, 0]).differentiate()), vec![0, 0]);
}

#[test]
fn is_zero_checks_every_coefficient() {
    assert!(poly(&[0, 0, 0]).is_zero());
    assert!(poly(&[0]).is_zero());
    assert!(!poly(&[0, 0, 1]).is_zero());
    assert!(!poly(&[1, 0, 0]).is_zero());
}

#[test]
fn with_var_name_keeps_coefficients() {
    let p = poly(&[1, 2]);
    let q = p.with_var_name("z");
    assert_eq!(q.var_name(), "z");
    assert_eq!(coefs(&q), vec![1, 2]);
    assert_eq!(p.var_name(), "p");
}

#[test]
fn add_then_subtract_restores() {
    let p = poly(&[1, 2]);
    let q = poly(&[3, 4, 5]);
    let r = p.add(&q).sub(&q);
    assert_eq!(coefs(&r), vec![1, 2, 0]);
    assert!(same_at_every_exponent(&coefs(&r), &coefs(&p)));
    let r2 = q.add(&p).sub(&p);
    assert_eq!(coefs(&r2), vec![3, 4, 5]);
}

#[test]
fn product_evaluates_to_product_of_values() {
    let p = poly(&[1, 2, 3]);
    let q = poly(&[4, 5]);
    let pq = p.mul(&q);
    for x in -3..=3 {
        assert_eq!(value_at(&pq, x), value_at(&p, x) * value_at(&q, x));
    }
    assert_eq!(value_at(&pq, 2), 238);
}

#[test]
fn derivative_matches_power_rule() {
    let p = poly(&[5, 3, 2, 7]);
    let d = p.differentiate();
    // 3 + 4x + 21x^2 at x = 2
    assert_eq!(value_at(&d, 2), 95);
    // difference quotient of a cubic: p(x+1) - p(x-1) = 2 p'(x) + 2 * 7 at integer x
    for x in -3..=3 {
        assert_eq!(value_at(&p, x + 1) - value_at(&p, x - 1), 2 * value_at(&d, x) + 14);
    }
}
