use intpoly::modality::{classify, first_change, sign_changes, ModalityClass};
use intpoly::polynomial::Polynomial;

fn poly(c: &[i64]) -> Polynomial {
    Polynomial::of_vec(&c.to_vec())
}

#[test]
fn zero_polynomial_is_zero() {
    let p = poly(&[0]);
    assert_eq!(classify(&p, &vec![0; 11]), ModalityClass::Zero);
    assert_eq!(classify(&Polynomial::new(), &vec![]), ModalityClass::Zero);
}

#[test]
fn constant_polynomial_is_constant() {
    let p = poly(&[5]);
    assert_eq!(classify(&p, &vec![0; 11]), ModalityClass::Constant);
    assert_eq!(classify(&poly(&[5, 0, 0]), &vec![0; 11]), ModalityClass::Constant);
}

#[test]
fn identity_is_nonmodal() {
    // derivative 1 sampled at 0, 0.1, ..., 1
    let p = poly(&[0, 1]);
    assert_eq!(classify(&p, &vec![1; 11]), ModalityClass::Nonmodal);
}

#[test]
fn square_counts_root_at_left_end() {
    // derivative 2x: zero at 0, positive after
    let p = poly(&[0, 0, 1]);
    let mut signs = vec![1; 11];
    signs[0] = 0;
    assert_eq!(classify(&p, &signs), ModalityClass::Unimodal);
    assert_eq!(first_change(&signs), Some(0));
}

#[test]
fn hump_is_unimodal() {
    // derivative 1 - 2x: zero exactly at 0.5
    let p = poly(&[0, 1, -1]);
    assert_eq!(p.differentiate().coefficients().clone(), vec![1, -2]);
    let signs: Vec<i8> = vec![1, 1, 1, 1, 1, 0, -1, -1, -1, -1, -1];
    assert_eq!(sign_changes(&signs), 1);
    assert_eq!(classify(&p, &signs), ModalityClass::Unimodal);
    assert_eq!(first_change(&signs), Some(5));
}

#[test]
fn cubic_with_two_turns_is_multimodal() {
    // derivative 300x^2 - 300x + 63 = 300 (x - 0.3)(x - 0.7)
    let p = poly(&[0, 63, -150, 100]);
    assert_eq!(p.differentiate().coefficients().clone(), vec![63, -300, 300]);
    let signs: Vec<i8> = vec![1, 1, 1, 0, -1, -1, -1, 0, 1, 1, 1];
    assert_eq!(sign_changes(&signs), 2);
    assert_eq!(classify(&p, &signs), ModalityClass::Multimodal);
    assert_eq!(first_change(&signs), Some(3));
}

#[test]
fn sign_changes_edge_cases() {
    assert_eq!(sign_changes(&vec![]), 0);
    assert_eq!(sign_changes(&vec![-1]), 0);
    assert_eq!(sign_changes(&vec![1, 0, 1]), 1);
    assert_eq!(sign_changes(&vec![1, 1, 0]), 0);
    assert_eq!(sign_changes(&vec![1, -1, 1, -1]), 3);
    assert_eq!(first_change(&vec![]), None);
    assert_eq!(first_change(&vec![1, 1, 0]), None);
}

#[test]
fn four_letter_codes() {
    assert_eq!(ModalityClass::Unimodal.four_letter_code(), " :) ");
    assert_eq!(ModalityClass::Zero.four_letter_code(), "zero");
    assert_eq!(ModalityClass::Constant.four_letter_code(), "cons");
    assert_eq!(ModalityClass::Nonmodal.four_letter_code(), "none");
    assert_eq!(ModalityClass::Multimodal.four_letter_code(), "mult");
}
