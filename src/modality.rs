//! Decision logic of the modality classifier.
//!
//! The classifier samples the sign of the derivative at increasing points of
//! an interval. A change is counted where a sample is nonzero and differs from
//! the sample before it: a sign flip across a zero sample counts once, and a
//! zero at the left end followed by a nonzero sign counts as a change there.
use crate::model::{all_zero, poly_deriv};
use crate::polynomial::Polynomial;
use vstd::prelude::*;

verus! {

/// Outcome of the classifier, without the location of the mode.
#[derive(Debug, Clone, Copy, PartialEq, Eq, Structural)]
pub enum ModalityClass {
    /// Exactly one interior extremum.
    Unimodal,
    /// Every coefficient is zero.
    Zero,
    /// Nonzero, with an identically zero derivative.
    Constant,
    /// No interior extremum.
    Nonmodal,
    /// Two or more interior extrema.
    Multimodal,
}

/// A change of sign between samples `i` and `i + 1`.
pub open spec fn is_change(s: Seq<i8>, i: int) -> bool {
    s[i + 1] != 0 && s[i + 1] != s[i]
}

/// Number of changes between consecutive samples among the first `n` samples.
pub open spec fn changes_upto(s: Seq<i8>, n: int) -> nat
    decreases n,
{
    if n <= 1 {
        0
    } else if is_change(s, n - 2) {
        changes_upto(s, n - 1) + 1
    } else {
        changes_upto(s, n - 1)
    }
}

/// Number of sign changes in the whole sample sequence.
pub open spec fn sign_change_count(s: Seq<i8>) -> nat {
    changes_upto(s, s.len() as int)
}

/// The classification of a polynomial whose derivative has the given samples.
pub open spec fn class_of(p: Seq<int>, signs: Seq<i8>) -> ModalityClass {
    if all_zero(p) {
        ModalityClass::Zero
    } else if all_zero(poly_deriv(p)) {
        ModalityClass::Constant
    } else if sign_change_count(signs) == 0 {
        ModalityClass::Nonmodal
    } else if sign_change_count(signs) == 1 {
        ModalityClass::Unimodal
    } else {
        ModalityClass::Multimodal
    }
}

/// Counts the sign changes in a sequence of derivative samples.
pub fn sign_changes(signs: &Vec<i8>) -> (r: usize)
    ensures
        r == sign_change_count(signs@),
{
    let mut count: usize = 0;
    let mut i: usize = 1;
    while i < signs.len()
        invariant
            1 <= i,
            i <= signs.len() || i == 1,
            count == changes_upto(signs@, i as int),
            count < i,
        decreases signs.len() - i,
    {
        if signs[i] != 0 && signs[i] != signs[i - 1] {
            count = count + 1;
        }
        i = i + 1;
    }
    count
}

/// Index of the first sample after which the sign changes, if any.
pub fn first_change(signs: &Vec<i8>) -> (r: Option<usize>)
    ensures
        r matches Some(i) ==> i + 1 < signs@.len() && is_change(signs@, i as int) && forall|
            j: int,
        |
            0 <= j < i ==> !#[trigger] is_change(signs@, j),
        r is None ==> forall|j: int| 0 <= j < signs@.len() - 1 ==> !#[trigger] is_change(signs@, j),
{
    if signs.len() == 0 {
        return None;
    }
    let mut i: usize = 0;
    while i < signs.len() - 1
        invariant
            signs.len() > 0,
            i <= signs.len() - 1,
            forall|j: int| 0 <= j < i ==> !#[trigger] is_change(signs@, j),
        decreases signs.len() - i,
    {
        if signs[i + 1] != 0 && signs[i + 1] != signs[i] {
            return Some(i);
        }
        i = i + 1;
    }
    None
}

/// Classifies `p` given the signs of its derivative sampled across an interval.
pub fn classify(p: &Polynomial, derivative_signs: &Vec<i8>) -> (r: ModalityClass)
    ensures
        r == class_of(p@, derivative_signs@),
{
    if p.is_zero() {
        ModalityClass::Zero
    } else if p.derivative_is_zero() {
        ModalityClass::Constant
    } else {
        let n = sign_changes(derivative_signs);
        if n == 0 {
            ModalityClass::Nonmodal
        } else if n == 1 {
            ModalityClass::Unimodal
        } else {
            ModalityClass::Multimodal
        }
    }
}

impl ModalityClass {
    /// A fixed four-character code for each outcome.
    pub fn four_letter_code(&self) -> (r: &'static str)
        ensures
            r@ == match self {
                ModalityClass::Unimodal => " :) "@,
                ModalityClass::Zero => "zero"@,
                ModalityClass::Constant => "cons"@,
                ModalityClass::Nonmodal => "none"@,
                ModalityClass::Multimodal => "mult"@,
            },
    {
        proof {
            reveal_strlit(" :) ");
            reveal_strlit("zero");
            reveal_strlit("cons");
            reveal_strlit("none");
            reveal_strlit("mult");
        }
        match self {
            ModalityClass::Unimodal => " :) ",
            ModalityClass::Zero => "zero",
            ModalityClass::Constant => "cons",
            ModalityClass::Nonmodal => "none",
            ModalityClass::Multimodal => "mult",
        }
    }
}

} // verus!
