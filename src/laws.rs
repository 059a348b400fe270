//! Algebraic laws that relate the polynomial operations.
use crate::model::{
    coef, conv_partial, divided_difference, eval_upto, mul_len, poly_add, poly_deriv, poly_eval,
    poly_mul, poly_pow, poly_sub, power_quotient, quotient_upto, same_poly,
};
use vstd::arithmetic::power::{lemma_pow_adds, pow};
use crate::polynomial::Polynomial;
use vstd::prelude::*;

verus! {

/// Adding `q` and then subtracting it gives back `p` at every exponent; when
/// `p` is at least as long as `q`, the coefficient sequences are equal.
pub proof fn lemma_add_then_subtract(p: &Polynomial, q: &Polynomial)
    ensures
        same_poly(poly_sub(poly_add(p@, q@), q@), p@),
        p@.len() >= q@.len() ==> poly_sub(poly_add(p@, q@), q@) == p@,
{
    let r = poly_sub(poly_add(p@, q@), q@);
    assert forall|i: int| #[trigger] coef(r, i) == coef(p@, i) by {}
    if p@.len() >= q@.len() {
        assert(r =~= p@);
    }
}

/// The zeroth power is `[1]` and the first power is the polynomial itself.
pub proof fn lemma_pow_zero_one(p: &Polynomial)
    ensures
        poly_pow(p@, 0) == seq![1int],
        poly_pow(p@, 1) == p@,
{
}


/// Sum over `k < n` of coefficient `k` of the partial product (first `m`
/// terms of `a`) times `x^k`.
spec fn conv_eval(a: Seq<int>, b: Seq<int>, x: int, m: int, n: int) -> int
    decreases n,
{
    if n <= 0 {
        0
    } else {
        conv_eval(a, b, x, m, n - 1) + conv_partial(a, b, n - 1, m) * pow(x, (n - 1) as nat)
    }
}

/// Sum over `k < n` of `coef(b, k - m) * x^k`: `b` shifted up by `m`.
spec fn shifted_eval(b: Seq<int>, x: int, m: int, n: int) -> int
    decreases n,
{
    if n <= 0 {
        0
    } else {
        shifted_eval(b, x, m, n - 1) + coef(b, n - 1 - m) * pow(x, (n - 1) as nat)
    }
}

proof fn lemma_eval_beyond_len(b: Seq<int>, x: int, n: int)
    requires
        n >= b.len(),
    ensures
        eval_upto(b, x, n) == poly_eval(b, x),
    decreases n,
{
    if n > b.len() {
        lemma_eval_beyond_len(b, x, n - 1);
    }
}

proof fn lemma_shifted_eval(b: Seq<int>, x: int, m: int, n: int)
    requires
        m >= 0,
    ensures
        n <= m ==> shifted_eval(b, x, m, n) == 0,
        n > m ==> shifted_eval(b, x, m, n) == pow(x, m as nat) * eval_upto(b, x, n - m),
    decreases n,
{
    if n > 0 {
        lemma_shifted_eval(b, x, m, n - 1);
        if n > m {
            let c = coef(b, n - 1 - m);
            let xm = pow(x, m as nat);
            let xr = pow(x, (n - 1 - m) as nat);
            lemma_pow_adds(x, m as nat, (n - 1 - m) as nat);
            assert(pow(x, (n - 1) as nat) == xm * xr);
            let prev = eval_upto(b, x, n - 1 - m);
            assert(xm * prev + c * (xm * xr) == xm * (prev + c * xr)) by (nonlinear_arith);
        }
    }
}

proof fn lemma_conv_eval_zero(a: Seq<int>, b: Seq<int>, x: int, n: int)
    ensures
        conv_eval(a, b, x, 0, n) == 0,
    decreases n,
{
    if n > 0 {
        lemma_conv_eval_zero(a, b, x, n - 1);
    }
}

proof fn lemma_conv_eval_step(a: Seq<int>, b: Seq<int>, x: int, m: int, n: int)
    requires
        m >= 0,
    ensures
        conv_eval(a, b, x, m + 1, n) == conv_eval(a, b, x, m, n) + coef(a, m) * shifted_eval(
            b,
            x,
            m,
            n,
        ),
    decreases n,
{
    if n > 0 {
        lemma_conv_eval_step(a, b, x, m, n - 1);
        let c = coef(a, m);
        let d = coef(b, n - 1 - m);
        let p = pow(x, (n - 1) as nat);
        let old_c = conv_partial(a, b, n - 1, m);
        assert(conv_partial(a, b, n - 1, m + 1) == old_c + c * d);
        let s = shifted_eval(b, x, m, n - 1);
        assert((old_c + c * d) * p == old_c * p + c * (d * p)) by (nonlinear_arith);
        assert(c * s + c * (d * p) == c * (s + d * p)) by (nonlinear_arith);
    }
}

proof fn lemma_conv_eval_full(a: Seq<int>, b: Seq<int>, x: int, m: int)
    requires
        0 <= m <= a.len(),
        b.len() > 0,
    ensures
        conv_eval(a, b, x, m, a.len() + b.len() - 1) == eval_upto(a, x, m) * poly_eval(b, x),
    decreases m,
{
    let n = a.len() + b.len() - 1;
    if m == 0 {
        lemma_conv_eval_zero(a, b, x, n);
    } else {
        lemma_conv_eval_full(a, b, x, m - 1);
        lemma_conv_eval_step(a, b, x, m - 1, n);
        lemma_shifted_eval(b, x, m - 1, n);
        lemma_eval_beyond_len(b, x, n - (m - 1));
        let e = eval_upto(a, x, m - 1);
        let c = coef(a, m - 1);
        let xp = pow(x, (m - 1) as nat);
        let v = poly_eval(b, x);
        assert(e * v + c * (xp * v) == (e + c * xp) * v) by (nonlinear_arith);
    }
}

proof fn lemma_product_as_conv_eval(a: Seq<int>, b: Seq<int>, x: int, n: int)
    requires
        0 <= n <= mul_len(a, b),
    ensures
        eval_upto(poly_mul(a, b), x, n) == conv_eval(a, b, x, a.len() as int, n),
    decreases n,
{
    if n > 0 {
        lemma_product_as_conv_eval(a, b, x, n - 1);
    }
}

/// Evaluating a product at any integer point gives the product of the values
/// of its factors there.
pub proof fn lemma_mul_evaluate(p: &Polynomial, q: &Polynomial, x: int)
    ensures
        poly_eval(poly_mul(p@, q@), x) == poly_eval(p@, x) * poly_eval(q@, x),
{
    let a = p@;
    let b = q@;
    if a.len() == 0 || b.len() == 0 {
        assert(poly_mul(a, b).len() == 0);
        if a.len() == 0 {
            assert(poly_eval(a, x) == 0);
        } else {
            assert(poly_eval(b, x) == 0);
        }
    } else {
        lemma_product_as_conv_eval(a, b, x, mul_len(a, b) as int);
        lemma_conv_eval_full(a, b, x, a.len() as int);
    }
}

proof fn lemma_power_difference(x: int, y: int, i: nat)
    ensures
        pow(y, i) - pow(x, i) == (y - x) * power_quotient(x, y, i),
    decreases i,
{
    reveal(pow);
    if i > 0 {
        let k = (i - 1) as nat;
        lemma_power_difference(x, y, k);
        let h = power_quotient(x, y, k);
        let xk = pow(x, k);
        let yk = pow(y, k);
        assert(y * yk - x * xk == (y - x) * (y * h + xk)) by (nonlinear_arith)
            requires
                yk - xk == (y - x) * h,
        ;
    }
}

proof fn lemma_power_quotient_diagonal(x: int, i: nat)
    ensures
        i > 0 ==> power_quotient(x, x, i) == i * pow(x, (i - 1) as nat),
        i == 0 ==> power_quotient(x, x, i) == 0,
    decreases i,
{
    reveal(pow);
    if i == 1 {
        assert(pow(x, 0) == 1);
        assert(power_quotient(x, x, 1) == x * power_quotient(x, x, 0) + pow(x, 0));
    } else if i > 1 {
        let k = (i - 1) as nat;
        lemma_power_quotient_diagonal(x, k);
        let xk1 = pow(x, (k - 1) as nat);
        assert(pow(x, k) == x * xk1);
        assert(power_quotient(x, x, k) == k * xk1);
        assert(power_quotient(x, x, i) == x * power_quotient(x, x, k) + pow(x, k));
        assert(x * (k * xk1) + x * xk1 == i * (x * xk1)) by (nonlinear_arith)
            requires
                i == k + 1,
        ;
    }
}

proof fn lemma_eval_difference(a: Seq<int>, x: int, y: int, n: int)
    ensures
        eval_upto(a, y, n) - eval_upto(a, x, n) == (y - x) * quotient_upto(a, x, y, n),
    decreases n,
{
    if n > 0 {
        lemma_eval_difference(a, x, y, n - 1);
        let k = (n - 1) as nat;
        lemma_power_difference(x, y, k);
        let c = coef(a, n - 1);
        let q = quotient_upto(a, x, y, n - 1);
        let h = power_quotient(x, y, k);
        let py = pow(y, k);
        let px = pow(x, k);
        assert(c * py - c * px == c * (py - px)) by (nonlinear_arith);
        assert((y - x) * q + c * ((y - x) * h) == (y - x) * (q + c * h)) by (nonlinear_arith);
    }
}

proof fn lemma_quotient_diagonal(a: Seq<int>, x: int, n: int)
    requires
        1 <= n <= a.len(),
    ensures
        quotient_upto(a, x, x, n) == eval_upto(poly_deriv(a), x, n - 1),
    decreases n,
{
    if n > 1 {
        lemma_quotient_diagonal(a, x, n - 1);
        let k = (n - 1) as nat;
        lemma_power_quotient_diagonal(x, k);
        let c = coef(a, n - 1);
        let p = pow(x, (k - 1) as nat);
        assert(coef(poly_deriv(a), n - 2) == k * c);
        assert(power_quotient(x, x, k) == k * p);
        assert(quotient_upto(a, x, x, n) == quotient_upto(a, x, x, n - 1) + c * (k * p));
        assert(eval_upto(poly_deriv(a), x, n - 1) == eval_upto(poly_deriv(a), x, n - 2) + (k
            * c) * p);
        assert(c * (k * p) == (k * c) * p) by (nonlinear_arith);
    } else {
        assert(quotient_upto(a, x, x, 1) == quotient_upto(a, x, x, 0) + coef(a, 0) * 0);
        assert(eval_upto(poly_deriv(a), x, 0) == 0);
    }
}

/// The derivative is the value on the diagonal of the divided difference: at
/// any integer points, `p(y) - p(x) == (y - x) * q(x, y)` for a polynomial `q`
/// in both points with `q(x, x) == p'(x)`.
pub proof fn lemma_derivative_difference_quotient(p: &Polynomial, x: int, y: int)
    ensures
        poly_eval(p@, y) - poly_eval(p@, x) == (y - x) * divided_difference(p@, x, y),
        divided_difference(p@, x, x) == poly_eval(poly_deriv(p@), x),
{
    lemma_eval_difference(p@, x, y, p@.len() as int);
    if p@.len() > 0 {
        lemma_quotient_diagonal(p@, x, p@.len() as int);
    }
}

} // verus!
