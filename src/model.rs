//! Mathematical model of polynomials: a coefficient sequence indexed by
//! exponent, over unbounded integers.
use vstd::arithmetic::power::pow;
use vstd::prelude::*;

verus! {

/// Coefficient at exponent `i`; zero outside the stored sequence.
pub open spec fn coef(s: Seq<int>, i: int) -> int {
    if 0 <= i < s.len() {
        s[i]
    } else {
        0
    }
}

/// Every coefficient is representable as an `i64`.
pub open spec fn fits_i64(s: Seq<int>) -> bool {
    forall|i: int| 0 <= i < s.len() ==> i64::MIN <= #[trigger] s[i] <= i64::MAX
}

/// Every coefficient is zero.
pub open spec fn all_zero(s: Seq<int>) -> bool {
    forall|i: int| 0 <= i < s.len() ==> #[trigger] s[i] == 0
}

/// Two sequences describe the same polynomial: equal at every exponent.
pub open spec fn same_poly(a: Seq<int>, b: Seq<int>) -> bool {
    forall|i: int| #[trigger] coef(a, i) == coef(b, i)
}

pub open spec fn max_len(a: Seq<int>, b: Seq<int>) -> nat {
    if a.len() >= b.len() {
        a.len()
    } else {
        b.len()
    }
}

/// Coefficient-wise sum, as long as the longer operand.
pub open spec fn poly_add(a: Seq<int>, b: Seq<int>) -> Seq<int> {
    Seq::new(max_len(a, b), |i: int| coef(a, i) + coef(b, i))
}

/// Coefficient-wise difference, as long as the longer operand.
pub open spec fn poly_sub(a: Seq<int>, b: Seq<int>) -> Seq<int> {
    Seq::new(max_len(a, b), |i: int| coef(a, i) - coef(b, i))
}

/// Partial convolution sum at index `k`: the products `a[i] * b[k - i]` for `i < m`.
pub open spec fn conv_partial(a: Seq<int>, b: Seq<int>, k: int, m: int) -> int
    decreases m,
{
    if m <= 0 {
        0
    } else {
        conv_partial(a, b, k, m - 1) + coef(a, m - 1) * coef(b, k - (m - 1))
    }
}

/// Length of a product: `len(a) + len(b) - 1`, or zero when either is empty.
pub open spec fn mul_len(a: Seq<int>, b: Seq<int>) -> nat {
    if a.len() == 0 || b.len() == 0 {
        0
    } else {
        (a.len() + b.len() - 1) as nat
    }
}

/// Discrete convolution of two coefficient sequences.
pub open spec fn poly_mul(a: Seq<int>, b: Seq<int>) -> Seq<int> {
    Seq::new(mul_len(a, b), |k: int| conv_partial(a, b, k, a.len() as int))
}

/// The multiplication in `poly_mul(a, b)` keeps every running sum within `i64`.
pub open spec fn mul_fits(a: Seq<int>, b: Seq<int>) -> bool {
    forall|k: int, m: int|
        0 <= k < mul_len(a, b) && 0 <= m <= a.len() ==> i64::MIN <= #[trigger] conv_partial(
            a,
            b,
            k,
            m,
        ) <= i64::MAX
}

/// `a` raised to the power `n`: `[1]` for zero, `a` for one, else `a * a^(n-1)`.
pub open spec fn poly_pow(a: Seq<int>, n: nat) -> Seq<int>
    decreases n,
{
    if n == 0 {
        seq![1int]
    } else if n == 1 {
        a
    } else {
        poly_mul(a, poly_pow(a, (n - 1) as nat))
    }
}

/// Every multiplication that computing `a^n` performs stays within `i64`, and
/// every intermediate power is short enough to be indexed by `usize`.
pub open spec fn pow_fits(a: Seq<int>, n: nat) -> bool {
    forall|e: nat|
        1 <= e < n ==> #[trigger] mul_fits(a, poly_pow(a, e)) && a.len() + poly_pow(a, e).len()
            <= usize::MAX
}

/// The first `m` terms of the composition `f(g)`: the sum of `f[i] * g^i` for `i < m`.
pub open spec fn compose_partial(f: Seq<int>, g: Seq<int>, m: int) -> Seq<int>
    decreases m,
{
    if m <= 0 {
        Seq::empty()
    } else {
        poly_add(
            compose_partial(f, g, m - 1),
            poly_mul(poly_pow(g, (m - 1) as nat), seq![coef(f, m - 1)]),
        )
    }
}

/// Composition `f(g)`.
pub open spec fn poly_compose(f: Seq<int>, g: Seq<int>) -> Seq<int> {
    compose_partial(f, g, f.len() as int)
}

/// Every intermediate value that computing `f(g)` term by term produces stays within `i64`.
pub open spec fn compose_fits(f: Seq<int>, g: Seq<int>) -> bool {
    &&& forall|i: nat| i < f.len() ==> #[trigger] pow_fits(g, i)
    &&& forall|i: nat| i < f.len() ==> #[trigger] poly_pow(g, i).len() < usize::MAX
    &&& forall|i: nat| i < f.len() ==> #[trigger] mul_fits(poly_pow(g, i), seq![coef(f, i as int)])
    &&& forall|m: int| 0 < m <= f.len() ==> #[trigger] fits_i64(compose_partial(f, g, m))
}

/// Derivative: coefficient `i - 1` is `i * a[i]`; the constant term is dropped.
pub open spec fn poly_deriv(a: Seq<int>) -> Seq<int> {
    if a.len() == 0 {
        Seq::empty()
    } else {
        Seq::new((a.len() - 1) as nat, |i: int| (i + 1) * a[i + 1])
    }
}

/// Sum of the first `n` terms `coef(a, i) * x^i`.
pub open spec fn eval_upto(a: Seq<int>, x: int, n: int) -> int
    decreases n,
{
    if n <= 0 {
        0
    } else {
        eval_upto(a, x, n - 1) + coef(a, n - 1) * pow(x, (n - 1) as nat)
    }
}

/// Value at an integer point: the sum of `a[i] * x^i`.
pub open spec fn poly_eval(a: Seq<int>, x: int) -> int {
    eval_upto(a, x, a.len() as int)
}

/// The sum of `x^j * y^(i-1-j)` for `j < i`, so that `y^i - x^i == (y - x) * power_quotient(x, y, i)`.
pub open spec fn power_quotient(x: int, y: int, i: nat) -> int
    decreases i,
{
    if i == 0 {
        0
    } else {
        y * power_quotient(x, y, (i - 1) as nat) + pow(x, (i - 1) as nat)
    }
}

/// Sum of the first `n` terms `coef(a, i) * power_quotient(x, y, i)`.
pub open spec fn quotient_upto(a: Seq<int>, x: int, y: int, n: int) -> int
    decreases n,
{
    if n <= 0 {
        0
    } else {
        quotient_upto(a, x, y, n - 1) + coef(a, n - 1) * power_quotient(x, y, (n - 1) as nat)
    }
}

/// The divided difference of `a` between `x` and `y`: a polynomial in `x` and
/// `y` with `a(y) - a(x) == (y - x) * divided_difference(a, x, y)`.
pub open spec fn divided_difference(a: Seq<int>, x: int, y: int) -> int {
    quotient_upto(a, x, y, a.len() as int)
}

} // verus!
