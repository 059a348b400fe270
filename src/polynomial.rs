//! The `Polynomial` value type and its exact integer arithmetic.
use crate::model::{
    all_zero, coef, compose_fits, compose_partial, conv_partial, fits_i64, mul_fits, mul_len,
    poly_add, poly_compose, poly_deriv, poly_mul, poly_pow, poly_sub, pow_fits,
};
use vstd::prelude::*;

verus! {

/// A univariate polynomial; `coefs[i]` is the coefficient of `x^i`.
#[derive(Clone, Debug)]
pub struct Polynomial {
    coefs: Vec<i64>,
    var_name: String,
}

impl View for Polynomial {
    type V = Seq<int>;

    closed spec fn view(&self) -> Seq<int> {
        ints(self.coefs@)
    }
}

/// Machine coefficients read as mathematical integers.
pub open spec fn ints(v: Seq<i64>) -> Seq<int> {
    v.map_values(|c: i64| c as int)
}

/// `[1]`, the multiplicative identity.
fn one_coefs() -> (r: Vec<i64>)
    ensures
        ints(r@) == seq![1int],
{
    let r: Vec<i64> = vec![1];
    assert(ints(r@) =~= seq![1int]);
    r
}

/// Adds (or, with `negate`, subtracts) `rhs` into `coefs`, growing it as needed.
fn combine_into(coefs: &mut Vec<i64>, rhs: &Vec<i64>, negate: bool)
    requires
        negate ==> fits_i64(poly_sub(ints(old(coefs)@), ints(rhs@))),
        !negate ==> fits_i64(poly_add(ints(old(coefs)@), ints(rhs@))),
    ensures
        negate ==> ints(final(coefs)@) == poly_sub(ints(old(coefs)@), ints(rhs@)),
        !negate ==> ints(final(coefs)@) == poly_add(ints(old(coefs)@), ints(rhs@)),
{
    let ghost a = ints(old(coefs)@);
    let ghost b = ints(rhs@);
    let ghost target = if negate { poly_sub(a, b) } else { poly_add(a, b) };
    let mut pos: usize = 0;
    while pos < rhs.len()
        invariant
            a == ints(old(coefs)@),
            b == ints(rhs@),
            target == (if negate { poly_sub(a, b) } else { poly_add(a, b) }),
            fits_i64(target),
            pos <= rhs.len(),
            coefs.len() == (if old(coefs).len() >= pos { old(coefs).len() } else { pos }),
            forall|j: int|
                0 <= j < coefs.len() ==> #[trigger] coefs@[j] == (if j < pos {
                    target[j]
                } else {
                    a[j]
                }),
        decreases rhs.len() - pos,
    {
        let y = rhs[pos];
        assert(target[pos as int] == (if negate { coef(a, pos as int) - y } else { coef(a, pos as int) + y }));
        if pos >= coefs.len() {
            if negate {
                coefs.push(-y);
            } else {
                coefs.push(y);
            }
        } else {
            let x = coefs[pos];
            if negate {
                coefs.set(pos, x - y);
            } else {
                coefs.set(pos, x + y);
            }
        }
        pos = pos + 1;
    }
    assert(ints(coefs@) =~= target);
}

/// The exact product of two `i64` values.
fn wide_product(x: i64, y: i64) -> (r: i128)
    ensures
        r == x as int * y as int,
{
    let xw = x as i128;
    let yw = y as i128;
    assert(-0x4000_0000_0000_0000_0000_0000_0000_0000 <= xw * yw <= 0x4000_0000_0000_0000_0000_0000_0000_0000)
        by (nonlinear_arith)
        requires
            -0x8000_0000_0000_0000 <= xw <= 0x7fff_ffff_ffff_ffff,
            -0x8000_0000_0000_0000 <= yw <= 0x7fff_ffff_ffff_ffff,
    ;
    xw * yw
}

/// Coefficient `k` of the product of `a` and `b`.
fn conv_at(a: &Vec<i64>, b: &Vec<i64>, k: usize) -> (r: i64)
    requires
        k < mul_len(ints(a@), ints(b@)),
        mul_fits(ints(a@), ints(b@)),
    ensures
        r == conv_partial(ints(a@), ints(b@), k as int, a.len() as int),
{
    let ghost sa = ints(a@);
    let ghost sb = ints(b@);
    let mut acc: i64 = 0;
    let mut i: usize = 0;
    while i < a.len()
        invariant
            sa == ints(a@),
            sb == ints(b@),
            k < mul_len(sa, sb),
            mul_fits(sa, sb),
            i <= a.len(),
            acc == conv_partial(sa, sb, k as int, i as int),
        decreases a.len() - i,
    {
        assert(i64::MIN <= conv_partial(sa, sb, k as int, i + 1) <= i64::MAX);
        assert(conv_partial(sa, sb, k as int, i + 1) == conv_partial(sa, sb, k as int, i as int)
            + coef(sa, i as int) * coef(sb, k - i));
        if i <= k && k - i < b.len() {
            let prod = wide_product(a[i], b[k - i]);
            assert(coef(sa, i as int) == a[i as int]);
            assert(coef(sb, k - i) == b[k - i]);
            acc = (acc as i128 + prod) as i64;
        } else {
            assert(coef(sb, k - i) == 0);
        }
        i = i + 1;
    }
    acc
}

/// The exact product of an index and an `i64` value.
fn scaled_by_index(i: usize, c: i64) -> (r: i128)
    ensures
        r == i as int * c as int,
{
    let iw = i as i128;
    let cw = c as i128;
    assert(-0x7fff_ffff_ffff_ffff_8000_0000_0000_0000 <= iw * cw <= 0x7fff_ffff_ffff_ffff_0000_0000_0000_0000)
        by (nonlinear_arith)
        requires
            0 <= iw <= 0xffff_ffff_ffff_ffff,
            -0x8000_0000_0000_0000 <= cw <= 0x7fff_ffff_ffff_ffff,
    ;
    iw * cw
}

impl Polynomial {
    /// Display label of the variable.
    pub closed spec fn name(&self) -> Seq<char> {
        self.var_name@
    }

    /// The zero polynomial, with no coefficients.
    pub fn new() -> (r: Self)
        ensures
            r@ == Seq::<int>::empty(),
            r.name() == "p"@,
    {
        proof {
            reveal_strlit("p");
        }
        let r = Polynomial { coefs: Vec::new(), var_name: String::from_str("p") };
        assert(r@ =~= Seq::<int>::empty());
        r
    }

    /// A polynomial with a copy of the given coefficients, untrimmed.
    pub fn of_vec(coefs: &Vec<i64>) -> (r: Self)
        ensures
            r@ == ints(coefs@),
            r.name() == "p"@,
    {
        let mut new_coefs: Vec<i64> = Vec::new();
        let mut i: usize = 0;
        while i < coefs.len()
            invariant
                i <= coefs.len(),
                new_coefs@ == coefs@.subrange(0, i as int),
            decreases coefs.len() - i,
        {
            new_coefs.push(coefs[i]);
            i = i + 1;
        }
        assert(new_coefs@ =~= coefs@);
        Polynomial { coefs: new_coefs, var_name: String::from_str("p") }
    }

    /// `coef * x^power`: `power` zeros followed by `coef`.
    pub fn monomial(coef: i64, power: usize) -> (r: Self)
        requires
            power < usize::MAX,
        ensures
            r@.len() == power + 1,
            r@[power as int] == coef,
            forall|i: int| 0 <= i < power ==> r@[i] == 0,
            r.name() == "p"@,
    {
        let mut coefs: Vec<i64> = Vec::new();
        let mut i: usize = 0;
        while i < power
            invariant
                i <= power,
                coefs@.len() == i,
                forall|j: int| 0 <= j < i ==> coefs@[j] == 0,
            decreases power - i,
        {
            coefs.push(0);
            i = i + 1;
        }
        coefs.push(coef);
        Polynomial { coefs, var_name: String::from_str("p") }
    }

    /// True iff every coefficient is zero, whatever the length.
    pub fn is_zero(&self) -> (r: bool)
        ensures
            r == all_zero(self@),
    {
        let mut i: usize = 0;
        while i < self.coefs.len()
            invariant
                i <= self.coefs.len(),
                forall|j: int| 0 <= j < i ==> self@[j] == 0,
            decreases self.coefs.len() - i,
        {
            if self.coefs[i] != 0 {
                assert(self@[i as int] != 0);
                return false;
            }
            i = i + 1;
        }
        true
    }

    /// `self + rhs`, as long as the longer operand; both operands are unchanged.
    pub fn add(&self, rhs: &Self) -> (r: Self)
        requires
            fits_i64(poly_add(self@, rhs@)),
        ensures
            r@ == poly_add(self@, rhs@),
    {
        let mut r = Self::of_vec(&self.coefs);
        r.add_inplace(rhs);
        r
    }

    /// Adds `rhs` into `self`, growing it to the longer length.
    pub fn add_inplace(&mut self, rhs: &Self)
        requires
            fits_i64(poly_add(old(self)@, rhs@)),
        ensures
            final(self)@ == poly_add(old(self)@, rhs@),
            final(self).name() == old(self).name(),
    {
        combine_into(&mut self.coefs, &rhs.coefs, false)
    }

    /// `self - rhs`, as long as the longer operand; both operands are unchanged.
    pub fn sub(&self, rhs: &Self) -> (r: Self)
        requires
            fits_i64(poly_sub(self@, rhs@)),
        ensures
            r@ == poly_sub(self@, rhs@),
    {
        let mut r = Self::of_vec(&self.coefs);
        r.sub_inplace(rhs);
        r
    }

    /// Subtracts `rhs` from `self`, growing it to the longer length.
    pub fn sub_inplace(&mut self, rhs: &Self)
        requires
            fits_i64(poly_sub(old(self)@, rhs@)),
        ensures
            final(self)@ == poly_sub(old(self)@, rhs@),
            final(self).name() == old(self).name(),
    {
        combine_into(&mut self.coefs, &rhs.coefs, true)
    }

    /// The product `self * rhs`: the discrete convolution of the coefficients.
    pub fn mul(&self, rhs: &Self) -> (r: Self)
        requires
            self@.len() + rhs@.len() <= usize::MAX,
            mul_fits(self@, rhs@),
        ensures
            r@ == poly_mul(self@, rhs@),
    {
        let mut coefs: Vec<i64> = Vec::new();
        if self.coefs.len() > 0 && rhs.coefs.len() > 0 {
            let n = self.coefs.len() + rhs.coefs.len() - 1;
            let mut k: usize = 0;
            while k < n
                invariant
                    n == mul_len(self@, rhs@),
                    mul_fits(self@, rhs@),
                    k <= n,
                    coefs@.len() == k,
                    forall|j: int|
                        0 <= j < k ==> #[trigger] coefs@[j] == conv_partial(
                            self@,
                            rhs@,
                            j,
                            self@.len() as int,
                        ),
                decreases n - k,
            {
                let c = conv_at(&self.coefs, &rhs.coefs, k);
                coefs.push(c);
                k = k + 1;
            }
        }
        let r = Self::of_vec(&coefs);
        assert(r@ =~= poly_mul(self@, rhs@));
        r
    }

    /// `self` raised to the power `exp`: `[1]` for zero, `self` for one, and
    /// `self * self^(exp-1)` above, computed by repeated multiplication.
    pub fn pow(&self, exp: usize) -> (r: Self)
        requires
            pow_fits(self@, exp as nat),
        ensures
            r@ == poly_pow(self@, exp as nat),
    {
        if exp == 0 {
            let one = one_coefs();
            return Self::of_vec(&one);
        }
        let copy = Self::of_vec(&self.coefs);
        let mut r = Polynomial { coefs: copy.coefs, var_name: self.var_name.clone() };
        let mut e: usize = 1;
        while e < exp
            invariant
                1 <= e <= exp,
                pow_fits(self@, exp as nat),
                r@ == poly_pow(self@, e as nat),
            decreases exp - e,
        {
            assert(mul_fits(self@, poly_pow(self@, e as nat)));
            r = self.mul(&r);
            e = e + 1;
        }
        r
    }

    /// The composition `self(g)`: the sum of `coefs[i] * g^i`, accumulated term by term.
    pub fn apply(&self, g: &Self) -> (r: Self)
        requires
            compose_fits(self@, g@),
        ensures
            r@ == poly_compose(self@, g@),
    {
        let mut out = Self::new();
        let mut i: usize = 0;
        while i < self.coefs.len()
            invariant
                i <= self.coefs.len(),
                compose_fits(self@, g@),
                out@ == compose_partial(self@, g@, i as int),
            decreases self.coefs.len() - i,
        {
            assert(pow_fits(g@, i as nat));
            assert(poly_pow(g@, i as nat).len() < usize::MAX);
            assert(mul_fits(poly_pow(g@, i as nat), seq![coef(self@, i as int)]));
            assert(fits_i64(compose_partial(self@, g@, i + 1)));
            let gi = g.pow(i);
            let scalar: Vec<i64> = vec![self.coefs[i]];
            let c = Self::of_vec(&scalar);
            assert(c@ =~= seq![coef(self@, i as int)]);
            let term = gi.mul(&c);
            out.add_inplace(&term);
            i = i + 1;
        }
        out
    }

    /// The derivative: coefficient `i - 1` is `i * coefs[i]`, the constant term dropped.
    pub fn differentiate(&self) -> (r: Self)
        requires
            fits_i64(poly_deriv(self@)),
        ensures
            r@ == poly_deriv(self@),
    {
        let mut coefs: Vec<i64> = Vec::new();
        let mut i: usize = 1;
        while i < self.coefs.len()
            invariant
                1 <= i,
                i <= self.coefs.len() || i == 1,
                fits_i64(poly_deriv(self@)),
                coefs@.len() == i - 1,
                forall|j: int| 0 <= j < i - 1 ==> #[trigger] coefs@[j] == poly_deriv(self@)[j],
            decreases self.coefs.len() - i,
        {
            let d = scaled_by_index(i, self.coefs[i]);
            assert(poly_deriv(self@)[i - 1] == d);
            coefs.push(d as i64);
            i = i + 1;
        }
        let r = Self::of_vec(&coefs);
        assert(coefs@.len() == poly_deriv(self@).len());
        assert(r@ =~= poly_deriv(self@));
        r
    }

    /// True iff the derivative is identically zero, decided without forming it.
    pub(crate) fn derivative_is_zero(&self) -> (r: bool)
        ensures
            r == all_zero(poly_deriv(self@)),
    {
        let mut i: usize = 1;
        while i < self.coefs.len()
            invariant
                1 <= i,
                forall|j: int| 0 <= j < i - 1 ==> #[trigger] poly_deriv(self@)[j] == 0,
            decreases self.coefs.len() - i,
        {
            if self.coefs[i] != 0 {
                let ghost c = self@[i as int];
                assert((i as int) * c != 0) by (nonlinear_arith)
                    requires
                        i >= 1,
                        c != 0,
                ;
                assert(poly_deriv(self@)[i - 1] != 0);
                return false;
            }
            assert(poly_deriv(self@)[i - 1] == 0);
            i = i + 1;
        }
        true
    }

    /// The stored coefficients, lowest exponent first.
    pub fn coefficients(&self) -> (r: &Vec<i64>)
        ensures
            ints(r@) == self@,
    {
        &self.coefs
    }

    /// The display label of the variable.
    pub fn var_name(&self) -> (r: &str)
        ensures
            r@ == self.name(),
    {
        self.var_name.as_str()
    }

    /// A copy with another display label; the coefficients are unchanged.
    pub fn with_var_name(&self, var_name: &str) -> (r: Self)
        ensures
            r@ == self@,
            r.name() == var_name@,
    {
        let r = Self::of_vec(&self.coefs);
        Polynomial { coefs: r.coefs, var_name: var_name.to_string() }
    }
}

} // verus!
