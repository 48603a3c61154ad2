//! Exact non-negative rationals used for session time and beat count.

use vstd::prelude::*;

verus! {

/// A non-negative rational `num / den`; well-formed when `den > 0`.
#[derive(Clone, Copy, Debug, PartialEq, Eq, Structural)]
pub struct Ratio {
    pub num: u64,
    pub den: u64,
}

/// Largest value that a `u64` component may hold, as an integer.
pub open spec fn fits_u64(x: int) -> bool {
    0 <= x <= u64::MAX
}

/// The representation of `a + bn / bd` that [`Ratio::add`] computes: the
/// larger denominator is kept when one denominator divides the other, the
/// product of both is taken otherwise.
pub open spec fn plus(a: Ratio, bn: int, bd: int) -> (int, int) {
    if (a.den as int) % bd == 0 {
        (a.num + bn * ((a.den as int) / bd), a.den as int)
    } else if bd % (a.den as int) == 0 {
        (a.num * (bd / (a.den as int)) + bn, bd)
    } else {
        (a.num * bd + bn * a.den, a.den * bd)
    }
}

/// `r.0 / r.1 == a.num / a.den + bn / bd`, stated without division.
pub open spec fn is_sum(r: (int, int), a: Ratio, bn: int, bd: int) -> bool {
    r.0 * (a.den * bd) == (a.num * bd + bn * a.den) * r.1
}

/// `x.num / x.den == y.num / y.den + k * s / q`, stated without division.
pub open spec fn advanced_by(x: Ratio, y: Ratio, k: int, s: int, q: int) -> bool {
    x.num * (y.den * q) == (y.num * q + k * s * y.den) * x.den
}

/// Whatever representation it picks, `plus` is the rational sum.
pub proof fn lemma_plus_is_sum(a: Ratio, bn: int, bd: int)
    requires
        a.den > 0,
        bd > 0,
        bn >= 0,
    ensures
        is_sum(plus(a, bn, bd), a, bn, bd),
        plus(a, bn, bd).1 > 0,
        plus(a, bn, bd).0 >= 0,
{
    let an = a.num as int;
    let ad = a.den as int;
    if ad % bd == 0 {
        let k = ad / bd;
        vstd::arithmetic::div_mod::lemma_fundamental_div_mod(ad, bd);
        assert(ad == bd * k);
        assert(k > 0) by (nonlinear_arith)
            requires ad == bd * k, ad > 0, bd > 0;
        assert((an + bn * k) * (ad * bd) == (an * bd + bn * ad) * ad) by (nonlinear_arith)
            requires ad == bd * k;
        assert(bn * k >= 0) by (nonlinear_arith)
            requires bn >= 0, k > 0;
    } else if bd % ad == 0 {
        let k = bd / ad;
        vstd::arithmetic::div_mod::lemma_fundamental_div_mod(bd, ad);
        assert(bd == ad * k);
        assert(k > 0) by (nonlinear_arith)
            requires bd == ad * k, ad > 0, bd > 0;
        assert((an * k + bn) * (ad * bd) == (an * bd + bn * ad) * bd) by (nonlinear_arith)
            requires bd == ad * k;
        assert(an * k >= 0) by (nonlinear_arith)
            requires an >= 0, k > 0;
    } else {
        assert((an * bd + bn * ad) * (ad * bd) == (an * bd + bn * ad) * (ad * bd));
        assert(ad * bd > 0) by (nonlinear_arith)
            requires ad > 0, bd > 0;
        assert(an * bd >= 0 && bn * ad >= 0) by (nonlinear_arith)
            requires an >= 0, bn >= 0, ad > 0, bd > 0;
    }
}

/// Adding `s / q` once to a value that is already `k` steps of `s / q` past a
/// base gives a value `k + 1` steps past that base.
pub proof fn lemma_advanced_step(base: Ratio, x: Ratio, y: Ratio, k: int, s: int, q: int)
    requires
        base.den > 0,
        x.den > 0,
        q > 0,
        advanced_by(x, base, k, s, q),
        is_sum((y.num as int, y.den as int), x, s, q),
    ensures
        advanced_by(y, base, k + 1, s, q),
{
    let bn = base.num as int;
    let bd = base.den as int;
    let xn = x.num as int;
    let xd = x.den as int;
    let yn = y.num as int;
    let yd = y.den as int;
    // From the step: yn * xd * q == (xn * q + s * xd) * yd.
    // From the induction: xn * bd * q == (bn * q + k * s * bd) * xd.
    assert(yn * (bd * q) * xd == bd * (yn * (xd * q))) by (nonlinear_arith);
    assert(bd * (yn * (xd * q)) == bd * ((xn * q + s * xd) * yd));
    assert(bd * ((xn * q + s * xd) * yd) == yd * (xn * (bd * q)) + yd * (s * xd * bd))
        by (nonlinear_arith);
    assert(yd * (xn * (bd * q)) == yd * ((bn * q + k * s * bd) * xd));
    let m = bn * q + k * s * bd;
    assert((k + 1) * s * bd == k * s * bd + s * bd) by (nonlinear_arith);
    assert(yd * (m * xd) + yd * (s * xd * bd) == xd * ((m + s * bd) * yd)) by (nonlinear_arith);
    assert(xd * (yn * (bd * q)) == yn * (bd * q) * xd) by (nonlinear_arith);
    vstd::arithmetic::mul::lemma_mul_equality_converse(
        xd,
        yn * (bd * q),
        (bn * q + (k + 1) * s * bd) * yd,
    );
}

/// The product of two values below `2^64` fits in a `u128`.
proof fn lemma_wide_product(a: u128, b: u128)
    requires
        a <= u64::MAX,
        b <= u64::MAX,
    ensures
        a * b <= u64::MAX * u64::MAX,
{
    vstd::arithmetic::mul::lemma_mul_upper_bound(a as int, u64::MAX as int, b as int, u64::MAX as int);
}

impl Ratio {
    pub open spec fn wf(self) -> bool {
        self.den > 0
    }

    pub open spec fn from_int_spec(n: u64) -> Ratio {
        Ratio { num: n, den: 1 }
    }

    /// The whole number `n`.
    pub fn from_int(n: u64) -> (r: Ratio)
        ensures
            r == Ratio::from_int_spec(n),
    {
        Ratio { num: n, den: 1 }
    }

    /// `self + bn / bd` in the representation given by [`plus`], or `None`
    /// when a component of that representation does not fit in a `u64`.
    pub fn add(self, bn: u64, bd: u64) -> (r: Option<Ratio>)
        requires
            self.wf(),
            bd > 0,
        ensures
            r is Some <==> fits_u64(plus(self, bn as int, bd as int).0) && fits_u64(
                plus(self, bn as int, bd as int).1,
            ),
            r is Some ==> r->0.num == plus(self, bn as int, bd as int).0 && r->0.den == plus(
                self,
                bn as int,
                bd as int,
            ).1,
            r is Some ==> r->0.wf(),
    {
        proof {
            lemma_plus_is_sum(self, bn as int, bd as int);
        }
        let an = self.num as u128;
        let ad = self.den as u128;
        let b_num = bn as u128;
        let b_den = bd as u128;
        let max = u64::MAX as u128;
        if self.den % bd == 0 {
            let k = (self.den / bd) as u128;
            proof {
                lemma_wide_product(b_num, k);
            }
            let scaled = b_num * k;
            if scaled > max - an {
                None
            } else {
                Some(Ratio { num: (an + scaled) as u64, den: self.den })
            }
        } else if bd % self.den == 0 {
            let k = (bd / self.den) as u128;
            proof {
                lemma_wide_product(an, k);
            }
            let scaled = an * k;
            if scaled > max - b_num {
                None
            } else {
                Some(Ratio { num: (scaled + b_num) as u64, den: bd })
            }
        } else {
            proof {
                lemma_wide_product(an, b_den);
                lemma_wide_product(b_num, ad);
                lemma_wide_product(ad, b_den);
            }
            let left = an * b_den;
            let right = b_num * ad;
            let den = ad * b_den;
            if left > max || right > max - left || den > max {
                None
            } else {
                Some(Ratio { num: (left + right) as u64, den: den as u64 })
            }
        }
    }

    /// `floor(self * scale)`, saturated at `u64::MAX`.
    pub fn floor_scaled(self, scale: u64) -> (r: u64)
        requires
            self.wf(),
        ensures
            r as int == if (self.num as int) * (scale as int) / (self.den as int) > u64::MAX {
                u64::MAX as int
            } else {
                (self.num as int) * (scale as int) / (self.den as int)
            },
    {
        proof {
            lemma_wide_product(self.num as u128, scale as u128);
        }
        let p = (self.num as u128) * (scale as u128);
        let q = p / (self.den as u128);
        if q > u64::MAX as u128 {
            u64::MAX
        } else {
            q as u64
        }
    }
}

} // verus!
