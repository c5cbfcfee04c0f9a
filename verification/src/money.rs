//! Money model: integer amounts in minor currency units and exact rational
//! shares, with the truncating rule that turns a share of a fixed basis into
//! a settled integer amount.

use vstd::prelude::*;

verus! {

/// An exact signed ratio `num / den`. Transactions carry one as a share of
/// their expense's fixed basis; category associations carry one as a weight.
#[derive(Debug, Clone, Copy, PartialEq, Eq, Structural)]
pub struct Ratio {
    pub num: i64,
    pub den: i64,
}

impl Ratio {
    /// A share of a basis: a positive denominator and a value in `[-1, 1]`.
    pub open spec fn bounded(self) -> bool {
        &&& 1 <= self.den
        &&& -self.den <= self.num <= self.den
    }

    /// The negated ratio, as the sign flip of a synchronization link leaves it.
    pub open spec fn spec_neg(self) -> Ratio {
        Ratio { num: (-(self.num as int)) as i64, den: self.den }
    }
}

/// Integer division of `p` by positive `d`, truncated toward zero.
pub open spec fn trunc_div(p: int, d: int) -> int
    recommends
        d >= 1,
{
    if p >= 0 {
        p / d
    } else {
        -((-p) / d)
    }
}

/// The settled amount of a share `r` of the integer basis `basis`:
/// `r * basis`, truncated toward zero.
pub open spec fn settled_share(r: Ratio, basis: int) -> int {
    trunc_div(r.num * basis, r.den as int)
}

proof fn lemma_div_quotient_bound(a: int, b: int, d: int)
    requires
        0 <= a <= d,
        0 <= b,
        1 <= d,
    ensures
        0 <= (a * b) / d <= b,
{
    vstd::arithmetic::mul::lemma_mul_inequality(a, d, b);
    assert(a * b <= d * b);
    vstd::arithmetic::div_mod::lemma_div_is_ordered(a * b, d * b, d);
    vstd::arithmetic::mul::lemma_mul_nonnegative(a, b);
    vstd::arithmetic::div_mod::lemma_div_pos_is_pos(a * b, d);
    assert((d * b) / d == b) by {
        vstd::arithmetic::div_mod::lemma_div_multiples_vanish(b, d);
    }
}

/// A bounded share of a basis never exceeds the basis in magnitude.
pub proof fn lemma_settled_share_bound(r: Ratio, basis: int)
    requires
        r.bounded(),
    ensures
        -abs(basis) <= settled_share(r, basis) <= abs(basis),
{
    let n = r.num as int;
    let d = r.den as int;
    let p = n * basis;
    let an = abs(n);
    let ab = abs(basis);
    assert(abs(p) == an * ab) by {
        vstd::arithmetic::mul::lemma_mul_by_zero_is_zero(n);
        if n >= 0 && basis >= 0 {
            vstd::arithmetic::mul::lemma_mul_nonnegative(n, basis);
        } else if n < 0 && basis < 0 {
            assert(n * basis == (-n) * (-basis)) by (nonlinear_arith);
            vstd::arithmetic::mul::lemma_mul_nonnegative(-n, -basis);
        } else if n >= 0 && basis < 0 {
            assert(n * basis == -(n * (-basis))) by (nonlinear_arith);
            vstd::arithmetic::mul::lemma_mul_nonnegative(n, -basis);
        } else {
            assert(n * basis == -((-n) * basis)) by (nonlinear_arith);
            vstd::arithmetic::mul::lemma_mul_nonnegative(-n, basis);
        }
    }
    lemma_div_quotient_bound(an, ab, d);
    if p >= 0 {
        assert(settled_share(r, basis) == abs(p) / d);
    } else {
        assert(settled_share(r, basis) == -(abs(p) / d));
    }
}

/// The absolute value of a mathematical integer.
pub open spec fn abs(x: int) -> int {
    if x >= 0 {
        x
    } else {
        -x
    }
}

/// Computes the settled amount `settled_share(r, basis)` in executable code:
/// magnitudes are divided in 128-bit arithmetic and the sign is restored,
/// which is exactly truncation toward zero.
pub fn settle_share(r: Ratio, basis: i64) -> (out: i64)
    requires
        r.bounded(),
        i64::MIN <= settled_share(r, basis as int) <= i64::MAX,
    ensures
        out as int == settled_share(r, basis as int),
{
    proof {
        lemma_settled_share_bound(r, basis as int);
    }
    let num = r.num;
    let den = r.den;
    let mag_num: u64 = if num < 0 {
        (-num) as u64
    } else {
        num as u64
    };
    let basis_wide: i128 = basis as i128;
    let mag_basis: u128 = if basis_wide < 0 {
        (-basis_wide) as u128
    } else {
        basis_wide as u128
    };
    proof {
        assert((mag_num as u128) * mag_basis <= u128::MAX) by (nonlinear_arith)
            requires
                mag_num as u128 <= 0xFFFF_FFFF_FFFF_FFFFu128,
                mag_basis <= 0x8000_0000_0000_0000u128,
        ;
    }
    let prod: u128 = (mag_num as u128) * mag_basis;
    let quot: u128 = prod / (den as u128);
    proof {
        let n = r.num as int;
        let d = r.den as int;
        let ab = abs(basis as int);
        assert(prod == abs(n) * ab) by (nonlinear_arith)
            requires
                mag_num == abs(n),
                mag_basis == ab,
                prod == (mag_num as u128) * mag_basis,
                0 <= mag_num,
                0 <= mag_basis,
        ;
        assert(abs(n * (basis as int)) == abs(n) * ab) by {
            if n >= 0 && (basis as int) >= 0 {
                vstd::arithmetic::mul::lemma_mul_nonnegative(n, basis as int);
            } else if n < 0 && (basis as int) < 0 {
                assert(n * (basis as int) == (-n) * (-(basis as int))) by (nonlinear_arith);
                vstd::arithmetic::mul::lemma_mul_nonnegative(-n, -(basis as int));
            } else if n >= 0 && (basis as int) < 0 {
                assert(n * (basis as int) == -(n * (-(basis as int)))) by (nonlinear_arith);
                vstd::arithmetic::mul::lemma_mul_nonnegative(n, -(basis as int));
            } else {
                assert(n * (basis as int) == -((-n) * (basis as int))) by (nonlinear_arith);
                vstd::arithmetic::mul::lemma_mul_nonnegative(-n, basis as int);
            }
        }
        lemma_div_quotient_bound(abs(n), ab, d);
        assert(quot == abs(n * (basis as int)) / d);
    }
    if (num < 0) != (basis < 0) {
        let signed: i128 = -(quot as i128);
        proof {
            let n = r.num as int;
            let b = basis as int;
            let p = n * b;
            let d = r.den as int;
            assert(p <= 0) by (nonlinear_arith)
                requires
                    (n < 0 && b >= 0) || (n >= 0 && b < 0),
                    p == n * b,
            ;
            if p == 0 {
                vstd::arithmetic::div_mod::lemma_div_basics(d);
                assert(quot == 0);
            } else {
                assert(trunc_div(p, d) == -(abs(p) / d));
            }
        }
        signed as i64
    } else {
        proof {
            let n = r.num as int;
            let b = basis as int;
            let p = n * b;
            let d = r.den as int;
            assert(p >= 0) by (nonlinear_arith)
                requires
                    (n >= 0 && b >= 0) || (n < 0 && b < 0),
                    p == n * b,
            ;
            assert(trunc_div(p, d) == abs(p) / d);
        }
        quot as i64
    }
}

} // verus!
