//! Numbers as the library carries them.
use vstd::prelude::*;

verus! {

/// A number stored as an IEEE 754 bit pattern. The library moves it around and
/// compares it bit by bit; whoever computes with it decodes the bits.
#[derive(Debug, Clone, Copy, PartialEq, Eq, Structural)]
pub enum Real {
    /// The bits of a single-precision number.
    Single(u32),
    /// The bits of a double-precision number, to be rounded to single
    /// precision before use.
    Double(u64),
}

/// The bits of 1e-6 in single precision.
pub const ONE_MILLIONTH: u32 = 0x358637BD;

/// The bits of 10000 in single precision.
pub const TEN_THOUSAND: u32 = 0x461C4000;

/// The bits of 1 in single precision.
pub const ONE: u32 = 0x3F800000;

/// The quotient rounded towards zero.
pub open spec fn trunc_div(a: int, b: int) -> int {
    if b > 0 {
        if a >= 0 {
            a / b
        } else {
            -((-a) / b)
        }
    } else {
        if a >= 0 {
            -(a / (-b))
        } else {
            (-a) / (-b)
        }
    }
}

/// Divides, rounding towards zero.
pub fn div_toward_zero(a: i64, b: i64) -> (r: i64)
    requires
        b != 0,
        !(a == i64::MIN && b == -1),
    ensures
        r == trunc_div(a as int, b as int),
{
    if b > 0 {
        a / b
    } else {
        let d: i128 = 0 - b as i128;
        let q: i128 = a as i128 / d;
        proof {
            let m = if a >= 0 {
                a as int
            } else {
                -(a as int)
            };
            vstd::arithmetic::div_mod::lemma_div_pos_is_pos(m, d as int);
            if d >= 2 {
                assert(m / (d as int) <= m / 2) by (nonlinear_arith)
                    requires
                        m >= 0,
                        d >= 2,
                ;
            } else {
                assert(m / 1 == m);
            }
        }
        (0 - q) as i64
    }
}

/// A quotient rounded towards zero: what is left over is smaller than the divisor and has
/// the sign of what was divided.
pub proof fn law_quotients_round_towards_zero(a: int, b: int)
    requires
        b != 0,
    ensures
        ({
            let q = trunc_div(a, b);
            let r = a - q * b;
            &&& -(if b > 0 {
                b
            } else {
                -b
            }) < r < (if b > 0 {
                b
            } else {
                -b
            })
            &&& a >= 0 ==> r >= 0
            &&& a <= 0 ==> r <= 0
        }),
{
    let m = if a >= 0 {
        a
    } else {
        -a
    };
    let d = if b > 0 {
        b
    } else {
        -b
    };
    vstd::arithmetic::div_mod::lemma_fundamental_div_mod(m, d);
    vstd::arithmetic::div_mod::lemma_mod_bound(m, d);
    let k = m / d;
    assert(d * k == k * d) by (nonlinear_arith);
    assert((-k) * (-d) == k * d && (-k) * d == -(k * d) && k * (-d) == -(k * d)) by (nonlinear_arith);
}

} // verus!
