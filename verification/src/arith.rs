//! Integer division in its two roundings: towards negative infinity and
//! towards zero.
//!
//! In contracts `/` and `%` on `int` round towards negative infinity for a
//! positive divisor; the machine operators round towards zero. Both are
//! needed: calendar formulas are stated with floors, the feast rules with
//! the machine's remainder.

use vstd::arithmetic::div_mod::lemma_fundamental_div_mod_converse;
use vstd::prelude::*;

verus! {

/// The quotient of `a` by a positive `b`, rounded towards zero.
pub open spec fn trunc_div(a: int, b: int) -> int
    recommends
        b > 0,
{
    if a >= 0 {
        a / b
    } else {
        -((-a) / b)
    }
}

/// The remainder that goes with [`trunc_div`]: it has the sign of `a`.
pub open spec fn trunc_rem(a: int, b: int) -> int
    recommends
        b > 0,
{
    if a >= 0 {
        a % b
    } else {
        -((-a) % b)
    }
}

/// The quotient of `a` by a positive `b`, rounded towards negative infinity.
pub fn floor_div(a: i128, b: i128) -> (q: i128)
    requires
        b > 0,
    ensures
        q == a as int / b as int,
{
    let q: i128 = a / b;
    let r: i128 = a % b;
    if r < 0 {
        proof {
            let k: int = (-a) as int / b as int;
            let m: int = (-a) as int % b as int;
            assert((-a) as int == b * k + m) by (nonlinear_arith)
                requires
                    b > 0,
                    k == (-a) as int / b as int,
                    m == (-a) as int % b as int,
            ;
            assert(a == (-k - 1) * b + (b - m)) by (nonlinear_arith)
                requires
                    (-a) as int == b * k + m,
            ;
            lemma_fundamental_div_mod_converse(a as int, b as int, -k - 1, b - m);
        }
        q - 1
    } else {
        proof {
            if a < 0 {
                let k: int = (-a) as int / b as int;
                assert((-a) as int == b * k) by (nonlinear_arith)
                    requires
                        b > 0,
                        k == (-a) as int / b as int,
                        (-a) as int % b as int == 0,
                ;
                assert(a == (-k) * b + 0) by (nonlinear_arith)
                    requires
                        (-a) as int == b * k,
                ;
                lemma_fundamental_div_mod_converse(a as int, b as int, -k, 0);
            }
        }
        q
    }
}

/// The remainder of `a` by a positive `b` that lies in `0..b`.
pub fn floor_mod(a: i128, b: i128) -> (r: i128)
    requires
        b > 0,
    ensures
        r == a as int % b as int,
        0 <= r < b,
{
    let r: i128 = a % b;
    if r < 0 {
        proof {
            let k: int = (-a) as int / b as int;
            let m: int = (-a) as int % b as int;
            assert((-a) as int == b * k + m) by (nonlinear_arith)
                requires
                    b > 0,
                    k == (-a) as int / b as int,
                    m == (-a) as int % b as int,
            ;
            assert(a == (-k - 1) * b + (b - m)) by (nonlinear_arith)
                requires
                    (-a) as int == b * k + m,
            ;
            lemma_fundamental_div_mod_converse(a as int, b as int, -k - 1, b - m);
        }
        r + b
    } else {
        proof {
            if a < 0 {
                let k: int = (-a) as int / b as int;
                assert((-a) as int == b * k) by (nonlinear_arith)
                    requires
                        b > 0,
                        k == (-a) as int / b as int,
                        (-a) as int % b as int == 0,
                ;
                assert(a == (-k) * b + 0) by (nonlinear_arith)
                    requires
                        (-a) as int == b * k,
                ;
                lemma_fundamental_div_mod_converse(a as int, b as int, -k, 0);
            }
        }
        r
    }
}

} // verus!
