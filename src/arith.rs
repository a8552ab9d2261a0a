use vstd::prelude::*;
use vstd::arithmetic::div_mod::{lemma_fundamental_div_mod, lemma_fundamental_div_mod_converse};

verus! {

/// Quotient of `a` by a positive `b`, rounded toward zero (the quotient of Rust's `/`).
pub open spec fn trunc_div(a: int, b: int) -> int {
    if a >= 0 {
        a / b
    } else {
        -((-a) / b)
    }
}

/// Floor division of `v` by a positive `d`, with the non-negative remainder.
pub fn div_mod_floor(v: i128, d: i128) -> (r: (i128, i128))
    requires
        d > 0,
        v > i128::MIN,
    ensures
        r.0 == v as int / d as int,
        r.1 == v as int % d as int,
        0 <= r.1 < d,
{
    let q = v / d;
    let m = v % d;
    proof {
        if v >= 0 {
            lemma_fundamental_div_mod(v as int, d as int);
        } else {
            lemma_fundamental_div_mod(-v as int, d as int);
        }
        assert(v == d * q + m) by (nonlinear_arith)
            requires
                v >= 0 ==> (q == v as int / d as int && m == v as int % d as int
                    && v == d * (v as int / d as int) + v as int % d as int),
                v < 0 ==> (q == -((-v) as int / d as int) && m == -((-v) as int % d as int)
                    && -v == d * ((-v) as int / d as int) + (-v) as int % d as int),
        ;
        assert(-d < m < d);
    }
    if m < 0 {
        proof {
            assert(v == (q - 1) * d + (m + d)) by (nonlinear_arith)
                requires
                    v == d * q + m,
            ;
            lemma_fundamental_div_mod_converse(v as int, d as int, q - 1, m + d);
        }
        (q - 1, m + d)
    } else {
        proof {
            assert(v == q * d + m) by (nonlinear_arith)
                requires
                    v == d * q + m,
            ;
            lemma_fundamental_div_mod_converse(v as int, d as int, q as int, m as int);
        }
        (q, m)
    }
}

} // verus!
