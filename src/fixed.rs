use vstd::arithmetic::div_mod::lemma_fundamental_div_mod;
use vstd::arithmetic::div_mod::lemma_fundamental_div_mod_converse;
use vstd::prelude::*;

verus! {

/// The fixed-point unit: progress runs from 0 to `ONE`, and a number `n`
/// stands for `n / ONE`.
pub const ONE: i64 = 1_000_000;

/// Floor division by a positive divisor. In specifications `/` on `int`
/// rounds towards negative infinity when the divisor is positive; Rust's
/// `/` on signed integers rounds towards zero, so the two differ for a
/// negative dividend.
pub fn floor_div(n: i128, d: i128) -> (r: i128)
    requires
        d > 0,
        n > i128::MIN,
    ensures
        r == n / d,
{
    if n >= 0 {
        n / d
    } else {
        let m: i128 = -n - 1;
        let q: i128 = m / d;
        proof {
            lemma_fundamental_div_mod(m as int, d as int);
            let rem = m as int % d as int;
            assert(n as int == (-(q as int) - 1) * d as int + (d as int - rem - 1)) by (nonlinear_arith)
                requires
                    m as int == d as int * q as int + rem,
                    n as int == -(m as int) - 1,
            ;
            lemma_fundamental_div_mod_converse(n as int, d as int, -(q as int) - 1, d as int - rem - 1);
        }
        -q - 1
    }
}

} // verus!
