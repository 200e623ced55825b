//! Checked arithmetic shared by the whole ledger, and the exchange
//! computation that converts native funds into derived tokens.
//!
//! Every counter update in the ledger goes through a checked operation:
//! overflow is reported, never wrapped. The exchange computation multiplies
//! before it divides — dividing first would truncate the rate itself — and
//! widens the intermediate product so the multiply cannot overflow.

use vstd::prelude::*;

verus! {

/// The exact exchange output: `floor(sol * numerator / denominator)`,
/// as an unbounded integer.
pub open spec fn val_amount_spec(sol: u64, numerator: u64, denominator: u64) -> int
    recommends
        denominator > 0,
{
    (sol * numerator) / (denominator as int)
}

/// Checked addition on `u64`: `Some` of the exact sum, or `None` where the
/// sum does not fit.
pub fn checked_add_u64(a: u64, b: u64) -> (r: Option<u64>)
    ensures
        r == if a + b <= u64::MAX {
            Some((a + b) as u64)
        } else {
            None::<u64>
        },
{
    a.checked_add(b)
}

/// Checked subtraction on `u64`: `Some` of the exact difference, or `None`
/// where it would go negative.
pub fn checked_sub_u64(a: u64, b: u64) -> (r: Option<u64>)
    ensures
        r == if a >= b {
            Some((a - b) as u64)
        } else {
            None::<u64>
        },
{
    a.checked_sub(b)
}

/// Computes `floor(sol * numerator / denominator)` with a widened
/// intermediate product, so the multiply itself cannot overflow; returns
/// `None` exactly where the final quotient does not fit in a `u64`.
pub fn compute_val_amount(sol: u64, numerator: u64, denominator: u64) -> (r: Option<u64>)
    requires
        denominator > 0,
    ensures
        r == if val_amount_spec(sol, numerator, denominator) <= u64::MAX {
            Some(val_amount_spec(sol, numerator, denominator) as u64)
        } else {
            None::<u64>
        },
{
    proof {
        assert((sol as int) * (numerator as int) <= (u64::MAX as int) * (u64::MAX as int))
            by (nonlinear_arith)
            requires
                sol <= u64::MAX,
                numerator <= u64::MAX,
        ;
    }
    let product: u128 = (sol as u128) * (numerator as u128);
    let quotient: u128 = product / (denominator as u128);
    if quotient <= u64::MAX as u128 {
        Some(quotient as u64)
    } else {
        None
    }
}

} // verus!
