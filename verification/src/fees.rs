use vstd::prelude::*;

use crate::errors::MMMErrorCode;
use crate::state::Pool;

verus! {

/// A basis-point fee: `total * bp / 10000`, rounded down.
pub open spec fn fee_of(total: int, bp: int) -> int {
    total * bp / 10000
}

/// What the LP fee call returns: 0 while the pool has no sell-side
/// inventory or its standing buy liquidity is below the spot price (both
/// deliberate suppression rules), otherwise the basis-point fee.
pub open spec fn lp_fee_spec(pool: Pool, buyside_sol_escrow_balance: int, total_sol_price: int) -> int {
    if pool.sellside_orders_count < 1 {
        0
    } else if buyside_sol_escrow_balance < pool.spot_price {
        0
    } else {
        fee_of(total_sol_price, pool.lp_fee_bp as int)
    }
}

/// A valid basis-point fee of a 64-bit amount fits in 64 bits.
proof fn lemma_fee_fits(total: int, bp: int)
    requires
        0 <= total <= u64::MAX,
        0 <= bp <= 10000,
    ensures
        0 <= fee_of(total, bp) <= total,
{
    assert(total * bp <= total * 10000) by (nonlinear_arith)
        requires
            0 <= total,
            bp <= 10000,
    ;
    assert(total * bp / 10000 <= total * 10000 / 10000);
    assert(total * 10000 / 10000 == total) by (nonlinear_arith);
    assert(0 <= total * bp) by (nonlinear_arith)
        requires
            0 <= total,
            0 <= bp,
    ;
}

/// Derives the protocol (LP) fee owed on a computed aggregate price.
/// Never fails: the widened intermediate cannot leave 128 bits, and with a
/// valid basis-point field the fee fits back into 64 bits.
pub fn get_sol_lp_fee(pool: &Pool, buyside_sol_escrow_balance: u64, total_sol_price: u64) -> (r:
    Result<u64, MMMErrorCode>)
    requires
        pool.lp_fee_bp <= 10000,
    ensures
        r == Ok::<u64, MMMErrorCode>(
            lp_fee_spec(*pool, buyside_sol_escrow_balance as int, total_sol_price as int) as u64,
        ),
        pool.sellside_orders_count < 1 ==> r == Ok::<u64, MMMErrorCode>(0u64),
        buyside_sol_escrow_balance < pool.spot_price ==> r == Ok::<u64, MMMErrorCode>(0u64),
{
    if pool.sellside_orders_count < 1 {
        return Ok(0);
    }
    if buyside_sol_escrow_balance < pool.spot_price {
        return Ok(0);
    }
    proof {
        lemma_fee_fits(total_sol_price as int, pool.lp_fee_bp as int);
        assert((total_sol_price as u128) * (pool.lp_fee_bp as u128) <= u128::MAX)
            by (nonlinear_arith)
            requires
                total_sol_price <= u64::MAX,
                pool.lp_fee_bp <= 10000,
        ;
    }
    let scaled = match (total_sol_price as u128).checked_mul(pool.lp_fee_bp as u128) {
        Some(v) => v,
        None => {
            return Err(MMMErrorCode::NumericOverflow);
        },
    };
    let fee = match scaled.checked_div(10000) {
        Some(v) => v,
        None => {
            return Err(MMMErrorCode::NumericOverflow);
        },
    };
    Ok(fee as u64)
}

/// Derives the referral fee owed on a computed aggregate price; unlike the
/// LP fee it is never suppressed. Never fails for a valid basis-point
/// field.
pub fn get_sol_referral_fee(pool: &Pool, total_sol_price: u64) -> (r: Result<u64, MMMErrorCode>)
    requires
        pool.referral_bp <= 10000,
    ensures
        r == Ok::<u64, MMMErrorCode>(
            fee_of(total_sol_price as int, pool.referral_bp as int) as u64,
        ),
{
    proof {
        lemma_fee_fits(total_sol_price as int, pool.referral_bp as int);
        assert((total_sol_price as u128) * (pool.referral_bp as u128) <= u128::MAX)
            by (nonlinear_arith)
            requires
                total_sol_price <= u64::MAX,
                pool.referral_bp <= 10000,
        ;
    }
    let scaled = match (total_sol_price as u128).checked_mul(pool.referral_bp as u128) {
        Some(v) => v,
        None => {
            return Err(MMMErrorCode::NumericOverflow);
        },
    };
    let fee = match scaled.checked_div(10000) {
        Some(v) => v,
        None => {
            return Err(MMMErrorCode::NumericOverflow);
        },
    };
    Ok(fee as u64)
}

} // verus!
