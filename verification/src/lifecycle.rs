use vstd::prelude::*;

use crate::state::Pool;

verus! {

/// What the lifecycle guard decided: `Closed` means the pool's storage
/// was cleared; `NotEligible` is a no-op, not an error.
#[derive(Clone, Copy, Debug, PartialEq, Eq, Structural)]
pub enum CloseVerdict {
    Closed,
    NotEligible,
}

/// Whether a pool qualifies for closure and reclamation: no live
/// sell-side inventory and no standing buy-side escrow.
pub open spec fn close_eligible(pool: Pool, buyside_sol_escrow_balance: u64) -> bool {
    pool.sellside_orders_count == 0 && buyside_sol_escrow_balance == 0
}

/// Tests closure eligibility without touching the pool, for callers that
/// must order an external custody transfer before the clearing step.
pub fn is_close_eligible(pool: &Pool, buyside_sol_escrow_balance: u64) -> (r: bool)
    ensures
        r == close_eligible(*pool, buyside_sol_escrow_balance),
{
    pool.sellside_orders_count == 0 && buyside_sol_escrow_balance == 0
}

/// The lifecycle guard: clears an emptied pool's storage to the zeroed
/// state, and leaves any pool that still holds inventory or escrow
/// byte-identical. The caller must return custody of the pool's held
/// balance to its owner *before* this call zeroes the identity fields
/// needed for that transfer.
pub fn try_close_pool(pool: &mut Pool, buyside_sol_escrow_balance: u64) -> (r: CloseVerdict)
    ensures
        close_eligible(*old(pool), buyside_sol_escrow_balance) ==> r == CloseVerdict::Closed
            && *final(pool) == Pool::zeroed_spec(),
        !close_eligible(*old(pool), buyside_sol_escrow_balance) ==> r == CloseVerdict::NotEligible
            && *final(pool) == *old(pool),
{
    if pool.sellside_orders_count != 0 {
        return CloseVerdict::NotEligible;
    }
    if buyside_sol_escrow_balance != 0 {
        return CloseVerdict::NotEligible;
    }
    pool.spot_price = 0;
    pool.curve_type = 0;
    pool.curve_delta = 0;
    pool.lp_fee_bp = 0;
    pool.referral_bp = 0;
    pool.reinvest = false;
    pool.expiry = 0;
    pool.sellside_orders_count = 0;
    pool.uuid = crate::state::Address::zeroed();
    pool.owner = crate::state::Address::zeroed();
    CloseVerdict::Closed
}

} // verus!
