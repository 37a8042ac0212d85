use vstd::prelude::*;

use crate::curve::check_curve;
use crate::curve::check_curve_spec;
use crate::errors::MMMErrorCode;
use crate::state::Pool;

verus! {

/// The administrative fields an update request may rewrite.
#[derive(Clone, Copy, Debug, PartialEq, Eq, Structural)]
pub struct UpdatePoolArgs {
    pub spot_price: u64,
    pub curve_type: u8,
    pub curve_delta: u64,
    pub reinvest: bool,
    pub expiry: i64,
    pub lp_fee_bp: u16,
}

/// The pool as an update leaves it: the requested fields rewritten, the
/// rest untouched.
pub open spec fn updated_pool(pool: Pool, args: UpdatePoolArgs) -> Pool {
    Pool {
        spot_price: args.spot_price,
        curve_type: args.curve_type,
        curve_delta: args.curve_delta,
        reinvest: args.reinvest,
        expiry: args.expiry,
        lp_fee_bp: args.lp_fee_bp,
        ..pool
    }
}

/// Applies an administrative update to a pool. The LP fee must be a valid
/// basis-point value and the curve configuration must pass `check_curve`;
/// a rejected request leaves the pool untouched, an accepted one rewrites
/// exactly the requested fields and preserves the pool invariant.
pub fn handler(pool: &mut Pool, args: UpdatePoolArgs) -> (r: Result<(), MMMErrorCode>)
    requires
        old(pool).wf(),
    ensures
        args.lp_fee_bp > 10000 ==> r == Err::<(), MMMErrorCode>(MMMErrorCode::InvalidLPFeeBP)
            && *final(pool) == *old(pool),
        args.lp_fee_bp <= 10000 && check_curve_spec(args.curve_type, args.curve_delta)
            != Ok::<(), MMMErrorCode>(()) ==> r == check_curve_spec(args.curve_type, args.curve_delta)
            && *final(pool) == *old(pool),
        args.lp_fee_bp <= 10000 && check_curve_spec(args.curve_type, args.curve_delta) == Ok::<
            (),
            MMMErrorCode,
        >(()) ==> r == Ok::<(), MMMErrorCode>(()) && *final(pool) == updated_pool(*old(pool), args),
        final(pool).wf(),
{
    if args.lp_fee_bp > 10000 {
        return Err(MMMErrorCode::InvalidLPFeeBP);
    }
    match check_curve(args.curve_type, args.curve_delta) {
        Ok(_) => {},
        Err(e) => {
            return Err(e);
        },
    }
    pool.spot_price = args.spot_price;
    pool.curve_type = args.curve_type;
    pool.curve_delta = args.curve_delta;
    pool.reinvest = args.reinvest;
    pool.expiry = args.expiry;
    pool.lp_fee_bp = args.lp_fee_bp;
    Ok(())
}

} // verus!
