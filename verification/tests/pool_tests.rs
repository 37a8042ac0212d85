use mmm::errors::MMMErrorCode;
use mmm::lifecycle::{try_close_pool, CloseVerdict};
use mmm::state::{Address, Allowlist, Pool, ALLOWLIST_KIND_MCC};
use mmm::update_pool::{handler, UpdatePoolArgs};
use mmm::{CURVE_KIND_EXP, CURVE_KIND_LINEAR};

fn base_pool() -> Pool {
    Pool {
        spot_price: 1000,
        curve_type: CURVE_KIND_LINEAR,
        curve_delta: 100,
        lp_fee_bp: 250,
        referral_bp: 100,
        reinvest: true,
        expiry: 99,
        sellside_orders_count: 2,
        uuid: Address { w0: 1, w1: 2, w2: 3, w3: 4 },
        owner: Address { w0: 5, w1: 6, w2: 7, w3: 8 },
    }
}

fn zeroed_pool() -> Pool {
    Pool {
        spot_price: 0,
        curve_type: 0,
        curve_delta: 0,
        lp_fee_bp: 0,
        referral_bp: 0,
        reinvest: false,
        expiry: 0,
        sellside_orders_count: 0,
        uuid: Address::zeroed(),
        owner: Address::zeroed(),
    }
}

#[test]
fn update_rewrites_requested_fields_only() {
    let mut pool = base_pool();
    let args = UpdatePoolArgs {
        spot_price: 5000,
        curve_type: CURVE_KIND_EXP,
        curve_delta: 300,
        reinvest: false,
        expiry: 7,
        lp_fee_bp: 100,
    };
    assert_eq!(handler(&mut pool, args), Ok(()));
    assert_eq!(pool.spot_price, 5000);
    assert_eq!(pool.curve_type, CURVE_KIND_EXP);
    assert_eq!(pool.curve_delta, 300);
    assert!(!pool.reinvest);
    assert_eq!(pool.expiry, 7);
    assert_eq!(pool.lp_fee_bp, 100);
    // untouched fields
    assert_eq!(pool.referral_bp, 100);
    assert_eq!(pool.sellside_orders_count, 2);
    assert_eq!(pool.uuid, base_pool().uuid);
    assert_eq!(pool.owner, base_pool().owner);
}

#[test]
fn update_rejects_excessive_lp_fee() {
    let mut pool = base_pool();
    let args = UpdatePoolArgs {
        spot_price: 5000,
        curve_type: CURVE_KIND_LINEAR,
        curve_delta: 300,
        reinvest: false,
        expiry: 7,
        lp_fee_bp: 10001,
    };
    assert_eq!(handler(&mut pool, args), Err(MMMErrorCode::InvalidLPFeeBP));
    assert_eq!(pool, base_pool());
}

#[test]
fn update_rejects_bad_curve() {
    let mut pool = base_pool();
    let mut args = UpdatePoolArgs {
        spot_price: 5000,
        curve_type: 2,
        curve_delta: 300,
        reinvest: false,
        expiry: 7,
        lp_fee_bp: 100,
    };
    assert_eq!(handler(&mut pool, args), Err(MMMErrorCode::InvalidCurveType));
    assert_eq!(pool, base_pool());
    args.curve_type = CURVE_KIND_EXP;
    args.curve_delta = 10001;
    assert_eq!(handler(&mut pool, args), Err(MMMErrorCode::InvalidCurveDelta));
    assert_eq!(pool, base_pool());
}

#[test]
fn close_zeroes_emptied_pool() {
    let mut pool = base_pool();
    pool.sellside_orders_count = 0;
    assert_eq!(try_close_pool(&mut pool, 0), CloseVerdict::Closed);
    assert_eq!(pool, zeroed_pool());
}

#[test]
fn close_is_noop_with_live_inventory() {
    let mut pool = base_pool();
    assert_eq!(try_close_pool(&mut pool, 0), CloseVerdict::NotEligible);
    assert_eq!(pool, base_pool());
}

#[test]
fn close_is_noop_with_standing_escrow() {
    let mut pool = base_pool();
    pool.sellside_orders_count = 0;
    assert_eq!(try_close_pool(&mut pool, 1), CloseVerdict::NotEligible);
    let mut expected = base_pool();
    expected.sellside_orders_count = 0;
    assert_eq!(pool, expected);
}

#[test]
fn allowlist_entry_validity() {
    for kind in 0..=ALLOWLIST_KIND_MCC {
        assert!(Allowlist { kind, value: Address::zeroed() }.valid());
    }
    assert!(!Allowlist { kind: 4, value: Address::zeroed() }.valid());
    assert!(!Allowlist { kind: 255, value: Address::zeroed() }.valid());
}
