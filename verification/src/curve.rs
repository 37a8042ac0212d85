use vstd::prelude::*;

use crate::errors::MMMErrorCode;
use crate::state::Pool;
use vstd::arithmetic::div_mod::lemma_div_is_ordered;
use vstd::arithmetic::div_mod::lemma_div_multiples_vanish;
use vstd::arithmetic::div_mod::lemma_div_pos_is_pos;
use vstd::arithmetic::div_mod::lemma_fundamental_div_mod;
use vstd::arithmetic::div_mod::lemma_mod_bound;

verus! {

/// What validating a curve configuration returns: the type must be a
/// recognized tag, and an exponential delta must be a basis-point rate.
pub open spec fn check_curve_spec(curve_type: u8, curve_delta: u64) -> Result<(), MMMErrorCode> {
    if curve_type > crate::CURVE_KIND_EXP {
        Err(MMMErrorCode::InvalidCurveType)
    } else if curve_type == crate::CURVE_KIND_EXP && curve_delta > crate::MAX_CURVE_DELTA_BP {
        Err(MMMErrorCode::InvalidCurveDelta)
    } else {
        Ok(())
    }
}

/// Rejects malformed curve configuration before it can be stored; must run
/// on every path that writes `curve_type`/`curve_delta` into a pool.
pub fn check_curve(curve_type: u8, curve_delta: u64) -> (r: Result<(), MMMErrorCode>)
    ensures
        r == check_curve_spec(curve_type, curve_delta),
{
    if curve_type > crate::CURVE_KIND_EXP {
        return Err(MMMErrorCode::InvalidCurveType);
    }
    if curve_type == crate::CURVE_KIND_EXP && curve_delta > crate::MAX_CURVE_DELTA_BP {
        return Err(MMMErrorCode::InvalidCurveDelta);
    }
    Ok(())
}

/// Whether every checked step of the linear buy-side computation stays
/// within 64 bits: the closed form `n*(2p - (n-1)*d)/2` and the new spot
/// `p - n*d`.
pub open spec fn lin_buy_ok(p: int, d: int, n: int) -> bool {
    &&& 2 * p <= u64::MAX
    &&& n >= 1
    &&& (n - 1) * d <= u64::MAX
    &&& (n - 1) * d <= 2 * p
    &&& n * (2 * p - (n - 1) * d) <= u64::MAX
    &&& n * d <= u64::MAX
    &&& n * d <= p
}

/// Aggregate price of buying `n` units on a linear curve: the arithmetic
/// series `p + (p-d) + ... + (p-(n-1)d)` in closed form.
pub open spec fn lin_buy_total(p: int, d: int, n: int) -> int {
    n * (2 * p - (n - 1) * d) / 2
}

/// Marginal price after buying `n` units on a linear curve.
pub open spec fn lin_buy_next(p: int, d: int, n: int) -> int {
    p - n * d
}

/// Whether every checked step of the linear sell-side computation stays
/// within 64 bits.
pub open spec fn lin_sell_ok(p: int, d: int, n: int) -> bool {
    &&& 2 * p <= u64::MAX
    &&& n >= 1
    &&& (n - 1) * d <= u64::MAX
    &&& 2 * p + (n - 1) * d <= u64::MAX
    &&& n * (2 * p + (n - 1) * d) <= u64::MAX
    &&& n * d <= u64::MAX
    &&& p + n * d <= u64::MAX
}

/// Aggregate price of selling `n` units to a linear pool: the arithmetic
/// series `p + (p+d) + ... + (p+(n-1)d)` in closed form.
pub open spec fn lin_sell_total(p: int, d: int, n: int) -> int {
    n * (2 * p + (n - 1) * d) / 2
}

/// Marginal price after selling `n` units to a linear pool.
pub open spec fn lin_sell_next(p: int, d: int, n: int) -> int {
    p + n * d
}

/// The linear buy-side call: closed-form price and next spot, or
/// `NumericOverflow` as soon as any checked step leaves 64 bits.
pub open spec fn lin_buy_result(p: int, d: int, n: int) -> Result<(u64, u64), MMMErrorCode> {
    if lin_buy_ok(p, d, n) {
        Ok((lin_buy_total(p, d, n) as u64, lin_buy_next(p, d, n) as u64))
    } else {
        Err(MMMErrorCode::NumericOverflow)
    }
}

/// The linear sell-side call.
pub open spec fn lin_sell_result(p: int, d: int, n: int) -> Result<(u64, u64), MMMErrorCode> {
    if lin_sell_ok(p, d, n) {
        Ok((lin_sell_total(p, d, n) as u64, lin_sell_next(p, d, n) as u64))
    } else {
        Err(MMMErrorCode::NumericOverflow)
    }
}

/// One geometric walk over the curve, exactly as the iterative engine
/// takes it: each of the `n` steps adds the running spot price to the
/// running total (failing on 64-bit overflow), then scales it by
/// `num/den` in a widened 128-bit intermediate, truncating the quotient.
/// Every step price, the final spot price and the total must fit in 64
/// bits: any value that leaves that range fails the whole walk — nothing
/// is wrapped or saturated.
pub open spec fn exp_walk(total: int, curr: int, num: int, den: int, n: nat) -> Option<(int, int)>
    decreases n,
{
    if curr > u64::MAX {
        None
    } else if n == 0 {
        Some((total, curr))
    } else if total + curr > u64::MAX {
        None
    } else if curr * num > u128::MAX {
        None
    } else {
        exp_walk(total + curr, curr * num / den, num, den, (n - 1) as nat)
    }
}

/// The exponential call: the iterative walk's outcome, with overflow
/// reported as `NumericOverflow`.
pub open spec fn exp_result(p: int, num: int, den: int, n: nat) -> Result<(u64, u64), MMMErrorCode> {
    match exp_walk(0, p, num, den, n) {
        Some((t, nx)) => Ok((t as u64, nx as u64)),
        None => Err(MMMErrorCode::NumericOverflow),
    }
}

/// What pricing a batch of `n` units returns for every pool and direction:
/// closed-form arithmetic series for linear curves, the iterative geometric
/// walk for exponential ones, `InvalidCurveType` for anything else.
pub open spec fn price_spec(pool: Pool, n: u64, fulfill_buy: bool) -> Result<(u64, u64),
    MMMErrorCode> {
    let p = pool.spot_price as int;
    let d = pool.curve_delta as int;
    if fulfill_buy {
        if pool.curve_type == crate::CURVE_KIND_LINEAR {
            lin_buy_result(p, d, n as int)
        } else if pool.curve_type == crate::CURVE_KIND_EXP {
            exp_result(p, 10000, d + 10000, n as nat)
        } else {
            Err(MMMErrorCode::InvalidCurveType)
        }
    } else {
        if pool.curve_type == crate::CURVE_KIND_LINEAR {
            lin_sell_result(p, d, n as int)
        } else if pool.curve_type == crate::CURVE_KIND_EXP {
            exp_result(p, d + 10000, 10000, n as nat)
        } else {
            Err(MMMErrorCode::InvalidCurveType)
        }
    }
}

fn linear_buy_price(p: u64, delta: u64, n: u64) -> (r: Result<(u64, u64), MMMErrorCode>)
    ensures
        r == lin_buy_result(p as int, delta as int, n as int),
{
    let two_p = match p.checked_mul(2) {
        Some(v) => v,
        None => {
            return Err(MMMErrorCode::NumericOverflow);
        },
    };
    let n_minus_1 = match n.checked_sub(1) {
        Some(v) => v,
        None => {
            return Err(MMMErrorCode::NumericOverflow);
        },
    };
    let decline = match n_minus_1.checked_mul(delta) {
        Some(v) => v,
        None => {
            return Err(MMMErrorCode::NumericOverflow);
        },
    };
    let last_term = match two_p.checked_sub(decline) {
        Some(v) => v,
        None => {
            return Err(MMMErrorCode::NumericOverflow);
        },
    };
    let twice_total = match n.checked_mul(last_term) {
        Some(v) => v,
        None => {
            return Err(MMMErrorCode::NumericOverflow);
        },
    };
    let total_price = twice_total / 2;
    let spread = match n.checked_mul(delta) {
        Some(v) => v,
        None => {
            return Err(MMMErrorCode::NumericOverflow);
        },
    };
    let final_price = match p.checked_sub(spread) {
        Some(v) => v,
        None => {
            return Err(MMMErrorCode::NumericOverflow);
        },
    };
    Ok((total_price, final_price))
}

fn linear_sell_price(p: u64, delta: u64, n: u64) -> (r: Result<(u64, u64), MMMErrorCode>)
    ensures
        r == lin_sell_result(p as int, delta as int, n as int),
{
    let two_p = match p.checked_mul(2) {
        Some(v) => v,
        None => {
            return Err(MMMErrorCode::NumericOverflow);
        },
    };
    let n_minus_1 = match n.checked_sub(1) {
        Some(v) => v,
        None => {
            return Err(MMMErrorCode::NumericOverflow);
        },
    };
    let climb = match n_minus_1.checked_mul(delta) {
        Some(v) => v,
        None => {
            return Err(MMMErrorCode::NumericOverflow);
        },
    };
    let last_term = match two_p.checked_add(climb) {
        Some(v) => v,
        None => {
            return Err(MMMErrorCode::NumericOverflow);
        },
    };
    let twice_total = match n.checked_mul(last_term) {
        Some(v) => v,
        None => {
            return Err(MMMErrorCode::NumericOverflow);
        },
    };
    let total_price = twice_total / 2;
    let spread = match n.checked_mul(delta) {
        Some(v) => v,
        None => {
            return Err(MMMErrorCode::NumericOverflow);
        },
    };
    let final_price = match p.checked_add(spread) {
        Some(v) => v,
        None => {
            return Err(MMMErrorCode::NumericOverflow);
        },
    };
    Ok((total_price, final_price))
}

/// The buy-side step prices summed one by one: `p + (p-d) + ... + (p-(n-1)d)`.
pub open spec fn lin_buy_series(p: int, d: int, n: nat) -> int
    decreases n,
{
    if n == 0 {
        0
    } else {
        (p - (n - 1) * d) + lin_buy_series(p, d, (n - 1) as nat)
    }
}

/// The sell-side step prices summed one by one: `p + (p+d) + ... + (p+(n-1)d)`.
pub open spec fn lin_sell_series(p: int, d: int, n: nat) -> int
    decreases n,
{
    if n == 0 {
        0
    } else {
        (p + (n - 1) * d) + lin_sell_series(p, d, (n - 1) as nat)
    }
}

proof fn lemma_lin_buy_series_twice(p: int, d: int, n: nat)
    ensures
        2 * lin_buy_series(p, d, n) == n * (2 * p - (n - 1) * d),
    decreases n,
{
    if n > 0 {
        lemma_lin_buy_series_twice(p, d, (n - 1) as nat);
        assert(2 * lin_buy_series(p, d, n) == n * (2 * p - (n - 1) * d)) by (nonlinear_arith)
            requires
                2 * lin_buy_series(p, d, (n - 1) as nat) == (n - 1) * (2 * p - (n - 2) * d),
                lin_buy_series(p, d, n) == (p - (n - 1) * d) + lin_buy_series(p, d, (n - 1) as nat),
                n >= 1,
        ;
    } else {
        assert(n * (2 * p - (n - 1) * d) == 0) by (nonlinear_arith)
            requires
                n == 0,
        ;
    }
}

proof fn lemma_lin_sell_series_twice(p: int, d: int, n: nat)
    ensures
        2 * lin_sell_series(p, d, n) == n * (2 * p + (n - 1) * d),
    decreases n,
{
    if n > 0 {
        lemma_lin_sell_series_twice(p, d, (n - 1) as nat);
        assert(2 * lin_sell_series(p, d, n) == n * (2 * p + (n - 1) * d)) by (nonlinear_arith)
            requires
                2 * lin_sell_series(p, d, (n - 1) as nat) == (n - 1) * (2 * p + (n - 2) * d),
                lin_sell_series(p, d, n) == (p + (n - 1) * d) + lin_sell_series(
                    p,
                    d,
                    (n - 1) as nat,
                ),
                n >= 1,
        ;
    } else {
        assert(n * (2 * p + (n - 1) * d) == 0) by (nonlinear_arith)
            requires
                n == 0,
        ;
    }
}

/// The closed-form buy-side total is exactly the arithmetic series of the
/// `n` step prices; the halved product loses nothing to rounding.
pub proof fn lemma_lin_buy_total_is_series(p: int, d: int, n: nat)
    ensures
        lin_buy_total(p, d, n as int) == lin_buy_series(p, d, n),
{
    lemma_lin_buy_series_twice(p, d, n);
    lemma_div_multiples_vanish(lin_buy_series(p, d, n), 2);
}

/// The closed-form sell-side total is exactly the arithmetic series of the
/// `n` step prices.
pub proof fn lemma_lin_sell_total_is_series(p: int, d: int, n: nat)
    ensures
        lin_sell_total(p, d, n as int) == lin_sell_series(p, d, n),
{
    lemma_lin_sell_series_twice(p, d, n);
    lemma_div_multiples_vanish(lin_sell_series(p, d, n), 2);
}

/// Linear curves are exactly invertible: when neither leg overflows,
/// selling `n` units at spot `p` and then buying `n` back at the resulting
/// spot returns to exactly `p`.
pub proof fn lemma_linear_sell_buy_round_trip(p: u64, d: u64, n: u64)
    requires
        lin_sell_ok(p as int, d as int, n as int),
        lin_buy_ok(lin_sell_next(p as int, d as int, n as int), d as int, n as int),
    ensures
        lin_buy_next(lin_sell_next(p as int, d as int, n as int), d as int, n as int) == p as int,
{
}

/// A successful linear buy's aggregate price is exactly the sum of the
/// `n` step prices walked one at a time.
pub proof fn lemma_linear_buy_price_is_series(pool: Pool, n: u64, t: u64, nx: u64)
    requires
        pool.curve_type == crate::CURVE_KIND_LINEAR,
        price_spec(pool, n, true) == Ok::<(u64, u64), MMMErrorCode>((t, nx)),
    ensures
        t == lin_buy_series(pool.spot_price as int, pool.curve_delta as int, n as nat),
{
    let p = pool.spot_price as int;
    let d = pool.curve_delta as int;
    lemma_lin_buy_total_is_series(p, d, n as nat);
    assert(n * (2 * p - (n - 1) * d) >= 0) by (nonlinear_arith)
        requires
            n >= 1,
            (n - 1) * d <= 2 * p,
    ;
}

/// A successful linear sell's aggregate price is exactly the sum of the
/// `n` step prices walked one at a time.
pub proof fn lemma_linear_sell_price_is_series(pool: Pool, n: u64, t: u64, nx: u64)
    requires
        pool.curve_type == crate::CURVE_KIND_LINEAR,
        price_spec(pool, n, false) == Ok::<(u64, u64), MMMErrorCode>((t, nx)),
    ensures
        t == lin_sell_series(pool.spot_price as int, pool.curve_delta as int, n as nat),
{
    let p = pool.spot_price as int;
    let d = pool.curve_delta as int;
    lemma_lin_sell_total_is_series(p, d, n as nat);
    assert(n * (2 * p + (n - 1) * d) >= 0) by (nonlinear_arith)
        requires
            n >= 1,
            p >= 0,
            d >= 0,
    ;
}

/// Linear pricing is exactly invertible at the contract level: when a
/// pool sells `n` units and a buy of `n` units at the resulting spot
/// price also succeeds, that buy returns the spot price to its original
/// value.
pub proof fn lemma_linear_price_round_trip(
    pool: Pool,
    back: Pool,
    n: u64,
    t1: u64,
    p1: u64,
    t2: u64,
    p2: u64,
)
    requires
        pool.curve_type == crate::CURVE_KIND_LINEAR,
        price_spec(pool, n, false) == Ok::<(u64, u64), MMMErrorCode>((t1, p1)),
        back == (Pool { spot_price: p1, ..pool }),
        price_spec(back, n, true) == Ok::<(u64, u64), MMMErrorCode>((t2, p2)),
    ensures
        p2 == pool.spot_price,
{
}

/// The spot price alone after `n` scaling steps of the geometric walk,
/// with no range checks: each step multiplies by `num` and truncates the
/// division by `den`.
pub open spec fn exp_spot(curr: int, num: int, den: int, n: nat) -> int
    decreases n,
{
    if n == 0 {
        curr
    } else {
        exp_spot(curr * num / den, num, den, (n - 1) as nat)
    }
}

/// One scaling step keeps a non-negative spot non-negative.
proof fn lemma_exp_step_nonneg(curr: int, num: int, den: int)
    requires
        0 <= curr,
        0 <= num,
        0 < den,
    ensures
        0 <= curr * num / den,
{
    assert(0 <= curr * num) by (nonlinear_arith)
        requires
            0 <= curr,
            0 <= num,
    ;
    lemma_div_pos_is_pos(curr * num, den);
}

/// Scaling by `num/den` with `num >= den` cannot lower the spot.
proof fn lemma_exp_step_grows(curr: int, num: int, den: int)
    requires
        0 <= curr,
        0 < den <= num,
    ensures
        curr * num / den >= curr,
{
    assert(curr * den <= curr * num) by (nonlinear_arith)
        requires
            0 <= curr,
            den <= num,
    ;
    lemma_div_is_ordered(curr * den, curr * num, den);
    lemma_div_multiples_vanish(curr, den);
    assert(den * curr == curr * den) by (nonlinear_arith);
}

/// Scaling by `num/den` with `num <= den` cannot raise the spot.
proof fn lemma_exp_step_shrinks(curr: int, num: int, den: int)
    requires
        0 <= curr,
        0 < den,
        0 <= num <= den,
    ensures
        curr * num / den <= curr,
{
    assert(curr * num <= curr * den) by (nonlinear_arith)
        requires
            0 <= curr,
            num <= den,
    ;
    lemma_div_is_ordered(curr * num, curr * den, den);
    lemma_div_multiples_vanish(curr, den);
    assert(den * curr == curr * den) by (nonlinear_arith);
}

/// A successful walk's final spot is the bare spot iterate, and the
/// returned total and spot lie within 64 bits.
proof fn lemma_exp_walk_shape(total: int, curr: int, num: int, den: int, n: nat, t: int, nx: int)
    requires
        0 <= total <= u64::MAX,
        0 <= curr,
        0 <= num,
        0 < den,
        exp_walk(total, curr, num, den, n) == Some((t, nx)),
    ensures
        nx == exp_spot(curr, num, den, n),
        0 <= t <= u64::MAX,
        0 <= nx <= u64::MAX,
    decreases n,
{
    if n != 0 {
        lemma_exp_step_nonneg(curr, num, den);
        lemma_exp_walk_shape(total + curr, curr * num / den, num, den, (n - 1) as nat, t, nx);
    }
}

/// A successful sell-side walk (`num >= den`) only raises the spot and
/// collects at least `n` times the starting spot.
proof fn lemma_exp_walk_sell_lower_bounds(
    total: int,
    curr: int,
    num: int,
    den: int,
    n: nat,
    t: int,
    nx: int,
)
    requires
        0 <= total <= u64::MAX,
        0 <= curr,
        0 < den <= num,
        exp_walk(total, curr, num, den, n) == Some((t, nx)),
    ensures
        nx >= curr,
        t >= total + n * curr,
    decreases n,
{
    if n == 0 {
        assert(n * curr == 0) by (nonlinear_arith)
            requires
                n == 0,
        ;
    } else {
        lemma_exp_step_nonneg(curr, num, den);
        lemma_exp_step_grows(curr, num, den);
        let c2 = curr * num / den;
        lemma_exp_walk_sell_lower_bounds(total + curr, c2, num, den, (n - 1) as nat, t, nx);
        assert(t >= total + n * curr) by (nonlinear_arith)
            requires
                t >= (total + curr) + (n - 1) * c2,
                c2 >= curr,
                n >= 1,
        ;
    }
}

/// A successful buy-side walk (`num <= den`) only lowers the spot and
/// charges at most `n` times the starting spot.
proof fn lemma_exp_walk_buy_upper_bounds(
    total: int,
    curr: int,
    num: int,
    den: int,
    n: nat,
    t: int,
    nx: int,
)
    requires
        0 <= total <= u64::MAX,
        0 <= curr,
        0 < den,
        0 <= num <= den,
        exp_walk(total, curr, num, den, n) == Some((t, nx)),
    ensures
        nx <= curr,
        t <= total + n * curr,
    decreases n,
{
    if n == 0 {
        assert(n * curr == 0) by (nonlinear_arith)
            requires
                n == 0,
        ;
    } else {
        lemma_exp_step_nonneg(curr, num, den);
        lemma_exp_step_shrinks(curr, num, den);
        let c2 = curr * num / den;
        lemma_exp_walk_buy_upper_bounds(total + curr, c2, num, den, (n - 1) as nat, t, nx);
        assert(t <= total + n * curr) by (nonlinear_arith)
            requires
                t <= (total + curr) + (n - 1) * c2,
                c2 <= curr,
                c2 >= 0,
                n >= 1,
        ;
    }
}

/// A successful sell on an exponential pool never lowers the marginal
/// price, and collects at least `n` times the starting spot price.
pub proof fn lemma_exp_sell_walks_up(pool: Pool, n: u64, t: u64, nx: u64)
    requires
        pool.curve_type == crate::CURVE_KIND_EXP,
        price_spec(pool, n, false) == Ok::<(u64, u64), MMMErrorCode>((t, nx)),
    ensures
        nx >= pool.spot_price,
        t as int >= n as int * pool.spot_price as int,
{
    let p = pool.spot_price as int;
    let d = pool.curve_delta as int;
    match exp_walk(0, p, d + 10000, 10000, n as nat) {
        Some((ti, nxi)) => {
            lemma_exp_walk_shape(0, p, d + 10000, 10000, n as nat, ti, nxi);
            lemma_exp_walk_sell_lower_bounds(0, p, d + 10000, 10000, n as nat, ti, nxi);
        },
        None => {
            assert(false);
        },
    }
}

/// A successful buy on an exponential pool never raises the marginal
/// price, and charges at most `n` times the starting spot price.
pub proof fn lemma_exp_buy_walks_down(pool: Pool, n: u64, t: u64, nx: u64)
    requires
        pool.curve_type == crate::CURVE_KIND_EXP,
        price_spec(pool, n, true) == Ok::<(u64, u64), MMMErrorCode>((t, nx)),
    ensures
        nx <= pool.spot_price,
        t as int <= n as int * pool.spot_price as int,
{
    let p = pool.spot_price as int;
    let d = pool.curve_delta as int;
    match exp_walk(0, p, 10000, d + 10000, n as nat) {
        Some((ti, nxi)) => {
            lemma_exp_walk_shape(0, p, 10000, d + 10000, n as nat, ti, nxi);
            lemma_exp_walk_buy_upper_bounds(0, p, 10000, d + 10000, n as nat, ti, nxi);
        },
        None => {
            assert(false);
        },
    }
}

/// Iterating a scaling step `n` times is the same as iterating `n-1`
/// times and applying the step once at the end.
proof fn lemma_exp_spot_unfold_last(x: int, num: int, den: int, n: nat)
    requires
        1 <= n,
    ensures
        exp_spot(x, num, den, n) == exp_spot(x, num, den, (n - 1) as nat) * num / den,
    decreases n,
{
    if n == 1 {
        assert(exp_spot(x * num / den, num, den, 0) == x * num / den);
    } else {
        lemma_exp_spot_unfold_last(x * num / den, num, den, (n - 1) as nat);
    }
}

/// Scaling down by `a/b` and back up by `b/a` cannot exceed the start:
/// both truncating divisions only lose value.
proof fn lemma_exp_step_down_up(x: int, a: int, b: int)
    requires
        0 < a,
        0 < b,
    ensures
        (x * a / b) * b / a <= x,
{
    let q = x * a / b;
    let r = (x * a) % b;
    lemma_fundamental_div_mod(x * a, b);
    lemma_mod_bound(x * a, b);
    assert(q * b <= x * a) by (nonlinear_arith)
        requires
            x * a == b * q + r,
            r >= 0,
    ;
    lemma_div_is_ordered(q * b, x * a, a);
    lemma_div_multiples_vanish(x, a);
    assert(a * x == x * a) by (nonlinear_arith);
}

/// Walking the spot down `n` steps and back up `n` steps never ends above
/// the start.
proof fn lemma_exp_spot_round_trip(x: int, a: int, b: int, n: nat)
    requires
        0 <= x,
        0 < a,
        0 < b,
    ensures
        exp_spot(exp_spot(x, a, b, n), b, a, n) <= x,
    decreases n,
{
    if n != 0 {
        let x1 = x * a / b;
        lemma_exp_step_nonneg(x, a, b);
        lemma_exp_spot_round_trip(x1, a, b, (n - 1) as nat);
        let y = exp_spot(x, a, b, n);
        lemma_exp_spot_unfold_last(y, b, a, n);
        let g = exp_spot(y, b, a, (n - 1) as nat);
        assert(g * b <= x1 * b) by (nonlinear_arith)
            requires
                g <= x1,
                b >= 0,
        ;
        lemma_div_is_ordered(g * b, x1 * b, a);
        lemma_exp_step_down_up(x, a, b);
    }
}

/// Buying `n` units and selling `n` back at the resulting spot price
/// never ends above the original spot price: per-step floor truncation
/// can only lose value, so exponential pricing is not exactly invertible,
/// only bounded by the start.
pub proof fn lemma_exp_buy_sell_back_no_gain(
    pool: Pool,
    back: Pool,
    n: u64,
    t1: u64,
    p1: u64,
    t2: u64,
    p2: u64,
)
    requires
        pool.curve_type == crate::CURVE_KIND_EXP,
        price_spec(pool, n, true) == Ok::<(u64, u64), MMMErrorCode>((t1, p1)),
        back == (Pool { spot_price: p1, ..pool }),
        price_spec(back, n, false) == Ok::<(u64, u64), MMMErrorCode>((t2, p2)),
    ensures
        p2 <= pool.spot_price,
{
    let p = pool.spot_price as int;
    let d = pool.curve_delta as int;
    match exp_walk(0, p, 10000, d + 10000, n as nat) {
        Some((ti, nxi)) => {
            lemma_exp_walk_shape(0, p, 10000, d + 10000, n as nat, ti, nxi);
            match exp_walk(0, p1 as int, d + 10000, 10000, n as nat) {
                Some((tj, nxj)) => {
                    lemma_exp_walk_shape(0, p1 as int, d + 10000, 10000, n as nat, tj, nxj);
                    lemma_exp_spot_round_trip(p, 10000, d + 10000, n as nat);
                },
                None => {
                    assert(false);
                },
            }
        },
        None => {
            assert(false);
        },
    }
}

fn exp_curve_price(p: u64, num: u128, den: u128, n: u64) -> (r: Result<(u64, u64), MMMErrorCode>)
    requires
        0 < den,
    ensures
        r == exp_result(p as int, num as int, den as int, n as nat),
{
    let mut total: u64 = 0;
    let mut curr: u128 = p as u128;
    let mut i: u64 = 0;
    while i < n
        invariant
            i <= n,
            0 < den,
            exp_walk(total as int, curr as int, num as int, den as int, (n - i) as nat)
                == exp_walk(0, p as int, num as int, den as int, n as nat),
        decreases n - i,
    {
        if curr > u64::MAX as u128 {
            proof {
                assert(exp_walk(total as int, curr as int, num as int, den as int, (n
                    - i) as nat) == None::<(int, int)>);
            }
            return Err(MMMErrorCode::NumericOverflow);
        }
        let step: u64 = curr as u64;
        let new_total = match total.checked_add(step) {
            Some(v) => v,
            None => {
                proof {
                    assert(exp_walk(total as int, curr as int, num as int, den as int, (n
                        - i) as nat) == None::<(int, int)>);
                }
                return Err(MMMErrorCode::NumericOverflow);
            },
        };
        let scaled = match curr.checked_mul(num) {
            Some(v) => v,
            None => {
                proof {
                    assert(exp_walk(total as int, curr as int, num as int, den as int, (n
                        - i) as nat) == None::<(int, int)>);
                }
                return Err(MMMErrorCode::NumericOverflow);
            },
        };
        let next = match scaled.checked_div(den) {
            Some(v) => v,
            None => {
                return Err(MMMErrorCode::NumericOverflow);
            },
        };
        proof {
            assert(exp_walk(total as int, curr as int, num as int, den as int, (n - i) as nat)
                == exp_walk(new_total as int, next as int, num as int, den as int, (n - i
                - 1) as nat));
        }
        total = new_total;
        curr = next;
        i = i + 1;
    }
    if curr > u64::MAX as u128 {
        proof {
            assert(exp_walk(total as int, curr as int, num as int, den as int, 0) == None::<
                (int, int),
            >);
        }
        return Err(MMMErrorCode::NumericOverflow);
    }
    proof {
        assert(exp_walk(total as int, curr as int, num as int, den as int, 0) == Some((
            total as int,
            curr as int,
        )));
    }
    Ok((total, curr as u64))
}

/// Computes the aggregate trade price and the resulting spot price for a
/// batch of `n` units, walking the pool's curve `n` steps in the trade
/// direction (`fulfill_buy` true means the taker buys from the pool, so
/// the price walks down).
pub fn get_sol_total_price_and_next_price(pool: &Pool, n: u64, fulfill_buy: bool) -> (r: Result<
    (u64, u64),
    MMMErrorCode,
>)
    ensures
        r == price_spec(*pool, n, fulfill_buy),
{
    let p = pool.spot_price;
    let delta = pool.curve_delta;
    if fulfill_buy {
        if pool.curve_type == crate::CURVE_KIND_LINEAR {
            linear_buy_price(p, delta, n)
        } else if pool.curve_type == crate::CURVE_KIND_EXP {
            let den = match (delta as u128).checked_add(10000) {
                Some(v) => v,
                None => {
                    return Err(MMMErrorCode::NumericOverflow);
                },
            };
            exp_curve_price(p, 10000, den, n)
        } else {
            Err(MMMErrorCode::InvalidCurveType)
        }
    } else {
        if pool.curve_type == crate::CURVE_KIND_LINEAR {
            linear_sell_price(p, delta, n)
        } else if pool.curve_type == crate::CURVE_KIND_EXP {
            let num = match (delta as u128).checked_add(10000) {
                Some(v) => v,
                None => {
                    return Err(MMMErrorCode::NumericOverflow);
                },
            };
            exp_curve_price(p, num, 10000, n)
        } else {
            Err(MMMErrorCode::InvalidCurveType)
        }
    }
}

} // verus!

