use vstd::prelude::*;

pub mod allowlist;
pub mod curve;
pub mod errors;
pub mod fees;
pub mod lifecycle;
pub mod pda;
pub mod state;
pub mod update_pool;

verus! {

/// Curve type tag for an arithmetic (constant-step) curve.
pub const CURVE_KIND_LINEAR: u8 = 0;

/// Curve type tag for a geometric (basis-point-rate) curve.
pub const CURVE_KIND_EXP: u8 = 1;

/// Largest valid basis-point rate: 100% per step.
pub const MAX_CURVE_DELTA_BP: u64 = 10000;

} // verus!
