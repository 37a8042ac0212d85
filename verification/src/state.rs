use vstd::prelude::*;

verus! {

/// A 32-byte address-shaped key, stored as four 64-bit little-endian words
/// (`w0` holds bytes 0..8 of the key, `w3` bytes 24..32).
#[derive(Clone, Copy, Debug, PartialEq, Eq, Structural)]
pub struct Address {
    pub w0: u64,
    pub w1: u64,
    pub w2: u64,
    pub w3: u64,
}

impl Address {
    /// The all-zero key.
    pub open spec fn zero_spec() -> Address {
        Address { w0: 0, w1: 0, w2: 0, w3: 0 }
    }

    pub fn zeroed() -> (r: Address)
        ensures
            r == Address::zero_spec(),
    {
        Address { w0: 0, w1: 0, w2: 0, w3: 0 }
    }
}

/// Allowlist entry kind: the entry never matches on its own.
pub const ALLOWLIST_KIND_EMPTY: u8 = 0;

/// Allowlist entry kind: match on the first verified creator's address.
pub const ALLOWLIST_KIND_FVCA: u8 = 1;

/// Allowlist entry kind: match on the mint address itself.
pub const ALLOWLIST_KIND_MINT: u8 = 2;

/// Allowlist entry kind: match on the verified collection key.
pub const ALLOWLIST_KIND_MCC: u8 = 3;

/// One acceptable NFT eligibility criterion: a kind and an
/// address-shaped value whose meaning depends on the kind.
#[derive(Clone, Copy, Debug, PartialEq, Eq, Structural)]
pub struct Allowlist {
    pub kind: u8,
    pub value: Address,
}

impl Allowlist {
    /// An entry is well formed exactly when its kind is recognized.
    pub open spec fn valid_spec(self) -> bool {
        self.kind <= ALLOWLIST_KIND_MCC
    }

    pub fn valid(&self) -> (r: bool)
        ensures
            r == self.valid_spec(),
    {
        self.kind <= ALLOWLIST_KIND_MCC
    }
}

/// The persistent state a bonding curve operates on.
#[derive(Clone, Copy, Debug, PartialEq, Eq, Structural)]
pub struct Pool {
    /// Current marginal price: the price of the next single unit.
    pub spot_price: u64,
    /// `CURVE_KIND_LINEAR` or `CURVE_KIND_EXP`; no other value is valid.
    pub curve_type: u8,
    /// Per-step price change: absolute for linear, basis points for exponential.
    pub curve_delta: u64,
    /// LP fee in basis points; at most 10000.
    pub lp_fee_bp: u16,
    /// Referral fee in basis points; at most 10000.
    pub referral_bp: u16,
    /// Settlement-layer flag; does not affect pricing.
    pub reinvest: bool,
    /// Settlement-layer expiry timestamp; does not affect pricing.
    pub expiry: i64,
    /// Number of currently listed sell-side items; 0 means no live liquidity.
    pub sellside_orders_count: u64,
    /// Identity field used only for address derivation.
    pub uuid: Address,
    /// Identity field used only for address derivation.
    pub owner: Address,
}

impl Pool {
    /// The invariant every stored pool satisfies: fee fields are valid basis
    /// points, the curve type is recognized, and an exponential delta is a
    /// valid basis-point rate.
    pub open spec fn wf(self) -> bool {
        &&& self.lp_fee_bp <= 10000
        &&& self.referral_bp <= 10000
        &&& self.curve_type <= crate::CURVE_KIND_EXP
        &&& self.curve_type == crate::CURVE_KIND_EXP ==> self.curve_delta
            <= crate::MAX_CURVE_DELTA_BP
    }

    /// The fully cleared pool: every field zeroed.
    pub open spec fn zeroed_spec() -> Pool {
        Pool {
            spot_price: 0,
            curve_type: 0,
            curve_delta: 0,
            lp_fee_bp: 0,
            referral_bp: 0,
            reinvest: false,
            expiry: 0,
            sellside_orders_count: 0,
            uuid: Address::zero_spec(),
            owner: Address::zero_spec(),
        }
    }
}

} // verus!
