use vstd::prelude::*;

verus! {

/// Every way a pricing, validation or lifecycle call can fail.
///
/// `AccountOwnedByWrongProgram` and `ConstraintSeeds` report structural
/// integrity failures of the NFT metadata facts; the rest are the pool's
/// own configuration and arithmetic failures.
#[derive(Clone, Copy, Debug, PartialEq, Eq, Structural)]
pub enum MMMErrorCode {
    /// Curve type outside the supported enumeration.
    InvalidCurveType,
    /// Exponential curve growth rate exceeds 100% per step.
    InvalidCurveDelta,
    /// LP fee exceeds 100%.
    InvalidLPFeeBP,
    /// A checked arithmetic step would overflow or underflow.
    NumericOverflow,
    /// Malformed allowlist configuration, or no entry matched an NFT.
    InvalidAllowLists,
    /// Edition record carries an unrecognized version marker.
    InvalidMasterEdition,
    /// A metadata record is owned by an unexpected authority.
    AccountOwnedByWrongProgram,
    /// A record's address does not equal its derived address.
    ConstraintSeeds,
}

} // verus!
