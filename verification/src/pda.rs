use vstd::prelude::*;

use crate::state::Address;
use mpl_token_metadata::accounts::MasterEdition;
use mpl_token_metadata::accounts::Metadata;
use solana_program::pubkey::Pubkey;

verus! {

/// The deterministically-derived address of the metadata record for a
/// mint. A pure function of the mint key: program-derived addresses are
/// computed by hashing fixed seeds, the same on every machine.
pub uninterp spec fn metadata_pda_of(mint: Address) -> Address;

/// The deterministically-derived address of the master-edition record for
/// a mint; a pure function of the mint key, like `metadata_pda_of`.
pub uninterp spec fn master_edition_pda_of(mint: Address) -> Address;

/// Whether a key is the fixed address of the token-metadata program, the
/// expected owning authority of every metadata and edition record.
pub uninterp spec fn is_metadata_program(authority: Address) -> bool;

/// Relies on mpl_token_metadata::accounts::Metadata::find_pda: the
/// metadata record's address is derived from the mint key alone (seeds
/// "metadata", program id, mint).
#[verifier::external_body]
pub fn find_metadata_pda(mint: &Address) -> (r: Address)
    ensures
        r == metadata_pda_of(*mint),
{
    let mut b = [0u8; 32];
    b[0..8].copy_from_slice(&mint.w0.to_le_bytes());
    b[8..16].copy_from_slice(&mint.w1.to_le_bytes());
    b[16..24].copy_from_slice(&mint.w2.to_le_bytes());
    b[24..32].copy_from_slice(&mint.w3.to_le_bytes());
    let k = Metadata::find_pda(&Pubkey::new_from_array(b)).0.to_bytes();
    Address {
        w0: u64::from_le_bytes(k[0..8].try_into().unwrap()),
        w1: u64::from_le_bytes(k[8..16].try_into().unwrap()),
        w2: u64::from_le_bytes(k[16..24].try_into().unwrap()),
        w3: u64::from_le_bytes(k[24..32].try_into().unwrap()),
    }
}

/// Relies on mpl_token_metadata::accounts::MasterEdition::find_pda: the
/// master-edition record's address is derived from the mint key alone
/// (seeds "metadata", program id, mint, "edition").
#[verifier::external_body]
pub fn find_master_edition_pda(mint: &Address) -> (r: Address)
    ensures
        r == master_edition_pda_of(*mint),
{
    let mut b = [0u8; 32];
    b[0..8].copy_from_slice(&mint.w0.to_le_bytes());
    b[8..16].copy_from_slice(&mint.w1.to_le_bytes());
    b[16..24].copy_from_slice(&mint.w2.to_le_bytes());
    b[24..32].copy_from_slice(&mint.w3.to_le_bytes());
    let k = MasterEdition::find_pda(&Pubkey::new_from_array(b)).0.to_bytes();
    Address {
        w0: u64::from_le_bytes(k[0..8].try_into().unwrap()),
        w1: u64::from_le_bytes(k[8..16].try_into().unwrap()),
        w2: u64::from_le_bytes(k[16..24].try_into().unwrap()),
        w3: u64::from_le_bytes(k[24..32].try_into().unwrap()),
    }
}

/// Relies on mpl_token_metadata::ID: the token-metadata program's address
/// is one fixed constant, so equality against it depends on the tested key
/// alone.
#[verifier::external_body]
pub fn check_metadata_program(authority: &Address) -> (r: bool)
    ensures
        r == is_metadata_program(*authority),
{
    let mut b = [0u8; 32];
    b[0..8].copy_from_slice(&authority.w0.to_le_bytes());
    b[8..16].copy_from_slice(&authority.w1.to_le_bytes());
    b[16..24].copy_from_slice(&authority.w2.to_le_bytes());
    b[24..32].copy_from_slice(&authority.w3.to_le_bytes());
    Pubkey::new_from_array(b) == mpl_token_metadata::ID
}

} // verus!
