use mmm::allowlist::{
    check_allowlists, check_allowlists_for_mint, check_master_edition, CollectionFact, CreatorFact,
    MasterEditionAccount, MasterEditionFacts, MetadataFacts,
};
use mmm::errors::MMMErrorCode;
use mmm::state::{
    Address, Allowlist, ALLOWLIST_KIND_EMPTY, ALLOWLIST_KIND_FVCA, ALLOWLIST_KIND_MCC,
    ALLOWLIST_KIND_MINT,
};
use mpl_token_metadata::accounts::{MasterEdition, Metadata};
use solana_program::pubkey::Pubkey;

fn addr(bytes: [u8; 32]) -> Address {
    Address {
        w0: u64::from_le_bytes(bytes[0..8].try_into().unwrap()),
        w1: u64::from_le_bytes(bytes[8..16].try_into().unwrap()),
        w2: u64::from_le_bytes(bytes[16..24].try_into().unwrap()),
        w3: u64::from_le_bytes(bytes[24..32].try_into().unwrap()),
    }
}

fn filled(b: u8) -> Address {
    addr([b; 32])
}

struct Fixture {
    mint: Address,
    metadata: MetadataFacts,
    master_edition: MasterEditionFacts,
}

/// Facts for a mint whose records sit at the correctly derived addresses
/// and are owned by the token-metadata program, with no edition content.
fn fixture(mint_byte: u8) -> Fixture {
    let mint_pk = Pubkey::new_from_array([mint_byte; 32]);
    let metadata_pda = Metadata::find_pda(&mint_pk).0;
    let edition_pda = MasterEdition::find_pda(&mint_pk).0;
    let program = addr(mpl_token_metadata::ID.to_bytes());
    Fixture {
        mint: addr(mint_pk.to_bytes()),
        metadata: MetadataFacts {
            owner: program,
            key: addr(metadata_pda.to_bytes()),
            first_creator: None,
            collection: None,
        },
        master_edition: MasterEditionFacts {
            key: addr(edition_pda.to_bytes()),
            account: None,
        },
    }
}

fn entry(kind: u8, value: Address) -> Allowlist {
    Allowlist { kind, value }
}

#[test]
fn structural_check_accepts_recognized_kinds() {
    let lists = vec![
        entry(ALLOWLIST_KIND_EMPTY, filled(0)),
        entry(ALLOWLIST_KIND_FVCA, filled(1)),
        entry(ALLOWLIST_KIND_MINT, filled(2)),
        entry(ALLOWLIST_KIND_MCC, filled(3)),
    ];
    assert_eq!(check_allowlists(&lists), Ok(()));
    assert_eq!(check_allowlists(&Vec::new()), Ok(()));
}

#[test]
fn structural_check_rejects_unknown_kind() {
    let lists = vec![
        entry(ALLOWLIST_KIND_MINT, filled(2)),
        entry(4, filled(9)),
    ];
    assert_eq!(check_allowlists(&lists), Err(MMMErrorCode::InvalidAllowLists));
}

#[test]
fn mint_entry_accepts_matching_mint() {
    let f = fixture(7);
    let lists = vec![entry(ALLOWLIST_KIND_MINT, f.mint)];
    assert_eq!(
        check_allowlists_for_mint(&lists, &f.mint, &f.metadata, &f.master_edition),
        Ok(())
    );
}

#[test]
fn no_entry_matching_fails() {
    let f = fixture(7);
    let lists = vec![entry(ALLOWLIST_KIND_MINT, filled(8))];
    assert_eq!(
        check_allowlists_for_mint(&lists, &f.mint, &f.metadata, &f.master_edition),
        Err(MMMErrorCode::InvalidAllowLists)
    );
    assert_eq!(
        check_allowlists_for_mint(&Vec::new(), &f.mint, &f.metadata, &f.master_edition),
        Err(MMMErrorCode::InvalidAllowLists)
    );
}

#[test]
fn empty_entry_never_matches() {
    let f = fixture(7);
    let lists = vec![entry(ALLOWLIST_KIND_EMPTY, f.mint)];
    assert_eq!(
        check_allowlists_for_mint(&lists, &f.mint, &f.metadata, &f.master_edition),
        Err(MMMErrorCode::InvalidAllowLists)
    );
}

#[test]
fn union_accepts_nft_matching_only_second_entry() {
    let mut f = fixture(7);
    f.metadata.first_creator = Some(CreatorFact {
        address: filled(0xAA),
        verified: true,
    });
    let a = entry(ALLOWLIST_KIND_FVCA, filled(0xBB));
    let b = entry(ALLOWLIST_KIND_MINT, f.mint);
    assert_eq!(
        check_allowlists_for_mint(&vec![a, b], &f.mint, &f.metadata, &f.master_edition),
        Ok(())
    );
    // reordering the same entries yields the same verdict
    assert_eq!(
        check_allowlists_for_mint(&vec![b, a], &f.mint, &f.metadata, &f.master_edition),
        Ok(())
    );
}

#[test]
fn union_rejects_in_any_order_when_nothing_matches() {
    let f = fixture(7);
    let a = entry(ALLOWLIST_KIND_FVCA, filled(0xBB));
    let b = entry(ALLOWLIST_KIND_MINT, filled(0xCC));
    assert_eq!(
        check_allowlists_for_mint(&vec![a, b], &f.mint, &f.metadata, &f.master_edition),
        Err(MMMErrorCode::InvalidAllowLists)
    );
    assert_eq!(
        check_allowlists_for_mint(&vec![b, a], &f.mint, &f.metadata, &f.master_edition),
        Err(MMMErrorCode::InvalidAllowLists)
    );
}

#[test]
fn first_verified_creator_must_be_verified() {
    let mut f = fixture(7);
    f.metadata.first_creator = Some(CreatorFact {
        address: filled(0xAA),
        verified: false,
    });
    let lists = vec![entry(ALLOWLIST_KIND_FVCA, filled(0xAA))];
    assert_eq!(
        check_allowlists_for_mint(&lists, &f.mint, &f.metadata, &f.master_edition),
        Err(MMMErrorCode::InvalidAllowLists)
    );
}

#[test]
fn first_verified_creator_match_accepts() {
    let mut f = fixture(7);
    f.metadata.first_creator = Some(CreatorFact {
        address: filled(0xAA),
        verified: true,
    });
    let lists = vec![entry(ALLOWLIST_KIND_FVCA, filled(0xAA))];
    assert_eq!(
        check_allowlists_for_mint(&lists, &f.mint, &f.metadata, &f.master_edition),
        Ok(())
    );
}

#[test]
fn verified_collection_match_accepts() {
    let mut f = fixture(7);
    f.metadata.collection = Some(CollectionFact {
        key: filled(0xCD),
        verified: true,
    });
    let lists = vec![entry(ALLOWLIST_KIND_MCC, filled(0xCD))];
    assert_eq!(
        check_allowlists_for_mint(&lists, &f.mint, &f.metadata, &f.master_edition),
        Ok(())
    );
}

#[test]
fn unverified_collection_does_not_match() {
    let mut f = fixture(7);
    f.metadata.collection = Some(CollectionFact {
        key: filled(0xCD),
        verified: false,
    });
    let lists = vec![entry(ALLOWLIST_KIND_MCC, filled(0xCD))];
    assert_eq!(
        check_allowlists_for_mint(&lists, &f.mint, &f.metadata, &f.master_edition),
        Err(MMMErrorCode::InvalidAllowLists)
    );
}

#[test]
fn unknown_kind_fails_even_after_valid_entries() {
    let f = fixture(7);
    // an unrecognized kind before the matching entry fails the set,
    // while a match before the unrecognized kind short-circuits
    let bad = entry(9, filled(1));
    let good = entry(ALLOWLIST_KIND_MINT, f.mint);
    assert_eq!(
        check_allowlists_for_mint(&vec![bad, good], &f.mint, &f.metadata, &f.master_edition),
        Err(MMMErrorCode::InvalidAllowLists)
    );
    assert_eq!(
        check_allowlists_for_mint(&vec![good, bad], &f.mint, &f.metadata, &f.master_edition),
        Ok(())
    );
}

#[test]
fn wrong_metadata_owner_rejected() {
    let mut f = fixture(7);
    f.metadata.owner = f.mint;
    let lists = vec![entry(ALLOWLIST_KIND_MINT, f.mint)];
    assert_eq!(
        check_allowlists_for_mint(&lists, &f.mint, &f.metadata, &f.master_edition),
        Err(MMMErrorCode::AccountOwnedByWrongProgram)
    );
}

#[test]
fn wrong_metadata_address_rejected() {
    let mut f = fixture(7);
    f.metadata.key = f.mint;
    let lists = vec![entry(ALLOWLIST_KIND_MINT, f.mint)];
    assert_eq!(
        check_allowlists_for_mint(&lists, &f.mint, &f.metadata, &f.master_edition),
        Err(MMMErrorCode::ConstraintSeeds)
    );
}

#[test]
fn wrong_master_edition_address_rejected() {
    let mut f = fixture(7);
    f.master_edition.key = f.mint;
    let lists = vec![entry(ALLOWLIST_KIND_MINT, f.mint)];
    assert_eq!(
        check_allowlists_for_mint(&lists, &f.mint, &f.metadata, &f.master_edition),
        Err(MMMErrorCode::ConstraintSeeds)
    );
}

#[test]
fn master_edition_version_gate() {
    let program = addr(mpl_token_metadata::ID.to_bytes());
    let mut f = fixture(7);
    let lists = vec![entry(ALLOWLIST_KIND_MINT, f.mint)];
    f.master_edition.account = Some(MasterEditionAccount {
        owner: program,
        version: 3,
    });
    assert_eq!(
        check_allowlists_for_mint(&lists, &f.mint, &f.metadata, &f.master_edition),
        Err(MMMErrorCode::InvalidMasterEdition)
    );
    f.master_edition.account = Some(MasterEditionAccount {
        owner: program,
        version: 2,
    });
    assert_eq!(
        check_allowlists_for_mint(&lists, &f.mint, &f.metadata, &f.master_edition),
        Ok(())
    );
    f.master_edition.account = Some(MasterEditionAccount {
        owner: program,
        version: 6,
    });
    assert_eq!(
        check_allowlists_for_mint(&lists, &f.mint, &f.metadata, &f.master_edition),
        Ok(())
    );
}

#[test]
fn master_edition_wrong_owner_rejected() {
    let mut f = fixture(7);
    f.master_edition.account = Some(MasterEditionAccount {
        owner: f.mint,
        version: 2,
    });
    let lists = vec![entry(ALLOWLIST_KIND_MINT, f.mint)];
    assert_eq!(
        check_allowlists_for_mint(&lists, &f.mint, &f.metadata, &f.master_edition),
        Err(MMMErrorCode::AccountOwnedByWrongProgram)
    );
}

#[test]
fn master_edition_version_markers() {
    assert!(check_master_edition(2));
    assert!(check_master_edition(6));
    assert!(!check_master_edition(0));
    assert!(!check_master_edition(1));
    assert!(!check_master_edition(255));
}
