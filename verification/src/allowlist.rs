use vstd::prelude::*;

use crate::errors::MMMErrorCode;
use crate::pda::is_metadata_program;
use crate::pda::master_edition_pda_of;
use crate::pda::metadata_pda_of;
use crate::pda::check_metadata_program;
use crate::pda::find_master_edition_pda;
use crate::pda::find_metadata_pda;
use crate::state::Address;
use crate::state::Allowlist;
use crate::state::ALLOWLIST_KIND_EMPTY;
use crate::state::ALLOWLIST_KIND_FVCA;
use crate::state::ALLOWLIST_KIND_MCC;
use crate::state::ALLOWLIST_KIND_MINT;

verus! {

/// The first creator listed on an NFT's metadata: its address and whether
/// it is cryptographically verified.
#[derive(Clone, Copy, Debug, PartialEq, Eq, Structural)]
pub struct CreatorFact {
    pub address: Address,
    pub verified: bool,
}

/// The collection an NFT declares: its key and whether the membership is
/// verified.
#[derive(Clone, Copy, Debug, PartialEq, Eq, Structural)]
pub struct CollectionFact {
    pub key: Address,
    pub verified: bool,
}

/// The subset of an NFT's metadata record the eligibility check consumes.
#[derive(Clone, Copy, Debug, PartialEq, Eq, Structural)]
pub struct MetadataFacts {
    /// Owning authority of the metadata record.
    pub owner: Address,
    /// Address of the metadata record itself.
    pub key: Address,
    /// First creator, when the metadata lists at least one.
    pub first_creator: Option<CreatorFact>,
    /// Declared collection, when the metadata has one.
    pub collection: Option<CollectionFact>,
}

/// The content of a non-empty master-edition record.
#[derive(Clone, Copy, Debug, PartialEq, Eq, Structural)]
pub struct MasterEditionAccount {
    /// Owning authority of the edition record.
    pub owner: Address,
    /// The record's leading version byte.
    pub version: u8,
}

/// The master-edition facts the eligibility check consumes: the record's
/// address, and its content when the record is non-empty.
#[derive(Clone, Copy, Debug, PartialEq, Eq, Structural)]
pub struct MasterEditionFacts {
    pub key: Address,
    pub account: Option<MasterEditionAccount>,
}

/// Whether a version byte is one of the two accepted "valid edition"
/// markers.
pub open spec fn master_edition_version_ok(version: u8) -> bool {
    version == 2 || version == 6
}

/// Tests an edition record's leading version byte.
pub fn check_master_edition(version: u8) -> (r: bool)
    ensures
        r == master_edition_version_ok(version),
{
    version == 2 || version == 6
}

/// Whether one allowlist entry accepts an NFT: never for EMPTY; for FVCA,
/// the first creator exists, has the entry's address and is verified; for
/// MINT, the mint key is the entry's value; for MCC, the declared
/// collection has the entry's key and is verified. Unrecognized kinds
/// match nothing.
pub open spec fn entry_matches(entry: Allowlist, mint: Address, metadata: MetadataFacts) -> bool {
    if entry.kind == ALLOWLIST_KIND_EMPTY {
        false
    } else if entry.kind == ALLOWLIST_KIND_FVCA {
        match metadata.first_creator {
            Some(c) => c.address == entry.value && c.verified,
            None => false,
        }
    } else if entry.kind == ALLOWLIST_KIND_MINT {
        mint == entry.value
    } else if entry.kind == ALLOWLIST_KIND_MCC {
        match metadata.collection {
            Some(c) => c.key == entry.value && c.verified,
            None => false,
        }
    } else {
        false
    }
}

/// Whether every entry of a sequence carries a recognized kind.
pub open spec fn allowlists_all_valid(entries: Seq<Allowlist>) -> bool {
    forall|i: int| 0 <= i < entries.len() ==> (#[trigger] entries[i]).valid_spec()
}

/// The walk over the stored entry sequence: stop with `InvalidAllowLists`
/// at the first unrecognized kind, accept at the first match, and fail
/// with `InvalidAllowLists` when the sequence is exhausted.
pub open spec fn scan_allowlists(
    entries: Seq<Allowlist>,
    mint: Address,
    metadata: MetadataFacts,
) -> Result<(), MMMErrorCode>
    decreases entries.len(),
{
    if entries.len() == 0 {
        Err(MMMErrorCode::InvalidAllowLists)
    } else if !entries[0].valid_spec() {
        Err(MMMErrorCode::InvalidAllowLists)
    } else if entry_matches(entries[0], mint, metadata) {
        Ok(())
    } else {
        scan_allowlists(entries.drop_first(), mint, metadata)
    }
}

/// What the whole eligibility check returns. Structural gates run first:
/// the metadata record must be owned by the token-metadata program, the
/// metadata and master-edition record addresses must equal the addresses
/// derived from the mint, and a non-empty edition record must be owned by
/// the program and carry an accepted version byte. Only then are the
/// entries scanned.
pub open spec fn mint_check_spec(
    entries: Seq<Allowlist>,
    mint: Address,
    metadata: MetadataFacts,
    master_edition: MasterEditionFacts,
) -> Result<(), MMMErrorCode> {
    if !is_metadata_program(metadata.owner) {
        Err(MMMErrorCode::AccountOwnedByWrongProgram)
    } else if metadata_pda_of(mint) != metadata.key {
        Err(MMMErrorCode::ConstraintSeeds)
    } else if master_edition_pda_of(mint) != master_edition.key {
        Err(MMMErrorCode::ConstraintSeeds)
    } else {
        match master_edition.account {
            Some(acct) => {
                if !is_metadata_program(acct.owner) {
                    Err(MMMErrorCode::AccountOwnedByWrongProgram)
                } else if !master_edition_version_ok(acct.version) {
                    Err(MMMErrorCode::InvalidMasterEdition)
                } else {
                    scan_allowlists(entries, mint, metadata)
                }
            },
            None => scan_allowlists(entries, mint, metadata),
        }
    }
}

/// Structural gate over a pool's stored allowlist: every entry must carry
/// a recognized kind; one unrecognized kind fails the whole set.
pub fn check_allowlists(allowlists: &Vec<Allowlist>) -> (r: Result<(), MMMErrorCode>)
    ensures
        r == if allowlists_all_valid(allowlists@) {
            Ok::<(), MMMErrorCode>(())
        } else {
            Err::<(), MMMErrorCode>(MMMErrorCode::InvalidAllowLists)
        },
{
    let mut idx: usize = 0;
    while idx < allowlists.len()
        invariant
            idx <= allowlists@.len(),
            forall|i: int| 0 <= i < idx ==> (#[trigger] allowlists@[i]).valid_spec(),
        decreases allowlists@.len() - idx,
    {
        if !allowlists[idx].valid() {
            return Err(MMMErrorCode::InvalidAllowLists);
        }
        idx = idx + 1;
    }
    Ok(())
}

/// Decides whether an NFT (mint plus metadata facts) satisfies any entry
/// of a pool's allowlist, after the structural integrity gates of
/// `mint_check_spec`. Entries are a union: the first match accepts.
pub fn check_allowlists_for_mint(
    allowlists: &Vec<Allowlist>,
    mint: &Address,
    metadata: &MetadataFacts,
    master_edition: &MasterEditionFacts,
) -> (r: Result<(), MMMErrorCode>)
    ensures
        r == mint_check_spec(allowlists@, *mint, *metadata, *master_edition),
{
    if !check_metadata_program(&metadata.owner) {
        return Err(MMMErrorCode::AccountOwnedByWrongProgram);
    }
    let derived_metadata = find_metadata_pda(mint);
    if derived_metadata != metadata.key {
        return Err(MMMErrorCode::ConstraintSeeds);
    }
    let derived_edition = find_master_edition_pda(mint);
    if derived_edition != master_edition.key {
        return Err(MMMErrorCode::ConstraintSeeds);
    }
    match master_edition.account {
        Some(acct) => {
            if !check_metadata_program(&acct.owner) {
                return Err(MMMErrorCode::AccountOwnedByWrongProgram);
            }
            if !check_master_edition(acct.version) {
                return Err(MMMErrorCode::InvalidMasterEdition);
            }
        },
        None => {},
    }
    let mut idx: usize = 0;
    proof {
        assert(allowlists@.skip(0) =~= allowlists@);
    }
    while idx < allowlists.len()
        invariant
            idx <= allowlists@.len(),
            mint_check_spec(allowlists@, *mint, *metadata, *master_edition) == scan_allowlists(
                allowlists@,
                *mint,
                *metadata,
            ),
            scan_allowlists(allowlists@.skip(idx as int), *mint, *metadata) == scan_allowlists(
                allowlists@,
                *mint,
                *metadata,
            ),
        decreases allowlists@.len() - idx,
    {
        let entry = allowlists[idx];
        proof {
            assert(allowlists@.skip(idx as int)[0] == allowlists@[idx as int]);
            assert(allowlists@.skip(idx as int).drop_first() =~= allowlists@.skip(idx as int + 1));
        }
        if !entry.valid() {
            proof {
                assert(scan_allowlists(allowlists@.skip(idx as int), *mint, *metadata) == Err::<
                    (),
                    MMMErrorCode,
                >(MMMErrorCode::InvalidAllowLists));
            }
            return Err(MMMErrorCode::InvalidAllowLists);
        }
        let matched: bool = if entry.kind == ALLOWLIST_KIND_FVCA {
            match metadata.first_creator {
                Some(c) => c.address == entry.value && c.verified,
                None => false,
            }
        } else if entry.kind == ALLOWLIST_KIND_MINT {
            *mint == entry.value
        } else if entry.kind == ALLOWLIST_KIND_MCC {
            match metadata.collection {
                Some(c) => c.key == entry.value && c.verified,
                None => false,
            }
        } else {
            false
        };
        proof {
            assert(matched == entry_matches(allowlists@[idx as int], *mint, *metadata));
        }
        if matched {
            proof {
                assert(scan_allowlists(allowlists@.skip(idx as int), *mint, *metadata) == Ok::<
                    (),
                    MMMErrorCode,
                >(()));
            }
            return Ok(());
        }
        idx = idx + 1;
    }
    proof {
        assert(allowlists@.skip(idx as int).len() == 0);
    }
    Err(MMMErrorCode::InvalidAllowLists)
}

/// The scan is a pure union when every kind is recognized: it accepts
/// exactly when some entry matches, and otherwise fails with
/// `InvalidAllowLists`.
pub proof fn lemma_scan_is_union(entries: Seq<Allowlist>, mint: Address, metadata: MetadataFacts)
    requires
        allowlists_all_valid(entries),
    ensures
        scan_allowlists(entries, mint, metadata) == Ok::<(), MMMErrorCode>(()) <==> exists|i: int|
            0 <= i < entries.len() && entry_matches(#[trigger] entries[i], mint, metadata),
        scan_allowlists(entries, mint, metadata) != Ok::<(), MMMErrorCode>(())
            ==> scan_allowlists(entries, mint, metadata) == Err::<(), MMMErrorCode>(
            MMMErrorCode::InvalidAllowLists,
        ),
    decreases entries.len(),
{
    if entries.len() == 0 {
    } else if entry_matches(entries[0], mint, metadata) {
    } else {
        lemma_scan_is_union(entries.drop_first(), mint, metadata);
        if scan_allowlists(entries, mint, metadata) == Ok::<(), MMMErrorCode>(()) {
            let j = choose|j: int|
                0 <= j < entries.drop_first().len() && entry_matches(
                    #[trigger] entries.drop_first()[j],
                    mint,
                    metadata,
                );
            assert(entries.drop_first()[j] == entries[j + 1]);
        } else {
            assert forall|i: int|
                0 <= i < entries.len() implies !entry_matches(
                #[trigger] entries[i],
                mint,
                metadata,
            ) by {
                if i > 0 {
                    assert(entries[i] == entries.drop_first()[i - 1]);
                }
            }
        }
    }
}

/// Union semantics make order irrelevant: two allowlists holding the same
/// entries (as a multiset, so in any order) give every NFT the same
/// verdict.
pub proof fn lemma_scan_order_irrelevant(
    s1: Seq<Allowlist>,
    s2: Seq<Allowlist>,
    mint: Address,
    metadata: MetadataFacts,
)
    requires
        allowlists_all_valid(s1),
        s1.to_multiset() == s2.to_multiset(),
    ensures
        scan_allowlists(s1, mint, metadata) == scan_allowlists(s2, mint, metadata),
{
    broadcast use vstd::seq_lib::group_to_multiset_ensures;

    assert forall|i: int| 0 <= i < s2.len() implies (#[trigger] s2[i]).valid_spec() by {
        assert(s2.contains(s2[i]));
        assert(s2.to_multiset().count(s2[i]) > 0);
        assert(s1.to_multiset().count(s2[i]) > 0);
        assert(s1.contains(s2[i]));
    }
    lemma_scan_is_union(s1, mint, metadata);
    lemma_scan_is_union(s2, mint, metadata);
    if scan_allowlists(s1, mint, metadata) == Ok::<(), MMMErrorCode>(()) {
        let i = choose|i: int| 0 <= i < s1.len() && entry_matches(#[trigger] s1[i], mint, metadata);
        assert(s1.contains(s1[i]));
        assert(s1.to_multiset().count(s1[i]) > 0);
        assert(s2.to_multiset().count(s1[i]) > 0);
        assert(s2.contains(s1[i]));
        let j = choose|j: int| 0 <= j < s2.len() && s2[j] == s1[i];
        assert(entry_matches(s2[j], mint, metadata));
    }
    if scan_allowlists(s2, mint, metadata) == Ok::<(), MMMErrorCode>(()) {
        let i = choose|i: int| 0 <= i < s2.len() && entry_matches(#[trigger] s2[i], mint, metadata);
        assert(s2.contains(s2[i]));
        assert(s2.to_multiset().count(s2[i]) > 0);
        assert(s1.to_multiset().count(s2[i]) > 0);
        assert(s1.contains(s2[i]));
        let j = choose|j: int| 0 <= j < s1.len() && s1[j] == s2[i];
        assert(entry_matches(s1[j], mint, metadata));
    }
}

/// The whole eligibility verdict is order-independent: two allowlists
/// holding the same entries in any order give an NFT the same result,
/// structural gates included.
pub proof fn lemma_mint_check_order_irrelevant(
    s1: Seq<Allowlist>,
    s2: Seq<Allowlist>,
    mint: Address,
    metadata: MetadataFacts,
    master_edition: MasterEditionFacts,
)
    requires
        allowlists_all_valid(s1),
        s1.to_multiset() == s2.to_multiset(),
    ensures
        mint_check_spec(s1, mint, metadata, master_edition) == mint_check_spec(
            s2,
            mint,
            metadata,
            master_edition,
        ),
{
    lemma_scan_order_irrelevant(s1, s2, mint, metadata);
}

} // verus!
