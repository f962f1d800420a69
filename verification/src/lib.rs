//! A limited-supply collectible token minter.
//!
//! Brands of collectible tokens are created in two phases (staged, then
//! committed or discarded once an external token-issuance call reports its
//! outcome), sold during a configured time window at an exact price, and
//! distributed by drawing still-available identifiers uniformly at random,
//! in constant time, from a swap-remove-backed pool.

#![verifier::loop_isolation(false)]

pub mod common_storage;
pub mod nft_attributes_builder;
pub mod nft_module;
pub mod randomness;
pub mod royalties;
pub mod unique_id_mapper;

use vstd::prelude::*;

verus! {

use crate::common_storage::{Brand, MintError, MintPayment};
use crate::nft_module::TempCallbackStorageInfo;

/// The whole persisted state of the minter: its configuration, the staged
/// and the committed brands, and the ledger of unclaimed mint payments.
///
/// Every operation runs to completion as one atomic unit against this
/// state: an operation that fails leaves the state exactly as it was.
#[derive(Debug)]
pub struct NftMinter {
    /// The category all collections of this minter are registered under.
    pub collections_category: String,
    /// The only address allowed to claim accumulated royalties.
    pub royalties_claim_address: u64,
    /// The only address allowed to claim accumulated mint payments.
    pub mint_payments_claim_address: u64,
    /// Upper bound on how many tokens one purchase may mint.
    pub max_nfts_per_transaction: usize,
    /// Brands staged by a creation request and awaiting the outcome of the
    /// external token-issuance call, keyed by their brand identifier.
    pub staged_brands: Vec<TempCallbackStorageInfo>,
    /// Committed brands, in registration order.
    pub brands: Vec<Brand>,
    /// Accumulated, unclaimed purchase payments, one entry per token.
    pub mint_payments: Vec<MintPayment>,
}

impl NftMinter {
    /// Whether a committed brand carries `brand_id`.
    pub open spec fn is_committed_brand(self, brand_id: Seq<char>) -> bool {
        exists|i: int|
            0 <= i < self.brands@.len() && (#[trigger] self.brands@[i]).brand_id@ == brand_id
    }

    /// The index of the committed brand carrying `brand_id`.
    pub open spec fn committed_brand_index(self, brand_id: Seq<char>) -> int {
        choose|i: int|
            0 <= i < self.brands@.len() && (#[trigger] self.brands@[i]).brand_id@ == brand_id
    }

    /// Whether a staged brand carries `brand_id`.
    pub open spec fn is_staged_brand(self, brand_id: Seq<char>) -> bool {
        exists|i: int|
            0 <= i < self.staged_brands@.len() && (#[trigger] self.staged_brands@[i]).brand_id@
                == brand_id
    }

    /// The index of the staged brand carrying `brand_id`.
    pub open spec fn staged_brand_index(self, brand_id: Seq<char>) -> int {
        choose|i: int|
            0 <= i < self.staged_brands@.len() && (#[trigger] self.staged_brands@[i]).brand_id@
                == brand_id
    }

    /// Whether `brand_id` is reserved, by a staged or by a committed brand.
    pub open spec fn is_reserved_brand_id(self, brand_id: Seq<char>) -> bool {
        self.is_committed_brand(brand_id) || self.is_staged_brand(brand_id)
    }

    /// Whether a committed brand is backed by `collection_hash`.
    pub open spec fn is_committed_collection(self, collection_hash: Seq<char>) -> bool {
        exists|i: int|
            0 <= i < self.brands@.len() && (#[trigger] self.brands@[i]).info.collection_hash@
                == collection_hash
    }

    /// Whether a staged brand is backed by `collection_hash`.
    pub open spec fn is_staged_collection(self, collection_hash: Seq<char>) -> bool {
        exists|i: int|
            0 <= i < self.staged_brands@.len() && (
            #[trigger] self.staged_brands@[i]).brand_info.collection_hash@ == collection_hash
    }

    /// Whether `collection_hash` is reserved, by a staged or a committed brand.
    pub open spec fn is_reserved_collection(self, collection_hash: Seq<char>) -> bool {
        self.is_committed_collection(collection_hash) || self.is_staged_collection(collection_hash)
    }

    /// Internal consistency of the whole state: brand identifiers and
    /// collection identifiers are globally unique across staged and
    /// committed brands, every brand is internally consistent, and the
    /// payment ledger holds at most one entry per token.
    pub open spec fn wf(self) -> bool {
        &&& forall|i: int, j: int|
            #![trigger self.brands@[i], self.brands@[j]]
            0 <= i < j < self.brands@.len() ==> self.brands@[i].brand_id@
                != self.brands@[j].brand_id@ && self.brands@[i].info.collection_hash@
                != self.brands@[j].info.collection_hash@
        &&& forall|i: int, j: int|
            #![trigger self.staged_brands@[i], self.staged_brands@[j]]
            0 <= i < j < self.staged_brands@.len() ==> self.staged_brands@[i].brand_id@
                != self.staged_brands@[j].brand_id@
                && self.staged_brands@[i].brand_info.collection_hash@
                != self.staged_brands@[j].brand_info.collection_hash@
        &&& forall|i: int, j: int|
            #![trigger self.brands@[i], self.staged_brands@[j]]
            0 <= i < self.brands@.len() && 0 <= j < self.staged_brands@.len() ==> self.brands@[i].brand_id@
                != self.staged_brands@[j].brand_id@ && self.brands@[i].info.collection_hash@
                != self.staged_brands@[j].brand_info.collection_hash@
        &&& forall|i: int| 0 <= i < self.brands@.len() ==> (#[trigger] self.brands@[i]).wf()
        &&& forall|i: int|
            0 <= i < self.staged_brands@.len() ==> (#[trigger] self.staged_brands@[i]).wf()
        &&& forall|i: int, j: int|
            #![trigger self.mint_payments@[i], self.mint_payments@[j]]
            0 <= i < j < self.mint_payments@.len() ==> self.mint_payments@[i].token_id@
                != self.mint_payments@[j].token_id@
    }

    /// Constructs a fresh minter with no brands and an empty ledger. Fails
    /// with `InvalidCategory` when the collections category is empty.
    pub fn init(
        collections_category: String,
        royalties_claim_address: u64,
        mint_payments_claim_address: u64,
        max_nfts_per_transaction: usize,
    ) -> (r: Result<NftMinter, MintError>)
        ensures
            match r {
                Ok(m) => {
                    &&& collections_category@.len() > 0
                    &&& m.wf()
                    &&& m.collections_category@ == collections_category@
                    &&& m.royalties_claim_address == royalties_claim_address
                    &&& m.mint_payments_claim_address == mint_payments_claim_address
                    &&& m.max_nfts_per_transaction == max_nfts_per_transaction
                    &&& m.brands@.len() == 0
                    &&& m.staged_brands@.len() == 0
                    &&& m.mint_payments@.len() == 0
                },
                Err(e) => e == MintError::InvalidCategory && collections_category@.len() == 0,
            },
    {
        if collections_category.as_str().is_empty() {
            return Err(MintError::InvalidCategory);
        }
        Ok(
            NftMinter {
                collections_category,
                royalties_claim_address,
                mint_payments_claim_address,
                max_nfts_per_transaction,
                staged_brands: Vec::new(),
                brands: Vec::new(),
                mint_payments: Vec::new(),
            },
        )
    }
}

} // verus!
