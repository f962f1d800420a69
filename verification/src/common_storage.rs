//! Shared data types of the minter: brand metadata, prices, time periods,
//! and the error taxonomy that every operation reports its failures with.

use vstd::prelude::*;

verus! {

use crate::unique_id_mapper::UniqueIdMapper;
use vstd::string::StringExecFns;

/// Maximum royalties value, in basis points (100%).
pub const ROYALTIES_MAX: u64 = 10_000;

/// Brand identifiers must have between 1 and this many characters.
pub const MAX_BRAND_ID_LEN: usize = 50;

/// Every way an operation of the minter can fail.
///
/// `Validation` failures (bad input shape) and state violations (operation
/// against an unknown, uncommitted or exhausted entity, a wrong payment, a
/// closed window) abort the whole operation with no state change.
#[derive(Clone, Copy, Debug, PartialEq, Eq, Structural)]
pub enum MintError {
    /// Brand identifier empty or longer than [`MAX_BRAND_ID_LEN`].
    InvalidBrandId,
    /// The collection identifier is already reserved by another brand.
    DuplicateCollection,
    /// The brand identifier is already reserved.
    DuplicateBrand,
    /// Royalties above [`ROYALTIES_MAX`] basis points.
    InvalidRoyalties,
    /// The media type is not in the supported set.
    UnsupportedMediaType,
    /// A tier was requested with a maximum supply of zero.
    EmptySupply,
    /// The mint-price token is not a recognized payment medium.
    InvalidPriceToken,
    /// Two requested tiers carry the same tier identifier.
    DuplicateTier,
    /// The brand is not committed (unknown, or still staged).
    UnknownBrand,
    /// The brand has no tier under the given tier identifier.
    UnknownTier,
    /// Purchase attempted before the sale window opens.
    BeforeSaleWindow,
    /// Purchase attempted at or after the sale window's end.
    AfterSaleWindow,
    /// Whitelist is still in force and the caller is not on it.
    NotWhitelisted,
    /// More tokens requested than one transaction may mint.
    MaxPerTransactionExceeded,
    /// Payment token or amount differs from quantity times unit price.
    InvalidPayment,
    /// Fewer identifiers remain in the pool than were requested.
    PoolExhausted,
    /// Pool position outside `1..=len`.
    IndexOutOfRange,
    /// The identifier pool was already initialized.
    AlreadyInitialized,
    /// The collections category given at construction is empty.
    InvalidCategory,
    /// Payments may only be claimed by the configured claim address.
    NotClaimAddress,
}

impl MintError {
    /// The human-readable description of each failure.
    pub open spec fn message_spec(self) -> Seq<char> {
        match self {
            MintError::InvalidBrandId => "Invalid Brand ID"@,
            MintError::DuplicateCollection => "Collection hash already exists"@,
            MintError::DuplicateBrand => "Brand already exists"@,
            MintError::InvalidRoyalties => "Royalties cannot be over 100%"@,
            MintError::UnsupportedMediaType => "Invalid media type"@,
            MintError::EmptySupply => "Cannot create brand with max 0 items"@,
            MintError::InvalidPriceToken => "Invalid price token"@,
            MintError::DuplicateTier => "Duplicate tier"@,
            MintError::UnknownBrand => "Invalid Brand ID"@,
            MintError::UnknownTier => "Invalid tier"@,
            MintError::BeforeSaleWindow => "May not mint yet"@,
            MintError::AfterSaleWindow => "May not mint after deadline"@,
            MintError::NotWhitelisted => "Not in whitelist"@,
            MintError::MaxPerTransactionExceeded => "Max NFTs per transaction limit exceeded"@,
            MintError::InvalidPayment => "Invalid payment"@,
            MintError::PoolExhausted => "Not enough NFTs available"@,
            MintError::IndexOutOfRange => "Index out of range"@,
            MintError::AlreadyInitialized => "Already initialized"@,
            MintError::InvalidCategory => "Invalid collection ID"@,
            MintError::NotClaimAddress => "Not the payments claim address"@,
        }
    }

    /// The human-readable description of the failure.
    pub fn message(&self) -> (r: &'static str)
        ensures
            r@ == self.message_spec(),
    {
        match self {
            MintError::InvalidBrandId => "Invalid Brand ID",
            MintError::DuplicateCollection => "Collection hash already exists",
            MintError::DuplicateBrand => "Brand already exists",
            MintError::InvalidRoyalties => "Royalties cannot be over 100%",
            MintError::UnsupportedMediaType => "Invalid media type",
            MintError::EmptySupply => "Cannot create brand with max 0 items",
            MintError::InvalidPriceToken => "Invalid price token",
            MintError::DuplicateTier => "Duplicate tier",
            MintError::UnknownBrand => "Invalid Brand ID",
            MintError::UnknownTier => "Invalid tier",
            MintError::BeforeSaleWindow => "May not mint yet",
            MintError::AfterSaleWindow => "May not mint after deadline",
            MintError::NotWhitelisted => "Not in whitelist",
            MintError::MaxPerTransactionExceeded => "Max NFTs per transaction limit exceeded",
            MintError::InvalidPayment => "Invalid payment",
            MintError::PoolExhausted => "Not enough NFTs available",
            MintError::IndexOutOfRange => "Index out of range",
            MintError::AlreadyInitialized => "Already initialized",
            MintError::InvalidCategory => "Invalid collection ID",
            MintError::NotClaimAddress => "Not the payments claim address",
        }
    }
}

/// Whether two strings hold the same characters.
pub fn string_eq(a: &String, b: &String) -> (r: bool)
    ensures
        r == (a@ == b@),
{
    *a == *b
}

/// Whether `s` holds exactly the characters of `lit`.
pub fn string_matches(s: &String, lit: &str) -> (r: bool)
    ensures
        r == (s@ == lit@),
{
    let owned = String::from_str(lit);
    *s == owned
}

/// Copies a vector of strings, character for character.
pub fn clone_strings(v: &Vec<String>) -> (r: Vec<String>)
    ensures
        r@ == v@,
{
    let mut r: Vec<String> = Vec::new();
    let mut i: usize = 0;
    while i < v.len()
        invariant
            i <= v@.len(),
            r@ == v@.take(i as int),
        decreases v@.len() - i,
    {
        r.push(v[i].clone());
        proof {
            assert(r@ =~= v@.take(i + 1 as int));
        }
        i = i + 1;
    }
    proof {
        assert(v@.take(v@.len() as int) =~= v@);
    }
    r
}

/// The half-open time window `[start, end)` in which purchases are allowed.
/// `end == None` leaves the window open-ended.
#[derive(Clone, Copy, Debug, PartialEq, Eq)]
pub struct TimePeriod {
    pub start: u64,
    pub end: Option<u64>,
}

/// The exact price of one token of a tier: the payment token expected and
/// the amount owed per unit.
#[derive(Debug, PartialEq, Eq)]
pub struct MintPrice {
    pub token_id: String,
    pub amount: u64,
}

/// Descriptive metadata of a brand, immutable after creation except for the
/// whitelist expiry, which an administrator may set later.
#[derive(Debug, PartialEq, Eq)]
pub struct BrandInfo {
    pub collection_hash: String,
    pub token_display_name: String,
    pub media_type: String,
    pub royalties: u64,
    pub mint_period: TimePeriod,
    pub whitelist_expire_timestamp: Option<u64>,
}

/// One tier as requested at brand-creation time: its identifier, how many
/// tokens it may ever issue, and the price of each.
#[derive(Debug, PartialEq, Eq)]
pub struct TierSpec {
    pub tier_id: String,
    pub max_supply: usize,
    pub mint_price: MintPrice,
}

/// One committed tier: its immutable configuration and the pool of its
/// not-yet-issued identifiers.
#[derive(Debug)]
pub struct Tier {
    pub tier_id: String,
    pub mint_price: MintPrice,
    pub total_nfts: usize,
    pub id_offset: usize,
    pub available_ids: UniqueIdMapper,
}

/// One committed brand: visible to purchases, giveaways and views.
#[derive(Debug)]
pub struct Brand {
    pub brand_id: String,
    pub nft_token_id: String,
    pub info: BrandInfo,
    pub tiers: Vec<Tier>,
    pub tags: Vec<String>,
    pub whitelist: Vec<u64>,
}

/// One accumulated and not yet claimed payment balance.
#[derive(Debug, PartialEq, Eq)]
pub struct MintPayment {
    pub token_id: String,
    pub amount: u128,
}

/// The sum of the requested maximum supplies of `tiers`.
pub open spec fn sum_supplies(tiers: Seq<TierSpec>) -> int
    decreases tiers.len(),
{
    if tiers.len() == 0 {
        0
    } else {
        tiers[0].max_supply + sum_supplies(tiers.drop_first())
    }
}

/// Taking one more tier adds exactly its supply to the running sum.
pub proof fn lemma_sum_supplies_take(tiers: Seq<TierSpec>, i: int)
    requires
        0 <= i < tiers.len(),
    ensures
        sum_supplies(tiers.take(i + 1)) == sum_supplies(tiers.take(i)) + tiers[i].max_supply,
    decreases i,
{
    if i == 0 {
        assert(tiers.take(1) =~= seq![tiers[0]]);
        assert(tiers.take(1).drop_first() =~= Seq::<TierSpec>::empty());
        assert(tiers.take(0) =~= Seq::<TierSpec>::empty());
    } else {
        lemma_sum_supplies_take(tiers.drop_first(), i - 1);
        assert(tiers.take(i + 1).drop_first() =~= tiers.drop_first().take(i));
        assert(tiers.take(i).drop_first() =~= tiers.drop_first().take(i - 1));
        assert(tiers.take(i + 1)[0] == tiers[0]);
        assert(tiers.take(i)[0] == tiers[0]);
    }
}

/// No supply is negative, so every prefix sum is bounded by the total.
pub proof fn lemma_sum_supplies_prefix_bound(tiers: Seq<TierSpec>, i: int)
    requires
        0 <= i <= tiers.len(),
    ensures
        0 <= sum_supplies(tiers.take(i)) <= sum_supplies(tiers),
    decreases tiers.len() - i,
{
    if i == tiers.len() {
        assert(tiers.take(i) =~= tiers);
        lemma_sum_supplies_nonneg(tiers);
    } else {
        lemma_sum_supplies_take(tiers, i);
        lemma_sum_supplies_prefix_bound(tiers, i + 1);
        lemma_sum_supplies_nonneg(tiers.take(i));
    }
}

/// The sum of supplies is never negative.
pub proof fn lemma_sum_supplies_nonneg(tiers: Seq<TierSpec>)
    ensures
        sum_supplies(tiers) >= 0,
    decreases tiers.len(),
{
    if tiers.len() > 0 {
        lemma_sum_supplies_nonneg(tiers.drop_first());
    }
}

impl Tier {
    /// Internal consistency of one committed tier: the pool holds at most
    /// `total_nfts` identifiers, each in `1..=total_nfts` and each at most
    /// once, and the derived global identifiers all fit in `usize`.
    pub open spec fn wf(self) -> bool {
        &&& self.available_ids.is_initialized()
        &&& self.available_ids@.len() <= self.total_nfts
        &&& self.available_ids@.no_duplicates()
        &&& forall|i: int|
            0 <= i < self.available_ids@.len() ==> 1 <= #[trigger] self.available_ids@[i]
                <= self.total_nfts
        &&& self.id_offset + self.total_nfts < usize::MAX
    }
}

impl Brand {
    /// Whether the brand has a tier carrying `tier_id`.
    pub open spec fn has_tier(self, tier_id: Seq<char>) -> bool {
        exists|i: int| 0 <= i < self.tiers@.len() && (#[trigger] self.tiers@[i]).tier_id@ == tier_id
    }

    /// The index of the tier carrying `tier_id`.
    pub open spec fn tier_index(self, tier_id: Seq<char>) -> int {
        choose|i: int| 0 <= i < self.tiers@.len() && (#[trigger] self.tiers@[i]).tier_id@ == tier_id
    }

    /// Internal consistency of one committed brand: tier identifiers are
    /// unique within the brand and every tier is consistent.
    pub open spec fn wf(self) -> bool {
        &&& forall|i: int, j: int|
            0 <= i < j < self.tiers@.len() ==> #[trigger] self.tiers@[i].tier_id@
                != #[trigger] self.tiers@[j].tier_id@
        &&& forall|i: int| 0 <= i < self.tiers@.len() ==> #[trigger] self.tiers@[i].wf()
        &&& self.info.royalties <= ROYALTIES_MAX
    }
}

} // verus!
