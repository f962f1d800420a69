//! The brand registry and the issuance state machine.
//!
//! A brand is created in two phases. `issue_token_for_brand` validates the
//! request, reserves the brand and collection identifiers and stages the
//! full configuration; the caller then dispatches the external
//! token-issuance request. `issue_callback` consumes the staged record when
//! the external call reports back: success commits the brand and fills one
//! identifier pool per tier, failure discards the staging and releases the
//! reserved identifiers for reuse.

use vstd::prelude::*;

verus! {

use crate::NftMinter;
use crate::common_storage::{
    Brand, BrandInfo, MintError, MintPrice, Tier, TierSpec, MAX_BRAND_ID_LEN, ROYALTIES_MAX,
    lemma_sum_supplies_prefix_bound, lemma_sum_supplies_take, sum_supplies,
};
use crate::randomness::RandomnessSource;
use crate::unique_id_mapper::{UniqueIdMapper, id_seq, lemma_id_seq_properties, swap_remove_seq};
use vstd::pervasive::unreached;
use vstd::string::StrSliceExecFns;

/// The outcome the external token-issuance service reports back for one
/// staged brand.
#[derive(Debug)]
pub enum IssueResult {
    /// The token resource was created; carries its identifier.
    Success(String),
    /// The external call failed, for whatever reason.
    Failure,
}

/// A staged brand: the full configuration held between the brand-creation
/// request and the external issuance call's outcome, keyed by `brand_id`.
#[derive(Debug)]
pub struct TempCallbackStorageInfo {
    pub brand_id: String,
    pub brand_info: BrandInfo,
    pub token_ticker: String,
    pub tiers: Vec<TierSpec>,
    pub tags: Vec<String>,
}

impl TempCallbackStorageInfo {
    /// What `issue_token_for_brand` guarantees of every staged record:
    /// enough for `issue_callback` to commit a consistent brand.
    pub open spec fn wf(self) -> bool {
        &&& 1 <= self.brand_id@.len() <= MAX_BRAND_ID_LEN
        &&& self.brand_info.royalties <= ROYALTIES_MAX
        &&& self.tiers@.len() >= 1
        &&& tiers_all_positive(self.tiers@)
        &&& tiers_ids_unique(self.tiers@)
        &&& sum_supplies(self.tiers@) < usize::MAX
    }
}

/// One minted token, ready to hand to the external mint-and-transfer
/// service: its globally unique identifier and the metadata it carries.
#[derive(Debug)]
pub struct MintedNft {
    pub nft_id: usize,
    pub attributes: String,
    pub main_file_uri: String,
    pub json_file_uri: String,
    pub collection_json_uri: String,
}

/// The minted tokens owed to one giveaway recipient.
#[derive(Debug)]
pub struct GiveawayBatch {
    pub recipient: u64,
    pub nfts: Vec<MintedNft>,
}

/// The metadata of `m` is exactly what the brand's collection hash, media
/// type and tags derive for its identifier.
pub open spec fn minted_nft_wf(
    m: MintedNft,
    collection_hash: Seq<char>,
    media_type: Seq<char>,
    tags: Seq<Seq<char>>,
) -> bool {
    &&& m.attributes@ == crate::nft_attributes_builder::nft_attributes(
        collection_hash,
        m.nft_id as nat,
        tags,
    )
    &&& m.main_file_uri@ == crate::nft_attributes_builder::main_file_uri(
        collection_hash,
        m.nft_id as nat,
        media_type,
    )
    &&& m.json_file_uri@ == crate::nft_attributes_builder::json_file_uri(
        collection_hash,
        m.nft_id as nat,
    )
    &&& m.collection_json_uri@ == crate::nft_attributes_builder::collection_json_uri(
        collection_hash,
    )
}

/// The tier-local pool identifiers behind a batch of minted tokens, for a
/// tier whose global identifiers start after `id_offset`.
pub open spec fn local_ids(minted: Seq<MintedNft>, id_offset: int) -> Seq<usize> {
    minted.map_values(|m: MintedNft| (m.nft_id - id_offset) as usize)
}

/// How a draw of `minted` from the tier at `(bi, ti)` relates the committed
/// brands after the draw to the brands before it: every other brand and
/// tier stands untouched, the drawn tier keeps its configuration, its pool
/// loses exactly the drawn identifiers, and every minted token carries the
/// metadata its identifier derives.
pub open spec fn brands_after_draw(
    pre: Seq<Brand>,
    post: Seq<Brand>,
    bi: int,
    ti: int,
    minted: Seq<MintedNft>,
) -> bool {
    let pre_b = pre[bi];
    let post_b = post[bi];
    let pre_t = pre_b.tiers@[ti];
    let post_t = post_b.tiers@[ti];
    &&& post.len() == pre.len()
    &&& forall|k: int| 0 <= k < pre.len() && k != bi ==> post[k] == pre[k]
    &&& post_b.brand_id == pre_b.brand_id
    &&& post_b.nft_token_id == pre_b.nft_token_id
    &&& post_b.info == pre_b.info
    &&& post_b.tags == pre_b.tags
    &&& post_b.whitelist == pre_b.whitelist
    &&& post_b.tiers@.len() == pre_b.tiers@.len()
    &&& forall|k: int|
        0 <= k < pre_b.tiers@.len() && k != ti ==> post_b.tiers@[k] == pre_b.tiers@[k]
    &&& post_t.tier_id == pre_t.tier_id
    &&& post_t.mint_price == pre_t.mint_price
    &&& post_t.total_nfts == pre_t.total_nfts
    &&& post_t.id_offset == pre_t.id_offset
    &&& post_t.available_ids.is_initialized() == pre_t.available_ids.is_initialized()
    &&& post_t.available_ids@.len() + minted.len() == pre_t.available_ids@.len()
    &&& pre_t.available_ids@.to_multiset() == post_t.available_ids@.to_multiset().add(
        local_ids(minted, pre_t.id_offset as int).to_multiset(),
    )
    &&& forall|k: int|
        0 <= k < minted.len() ==> minted_nft_wf(
            #[trigger] minted[k],
            pre_b.info.collection_hash@,
            pre_b.info.media_type@,
            crate::nft_attributes_builder::string_views(pre_b.tags@),
        ) && pre_t.id_offset < minted[k].nft_id <= pre_t.id_offset + pre_t.total_nfts
}

/// One tier's standing, as reported by the brand views: how many tokens
/// are still available, how many there ever were, and the price of one.
#[derive(Debug, PartialEq, Eq)]
pub struct TierInfoEntry {
    pub tier: String,
    pub available_nfts: usize,
    pub total_nfts: usize,
    pub mint_price: MintPrice,
}

/// The aggregate view of one committed brand.
#[derive(Debug)]
pub struct BrandInfoViewResultType {
    pub brand_id: String,
    pub nft_token_id: String,
    pub brand_info: BrandInfo,
    pub tier_info_entries: Vec<TierInfoEntry>,
}

/// The view `v` reports exactly the brand `b`: its identifiers, its
/// metadata, and for each tier the available and total counts and price.
pub open spec fn brand_view_matches(v: BrandInfoViewResultType, b: Brand) -> bool {
    &&& v.brand_id@ == b.brand_id@
    &&& v.nft_token_id@ == b.nft_token_id@
    &&& v.brand_info == b.info
    &&& v.tier_info_entries@.len() == b.tiers@.len()
    &&& forall|k: int|
        0 <= k < b.tiers@.len() ==> {
            let e = (#[trigger] v.tier_info_entries@[k]);
            &&& e.tier@ == b.tiers@[k].tier_id@
            &&& e.available_nfts == b.tiers@[k].available_ids@.len()
            &&& e.total_nfts == b.tiers@[k].total_nfts
            &&& e.mint_price == b.tiers@[k].mint_price
        }
}

/// Copies a brand's metadata, field for field.
fn clone_brand_info(info: &BrandInfo) -> (r: BrandInfo)
    ensures
        r == *info,
{
    BrandInfo {
        collection_hash: info.collection_hash.clone(),
        token_display_name: info.token_display_name.clone(),
        media_type: info.media_type.clone(),
        royalties: info.royalties,
        mint_period: info.mint_period,
        whitelist_expire_timestamp: info.whitelist_expire_timestamp,
    }
}

/// The total quantity requested over all `(recipient, quantity)` pairs.
pub open spec fn sum_quantities(pairs: Seq<(u64, usize)>) -> int
    decreases pairs.len(),
{
    if pairs.len() == 0 {
        0
    } else {
        pairs[0].1 + sum_quantities(pairs.drop_first())
    }
}

/// Taking one more pair adds exactly its quantity to the running sum.
pub proof fn lemma_sum_quantities_take(pairs: Seq<(u64, usize)>, i: int)
    requires
        0 <= i < pairs.len(),
    ensures
        sum_quantities(pairs.take(i + 1)) == sum_quantities(pairs.take(i)) + pairs[i].1,
    decreases i,
{
    if i == 0 {
        assert(pairs.take(1) =~= seq![pairs[0]]);
        assert(pairs.take(1).drop_first() =~= Seq::<(u64, usize)>::empty());
        assert(pairs.take(0) =~= Seq::<(u64, usize)>::empty());
    } else {
        lemma_sum_quantities_take(pairs.drop_first(), i - 1);
        assert(pairs.take(i + 1).drop_first() =~= pairs.drop_first().take(i));
        assert(pairs.take(i).drop_first() =~= pairs.drop_first().take(i - 1));
        assert(pairs.take(i + 1)[0] == pairs[0]);
        assert(pairs.take(i)[0] == pairs[0]);
    }
}

/// No quantity is negative, so every prefix sum is bounded by the total.
pub proof fn lemma_sum_quantities_prefix_bound(pairs: Seq<(u64, usize)>, i: int)
    requires
        0 <= i <= pairs.len(),
    ensures
        0 <= sum_quantities(pairs.take(i)) <= sum_quantities(pairs),
    decreases pairs.len() - i,
{
    if i == pairs.len() {
        assert(pairs.take(i) =~= pairs);
        lemma_sum_quantities_nonneg(pairs);
    } else {
        lemma_sum_quantities_take(pairs, i);
        lemma_sum_quantities_prefix_bound(pairs, i + 1);
        lemma_sum_quantities_nonneg(pairs.take(i));
    }
}

/// The sum of quantities is never negative.
pub proof fn lemma_sum_quantities_nonneg(pairs: Seq<(u64, usize)>)
    ensures
        sum_quantities(pairs) >= 0,
    decreases pairs.len(),
{
    if pairs.len() > 0 {
        lemma_sum_quantities_nonneg(pairs.drop_first());
    }
}

/// All tokens minted over a sequence of giveaway batches, in order.
pub open spec fn flatten_batches(batches: Seq<GiveawayBatch>) -> Seq<MintedNft>
    decreases batches.len(),
{
    if batches.len() == 0 {
        Seq::empty()
    } else {
        batches[0].nfts@ + flatten_batches(batches.drop_first())
    }
}

/// Appending one batch appends exactly its tokens to the flattening.
pub proof fn lemma_flatten_batches_push(batches: Seq<GiveawayBatch>, batch: GiveawayBatch)
    ensures
        flatten_batches(batches.push(batch)) == flatten_batches(batches) + batch.nfts@,
    decreases batches.len(),
{
    let pushed = batches.push(batch);
    if batches.len() == 0 {
        assert(pushed[0] == batch);
        assert(pushed.drop_first() =~= Seq::<GiveawayBatch>::empty());
        assert(flatten_batches(pushed.drop_first()) =~= Seq::<MintedNft>::empty());
        assert(flatten_batches(pushed) =~= batch.nfts@ + Seq::<MintedNft>::empty());
        assert(flatten_batches(batches) =~= Seq::<MintedNft>::empty());
        assert(batch.nfts@ + Seq::<MintedNft>::empty() =~= flatten_batches(batches)
            + batch.nfts@);
    } else {
        assert(pushed[0] == batches[0]);
        assert(pushed.drop_first() =~= batches.drop_first().push(batch));
        lemma_flatten_batches_push(batches.drop_first(), batch);
        assert(batches[0].nfts@ + (flatten_batches(batches.drop_first()) + batch.nfts@) =~= (
        batches[0].nfts@ + flatten_batches(batches.drop_first())) + batch.nfts@);
    }
}

/// Two draws against the same tier in sequence are one draw of the
/// concatenated batch: the frame conditions and the pool's multiset
/// accounting compose.
pub proof fn lemma_draws_compose(
    pre: Seq<Brand>,
    mid: Seq<Brand>,
    post: Seq<Brand>,
    bi: int,
    ti: int,
    m1: Seq<MintedNft>,
    m2: Seq<MintedNft>,
)
    requires
        0 <= bi < pre.len(),
        0 <= ti < pre[bi].tiers@.len(),
        brands_after_draw(pre, mid, bi, ti, m1),
        brands_after_draw(mid, post, bi, ti, m2),
    ensures
        brands_after_draw(pre, post, bi, ti, m1 + m2),
{
    broadcast use vstd::multiset::group_multiset_axioms;

    let pre_t = pre[bi].tiers@[ti];
    let mid_t = mid[bi].tiers@[ti];
    let post_t = post[bi].tiers@[ti];
    let off = pre_t.id_offset as int;
    assert(local_ids(m1 + m2, off) =~= local_ids(m1, off) + local_ids(m2, off));
    vstd::seq_lib::lemma_multiset_commutative(local_ids(m1, off), local_ids(m2, off));
    assert forall|x: usize|
        pre_t.available_ids@.to_multiset().count(x) == post_t.available_ids@.to_multiset().add(
            local_ids(m1 + m2, off).to_multiset(),
        ).count(x) by {
        assert(pre_t.available_ids@.to_multiset().count(x)
            == mid_t.available_ids@.to_multiset().count(x) + local_ids(m1, off).to_multiset().count(
            x,
        ));
        assert(mid_t.available_ids@.to_multiset().count(x)
            == post_t.available_ids@.to_multiset().count(x) + local_ids(
            m2,
            off,
        ).to_multiset().count(x));
    }
    assert(pre_t.available_ids@.to_multiset() =~= post_t.available_ids@.to_multiset().add(
        local_ids(m1 + m2, off).to_multiset(),
    ));
    assert forall|k: int|
        0 <= k < (m1 + m2).len() implies minted_nft_wf(
        #[trigger] (m1 + m2)[k],
        pre[bi].info.collection_hash@,
        pre[bi].info.media_type@,
        crate::nft_attributes_builder::string_views(pre[bi].tags@),
    ) && pre_t.id_offset < (m1 + m2)[k].nft_id <= pre_t.id_offset + pre_t.total_nfts by {
        if k < m1.len() {
            assert((m1 + m2)[k] == m1[k]);
        } else {
            assert((m1 + m2)[k] == m2[k - m1.len()]);
        }
    }
}

/// Law: a draw batch never issues an identifier twice, and what it issues
/// has permanently left the pool. Whatever positions the randomness chose,
/// the tier-local identifiers behind the minted tokens are pairwise
/// distinct, and none of them is still in the pool after the draw.
pub proof fn lemma_no_identifier_issued_twice(
    pre: Seq<Brand>,
    post: Seq<Brand>,
    bi: int,
    ti: int,
    minted: Seq<MintedNft>,
)
    requires
        0 <= bi < pre.len(),
        0 <= ti < pre[bi].tiers@.len(),
        pre[bi].tiers@[ti].wf(),
        brands_after_draw(pre, post, bi, ti, minted),
    ensures
        local_ids(minted, pre[bi].tiers@[ti].id_offset as int).no_duplicates(),
        forall|k: int|
            0 <= k < minted.len() ==> !post[bi].tiers@[ti].available_ids@.contains(
                #[trigger] local_ids(minted, pre[bi].tiers@[ti].id_offset as int)[k],
            ),
{
    broadcast use vstd::seq_lib::group_to_multiset_ensures;
    broadcast use vstd::multiset::group_multiset_axioms;

    let pre_pool = pre[bi].tiers@[ti].available_ids@;
    let post_pool = post[bi].tiers@[ti].available_ids@;
    let locals = local_ids(minted, pre[bi].tiers@[ti].id_offset as int);
    pre_pool.lemma_multiset_has_no_duplicates();
    assert forall|x: usize| locals.to_multiset().contains(x) implies locals.to_multiset().count(x)
        == 1 by {
        assert(pre_pool.to_multiset().count(x) == post_pool.to_multiset().count(x)
            + locals.to_multiset().count(x));
        assert(pre_pool.to_multiset().contains(x));
    }
    locals.lemma_multiset_has_no_duplicates_conv();
    assert forall|k: int| 0 <= k < minted.len() implies !post_pool.contains(
        #[trigger] locals[k],
    ) by {
        let x = locals[k];
        assert(locals.contains(x));
        assert(locals.to_multiset().count(x) > 0);
        assert(pre_pool.to_multiset().count(x) == post_pool.to_multiset().count(x)
            + locals.to_multiset().count(x));
        assert(pre_pool.to_multiset().contains(x));
        assert(pre_pool.to_multiset().count(x) == 1);
        assert(post_pool.to_multiset().count(x) == 0);
    }
}

/// Law: brand and collection identifiers are exclusive. While any staged
/// or committed brand holds `collection_hash`, a creation attempt naming it
/// fails with `DuplicateCollection`, whatever distinct brand identifier it
/// carries; and with the collection free, a reserved `brand_id` fails the
/// attempt with `DuplicateBrand`, whatever distinct collection it names.
pub proof fn lemma_duplicate_identifiers_rejected(
    m: NftMinter,
    collection_hash: Seq<char>,
    brand_id: Seq<char>,
    media_type: Seq<char>,
    royalties: u64,
    tiers: Seq<TierSpec>,
)
    requires
        1 <= brand_id.len() <= MAX_BRAND_ID_LEN,
        supported_media_type(media_type),
        royalties <= ROYALTIES_MAX,
        tiers.len() > 0,
        tiers_all_positive(tiers),
        tiers_tokens_valid(tiers),
        tiers_ids_unique(tiers),
    ensures
        m.is_reserved_collection(collection_hash) ==> m.create_brand_validation_error(
            collection_hash,
            brand_id,
            media_type,
            royalties,
            tiers,
        ) == Some(MintError::DuplicateCollection),
        !m.is_reserved_collection(collection_hash) && m.is_reserved_brand_id(brand_id)
            ==> m.create_brand_validation_error(
            collection_hash,
            brand_id,
            media_type,
            royalties,
            tiers,
        ) == Some(MintError::DuplicateBrand),
{
}

/// Law: discarding a staged brand releases its identifiers for immediate
/// reuse. In any state where neither the brand identifier nor the
/// collection identifier is reserved any longer — which is exactly what a
/// failed issuance callback guarantees — a creation attempt with the very
/// same values passes every duplicate check again.
pub proof fn lemma_discard_allows_recreation(
    m: NftMinter,
    collection_hash: Seq<char>,
    brand_id: Seq<char>,
    media_type: Seq<char>,
    royalties: u64,
    tiers: Seq<TierSpec>,
)
    requires
        !m.is_reserved_brand_id(brand_id),
        !m.is_reserved_collection(collection_hash),
        1 <= brand_id.len() <= MAX_BRAND_ID_LEN,
        supported_media_type(media_type),
        royalties <= ROYALTIES_MAX,
        tiers.len() > 0,
        tiers_all_positive(tiers),
        tiers_tokens_valid(tiers),
        tiers_ids_unique(tiers),
    ensures
        m.create_brand_validation_error(
            collection_hash,
            brand_id,
            media_type,
            royalties,
            tiers,
        ) is None,
{
}

/// Law: the payment must match exactly. When a purchase passes the brand,
/// tier, window, whitelist and quantity checks, it fails with
/// `InvalidPayment` precisely when the payment differs from quantity times
/// unit price — by as little as one unit under or over — or names another
/// token.
pub proof fn lemma_exact_payment_required(
    m: NftMinter,
    caller: u64,
    current_timestamp: u64,
    brand_id: Seq<char>,
    tier_id: Seq<char>,
    nfts_to_buy: int,
    payment_token: Seq<char>,
    payment_amount: int,
)
    requires
        m.is_committed_brand(brand_id),
        m.brands@[m.committed_brand_index(brand_id)].has_tier(tier_id),
        nfts_to_buy > 0,
        ({
            let b = m.brands@[m.committed_brand_index(brand_id)];
            &&& current_timestamp >= b.info.mint_period.start
            &&& match b.info.mint_period.end {
                Some(end) => current_timestamp < end,
                None => true,
            }
            &&& match b.info.whitelist_expire_timestamp {
                Some(expiry) => current_timestamp >= expiry || b.whitelist@.contains(caller),
                None => true,
            }
        }),
        nfts_to_buy <= m.max_nfts_per_transaction,
    ensures
        ({
            let b = m.brands@[m.committed_brand_index(brand_id)];
            let t = b.tiers@[b.tier_index(tier_id)];
            (payment_token != t.mint_price.token_id@ || payment_amount != t.mint_price.amount
                * nfts_to_buy) <==> m.purchase_error(
                caller,
                current_timestamp,
                brand_id,
                tier_id,
                nfts_to_buy,
                payment_token,
                payment_amount,
            ) == Some(MintError::InvalidPayment)
        }),
{
}

/// Law: the sale window's boundaries. With brand and tier known and a
/// positive quantity, a purchase strictly before the window's start fails
/// with `BeforeSaleWindow`; from the start on, no `BeforeSaleWindow` error
/// occurs, so a purchase at exactly the start passes the window checks;
/// and with an end boundary set, a purchase at or after it fails with
/// `AfterSaleWindow`.
pub proof fn lemma_sale_window_boundaries(
    m: NftMinter,
    caller: u64,
    current_timestamp: u64,
    brand_id: Seq<char>,
    tier_id: Seq<char>,
    nfts_to_buy: int,
    payment_token: Seq<char>,
    payment_amount: int,
)
    requires
        m.is_committed_brand(brand_id),
        m.brands@[m.committed_brand_index(brand_id)].has_tier(tier_id),
        nfts_to_buy > 0,
    ensures
        ({
            let b = m.brands@[m.committed_brand_index(brand_id)];
            let err = m.purchase_error(
                caller,
                current_timestamp,
                brand_id,
                tier_id,
                nfts_to_buy,
                payment_token,
                payment_amount,
            );
            &&& (current_timestamp < b.info.mint_period.start <==> err == Some(
                MintError::BeforeSaleWindow,
            ))
            &&& ((match b.info.mint_period.end {
                Some(end) => current_timestamp >= end,
                None => false,
            } && current_timestamp >= b.info.mint_period.start) <==> err == Some(
                MintError::AfterSaleWindow,
            ))
        }),
{
}

/// The media types a brand's main file may carry.
pub open spec fn supported_media_type(media: Seq<char>) -> bool {
    ||| media == "png"@
    ||| media == "jpeg"@
    ||| media == "jpg"@
    ||| media == "gif"@
    ||| media == "acc"@
    ||| media == "flac"@
    ||| media == "m4a"@
    ||| media == "mp3"@
    ||| media == "wav"@
    ||| media == "mov"@
    ||| media == "quicktime"@
    ||| media == "mp4"@
    ||| media == "webm"@
}

/// An uppercase letter or a digit: what a token ticker is spelt with.
pub open spec fn uppercase_alphanumeric(c: char) -> bool {
    ('A' <= c && c <= 'Z') || ('0' <= c && c <= '9')
}

/// A lowercase hexadecimal digit: what a token identifier's random suffix
/// is spelt with.
pub open spec fn lowercase_hex(c: char) -> bool {
    ('a' <= c && c <= 'f') || ('0' <= c && c <= '9')
}

/// A token identifier of the `TICKER-123abc` shape: a ticker of three to
/// ten uppercase alphanumerics, a dash, and six lowercase hex characters.
pub open spec fn valid_token_identifier(token: Seq<char>) -> bool {
    &&& 10 <= token.len() <= 17
    &&& token[token.len() - 7] == '-'
    &&& forall|i: int| 0 <= i < token.len() - 7 ==> uppercase_alphanumeric(#[trigger] token[i])
    &&& forall|i: int| token.len() - 6 <= i < token.len() ==> lowercase_hex(#[trigger] token[i])
}

/// The payment media recognized for a tier's price: the native token, or a
/// well-formed token identifier.
pub open spec fn valid_price_token(token: Seq<char>) -> bool {
    token == "EGLD"@ || valid_token_identifier(token)
}

/// Every requested tier has a positive maximum supply.
pub open spec fn tiers_all_positive(tiers: Seq<TierSpec>) -> bool {
    forall|i: int| 0 <= i < tiers.len() ==> (#[trigger] tiers[i]).max_supply > 0
}

/// Every requested tier's price names a recognized payment token.
pub open spec fn tiers_tokens_valid(tiers: Seq<TierSpec>) -> bool {
    forall|i: int|
        0 <= i < tiers.len() ==> valid_price_token((#[trigger] tiers[i]).mint_price.token_id@)
}

/// No two requested tiers carry the same tier identifier.
pub open spec fn tiers_ids_unique(tiers: Seq<TierSpec>) -> bool {
    forall|i: int, j: int|
        #![trigger tiers[i], tiers[j]]
        0 <= i < j < tiers.len() ==> tiers[i].tier_id@ != tiers[j].tier_id@
}

/// Whether `media` is a supported media type.
pub fn is_supported_media_type(media: &String) -> (r: bool)
    ensures
        r == supported_media_type(media@),
{
    crate::common_storage::string_matches(media, "png")
        || crate::common_storage::string_matches(media, "jpeg")
        || crate::common_storage::string_matches(media, "jpg")
        || crate::common_storage::string_matches(media, "gif")
        || crate::common_storage::string_matches(media, "acc")
        || crate::common_storage::string_matches(media, "flac")
        || crate::common_storage::string_matches(media, "m4a")
        || crate::common_storage::string_matches(media, "mp3")
        || crate::common_storage::string_matches(media, "wav")
        || crate::common_storage::string_matches(media, "mov")
        || crate::common_storage::string_matches(media, "quicktime")
        || crate::common_storage::string_matches(media, "mp4")
        || crate::common_storage::string_matches(media, "webm")
}

/// Whether `token` is a recognized payment medium.
pub fn is_valid_price_token(token: &String) -> (r: bool)
    ensures
        r == valid_price_token(token@),
{
    if crate::common_storage::string_matches(token, "EGLD") {
        return true;
    }
    let len = token.as_str().unicode_len();
    if len < 10 || len > 17 {
        return false;
    }
    if token.as_str().get_char(len - 7) != '-' {
        return false;
    }
    let ticker_len = len - 7;
    let mut i: usize = 0;
    while i < ticker_len
        invariant
            i <= ticker_len,
            forall|j: int| 0 <= j < i ==> uppercase_alphanumeric(#[trigger] token@[j]),
        decreases ticker_len - i,
    {
        let c = token.as_str().get_char(i);
        if !(('A' <= c && c <= 'Z') || ('0' <= c && c <= '9')) {
            return false;
        }
        i = i + 1;
    }
    let mut i: usize = len - 6;
    while i < len
        invariant
            len - 6 <= i <= len,
            forall|j: int| len - 6 <= j < i ==> lowercase_hex(#[trigger] token@[j]),
        decreases len - i,
    {
        let c = token.as_str().get_char(i);
        if !(('a' <= c && c <= 'f') || ('0' <= c && c <= '9')) {
            return false;
        }
        i = i + 1;
    }
    true
}

/// Draws one uniformly random identifier from the pool and removes it: the
/// sole mechanism by which identifiers ever leave a pool, shared by paid
/// purchases and free giveaways. Fails with `PoolExhausted`, and only then,
/// on an empty pool.
pub fn get_next_random_id<R: RandomnessSource>(pool: &mut UniqueIdMapper, rng: &mut R) -> (r:
    Result<usize, MintError>)
    requires
        old(pool)@.len() < usize::MAX,
    ensures
        match r {
            Ok(v) => {
                &&& old(pool)@.len() > 0
                &&& old(pool)@.contains(v)
                &&& final(pool)@.len() == old(pool)@.len() - 1
                &&& final(pool).is_initialized() == old(pool).is_initialized()
                &&& final(pool)@.to_multiset() == old(pool)@.to_multiset().remove(v)
                &&& exists|position: int|
                    {
                        &&& 1 <= position <= old(pool)@.len()
                        &&& v == old(pool)@[position - 1]
                        &&& final(pool)@ == swap_remove_seq(old(pool)@, position)
                    }
            },
            Err(e) => {
                &&& e == MintError::PoolExhausted
                &&& old(pool)@.len() == 0
                &&& *final(pool) == *old(pool)
            },
        },
{
    let last_id_index = pool.len();
    if last_id_index == 0 {
        return Err(MintError::PoolExhausted);
    }
    let rand_index = rng.next_usize_in_range(1, last_id_index + 1);
    let ghost before = pool@;
    match pool.get_and_swap_remove(rand_index) {
        Ok(v) => {
            proof {
                crate::unique_id_mapper::lemma_swap_remove_multiset(before, rand_index as int);
                assert(before.contains(v)) by {
                    assert(before[rand_index - 1] == v);
                }
            }
            Ok(v)
        },
        Err(_) => unreached(),
    }
}

impl NftMinter {
    /// The position of the tier carrying `tier_id` within the brand at
    /// `brand_index`, if any.
    pub fn find_tier(&self, brand_index: usize, tier_id: &String) -> (r: Option<usize>)
        requires
            self.wf(),
            brand_index < self.brands@.len(),
        ensures
            match r {
                Some(i) => {
                    &&& self.brands@[brand_index as int].has_tier(tier_id@)
                    &&& i == self.brands@[brand_index as int].tier_index(tier_id@)
                    &&& i < self.brands@[brand_index as int].tiers@.len()
                    &&& self.brands@[brand_index as int].tiers@[i as int].tier_id@ == tier_id@
                },
                None => !self.brands@[brand_index as int].has_tier(tier_id@),
            },
    {
        let brand = &self.brands[brand_index];
        let n = brand.tiers.len();
        let mut i: usize = 0;
        while i < n
            invariant
                i <= n,
                forall|j: int| 0 <= j < i ==> (#[trigger] brand.tiers@[j]).tier_id@ != tier_id@,
            decreases n - i,
        {
            if crate::common_storage::string_eq(&brand.tiers[i].tier_id, tier_id) {
                proof {
                    assert(brand.tiers@[i as int].tier_id@ == tier_id@);
                    assert(brand.wf());
                    let j = brand.tier_index(tier_id@);
                    assert(0 <= j < brand.tiers@.len() && brand.tiers@[j].tier_id@ == tier_id@);
                    assert(j == i);
                }
                return Some(i);
            }
            i = i + 1;
        }
        None
    }

    /// Draws `nfts_to_send` identifiers at random from the tier's pool and
    /// builds the minted tokens they stand for, each carrying its derived
    /// metadata and URIs; the caller hands the batch to the external
    /// mint-and-transfer service in one outbound operation.
    pub fn mint_and_send_random_nft<R: RandomnessSource>(
        &mut self,
        brand_index: usize,
        tier_index: usize,
        nfts_to_send: usize,
        rng: &mut R,
    ) -> (r: Vec<MintedNft>)
        requires
            old(self).wf(),
            brand_index < old(self).brands@.len(),
            tier_index < old(self).brands@[brand_index as int].tiers@.len(),
            nfts_to_send <= old(self).brands@[brand_index as int].tiers@[
                tier_index as int
            ].available_ids@.len(),
        ensures
            final(self).wf(),
            r@.len() == nfts_to_send,
            brands_after_draw(
                old(self).brands@,
                final(self).brands@,
                brand_index as int,
                tier_index as int,
                r@,
            ),
            final(self).staged_brands == old(self).staged_brands,
            final(self).mint_payments == old(self).mint_payments,
            final(self).collections_category == old(self).collections_category,
            final(self).royalties_claim_address == old(self).royalties_claim_address,
            final(self).mint_payments_claim_address == old(self).mint_payments_claim_address,
            final(self).max_nfts_per_transaction == old(self).max_nfts_per_transaction,
    {
        broadcast use vstd::seq_lib::group_to_multiset_ensures;
        broadcast use vstd::multiset::group_multiset_axioms;

        let ghost pre = *self;
        let ghost pre_b = pre.brands@[brand_index as int];
        let ghost pre_t = pre_b.tiers@[tier_index as int];
        let mut brand = self.brands.remove(brand_index);
        let collection_hash = brand.info.collection_hash.clone();
        let media_type = brand.info.media_type.clone();
        let tags = crate::common_storage::clone_strings(&brand.tags);
        let mut tier = brand.tiers.remove(tier_index);
        let id_offset = tier.id_offset;
        let total_nfts = tier.total_nfts;
        let ghost pre_pool = tier.available_ids@;
        proof {
            assert(pre_b.wf());
            assert(pre_t.wf());
            assert(tier == pre_t);
        }
        let mut drawn: Vec<usize> = Vec::new();
        let mut k: usize = 0;
        while k < nfts_to_send
            invariant
                k <= nfts_to_send,
                drawn@.len() == k,
                tier.available_ids@.len() + k == pre_pool.len(),
                tier.available_ids.is_initialized() == pre_t.available_ids.is_initialized(),
                tier.tier_id == pre_t.tier_id,
                tier.mint_price == pre_t.mint_price,
                tier.total_nfts == pre_t.total_nfts,
                tier.id_offset == pre_t.id_offset,
                pre_pool.to_multiset() == tier.available_ids@.to_multiset().add(
                    drawn@.to_multiset(),
                ),
                forall|a: int| 0 <= a < k ==> pre_pool.contains(#[trigger] drawn@[a]),
            decreases nfts_to_send - k,
        {
            let ghost before = tier.available_ids@;
            let v = match get_next_random_id(&mut tier.available_ids, rng) {
                Ok(v) => v,
                Err(_) => unreached(),
            };
            proof {
                let after = tier.available_ids@;
                assert(before.to_multiset().count(v) > 0);
                assert(pre_pool.to_multiset().count(v) > 0);
                assert(pre_pool.contains(v));
                assert forall|x: usize|
                    pre_pool.to_multiset().count(x) == after.to_multiset().add(
                        drawn@.push(v).to_multiset(),
                    ).count(x) by {
                    assert(drawn@.push(v).to_multiset() =~= drawn@.to_multiset().insert(v));
                }
                assert(pre_pool.to_multiset() =~= after.to_multiset().add(
                    drawn@.push(v).to_multiset(),
                ));
            }
            drawn.push(v);
            k = k + 1;
        }
        let mut minted: Vec<MintedNft> = Vec::new();
        let mut b: usize = 0;
        while b < nfts_to_send
            invariant
                b <= nfts_to_send,
                nfts_to_send == drawn@.len(),
                minted@.len() == b,
                id_offset + total_nfts < usize::MAX,
                forall|a: int| 0 <= a < nfts_to_send ==> 1 <= #[trigger] drawn@[a] <= total_nfts,
                forall|a: int|
                    0 <= a < b ==> (#[trigger] minted@[a]).nft_id == id_offset + drawn@[a]
                        && minted_nft_wf(
                        minted@[a],
                        collection_hash@,
                        media_type@,
                        crate::nft_attributes_builder::string_views(tags@),
                    ),
            decreases nfts_to_send - b,
        {
            proof {
                assert forall|a: int|
                    0 <= a < nfts_to_send implies 1 <= #[trigger] drawn@[a] <= total_nfts by {
                    assert(pre_pool.contains(drawn@[a]));
                    let j = choose|j: int| 0 <= j < pre_pool.len() && pre_pool[j] == drawn@[a];
                    assert(1 <= pre_pool[j] <= pre_t.total_nfts);
                }
            }
            let local = drawn[b];
            let nft_id = id_offset + local;
            let m = MintedNft {
                nft_id,
                attributes: crate::nft_attributes_builder::build_nft_attributes_string(
                    &collection_hash,
                    nft_id as u64,
                    &tags,
                ),
                main_file_uri: crate::nft_attributes_builder::build_nft_main_file_uri(
                    &collection_hash,
                    nft_id as u64,
                    &media_type,
                ),
                json_file_uri: crate::nft_attributes_builder::build_nft_json_file_uri(
                    &collection_hash,
                    nft_id as u64,
                ),
                collection_json_uri: crate::nft_attributes_builder::build_collection_json_file_uri(
                    &collection_hash,
                ),
            };
            minted.push(m);
            b = b + 1;
        }
        let ghost new_tier = tier;
        brand.tiers.insert(tier_index, tier);
        let ghost new_brand = brand;
        self.brands.insert(brand_index, brand);
        proof {
            broadcast use vstd::seq_lib::lemma_update_is_remove_insert;

            let post = *self;
            assert(post.brands@ =~= pre.brands@.update(brand_index as int, new_brand));
            assert(new_brand.tiers@ =~= pre_b.tiers@.update(tier_index as int, new_tier));
            assert(local_ids(minted@, id_offset as int) =~= drawn@);
            assert(new_tier.available_ids@.no_duplicates() && forall|i: int|
                0 <= i < new_tier.available_ids@.len() ==> 1 <= #[trigger] new_tier.available_ids@[i]
                    <= new_tier.total_nfts) by {
                let new_pool = new_tier.available_ids@;
                pre_pool.lemma_multiset_has_no_duplicates();
                assert forall|x: usize|
                    new_pool.to_multiset().contains(x) implies new_pool.to_multiset().count(x)
                    == 1 by {
                    assert(pre_pool.to_multiset().count(x) >= new_pool.to_multiset().count(x));
                    assert(pre_pool.to_multiset().contains(x));
                }
                new_pool.lemma_multiset_has_no_duplicates_conv();
                assert forall|i: int|
                    0 <= i < new_pool.len() implies 1 <= #[trigger] new_pool[i]
                    <= new_tier.total_nfts by {
                    assert(new_pool.contains(new_pool[i]));
                    assert(new_pool.to_multiset().count(new_pool[i]) > 0);
                    assert(pre_pool.to_multiset().count(new_pool[i]) > 0);
                    assert(pre_pool.contains(new_pool[i]));
                    let j = choose|j: int|
                        0 <= j < pre_pool.len() && pre_pool[j] == new_pool[i];
                    assert(1 <= pre_pool[j] <= pre_t.total_nfts);
                }
            }
            assert(new_tier.wf());
            assert(new_brand.wf()) by {
                assert forall|i: int, j: int|
                    #![trigger new_brand.tiers@[i], new_brand.tiers@[j]]
                    0 <= i < j < new_brand.tiers@.len() implies new_brand.tiers@[i].tier_id@
                    != new_brand.tiers@[j].tier_id@ by {
                    assert(new_brand.tiers@[i].tier_id == pre_b.tiers@[i].tier_id);
                    assert(new_brand.tiers@[j].tier_id == pre_b.tiers@[j].tier_id);
                }
                assert forall|i: int| 0 <= i < new_brand.tiers@.len() implies (
                #[trigger] new_brand.tiers@[i]).wf() by {
                    if i != tier_index {
                        assert(new_brand.tiers@[i] == pre_b.tiers@[i]);
                    }
                }
            }
            assert(post.wf()) by {
                assert forall|i: int, j: int|
                    #![trigger post.brands@[i], post.brands@[j]]
                    0 <= i < j < post.brands@.len() implies post.brands@[i].brand_id@
                    != post.brands@[j].brand_id@ && post.brands@[i].info.collection_hash@
                    != post.brands@[j].info.collection_hash@ by {
                    assert(post.brands@[i].brand_id == pre.brands@[i].brand_id);
                    assert(post.brands@[j].brand_id == pre.brands@[j].brand_id);
                    assert(post.brands@[i].info == pre.brands@[i].info);
                    assert(post.brands@[j].info == pre.brands@[j].info);
                }
                assert forall|i: int, j: int|
                    #![trigger post.brands@[i], post.staged_brands@[j]]
                    0 <= i < post.brands@.len() && 0 <= j < post.staged_brands@.len() implies post.brands@[i].brand_id@
                    != post.staged_brands@[j].brand_id@ && post.brands@[i].info.collection_hash@
                    != post.staged_brands@[j].brand_info.collection_hash@ by {
                    assert(post.brands@[i].brand_id == pre.brands@[i].brand_id);
                    assert(post.brands@[i].info == pre.brands@[i].info);
                }
                assert forall|i: int| 0 <= i < post.brands@.len() implies (
                #[trigger] post.brands@[i]).wf() by {
                    if i != brand_index {
                        assert(post.brands@[i] == pre.brands@[i]);
                    } else {
                        assert(post.brands@[i] == new_brand);
                    }
                }
            }
        }
        minted
    }

    /// The first failure of a purchase request, in the order the checks
    /// run; `None` when the purchase is accepted. A purchase of zero
    /// tokens against a known brand and tier is accepted and does nothing.
    pub open spec fn purchase_error(
        self,
        caller: u64,
        current_timestamp: u64,
        brand_id: Seq<char>,
        tier_id: Seq<char>,
        nfts_to_buy: int,
        payment_token: Seq<char>,
        payment_amount: int,
    ) -> Option<MintError> {
        if !self.is_committed_brand(brand_id) {
            Some(MintError::UnknownBrand)
        } else {
            let b = self.brands@[self.committed_brand_index(brand_id)];
            if !b.has_tier(tier_id) {
                Some(MintError::UnknownTier)
            } else {
                let t = b.tiers@[b.tier_index(tier_id)];
                if nfts_to_buy == 0 {
                    None
                } else if current_timestamp < b.info.mint_period.start {
                    Some(MintError::BeforeSaleWindow)
                } else if match b.info.mint_period.end {
                    Some(end) => current_timestamp >= end,
                    None => false,
                } {
                    Some(MintError::AfterSaleWindow)
                } else if match b.info.whitelist_expire_timestamp {
                    Some(expiry) => current_timestamp < expiry && !b.whitelist@.contains(caller),
                    None => false,
                } {
                    Some(MintError::NotWhitelisted)
                } else if nfts_to_buy > self.max_nfts_per_transaction {
                    Some(MintError::MaxPerTransactionExceeded)
                } else if payment_token != t.mint_price.token_id@ || payment_amount
                    != t.mint_price.amount * nfts_to_buy {
                    Some(MintError::InvalidPayment)
                } else if nfts_to_buy > t.available_ids@.len() {
                    Some(MintError::PoolExhausted)
                } else {
                    None
                }
            }
        }
    }

    /// Whether `caller` is on the brand's whitelist.
    fn address_whitelisted(brand: &Brand, caller: u64) -> (r: bool)
        ensures
            r == brand.whitelist@.contains(caller),
    {
        let n = brand.whitelist.len();
        let mut i: usize = 0;
        while i < n
            invariant
                i <= n,
                forall|j: int| 0 <= j < i ==> brand.whitelist@[j] != caller,
            decreases n - i,
        {
            if brand.whitelist[i] == caller {
                return true;
            }
            i = i + 1;
        }
        false
    }

    /// Sells `nfts_to_buy` random tokens of one tier.
    ///
    /// Exactly the stated checks can fail, in the stated order: the brand
    /// must be committed and the tier known, the purchase must fall inside
    /// the sale window, a still-active whitelist must hold the caller, the
    /// quantity must not exceed the per-transaction maximum nor the pool's
    /// remaining length, and the payment must match quantity times unit
    /// price exactly, in token and in amount. A failure changes nothing.
    ///
    /// On success the payment is credited to the ledger and `nfts_to_buy`
    /// identifiers leave the tier's pool, one independent draw each.
    pub fn buy_random_nft<R: RandomnessSource>(
        &mut self,
        caller: u64,
        current_timestamp: u64,
        brand_id: &String,
        tier_id: &String,
        nfts_to_buy: usize,
        payment_token: &String,
        payment_amount: u64,
        rng: &mut R,
    ) -> (r: Result<Vec<MintedNft>, MintError>)
        requires
            old(self).wf(),
            crate::royalties::ledger_amount(old(self).mint_payments@, payment_token@)
                + payment_amount <= u128::MAX,
        ensures
            final(self).wf(),
            match r {
                Ok(minted) => {
                    &&& old(self).purchase_error(
                        caller,
                        current_timestamp,
                        brand_id@,
                        tier_id@,
                        nfts_to_buy as int,
                        payment_token@,
                        payment_amount as int,
                    ) is None
                    &&& minted@.len() == nfts_to_buy
                    &&& if nfts_to_buy == 0 {
                        *final(self) == *old(self)
                    } else {
                        let bi = old(self).committed_brand_index(brand_id@);
                        let ti = old(self).brands@[bi].tier_index(tier_id@);
                        &&& brands_after_draw(
                            old(self).brands@,
                            final(self).brands@,
                            bi,
                            ti,
                            minted@,
                        )
                        &&& crate::royalties::ledger_amount(
                            final(self).mint_payments@,
                            payment_token@,
                        ) == crate::royalties::ledger_amount(
                            old(self).mint_payments@,
                            payment_token@,
                        ) + payment_amount
                        &&& forall|t: Seq<char>|
                            t != payment_token@ ==> crate::royalties::ledger_amount(
                                final(self).mint_payments@,
                                t,
                            ) == crate::royalties::ledger_amount(old(self).mint_payments@, t)
                        &&& final(self).staged_brands == old(self).staged_brands
                        &&& final(self).collections_category == old(self).collections_category
                        &&& final(self).royalties_claim_address == old(
                            self,
                        ).royalties_claim_address
                        &&& final(self).mint_payments_claim_address == old(
                            self,
                        ).mint_payments_claim_address
                        &&& final(self).max_nfts_per_transaction == old(
                            self,
                        ).max_nfts_per_transaction
                    }
                },
                Err(e) => {
                    &&& *final(self) == *old(self)
                    &&& Some(e) == old(self).purchase_error(
                        caller,
                        current_timestamp,
                        brand_id@,
                        tier_id@,
                        nfts_to_buy as int,
                        payment_token@,
                        payment_amount as int,
                    )
                },
            },
    {
        let brand_index = match self.find_committed_brand(brand_id) {
            Some(i) => i,
            None => {
                return Err(MintError::UnknownBrand);
            },
        };
        let tier_index = match self.find_tier(brand_index, tier_id) {
            Some(i) => i,
            None => {
                return Err(MintError::UnknownTier);
            },
        };
        if nfts_to_buy == 0 {
            return Ok(Vec::new());
        }
        let brand = &self.brands[brand_index];
        let tier = &brand.tiers[tier_index];
        if current_timestamp < brand.info.mint_period.start {
            return Err(MintError::BeforeSaleWindow);
        }
        if let Some(end) = brand.info.mint_period.end {
            if current_timestamp >= end {
                return Err(MintError::AfterSaleWindow);
            }
        }
        if let Some(expiry) = brand.info.whitelist_expire_timestamp {
            if current_timestamp < expiry {
                if !Self::address_whitelisted(brand, caller) {
                    return Err(MintError::NotWhitelisted);
                }
            }
        }
        if nfts_to_buy > self.max_nfts_per_transaction {
            return Err(MintError::MaxPerTransactionExceeded);
        }
        let unit_price = tier.mint_price.amount;
        proof {
            assert((unit_price as int) * (nfts_to_buy as int) <= (u64::MAX as int) * (
            usize::MAX as int)) by (nonlinear_arith)
                requires
                    unit_price <= u64::MAX,
                    nfts_to_buy <= usize::MAX,
                    unit_price >= 0,
                    nfts_to_buy >= 0,
            ;
            assert((u64::MAX as int) * (usize::MAX as int) < u128::MAX as int);
        }
        let required: u128 = (unit_price as u128) * (nfts_to_buy as u128);
        if !crate::common_storage::string_eq(payment_token, &tier.mint_price.token_id)
            || (payment_amount as u128) != required {
            return Err(MintError::InvalidPayment);
        }
        if nfts_to_buy > tier.available_ids.len() {
            return Err(MintError::PoolExhausted);
        }
        proof {
            assert(old(self).purchase_error(
                caller,
                current_timestamp,
                brand_id@,
                tier_id@,
                nfts_to_buy as int,
                payment_token@,
                payment_amount as int,
            ) is None);
        }
        self.add_mint_payment(payment_token, payment_amount);
        let minted = self.mint_and_send_random_nft(brand_index, tier_index, nfts_to_buy, rng);
        Ok(minted)
    }

    /// The first failure of a giveaway request: unknown brand or tier, or
    /// a total requested quantity exceeding the pool's remaining length.
    pub open spec fn giveaway_error(
        self,
        brand_id: Seq<char>,
        tier_id: Seq<char>,
        pairs: Seq<(u64, usize)>,
    ) -> Option<MintError> {
        if !self.is_committed_brand(brand_id) {
            Some(MintError::UnknownBrand)
        } else {
            let b = self.brands@[self.committed_brand_index(brand_id)];
            if !b.has_tier(tier_id) {
                Some(MintError::UnknownTier)
            } else {
                let t = b.tiers@[b.tier_index(tier_id)];
                if sum_quantities(pairs) > t.available_ids@.len() {
                    Some(MintError::PoolExhausted)
                } else {
                    None
                }
            }
        }
    }

    /// Distributes free tokens: draws `quantity` random identifiers for
    /// each `(recipient, quantity)` pair in list order, through the same
    /// draw primitive purchases use, skipping window, whitelist, limit and
    /// payment checks. A total quantity exceeding the pool's remaining
    /// length fails the whole giveaway with `PoolExhausted` before any
    /// draw: there is no partial distribution.
    pub fn giveaway_nfts<R: RandomnessSource>(
        &mut self,
        brand_id: &String,
        tier_id: &String,
        dest_amount_pairs: &Vec<(u64, usize)>,
        rng: &mut R,
    ) -> (r: Result<Vec<GiveawayBatch>, MintError>)
        requires
            old(self).wf(),
        ensures
            final(self).wf(),
            match r {
                Ok(batches) => {
                    &&& old(self).giveaway_error(brand_id@, tier_id@, dest_amount_pairs@) is None
                    &&& batches@.len() == dest_amount_pairs@.len()
                    &&& forall|k: int|
                        0 <= k < batches@.len() ==> (#[trigger] batches@[k]).recipient
                            == dest_amount_pairs@[k].0 && batches@[k].nfts@.len()
                            == dest_amount_pairs@[k].1
                    &&& {
                        let bi = old(self).committed_brand_index(brand_id@);
                        let ti = old(self).brands@[bi].tier_index(tier_id@);
                        brands_after_draw(
                            old(self).brands@,
                            final(self).brands@,
                            bi,
                            ti,
                            flatten_batches(batches@),
                        )
                    }
                    &&& final(self).staged_brands == old(self).staged_brands
                    &&& final(self).mint_payments == old(self).mint_payments
                    &&& final(self).collections_category == old(self).collections_category
                    &&& final(self).royalties_claim_address == old(self).royalties_claim_address
                    &&& final(self).mint_payments_claim_address == old(
                        self,
                    ).mint_payments_claim_address
                    &&& final(self).max_nfts_per_transaction == old(self).max_nfts_per_transaction
                },
                Err(e) => {
                    &&& *final(self) == *old(self)
                    &&& Some(e) == old(self).giveaway_error(brand_id@, tier_id@, dest_amount_pairs@)
                },
            },
    {
        let brand_index = match self.find_committed_brand(brand_id) {
            Some(i) => i,
            None => {
                return Err(MintError::UnknownBrand);
            },
        };
        let tier_index = match self.find_tier(brand_index, tier_id) {
            Some(i) => i,
            None => {
                return Err(MintError::UnknownTier);
            },
        };
        let ghost bi = brand_index as int;
        let ghost ti = tier_index as int;
        let pool_len = self.brands[brand_index].tiers[tier_index].available_ids.len();
        let n_pairs = dest_amount_pairs.len();
        let mut total: usize = 0;
        let mut i: usize = 0;
        while i < n_pairs
            invariant
                i <= n_pairs,
                total == sum_quantities(dest_amount_pairs@.take(i as int)),
                total <= pool_len,
            decreases n_pairs - i,
        {
            let quantity = dest_amount_pairs[i].1;
            proof {
                lemma_sum_quantities_take(dest_amount_pairs@, i as int);
            }
            if quantity > pool_len - total {
                proof {
                    lemma_sum_quantities_prefix_bound(dest_amount_pairs@, i + 1 as int);
                }
                return Err(MintError::PoolExhausted);
            }
            total = total + quantity;
            i = i + 1;
        }
        proof {
            assert(dest_amount_pairs@.take(n_pairs as int) =~= dest_amount_pairs@);
            assert(sum_quantities(dest_amount_pairs@) <= pool_len);
            assert(old(self).giveaway_error(brand_id@, tier_id@, dest_amount_pairs@) is None);
        }
        let ghost pre = *self;
        let mut batches: Vec<GiveawayBatch> = Vec::new();
        proof {
            broadcast use vstd::multiset::group_multiset_axioms;
            broadcast use vstd::seq_lib::group_to_multiset_ensures;

            let off = pre.brands@[bi].tiers@[ti].id_offset as int;
            let pool = pre.brands@[bi].tiers@[ti].available_ids@;
            assert(flatten_batches(batches@) =~= Seq::<MintedNft>::empty());
            assert(local_ids(flatten_batches(batches@), off) =~= Seq::<usize>::empty());
            assert forall|x: usize| Seq::<usize>::empty().to_multiset().count(x) == 0 by {
                assert(!Seq::<usize>::empty().contains(x));
            }
            assert(pool.to_multiset() =~= pool.to_multiset().add(
                local_ids(flatten_batches(batches@), off).to_multiset(),
            ));
        }
        let mut i: usize = 0;
        while i < n_pairs
            invariant
                i <= n_pairs,
                batches@.len() == i,
                self.wf(),
                bi < self.brands@.len(),
                ti < self.brands@[bi].tiers@.len(),
                forall|k: int|
                    0 <= k < i ==> (#[trigger] batches@[k]).recipient == dest_amount_pairs@[k].0
                        && batches@[k].nfts@.len() == dest_amount_pairs@[k].1,
                flatten_batches(batches@).len() == sum_quantities(dest_amount_pairs@.take(i as int)),
                brands_after_draw(pre.brands@, self.brands@, bi, ti, flatten_batches(batches@)),
                self.staged_brands == pre.staged_brands,
                self.mint_payments == pre.mint_payments,
                self.collections_category == pre.collections_category,
                self.royalties_claim_address == pre.royalties_claim_address,
                self.mint_payments_claim_address == pre.mint_payments_claim_address,
                self.max_nfts_per_transaction == pre.max_nfts_per_transaction,
            decreases n_pairs - i,
        {
            let recipient = dest_amount_pairs[i].0;
            let quantity = dest_amount_pairs[i].1;
            proof {
                lemma_sum_quantities_take(dest_amount_pairs@, i as int);
                lemma_sum_quantities_prefix_bound(dest_amount_pairs@, i + 1 as int);
                assert(flatten_batches(batches@).len() + quantity <= pool_len);
                assert(self.brands@[bi].tiers@[ti].available_ids@.len() == pool_len
                    - flatten_batches(batches@).len());
            }
            let ghost mid = *self;
            let nfts = self.mint_and_send_random_nft(brand_index, tier_index, quantity, rng);
            let batch = GiveawayBatch { recipient, nfts };
            proof {
                lemma_flatten_batches_push(batches@, batch);
                lemma_draws_compose(
                    pre.brands@,
                    mid.brands@,
                    self.brands@,
                    bi,
                    ti,
                    flatten_batches(batches@),
                    batch.nfts@,
                );
            }
            batches.push(batch);
            i = i + 1;
        }
        proof {
            assert(dest_amount_pairs@.take(n_pairs as int) =~= dest_amount_pairs@);
        }
        Ok(batches)
    }

    /// The issued token identifier backing the committed brand.
    pub fn nft_token(&self, brand_id: &String) -> (r: Option<&String>)
        requires
            self.wf(),
        ensures
            match r {
                Some(token) => self.is_committed_brand(brand_id@) && token == &self.brands@[
                    self.committed_brand_index(brand_id@)
                ].nft_token_id,
                None => !self.is_committed_brand(brand_id@),
            },
    {
        match self.find_committed_brand(brand_id) {
            Some(i) => Some(&self.brands[i].nft_token_id),
            None => None,
        }
    }

    /// The tags of the committed brand.
    pub fn tags_for_brand(&self, brand_id: &String) -> (r: Option<&Vec<String>>)
        requires
            self.wf(),
        ensures
            match r {
                Some(tags) => self.is_committed_brand(brand_id@) && tags == &self.brands@[
                    self.committed_brand_index(brand_id@)
                ].tags,
                None => !self.is_committed_brand(brand_id@),
            },
    {
        match self.find_committed_brand(brand_id) {
            Some(i) => Some(&self.brands[i].tags),
            None => None,
        }
    }

    /// Whether the committed brand has a tier carrying `tier_id`.
    pub fn brand_has_tier(&self, brand_id: &String, tier_id: &String) -> (r: bool)
        requires
            self.wf(),
        ensures
            r == (self.is_committed_brand(brand_id@) && self.brands@[
                self.committed_brand_index(brand_id@)
            ].has_tier(tier_id@)),
    {
        match self.find_committed_brand(brand_id) {
            Some(i) => self.find_tier(i, tier_id).is_some(),
            None => false,
        }
    }

    /// The tier of the committed brand carrying `tier_id`, if both exist.
    fn tier_for(&self, brand_id: &String, tier_id: &String) -> (r: Option<&Tier>)
        requires
            self.wf(),
        ensures
            match r {
                Some(tier) => {
                    &&& self.is_committed_brand(brand_id@)
                    &&& self.brands@[self.committed_brand_index(brand_id@)].has_tier(tier_id@)
                    &&& {
                        let b = self.brands@[self.committed_brand_index(brand_id@)];
                        tier == &b.tiers@[b.tier_index(tier_id@)]
                    }
                },
                None => !self.is_committed_brand(brand_id@) || !self.brands@[
                    self.committed_brand_index(brand_id@)
                ].has_tier(tier_id@),
            },
    {
        match self.find_committed_brand(brand_id) {
            Some(bi) => match self.find_tier(bi, tier_id) {
                Some(ti) => Some(&self.brands[bi].tiers[ti]),
                None => None,
            },
            None => None,
        }
    }

    /// How many tokens the tier may ever issue.
    pub fn total_nfts(&self, brand_id: &String, tier_id: &String) -> (r: Option<usize>)
        requires
            self.wf(),
        ensures
            match r {
                Some(total) => {
                    &&& self.is_committed_brand(brand_id@)
                    &&& self.brands@[self.committed_brand_index(brand_id@)].has_tier(tier_id@)
                    &&& {
                        let b = self.brands@[self.committed_brand_index(brand_id@)];
                        total == b.tiers@[b.tier_index(tier_id@)].total_nfts
                    }
                },
                None => !self.is_committed_brand(brand_id@) || !self.brands@[
                    self.committed_brand_index(brand_id@)
                ].has_tier(tier_id@),
            },
    {
        match self.tier_for(brand_id, tier_id) {
            Some(tier) => Some(tier.total_nfts),
            None => None,
        }
    }

    /// The base the tier's pool identifiers are offset by to form globally
    /// meaningful token numbers.
    pub fn nft_id_offset_for_tier(&self, brand_id: &String, tier_id: &String) -> (r: Option<usize>)
        requires
            self.wf(),
        ensures
            match r {
                Some(offset) => {
                    &&& self.is_committed_brand(brand_id@)
                    &&& self.brands@[self.committed_brand_index(brand_id@)].has_tier(tier_id@)
                    &&& {
                        let b = self.brands@[self.committed_brand_index(brand_id@)];
                        offset == b.tiers@[b.tier_index(tier_id@)].id_offset
                    }
                },
                None => !self.is_committed_brand(brand_id@) || !self.brands@[
                    self.committed_brand_index(brand_id@)
                ].has_tier(tier_id@),
            },
    {
        match self.tier_for(brand_id, tier_id) {
            Some(tier) => Some(tier.id_offset),
            None => None,
        }
    }

    /// The price of one token of the tier.
    pub fn price_for_tier(&self, brand_id: &String, tier_id: &String) -> (r: Option<&MintPrice>)
        requires
            self.wf(),
        ensures
            match r {
                Some(price) => {
                    &&& self.is_committed_brand(brand_id@)
                    &&& self.brands@[self.committed_brand_index(brand_id@)].has_tier(tier_id@)
                    &&& {
                        let b = self.brands@[self.committed_brand_index(brand_id@)];
                        price == &b.tiers@[b.tier_index(tier_id@)].mint_price
                    }
                },
                None => !self.is_committed_brand(brand_id@) || !self.brands@[
                    self.committed_brand_index(brand_id@)
                ].has_tier(tier_id@),
            },
    {
        match self.tier_for(brand_id, tier_id) {
            Some(tier) => Some(&tier.mint_price),
            None => None,
        }
    }

    /// The tier's pool of still-undrawn identifiers.
    pub fn available_ids(&self, brand_id: &String, tier_id: &String) -> (r: Option<&UniqueIdMapper>)
        requires
            self.wf(),
        ensures
            match r {
                Some(pool) => {
                    &&& self.is_committed_brand(brand_id@)
                    &&& self.brands@[self.committed_brand_index(brand_id@)].has_tier(tier_id@)
                    &&& {
                        let b = self.brands@[self.committed_brand_index(brand_id@)];
                        pool == &b.tiers@[b.tier_index(tier_id@)].available_ids
                    }
                },
                None => !self.is_committed_brand(brand_id@) || !self.brands@[
                    self.committed_brand_index(brand_id@)
                ].has_tier(tier_id@),
            },
    {
        match self.tier_for(brand_id, tier_id) {
            Some(tier) => Some(&tier.available_ids),
            None => None,
        }
    }

    /// The attribute string of one token, derived from the collection hash
    /// and the brand's tags; a brand that is not committed contributes no
    /// tags.
    pub fn build_nft_attributes(
        &self,
        collection_hash: &String,
        brand_id: &String,
        nft_id: u64,
    ) -> (r: String)
        requires
            self.wf(),
        ensures
            r@ == crate::nft_attributes_builder::nft_attributes(
                collection_hash@,
                nft_id as nat,
                if self.is_committed_brand(brand_id@) {
                    crate::nft_attributes_builder::string_views(
                        self.brands@[self.committed_brand_index(brand_id@)].tags@,
                    )
                } else {
                    Seq::<Seq<char>>::empty()
                },
            ),
    {
        match self.find_committed_brand(brand_id) {
            Some(i) => crate::nft_attributes_builder::build_nft_attributes_string(
                collection_hash,
                nft_id,
                &self.brands[i].tags,
            ),
            None => {
                let no_tags: Vec<String> = Vec::new();
                proof {
                    assert(crate::nft_attributes_builder::string_views(no_tags@) =~= Seq::<
                        Seq<char>,
                    >::empty());
                }
                crate::nft_attributes_builder::build_nft_attributes_string(
                    collection_hash,
                    nft_id,
                    &no_tags,
                )
            },
        }
    }

    /// The view of the committed brand at `index`.
    fn brand_view_at(&self, index: usize) -> (r: BrandInfoViewResultType)
        requires
            self.wf(),
            index < self.brands@.len(),
        ensures
            brand_view_matches(r, self.brands@[index as int]),
    {
        let brand = &self.brands[index];
        let n = brand.tiers.len();
        let mut entries: Vec<TierInfoEntry> = Vec::new();
        let mut k: usize = 0;
        while k < n
            invariant
                k <= n,
                entries@.len() == k,
                forall|a: int|
                    0 <= a < k ==> {
                        let e = (#[trigger] entries@[a]);
                        &&& e.tier@ == brand.tiers@[a].tier_id@
                        &&& e.available_nfts == brand.tiers@[a].available_ids@.len()
                        &&& e.total_nfts == brand.tiers@[a].total_nfts
                        &&& e.mint_price == brand.tiers@[a].mint_price
                    },
            decreases n - k,
        {
            let tier = &brand.tiers[k];
            entries.push(
                TierInfoEntry {
                    tier: tier.tier_id.clone(),
                    available_nfts: tier.available_ids.len(),
                    total_nfts: tier.total_nfts,
                    mint_price: MintPrice {
                        token_id: tier.mint_price.token_id.clone(),
                        amount: tier.mint_price.amount,
                    },
                },
            );
            k = k + 1;
        }
        BrandInfoViewResultType {
            brand_id: brand.brand_id.clone(),
            nft_token_id: brand.nft_token_id.clone(),
            brand_info: clone_brand_info(&brand.info),
            tier_info_entries: entries,
        }
    }

    /// The aggregate view of the committed brand carrying `brand_id`:
    /// identifiers, metadata, and per-tier availability, supply and price.
    /// Side-effect-free; fails with `UnknownBrand`, and only then, when no
    /// committed brand carries `brand_id`.
    pub fn get_brand_info_view(&self, brand_id: &String) -> (r: Result<
        BrandInfoViewResultType,
        MintError,
    >)
        requires
            self.wf(),
        ensures
            match r {
                Ok(v) => self.is_committed_brand(brand_id@) && brand_view_matches(
                    v,
                    self.brands@[self.committed_brand_index(brand_id@)],
                ),
                Err(e) => e == MintError::UnknownBrand && !self.is_committed_brand(brand_id@),
            },
    {
        match self.find_committed_brand(brand_id) {
            Some(index) => Ok(self.brand_view_at(index)),
            None => Err(MintError::UnknownBrand),
        }
    }

    /// The views of all committed brands, in registration order.
    /// Side-effect-free.
    pub fn get_all_brands_info(&self) -> (r: Vec<BrandInfoViewResultType>)
        requires
            self.wf(),
        ensures
            r@.len() == self.brands@.len(),
            forall|k: int|
                0 <= k < self.brands@.len() ==> brand_view_matches(
                    #[trigger] r@[k],
                    self.brands@[k],
                ),
    {
        let n = self.brands.len();
        let mut result: Vec<BrandInfoViewResultType> = Vec::new();
        let mut k: usize = 0;
        while k < n
            invariant
                k <= n,
                result@.len() == k,
                forall|a: int|
                    0 <= a < k ==> brand_view_matches(#[trigger] result@[a], self.brands@[a]),
            decreases n - k,
        {
            result.push(self.brand_view_at(k));
            k = k + 1;
        }
        result
    }

    /// Sets the upper bound on how many tokens one purchase may mint.
    pub fn set_max_nfts_per_transaction(&mut self, max: usize)
        requires
            old(self).wf(),
        ensures
            final(self).wf(),
            final(self).max_nfts_per_transaction == max,
            final(self).brands == old(self).brands,
            final(self).staged_brands == old(self).staged_brands,
            final(self).mint_payments == old(self).mint_payments,
            final(self).collections_category == old(self).collections_category,
            final(self).royalties_claim_address == old(self).royalties_claim_address,
            final(self).mint_payments_claim_address == old(self).mint_payments_claim_address,
    {
        self.max_nfts_per_transaction = max;
    }

    /// Sets the timestamp before which only whitelisted callers may buy
    /// from the brand. Fails with `UnknownBrand`, and only then, when no
    /// committed brand carries `brand_id`; a failure changes nothing.
    pub fn set_mint_whitelist_expire_timestamp(&mut self, brand_id: &String, timestamp: u64) -> (r:
        Result<(), MintError>)
        requires
            old(self).wf(),
        ensures
            final(self).wf(),
            match r {
                Ok(()) => {
                    &&& old(self).is_committed_brand(brand_id@)
                    &&& {
                        let bi = old(self).committed_brand_index(brand_id@);
                        let pre_b = old(self).brands@[bi];
                        let post_b = final(self).brands@[bi];
                        &&& final(self).brands@.len() == old(self).brands@.len()
                        &&& forall|k: int|
                            0 <= k < old(self).brands@.len() && k != bi
                                ==> final(self).brands@[k] == old(self).brands@[k]
                        &&& post_b.brand_id == pre_b.brand_id
                        &&& post_b.nft_token_id == pre_b.nft_token_id
                        &&& post_b.tiers == pre_b.tiers
                        &&& post_b.tags == pre_b.tags
                        &&& post_b.whitelist == pre_b.whitelist
                        &&& post_b.info.collection_hash == pre_b.info.collection_hash
                        &&& post_b.info.token_display_name == pre_b.info.token_display_name
                        &&& post_b.info.media_type == pre_b.info.media_type
                        &&& post_b.info.royalties == pre_b.info.royalties
                        &&& post_b.info.mint_period == pre_b.info.mint_period
                        &&& post_b.info.whitelist_expire_timestamp == Some(timestamp)
                    }
                    &&& final(self).staged_brands == old(self).staged_brands
                    &&& final(self).mint_payments == old(self).mint_payments
                    &&& final(self).collections_category == old(self).collections_category
                    &&& final(self).royalties_claim_address == old(self).royalties_claim_address
                    &&& final(self).mint_payments_claim_address == old(
                        self,
                    ).mint_payments_claim_address
                    &&& final(self).max_nfts_per_transaction == old(self).max_nfts_per_transaction
                },
                Err(e) => {
                    &&& e == MintError::UnknownBrand
                    &&& !old(self).is_committed_brand(brand_id@)
                    &&& *final(self) == *old(self)
                },
            },
    {
        let brand_index = match self.find_committed_brand(brand_id) {
            Some(i) => i,
            None => {
                return Err(MintError::UnknownBrand);
            },
        };
        let ghost pre = *self;
        let mut brand = self.brands.remove(brand_index);
        brand.info.whitelist_expire_timestamp = Some(timestamp);
        let ghost new_brand = brand;
        self.brands.insert(brand_index, brand);
        proof {
            broadcast use vstd::seq_lib::lemma_update_is_remove_insert;

            let post = *self;
            assert(post.brands@ =~= pre.brands@.update(brand_index as int, new_brand));
            assert(post.wf()) by {
                assert forall|i: int, j: int|
                    #![trigger post.brands@[i], post.brands@[j]]
                    0 <= i < j < post.brands@.len() implies post.brands@[i].brand_id@
                    != post.brands@[j].brand_id@ && post.brands@[i].info.collection_hash@
                    != post.brands@[j].info.collection_hash@ by {
                    assert(post.brands@[i].brand_id == pre.brands@[i].brand_id);
                    assert(post.brands@[j].brand_id == pre.brands@[j].brand_id);
                    assert(post.brands@[i].info.collection_hash == pre.brands@[
                        i
                    ].info.collection_hash);
                    assert(post.brands@[j].info.collection_hash == pre.brands@[
                        j
                    ].info.collection_hash);
                }
                assert forall|i: int, j: int|
                    #![trigger post.brands@[i], post.staged_brands@[j]]
                    0 <= i < post.brands@.len() && 0 <= j < post.staged_brands@.len() implies post.brands@[i].brand_id@
                    != post.staged_brands@[j].brand_id@ && post.brands@[i].info.collection_hash@
                    != post.staged_brands@[j].brand_info.collection_hash@ by {
                    assert(post.brands@[i].brand_id == pre.brands@[i].brand_id);
                    assert(post.brands@[i].info.collection_hash == pre.brands@[
                        i
                    ].info.collection_hash);
                }
                assert forall|i: int| 0 <= i < post.brands@.len() implies (
                #[trigger] post.brands@[i]).wf() by {
                    if i != brand_index {
                        assert(post.brands@[i] == pre.brands@[i]);
                    } else {
                        assert(post.brands@[i] == new_brand);
                        assert(new_brand.tiers == pre.brands@[i].tiers);
                    }
                }
            }
        }
        Ok(())
    }

    /// Adds addresses to the brand's whitelist. Fails with `UnknownBrand`,
    /// and only then, when no committed brand carries `brand_id`; a
    /// failure changes nothing.
    pub fn add_to_whitelist(&mut self, brand_id: &String, addresses: &Vec<u64>) -> (r: Result<
        (),
        MintError,
    >)
        requires
            old(self).wf(),
        ensures
            final(self).wf(),
            match r {
                Ok(()) => {
                    &&& old(self).is_committed_brand(brand_id@)
                    &&& {
                        let bi = old(self).committed_brand_index(brand_id@);
                        let pre_b = old(self).brands@[bi];
                        let post_b = final(self).brands@[bi];
                        &&& final(self).brands@.len() == old(self).brands@.len()
                        &&& forall|k: int|
                            0 <= k < old(self).brands@.len() && k != bi
                                ==> final(self).brands@[k] == old(self).brands@[k]
                        &&& post_b.brand_id == pre_b.brand_id
                        &&& post_b.nft_token_id == pre_b.nft_token_id
                        &&& post_b.tiers == pre_b.tiers
                        &&& post_b.tags == pre_b.tags
                        &&& post_b.info == pre_b.info
                        &&& post_b.whitelist@ == pre_b.whitelist@ + addresses@
                    }
                    &&& final(self).staged_brands == old(self).staged_brands
                    &&& final(self).mint_payments == old(self).mint_payments
                    &&& final(self).collections_category == old(self).collections_category
                    &&& final(self).royalties_claim_address == old(self).royalties_claim_address
                    &&& final(self).mint_payments_claim_address == old(
                        self,
                    ).mint_payments_claim_address
                    &&& final(self).max_nfts_per_transaction == old(self).max_nfts_per_transaction
                },
                Err(e) => {
                    &&& e == MintError::UnknownBrand
                    &&& !old(self).is_committed_brand(brand_id@)
                    &&& *final(self) == *old(self)
                },
            },
    {
        let brand_index = match self.find_committed_brand(brand_id) {
            Some(i) => i,
            None => {
                return Err(MintError::UnknownBrand);
            },
        };
        let ghost pre = *self;
        let mut brand = self.brands.remove(brand_index);
        let ghost pre_whitelist = brand.whitelist@;
        let n = addresses.len();
        let mut k: usize = 0;
        while k < n
            invariant
                k <= n,
                brand.whitelist@ == pre_whitelist + addresses@.take(k as int),
                brand.brand_id == pre.brands@[brand_index as int].brand_id,
                brand.nft_token_id == pre.brands@[brand_index as int].nft_token_id,
                brand.tiers == pre.brands@[brand_index as int].tiers,
                brand.tags == pre.brands@[brand_index as int].tags,
                brand.info == pre.brands@[brand_index as int].info,
            decreases n - k,
        {
            brand.whitelist.push(addresses[k]);
            proof {
                assert(brand.whitelist@ =~= pre_whitelist + addresses@.take(k + 1 as int));
            }
            k = k + 1;
        }
        proof {
            assert(addresses@.take(n as int) =~= addresses@);
        }
        let ghost new_brand = brand;
        self.brands.insert(brand_index, brand);
        proof {
            broadcast use vstd::seq_lib::lemma_update_is_remove_insert;

            let post = *self;
            assert(post.brands@ =~= pre.brands@.update(brand_index as int, new_brand));
            assert(post.wf()) by {
                assert forall|i: int, j: int|
                    #![trigger post.brands@[i], post.brands@[j]]
                    0 <= i < j < post.brands@.len() implies post.brands@[i].brand_id@
                    != post.brands@[j].brand_id@ && post.brands@[i].info.collection_hash@
                    != post.brands@[j].info.collection_hash@ by {
                    assert(post.brands@[i].brand_id == pre.brands@[i].brand_id);
                    assert(post.brands@[j].brand_id == pre.brands@[j].brand_id);
                    assert(post.brands@[i].info == pre.brands@[i].info);
                    assert(post.brands@[j].info == pre.brands@[j].info);
                }
                assert forall|i: int, j: int|
                    #![trigger post.brands@[i], post.staged_brands@[j]]
                    0 <= i < post.brands@.len() && 0 <= j < post.staged_brands@.len() implies post.brands@[i].brand_id@
                    != post.staged_brands@[j].brand_id@ && post.brands@[i].info.collection_hash@
                    != post.staged_brands@[j].brand_info.collection_hash@ by {
                    assert(post.brands@[i].brand_id == pre.brands@[i].brand_id);
                    assert(post.brands@[i].info == pre.brands@[i].info);
                }
                assert forall|i: int| 0 <= i < post.brands@.len() implies (
                #[trigger] post.brands@[i]).wf() by {
                    if i != brand_index {
                        assert(post.brands@[i] == pre.brands@[i]);
                    } else {
                        assert(post.brands@[i] == new_brand);
                        assert(new_brand.tiers == pre.brands@[brand_index as int].tiers);
                    }
                }
            }
        }
        Ok(())
    }

    /// The first validation failure of a brand-creation request, in the
    /// order the checks run; `None` when the request is accepted.
    pub open spec fn create_brand_validation_error(
        self,
        collection_hash: Seq<char>,
        brand_id: Seq<char>,
        media_type: Seq<char>,
        royalties: u64,
        tiers: Seq<TierSpec>,
    ) -> Option<MintError> {
        if brand_id.len() < 1 || brand_id.len() > MAX_BRAND_ID_LEN {
            Some(MintError::InvalidBrandId)
        } else if !supported_media_type(media_type) {
            Some(MintError::UnsupportedMediaType)
        } else if royalties > ROYALTIES_MAX {
            Some(MintError::InvalidRoyalties)
        } else if tiers.len() == 0 || !tiers_all_positive(tiers) {
            Some(MintError::EmptySupply)
        } else if !tiers_tokens_valid(tiers) {
            Some(MintError::InvalidPriceToken)
        } else if !tiers_ids_unique(tiers) {
            Some(MintError::DuplicateTier)
        } else if self.is_reserved_collection(collection_hash) {
            Some(MintError::DuplicateCollection)
        } else if self.is_reserved_brand_id(brand_id) {
            Some(MintError::DuplicateBrand)
        } else {
            None
        }
    }

    /// Whether `brand_id` is reserved by a staged or a committed brand.
    pub fn brand_id_reserved(&self, brand_id: &String) -> (r: bool)
        ensures
            r == self.is_reserved_brand_id(brand_id@),
    {
        let mut i: usize = 0;
        let n = self.brands.len();
        while i < n
            invariant
                i <= n,
                n == self.brands@.len(),
                forall|j: int| 0 <= j < i ==> (#[trigger] self.brands@[j]).brand_id@ != brand_id@,
            decreases n - i,
        {
            if crate::common_storage::string_eq(&self.brands[i].brand_id, brand_id) {
                return true;
            }
            i = i + 1;
        }
        let mut i: usize = 0;
        let n = self.staged_brands.len();
        while i < n
            invariant
                i <= n,
                n == self.staged_brands@.len(),
                forall|j: int|
                    0 <= j < i ==> (#[trigger] self.staged_brands@[j]).brand_id@ != brand_id@,
            decreases n - i,
        {
            if crate::common_storage::string_eq(&self.staged_brands[i].brand_id, brand_id) {
                return true;
            }
            i = i + 1;
        }
        false
    }

    /// Whether `collection_hash` backs a staged or a committed brand.
    pub fn collection_reserved(&self, collection_hash: &String) -> (r: bool)
        ensures
            r == self.is_reserved_collection(collection_hash@),
    {
        let mut i: usize = 0;
        let n = self.brands.len();
        while i < n
            invariant
                i <= n,
                n == self.brands@.len(),
                forall|j: int|
                    0 <= j < i ==> (#[trigger] self.brands@[j]).info.collection_hash@
                        != collection_hash@,
            decreases n - i,
        {
            if crate::common_storage::string_eq(
                &self.brands[i].info.collection_hash,
                collection_hash,
            ) {
                return true;
            }
            i = i + 1;
        }
        let mut i: usize = 0;
        let n = self.staged_brands.len();
        while i < n
            invariant
                i <= n,
                n == self.staged_brands@.len(),
                forall|j: int|
                    0 <= j < i ==> (#[trigger] self.staged_brands@[j]).brand_info.collection_hash@
                        != collection_hash@,
            decreases n - i,
        {
            if crate::common_storage::string_eq(
                &self.staged_brands[i].brand_info.collection_hash,
                collection_hash,
            ) {
                return true;
            }
            i = i + 1;
        }
        false
    }

    /// The position of the staged brand carrying `brand_id`, if any.
    pub fn find_staged_brand(&self, brand_id: &String) -> (r: Option<usize>)
        requires
            self.wf(),
        ensures
            match r {
                Some(i) => {
                    &&& self.is_staged_brand(brand_id@)
                    &&& i == self.staged_brand_index(brand_id@)
                    &&& i < self.staged_brands@.len()
                    &&& self.staged_brands@[i as int].brand_id@ == brand_id@
                },
                None => !self.is_staged_brand(brand_id@),
            },
    {
        let n = self.staged_brands.len();
        let mut i: usize = 0;
        while i < n
            invariant
                i <= n,
                forall|j: int|
                    0 <= j < i ==> (#[trigger] self.staged_brands@[j]).brand_id@ != brand_id@,
            decreases n - i,
        {
            if crate::common_storage::string_eq(&self.staged_brands[i].brand_id, brand_id) {
                proof {
                    assert(self.staged_brands@[i as int].brand_id@ == brand_id@);
                    let j = self.staged_brand_index(brand_id@);
                    assert(0 <= j < self.staged_brands@.len() && self.staged_brands@[j].brand_id@
                        == brand_id@);
                    assert(j == i);
                }
                return Some(i);
            }
            i = i + 1;
        }
        None
    }

    /// The position of the committed brand carrying `brand_id`, if any.
    pub fn find_committed_brand(&self, brand_id: &String) -> (r: Option<usize>)
        requires
            self.wf(),
        ensures
            match r {
                Some(i) => {
                    &&& self.is_committed_brand(brand_id@)
                    &&& i == self.committed_brand_index(brand_id@)
                    &&& i < self.brands@.len()
                    &&& self.brands@[i as int].brand_id@ == brand_id@
                },
                None => !self.is_committed_brand(brand_id@),
            },
    {
        let n = self.brands.len();
        let mut i: usize = 0;
        while i < n
            invariant
                i <= n,
                forall|j: int| 0 <= j < i ==> (#[trigger] self.brands@[j]).brand_id@ != brand_id@,
            decreases n - i,
        {
            if crate::common_storage::string_eq(&self.brands[i].brand_id, brand_id) {
                proof {
                    assert(self.brands@[i as int].brand_id@ == brand_id@);
                    let j = self.committed_brand_index(brand_id@);
                    assert(0 <= j < self.brands@.len() && self.brands@[j].brand_id@ == brand_id@);
                    assert(j == i);
                }
                return Some(i);
            }
            i = i + 1;
        }
        None
    }

    /// Consumes the staged record of `brand_id` with the outcome of the
    /// external token-issuance call.
    ///
    /// On success the staged configuration is committed: the brand becomes
    /// visible, carrying the issued token identifier, one freshly filled
    /// identifier pool per tier and cumulative identifier offsets. On
    /// failure the staging is discarded and both the brand identifier and
    /// the collection identifier become reservable again.
    pub fn issue_callback(&mut self, brand_id: &String, result: IssueResult) -> (r: Result<
        (),
        MintError,
    >)
        requires
            old(self).wf(),
        ensures
            final(self).wf(),
            match r {
                Ok(()) => {
                    &&& old(self).is_staged_brand(brand_id@)
                    &&& {
                        let si = old(self).staged_brand_index(brand_id@);
                        let st = old(self).staged_brands@[si];
                        &&& final(self).staged_brands@ == old(self).staged_brands@.remove(si)
                        &&& !final(self).is_staged_brand(brand_id@)
                        &&& match result {
                            IssueResult::Success(token_id) => {
                                &&& final(self).brands@ == old(self).brands@.push(
                                    final(self).brands@.last(),
                                )
                                &&& {
                                    let b = final(self).brands@.last();
                                    &&& b.brand_id@ == brand_id@
                                    &&& b.nft_token_id == token_id
                                    &&& b.info == st.brand_info
                                    &&& b.tags@ == st.tags@
                                    &&& b.whitelist@.len() == 0
                                    &&& b.tiers@.len() == st.tiers@.len()
                                    &&& forall|k: int|
                                        0 <= k < st.tiers@.len() ==> {
                                            let t = (#[trigger] b.tiers@[k]);
                                            &&& t.tier_id == st.tiers@[k].tier_id
                                            &&& t.mint_price == st.tiers@[k].mint_price
                                            &&& t.total_nfts == st.tiers@[k].max_supply
                                            &&& t.id_offset == sum_supplies(st.tiers@.take(k))
                                            &&& t.available_ids@ == id_seq(
                                                st.tiers@[k].max_supply as nat,
                                            )
                                        }
                                }
                                &&& final(self).is_committed_brand(brand_id@)
                            },
                            IssueResult::Failure => {
                                &&& final(self).brands == old(self).brands
                                &&& !final(self).is_reserved_brand_id(brand_id@)
                                &&& !final(self).is_reserved_collection(
                                    st.brand_info.collection_hash@,
                                )
                            },
                        }
                        &&& final(self).mint_payments == old(self).mint_payments
                        &&& final(self).collections_category == old(self).collections_category
                        &&& final(self).royalties_claim_address == old(
                            self,
                        ).royalties_claim_address
                        &&& final(self).mint_payments_claim_address == old(
                            self,
                        ).mint_payments_claim_address
                        &&& final(self).max_nfts_per_transaction == old(
                            self,
                        ).max_nfts_per_transaction
                    }
                },
                Err(e) => {
                    &&& e == MintError::UnknownBrand
                    &&& !old(self).is_staged_brand(brand_id@)
                    &&& *final(self) == *old(self)
                },
            },
    {
        let staged_index = match self.find_staged_brand(brand_id) {
            Some(i) => i,
            None => {
                return Err(MintError::UnknownBrand);
            },
        };
        let ghost pre = *self;
        let ghost pre_staged = self.staged_brands@;
        let st = self.staged_brands.remove(staged_index);
        proof {
            assert(st == pre_staged[staged_index as int]);
            assert forall|a: int|
                0 <= a < self.staged_brands@.len() implies #[trigger] self.staged_brands@[a] == (
            if a < staged_index {
                pre_staged[a]
            } else {
                pre_staged[a + 1]
            }) by {
                assert(self.staged_brands@ == pre_staged.remove(staged_index as int));
            }
            assert forall|a: int|
                0 <= a < self.staged_brands@.len() implies (
            #[trigger] self.staged_brands@[a]).brand_id@ != brand_id@ by {
                if a < staged_index {
                    assert(self.staged_brands@[a] == pre_staged[a]);
                } else {
                    assert(self.staged_brands@[a] == pre_staged[a + 1]);
                }
            }
        }
        match result {
            IssueResult::Success(token_id) => {
                let n_tiers = st.tiers.len();
                let mut tiers: Vec<Tier> = Vec::new();
                let mut id_offset: usize = 0;
                let mut k: usize = 0;
                proof {
                    assert(st.tiers@.take(0) =~= Seq::<TierSpec>::empty());
                    lemma_sum_supplies_prefix_bound(st.tiers@, 0);
                }
                while k < n_tiers
                    invariant
                        k <= n_tiers,
                        n_tiers == st.tiers@.len(),
                        tiers@.len() == k,
                        st.wf(),
                        id_offset == sum_supplies(st.tiers@.take(k as int)),
                        forall|a: int|
                            0 <= a < k ==> {
                                let t = (#[trigger] tiers@[a]);
                                &&& t.tier_id == st.tiers@[a].tier_id
                                &&& t.mint_price == st.tiers@[a].mint_price
                                &&& t.total_nfts == st.tiers@[a].max_supply
                                &&& t.id_offset == sum_supplies(st.tiers@.take(a))
                                &&& t.available_ids@ == id_seq(st.tiers@[a].max_supply as nat)
                                &&& t.wf()
                            },
                    decreases n_tiers - k,
                {
                    let supply = st.tiers[k].max_supply;
                    proof {
                        lemma_sum_supplies_take(st.tiers@, k as int);
                        lemma_sum_supplies_prefix_bound(st.tiers@, k + 1 as int);
                        lemma_id_seq_properties(supply as nat);
                    }
                    let mut pool = UniqueIdMapper::new();
                    match pool.initialize(supply) {
                        Ok(()) => {},
                        Err(_) => {
                            unreached::<()>()
                        },
                    }
                    let tier = Tier {
                        tier_id: st.tiers[k].tier_id.clone(),
                        mint_price: MintPrice {
                            token_id: st.tiers[k].mint_price.token_id.clone(),
                            amount: st.tiers[k].mint_price.amount,
                        },
                        total_nfts: supply,
                        id_offset,
                        available_ids: pool,
                    };
                    tiers.push(tier);
                    id_offset = id_offset + supply;
                    k = k + 1;
                }
                let brand = Brand {
                    brand_id: st.brand_id,
                    nft_token_id: token_id,
                    info: st.brand_info,
                    tiers,
                    tags: st.tags,
                    whitelist: Vec::new(),
                };
                self.brands.push(brand);
                proof {
                    let post = *self;
                    let b = post.brands@.last();
                    assert(post.brands@ == pre.brands@.push(b));
                    assert(b.brand_id@ == brand_id@);
                    assert(post.is_committed_brand(brand_id@));
                    assert(b.wf()) by {
                        assert(forall|i: int, j: int|
                            #![trigger b.tiers@[i], b.tiers@[j]]
                            0 <= i < j < b.tiers@.len() ==> b.tiers@[i].tier_id@
                                != b.tiers@[j].tier_id@);
                    }
                    assert forall|a: int, c: int|
                        #![trigger post.brands@[a], post.brands@[c]]
                        0 <= a < c < post.brands@.len() implies post.brands@[a].brand_id@
                        != post.brands@[c].brand_id@ && post.brands@[a].info.collection_hash@
                        != post.brands@[c].info.collection_hash@ by {
                        if c < pre.brands@.len() {
                            assert(post.brands@[a] == pre.brands@[a]);
                            assert(post.brands@[c] == pre.brands@[c]);
                        } else {
                            assert(post.brands@[a] == pre.brands@[a]);
                            assert(post.brands@[c] == b);
                            assert(pre_staged[staged_index as int].brand_id@ == b.brand_id@);
                            assert(pre_staged[staged_index as int].brand_info.collection_hash@
                                == b.info.collection_hash@);
                        }
                    }
                    assert forall|a: int, c: int|
                        #![trigger post.brands@[a], post.staged_brands@[c]]
                        0 <= a < post.brands@.len() && 0 <= c < post.staged_brands@.len() implies post.brands@[a].brand_id@
                        != post.staged_brands@[c].brand_id@ && post.brands@[a].info.collection_hash@
                        != post.staged_brands@[c].brand_info.collection_hash@ by {
                        let c0 = if c < staged_index {
                            c
                        } else {
                            c + 1
                        };
                        assert(post.staged_brands@[c] == pre_staged[c0]);
                        if a < pre.brands@.len() {
                            assert(post.brands@[a] == pre.brands@[a]);
                        } else {
                            assert(post.brands@[a] == b);
                            assert(pre_staged[staged_index as int].brand_id@ == b.brand_id@);
                        }
                    }
                    assert forall|a: int| 0 <= a < post.brands@.len() implies (
                    #[trigger] post.brands@[a]).wf() by {
                        if a < pre.brands@.len() {
                            assert(post.brands@[a] == pre.brands@[a]);
                        } else {
                            assert(post.brands@[a] == b);
                        }
                    }
                    assert forall|a: int, c: int|
                        #![trigger post.staged_brands@[a], post.staged_brands@[c]]
                        0 <= a < c < post.staged_brands@.len() implies post.staged_brands@[a].brand_id@
                        != post.staged_brands@[c].brand_id@
                        && post.staged_brands@[a].brand_info.collection_hash@
                        != post.staged_brands@[c].brand_info.collection_hash@ by {
                        let a0 = if a < staged_index {
                            a
                        } else {
                            a + 1
                        };
                        let c0 = if c < staged_index {
                            c
                        } else {
                            c + 1
                        };
                        assert(post.staged_brands@[a] == pre_staged[a0]);
                        assert(post.staged_brands@[c] == pre_staged[c0]);
                    }
                    assert forall|a: int| 0 <= a < post.staged_brands@.len() implies (
                    #[trigger] post.staged_brands@[a]).wf() by {
                        let a0 = if a < staged_index {
                            a
                        } else {
                            a + 1
                        };
                        assert(post.staged_brands@[a] == pre_staged[a0]);
                    }
                }
                Ok(())
            },
            IssueResult::Failure => {
                proof {
                    let post = *self;
                    assert forall|a: int, c: int|
                        #![trigger post.staged_brands@[a], post.staged_brands@[c]]
                        0 <= a < c < post.staged_brands@.len() implies post.staged_brands@[a].brand_id@
                        != post.staged_brands@[c].brand_id@
                        && post.staged_brands@[a].brand_info.collection_hash@
                        != post.staged_brands@[c].brand_info.collection_hash@ by {
                        let a0 = if a < staged_index {
                            a
                        } else {
                            a + 1
                        };
                        let c0 = if c < staged_index {
                            c
                        } else {
                            c + 1
                        };
                        assert(post.staged_brands@[a] == pre_staged[a0]);
                        assert(post.staged_brands@[c] == pre_staged[c0]);
                    }
                    assert forall|a: int| 0 <= a < post.staged_brands@.len() implies (
                    #[trigger] post.staged_brands@[a]).wf() by {
                        let a0 = if a < staged_index {
                            a
                        } else {
                            a + 1
                        };
                        assert(post.staged_brands@[a] == pre_staged[a0]);
                    }
                    assert forall|a: int, c: int|
                        #![trigger post.brands@[a], post.staged_brands@[c]]
                        0 <= a < post.brands@.len() && 0 <= c < post.staged_brands@.len() implies post.brands@[a].brand_id@
                        != post.staged_brands@[c].brand_id@ && post.brands@[a].info.collection_hash@
                        != post.staged_brands@[c].brand_info.collection_hash@ by {
                        let c0 = if c < staged_index {
                            c
                        } else {
                            c + 1
                        };
                        assert(post.staged_brands@[c] == pre_staged[c0]);
                    }
                    let hash = pre_staged[staged_index as int].brand_info.collection_hash@;
                    assert(!post.is_committed_brand(brand_id@)) by {
                        if post.is_committed_brand(brand_id@) {
                            let i = choose|i: int|
                                0 <= i < post.brands@.len() && (
                                #[trigger] post.brands@[i]).brand_id@ == brand_id@;
                            assert(pre.brands@[i].brand_id@ == brand_id@);
                            assert(pre_staged[staged_index as int].brand_id@ == brand_id@);
                            assert(false);
                        }
                    }
                    assert(!post.is_staged_collection(hash)) by {
                        if post.is_staged_collection(hash) {
                            let i = choose|i: int|
                                0 <= i < post.staged_brands@.len() && (
                                #[trigger] post.staged_brands@[i]).brand_info.collection_hash@
                                    == hash;
                            let i0 = if i < staged_index {
                                i
                            } else {
                                i + 1
                            };
                            assert(post.staged_brands@[i] == pre_staged[i0]);
                            assert(false);
                        }
                    }
                    assert(!post.is_committed_collection(hash)) by {
                        if post.is_committed_collection(hash) {
                            let i = choose|i: int|
                                0 <= i < post.brands@.len() && (
                                #[trigger] post.brands@[i]).info.collection_hash@ == hash;
                            assert(pre.brands@[i].info.collection_hash@ == hash);
                            assert(false);
                        }
                    }
                }
                Ok(())
            },
        }
    }

    /// Validates a brand-creation request, reserves its brand and
    /// collection identifiers and stages the full configuration, to be
    /// committed or discarded by [`NftMinter::issue_callback`] once the
    /// external token-issuance call reports its outcome.
    ///
    /// Exactly the stated validations can fail, in the stated order, and a
    /// failure changes nothing.
    pub fn issue_token_for_brand(
        &mut self,
        collection_hash: String,
        brand_id: String,
        media_type: String,
        royalties: u64,
        mint_start_timestamp: u64,
        mint_end_timestamp: Option<u64>,
        whitelist_expire_timestamp: Option<u64>,
        token_display_name: String,
        token_ticker: String,
        tiers: Vec<TierSpec>,
        tags: Vec<String>,
    ) -> (r: Result<(), MintError>)
        requires
            old(self).wf(),
            sum_supplies(tiers@) < usize::MAX,
        ensures
            final(self).wf(),
            match r {
                Ok(()) => {
                    &&& old(self).create_brand_validation_error(
                        collection_hash@,
                        brand_id@,
                        media_type@,
                        royalties,
                        tiers@,
                    ) is None
                    &&& final(self).staged_brands@ == old(self).staged_brands@.push(
                        final(self).staged_brands@.last(),
                    )
                    &&& {
                        let st = final(self).staged_brands@.last();
                        &&& st.brand_id@ == brand_id@
                        &&& st.brand_info.collection_hash@ == collection_hash@
                        &&& st.brand_info.token_display_name@ == token_display_name@
                        &&& st.brand_info.media_type@ == media_type@
                        &&& st.brand_info.royalties == royalties
                        &&& st.brand_info.mint_period.start == mint_start_timestamp
                        &&& st.brand_info.mint_period.end == mint_end_timestamp
                        &&& st.brand_info.whitelist_expire_timestamp == whitelist_expire_timestamp
                        &&& st.token_ticker@ == token_ticker@
                        &&& st.tiers@ == tiers@
                        &&& st.tags@ == tags@
                    }
                    &&& final(self).brands == old(self).brands
                    &&& final(self).mint_payments == old(self).mint_payments
                    &&& final(self).collections_category == old(self).collections_category
                    &&& final(self).royalties_claim_address == old(self).royalties_claim_address
                    &&& final(self).mint_payments_claim_address == old(
                        self,
                    ).mint_payments_claim_address
                    &&& final(self).max_nfts_per_transaction == old(self).max_nfts_per_transaction
                    &&& final(self).is_staged_brand(brand_id@)
                    &&& final(self).is_reserved_collection(collection_hash@)
                },
                Err(e) => *final(self) == *old(self) && Some(e) == old(
                    self,
                ).create_brand_validation_error(
                    collection_hash@,
                    brand_id@,
                    media_type@,
                    royalties,
                    tiers@,
                ),
            },
    {
        let id_len = brand_id.as_str().unicode_len();
        if id_len < 1 || id_len > MAX_BRAND_ID_LEN {
            return Err(MintError::InvalidBrandId);
        }
        if !is_supported_media_type(&media_type) {
            return Err(MintError::UnsupportedMediaType);
        }
        if royalties > ROYALTIES_MAX {
            return Err(MintError::InvalidRoyalties);
        }
        if tiers.len() == 0 {
            return Err(MintError::EmptySupply);
        }
        let n_tiers = tiers.len();
        let mut i: usize = 0;
        while i < n_tiers
            invariant
                i <= n_tiers,
                n_tiers == tiers@.len(),
                forall|j: int| 0 <= j < i ==> (#[trigger] tiers@[j]).max_supply > 0,
            decreases n_tiers - i,
        {
            if tiers[i].max_supply == 0 {
                return Err(MintError::EmptySupply);
            }
            i = i + 1;
        }
        let mut i: usize = 0;
        while i < n_tiers
            invariant
                i <= n_tiers,
                n_tiers == tiers@.len(),
                forall|j: int|
                    0 <= j < i ==> valid_price_token((#[trigger] tiers@[j]).mint_price.token_id@),
            decreases n_tiers - i,
        {
            if !is_valid_price_token(&tiers[i].mint_price.token_id) {
                return Err(MintError::InvalidPriceToken);
            }
            i = i + 1;
        }
        let mut i: usize = 1;
        while i < n_tiers
            invariant
                1 <= i <= n_tiers || n_tiers == 0,
                n_tiers == tiers@.len(),
                forall|a: int, b: int|
                    #![trigger tiers@[a], tiers@[b]]
                    0 <= a < b < i ==> tiers@[a].tier_id@ != tiers@[b].tier_id@,
            decreases n_tiers - i,
        {
            let mut j: usize = 0;
            while j < i
                invariant
                    j <= i < n_tiers,
                    n_tiers == tiers@.len(),
                    forall|a: int|
                        0 <= a < j ==> (#[trigger] tiers@[a]).tier_id@ != tiers@[i as int].tier_id@,
                decreases i - j,
            {
                if crate::common_storage::string_eq(&tiers[j].tier_id, &tiers[i].tier_id) {
                    proof {
                        assert(tiers@[j as int].tier_id@ == tiers@[i as int].tier_id@);
                        assert(!tiers_ids_unique(tiers@));
                    }
                    return Err(MintError::DuplicateTier);
                }
                j = j + 1;
            }
            i = i + 1;
        }
        if self.collection_reserved(&collection_hash) {
            return Err(MintError::DuplicateCollection);
        }
        if self.brand_id_reserved(&brand_id) {
            return Err(MintError::DuplicateBrand);
        }
        let staged = TempCallbackStorageInfo {
            brand_id,
            brand_info: BrandInfo {
                collection_hash,
                token_display_name,
                media_type,
                royalties,
                mint_period: crate::common_storage::TimePeriod {
                    start: mint_start_timestamp,
                    end: mint_end_timestamp,
                },
                whitelist_expire_timestamp,
            },
            token_ticker,
            tiers,
            tags,
        };
        self.staged_brands.push(staged);
        proof {
            let pre = *old(self);
            let post = *self;
            let st = post.staged_brands@.last();
            assert(post.staged_brands@ == pre.staged_brands@.push(st));
            assert(post.is_staged_brand(st.brand_id@));
            assert(post.is_staged_collection(st.brand_info.collection_hash@));
            assert(st.wf());
            assert forall|a: int, b: int|
                #![trigger post.staged_brands@[a], post.staged_brands@[b]]
                0 <= a < b < post.staged_brands@.len() implies post.staged_brands@[a].brand_id@
                != post.staged_brands@[b].brand_id@
                && post.staged_brands@[a].brand_info.collection_hash@
                != post.staged_brands@[b].brand_info.collection_hash@ by {
                if b < pre.staged_brands@.len() {
                    assert(post.staged_brands@[a] == pre.staged_brands@[a]);
                    assert(post.staged_brands@[b] == pre.staged_brands@[b]);
                } else {
                    assert(post.staged_brands@[a] == pre.staged_brands@[a]);
                    assert(post.staged_brands@[b] == st);
                    assert(!pre.is_staged_brand(st.brand_id@));
                    assert(!pre.is_staged_collection(st.brand_info.collection_hash@));
                }
            }
            assert forall|a: int, b: int|
                #![trigger post.brands@[a], post.staged_brands@[b]]
                0 <= a < post.brands@.len() && 0 <= b < post.staged_brands@.len() implies post.brands@[a].brand_id@
                != post.staged_brands@[b].brand_id@ && post.brands@[a].info.collection_hash@
                != post.staged_brands@[b].brand_info.collection_hash@ by {
                if b < pre.staged_brands@.len() {
                    assert(post.staged_brands@[b] == pre.staged_brands@[b]);
                } else {
                    assert(post.staged_brands@[b] == st);
                    assert(!pre.is_committed_brand(st.brand_id@));
                    assert(!pre.is_committed_collection(st.brand_info.collection_hash@));
                }
            }
            assert forall|a: int|
                0 <= a < post.staged_brands@.len() implies (
            #[trigger] post.staged_brands@[a]).wf() by {
                if a < pre.staged_brands@.len() {
                    assert(post.staged_brands@[a] == pre.staged_brands@[a]);
                } else {
                    assert(post.staged_brands@[a] == st);
                }
            }
        }
        Ok(())
    }
}

} // verus!
