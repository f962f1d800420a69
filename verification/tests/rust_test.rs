use nft_minter::NftMinter;
use nft_minter::common_storage::{BrandInfo, MintPayment, MintPrice, TierSpec, TimePeriod};
use nft_minter::nft_module::{IssueResult, TierInfoEntry};
use nft_minter::randomness::ScriptedRandomness;

const OWNER: u64 = 1;
const FIRST_USER: u64 = 2;
const SECOND_USER: u64 = 3;

const CATEGORY: &str = "NftMinterCategory";
const FIRST_COLLECTION_HASH: &str = "FirstCollection_______________________________";
const SECOND_COLLECTION_HASH: &str = "SecondCollection______________________________";
const THIRD_COLLECTION_HASH: &str = "ThirdCollection_______________________________";
const FIRST_BRAND_ID: &str = "FirstBrand";
const SECOND_BRAND_ID: &str = "SecondBrand";
const THIRD_BRAND_ID: &str = "ThirdBrand";
const FIRST_TOKEN_ID: &str = "FIRST-123456";
const SECOND_TOKEN_ID: &str = "SECOND-123456";
const FIRST_TOKEN_DISPLAY_NAME: &str = "FirstDisplay";
const SECOND_TOKEN_DISPLAY_NAME: &str = "SecondDisplay";
const FIRST_MEDIA_TYPE: &str = "png";
const FIRST_TIERS: [&str; 2] = ["Bronze", "Silver"];
const FIRST_NFT_AMOUNTS: [usize; 2] = [5, 10];
const SECOND_TIERS: [&str; 1] = ["Gold"];
const SECOND_NFT_AMOUNTS: [usize; 1] = [10];
const FIRST_MINT_PRICE_TOKEN_ID: &str = "EGLD";
const FIRST_MINT_PRICE_AMOUNT: u64 = 100;
const FIRST_MINT_START_TIMESTAMP: u64 = 100;
const FIRST_MINT_END_TIMESTAMP: u64 = 200;
const MAX_NFTS_PER_TX: usize = 2;

const CUSTOM_COLLECTION_HASH: &str = "CustomCollection______________________________";
const CUSTOM_BRAND_ID: &str = "CustomBrand";
const CUSTOM_TOKEN_ID: &str = "CUSTOM-abcdef";
const CUSTOM_TOKEN_DISPLAY_NAME: &str = "CustomDisplay";
const CUSTOM_MEDIA_TYPE: &str = "jpg";
const CUSTOM_TIERS: [&str; 1] = ["Tier1"];
const CUSTOM_NFT_AMOUNTS: [usize; 1] = [3];
const CUSTOM_TAGS: [&str; 1] = ["custom"];
const CUSTOM_MINT_PRICE_TOKEN_ID: &str = "CUSTOM-123456";
const CUSTOM_MINT_PRICE_AMOUNT: u64 = 7;
const CUSTOM_ROYALTIES: u64 = 500;
const CUSTOM_MINT_START_TIMESTAMP: u64 = 10;
const CUSTOM_MINT_END_TIMESTAMP: u64 = 20;
const CUSTOM_WHITELIST_EXPIRE_TIMESTAMP: u64 = 15;

fn s(text: &str) -> String {
    text.to_string()
}

fn tiers_for(names: &[&str], amounts: &[usize], token: &str, amount: u64) -> Vec<TierSpec> {
    let mut tiers = Vec::new();
    for (name, supply) in names.iter().zip(amounts.iter()) {
        tiers.push(TierSpec {
            tier_id: s(name),
            max_supply: *supply,
            mint_price: MintPrice { token_id: s(token), amount },
        });
    }
    tiers
}

fn first_tags() -> Vec<String> {
    vec![s("funny"), s("sad"), s("memes")]
}

fn default_setup() -> NftMinter {
    NftMinter::init(s(CATEGORY), OWNER, OWNER, MAX_NFTS_PER_TX).unwrap()
}

fn create_default_brands(minter: &mut NftMinter) {
    minter
        .issue_token_for_brand(
            s(FIRST_COLLECTION_HASH),
            s(FIRST_BRAND_ID),
            s(FIRST_MEDIA_TYPE),
            0,
            FIRST_MINT_START_TIMESTAMP,
            Some(FIRST_MINT_END_TIMESTAMP),
            None,
            s(FIRST_TOKEN_DISPLAY_NAME),
            s("FIRSTTICKER"),
            tiers_for(
                &FIRST_TIERS,
                &FIRST_NFT_AMOUNTS,
                FIRST_MINT_PRICE_TOKEN_ID,
                FIRST_MINT_PRICE_AMOUNT,
            ),
            first_tags(),
        )
        .unwrap();
    minter
        .issue_callback(&s(FIRST_BRAND_ID), IssueResult::Success(s(FIRST_TOKEN_ID)))
        .unwrap();
    minter
        .issue_token_for_brand(
            s(SECOND_COLLECTION_HASH),
            s(SECOND_BRAND_ID),
            s(FIRST_MEDIA_TYPE),
            0,
            FIRST_MINT_START_TIMESTAMP,
            Some(FIRST_MINT_END_TIMESTAMP),
            None,
            s(SECOND_TOKEN_DISPLAY_NAME),
            s("SECONDTICKER"),
            tiers_for(
                &SECOND_TIERS,
                &SECOND_NFT_AMOUNTS,
                FIRST_MINT_PRICE_TOKEN_ID,
                FIRST_MINT_PRICE_AMOUNT,
            ),
            Vec::new(),
        )
        .unwrap();
    minter
        .issue_callback(&s(SECOND_BRAND_ID), IssueResult::Success(s(SECOND_TOKEN_ID)))
        .unwrap();
}

fn egld_amount(payments: &[MintPayment]) -> u128 {
    for p in payments {
        if p.token_id == FIRST_MINT_PRICE_TOKEN_ID {
            return p.amount;
        }
    }
    0
}

fn buy(
    minter: &mut NftMinter,
    caller: u64,
    timestamp: u64,
    brand: &str,
    tier: &str,
    quantity: usize,
    paid: u64,
    script: Vec<usize>,
) -> Result<Vec<nft_minter::nft_module::MintedNft>, nft_minter::common_storage::MintError> {
    let mut rng = ScriptedRandomness::new(script);
    minter.buy_random_nft(
        caller,
        timestamp,
        &s(brand),
        &s(tier),
        quantity,
        &s(FIRST_MINT_PRICE_TOKEN_ID),
        paid,
        &mut rng,
    )
}

#[test]
fn init_test() {
    let minter = default_setup();
    assert_eq!(minter.collections_category, CATEGORY);
}

#[test]
fn create_brands_test() {
    let mut minter = default_setup();
    create_default_brands(&mut minter);

    // try create brand, same collection
    let err = minter
        .issue_token_for_brand(
            s(FIRST_COLLECTION_HASH),
            s(THIRD_BRAND_ID),
            s("png"),
            0,
            1,
            Some(2),
            None,
            s(""),
            s("TICKER"),
            tiers_for(&FIRST_TIERS, &FIRST_NFT_AMOUNTS, "EGLD", 1),
            Vec::new(),
        )
        .unwrap_err();
    assert_eq!(err.message(), "Collection hash already exists");

    // try create brand, same brand ID
    let err = minter
        .issue_token_for_brand(
            s(THIRD_COLLECTION_HASH),
            s(FIRST_BRAND_ID),
            s("png"),
            0,
            1,
            Some(2),
            None,
            s(""),
            s("TICKER"),
            tiers_for(&FIRST_TIERS, &FIRST_NFT_AMOUNTS, "EGLD", 1),
            Vec::new(),
        )
        .unwrap_err();
    assert_eq!(err.message(), "Brand already exists");

    // try create brand, unsupported media type
    let err = minter
        .issue_token_for_brand(
            s(THIRD_COLLECTION_HASH),
            s(THIRD_BRAND_ID),
            s("exe"),
            0,
            1,
            Some(2),
            None,
            s(""),
            s("TICKER"),
            tiers_for(&FIRST_TIERS, &FIRST_NFT_AMOUNTS, "EGLD", 1),
            Vec::new(),
        )
        .unwrap_err();
    assert_eq!(err.message(), "Invalid media type");

    // get brand by id
    let result = minter.get_brand_info_view(&s(FIRST_BRAND_ID)).unwrap();
    assert_eq!(result.brand_id, FIRST_BRAND_ID);
    assert_eq!(result.nft_token_id, FIRST_TOKEN_ID);

    let expected_brand_info = BrandInfo {
        collection_hash: s(FIRST_COLLECTION_HASH),
        token_display_name: s(FIRST_TOKEN_DISPLAY_NAME),
        media_type: s(FIRST_MEDIA_TYPE),
        royalties: 0,
        mint_period: TimePeriod {
            start: FIRST_MINT_START_TIMESTAMP,
            end: Some(FIRST_MINT_END_TIMESTAMP),
        },
        whitelist_expire_timestamp: None,
    };
    assert_eq!(result.brand_info, expected_brand_info);

    let mut expected_tier_info = Vec::new();
    for (tier, nft_amount) in FIRST_TIERS.iter().zip(FIRST_NFT_AMOUNTS.iter()) {
        expected_tier_info.push(TierInfoEntry {
            tier: s(tier),
            available_nfts: *nft_amount,
            total_nfts: *nft_amount,
            mint_price: MintPrice {
                token_id: s(FIRST_MINT_PRICE_TOKEN_ID),
                amount: FIRST_MINT_PRICE_AMOUNT,
            },
        });
    }
    assert_eq!(result.tier_info_entries.as_slice(), expected_tier_info.as_slice());
}

#[test]
fn buy_random_nft_test() {
    let mut minter = default_setup();
    create_default_brands(&mut minter);

    let first_tier = FIRST_TIERS[0];

    // verify no payments received
    let payments = minter.claim_mint_payments(OWNER).unwrap();
    assert_eq!(egld_amount(&payments), 0);
    assert!(payments.is_empty());

    // try buy before start
    let err = buy(
        &mut minter,
        FIRST_USER,
        1,
        FIRST_BRAND_ID,
        first_tier,
        1,
        FIRST_MINT_PRICE_AMOUNT,
        vec![2],
    )
    .unwrap_err();
    assert_eq!(err.message(), "May not mint yet");

    // verify no payments received
    let payments = minter.claim_mint_payments(OWNER).unwrap();
    assert_eq!(egld_amount(&payments), 0);

    // buy random nft ok: position 2 of [1, 2, 3, 4, 5] removes ID 2
    let minted = buy(
        &mut minter,
        FIRST_USER,
        FIRST_MINT_START_TIMESTAMP,
        FIRST_BRAND_ID,
        first_tier,
        1,
        FIRST_MINT_PRICE_AMOUNT,
        vec![2],
    )
    .unwrap();
    assert_eq!(minted.len(), 1);
    assert_eq!(minted[0].nft_id, 2);
    let expected_attributes =
        minter.build_nft_attributes(&s(FIRST_COLLECTION_HASH), &s(FIRST_BRAND_ID), 2);
    assert_eq!(minted[0].attributes, expected_attributes);

    // claim payment from 1st nft purchase
    let payments = minter.claim_mint_payments(OWNER).unwrap();
    assert_eq!(egld_amount(&payments), FIRST_MINT_PRICE_AMOUNT as u128);

    // check unique ID mapper internal consistency
    // ID 2 was removed, so pos 2 should have the last item, i.e. ID 5
    let mapper = minter.available_ids(&s(FIRST_BRAND_ID), &s(first_tier)).unwrap();
    assert_eq!(mapper.len(), 4);
    assert_eq!(mapper.get(1).unwrap(), 1);
    assert_eq!(mapper.get(2).unwrap(), 5);
    assert_eq!(mapper.get(3).unwrap(), 3);
    assert_eq!(mapper.get(4).unwrap(), 4);

    // buy multiple NFTs - wrong payment amount
    let err = buy(
        &mut minter,
        SECOND_USER,
        FIRST_MINT_START_TIMESTAMP,
        FIRST_BRAND_ID,
        first_tier,
        2,
        FIRST_MINT_PRICE_AMOUNT,
        vec![1],
    )
    .unwrap_err();
    assert_eq!(err.message(), "Invalid payment");

    // verify no payments received
    let payments = minter.claim_mint_payments(OWNER).unwrap();
    assert_eq!(egld_amount(&payments), 0);

    // try buy too many - over max limit
    let err = buy(
        &mut minter,
        SECOND_USER,
        FIRST_MINT_START_TIMESTAMP,
        FIRST_BRAND_ID,
        first_tier,
        3,
        FIRST_MINT_PRICE_AMOUNT * 5,
        vec![1],
    )
    .unwrap_err();
    assert_eq!(err.message(), "Max NFTs per transaction limit exceeded");

    // verify no payments received
    let payments = minter.claim_mint_payments(OWNER).unwrap();
    assert_eq!(egld_amount(&payments), 0);

    minter.set_max_nfts_per_transaction(1_000);

    // try buy too many - not enough available
    let err = buy(
        &mut minter,
        SECOND_USER,
        FIRST_MINT_START_TIMESTAMP,
        FIRST_BRAND_ID,
        first_tier,
        5,
        FIRST_MINT_PRICE_AMOUNT * 5,
        vec![1],
    )
    .unwrap_err();
    assert_eq!(err.message(), "Not enough NFTs available");

    // verify no payments received
    let payments = minter.claim_mint_payments(OWNER).unwrap();
    assert_eq!(egld_amount(&payments), 0);

    // buy 2 ok: ID 3 removed from [1, 5, 3, 4], then ID 1 from [1, 5, 4]
    let minted = buy(
        &mut minter,
        SECOND_USER,
        FIRST_MINT_START_TIMESTAMP,
        FIRST_BRAND_ID,
        first_tier,
        2,
        FIRST_MINT_PRICE_AMOUNT * 2,
        vec![3, 1],
    )
    .unwrap();
    assert_eq!(minted.len(), 2);
    assert_eq!(minted[0].nft_id, 3);
    assert_eq!(minted[1].nft_id, 1);

    // mapper progress:
    // initially: 1 5 3 4
    // after first rand (3 removed): 1 5 4
    // after second rand (1 removed): 4 5
    let mapper = minter.available_ids(&s(FIRST_BRAND_ID), &s(first_tier)).unwrap();
    assert_eq!(mapper.len(), 2);
    assert_eq!(mapper.get(1).unwrap(), 4);
    assert_eq!(mapper.get(2).unwrap(), 5);

    // claim user payments
    let payments = minter.claim_mint_payments(OWNER).unwrap();
    assert_eq!(egld_amount(&payments), 2 * FIRST_MINT_PRICE_AMOUNT as u128);

    // try buy after deadline
    let err = buy(
        &mut minter,
        FIRST_USER,
        FIRST_MINT_END_TIMESTAMP,
        FIRST_BRAND_ID,
        first_tier,
        1,
        FIRST_MINT_PRICE_AMOUNT,
        vec![1],
    )
    .unwrap_err();
    assert_eq!(err.message(), "May not mint after deadline");
}

#[test]
fn buy_whitelist_test() {
    let mut minter = default_setup();
    let first_tier = FIRST_TIERS[0];

    create_default_brands(&mut minter);
    minter
        .set_mint_whitelist_expire_timestamp(&s(FIRST_BRAND_ID), FIRST_MINT_START_TIMESTAMP + 1)
        .unwrap();

    // try buy, not in whitelist
    let err = buy(
        &mut minter,
        FIRST_USER,
        FIRST_MINT_START_TIMESTAMP,
        FIRST_BRAND_ID,
        first_tier,
        1,
        FIRST_MINT_PRICE_AMOUNT,
        vec![1],
    )
    .unwrap_err();
    assert_eq!(err.message(), "Not in whitelist");

    minter.add_to_whitelist(&s(FIRST_BRAND_ID), &vec![FIRST_USER]).unwrap();

    // buy ok
    buy(
        &mut minter,
        FIRST_USER,
        FIRST_MINT_START_TIMESTAMP,
        FIRST_BRAND_ID,
        first_tier,
        1,
        FIRST_MINT_PRICE_AMOUNT,
        vec![1],
    )
    .unwrap();
}

#[test]
fn giveaway_test() {
    let mut minter = default_setup();
    create_default_brands(&mut minter);

    let first_tier = SECOND_TIERS[0];

    // giveaway single nft: position 7 of [1..=10] removes ID 7
    let mut rng = ScriptedRandomness::new(vec![7]);
    let batches = minter
        .giveaway_nfts(&s(SECOND_BRAND_ID), &s(first_tier), &vec![(FIRST_USER, 1)], &mut rng)
        .unwrap();
    assert_eq!(batches.len(), 1);
    assert_eq!(batches[0].recipient, FIRST_USER);
    assert_eq!(batches[0].nfts.len(), 1);
    assert_eq!(batches[0].nfts[0].nft_id, 7);
    let attr = minter.build_nft_attributes(&s(SECOND_COLLECTION_HASH), &s(SECOND_BRAND_ID), 7);
    assert_eq!(batches[0].nfts[0].attributes, attr);

    let mapper = minter.available_ids(&s(SECOND_BRAND_ID), &s(first_tier)).unwrap();
    assert_eq!(mapper.len(), 9);
    assert_eq!(mapper.get(1).unwrap(), 1);
    assert_eq!(mapper.get(2).unwrap(), 2);
    assert_eq!(mapper.get(3).unwrap(), 3);
    assert_eq!(mapper.get(4).unwrap(), 4);
    assert_eq!(mapper.get(5).unwrap(), 5);
    assert_eq!(mapper.get(6).unwrap(), 6);
    assert_eq!(mapper.get(7).unwrap(), 10); // this changed
    assert_eq!(mapper.get(8).unwrap(), 8);
    assert_eq!(mapper.get(9).unwrap(), 9);

    // giveaway two, single user: IDs 4 and 5 leave
    let mut rng = ScriptedRandomness::new(vec![4, 5]);
    let batches = minter
        .giveaway_nfts(&s(SECOND_BRAND_ID), &s(first_tier), &vec![(FIRST_USER, 2)], &mut rng)
        .unwrap();
    assert_eq!(batches[0].nfts.len(), 2);
    assert_eq!(batches[0].nfts[0].nft_id, 4);
    assert_eq!(batches[0].nfts[1].nft_id, 5);

    let mapper = minter.available_ids(&s(SECOND_BRAND_ID), &s(first_tier)).unwrap();
    assert_eq!(mapper.len(), 7);
    assert_eq!(mapper.get(1).unwrap(), 1);
    assert_eq!(mapper.get(2).unwrap(), 2);
    assert_eq!(mapper.get(3).unwrap(), 3);
    assert_eq!(mapper.get(4).unwrap(), 9); // pos 4
    assert_eq!(mapper.get(5).unwrap(), 8); // and 5 changed
    assert_eq!(mapper.get(6).unwrap(), 6);
    assert_eq!(mapper.get(7).unwrap(), 10);

    // giveaway, multiple users: user 1 receives IDs 10 and 1, user 2 ID 6
    let mut rng = ScriptedRandomness::new(vec![7, 1, 1]);
    let batches = minter
        .giveaway_nfts(
            &s(SECOND_BRAND_ID),
            &s(first_tier),
            &vec![(FIRST_USER, 2), (SECOND_USER, 1)],
            &mut rng,
        )
        .unwrap();
    assert_eq!(batches.len(), 2);
    assert_eq!(batches[0].recipient, FIRST_USER);
    assert_eq!(batches[0].nfts[0].nft_id, 10);
    assert_eq!(batches[0].nfts[1].nft_id, 1);
    assert_eq!(batches[1].recipient, SECOND_USER);
    assert_eq!(batches[1].nfts[0].nft_id, 6);

    // mapper progress:
    // 1 2 3 9 8 6 10
    // 1 2 3 9 8 6
    // 6 2 3 9 8
    // 8 2 3 9
    let mapper = minter.available_ids(&s(SECOND_BRAND_ID), &s(first_tier)).unwrap();
    assert_eq!(mapper.len(), 4);
    assert_eq!(mapper.get(1).unwrap(), 8);
    assert_eq!(mapper.get(2).unwrap(), 2);
    assert_eq!(mapper.get(3).unwrap(), 3);
    assert_eq!(mapper.get(4).unwrap(), 9);
}

#[test]
fn formatters_test() {
    let mut minter = default_setup();
    create_default_brands(&mut minter);

    // test NFT attributes
    let attributes =
        minter.build_nft_attributes(&s(FIRST_COLLECTION_HASH), &s(FIRST_BRAND_ID), 2);
    let expected_attributes =
        "metadata:FirstCollection_______________________________/2.json;tags:funny,sad,memes";
    assert_eq!(attributes, expected_attributes.to_string());

    // test generated URIs
    let nft_main_file_uri = nft_minter::nft_attributes_builder::build_nft_main_file_uri(
        &s(FIRST_COLLECTION_HASH),
        2,
        &s("jpg"),
    );
    let expected_main_file_uri =
        "https://ipfs.io/ipfs/FirstCollection_______________________________/2.jpg";
    assert_eq!(nft_main_file_uri, expected_main_file_uri.to_string());

    let nft_json_file_uri = nft_minter::nft_attributes_builder::build_nft_json_file_uri(
        &s(FIRST_COLLECTION_HASH),
        2,
    );
    let expected_nft_json_uri =
        "https://ipfs.io/ipfs/FirstCollection_______________________________/2.json";
    assert_eq!(nft_json_file_uri, expected_nft_json_uri.to_string());

    let collection_json_uri = nft_minter::nft_attributes_builder::build_collection_json_file_uri(
        &s(FIRST_COLLECTION_HASH),
    );
    let expected_collection_json_uri =
        "https://ipfs.io/ipfs/FirstCollection_______________________________/collection.json";
    assert_eq!(collection_json_uri, expected_collection_json_uri.to_string());
}

#[test]
fn custom_test() {
    let mut minter = default_setup();

    // check contract storage after init
    assert_eq!(minter.collections_category, CATEGORY);
    assert_eq!(minter.royalties_claim_address, OWNER);
    assert_eq!(minter.mint_payments_claim_address, OWNER);
    assert_eq!(minter.max_nfts_per_transaction, 2);

    // create custom brand
    let mut tags = Vec::new();
    for tag in CUSTOM_TAGS.iter() {
        tags.push(s(tag));
    }
    minter
        .issue_token_for_brand(
            s(CUSTOM_COLLECTION_HASH),
            s(CUSTOM_BRAND_ID),
            s(CUSTOM_MEDIA_TYPE),
            CUSTOM_ROYALTIES,
            CUSTOM_MINT_START_TIMESTAMP,
            Some(CUSTOM_MINT_END_TIMESTAMP),
            Some(CUSTOM_WHITELIST_EXPIRE_TIMESTAMP),
            s(CUSTOM_TOKEN_DISPLAY_NAME),
            s("CUSTOMTICKER"),
            tiers_for(
                &CUSTOM_TIERS,
                &CUSTOM_NFT_AMOUNTS,
                CUSTOM_MINT_PRICE_TOKEN_ID,
                CUSTOM_MINT_PRICE_AMOUNT,
            ),
            tags,
        )
        .unwrap();
    minter
        .issue_callback(&s(CUSTOM_BRAND_ID), IssueResult::Success(s(CUSTOM_TOKEN_ID)))
        .unwrap();

    // check contract storage after brand creation
    let mapper = minter.available_ids(&s(CUSTOM_BRAND_ID), &s(CUSTOM_TIERS[0])).unwrap();
    assert_eq!(mapper.len(), 3);
    assert_eq!(mapper.get(1).unwrap(), 1);

    assert_eq!(minter.nft_token(&s(CUSTOM_BRAND_ID)).unwrap().as_str(), CUSTOM_TOKEN_ID);
    assert!(minter.brand_has_tier(&s(CUSTOM_BRAND_ID), &s(CUSTOM_TIERS[0])));
    assert_eq!(minter.total_nfts(&s(CUSTOM_BRAND_ID), &s(CUSTOM_TIERS[0])).unwrap(), 3);
    assert_eq!(
        minter.nft_id_offset_for_tier(&s(CUSTOM_BRAND_ID), &s(CUSTOM_TIERS[0])).unwrap(),
        0
    );

    let custom_mint_price = MintPrice {
        token_id: s(CUSTOM_MINT_PRICE_TOKEN_ID),
        amount: CUSTOM_MINT_PRICE_AMOUNT,
    };
    assert_eq!(
        minter.price_for_tier(&s(CUSTOM_BRAND_ID), &s(CUSTOM_TIERS[0])).unwrap(),
        &custom_mint_price
    );

    assert!(minter.brand_id_reserved(&s(CUSTOM_BRAND_ID)));
    assert!(minter.collection_reserved(&s(CUSTOM_COLLECTION_HASH)));

    let custom_tags: Vec<String> = CUSTOM_TAGS.iter().map(|t| s(t)).collect();
    assert_eq!(minter.tags_for_brand(&s(CUSTOM_BRAND_ID)).unwrap(), &custom_tags);

    let result = minter.get_brand_info_view(&s(CUSTOM_BRAND_ID)).unwrap();
    assert_eq!(result.brand_id, CUSTOM_BRAND_ID);
    assert_eq!(result.nft_token_id, CUSTOM_TOKEN_ID);

    let expected_brand_info = BrandInfo {
        collection_hash: s(CUSTOM_COLLECTION_HASH),
        token_display_name: s(CUSTOM_TOKEN_DISPLAY_NAME),
        media_type: s(CUSTOM_MEDIA_TYPE),
        royalties: CUSTOM_ROYALTIES,
        mint_period: TimePeriod {
            start: CUSTOM_MINT_START_TIMESTAMP,
            end: Some(CUSTOM_MINT_END_TIMESTAMP),
        },
        whitelist_expire_timestamp: Some(CUSTOM_WHITELIST_EXPIRE_TIMESTAMP),
    };
    assert_eq!(result.brand_info, expected_brand_info);

    let mut expected_tier_info = Vec::new();
    for (tier, nft_amount) in CUSTOM_TIERS.iter().zip(CUSTOM_NFT_AMOUNTS.iter()) {
        expected_tier_info.push(TierInfoEntry {
            tier: s(tier),
            available_nfts: *nft_amount,
            total_nfts: *nft_amount,
            mint_price: MintPrice {
                token_id: s(CUSTOM_MINT_PRICE_TOKEN_ID),
                amount: CUSTOM_MINT_PRICE_AMOUNT,
            },
        });
    }
    assert_eq!(result.tier_info_entries.as_slice(), expected_tier_info.as_slice());
}
