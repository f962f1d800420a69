use nft_minter::NftMinter;
use nft_minter::common_storage::{MintError, MintPrice, TierSpec};
use nft_minter::nft_module::{get_next_random_id, IssueResult};
use nft_minter::nft_attributes_builder::u64_dec_string;
use nft_minter::randomness::ScriptedRandomness;
use nft_minter::unique_id_mapper::UniqueIdMapper;

const OWNER: u64 = 10;
const BUYER: u64 = 20;
const OTHER: u64 = 30;
const START: u64 = 1_000;
const END: u64 = 2_000;
const PRICE: u64 = 50;

fn s(text: &str) -> String {
    text.to_string()
}

fn one_tier(name: &str, supply: usize) -> Vec<TierSpec> {
    vec![TierSpec {
        tier_id: s(name),
        max_supply: supply,
        mint_price: MintPrice { token_id: s("EGLD"), amount: PRICE },
    }]
}

fn setup_with_brand(supply: usize) -> NftMinter {
    let mut minter = NftMinter::init(s("Collections"), OWNER, OWNER, 100).unwrap();
    minter
        .issue_token_for_brand(
            s("HashA_________________________________________"),
            s("BrandA"),
            s("png"),
            100,
            START,
            Some(END),
            None,
            s("DisplayA"),
            s("TICKERA"),
            one_tier("Base", supply),
            vec![s("alpha"), s("beta")],
        )
        .unwrap();
    minter.issue_callback(&s("BrandA"), IssueResult::Success(s("TOKA-123456"))).unwrap();
    minter
}

fn buy_at(
    minter: &mut NftMinter,
    timestamp: u64,
    quantity: usize,
    paid: u64,
    script: Vec<usize>,
) -> Result<Vec<nft_minter::nft_module::MintedNft>, MintError> {
    let mut rng = ScriptedRandomness::new(script);
    minter.buy_random_nft(
        BUYER,
        timestamp,
        &s("BrandA"),
        &s("Base"),
        quantity,
        &s("EGLD"),
        paid,
        &mut rng,
    )
}

#[test]
fn pool_drains_exactly_n_times() {
    let mut pool = UniqueIdMapper::new();
    pool.initialize(4).unwrap();
    for _ in 0..4 {
        pool.get_and_swap_remove(1).unwrap();
    }
    assert_eq!(pool.len(), 0);
    assert_eq!(pool.get_and_swap_remove(1).unwrap_err(), MintError::PoolExhausted);
    let mut rng = ScriptedRandomness::new(vec![1]);
    assert_eq!(get_next_random_id(&mut pool, &mut rng).unwrap_err(), MintError::PoolExhausted);
}

#[test]
fn drained_pool_returns_each_id_once() {
    let mut pool = UniqueIdMapper::new();
    pool.initialize(10).unwrap();
    let mut rng = ScriptedRandomness::new(vec![3, 1, 7, 2, 2, 1, 4, 1, 1, 1]);
    let mut drawn = Vec::new();
    for _ in 0..10 {
        drawn.push(get_next_random_id(&mut pool, &mut rng).unwrap());
    }
    drawn.sort();
    assert_eq!(drawn, vec![1, 2, 3, 4, 5, 6, 7, 8, 9, 10]);
    assert_eq!(pool.len(), 0);
}

#[test]
fn swap_remove_scenario() {
    // Build pool content [1, 5, 3, 4]: start from {1..=5} and draw ID 2.
    let mut pool = UniqueIdMapper::new();
    pool.initialize(5).unwrap();
    assert_eq!(pool.get_and_swap_remove(2).unwrap(), 2);
    assert_eq!(pool.get(1).unwrap(), 1);
    assert_eq!(pool.get(2).unwrap(), 5);
    assert_eq!(pool.get(3).unwrap(), 3);
    assert_eq!(pool.get(4).unwrap(), 4);

    // Drawing position 2 removes the value there (5); the last slot's
    // value (4) relocates to position 2; the length drops by exactly one.
    assert_eq!(pool.get_and_swap_remove(2).unwrap(), 5);
    assert_eq!(pool.len(), 3);
    assert_eq!(pool.get(1).unwrap(), 1);
    assert_eq!(pool.get(2).unwrap(), 4);
    assert_eq!(pool.get(3).unwrap(), 3);
}

#[test]
fn pool_initialize_twice_fails() {
    let mut pool = UniqueIdMapper::new();
    pool.initialize(3).unwrap();
    assert_eq!(pool.initialize(3).unwrap_err(), MintError::AlreadyInitialized);
    assert_eq!(pool.len(), 3);
}

#[test]
fn pool_position_out_of_range() {
    let mut pool = UniqueIdMapper::new();
    pool.initialize(3).unwrap();
    assert_eq!(pool.get(0).unwrap_err(), MintError::IndexOutOfRange);
    assert_eq!(pool.get(4).unwrap_err(), MintError::IndexOutOfRange);
    assert_eq!(pool.get_and_swap_remove(0).unwrap_err(), MintError::IndexOutOfRange);
    assert_eq!(pool.get_and_swap_remove(4).unwrap_err(), MintError::IndexOutOfRange);
    assert_eq!(pool.len(), 3);
}

#[test]
fn payment_must_match_exactly() {
    let mut minter = setup_with_brand(5);
    let exact = 2 * PRICE;
    assert_eq!(
        buy_at(&mut minter, START, 2, exact - 1, vec![1]).unwrap_err(),
        MintError::InvalidPayment
    );
    assert_eq!(
        buy_at(&mut minter, START, 2, exact + 1, vec![1]).unwrap_err(),
        MintError::InvalidPayment
    );
    let mut rng = ScriptedRandomness::new(vec![1]);
    assert_eq!(
        minter
            .buy_random_nft(BUYER, START, &s("BrandA"), &s("Base"), 2, &s("OTHER-123456"), exact, &mut rng)
            .unwrap_err(),
        MintError::InvalidPayment
    );
    assert_eq!(buy_at(&mut minter, START, 2, exact, vec![1, 1]).unwrap().len(), 2);
}

#[test]
fn sale_window_boundaries() {
    let mut minter = setup_with_brand(5);
    assert_eq!(
        buy_at(&mut minter, START - 1, 1, PRICE, vec![1]).unwrap_err(),
        MintError::BeforeSaleWindow
    );
    assert_eq!(buy_at(&mut minter, START, 1, PRICE, vec![1]).unwrap().len(), 1);
    assert_eq!(
        buy_at(&mut minter, END, 1, PRICE, vec![1]).unwrap_err(),
        MintError::AfterSaleWindow
    );
    assert_eq!(
        buy_at(&mut minter, END + 1, 1, PRICE, vec![1]).unwrap_err(),
        MintError::AfterSaleWindow
    );
    assert_eq!(buy_at(&mut minter, END - 1, 1, PRICE, vec![1]).unwrap().len(), 1);
}

#[test]
fn duplicate_collection_blocked_while_staged() {
    let mut minter = setup_with_brand(5);
    // Stage a brand without resolving its callback: its identifiers are
    // already reserved.
    minter
        .issue_token_for_brand(
            s("HashB_________________________________________"),
            s("BrandB"),
            s("png"),
            0,
            START,
            None,
            None,
            s("DisplayB"),
            s("TICKERB"),
            one_tier("Base", 3),
            Vec::new(),
        )
        .unwrap();
    let err = minter
        .issue_token_for_brand(
            s("HashB_________________________________________"),
            s("BrandC"),
            s("png"),
            0,
            START,
            None,
            None,
            s("DisplayC"),
            s("TICKERC"),
            one_tier("Base", 3),
            Vec::new(),
        )
        .unwrap_err();
    assert_eq!(err, MintError::DuplicateCollection);
    let err = minter
        .issue_token_for_brand(
            s("HashC_________________________________________"),
            s("BrandB"),
            s("png"),
            0,
            START,
            None,
            None,
            s("DisplayC"),
            s("TICKERC"),
            one_tier("Base", 3),
            Vec::new(),
        )
        .unwrap_err();
    assert_eq!(err, MintError::DuplicateBrand);
}

#[test]
fn failed_issuance_releases_identifiers() {
    let mut minter = setup_with_brand(5);
    minter
        .issue_token_for_brand(
            s("HashB_________________________________________"),
            s("BrandB"),
            s("png"),
            0,
            START,
            None,
            None,
            s("DisplayB"),
            s("TICKERB"),
            one_tier("Base", 3),
            Vec::new(),
        )
        .unwrap();
    assert!(minter.brand_id_reserved(&s("BrandB")));
    minter.issue_callback(&s("BrandB"), IssueResult::Failure).unwrap();
    assert!(!minter.brand_id_reserved(&s("BrandB")));
    assert!(!minter.collection_reserved(&s("HashB_________________________________________")));
    // An immediately following creation with identical values succeeds.
    minter
        .issue_token_for_brand(
            s("HashB_________________________________________"),
            s("BrandB"),
            s("png"),
            0,
            START,
            None,
            None,
            s("DisplayB"),
            s("TICKERB"),
            one_tier("Base", 3),
            Vec::new(),
        )
        .unwrap();
    // The discarded staging never became visible as a committed brand.
    assert_eq!(
        minter.get_brand_info_view(&s("BrandB")).unwrap_err(),
        MintError::UnknownBrand
    );
}

#[test]
fn giveaway_exceeding_pool_fails_entirely() {
    let mut minter = setup_with_brand(10);
    let mut rng = ScriptedRandomness::new(vec![1, 1, 1, 1, 1, 1, 1, 1, 1, 1, 1]);
    let err = minter
        .giveaway_nfts(
            &s("BrandA"),
            &s("Base"),
            &vec![(BUYER, 6), (OTHER, 5)],
            &mut rng,
        )
        .unwrap_err();
    assert_eq!(err, MintError::PoolExhausted);
    // No partial distribution: the pool still holds all ten identifiers.
    let mapper = minter.available_ids(&s("BrandA"), &s("Base")).unwrap();
    assert_eq!(mapper.len(), 10);
    // The full pool can still be given away afterwards.
    let mut rng = ScriptedRandomness::new(vec![1, 1, 1, 1, 1, 1, 1, 1, 1, 1]);
    let batches = minter
        .giveaway_nfts(
            &s("BrandA"),
            &s("Base"),
            &vec![(BUYER, 6), (OTHER, 4)],
            &mut rng,
        )
        .unwrap();
    assert_eq!(batches[0].nfts.len(), 6);
    assert_eq!(batches[1].nfts.len(), 4);
    assert_eq!(minter.available_ids(&s("BrandA"), &s("Base")).unwrap().len(), 0);
}

#[test]
fn creation_validation_errors() {
    let mut minter = NftMinter::init(s("Collections"), OWNER, OWNER, 100).unwrap();
    let hash = s("HashX_________________________________________");

    let err = minter
        .issue_token_for_brand(
            hash.clone(),
            s(""),
            s("png"),
            0,
            START,
            None,
            None,
            s("D"),
            s("T"),
            one_tier("Base", 3),
            Vec::new(),
        )
        .unwrap_err();
    assert_eq!(err, MintError::InvalidBrandId);

    let long_id = "x".repeat(51);
    let err = minter
        .issue_token_for_brand(
            hash.clone(),
            long_id,
            s("png"),
            0,
            START,
            None,
            None,
            s("D"),
            s("T"),
            one_tier("Base", 3),
            Vec::new(),
        )
        .unwrap_err();
    assert_eq!(err, MintError::InvalidBrandId);

    let err = minter
        .issue_token_for_brand(
            hash.clone(),
            s("Brand"),
            s("png"),
            10_001,
            START,
            None,
            None,
            s("D"),
            s("T"),
            one_tier("Base", 3),
            Vec::new(),
        )
        .unwrap_err();
    assert_eq!(err, MintError::InvalidRoyalties);

    let err = minter
        .issue_token_for_brand(
            hash.clone(),
            s("Brand"),
            s("png"),
            0,
            START,
            None,
            None,
            s("D"),
            s("T"),
            one_tier("Base", 0),
            Vec::new(),
        )
        .unwrap_err();
    assert_eq!(err, MintError::EmptySupply);

    let err = minter
        .issue_token_for_brand(
            hash.clone(),
            s("Brand"),
            s("png"),
            0,
            START,
            None,
            None,
            s("D"),
            s("T"),
            Vec::new(),
            Vec::new(),
        )
        .unwrap_err();
    assert_eq!(err, MintError::EmptySupply);

    let err = minter
        .issue_token_for_brand(
            hash.clone(),
            s("Brand"),
            s("png"),
            0,
            START,
            None,
            None,
            s("D"),
            s("T"),
            vec![TierSpec {
                tier_id: s("Base"),
                max_supply: 3,
                mint_price: MintPrice { token_id: s("BAD"), amount: 1 },
            }],
            Vec::new(),
        )
        .unwrap_err();
    assert_eq!(err, MintError::InvalidPriceToken);

    // a lowercase ticker and a non-hex suffix are both malformed
    for bad_token in ["custom-123456", "CUSTOM-12345G"] {
        let err = minter
            .issue_token_for_brand(
                hash.clone(),
                s("Brand"),
                s("png"),
                0,
                START,
                None,
                None,
                s("D"),
                s("T"),
                vec![TierSpec {
                    tier_id: s("Base"),
                    max_supply: 3,
                    mint_price: MintPrice { token_id: s(bad_token), amount: 1 },
                }],
                Vec::new(),
            )
            .unwrap_err();
        assert_eq!(err, MintError::InvalidPriceToken);
    }

    let mut tiers = one_tier("Base", 3);
    tiers.append(&mut one_tier("Base", 4));
    let err = minter
        .issue_token_for_brand(
            hash.clone(),
            s("Brand"),
            s("png"),
            0,
            START,
            None,
            None,
            s("D"),
            s("T"),
            tiers,
            Vec::new(),
        )
        .unwrap_err();
    assert_eq!(err, MintError::DuplicateTier);

    // royalties at exactly the maximum are accepted
    minter
        .issue_token_for_brand(
            hash,
            s("Brand"),
            s("png"),
            10_000,
            START,
            None,
            None,
            s("D"),
            s("T"),
            one_tier("Base", 3),
            Vec::new(),
        )
        .unwrap();
}

#[test]
fn unknown_brand_and_tier_rejected() {
    let mut minter = setup_with_brand(5);
    assert_eq!(
        {
            let mut rng = ScriptedRandomness::new(vec![1]);
            minter
                .buy_random_nft(BUYER, START, &s("Nobody"), &s("Base"), 1, &s("EGLD"), PRICE, &mut rng)
                .unwrap_err()
        },
        MintError::UnknownBrand
    );
    assert_eq!(
        {
            let mut rng = ScriptedRandomness::new(vec![1]);
            minter
                .buy_random_nft(BUYER, START, &s("BrandA"), &s("NoTier"), 1, &s("EGLD"), PRICE, &mut rng)
                .unwrap_err()
        },
        MintError::UnknownTier
    );
    // A staged brand is invisible to purchases and views.
    minter
        .issue_token_for_brand(
            s("HashB_________________________________________"),
            s("BrandB"),
            s("png"),
            0,
            START,
            None,
            None,
            s("DisplayB"),
            s("TICKERB"),
            one_tier("Base", 3),
            Vec::new(),
        )
        .unwrap();
    let mut rng = ScriptedRandomness::new(vec![1]);
    assert_eq!(
        minter
            .buy_random_nft(BUYER, START, &s("BrandB"), &s("Base"), 1, &s("EGLD"), PRICE, &mut rng)
            .unwrap_err(),
        MintError::UnknownBrand
    );
    assert_eq!(
        minter.get_brand_info_view(&s("BrandB")).unwrap_err(),
        MintError::UnknownBrand
    );
}

#[test]
fn payments_claimable_only_by_claim_address() {
    let mut minter = setup_with_brand(5);
    buy_at(&mut minter, START, 1, PRICE, vec![1]).unwrap();
    assert_eq!(
        minter.claim_mint_payments(OTHER).unwrap_err(),
        MintError::NotClaimAddress
    );
    // The failed claim moved nothing: the owner still receives the balance.
    let payments = minter.claim_mint_payments(OWNER).unwrap();
    assert_eq!(payments.len(), 1);
    assert_eq!(payments[0].token_id, "EGLD");
    assert_eq!(payments[0].amount, PRICE as u128);
    // The claim zeroed the ledger.
    let payments = minter.claim_mint_payments(OWNER).unwrap();
    assert!(payments.is_empty());
}

#[test]
fn zero_quantity_purchase_changes_nothing() {
    let mut minter = setup_with_brand(5);
    let minted = buy_at(&mut minter, START, 0, 0, vec![1]).unwrap();
    assert!(minted.is_empty());
    assert_eq!(minter.available_ids(&s("BrandA"), &s("Base")).unwrap().len(), 5);
    let payments = minter.claim_mint_payments(OWNER).unwrap();
    assert!(payments.is_empty());
}

#[test]
fn expired_whitelist_admits_everyone() {
    let mut minter = setup_with_brand(5);
    minter.set_mint_whitelist_expire_timestamp(&s("BrandA"), START + 5).unwrap();
    assert_eq!(
        buy_at(&mut minter, START, 1, PRICE, vec![1]).unwrap_err(),
        MintError::NotWhitelisted
    );
    // From the expiry on, the whitelist no longer gates purchases.
    assert_eq!(buy_at(&mut minter, START + 5, 1, PRICE, vec![1]).unwrap().len(), 1);
}

#[test]
fn decimal_rendering_is_exact() {
    assert_eq!(u64_dec_string(0), "0");
    assert_eq!(u64_dec_string(7), "7");
    assert_eq!(u64_dec_string(10), "10");
    assert_eq!(u64_dec_string(907), "907");
    assert_eq!(u64_dec_string(18_446_744_073_709_551_615), "18446744073709551615");
}

#[test]
fn all_brands_listed_in_registration_order() {
    let mut minter = setup_with_brand(5);
    minter
        .issue_token_for_brand(
            s("HashB_________________________________________"),
            s("BrandB"),
            s("png"),
            0,
            START,
            None,
            None,
            s("DisplayB"),
            s("TICKERB"),
            one_tier("Base", 3),
            Vec::new(),
        )
        .unwrap();
    minter.issue_callback(&s("BrandB"), IssueResult::Success(s("TOKB-123456"))).unwrap();
    let views = minter.get_all_brands_info();
    assert_eq!(views.len(), 2);
    assert_eq!(views[0].brand_id, "BrandA");
    assert_eq!(views[1].brand_id, "BrandB");
}

#[test]
fn single_token_claim_zeroes_only_that_balance() {
    let mut minter = setup_with_brand(5);
    buy_at(&mut minter, START, 1, PRICE, vec![1]).unwrap();
    assert_eq!(
        minter.claim_mint_payment_token(OTHER, &s("EGLD")).unwrap_err(),
        MintError::NotClaimAddress
    );
    assert_eq!(minter.claim_mint_payment_token(OWNER, &s("EGLD")).unwrap(), PRICE as u128);
    assert_eq!(minter.claim_mint_payment_token(OWNER, &s("EGLD")).unwrap(), 0);
    assert_eq!(minter.claim_mint_payment_token(OWNER, &s("NEVER-123456")).unwrap(), 0);
}

#[test]
fn ledger_accumulates_per_token() {
    let mut minter = setup_with_brand(5);
    buy_at(&mut minter, START, 1, PRICE, vec![1]).unwrap();
    buy_at(&mut minter, START, 2, 2 * PRICE, vec![1, 1]).unwrap();
    let payments = minter.claim_mint_payments(OWNER).unwrap();
    assert_eq!(payments.len(), 1);
    assert_eq!(payments[0].amount, 3 * PRICE as u128);
}
