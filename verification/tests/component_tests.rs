use multisig_wallet::auction::{AuctionConfig, DutchAuctionContract, DutchAuctionError};
use multisig_wallet::escrow::{EscrowContract, EscrowError, RevenueSplit, RevenueSplitConfig};
use multisig_wallet::vrf::VRFEngine;

#[test]
fn test_compute_selection_index() {
    // Test that selection index is within bounds
    let index1 = VRFEngine::compute_selection_index(12345, 100);
    assert!(index1 < 100);

    let index2 = VRFEngine::compute_selection_index(999999999, 50);
    assert!(index2 < 50);

    // Test with pool size of 1
    let index3 = VRFEngine::compute_selection_index(12345, 1);
    assert_eq!(index3, 0);
}

#[test]
fn test_selection_index_exact() {
    assert_eq!(VRFEngine::compute_selection_index(12345, 100), 45);
    assert_eq!(VRFEngine::compute_selection_index(7, 3), 1);
    assert_eq!(VRFEngine::compute_selection_index(7, 0), 0);
}

fn auction_config() -> AuctionConfig {
    AuctionConfig {
        max_concurrent_auctions: 5,
        default_duration: 3600,
        default_extension_threshold: 300,
        default_extension_duration: 120,
        default_decay_constant: 100,
        max_duration: 86400,
        min_duration: 600,
        anti_bot_enabled: true,
        rate_limit_window: 60,
        rate_limit_max_bids: 10,
        commit_reveal_enabled: false,
        commit_reveal_timeout: 300,
    }
}

#[test]
fn test_auction_config_validation() {
    assert!(DutchAuctionContract::validate_config(&auction_config()).is_ok());

    let mut bad = auction_config();
    bad.max_concurrent_auctions = 0;
    assert_eq!(
        DutchAuctionContract::validate_config(&bad),
        Err(DutchAuctionError::InvalidAuction)
    );

    bad = auction_config();
    bad.min_duration = 7200;
    bad.max_duration = 3600;
    assert_eq!(
        DutchAuctionContract::validate_config(&bad),
        Err(DutchAuctionError::InvalidTime)
    );

    bad = auction_config();
    bad.default_duration = 100;
    assert_eq!(
        DutchAuctionContract::validate_config(&bad),
        Err(DutchAuctionError::InvalidTime)
    );

    bad = auction_config();
    bad.default_decay_constant = 0;
    assert_eq!(
        DutchAuctionContract::validate_config(&bad),
        Err(DutchAuctionError::InvalidDecayConstant)
    );
}

#[test]
fn test_price_decay_curve() {
    // At the start the price is the initial price.
    assert_eq!(DutchAuctionContract::calculate_price(1000000, 100000, 100, 0), 1000000);

    // Once the decay budget is spent the price sits at the floor.
    assert_eq!(
        DutchAuctionContract::calculate_price(1000000, 100000, 100, 20000),
        100000
    );

    // In between, the spread decays by a hundredth of the decay product in
    // millionths: 100 * 1000 = 100000, so the multiplier is
    // 1000000 - 1000 = 999000 and the price 100000 + 900000 * 999000 / 1000000.
    assert_eq!(
        DutchAuctionContract::calculate_price(1000000, 100000, 100, 1000),
        100000 + 899100
    );
}

fn split_config() -> RevenueSplitConfig {
    RevenueSplitConfig {
        default_organizer_percentage: 7000,
        default_platform_percentage: 2000,
        default_referral_percentage: 1000,
        max_referral_percentage: 2000,
        precision: 100,
        min_escrow_amount: 1000,
        max_escrow_amount: 1000000000,
        dispute_timeout: 86400,
        emergency_withdrawal_delay: 604800,
    }
}

#[test]
fn test_escrow_config_validation() {
    assert!(EscrowContract::validate_config(&split_config()).is_ok());

    let mut bad = split_config();
    bad.default_referral_percentage = 500;
    assert_eq!(
        EscrowContract::validate_config(&bad),
        Err(EscrowError::InvalidPercentage)
    );

    bad = split_config();
    bad.max_referral_percentage = 6000;
    assert_eq!(
        EscrowContract::validate_config(&bad),
        Err(EscrowError::InvalidPercentage)
    );

    bad = split_config();
    bad.min_escrow_amount = 0;
    assert_eq!(
        EscrowContract::validate_config(&bad),
        Err(EscrowError::InvalidAmount)
    );

    bad = split_config();
    bad.max_escrow_amount = 500;
    assert_eq!(
        EscrowContract::validate_config(&bad),
        Err(EscrowError::InvalidAmount)
    );
}

#[test]
fn test_revenue_split_validation() {
    let splits = RevenueSplit {
        organizer_percentage: 7000,
        platform_percentage: 2000,
        referral_percentage: 1000,
        precision: 100,
    };
    assert!(EscrowContract::validate_revenue_splits(&splits).is_ok());

    let bad = RevenueSplit { referral_percentage: 999, ..splits };
    assert_eq!(
        EscrowContract::validate_revenue_splits(&bad),
        Err(EscrowError::InvalidPercentage)
    );
}

#[test]
fn test_calculate_split_exact() {
    // 70.00% of 1000 at precision 100.
    assert_eq!(EscrowContract::calculate_split(1000, 7000, 100), 700);
    // Rounding is towards zero.
    assert_eq!(EscrowContract::calculate_split(999, 3333, 100), 332);
    assert_eq!(EscrowContract::calculate_split(0, 5000, 100), 0);
}
