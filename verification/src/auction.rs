//! Pure pricing rules of the Dutch auction component.  The auction's host
//! plumbing (storage, bidding, refunds) lives with the host; what is
//! verified here is the configuration discipline and the price curve.

use vstd::prelude::*;

use vstd::arithmetic::div_mod::{lemma_div_is_ordered, lemma_div_multiples_vanish};
use vstd::arithmetic::mul::{lemma_mul_inequality, lemma_mul_nonnegative};

verus! {

/// The interpolation scale of the decay curve: a price is interpolated in
/// millionths between its floor and its initial value.
pub const DECAY_SCALE: u64 = 1000000;

#[derive(Clone, Copy, PartialEq, Eq, Structural, Debug)]
pub enum AuctionStatus {
    Pending,
    Active,
    Ended,
    Cancelled,
}

/// Auction-wide configuration.
#[derive(Clone, Copy, Debug)]
pub struct AuctionConfig {
    pub max_concurrent_auctions: u32,
    pub default_duration: u64,
    pub default_extension_threshold: u64,
    pub default_extension_duration: u64,
    pub default_decay_constant: u32,
    pub max_duration: u64,
    pub min_duration: u64,
    pub anti_bot_enabled: bool,
    pub rate_limit_window: u64,
    pub rate_limit_max_bids: u32,
    pub commit_reveal_enabled: bool,
    pub commit_reveal_timeout: u64,
}

#[derive(Clone, Copy, PartialEq, Eq, Structural, Debug)]
pub enum DutchAuctionError {
    AlreadyInitialized,
    NotInitialized,
    Unauthorized,
    AuctionNotFound,
    InvalidAuction,
    AuctionNotActive,
    AuctionEnded,
    InvalidAmount,
    InsufficientBalance,
    BelowReservePrice,
    BelowFloorPrice,
    InvalidBid,
    BidTooLow,
    RateLimitExceeded,
    InvalidCommitment,
    CommitmentNotFound,
    RevealTimeout,
    AlreadyRevealed,
    InvalidReveal,
    NoTicketsAvailable,
    RefundFailed,
    TransferFailed,
    ContractPaused,
    InvalidTime,
    InvalidDecayConstant,
}

/// A configuration the auction component accepts: room for at least one
/// auction, a consistent duration window containing the default, and a
/// positive decay constant.
pub open spec fn valid_auction_config(c: AuctionConfig) -> bool {
    &&& c.max_concurrent_auctions >= 1
    &&& c.min_duration >= 1
    &&& c.max_duration >= 1
    &&& c.min_duration <= c.max_duration
    &&& c.min_duration <= c.default_duration
    &&& c.default_duration <= c.max_duration
    &&& c.default_decay_constant >= 1
}

/// Which violation a rejected auction configuration is reported with.
pub open spec fn auction_config_error(c: AuctionConfig) -> DutchAuctionError {
    if c.max_concurrent_auctions == 0 {
        DutchAuctionError::InvalidAuction
    } else if c.min_duration == 0 || c.max_duration == 0 || c.min_duration > c.max_duration {
        DutchAuctionError::InvalidTime
    } else if c.default_duration < c.min_duration || c.default_duration > c.max_duration {
        DutchAuctionError::InvalidTime
    } else {
        DutchAuctionError::InvalidDecayConstant
    }
}

/// The price the decay curve gives after `time_elapsed` seconds: the
/// initial price at the start, the floor once the decay budget is spent,
/// and in between a linear interpolation that loses one hundredth of the
/// decay product in millionths.
pub open spec fn price_at(
    initial_price: i128,
    floor_price: i128,
    decay_constant: u32,
    time_elapsed: u64,
) -> int {
    if time_elapsed == 0 {
        initial_price as int
    } else {
        let decay_numerator = (decay_constant as int) * (time_elapsed as int);
        if decay_numerator > DECAY_SCALE as int {
            floor_price as int
        } else {
            let multiplier = DECAY_SCALE as int - decay_numerator / 100;
            floor_price + (initial_price - floor_price) * multiplier / (DECAY_SCALE as int)
        }
    }
}

/// Dutch auction operations that are functions of their arguments alone.
pub struct DutchAuctionContract;

impl DutchAuctionContract {
    /// Accepts exactly the configurations of [`valid_auction_config`].
    pub fn validate_config(config: &AuctionConfig) -> (r: Result<(), DutchAuctionError>)
        ensures
            r is Ok <==> valid_auction_config(*config),
            r matches Err(e) ==> e == auction_config_error(*config),
    {
        if config.max_concurrent_auctions == 0 {
            Err(DutchAuctionError::InvalidAuction)
        } else if config.min_duration == 0 || config.max_duration == 0 || config.min_duration
            > config.max_duration {
            Err(DutchAuctionError::InvalidTime)
        } else if config.default_duration < config.min_duration || config.default_duration
            > config.max_duration {
            Err(DutchAuctionError::InvalidTime)
        } else if config.default_decay_constant == 0 {
            Err(DutchAuctionError::InvalidDecayConstant)
        } else {
            Ok(())
        }
    }

    /// The current ticket price: [`price_at`], never below the floor nor
    /// above the initial price.
    pub fn calculate_price(
        initial_price: i128,
        floor_price: i128,
        decay_constant: u32,
        time_elapsed: u64,
    ) -> (price: i128)
        requires
            0 <= floor_price <= initial_price,
            initial_price <= i128::MAX / (DECAY_SCALE as i128),
            (decay_constant as int) * (time_elapsed as int) <= u64::MAX,
        ensures
            price == price_at(initial_price, floor_price, decay_constant, time_elapsed),
            floor_price <= price <= initial_price,
    {
        if time_elapsed == 0 {
            return initial_price;
        }
        let decay_numerator = (decay_constant as u64) * time_elapsed;
        if decay_numerator > DECAY_SCALE {
            return floor_price;
        }
        let multiplier = DECAY_SCALE - decay_numerator / 100;
        let spread = initial_price - floor_price;
        proof {
            lemma_mul_nonnegative(spread as int, multiplier as int);
            lemma_mul_inequality(
                multiplier as int,
                DECAY_SCALE as int,
                spread as int,
            );
            assert(spread as int * multiplier as int == multiplier as int * spread as int)
                by (nonlinear_arith);
            assert(DECAY_SCALE as int * spread as int == spread as int * DECAY_SCALE as int)
                by (nonlinear_arith);
            lemma_mul_inequality(
                spread as int,
                (i128::MAX as int) / (DECAY_SCALE as int),
                DECAY_SCALE as int,
            );
            assert(((i128::MAX as int) / (DECAY_SCALE as int)) * (DECAY_SCALE as int)
                <= i128::MAX as int) by {
                vstd::arithmetic::div_mod::lemma_fundamental_div_mod(
                    i128::MAX as int,
                    DECAY_SCALE as int,
                );
                vstd::arithmetic::div_mod::lemma_mod_bound(i128::MAX as int, DECAY_SCALE as int);
            }
            lemma_div_is_ordered(0, spread as int * multiplier as int, DECAY_SCALE as int);
            lemma_div_is_ordered(
                spread as int * multiplier as int,
                spread as int * DECAY_SCALE as int,
                DECAY_SCALE as int,
            );
            assert(spread as int * DECAY_SCALE as int == DECAY_SCALE as int * spread as int);
            lemma_div_multiples_vanish(spread as int, DECAY_SCALE as int);
        }
        let price_above_floor = spread * multiplier as i128 / DECAY_SCALE as i128;
        floor_price + price_above_floor
    }
}

} // verus!
