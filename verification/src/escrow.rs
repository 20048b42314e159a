//! Pure revenue-splitting rules of the escrow component: how a revenue
//! distribution is validated and how each party's share of a locked amount
//! is computed.

use vstd::prelude::*;

verus! {

#[derive(Clone, Copy, PartialEq, Eq, Structural, Debug)]
pub enum EscrowStatus {
    Pending,
    Locked,
    Released,
    Refunded,
    Disputed,
    Cancelled,
}

/// One escrow's revenue distribution, in hundredths of a percent scaled by
/// `precision`.
#[derive(Clone, Copy, Debug)]
pub struct RevenueSplit {
    pub organizer_percentage: u32,
    pub platform_percentage: u32,
    pub referral_percentage: u32,
    pub precision: u32,
}

/// A scheduled partial release of a locked amount.
#[derive(Clone, Copy, Debug)]
pub struct Milestone {
    pub id: u32,
    pub amount: i128,
    pub release_time: u64,
    pub released: bool,
}

/// Component-wide defaults and bounds for revenue splitting.
#[derive(Clone, Copy, Debug)]
pub struct RevenueSplitConfig {
    pub default_organizer_percentage: u32,
    pub default_platform_percentage: u32,
    pub default_referral_percentage: u32,
    pub max_referral_percentage: u32,
    pub precision: u32,
    pub min_escrow_amount: i128,
    pub max_escrow_amount: i128,
    pub dispute_timeout: u64,
    pub emergency_withdrawal_delay: u64,
}

#[derive(Clone, Copy, PartialEq, Eq, Structural, Debug)]
pub enum EscrowError {
    AlreadyInitialized,
    NotInitialized,
    Unauthorized,
    InsufficientBalance,
    InvalidAmount,
    InvalidToken,
    EscrowNotFound,
    InvalidStatus,
    DisputeActive,
    NoDispute,
    DisputeTimeout,
    InvalidPercentage,
    InvalidMilestone,
    MilestoneAlreadyReleased,
    InvalidTime,
    ContractPaused,
    TransferFailed,
    InvalidAddress,
    AmountTooLow,
    AmountTooHigh,
    ReferralNotFound,
    DuplicateReferral,
    EmergencyWithdrawalNotAvailable,
}

/// A split configuration the escrow accepts: the default shares exhaust
/// the whole (100% at the configured precision), the referral share is
/// capped at half, and the escrow amount window is non-empty and positive.
pub open spec fn valid_split_config(c: RevenueSplitConfig) -> bool {
    &&& c.default_organizer_percentage + c.default_platform_percentage
        + c.default_referral_percentage == 100 * c.precision
    &&& c.max_referral_percentage <= 50 * c.precision
    &&& c.min_escrow_amount > 0
    &&& c.max_escrow_amount > c.min_escrow_amount
}

/// Which violation a rejected split configuration is reported with.
pub open spec fn split_config_error(c: RevenueSplitConfig) -> EscrowError {
    if c.default_organizer_percentage + c.default_platform_percentage
        + c.default_referral_percentage != 100 * c.precision {
        EscrowError::InvalidPercentage
    } else if c.max_referral_percentage > 50 * c.precision {
        EscrowError::InvalidPercentage
    } else {
        EscrowError::InvalidAmount
    }
}

/// The shares of one escrow exhaust the whole.
pub open spec fn valid_revenue_splits(s: RevenueSplit) -> bool {
    s.organizer_percentage + s.platform_percentage + s.referral_percentage == 100 * s.precision
}

/// A party's share of `amount` at `percentage`, rounded towards zero.
pub open spec fn split_of(amount: i128, percentage: u32, precision: u32) -> int {
    (amount as int) * (percentage as int) / (100 * precision as int)
}

/// Escrow operations that are functions of their arguments alone.
pub struct EscrowContract;

impl EscrowContract {
    /// Accepts exactly the configurations of [`valid_split_config`].
    pub fn validate_config(config: &RevenueSplitConfig) -> (r: Result<(), EscrowError>)
        ensures
            r is Ok <==> valid_split_config(*config),
            r matches Err(e) ==> e == split_config_error(*config),
    {
        let total = config.default_organizer_percentage as u64
            + config.default_platform_percentage as u64
            + config.default_referral_percentage as u64;
        if total != 100 * config.precision as u64 {
            return Err(EscrowError::InvalidPercentage);
        }
        if config.max_referral_percentage as u64 > 50 * config.precision as u64 {
            return Err(EscrowError::InvalidPercentage);
        }
        if config.min_escrow_amount <= 0 || config.max_escrow_amount <= config.min_escrow_amount {
            return Err(EscrowError::InvalidAmount);
        }
        Ok(())
    }

    /// Accepts exactly the distributions of [`valid_revenue_splits`].
    pub fn validate_revenue_splits(splits: &RevenueSplit) -> (r: Result<(), EscrowError>)
        ensures
            r is Ok <==> valid_revenue_splits(*splits),
            r is Err ==> r == Err::<(), EscrowError>(EscrowError::InvalidPercentage),
    {
        let total = splits.organizer_percentage as u64 + splits.platform_percentage as u64
            + splits.referral_percentage as u64;
        if total != 100 * splits.precision as u64 {
            return Err(EscrowError::InvalidPercentage);
        }
        Ok(())
    }

    /// One party's share of a locked amount: exactly [`split_of`].
    pub fn calculate_split(amount: i128, percentage: u32, precision: u32) -> (share: i128)
        requires
            precision >= 1,
            amount >= 0,
            (amount as int) * (percentage as int) <= i128::MAX,
        ensures
            share == split_of(amount, percentage, precision),
            0 <= share <= amount * (percentage as int),
    {
        proof {
            vstd::arithmetic::mul::lemma_mul_nonnegative(amount as int, percentage as int);
            vstd::arithmetic::div_mod::lemma_div_is_ordered(
                0,
                amount as int * percentage as int,
                100 * precision as int,
            );
            vstd::arithmetic::div_mod::lemma_div_is_ordered_by_denominator(
                amount as int * percentage as int,
                1,
                100 * precision as int,
            );
        }
        (amount * percentage as i128) / (100 * precision as i128)
    }
}

} // verus!
