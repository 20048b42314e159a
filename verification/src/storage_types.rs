//! The data model of the multi-signature wallet.
//!
//! Every entity is a plain value owned by the wallet's state aggregate.  The
//! host environment authenticates callers and performs asset transfers; here
//! an identity is the plain `Address` value the host has already verified.

use vstd::prelude::*;

verus! {

/// A verified signer identity, as established by the host's authentication
/// capability before a call reaches the engine.
#[derive(Clone, Copy, PartialEq, Eq, Structural, Debug)]
pub struct Address {
    pub id: u64,
}

/// Content-derived transaction identifier.
///
/// The id is exactly the defining fields of the proposal.  Two distinct
/// proposals can never collide: the proposer's nonce is consumed on
/// proposal, so no two transactions share `(proposer, nonce)`.
#[derive(Clone, Copy, PartialEq, Eq, Structural, Debug)]
pub struct TxId {
    pub to: Address,
    pub token: Address,
    pub amount: i128,
    pub proposer: Address,
    pub nonce: u64,
    pub created_at: u64,
}

/// Content-derived batch identifier, collision-free for the same reason as
/// [`TxId`]: proposing a batch consumes the proposer's nonce.
#[derive(Clone, Copy, PartialEq, Eq, Structural, Debug)]
pub struct BatchId {
    pub proposer: Address,
    pub nonce: u64,
    pub created_at: u64,
}

/// Wallet-wide configuration.  Validated on initialization and on every
/// update: `1 <= m <= n`, and the spending limit, timelock threshold and
/// batch capacity are strictly positive.
#[derive(Clone, Copy, Debug)]
pub struct WalletConfig {
    /// Required accumulated signer weight for approval.
    pub m: u32,
    /// Total number of signers the scheme is sized for.
    pub n: u32,
    pub daily_spending_limit: i128,
    /// Amount at or above which the timelock delay applies.
    pub timelock_threshold: i128,
    pub timelock_duration: u64,
    pub transaction_expiry: u64,
    pub max_batch_size: u32,
    pub emergency_freeze_duration: u64,
}

/// Cosmetic classification of a signer; it does not gate authorization.
#[derive(Clone, Copy, PartialEq, Eq, Structural, Debug)]
pub enum Role {
    Owner,
    Treasurer,
    Auditor,
}

/// An authorized identity with its voting weight.
#[derive(Clone, Copy, Debug)]
pub struct Signer {
    pub address: Address,
    pub role: Role,
    pub weight: u32,
    pub daily_spent: i128,
    pub last_spending_reset: u64,
    pub active: bool,
    pub added_at: u64,
}

/// Lifecycle of a transaction.  Transitions only move forward:
/// `Proposed -> Approved -> Executed`.  `Rejected`, `Expired` and
/// `Cancelled` are reserved; expiry is a time-based guard checked at each
/// transition, not a stored state.
#[derive(Clone, Copy, PartialEq, Eq, Structural, Debug)]
pub enum TransactionStatus {
    Proposed,
    Approved,
    Executed,
    Rejected,
    Expired,
    Cancelled,
}

/// A proposed transfer of value, with the weighted signatures gathered for
/// it so far.
#[derive(Clone, Debug)]
pub struct Transaction {
    pub id: TxId,
    pub to: Address,
    pub token: Address,
    pub amount: i128,
    pub data: Vec<u8>,
    pub proposer: Address,
    pub signatures: Vec<Address>,
    pub status: TransactionStatus,
    pub created_at: u64,
    pub expires_at: u64,
    /// Earliest execution time; 0 when no timelock applies.
    pub timelock_until: u64,
    pub batch_id: Option<BatchId>,
}

/// Lifecycle of a batch, mirroring the transaction lifecycle.
#[derive(Clone, Copy, PartialEq, Eq, Structural, Debug)]
pub enum BatchStatus {
    Proposed,
    Approved,
    Executed,
    Rejected,
    Expired,
    Cancelled,
}

/// A group of already-proposed transactions placed under one additional
/// weighted-signature gate.
#[derive(Clone, Debug)]
pub struct Batch {
    pub id: BatchId,
    pub transactions: Vec<TxId>,
    pub proposer: Address,
    pub signatures: Vec<Address>,
    pub status: BatchStatus,
    pub created_at: u64,
    pub expires_at: u64,
}

/// Operational view of timelocked transactions.  The queue never gates
/// execution; the stored `timelock_until` of each transaction does.
#[derive(Clone, Debug)]
pub struct TimelockQueue {
    pub pending: Vec<TxId>,
    pub ready: Vec<TxId>,
    pub executed: Vec<TxId>,
}

/// Executed value accumulated against one UTC calendar day.
#[derive(Clone, Copy, Debug)]
pub struct DailySpending {
    /// Start-of-day timestamp, a multiple of 86400.
    pub date: u64,
    pub spent: i128,
    /// The cap in force when this day's record was first written.
    pub limit: i128,
}

/// The highest nonce consumed so far, per identity.
#[derive(Clone, Copy, PartialEq, Eq, Structural, Debug)]
pub struct NonceEntry {
    pub address: Address,
    pub nonce: u64,
}

/// Replay protection for proposals: a nonce at or below the stored value of
/// its identity is rejected.
#[derive(Clone, Debug)]
pub struct NonceManager {
    pub current_nonce: u64,
    pub used_nonces: Vec<NonceEntry>,
}

/// A transfer for the host's asset ledger to perform, handed back by the
/// engine once execution has been granted.  The host aborts the whole call
/// and discards the state change if the transfer fails.
#[derive(Clone, Copy, PartialEq, Eq, Structural, Debug)]
pub struct Transfer {
    pub token: Address,
    pub to: Address,
    pub amount: i128,
}

/// Why an operation was refused.  A failed call leaves the state unchanged.
#[derive(Clone, Copy, PartialEq, Eq, Structural, Debug)]
pub enum MultisigError {
    AlreadyInitialized,
    NotInitialized,
    Unauthorized,
    InvalidSignature,
    InsufficientSignatures,
    InvalidSigner,
    SignerNotActive,
    InvalidAmount,
    InsufficientBalance,
    TransactionNotFound,
    InvalidTransaction,
    TransactionExpired,
    TransactionAlreadyExecuted,
    DailySpendingLimitExceeded,
    TimelockNotExpired,
    BatchSizeExceeded,
    InvalidBatch,
    WalletFrozen,
    InvalidRole,
    DuplicateSigner,
    InvalidMOfN,
    InvalidThreshold,
    NonceUsed,
    InvalidNonce,
    TransferFailed,
    ContractPaused,
    InvalidAddress,
    InvalidToken,
    InvalidData,
    EmergencyFreezeActive,
    AlreadySigned,
    InvalidStatus,
    BatchNotFound,
    BatchExpired,
}

} // verus!
