use multisig_wallet::storage_types::{
    Address, BatchStatus, MultisigError, Role, TransactionStatus, WalletConfig,
};
use multisig_wallet::wallet::MultisigWalletContract;

fn addr(id: u64) -> Address {
    Address { id }
}

fn config(m: u32, n: u32) -> WalletConfig {
    WalletConfig {
        m,
        n,
        daily_spending_limit: 1000000000,
        timelock_threshold: 500000000,
        timelock_duration: 86400,
        transaction_expiry: 604800,
        max_batch_size: 10,
        emergency_freeze_duration: 3600,
    }
}

#[test]
fn test_two_of_three_approval_scenario() {
    let admin = addr(1);
    let s1 = addr(2);
    let s2 = addr(3);
    let s3 = addr(4);
    let mut wallet =
        MultisigWalletContract::initialize(admin, config(2, 3), vec![s1, s2, s3], 0).unwrap();

    // Amount below the timelock threshold: no delay applies.
    let tx_id = wallet
        .propose_transaction(addr(9), addr(10), 1000, Vec::new(), s1, 1, 0)
        .unwrap();
    assert_eq!(wallet.get_transaction(tx_id).unwrap().timelock_until, 0);

    // One signature of weight 1 is not enough for m = 2.
    wallet.sign_transaction(tx_id, s1, 0).unwrap();
    assert_eq!(
        wallet.get_transaction(tx_id).unwrap().status,
        TransactionStatus::Proposed
    );

    // The second signature reaches the threshold.
    wallet.sign_transaction(tx_id, s2, 0).unwrap();
    assert_eq!(
        wallet.get_transaction(tx_id).unwrap().status,
        TransactionStatus::Approved
    );

    wallet.execute_transaction(tx_id, 0).unwrap();
    assert_eq!(
        wallet.get_transaction(tx_id).unwrap().status,
        TransactionStatus::Executed
    );
}

#[test]
fn test_freeze_window_scenario() {
    let admin = addr(1);
    let s1 = addr(2);
    let outsider = addr(7);
    let mut wallet =
        MultisigWalletContract::initialize(admin, config(1, 1), vec![s1], 0).unwrap();

    wallet.emergency_freeze(admin, 3600, 0).unwrap();
    assert_eq!(
        wallet.propose_transaction(addr(9), addr(10), 1000, Vec::new(), s1, 1, 100),
        Err(MultisigError::WalletFrozen)
    );

    // Before the advisory time, only the admin may unfreeze.
    assert_eq!(wallet.unfreeze(outsider, 3599), Err(MultisigError::Unauthorized));
    assert!(wallet.is_frozen());

    // From the advisory time on, anyone may.
    wallet.unfreeze(outsider, 3600).unwrap();
    assert!(!wallet.is_frozen());
    wallet
        .propose_transaction(addr(9), addr(10), 1000, Vec::new(), s1, 1, 3600)
        .unwrap();
}

#[test]
fn test_execute_twice_rejected() {
    let admin = addr(1);
    let s1 = addr(2);
    let mut wallet =
        MultisigWalletContract::initialize(admin, config(1, 1), vec![s1], 0).unwrap();

    let tx_id = wallet
        .propose_transaction(addr(9), addr(10), 1000, Vec::new(), s1, 1, 0)
        .unwrap();
    wallet.sign_transaction(tx_id, s1, 0).unwrap();
    wallet.execute_transaction(tx_id, 0).unwrap();

    assert_eq!(
        wallet.execute_transaction(tx_id, 0),
        Err(MultisigError::InvalidStatus)
    );
}

#[test]
fn test_daily_limit_resets_next_day() {
    let admin = addr(1);
    let s1 = addr(2);
    let mut cfg = config(1, 1);
    cfg.daily_spending_limit = 50000000;
    let mut wallet = MultisigWalletContract::initialize(admin, cfg, vec![s1], 0).unwrap();

    let tx1 = wallet
        .propose_transaction(addr(9), addr(10), 30000000, Vec::new(), s1, 1, 0)
        .unwrap();
    wallet.sign_transaction(tx1, s1, 0).unwrap();
    wallet.execute_transaction(tx1, 0).unwrap();

    let tx2 = wallet
        .propose_transaction(addr(9), addr(10), 30000000, Vec::new(), s1, 2, 0)
        .unwrap();
    wallet.sign_transaction(tx2, s1, 0).unwrap();
    assert_eq!(
        wallet.execute_transaction(tx2, 0),
        Err(MultisigError::DailySpendingLimitExceeded)
    );

    // The same amount goes through on the next calendar day.
    wallet.execute_transaction(tx2, 86400).unwrap();
    assert_eq!(wallet.get_daily_spending(86400).spent, 30000000);
}

#[test]
fn test_timelock_releases_at_instant() {
    let admin = addr(1);
    let s1 = addr(2);
    let mut cfg = config(1, 1);
    cfg.timelock_threshold = 500;
    let mut wallet = MultisigWalletContract::initialize(admin, cfg, vec![s1], 0).unwrap();

    let tx_id = wallet
        .propose_transaction(addr(9), addr(10), 1000, Vec::new(), s1, 1, 0)
        .unwrap();
    wallet.sign_transaction(tx_id, s1, 0).unwrap();

    assert_eq!(
        wallet.get_transaction(tx_id).unwrap().timelock_until,
        86400
    );
    assert_eq!(
        wallet.execute_transaction(tx_id, 86399),
        Err(MultisigError::TimelockNotExpired)
    );
    // At exactly created_at + duration the transaction may run.
    wallet.execute_transaction(tx_id, 86400).unwrap();
}

#[test]
fn test_removed_signer_weight_revoked() {
    let admin = addr(1);
    let s1 = addr(2);
    let s2 = addr(3);
    let s3 = addr(4);
    let mut wallet =
        MultisigWalletContract::initialize(admin, config(2, 3), vec![s1, s2, s3], 0).unwrap();

    let tx_id = wallet
        .propose_transaction(addr(9), addr(10), 1000, Vec::new(), s1, 1, 0)
        .unwrap();
    wallet.sign_transaction(tx_id, s1, 0).unwrap();

    // The first signature is on file, but removing its signer revokes its
    // weight before the threshold is reached.
    wallet.remove_signer(admin, s1).unwrap();
    wallet.sign_transaction(tx_id, s2, 0).unwrap();
    assert_eq!(
        wallet.get_transaction(tx_id).unwrap().status,
        TransactionStatus::Proposed
    );

    wallet.sign_transaction(tx_id, s3, 0).unwrap();
    assert_eq!(
        wallet.get_transaction(tx_id).unwrap().status,
        TransactionStatus::Approved
    );
}

#[test]
fn test_batch_mixed_members() {
    let admin = addr(1);
    let s1 = addr(2);
    let mut wallet =
        MultisigWalletContract::initialize(admin, config(1, 1), vec![s1], 0).unwrap();

    let tx1 = wallet
        .propose_transaction(addr(9), addr(10), 1000, Vec::new(), s1, 1, 0)
        .unwrap();
    let tx2 = wallet
        .propose_transaction(addr(9), addr(10), 2000, Vec::new(), s1, 2, 0)
        .unwrap();
    let batch_id = wallet.propose_batch(vec![tx1, tx2], s1, 3, 0).unwrap();

    // Only tx1 gathers its own signatures.
    wallet.sign_transaction(tx1, s1, 0).unwrap();
    wallet.sign_batch(batch_id, s1, 0).unwrap();

    let transfers = wallet.execute_batch(batch_id, 0).unwrap();
    assert_eq!(transfers.len(), 1);
    assert_eq!(transfers[0].amount, 1000);

    assert_eq!(
        wallet.get_transaction(tx1).unwrap().status,
        TransactionStatus::Executed
    );
    assert_eq!(
        wallet.get_transaction(tx2).unwrap().status,
        TransactionStatus::Proposed
    );
    assert_eq!(
        wallet.get_batch(batch_id).unwrap().status,
        BatchStatus::Executed
    );
}

#[test]
fn test_empty_batch() {
    let admin = addr(1);
    let s1 = addr(2);
    let mut wallet =
        MultisigWalletContract::initialize(admin, config(1, 1), vec![s1], 0).unwrap();

    let batch_id = wallet.propose_batch(Vec::new(), s1, 1, 0).unwrap();
    wallet.sign_batch(batch_id, s1, 0).unwrap();
    let transfers = wallet.execute_batch(batch_id, 0).unwrap();
    assert!(transfers.is_empty());
    assert_eq!(
        wallet.get_batch(batch_id).unwrap().status,
        BatchStatus::Executed
    );
}

#[test]
fn test_batch_member_listed_twice_executes_once() {
    let admin = addr(1);
    let s1 = addr(2);
    let mut wallet =
        MultisigWalletContract::initialize(admin, config(1, 1), vec![s1], 0).unwrap();

    let tx1 = wallet
        .propose_transaction(addr(9), addr(10), 1000, Vec::new(), s1, 1, 0)
        .unwrap();
    let batch_id = wallet.propose_batch(vec![tx1, tx1], s1, 2, 0).unwrap();
    wallet.sign_transaction(tx1, s1, 0).unwrap();
    wallet.sign_batch(batch_id, s1, 0).unwrap();

    // The second listing finds the member already executed and skips it,
    // so the amount is transferred and charged exactly once.
    let transfers = wallet.execute_batch(batch_id, 0).unwrap();
    assert_eq!(transfers.len(), 1);
    assert_eq!(wallet.get_daily_spending(0).spent, 1000);
}

#[test]
fn test_error_variants() {
    let admin = addr(1);
    let s1 = addr(2);
    let s2 = addr(3);
    let outsider = addr(7);
    let mut wallet =
        MultisigWalletContract::initialize(admin, config(1, 2), vec![s1, s2], 0).unwrap();

    // Administration.
    assert_eq!(
        wallet.add_signer(outsider, addr(8), Role::Owner, 1, 0),
        Err(MultisigError::Unauthorized)
    );
    assert_eq!(
        wallet.add_signer(admin, s1, Role::Owner, 1, 0),
        Err(MultisigError::DuplicateSigner)
    );
    assert_eq!(
        wallet.remove_signer(admin, outsider),
        Err(MultisigError::InvalidSigner)
    );

    // Lookups of ids never stored.
    let phantom = multisig_wallet::storage_types::TxId {
        to: addr(9),
        token: addr(10),
        amount: 1,
        proposer: s1,
        nonce: 99,
        created_at: 0,
    };
    assert_eq!(
        wallet.get_transaction(phantom).err(),
        Some(MultisigError::TransactionNotFound)
    );
    assert_eq!(
        wallet.sign_transaction(phantom, s1, 0),
        Err(MultisigError::TransactionNotFound)
    );
    assert_eq!(
        wallet.execute_transaction(phantom, 0),
        Err(MultisigError::TransactionNotFound)
    );
    let phantom_batch =
        multisig_wallet::storage_types::BatchId { proposer: s1, nonce: 99, created_at: 0 };
    assert_eq!(
        wallet.get_batch(phantom_batch).err(),
        Some(MultisigError::BatchNotFound)
    );
    assert_eq!(
        wallet.execute_batch(phantom_batch, 0),
        Err(MultisigError::BatchNotFound)
    );

    // Proposal gating.
    assert_eq!(
        wallet.propose_transaction(addr(9), addr(10), 0, Vec::new(), s1, 1, 0),
        Err(MultisigError::InvalidAmount)
    );
    assert_eq!(
        wallet.propose_transaction(addr(9), addr(10), 1000, Vec::new(), outsider, 1, 0),
        Err(MultisigError::InvalidSigner)
    );
    wallet.pause(admin).unwrap();
    assert_eq!(
        wallet.propose_transaction(addr(9), addr(10), 1000, Vec::new(), s1, 1, 0),
        Err(MultisigError::ContractPaused)
    );
    wallet.unpause(admin).unwrap();

    // Signing and replay.
    let ghost_id = wallet
        .propose_transaction(addr(9), addr(10), 1000, Vec::new(), s1, 1, 0)
        .unwrap();
    assert_eq!(
        wallet.propose_transaction(addr(9), addr(10), 1000, Vec::new(), s1, 1, 0),
        Err(MultisigError::NonceUsed)
    );
    wallet.sign_transaction(ghost_id, s1, 0).unwrap();
    assert_eq!(
        wallet.sign_transaction(ghost_id, s1, 0),
        Err(MultisigError::InvalidStatus)
    );
    // With a threshold of two, one signature leaves the proposal open, so
    // a repeat from the same signer is the duplicate case.
    let mut strict = MultisigWalletContract::initialize(admin, config(2, 2), vec![s1, s2], 0)
        .unwrap();
    let tx2 = strict
        .propose_transaction(addr(9), addr(11), 1000, Vec::new(), s1, 1, 0)
        .unwrap();
    strict.sign_transaction(tx2, s2, 0).unwrap();
    assert_eq!(
        strict.sign_transaction(tx2, s2, 0),
        Err(MultisigError::AlreadySigned)
    );
    assert_eq!(
        strict.sign_transaction(tx2, s1, 700000),
        Err(MultisigError::TransactionExpired)
    );

    // Batches.
    let mut small = config(1, 1);
    small.max_batch_size = 1;
    let mut wallet2 = MultisigWalletContract::initialize(admin, small, vec![s1], 0).unwrap();
    let a = wallet2
        .propose_transaction(addr(9), addr(10), 1000, Vec::new(), s1, 1, 0)
        .unwrap();
    let b = wallet2
        .propose_transaction(addr(9), addr(10), 2000, Vec::new(), s1, 2, 0)
        .unwrap();
    assert_eq!(
        wallet2.propose_batch(vec![a, b], s1, 3, 0),
        Err(MultisigError::BatchSizeExceeded)
    );
    let batch_one = wallet2.propose_batch(vec![a], s1, 3, 0).unwrap();
    assert_eq!(
        wallet2.propose_batch(vec![a], s1, 4, 0),
        Err(MultisigError::InvalidBatch)
    );
    assert_eq!(
        wallet2.sign_batch(batch_one, outsider, 0),
        Err(MultisigError::InvalidSigner)
    );
    assert_eq!(
        wallet2.execute_batch(batch_one, 0),
        Err(MultisigError::InvalidStatus)
    );
}

#[test]
fn test_config_validation_errors() {
    let admin = addr(1);
    let signers = vec![addr(2)];

    let mut bad = config(2, 1);
    assert_eq!(
        MultisigWalletContract::initialize(admin, bad, signers.clone(), 0).err().unwrap(),
        MultisigError::InvalidMOfN
    );

    bad = config(0, 1);
    assert_eq!(
        MultisigWalletContract::initialize(admin, bad, signers.clone(), 0).err().unwrap(),
        MultisigError::InvalidMOfN
    );

    bad = config(1, 1);
    bad.daily_spending_limit = 0;
    assert_eq!(
        MultisigWalletContract::initialize(admin, bad, signers.clone(), 0).err().unwrap(),
        MultisigError::InvalidAmount
    );

    bad = config(1, 1);
    bad.timelock_threshold = -5;
    assert_eq!(
        MultisigWalletContract::initialize(admin, bad, signers.clone(), 0).err().unwrap(),
        MultisigError::InvalidThreshold
    );

    bad = config(1, 1);
    bad.max_batch_size = 0;
    assert_eq!(
        MultisigWalletContract::initialize(admin, bad, signers.clone(), 0).err().unwrap(),
        MultisigError::InvalidBatch
    );

    // Every limit must be strictly positive, the time windows included.
    bad = config(1, 1);
    bad.timelock_duration = 0;
    assert_eq!(
        MultisigWalletContract::initialize(admin, bad, signers.clone(), 0).err().unwrap(),
        MultisigError::InvalidData
    );

    bad = config(1, 1);
    bad.transaction_expiry = 0;
    assert_eq!(
        MultisigWalletContract::initialize(admin, bad, signers.clone(), 0).err().unwrap(),
        MultisigError::InvalidData
    );

    bad = config(1, 1);
    bad.emergency_freeze_duration = 0;
    assert_eq!(
        MultisigWalletContract::initialize(admin, bad, signers.clone(), 0).err().unwrap(),
        MultisigError::InvalidData
    );

    assert_eq!(
        MultisigWalletContract::initialize(admin, config(1, 2), vec![addr(2), addr(2)], 0)
            .err().unwrap(),
        MultisigError::DuplicateSigner
    );

    // The same discipline applies to configuration updates.
    let mut wallet =
        MultisigWalletContract::initialize(admin, config(1, 1), signers, 0).unwrap();
    bad = config(3, 2);
    assert_eq!(
        wallet.update_config(admin, bad),
        Err(MultisigError::InvalidMOfN)
    );
    bad = config(1, 1);
    bad.transaction_expiry = 0;
    assert_eq!(
        wallet.update_config(admin, bad),
        Err(MultisigError::InvalidData)
    );
    assert_eq!(
        wallet.update_config(addr(7), config(1, 1)),
        Err(MultisigError::Unauthorized)
    );
    let mut better = config(1, 1);
    better.daily_spending_limit = 77;
    wallet.update_config(admin, better).unwrap();
    assert_eq!(wallet.get_config().daily_spending_limit, 77);
    assert_eq!(wallet.version(), 1);
}

#[test]
fn test_remove_signer_below_threshold_rejected() {
    let admin = addr(1);
    let s1 = addr(2);
    let s2 = addr(3);
    let mut wallet =
        MultisigWalletContract::initialize(admin, config(2, 2), vec![s1, s2], 0).unwrap();
    assert_eq!(
        wallet.remove_signer(admin, s2),
        Err(MultisigError::InvalidMOfN)
    );
}

#[test]
fn test_fresh_day_reads_zero_spending() {
    let admin = addr(1);
    let s1 = addr(2);
    let wallet = MultisigWalletContract::initialize(admin, config(1, 1), vec![s1], 0).unwrap();
    let day = wallet.get_daily_spending(200000);
    assert_eq!(day.date, 172800);
    assert_eq!(day.spent, 0);
    assert_eq!(day.limit, 1000000000);
}
