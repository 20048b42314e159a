use multisig_wallet::storage_types::{
    Address, BatchStatus, MultisigError, Role, TransactionStatus, Transfer, WalletConfig,
};
use multisig_wallet::wallet::MultisigWalletContract;

fn addr(id: u64) -> Address {
    Address { id }
}

fn config(m: u32, n: u32) -> WalletConfig {
    WalletConfig {
        m,
        n,
        daily_spending_limit: 1000000000,
        timelock_threshold: 500000000,
        timelock_duration: 86400,
        transaction_expiry: 604800,
        max_batch_size: 10,
        emergency_freeze_duration: 3600,
    }
}

#[test]
fn test_initialize() {
    let admin = addr(1);
    let cfg = config(2, 3);
    let wallet = MultisigWalletContract::initialize(
        admin,
        cfg,
        vec![addr(2), addr(3), addr(4)],
        0,
    )
    .unwrap();

    let stored_config = wallet.get_config();
    assert_eq!(stored_config.m, cfg.m);
    assert_eq!(stored_config.n, cfg.n);
    assert_eq!(stored_config.daily_spending_limit, cfg.daily_spending_limit);
}

#[test]
fn test_add_signer() {
    let admin = addr(1);
    let signer1 = addr(2);
    let new_signer = addr(3);
    let mut wallet =
        MultisigWalletContract::initialize(admin, config(1, 2), vec![signer1], 0).unwrap();

    wallet
        .add_signer(admin, new_signer, Role::Treasurer, 1, 0)
        .unwrap();

    let signers = wallet.get_signers();
    assert_eq!(signers.len(), 2);

    let treasurer = signers.iter().find(|s| s.address == new_signer).unwrap();
    assert!(matches!(treasurer.role, Role::Treasurer));
}

#[test]
fn test_propose_transaction() {
    let admin = addr(1);
    let signer1 = addr(2);
    let recipient = addr(3);
    let token = addr(4);
    let mut wallet =
        MultisigWalletContract::initialize(admin, config(1, 1), vec![signer1], 0).unwrap();

    let transaction_id = wallet
        .propose_transaction(recipient, token, 10000000, Vec::new(), signer1, 1, 0)
        .unwrap();

    let transaction = wallet.get_transaction(transaction_id).unwrap();
    assert_eq!(transaction.to, recipient);
    assert_eq!(transaction.amount, 10000000);
    assert_eq!(transaction.status, TransactionStatus::Proposed);
}

#[test]
fn test_sign_and_execute_transaction() {
    let admin = addr(1);
    let signer1 = addr(2);
    let recipient = addr(3);
    let token = addr(4);
    let mut wallet =
        MultisigWalletContract::initialize(admin, config(1, 1), vec![signer1], 0).unwrap();

    let transaction_id = wallet
        .propose_transaction(recipient, token, 10000000, Vec::new(), signer1, 1, 0)
        .unwrap();

    wallet.sign_transaction(transaction_id, signer1, 0).unwrap();

    let transaction = wallet.get_transaction(transaction_id).unwrap();
    assert_eq!(transaction.status, TransactionStatus::Approved);

    let transfer = wallet.execute_transaction(transaction_id, 0).unwrap();
    assert_eq!(
        transfer,
        Transfer { token, to: recipient, amount: 10000000 }
    );

    let transaction = wallet.get_transaction(transaction_id).unwrap();
    assert_eq!(transaction.status, TransactionStatus::Executed);
}

#[test]
fn test_timelock_transaction() {
    let admin = addr(1);
    let signer1 = addr(2);
    let recipient = addr(3);
    let token = addr(4);
    let mut cfg = config(1, 1);
    cfg.timelock_threshold = 10000000;
    let mut wallet = MultisigWalletContract::initialize(admin, cfg, vec![signer1], 0).unwrap();

    let transaction_id = wallet
        .propose_transaction(recipient, token, 10000000, Vec::new(), signer1, 1, 0)
        .unwrap();

    let transaction = wallet.get_transaction(transaction_id).unwrap();
    assert!(transaction.timelock_until > 0);

    wallet.sign_transaction(transaction_id, signer1, 0).unwrap();

    let result = wallet.execute_transaction(transaction_id, 0);
    assert!(result.is_err());
}

#[test]
fn test_batch_transaction() {
    let admin = addr(1);
    let signer1 = addr(2);
    let recipient1 = addr(3);
    let recipient2 = addr(4);
    let token = addr(5);
    let mut wallet =
        MultisigWalletContract::initialize(admin, config(1, 1), vec![signer1], 0).unwrap();

    let tx1_id = wallet
        .propose_transaction(recipient1, token, 10000000, Vec::new(), signer1, 1, 0)
        .unwrap();
    let tx2_id = wallet
        .propose_transaction(recipient2, token, 20000000, Vec::new(), signer1, 2, 0)
        .unwrap();

    let batch_id = wallet
        .propose_batch(vec![tx1_id, tx2_id], signer1, 3, 0)
        .unwrap();

    wallet.sign_batch(batch_id, signer1, 0).unwrap();
    wallet.execute_batch(batch_id, 0).unwrap();

    let batch = wallet.get_batch(batch_id).unwrap();
    assert_eq!(batch.status, BatchStatus::Executed);

    // Batch execution is best-effort: members that never gathered their own
    // signatures are skipped and stay `Proposed`.
    let tx1 = wallet.get_transaction(tx1_id).unwrap();
    let tx2 = wallet.get_transaction(tx2_id).unwrap();
    assert_eq!(tx1.status, TransactionStatus::Proposed);
    assert_eq!(tx2.status, TransactionStatus::Proposed);
}

#[test]
fn test_daily_spending_limit() {
    let admin = addr(1);
    let signer1 = addr(2);
    let recipient = addr(3);
    let token = addr(4);
    let mut cfg = config(1, 1);
    cfg.daily_spending_limit = 50000000;
    let mut wallet = MultisigWalletContract::initialize(admin, cfg, vec![signer1], 0).unwrap();

    let tx1_id = wallet
        .propose_transaction(recipient, token, 30000000, Vec::new(), signer1, 1, 0)
        .unwrap();
    wallet.sign_transaction(tx1_id, signer1, 0).unwrap();
    wallet.execute_transaction(tx1_id, 0).unwrap();

    let daily_spending = wallet.get_daily_spending(0);
    assert_eq!(daily_spending.spent, 30000000);

    let tx2_id = wallet
        .propose_transaction(recipient, token, 30000000, Vec::new(), signer1, 2, 0)
        .unwrap();
    wallet.sign_transaction(tx2_id, signer1, 0).unwrap();

    let result = wallet.execute_transaction(tx2_id, 0);
    assert!(result.is_err());
}

#[test]
fn test_emergency_freeze() {
    let admin = addr(1);
    let signer1 = addr(2);
    let mut wallet =
        MultisigWalletContract::initialize(admin, config(1, 1), vec![signer1], 0).unwrap();

    assert!(!wallet.is_frozen());

    wallet.emergency_freeze(admin, 3600, 0).unwrap();
    assert!(wallet.is_frozen());

    let result = wallet.propose_transaction(addr(9), addr(10), 10000000, Vec::new(), signer1, 1, 0);
    assert!(result.is_err());

    wallet.unfreeze(admin, 0).unwrap();
    assert!(!wallet.is_frozen());
}

#[test]
fn test_remove_signer() {
    let admin = addr(1);
    let signer1 = addr(2);
    let signer2 = addr(3);
    let signer3 = addr(4);
    let mut wallet = MultisigWalletContract::initialize(
        admin,
        config(2, 3),
        vec![signer1, signer2, signer3],
        0,
    )
    .unwrap();

    wallet.remove_signer(admin, signer3).unwrap();

    let signers = wallet.get_signers();
    assert_eq!(signers.len(), 2);
    assert!(!signers.iter().any(|s| s.address == signer3));
}

#[test]
fn test_nonce_validation() {
    let admin = addr(1);
    let signer1 = addr(2);
    let recipient = addr(3);
    let token = addr(4);
    let mut wallet =
        MultisigWalletContract::initialize(admin, config(1, 1), vec![signer1], 0).unwrap();

    wallet
        .propose_transaction(recipient, token, 10000000, Vec::new(), signer1, 1, 0)
        .unwrap();

    let result = wallet.propose_transaction(recipient, token, 10000000, Vec::new(), signer1, 1, 0);
    assert!(result.is_err());

    let result = wallet.propose_transaction(recipient, token, 10000000, Vec::new(), signer1, 0, 0);
    assert!(result.is_err());

    wallet
        .propose_transaction(recipient, token, 10000000, Vec::new(), signer1, 2, 0)
        .unwrap();
}
