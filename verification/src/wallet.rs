//! The multi-signature wallet engine.
//!
//! [`MultisigWalletContract`] owns the whole wallet state.  The host passes
//! the authenticated caller identity and the current clock value into each
//! operation and performs the [`Transfer`]s handed back; a failed operation
//! returns its error and leaves the state exactly as it was.
//!
//! Every operation requires and preserves the well-formedness invariant
//! [`WalletM::wf`]; states reached through this interface always satisfy it.

use vstd::prelude::*;

use crate::model::{
    active_count, batch_idx, can_initialize, config_error, day_idx, day_of, distinct_addresses,
    exec_member, exec_members, exec_transfers, initial_state, initialize_error,
    is_active_signer, lemma_batch_idx, lemma_day_idx, lemma_nonce_idx, lemma_signer_idx,
    lemma_tx_idx, member_error, member_ok, members_ok,
    member_transfer, nonce_fresh, nonce_idx, sat_add, signed_weight, signer_idx, signer_weight,
    tag_members, tag_one, tx_idx, valid_config, BatchM, TransactionM, WalletM, SECONDS_PER_DAY,
};
use crate::storage_types::{
    Address, Batch, BatchId, BatchStatus, DailySpending, MultisigError, NonceEntry, NonceManager,
    Role, Signer, TimelockQueue, Transaction, TransactionStatus, Transfer, TxId, WalletConfig,
};
use vstd::arithmetic::div_mod::{lemma_fundamental_div_mod, lemma_mod_bound};
use vstd::pervasive::VecAdditionalExecFns;

verus! {

/// The wallet: an explicit state aggregate, mutated only through the
/// operations below.
pub struct MultisigWalletContract {
    admin: Address,
    config: WalletConfig,
    paused: bool,
    version: u32,
    frozen: bool,
    unfreeze_time: Option<u64>,
    signers: Vec<Signer>,
    nonces: NonceManager,
    timelock_queue: TimelockQueue,
    transactions: Vec<Transaction>,
    batches: Vec<Batch>,
    daily_spending: Vec<DailySpending>,
}

/// The stored transactions as the model sees them.
pub open spec fn txs_view(txs: Seq<Transaction>) -> Seq<TransactionM> {
    txs.map_values(|t: Transaction| t@)
}

/// The stored batches as the model sees them.
pub open spec fn batches_view(batches: Seq<Batch>) -> Seq<BatchM> {
    batches.map_values(|b: Batch| b@)
}

impl View for MultisigWalletContract {
    type V = WalletM;

    closed spec fn view(&self) -> WalletM {
        WalletM {
            admin: self.admin,
            config: self.config,
            paused: self.paused,
            version: self.version,
            frozen: self.frozen,
            unfreeze_time: self.unfreeze_time,
            signers: self.signers@,
            nonces: self.nonces@,
            queue: self.timelock_queue@,
            transactions: txs_view(self.transactions@),
            batches: batches_view(self.batches@),
            daily: self.daily_spending@,
        }
    }
}

impl MultisigWalletContract {
    /// Accepts exactly the configurations whose threshold scheme is
    /// satisfiable (`1 <= m <= n`) and whose limits are strictly positive,
    /// the timelock, expiry and freeze windows included.
    pub fn validate_config(config: &WalletConfig) -> (r: Result<(), MultisigError>)
        ensures
            r is Ok <==> valid_config(*config),
            r matches Err(e) ==> e == config_error(*config),
    {
        if config.m == 0 || config.n == 0 || config.m > config.n {
            Err(MultisigError::InvalidMOfN)
        } else if config.daily_spending_limit <= 0 {
            Err(MultisigError::InvalidAmount)
        } else if config.timelock_threshold <= 0 {
            Err(MultisigError::InvalidThreshold)
        } else if config.max_batch_size == 0 {
            Err(MultisigError::InvalidBatch)
        } else if config.timelock_duration == 0 || config.transaction_expiry == 0
            || config.emergency_freeze_duration == 0 {
            Err(MultisigError::InvalidData)
        } else {
            Ok(())
        }
    }

    /// Creates the wallet, rejecting an unsatisfiable configuration and
    /// duplicated initial signers.  Each initial signer starts as an active
    /// owner of weight 1.
    pub fn initialize(
        admin: Address,
        config: WalletConfig,
        initial_signers: Vec<Address>,
        now: u64,
    ) -> (r: Result<Self, MultisigError>)
        ensures
            r is Ok <==> can_initialize(config, initial_signers@),
            r matches Ok(w) ==> w@ == initial_state(admin, config, initial_signers@, now)
                && w@.wf(),
            r matches Err(e) ==> e == initialize_error(config, initial_signers@),
    {
        if let Err(e) = Self::validate_config(&config) {
            return Err(e);
        }
        let n = initial_signers.len();
        let mut i: usize = 0;
        while i < n
            invariant
                valid_config(config),
                n == initial_signers.len(),
                i <= n,
                forall|p: int, q: int| 0 <= p < q < i ==> initial_signers@[p] != initial_signers@[q],
            decreases n - i,
        {
            let mut j: usize = 0;
            while j < i
                invariant
                    valid_config(config),
                    i < n == initial_signers.len(),
                    j <= i,
                    forall|q: int| 0 <= q < j ==> initial_signers@[q] != initial_signers@[i as int],
                decreases i - j,
            {
                if initial_signers[j] == initial_signers[i] {
                    proof {
                        assert(initial_signers@[j as int] == initial_signers@[i as int]);
                        assert(!distinct_addresses(initial_signers@));
                    }
                    return Err(MultisigError::DuplicateSigner);
                }
                j += 1;
            }
            i += 1;
        }
        assert(distinct_addresses(initial_signers@));

        let mut signers: Vec<Signer> = Vec::new();
        let mut k: usize = 0;
        while k < n
            invariant
                n == initial_signers.len(),
                k <= n,
                signers@.len() == k,
                forall|p: int|
                    0 <= p < k ==> signers@[p] == (Signer {
                        address: initial_signers@[p],
                        role: Role::Owner,
                        weight: 1u32,
                        daily_spent: 0i128,
                        last_spending_reset: now,
                        active: true,
                        added_at: now,
                    }),
            decreases n - k,
        {
            signers.push(
                Signer {
                    address: initial_signers[k],
                    role: Role::Owner,
                    weight: 1,
                    daily_spent: 0,
                    last_spending_reset: now,
                    active: true,
                    added_at: now,
                },
            );
            k += 1;
        }

        let wallet = MultisigWalletContract {
            admin,
            config,
            paused: false,
            version: 1,
            frozen: false,
            unfreeze_time: None,
            signers,
            nonces: NonceManager { current_nonce: 0, used_nonces: Vec::new() },
            timelock_queue: TimelockQueue {
                pending: Vec::new(),
                ready: Vec::new(),
                executed: Vec::new(),
            },
            transactions: Vec::new(),
            batches: Vec::new(),
            daily_spending: Vec::new(),
        };
        proof {
            let m = initial_state(admin, config, initial_signers@, now);
            assert(wallet@.signers =~= m.signers);
            assert(wallet@.transactions =~= m.transactions);
            assert(wallet@.batches =~= m.batches);
            assert(wallet@ =~= m);
        }
        Ok(wallet)
    }

    // ------------------------------------------------------------------
    // Administration
    // ------------------------------------------------------------------

    /// Suspends proposals.  Admin only.
    pub fn pause(&mut self, caller: Address) -> (r: Result<(), MultisigError>)
        requires
            old(self)@.wf(),
        ensures
            final(self)@.wf(),
            r is Ok <==> caller == old(self)@.admin,
            r is Ok ==> final(self)@ == (WalletM { paused: true, ..old(self)@ }),
            r is Err ==> final(self)@ == old(self)@ && r == Err::<(), MultisigError>(
                MultisigError::Unauthorized,
            ),
    {
        if caller != self.admin {
            return Err(MultisigError::Unauthorized);
        }
        self.paused = true;
        Ok(())
    }

    /// Lifts a pause.  Admin only.
    pub fn unpause(&mut self, caller: Address) -> (r: Result<(), MultisigError>)
        requires
            old(self)@.wf(),
        ensures
            final(self)@.wf(),
            r is Ok <==> caller == old(self)@.admin,
            r is Ok ==> final(self)@ == (WalletM { paused: false, ..old(self)@ }),
            r is Err ==> final(self)@ == old(self)@ && r == Err::<(), MultisigError>(
                MultisigError::Unauthorized,
            ),
    {
        if caller != self.admin {
            return Err(MultisigError::Unauthorized);
        }
        self.paused = false;
        Ok(())
    }

    /// Replaces the configuration after validating it as on initialization.
    /// Admin only.
    pub fn update_config(&mut self, caller: Address, new_config: WalletConfig) -> (r: Result<
        (),
        MultisigError,
    >)
        requires
            old(self)@.wf(),
        ensures
            final(self)@.wf(),
            r is Ok <==> caller == old(self)@.admin && valid_config(new_config),
            r is Ok ==> final(self)@ == (WalletM { config: new_config, ..old(self)@ }),
            r matches Err(e) ==> final(self)@ == old(self)@ && e == (
                if caller != old(self)@.admin {
                    MultisigError::Unauthorized
                } else {
                    config_error(new_config)
                }
            ),
    {
        if caller != self.admin {
            return Err(MultisigError::Unauthorized);
        }
        if let Err(e) = Self::validate_config(&new_config) {
            return Err(e);
        }
        self.config = new_config;
        Ok(())
    }

    /// Suspends new proposals and records `now + duration` as the advisory
    /// time from which anyone may unfreeze.  Admin only.
    pub fn emergency_freeze(&mut self, caller: Address, duration: u64, now: u64) -> (r: Result<
        (),
        MultisigError,
    >)
        requires
            old(self)@.wf(),
            now + duration <= u64::MAX,
        ensures
            final(self)@.wf(),
            r is Ok <==> caller == old(self)@.admin,
            r is Ok ==> final(self)@ == old(self)@.freeze_next(duration, now),
            r is Err ==> final(self)@ == old(self)@ && r == Err::<(), MultisigError>(
                MultisigError::Unauthorized,
            ),
    {
        if caller != self.admin {
            return Err(MultisigError::Unauthorized);
        }
        self.frozen = true;
        self.unfreeze_time = Some(now + duration);
        Ok(())
    }

    /// Lifts a freeze: the admin may at any time, anyone else only once the
    /// advisory unfreeze time has passed.
    pub fn unfreeze(&mut self, caller: Address, now: u64) -> (r: Result<(), MultisigError>)
        requires
            old(self)@.wf(),
        ensures
            final(self)@.wf(),
            r is Ok <==> old(self)@.can_unfreeze(caller, now),
            r is Ok ==> final(self)@ == old(self)@.unfreeze_next(),
            r is Err ==> final(self)@ == old(self)@ && r == Err::<(), MultisigError>(
                MultisigError::Unauthorized,
            ),
    {
        if caller != self.admin {
            let allowed = match self.unfreeze_time {
                Some(t) => now >= t,
                None => false,
            };
            if !allowed {
                return Err(MultisigError::Unauthorized);
            }
        }
        self.frozen = false;
        self.unfreeze_time = None;
        Ok(())
    }

    /// Registers a new signer.  Admin only; duplicates and zero weights are
    /// rejected.
    pub fn add_signer(
        &mut self,
        caller: Address,
        signer_address: Address,
        role: Role,
        weight: u32,
        now: u64,
    ) -> (r: Result<(), MultisigError>)
        requires
            old(self)@.wf(),
        ensures
            final(self)@.wf(),
            r is Ok <==> old(self)@.can_add_signer(caller, signer_address, weight),
            r is Ok ==> final(self)@ == old(self)@.add_signer_next(
                signer_address,
                role,
                weight,
                now,
            ),
            r matches Err(e) ==> final(self)@ == old(self)@ && e == old(self)@.add_signer_error(
                caller,
                signer_address,
                weight,
            ),
    {
        if caller != self.admin {
            return Err(MultisigError::Unauthorized);
        }
        if find_signer(&self.signers, signer_address).is_some() {
            return Err(MultisigError::DuplicateSigner);
        }
        if weight == 0 {
            return Err(MultisigError::InvalidSigner);
        }
        proof {
            lemma_signer_idx(self.signers@, signer_address);
        }
        self.signers.push(
            Signer {
                address: signer_address,
                role,
                weight,
                daily_spent: 0,
                last_spending_reset: now,
                active: true,
                added_at: now,
            },
        );
        Ok(())
    }

    /// Deregisters a signer.  Admin only; refused when the registry would
    /// fall below the required weight threshold `m`.
    pub fn remove_signer(&mut self, caller: Address, signer_address: Address) -> (r: Result<
        (),
        MultisigError,
    >)
        requires
            old(self)@.wf(),
        ensures
            final(self)@.wf(),
            r is Ok <==> old(self)@.can_remove_signer(caller, signer_address),
            r is Ok ==> final(self)@ == old(self)@.remove_signer_next(signer_address),
            r matches Err(e) ==> final(self)@ == old(self)@ && e == old(
                self,
            )@.remove_signer_error(caller, signer_address),
    {
        if caller != self.admin {
            return Err(MultisigError::Unauthorized);
        }
        let i = match find_signer(&self.signers, signer_address) {
            None => {
                return Err(MultisigError::InvalidSigner);
            },
            Some(i) => i,
        };
        let active = count_active(&self.signers);
        let removing: usize = if self.signers[i].active {
            1
        } else {
            0
        };
        if (active as u64) < self.config.m as u64 + removing as u64 {
            return Err(MultisigError::InvalidMOfN);
        }
        proof {
            self.signers@.remove_ensures(i as int);
        }
        self.signers.remove(i);
        Ok(())
    }

    /// Proposes a transfer: consumes the proposer's nonce, derives the
    /// content id, and stores the transaction as `Proposed` with its expiry
    /// and, for amounts at or above the timelock threshold, its earliest
    /// execution time.
    pub fn propose_transaction(
        &mut self,
        to: Address,
        token: Address,
        amount: i128,
        data: Vec<u8>,
        proposer: Address,
        nonce: u64,
        now: u64,
    ) -> (r: Result<TxId, MultisigError>)
        requires
            old(self)@.wf(),
            now + old(self)@.config.timelock_duration <= u64::MAX,
            now + old(self)@.config.transaction_expiry <= u64::MAX,
        ensures
            final(self)@.wf(),
            r is Ok <==> old(self)@.can_propose(amount, proposer, nonce),
            r matches Ok(id) ==> id == old(self)@.proposed_id(
                to,
                token,
                amount,
                proposer,
                nonce,
                now,
            ) && final(self)@ == old(self)@.propose_next(
                to,
                token,
                amount,
                data@,
                proposer,
                nonce,
                now,
            ),
            r matches Err(e) ==> final(self)@ == old(self)@ && e == old(self)@.propose_error(
                amount,
                proposer,
                nonce,
            ),
    {
        if self.paused {
            return Err(MultisigError::ContractPaused);
        }
        if self.frozen {
            return Err(MultisigError::WalletFrozen);
        }
        let nidx = find_nonce(&self.nonces.used_nonces, proposer);
        if let Some(ni) = nidx {
            if nonce <= self.nonces.used_nonces[ni].nonce {
                return Err(MultisigError::NonceUsed);
            }
        }
        match find_signer(&self.signers, proposer) {
            None => {
                return Err(MultisigError::InvalidSigner);
            },
            Some(si) => {
                if !self.signers[si].active {
                    return Err(MultisigError::SignerNotActive);
                }
            },
        }
        if amount <= 0 {
            return Err(MultisigError::InvalidAmount);
        }

        let timelock_until: u64 = if amount >= self.config.timelock_threshold {
            now + self.config.timelock_duration
        } else {
            0
        };
        let id = TxId { to, token, amount, proposer, nonce, created_at: now };
        let tx = Transaction {
            id,
            to,
            token,
            amount,
            data,
            proposer,
            signatures: Vec::new(),
            status: TransactionStatus::Proposed,
            created_at: now,
            expires_at: now + self.config.transaction_expiry,
            timelock_until,
            batch_id: None,
        };
        let ghost prev = self@;
        let ghost txm = tx@;
        self.transactions.push(tx);
        match nidx {
            Some(ni) => self.nonces.used_nonces.set(
                ni,
                NonceEntry { address: proposer, nonce },
            ),
            None => self.nonces.used_nonces.push(NonceEntry { address: proposer, nonce }),
        }
        if timelock_until > 0 {
            self.timelock_queue.pending.push(id);
        }
        proof {
            let next = prev.propose_next(to, token, amount, data@, proposer, nonce, now);
            assert(txm.signatures =~= Seq::<Address>::empty());
            assert(txm == prev.proposed_tx(to, token, amount, data@, proposer, nonce, now));
            assert(self@.transactions =~= next.transactions);
            assert(self@.nonces.used_nonces =~= next.nonces.used_nonces);
            assert(self@ == next);
            crate::invariants::lemma_propose_next_wf(
                prev,
                to,
                token,
                amount,
                data@,
                proposer,
                nonce,
                now,
            );
        }
        Ok(id)
    }

    /// Adds `signer`'s signature to a live proposal and re-evaluates
    /// approval against the current registry: the transaction flips to
    /// `Approved` exactly when the accumulated weight of its currently
    /// active signatories reaches `m`.
    pub fn sign_transaction(&mut self, transaction_id: TxId, signer: Address, now: u64) -> (r:
        Result<(), MultisigError>)
        requires
            old(self)@.wf(),
        ensures
            final(self)@.wf(),
            r is Ok <==> old(self)@.can_sign_tx(transaction_id, signer, now),
            r is Ok ==> final(self)@ == old(self)@.sign_tx_next(transaction_id, signer),
            r matches Err(e) ==> final(self)@ == old(self)@ && e == old(self)@.sign_tx_error(
                transaction_id,
                signer,
                now,
            ),
    {
        let t = match find_tx(&self.transactions, transaction_id) {
            None => {
                return Err(MultisigError::TransactionNotFound);
            },
            Some(t) => t,
        };
        if self.transactions[t].status != TransactionStatus::Proposed {
            return Err(MultisigError::InvalidStatus);
        }
        if now > self.transactions[t].expires_at {
            return Err(MultisigError::TransactionExpired);
        }
        match find_signer(&self.signers, signer) {
            None => {
                return Err(MultisigError::InvalidSigner);
            },
            Some(si) => {
                if !self.signers[si].active {
                    return Err(MultisigError::SignerNotActive);
                }
            },
        }
        if contains_address(&self.transactions[t].signatures, signer) {
            return Err(MultisigError::AlreadySigned);
        }

        let ghost prev = self@;
        let ghost old_vec = self.transactions@;
        let mut tx = self.transactions.remove(t);
        tx.signatures.push(signer);
        let approved = {
            let w = approval_weight(&self.signers, &tx.signatures);
            w >= self.config.m as u128
        };
        if approved {
            tx.status = TransactionStatus::Approved;
        }
        let ghost txm = tx@;
        self.transactions.insert(t, tx);
        proof {
            old_vec.remove_ensures(t as int);
            old_vec.remove(t as int).insert_ensures(t as int, tx);
            assert(txs_view(self.transactions@) =~= prev.transactions.update(t as int, txm));
            assert(self@ == prev.sign_tx_next(transaction_id, signer));
            crate::invariants::lemma_sign_tx_next_wf(prev, transaction_id, signer, now);
        }
        Ok(())
    }

    /// Releases an approved, unexpired transaction whose timelock (if any)
    /// has passed and whose amount still fits under the day's spending cap:
    /// marks it `Executed`, charges the day, and hands back the transfer
    /// for the host's asset ledger to perform.  A transaction can never be
    /// released twice: this call alone moves it out of `Approved`.
    #[verifier::rlimit(50)]
    pub fn execute_transaction(&mut self, transaction_id: TxId, now: u64) -> (r: Result<
        Transfer,
        MultisigError,
    >)
        requires
            old(self)@.wf(),
        ensures
            final(self)@.wf(),
            r is Ok <==> old(self)@.can_execute(transaction_id, now),
            r matches Ok(tr) ==> tr == old(self)@.execute_transfer(transaction_id)
                && final(self)@ == old(self)@.execute_next(transaction_id, now),
            r matches Err(e) ==> final(self)@ == old(self)@ && e == old(self)@.execute_error(
                transaction_id,
                now,
            ),
    {
        let t = match find_tx(&self.transactions, transaction_id) {
            None => {
                return Err(MultisigError::TransactionNotFound);
            },
            Some(t) => t,
        };
        if self.transactions[t].status != TransactionStatus::Approved {
            return Err(MultisigError::InvalidStatus);
        }
        if now > self.transactions[t].expires_at {
            return Err(MultisigError::TransactionExpired);
        }
        if self.transactions[t].timelock_until > 0 && now < self.transactions[t].timelock_until {
            return Err(MultisigError::TimelockNotExpired);
        }
        let today = today_key(now);
        let amount = self.transactions[t].amount;
        proof {
            assert(txs_view(self.transactions@)[t as int].wf_in(self@.nonces.used_nonces));
        }
        let day_slot = find_day(&self.daily_spending, today);
        let (spent, limit) = match day_slot {
            Some(di) => (self.daily_spending[di].spent, self.daily_spending[di].limit),
            None => (0, self.config.daily_spending_limit),
        };
        proof {
            if day_slot is Some {
                assert(self@.daily[day_idx(self@.daily, today)].spent >= 0);
            }
        }
        if amount > limit || spent > limit - amount {
            return Err(MultisigError::DailySpendingLimitExceeded);
        }

        let ghost prev = self@;
        let ghost old_vec = self.transactions@;
        let mut tx = self.transactions.remove(t);
        tx.status = TransactionStatus::Executed;
        let transfer = Transfer { token: tx.token, to: tx.to, amount: tx.amount };
        let timelocked = tx.timelock_until > 0;
        let ghost txm = tx@;
        self.transactions.insert(t, tx);
        match day_slot {
            Some(di) => {
                let rec = self.daily_spending[di];
                self.daily_spending.set(
                    di,
                    DailySpending { spent: saturating_add_spent(rec.spent, amount), ..rec },
                );
            },
            None => {
                self.daily_spending.push(
                    DailySpending {
                        date: today,
                        spent: saturating_add_spent(0, amount),
                        limit: self.config.daily_spending_limit,
                    },
                );
            },
        }
        if timelocked {
            remove_first_txid(&mut self.timelock_queue.ready, transaction_id);
            self.timelock_queue.executed.push(transaction_id);
        }
        proof {
            old_vec.remove_ensures(t as int);
            old_vec.remove(t as int).insert_ensures(t as int, tx);
            assert(txs_view(self.transactions@) =~= prev.transactions.update(t as int, txm));
            assert(self@ == prev.execute_next(transaction_id, now));
            crate::invariants::lemma_execute_next_wf(prev, transaction_id, now);
        }
        Ok(transfer)
    }

    /// Groups already-proposed, untagged transactions under one additional
    /// weighted-signature gate: consumes the proposer's nonce, tags every
    /// member with the new batch id, and stores the batch as `Proposed`.
    pub fn propose_batch(
        &mut self,
        transactions: Vec<TxId>,
        proposer: Address,
        nonce: u64,
        now: u64,
    ) -> (r: Result<BatchId, MultisigError>)
        requires
            old(self)@.wf(),
            now + old(self)@.config.transaction_expiry <= u64::MAX,
        ensures
            final(self)@.wf(),
            r is Ok <==> old(self)@.can_propose_batch(transactions@, proposer, nonce),
            r matches Ok(bid) ==> bid == old(self)@.proposed_batch_id(proposer, nonce, now)
                && final(self)@ == old(self)@.propose_batch_next(
                transactions@,
                proposer,
                nonce,
                now,
            ),
            r matches Err(e) ==> final(self)@ == old(self)@ && e == old(
                self,
            )@.propose_batch_error(transactions@, proposer, nonce),
    {
        if self.paused {
            return Err(MultisigError::ContractPaused);
        }
        if self.frozen {
            return Err(MultisigError::WalletFrozen);
        }
        let nidx = find_nonce(&self.nonces.used_nonces, proposer);
        if let Some(ni) = nidx {
            if nonce <= self.nonces.used_nonces[ni].nonce {
                return Err(MultisigError::NonceUsed);
            }
        }
        match find_signer(&self.signers, proposer) {
            None => {
                return Err(MultisigError::InvalidSigner);
            },
            Some(si) => {
                if !self.signers[si].active {
                    return Err(MultisigError::SignerNotActive);
                }
            },
        }
        if transactions.len() > self.config.max_batch_size as usize {
            return Err(MultisigError::BatchSizeExceeded);
        }

        let ghost s0 = self@;
        let ghost ids = transactions@;
        let n = transactions.len();
        let mut k: usize = 0;
        proof {
            assert(ids.subrange(0, ids.len() as int) =~= ids);
        }
        while k < n
            invariant
                self@ == s0,
                s0.wf(),
                ids == transactions@,
                n == transactions.len(),
                k <= n,
                !s0.paused,
                !s0.frozen,
                nonce_fresh(s0.nonces.used_nonces, proposer, nonce),
                is_active_signer(s0.signers, proposer),
                ids.len() <= s0.config.max_batch_size,
                forall|j: int| 0 <= j < k ==> member_ok(s0, #[trigger] ids[j]),
                member_error(s0, ids) == member_error(
                    s0,
                    ids.subrange(k as int, ids.len() as int),
                ),
            decreases n - k,
        {
            let ghost suffix = ids.subrange(k as int, ids.len() as int);
            proof {
                assert(suffix[0] == ids[k as int]);
            }
            match find_tx(&self.transactions, transactions[k]) {
                None => {
                    return Err(MultisigError::TransactionNotFound);
                },
                Some(t) => {
                    if self.transactions[t].status != TransactionStatus::Proposed {
                        return Err(MultisigError::InvalidStatus);
                    }
                    if self.transactions[t].batch_id.is_some() {
                        return Err(MultisigError::InvalidBatch);
                    }
                },
            }
            proof {
                assert(member_ok(s0, ids[k as int]));
                assert(suffix.subrange(1, suffix.len() as int) =~= ids.subrange(
                    k as int + 1,
                    ids.len() as int,
                ));
            }
            k += 1;
        }
        proof {
            assert(members_ok(s0, ids));
        }

        let bid = BatchId { proposer, nonce, created_at: now };
        let ghost txs0 = s0.transactions;
        let mut k2: usize = 0;
        proof {
            assert(ids.subrange(0, ids.len() as int) =~= ids);
        }
        while k2 < n
            invariant
                self@ == (WalletM { transactions: self@.transactions, ..s0 }),
                ids == transactions@,
                n == transactions.len(),
                k2 <= n,
                txs0 == s0.transactions,
                self@.transactions.len() == txs0.len(),
                forall|j: int|
                    0 <= j < txs0.len() ==> (#[trigger] self@.transactions[j]).id == txs0[j].id,
                tag_members(self@.transactions, ids.subrange(k2 as int, ids.len() as int), bid)
                    == tag_members(txs0, ids, bid),
            decreases n - k2,
        {
            let ghost cur = self@.transactions;
            let ghost suffix = ids.subrange(k2 as int, ids.len() as int);
            proof {
                assert(suffix[0] == ids[k2 as int]);
            }
            match find_tx(&self.transactions, transactions[k2]) {
                Some(t) => {
                    let ghost old_vec = self.transactions@;
                    let mut tx = self.transactions.remove(t);
                    tx.batch_id = Some(bid);
                    let ghost txm = tx@;
                    self.transactions.insert(t, tx);
                    proof {
                        old_vec.remove_ensures(t as int);
                        old_vec.remove(t as int).insert_ensures(t as int, tx);
                        assert(txs_view(self.transactions@) =~= cur.update(t as int, txm));
                        assert(self@.transactions == tag_one(cur, ids[k2 as int], bid));
                    }
                },
                None => {
                    proof {
                        assert(tag_one(cur, ids[k2 as int], bid) == cur);
                    }
                },
            }
            proof {
                assert(suffix.subrange(1, suffix.len() as int) =~= ids.subrange(
                    k2 as int + 1,
                    ids.len() as int,
                ));
            }
            k2 += 1;
        }
        proof {
            assert(ids.subrange(n as int, ids.len() as int) =~= Seq::<TxId>::empty());
            assert(self@.transactions == tag_members(txs0, ids, bid));
        }

        let batch = Batch {
            id: bid,
            transactions,
            proposer,
            signatures: Vec::new(),
            status: BatchStatus::Proposed,
            created_at: now,
            expires_at: now + self.config.transaction_expiry,
        };
        let ghost bm = batch@;
        self.batches.push(batch);
        match nidx {
            Some(ni) => self.nonces.used_nonces.set(
                ni,
                NonceEntry { address: proposer, nonce },
            ),
            None => self.nonces.used_nonces.push(NonceEntry { address: proposer, nonce }),
        }
        proof {
            let next = s0.propose_batch_next(ids, proposer, nonce, now);
            assert(bm.signatures =~= Seq::<Address>::empty());
            assert(batches_view(self.batches@) =~= next.batches);
            assert(self@.nonces.used_nonces =~= next.nonces.used_nonces);
            assert(self@ == next);
            crate::invariants::lemma_propose_batch_next_wf(s0, ids, proposer, nonce, now);
        }
        Ok(bid)
    }

    /// Adds `signer`'s signature to a live batch, with the same weighted
    /// approval rule as [`Self::sign_transaction`], evaluated over the
    /// batch's own signature list.
    #[verifier::rlimit(50)]
    pub fn sign_batch(&mut self, batch_id: BatchId, signer: Address, now: u64) -> (r: Result<
        (),
        MultisigError,
    >)
        requires
            old(self)@.wf(),
        ensures
            final(self)@.wf(),
            r is Ok <==> old(self)@.can_sign_batch(batch_id, signer, now),
            r is Ok ==> final(self)@ == old(self)@.sign_batch_next(batch_id, signer),
            r matches Err(e) ==> final(self)@ == old(self)@ && e == old(self)@.sign_batch_error(
                batch_id,
                signer,
                now,
            ),
    {
        let b = match find_batch(&self.batches, batch_id) {
            None => {
                return Err(MultisigError::BatchNotFound);
            },
            Some(b) => b,
        };
        if self.batches[b].status != BatchStatus::Proposed {
            return Err(MultisigError::InvalidStatus);
        }
        if now > self.batches[b].expires_at {
            return Err(MultisigError::BatchExpired);
        }
        match find_signer(&self.signers, signer) {
            None => {
                return Err(MultisigError::InvalidSigner);
            },
            Some(si) => {
                if !self.signers[si].active {
                    return Err(MultisigError::SignerNotActive);
                }
            },
        }
        if contains_address(&self.batches[b].signatures, signer) {
            return Err(MultisigError::AlreadySigned);
        }

        let ghost prev = self@;
        let ghost old_vec = self.batches@;
        let mut batch = self.batches.remove(b);
        batch.signatures.push(signer);
        let approved = {
            let w = approval_weight(&self.signers, &batch.signatures);
            w >= self.config.m as u128
        };
        if approved {
            batch.status = BatchStatus::Approved;
        }
        let ghost bm = batch@;
        self.batches.insert(b, batch);
        proof {
            old_vec.remove_ensures(b as int);
            old_vec.remove(b as int).insert_ensures(b as int, batch);
            assert(batches_view(self.batches@) =~= prev.batches.update(b as int, bm));
            assert(self@ == prev.sign_batch_next(batch_id, signer));
            crate::invariants::lemma_sign_batch_next_wf(prev, batch_id, signer, now);
        }
        Ok(())
    }

    /// Executes an approved, unexpired batch best-effort: each member that
    /// is itself `Approved` is executed (status flip plus daily-spending
    /// charge) and contributes a transfer; members still lacking their own
    /// signatures are skipped and stay as they are.  The batch is marked
    /// `Executed` afterwards regardless of how many members ran.
    #[verifier::rlimit(50)]
    pub fn execute_batch(&mut self, batch_id: BatchId, now: u64) -> (r: Result<
        Vec<Transfer>,
        MultisigError,
    >)
        requires
            old(self)@.wf(),
        ensures
            final(self)@.wf(),
            r is Ok <==> old(self)@.can_execute_batch(batch_id, now),
            r matches Ok(ts) ==> ts@ == old(self)@.execute_batch_transfers(batch_id, now)
                && final(self)@ == old(self)@.execute_batch_next(batch_id, now),
            r matches Err(e) ==> final(self)@ == old(self)@ && e == old(
                self,
            )@.execute_batch_error(batch_id, now),
    {
        let b = match find_batch(&self.batches, batch_id) {
            None => {
                return Err(MultisigError::BatchNotFound);
            },
            Some(b) => b,
        };
        if self.batches[b].status != BatchStatus::Approved {
            return Err(MultisigError::InvalidStatus);
        }
        if now > self.batches[b].expires_at {
            return Err(MultisigError::BatchExpired);
        }
        let today = today_key(now);
        let ghost s0 = self@;
        let members = clone_txids(&self.batches[b].transactions);
        let ghost ids = members@;
        let n = members.len();
        let mut transfers: Vec<Transfer> = Vec::new();
        let mut k: usize = 0;
        proof {
            assert(ids.subrange(0, ids.len() as int) =~= ids);
            assert(transfers@ + exec_transfers(self@, ids, today) =~= exec_transfers(
                self@,
                ids,
                today,
            ));
        }
        while k < n
            invariant
                k <= n,
                n == members.len(),
                ids == members@,
                today == day_of(now),
                self@.wf(),
                self@.admin == s0.admin,
                self@.config == s0.config,
                self@.paused == s0.paused,
                self@.version == s0.version,
                self@.frozen == s0.frozen,
                self@.unfreeze_time == s0.unfreeze_time,
                self@.signers == s0.signers,
                self@.nonces == s0.nonces,
                self@.queue == s0.queue,
                self@.batches == s0.batches,
                exec_members(self@, ids.subrange(k as int, ids.len() as int), today)
                    == exec_members(s0, ids, today),
                transfers@ + exec_transfers(self@, ids.subrange(k as int, ids.len() as int), today)
                    == exec_transfers(s0, ids, today),
            decreases n - k,
        {
            let ghost cur = self@;
            let ghost suffix = ids.subrange(k as int, ids.len() as int);
            let ghost transfers0 = transfers@;
            proof {
                assert(suffix[0] == ids[k as int]);
            }
            match find_tx(&self.transactions, members[k]) {
                Some(t) => {
                    if self.transactions[t].status == TransactionStatus::Approved {
                        proof {
                            assert(cur.transactions[t as int].wf_in(cur.nonces.used_nonces));
                        }
                        let ghost old_vec = self.transactions@;
                        let mut tx = self.transactions.remove(t);
                        tx.status = TransactionStatus::Executed;
                        let amount = tx.amount;
                        transfers.push(Transfer { token: tx.token, to: tx.to, amount });
                        let ghost txm = tx@;
                        self.transactions.insert(t, tx);
                        let day_slot = find_day(&self.daily_spending, today);
                        match day_slot {
                            Some(di) => {
                                let rec = self.daily_spending[di];
                                proof {
                                    assert(cur.daily[di as int].spent >= 0);
                                }
                                self.daily_spending.set(
                                    di,
                                    DailySpending {
                                        spent: saturating_add_spent(rec.spent, amount),
                                        ..rec
                                    },
                                );
                            },
                            None => {
                                self.daily_spending.push(
                                    DailySpending {
                                        date: today,
                                        spent: saturating_add_spent(0, amount),
                                        limit: self.config.daily_spending_limit,
                                    },
                                );
                            },
                        }
                        proof {
                            old_vec.remove_ensures(t as int);
                            old_vec.remove(t as int).insert_ensures(t as int, tx);
                            assert(txs_view(self.transactions@) =~= cur.transactions.update(
                                t as int,
                                txm,
                            ));
                            assert(self@ == exec_member(cur, ids[k as int], today));
                            assert(transfers@ =~= transfers0 + member_transfer(
                                cur,
                                ids[k as int],
                            ));
                            crate::invariants::lemma_exec_member_wf(cur, ids[k as int], today);
                        }
                    } else {
                        proof {
                            assert(exec_member(cur, ids[k as int], today) == cur);
                            assert(transfers@ =~= transfers0 + member_transfer(
                                cur,
                                ids[k as int],
                            ));
                        }
                    }
                },
                None => {
                    proof {
                        assert(exec_member(cur, ids[k as int], today) == cur);
                        assert(transfers@ =~= transfers0 + member_transfer(cur, ids[k as int]));
                    }
                },
            }
            proof {
                assert(suffix.subrange(1, suffix.len() as int) =~= ids.subrange(
                    k as int + 1,
                    ids.len() as int,
                ));
                assert((transfers0 + member_transfer(cur, ids[k as int])) + exec_transfers(
                    self@,
                    ids.subrange(k as int + 1, ids.len() as int),
                    today,
                ) =~= transfers0 + (member_transfer(cur, ids[k as int]) + exec_transfers(
                    self@,
                    ids.subrange(k as int + 1, ids.len() as int),
                    today,
                )));
            }
            k += 1;
        }
        proof {
            assert(ids.subrange(n as int, ids.len() as int) =~= Seq::<TxId>::empty());
            assert(transfers@ + Seq::<Transfer>::empty() =~= transfers@);
        }

        let ghost cur_final = self@;
        let ghost old_bvec = self.batches@;
        let mut batch = self.batches.remove(b);
        batch.status = BatchStatus::Executed;
        let ghost bm = batch@;
        self.batches.insert(b, batch);
        proof {
            old_bvec.remove_ensures(b as int);
            old_bvec.remove(b as int).insert_ensures(b as int, batch);
            assert(batches_view(self.batches@) =~= cur_final.batches.update(b as int, bm));
            assert(self@ == s0.execute_batch_next(batch_id, now));
            crate::invariants::lemma_batch_update_wf(cur_final, b as int, bm);
        }
        Ok(transfers)
    }

    // ------------------------------------------------------------------
    // Read-only accessors
    // ------------------------------------------------------------------

    /// Looks a transaction up by its id.
    pub fn get_transaction(&self, transaction_id: TxId) -> (r: Result<Transaction, MultisigError>)
        ensures
            r is Ok <==> self@.has_tx(transaction_id),
            r matches Ok(tx) ==> tx@ == self@.tx_of(transaction_id),
            r matches Err(e) ==> e == MultisigError::TransactionNotFound,
    {
        match find_tx(&self.transactions, transaction_id) {
            None => Err(MultisigError::TransactionNotFound),
            Some(t) => Ok(clone_transaction(&self.transactions[t])),
        }
    }

    /// Looks a batch up by its id.
    pub fn get_batch(&self, batch_id: BatchId) -> (r: Result<Batch, MultisigError>)
        ensures
            r is Ok <==> self@.has_batch(batch_id),
            r matches Ok(b) ==> b@ == self@.batch_of(batch_id),
            r matches Err(e) ==> e == MultisigError::BatchNotFound,
    {
        match find_batch(&self.batches, batch_id) {
            None => Err(MultisigError::BatchNotFound),
            Some(b) => Ok(clone_batch(&self.batches[b])),
        }
    }

    /// The spending record of the day containing `now`; a day nothing has
    /// been charged to yet reads as zero spent under the configured cap.
    pub fn get_daily_spending(&self, now: u64) -> (r: DailySpending)
        ensures
            day_idx(self@.daily, day_of(now)) != -1 ==> r == self@.daily[day_idx(
                self@.daily,
                day_of(now),
            )],
            day_idx(self@.daily, day_of(now)) == -1 ==> r == (DailySpending {
                date: day_of(now),
                spent: 0,
                limit: self@.config.daily_spending_limit,
            }),
    {
        let today = today_key(now);
        match find_day(&self.daily_spending, today) {
            Some(di) => self.daily_spending[di],
            None => DailySpending {
                date: today,
                spent: 0,
                limit: self.config.daily_spending_limit,
            },
        }
    }

    pub fn get_config(&self) -> (r: WalletConfig)
        ensures
            r == self@.config,
    {
        self.config
    }

    pub fn get_signers(&self) -> (r: Vec<Signer>)
        ensures
            r@ == self@.signers,
    {
        self.signers.clone()
    }

    /// The registered weight of an identity, `None` for a stranger.
    pub fn weight_of(&self, identity: Address) -> (r: Option<u32>)
        ensures
            signer_idx(self@.signers, identity) == -1 <==> r is None,
            signer_idx(self@.signers, identity) != -1 ==> r == Some(
                self@.signers[signer_idx(self@.signers, identity)].weight,
            ),
    {
        match find_signer(&self.signers, identity) {
            Some(i) => Some(self.signers[i].weight),
            None => None,
        }
    }

    /// Whether an identity is a registered, active signer.
    pub fn is_active(&self, identity: Address) -> (r: bool)
        ensures
            r == is_active_signer(self@.signers, identity),
    {
        match find_signer(&self.signers, identity) {
            Some(i) => self.signers[i].active,
            None => false,
        }
    }

    pub fn is_frozen(&self) -> (r: bool)
        ensures
            r == self@.frozen,
    {
        self.frozen
    }

    pub fn version(&self) -> (r: u32)
        ensures
            r == self@.version,
    {
        self.version
    }
}

// ------------------------------------------------------------------
// Lookup and arithmetic helpers
// ------------------------------------------------------------------

fn find_signer(signers: &Vec<Signer>, a: Address) -> (r: Option<usize>)
    ensures
        r matches Some(i) ==> signer_idx(signers@, a) == i as int && i < signers@.len(),
        r is None ==> signer_idx(signers@, a) == -1,
{
    let mut i: usize = 0;
    while i < signers.len()
        invariant
            i <= signers@.len(),
            forall|j: int| 0 <= j < i ==> signers@[j].address != a,
        decreases signers@.len() - i,
    {
        if signers[i].address == a {
            proof {
                lemma_signer_idx(signers@, a);
            }
            return Some(i);
        }
        i += 1;
    }
    proof {
        lemma_signer_idx(signers@, a);
    }
    None
}

fn find_nonce(entries: &Vec<NonceEntry>, a: Address) -> (r: Option<usize>)
    ensures
        r matches Some(i) ==> nonce_idx(entries@, a) == i as int && i < entries@.len(),
        r is None ==> nonce_idx(entries@, a) == -1,
{
    let mut i: usize = 0;
    while i < entries.len()
        invariant
            i <= entries@.len(),
            forall|j: int| 0 <= j < i ==> entries@[j].address != a,
        decreases entries@.len() - i,
    {
        if entries[i].address == a {
            proof {
                lemma_nonce_idx(entries@, a);
            }
            return Some(i);
        }
        i += 1;
    }
    proof {
        lemma_nonce_idx(entries@, a);
    }
    None
}

fn find_tx(txs: &Vec<Transaction>, id: TxId) -> (r: Option<usize>)
    ensures
        r matches Some(i) ==> tx_idx(txs_view(txs@), id) == i as int && i < txs@.len(),
        r is None ==> tx_idx(txs_view(txs@), id) == -1,
{
    let mut i: usize = 0;
    while i < txs.len()
        invariant
            i <= txs@.len(),
            forall|j: int| 0 <= j < i ==> txs_view(txs@)[j].id != id,
        decreases txs@.len() - i,
    {
        if txs[i].id == id {
            proof {
                assert(txs_view(txs@)[i as int].id == id);
                lemma_tx_idx(txs_view(txs@), id);
            }
            return Some(i);
        }
        i += 1;
    }
    proof {
        lemma_tx_idx(txs_view(txs@), id);
    }
    None
}

fn find_batch(batches: &Vec<Batch>, id: BatchId) -> (r: Option<usize>)
    ensures
        r matches Some(i) ==> batch_idx(batches_view(batches@), id) == i as int && i
            < batches@.len(),
        r is None ==> batch_idx(batches_view(batches@), id) == -1,
{
    let mut i: usize = 0;
    while i < batches.len()
        invariant
            i <= batches@.len(),
            forall|j: int| 0 <= j < i ==> batches_view(batches@)[j].id != id,
        decreases batches@.len() - i,
    {
        if batches[i].id == id {
            proof {
                assert(batches_view(batches@)[i as int].id == id);
                lemma_batch_idx(batches_view(batches@), id);
            }
            return Some(i);
        }
        i += 1;
    }
    proof {
        lemma_batch_idx(batches_view(batches@), id);
    }
    None
}

fn find_day(days: &Vec<DailySpending>, date: u64) -> (r: Option<usize>)
    ensures
        r matches Some(i) ==> day_idx(days@, date) == i as int && i < days@.len(),
        r is None ==> day_idx(days@, date) == -1,
{
    let mut i: usize = 0;
    while i < days.len()
        invariant
            i <= days@.len(),
            forall|j: int| 0 <= j < i ==> days@[j].date != date,
        decreases days@.len() - i,
    {
        if days[i].date == date {
            proof {
                lemma_day_idx(days@, date);
            }
            return Some(i);
        }
        i += 1;
    }
    proof {
        lemma_day_idx(days@, date);
    }
    None
}

fn contains_address(addrs: &Vec<Address>, a: Address) -> (r: bool)
    ensures
        r == addrs@.contains(a),
{
    let mut i: usize = 0;
    while i < addrs.len()
        invariant
            i <= addrs@.len(),
            forall|j: int| 0 <= j < i ==> addrs@[j] != a,
        decreases addrs@.len() - i,
    {
        if addrs[i] == a {
            return true;
        }
        i += 1;
    }
    false
}

/// How many registered signers are currently active.
fn count_active(signers: &Vec<Signer>) -> (c: usize)
    ensures
        c as int == active_count(signers@),
        c <= signers@.len(),
{
    let ghost all = signers@;
    let mut c: usize = 0;
    let mut i: usize = 0;
    proof {
        assert(all.subrange(0, all.len() as int) =~= all);
    }
    while i < signers.len()
        invariant
            i <= all.len(),
            signers@ == all,
            c <= i,
            c as int + active_count(all.subrange(i as int, all.len() as int)) == active_count(
                all,
            ),
        decreases all.len() - i,
    {
        proof {
            let suffix = all.subrange(i as int, all.len() as int);
            assert(suffix[0] == all[i as int]);
            assert(suffix.subrange(1, suffix.len() as int) =~= all.subrange(
                i as int + 1,
                all.len() as int,
            ));
        }
        if signers[i].active {
            c += 1;
        }
        i += 1;
    }
    proof {
        assert(all.subrange(all.len() as int, all.len() as int) =~= Seq::<Signer>::empty());
        assert(active_count(Seq::<Signer>::empty()) == 0);
    }
    c
}

/// The weight one signature currently contributes, read from the live
/// registry.
fn signature_weight(signers: &Vec<Signer>, a: Address) -> (w: u32)
    ensures
        w as int == signer_weight(signers@, a),
{
    match find_signer(signers, a) {
        Some(i) => {
            let s = signers[i];
            if s.active {
                s.weight
            } else {
                0
            }
        },
        None => 0,
    }
}

/// Accumulated weight of a signature list against the live registry.
fn approval_weight(signers: &Vec<Signer>, sigs: &Vec<Address>) -> (w: u128)
    ensures
        w as int == signed_weight(signers@, sigs@),
{
    let ghost all = sigs@;
    let mut w: u128 = 0;
    let mut i: usize = 0;
    proof {
        assert(all.subrange(0, all.len() as int) =~= all);
    }
    while i < sigs.len()
        invariant
            i <= sigs@.len(),
            sigs@ == all,
            w as int + signed_weight(signers@, all.subrange(i as int, all.len() as int))
                == signed_weight(signers@, all),
            w as int <= i * (u32::MAX as int),
        decreases sigs@.len() - i,
    {
        let dw = signature_weight(signers, sigs[i]);
        proof {
            let suffix = all.subrange(i as int, all.len() as int);
            assert(suffix[0] == all[i as int]);
            assert(suffix.subrange(1, suffix.len() as int) =~= all.subrange(
                i as int + 1,
                all.len() as int,
            ));
        }
        w = w + dw as u128;
        i += 1;
    }
    proof {
        assert(all.subrange(all.len() as int, all.len() as int) =~= Seq::<Address>::empty());
        assert(signed_weight(signers@, Seq::<Address>::empty()) == 0);
    }
    w
}

/// Addition on spent amounts, clipped at the machine bound.
fn saturating_add_spent(a: i128, b: i128) -> (r: i128)
    requires
        a >= 0,
        b >= 0,
    ensures
        r == sat_add(a, b),
{
    if b > i128::MAX - a {
        i128::MAX
    } else {
        a + b
    }
}

fn clone_bytes(v: &Vec<u8>) -> (r: Vec<u8>)
    ensures
        r@ == v@,
{
    let mut r: Vec<u8> = Vec::new();
    let mut i: usize = 0;
    while i < v.len()
        invariant
            i <= v@.len(),
            r@ == v@.subrange(0, i as int),
        decreases v@.len() - i,
    {
        r.push(v[i]);
        proof {
            assert(r@ =~= v@.subrange(0, i + 1));
        }
        i += 1;
    }
    proof {
        assert(r@ =~= v@);
    }
    r
}

fn clone_addresses(v: &Vec<Address>) -> (r: Vec<Address>)
    ensures
        r@ == v@,
{
    let mut r: Vec<Address> = Vec::new();
    let mut i: usize = 0;
    while i < v.len()
        invariant
            i <= v@.len(),
            r@ == v@.subrange(0, i as int),
        decreases v@.len() - i,
    {
        r.push(v[i]);
        proof {
            assert(r@ =~= v@.subrange(0, i + 1));
        }
        i += 1;
    }
    proof {
        assert(r@ =~= v@);
    }
    r
}

fn clone_txids(v: &Vec<TxId>) -> (r: Vec<TxId>)
    ensures
        r@ == v@,
{
    let mut r: Vec<TxId> = Vec::new();
    let mut i: usize = 0;
    while i < v.len()
        invariant
            i <= v@.len(),
            r@ == v@.subrange(0, i as int),
        decreases v@.len() - i,
    {
        r.push(v[i]);
        proof {
            assert(r@ =~= v@.subrange(0, i + 1));
        }
        i += 1;
    }
    proof {
        assert(r@ =~= v@);
    }
    r
}

/// A copy of a stored transaction whose model is provably the original's.
fn clone_transaction(tx: &Transaction) -> (r: Transaction)
    ensures
        r@ == tx@,
{
    Transaction {
        id: tx.id,
        to: tx.to,
        token: tx.token,
        amount: tx.amount,
        data: clone_bytes(&tx.data),
        proposer: tx.proposer,
        signatures: clone_addresses(&tx.signatures),
        status: tx.status,
        created_at: tx.created_at,
        expires_at: tx.expires_at,
        timelock_until: tx.timelock_until,
        batch_id: tx.batch_id,
    }
}

/// A copy of a stored batch whose model is provably the original's.
fn clone_batch(b: &Batch) -> (r: Batch)
    ensures
        r@ == b@,
{
    Batch {
        id: b.id,
        transactions: clone_txids(&b.transactions),
        proposer: b.proposer,
        signatures: clone_addresses(&b.signatures),
        status: b.status,
        created_at: b.created_at,
        expires_at: b.expires_at,
    }
}

/// Drops the first queue entry equal to `id`, if one is present.
fn remove_first_txid(ids: &mut Vec<TxId>, id: TxId)
    ensures
        final(ids)@ == crate::model::remove_first_id(old(ids)@, id),
{
    let mut i: usize = 0;
    while i < ids.len()
        invariant
            i <= ids@.len(),
            ids@ == old(ids)@,
            forall|j: int| 0 <= j < i ==> ids@[j] != id,
        decreases ids@.len() - i,
    {
        if ids[i] == id {
            proof {
                crate::model::lemma_txid_pos(ids@, id);
            }
            ids.remove(i);
            return ;
        }
        i += 1;
    }
    proof {
        crate::model::lemma_txid_pos(ids@, id);
    }
}

/// Start of the UTC calendar day containing `now`.
fn today_key(now: u64) -> (d: u64)
    ensures
        d == day_of(now),
        d <= now,
{
    let q = now / SECONDS_PER_DAY;
    proof {
        lemma_fundamental_div_mod(now as int, SECONDS_PER_DAY as int);
        lemma_mod_bound(now as int, SECONDS_PER_DAY as int);
        assert(q as int * (SECONDS_PER_DAY as int) <= now as int);
    }
    q * SECONDS_PER_DAY
}

} // verus!
