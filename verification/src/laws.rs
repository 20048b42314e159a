//! The financial-safety laws of the engine, each stated over the model and
//! proved from the definitions alone.  The executable operations promise in
//! their contracts to implement exactly these model functions, so every law
//! here holds of the running wallet.

use vstd::prelude::*;

use crate::invariants::{
    lemma_exec_members_props, lemma_execute_next_wf, lemma_propose_next_wf, lemma_sign_tx_next_wf,
};
use crate::model::{
    batch_idx, can_initialize, day_of, lemma_batch_idx, lemma_batch_idx_same_ids, lemma_day_idx,
    lemma_record_nonce, lemma_signer_idx, lemma_tx_idx, lemma_tx_idx_same_ids, limit_on,
    nonce_fresh, signed_weight, signer_idx, signer_weight, spent_on, tx_idx,
    valid_config, WalletM,
};
use crate::storage_types::{Address, BatchId, MultisigError, TxId, WalletConfig};

verus! {

/// Every configuration the wallet accepts has a satisfiable threshold
/// scheme (`1 <= m <= n`) and every limit strictly positive, the time
/// windows included; initialization refuses every configuration that does
/// not.
pub proof fn law_config_validity(config: WalletConfig, initial_signers: Seq<Address>)
    ensures
        valid_config(config) ==> 1 <= config.m <= config.n && config.daily_spending_limit > 0
            && config.timelock_threshold > 0 && config.max_batch_size >= 1
            && config.timelock_duration >= 1 && config.transaction_expiry >= 1
            && config.emergency_freeze_duration >= 1,
        !valid_config(config) ==> !can_initialize(config, initial_signers),
{
}

/// Weighted approval: a signature event flips the transaction to
/// `Approved` exactly when the accumulated weight of the identities on it,
/// each weighed against the registry as it is *now*, reaches `m`.
pub proof fn law_sign_approval(s: WalletM, id: TxId, signer: Address, now: u64)
    requires
        s.wf(),
        s.can_sign_tx(id, signer, now),
    ensures
        s.sign_tx_next(id, signer).tx_of(id).status is Approved <==> signed_weight(
            s.signers,
            s.tx_of(id).signatures.push(signer),
        ) >= s.config.m,
        s.sign_tx_next(id, signer).tx_of(id).status is Approved || s.sign_tx_next(
            id,
            signer,
        ).tx_of(id).status is Proposed,
        s.sign_tx_next(id, signer).tx_of(id).signatures == s.tx_of(id).signatures.push(signer),
{
    lemma_sign_tx_next_wf(s, id, signer, now);
    lemma_tx_idx(s.transactions, id);
}

/// Removing a signer revokes its contribution from that moment on: its
/// identity weighs nothing against the updated registry, so a signature it
/// left behind no longer counts at the next approval evaluation.
pub proof fn law_removal_revokes_weight(s: WalletM, caller: Address, a: Address)
    requires
        s.wf(),
        s.can_remove_signer(caller, a),
    ensures
        signer_weight(s.remove_signer_next(a).signers, a) == 0,
{
    let i = signer_idx(s.signers, a);
    lemma_signer_idx(s.signers, a);
    let r = s.remove_signer_next(a).signers;
    s.signers.remove_ensures(i);
    lemma_signer_idx(r, a);
    if signer_idx(r, a) != -1 {
        let j = signer_idx(r, a);
        assert(r[j].address == a);
        if j < i {
            assert(r[j] == s.signers[j]);
        } else {
            assert(r[j] == s.signers[j + 1]);
        }
        assert(false);
    }
}

/// Replay protection: once identity `a` has consumed a nonce, no proposal
/// by `a` with that nonce or a lower one is ever accepted again, while the
/// next higher nonce passes the freshness check.
pub proof fn law_nonce_replay(
    s: WalletM,
    to: Address,
    token: Address,
    amount: i128,
    data: Seq<u8>,
    proposer: Address,
    nonce: u64,
    now: u64,
    amount2: i128,
    nonce2: u64,
)
    requires
        s.wf(),
        s.can_propose(amount, proposer, nonce),
    ensures
        nonce2 <= nonce ==> !s.propose_next(to, token, amount, data, proposer, nonce, now).can_propose(
            amount2,
            proposer,
            nonce2,
        ),
        nonce2 <= nonce && !s.paused && !s.frozen ==> s.propose_next(
            to,
            token,
            amount,
            data,
            proposer,
            nonce,
            now,
        ).propose_error(amount2, proposer, nonce2) == MultisigError::NonceUsed,
        nonce2 > nonce ==> nonce_fresh(
            s.propose_next(to, token, amount, data, proposer, nonce, now).nonces.used_nonces,
            proposer,
            nonce2,
        ),
{
    lemma_record_nonce(s.nonces.used_nonces, proposer, nonce);
}

/// Single-shot execution: once a transaction has executed, a second
/// execution attempt at any time is refused with `InvalidStatus`, so value
/// can never be released twice for one id.
pub proof fn law_execute_once(s: WalletM, id: TxId, now: u64, now2: u64)
    requires
        s.wf(),
        s.can_execute(id, now),
    ensures
        !s.execute_next(id, now).can_execute(id, now2),
        s.execute_next(id, now).execute_error(id, now2) == MultisigError::InvalidStatus,
{
    lemma_execute_next_wf(s, id, now);
    lemma_tx_idx(s.transactions, id);
    let next = s.execute_next(id, now);
    let t = tx_idx(s.transactions, id);
    assert(tx_idx(next.transactions, id) == t);
    assert(next.transactions[t].status is Executed);
}

/// The daily cap: after an execution of amount `a`, a same-day execution
/// of amount `b` with `a + b` over the day's cap is refused with
/// `DailySpendingLimitExceeded`, however many signatures it carries.
pub proof fn law_daily_cap_same_day(s: WalletM, id1: TxId, id2: TxId, now1: u64, now2: u64)
    requires
        s.wf(),
        s.can_execute(id1, now1),
        day_of(now2) == day_of(now1),
        s.execute_next(id1, now1).has_tx(id2),
        s.execute_next(id1, now1).tx_of(id2).status is Approved,
        now2 <= s.execute_next(id1, now1).tx_of(id2).expires_at,
        s.execute_next(id1, now1).tx_of(id2).timelock_until > 0 ==> now2 >= s.execute_next(
            id1,
            now1,
        ).tx_of(id2).timelock_until,
        s.tx_of(id1).amount + s.execute_next(id1, now1).tx_of(id2).amount > limit_on(
            s.daily,
            day_of(now1),
            s.config.daily_spending_limit,
        ),
    ensures
        !s.execute_next(id1, now1).can_execute(id2, now2),
        s.execute_next(id1, now1).execute_error(id2, now2)
            == MultisigError::DailySpendingLimitExceeded,
{
    lemma_execute_next_wf(s, id1, now1);
    let next = s.execute_next(id1, now1);
    let date = day_of(now1);
    lemma_day_idx(s.daily, date);
    assert(spent_on(s.daily, date) >= 0);
    assert(spent_on(next.daily, date) == spent_on(s.daily, date) + s.tx_of(id1).amount);
    assert(spent_on(next.daily, date) + next.tx_of(id2).amount > limit_on(
        next.daily,
        date,
        next.config.daily_spending_limit,
    ));
}

/// The cap is a *daily* cap: spending charged to one calendar day leaves
/// every other day's budget untouched, so the refused amount goes through
/// on a fresh day whose accumulated spending still has room for it.
pub proof fn law_daily_cap_next_day(s: WalletM, id1: TxId, id2: TxId, now1: u64, now3: u64)
    requires
        s.wf(),
        s.can_execute(id1, now1),
        day_of(now3) != day_of(now1),
        s.execute_next(id1, now1).has_tx(id2),
        s.execute_next(id1, now1).tx_of(id2).status is Approved,
        now3 <= s.execute_next(id1, now1).tx_of(id2).expires_at,
        s.execute_next(id1, now1).tx_of(id2).timelock_until > 0 ==> now3 >= s.execute_next(
            id1,
            now1,
        ).tx_of(id2).timelock_until,
        spent_on(s.daily, day_of(now3)) + s.execute_next(id1, now1).tx_of(id2).amount <= limit_on(
            s.daily,
            day_of(now3),
            s.config.daily_spending_limit,
        ),
    ensures
        s.execute_next(id1, now1).can_execute(id2, now3),
{
    lemma_execute_next_wf(s, id1, now1);
}

/// Proposing stamps the timelock: an amount at or above the threshold may
/// not run before `created_at + timelock_duration`; a smaller amount
/// carries no timelock at all.
pub proof fn law_timelock_stamped(
    s: WalletM,
    to: Address,
    token: Address,
    amount: i128,
    data: Seq<u8>,
    proposer: Address,
    nonce: u64,
    now: u64,
)
    requires
        s.wf(),
        s.can_propose(amount, proposer, nonce),
        now + s.config.timelock_duration <= u64::MAX,
        now + s.config.transaction_expiry <= u64::MAX,
    ensures
        amount >= s.config.timelock_threshold ==> s.propose_next(
            to,
            token,
            amount,
            data,
            proposer,
            nonce,
            now,
        ).tx_of(s.proposed_id(to, token, amount, proposer, nonce, now)).timelock_until == now
            + s.config.timelock_duration,
        amount < s.config.timelock_threshold ==> s.propose_next(
            to,
            token,
            amount,
            data,
            proposer,
            nonce,
            now,
        ).tx_of(s.proposed_id(to, token, amount, proposer, nonce, now)).timelock_until == 0,
{
    lemma_propose_next_wf(s, to, token, amount, data, proposer, nonce, now);
}

/// The timelock blocks execution: a transaction whose earliest execution
/// time has not yet arrived cannot run, and once it is approved and within
/// its expiry window the refusal is reported as `TimelockNotExpired`.
pub proof fn law_timelock_gates_execution(s: WalletM, id: TxId, now: u64)
    requires
        s.wf(),
        s.has_tx(id),
        s.tx_of(id).timelock_until > 0,
        now < s.tx_of(id).timelock_until,
    ensures
        !s.can_execute(id, now),
        s.tx_of(id).status is Approved && now <= s.tx_of(id).expires_at ==> s.execute_error(
            id,
            now,
        ) == MultisigError::TimelockNotExpired,
{
}

/// From the stamped instant on, the timelock no longer stands in the way:
/// an approved, unexpired transaction within the day's budget is
/// executable at or after `timelock_until`.
pub proof fn law_timelock_release(s: WalletM, id: TxId, now: u64)
    requires
        s.wf(),
        s.has_tx(id),
        s.tx_of(id).status is Approved,
        now <= s.tx_of(id).expires_at,
        now >= s.tx_of(id).timelock_until,
        spent_on(s.daily, day_of(now)) + s.tx_of(id).amount <= limit_on(
            s.daily,
            day_of(now),
            s.config.daily_spending_limit,
        ),
    ensures
        s.can_execute(id, now),
{
}

/// Best-effort batches: executing an approved batch executes exactly those
/// members that are themselves `Approved`; a member still `Proposed` is
/// left exactly as it was, and the batch itself ends `Executed` either
/// way.
pub proof fn law_batch_best_effort(s: WalletM, bid: BatchId, now: u64)
    requires
        s.wf(),
        s.can_execute_batch(bid, now),
    ensures
        s.execute_batch_next(bid, now).has_batch(bid),
        s.execute_batch_next(bid, now).batch_of(bid).status is Executed,
        forall|k: int|
            0 <= k < s.batch_of(bid).transactions.len() ==> {
                let mid = #[trigger] s.batch_of(bid).transactions[k];
                &&& s.execute_batch_next(bid, now).has_tx(mid)
                &&& (s.tx_of(mid).status is Approved ==> s.execute_batch_next(bid, now).tx_of(
                    mid,
                ).status is Executed)
                &&& (s.tx_of(mid).status is Proposed ==> s.execute_batch_next(bid, now).tx_of(mid)
                    == s.tx_of(mid))
            },
{
    let b = batch_idx(s.batches, bid);
    lemma_batch_idx(s.batches, bid);
    let ids = s.batches[b].transactions;
    let next = s.execute_batch_next(bid, now);
    lemma_exec_members_props(s, ids, day_of(now));
    assert forall|other: BatchId| batch_idx(#[trigger] next.batches, other) == batch_idx(
        s.batches,
        other,
    ) by {
        lemma_batch_idx_same_ids(next.batches, s.batches, other);
    }
    assert(next.batch_of(bid).status is Executed);
    assert forall|k: int| 0 <= k < s.batch_of(bid).transactions.len() implies {
        let mid = #[trigger] s.batch_of(bid).transactions[k];
        &&& next.has_tx(mid)
        &&& (s.tx_of(mid).status is Approved ==> next.tx_of(mid).status is Executed)
        &&& (s.tx_of(mid).status is Proposed ==> next.tx_of(mid) == s.tx_of(mid))
    } by {
        let mid = s.batches[b].transactions[k];
        let t = tx_idx(s.transactions, mid);
        assert(t != -1 && s.transactions[t].batch_id == Some(s.batches[b].id));
        lemma_tx_idx(s.transactions, mid);
        lemma_tx_idx_same_ids(next.transactions, s.transactions, mid);
        assert(ids.contains(s.transactions[t].id)) by {
            assert(ids[k] == s.transactions[t].id);
        }
    }
}

} // verus!

