//! Preservation of the wallet invariant.
//!
//! One lemma per mutating operation: from a well-formed state and the
//! operation's success condition, the next state of the model is well-formed
//! again, and the entity the operation touched reads back as expected.

use vstd::prelude::*;

use crate::model::{
    batch_idx, day_idx, day_of, exec_member, exec_members, lemma_batch_idx,
    lemma_batch_idx_push, lemma_batch_idx_same_ids, lemma_commit_spending, lemma_day_idx,
    lemma_record_nonce, lemma_tx_idx, lemma_tx_idx_push,
    lemma_tx_idx_same_ids, nonce_fresh, nonce_of, sat_add, spent_on,
    tag_members, tag_one, tx_idx, BatchM, TransactionM, WalletM,
};
use crate::storage_types::{Address, BatchId, TransactionStatus, TxId};

verus! {

/// A fresh proposal's id can collide with no stored transaction's id: every
/// stored transaction of the same proposer carries a nonce at most the
/// recorded one, and the fresh nonce is strictly above it.
pub proof fn lemma_proposed_id_fresh(s: WalletM, id: TxId)
    requires
        s.wf(),
        nonce_fresh(s.nonces.used_nonces, id.proposer, id.nonce),
    ensures
        tx_idx(s.transactions, id) == -1,
        forall|j: int| 0 <= j < s.transactions.len() ==> (#[trigger] s.transactions[j]).id != id,
{
    assert forall|j: int| 0 <= j < s.transactions.len() implies (#[trigger] s.transactions[j]).id
        != id by {
        let t = s.transactions[j];
        if t.proposer == id.proposer {
            assert(t.wf_in(s.nonces.used_nonces));
        }
    }
    lemma_tx_idx(s.transactions, id);
    if tx_idx(s.transactions, id) != -1 {
        assert(false);
    }
}

/// Proposing preserves the invariant, and the new transaction reads back
/// from its id.
pub proof fn lemma_propose_next_wf(
    s: WalletM,
    to: Address,
    token: Address,
    amount: i128,
    data: Seq<u8>,
    proposer: Address,
    nonce: u64,
    now: u64,
)
    requires
        s.wf(),
        s.can_propose(amount, proposer, nonce),
        now + s.config.timelock_duration <= u64::MAX,
        now + s.config.transaction_expiry <= u64::MAX,
    ensures
        s.propose_next(to, token, amount, data, proposer, nonce, now).wf(),
        s.propose_next(to, token, amount, data, proposer, nonce, now).has_tx(
            s.proposed_id(to, token, amount, proposer, nonce, now),
        ),
        s.propose_next(to, token, amount, data, proposer, nonce, now).tx_of(
            s.proposed_id(to, token, amount, proposer, nonce, now),
        ) == s.proposed_tx(to, token, amount, data, proposer, nonce, now),
        forall|other: TxId|
            other != s.proposed_id(to, token, amount, proposer, nonce, now) ==> tx_idx(
                #[trigger] s.propose_next(to, token, amount, data, proposer, nonce, now).transactions,
                other,
            ) == tx_idx(s.transactions, other),
{
    let id = s.proposed_id(to, token, amount, proposer, nonce, now);
    let tx = s.proposed_tx(to, token, amount, data, proposer, nonce, now);
    let next = s.propose_next(to, token, amount, data, proposer, nonce, now);
    let entries = s.nonces.used_nonces;
    let entries2 = next.nonces.used_nonces;

    lemma_record_nonce(entries, proposer, nonce);
    lemma_proposed_id_fresh(s, id);
    lemma_tx_idx_push(s.transactions, tx, id);

    // Distinct transaction ids.
    assert forall|i: int, j: int|
        0 <= i < j < next.transactions.len() implies next.transactions[i].id
        != next.transactions[j].id by {
        if j == s.transactions.len() as int {
            assert(next.transactions[i] == s.transactions[i]);
        }
    }

    // Every stored transaction still satisfies its local invariant against
    // the updated nonce table.
    assert forall|i: int| 0 <= i < next.transactions.len() implies (
    #[trigger] next.transactions[i]).wf_in(entries2) by {
        if i < s.transactions.len() {
            assert(next.transactions[i] == s.transactions[i]);
            let t = s.transactions[i];
            assert(t.wf_in(entries));
            if t.proposer == proposer {
                assert(nonce_of(entries2, proposer) == Some(nonce));
                assert(t.id.nonce <= nonce);
            } else {
                assert(nonce_of(entries2, t.proposer) == nonce_of(entries, t.proposer));
            }
        } else {
            assert(next.transactions[i] == tx);
            assert(nonce_of(entries2, proposer) == Some(nonce));
        }
    }

    // Batches are untouched; their nonce bounds survive the higher nonce.
    assert forall|i: int| 0 <= i < next.batches.len() implies (#[trigger] next.batches[i]).wf_in(
        entries2,
    ) by {
        let b = s.batches[i];
        assert(b.wf_in(entries));
        if b.proposer == proposer {
            assert(nonce_of(entries2, proposer) == Some(nonce));
        } else {
            assert(nonce_of(entries2, b.proposer) == nonce_of(entries, b.proposer));
        }
    }

    // Batch members keep their positions and tags under the append.
    assert forall|i: int, k: int|
        0 <= i < next.batches.len() && 0 <= k < next.batches[i].transactions.len() implies {
        let t = tx_idx(next.transactions, #[trigger] next.batches[i].transactions[k]);
        t != -1 && next.transactions[t].batch_id == Some(next.batches[i].id)
    } by {
        let member = s.batches[i].transactions[k];
        assert(next.batches[i].transactions[k] == member);
        let t0 = tx_idx(s.transactions, member);
        assert(t0 != -1 && s.transactions[t0].batch_id == Some(s.batches[i].id));
        lemma_tx_idx(s.transactions, member);
        lemma_tx_idx_push(s.transactions, tx, member);
        assert(next.transactions[t0] == s.transactions[t0]);
    }

    assert(next.has_tx(id) && next.tx_of(id) == tx) by {
        assert(tx_idx(next.transactions, id) == s.transactions.len() as int);
        assert(next.transactions[s.transactions.len() as int] == tx);
    }

    assert forall|other: TxId| other != id implies tx_idx(
        #[trigger] next.transactions,
        other,
    ) == tx_idx(s.transactions, other) by {
        lemma_tx_idx_push(s.transactions, tx, other);
    }
}

/// An update of one stored transaction that keeps its id, amount,
/// signatures-distinctness, proposer and batch tag preserves the invariant.
/// Signing and executing are both such updates.
proof fn lemma_tx_update_wf(s: WalletM, t: int, tx2: TransactionM)
    requires
        s.wf(),
        0 <= t < s.transactions.len(),
        tx2.id == s.transactions[t].id,
        tx2.to == s.transactions[t].to,
        tx2.token == s.transactions[t].token,
        tx2.amount == s.transactions[t].amount,
        tx2.proposer == s.transactions[t].proposer,
        tx2.created_at == s.transactions[t].created_at,
        tx2.batch_id == s.transactions[t].batch_id,
        crate::model::distinct_addresses(tx2.signatures),
    ensures
        (WalletM { transactions: s.transactions.update(t, tx2), ..s }).wf(),
        forall|other: TxId|
            tx_idx(#[trigger] s.transactions.update(t, tx2), other) == tx_idx(
                s.transactions,
                other,
            ),
{
    let next = WalletM { transactions: s.transactions.update(t, tx2), ..s };
    assert forall|other: TxId| tx_idx(#[trigger] next.transactions, other) == tx_idx(
        s.transactions,
        other,
    ) by {
        lemma_tx_idx_same_ids(next.transactions, s.transactions, other);
    }
    assert forall|i: int| 0 <= i < next.transactions.len() implies (
    #[trigger] next.transactions[i]).wf_in(next.nonces.used_nonces) by {
        assert(s.transactions[i].wf_in(s.nonces.used_nonces));
        if i != t {
            assert(next.transactions[i] == s.transactions[i]);
        }
    }
    assert forall|i: int, k: int|
        0 <= i < next.batches.len() && 0 <= k < next.batches[i].transactions.len() implies {
        let ti = tx_idx(next.transactions, #[trigger] next.batches[i].transactions[k]);
        ti != -1 && next.transactions[ti].batch_id == Some(next.batches[i].id)
    } by {
        let member = s.batches[i].transactions[k];
        assert(next.batches[i].transactions[k] == member);
        let t0 = tx_idx(s.transactions, member);
        assert(t0 != -1 && s.transactions[t0].batch_id == Some(s.batches[i].id));
        lemma_tx_idx(s.transactions, member);
        lemma_tx_idx_same_ids(next.transactions, s.transactions, member);
        if t0 != t {
            assert(next.transactions[t0] == s.transactions[t0]);
        }
    }
}

/// An appended signature stays duplicate-free when the signer had not
/// signed before.
proof fn lemma_signatures_push_distinct(sigs: Seq<Address>, signer: Address)
    requires
        crate::model::distinct_addresses(sigs),
        !sigs.contains(signer),
    ensures
        crate::model::distinct_addresses(sigs.push(signer)),
{
    let sp = sigs.push(signer);
    assert forall|i: int, j: int| 0 <= i < j < sp.len() implies sp[i] != sp[j] by {
        if j == sigs.len() as int {
            assert(sp[i] == sigs[i]);
            if sigs[i] == signer {
                assert(sigs.contains(signer));
            }
        }
    }
}

/// Signing preserves the invariant, and every lookup position survives.
pub proof fn lemma_sign_tx_next_wf(s: WalletM, id: TxId, signer: Address, now: u64)
    requires
        s.wf(),
        s.can_sign_tx(id, signer, now),
    ensures
        s.sign_tx_next(id, signer).wf(),
        forall|other: TxId|
            tx_idx(#[trigger] s.sign_tx_next(id, signer).transactions, other) == tx_idx(
                s.transactions,
                other,
            ),
{
    let t = tx_idx(s.transactions, id);
    lemma_tx_idx(s.transactions, id);
    let tx = s.transactions[t];
    lemma_signatures_push_distinct(tx.signatures, signer);
    let next = s.sign_tx_next(id, signer);
    let tx2 = next.transactions[t];
    assert(next.transactions == s.transactions.update(t, tx2));
    lemma_tx_update_wf(s, t, tx2);
}

/// An update of one stored batch that keeps its id, members, proposer and
/// creation time preserves the invariant.  Signing a batch and marking it
/// executed are both such updates.
pub proof fn lemma_batch_update_wf(s: WalletM, b: int, b2: BatchM)
    requires
        s.wf(),
        0 <= b < s.batches.len(),
        b2.id == s.batches[b].id,
        b2.transactions == s.batches[b].transactions,
        b2.proposer == s.batches[b].proposer,
        b2.created_at == s.batches[b].created_at,
        crate::model::distinct_addresses(b2.signatures),
    ensures
        (WalletM { batches: s.batches.update(b, b2), ..s }).wf(),
        forall|other: BatchId|
            batch_idx(#[trigger] s.batches.update(b, b2), other) == batch_idx(s.batches, other),
{
    let next = WalletM { batches: s.batches.update(b, b2), ..s };
    assert forall|other: BatchId| batch_idx(#[trigger] next.batches, other) == batch_idx(
        s.batches,
        other,
    ) by {
        lemma_batch_idx_same_ids(next.batches, s.batches, other);
    }
    assert forall|i: int| 0 <= i < next.batches.len() implies (#[trigger] next.batches[i]).wf_in(
        next.nonces.used_nonces,
    ) by {
        assert(s.batches[i].wf_in(s.nonces.used_nonces));
        if i != b {
            assert(next.batches[i] == s.batches[i]);
        }
    }
    assert forall|i: int, k: int|
        0 <= i < next.batches.len() && 0 <= k < next.batches[i].transactions.len() implies {
        let ti = tx_idx(next.transactions, #[trigger] next.batches[i].transactions[k]);
        ti != -1 && next.transactions[ti].batch_id == Some(next.batches[i].id)
    } by {
        let member = s.batches[i].transactions[k];
        assert(next.batches[i].transactions[k] == member);
        assert(tx_idx(s.transactions, member) != -1 && s.transactions[tx_idx(
            s.transactions,
            member,
        )].batch_id == Some(s.batches[i].id));
        assert(next.batches[i].id == s.batches[i].id);
    }
}

/// The batch signature mirror of [`lemma_sign_tx_next_wf`].
pub proof fn lemma_sign_batch_next_wf(s: WalletM, id: BatchId, signer: Address, now: u64)
    requires
        s.wf(),
        s.can_sign_batch(id, signer, now),
    ensures
        s.sign_batch_next(id, signer).wf(),
        forall|other: BatchId|
            batch_idx(#[trigger] s.sign_batch_next(id, signer).batches, other) == batch_idx(
                s.batches,
                other,
            ),
{
    let b = batch_idx(s.batches, id);
    lemma_batch_idx(s.batches, id);
    let batch = s.batches[b];
    lemma_signatures_push_distinct(batch.signatures, signer);
    let next = s.sign_batch_next(id, signer);
    lemma_batch_update_wf(s, b, next.batches[b]);
    assert(next.batches == s.batches.update(b, next.batches[b]));
}

/// A fresh batch id can collide with no stored batch's id, for the same
/// reason as [`lemma_proposed_id_fresh`].
pub proof fn lemma_proposed_batch_id_fresh(s: WalletM, id: BatchId)
    requires
        s.wf(),
        nonce_fresh(s.nonces.used_nonces, id.proposer, id.nonce),
    ensures
        batch_idx(s.batches, id) == -1,
        forall|j: int| 0 <= j < s.batches.len() ==> (#[trigger] s.batches[j]).id != id,
{
    assert forall|j: int| 0 <= j < s.batches.len() implies (#[trigger] s.batches[j]).id != id by {
        let bj = s.batches[j];
        if bj.proposer == id.proposer {
            assert(bj.wf_in(s.nonces.used_nonces));
        }
    }
    lemma_batch_idx(s.batches, id);
    if batch_idx(s.batches, id) != -1 {
        assert(false);
    }
}

/// What tagging a member list does to the stored transactions: members end
/// up tagged with the batch id, everything else survives untouched, and no
/// field other than the tag changes anywhere.
pub proof fn lemma_tag_members_props(txs: Seq<TransactionM>, ids: Seq<TxId>, bid: BatchId)
    requires
        forall|i: int, j: int| 0 <= i < j < txs.len() ==> txs[i].id != txs[j].id,
    ensures
        tag_members(txs, ids, bid).len() == txs.len(),
        forall|j: int|
            0 <= j < txs.len() ==> (#[trigger] tag_members(txs, ids, bid)[j]) == (
            if ids.contains(txs[j].id) {
                TransactionM { batch_id: Some(bid), ..txs[j] }
            } else {
                txs[j]
            }),
    decreases ids.len(),
{
    let r = tag_members(txs, ids, bid);
    if ids.len() > 0 {
        let txs1 = tag_one(txs, ids[0], bid);
        let tail = ids.subrange(1, ids.len() as int);
        lemma_tx_idx(txs, ids[0]);
        let t0 = tx_idx(txs, ids[0]);
        assert(txs1.len() == txs.len());
        assert(forall|i: int, j: int| 0 <= i < j < txs1.len() ==> txs1[i].id != txs1[j].id);
        lemma_tag_members_props(txs1, tail, bid);
        assert forall|j: int| 0 <= j < txs.len() implies (#[trigger] r[j]) == (
        if ids.contains(txs[j].id) {
            TransactionM { batch_id: Some(bid), ..txs[j] }
        } else {
            txs[j]
        }) by {
            assert(txs1[j].id == txs[j].id);
            if ids.contains(txs[j].id) {
                let w = choose|w: int| 0 <= w < ids.len() && ids[w] == txs[j].id;
                if txs[j].id == ids[0] {
                    assert(t0 == j);
                    assert(txs1[j] == (TransactionM { batch_id: Some(bid), ..txs[j] }));
                    if tail.contains(txs1[j].id) {
                        assert(r[j] == (TransactionM { batch_id: Some(bid), ..txs1[j] }));
                    }
                } else {
                    assert(ids[w] == txs[j].id && w != 0);
                    assert(tail[w - 1] == ids[w]);
                    assert(tail.contains(txs[j].id));
                    if t0 == j {
                        assert(txs[t0].id == ids[0]);
                        assert(false);
                    }
                    assert(txs1[j] == txs[j]);
                }
            } else {
                assert(txs[j].id != ids[0]);
                if t0 == j {
                    assert(false);
                }
                assert(txs1[j] == txs[j]);
                if tail.contains(txs[j].id) {
                    let w = choose|w: int| 0 <= w < tail.len() && tail[w] == txs[j].id;
                    assert(ids[w + 1] == tail[w]);
                    assert(ids.contains(txs[j].id));
                    assert(false);
                }
            }
        }
    }
}

/// Proposing a batch preserves the invariant; the new batch reads back
/// from its id.
pub proof fn lemma_propose_batch_next_wf(
    s: WalletM,
    ids: Seq<TxId>,
    proposer: Address,
    nonce: u64,
    now: u64,
)
    requires
        s.wf(),
        s.can_propose_batch(ids, proposer, nonce),
        now + s.config.transaction_expiry <= u64::MAX,
    ensures
        s.propose_batch_next(ids, proposer, nonce, now).wf(),
        s.propose_batch_next(ids, proposer, nonce, now).has_batch(
            s.proposed_batch_id(proposer, nonce, now),
        ),
        s.propose_batch_next(ids, proposer, nonce, now).batch_of(
            s.proposed_batch_id(proposer, nonce, now),
        ).transactions == ids,
        s.propose_batch_next(ids, proposer, nonce, now).batch_of(
            s.proposed_batch_id(proposer, nonce, now),
        ).status is Proposed,
{
    let bid = s.proposed_batch_id(proposer, nonce, now);
    let next = s.propose_batch_next(ids, proposer, nonce, now);
    let entries = s.nonces.used_nonces;
    let entries2 = next.nonces.used_nonces;
    let batch = next.batches[s.batches.len() as int];

    lemma_record_nonce(entries, proposer, nonce);
    lemma_proposed_batch_id_fresh(s, bid);
    lemma_batch_idx_push(s.batches, batch, bid);
    lemma_tag_members_props(s.transactions, ids, bid);

    // Transactions: same ids, so distinctness and positions survive.
    assert forall|i: int, j: int|
        0 <= i < j < next.transactions.len() implies next.transactions[i].id
        != next.transactions[j].id by {
        assert(next.transactions[i].id == s.transactions[i].id);
        assert(next.transactions[j].id == s.transactions[j].id);
    }
    assert forall|i: int| 0 <= i < next.transactions.len() implies (
    #[trigger] next.transactions[i]).wf_in(entries2) by {
        let t = s.transactions[i];
        assert(t.wf_in(entries));
        assert(next.transactions[i].id == t.id && next.transactions[i].amount == t.amount
            && next.transactions[i].signatures == t.signatures && next.transactions[i].proposer
            == t.proposer && next.transactions[i].to == t.to && next.transactions[i].token
            == t.token && next.transactions[i].created_at == t.created_at);
        if t.proposer == proposer {
            assert(nonce_of(entries2, proposer) == Some(nonce));
            assert(t.id.nonce <= nonce);
        } else {
            assert(nonce_of(entries2, t.proposer) == nonce_of(entries, t.proposer));
        }
    }

    // Batches: the fresh id is distinct, old ones keep their nonce bounds.
    assert forall|i: int, j: int|
        0 <= i < j < next.batches.len() implies next.batches[i].id != next.batches[j].id by {
        if j == s.batches.len() as int {
            assert(next.batches[i] == s.batches[i]);
        }
    }
    assert forall|i: int| 0 <= i < next.batches.len() implies (#[trigger] next.batches[i]).wf_in(
        entries2,
    ) by {
        if i < s.batches.len() {
            assert(next.batches[i] == s.batches[i]);
            let b = s.batches[i];
            assert(b.wf_in(entries));
            if b.proposer == proposer {
                assert(nonce_of(entries2, proposer) == Some(nonce));
            } else {
                assert(nonce_of(entries2, b.proposer) == nonce_of(entries, b.proposer));
            }
        } else {
            assert(next.batches[i] == batch);
            assert(nonce_of(entries2, proposer) == Some(nonce));
        }
    }

    // Tagging: old batches' members were already tagged, hence not in the
    // new member list; new members are exactly the tagged ones.
    assert forall|i: int, k: int|
        0 <= i < next.batches.len() && 0 <= k < next.batches[i].transactions.len() implies {
        let ti = tx_idx(next.transactions, #[trigger] next.batches[i].transactions[k]);
        ti != -1 && next.transactions[ti].batch_id == Some(next.batches[i].id)
    } by {
        if i < s.batches.len() {
            let member = s.batches[i].transactions[k];
            assert(next.batches[i].transactions[k] == member);
            let t0 = tx_idx(s.transactions, member);
            assert(t0 != -1 && s.transactions[t0].batch_id == Some(s.batches[i].id));
            lemma_tx_idx(s.transactions, member);
            lemma_tx_idx_same_ids(next.transactions, s.transactions, member);
            if ids.contains(s.transactions[t0].id) {
                let w = choose|w: int| 0 <= w < ids.len() && ids[w] == s.transactions[t0].id;
                assert(crate::model::member_ok(s, ids[w]));
                lemma_tx_idx(s.transactions, ids[w]);
                assert(tx_idx(s.transactions, ids[w]) == t0);
                assert(false);
            }
            assert(next.transactions[t0] == s.transactions[t0]);
        } else {
            let member = ids[k];
            assert(next.batches[i].transactions[k] == member);
            assert(crate::model::member_ok(s, ids[k]));
            let t0 = tx_idx(s.transactions, member);
            lemma_tx_idx(s.transactions, member);
            lemma_tx_idx_same_ids(next.transactions, s.transactions, member);
            assert(ids.contains(s.transactions[t0].id));
            assert(next.transactions[t0] == (TransactionM {
                batch_id: Some(bid),
                ..s.transactions[t0]
            }));
        }
    }

    assert(next.has_batch(bid) && next.batch_of(bid) == batch) by {
        assert(batch_idx(next.batches, bid) == s.batches.len() as int);
    }
}

/// What a whole best-effort member pass does, pointwise: a member that was
/// `Approved` ends `Executed`; every other stored transaction: skipped
/// members and non-members alike: is exactly as it was.
pub proof fn lemma_exec_members_props(s: WalletM, ids: Seq<TxId>, date: u64)
    requires
        s.wf(),
    ensures
        exec_members(s, ids, date).wf(),
        exec_members(s, ids, date).batches == s.batches,
        exec_members(s, ids, date).transactions.len() == s.transactions.len(),
        forall|j: int|
            0 <= j < s.transactions.len() ==> (#[trigger] exec_members(s, ids, date).transactions[j])
                == (if ids.contains(s.transactions[j].id) && s.transactions[j].status
                is Approved {
                TransactionM { status: TransactionStatus::Executed, ..s.transactions[j] }
            } else {
                s.transactions[j]
            }),
    decreases ids.len(),
{
    let r = exec_members(s, ids, date);
    if ids.len() > 0 {
        let s1 = exec_member(s, ids[0], date);
        let tail = ids.subrange(1, ids.len() as int);
        lemma_exec_member_wf(s, ids[0], date);
        lemma_tx_idx(s.transactions, ids[0]);
        let t0 = tx_idx(s.transactions, ids[0]);
        lemma_exec_members_props(s1, tail, date);
        assert forall|j: int|
            0 <= j < s.transactions.len() implies (#[trigger] r.transactions[j]) == (
        if ids.contains(s.transactions[j].id) && s.transactions[j].status
            is Approved {
            TransactionM { status: TransactionStatus::Executed, ..s.transactions[j] }
        } else {
            s.transactions[j]
        }) by {
            let tx = s.transactions[j];
            assert(s1.transactions[j].id == tx.id);
            if t0 == j {
                assert(tx.id == ids[0]);
                assert(ids.contains(tx.id)) by {
                    assert(ids[0] == tx.id);
                }
                if tx.status is Approved {
                    assert(s1.transactions[j] == (TransactionM {
                        status: TransactionStatus::Executed,
                        ..tx
                    }));
                    assert(!(s1.transactions[j].status is Approved));
                    assert(r.transactions[j] == s1.transactions[j]);
                } else {
                    assert(s1.transactions[j] == tx);
                    if tail.contains(tx.id) {
                        assert(r.transactions[j] == tx);
                    } else {
                        assert(r.transactions[j] == tx);
                    }
                }
            } else {
                assert(s1.transactions[j] == tx);
                if tx.id == ids[0] {
                    assert(t0 != -1 && s.transactions[t0].id == ids[0]);
                    assert(false);
                }
                if ids.contains(tx.id) {
                    let w = choose|w: int| 0 <= w < ids.len() && ids[w] == tx.id;
                    assert(w != 0);
                    assert(tail[w - 1] == ids[w]);
                    assert(tail.contains(tx.id));
                } else {
                    if tail.contains(tx.id) {
                        let w = choose|w: int| 0 <= w < tail.len() && tail[w] == tx.id;
                        assert(ids[w + 1] == tail[w]);
                        assert(ids.contains(tx.id));
                        assert(false);
                    }
                }
            }
        }
    }
}

/// Executing one batch member preserves the invariant and touches nothing
/// but that member's status and the day's spending record.
pub proof fn lemma_exec_member_wf(s: WalletM, id: TxId, date: u64)
    requires
        s.wf(),
    ensures
        exec_member(s, id, date).wf(),
        exec_member(s, id, date).admin == s.admin,
        exec_member(s, id, date).config == s.config,
        exec_member(s, id, date).paused == s.paused,
        exec_member(s, id, date).version == s.version,
        exec_member(s, id, date).frozen == s.frozen,
        exec_member(s, id, date).unfreeze_time == s.unfreeze_time,
        exec_member(s, id, date).signers == s.signers,
        exec_member(s, id, date).nonces == s.nonces,
        exec_member(s, id, date).queue == s.queue,
        exec_member(s, id, date).batches == s.batches,
        exec_member(s, id, date).transactions.len() == s.transactions.len(),
        forall|j: int|
            0 <= j < s.transactions.len() ==> (#[trigger] exec_member(s, id, date).transactions[j]).id
                == s.transactions[j].id,
{
    let t = tx_idx(s.transactions, id);
    let next = exec_member(s, id, date);
    if t != -1 && s.transactions[t].status is Approved {
        lemma_tx_idx(s.transactions, id);
        let tx = s.transactions[t];
        assert(tx.wf_in(s.nonces.used_nonces));
        let tx2 = TransactionM { status: TransactionStatus::Executed, ..tx };
        lemma_tx_update_wf(s, t, tx2);
        let mid = WalletM { transactions: s.transactions.update(t, tx2), ..s };
        lemma_commit_spending(s.daily, date, tx.amount, s.config.daily_spending_limit);
        assert(next.transactions == mid.transactions);
        assert forall|i: int| 0 <= i < next.transactions.len() implies (
        #[trigger] next.transactions[i]).wf_in(next.nonces.used_nonces) by {
            assert(mid.transactions[i].wf_in(mid.nonces.used_nonces));
        }
        assert forall|i: int, k: int|
            0 <= i < next.batches.len() && 0 <= k < next.batches[i].transactions.len() implies {
            let ti = tx_idx(next.transactions, #[trigger] next.batches[i].transactions[k]);
            ti != -1 && next.transactions[ti].batch_id == Some(next.batches[i].id)
        } by {
            let member = mid.batches[i].transactions[k];
            assert(mid.batches[i].transactions[k] == member);
            assert(mid.wf());
            assert(tx_idx(mid.transactions, member) != -1 && mid.transactions[tx_idx(
                mid.transactions,
                member,
            )].batch_id == Some(mid.batches[i].id));
        }
    }
}

/// Executing preserves the invariant; the day's spending grows by exactly
/// the executed amount, and every lookup position survives.
pub proof fn lemma_execute_next_wf(s: WalletM, id: TxId, now: u64)
    requires
        s.wf(),
        s.can_execute(id, now),
    ensures
        s.execute_next(id, now).wf(),
        forall|other: TxId|
            tx_idx(#[trigger] s.execute_next(id, now).transactions, other) == tx_idx(
                s.transactions,
                other,
            ),
        spent_on(s.execute_next(id, now).daily, day_of(now)) == spent_on(s.daily, day_of(now))
            + s.tx_of(id).amount,
        forall|d2: u64|
            d2 != day_of(now) ==> #[trigger] spent_on(s.execute_next(id, now).daily, d2)
                == spent_on(s.daily, d2),
        forall|d2: u64, c2: i128|
            d2 != day_of(now) ==> #[trigger] crate::model::limit_on(
                s.execute_next(id, now).daily,
                d2,
                c2,
            ) == crate::model::limit_on(s.daily, d2, c2),
        crate::model::limit_on(
            s.execute_next(id, now).daily,
            day_of(now),
            s.config.daily_spending_limit,
        ) == crate::model::limit_on(s.daily, day_of(now), s.config.daily_spending_limit),
{
    let t = tx_idx(s.transactions, id);
    lemma_tx_idx(s.transactions, id);
    let tx = s.transactions[t];
    assert(tx.wf_in(s.nonces.used_nonces));
    let date = day_of(now);
    let next = s.execute_next(id, now);
    let tx2 = next.transactions[t];

    let mid = WalletM { transactions: s.transactions.update(t, tx2), ..s };
    lemma_tx_update_wf(s, t, tx2);

    lemma_day_idx(s.daily, date);
    lemma_commit_spending(s.daily, date, tx.amount, s.config.daily_spending_limit);
    assert(spent_on(s.daily, date) + tx.amount <= i128::MAX) by {
        if day_idx(s.daily, date) != -1 {
            assert(spent_on(s.daily, date) + tx.amount <= s.daily[day_idx(s.daily, date)].limit
                as int);
        }
    }
    assert(sat_add(spent_on(s.daily, date) as i128, tx.amount) == spent_on(s.daily, date)
        + tx.amount);

    assert(next.transactions == mid.transactions);
    assert forall|i: int| 0 <= i < next.transactions.len() implies (
    #[trigger] next.transactions[i]).wf_in(next.nonces.used_nonces) by {
        assert(mid.transactions[i].wf_in(mid.nonces.used_nonces));
    }
    assert forall|i: int, k: int|
        0 <= i < next.batches.len() && 0 <= k < next.batches[i].transactions.len() implies {
        let ti = tx_idx(next.transactions, #[trigger] next.batches[i].transactions[k]);
        ti != -1 && next.transactions[ti].batch_id == Some(next.batches[i].id)
    } by {
        let member = mid.batches[i].transactions[k];
        assert(mid.batches[i].transactions[k] == member);
        assert(mid.wf());
        assert(tx_idx(mid.transactions, member) != -1 && mid.transactions[tx_idx(
            mid.transactions,
            member,
        )].batch_id == Some(mid.batches[i].id));
    }
}

} // verus!
