//! The mathematical model of the wallet.
//!
//! Every executable entity has a ghost counterpart over `Seq`, and every
//! operation of the engine has a success condition (`can_*`), an error
//! selector (`*_error`) and a next-state function (`*_next`) here.  The
//! contracts of the executable operations say exactly that they implement
//! these functions; the laws in [`crate::laws`] are proved from them alone.

use vstd::prelude::*;

use crate::storage_types::{
    Address, Batch, BatchId, BatchStatus, DailySpending, MultisigError, NonceEntry, NonceManager,
    Signer, TimelockQueue, Transaction, TransactionStatus, Transfer, TxId, WalletConfig,
};

verus! {

/// Seconds in one UTC calendar day; spending is bucketed by its multiples.
pub const SECONDS_PER_DAY: u64 = 86400;

// ------------------------------------------------------------------
// Ghost counterparts of the stored entities
// ------------------------------------------------------------------

pub ghost struct TransactionM {
    pub id: TxId,
    pub to: Address,
    pub token: Address,
    pub amount: i128,
    pub data: Seq<u8>,
    pub proposer: Address,
    pub signatures: Seq<Address>,
    pub status: TransactionStatus,
    pub created_at: u64,
    pub expires_at: u64,
    pub timelock_until: u64,
    pub batch_id: Option<BatchId>,
}

pub ghost struct BatchM {
    pub id: BatchId,
    pub transactions: Seq<TxId>,
    pub proposer: Address,
    pub signatures: Seq<Address>,
    pub status: BatchStatus,
    pub created_at: u64,
    pub expires_at: u64,
}

pub ghost struct TimelockQueueM {
    pub pending: Seq<TxId>,
    pub ready: Seq<TxId>,
    pub executed: Seq<TxId>,
}

pub ghost struct NonceManagerM {
    pub current_nonce: u64,
    pub used_nonces: Seq<NonceEntry>,
}

/// The whole wallet state, as the contracts speak of it.
pub ghost struct WalletM {
    pub admin: Address,
    pub config: WalletConfig,
    pub paused: bool,
    pub version: u32,
    pub frozen: bool,
    pub unfreeze_time: Option<u64>,
    pub signers: Seq<Signer>,
    pub nonces: NonceManagerM,
    pub queue: TimelockQueueM,
    pub transactions: Seq<TransactionM>,
    pub batches: Seq<BatchM>,
    pub daily: Seq<DailySpending>,
}

impl View for Transaction {
    type V = TransactionM;

    open spec fn view(&self) -> TransactionM {
        TransactionM {
            id: self.id,
            to: self.to,
            token: self.token,
            amount: self.amount,
            data: self.data@,
            proposer: self.proposer,
            signatures: self.signatures@,
            status: self.status,
            created_at: self.created_at,
            expires_at: self.expires_at,
            timelock_until: self.timelock_until,
            batch_id: self.batch_id,
        }
    }
}

impl View for Batch {
    type V = BatchM;

    open spec fn view(&self) -> BatchM {
        BatchM {
            id: self.id,
            transactions: self.transactions@,
            proposer: self.proposer,
            signatures: self.signatures@,
            status: self.status,
            created_at: self.created_at,
            expires_at: self.expires_at,
        }
    }
}

impl View for TimelockQueue {
    type V = TimelockQueueM;

    open spec fn view(&self) -> TimelockQueueM {
        TimelockQueueM { pending: self.pending@, ready: self.ready@, executed: self.executed@ }
    }
}

impl View for NonceManager {
    type V = NonceManagerM;

    open spec fn view(&self) -> NonceManagerM {
        NonceManagerM { current_nonce: self.current_nonce, used_nonces: self.used_nonces@ }
    }
}

// ------------------------------------------------------------------
// First-match lookup
// ------------------------------------------------------------------

/// Index of the first element satisfying `p`, or -1 when none does.
pub open spec fn first_match<T>(s: Seq<T>, p: spec_fn(T) -> bool) -> int
    decreases s.len(),
{
    if s.len() == 0 {
        -1
    } else if p(s[0]) {
        0
    } else {
        let r = first_match(s.subrange(1, s.len() as int), p);
        if r == -1 {
            -1
        } else {
            r + 1
        }
    }
}

/// `first_match` finds exactly the first satisfying position.
pub proof fn lemma_first_match<T>(s: Seq<T>, p: spec_fn(T) -> bool)
    ensures
        first_match(s, p) == -1 ==> forall|j: int| 0 <= j < s.len() ==> !p(s[j]),
        first_match(s, p) != -1 ==> 0 <= first_match(s, p) < s.len() && p(
            s[first_match(s, p)],
        ) && forall|j: int| 0 <= j < first_match(s, p) ==> !p(s[j]),
    decreases s.len(),
{
    if s.len() > 0 && !p(s[0]) {
        let tail = s.subrange(1, s.len() as int);
        lemma_first_match(tail, p);
        let r = first_match(tail, p);
        if r == -1 {
            assert forall|j: int| 0 <= j < s.len() implies !p(s[j]) by {
                if j > 0 {
                    assert(tail[j - 1] == s[j]);
                    assert(!p(tail[j - 1]));
                }
            }
        } else {
            assert(p(tail[r]));
            assert(s[r + 1] == tail[r]);
            assert forall|j: int| 0 <= j < r + 1 implies !p(s[j]) by {
                if j > 0 {
                    assert(tail[j - 1] == s[j]);
                    assert(!p(tail[j - 1]));
                }
            }
        }
    }
}

pub open spec fn signer_idx(signers: Seq<Signer>, a: Address) -> int {
    first_match(signers, |x: Signer| x.address == a)
}

/// [`signer_idx`] finds exactly the first signer with the given address.
pub proof fn lemma_signer_idx(signers: Seq<Signer>, a: Address)
    ensures
        signer_idx(signers, a) == -1 ==> forall|j: int|
            0 <= j < signers.len() ==> signers[j].address != a,
        signer_idx(signers, a) != -1 ==> 0 <= signer_idx(signers, a) < signers.len() && signers[
            signer_idx(signers, a)
        ].address == a && forall|j: int|
            0 <= j < signer_idx(signers, a) ==> signers[j].address != a,
{
    lemma_first_match(signers, |x: Signer| x.address == a);
}

pub open spec fn nonce_idx(entries: Seq<NonceEntry>, a: Address) -> int {
    first_match(entries, |x: NonceEntry| x.address == a)
}

pub open spec fn tx_idx(txs: Seq<TransactionM>, id: TxId) -> int {
    first_match(txs, |x: TransactionM| x.id == id)
}

pub open spec fn batch_idx(batches: Seq<BatchM>, id: BatchId) -> int {
    first_match(batches, |x: BatchM| x.id == id)
}

pub open spec fn day_idx(days: Seq<DailySpending>, date: u64) -> int {
    first_match(days, |x: DailySpending| x.date == date)
}

/// [`nonce_idx`] finds exactly the first entry for the given identity.
pub proof fn lemma_nonce_idx(entries: Seq<NonceEntry>, a: Address)
    ensures
        nonce_idx(entries, a) == -1 ==> forall|j: int|
            0 <= j < entries.len() ==> entries[j].address != a,
        nonce_idx(entries, a) != -1 ==> 0 <= nonce_idx(entries, a) < entries.len() && entries[
            nonce_idx(entries, a)
        ].address == a && forall|j: int|
            0 <= j < nonce_idx(entries, a) ==> entries[j].address != a,
{
    lemma_first_match(entries, |x: NonceEntry| x.address == a);
}

/// [`tx_idx`] finds exactly the first transaction with the given id.
pub proof fn lemma_tx_idx(txs: Seq<TransactionM>, id: TxId)
    ensures
        tx_idx(txs, id) == -1 ==> forall|j: int| 0 <= j < txs.len() ==> txs[j].id != id,
        tx_idx(txs, id) != -1 ==> 0 <= tx_idx(txs, id) < txs.len() && txs[tx_idx(txs, id)].id
            == id && forall|j: int| 0 <= j < tx_idx(txs, id) ==> txs[j].id != id,
{
    lemma_first_match(txs, |x: TransactionM| x.id == id);
}

/// [`batch_idx`] finds exactly the first batch with the given id.
pub proof fn lemma_batch_idx(batches: Seq<BatchM>, id: BatchId)
    ensures
        batch_idx(batches, id) == -1 ==> forall|j: int|
            0 <= j < batches.len() ==> batches[j].id != id,
        batch_idx(batches, id) != -1 ==> 0 <= batch_idx(batches, id) < batches.len() && batches[
            batch_idx(batches, id)
        ].id == id && forall|j: int| 0 <= j < batch_idx(batches, id) ==> batches[j].id != id,
{
    lemma_first_match(batches, |x: BatchM| x.id == id);
}

/// [`day_idx`] finds exactly the first record for the given day.
pub proof fn lemma_day_idx(days: Seq<DailySpending>, date: u64)
    ensures
        day_idx(days, date) == -1 ==> forall|j: int| 0 <= j < days.len() ==> days[j].date != date,
        day_idx(days, date) != -1 ==> 0 <= day_idx(days, date) < days.len() && days[
            day_idx(days, date)
        ].date == date && forall|j: int| 0 <= j < day_idx(days, date) ==> days[j].date != date,
{
    lemma_first_match(days, |x: DailySpending| x.date == date);
}

// ------------------------------------------------------------------
// Registry, nonces, spending
// ------------------------------------------------------------------

/// The weight an identity currently contributes: its registered weight when
/// it is an active signer, and 0 otherwise.
pub open spec fn signer_weight(signers: Seq<Signer>, a: Address) -> int {
    let i = signer_idx(signers, a);
    if i == -1 {
        0
    } else if signers[i].active {
        signers[i].weight as int
    } else {
        0
    }
}

pub open spec fn is_active_signer(signers: Seq<Signer>, a: Address) -> bool {
    let i = signer_idx(signers, a);
    i != -1 && signers[i].active
}

/// How many registered signers are currently active.
pub open spec fn active_count(signers: Seq<Signer>) -> int
    decreases signers.len(),
{
    if signers.len() == 0 {
        0
    } else {
        (if signers[0].active {
            1int
        } else {
            0int
        }) + active_count(signers.subrange(1, signers.len() as int))
    }
}

/// Accumulated weight of the identities in `sigs`, each weighed against the
/// live registry: identities deactivated or removed since signing count 0.
pub open spec fn signed_weight(signers: Seq<Signer>, sigs: Seq<Address>) -> int
    decreases sigs.len(),
{
    if sigs.len() == 0 {
        0
    } else {
        signer_weight(signers, sigs[0]) + signed_weight(
            signers,
            sigs.subrange(1, sigs.len() as int),
        )
    }
}

pub open spec fn nonce_of(entries: Seq<NonceEntry>, a: Address) -> Option<u64> {
    let i = nonce_idx(entries, a);
    if i == -1 {
        None
    } else {
        Some(entries[i].nonce)
    }
}

/// A nonce is accepted exactly when it is strictly above the highest one the
/// identity has consumed.
pub open spec fn nonce_fresh(entries: Seq<NonceEntry>, a: Address, nonce: u64) -> bool {
    match nonce_of(entries, a) {
        Some(v) => nonce > v,
        None => true,
    }
}

pub open spec fn record_nonce(entries: Seq<NonceEntry>, a: Address, nonce: u64) -> Seq<
    NonceEntry,
> {
    let i = nonce_idx(entries, a);
    if i == -1 {
        entries.push(NonceEntry { address: a, nonce })
    } else {
        entries.update(i, NonceEntry { address: a, nonce })
    }
}

/// Start of the UTC calendar day containing `now`.
pub open spec fn day_of(now: u64) -> u64 {
    ((now as int / (SECONDS_PER_DAY as int)) * (SECONDS_PER_DAY as int)) as u64
}

/// Value already spent on the day keyed `date`; a day without a record has
/// spent nothing.
pub open spec fn spent_on(days: Seq<DailySpending>, date: u64) -> int {
    let i = day_idx(days, date);
    if i == -1 {
        0
    } else {
        days[i].spent as int
    }
}

/// The cap in force for the day keyed `date`: the one stored with the day's
/// record, or the configured cap when the day has no record yet.
pub open spec fn limit_on(days: Seq<DailySpending>, date: u64, configured: i128) -> int {
    let i = day_idx(days, date);
    if i == -1 {
        configured as int
    } else {
        days[i].limit as int
    }
}

/// Addition on spent amounts, clipped at the machine bound so that recording
/// can never fail once execution has been granted.
pub open spec fn sat_add(a: i128, b: i128) -> i128 {
    if a + b > i128::MAX {
        i128::MAX
    } else {
        (a + b) as i128
    }
}

/// The day records after charging `amount` to the day keyed `date`.
pub open spec fn commit_spending(
    days: Seq<DailySpending>,
    date: u64,
    amount: i128,
    configured: i128,
) -> Seq<DailySpending> {
    let i = day_idx(days, date);
    if i == -1 {
        days.push(DailySpending { date, spent: sat_add(0, amount), limit: configured })
    } else {
        days.update(i, DailySpending { spent: sat_add(days[i].spent, amount), ..days[i] })
    }
}

/// What recording a nonce does to the stored table: the identity's entry
/// now holds the nonce, everyone else's entry is untouched.
pub proof fn lemma_record_nonce(entries: Seq<NonceEntry>, a: Address, n: u64)
    requires
        forall|i: int, j: int|
            0 <= i < j < entries.len() ==> entries[i].address != entries[j].address,
    ensures
        nonce_of(record_nonce(entries, a, n), a) == Some(n),
        forall|b: Address|
            b != a ==> #[trigger] nonce_of(record_nonce(entries, a, n), b) == nonce_of(entries, b),
        forall|i: int, j: int|
            0 <= i < j < record_nonce(entries, a, n).len() ==> record_nonce(entries, a, n)[i].address
                != record_nonce(entries, a, n)[j].address,
{
    let r = record_nonce(entries, a, n);
    let i = nonce_idx(entries, a);
    lemma_nonce_idx(entries, a);
    lemma_nonce_idx(r, a);
    let e = NonceEntry { address: a, nonce: n };
    if i == -1 {
        assert(forall|j: int| 0 <= j < entries.len() ==> r[j] == entries[j]);
        assert(r[entries.len() as int] == e);
        assert(nonce_idx(r, a) == entries.len() as int);
    } else {
        assert(forall|j: int| 0 <= j < entries.len() && j != i ==> r[j] == entries[j]);
        assert(r[i] == e);
        assert(nonce_idx(r, a) == i);
    }
    assert forall|b: Address| b != a implies #[trigger] nonce_of(r, b) == nonce_of(entries, b) by {
        lemma_nonce_idx(entries, b);
        lemma_nonce_idx(r, b);
        let ib = nonce_idx(entries, b);
        let rb = nonce_idx(r, b);
        if ib == -1 {
            if rb != -1 {
                assert(r[rb].address == b);
                assert(false);
            }
        } else {
            assert(r[ib].address == b && r[ib].nonce == entries[ib].nonce);
            assert(rb == ib);
        }
    }
}

/// What charging a day does to the records: that day's spent value grows
/// (clipped at the machine bound), every other day is untouched, and the
/// record shape needed by the state invariant is kept.
pub proof fn lemma_commit_spending(
    days: Seq<DailySpending>,
    date: u64,
    amount: i128,
    configured: i128,
)
    requires
        forall|i: int, j: int| 0 <= i < j < days.len() ==> days[i].date != days[j].date,
        forall|i: int| 0 <= i < days.len() ==> (#[trigger] days[i]).spent >= 0,
        amount > 0,
        configured > 0,
    ensures
        spent_on(commit_spending(days, date, amount, configured), date) == sat_add(
            spent_on(days, date) as i128,
            amount,
        ) as int,
        forall|d2: u64|
            d2 != date ==> #[trigger] spent_on(commit_spending(days, date, amount, configured), d2)
                == spent_on(days, d2),
        forall|d2: u64, c2: i128|
            d2 != date ==> #[trigger] limit_on(
                commit_spending(days, date, amount, configured),
                d2,
                c2,
            ) == limit_on(days, d2, c2),
        limit_on(commit_spending(days, date, amount, configured), date, configured) == (
        if day_idx(days, date) == -1 {
            configured as int
        } else {
            days[day_idx(days, date)].limit as int
        }),
        forall|i: int, j: int|
            0 <= i < j < commit_spending(days, date, amount, configured).len() ==> commit_spending(
                days,
                date,
                amount,
                configured,
            )[i].date != commit_spending(days, date, amount, configured)[j].date,
        forall|i: int|
            0 <= i < commit_spending(days, date, amount, configured).len() ==> (
            #[trigger] commit_spending(days, date, amount, configured)[i]).spent >= 0,
{
    let r = commit_spending(days, date, amount, configured);
    let i = day_idx(days, date);
    lemma_day_idx(days, date);
    lemma_day_idx(r, date);
    if i == -1 {
        assert(forall|j: int| 0 <= j < days.len() ==> r[j] == days[j]);
        assert(r[days.len() as int].date == date);
        assert(day_idx(r, date) == days.len() as int);
    } else {
        assert(forall|j: int| 0 <= j < days.len() && j != i ==> r[j] == days[j]);
        assert(r[i].date == date);
        assert(day_idx(r, date) == i);
    }
    assert forall|d2: u64| d2 != date implies #[trigger] spent_on(r, d2) == spent_on(days, d2) by {
        lemma_day_idx(days, d2);
        lemma_day_idx(r, d2);
        let ib = day_idx(days, d2);
        let rb = day_idx(r, d2);
        if ib == -1 {
            if rb != -1 {
                assert(r[rb].date == d2);
                assert(false);
            }
        } else {
            assert(r[ib].date == d2 && r[ib].spent == days[ib].spent);
            assert(rb == ib);
        }
    }
    assert forall|d2: u64, c2: i128| d2 != date implies #[trigger] limit_on(r, d2, c2) == limit_on(
        days,
        d2,
        c2,
    ) by {
        lemma_day_idx(days, d2);
        lemma_day_idx(r, d2);
        let ib = day_idx(days, d2);
        let rb = day_idx(r, d2);
        if ib == -1 {
            if rb != -1 {
                assert(r[rb].date == d2);
                assert(false);
            }
        } else {
            assert(r[ib].date == d2 && r[ib].limit == days[ib].limit);
            assert(rb == ib);
        }
    }
}

/// Lookups only read ids, so any id-preserving rewrite of the stored
/// transactions leaves every lookup position unchanged.
pub proof fn lemma_tx_idx_same_ids(txs1: Seq<TransactionM>, txs2: Seq<TransactionM>, id: TxId)
    requires
        txs1.len() == txs2.len(),
        forall|j: int| 0 <= j < txs1.len() ==> txs1[j].id == txs2[j].id,
    ensures
        tx_idx(txs1, id) == tx_idx(txs2, id),
{
    lemma_tx_idx(txs1, id);
    lemma_tx_idx(txs2, id);
}

/// Appending a transaction with a fresh id leaves existing lookups alone
/// and makes the new id findable at the end.
pub proof fn lemma_tx_idx_push(txs: Seq<TransactionM>, t: TransactionM, id: TxId)
    ensures
        tx_idx(txs, id) != -1 ==> tx_idx(txs.push(t), id) == tx_idx(txs, id),
        tx_idx(txs, id) == -1 && t.id == id ==> tx_idx(txs.push(t), id) == txs.len() as int,
        tx_idx(txs, id) == -1 && t.id != id ==> tx_idx(txs.push(t), id) == -1,
{
    lemma_tx_idx(txs, id);
    lemma_tx_idx(txs.push(t), id);
    let sp = txs.push(t);
    assert(forall|j: int| 0 <= j < txs.len() ==> sp[j] == txs[j]);
    assert(sp[txs.len() as int] == t);
}

/// The batch analogue of [`lemma_tx_idx_push`].
pub proof fn lemma_batch_idx_push(batches: Seq<BatchM>, b: BatchM, id: BatchId)
    ensures
        batch_idx(batches, id) != -1 ==> batch_idx(batches.push(b), id) == batch_idx(batches, id),
        batch_idx(batches, id) == -1 && b.id == id ==> batch_idx(batches.push(b), id)
            == batches.len() as int,
        batch_idx(batches, id) == -1 && b.id != id ==> batch_idx(batches.push(b), id) == -1,
{
    lemma_batch_idx(batches, id);
    lemma_batch_idx(batches.push(b), id);
    let sp = batches.push(b);
    assert(forall|j: int| 0 <= j < batches.len() ==> sp[j] == batches[j]);
    assert(sp[batches.len() as int] == b);
}

/// The batch analogue of [`lemma_tx_idx_same_ids`].
pub proof fn lemma_batch_idx_same_ids(bs1: Seq<BatchM>, bs2: Seq<BatchM>, id: BatchId)
    requires
        bs1.len() == bs2.len(),
        forall|j: int| 0 <= j < bs1.len() ==> bs1[j].id == bs2[j].id,
    ensures
        batch_idx(bs1, id) == batch_idx(bs2, id),
{
    lemma_batch_idx(bs1, id);
    lemma_batch_idx(bs2, id);
}

// ------------------------------------------------------------------
// Configuration
// ------------------------------------------------------------------

/// A configuration the wallet will accept: a satisfiable threshold scheme
/// and every limit strictly positive, the time windows included.  A zero
/// timelock duration would void the high-value delay, a zero expiry would
/// make every proposal dead on arrival, and a zero freeze duration would
/// open the freeze to everyone at once.
pub open spec fn valid_config(c: WalletConfig) -> bool {
    &&& c.m >= 1
    &&& c.n >= 1
    &&& c.m <= c.n
    &&& c.daily_spending_limit > 0
    &&& c.timelock_threshold > 0
    &&& c.max_batch_size >= 1
    &&& c.timelock_duration >= 1
    &&& c.transaction_expiry >= 1
    &&& c.emergency_freeze_duration >= 1
}

/// Which violation a rejected configuration is reported with.  A zero time
/// window (timelock duration, expiry, freeze duration) is reported as
/// invalid data.
pub open spec fn config_error(c: WalletConfig) -> MultisigError {
    if c.m == 0 || c.n == 0 || c.m > c.n {
        MultisigError::InvalidMOfN
    } else if c.daily_spending_limit <= 0 {
        MultisigError::InvalidAmount
    } else if c.timelock_threshold <= 0 {
        MultisigError::InvalidThreshold
    } else if c.max_batch_size == 0 {
        MultisigError::InvalidBatch
    } else {
        MultisigError::InvalidData
    }
}

pub open spec fn distinct_addresses(s: Seq<Address>) -> bool {
    forall|i: int, j: int| 0 <= i < j < s.len() ==> s[i] != s[j]
}

// ------------------------------------------------------------------
// Well-formedness
// ------------------------------------------------------------------

impl TransactionM {
    /// Internal consistency of one stored transaction: the id carries the
    /// defining fields, the amount is positive, no identity signed twice,
    /// and the id's nonce has been consumed by its proposer.
    pub open spec fn wf_in(self, nonces: Seq<NonceEntry>) -> bool {
        &&& self.id.to == self.to
        &&& self.id.token == self.token
        &&& self.id.amount == self.amount
        &&& self.id.proposer == self.proposer
        &&& self.id.created_at == self.created_at
        &&& self.amount > 0
        &&& distinct_addresses(self.signatures)
        &&& match nonce_of(nonces, self.proposer) {
            Some(v) => self.id.nonce <= v,
            None => false,
        }
    }
}

impl BatchM {
    /// Internal consistency of one stored batch, mirroring
    /// [`TransactionM::wf_in`].
    pub open spec fn wf_in(self, nonces: Seq<NonceEntry>) -> bool {
        &&& self.id.proposer == self.proposer
        &&& self.id.created_at == self.created_at
        &&& distinct_addresses(self.signatures)
        &&& match nonce_of(nonces, self.proposer) {
            Some(v) => self.id.nonce <= v,
            None => false,
        }
    }
}

impl WalletM {
    pub open spec fn has_tx(self, id: TxId) -> bool {
        tx_idx(self.transactions, id) != -1
    }

    pub open spec fn tx_of(self, id: TxId) -> TransactionM
        recommends
            self.has_tx(id),
    {
        self.transactions[tx_idx(self.transactions, id)]
    }

    pub open spec fn has_batch(self, id: BatchId) -> bool {
        batch_idx(self.batches, id) != -1
    }

    pub open spec fn batch_of(self, id: BatchId) -> BatchM
        recommends
            self.has_batch(id),
    {
        self.batches[batch_idx(self.batches, id)]
    }

    /// Every member of every batch is a stored transaction tagged with that
    /// batch's id.  Since a transaction is only tagged when it carries no
    /// tag yet, it can belong to at most one batch.
    pub open spec fn batch_members_tagged(self) -> bool {
        forall|i: int, k: int|
            0 <= i < self.batches.len() && 0 <= k < self.batches[i].transactions.len() ==> {
                let t = tx_idx(self.transactions, #[trigger] self.batches[i].transactions[k]);
                &&& t != -1
                &&& self.transactions[t].batch_id == Some(self.batches[i].id)
            }
    }

    /// The state invariant: every operation requires it and maintains it.
    pub open spec fn wf(self) -> bool {
        &&& valid_config(self.config)
        &&& forall|i: int, j: int|
            0 <= i < j < self.signers.len() ==> self.signers[i].address
                != self.signers[j].address
        &&& forall|i: int| 0 <= i < self.signers.len() ==> (#[trigger] self.signers[i]).weight >= 1
        &&& forall|i: int, j: int|
            0 <= i < j < self.nonces.used_nonces.len() ==> self.nonces.used_nonces[i].address
                != self.nonces.used_nonces[j].address
        &&& forall|i: int, j: int|
            0 <= i < j < self.transactions.len() ==> self.transactions[i].id
                != self.transactions[j].id
        &&& forall|i: int|
            0 <= i < self.transactions.len() ==> (#[trigger] self.transactions[i]).wf_in(
                self.nonces.used_nonces,
            )
        &&& forall|i: int, j: int|
            0 <= i < j < self.batches.len() ==> self.batches[i].id != self.batches[j].id
        &&& forall|i: int|
            0 <= i < self.batches.len() ==> (#[trigger] self.batches[i]).wf_in(
                self.nonces.used_nonces,
            )
        &&& self.batch_members_tagged()
        &&& forall|i: int, j: int|
            0 <= i < j < self.daily.len() ==> self.daily[i].date != self.daily[j].date
        &&& forall|i: int| 0 <= i < self.daily.len() ==> (#[trigger] self.daily[i]).spent >= 0
    }
}

// ------------------------------------------------------------------
// Initialization
// ------------------------------------------------------------------

/// Initialization succeeds for a valid configuration and duplicate-free
/// initial signers.
pub open spec fn can_initialize(config: WalletConfig, initial_signers: Seq<Address>) -> bool {
    valid_config(config) && distinct_addresses(initial_signers)
}

pub open spec fn initialize_error(config: WalletConfig, initial_signers: Seq<Address>) -> MultisigError {
    if !valid_config(config) {
        config_error(config)
    } else {
        MultisigError::DuplicateSigner
    }
}

/// The state a fresh wallet starts in: each initial signer is an active
/// owner of weight 1, and nothing has been proposed or spent.
pub open spec fn initial_state(
    admin: Address,
    config: WalletConfig,
    initial_signers: Seq<Address>,
    now: u64,
) -> WalletM {
    WalletM {
        admin,
        config,
        paused: false,
        version: 1,
        frozen: false,
        unfreeze_time: None,
        signers: Seq::new(
            initial_signers.len(),
            |i: int|
                Signer {
                    address: initial_signers[i],
                    role: crate::storage_types::Role::Owner,
                    weight: 1,
                    daily_spent: 0,
                    last_spending_reset: now,
                    active: true,
                    added_at: now,
                },
        ),
        nonces: NonceManagerM { current_nonce: 0, used_nonces: Seq::empty() },
        queue: TimelockQueueM {
            pending: Seq::empty(),
            ready: Seq::empty(),
            executed: Seq::empty(),
        },
        transactions: Seq::empty(),
        batches: Seq::empty(),
        daily: Seq::empty(),
    }
}

// ------------------------------------------------------------------
// Operations on the transaction state machine
// ------------------------------------------------------------------

impl WalletM {
    pub open spec fn can_propose(
        self,
        amount: i128,
        proposer: Address,
        nonce: u64,
    ) -> bool {
        &&& !self.paused
        &&& !self.frozen
        &&& nonce_fresh(self.nonces.used_nonces, proposer, nonce)
        &&& is_active_signer(self.signers, proposer)
        &&& amount > 0
    }

    pub open spec fn propose_error(
        self,
        amount: i128,
        proposer: Address,
        nonce: u64,
    ) -> MultisigError {
        if self.paused {
            MultisigError::ContractPaused
        } else if self.frozen {
            MultisigError::WalletFrozen
        } else if !nonce_fresh(self.nonces.used_nonces, proposer, nonce) {
            MultisigError::NonceUsed
        } else if signer_idx(self.signers, proposer) == -1 {
            MultisigError::InvalidSigner
        } else if !self.signers[signer_idx(self.signers, proposer)].active {
            MultisigError::SignerNotActive
        } else {
            MultisigError::InvalidAmount
        }
    }

    /// The id a proposal made now with these fields receives.
    pub open spec fn proposed_id(
        self,
        to: Address,
        token: Address,
        amount: i128,
        proposer: Address,
        nonce: u64,
        now: u64,
    ) -> TxId {
        TxId { to, token, amount, proposer, nonce, created_at: now }
    }

    pub open spec fn proposed_tx(
        self,
        to: Address,
        token: Address,
        amount: i128,
        data: Seq<u8>,
        proposer: Address,
        nonce: u64,
        now: u64,
    ) -> TransactionM {
        TransactionM {
            id: self.proposed_id(to, token, amount, proposer, nonce, now),
            to,
            token,
            amount,
            data,
            proposer,
            signatures: Seq::empty(),
            status: TransactionStatus::Proposed,
            created_at: now,
            expires_at: (now + self.config.transaction_expiry) as u64,
            timelock_until: if amount >= self.config.timelock_threshold {
                (now + self.config.timelock_duration) as u64
            } else {
                0u64
            },
            batch_id: None,
        }
    }

    pub open spec fn propose_next(
        self,
        to: Address,
        token: Address,
        amount: i128,
        data: Seq<u8>,
        proposer: Address,
        nonce: u64,
        now: u64,
    ) -> WalletM {
        let tx = self.proposed_tx(to, token, amount, data, proposer, nonce, now);
        WalletM {
            transactions: self.transactions.push(tx),
            nonces: NonceManagerM {
                current_nonce: self.nonces.current_nonce,
                used_nonces: record_nonce(self.nonces.used_nonces, proposer, nonce),
            },
            queue: if tx.timelock_until > 0 {
                TimelockQueueM { pending: self.queue.pending.push(tx.id), ..self.queue }
            } else {
                self.queue
            },
            ..self
        }
    }

    pub open spec fn can_sign_tx(self, id: TxId, signer: Address, now: u64) -> bool {
        let t = tx_idx(self.transactions, id);
        &&& t != -1
        &&& self.transactions[t].status is Proposed
        &&& now <= self.transactions[t].expires_at
        &&& is_active_signer(self.signers, signer)
        &&& !self.transactions[t].signatures.contains(signer)
    }

    pub open spec fn sign_tx_error(self, id: TxId, signer: Address, now: u64) -> MultisigError {
        let t = tx_idx(self.transactions, id);
        if t == -1 {
            MultisigError::TransactionNotFound
        } else if !(self.transactions[t].status is Proposed) {
            MultisigError::InvalidStatus
        } else if now > self.transactions[t].expires_at {
            MultisigError::TransactionExpired
        } else if signer_idx(self.signers, signer) == -1 {
            MultisigError::InvalidSigner
        } else if !self.signers[signer_idx(self.signers, signer)].active {
            MultisigError::SignerNotActive
        } else {
            MultisigError::AlreadySigned
        }
    }

    /// Appends the signature and re-evaluates approval against the live
    /// registry: the transaction becomes `Approved` exactly when the
    /// accumulated weight of its currently active signatories reaches `m`.
    pub open spec fn sign_tx_next(self, id: TxId, signer: Address) -> WalletM {
        let t = tx_idx(self.transactions, id);
        let tx = self.transactions[t];
        let sigs = tx.signatures.push(signer);
        let approved = signed_weight(self.signers, sigs) >= self.config.m;
        let tx2 = TransactionM {
            signatures: sigs,
            status: if approved {
                TransactionStatus::Approved
            } else {
                TransactionStatus::Proposed
            },
            ..tx
        };
        WalletM { transactions: self.transactions.update(t, tx2), ..self }
    }

    pub open spec fn can_execute(self, id: TxId, now: u64) -> bool {
        let t = tx_idx(self.transactions, id);
        &&& t != -1
        &&& self.transactions[t].status is Approved
        &&& now <= self.transactions[t].expires_at
        &&& (self.transactions[t].timelock_until > 0 ==> now
            >= self.transactions[t].timelock_until)
        &&& spent_on(self.daily, day_of(now)) + self.transactions[t].amount <= limit_on(
            self.daily,
            day_of(now),
            self.config.daily_spending_limit,
        )
    }

    pub open spec fn execute_error(self, id: TxId, now: u64) -> MultisigError {
        let t = tx_idx(self.transactions, id);
        if t == -1 {
            MultisigError::TransactionNotFound
        } else if !(self.transactions[t].status is Approved) {
            MultisigError::InvalidStatus
        } else if now > self.transactions[t].expires_at {
            MultisigError::TransactionExpired
        } else if self.transactions[t].timelock_until > 0 && now
            < self.transactions[t].timelock_until {
            MultisigError::TimelockNotExpired
        } else {
            MultisigError::DailySpendingLimitExceeded
        }
    }

    /// The transfer the host is asked to perform on execution.
    pub open spec fn execute_transfer(self, id: TxId) -> Transfer {
        let tx = self.tx_of(id);
        Transfer { token: tx.token, to: tx.to, amount: tx.amount }
    }

    pub open spec fn execute_next(self, id: TxId, now: u64) -> WalletM {
        let t = tx_idx(self.transactions, id);
        let tx = self.transactions[t];
        let tx2 = TransactionM { status: TransactionStatus::Executed, ..tx };
        WalletM {
            transactions: self.transactions.update(t, tx2),
            daily: commit_spending(
                self.daily,
                day_of(now),
                tx.amount,
                self.config.daily_spending_limit,
            ),
            queue: if tx.timelock_until > 0 {
                TimelockQueueM {
                    ready: remove_first_id(self.queue.ready, id),
                    executed: self.queue.executed.push(id),
                    ..self.queue
                }
            } else {
                self.queue
            },
            ..self
        }
    }
}

/// Position of the first occurrence of `id`, or -1.
pub open spec fn txid_pos(ids: Seq<TxId>, id: TxId) -> int {
    first_match(ids, |x: TxId| x == id)
}

/// [`txid_pos`] finds exactly the first occurrence.
pub proof fn lemma_txid_pos(ids: Seq<TxId>, id: TxId)
    ensures
        txid_pos(ids, id) == -1 ==> forall|j: int| 0 <= j < ids.len() ==> ids[j] != id,
        txid_pos(ids, id) != -1 ==> 0 <= txid_pos(ids, id) < ids.len() && ids[txid_pos(ids, id)]
            == id && forall|j: int| 0 <= j < txid_pos(ids, id) ==> ids[j] != id,
    decreases ids.len(),
{
    if ids.len() > 0 && ids[0] != id {
        let tail = ids.subrange(1, ids.len() as int);
        lemma_txid_pos(tail, id);
        let r = txid_pos(tail, id);
        if r == -1 {
            assert forall|j: int| 0 <= j < ids.len() implies ids[j] != id by {
                if j > 0 {
                    assert(tail[j - 1] == ids[j]);
                }
            }
        } else {
            assert(ids[r + 1] == tail[r]);
            assert forall|j: int| 0 <= j < r + 1 implies ids[j] != id by {
                if j > 0 {
                    assert(tail[j - 1] == ids[j]);
                }
            }
        }
    }
}

/// The sequence with the first occurrence of `id` removed, if any.
pub open spec fn remove_first_id(ids: Seq<TxId>, id: TxId) -> Seq<TxId> {
    let i = txid_pos(ids, id);
    if i == -1 {
        ids
    } else {
        ids.remove(i)
    }
}

// ------------------------------------------------------------------
// Operations on the batch state machine
// ------------------------------------------------------------------

/// One prospective batch member is acceptable: stored, still `Proposed`,
/// and in no batch yet.
pub open spec fn member_ok(s: WalletM, id: TxId) -> bool {
    let t = tx_idx(s.transactions, id);
    &&& t != -1
    &&& s.transactions[t].status is Proposed
    &&& s.transactions[t].batch_id is None
}

pub open spec fn members_ok(s: WalletM, ids: Seq<TxId>) -> bool {
    forall|k: int| 0 <= k < ids.len() ==> member_ok(s, #[trigger] ids[k])
}

/// The error reported for the first unacceptable member.
pub open spec fn member_error(s: WalletM, ids: Seq<TxId>) -> MultisigError
    decreases ids.len(),
{
    if ids.len() == 0 {
        MultisigError::InvalidBatch
    } else {
        let t = tx_idx(s.transactions, ids[0]);
        if t == -1 {
            MultisigError::TransactionNotFound
        } else if !(s.transactions[t].status is Proposed) {
            MultisigError::InvalidStatus
        } else if s.transactions[t].batch_id is Some {
            MultisigError::InvalidBatch
        } else {
            member_error(s, ids.subrange(1, ids.len() as int))
        }
    }
}

/// Tags the transaction `id` as belonging to batch `bid`.
pub open spec fn tag_one(txs: Seq<TransactionM>, id: TxId, bid: BatchId) -> Seq<TransactionM> {
    let t = tx_idx(txs, id);
    if t == -1 {
        txs
    } else {
        txs.update(t, TransactionM { batch_id: Some(bid), ..txs[t] })
    }
}

pub open spec fn tag_members(txs: Seq<TransactionM>, ids: Seq<TxId>, bid: BatchId) -> Seq<
    TransactionM,
>
    decreases ids.len(),
{
    if ids.len() == 0 {
        txs
    } else {
        tag_members(tag_one(txs, ids[0], bid), ids.subrange(1, ids.len() as int), bid)
    }
}

impl WalletM {
    pub open spec fn can_propose_batch(
        self,
        ids: Seq<TxId>,
        proposer: Address,
        nonce: u64,
    ) -> bool {
        &&& !self.paused
        &&& !self.frozen
        &&& nonce_fresh(self.nonces.used_nonces, proposer, nonce)
        &&& is_active_signer(self.signers, proposer)
        &&& ids.len() <= self.config.max_batch_size
        &&& members_ok(self, ids)
    }

    pub open spec fn propose_batch_error(
        self,
        ids: Seq<TxId>,
        proposer: Address,
        nonce: u64,
    ) -> MultisigError {
        if self.paused {
            MultisigError::ContractPaused
        } else if self.frozen {
            MultisigError::WalletFrozen
        } else if !nonce_fresh(self.nonces.used_nonces, proposer, nonce) {
            MultisigError::NonceUsed
        } else if signer_idx(self.signers, proposer) == -1 {
            MultisigError::InvalidSigner
        } else if !self.signers[signer_idx(self.signers, proposer)].active {
            MultisigError::SignerNotActive
        } else if ids.len() > self.config.max_batch_size {
            MultisigError::BatchSizeExceeded
        } else {
            member_error(self, ids)
        }
    }

    pub open spec fn proposed_batch_id(self, proposer: Address, nonce: u64, now: u64) -> BatchId {
        BatchId { proposer, nonce, created_at: now }
    }

    pub open spec fn propose_batch_next(
        self,
        ids: Seq<TxId>,
        proposer: Address,
        nonce: u64,
        now: u64,
    ) -> WalletM {
        let bid = self.proposed_batch_id(proposer, nonce, now);
        let batch = BatchM {
            id: bid,
            transactions: ids,
            proposer,
            signatures: Seq::empty(),
            status: BatchStatus::Proposed,
            created_at: now,
            expires_at: (now + self.config.transaction_expiry) as u64,
        };
        WalletM {
            batches: self.batches.push(batch),
            transactions: tag_members(self.transactions, ids, bid),
            nonces: NonceManagerM {
                current_nonce: self.nonces.current_nonce,
                used_nonces: record_nonce(self.nonces.used_nonces, proposer, nonce),
            },
            ..self
        }
    }

    pub open spec fn can_sign_batch(self, id: BatchId, signer: Address, now: u64) -> bool {
        let b = batch_idx(self.batches, id);
        &&& b != -1
        &&& self.batches[b].status is Proposed
        &&& now <= self.batches[b].expires_at
        &&& is_active_signer(self.signers, signer)
        &&& !self.batches[b].signatures.contains(signer)
    }

    pub open spec fn sign_batch_error(self, id: BatchId, signer: Address, now: u64) -> MultisigError {
        let b = batch_idx(self.batches, id);
        if b == -1 {
            MultisigError::BatchNotFound
        } else if !(self.batches[b].status is Proposed) {
            MultisigError::InvalidStatus
        } else if now > self.batches[b].expires_at {
            MultisigError::BatchExpired
        } else if signer_idx(self.signers, signer) == -1 {
            MultisigError::InvalidSigner
        } else if !self.signers[signer_idx(self.signers, signer)].active {
            MultisigError::SignerNotActive
        } else {
            MultisigError::AlreadySigned
        }
    }

    /// Mirrors [`WalletM::sign_tx_next`] for the batch's own signature list.
    pub open spec fn sign_batch_next(self, id: BatchId, signer: Address) -> WalletM {
        let b = batch_idx(self.batches, id);
        let batch = self.batches[b];
        let sigs = batch.signatures.push(signer);
        let approved = signed_weight(self.signers, sigs) >= self.config.m;
        let batch2 = BatchM {
            signatures: sigs,
            status: if approved {
                BatchStatus::Approved
            } else {
                BatchStatus::Proposed
            },
            ..batch
        };
        WalletM { batches: self.batches.update(b, batch2), ..self }
    }

    pub open spec fn can_execute_batch(self, id: BatchId, now: u64) -> bool {
        let b = batch_idx(self.batches, id);
        &&& b != -1
        &&& self.batches[b].status is Approved
        &&& now <= self.batches[b].expires_at
    }

    pub open spec fn execute_batch_error(self, id: BatchId, now: u64) -> MultisigError {
        let b = batch_idx(self.batches, id);
        if b == -1 {
            MultisigError::BatchNotFound
        } else if !(self.batches[b].status is Approved) {
            MultisigError::InvalidStatus
        } else {
            MultisigError::BatchExpired
        }
    }

    pub open spec fn execute_batch_next(self, id: BatchId, now: u64) -> WalletM {
        let b = batch_idx(self.batches, id);
        let s1 = exec_members(self, self.batches[b].transactions, day_of(now));
        WalletM {
            batches: self.batches.update(
                b,
                BatchM { status: BatchStatus::Executed, ..self.batches[b] },
            ),
            transactions: s1.transactions,
            daily: s1.daily,
            ..self
        }
    }

    /// The transfers a batch execution hands to the host, in member order.
    pub open spec fn execute_batch_transfers(self, id: BatchId, now: u64) -> Seq<Transfer> {
        let b = batch_idx(self.batches, id);
        exec_transfers(self, self.batches[b].transactions, day_of(now))
    }
}

/// Executes one batch member if it is currently `Approved`; otherwise the
/// member is skipped and the state is unchanged.
pub open spec fn exec_member(s: WalletM, id: TxId, date: u64) -> WalletM {
    let t = tx_idx(s.transactions, id);
    if t == -1 {
        s
    } else if s.transactions[t].status is Approved {
        WalletM {
            transactions: s.transactions.update(
                t,
                TransactionM { status: TransactionStatus::Executed, ..s.transactions[t] },
            ),
            daily: commit_spending(
                s.daily,
                date,
                s.transactions[t].amount,
                s.config.daily_spending_limit,
            ),
            ..s
        }
    } else {
        s
    }
}

/// The transfer a member contributes: one if it executes, none if skipped.
pub open spec fn member_transfer(s: WalletM, id: TxId) -> Seq<Transfer> {
    let t = tx_idx(s.transactions, id);
    if t != -1 && s.transactions[t].status is Approved {
        seq![
            Transfer {
                token: s.transactions[t].token,
                to: s.transactions[t].to,
                amount: s.transactions[t].amount,
            },
        ]
    } else {
        Seq::empty()
    }
}

pub open spec fn exec_members(s: WalletM, ids: Seq<TxId>, date: u64) -> WalletM
    decreases ids.len(),
{
    if ids.len() == 0 {
        s
    } else {
        exec_members(exec_member(s, ids[0], date), ids.subrange(1, ids.len() as int), date)
    }
}

pub open spec fn exec_transfers(s: WalletM, ids: Seq<TxId>, date: u64) -> Seq<Transfer>
    decreases ids.len(),
{
    if ids.len() == 0 {
        Seq::empty()
    } else {
        member_transfer(s, ids[0]) + exec_transfers(
            exec_member(s, ids[0], date),
            ids.subrange(1, ids.len() as int),
            date,
        )
    }
}

// ------------------------------------------------------------------
// Administration
// ------------------------------------------------------------------

impl WalletM {
    pub open spec fn can_add_signer(self, caller: Address, address: Address, weight: u32) -> bool {
        &&& caller == self.admin
        &&& signer_idx(self.signers, address) == -1
        &&& weight >= 1
    }

    pub open spec fn add_signer_error(self, caller: Address, address: Address, weight: u32) -> MultisigError {
        if caller != self.admin {
            MultisigError::Unauthorized
        } else if signer_idx(self.signers, address) != -1 {
            MultisigError::DuplicateSigner
        } else {
            MultisigError::InvalidSigner
        }
    }

    pub open spec fn add_signer_next(
        self,
        address: Address,
        role: crate::storage_types::Role,
        weight: u32,
        now: u64,
    ) -> WalletM {
        WalletM {
            signers: self.signers.push(
                Signer {
                    address,
                    role,
                    weight,
                    daily_spent: 0,
                    last_spending_reset: now,
                    active: true,
                    added_at: now,
                },
            ),
            ..self
        }
    }

    /// Removal is allowed only while the active-signer count that would
    /// remain still covers the required weight threshold `m`.
    pub open spec fn can_remove_signer(self, caller: Address, address: Address) -> bool {
        &&& caller == self.admin
        &&& signer_idx(self.signers, address) != -1
        &&& active_count(self.signers) - (if self.signers[signer_idx(
            self.signers,
            address,
        )].active {
            1int
        } else {
            0int
        }) >= self.config.m
    }

    pub open spec fn remove_signer_error(self, caller: Address, address: Address) -> MultisigError {
        if caller != self.admin {
            MultisigError::Unauthorized
        } else if signer_idx(self.signers, address) == -1 {
            MultisigError::InvalidSigner
        } else {
            MultisigError::InvalidMOfN
        }
    }

    pub open spec fn remove_signer_next(self, address: Address) -> WalletM {
        WalletM { signers: self.signers.remove(signer_idx(self.signers, address)), ..self }
    }

    pub open spec fn freeze_next(self, duration: u64, now: u64) -> WalletM {
        WalletM { frozen: true, unfreeze_time: Some((now + duration) as u64), ..self }
    }

    /// Unfreezing is open to the admin at any time, and to anyone once the
    /// advisory unfreeze time has passed.
    pub open spec fn can_unfreeze(self, caller: Address, now: u64) -> bool {
        caller == self.admin || match self.unfreeze_time {
            Some(t) => now >= t,
            None => false,
        }
    }

    pub open spec fn unfreeze_next(self) -> WalletM {
        WalletM { frozen: false, unfreeze_time: None, ..self }
    }
}

} // verus!
