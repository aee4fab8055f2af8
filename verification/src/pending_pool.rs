//! The pending pool: time-locked transactions waiting for their locks to
//! expire.
//!
//! The pool keys every transaction by the excess signature of its first
//! kernel and orders it by fee-per-weight priority. Under capacity pressure
//! the lowest-priority resident makes room for a higher-priority newcomer and
//! is dropped otherwise. When a block is published, transactions whose locks
//! have expired leave the pool for the unconfirmed pool, and transactions
//! that double-spend an input the block consumed are discarded.

use vstd::prelude::*;

verus! {

use crate::blocks::Block;
use crate::transactions::{copy_inputs, copy_kernels, copy_outputs, AggregateBody, Signature, Transaction};

broadcast use vstd::seq_lib::group_to_multiset_ensures;

/// Default capacity of the pending pool.
pub const MEMPOOL_PENDING_POOL_STORAGE_CAPACITY: usize = 5000;

/// Configuration for the pending pool.
#[derive(Clone, Copy, Debug, PartialEq, Eq, Structural)]
pub struct PendingPoolConfig {
    /// The maximum number of transactions that can be stored in the pool.
    pub storage_capacity: usize,
}

impl Default for PendingPoolConfig {
    fn default() -> (r: Self)
        ensures
            r.storage_capacity == MEMPOOL_PENDING_POOL_STORAGE_CAPACITY,
    {
        PendingPoolConfig { storage_capacity: MEMPOOL_PENDING_POOL_STORAGE_CAPACITY }
    }
}

/// Errors reported by the pending pool. With the pool behind a lock, a
/// poisoned lock maps here; the verified pool itself never fails, so its
/// operations return every result through `Ok`.
#[derive(Clone, Copy, Debug, PartialEq, Eq, Structural)]
pub enum PendingPoolError {
    /// A shared handle's lock was poisoned by a panicked writer.
    PoisonedAccess,
}

/// A transaction carries at least one kernel, whose excess signature keys it.
pub open spec fn tx_valid(t: Transaction) -> bool {
    t.body.spec_kernels().len() >= 1
}

/// The pool key of a transaction: the excess signature of its first kernel.
pub open spec fn tx_key(t: Transaction) -> Signature {
    t.body.spec_kernels()[0].excess_sig
}

/// Fee-per-weight priority order with the pool key as tiebreak: `a` sorts
/// strictly below `b` when its fee rate is lower, or equal with a smaller
/// key. Over transactions with distinct keys this is a strict total order.
pub open spec fn prio_lt(a: Transaction, b: Transaction) -> bool {
    let cross_a = a.spec_total_fee_capped() * b.spec_weight();
    let cross_b = b.spec_total_fee_capped() * a.spec_weight();
    ||| cross_a < cross_b
    ||| (cross_a == cross_b && tx_key(a).spec_order_key() < tx_key(b).spec_order_key())
}

/// Some transaction in the sequence carries this pool key.
pub open spec fn has_key(s: Seq<Transaction>, sig: Signature) -> bool {
    exists|i: int| 0 <= i < s.len() && tx_key(#[trigger] s[i]) == sig
}

/// The sequence is strictly ascending in priority.
pub open spec fn pool_sorted(s: Seq<Transaction>) -> bool {
    forall|i: int, j: int| 0 <= i < j < s.len() ==> prio_lt(#[trigger] s[i], #[trigger] s[j])
}

/// Every transaction in the sequence is valid.
pub open spec fn all_valid(s: Seq<Transaction>) -> bool {
    forall|i: int| 0 <= i < s.len() ==> tx_valid(#[trigger] s[i])
}

/// No two transactions in the sequence share a pool key.
pub open spec fn keys_distinct(s: Seq<Transaction>) -> bool {
    forall|i: int, j: int| 0 <= i < j < s.len() ==> tx_key(#[trigger] s[i]) != tx_key(
        #[trigger] s[j],
    )
}

/// Equal order keys mean equal signatures.
pub proof fn lemma_order_key_injective(a: Signature, b: Signature)
    requires
        a.spec_order_key() == b.spec_order_key(),
    ensures
        a == b,
{
}

/// The priority order is connex: two transactions that each fail to sort
/// below the other share a pool key.
pub proof fn lemma_prio_connex(a: Transaction, b: Transaction)
    requires
        !prio_lt(a, b),
        !prio_lt(b, a),
    ensures
        tx_key(a) == tx_key(b),
{
    lemma_order_key_injective(tx_key(a), tx_key(b));
}

/// Insert a transaction into a priority-sorted sequence, keeping the order.
pub open spec fn seq_insert_sorted(s: Seq<Transaction>, tx: Transaction) -> Seq<Transaction>
    decreases s.len(),
{
    if s.len() == 0 {
        seq![tx]
    } else if prio_lt(tx, s[0]) {
        seq![tx] + s
    } else {
        seq![s[0]] + seq_insert_sorted(s.drop_first(), tx)
    }
}

/// `seq_insert_sorted` places the transaction exactly at the first position
/// whose resident sorts above it.
pub proof fn lemma_seq_insert_sorted_at(s: Seq<Transaction>, tx: Transaction, idx: int)
    requires
        0 <= idx <= s.len(),
        forall|t: int| 0 <= t < idx ==> !prio_lt(tx, #[trigger] s[t]),
        idx < s.len() ==> prio_lt(tx, s[idx]),
    ensures
        seq_insert_sorted(s, tx) =~= s.insert(idx, tx),
    decreases s.len(),
{
    if s.len() == 0 {
        assert(seq_insert_sorted(s, tx) =~= s.insert(0, tx));
    } else if idx == 0 {
        assert(seq_insert_sorted(s, tx) =~= s.insert(0, tx));
    } else {
        let rest = s.drop_first();
        assert forall|t: int| 0 <= t < idx - 1 implies !prio_lt(tx, #[trigger] rest[t]) by {
            assert(rest[t] == s[t + 1]);
        }
        lemma_seq_insert_sorted_at(rest, tx, idx - 1);
        assert(seq_insert_sorted(s, tx) =~= s.insert(idx, tx));
    }
}

/// What `seq_insert_sorted` does to a sorted pool of valid transactions with
/// a fresh key: the order is kept, the contents grow by exactly the new
/// transaction, and membership grows by exactly its key.
pub proof fn lemma_seq_insert_sorted_props(s: Seq<Transaction>, tx: Transaction, idx: int)
    requires
        pool_sorted(s),
        all_valid(s),
        keys_distinct(s),
        tx_valid(tx),
        !has_key(s, tx_key(tx)),
        0 <= idx <= s.len(),
        forall|t: int| 0 <= t < idx ==> !prio_lt(tx, #[trigger] s[t]),
        idx < s.len() ==> prio_lt(tx, s[idx]),
    ensures
        pool_sorted(s.insert(idx, tx)),
        all_valid(s.insert(idx, tx)),
        keys_distinct(s.insert(idx, tx)),
        s.insert(idx, tx).to_multiset() == s.to_multiset().insert(tx),
        s.insert(idx, tx).len() == s.len() + 1,
        forall|sig: Signature| has_key(s.insert(idx, tx), sig) == (has_key(s, sig) || sig
            == tx_key(tx)),
{
    let r = s.insert(idx, tx);
    s.insert_ensures(idx, tx);
    assert forall|i: int, j: int| 0 <= i < j < r.len() implies prio_lt(
        #[trigger] r[i],
        #[trigger] r[j],
    ) by {
        if i == idx {
            // r[i] is tx and r[j] == s[j - 1] with idx <= j - 1 < s.len()
            assert(r[j] == s[j - 1]);
            assert(prio_lt(tx, s[idx]));
            if j - 1 > idx {
                assert(prio_lt(s[idx], s[j - 1]));
                lemma_prio_trans(tx, s[idx], s[j - 1]);
            }
        } else if j == idx {
            // r[j] is tx; r[i] == s[i] with i < idx, so !prio_lt(tx, s[i])
            if !prio_lt(s[i], tx) {
                lemma_prio_connex(tx, s[i]);
                assert(has_key(s, tx_key(tx)));
            }
        } else {
            assert(r[i] == (if i < idx {
                s[i]
            } else {
                s[i - 1]
            }));
            assert(r[j] == (if j < idx {
                s[j]
            } else {
                s[j - 1]
            }));
        }
    }
    assert(all_valid(r)) by {
        assert forall|i: int| 0 <= i < r.len() implies tx_valid(#[trigger] r[i]) by {
            if i != idx {
                assert(r[i] == (if i < idx {
                    s[i]
                } else {
                    s[i - 1]
                }));
            }
        }
    }
    assert(keys_distinct(r)) by {
        assert forall|i: int, j: int| 0 <= i < j < r.len() implies tx_key(#[trigger] r[i])
            != tx_key(#[trigger] r[j]) by {
            if i != idx {
                assert(r[i] == (if i < idx {
                    s[i]
                } else {
                    s[i - 1]
                }));
                if tx_key(r[i]) == tx_key(tx) {
                    assert(has_key(s, tx_key(tx)));
                }
            }
            if j != idx {
                assert(r[j] == (if j < idx {
                    s[j]
                } else {
                    s[j - 1]
                }));
                if tx_key(r[j]) == tx_key(tx) {
                    assert(has_key(s, tx_key(tx)));
                }
            }
        }
    }
    assert(r.to_multiset() == s.to_multiset().insert(tx)) by {
        let left = s.subrange(0, idx);
        let right = s.subrange(idx, s.len() as int);
        vstd::seq_lib::lemma_multiset_commutative(left.push(tx), right);
        vstd::seq_lib::lemma_multiset_commutative(left, right);
        assert(left.push(tx).to_multiset() =~= left.to_multiset().insert(tx));
        assert(left + right =~= s);
        assert(r.to_multiset() =~= s.to_multiset().insert(tx));
    }
    assert forall|sig: Signature| has_key(r, sig) == (has_key(s, sig) || sig == tx_key(tx)) by {
        if has_key(s, sig) {
            let w = choose|i: int| 0 <= i < s.len() && tx_key(#[trigger] s[i]) == sig;
            if w < idx {
                assert(tx_key(r[w]) == sig);
            } else {
                assert(tx_key(r[w + 1]) == sig);
            }
        }
        if sig == tx_key(tx) {
            assert(tx_key(r[idx]) == sig);
        }
        if has_key(r, sig) && sig != tx_key(tx) {
            let w = choose|i: int| 0 <= i < r.len() && tx_key(#[trigger] r[i]) == sig;
            if w < idx {
                assert(tx_key(s[w]) == sig);
            } else {
                assert(w != idx);
                assert(tx_key(s[w - 1]) == sig);
            }
        }
    }
}

/// A valid transaction's weight is at least one.
pub proof fn lemma_valid_weight_pos(t: Transaction)
    requires
        tx_valid(t),
    ensures
        t.spec_weight() >= 1,
        t.spec_total_fee_capped() >= 0,
{
    crate::transactions::lemma_kernel_fee_sum_nonneg(
        t.body.spec_kernels(),
        t.body.spec_kernels().len() as int,
    );
}

/// The priority order is transitive over valid transactions.
pub proof fn lemma_prio_trans(a: Transaction, b: Transaction, c: Transaction)
    requires
        tx_valid(a),
        tx_valid(b),
        tx_valid(c),
        prio_lt(a, b),
        prio_lt(b, c),
    ensures
        prio_lt(a, c),
{
    let fa = a.spec_total_fee_capped();
    let fb = b.spec_total_fee_capped();
    let fc = c.spec_total_fee_capped();
    let wa = a.spec_weight();
    let wb = b.spec_weight();
    let wc = c.spec_weight();
    lemma_valid_weight_pos(a);
    lemma_valid_weight_pos(b);
    lemma_valid_weight_pos(c);
    if fa * wb < fb * wa {
        assert(fa * wc < fc * wa) by (nonlinear_arith)
            requires
                fa * wb < fb * wa,
                fb * wc <= fc * wb,
                0 <= fa && 0 <= fb && 0 <= fc,
                1 <= wa && 1 <= wb && 1 <= wc,
        ;
    } else if fb * wc < fc * wb {
        assert(fa * wc < fc * wa) by (nonlinear_arith)
            requires
                fa * wb == fb * wa,
                fb * wc < fc * wb,
                0 <= fa && 0 <= fb && 0 <= fc,
                1 <= wa && 1 <= wb && 1 <= wc,
        ;
    } else {
        assert(fa * wc == fc * wa) by (nonlinear_arith)
            requires
                fa * wb == fb * wa,
                fb * wc == fc * wb,
                0 <= fa && 0 <= fb && 0 <= fc,
                1 <= wa && 1 <= wb && 1 <= wc,
        ;
    }
}

/// What a single insert does to the pool's contents: a duplicate key is
/// ignored; below capacity the transaction joins in priority order; at
/// capacity it replaces the lowest-priority resident when it outranks it and
/// is dropped otherwise.
pub open spec fn spec_pool_insert(s: Seq<Transaction>, cap: int, tx: Transaction) -> Seq<
    Transaction,
> {
    if has_key(s, tx_key(tx)) {
        s
    } else if s.len() < cap {
        seq_insert_sorted(s, tx)
    } else if s.len() > 0 && prio_lt(s[0], tx) {
        seq_insert_sorted(s.drop_first(), tx)
    } else {
        s
    }
}

/// The first `i` transactions of `txs` inserted into `s` in order.
pub open spec fn spec_pool_insert_all(
    s: Seq<Transaction>,
    cap: int,
    txs: Seq<Transaction>,
    i: int,
) -> Seq<Transaction>
    decreases i,
{
    if i <= 0 {
        s
    } else {
        spec_pool_insert(spec_pool_insert_all(s, cap, txs, i - 1), cap, txs[i - 1])
    }
}

/// The time-lock index entry of a transaction: its greatest time lock and its
/// pool key.
pub open spec fn pair_of(t: Transaction) -> (u64, Signature) {
    (t.spec_max_timelock_height() as u64, tx_key(t))
}

/// The pending pool of time-locked transactions: the transaction map in
/// ascending priority order, beside the time-lock index.
pub struct PendingPool {
    config: PendingPoolConfig,
    txs_by_priority: Vec<Transaction>,
    txs_by_timelock: Vec<(u64, Signature)>,
}

impl PendingPool {
    /// The pooled transactions in ascending priority order.
    pub closed spec fn spec_txs(self) -> Seq<Transaction> {
        self.txs_by_priority@
    }

    /// The time-lock index: unlock height and key per pooled transaction.
    pub closed spec fn spec_timelock_index(self) -> Seq<(u64, Signature)> {
        self.txs_by_timelock@
    }

    /// The configured capacity.
    pub closed spec fn spec_capacity(self) -> int {
        self.config.storage_capacity as int
    }

    /// The pool's consistency invariant: all residents are valid, strictly
    /// ordered by priority (so keys are distinct), within capacity, and the
    /// time-lock index carries exactly the residents' locks and keys.
    pub open spec fn wf(self) -> bool {
        &&& all_valid(self.spec_txs())
        &&& pool_sorted(self.spec_txs())
        &&& keys_distinct(self.spec_txs())
        &&& self.spec_txs().len() <= self.spec_capacity()
        &&& self.spec_timelock_index() == self.spec_txs().map_values(|t: Transaction| pair_of(t))
    }

    /// A transaction with this key is in the pool.
    pub open spec fn spec_has_tx(self, sig: Signature) -> bool {
        has_key(self.spec_txs(), sig)
    }

    /// Create an empty pool with the specified configuration.
    pub fn new(config: PendingPoolConfig) -> (r: Self)
        ensures
            r.wf(),
            r.spec_txs() == Seq::<Transaction>::empty(),
            r.spec_capacity() == config.storage_capacity,
    {
        let r = PendingPool {
            config,
            txs_by_priority: Vec::new(),
            txs_by_timelock: Vec::new(),
        };
        proof {
            assert(r.spec_timelock_index() =~= r.spec_txs().map_values(
                |t: Transaction| pair_of(t),
            ));
        }
        r
    }

    /// Check whether a transaction with the given excess signature is stored
    /// in the pool.
    pub fn has_tx_with_excess_sig(&self, excess_sig: &Signature) -> (r: Result<
        bool,
        PendingPoolError,
    >)
        requires
            self.wf(),
        ensures
            r == Ok::<bool, PendingPoolError>(self.spec_has_tx(*excess_sig)),
    {
        let mut i: usize = 0;
        while i < self.txs_by_priority.len()
            invariant
                self.wf(),
                i <= self.spec_txs().len(),
                forall|t: int| 0 <= t < i ==> tx_key(#[trigger] self.spec_txs()[t]) != *excess_sig,
            decreases self.spec_txs().len() - i,
        {
            let key = self.txs_by_priority[i].body.kernels()[0].excess_sig;
            if key.public_nonce == excess_sig.public_nonce && key.signature
                == excess_sig.signature {
                return Ok(true);
            }
            i += 1;
        }
        Ok(false)
    }

    /// The number of time-locked transactions stored in the pool.
    pub fn len(&self) -> (r: Result<usize, PendingPoolError>)
        ensures
            (r matches Ok(n) && n == self.spec_txs().len()),
    {
        Ok(self.txs_by_priority.len())
    }

    /// Place a fresh transaction at its priority position in both structures.
    fn insert_at_position(&mut self, tx: Transaction)
        requires
            old(self).wf(),
            tx_valid(tx),
            !old(self).spec_has_tx(tx_key(tx)),
            old(self).spec_txs().len() < old(self).spec_capacity(),
        ensures
            final(self).wf(),
            final(self).spec_capacity() == old(self).spec_capacity(),
            final(self).spec_txs() == seq_insert_sorted(old(self).spec_txs(), tx),
    {
        let ghost s = self.txs_by_priority@;
        let mut idx: usize = 0;
        while idx < self.txs_by_priority.len() && !prio_less(&tx, &self.txs_by_priority[idx])
            invariant
                self.wf(),
                s == self.txs_by_priority@,
                tx_valid(tx),
                idx <= s.len(),
                forall|t: int| 0 <= t < idx ==> !prio_lt(tx, #[trigger] s[t]),
            decreases s.len() - idx,
        {
            idx += 1;
        }
        let height = tx.max_timelock_height();
        let key = tx.body.kernels()[0].excess_sig;
        proof {
            lemma_seq_insert_sorted_at(s, tx, idx as int);
            lemma_seq_insert_sorted_props(s, tx, idx as int);
        }
        self.txs_by_priority.insert(idx, tx);
        self.txs_by_timelock.insert(idx, (height, key));
        proof {
            assert(self.txs_by_timelock@ =~= self.txs_by_priority@.map_values(
                |t: Transaction| pair_of(t),
            ));
        }
    }

    /// Insert a transaction into the pool. A transaction whose key is already
    /// pooled leaves the pool unchanged. When the pool is full, the incoming
    /// transaction replaces the lowest-priority resident if it outranks it
    /// and is dropped otherwise.
    pub fn insert(&mut self, transaction: Transaction) -> (r: Result<(), PendingPoolError>)
        requires
            old(self).wf(),
            tx_valid(transaction),
        ensures
            final(self).wf(),
            final(self).spec_capacity() == old(self).spec_capacity(),
            r == Ok::<(), PendingPoolError>(()),
            final(self).spec_txs() == spec_pool_insert(
                old(self).spec_txs(),
                old(self).spec_capacity(),
                transaction,
            ),
    {
        let key = transaction.body.kernels()[0].excess_sig;
        let present = match self.has_tx_with_excess_sig(&key) {
            Ok(p) => p,
            Err(e) => {
                return Err(e);
            },
        };
        if present {
            return Ok(());
        }
        if self.txs_by_priority.len() < self.config.storage_capacity {
            self.insert_at_position(transaction);
        } else if self.txs_by_priority.len() > 0 && prio_less(
            &self.txs_by_priority[0],
            &transaction,
        ) {
            let ghost pre = self.txs_by_priority@;
            self.txs_by_priority.remove(0);
            self.txs_by_timelock.remove(0);
            proof {
                assert(self.txs_by_priority@ =~= pre.drop_first());
                assert(self.txs_by_timelock@ =~= self.txs_by_priority@.map_values(
                    |t: Transaction| pair_of(t),
                ));
                assert(!has_key(self.txs_by_priority@, tx_key(transaction)));
                let rest = self.txs_by_priority@;
                assert forall|a: int, b: int| 0 <= a < b < rest.len() implies prio_lt(
                    #[trigger] rest[a],
                    #[trigger] rest[b],
                ) && tx_key(rest[a]) != tx_key(rest[b]) by {
                    assert(rest[a] == pre[a + 1] && rest[b] == pre[b + 1]);
                }
                assert forall|a: int| 0 <= a < rest.len() implies tx_valid(#[trigger] rest[a]) by {
                    assert(rest[a] == pre[a + 1]);
                }
            }
            self.insert_at_position(transaction);
        }
        Ok(())
    }

    /// Insert a set of new transactions into the pool, in order.
    pub fn insert_txs(&mut self, transactions: Vec<Transaction>) -> (r: Result<
        (),
        PendingPoolError,
    >)
        requires
            old(self).wf(),
            all_valid(transactions@),
        ensures
            final(self).wf(),
            final(self).spec_capacity() == old(self).spec_capacity(),
            r == Ok::<(), PendingPoolError>(()),
            final(self).spec_txs() == spec_pool_insert_all(
                old(self).spec_txs(),
                old(self).spec_capacity(),
                transactions@,
                transactions@.len() as int,
            ),
    {
        let ghost orig = transactions@;
        let mut transactions = transactions;
        let ghost mut done: int = 0;
        while transactions.len() > 0
            invariant
                self.wf(),
                self.spec_capacity() == old(self).spec_capacity(),
                0 <= done,
                done + transactions@.len() == orig.len(),
                transactions@ == orig.skip(done),
                all_valid(orig),
                self.spec_txs() == spec_pool_insert_all(
                    old(self).spec_txs(),
                    old(self).spec_capacity(),
                    orig,
                    done,
                ),
            decreases transactions@.len(),
        {
            let tx = transactions.remove(0);
            assert(tx == orig[done]);
            let _ = self.insert(tx);
            proof {
                done = done + 1;
                assert(transactions@ =~= orig.skip(done));
            }
        }
        Ok(())
    }

    /// Process a freshly published block: discard every pooled transaction
    /// that double-spends an input the block consumed, and remove and return,
    /// in pool order, every remaining transaction whose time locks the
    /// block's height has satisfied, so they can move to the unconfirmed
    /// pool.
    pub fn remove_unlocked_and_discard_double_spends(&mut self, published_block: &Block) -> (r:
        Result<Vec<Transaction>, PendingPoolError>)
        requires
            old(self).wf(),
        ensures
            final(self).wf(),
            final(self).spec_capacity() == old(self).spec_capacity(),
            (r matches Ok(unlocked) && final(self).spec_txs() == spec_pool_after_block(
                old(self).spec_txs(),
                *published_block,
                old(self).spec_txs().len() as int,
            ) && unlocked@ == spec_unlocked_by_block(
                old(self).spec_txs(),
                *published_block,
                old(self).spec_txs().len() as int,
            )),
    {
        let ghost orig = self.txs_by_priority@;
        let mut kept: Vec<Transaction> = Vec::new();
        let mut unlocked: Vec<Transaction> = Vec::new();
        let ghost mut i: int = 0;
        while self.txs_by_priority.len() > 0
            invariant
                self.config == old(self).config,
                orig.len() <= self.config.storage_capacity,
                all_valid(orig),
                pool_sorted(orig),
                keys_distinct(orig),
                0 <= i,
                i + self.txs_by_priority@.len() == orig.len(),
                self.txs_by_priority@ == orig.skip(i),
                kept@ == spec_pool_after_block(orig, *published_block, i),
                unlocked@ == spec_unlocked_by_block(orig, *published_block, i),
                kept@.len() <= i,
                all_valid(kept@),
                pool_sorted(kept@),
                keys_distinct(kept@),
                forall|k: int, t: int|
                    0 <= k < kept@.len() && i <= t < orig.len() ==> prio_lt(
                        #[trigger] kept@[k],
                        #[trigger] orig[t],
                    ) && tx_key(#[trigger] kept@[k]) != tx_key(#[trigger] orig[t]),
            decreases self.txs_by_priority@.len(),
        {
            let tx = self.txs_by_priority.remove(0);
            assert(tx == orig[i]);
            let ds = tx_double_spends(&tx, published_block);
            if ds {
                // discarded: it double-spends an input the block consumed
            } else if tx.max_timelock_height() <= published_block.header.height {
                unlocked.push(tx);
            } else {
                kept.push(tx);
            }
            proof {
                i = i + 1;
                assert(self.txs_by_priority@ =~= orig.skip(i));
            }
        }
        self.txs_by_priority = kept;
        let mut tl: Vec<(u64, Signature)> = Vec::new();
        let mut j: usize = 0;
        while j < self.txs_by_priority.len()
            invariant
                self.config == old(self).config,
                all_valid(self.txs_by_priority@),
                pool_sorted(self.txs_by_priority@),
                keys_distinct(self.txs_by_priority@),
                self.txs_by_priority@.len() <= self.config.storage_capacity,
                self.txs_by_priority@ == spec_pool_after_block(
                    orig,
                    *published_block,
                    orig.len() as int,
                ),
                j <= self.txs_by_priority@.len(),
                tl@ == self.txs_by_priority@.take(j as int).map_values(
                    |t: Transaction| pair_of(t),
                ),
            decreases self.txs_by_priority@.len() - j,
        {
            let height = self.txs_by_priority[j].max_timelock_height();
            let key = self.txs_by_priority[j].body.kernels()[0].excess_sig;
            tl.push((height, key));
            proof {
                assert(tl@ =~= self.txs_by_priority@.take(j + 1).map_values(
                    |t: Transaction| pair_of(t),
                ));
            }
            j += 1;
        }
        self.txs_by_timelock = tl;
        proof {
            assert(self.txs_by_priority@.take(self.txs_by_priority@.len() as int)
                =~= self.txs_by_priority@);
            assert(self.txs_by_timelock@ =~= self.txs_by_priority@.map_values(
                |t: Transaction| pair_of(t),
            ));
            assert(orig.skip(orig.len() as int) =~= Seq::<Transaction>::empty());
        }
        Ok(unlocked)
    }

    /// All transactions stored in the pool, in priority order. Each returned
    /// transaction carries the same contents as its pooled original.
    pub fn snapshot(&self) -> (r: Result<Vec<Transaction>, PendingPoolError>)
        ensures
            (r matches Ok(v) && v@.len() == self.spec_txs().len() && (forall|i: int|
                0 <= i < v@.len() ==> tx_equiv(#[trigger] v@[i], self.spec_txs()[i]))),
    {
        let mut out: Vec<Transaction> = Vec::new();
        let mut i: usize = 0;
        while i < self.txs_by_priority.len()
            invariant
                i <= self.txs_by_priority@.len(),
                out@.len() == i,
                forall|t: int| 0 <= t < i ==> tx_equiv(
                    #[trigger] out@[t],
                    self.txs_by_priority@[t],
                ),
            decreases self.txs_by_priority@.len() - i,
        {
            out.push(copy_transaction(&self.txs_by_priority[i]));
            i += 1;
        }
        Ok(out)
    }

    /// The total weight of all transactions stored in the pool, capped at the
    /// largest representable weight.
    pub fn calculate_weight(&self) -> (r: Result<u64, PendingPoolError>)
        ensures
            (r matches Ok(w) && w == spec_weight_sum_capped(self.spec_txs())),
    {
        let mut sum: u128 = 0;
        let mut i: usize = 0;
        while i < self.txs_by_priority.len()
            invariant
                i <= self.txs_by_priority@.len(),
                sum == spec_weight_sum(self.txs_by_priority@, i as int),
                sum <= i * 0xFFFF_FFFF_FFFF_FFFF,
            decreases self.txs_by_priority@.len() - i,
        {
            sum = sum + (self.txs_by_priority[i].calculate_weight() as u128);
            i += 1;
        }
        if sum > 0xFFFF_FFFF_FFFF_FFFF {
            Ok(u64::MAX)
        } else {
            Ok(sum as u64)
        }
    }

    /// Check the consistency of the transaction map against the time-lock
    /// index: the lengths agree, every entry carries its transaction's lock
    /// height and key, and the map is strictly priority-ordered. Holds of
    /// every pool the operations can produce.
    pub fn check_status(&self) -> (r: Result<bool, PendingPoolError>)
        requires
            self.wf(),
        ensures
            r == Ok::<bool, PendingPoolError>(true),
    {
        if self.txs_by_priority.len() != self.txs_by_timelock.len() {
            return Ok(false);
        }
        let mut i: usize = 0;
        while i < self.txs_by_priority.len()
            invariant
                self.wf(),
                i <= self.spec_txs().len(),
                self.spec_txs().len() == self.spec_timelock_index().len(),
            decreases self.spec_txs().len() - i,
        {
            let height = self.txs_by_priority[i].max_timelock_height();
            let key = self.txs_by_priority[i].body.kernels()[0].excess_sig;
            let entry = self.txs_by_timelock[i];
            if entry.0 != height || entry.1.public_nonce != key.public_nonce
                || entry.1.signature != key.signature {
                return Ok(false);
            }
            if i + 1 < self.txs_by_priority.len() {
                if !prio_less(&self.txs_by_priority[i], &self.txs_by_priority[i + 1]) {
                    return Ok(false);
                }
            }
            i += 1;
        }
        Ok(true)
    }
}

/// Two transactions carry the same contents, field for field.
pub open spec fn tx_equiv(a: Transaction, b: Transaction) -> bool {
    &&& a.body.spec_inputs() == b.body.spec_inputs()
    &&& a.body.spec_outputs() == b.body.spec_outputs()
    &&& a.body.spec_kernels() == b.body.spec_kernels()
    &&& a.offset == b.offset
}

/// The exact sum of the first `i` transaction weights.
pub open spec fn spec_weight_sum(s: Seq<Transaction>, i: int) -> int
    decreases i,
{
    if i <= 0 {
        0
    } else {
        spec_weight_sum(s, i - 1) + s[i - 1].spec_weight()
    }
}

/// The pool's weight sum, capped at the largest representable weight.
pub open spec fn spec_weight_sum_capped(s: Seq<Transaction>) -> int {
    let w = spec_weight_sum(s, s.len() as int);
    if w <= u64::MAX {
        w
    } else {
        u64::MAX as int
    }
}

/// Copy a transaction's contents into a fresh value.
fn copy_transaction(t: &Transaction) -> (r: Transaction)
    ensures
        tx_equiv(r, *t),
{
    let inputs = copy_inputs(t.body.inputs());
    let outputs = copy_outputs(t.body.outputs());
    let kernels = copy_kernels(t.body.kernels());
    Transaction { body: AggregateBody::new(inputs, outputs, kernels), offset: t.offset }
}

/// Membership after a sorted insert: exactly the old keys plus the new
/// transaction's key.
pub proof fn lemma_seq_insert_sorted_membership(s: Seq<Transaction>, tx: Transaction, sig: Signature)
    ensures
        has_key(seq_insert_sorted(s, tx), sig) == (has_key(s, sig) || sig == tx_key(tx)),
    decreases s.len(),
{
    let r = seq_insert_sorted(s, tx);
    if s.len() == 0 {
        assert(tx_key(r[0]) == tx_key(tx));
    } else if prio_lt(tx, s[0]) {
        assert(tx_key(r[0]) == tx_key(tx));
        if has_key(s, sig) {
            let w = choose|i: int| 0 <= i < s.len() && tx_key(#[trigger] s[i]) == sig;
            assert(tx_key(r[w + 1]) == sig);
        }
        if has_key(r, sig) && sig != tx_key(tx) {
            let w = choose|i: int| 0 <= i < r.len() && tx_key(#[trigger] r[i]) == sig;
            assert(tx_key(s[w - 1]) == sig);
        }
    } else {
        let rest = s.drop_first();
        let rec = seq_insert_sorted(rest, tx);
        lemma_seq_insert_sorted_membership(rest, tx, sig);
        if has_key(s, sig) {
            let w = choose|i: int| 0 <= i < s.len() && tx_key(#[trigger] s[i]) == sig;
            if w == 0 {
                assert(tx_key(r[0]) == sig);
            } else {
                assert(tx_key(rest[w - 1]) == sig);
                let w2 = choose|i: int| 0 <= i < rec.len() && tx_key(#[trigger] rec[i]) == sig;
                assert(tx_key(r[w2 + 1]) == sig);
            }
        }
        if sig == tx_key(tx) {
            let w2 = choose|i: int| 0 <= i < rec.len() && tx_key(#[trigger] rec[i]) == sig;
            assert(tx_key(r[w2 + 1]) == sig);
        }
        if has_key(r, sig) {
            let w = choose|i: int| 0 <= i < r.len() && tx_key(#[trigger] r[i]) == sig;
            if w == 0 {
                assert(tx_key(s[0]) == sig);
            } else {
                assert(tx_key(rec[w - 1]) == sig);
                if has_key(rest, sig) {
                    let w3 = choose|i: int|
                        0 <= i < rest.len() && tx_key(#[trigger] rest[i]) == sig;
                    assert(tx_key(s[w3 + 1]) == sig);
                }
            }
        }
    }
}

/// What an insert does to residency. The inserted transaction is pooled
/// afterwards exactly when its key was already pooled, the pool had room, or
/// it outranked the lowest-priority resident. Any other key stays pooled
/// unless it belonged to the evicted lowest-priority resident. Residency then
/// lasts until a published block unlocks or discards the transaction.
pub proof fn lemma_pool_insert_residency(
    s: Seq<Transaction>,
    cap: int,
    tx: Transaction,
    sig: Signature,
)
    requires
        pool_sorted(s),
        all_valid(s),
        keys_distinct(s),
        s.len() <= cap,
    ensures
        has_key(spec_pool_insert(s, cap, tx), tx_key(tx)) == (has_key(s, tx_key(tx)) || s.len()
            < cap || (s.len() > 0 && prio_lt(s[0], tx))),
        (sig != tx_key(tx) && !(!has_key(s, tx_key(tx)) && s.len() == cap && s.len() > 0
            && prio_lt(s[0], tx) && sig == tx_key(s[0]))) ==> has_key(
            spec_pool_insert(s, cap, tx),
            sig,
        ) == has_key(s, sig),
{
    let r = spec_pool_insert(s, cap, tx);
    lemma_seq_insert_sorted_membership(s, tx, tx_key(tx));
    lemma_seq_insert_sorted_membership(s, tx, sig);
    if !has_key(s, tx_key(tx)) && s.len() >= cap && s.len() > 0 && prio_lt(s[0], tx) {
        let rest = s.drop_first();
        lemma_seq_insert_sorted_membership(rest, tx, tx_key(tx));
        lemma_seq_insert_sorted_membership(rest, tx, sig);
        // keys in the tail are the keys of s other than the head's key
        assert forall|g: Signature| has_key(rest, g) == (has_key(s, g) && g != tx_key(s[0])) by {
            if has_key(rest, g) {
                let w = choose|i: int| 0 <= i < rest.len() && tx_key(#[trigger] rest[i]) == g;
                assert(tx_key(s[w + 1]) == g);
                if g == tx_key(s[0]) {
                    assert(tx_key(s[0]) != tx_key(s[w + 1]));
                    assert(false);
                }
            }
            if has_key(s, g) && g != tx_key(s[0]) {
                let w = choose|i: int| 0 <= i < s.len() && tx_key(#[trigger] s[i]) == g;
                assert(w != 0);
                assert(tx_key(rest[w - 1]) == g);
            }
        }
    }
}


/// The transaction spends an input that the block also spends.
pub open spec fn spec_double_spends(t: Transaction, b: Block) -> bool {
    exists|i: int, j: int|
        0 <= i < t.body.spec_inputs().len() && 0 <= j < b.body.spec_inputs().len()
            && t.body.spec_inputs()[i].spec_hash() == b.body.spec_inputs()[j].spec_hash()
}

/// After the block is published the transaction stays pooled: it is no
/// double-spend and its time lock is still unexpired at the block's height.
pub open spec fn spec_retained(t: Transaction, b: Block) -> bool {
    !spec_double_spends(t, b) && t.spec_max_timelock_height() > b.header.height
}

/// After the block is published the transaction leaves for the unconfirmed
/// pool: it is no double-spend and its time lock has expired.
pub open spec fn spec_unlocked(t: Transaction, b: Block) -> bool {
    !spec_double_spends(t, b) && t.spec_max_timelock_height() <= b.header.height
}

/// The first `i` pooled transactions that stay after the block is published,
/// in their pool order.
pub open spec fn spec_pool_after_block(s: Seq<Transaction>, b: Block, i: int) -> Seq<Transaction>
    decreases i,
{
    if i <= 0 {
        Seq::empty()
    } else {
        let rest = spec_pool_after_block(s, b, i - 1);
        if spec_retained(s[i - 1], b) {
            rest.push(s[i - 1])
        } else {
            rest
        }
    }
}

/// The first `i` pooled transactions that the block unlocks, in their pool
/// order.
pub open spec fn spec_unlocked_by_block(s: Seq<Transaction>, b: Block, i: int) -> Seq<Transaction>
    decreases i,
{
    if i <= 0 {
        Seq::empty()
    } else {
        let rest = spec_unlocked_by_block(s, b, i - 1);
        if spec_unlocked(s[i - 1], b) {
            rest.push(s[i - 1])
        } else {
            rest
        }
    }
}

/// Whether the block spends an input with the given identity hash.
fn input_hash_in_block(h: u64, block: &Block) -> (r: bool)
    ensures
        r == exists|j: int|
            0 <= j < block.body.spec_inputs().len()
                && (#[trigger] block.body.spec_inputs()[j]).spec_hash() == h,
{
    let inputs = block.body.inputs();
    let mut j: usize = 0;
    while j < inputs.len()
        invariant
            j <= inputs@.len(),
            inputs@ == block.body.spec_inputs(),
            forall|t: int| 0 <= t < j ==> (#[trigger] inputs@[t]).spec_hash() != h,
        decreases inputs@.len() - j,
    {
        if inputs[j].hash() == h {
            return true;
        }
        j += 1;
    }
    false
}

/// Whether the transaction spends an input the block also spends.
fn tx_double_spends(t: &Transaction, block: &Block) -> (r: bool)
    ensures
        r == spec_double_spends(*t, *block),
{
    let inputs = t.body.inputs();
    let mut i: usize = 0;
    while i < inputs.len()
        invariant
            i <= inputs@.len(),
            inputs@ == t.body.spec_inputs(),
            forall|u: int, j: int|
                0 <= u < i && 0 <= j < block.body.spec_inputs().len() ==> (
                #[trigger] inputs@[u]).spec_hash() != (
                #[trigger] block.body.spec_inputs()[j]).spec_hash(),
        decreases inputs@.len() - i,
    {
        let h = inputs[i].hash();
        if input_hash_in_block(h, block) {
            return true;
        }
        i += 1;
    }
    false
}

/// Compare two valid transactions in the fee-per-weight priority order.
fn prio_less(a: &Transaction, b: &Transaction) -> (r: bool)
    requires
        tx_valid(*a),
        tx_valid(*b),
    ensures
        r == prio_lt(*a, *b),
{
    let fee_a = a.total_fee().0 as u128;
    let fee_b = b.total_fee().0 as u128;
    let w_a = a.calculate_weight() as u128;
    let w_b = b.calculate_weight() as u128;
    proof {
        assert(fee_a * w_b <= 0xFFFF_FFFF_FFFF_FFFF * 0xFFFF_FFFF_FFFF_FFFF) by (nonlinear_arith)
            requires
                0 <= fee_a <= 0xFFFF_FFFF_FFFF_FFFF,
                0 <= w_b <= 0xFFFF_FFFF_FFFF_FFFF,
        ;
        assert(fee_b * w_a <= 0xFFFF_FFFF_FFFF_FFFF * 0xFFFF_FFFF_FFFF_FFFF) by (nonlinear_arith)
            requires
                0 <= fee_b <= 0xFFFF_FFFF_FFFF_FFFF,
                0 <= w_a <= 0xFFFF_FFFF_FFFF_FFFF,
        ;
    }
    let cross_a = fee_a * w_b;
    let cross_b = fee_b * w_a;
    if cross_a < cross_b {
        true
    } else if cross_a == cross_b {
        let key_a = a.body.kernels()[0].excess_sig.order_key();
        let key_b = b.body.kernels()[0].excess_sig.order_key();
        key_a < key_b
    } else {
        false
    }
}

} // verus!
