//! Pending pool behaviour: priority eviction and unlock on published blocks.

use base_node_core::blocks::{Block, BlockHeader};
use base_node_core::pending_pool::{PendingPool, PendingPoolConfig};
use base_node_core::transactions::{
    AggregateBody, MicroTari, OutputFeatures, Signature, Transaction, TransactionInput,
    TransactionKernel, TransactionOutput,
};

fn make_tx(
    seed: u64,
    fee: u64,
    lock: u64,
    inputs: usize,
    input_maturity: u64,
    outputs: usize,
) -> Transaction {
    let ins: Vec<TransactionInput> = (0..inputs as u64)
        .map(|k| TransactionInput {
            features: OutputFeatures {
                flags: 0,
                maturity: input_maturity,
            },
            commitment: seed * 1000 + k,
        })
        .collect();
    let outs: Vec<TransactionOutput> = (0..outputs as u64)
        .map(|k| TransactionOutput {
            features: OutputFeatures {
                flags: 0,
                maturity: 0,
            },
            commitment: seed * 1000 + 500 + k,
            range_proof: 0,
        })
        .collect();
    let kernel = TransactionKernel {
        fee: MicroTari(fee),
        lock_height: lock,
        excess: 0,
        excess_sig: Signature {
            public_nonce: seed,
            signature: seed,
        },
    };
    Transaction::new(AggregateBody::new(ins, outs, vec![kernel]), 0)
}

fn sig_of(tx: &Transaction) -> Signature {
    tx.body.kernels()[0].excess_sig
}

#[test]
fn test_insert_and_lru() {
    let tx1 = make_tx(1, 50, 500, 2, 0, 1);
    let tx2 = make_tx(2, 20, 2150, 1, 0, 2);
    let tx3 = make_tx(3, 100, 1000, 2, 0, 1);
    let tx4 = make_tx(4, 30, 2450, 2, 0, 2);
    let tx5 = make_tx(5, 50, 1000, 3, 0, 3);
    let tx6 = make_tx(6, 75, 1850, 2, 0, 2);

    let mut pending_pool = PendingPool::new(PendingPoolConfig {
        storage_capacity: 3,
    });
    pending_pool
        .insert_txs(vec![
            tx1.clone(),
            tx2.clone(),
            tx3.clone(),
            tx4.clone(),
            tx5.clone(),
            tx6.clone(),
        ])
        .unwrap();
    // The lowest priority txs were removed to make room for higher priority ones.
    assert_eq!(pending_pool.len().unwrap(), 3);
    assert_eq!(
        pending_pool.has_tx_with_excess_sig(&sig_of(&tx1)).unwrap(),
        true
    );
    assert_eq!(
        pending_pool.has_tx_with_excess_sig(&sig_of(&tx2)).unwrap(),
        false
    );
    assert_eq!(
        pending_pool.has_tx_with_excess_sig(&sig_of(&tx3)).unwrap(),
        true
    );
    assert_eq!(
        pending_pool.has_tx_with_excess_sig(&sig_of(&tx4)).unwrap(),
        false
    );
    assert_eq!(
        pending_pool.has_tx_with_excess_sig(&sig_of(&tx5)).unwrap(),
        false
    );
    assert_eq!(
        pending_pool.has_tx_with_excess_sig(&sig_of(&tx6)).unwrap(),
        true
    );

    assert!(pending_pool.check_status().unwrap());
}

/// A block at the given height that spends the same inputs as the given
/// transactions; what a published block containing them looks like to the
/// pool.
fn create_published_block(height: u64, txs: Vec<Transaction>) -> Block {
    let mut header = BlockHeader::new(0);
    header.height = height;
    let mut inputs = Vec::new();
    for tx in &txs {
        inputs.extend(tx.body.inputs().iter().cloned());
    }
    Block {
        header,
        body: AggregateBody::new(inputs, Vec::new(), Vec::new()),
    }
}

#[test]
fn test_remove_unlocked_and_discard_double_spends() {
    let tx1 = make_tx(1, 50, 500, 2, 0, 1);
    let tx2 = make_tx(2, 20, 0, 1, 2150, 2);
    let tx3 = make_tx(3, 100, 0, 2, 1000, 1);
    let tx4 = make_tx(4, 30, 2450, 2, 0, 2);
    let tx5 = make_tx(5, 50, 1000, 3, 0, 3);
    let tx6 = make_tx(6, 75, 1450, 2, 1400, 2);

    let mut pending_pool = PendingPool::new(PendingPoolConfig {
        storage_capacity: 10,
    });
    pending_pool
        .insert_txs(vec![
            tx1.clone(),
            tx2.clone(),
            tx3.clone(),
            tx4.clone(),
            tx5.clone(),
            tx6.clone(),
        ])
        .unwrap();
    assert_eq!(pending_pool.len().unwrap(), 6);

    let snapshot_txs = pending_pool.snapshot().unwrap();
    assert_eq!(snapshot_txs.len(), 6);
    assert!(snapshot_txs.contains(&tx1));
    assert!(snapshot_txs.contains(&tx2));
    assert!(snapshot_txs.contains(&tx3));
    assert!(snapshot_txs.contains(&tx4));
    assert!(snapshot_txs.contains(&tx5));
    assert!(snapshot_txs.contains(&tx6));

    let published_block = create_published_block(1500, vec![tx6.clone()]);
    let unlocked_txs = pending_pool
        .remove_unlocked_and_discard_double_spends(&published_block)
        .unwrap();

    assert_eq!(pending_pool.len().unwrap(), 2);
    assert_eq!(
        pending_pool.has_tx_with_excess_sig(&sig_of(&tx2)).unwrap(),
        true
    );
    assert_eq!(
        pending_pool.has_tx_with_excess_sig(&sig_of(&tx4)).unwrap(),
        true
    );

    assert_eq!(unlocked_txs.len(), 3);
    assert!(unlocked_txs.contains(&tx1));
    assert!(unlocked_txs.contains(&tx3));
    assert!(unlocked_txs.contains(&tx5));

    assert!(pending_pool.check_status().unwrap());
}

#[test]
fn duplicate_key_insert_is_ignored() {
    let tx = make_tx(1, 50, 500, 1, 0, 1);
    let mut pool = PendingPool::new(PendingPoolConfig {
        storage_capacity: 3,
    });
    pool.insert(tx.clone()).unwrap();
    pool.insert(tx.clone()).unwrap();
    assert_eq!(pool.len().unwrap(), 1);
    assert!(pool.check_status().unwrap());
}

#[test]
fn lower_priority_is_dropped_when_full() {
    let cheap = make_tx(1, 1, 500, 1, 0, 1);
    let rich = make_tx(2, 1000, 500, 1, 0, 1);
    let mut pool = PendingPool::new(PendingPoolConfig {
        storage_capacity: 1,
    });
    pool.insert(rich.clone()).unwrap();
    pool.insert(cheap.clone()).unwrap();
    assert_eq!(pool.len().unwrap(), 1);
    assert!(pool.has_tx_with_excess_sig(&sig_of(&rich)).unwrap());
    assert!(!pool.has_tx_with_excess_sig(&sig_of(&cheap)).unwrap());
}

#[test]
fn total_weight_counts_all_parts() {
    let tx1 = make_tx(1, 50, 0, 2, 0, 1);
    let tx2 = make_tx(2, 20, 0, 1, 0, 2);
    let mut pool = PendingPool::new(PendingPoolConfig {
        storage_capacity: 10,
    });
    pool.insert_txs(vec![tx1, tx2]).unwrap();
    // each: inputs + outputs + one kernel = 4
    assert_eq!(pool.calculate_weight().unwrap(), 8);
}
