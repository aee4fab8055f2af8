//! Blocks: the builder, the block-level consensus rules and canonical order.

use base_node_core::blocks::{Block, BlockBuilder, BlockHeader, BlockValidationError, ProofOfWork};
use base_node_core::transactions::{
    AggregateBody, CryptoFactories, MicroTari, OutputFeatures, Signature, Transaction,
    TransactionInput, TransactionKernel, TransactionOutput, COINBASE_OUTPUT,
};

fn kernel(seed: u64, fee: u64, lock: u64) -> TransactionKernel {
    TransactionKernel {
        fee: MicroTari(fee),
        lock_height: lock,
        excess: 0,
        excess_sig: Signature {
            public_nonce: seed,
            signature: seed,
        },
    }
}

fn output(commitment: u64, flags: u8, maturity: u64) -> TransactionOutput {
    TransactionOutput {
        features: OutputFeatures { flags, maturity },
        commitment,
        range_proof: 0,
    }
}

fn input(commitment: u64, maturity: u64) -> TransactionInput {
    TransactionInput {
        features: OutputFeatures { flags: 0, maturity },
        commitment,
    }
}

#[test]
fn builder_assembles_and_sorts() {
    let tx = Transaction::new(
        AggregateBody::new(
            vec![input(9, 0), input(3, 0)],
            vec![output(8, 0, 0), output(2, 0, 0)],
            vec![kernel(5, 10, 0), kernel(1, 20, 0)],
        ),
        7,
    );
    let block = BlockBuilder::new()
        .with_transactions(vec![tx])
        .with_pow(ProofOfWork {
            accumulated_difficulty: 42,
        })
        .build();
    // canonical order: ascending commitments and signatures
    assert_eq!(block.body.inputs()[0].commitment, 3);
    assert_eq!(block.body.inputs()[1].commitment, 9);
    assert_eq!(block.body.outputs()[0].commitment, 2);
    assert_eq!(block.body.outputs()[1].commitment, 8);
    assert_eq!(block.body.kernels()[0].excess_sig.public_nonce, 1);
    assert_eq!(block.body.kernels()[1].excess_sig.public_nonce, 5);
    // the transaction's offset folded into the header
    assert_eq!(block.header.total_kernel_offset, 7);
    assert_eq!(block.header.pow.accumulated_difficulty, 42);
}

#[test]
fn calculate_fees_sums_kernel_fees() {
    let block = BlockBuilder::new()
        .add_kernels(vec![kernel(1, 10, 0), kernel(2, 25, 0)])
        .build();
    assert_eq!(block.calculate_fees(), MicroTari(35));
}

#[test]
fn kernel_rules_reject_future_locks() {
    let mut header = BlockHeader::new(0);
    header.height = 5;
    let block = Block {
        header,
        body: AggregateBody::new(vec![], vec![], vec![kernel(1, 0, 6)]),
    };
    assert_eq!(
        block.check_kernel_rules(),
        Err(BlockValidationError::InvalidKernel)
    );
    let mut header2 = BlockHeader::new(0);
    header2.height = 6;
    let fine = Block {
        header: header2,
        body: AggregateBody::new(vec![], vec![], vec![kernel(1, 0, 6)]),
    };
    assert!(fine.check_kernel_rules().is_ok());
}

#[test]
fn coinbase_rules_demand_exactly_one() {
    let mut header = BlockHeader::new(0);
    header.height = 10;
    let none = Block {
        header,
        body: AggregateBody::new(vec![], vec![output(1, 0, 0)], vec![]),
    };
    assert_eq!(
        none.check_coinbase_output(),
        Err(BlockValidationError::InvalidCoinbase)
    );
    let two = Block {
        header,
        body: AggregateBody::new(
            vec![],
            vec![
                output(1, COINBASE_OUTPUT, 11),
                output(2, COINBASE_OUTPUT, 11),
            ],
            vec![],
        ),
    };
    assert_eq!(
        two.check_coinbase_output(),
        Err(BlockValidationError::InvalidCoinbase)
    );
    let shallow_maturity = Block {
        header,
        body: AggregateBody::new(vec![], vec![output(1, COINBASE_OUTPUT, 10)], vec![]),
    };
    assert_eq!(
        shallow_maturity.check_coinbase_output(),
        Err(BlockValidationError::InvalidCoinbase)
    );
    let good = Block {
        header,
        body: AggregateBody::new(vec![], vec![output(1, COINBASE_OUTPUT, 11)], vec![]),
    };
    assert!(good.check_coinbase_output().is_ok());
}

#[test]
fn stxo_rules_reject_immature_inputs() {
    let mut header = BlockHeader::new(0);
    header.height = 4;
    let block = Block {
        header,
        body: AggregateBody::new(vec![input(1, 5)], vec![], vec![]),
    };
    assert_eq!(
        block.check_stxo_rules(),
        Err(BlockValidationError::InputMaturity)
    );
}

#[test]
fn dissolve_returns_the_pieces() {
    let block = BlockBuilder::new()
        .add_inputs(vec![input(1, 0)])
        .add_outputs(vec![output(2, 0, 0)])
        .add_kernels(vec![kernel(3, 5, 0)])
        .build();
    let header = block.header;
    let (h, ins, outs, kerns) = block.dissolve();
    assert_eq!(h, header);
    assert_eq!(ins.len(), 1);
    assert_eq!(outs.len(), 1);
    assert_eq!(kerns.len(), 1);
}

#[test]
fn header_hash_covers_every_field() {
    let a = BlockHeader::new(0);
    let mut b = a;
    b.timestamp = 1;
    assert_ne!(a.hash(), b.hash());
    let mut c = a;
    c.total_kernel_offset = 1;
    assert_ne!(a.hash(), c.hash());
    assert_eq!(a.hash(), BlockHeader::new(0).hash());
}

#[test]
fn transaction_balance_is_checked_exactly() {
    let tx = Transaction::new(
        AggregateBody::new(
            vec![input(100, 0)],
            vec![output(60, 0, 0)],
            vec![TransactionKernel {
                fee: MicroTari(1),
                lock_height: 0,
                excess: 30,
                excess_sig: Signature {
                    public_nonce: 1,
                    signature: 1,
                },
            }],
        ),
        10,
    );
    // 100 == 60 + 30 + 10
    assert!(tx
        .validate_internal_consistency(&CryptoFactories::default())
        .is_ok());
    let mut unbalanced = tx.clone();
    unbalanced.offset = 11;
    assert!(unbalanced
        .validate_internal_consistency(&CryptoFactories::default())
        .is_err());
}

#[test]
fn max_timelock_takes_the_greatest_lock() {
    let tx = Transaction::new(
        AggregateBody::new(
            vec![input(1, 700)],
            vec![],
            vec![kernel(1, 0, 400)],
        ),
        0,
    );
    assert_eq!(tx.max_timelock_height(), 700);
    assert_eq!(tx.min_spendable_height(), 700);
    assert_eq!(tx.calculate_weight(), 2);
}
