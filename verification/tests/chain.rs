//! Chain store behaviour: valid chains, rejections, orphans, and the ledger
//! invariants over live and spent outputs.

use base_node_core::blocks::{Block, BlockHeader};
use base_node_core::chain_storage::{
    BlockAddResult, BlockchainDatabase, ChainStorageError, MerkleChangeTrackerConfig, MmrTree,
};
use base_node_core::blocks::BlockValidationError;
use base_node_core::transactions::{
    AggregateBody, MicroTari, OutputFeatures, Signature, Transaction, TransactionInput,
    TransactionKernel, TransactionOutput, COINBASE_OUTPUT,
};

fn coinbase_output(height: u64, commitment: u64) -> TransactionOutput {
    TransactionOutput {
        features: OutputFeatures {
            flags: COINBASE_OUTPUT,
            maturity: height + 1,
        },
        commitment,
        range_proof: commitment + 1,
    }
}

fn kernel(seed: u64) -> TransactionKernel {
    TransactionKernel {
        fee: MicroTari(0),
        lock_height: 0,
        excess: 0,
        excess_sig: Signature {
            public_nonce: seed,
            signature: seed,
        },
    }
}

/// Assemble a block at the given position and fill in the accumulator roots
/// the store expects.
fn make_block(
    db: &BlockchainDatabase,
    height: u64,
    prev_hash: u64,
    inputs: Vec<TransactionInput>,
    outputs: Vec<TransactionOutput>,
    kernels: Vec<TransactionKernel>,
) -> Block {
    let mut header = BlockHeader::new(0);
    header.height = height;
    header.prev_hash = prev_hash;
    let mut block = Block {
        header,
        body: AggregateBody::new(inputs, outputs, kernels),
    };
    let (out_mr, rp_mr, kernel_mr, header_mr) = db.calculate_mmr_roots(&block);
    block.header.output_mr = out_mr;
    block.header.range_proof_mr = rp_mr;
    block.header.kernel_mr = kernel_mr;
    block.header.header_mr = header_mr;
    block
}

fn genesis(db: &BlockchainDatabase) -> Block {
    make_block(db, 0, 0, vec![], vec![coinbase_output(0, 1000)], vec![kernel(1)])
}

#[test]
fn test_genesis_block() {
    let mut db = BlockchainDatabase::new(MerkleChangeTrackerConfig::default());
    let block = genesis(&db);
    let result = db.add_block(block);
    assert!(result.is_ok());
    assert_eq!(result.unwrap(), BlockAddResult::Added);
    assert_eq!(db.get_height(), Some(0));
}

#[test]
fn test_valid_chain() {
    let mut db = BlockchainDatabase::new(MerkleChangeTrackerConfig::default());
    let block0 = genesis(&db);
    let cb0 = block0.body.outputs()[0];
    assert_eq!(db.add_block(block0.clone()).unwrap(), BlockAddResult::Added);

    // Block 1 spends the genesis coinbase (mature at height 1) and mints its own.
    let spend_cb0 = TransactionInput {
        features: cb0.features,
        commitment: cb0.commitment,
    };
    let block1 = make_block(
        &db,
        1,
        block0.hash(),
        vec![spend_cb0],
        vec![coinbase_output(1, 2000), chain_output(2500)],
        vec![kernel(2)],
    );
    assert_eq!(db.add_block(block1.clone()).unwrap(), BlockAddResult::Added);

    // Block 2 only mints.
    let block2 = make_block(
        &db,
        2,
        block1.hash(),
        vec![],
        vec![coinbase_output(2, 3000)],
        vec![kernel(3)],
    );
    assert_eq!(db.add_block(block2.clone()).unwrap(), BlockAddResult::Added);

    // The tip is block 2 and every header is reachable.
    assert_eq!(db.get_height(), Some(2));
    let tip = db.fetch_block(2).unwrap();
    assert_eq!(tip.header.hash(), block2.header.hash());
    assert_eq!(db.fetch_header(1).unwrap(), block1.header);

    // The accumulator roots equal the roots in the tip's header.
    assert_eq!(
        db.fetch_mmr_root(MmrTree::Utxo).unwrap(),
        block2.header.output_mr
    );
    assert_eq!(
        db.fetch_mmr_root(MmrTree::RangeProof).unwrap(),
        block2.header.range_proof_mr
    );
    assert_eq!(
        db.fetch_mmr_root(MmrTree::Kernel).unwrap(),
        block2.header.kernel_mr
    );

    // The spent genesis coinbase left the live set; the minted outputs are in it.
    assert!(!db.is_utxo(cb0.hash()).unwrap());
    assert!(db.is_utxo(block1.body.outputs()[0].hash()).unwrap());
    assert!(db.is_utxo(block1.body.outputs()[1].hash()).unwrap());
    assert!(db.is_utxo(block2.body.outputs()[0].hash()).unwrap());
}

fn chain_output(commitment: u64) -> TransactionOutput {
    TransactionOutput {
        features: OutputFeatures {
            flags: 0,
            maturity: 0,
        },
        commitment,
        range_proof: commitment + 1,
    }
}

#[test]
fn test_invalid_coinbase() {
    let mut db = BlockchainDatabase::new(MerkleChangeTrackerConfig::default());
    // No coinbase output at all: the stateless rules reject the block.
    let block = make_block(&db, 0, 0, vec![], vec![chain_output(1000)], vec![kernel(1)]);
    assert_eq!(
        db.add_block(block),
        Err(ChainStorageError::InvalidBlock(
            BlockValidationError::InvalidCoinbase
        ))
    );
    assert_eq!(db.get_height(), None);
}

#[test]
fn unknown_parent_is_parked_as_orphan() {
    let mut db = BlockchainDatabase::new(MerkleChangeTrackerConfig::default());
    let block0 = genesis(&db);
    db.add_block(block0).unwrap();
    let orphan = make_block(
        &db,
        5,
        999_999,
        vec![],
        vec![coinbase_output(5, 4000)],
        vec![kernel(9)],
    );
    assert_eq!(db.add_block(orphan).unwrap(), BlockAddResult::OrphanBlock);
    assert_eq!(db.get_height(), Some(0));
}

#[test]
fn existing_block_reports_block_exists() {
    let mut db = BlockchainDatabase::new(MerkleChangeTrackerConfig::default());
    let block0 = genesis(&db);
    db.add_block(block0.clone()).unwrap();
    assert_eq!(db.add_block(block0).unwrap(), BlockAddResult::BlockExists);
}

#[test]
fn mismatched_roots_are_rejected() {
    let mut db = BlockchainDatabase::new(MerkleChangeTrackerConfig::default());
    let mut block = genesis(&db);
    block.header.output_mr = block.header.output_mr.wrapping_add(1);
    assert_eq!(db.add_block(block), Err(ChainStorageError::InvalidMmrRoots));
}

#[test]
fn unknown_input_is_rejected() {
    let mut db = BlockchainDatabase::new(MerkleChangeTrackerConfig::default());
    let block0 = genesis(&db);
    db.add_block(block0.clone()).unwrap();
    let bogus_input = TransactionInput {
        features: OutputFeatures {
            flags: 0,
            maturity: 0,
        },
        commitment: 424242,
    };
    let block1 = make_block(
        &db,
        1,
        block0.hash(),
        vec![bogus_input],
        vec![coinbase_output(1, 2000)],
        vec![kernel(2)],
    );
    assert_eq!(
        db.add_block(block1),
        Err(ChainStorageError::InvalidBlock(
            BlockValidationError::InvalidInput
        ))
    );
}

#[test]
fn duplicate_output_is_rejected() {
    let mut db = BlockchainDatabase::new(MerkleChangeTrackerConfig::default());
    let block0 = make_block(
        &db,
        0,
        0,
        vec![],
        vec![coinbase_output(0, 1000), chain_output(1500)],
        vec![kernel(1)],
    );
    db.add_block(block0.clone()).unwrap();
    // Mint an already-live output again at height 1.
    let block1 = make_block(
        &db,
        1,
        block0.hash(),
        vec![],
        vec![coinbase_output(1, 2000), chain_output(1500)],
        vec![kernel(2)],
    );
    assert_eq!(db.add_block(block1), Err(ChainStorageError::DuplicateOutput));
}

#[test]
fn immature_input_is_rejected_statelessly() {
    let mut db = BlockchainDatabase::new(MerkleChangeTrackerConfig::default());
    let input = TransactionInput {
        features: OutputFeatures {
            flags: 0,
            maturity: 10,
        },
        commitment: 1,
    };
    let block = make_block(
        &db,
        0,
        0,
        vec![input],
        vec![coinbase_output(0, 1000)],
        vec![kernel(1)],
    );
    assert_eq!(
        db.add_block(block),
        Err(ChainStorageError::InvalidBlock(
            BlockValidationError::InputMaturity
        ))
    );
}
