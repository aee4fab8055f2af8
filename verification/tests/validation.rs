//! Validator behaviour: the mock and the transaction validators.

use base_node_core::chain_storage::{BlockchainDatabase, MerkleChangeTrackerConfig};
use base_node_core::transactions::{
    AggregateBody, CryptoFactories, MicroTari, OutputFeatures, Signature, Transaction,
    TransactionInput, TransactionKernel, TransactionOutput,
};
use base_node_core::validation::{
    InputTxValidator, MockValidator, StatelessTxValidator, TimeLockTxValidator, ValidationError,
    Validation,
};

#[test]
fn mock_is_valid() {
    let validator = MockValidator::new(true);
    assert!(Validation::<()>::validate(&validator, &()).is_ok());
}

#[test]
fn mock_is_invalid() {
    let validator = MockValidator::new(false);
    assert!(Validation::<()>::validate(&validator, &()).is_err());
}

/// A transaction whose commitments balance in the modelled group.
fn balanced_tx(lock: u64, input_maturity: u64) -> Transaction {
    let input = TransactionInput {
        features: OutputFeatures {
            flags: 0,
            maturity: input_maturity,
        },
        commitment: 900,
    };
    let output = TransactionOutput {
        features: OutputFeatures {
            flags: 0,
            maturity: 0,
        },
        commitment: 600,
        range_proof: 0,
    };
    let kernel = TransactionKernel {
        fee: MicroTari(10),
        lock_height: lock,
        excess: 250,
        excess_sig: Signature {
            public_nonce: 1,
            signature: 2,
        },
    };
    // 900 == 600 + 250 + 50
    Transaction::new(AggregateBody::new(vec![input], vec![output], vec![kernel]), 50)
}

#[test]
fn stateless_validator_checks_balance() {
    let validator = StatelessTxValidator::new(CryptoFactories::default());
    let good = balanced_tx(0, 0);
    assert!(validator.validate(&good).is_ok());

    let mut bad = good.clone();
    bad.offset = 51;
    let verdict = validator.validate(&bad);
    assert!(verdict.is_err());
}

#[test]
fn timelock_validator_rejects_future_locks() {
    let db = BlockchainDatabase::new(MerkleChangeTrackerConfig::default());
    // empty store: height counts as zero, so only locks up to one pass
    let validator = TimeLockTxValidator::new(db);
    let unlocked = balanced_tx(1, 0);
    assert!(validator.validate(&unlocked).is_ok());
    let locked = balanced_tx(100, 0);
    assert_eq!(
        validator.validate(&locked),
        Err(ValidationError::MaturityError)
    );
}

#[test]
fn input_validator_rejects_unknown_inputs() {
    let db = BlockchainDatabase::new(MerkleChangeTrackerConfig::default());
    let validator = InputTxValidator::new(db);
    let tx = balanced_tx(0, 0);
    assert_eq!(
        validator.validate(&tx),
        Err(ValidationError::UnknownInputs)
    );
}
