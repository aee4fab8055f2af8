//! The validator pipeline: composable validity checks for transactions,
//! each a small validator that owns the context it judges against.

use vstd::prelude::*;

verus! {

use crate::chain_storage::BlockchainDatabase;
use crate::transactions::{CryptoFactories, Transaction, TransactionError};

/// Why an artifact failed validation.
#[derive(Clone, Debug, PartialEq, Eq)]
pub enum ValidationError {
    /// The transaction's own consistency checks failed.
    TransactionError(TransactionError),
    /// A time lock has not yet expired.
    MaturityError,
    /// An input does not spend a known unspent output.
    UnknownInputs,
    /// A failure the other variants do not cover.
    CustomError(String),
}

/// A validity judgement over artifacts of one kind. Each validator states in
/// `spec_valid` exactly which artifacts it accepts.
pub trait Validation<T> {
    /// Whether the validator accepts the item.
    spec fn spec_valid(&self, item: &T) -> bool;

    /// Check the item; succeeds exactly on the items the validator accepts.
    fn validate(&self, item: &T) -> (r: Result<(), ValidationError>)
        ensures
            r.is_ok() == self.spec_valid(item),
    ;
}

/// A validator with a fixed verdict, for tests and for roles a node does not
/// exercise.
pub struct MockValidator {
    result: bool,
}

impl MockValidator {
    /// The verdict the validator always returns.
    pub closed spec fn spec_result(self) -> bool {
        self.result
    }

    /// Create a validator that always accepts (`true`) or rejects (`false`).
    pub fn new(is_valid: bool) -> (r: MockValidator)
        ensures
            r.spec_result() == is_valid,
    {
        MockValidator { result: is_valid }
    }
}

impl<T> Validation<T> for MockValidator {
    open spec fn spec_valid(&self, item: &T) -> bool {
        self.spec_result()
    }

    fn validate(&self, item: &T) -> (r: Result<(), ValidationError>)
        ensures
            r.is_err() ==> (r matches Err(e) && e matches ValidationError::CustomError(_)),
    {
        if self.result {
            Ok(())
        } else {
            Err(ValidationError::CustomError(
                "This mock validator always returns an error".to_string(),
            ))
        }
    }
}

/// Every input of the transaction spends a known unspent output of the store.
pub open spec fn spec_inputs_known(tx: Transaction, db: BlockchainDatabase) -> bool {
    forall|i: int|
        0 <= i < tx.body.spec_inputs().len() ==> db.spec_is_utxo(
            (#[trigger] tx.body.spec_inputs()[i]).spec_hash(),
        )
}

/// All of the transaction's time locks have passed at the given chain height:
/// the next block can contain it.
pub open spec fn spec_timelocks_ok(tx: Transaction, current_height: u64) -> bool {
    tx.spec_max_timelock_height() <= current_height + 1
}

/// The height validators judge time locks against: the tip height, or zero
/// for an empty store.
pub open spec fn spec_db_height(db: BlockchainDatabase) -> u64 {
    if db.spec_blocks().len() == 0 {
        0
    } else {
        (db.spec_blocks().len() - 1) as u64
    }
}

/// Read the height validators judge time locks against.
fn db_height(db: &BlockchainDatabase) -> (r: u64)
    ensures
        r == spec_db_height(*db),
{
    match db.get_height() {
        Some(h) => h,
        None => 0,
    }
}

/// Checks that the provided transaction is internally sound and that no funds
/// were created in it.
fn verify_tx(tx: &Transaction, factories: &CryptoFactories) -> (r: Result<(), ValidationError>)
    ensures
        r.is_ok() == tx.spec_balanced(),
        r.is_err() ==> r == Err::<(), ValidationError>(
            ValidationError::TransactionError(TransactionError::UnbalancedCommitments),
        ),
{
    match tx.validate_internal_consistency(factories) {
        Ok(()) => Ok(()),
        Err(e) => Err(ValidationError::TransactionError(e)),
    }
}

/// Checks that all the time locks in the provided transaction pass at the
/// given chain height: kernel lock heights and input maturities.
fn verify_timelocks(tx: &Transaction, current_height: u64) -> (r: Result<(), ValidationError>)
    ensures
        r.is_ok() == spec_timelocks_ok(*tx, current_height),
        r.is_err() ==> r == Err::<(), ValidationError>(ValidationError::MaturityError),
{
    if (tx.min_spendable_height() as u128) > (current_height as u128) + 1 {
        return Err(ValidationError::MaturityError);
    }
    Ok(())
}

/// Checks that all inputs exist in the provided store's unspent set.
fn verify_inputs(tx: &Transaction, db: &BlockchainDatabase) -> (r: Result<(), ValidationError>)
    ensures
        r.is_ok() == spec_inputs_known(*tx, *db),
        r.is_err() ==> r == Err::<(), ValidationError>(ValidationError::UnknownInputs),
{
    let inputs = tx.body.inputs();
    let mut i: usize = 0;
    while i < inputs.len()
        invariant
            i <= inputs@.len(),
            inputs@ == tx.body.spec_inputs(),
            forall|t: int| 0 <= t < i ==> db.spec_is_utxo((#[trigger] inputs@[t]).spec_hash()),
        decreases inputs@.len() - i,
    {
        let known = match db.is_utxo(inputs[i].hash()) {
            Ok(k) => k,
            Err(_) => {
                proof {
                    assert(false);
                }
                false
            },
        };
        if !known {
            return Err(ValidationError::UnknownInputs);
        }
        i += 1;
    }
    Ok(())
}

/// Only checks that a transaction is internally consistent; needs no state.
pub struct StatelessTxValidator {
    pub factories: CryptoFactories,
}

impl StatelessTxValidator {
    /// Create the validator around the cryptographic factories.
    pub fn new(factories: CryptoFactories) -> (r: StatelessTxValidator)
        ensures
            r.factories == factories,
    {
        StatelessTxValidator { factories }
    }
}

impl Validation<Transaction> for StatelessTxValidator {
    open spec fn spec_valid(&self, tx: &Transaction) -> bool {
        tx.spec_balanced()
    }

    fn validate(&self, tx: &Transaction) -> (r: Result<(), ValidationError>)
        ensures
            r.is_err() ==> r == Err::<(), ValidationError>(
                ValidationError::TransactionError(TransactionError::UnbalancedCommitments),
            ),
    {
        match verify_tx(tx, &self.factories) {
            Ok(()) => Ok(()),
            Err(e) => Err(e),
        }
    }
}

/// Performs a full verification of the transaction. In order: transaction
/// integrity, all inputs exist in the store, all time locks (kernel lock
/// heights and output maturities) have passed.
pub struct FullTxValidator {
    pub factories: CryptoFactories,
    pub db: BlockchainDatabase,
}

impl FullTxValidator {
    /// Create the validator around the factories and the chain store.
    pub fn new(factories: CryptoFactories, db: BlockchainDatabase) -> (r: FullTxValidator)
        ensures
            r.factories == factories,
            r.db == db,
    {
        FullTxValidator { factories, db }
    }
}

impl Validation<Transaction> for FullTxValidator {
    open spec fn spec_valid(&self, tx: &Transaction) -> bool {
        tx.spec_balanced() && spec_inputs_known(*tx, self.db) && spec_timelocks_ok(
            *tx,
            spec_db_height(self.db),
        )
    }

    fn validate(&self, tx: &Transaction) -> (r: Result<(), ValidationError>)
        ensures
            !tx.spec_balanced() ==> r == Err::<(), ValidationError>(
                ValidationError::TransactionError(TransactionError::UnbalancedCommitments),
            ),
            tx.spec_balanced() && !spec_inputs_known(*tx, self.db) ==> r == Err::<
                (),
                ValidationError,
            >(ValidationError::UnknownInputs),
            tx.spec_balanced() && spec_inputs_known(*tx, self.db) && !spec_timelocks_ok(
                *tx,
                spec_db_height(self.db),
            ) ==> r == Err::<(), ValidationError>(ValidationError::MaturityError),
    {
        match verify_tx(tx, &self.factories) {
            Ok(()) => {},
            Err(e) => {
                return Err(e);
            },
        }
        match verify_inputs(tx, &self.db) {
            Ok(()) => {},
            Err(e) => {
                return Err(e);
            },
        }
        let height = db_height(&self.db);
        match verify_timelocks(tx, height) {
            Ok(()) => Ok(()),
            Err(e) => Err(e),
        }
    }
}

/// Assumes the transaction was already validated and only checks, in order:
/// all inputs exist in the store, all time locks have passed.
pub struct TxInputAndMaturityValidator {
    pub db: BlockchainDatabase,
}

impl TxInputAndMaturityValidator {
    /// Create the validator around the chain store.
    pub fn new(db: BlockchainDatabase) -> (r: TxInputAndMaturityValidator)
        ensures
            r.db == db,
    {
        TxInputAndMaturityValidator { db }
    }
}

impl Validation<Transaction> for TxInputAndMaturityValidator {
    open spec fn spec_valid(&self, tx: &Transaction) -> bool {
        spec_inputs_known(*tx, self.db) && spec_timelocks_ok(*tx, spec_db_height(self.db))
    }

    fn validate(&self, tx: &Transaction) -> (r: Result<(), ValidationError>)
        ensures
            !spec_inputs_known(*tx, self.db) ==> r == Err::<(), ValidationError>(
                ValidationError::UnknownInputs,
            ),
            spec_inputs_known(*tx, self.db) && !spec_timelocks_ok(
                *tx,
                spec_db_height(self.db),
            ) ==> r == Err::<(), ValidationError>(ValidationError::MaturityError),
    {
        match verify_inputs(tx, &self.db) {
            Ok(()) => {},
            Err(e) => {
                return Err(e);
            },
        }
        let height = db_height(&self.db);
        match verify_timelocks(tx, height) {
            Ok(()) => Ok(()),
            Err(e) => Err(e),
        }
    }
}

/// Only checks that inputs exist in the store.
pub struct InputTxValidator {
    pub db: BlockchainDatabase,
}

impl InputTxValidator {
    /// Create the validator around the chain store.
    pub fn new(db: BlockchainDatabase) -> (r: InputTxValidator)
        ensures
            r.db == db,
    {
        InputTxValidator { db }
    }
}

impl Validation<Transaction> for InputTxValidator {
    open spec fn spec_valid(&self, tx: &Transaction) -> bool {
        spec_inputs_known(*tx, self.db)
    }

    fn validate(&self, tx: &Transaction) -> (r: Result<(), ValidationError>)
        ensures
            r.is_err() ==> r == Err::<(), ValidationError>(ValidationError::UnknownInputs),
    {
        match verify_inputs(tx, &self.db) {
            Ok(()) => Ok(()),
            Err(e) => Err(e),
        }
    }
}

/// Only checks time locks: kernel lock heights and output maturities have
/// passed.
pub struct TimeLockTxValidator {
    pub db: BlockchainDatabase,
}

impl TimeLockTxValidator {
    /// Create the validator around the chain store.
    pub fn new(db: BlockchainDatabase) -> (r: TimeLockTxValidator)
        ensures
            r.db == db,
    {
        TimeLockTxValidator { db }
    }
}

impl Validation<Transaction> for TimeLockTxValidator {
    open spec fn spec_valid(&self, tx: &Transaction) -> bool {
        spec_timelocks_ok(*tx, spec_db_height(self.db))
    }

    fn validate(&self, tx: &Transaction) -> (r: Result<(), ValidationError>)
        ensures
            r.is_err() ==> r == Err::<(), ValidationError>(ValidationError::MaturityError),
    {
        let height = db_height(&self.db);
        match verify_timelocks(tx, height) {
            Ok(()) => Ok(()),
            Err(e) => Err(e),
        }
    }
}

} // verus!
