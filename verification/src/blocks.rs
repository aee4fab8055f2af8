//! Blocks: headers, block-level consensus rules and the block builder.

use vstd::prelude::*;

verus! {

use crate::consensus::ConsensusConstants;
use crate::hashing::{digest, digest_of, push_u64_bytes, u64_le_bytes, HashOutput};
use crate::transactions::{
    kernel_fee_sum,
    wadd,
    AggregateBody,
    MicroTari,
    Transaction,
    TransactionError,
    TransactionInput,
    TransactionKernel,
    TransactionOutput,
};

/// The proof-of-work metadata of a header: the difficulty accumulated by the
/// chain up to and including this block. The nonce grinding itself is an
/// external collaborator's business.
#[derive(Clone, Copy, Debug, PartialEq, Eq, Structural)]
pub struct ProofOfWork {
    pub accumulated_difficulty: u64,
}

impl Default for ProofOfWork {
    fn default() -> (r: Self)
        ensures
            r.accumulated_difficulty == 0,
    {
        ProofOfWork { accumulated_difficulty: 0 }
    }
}

/// A block header. Its hash is deterministic over all fields and is the
/// block's identity; the four accumulator roots commit to the chain state
/// after (outputs, range proofs, kernels) and before (headers) this block.
#[derive(Clone, Copy, Debug, PartialEq, Eq, Structural)]
pub struct BlockHeader {
    pub version: u16,
    pub height: u64,
    pub prev_hash: HashOutput,
    pub timestamp: u64,
    pub output_mr: HashOutput,
    pub range_proof_mr: HashOutput,
    pub kernel_mr: HashOutput,
    pub header_mr: HashOutput,
    pub total_kernel_offset: u64,
    pub pow: ProofOfWork,
}

impl BlockHeader {
    /// A blank header of the given version: height zero, all hashes and
    /// offsets zero.
    pub fn new(version: u16) -> (r: BlockHeader)
        ensures
            r == (BlockHeader {
                version,
                height: 0,
                prev_hash: 0,
                timestamp: 0,
                output_mr: 0,
                range_proof_mr: 0,
                kernel_mr: 0,
                header_mr: 0,
                total_kernel_offset: 0,
                pow: ProofOfWork { accumulated_difficulty: 0 },
            }),
    {
        BlockHeader {
            version,
            height: 0,
            prev_hash: 0,
            timestamp: 0,
            output_mr: 0,
            range_proof_mr: 0,
            kernel_mr: 0,
            header_mr: 0,
            total_kernel_offset: 0,
            pow: ProofOfWork { accumulated_difficulty: 0 },
        }
    }

    /// The canonical bytes the header hashes over: every field.
    pub open spec fn spec_hash_bytes(self) -> Seq<u8> {
        u64_le_bytes(self.version as u64) + u64_le_bytes(self.height) + u64_le_bytes(
            self.prev_hash,
        ) + u64_le_bytes(self.timestamp) + u64_le_bytes(self.output_mr) + u64_le_bytes(
            self.range_proof_mr,
        ) + u64_le_bytes(self.kernel_mr) + u64_le_bytes(self.header_mr) + u64_le_bytes(
            self.total_kernel_offset,
        ) + u64_le_bytes(self.pow.accumulated_difficulty)
    }

    /// The header's identity hash.
    pub open spec fn spec_hash(self) -> HashOutput {
        digest_of(self.spec_hash_bytes())
    }

    /// Hash the header over all of its fields.
    pub fn hash(&self) -> (r: HashOutput)
        ensures
            r == self.spec_hash(),
    {
        let mut bytes: Vec<u8> = Vec::new();
        push_u64_bytes(&mut bytes, self.version as u64);
        push_u64_bytes(&mut bytes, self.height);
        push_u64_bytes(&mut bytes, self.prev_hash);
        push_u64_bytes(&mut bytes, self.timestamp);
        push_u64_bytes(&mut bytes, self.output_mr);
        push_u64_bytes(&mut bytes, self.range_proof_mr);
        push_u64_bytes(&mut bytes, self.kernel_mr);
        push_u64_bytes(&mut bytes, self.header_mr);
        push_u64_bytes(&mut bytes, self.total_kernel_offset);
        push_u64_bytes(&mut bytes, self.pow.accumulated_difficulty);
        proof {
            assert(bytes@ =~= self.spec_hash_bytes());
        }
        digest(&bytes)
    }
}

/// Why a block fails its own consensus rules.
#[derive(Clone, Copy, Debug, PartialEq, Eq, Structural)]
pub enum BlockValidationError {
    /// A transaction in the block failed to validate.
    TransactionError(TransactionError),
    /// A kernel's lock height exceeds the block height.
    InvalidKernel,
    /// An input of the block is invalid.
    InvalidInput,
    /// An input's maturity exceeds the block height.
    InputMaturity,
    /// Not exactly one coinbase output, or a coinbase maturity set too low.
    InvalidCoinbase,
    /// The accumulator roots in the header do not match the block's contents.
    MismatchedMmrRoots,
}

/// The number of coinbase-flagged outputs among the first `i`.
pub open spec fn coinbase_count(outputs: Seq<TransactionOutput>, i: int) -> int
    decreases i,
{
    if i <= 0 {
        0
    } else {
        coinbase_count(outputs, i - 1) + if outputs[i - 1].features.spec_is_coinbase() {
            1int
        } else {
            0int
        }
    }
}

/// A block: a header plus the aggregate body it commits to.
#[derive(Clone, Debug, PartialEq)]
pub struct Block {
    pub header: BlockHeader,
    pub body: AggregateBody,
}

impl Block {
    /// The block's identity hash is its header's hash: the body is captured
    /// by the accumulator roots inside the header.
    pub open spec fn spec_hash(self) -> HashOutput {
        self.header.spec_hash()
    }

    /// Hash the block.
    pub fn hash(&self) -> (r: HashOutput)
        ensures
            r == self.spec_hash(),
    {
        self.header.hash()
    }

    /// The total fees carried by the block's kernels.
    pub fn calculate_fees(&self) -> (r: MicroTari)
        requires
            kernel_fee_sum(
                self.body.spec_kernels(),
                self.body.spec_kernels().len() as int,
            ) <= u64::MAX,
        ensures
            r.0 == kernel_fee_sum(self.body.spec_kernels(), self.body.spec_kernels().len() as int),
    {
        self.body.total_fee()
    }

    /// Every kernel's lock height has passed at this block's height.
    pub open spec fn spec_kernel_rules_ok(self) -> bool {
        forall|i: int| 0 <= i < self.body.spec_kernels().len()
            ==> #[trigger] self.body.spec_kernels()[i].lock_height <= self.header.height
    }

    /// Check the kernel rules: no kernel may carry a lock height above the
    /// block's own height.
    pub fn check_kernel_rules(&self) -> (r: Result<(), BlockValidationError>)
        ensures
            r.is_ok() == self.spec_kernel_rules_ok(),
            r.is_err() ==> r == Err::<(), BlockValidationError>(BlockValidationError::InvalidKernel),
    {
        let kernels = self.body.kernels();
        let mut i: usize = 0;
        while i < kernels.len()
            invariant
                i <= kernels@.len(),
                kernels@ == self.body.spec_kernels(),
                forall|t: int| 0 <= t < i ==> #[trigger] kernels@[t].lock_height
                    <= self.header.height,
            decreases kernels@.len() - i,
        {
            if kernels[i].lock_height > self.header.height {
                return Err(BlockValidationError::InvalidKernel);
            }
            i += 1;
        }
        Ok(())
    }

    /// The coinbase rules hold: exactly one coinbase output, and every
    /// coinbase output matures no earlier than the block height plus the
    /// consensus coinbase lock height.
    pub open spec fn spec_coinbase_ok(self) -> bool {
        let outputs = self.body.spec_outputs();
        &&& coinbase_count(outputs, outputs.len() as int) == 1
        &&& forall|i: int|
            0 <= i < outputs.len() && #[trigger] outputs[i].features.spec_is_coinbase()
                ==> outputs[i].features.maturity >= self.header.height
                + ConsensusConstants::spec_current().coinbase_lock_height
    }

    /// Check the coinbase rules: there is exactly one coinbase output and its
    /// maturity is set correctly. The coinbase amount is a stateful
    /// validator's business, not checked here.
    pub fn check_coinbase_output(&self) -> (r: Result<(), BlockValidationError>)
        ensures
            r.is_ok() == self.spec_coinbase_ok(),
            r.is_err() ==> r == Err::<(), BlockValidationError>(
                BlockValidationError::InvalidCoinbase,
            ),
    {
        let rules = ConsensusConstants::current();
        let outputs = self.body.outputs();
        let mut coinbase_counter: usize = 0;
        let mut i: usize = 0;
        while i < outputs.len()
            invariant
                i <= outputs@.len(),
                outputs@ == self.body.spec_outputs(),
                coinbase_counter == coinbase_count(outputs@, i as int),
                coinbase_counter <= i,
                rules == ConsensusConstants::spec_current(),
                forall|t: int|
                    0 <= t < i && #[trigger] outputs@[t].features.spec_is_coinbase()
                        ==> outputs@[t].features.maturity >= self.header.height
                        + rules.coinbase_lock_height,
            decreases outputs@.len() - i,
        {
            if outputs[i].features.is_coinbase() {
                coinbase_counter += 1;
                let bound: u128 = (self.header.height as u128) + (rules.coinbase_lock_height
                    as u128);
                if (outputs[i].features.maturity as u128) < bound {
                    return Err(BlockValidationError::InvalidCoinbase);
                }
            }
            i += 1;
        }
        if coinbase_counter != 1 {
            return Err(BlockValidationError::InvalidCoinbase);
        }
        Ok(())
    }

    /// Every input's maturity has passed at this block's height.
    pub open spec fn spec_stxo_rules_ok(self) -> bool {
        forall|i: int| 0 <= i < self.body.spec_inputs().len()
            ==> #[trigger] self.body.spec_inputs()[i].features.maturity <= self.header.height
    }

    /// Check the spent-output rules: no input may carry a maturity above the
    /// block's own height.
    pub fn check_stxo_rules(&self) -> (r: Result<(), BlockValidationError>)
        ensures
            r.is_ok() == self.spec_stxo_rules_ok(),
            r.is_err() ==> r == Err::<(), BlockValidationError>(BlockValidationError::InputMaturity),
    {
        let inputs = self.body.inputs();
        let mut i: usize = 0;
        while i < inputs.len()
            invariant
                i <= inputs@.len(),
                inputs@ == self.body.spec_inputs(),
                forall|t: int| 0 <= t < i ==> #[trigger] inputs@[t].features.maturity
                    <= self.header.height,
            decreases inputs@.len() - i,
        {
            if inputs[i].features.maturity > self.header.height {
                return Err(BlockValidationError::InputMaturity);
            }
            i += 1;
        }
        Ok(())
    }

    /// Destroy the block and return its pieces: header, inputs, outputs and
    /// kernels.
    pub fn dissolve(self) -> (r: (
        BlockHeader,
        Vec<TransactionInput>,
        Vec<TransactionOutput>,
        Vec<TransactionKernel>,
    ))
        ensures
            r.0 == self.header,
            r.1@ == self.body.spec_inputs(),
            r.2@ == self.body.spec_outputs(),
            r.3@ == self.body.spec_kernels(),
    {
        let (i, o, k) = self.body.dissolve();
        (self.header, i, o, k)
    }
}

/// The concatenated inputs of the first `i` transactions.
pub open spec fn txs_inputs(txs: Seq<Transaction>, i: int) -> Seq<TransactionInput>
    decreases i,
{
    if i <= 0 {
        Seq::empty()
    } else {
        txs_inputs(txs, i - 1) + txs[i - 1].body.spec_inputs()
    }
}

/// The concatenated outputs of the first `i` transactions.
pub open spec fn txs_outputs(txs: Seq<Transaction>, i: int) -> Seq<TransactionOutput>
    decreases i,
{
    if i <= 0 {
        Seq::empty()
    } else {
        txs_outputs(txs, i - 1) + txs[i - 1].body.spec_outputs()
    }
}

/// The concatenated kernels of the first `i` transactions.
pub open spec fn txs_kernels(txs: Seq<Transaction>, i: int) -> Seq<TransactionKernel>
    decreases i,
{
    if i <= 0 {
        Seq::empty()
    } else {
        txs_kernels(txs, i - 1) + txs[i - 1].body.spec_kernels()
    }
}

/// The kernel offsets of the first `i` transactions folded onto `base` in the
/// commitment group.
pub open spec fn txs_offset_fold(txs: Seq<Transaction>, i: int, base: u64) -> u64
    decreases i,
{
    if i <= 0 {
        base
    } else {
        wadd(txs_offset_fold(txs, i - 1, base), txs[i - 1].offset)
    }
}

/// Assembles a block out of a header, loose parts and whole transactions,
/// then sorts the body canonically.
pub struct BlockBuilder {
    pub(crate) header: BlockHeader,
    pub(crate) inputs: Vec<TransactionInput>,
    pub(crate) outputs: Vec<TransactionOutput>,
    pub(crate) kernels: Vec<TransactionKernel>,
}

impl BlockBuilder {
    /// The header the builder will give the block.
    pub closed spec fn spec_header(self) -> BlockHeader {
        self.header
    }

    /// The inputs collected so far.
    pub closed spec fn spec_inputs(self) -> Seq<TransactionInput> {
        self.inputs@
    }

    /// The outputs collected so far.
    pub closed spec fn spec_outputs(self) -> Seq<TransactionOutput> {
        self.outputs@
    }

    /// The kernels collected so far.
    pub closed spec fn spec_kernels(self) -> Seq<TransactionKernel> {
        self.kernels@
    }

    /// An empty builder: a blank header of the consensus blockchain version
    /// and no parts.
    pub fn new() -> (r: BlockBuilder)
        ensures
            r.spec_header() == (BlockHeader {
                version: ConsensusConstants::spec_current().blockchain_version,
                height: 0,
                prev_hash: 0,
                timestamp: 0,
                output_mr: 0,
                range_proof_mr: 0,
                kernel_mr: 0,
                header_mr: 0,
                total_kernel_offset: 0,
                pow: ProofOfWork { accumulated_difficulty: 0 },
            }),
            r.spec_inputs() == Seq::<TransactionInput>::empty(),
            r.spec_outputs() == Seq::<TransactionOutput>::empty(),
            r.spec_kernels() == Seq::<TransactionKernel>::empty(),
    {
        BlockBuilder {
            header: BlockHeader::new(ConsensusConstants::current().blockchain_version()),
            inputs: Vec::new(),
            outputs: Vec::new(),
            kernels: Vec::new(),
        }
    }

    /// Replace the block's header.
    pub fn with_header(self, header: BlockHeader) -> (r: Self)
        ensures
            r.spec_header() == header,
            r.spec_inputs() == self.spec_inputs(),
            r.spec_outputs() == self.spec_outputs(),
            r.spec_kernels() == self.spec_kernels(),
    {
        let mut b = self;
        b.header = header;
        b
    }

    /// Append the provided transaction inputs to the block.
    pub fn add_inputs(self, inputs: Vec<TransactionInput>) -> (r: Self)
        ensures
            r.spec_header() == self.spec_header(),
            r.spec_inputs() == self.spec_inputs() + inputs@,
            r.spec_outputs() == self.spec_outputs(),
            r.spec_kernels() == self.spec_kernels(),
    {
        let mut b = self;
        let mut inputs = inputs;
        b.inputs.append(&mut inputs);
        b
    }

    /// Append the provided transaction outputs to the block.
    pub fn add_outputs(self, outputs: Vec<TransactionOutput>) -> (r: Self)
        ensures
            r.spec_header() == self.spec_header(),
            r.spec_inputs() == self.spec_inputs(),
            r.spec_outputs() == self.spec_outputs() + outputs@,
            r.spec_kernels() == self.spec_kernels(),
    {
        let mut b = self;
        let mut outputs = outputs;
        b.outputs.append(&mut outputs);
        b
    }

    /// Append the provided transaction kernels to the block.
    pub fn add_kernels(self, kernels: Vec<TransactionKernel>) -> (r: Self)
        ensures
            r.spec_header() == self.spec_header(),
            r.spec_inputs() == self.spec_inputs(),
            r.spec_outputs() == self.spec_outputs(),
            r.spec_kernels() == self.spec_kernels() + kernels@,
    {
        let mut b = self;
        let mut kernels = kernels;
        b.kernels.append(&mut kernels);
        b
    }

    /// Add one transaction to the block: its parts join the body and its
    /// kernel offset folds into the header's total offset.
    pub fn add_transaction(self, tx: Transaction) -> (r: Self)
        ensures
            r.spec_header() == (BlockHeader {
                total_kernel_offset: wadd(self.spec_header().total_kernel_offset, tx.offset),
                ..self.spec_header()
            }),
            r.spec_inputs() == self.spec_inputs() + tx.body.spec_inputs(),
            r.spec_outputs() == self.spec_outputs() + tx.body.spec_outputs(),
            r.spec_kernels() == self.spec_kernels() + tx.body.spec_kernels(),
    {
        let offset = tx.offset;
        let (inputs, outputs, kernels) = tx.body.dissolve();
        let mut b = self;
        b = b.add_inputs(inputs);
        b = b.add_outputs(outputs);
        b = b.add_kernels(kernels);
        b.header.total_kernel_offset = b.header.total_kernel_offset.wrapping_add(offset);
        b
    }

    /// Add the provided transactions to the block, in order.
    pub fn with_transactions(self, txs: Vec<Transaction>) -> (r: Self)
        ensures
            r.spec_header() == (BlockHeader {
                total_kernel_offset: txs_offset_fold(
                    txs@,
                    txs@.len() as int,
                    self.spec_header().total_kernel_offset,
                ),
                ..self.spec_header()
            }),
            r.spec_inputs() == self.spec_inputs() + txs_inputs(txs@, txs@.len() as int),
            r.spec_outputs() == self.spec_outputs() + txs_outputs(txs@, txs@.len() as int),
            r.spec_kernels() == self.spec_kernels() + txs_kernels(txs@, txs@.len() as int),
    {
        let ghost orig = txs@;
        let mut txs = txs;
        let mut b = self;
        let ghost mut done: int = 0;
        while txs.len() > 0
            invariant
                0 <= done,
                done + txs@.len() == orig.len(),
                txs@ == orig.skip(done),
                b.spec_header() == (BlockHeader {
                    total_kernel_offset: txs_offset_fold(
                        orig,
                        done,
                        self.spec_header().total_kernel_offset,
                    ),
                    ..self.spec_header()
                }),
                b.spec_inputs() == self.spec_inputs() + txs_inputs(orig, done),
                b.spec_outputs() == self.spec_outputs() + txs_outputs(orig, done),
                b.spec_kernels() == self.spec_kernels() + txs_kernels(orig, done),
            decreases txs@.len(),
        {
            let tx = txs.remove(0);
            assert(tx == orig[done]);
            b = b.add_transaction(tx);
            proof {
                done = done + 1;
                assert(txs@ =~= orig.skip(done));
                assert(b.spec_inputs() =~= self.spec_inputs() + txs_inputs(orig, done));
                assert(b.spec_outputs() =~= self.spec_outputs() + txs_outputs(orig, done));
                assert(b.spec_kernels() =~= self.spec_kernels() + txs_kernels(orig, done));
            }
        }
        proof {
            assert(b.spec_inputs() =~= self.spec_inputs() + txs_inputs(orig, orig.len() as int));
            assert(b.spec_outputs() =~= self.spec_outputs() + txs_outputs(orig, orig.len() as int));
            assert(b.spec_kernels() =~= self.spec_kernels() + txs_kernels(orig, orig.len() as int));
        }
        b
    }

    /// Add the given coinbase output and its kernel to the block.
    pub fn with_coinbase_utxo(
        self,
        coinbase_utxo: TransactionOutput,
        coinbase_kernel: TransactionKernel,
    ) -> (r: Self)
        ensures
            r.spec_header() == self.spec_header(),
            r.spec_inputs() == self.spec_inputs(),
            r.spec_outputs() == self.spec_outputs().push(coinbase_utxo),
            r.spec_kernels() == self.spec_kernels().push(coinbase_kernel),
    {
        let mut b = self;
        b.kernels.push(coinbase_kernel);
        b.outputs.push(coinbase_utxo);
        b
    }

    /// Attach the proof-of-work metadata to the block's header.
    pub fn with_pow(self, pow: ProofOfWork) -> (r: Self)
        ensures
            r.spec_header() == (BlockHeader { pow, ..self.spec_header() }),
            r.spec_inputs() == self.spec_inputs(),
            r.spec_outputs() == self.spec_outputs(),
            r.spec_kernels() == self.spec_kernels(),
    {
        let mut b = self;
        b.header.pow = pow;
        b
    }

    /// Finish construction: the collected parts become the block's body, in
    /// canonical order.
    pub fn build(self) -> (r: Block)
        ensures
            r.header == self.spec_header(),
            r.body.spec_sorted(),
            r.body.spec_inputs().to_multiset() == self.spec_inputs().to_multiset(),
            r.body.spec_outputs().to_multiset() == self.spec_outputs().to_multiset(),
            r.body.spec_kernels().to_multiset() == self.spec_kernels().to_multiset(),
    {
        let mut block = Block {
            header: self.header,
            body: AggregateBody::new(self.inputs, self.outputs, self.kernels),
        };
        block.body.sort();
        block
    }
}

} // verus!
