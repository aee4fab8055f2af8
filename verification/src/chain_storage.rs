//! Chain storage: the blockchain database.
//!
//! The store keeps the chain of blocks, the live (UTXO) and spent (STXO)
//! output sets, a pool of orphan blocks, and four append-only Merkle
//! accumulators — outputs, range proofs, kernels and headers — whose roots
//! every accepted block's header must carry.
//!
//! The model is append-plus-orphan-parking: blocks extend the tip or are
//! parked, and parked orphans are not reconnected. No rewind or reorg
//! operation exists; the store only tracks, in `horizon`, the lowest height a
//! bounded-history rewind would still reach, under the configured history
//! window. `BlockAddResult::ChainReorg`, `ChainStorageError::IoError` and
//! `ChainStorageError::BeyondPrunedHorizon` name outcomes of those absent
//! operations and are never produced here.

use vstd::prelude::*;

verus! {

use crate::blocks::{Block, BlockHeader, BlockValidationError};
use crate::hashing::{spec_hash_pair, hash_pair, HashOutput, FNV_OFFSET_BASIS};
use crate::transactions::{
    copy_inputs,
    copy_kernels,
    copy_outputs,
    AggregateBody,
    TransactionInput,
    TransactionKernel,
    TransactionOutput,
};

/// The result of adding a block to the store.
#[derive(Clone, Copy, Debug, PartialEq, Eq, Structural)]
pub enum BlockAddResult {
    /// The block extended the tip.
    Added,
    /// The block's parent is unknown; it was parked in the orphan pool.
    OrphanBlock,
    /// A heavier alternative chain replaced a suffix of the old chain.
    /// Reserved: this store performs no reorganisation.
    ChainReorg,
    /// A block with this header already sits at its height.
    BlockExists,
}

/// Failures of the chain store.
#[derive(Clone, Copy, Debug, PartialEq, Eq, Structural)]
pub enum ChainStorageError {
    /// The backing store failed. Reserved for fallible backends; the
    /// in-memory store never fails this way.
    IoError,
    /// The requested state is older than the retained history window.
    /// Reserved: this store offers no rewind to fail.
    BeyondPrunedHorizon,
    /// The accumulator roots in the block's header do not match its contents.
    InvalidMmrRoots,
    /// The block broke a consensus rule.
    InvalidBlock(BlockValidationError),
    /// An output of the block already exists, live or spent.
    DuplicateOutput,
    /// No entry at the requested position.
    ValueNotFound,
}

/// The four Merkle accumulators the store maintains.
#[derive(Clone, Copy, Debug, PartialEq, Eq, Structural)]
pub enum MmrTree {
    Utxo,
    Kernel,
    RangeProof,
    Header,
}

/// Bounds on the rewind history the store retains: once more than
/// `max_history_len` block states are rewindable, the oldest are pruned until
/// `min_history_len` remain.
#[derive(Clone, Copy, Debug, PartialEq, Eq, Structural)]
pub struct MerkleChangeTrackerConfig {
    pub min_history_len: usize,
    pub max_history_len: usize,
}

impl Default for MerkleChangeTrackerConfig {
    fn default() -> (r: Self)
        ensures
            r.min_history_len == 900,
            r.max_history_len == 1000,
    {
        MerkleChangeTrackerConfig { min_history_len: 900, max_history_len: 1000 }
    }
}

/// The root of the first `i` leaves of an accumulator: the empty root for no
/// leaves, and each further leaf chained in with the pair combinator.
pub open spec fn accumulator_root(leaves: Seq<HashOutput>, i: int) -> HashOutput
    decreases i,
{
    if i <= 0 {
        FNV_OFFSET_BASIS
    } else {
        spec_hash_pair(accumulator_root(leaves, i - 1), leaves[i - 1])
    }
}

/// An append-only Merkle accumulator over leaf hashes: the degenerate
/// mountain range whose root chains every leaf in order, so appending is
/// cheap and the root is a pure function of the leaf sequence.
pub struct MerkleAccumulator {
    leaves: Vec<HashOutput>,
}

impl MerkleAccumulator {
    /// The leaves appended so far.
    pub closed spec fn spec_leaves(self) -> Seq<HashOutput> {
        self.leaves@
    }

    /// An empty accumulator.
    pub fn new() -> (r: Self)
        ensures
            r.spec_leaves() == Seq::<HashOutput>::empty(),
    {
        MerkleAccumulator { leaves: Vec::new() }
    }

    /// Append the leaves of a new block.
    pub fn append(&mut self, extra: &Vec<HashOutput>)
        ensures
            final(self).spec_leaves() == old(self).spec_leaves() + extra@,
    {
        let mut i: usize = 0;
        while i < extra.len()
            invariant
                i <= extra@.len(),
                self.leaves@ == old(self).leaves@ + extra@.take(i as int),
            decreases extra@.len() - i,
        {
            self.leaves.push(extra[i]);
            proof {
                assert(self.leaves@ =~= old(self).leaves@ + extra@.take(i + 1));
            }
            i += 1;
        }
        proof {
            assert(old(self).leaves@ + extra@.take(extra@.len() as int) =~= old(self).leaves@
                + extra@);
        }
    }

    /// The current root.
    pub fn root(&self) -> (r: HashOutput)
        ensures
            r == accumulator_root(self.spec_leaves(), self.spec_leaves().len() as int),
    {
        root_of_leaves(&self.leaves)
    }

    /// The root the accumulator would have after appending the given leaves.
    pub fn root_with(&self, extra: &Vec<HashOutput>) -> (r: HashOutput)
        ensures
            r == accumulator_root(
                self.spec_leaves() + extra@,
                self.spec_leaves().len() + extra@.len() as int,
            ),
    {
        let ghost all = self.leaves@ + extra@;
        let mut h: HashOutput = root_of_leaves(&self.leaves);
        proof {
            assert(all.take(self.leaves@.len() as int) =~= self.leaves@);
            lemma_accumulator_root_prefix(all, self.leaves@.len() as int);
        }
        let mut i: usize = 0;
        while i < extra.len()
            invariant
                i <= extra@.len(),
                all == self.leaves@ + extra@,
                h == accumulator_root(all, self.leaves@.len() + i),
            decreases extra@.len() - i,
        {
            h = hash_pair(h, extra[i]);
            i += 1;
        }
        h
    }
}

/// The root over the first `i` leaves reads only those leaves.
pub proof fn lemma_root_depends_on_prefix(a: Seq<HashOutput>, b: Seq<HashOutput>, i: int)
    requires
        forall|j: int| 0 <= j < i ==> a[j] == b[j],
    ensures
        accumulator_root(a, i) == accumulator_root(b, i),
    decreases i,
{
    if i > 0 {
        lemma_root_depends_on_prefix(a, b, i - 1);
    }
}

/// The root over a prefix only reads that prefix.
pub proof fn lemma_accumulator_root_prefix(leaves: Seq<HashOutput>, i: int)
    requires
        0 <= i <= leaves.len(),
    ensures
        accumulator_root(leaves.take(i), i) == accumulator_root(leaves, i),
{
    lemma_root_depends_on_prefix(leaves.take(i), leaves, i);
}

/// Compute the root over a vector of leaves.
fn root_of_leaves(leaves: &Vec<HashOutput>) -> (r: HashOutput)
    ensures
        r == accumulator_root(leaves@, leaves@.len() as int),
{
    let mut h: HashOutput = FNV_OFFSET_BASIS;
    let mut i: usize = 0;
    while i < leaves.len()
        invariant
            i <= leaves@.len(),
            h == accumulator_root(leaves@, i as int),
        decreases leaves@.len() - i,
    {
        h = hash_pair(h, leaves[i]);
        i += 1;
    }
    h
}

/// The output-hash leaves of a block's body.
pub open spec fn block_output_leaves(b: Block) -> Seq<HashOutput> {
    b.body.spec_outputs().map_values(|o: TransactionOutput| o.spec_hash())
}

/// The range-proof-hash leaves of a block's body.
pub open spec fn block_proof_leaves(b: Block) -> Seq<HashOutput> {
    b.body.spec_outputs().map_values(|o: TransactionOutput| o.spec_proof_hash())
}

/// The kernel-hash leaves of a block's body.
pub open spec fn block_kernel_leaves(b: Block) -> Seq<HashOutput> {
    b.body.spec_kernels().map_values(|k: TransactionKernel| k.spec_hash())
}

/// The output leaves of the first `i` blocks, concatenated.
pub open spec fn chain_output_leaves(blocks: Seq<Block>, i: int) -> Seq<HashOutput>
    decreases i,
{
    if i <= 0 {
        Seq::empty()
    } else {
        chain_output_leaves(blocks, i - 1) + block_output_leaves(blocks[i - 1])
    }
}

/// The range-proof leaves of the first `i` blocks, concatenated.
pub open spec fn chain_proof_leaves(blocks: Seq<Block>, i: int) -> Seq<HashOutput>
    decreases i,
{
    if i <= 0 {
        Seq::empty()
    } else {
        chain_proof_leaves(blocks, i - 1) + block_proof_leaves(blocks[i - 1])
    }
}

/// The kernel leaves of the first `i` blocks, concatenated.
pub open spec fn chain_kernel_leaves(blocks: Seq<Block>, i: int) -> Seq<HashOutput>
    decreases i,
{
    if i <= 0 {
        Seq::empty()
    } else {
        chain_kernel_leaves(blocks, i - 1) + block_kernel_leaves(blocks[i - 1])
    }
}

/// The header-hash leaves of the first `i` blocks.
pub open spec fn chain_header_leaves(blocks: Seq<Block>, i: int) -> Seq<HashOutput>
    decreases i,
{
    if i <= 0 {
        Seq::empty()
    } else {
        chain_header_leaves(blocks, i - 1).push(blocks[i - 1].header.spec_hash())
    }
}

/// A sequence of outputs holds one with the given identity hash.
pub open spec fn outputs_contain_hash(s: Seq<TransactionOutput>, h: HashOutput) -> bool {
    exists|i: int| 0 <= i < s.len() && (#[trigger] s[i]).spec_hash() == h
}

/// Two blocks carry the same header and the same body contents.
pub open spec fn block_equiv(a: Block, b: Block) -> bool {
    &&& a.header == b.header
    &&& a.body.spec_inputs() == b.body.spec_inputs()
    &&& a.body.spec_outputs() == b.body.spec_outputs()
    &&& a.body.spec_kernels() == b.body.spec_kernels()
}

/// The blockchain database over the in-memory backend: the chain of blocks,
/// the live and spent output sets, the orphan pool and the four accumulators.
pub struct BlockchainDatabase {
    blocks: Vec<Block>,
    orphans: Vec<Block>,
    utxos: Vec<TransactionOutput>,
    stxos: Vec<TransactionOutput>,
    output_mmr: MerkleAccumulator,
    range_proof_mmr: MerkleAccumulator,
    kernel_mmr: MerkleAccumulator,
    header_mmr: MerkleAccumulator,
    horizon: u64,
    config: MerkleChangeTrackerConfig,
}

impl BlockchainDatabase {
    /// The chain of accepted blocks, by height.
    pub closed spec fn spec_blocks(self) -> Seq<Block> {
        self.blocks@
    }

    /// The parked orphan blocks, in arrival order.
    pub closed spec fn spec_orphans(self) -> Seq<Block> {
        self.orphans@
    }

    /// The live output set.
    pub closed spec fn spec_utxos(self) -> Seq<TransactionOutput> {
        self.utxos@
    }

    /// The spent output set.
    pub closed spec fn spec_stxos(self) -> Seq<TransactionOutput> {
        self.stxos@
    }

    /// The lowest height still inside the retained history window; the floor
    /// a bounded-history rewind would have.
    pub closed spec fn spec_horizon(self) -> int {
        self.horizon as int
    }

    /// The history bounds the store was created with.
    pub closed spec fn spec_config(self) -> MerkleChangeTrackerConfig {
        self.config
    }

    /// A live output with the given identity hash exists.
    pub open spec fn spec_is_utxo(self, h: HashOutput) -> bool {
        outputs_contain_hash(self.spec_utxos(), h)
    }

    /// A spent output with the given identity hash exists.
    pub open spec fn spec_is_stxo(self, h: HashOutput) -> bool {
        outputs_contain_hash(self.spec_stxos(), h)
    }

    /// The store's consistency invariant: heights index the chain, each
    /// header names its parent's hash, every accumulator holds exactly the
    /// chain's leaves, live output hashes are unique, and no output is both
    /// live and spent.
    pub closed spec fn wf(self) -> bool {
        let blocks = self.spec_blocks();
        &&& forall|i: int| 0 <= i < blocks.len() ==> (#[trigger] blocks[i]).header.height == i
        &&& forall|i: int|
            0 < i < blocks.len() ==> (#[trigger] blocks[i]).header.prev_hash
                == blocks[i - 1].header.spec_hash()
        &&& blocks.len() > 0 ==> blocks[0].header.prev_hash == 0
        &&& self.output_mmr.spec_leaves() == chain_output_leaves(blocks, blocks.len() as int)
        &&& self.range_proof_mmr.spec_leaves() == chain_proof_leaves(blocks, blocks.len() as int)
        &&& self.kernel_mmr.spec_leaves() == chain_kernel_leaves(blocks, blocks.len() as int)
        &&& self.header_mmr.spec_leaves() == chain_header_leaves(blocks, blocks.len() as int)
        &&& forall|i: int, j: int|
            0 <= i < j < self.spec_utxos().len() ==> (#[trigger] self.spec_utxos()[i]).spec_hash()
                != (#[trigger] self.spec_utxos()[j]).spec_hash()
        &&& forall|i: int, j: int|
            0 <= i < self.spec_utxos().len() && 0 <= j < self.spec_stxos().len() ==> (
            #[trigger] self.spec_utxos()[i]).spec_hash() != (
            #[trigger] self.spec_stxos()[j]).spec_hash()
        &&& self.spec_horizon() <= blocks.len()
        &&& 1 <= self.spec_config().min_history_len <= self.spec_config().max_history_len
    }

    /// Create an empty store with the given history bounds.
    pub fn new(config: MerkleChangeTrackerConfig) -> (r: Self)
        requires
            1 <= config.min_history_len <= config.max_history_len,
        ensures
            r.wf(),
            r.spec_blocks() == Seq::<Block>::empty(),
            r.spec_orphans() == Seq::<Block>::empty(),
            r.spec_utxos() == Seq::<TransactionOutput>::empty(),
            r.spec_stxos() == Seq::<TransactionOutput>::empty(),
            r.spec_horizon() == 0,
            r.spec_config() == config,
    {
        BlockchainDatabase {
            blocks: Vec::new(),
            orphans: Vec::new(),
            utxos: Vec::new(),
            stxos: Vec::new(),
            output_mmr: MerkleAccumulator::new(),
            range_proof_mmr: MerkleAccumulator::new(),
            kernel_mmr: MerkleAccumulator::new(),
            header_mmr: MerkleAccumulator::new(),
            horizon: 0,
            config,
        }
    }

    /// The height of the chain tip, or `None` for an empty store.
    pub fn get_height(&self) -> (r: Option<u64>)
        ensures
            r == (if self.spec_blocks().len() == 0 {
                Option::<u64>::None
            } else {
                Option::<u64>::Some((self.spec_blocks().len() - 1) as u64)
            }),
    {
        let n = self.blocks.len();
        if n == 0 {
            None
        } else {
            Some((n - 1) as u64)
        }
    }

    /// The header at the given height.
    pub fn fetch_header(&self, height: u64) -> (r: Result<BlockHeader, ChainStorageError>)
        ensures
            r == (if height < self.spec_blocks().len() {
                Ok::<BlockHeader, ChainStorageError>(self.spec_blocks()[height as int].header)
            } else {
                Err::<BlockHeader, ChainStorageError>(ChainStorageError::ValueNotFound)
            }),
    {
        if height < self.blocks.len() as u64 {
            Ok(self.blocks[height as usize].header)
        } else {
            Err(ChainStorageError::ValueNotFound)
        }
    }

    /// The block at the given height; its contents equal the stored block's.
    pub fn fetch_block(&self, height: u64) -> (r: Result<Block, ChainStorageError>)
        ensures
            height < self.spec_blocks().len() ==> (r matches Ok(b) && block_equiv(
                b,
                self.spec_blocks()[height as int],
            )),
            height >= self.spec_blocks().len() ==> r == Err::<Block, ChainStorageError>(
                ChainStorageError::ValueNotFound,
            ),
    {
        if height < self.blocks.len() as u64 {
            let stored = &self.blocks[height as usize];
            let inputs = copy_inputs(stored.body.inputs());
            let outputs = copy_outputs(stored.body.outputs());
            let kernels = copy_kernels(stored.body.kernels());
            Ok(Block { header: stored.header, body: AggregateBody::new(inputs, outputs, kernels) })
        } else {
            Err(ChainStorageError::ValueNotFound)
        }
    }

    /// Whether an unspent output with the given identity hash exists.
    pub fn is_utxo(&self, hash: HashOutput) -> (r: Result<bool, ChainStorageError>)
        ensures
            r == Ok::<bool, ChainStorageError>(self.spec_is_utxo(hash)),
    {
        Ok(contains_output_hash(&self.utxos, hash))
    }

    /// The current root of the chosen accumulator.
    pub fn fetch_mmr_root(&self, tree: MmrTree) -> (r: Result<HashOutput, ChainStorageError>)
        ensures
            (r matches Ok(h) && h == accumulator_root(
                self.spec_tree_leaves(tree),
                self.spec_tree_leaves(tree).len() as int,
            )),
    {
        match tree {
            MmrTree::Utxo => Ok(self.output_mmr.root()),
            MmrTree::Kernel => Ok(self.kernel_mmr.root()),
            MmrTree::RangeProof => Ok(self.range_proof_mmr.root()),
            MmrTree::Header => Ok(self.header_mmr.root()),
        }
    }

    /// The leaves of the chosen accumulator.
    pub closed spec fn spec_tree_leaves(self, tree: MmrTree) -> Seq<HashOutput> {
        match tree {
            MmrTree::Utxo => self.output_mmr.spec_leaves(),
            MmrTree::Kernel => self.kernel_mmr.spec_leaves(),
            MmrTree::RangeProof => self.range_proof_mmr.spec_leaves(),
            MmrTree::Header => self.header_mmr.spec_leaves(),
        }
    }

    /// A block with this header already sits at its height.
    pub open spec fn spec_block_exists(self, block: Block) -> bool {
        block.header.height < self.spec_blocks().len() && self.spec_blocks()[
            block.header.height as int
        ].header == block.header
    }

    /// The block extends the tip: the next height, naming the tip's hash as
    /// its parent — or the genesis shape on an empty store.
    pub open spec fn spec_extends_tip(self, block: Block) -> bool {
        let blocks = self.spec_blocks();
        if blocks.len() == 0 {
            block.header.height == 0 && block.header.prev_hash == 0
        } else {
            block.header.height == blocks.len() && block.header.prev_hash
                == blocks[blocks.len() - 1].header.spec_hash()
        }
    }

    /// Every input spends a distinct live output.
    pub open spec fn spec_inputs_ok(self, block: Block) -> bool {
        let ins = block.body.spec_inputs();
        &&& forall|i: int|
            0 <= i < ins.len() ==> self.spec_is_utxo((#[trigger] ins[i]).spec_hash())
        &&& forall|i: int, j: int|
            0 <= i < j < ins.len() ==> (#[trigger] ins[i]).spec_hash() != (
            #[trigger] ins[j]).spec_hash()
    }

    /// Every output is fresh: distinct within the block and unseen in both
    /// the live and the spent set.
    pub open spec fn spec_outputs_ok(self, block: Block) -> bool {
        let outs = block.body.spec_outputs();
        &&& forall|i: int|
            0 <= i < outs.len() ==> !self.spec_is_utxo((#[trigger] outs[i]).spec_hash())
                && !self.spec_is_stxo(outs[i].spec_hash())
        &&& forall|i: int, j: int|
            0 <= i < j < outs.len() ==> (#[trigger] outs[i]).spec_hash() != (
            #[trigger] outs[j]).spec_hash()
    }

    /// The header's four roots equal the accumulator roots the chain reaches
    /// with this block: outputs, range proofs and kernels after appending its
    /// leaves, headers before appending its own hash.
    pub open spec fn spec_roots_ok(self, block: Block) -> bool {
        let outl = self.spec_tree_leaves(MmrTree::Utxo) + block_output_leaves(block);
        let rpl = self.spec_tree_leaves(MmrTree::RangeProof) + block_proof_leaves(block);
        let kl = self.spec_tree_leaves(MmrTree::Kernel) + block_kernel_leaves(block);
        let hl = self.spec_tree_leaves(MmrTree::Header);
        &&& block.header.output_mr == accumulator_root(outl, outl.len() as int)
        &&& block.header.range_proof_mr == accumulator_root(rpl, rpl.len() as int)
        &&& block.header.kernel_mr == accumulator_root(kl, kl.len() as int)
        &&& block.header.header_mr == accumulator_root(hl, hl.len() as int)
    }

    /// The block passes its own stateless consensus rules.
    pub open spec fn spec_stateless_ok(block: Block) -> bool {
        block.spec_coinbase_ok() && block.spec_kernel_rules_ok() && block.spec_stxo_rules_ok()
    }

    /// The accumulator roots a block at the tip would have to carry: outputs,
    /// range proofs and kernels with the block's leaves appended, and the
    /// header root over the chain so far.
    pub fn calculate_mmr_roots(&self, block: &Block) -> (r: (
        HashOutput,
        HashOutput,
        HashOutput,
        HashOutput,
    ))
        ensures
            self.spec_roots_ok(*block) == (block.header.output_mr == r.0
                && block.header.range_proof_mr == r.1 && block.header.kernel_mr == r.2
                && block.header.header_mr == r.3),
    {
        let out_leaves = output_hashes(block.body.outputs());
        let rp_leaves = proof_hashes(block.body.outputs());
        let k_leaves = kernel_hashes(block.body.kernels());
        let out_root = self.output_mmr.root_with(&out_leaves);
        let rp_root = self.range_proof_mmr.root_with(&rp_leaves);
        let k_root = self.kernel_mmr.root_with(&k_leaves);
        let h_root = self.header_mmr.root();
        (out_root, rp_root, k_root, h_root)
    }

    /// Add a block to the store. The block is first held to its own
    /// stateless rules; a block already stored reports so; one that does not
    /// extend the tip is parked in the orphan pool; otherwise its inputs must
    /// spend distinct live outputs, its outputs must be fresh, and its header
    /// roots must match the accumulators, upon which it becomes the new tip:
    /// spent outputs move from the live to the spent set and the created
    /// outputs become live. Nothing is committed on any failure.
    #[verifier::rlimit(100)]
    #[verifier::spinoff_prover]
    pub fn add_block(&mut self, block: Block) -> (r: Result<BlockAddResult, ChainStorageError>)
        requires
            old(self).wf(),
        ensures
            final(self).wf(),
            final(self).spec_config() == old(self).spec_config(),
            !block.spec_coinbase_ok() ==> r == Err::<BlockAddResult, ChainStorageError>(
                ChainStorageError::InvalidBlock(BlockValidationError::InvalidCoinbase),
            ) && *final(self) == *old(self),
            block.spec_coinbase_ok() && !block.spec_kernel_rules_ok() ==> r == Err::<
                BlockAddResult,
                ChainStorageError,
            >(ChainStorageError::InvalidBlock(BlockValidationError::InvalidKernel)) && *final(self)
                == *old(self),
            block.spec_coinbase_ok() && block.spec_kernel_rules_ok()
                && !block.spec_stxo_rules_ok() ==> r == Err::<BlockAddResult, ChainStorageError>(
                ChainStorageError::InvalidBlock(BlockValidationError::InputMaturity),
            ) && *final(self) == *old(self),
            Self::spec_stateless_ok(block) && old(self).spec_block_exists(block) ==> r == Ok::<
                BlockAddResult,
                ChainStorageError,
            >(BlockAddResult::BlockExists) && *final(self) == *old(self),
            Self::spec_stateless_ok(block) && !old(self).spec_block_exists(block) && !old(self).spec_extends_tip(block) ==> r == Ok::<BlockAddResult, ChainStorageError>(
                BlockAddResult::OrphanBlock,
            ) && final(self).spec_orphans() == old(self).spec_orphans().push(block) && final(self).spec_blocks() == old(self).spec_blocks() && final(self).spec_utxos() == old(self).spec_utxos() && final(self).spec_stxos() == old(self).spec_stxos() && final(self).spec_horizon() == old(self).spec_horizon(),
            Self::spec_stateless_ok(block) && !old(self).spec_block_exists(block) && old(
                self,
            ).spec_extends_tip(block) ==> Self::spec_extension_post(
                *old(self),
                *final(self),
                block,
                r,
            ),
    {
        if let Err(e) = block.check_coinbase_output() {
            return Err(ChainStorageError::InvalidBlock(e));
        }
        if let Err(e) = block.check_kernel_rules() {
            return Err(ChainStorageError::InvalidBlock(e));
        }
        if let Err(e) = block.check_stxo_rules() {
            return Err(ChainStorageError::InvalidBlock(e));
        }
        let len = self.blocks.len();
        if block.header.height < len as u64 {
            if self.blocks[block.header.height as usize].header == block.header {
                return Ok(BlockAddResult::BlockExists);
            }
        }
        let extends = if len == 0 {
            block.header.height == 0 && block.header.prev_hash == 0
        } else {
            block.header.height == len as u64 && block.header.prev_hash == self.blocks[len
                - 1].header.hash()
        };
        if !extends {
            self.park_orphan(block);
            return Ok(BlockAddResult::OrphanBlock);
        }
        self.extend_chain(block)
    }

    /// What adding a tip-extending block leaves behind: the exact error and
    /// an unchanged store when its inputs, outputs or roots fail, and the new
    /// tip otherwise, with the spent outputs moved, the created outputs live,
    /// and the accumulator roots equal to the header's.
    #[verifier::opaque]
    pub open spec fn spec_extension_post(
        pre: Self,
        post: Self,
        block: Block,
        r: Result<BlockAddResult, ChainStorageError>,
    ) -> bool {
        &&& !pre.spec_inputs_ok(block) ==> r == Err::<BlockAddResult, ChainStorageError>(
            ChainStorageError::InvalidBlock(BlockValidationError::InvalidInput),
        ) && post == pre
        &&& pre.spec_inputs_ok(block) && !pre.spec_outputs_ok(block) ==> r == Err::<
            BlockAddResult,
            ChainStorageError,
        >(ChainStorageError::DuplicateOutput) && post == pre
        &&& pre.spec_inputs_ok(block) && pre.spec_outputs_ok(block) && !pre.spec_roots_ok(block)
            ==> r == Err::<BlockAddResult, ChainStorageError>(ChainStorageError::InvalidMmrRoots)
            && post == pre
        &&& pre.spec_inputs_ok(block) && pre.spec_outputs_ok(block) && pre.spec_roots_ok(block)
            ==> {
            &&& r == Ok::<BlockAddResult, ChainStorageError>(BlockAddResult::Added)
            &&& post.spec_blocks() == pre.spec_blocks().push(block)
            &&& post.spec_orphans() == pre.spec_orphans()
            &&& forall|h: HashOutput|
                post.spec_is_utxo(h) == ((pre.spec_is_utxo(h) && !block_spends(block, h))
                    || block_creates(block, h))
            &&& forall|h: HashOutput|
                post.spec_is_stxo(h) == (pre.spec_is_stxo(h) || block_spends(block, h))
            &&& accumulator_root(
                post.spec_tree_leaves(MmrTree::Utxo),
                post.spec_tree_leaves(MmrTree::Utxo).len() as int,
            ) == block.header.output_mr
            &&& accumulator_root(
                post.spec_tree_leaves(MmrTree::RangeProof),
                post.spec_tree_leaves(MmrTree::RangeProof).len() as int,
            ) == block.header.range_proof_mr
            &&& accumulator_root(
                post.spec_tree_leaves(MmrTree::Kernel),
                post.spec_tree_leaves(MmrTree::Kernel).len() as int,
            ) == block.header.kernel_mr
        }
    }

    /// Validate a tip-extending block against the live state and commit it.
    #[verifier::rlimit(100)]
    #[verifier::spinoff_prover]
    fn extend_chain(&mut self, block: Block) -> (r: Result<BlockAddResult, ChainStorageError>)
        requires
            old(self).wf(),
            old(self).spec_extends_tip(block),
        ensures
            final(self).wf(),
            final(self).spec_config() == old(self).spec_config(),
            Self::spec_extension_post(*old(self), *final(self), block, r),
    {
        if !self.check_inputs(&block) {
            proof {
                assert(Self::spec_extension_post(
                    *old(self),
                    *self,
                    block,
                    Err(ChainStorageError::InvalidBlock(BlockValidationError::InvalidInput)),
                )) by {
                    reveal(BlockchainDatabase::spec_extension_post);
                }
            }
            return Err(ChainStorageError::InvalidBlock(BlockValidationError::InvalidInput));
        }
        if !self.check_outputs(&block) {
            proof {
                assert(Self::spec_extension_post(
                    *old(self),
                    *self,
                    block,
                    Err(ChainStorageError::DuplicateOutput),
                )) by {
                    reveal(BlockchainDatabase::spec_extension_post);
                }
            }
            return Err(ChainStorageError::DuplicateOutput);
        }
        if !self.check_roots(&block) {
            proof {
                assert(Self::spec_extension_post(
                    *old(self),
                    *self,
                    block,
                    Err(ChainStorageError::InvalidMmrRoots),
                )) by {
                    reveal(BlockchainDatabase::spec_extension_post);
                }
            }
            return Err(ChainStorageError::InvalidMmrRoots);
        }
        self.apply_block(block);
        proof {
            assert(Self::spec_extension_post(
                *old(self),
                *self,
                block,
                Ok(BlockAddResult::Added),
            )) by {
                reveal(BlockchainDatabase::spec_extension_post);
            }
        }
        Ok(BlockAddResult::Added)
    }

    /// Whether every input of the block spends a distinct live output.
    fn check_inputs(&self, block: &Block) -> (r: bool)
        ensures
            r == self.spec_inputs_ok(*block),
    {
        inputs_spend_live_outputs(&self.utxos, block.body.inputs())
    }

    /// Whether every output of the block is fresh.
    fn check_outputs(&self, block: &Block) -> (r: bool)
        ensures
            r == self.spec_outputs_ok(*block),
    {
        outputs_all_fresh(&self.utxos, &self.stxos, block.body.outputs())
    }

    /// Whether the block's header roots match the accumulators.
    fn check_roots(&self, block: &Block) -> (r: bool)
        ensures
            r == self.spec_roots_ok(*block),
    {
        let out_leaves = output_hashes(block.body.outputs());
        let rp_leaves = proof_hashes(block.body.outputs());
        let k_leaves = kernel_hashes(block.body.kernels());
        let ok = self.output_mmr.root_with(&out_leaves) == block.header.output_mr
            && self.range_proof_mmr.root_with(&rp_leaves) == block.header.range_proof_mr
            && self.kernel_mmr.root_with(&k_leaves) == block.header.kernel_mr
            && self.header_mmr.root() == block.header.header_mr;
        proof {
            assert(self.spec_tree_leaves(MmrTree::Utxo) + block_output_leaves(*block)
                =~= self.output_mmr.spec_leaves() + out_leaves@);
            assert(self.spec_tree_leaves(MmrTree::RangeProof) + block_proof_leaves(*block)
                =~= self.range_proof_mmr.spec_leaves() + rp_leaves@);
            assert(self.spec_tree_leaves(MmrTree::Kernel) + block_kernel_leaves(*block)
                =~= self.kernel_mmr.spec_leaves() + k_leaves@);
        }
        ok
    }

    /// Park a block whose parent is unknown in the orphan pool.
    fn park_orphan(&mut self, block: Block)
        requires
            old(self).wf(),
        ensures
            final(self).wf(),
            final(self).spec_orphans() == old(self).spec_orphans().push(block),
            final(self).spec_blocks() == old(self).spec_blocks(),
            final(self).spec_utxos() == old(self).spec_utxos(),
            final(self).spec_stxos() == old(self).spec_stxos(),
            final(self).spec_horizon() == old(self).spec_horizon(),
            final(self).spec_config() == old(self).spec_config(),
    {
        self.orphans.push(block);
        proof {
            let pre = *old(self);
            assert forall|i: int, j: int|
                0 <= i < j < self.spec_utxos().len() implies (
            #[trigger] self.spec_utxos()[i]).spec_hash() != (
            #[trigger] self.spec_utxos()[j]).spec_hash() by {
                assert(self.spec_utxos()[i] == pre.spec_utxos()[i]);
                assert(self.spec_utxos()[j] == pre.spec_utxos()[j]);
            }
            assert forall|i: int, j: int|
                0 <= i < self.spec_utxos().len() && 0 <= j < self.spec_stxos().len() implies (
            #[trigger] self.spec_utxos()[i]).spec_hash() != (
            #[trigger] self.spec_stxos()[j]).spec_hash() by {
                assert(self.spec_utxos()[i] == pre.spec_utxos()[i]);
                assert(self.spec_stxos()[j] == pre.spec_stxos()[j]);
            }
            assert forall|i: int| 0 <= i < self.spec_blocks().len() implies (
            #[trigger] self.spec_blocks()[i]).header.height == i by {
                assert(self.spec_blocks()[i] == pre.spec_blocks()[i]);
            }
            assert forall|i: int|
                0 < i < self.spec_blocks().len() implies (
            #[trigger] self.spec_blocks()[i]).header.prev_hash
                == self.spec_blocks()[i - 1].header.spec_hash() by {
                assert(self.spec_blocks()[i] == pre.spec_blocks()[i]);
                assert(self.spec_blocks()[i - 1] == pre.spec_blocks()[i - 1]);
            }
        }
    }

    /// Commit a fully validated block: spent outputs move to the spent set,
    /// created outputs become live, the accumulators take the block's leaves,
    /// the block joins the chain, and the pruning horizon advances under the
    /// history bound.
    #[verifier::rlimit(100)]
    #[verifier::spinoff_prover]
    fn apply_block(&mut self, block: Block)
        requires
            old(self).wf(),
            old(self).spec_extends_tip(block),
            old(self).spec_inputs_ok(block),
            old(self).spec_outputs_ok(block),
            old(self).spec_roots_ok(block),
        ensures
            final(self).wf(),
            final(self).spec_config() == old(self).spec_config(),
            final(self).spec_blocks() == old(self).spec_blocks().push(block),
            final(self).spec_orphans() == old(self).spec_orphans(),
            forall|h: HashOutput|
                final(self).spec_is_utxo(h) == ((old(self).spec_is_utxo(h) && !block_spends(
                    block,
                    h,
                )) || block_creates(block, h)),
            forall|h: HashOutput|
                final(self).spec_is_stxo(h) == (old(self).spec_is_stxo(h) || block_spends(
                    block,
                    h,
                )),
            accumulator_root(
                final(self).spec_tree_leaves(MmrTree::Utxo),
                final(self).spec_tree_leaves(MmrTree::Utxo).len() as int,
            ) == block.header.output_mr,
            accumulator_root(
                final(self).spec_tree_leaves(MmrTree::RangeProof),
                final(self).spec_tree_leaves(MmrTree::RangeProof).len() as int,
            ) == block.header.range_proof_mr,
            accumulator_root(
                final(self).spec_tree_leaves(MmrTree::Kernel),
                final(self).spec_tree_leaves(MmrTree::Kernel).len() as int,
            ) == block.header.kernel_mr,
    {
        let outputs = block.body.outputs();
        let out_leaves = output_hashes(outputs);
        let rp_leaves = proof_hashes(outputs);
        let k_leaves = kernel_hashes(block.body.kernels());
        let header_hash = block.hash();
        let h_leaves = vec![header_hash];
        let ghost old_stxos = self.stxos@;
        let ghost old_utxos = self.utxos@;
        let mut spent = collect_spent(&self.utxos, block.body.inputs());
        let ghost spent_view = spent@;
        let mut new_utxos = filter_unspent(&self.utxos, &block);
        let ghost survivors = new_utxos@;
        let mut created = copy_outputs(outputs);
        new_utxos.append(&mut created);
        self.utxos = new_utxos;
        self.stxos.append(&mut spent);
        proof {
            lemma_after_spend_contains_all(old_utxos, block);
            lemma_after_spend_distinct(old_utxos, block);
            assert forall|h: HashOutput|
                outputs_contain_hash(self.utxos@, h) == ((outputs_contain_hash(old_utxos, h)
                    && !block_spends(block, h)) || block_creates(block, h)) by {
                lemma_outputs_concat_contains(survivors, block.body.spec_outputs(), h);
                assert(self.utxos@ =~= survivors + block.body.spec_outputs());
            }
            assert forall|h: HashOutput|
                outputs_contain_hash(spent_view, h) == block_spends(block, h) by {
                if outputs_contain_hash(spent_view, h) {
                    let w = choose|t: int|
                        0 <= t < spent_view.len() && (#[trigger] spent_view[t]).spec_hash() == h;
                    assert(block.body.spec_inputs()[w].spec_hash() == h);
                }
                if block_spends(block, h) {
                    let w = choose|t: int|
                        0 <= t < block.body.spec_inputs().len() && (
                        #[trigger] block.body.spec_inputs()[t]).spec_hash() == h;
                    assert(spent_view[w].spec_hash() == h);
                }
            }
            assert forall|i2: int, j2: int|
                0 <= i2 < j2 < self.utxos@.len() implies (#[trigger] self.utxos@[i2]).spec_hash()
                != (#[trigger] self.utxos@[j2]).spec_hash() by {
                let u = self.utxos@;
                if j2 < survivors.len() {
                } else if i2 >= survivors.len() {
                    assert(u[i2] == block.body.spec_outputs()[i2 - survivors.len()]);
                    assert(u[j2] == block.body.spec_outputs()[j2 - survivors.len()]);
                } else {
                    assert(u[i2] == survivors[i2]);
                    assert(u[j2] == block.body.spec_outputs()[j2 - survivors.len()]);
                    assert(outputs_contain_hash(survivors, u[i2].spec_hash()));
                    assert(outputs_contain_hash(old_utxos, u[i2].spec_hash()));
                }
            }
            assert forall|h: HashOutput|
                outputs_contain_hash(self.stxos@, h) == (outputs_contain_hash(old_stxos, h)
                    || outputs_contain_hash(spent_view, h)) by {
                if outputs_contain_hash(self.stxos@, h) {
                    let w = choose|t: int|
                        0 <= t < self.stxos@.len() && (#[trigger] self.stxos@[t]).spec_hash() == h;
                    if w < old_stxos.len() {
                        assert(old_stxos[w].spec_hash() == h);
                    } else {
                        assert(spent_view[w - old_stxos.len()].spec_hash() == h);
                    }
                }
                if outputs_contain_hash(old_stxos, h) {
                    let w = choose|t: int|
                        0 <= t < old_stxos.len() && (#[trigger] old_stxos[t]).spec_hash() == h;
                    assert(self.stxos@[w].spec_hash() == h);
                }
                if outputs_contain_hash(spent_view, h) {
                    let w = choose|t: int|
                        0 <= t < spent_view.len() && (#[trigger] spent_view[t]).spec_hash() == h;
                    assert(self.stxos@[old_stxos.len() + w].spec_hash() == h);
                }
            }
        }
        self.output_mmr.append(&out_leaves);
        self.range_proof_mmr.append(&rp_leaves);
        self.kernel_mmr.append(&k_leaves);
        self.header_mmr.append(&h_leaves);
        self.blocks.push(block);
        if self.blocks.len() - (self.horizon as usize) > self.config.max_history_len {
            self.horizon = (self.blocks.len() - self.config.min_history_len) as u64;
        }
        proof {
            let nb = self.blocks@;
            let ob = old(self).blocks@;
            lemma_chain_leaves_prefix(nb, ob, ob.len() as int);
            assert(chain_output_leaves(nb, nb.len() as int) =~= old(self).output_mmr.spec_leaves()
                + block_output_leaves(block));
            assert(chain_proof_leaves(nb, nb.len() as int)
                =~= old(self).range_proof_mmr.spec_leaves() + block_proof_leaves(block));
            assert(chain_kernel_leaves(nb, nb.len() as int) =~= old(self).kernel_mmr.spec_leaves()
                + block_kernel_leaves(block));
            assert(chain_header_leaves(nb, nb.len() as int) =~= old(self).header_mmr.spec_leaves()
                + h_leaves@);
            assert forall|i2: int| 0 <= i2 < nb.len() implies (#[trigger] nb[i2]).header.height
                == i2 by {
                if i2 < ob.len() {
                    assert(nb[i2] == ob[i2]);
                }
            }
            assert forall|i2: int, j2: int|
                0 <= i2 < self.utxos@.len() && 0 <= j2 < self.stxos@.len() implies (
            #[trigger] self.utxos@[i2]).spec_hash() != (#[trigger] self.stxos@[j2]).spec_hash() by {
                let h2 = self.utxos@[i2].spec_hash();
                let hs = self.stxos@[j2].spec_hash();
                assert(outputs_contain_hash(self.utxos@, h2));
                assert(outputs_contain_hash(self.stxos@, hs));
                if h2 == hs {
                    if outputs_contain_hash(old_utxos, h2) && !block_spends(block, h2) {
                        // a surviving live output: it was disjoint from the old
                        // spent set and the block did not spend it
                        if outputs_contain_hash(old_stxos, h2) {
                            let a = choose|t: int|
                                0 <= t < old_utxos.len() && (#[trigger] old_utxos[t]).spec_hash()
                                    == h2;
                            let b = choose|t: int|
                                0 <= t < old_stxos.len() && (#[trigger] old_stxos[t]).spec_hash()
                                    == h2;
                            assert(old(self).spec_utxos()[a].spec_hash() == old(
                                self,
                            ).spec_stxos()[b].spec_hash());
                            assert(false);
                        }
                    } else {
                        // a created output: fresh against both old sets, and the
                        // block cannot spend a hash it also creates
                        assert(block_creates(block, h2));
                        let c = choose|t: int|
                            0 <= t < block.body.spec_outputs().len() && (
                            #[trigger] block.body.spec_outputs()[t]).spec_hash() == h2;
                        assert(!outputs_contain_hash(old_utxos, h2));
                        assert(!outputs_contain_hash(old_stxos, h2));
                        if block_spends(block, h2) {
                            assert(outputs_contain_hash(old_utxos, h2));
                        }
                    }
                }
            }
        }
    }

    /// After a block is accepted the chain's tip is that block: the store is
    /// one block taller, and the entry at the new height is the block itself,
    /// so fetching at that height returns its header and the tip hash is its
    /// hash.
    pub proof fn lemma_added_block_is_tip(
        pre: BlockchainDatabase,
        post: BlockchainDatabase,
        block: Block,
    )
        requires
            post.spec_blocks() == pre.spec_blocks().push(block),
        ensures
            post.spec_blocks().len() == pre.spec_blocks().len() + 1,
            post.spec_blocks()[post.spec_blocks().len() - 1] == block,
    {
    }

    /// Every output in the live set is a UTXO by hash and is absent from the
    /// spent set; equally, no spent output's hash is still a UTXO.
    pub proof fn lemma_live_outputs_unspent(self)
        requires
            self.wf(),
        ensures
            forall|i: int|
                0 <= i < self.spec_utxos().len() ==> self.spec_is_utxo(
                    (#[trigger] self.spec_utxos()[i]).spec_hash(),
                ) && !self.spec_is_stxo(self.spec_utxos()[i].spec_hash()),
            forall|j: int|
                0 <= j < self.spec_stxos().len() ==> !self.spec_is_utxo(
                    (#[trigger] self.spec_stxos()[j]).spec_hash(),
                ),
    {
        assert forall|j: int| 0 <= j < self.spec_stxos().len() implies !self.spec_is_utxo(
            (#[trigger] self.spec_stxos()[j]).spec_hash(),
        ) by {
            if self.spec_is_utxo(self.spec_stxos()[j].spec_hash()) {
                let w = choose|i: int|
                    0 <= i < self.spec_utxos().len() && (
                    #[trigger] self.spec_utxos()[i]).spec_hash()
                        == self.spec_stxos()[j].spec_hash();
            }
        }
    }
}

/// The block spends an output with this identity hash.
pub open spec fn block_spends(b: Block, h: HashOutput) -> bool {
    exists|i: int|
        0 <= i < b.body.spec_inputs().len() && (#[trigger] b.body.spec_inputs()[i]).spec_hash()
            == h
}

/// The block creates an output with this identity hash.
pub open spec fn block_creates(b: Block, h: HashOutput) -> bool {
    exists|i: int|
        0 <= i < b.body.spec_outputs().len() && (#[trigger] b.body.spec_outputs()[i]).spec_hash()
            == h
}

/// Chain leaves over a prefix read only that prefix.
pub proof fn lemma_chain_leaves_prefix(a: Seq<Block>, b: Seq<Block>, i: int)
    requires
        forall|j: int| 0 <= j < i ==> a[j] == b[j],
    ensures
        chain_output_leaves(a, i) == chain_output_leaves(b, i),
        chain_proof_leaves(a, i) == chain_proof_leaves(b, i),
        chain_kernel_leaves(a, i) == chain_kernel_leaves(b, i),
        chain_header_leaves(a, i) == chain_header_leaves(b, i),
    decreases i,
{
    if i > 0 {
        lemma_chain_leaves_prefix(a, b, i - 1);
    }
}

/// The identity hashes of a vector of outputs.
fn output_hashes(v: &Vec<TransactionOutput>) -> (r: Vec<HashOutput>)
    ensures
        r@ == v@.map_values(|o: TransactionOutput| o.spec_hash()),
{
    let mut out: Vec<HashOutput> = Vec::new();
    let mut i: usize = 0;
    while i < v.len()
        invariant
            i <= v@.len(),
            out@ == v@.take(i as int).map_values(|o: TransactionOutput| o.spec_hash()),
        decreases v@.len() - i,
    {
        out.push(v[i].hash());
        proof {
            assert(out@ =~= v@.take(i + 1).map_values(|o: TransactionOutput| o.spec_hash()));
        }
        i += 1;
    }
    proof {
        assert(v@.take(v@.len() as int) =~= v@);
    }
    out
}

/// The range-proof hashes of a vector of outputs.
fn proof_hashes(v: &Vec<TransactionOutput>) -> (r: Vec<HashOutput>)
    ensures
        r@ == v@.map_values(|o: TransactionOutput| o.spec_proof_hash()),
{
    let mut out: Vec<HashOutput> = Vec::new();
    let mut i: usize = 0;
    while i < v.len()
        invariant
            i <= v@.len(),
            out@ == v@.take(i as int).map_values(|o: TransactionOutput| o.spec_proof_hash()),
        decreases v@.len() - i,
    {
        out.push(v[i].proof_hash());
        proof {
            assert(out@ =~= v@.take(i + 1).map_values(|o: TransactionOutput| o.spec_proof_hash()));
        }
        i += 1;
    }
    proof {
        assert(v@.take(v@.len() as int) =~= v@);
    }
    out
}

/// The identity hashes of a vector of kernels.
fn kernel_hashes(v: &Vec<TransactionKernel>) -> (r: Vec<HashOutput>)
    ensures
        r@ == v@.map_values(|k: TransactionKernel| k.spec_hash()),
{
    let mut out: Vec<HashOutput> = Vec::new();
    let mut i: usize = 0;
    while i < v.len()
        invariant
            i <= v@.len(),
            out@ == v@.take(i as int).map_values(|k: TransactionKernel| k.spec_hash()),
        decreases v@.len() - i,
    {
        out.push(v[i].hash());
        proof {
            assert(out@ =~= v@.take(i + 1).map_values(|k: TransactionKernel| k.spec_hash()));
        }
        i += 1;
    }
    proof {
        assert(v@.take(v@.len() as int) =~= v@);
    }
    out
}

/// Find the position of the output with the given identity hash.
fn find_output_by_hash(v: &Vec<TransactionOutput>, h: HashOutput) -> (r: Option<usize>)
    ensures
        (r matches Some(i) ==> i < v@.len() && v@[i as int].spec_hash() == h),
        r is None ==> !outputs_contain_hash(v@, h),
{
    let mut i: usize = 0;
    while i < v.len()
        invariant
            i <= v@.len(),
            forall|t: int| 0 <= t < i ==> (#[trigger] v@[t]).spec_hash() != h,
        decreases v@.len() - i,
    {
        if v[i].hash() == h {
            return Some(i);
        }
        i += 1;
    }
    None
}


/// Every input names a live output, and no two inputs name the same one.
fn inputs_spend_live_outputs(utxos: &Vec<TransactionOutput>, inputs: &Vec<TransactionInput>) -> (r:
    bool)
    ensures
        r == ((forall|t: int|
            0 <= t < inputs@.len() ==> outputs_contain_hash(
                utxos@,
                (#[trigger] inputs@[t]).spec_hash(),
            )) && (forall|t: int, u: int|
            0 <= t < u < inputs@.len() ==> (#[trigger] inputs@[t]).spec_hash() != (
            #[trigger] inputs@[u]).spec_hash())),
{
    let mut i: usize = 0;
    while i < inputs.len()
        invariant
            i <= inputs@.len(),
            forall|t: int| #![all_triggers]
                0 <= t < i ==> outputs_contain_hash(utxos@, inputs@[t].spec_hash()),
            forall|t: int, u: int|
                0 <= t < u < i ==> (#[trigger] inputs@[t]).spec_hash() != (
                #[trigger] inputs@[u]).spec_hash(),
        decreases inputs@.len() - i,
    {
        let h = inputs[i].hash();
        if !contains_output_hash(utxos, h) {
            return false;
        }
        let mut j: usize = 0;
        while j < i
            invariant
                j <= i < inputs@.len(),
                h == inputs@[i as int].spec_hash(),
                forall|t: int| 0 <= t < j ==> (#[trigger] inputs@[t]).spec_hash()
                    != inputs@[i as int].spec_hash(),
            decreases i - j,
        {
            if inputs[j].hash() == h {
                return false;
            }
            j += 1;
        }
        i += 1;
    }
    true
}

/// Every output of the block is fresh: absent from the live and spent sets
/// and distinct within the block.
fn outputs_all_fresh(
    utxos: &Vec<TransactionOutput>,
    stxos: &Vec<TransactionOutput>,
    outputs: &Vec<TransactionOutput>,
) -> (r: bool)
    ensures
        r == ((forall|t: int|
            0 <= t < outputs@.len() ==> !outputs_contain_hash(
                utxos@,
                (#[trigger] outputs@[t]).spec_hash(),
            ) && !outputs_contain_hash(stxos@, outputs@[t].spec_hash())) && (forall|t: int, u: int|
            0 <= t < u < outputs@.len() ==> (#[trigger] outputs@[t]).spec_hash() != (
            #[trigger] outputs@[u]).spec_hash())),
{
    let mut i: usize = 0;
    while i < outputs.len()
        invariant
            i <= outputs@.len(),
            forall|t: int| #![all_triggers]
                0 <= t < i ==> !outputs_contain_hash(utxos@, outputs@[t].spec_hash())
                    && !outputs_contain_hash(stxos@, outputs@[t].spec_hash()),
            forall|t: int, u: int|
                0 <= t < u < i ==> (#[trigger] outputs@[t]).spec_hash() != (
                #[trigger] outputs@[u]).spec_hash(),
        decreases outputs@.len() - i,
    {
        let h = outputs[i].hash();
        if contains_output_hash(utxos, h) || contains_output_hash(stxos, h) {
            return false;
        }
        let mut j: usize = 0;
        while j < i
            invariant
                j <= i < outputs@.len(),
                h == outputs@[i as int].spec_hash(),
                forall|t: int| 0 <= t < j ==> (#[trigger] outputs@[t]).spec_hash()
                    != outputs@[i as int].spec_hash(),
            decreases i - j,
        {
            if outputs[j].hash() == h {
                return false;
            }
            j += 1;
        }
        i += 1;
    }
    true
}

/// The outputs the block's inputs spend, one per input, in input order.
fn collect_spent(utxos: &Vec<TransactionOutput>, inputs: &Vec<TransactionInput>) -> (r: Vec<
    TransactionOutput,
>)
    requires
        forall|t: int|
            0 <= t < inputs@.len() ==> outputs_contain_hash(
                utxos@,
                (#[trigger] inputs@[t]).spec_hash(),
            ),
    ensures
        r@.len() == inputs@.len(),
        forall|t: int| 0 <= t < inputs@.len() ==> (#[trigger] r@[t]).spec_hash()
            == inputs@[t].spec_hash(),
{
    let mut out: Vec<TransactionOutput> = Vec::new();
    let mut i: usize = 0;
    while i < inputs.len()
        invariant
            i <= inputs@.len(),
            out@.len() == i,
            forall|t: int|
                0 <= t < inputs@.len() ==> outputs_contain_hash(
                    utxos@,
                    (#[trigger] inputs@[t]).spec_hash(),
                ),
            forall|t: int| 0 <= t < i ==> (#[trigger] out@[t]).spec_hash()
                == inputs@[t].spec_hash(),
        decreases inputs@.len() - i,
    {
        let h = inputs[i].hash();
        match find_output_by_hash(utxos, h) {
            Some(idx) => {
                out.push(utxos[idx]);
            },
            None => {
                proof {
                    assert(outputs_contain_hash(utxos@, h));
                }
                vstd::pervasive::unreached::<()>();
            },
        }
        i += 1;
    }
    out
}

/// The live outputs the block does not spend, in their stored order.
pub open spec fn utxos_after_spend(s: Seq<TransactionOutput>, b: Block, i: int) -> Seq<
    TransactionOutput,
>
    decreases i,
{
    if i <= 0 {
        Seq::empty()
    } else {
        let rest = utxos_after_spend(s, b, i - 1);
        if block_spends(b, s[i - 1].spec_hash()) {
            rest
        } else {
            rest.push(s[i - 1])
        }
    }
}

/// Membership in the surviving live set: present before and not spent.
pub proof fn lemma_after_spend_contains(s: Seq<TransactionOutput>, b: Block, h: HashOutput, i: int)
    requires
        0 <= i <= s.len(),
    ensures
        outputs_contain_hash(utxos_after_spend(s, b, i), h) == (outputs_contain_hash(s.take(i), h)
            && !block_spends(b, h)),
    decreases i,
{
    if i > 0 {
        lemma_after_spend_contains(s, b, h, i - 1);
        let rest = utxos_after_spend(s, b, i - 1);
        let cur = utxos_after_spend(s, b, i);
        assert(s.take(i - 1) =~= s.take(i).take(i - 1));
        if !block_spends(b, s[i - 1].spec_hash()) {
            assert forall|h2: HashOutput| outputs_contain_hash(cur, h2) == (outputs_contain_hash(
                rest,
                h2,
            ) || s[i - 1].spec_hash() == h2) by {
                if outputs_contain_hash(cur, h2) {
                    let w = choose|t: int|
                        0 <= t < cur.len() && (#[trigger] cur[t]).spec_hash() == h2;
                    if w < rest.len() {
                        assert(rest[w].spec_hash() == h2);
                    }
                }
                if outputs_contain_hash(rest, h2) {
                    let w = choose|t: int|
                        0 <= t < rest.len() && (#[trigger] rest[t]).spec_hash() == h2;
                    assert(cur[w].spec_hash() == h2);
                }
                if s[i - 1].spec_hash() == h2 {
                    assert(cur[cur.len() - 1].spec_hash() == h2);
                }
            }
        }
        assert(outputs_contain_hash(s.take(i), h) == (outputs_contain_hash(s.take(i - 1), h)
            || s[i - 1].spec_hash() == h)) by {
            if outputs_contain_hash(s.take(i), h) {
                let w = choose|t: int|
                    0 <= t < s.take(i).len() && (#[trigger] s.take(i)[t]).spec_hash() == h;
                if w < i - 1 {
                    assert(s.take(i - 1)[w].spec_hash() == h);
                }
            }
            if outputs_contain_hash(s.take(i - 1), h) {
                let w = choose|t: int|
                    0 <= t < s.take(i - 1).len() && (#[trigger] s.take(i - 1)[t]).spec_hash() == h;
                assert(s.take(i)[w].spec_hash() == h);
            }
            if s[i - 1].spec_hash() == h {
                assert(s.take(i)[i - 1].spec_hash() == h);
            }
        }
    }
}

/// Membership in the whole surviving live set.
pub proof fn lemma_after_spend_contains_all(s: Seq<TransactionOutput>, b: Block)
    ensures
        forall|h: HashOutput|
            outputs_contain_hash(utxos_after_spend(s, b, s.len() as int), h) == (
            #[trigger] outputs_contain_hash(s, h) && !block_spends(b, h)),
{
    assert forall|h: HashOutput|
        outputs_contain_hash(utxos_after_spend(s, b, s.len() as int), h) == (
        #[trigger] outputs_contain_hash(s, h) && !block_spends(b, h)) by {
        lemma_after_spend_contains(s, b, h, s.len() as int);
        assert(s.take(s.len() as int) =~= s);
    }
}

/// Surviving live outputs keep distinct hashes.
pub proof fn lemma_after_spend_distinct(s: Seq<TransactionOutput>, b: Block)
    requires
        forall|i2: int, j2: int|
            0 <= i2 < j2 < s.len() ==> (#[trigger] s[i2]).spec_hash() != (
            #[trigger] s[j2]).spec_hash(),
    ensures
        forall|i2: int, j2: int|
            0 <= i2 < j2 < utxos_after_spend(s, b, s.len() as int).len() ==> (
            #[trigger] utxos_after_spend(s, b, s.len() as int)[i2]).spec_hash() != (
            #[trigger] utxos_after_spend(s, b, s.len() as int)[j2]).spec_hash(),
{
    lemma_after_spend_shape(s, b, s.len() as int);
}

/// Each surviving output is one of the originals, and the survivors keep the
/// original order (so distinct originals stay distinct).
proof fn lemma_after_spend_shape(s: Seq<TransactionOutput>, b: Block, i: int)
    requires
        0 <= i <= s.len(),
        forall|i2: int, j2: int|
            0 <= i2 < j2 < s.len() ==> (#[trigger] s[i2]).spec_hash() != (
            #[trigger] s[j2]).spec_hash(),
    ensures
        forall|i2: int, j2: int|
            0 <= i2 < j2 < utxos_after_spend(s, b, i).len() ==> (#[trigger] utxos_after_spend(
                s,
                b,
                i,
            )[i2]).spec_hash() != (#[trigger] utxos_after_spend(s, b, i)[j2]).spec_hash(),
        utxos_after_spend(s, b, i).len() <= i,
        forall|i2: int|
            0 <= i2 < utxos_after_spend(s, b, i).len() ==> exists|t: int|
                0 <= t < i && (#[trigger] utxos_after_spend(s, b, i)[i2]) == s[t],
    decreases i,
{
    if i > 0 {
        lemma_after_spend_shape(s, b, i - 1);
        let rest = utxos_after_spend(s, b, i - 1);
        let cur = utxos_after_spend(s, b, i);
        if !block_spends(b, s[i - 1].spec_hash()) {
            assert forall|i2: int|
                0 <= i2 < cur.len() implies exists|t: int|
                0 <= t < i && (#[trigger] cur[i2]) == s[t] by {
                if i2 < rest.len() {
                    let t = choose|t: int| 0 <= t < i - 1 && (#[trigger] rest[i2]) == s[t];
                    assert(cur[i2] == s[t]);
                } else {
                    assert(cur[i2] == s[i - 1]);
                }
            }
            assert forall|i2: int, j2: int|
                0 <= i2 < j2 < cur.len() implies (#[trigger] cur[i2]).spec_hash() != (
            #[trigger] cur[j2]).spec_hash() by {
                if j2 == cur.len() - 1 {
                    let t = choose|t: int| 0 <= t < i - 1 && (#[trigger] rest[i2]) == s[t];
                    assert(cur[i2] == s[t]);
                    assert(cur[j2] == s[i - 1]);
                }
            }
        }
    }
}

/// Membership in a concatenation of output lists.
pub proof fn lemma_outputs_concat_contains(
    a: Seq<TransactionOutput>,
    b: Seq<TransactionOutput>,
    h: HashOutput,
)
    ensures
        outputs_contain_hash(a + b, h) == (outputs_contain_hash(a, h) || outputs_contain_hash(
            b,
            h,
        )),
{
    if outputs_contain_hash(a + b, h) {
        let w = choose|t: int| 0 <= t < (a + b).len() && (#[trigger] (a + b)[t]).spec_hash() == h;
        if w < a.len() {
            assert(a[w].spec_hash() == h);
        } else {
            assert(b[w - a.len()].spec_hash() == h);
        }
    }
    if outputs_contain_hash(a, h) {
        let w = choose|t: int| 0 <= t < a.len() && (#[trigger] a[t]).spec_hash() == h;
        assert((a + b)[w].spec_hash() == h);
    }
    if outputs_contain_hash(b, h) {
        let w = choose|t: int| 0 <= t < b.len() && (#[trigger] b[t]).spec_hash() == h;
        assert((a + b)[a.len() + w].spec_hash() == h);
    }
}

/// Keep the live outputs the block does not spend.
fn filter_unspent(utxos: &Vec<TransactionOutput>, block: &Block) -> (r: Vec<TransactionOutput>)
    ensures
        r@ == utxos_after_spend(utxos@, *block, utxos@.len() as int),
{
    let mut out: Vec<TransactionOutput> = Vec::new();
    let mut i: usize = 0;
    while i < utxos.len()
        invariant
            i <= utxos@.len(),
            out@ == utxos_after_spend(utxos@, *block, i as int),
        decreases utxos@.len() - i,
    {
        let h = utxos[i].hash();
        if !hash_spent_by_block(h, block) {
            out.push(utxos[i]);
        }
        i += 1;
    }
    out
}

/// Whether the block spends an output with this identity hash.
fn hash_spent_by_block(h: HashOutput, block: &Block) -> (r: bool)
    ensures
        r == block_spends(*block, h),
{
    let inputs = block.body.inputs();
    let mut j: usize = 0;
    while j < inputs.len()
        invariant
            j <= inputs@.len(),
            inputs@ == block.body.spec_inputs(),
            forall|t: int| 0 <= t < j ==> (#[trigger] inputs@[t]).spec_hash() != h,
        decreases inputs@.len() - j,
    {
        if inputs[j].hash() == h {
            return true;
        }
        j += 1;
    }
    false
}

/// Whether a vector of outputs holds one with the given identity hash.
fn contains_output_hash(v: &Vec<TransactionOutput>, h: HashOutput) -> (r: bool)
    ensures
        r == outputs_contain_hash(v@, h),
{
    let mut i: usize = 0;
    while i < v.len()
        invariant
            i <= v@.len(),
            forall|t: int| 0 <= t < i ==> (#[trigger] v@[t]).spec_hash() != h,
        decreases v@.len() - i,
    {
        if v[i].hash() == h {
            return true;
        }
        i += 1;
    }
    false
}

} // verus!
