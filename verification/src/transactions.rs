//! The transaction data model.
//!
//! Commitments, excesses and signature scalars are modelled as plain 64-bit
//! group elements under wrapping addition; the cryptographic primitives that
//! produce them (Pedersen commitments, range proofs, Schnorr signatures) are
//! external collaborators. Everything the chain logic reads — amounts,
//! maturities, lock heights, flags, hashes — is a plain value here, so the
//! rules over them are stated and checked exactly.

use vstd::prelude::*;

verus! {

use crate::hashing::{digest, digest_of, push_u64_bytes, u64_le_bytes, HashOutput};

/// A monetary amount in the smallest unit of the currency.
#[derive(Clone, Copy, Debug, PartialEq, Eq, Hash, Structural)]
pub struct MicroTari(pub u64);

/// A Schnorr signature over a kernel excess: the public nonce and the
/// signature scalar, modelled as plain group elements. The excess signature
/// uniquely identifies a transaction in the mempool.
#[derive(Clone, Copy, Debug, PartialEq, Eq, Hash, Structural)]
pub struct Signature {
    pub public_nonce: u64,
    pub signature: u64,
}

impl Signature {
    /// A total order key over both scalars, nonce first.
    pub open spec fn spec_order_key(self) -> int {
        self.public_nonce * 0x1_0000_0000_0000_0000 + self.signature
    }

    /// The order key as a machine value.
    pub fn order_key(&self) -> (r: u128)
        ensures
            r == self.spec_order_key(),
    {
        (self.public_nonce as u128) * 0x1_0000_0000_0000_0000u128 + (self.signature as u128)
    }
}

/// Flag bit marking an output as the block's coinbase.
pub const COINBASE_OUTPUT: u8 = 1;

/// The feature flags and maturity attached to an output. An output cannot be
/// spent before the chain reaches its maturity height.
#[derive(Clone, Copy, Debug, PartialEq, Eq, Hash, Structural)]
pub struct OutputFeatures {
    pub flags: u8,
    pub maturity: u64,
}

impl OutputFeatures {
    /// Whether the coinbase flag bit is set.
    pub open spec fn spec_is_coinbase(self) -> bool {
        self.flags & COINBASE_OUTPUT == COINBASE_OUTPUT
    }

    /// Whether the coinbase flag bit is set.
    pub fn is_coinbase(&self) -> (r: bool)
        ensures
            r == self.spec_is_coinbase(),
    {
        self.flags & COINBASE_OUTPUT == COINBASE_OUTPUT
    }
}

/// A transaction input: a reference to the unspent output it consumes,
/// carrying that output's features and commitment. Its hash is the UTXO
/// lookup key and equals the hash of the output it spends.
#[derive(Clone, Copy, Debug, PartialEq, Eq, Hash, Structural)]
pub struct TransactionInput {
    pub features: OutputFeatures,
    pub commitment: u64,
}

/// The canonical bytes an output or input identity hashes over: the feature
/// flags, the maturity and the commitment.
pub open spec fn spec_output_id_bytes(features: OutputFeatures, commitment: u64) -> Seq<u8> {
    seq![features.flags] + u64_le_bytes(features.maturity) + u64_le_bytes(commitment)
}

/// The identity hash of an output or of the input that spends it.
pub open spec fn spec_output_id_hash(features: OutputFeatures, commitment: u64) -> HashOutput {
    digest_of(spec_output_id_bytes(features, commitment))
}

/// Hash the identity bytes of an output or input.
fn output_id_hash(features: &OutputFeatures, commitment: u64) -> (r: HashOutput)
    ensures
        r == spec_output_id_hash(*features, commitment),
{
    let mut bytes: Vec<u8> = Vec::new();
    bytes.push(features.flags);
    push_u64_bytes(&mut bytes, features.maturity);
    push_u64_bytes(&mut bytes, commitment);
    proof {
        assert(bytes@ =~= spec_output_id_bytes(*features, commitment));
    }
    digest(&bytes)
}

impl TransactionInput {
    /// The input's identity hash.
    pub open spec fn spec_hash(self) -> HashOutput {
        spec_output_id_hash(self.features, self.commitment)
    }

    /// The hash used to look the spent output up in the UTXO set.
    pub fn hash(&self) -> (r: HashOutput)
        ensures
            r == self.spec_hash(),
    {
        output_id_hash(&self.features, self.commitment)
    }
}

/// A transaction output: a commitment to its value and blinding factor, the
/// range proof over the committed value, and its features. The range proof is
/// opaque to the chain logic; only its hash enters the range-proof
/// accumulator.
#[derive(Clone, Copy, Debug, PartialEq, Eq, Hash, Structural)]
pub struct TransactionOutput {
    pub features: OutputFeatures,
    pub commitment: u64,
    pub range_proof: u64,
}

impl TransactionOutput {
    /// The output's identity hash; equal to the hash of any input that
    /// spends it.
    pub open spec fn spec_hash(self) -> HashOutput {
        spec_output_id_hash(self.features, self.commitment)
    }

    /// The hash keying the output in the UTXO set and output accumulator.
    pub fn hash(&self) -> (r: HashOutput)
        ensures
            r == self.spec_hash(),
    {
        output_id_hash(&self.features, self.commitment)
    }

    /// The hash of the range proof, the leaf entering the range-proof
    /// accumulator.
    pub open spec fn spec_proof_hash(self) -> HashOutput {
        digest_of(u64_le_bytes(self.range_proof))
    }

    /// Hash the range proof.
    pub fn proof_hash(&self) -> (r: HashOutput)
        ensures
            r == self.spec_proof_hash(),
    {
        let mut bytes: Vec<u8> = Vec::new();
        push_u64_bytes(&mut bytes, self.range_proof);
        proof {
            assert(bytes@ =~= u64_le_bytes(self.range_proof));
        }
        digest(&bytes)
    }
}

/// A transaction kernel: the public aggregate of a transaction. The excess
/// signature is the mempool's uniqueness key; the lock height keeps the
/// transaction out of blocks below that height.
#[derive(Clone, Copy, Debug, PartialEq, Eq, Hash, Structural)]
pub struct TransactionKernel {
    pub fee: MicroTari,
    pub lock_height: u64,
    pub excess: u64,
    pub excess_sig: Signature,
}

impl TransactionKernel {
    /// The canonical bytes a kernel hashes over: all of its fields.
    pub open spec fn spec_hash_bytes(self) -> Seq<u8> {
        u64_le_bytes(self.fee.0) + u64_le_bytes(self.lock_height) + u64_le_bytes(self.excess)
            + u64_le_bytes(self.excess_sig.public_nonce) + u64_le_bytes(self.excess_sig.signature)
    }

    /// The kernel's identity hash.
    pub open spec fn spec_hash(self) -> HashOutput {
        digest_of(self.spec_hash_bytes())
    }

    /// The hash keying the kernel in the kernel accumulator.
    pub fn hash(&self) -> (r: HashOutput)
        ensures
            r == self.spec_hash(),
    {
        let mut bytes: Vec<u8> = Vec::new();
        push_u64_bytes(&mut bytes, self.fee.0);
        push_u64_bytes(&mut bytes, self.lock_height);
        push_u64_bytes(&mut bytes, self.excess);
        push_u64_bytes(&mut bytes, self.excess_sig.public_nonce);
        push_u64_bytes(&mut bytes, self.excess_sig.signature);
        proof {
            assert(bytes@ =~= self.spec_hash_bytes());
        }
        digest(&bytes)
    }
}

/// Errors a transaction's own consistency checks report.
#[derive(Clone, Copy, Debug, PartialEq, Eq, Structural)]
pub enum TransactionError {
    /// The input, output and kernel commitments do not balance.
    UnbalancedCommitments,
}

/// The factories for the cryptographic primitives (commitments and range
/// proofs). The primitives themselves are external collaborators; the model
/// carries the factories as plain shared configuration.
#[derive(Clone, Copy, Debug, PartialEq, Eq, Structural)]
pub struct CryptoFactories;

impl Default for CryptoFactories {
    fn default() -> (r: Self)
        ensures
            r == CryptoFactories,
    {
        CryptoFactories
    }
}

broadcast use vstd::seq_lib::group_to_multiset_ensures;

/// Inputs in canonical order: ascending by commitment.
pub open spec fn inputs_sorted(s: Seq<TransactionInput>) -> bool {
    forall|i: int, j: int| 0 <= i < j < s.len() ==> #[trigger] s[i].commitment
        <= #[trigger] s[j].commitment
}

/// Outputs in canonical order: ascending by commitment.
pub open spec fn outputs_sorted(s: Seq<TransactionOutput>) -> bool {
    forall|i: int, j: int| 0 <= i < j < s.len() ==> #[trigger] s[i].commitment
        <= #[trigger] s[j].commitment
}

/// Kernels in canonical order: ascending by excess signature.
pub open spec fn kernels_sorted(s: Seq<TransactionKernel>) -> bool {
    forall|i: int, j: int| 0 <= i < j < s.len() ==> #[trigger] s[i].excess_sig.spec_order_key()
        <= #[trigger] s[j].excess_sig.spec_order_key()
}

/// Sort inputs into canonical order, keeping the same entries.
fn sort_inputs(v: Vec<TransactionInput>) -> (r: Vec<TransactionInput>)
    ensures
        r@.to_multiset() == v@.to_multiset(),
        inputs_sorted(r@),
{
    let mut src = v;
    let mut out: Vec<TransactionInput> = Vec::new();
    while src.len() > 0
        invariant
            out@.to_multiset().add(src@.to_multiset()) == v@.to_multiset(),
            inputs_sorted(out@),
            forall|i: int, j: int|
                0 <= i < out@.len() && 0 <= j < src@.len() ==> #[trigger] out@[i].commitment
                    <= #[trigger] src@[j].commitment,
        decreases src@.len(),
    {
        let mut min_idx: usize = 0;
        let mut idx: usize = 1;
        while idx < src.len()
            invariant
                0 < src@.len(),
                min_idx < idx <= src@.len(),
                forall|t: int| 0 <= t < idx ==> src@[min_idx as int].commitment
                    <= #[trigger] src@[t].commitment,
            decreases src@.len() - idx,
        {
            if src[idx].commitment < src[min_idx].commitment {
                min_idx = idx;
            }
            idx += 1;
        }
        let ghost pre_out = out@;
        let ghost pre_src = src@;
        let x = src.remove(min_idx);
        out.push(x);
        proof {
            assert(out@.to_multiset() =~= pre_out.to_multiset().insert(x));
            assert(src@.to_multiset() =~= pre_src.to_multiset().remove(x));
            assert(out@.to_multiset().add(src@.to_multiset()) =~= v@.to_multiset());
            assert forall|i: int, j: int|
                0 <= i < out@.len() && 0 <= j < src@.len() implies #[trigger] out@[i].commitment
                <= #[trigger] src@[j].commitment by {
                assert(src@[j] == (if j < min_idx {
                    pre_src[j]
                } else {
                    pre_src[j + 1]
                }));
            }
        }
    }
    out
}

/// Sort outputs into canonical order, keeping the same entries.
fn sort_outputs(v: Vec<TransactionOutput>) -> (r: Vec<TransactionOutput>)
    ensures
        r@.to_multiset() == v@.to_multiset(),
        outputs_sorted(r@),
{
    let mut src = v;
    let mut out: Vec<TransactionOutput> = Vec::new();
    while src.len() > 0
        invariant
            out@.to_multiset().add(src@.to_multiset()) == v@.to_multiset(),
            outputs_sorted(out@),
            forall|i: int, j: int|
                0 <= i < out@.len() && 0 <= j < src@.len() ==> #[trigger] out@[i].commitment
                    <= #[trigger] src@[j].commitment,
        decreases src@.len(),
    {
        let mut min_idx: usize = 0;
        let mut idx: usize = 1;
        while idx < src.len()
            invariant
                0 < src@.len(),
                min_idx < idx <= src@.len(),
                forall|t: int| 0 <= t < idx ==> src@[min_idx as int].commitment
                    <= #[trigger] src@[t].commitment,
            decreases src@.len() - idx,
        {
            if src[idx].commitment < src[min_idx].commitment {
                min_idx = idx;
            }
            idx += 1;
        }
        let ghost pre_out = out@;
        let ghost pre_src = src@;
        let x = src.remove(min_idx);
        out.push(x);
        proof {
            assert(out@.to_multiset() =~= pre_out.to_multiset().insert(x));
            assert(src@.to_multiset() =~= pre_src.to_multiset().remove(x));
            assert(out@.to_multiset().add(src@.to_multiset()) =~= v@.to_multiset());
            assert forall|i: int, j: int|
                0 <= i < out@.len() && 0 <= j < src@.len() implies #[trigger] out@[i].commitment
                <= #[trigger] src@[j].commitment by {
                assert(src@[j] == (if j < min_idx {
                    pre_src[j]
                } else {
                    pre_src[j + 1]
                }));
            }
        }
    }
    out
}

/// Sort kernels into canonical order, keeping the same entries.
fn sort_kernels(v: Vec<TransactionKernel>) -> (r: Vec<TransactionKernel>)
    ensures
        r@.to_multiset() == v@.to_multiset(),
        kernels_sorted(r@),
{
    let mut src = v;
    let mut out: Vec<TransactionKernel> = Vec::new();
    while src.len() > 0
        invariant
            out@.to_multiset().add(src@.to_multiset()) == v@.to_multiset(),
            kernels_sorted(out@),
            forall|i: int, j: int|
                0 <= i < out@.len() && 0 <= j < src@.len()
                    ==> #[trigger] out@[i].excess_sig.spec_order_key()
                    <= #[trigger] src@[j].excess_sig.spec_order_key(),
        decreases src@.len(),
    {
        let mut min_idx: usize = 0;
        let mut idx: usize = 1;
        while idx < src.len()
            invariant
                0 < src@.len(),
                min_idx < idx <= src@.len(),
                forall|t: int| 0 <= t < idx ==> src@[min_idx as int].excess_sig.spec_order_key()
                    <= #[trigger] src@[t].excess_sig.spec_order_key(),
            decreases src@.len() - idx,
        {
            if src[idx].excess_sig.order_key() < src[min_idx].excess_sig.order_key() {
                min_idx = idx;
            }
            idx += 1;
        }
        let ghost pre_out = out@;
        let ghost pre_src = src@;
        let x = src.remove(min_idx);
        out.push(x);
        proof {
            assert(out@.to_multiset() =~= pre_out.to_multiset().insert(x));
            assert(src@.to_multiset() =~= pre_src.to_multiset().remove(x));
            assert(out@.to_multiset().add(src@.to_multiset()) =~= v@.to_multiset());
            assert forall|i: int, j: int|
                0 <= i < out@.len() && 0 <= j < src@.len()
                implies #[trigger] out@[i].excess_sig.spec_order_key()
                <= #[trigger] src@[j].excess_sig.spec_order_key() by {
                assert(src@[j] == (if j < min_idx {
                    pre_src[j]
                } else {
                    pre_src[j + 1]
                }));
            }
        }
    }
    out
}

/// The inputs, outputs and kernels of a transaction or block, kept in
/// canonical order before hashing.
#[derive(Clone, Debug, PartialEq)]
pub struct AggregateBody {
    pub(crate) inputs: Vec<TransactionInput>,
    pub(crate) outputs: Vec<TransactionOutput>,
    pub(crate) kernels: Vec<TransactionKernel>,
}

impl AggregateBody {
    /// The inputs held by the body.
    pub closed spec fn spec_inputs(self) -> Seq<TransactionInput> {
        self.inputs@
    }

    /// The outputs held by the body.
    pub closed spec fn spec_outputs(self) -> Seq<TransactionOutput> {
        self.outputs@
    }

    /// The kernels held by the body.
    pub closed spec fn spec_kernels(self) -> Seq<TransactionKernel> {
        self.kernels@
    }

    /// Create a body from the given inputs, outputs and kernels.
    pub fn new(
        inputs: Vec<TransactionInput>,
        outputs: Vec<TransactionOutput>,
        kernels: Vec<TransactionKernel>,
    ) -> (r: AggregateBody)
        ensures
            r.spec_inputs() == inputs@,
            r.spec_outputs() == outputs@,
            r.spec_kernels() == kernels@,
    {
        AggregateBody { inputs, outputs, kernels }
    }

    /// An empty body.
    pub fn empty() -> (r: AggregateBody)
        ensures
            r.spec_inputs() == Seq::<TransactionInput>::empty(),
            r.spec_outputs() == Seq::<TransactionOutput>::empty(),
            r.spec_kernels() == Seq::<TransactionKernel>::empty(),
    {
        AggregateBody { inputs: Vec::new(), outputs: Vec::new(), kernels: Vec::new() }
    }

    /// The body's inputs.
    pub fn inputs(&self) -> (r: &Vec<TransactionInput>)
        ensures
            r@ == self.spec_inputs(),
    {
        &self.inputs
    }

    /// The body's outputs.
    pub fn outputs(&self) -> (r: &Vec<TransactionOutput>)
        ensures
            r@ == self.spec_outputs(),
    {
        &self.outputs
    }

    /// The body's kernels.
    pub fn kernels(&self) -> (r: &Vec<TransactionKernel>)
        ensures
            r@ == self.spec_kernels(),
    {
        &self.kernels
    }

    /// Whether all three sections are in canonical order.
    pub open spec fn spec_sorted(self) -> bool {
        inputs_sorted(self.spec_inputs()) && outputs_sorted(self.spec_outputs())
            && kernels_sorted(self.spec_kernels())
    }

    /// Bring the body into canonical order. The entries are kept; only their
    /// order changes. Sorting is an invariant before hashing.
    pub fn sort(&mut self)
        ensures
            final(self).spec_sorted(),
            final(self).spec_inputs().to_multiset() == old(self).spec_inputs().to_multiset(),
            final(self).spec_outputs().to_multiset() == old(self).spec_outputs().to_multiset(),
            final(self).spec_kernels().to_multiset() == old(self).spec_kernels().to_multiset(),
    {
        let mut inputs = Vec::new();
        let mut outputs = Vec::new();
        let mut kernels = Vec::new();
        std::mem::swap(&mut inputs, &mut self.inputs);
        std::mem::swap(&mut outputs, &mut self.outputs);
        std::mem::swap(&mut kernels, &mut self.kernels);
        self.inputs = sort_inputs(inputs);
        self.outputs = sort_outputs(outputs);
        self.kernels = sort_kernels(kernels);
    }

    /// The exact sum of the body's kernel fees.
    pub open spec fn spec_total_fee(self) -> int {
        kernel_fee_sum(self.spec_kernels(), self.spec_kernels().len() as int)
    }

    /// The kernel fee sum, capped at the largest representable amount.
    pub open spec fn spec_total_fee_capped(self) -> int {
        if self.spec_total_fee() <= u64::MAX {
            self.spec_total_fee()
        } else {
            u64::MAX as int
        }
    }

    /// Sum the kernel fees, capped at the largest representable amount.
    pub fn total_fee(&self) -> (r: MicroTari)
        ensures
            r.0 == self.spec_total_fee_capped(),
    {
        let mut sum: u128 = 0;
        let mut i: usize = 0;
        while i < self.kernels.len()
            invariant
                i <= self.kernels@.len(),
                sum == kernel_fee_sum(self.kernels@, i as int),
                sum <= i * 0xFFFF_FFFF_FFFF_FFFF,
            decreases self.kernels@.len() - i,
        {
            sum = sum + (self.kernels[i].fee.0 as u128);
            i += 1;
        }
        if sum > 0xFFFF_FFFF_FFFF_FFFF {
            MicroTari(u64::MAX)
        } else {
            MicroTari(sum as u64)
        }
    }

    /// The greatest time lock in the body: the maximum over all kernel lock
    /// heights and all input maturities, zero when there are none.
    pub open spec fn spec_max_timelock_height(self) -> int {
        let kl = max_kernel_lock(self.spec_kernels(), self.spec_kernels().len() as int);
        let im = max_input_maturity(self.spec_inputs(), self.spec_inputs().len() as int);
        if kl >= im {
            kl
        } else {
            im
        }
    }

    /// The lowest height of a block that may contain this body: no kernel
    /// lock height nor input maturity may exceed the block's height.
    pub fn max_timelock_height(&self) -> (r: u64)
        ensures
            r == self.spec_max_timelock_height(),
    {
        let mut m: u64 = 0;
        let mut i: usize = 0;
        while i < self.kernels.len()
            invariant
                i <= self.kernels@.len(),
                m == max_kernel_lock(self.kernels@, i as int),
            decreases self.kernels@.len() - i,
        {
            if self.kernels[i].lock_height > m {
                m = self.kernels[i].lock_height;
            }
            i += 1;
        }
        let mut im: u64 = 0;
        let mut j: usize = 0;
        while j < self.inputs.len()
            invariant
                j <= self.inputs@.len(),
                im == max_input_maturity(self.inputs@, j as int),
            decreases self.inputs@.len() - j,
        {
            if self.inputs[j].features.maturity > im {
                im = self.inputs[j].features.maturity;
            }
            j += 1;
        }
        if m >= im {
            m
        } else {
            im
        }
    }

    /// Destroy the body and return its three sections.
    pub fn dissolve(self) -> (r: (
        Vec<TransactionInput>,
        Vec<TransactionOutput>,
        Vec<TransactionKernel>,
    ))
        ensures
            r.0@ == self.spec_inputs(),
            r.1@ == self.spec_outputs(),
            r.2@ == self.spec_kernels(),
    {
        (self.inputs, self.outputs, self.kernels)
    }
}

/// The exact sum of the first `i` kernel fees.
pub open spec fn kernel_fee_sum(kernels: Seq<TransactionKernel>, i: int) -> int
    decreases i,
{
    if i <= 0 {
        0
    } else {
        kernel_fee_sum(kernels, i - 1) + kernels[i - 1].fee.0
    }
}

/// Kernel fees are non-negative, so their sum is too.
pub proof fn lemma_kernel_fee_sum_nonneg(kernels: Seq<TransactionKernel>, i: int)
    ensures
        kernel_fee_sum(kernels, i) >= 0,
    decreases i,
{
    if i > 0 {
        lemma_kernel_fee_sum_nonneg(kernels, i - 1);
    }
}

/// The greatest lock height among the first `i` kernels, zero when none.
pub open spec fn max_kernel_lock(kernels: Seq<TransactionKernel>, i: int) -> int
    decreases i,
{
    if i <= 0 {
        0
    } else {
        let m = max_kernel_lock(kernels, i - 1);
        if kernels[i - 1].lock_height > m {
            kernels[i - 1].lock_height as int
        } else {
            m
        }
    }
}

/// The greatest maturity among the first `i` inputs, zero when none.
pub open spec fn max_input_maturity(inputs: Seq<TransactionInput>, i: int) -> int
    decreases i,
{
    if i <= 0 {
        0
    } else {
        let m = max_input_maturity(inputs, i - 1);
        if inputs[i - 1].features.maturity > m {
            inputs[i - 1].features.maturity as int
        } else {
            m
        }
    }
}

/// 64-bit wrapping addition, the group operation of the modelled commitment
/// group.
pub open spec fn wadd(a: u64, b: u64) -> u64 {
    ((a as nat + b as nat) % 0x1_0000_0000_0000_0000nat) as u64
}

/// The wrapping sum of the first `i` input commitments.
pub open spec fn input_commitment_sum(s: Seq<TransactionInput>, i: int) -> u64
    decreases i,
{
    if i <= 0 {
        0
    } else {
        wadd(input_commitment_sum(s, i - 1), s[i - 1].commitment)
    }
}

/// The wrapping sum of the first `i` output commitments.
pub open spec fn output_commitment_sum(s: Seq<TransactionOutput>, i: int) -> u64
    decreases i,
{
    if i <= 0 {
        0
    } else {
        wadd(output_commitment_sum(s, i - 1), s[i - 1].commitment)
    }
}

/// The wrapping sum of the first `i` kernel excesses.
pub open spec fn kernel_excess_sum(s: Seq<TransactionKernel>, i: int) -> u64
    decreases i,
{
    if i <= 0 {
        0
    } else {
        wadd(kernel_excess_sum(s, i - 1), s[i - 1].excess)
    }
}

/// A transaction: an aggregate body plus the kernel offset split from the
/// excesses.
#[derive(Clone, Debug, PartialEq)]
pub struct Transaction {
    pub body: AggregateBody,
    pub offset: u64,
}

impl Transaction {
    /// Create a transaction from a body and a kernel offset.
    pub fn new(body: AggregateBody, offset: u64) -> (r: Transaction)
        ensures
            r.body == body,
            r.offset == offset,
    {
        Transaction { body, offset }
    }

    /// The commitments balance: the input commitments equal the output
    /// commitments plus the kernel excesses plus the offset, in the modelled
    /// commitment group. No funds are created or destroyed.
    pub open spec fn spec_balanced(self) -> bool {
        input_commitment_sum(self.body.spec_inputs(), self.body.spec_inputs().len() as int)
            == wadd(
            wadd(
                output_commitment_sum(
                    self.body.spec_outputs(),
                    self.body.spec_outputs().len() as int,
                ),
                kernel_excess_sum(self.body.spec_kernels(), self.body.spec_kernels().len() as int),
            ),
            self.offset,
        )
    }

    /// Check the transaction's internal consistency: the commitment balance
    /// of the modelled group. Range proofs and signatures are checked by the
    /// cryptographic collaborators behind the factories.
    #[verifier::rlimit(60)]
    pub fn validate_internal_consistency(&self, factories: &CryptoFactories) -> (r: Result<
        (),
        TransactionError,
    >)
        ensures
            r.is_ok() == self.spec_balanced(),
            r.is_err() ==> r == Err::<(), TransactionError>(
                TransactionError::UnbalancedCommitments,
            ),
    {
        let _ = factories;
        let mut in_sum: u64 = 0;
        let mut i: usize = 0;
        while i < self.body.inputs.len()
            invariant
                i <= self.body.inputs@.len(),
                in_sum == input_commitment_sum(self.body.inputs@, i as int),
            decreases self.body.inputs@.len() - i,
        {
            in_sum = in_sum.wrapping_add(self.body.inputs[i].commitment);
            i += 1;
        }
        let mut out_sum: u64 = 0;
        let mut j: usize = 0;
        while j < self.body.outputs.len()
            invariant
                j <= self.body.outputs@.len(),
                out_sum == output_commitment_sum(self.body.outputs@, j as int),
            decreases self.body.outputs@.len() - j,
        {
            out_sum = out_sum.wrapping_add(self.body.outputs[j].commitment);
            j += 1;
        }
        let mut ex_sum: u64 = 0;
        let mut t: usize = 0;
        while t < self.body.kernels.len()
            invariant
                t <= self.body.kernels@.len(),
                ex_sum == kernel_excess_sum(self.body.kernels@, t as int),
            decreases self.body.kernels@.len() - t,
        {
            ex_sum = ex_sum.wrapping_add(self.body.kernels[t].excess);
            t += 1;
        }
        if in_sum == out_sum.wrapping_add(ex_sum).wrapping_add(self.offset) {
            Ok(())
        } else {
            Err(TransactionError::UnbalancedCommitments)
        }
    }

    /// The kernel fee sum, capped at the largest representable amount.
    pub open spec fn spec_total_fee_capped(self) -> int {
        self.body.spec_total_fee_capped()
    }

    /// Sum the body's kernel fees, capped at the largest representable
    /// amount.
    pub fn total_fee(&self) -> (r: MicroTari)
        ensures
            r.0 == self.spec_total_fee_capped(),
    {
        self.body.total_fee()
    }

    /// The transaction's weight: one unit per input, output and kernel,
    /// capped at the largest representable weight.
    pub open spec fn spec_weight(self) -> int {
        let w = self.body.spec_inputs().len() + self.body.spec_outputs().len()
            + self.body.spec_kernels().len();
        if w <= u64::MAX {
            w as int
        } else {
            u64::MAX as int
        }
    }

    /// Compute the transaction's weight.
    pub fn calculate_weight(&self) -> (r: u64)
        ensures
            r == self.spec_weight(),
    {
        let w: u128 = (self.body.inputs.len() as u128) + (self.body.outputs.len() as u128) + (
        self.body.kernels.len() as u128);
        if w > 0xFFFF_FFFF_FFFF_FFFF {
            u64::MAX
        } else {
            w as u64
        }
    }

    /// The greatest time lock in the transaction: the maximum over kernel
    /// lock heights and input maturities.
    pub open spec fn spec_max_timelock_height(self) -> int {
        self.body.spec_max_timelock_height()
    }

    /// The lowest height of a block that may include this transaction.
    pub fn max_timelock_height(&self) -> (r: u64)
        ensures
            r == self.spec_max_timelock_height(),
    {
        self.body.max_timelock_height()
    }

    /// The lowest chain height at which the transaction is spendable: the
    /// same height its greatest time lock names.
    pub fn min_spendable_height(&self) -> (r: u64)
        ensures
            r == self.spec_max_timelock_height(),
    {
        self.body.max_timelock_height()
    }
}

/// Copy a vector of inputs.
pub(crate) fn copy_inputs(v: &Vec<TransactionInput>) -> (r: Vec<
    TransactionInput,
>)
    ensures
        r@ == v@,
{
    let mut out = Vec::new();
    let mut i: usize = 0;
    while i < v.len()
        invariant
            i <= v@.len(),
            out@ == v@.take(i as int),
        decreases v@.len() - i,
    {
        out.push(v[i]);
        proof {
            assert(out@ =~= v@.take(i + 1));
        }
        i += 1;
    }
    proof {
        assert(v@.take(v@.len() as int) =~= v@);
    }
    out
}

/// Copy a vector of outputs.
pub(crate) fn copy_outputs(v: &Vec<TransactionOutput>) -> (r: Vec<
    TransactionOutput,
>)
    ensures
        r@ == v@,
{
    let mut out = Vec::new();
    let mut i: usize = 0;
    while i < v.len()
        invariant
            i <= v@.len(),
            out@ == v@.take(i as int),
        decreases v@.len() - i,
    {
        out.push(v[i]);
        proof {
            assert(out@ =~= v@.take(i + 1));
        }
        i += 1;
    }
    proof {
        assert(v@.take(v@.len() as int) =~= v@);
    }
    out
}

/// Copy a vector of kernels.
pub(crate) fn copy_kernels(v: &Vec<TransactionKernel>) -> (r: Vec<
    TransactionKernel,
>)
    ensures
        r@ == v@,
{
    let mut out = Vec::new();
    let mut i: usize = 0;
    while i < v.len()
        invariant
            i <= v@.len(),
            out@ == v@.take(i as int),
        decreases v@.len() - i,
    {
        out.push(v[i]);
        proof {
            assert(out@ =~= v@.take(i + 1));
        }
        i += 1;
    }
    proof {
        assert(v@.take(v@.len() as int) =~= v@);
    }
    out
}

} // verus!
