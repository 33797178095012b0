//! Blocks: a header naming the parent, the consensus data that
//! justified the block, and the transaction list. A block's identity
//! is the digest of its header, which commits to the transactions
//! through a body digest.

use vstd::prelude::*;

use crate::hashing::{
    absorb, bytes_words, hash_vec, lemma_absorb_concat, seq_words, vec_words,
    DefaultHashAlgoStream, HashWords, HASH_STREAM_INIT,
};
use crate::output::{lemma_absorb_small, TxOutput};
use crate::primitives::{Compact, Id};
use crate::timestamp::BlockTimestamp;
use crate::transaction::{
    dup_inputs, dup_outputs, dup_witnesses, lemma_witness_seq_words, stxv_words, witv_seq_words,
    InputWitness, SignedTransaction, SignedTxV, TxInput, WitnessV,
};

verus! {

/// Proof-of-work payload: target bits, the nonce found, and the
/// reward outputs the miner claims.
#[derive(Debug, Clone, PartialEq, Eq)]
pub struct PoWData {
    pub bits: Compact,
    pub nonce: u128,
    pub reward_outputs: Vec<TxOutput>,
}

/// The content view of a proof-of-work payload.
pub ghost struct PoWDataV {
    pub bits: Compact,
    pub nonce: u128,
    pub reward_outputs: Seq<TxOutput>,
}

impl View for PoWData {
    type V = PoWDataV;

    open spec fn view(&self) -> PoWDataV {
        PoWDataV { bits: self.bits, nonce: self.nonce, reward_outputs: self.reward_outputs@ }
    }
}

impl PoWData {
    pub fn new(bits: Compact, nonce: u128, reward_outputs: Vec<TxOutput>) -> (r: PoWData)
        ensures
            r.bits == bits,
            r.nonce == nonce,
            r.reward_outputs == reward_outputs,
    {
        PoWData { bits, nonce, reward_outputs }
    }

    pub fn bits(&self) -> (r: Compact)
        ensures
            r == self.bits,
    {
        self.bits
    }

    pub fn nonce(&self) -> (r: u128)
        ensures
            r == self.nonce,
    {
        self.nonce
    }

    pub fn outputs(&self) -> (r: &Vec<TxOutput>)
        ensures
            r == self.reward_outputs,
    {
        &self.reward_outputs
    }

    pub fn update_nonce(&mut self, nonce: u128)
        ensures
            final(self).bits == old(self).bits,
            final(self).nonce == nonce,
            final(self).reward_outputs == old(self).reward_outputs,
    {
        self.nonce = nonce;
    }

    /// The work this block contributes: the number of target-sized
    /// slots in the hash space, computed as
    /// `(MAX - target) / (target + 1) + 1`, saturating.
    pub open spec fn spec_block_proof(self) -> Option<u128> {
        match self.bits.spec_target() {
            None => None,
            Some(t) => {
                if t == u128::MAX {
                    Some(1u128)
                } else {
                    let q = (((u128::MAX - t) as u128) / ((t + 1) as u128)) as u128;
                    if q == u128::MAX {
                        Some(u128::MAX)
                    } else {
                        Some((q + 1) as u128)
                    }
                }
            },
        }
    }

    pub fn get_block_proof(&self) -> (r: Option<u128>)
        ensures
            r == self.spec_block_proof(),
            r matches Some(p) ==> p >= 1,
    {
        match self.bits.to_target() {
            None => None,
            Some(t) => {
                if t == u128::MAX {
                    Some(1)
                } else {
                    let q = (u128::MAX - t) / (t + 1);
                    if q == u128::MAX {
                        Some(u128::MAX)
                    } else {
                        Some(q + 1)
                    }
                }
            },
        }
    }

    /// An owned copy with the same content.
    pub fn duplicate(&self) -> (r: PoWData)
        ensures
            r@ == self@,
    {
        PoWData { bits: self.bits, nonce: self.nonce, reward_outputs: dup_outputs(&self.reward_outputs) }
    }
}

/// The words a proof-of-work payload feeds into the hasher.
pub open spec fn powv_words(v: PoWDataV) -> Seq<u64> {
    seq![1u64, v.bits.bits as u64, v.nonce as u64, (v.nonce >> 64) as u64] + vec_words(v.reward_outputs)
}

impl HashWords for PoWData {
    open spec fn words(&self) -> Seq<u64> {
        powv_words((*self)@)
    }

    fn hash_into(&self, stream: &mut DefaultHashAlgoStream) {
        let ghost s0 = stream@;
        let ghost w1 = seq![1u64, self.bits.bits as u64, self.nonce as u64, (self.nonce >> 64) as u64];
        stream.write_u64(1u64);
        stream.write_u32(self.bits.bits);
        stream.write_u128(self.nonce);
        proof {
            lemma_absorb_small(s0, w1);
        }
        hash_vec(stream, &self.reward_outputs);
        proof {
            lemma_absorb_concat(s0, w1, vec_words(self.reward_outputs@));
        }
    }
}

/// Proof-of-stake payload: the kernel input spending the pool's
/// stake, its witnesses, the reward outputs, the VRF data and the
/// target bits.
#[derive(Debug, Clone, PartialEq, Eq)]
pub struct PoSData {
    pub kernel_inputs: Vec<TxInput>,
    pub kernel_witnesses: Vec<InputWitness>,
    pub reward_outputs: Vec<TxOutput>,
    pub vrf_data: Vec<u8>,
    pub bits: Compact,
    pub stake_pool_id: Id,
}

/// The content view of a proof-of-stake payload.
pub ghost struct PoSDataV {
    pub kernel_inputs: Seq<TxInput>,
    pub kernel_witnesses: Seq<WitnessV>,
    pub reward_outputs: Seq<TxOutput>,
    pub vrf_data: Seq<u8>,
    pub bits: Compact,
    pub stake_pool_id: Id,
}

impl View for PoSData {
    type V = PoSDataV;

    open spec fn view(&self) -> PoSDataV {
        PoSDataV {
            kernel_inputs: self.kernel_inputs@,
            kernel_witnesses: self.kernel_witnesses@.map_values(|w: InputWitness| w@),
            reward_outputs: self.reward_outputs@,
            vrf_data: self.vrf_data@,
            bits: self.bits,
            stake_pool_id: self.stake_pool_id,
        }
    }
}

impl PoSData {
    pub fn new(
        kernel_inputs: Vec<TxInput>,
        kernel_witnesses: Vec<InputWitness>,
        reward_outputs: Vec<TxOutput>,
        vrf_data: Vec<u8>,
        bits: Compact,
        stake_pool_id: Id,
    ) -> (r: PoSData)
        ensures
            r == (PoSData { kernel_inputs, kernel_witnesses, reward_outputs, vrf_data, bits, stake_pool_id }),
    {
        PoSData { kernel_inputs, kernel_witnesses, reward_outputs, vrf_data, bits, stake_pool_id }
    }

    pub fn kernel_inputs(&self) -> (r: &Vec<TxInput>)
        ensures
            r == self.kernel_inputs,
    {
        &self.kernel_inputs
    }

    pub fn reward_outputs(&self) -> (r: &Vec<TxOutput>)
        ensures
            r == self.reward_outputs,
    {
        &self.reward_outputs
    }

    pub fn bits(&self) -> (r: &Compact)
        ensures
            r == self.bits,
    {
        &self.bits
    }

    pub fn target(&self) -> (r: &Compact)
        ensures
            r == self.bits,
    {
        &self.bits
    }

    pub fn vrf_data(&self) -> (r: &Vec<u8>)
        ensures
            r == self.vrf_data,
    {
        &self.vrf_data
    }

    pub fn stake_pool_id(&self) -> (r: &Id)
        ensures
            r == self.stake_pool_id,
    {
        &self.stake_pool_id
    }

    /// An owned copy with the same content.
    pub fn duplicate(&self) -> (r: PoSData)
        ensures
            r@ == self@,
    {
        let mut vrf: Vec<u8> = Vec::new();
        let n = self.vrf_data.len();
        for i in 0..n
            invariant
                n == self.vrf_data@.len(),
                vrf@ =~= self.vrf_data@.take(i as int),
        {
            vrf.push(self.vrf_data[i]);
            proof {
                assert(vrf@ =~= self.vrf_data@.take(i + 1));
            }
        }
        proof {
            assert(self.vrf_data@.take(n as int) =~= self.vrf_data@);
        }
        let r = PoSData {
            kernel_inputs: dup_inputs(&self.kernel_inputs),
            kernel_witnesses: dup_witnesses(&self.kernel_witnesses),
            reward_outputs: dup_outputs(&self.reward_outputs),
            vrf_data: vrf,
            bits: self.bits,
            stake_pool_id: self.stake_pool_id,
        };
        proof {
            assert(r@.kernel_witnesses =~= self@.kernel_witnesses);
        }
        r
    }
}

/// The words a proof-of-stake payload feeds into the hasher.
pub open spec fn posv_words(v: PoSDataV) -> Seq<u64> {
    seq![2u64]
        + vec_words(v.kernel_inputs)
        + seq![v.kernel_witnesses.len() as u64] + witv_seq_words(v.kernel_witnesses)
        + vec_words(v.reward_outputs)
        + bytes_words(v.vrf_data)
        + seq![v.bits.bits as u64, v.stake_pool_id.value]
}

impl HashWords for PoSData {
    open spec fn words(&self) -> Seq<u64> {
        posv_words((*self)@)
    }

    fn hash_into(&self, stream: &mut DefaultHashAlgoStream) {
        let ghost s0 = stream@;
        stream.write_u64(2u64);
        proof {
            lemma_absorb_small(s0, seq![2u64]);
        }
        hash_vec(stream, &self.kernel_inputs);
        proof {
            lemma_absorb_concat(s0, seq![2u64], vec_words(self.kernel_inputs@));
        }
        let ghost w1 = seq![2u64] + vec_words(self.kernel_inputs@);
        hash_vec(stream, &self.kernel_witnesses);
        proof {
            lemma_absorb_concat(s0, w1, vec_words(self.kernel_witnesses@));
            lemma_witness_seq_words(self.kernel_witnesses@);
        }
        let ghost w2 = w1 + vec_words(self.kernel_witnesses@);
        hash_vec(stream, &self.reward_outputs);
        proof {
            lemma_absorb_concat(s0, w2, vec_words(self.reward_outputs@));
        }
        let ghost w3 = w2 + vec_words(self.reward_outputs@);
        stream.write_bytes(&self.vrf_data);
        proof {
            lemma_absorb_concat(s0, w3, bytes_words(self.vrf_data@));
        }
        let ghost w4 = w3 + bytes_words(self.vrf_data@);
        stream.write_u32(self.bits.bits);
        stream.write_u64(self.stake_pool_id.value);
        proof {
            lemma_absorb_small(absorb(s0, w4), seq![self.bits.bits as u64, self.stake_pool_id.value]);
            lemma_absorb_concat(s0, w4, seq![self.bits.bits as u64, self.stake_pool_id.value]);
            assert(w4 + seq![self.bits.bits as u64, self.stake_pool_id.value] =~= self.words());
        }
    }
}

/// The consensus rule a block was produced under, with its payload.
#[derive(Debug, Clone, PartialEq, Eq)]
pub enum ConsensusData {
    NoConsensus,
    PoW(PoWData),
    PoS(PoSData),
}

/// The content view of consensus data.
pub ghost enum ConsensusDataV {
    NoConsensus,
    PoW(PoWDataV),
    PoS(PoSDataV),
}

impl View for ConsensusData {
    type V = ConsensusDataV;

    open spec fn view(&self) -> ConsensusDataV {
        match self {
            ConsensusData::NoConsensus => ConsensusDataV::NoConsensus,
            ConsensusData::PoW(d) => ConsensusDataV::PoW(d@),
            ConsensusData::PoS(d) => ConsensusDataV::PoS(d@),
        }
    }
}

/// The words consensus data feeds into the hasher.
pub open spec fn cdv_words(v: ConsensusDataV) -> Seq<u64> {
    match v {
        ConsensusDataV::NoConsensus => seq![0u64],
        ConsensusDataV::PoW(d) => powv_words(d),
        ConsensusDataV::PoS(d) => posv_words(d),
    }
}

/// A view of the reward payout of a block as something that spends
/// inputs and creates outputs.
#[derive(Debug, Clone, Copy)]
pub struct BlockRewardTransactable<'a> {
    pub inputs: Option<&'a Vec<TxInput>>,
    pub outputs: Option<&'a Vec<TxOutput>>,
    pub witnesses: Option<&'a Vec<InputWitness>>,
}

impl<'a> BlockRewardTransactable<'a> {
    pub fn reward_inputs(&self) -> (r: Option<&'a Vec<TxInput>>)
        ensures
            r == self.inputs,
    {
        self.inputs
    }

    pub fn reward_outputs(&self) -> (r: Option<&'a Vec<TxOutput>>)
        ensures
            r == self.outputs,
    {
        self.outputs
    }
}

impl ConsensusData {
    pub fn derive_transactable(&self) -> (r: BlockRewardTransactable<'_>)
        ensures
            r.inputs == (match self {
                ConsensusData::NoConsensus => None::<&Vec<TxInput>>,
                ConsensusData::PoW(_) => None::<&Vec<TxInput>>,
                ConsensusData::PoS(pos) => Some(&self->PoS_0.kernel_inputs),
            }),
            r.outputs == (match self {
                ConsensusData::NoConsensus => None::<&Vec<TxOutput>>,
                ConsensusData::PoW(pow) => Some(&self->PoW_0.reward_outputs),
                ConsensusData::PoS(pos) => Some(&self->PoS_0.reward_outputs),
            }),
            r.witnesses == (match self {
                ConsensusData::NoConsensus => None::<&Vec<InputWitness>>,
                ConsensusData::PoW(_) => None::<&Vec<InputWitness>>,
                ConsensusData::PoS(pos) => Some(&self->PoS_0.kernel_witnesses),
            }),
    {
        match self {
            ConsensusData::NoConsensus => BlockRewardTransactable { inputs: None, outputs: None, witnesses: None },
            ConsensusData::PoW(pow) => BlockRewardTransactable {
                inputs: None,
                outputs: Some(&pow.reward_outputs),
                witnesses: None,
            },
            ConsensusData::PoS(pos) => BlockRewardTransactable {
                inputs: Some(&pos.kernel_inputs),
                outputs: Some(&pos.reward_outputs),
                witnesses: Some(&pos.kernel_witnesses),
            },
        }
    }

    /// The chain-trust contribution of a block carrying this data:
    /// one for blocks that prove no work, the work value for
    /// proof-of-work blocks, `None` for an undecodable target.
    pub open spec fn spec_block_proof(self) -> Option<u128> {
        match self {
            ConsensusData::NoConsensus => Some(1u128),
            ConsensusData::PoW(pow) => pow.spec_block_proof(),
            ConsensusData::PoS(_) => Some(1u128),
        }
    }

    pub fn get_block_proof(&self) -> (r: Option<u128>)
        ensures
            r == self.spec_block_proof(),
            r matches Some(p) ==> p >= 1,
    {
        match self {
            ConsensusData::NoConsensus => Some(1),
            ConsensusData::PoW(pow) => pow.get_block_proof(),
            ConsensusData::PoS(_) => Some(1),
        }
    }

    /// An owned copy with the same content.
    pub fn duplicate(&self) -> (r: ConsensusData)
        ensures
            r@ == self@,
    {
        match self {
            ConsensusData::NoConsensus => ConsensusData::NoConsensus,
            ConsensusData::PoW(d) => ConsensusData::PoW(d.duplicate()),
            ConsensusData::PoS(d) => ConsensusData::PoS(d.duplicate()),
        }
    }
}

impl HashWords for ConsensusData {
    open spec fn words(&self) -> Seq<u64> {
        cdv_words((*self)@)
    }

    fn hash_into(&self, stream: &mut DefaultHashAlgoStream) {
        let ghost s0 = stream@;
        match self {
            ConsensusData::NoConsensus => {
                stream.write_u64(0u64);
                proof {
                    lemma_absorb_small(s0, seq![0u64]);
                }
            },
            ConsensusData::PoW(pow) => pow.hash_into(stream),
            ConsensusData::PoS(pos) => pos.hash_into(stream),
        }
    }
}

/// A block header: parent reference, body digest, timestamp and
/// consensus payload. The block's id is this header's digest.
#[derive(Debug, Clone, PartialEq, Eq)]
pub struct BlockHeader {
    pub prev_block_id: Id,
    pub body_root: u64,
    pub timestamp: BlockTimestamp,
    pub consensus_data: ConsensusData,
}

/// The content view of a header.
pub ghost struct HeaderV {
    pub prev_block_id: Id,
    pub body_root: u64,
    pub timestamp: BlockTimestamp,
    pub consensus_data: ConsensusDataV,
}

impl View for BlockHeader {
    type V = HeaderV;

    open spec fn view(&self) -> HeaderV {
        HeaderV {
            prev_block_id: self.prev_block_id,
            body_root: self.body_root,
            timestamp: self.timestamp,
            consensus_data: self.consensus_data@,
        }
    }
}

/// The words a header feeds into the hasher.
pub open spec fn headerv_words(h: HeaderV) -> Seq<u64> {
    seq![h.prev_block_id.value, h.body_root, h.timestamp.timestamp as u64] + cdv_words(h.consensus_data)
}

/// The identity of a block whose header has this content.
pub open spec fn header_id(h: HeaderV) -> Id {
    Id { value: absorb(HASH_STREAM_INIT, headerv_words(h)) }
}

impl BlockHeader {
    pub fn prev_block_id(&self) -> (r: &Id)
        ensures
            r == self.prev_block_id,
    {
        &self.prev_block_id
    }

    pub fn timestamp(&self) -> (r: BlockTimestamp)
        ensures
            r == self.timestamp,
    {
        self.timestamp
    }

    pub fn consensus_data(&self) -> (r: &ConsensusData)
        ensures
            r == self.consensus_data,
    {
        &self.consensus_data
    }

    /// The identity of the block this header heads.
    pub open spec fn spec_id(self) -> Id {
        header_id(self@)
    }

    pub fn get_id(&self) -> (r: Id)
        ensures
            r == self.spec_id(),
    {
        let mut stream = DefaultHashAlgoStream::new();
        self.hash_into(&mut stream);
        Id { value: stream.finalize() }
    }

    /// An owned copy with the same content, hence the same id.
    pub fn duplicate(&self) -> (r: BlockHeader)
        ensures
            r@ == self@,
    {
        BlockHeader {
            prev_block_id: self.prev_block_id,
            body_root: self.body_root,
            timestamp: self.timestamp,
            consensus_data: self.consensus_data.duplicate(),
        }
    }

    pub fn block_reward_transactable(&self) -> (r: BlockRewardTransactable<'_>)
        ensures
            r.inputs == (match self.consensus_data {
                ConsensusData::NoConsensus => None::<&Vec<TxInput>>,
                ConsensusData::PoW(_) => None::<&Vec<TxInput>>,
                ConsensusData::PoS(pos) => Some(&self.consensus_data->PoS_0.kernel_inputs),
            }),
            r.outputs == (match self.consensus_data {
                ConsensusData::NoConsensus => None::<&Vec<TxOutput>>,
                ConsensusData::PoW(pow) => Some(&self.consensus_data->PoW_0.reward_outputs),
                ConsensusData::PoS(pos) => Some(&self.consensus_data->PoS_0.reward_outputs),
            }),
            r.witnesses == (match self.consensus_data {
                ConsensusData::NoConsensus => None::<&Vec<InputWitness>>,
                ConsensusData::PoW(_) => None::<&Vec<InputWitness>>,
                ConsensusData::PoS(pos) => Some(&self.consensus_data->PoS_0.kernel_witnesses),
            }),
    {
        self.consensus_data.derive_transactable()
    }
}

impl HashWords for BlockHeader {
    open spec fn words(&self) -> Seq<u64> {
        headerv_words((*self)@)
    }

    fn hash_into(&self, stream: &mut DefaultHashAlgoStream) {
        let ghost s0 = stream@;
        let ghost w1 = seq![self.prev_block_id.value, self.body_root, self.timestamp.timestamp as u64];
        stream.write_u64(self.prev_block_id.value);
        stream.write_u64(self.body_root);
        stream.write_u32(self.timestamp.timestamp);
        proof {
            lemma_absorb_small(s0, w1);
        }
        self.consensus_data.hash_into(stream);
        proof {
            lemma_absorb_concat(s0, w1, self.consensus_data.words());
        }
    }
}

#[derive(Debug, Clone, Copy, PartialEq, Eq, Structural)]
pub enum BlockCreationError {
    Unknown,
}

/// The words a sequence of signed transactions feeds into the hasher.
pub open spec fn stxv_seq_words(s: Seq<SignedTxV>) -> Seq<u64>
    decreases s.len(),
{
    if s.len() == 0 {
        Seq::empty()
    } else {
        stxv_words(s[0]) + stxv_seq_words(s.drop_first())
    }
}

/// Exec-level transaction words agree with their views'.
pub proof fn lemma_stx_seq_words(s: Seq<SignedTransaction>)
    ensures
        seq_words(s) == stxv_seq_words(s.map_values(|t: SignedTransaction| t@)),
    decreases s.len(),
{
    let m = s.map_values(|t: SignedTransaction| t@);
    if s.len() == 0 {
        assert(m.len() == 0);
    } else {
        lemma_stx_seq_words(s.drop_first());
        assert(m[0] == s[0]@);
        assert(m.drop_first() =~= s.drop_first().map_values(|t: SignedTransaction| t@));
    }
}

/// The digest that commits a header to its transaction list.
pub open spec fn spec_body_root(transactions: Seq<SignedTxV>) -> u64 {
    absorb(HASH_STREAM_INIT, seq![transactions.len() as u64] + stxv_seq_words(transactions))
}

/// The content view of a block.
pub ghost struct BlockV {
    pub header: HeaderV,
    pub transactions: Seq<SignedTxV>,
}

impl View for Block {
    type V = BlockV;

    open spec fn view(&self) -> BlockV {
        BlockV {
            header: self.header@,
            transactions: self.transactions@.map_values(|t: SignedTransaction| t@),
        }
    }
}

/// A block: header plus transactions.
#[derive(Debug, Clone, PartialEq, Eq)]
pub struct Block {
    pub header: BlockHeader,
    pub transactions: Vec<SignedTransaction>,
}

impl Block {
    /// Well-formed: the header's body digest matches the
    /// transactions.
    pub open spec fn wf(self) -> bool {
        self.header.body_root == spec_body_root(self@.transactions)
    }

    /// Assemble a block; the header commits to the transactions.
    pub fn new(
        transactions: Vec<SignedTransaction>,
        prev_block_id: Id,
        timestamp: BlockTimestamp,
        consensus_data: ConsensusData,
    ) -> (r: Result<Block, BlockCreationError>)
        ensures
            r matches Ok(b) && b.header.prev_block_id == prev_block_id
                && b.header.timestamp == timestamp
                && b.header.consensus_data == consensus_data
                && b.transactions == transactions
                && b.wf(),
    {
        let mut stream = DefaultHashAlgoStream::new();
        hash_vec(&mut stream, &transactions);
        let body_root = stream.finalize();
        proof {
            lemma_stx_seq_words(transactions@);
            assert(vec_words(transactions@) =~= seq![transactions@.len() as u64] + seq_words(transactions@));
        }
        Ok(Block {
            header: BlockHeader { prev_block_id, body_root, timestamp, consensus_data },
            transactions,
        })
    }

    pub open spec fn spec_id(self) -> Id {
        self.header.spec_id()
    }

    pub fn get_id(&self) -> (r: Id)
        ensures
            r == self.spec_id(),
    {
        self.header.get_id()
    }

    pub fn header(&self) -> (r: &BlockHeader)
        ensures
            r == self.header,
    {
        &self.header
    }

    pub fn timestamp(&self) -> (r: BlockTimestamp)
        ensures
            r == self.header.timestamp,
    {
        self.header.timestamp
    }

    pub fn consensus_data(&self) -> (r: &ConsensusData)
        ensures
            r == self.header.consensus_data,
    {
        &self.header.consensus_data
    }

    pub fn transactions(&self) -> (r: &Vec<SignedTransaction>)
        ensures
            r == self.transactions,
    {
        &self.transactions
    }

    pub fn prev_block_id(&self) -> (r: &Id)
        ensures
            r == self.header.prev_block_id,
    {
        &self.header.prev_block_id
    }

    pub fn block_reward_transactable(&self) -> (r: BlockRewardTransactable<'_>)
        ensures
            r.inputs == (match self.header.consensus_data {
                ConsensusData::NoConsensus => None::<&Vec<TxInput>>,
                ConsensusData::PoW(_) => None::<&Vec<TxInput>>,
                ConsensusData::PoS(pos) => Some(&self.header.consensus_data->PoS_0.kernel_inputs),
            }),
            r.outputs == (match self.header.consensus_data {
                ConsensusData::NoConsensus => None::<&Vec<TxOutput>>,
                ConsensusData::PoW(pow) => Some(&self.header.consensus_data->PoW_0.reward_outputs),
                ConsensusData::PoS(pos) => Some(&self.header.consensus_data->PoS_0.reward_outputs),
            }),
            r.witnesses == (match self.header.consensus_data {
                ConsensusData::NoConsensus => None::<&Vec<InputWitness>>,
                ConsensusData::PoW(_) => None::<&Vec<InputWitness>>,
                ConsensusData::PoS(pos) => Some(&self.header.consensus_data->PoS_0.kernel_witnesses),
            }),
    {
        self.header.block_reward_transactable()
    }

    /// Replace the consensus payload, e.g. while mining.
    pub fn update_consensus_data(&mut self, consensus_data: ConsensusData)
        ensures
            final(self).header.consensus_data == consensus_data,
            final(self).header.prev_block_id == old(self).header.prev_block_id,
            final(self).header.body_root == old(self).header.body_root,
            final(self).header.timestamp == old(self).header.timestamp,
            final(self).transactions == old(self).transactions,
            old(self).wf() ==> final(self).wf(),
    {
        self.header.consensus_data = consensus_data;
    }

    /// An owned copy with the same content, hence the same id.
    pub fn duplicate(&self) -> (r: Block)
        ensures
            r@ == self@,
            r.wf() == self.wf(),
            r.spec_id() == self.spec_id(),
    {
        let mut txs: Vec<SignedTransaction> = Vec::new();
        let n = self.transactions.len();
        for i in 0..n
            invariant
                n == self.transactions@.len(),
                txs@.len() == i,
                forall|j: int| 0 <= j < i ==> #[trigger] txs@[j]@ == self.transactions@[j]@,
        {
            txs.push(self.transactions[i].duplicate());
        }
        let r = Block { header: self.header.duplicate(), transactions: txs };
        proof {
            assert(r@.transactions =~= self@.transactions);
            assert(r@ == self@);
        }
        r
    }
}

} // verus!
