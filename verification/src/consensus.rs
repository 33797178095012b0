//! Consensus rules: the net-upgrade schedule decides which rule a
//! height runs under; proof-of-work blocks must hash under their
//! target, proof-of-stake blocks must present a kernel whose verified
//! randomness falls under the pool's stake-weighted target.

use vstd::prelude::*;

use crate::block::{Block, BlockHeader, ConsensusData, PoSData};
use crate::config::{ChainConfig, ConsensusUpgrade};
use crate::errors::ConsensusVerificationError;
use crate::hashing::{mix64, DefaultHashAlgoStream};
use crate::keys::{schnorr_verifies, seq32, seq64, KeyBytes32};
use crate::primitives::{BlockHeight, Compact, Id};
use crate::storage::StoreTx;
use crate::timestamp::BlockTimestamp;

verus! {

/// The 128-bit work hash of a block: its id in the upper half, a
/// remix of it in the lower.
pub open spec fn spec_pow_hash(id: Id) -> u128 {
    (((id.value as u128) << 64) | (mix64(id.value, 1u64) as u128)) as u128
}

pub fn pow_hash(id: Id) -> (r: u128)
    ensures
        r == spec_pow_hash(id),
{
    let mut stream = DefaultHashAlgoStream { state: id.value };
    stream.write_u64(1u64);
    let low = stream.finalize();
    ((id.value as u128) << 64u128) | (low as u128)
}

/// Whether a block id proves the work its bits claim: its work hash
/// lies at or under the decoded target.
pub fn check_proof_of_work(block_id: Id, bits: Compact) -> (r: Result<bool, ConsensusVerificationError>)
    ensures
        bits.spec_target() is None ==> r == Result::<bool, ConsensusVerificationError>::Err(
            ConsensusVerificationError::BitsToTargetConversionFailed,
        ),
        bits.spec_target() matches Some(t) ==> r == Result::<bool, ConsensusVerificationError>::Ok(
            spec_pow_hash(block_id) <= t,
        ),
{
    match bits.to_target() {
        Some(t) => Ok(pow_hash(block_id) <= t),
        None => Err(ConsensusVerificationError::BitsToTargetConversionFailed),
    }
}

/// Search for a nonce that makes the block's work hash meet `bits`;
/// the reward outputs are placed in the proof-of-work payload. On
/// success the block carries the found nonce and proves its work.
pub fn mine(
    block: &mut Block,
    max_nonce: u128,
    bits: Compact,
    reward_outputs: Vec<crate::output::TxOutput>,
) -> (r: Result<bool, ConsensusVerificationError>)
    requires
        old(block).wf(),
    ensures
        final(block).wf(),
        bits.spec_target() is None ==> r == Result::<bool, ConsensusVerificationError>::Err(
            ConsensusVerificationError::BitsToTargetConversionFailed,
        ),
        r == Result::<bool, ConsensusVerificationError>::Ok(true) ==> {
            &&& final(block).header.consensus_data matches ConsensusData::PoW(pow) && pow.bits == bits
            &&& (bits.spec_target() matches Some(t) ==> spec_pow_hash(final(block).spec_id()) <= t)
        },
    decreases max_nonce,
{
    let target = match bits.to_target() {
        Some(t) => t,
        None => {
            return Err(ConsensusVerificationError::BitsToTargetConversionFailed);
        },
    };
    let reward = reward_outputs;
    let mut nonce: u128 = 0;
    loop
        invariant
            block.wf(),
            bits.spec_target() == Some(target),
        decreases max_nonce - nonce,
    {
        block.update_consensus_data(ConsensusData::PoW(crate::block::PoWData {
            bits,
            nonce,
            reward_outputs: crate::transaction::dup_outputs(&reward),
        }));
        let id = block.get_id();
        if pow_hash(id) <= target {
            return Ok(true);
        }
        if nonce >= max_nonce {
            return Ok(false);
        }
        nonce = nonce + 1;
    }
}

/// Sortedness of timestamps.
pub open spec fn timestamps_sorted(s: Seq<u32>) -> bool {
    forall|i: int, j: int| 0 <= i <= j < s.len() ==> #[trigger] s[i] <= #[trigger] s[j]
}

/// Sort timestamps ascending; every element comes from the input.
fn sort_timestamps(v: Vec<u32>) -> (r: Vec<u32>)
    ensures
        timestamps_sorted(r@),
        r@.len() == v@.len(),
        forall|k: int| 0 <= k < r@.len() ==> v@.contains(#[trigger] r@[k]),
{
    let mut out: Vec<u32> = Vec::new();
    let n = v.len();
    let mut i: usize = 0;
    while i < n
        invariant
            i <= n,
            n == v@.len(),
            out@.len() == i,
            timestamps_sorted(out@),
            forall|k: int| 0 <= k < out@.len() ==> v@.contains(#[trigger] out@[k]),
        decreases n - i,
    {
        let x = v[i];
        // find the insertion slot
        let mut pos: usize = 0;
        while pos < out.len() && out[pos] <= x
            invariant
                pos <= out@.len(),
                forall|k: int| 0 <= k < pos ==> #[trigger] out@[k] <= x,
            decreases out@.len() - pos,
        {
            pos = pos + 1;
        }
        let ghost before = out@;
        out.insert(pos, x);
        proof {
            assert(out@ =~= before.insert(pos as int, x));
            assert(timestamps_sorted(out@)) by {
                assert forall|a: int, b: int| 0 <= a <= b < out@.len()
                    implies #[trigger] out@[a] <= #[trigger] out@[b] by {
                    let a0 = if a < pos { a } else { a - 1 };
                    let b0 = if b < pos { b } else { b - 1 };
                    if a == pos && b == pos {
                    } else if a == pos {
                        assert(out@[b] == before[b - 1]);
                        assert(before[b - 1] >= x) by {
                            if b - 1 < pos {
                                assert(before[b - 1] <= x);
                                assert(b - 1 >= pos);
                            }
                        };
                    } else if b == pos {
                        assert(out@[a] == before[a]);
                        assert(before[a] <= x);
                    } else {
                        assert(out@[a] == before[a0] && out@[b] == before[b0]);
                    }
                }
            };
            assert(v@.contains(x)) by {
                assert(v@[i as int] == x);
            };
            assert forall|k: int| 0 <= k < out@.len() implies v@.contains(#[trigger] out@[k]) by {
                if k != pos {
                    let k0 = if k < pos { k } else { k - 1 };
                    assert(out@[k] == before[k0]);
                }
            }
        }
        i = i + 1;
    }
    out
}

/// The median timestamp of the last eleven blocks at and below the
/// given one: walks parent references, stops at the chain start.
pub fn calculate_median_time_past(storage: &StoreTx<'_>, starting_block: &Id, config: &ChainConfig) -> (r: BlockTimestamp)
    requires
        storage.wf(),
        config.wf(),
    ensures
        ({
            // the result is the middle element of some sorted
            // arrangement of the walked timestamps
            exists|s: Seq<u32>| timestamps_sorted(s) && s.len() >= 1
                && r.timestamp == #[trigger] s[s.len() as int / 2]
        }),
{
    let mut timestamps: Vec<u32> = Vec::new();
    let mut current: Id = *starting_block;
    let mut steps: usize = 0;
    while steps < 11
        invariant
            storage.wf(),
            config.wf(),
        decreases 11 - steps,
    {
        if current.value == config.genesis_block_id().value {
            timestamps.push(config.genesis_block().timestamp().as_int_seconds());
            break;
        }
        match storage.get_block_index(current) {
            Some(bi) => {
                timestamps.push(bi.block_timestamp().as_int_seconds());
                current = *bi.prev_block_id();
            },
            None => {
                break;
            },
        }
        steps = steps + 1;
    }
    if timestamps.len() == 0 {
        timestamps.push(config.genesis_block().timestamp().as_int_seconds());
    }
    let sorted = sort_timestamps(timestamps);
    let mid = sorted.len() / 2;
    let r = BlockTimestamp::from_int_seconds(sorted[mid]);
    proof {
        let s = sorted@;
        assert(timestamps_sorted(s) && s.len() >= 1 && r.timestamp == s[s.len() as int / 2]);
    }
    r
}

/// Relies on schnorrkel::PublicKey::verify_simple through the
/// library's signature wrapper: the kernel's randomness data must be
/// a valid signature by the pool's key over the epoch's seed and the
/// block's identity; the per-block random value is its digest.
pub fn verify_vrf_and_get_output(
    epoch_index: u64,
    random_seed: u64,
    vrf_data: &Vec<u8>,
    vrf_public_key: &KeyBytes32,
    block_id: Id,
) -> (r: Result<u64, ConsensusVerificationError>)
    ensures
        r matches Ok(h) ==> {
            &&& vrf_data@.len() == 64
            &&& schnorr_verifies(
                seq32(*vrf_public_key),
                vrf_data@,
                crate::sighash::hash_message_bytes(
                    mix64(mix64(mix64(crate::hashing::HASH_STREAM_INIT, epoch_index), random_seed), block_id.value),
                ),
            )
        },
{
    if vrf_data.len() != 64 {
        return Err(ConsensusVerificationError::VRFDataVerificationFailed);
    }
    let mut stream = DefaultHashAlgoStream::new();
    stream.write_u64(epoch_index);
    stream.write_u64(random_seed);
    stream.write_u64(block_id.value);
    let challenge = stream.finalize();
    let msg = crate::sighash::hash_message(challenge);
    let pk = crate::keys::PublicKey {
        pub_key: crate::keys::PublicKeyHolder::RistrettoSchnorr(*vrf_public_key),
    };
    let sig_words = crate::keys::vec_to_sig_bytes(vrf_data);
    let sig = crate::keys::Signature::RistrettoSchnorrSig(sig_words);
    if !pk.verify_message(&sig, &msg) {
        return Err(ConsensusVerificationError::VRFDataVerificationFailed);
    }
    // the per-block pseudorandom value
    let mut out_stream = DefaultHashAlgoStream::new();
    out_stream.write_bytes(vrf_data);
    Ok(out_stream.finalize())
}

/// The randomness a proof-of-stake block at this height draws on: the
/// sealed epoch's recorded randomness, or the chain's initial
/// randomness while no epoch is sealed.
pub fn randomness_of_sealed_epoch(
    chain_config: &ChainConfig,
    current_height: &BlockHeight,
    storage: &StoreTx<'_>,
) -> (r: u64)
    requires
        chain_config.wf(),
        storage.wf(),
    ensures
        ({
            let current_epoch = current_height.val / chain_config.epoch_length;
            let dist = chain_config.sealed_epoch_distance_from_tip as u64;
            let adjust: u64 = if current_height.val as int % chain_config.epoch_length as int
                == chain_config.epoch_length - 1 { 0 } else { 1 };
            if current_epoch >= dist + adjust {
                let sealed = current_epoch - dist - adjust;
                if storage@.epoch_data.contains_key(sealed as u128) {
                    r == storage@.epoch_data[sealed as u128].randomness
                } else {
                    r == chain_config.initial_randomness
                }
            } else {
                r == chain_config.initial_randomness
            }
        }),
{
    let current_epoch_index = chain_config.epoch_index_from_height(current_height);
    let dist = chain_config.sealed_epoch_distance_from_tip() as u64;
    let adjust: u64 = if chain_config.is_last_block_in_epoch(current_height) { 0 } else { 1 };
    if dist > u64::MAX - adjust {
        return chain_config.initial_randomness();
    }
    if current_epoch_index >= dist + adjust {
        let sealed_epoch_index = current_epoch_index - dist - adjust;
        match storage.get_epoch_data(sealed_epoch_index) {
            Some(d) => d.randomness(),
            None => chain_config.initial_randomness(),
        }
    } else {
        chain_config.initial_randomness()
    }
}

/// Check a proof-of-stake block: the kernel output must belong to the
/// block's pool, the randomness must verify under the pool's key, and
/// the random value must fall under the pool's stake-weighted target.
pub fn check_proof_of_stake(
    chain_config: &ChainConfig,
    header: &BlockHeader,
    pos_data: &PoSData,
    storage: &StoreTx<'_>,
) -> (r: Result<(), ConsensusVerificationError>)
    requires
        chain_config.wf(),
        storage.wf(),
{
    let block_id = header.get_id();
    let prev_id = *header.prev_block_id();
    let prev_height = if prev_id.value == chain_config.genesis_block_id().value {
        BlockHeight::zero()
    } else {
        match storage.get_block_index(prev_id) {
            Some(bi) => bi.block_height(),
            None => {
                return Err(ConsensusVerificationError::PrevBlockIndexNotFound(block_id));
            },
        }
    };
    if prev_height.get() == u64::MAX {
        return Err(ConsensusVerificationError::PrevBlockIndexNotFound(block_id));
    }
    let current_height = prev_height.next_height();
    let random_seed = randomness_of_sealed_epoch(chain_config, &current_height, storage);
    let epoch_index = chain_config.epoch_index_from_height(&current_height);

    let target = match pos_data.target().to_target() {
        Some(t) => t,
        None => {
            return Err(ConsensusVerificationError::BitsToTargetConversionFailed);
        },
    };
    let pool_id = *pos_data.stake_pool_id();
    let pool_data = match storage.get_pool_data(pool_id) {
        Some(d) => d,
        None => {
            return Err(ConsensusVerificationError::PoolDataNotFound(pool_id));
        },
    };
    let pool_balance = match storage.get_pool_balance(pool_id) {
        Some(b) => b,
        None => {
            return Err(ConsensusVerificationError::PoolBalanceNotFound(pool_id));
        },
    };
    let hash_pos = match verify_vrf_and_get_output(
        epoch_index,
        random_seed,
        pos_data.vrf_data(),
        &pool_data.vrf_public_key,
        block_id,
    ) {
        Ok(h) => h,
        Err(e) => {
            return Err(e);
        },
    };
    // hash must lie under balance * target; an overflowing product
    // always admits a 64-bit hash
    let within = match pool_balance.into_atoms().checked_mul(target) {
        Some(product) => (hash_pos as u128) <= product,
        None => true,
    };
    if !within {
        return Err(ConsensusVerificationError::StakeKernelHashTooHigh);
    }
    Ok(())
}

/// Enforce the consensus rule the schedule sets for this block's
/// height: the block's data must be of the required kind and must
/// prove what it claims.
pub fn validate_consensus(
    chain_config: &ChainConfig,
    height: BlockHeight,
    header: &BlockHeader,
    storage: &StoreTx<'_>,
) -> (r: Result<(), ConsensusVerificationError>)
    requires
        chain_config.wf(),
        storage.wf(),
    ensures
        ({
            let required = crate::config::spec_upgrade_at(chain_config.net_upgrades.upgrades@, height.val);
            &&& (required is IgnoreConsensus && !(header.consensus_data is NoConsensus)
                ==> r == Result::<(), ConsensusVerificationError>::Err(
                    ConsensusVerificationError::ConsensusTypeMismatch(height),
                ))
            &&& (required is IgnoreConsensus && header.consensus_data is NoConsensus
                ==> r is Ok)
            &&& (required is PoW && !(header.consensus_data is PoW)
                ==> r == Result::<(), ConsensusVerificationError>::Err(
                    ConsensusVerificationError::ConsensusTypeMismatch(height),
                ))
            &&& (required is PoS && !(header.consensus_data is PoS)
                ==> r == Result::<(), ConsensusVerificationError>::Err(
                    ConsensusVerificationError::ConsensusTypeMismatch(height),
                ))
            &&& (required matches ConsensusUpgrade::PoW { initial_difficulty }
                ==> (header.consensus_data matches ConsensusData::PoW(pow)
                    ==> (pow.bits != initial_difficulty ==> r == Result::<(), ConsensusVerificationError>::Err(
                        ConsensusVerificationError::InvalidPoW,
                    ))
                    && (r is Ok ==> pow.bits == initial_difficulty
                        && (initial_difficulty.spec_target() matches Some(t)
                            ==> spec_pow_hash(header.spec_id()) <= t))
                    // a correctly mined block is owed acceptance
                    && (pow.bits == initial_difficulty
                        && (initial_difficulty.spec_target() matches Some(t)
                            ==> spec_pow_hash(header.spec_id()) <= t)
                        && initial_difficulty.spec_target() is Some
                        ==> r is Ok)))
        }),
{
    let required = chain_config.net_upgrades().consensus_upgrade_at_height(&height);
    match required {
        ConsensusUpgrade::IgnoreConsensus => {
            match header.consensus_data() {
                ConsensusData::NoConsensus => Ok(()),
                _ => Err(ConsensusVerificationError::ConsensusTypeMismatch(height)),
            }
        },
        ConsensusUpgrade::PoW { initial_difficulty } => {
            match header.consensus_data() {
                ConsensusData::PoW(pow) => {
                    if pow.bits().bits != initial_difficulty.bits {
                        return Err(ConsensusVerificationError::InvalidPoW);
                    }
                    match check_proof_of_work(header.get_id(), pow.bits()) {
                        Ok(true) => Ok(()),
                        Ok(false) => Err(ConsensusVerificationError::InvalidPoW),
                        Err(e) => Err(e),
                    }
                },
                _ => Err(ConsensusVerificationError::ConsensusTypeMismatch(height)),
            }
        },
        ConsensusUpgrade::PoS => {
            match header.consensus_data() {
                ConsensusData::PoS(pos) => check_proof_of_stake(chain_config, header, pos, storage),
                _ => Err(ConsensusVerificationError::ConsensusTypeMismatch(height)),
            }
        },
    }
}

} // verus!
