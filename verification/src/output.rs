//! Transaction outputs: the value they carry, the condition under
//! which they may be spent, and the data of a stake pool they may
//! declare.

use vstd::prelude::*;

use crate::amount::Amount;
use crate::hashing::{absorb, bytes_words, mix64, vec_words, DefaultHashAlgoStream, HashWords};
use crate::keys::{key_bytes_to_vec, seq32, KeyBytes32, PublicKey};
use crate::primitives::{BlockHeight, Id};
use crate::timestamp::BlockTimestamp;

verus! {

/// Who may spend an output.
#[derive(Debug, Clone, Copy, PartialEq, Eq, Structural)]
pub enum Destination {
    /// No verification: anyone may spend. For testing only.
    AnyoneCanSpend,
    /// Spendable by a signature under this key.
    PublicKey(PublicKey),
}

impl Destination {
    pub fn eq_dest(&self, other: &Destination) -> (r: bool)
        ensures
            r == (*self == *other),
    {
        *self == *other
    }
}

/// Byte-vector equality.
pub fn vec_u8_eq(a: &Vec<u8>, b: &Vec<u8>) -> (r: bool)
    ensures
        r == (a@ =~= b@),
{
    if a.len() != b.len() {
        return false;
    }
    let n = a.len();
    for i in 0..n
        invariant
            n == a@.len() == b@.len(),
            forall|j: int| 0 <= j < i ==> a@[j] == b@[j],
    {
        if a[i] != b[i] {
            return false;
        }
    }
    true
}

impl HashWords for Destination {
    open spec fn words(&self) -> Seq<u64> {
        match self {
            Destination::AnyoneCanSpend => seq![0u64],
            Destination::PublicKey(pk) => seq![1u64] + bytes_words(pk.spec_bytes()),
        }
    }

    fn hash_into(&self, stream: &mut DefaultHashAlgoStream) {
        match self {
            Destination::AnyoneCanSpend => {
                stream.write_u64(0u64);
                proof {
                    crate::hashing::lemma_absorb_push(old(stream)@, Seq::empty(), 0u64);
                    assert(Seq::<u64>::empty().push(0u64) =~= seq![0u64]);
                }
            },
            Destination::PublicKey(pk) => {
                stream.write_u64(1u64);
                proof {
                    crate::hashing::lemma_absorb_push(old(stream)@, Seq::empty(), 1u64);
                    assert(Seq::<u64>::empty().push(1u64) =~= seq![1u64]);
                }
                match &pk.pub_key {
                    crate::keys::PublicKeyHolder::RistrettoSchnorr(words) => {
                        let bytes = key_bytes_to_vec(words);
                        stream.write_bytes(&bytes);
                        proof {
                            crate::hashing::lemma_absorb_concat(
                                old(stream)@,
                                seq![1u64],
                                bytes_words(bytes@),
                            );
                        }
                    },
                }
            },
        }
    }
}

/// The value an output carries: coins, a transfer of an existing
/// token, or the issuance of a new one.
#[derive(Debug, Clone, Copy, PartialEq, Eq, Structural)]
pub enum OutputValue {
    Coin(Amount),
    /// Transfer of the token issued by the named transaction.
    TokenTransfer(Id, Amount),
    /// Issuance of a new token with the given total supply; the token
    /// id is the issuing transaction's id.
    TokenIssuance(Amount),
}

impl OutputValue {
    pub fn coin_amount(&self) -> (r: Option<Amount>)
        ensures
            r == (match *self {
                OutputValue::Coin(a) => Some(a),
                _ => None::<Amount>,
            }),
    {
        match self {
            OutputValue::Coin(a) => Some(*a),
            _ => None,
        }
    }
}

impl HashWords for OutputValue {
    open spec fn words(&self) -> Seq<u64> {
        match *self {
            OutputValue::Coin(a) => seq![0u64, a.atoms as u64, (a.atoms >> 64) as u64],
            OutputValue::TokenTransfer(id, a) => seq![1u64, id.value, a.atoms as u64, (a.atoms >> 64) as u64],
            OutputValue::TokenIssuance(a) => seq![2u64, a.atoms as u64, (a.atoms >> 64) as u64],
        }
    }

    fn hash_into(&self, stream: &mut DefaultHashAlgoStream) {
        let ghost s0 = stream@;
        match self {
            OutputValue::Coin(a) => {
                stream.write_u64(0u64);
                stream.write_u128(a.atoms);
            },
            OutputValue::TokenTransfer(id, a) => {
                stream.write_u64(1u64);
                stream.write_u64(id.value);
                stream.write_u128(a.atoms);
            },
            OutputValue::TokenIssuance(a) => {
                stream.write_u64(2u64);
                stream.write_u128(a.atoms);
            },
        }
        proof {
            lemma_absorb_small(s0, self.words());
        }
    }
}

/// Unfold `absorb` over word sequences of length up to four; used to
/// discharge the digest contracts of small fixed shapes.
pub proof fn lemma_absorb_small(s: u64, ws: Seq<u64>)
    requires
        1 <= ws.len() <= 4,
    ensures
        ws.len() == 1 ==> absorb(s, ws) == mix64(s, ws[0]),
        ws.len() == 2 ==> absorb(s, ws) == mix64(mix64(s, ws[0]), ws[1]),
        ws.len() == 3 ==> absorb(s, ws) == mix64(mix64(mix64(s, ws[0]), ws[1]), ws[2]),
        ws.len() == 4 ==> absorb(s, ws) == mix64(mix64(mix64(mix64(s, ws[0]), ws[1]), ws[2]), ws[3]),
    decreases ws.len(),
{
    reveal_with_fuel(crate::hashing::absorb, 5);
    if ws.len() == 1 {
        assert(ws.drop_first() =~= Seq::<u64>::empty());
    } else if ws.len() == 2 {
        lemma_absorb_small(mix64(s, ws[0]), ws.drop_first());
        assert(ws.drop_first()[0] == ws[1]);
    } else if ws.len() == 3 {
        lemma_absorb_small(mix64(s, ws[0]), ws.drop_first());
        assert(ws.drop_first()[0] == ws[1] && ws.drop_first()[1] == ws[2]);
    } else {
        lemma_absorb_small(mix64(s, ws[0]), ws.drop_first());
        assert(ws.drop_first()[0] == ws[1] && ws.drop_first()[1] == ws[2] && ws.drop_first()[2] == ws[3]);
    }
}

/// A time lock on an output: spendable only at or after the named
/// height or timestamp.
#[derive(Debug, Clone, Copy, PartialEq, Eq, Structural)]
pub enum OutputTimeLock {
    UntilHeight(BlockHeight),
    UntilTime(BlockTimestamp),
}

impl HashWords for OutputTimeLock {
    open spec fn words(&self) -> Seq<u64> {
        match *self {
            OutputTimeLock::UntilHeight(h) => seq![0u64, h.val],
            OutputTimeLock::UntilTime(t) => seq![1u64, t.timestamp as u64],
        }
    }

    fn hash_into(&self, stream: &mut DefaultHashAlgoStream) {
        let ghost s0 = stream@;
        match self {
            OutputTimeLock::UntilHeight(h) => {
                stream.write_u64(0u64);
                stream.write_u64(h.val);
            },
            OutputTimeLock::UntilTime(t) => {
                stream.write_u64(1u64);
                stream.write_u32(t.timestamp);
            },
        }
        proof {
            lemma_absorb_small(s0, self.words());
        }
    }
}

/// The declaration a stake pool is created with.
#[derive(Debug, Clone, Copy, PartialEq, Eq, Structural)]
pub struct StakePoolData {
    /// The pledge staked at creation.
    pub value: Amount,
    /// Who may decommission the pool.
    pub decommission_key: Destination,
    /// The pool's VRF public key.
    pub vrf_public_key: KeyBytes32,
    /// Operator margin, in thousandths.
    pub margin_ratio_per_thousand: u16,
    /// Operator cost charged each epoch.
    pub cost_per_epoch: Amount,
}

impl StakePoolData {
    pub fn new(
        value: Amount,
        decommission_key: Destination,
        vrf_public_key: KeyBytes32,
        margin_ratio_per_thousand: u16,
        cost_per_epoch: Amount,
    ) -> (r: StakePoolData)
        ensures
            r.value == value,
            r.decommission_key == decommission_key,
            r.vrf_public_key == vrf_public_key,
            r.margin_ratio_per_thousand == margin_ratio_per_thousand,
            r.cost_per_epoch == cost_per_epoch,
    {
        StakePoolData { value, decommission_key, vrf_public_key, margin_ratio_per_thousand, cost_per_epoch }
    }

    pub fn value(&self) -> (r: Amount)
        ensures
            r == self.value,
    {
        self.value
    }

    pub fn decommission_key(&self) -> (r: &Destination)
        ensures
            r == self.decommission_key,
    {
        &self.decommission_key
    }

    pub fn vrf_public_key(&self) -> (r: KeyBytes32)
        ensures
            r == self.vrf_public_key,
    {
        self.vrf_public_key
    }

    pub fn margin_ratio_per_thousand(&self) -> (r: u16)
        ensures
            r == self.margin_ratio_per_thousand,
    {
        self.margin_ratio_per_thousand
    }

    pub fn cost_per_epoch(&self) -> (r: Amount)
        ensures
            r == self.cost_per_epoch,
    {
        self.cost_per_epoch
    }
}

impl HashWords for StakePoolData {
    open spec fn words(&self) -> Seq<u64> {
        seq![self.value.atoms as u64, (self.value.atoms >> 64) as u64]
            + self.decommission_key.words()
            + bytes_words(seq32(self.vrf_public_key))
            + seq![self.margin_ratio_per_thousand as u64, self.cost_per_epoch.atoms as u64, (self.cost_per_epoch.atoms >> 64) as u64]
    }

    fn hash_into(&self, stream: &mut DefaultHashAlgoStream) {
        let ghost s0 = stream@;
        let ghost w1 = seq![self.value.atoms as u64, (self.value.atoms >> 64) as u64];
        stream.write_u128(self.value.atoms);
        proof {
            lemma_absorb_small(s0, w1);
        }
        self.decommission_key.hash_into(stream);
        proof {
            crate::hashing::lemma_absorb_concat(s0, w1, self.decommission_key.words());
        }
        let ghost w2 = w1 + self.decommission_key.words();
        let vrf_bytes = key_bytes_to_vec(&self.vrf_public_key);
        stream.write_bytes(&vrf_bytes);
        proof {
            crate::hashing::lemma_absorb_concat(s0, w2, bytes_words(seq32(self.vrf_public_key)));
        }
        let ghost w3 = w2 + bytes_words(seq32(self.vrf_public_key));
        let ghost w4 = seq![self.margin_ratio_per_thousand as u64, self.cost_per_epoch.atoms as u64, (self.cost_per_epoch.atoms >> 64) as u64];
        stream.write_u64(self.margin_ratio_per_thousand as u64);
        stream.write_u128(self.cost_per_epoch.atoms);
        proof {
            lemma_absorb_small(absorb(s0, w3), w4);
            crate::hashing::lemma_absorb_concat(s0, w3, w4);
            assert(((w1 + self.decommission_key.words()) + bytes_words(seq32(self.vrf_public_key))) + w4
                =~= self.words());
        }
    }
}

/// Why an output exists and under which rule it can be consumed.
#[derive(Debug, Clone, Copy, PartialEq, Eq, Structural)]
pub enum OutputPurpose {
    /// Plainly spendable by its destination.
    Transfer(Destination),
    /// Spendable by its destination once the lock has expired.
    LockThenTransfer(Destination, OutputTimeLock),
    /// Provably unspendable; the value is destroyed.
    Burn,
    /// Creates a stake pool holding the output's value.
    StakePool(StakePoolData),
    /// Restakes an existing pool's balance while producing a block.
    ProduceBlockFromStake(Destination, Id),
}

impl OutputPurpose {
    /// The destination that must sign to spend, if any.
    pub fn destination(&self) -> (r: Option<&Destination>)
        ensures
            r == (match self {
                OutputPurpose::Transfer(d) => Some(d),
                OutputPurpose::LockThenTransfer(d, _) => Some(d),
                OutputPurpose::Burn => None::<&Destination>,
                OutputPurpose::StakePool(d) => Some(&d.decommission_key),
                OutputPurpose::ProduceBlockFromStake(d, _) => Some(d),
            }),
    {
        match self {
            OutputPurpose::Transfer(d) => Some(d),
            OutputPurpose::LockThenTransfer(d, _) => Some(d),
            OutputPurpose::Burn => None,
            OutputPurpose::StakePool(d) => Some(&d.decommission_key),
            OutputPurpose::ProduceBlockFromStake(d, _) => Some(d),
        }
    }
}

impl HashWords for OutputPurpose {
    open spec fn words(&self) -> Seq<u64> {
        match self {
            OutputPurpose::Transfer(d) => seq![0u64] + d.words(),
            OutputPurpose::LockThenTransfer(d, l) => seq![1u64] + d.words() + l.words(),
            OutputPurpose::Burn => seq![2u64],
            OutputPurpose::StakePool(d) => seq![3u64] + d.words(),
            OutputPurpose::ProduceBlockFromStake(d, id) => seq![4u64] + d.words() + seq![id.value],
        }
    }

    fn hash_into(&self, stream: &mut DefaultHashAlgoStream) {
        let ghost s0 = stream@;
        match self {
            OutputPurpose::Transfer(d) => {
                stream.write_u64(0u64);
                proof {
                    lemma_absorb_small(s0, seq![0u64]);
                }
                d.hash_into(stream);
                proof {
                    crate::hashing::lemma_absorb_concat(s0, seq![0u64], d.words());
                }
            },
            OutputPurpose::LockThenTransfer(d, l) => {
                stream.write_u64(1u64);
                proof {
                    lemma_absorb_small(s0, seq![1u64]);
                }
                d.hash_into(stream);
                proof {
                    crate::hashing::lemma_absorb_concat(s0, seq![1u64], d.words());
                }
                l.hash_into(stream);
                proof {
                    crate::hashing::lemma_absorb_concat(s0, seq![1u64] + d.words(), l.words());
                    assert((seq![1u64] + d.words()) + l.words() =~= self.words());
                }
            },
            OutputPurpose::Burn => {
                stream.write_u64(2u64);
                proof {
                    lemma_absorb_small(s0, seq![2u64]);
                }
            },
            OutputPurpose::StakePool(d) => {
                stream.write_u64(3u64);
                proof {
                    lemma_absorb_small(s0, seq![3u64]);
                }
                d.hash_into(stream);
                proof {
                    crate::hashing::lemma_absorb_concat(s0, seq![3u64], d.words());
                }
            },
            OutputPurpose::ProduceBlockFromStake(d, id) => {
                stream.write_u64(4u64);
                proof {
                    lemma_absorb_small(s0, seq![4u64]);
                }
                d.hash_into(stream);
                proof {
                    crate::hashing::lemma_absorb_concat(s0, seq![4u64], d.words());
                }
                stream.write_u64(id.value);
                proof {
                    crate::hashing::lemma_absorb_push(s0, seq![4u64] + d.words(), id.value);
                    assert((seq![4u64] + d.words()).push(id.value) =~= self.words());
                }
            },
        }
    }
}

/// One output of a transaction or a block reward.
#[derive(Debug, Clone, Copy, PartialEq, Eq, Structural)]
pub struct TxOutput {
    pub value: OutputValue,
    pub purpose: OutputPurpose,
}

impl TxOutput {
    pub fn new(value: OutputValue, purpose: OutputPurpose) -> (r: TxOutput)
        ensures
            r.value == value,
            r.purpose == purpose,
    {
        TxOutput { value, purpose }
    }

    pub fn value(&self) -> (r: &OutputValue)
        ensures
            r == self.value,
    {
        &self.value
    }

    pub fn purpose(&self) -> (r: &OutputPurpose)
        ensures
            r == self.purpose,
    {
        &self.purpose
    }

    pub fn destination(&self) -> (r: Option<&Destination>)
        ensures
            r == (match self.purpose {
                OutputPurpose::Transfer(d) => Some(&self.purpose->Transfer_0),
                OutputPurpose::LockThenTransfer(d, _) => Some(&self.purpose->LockThenTransfer_0),
                OutputPurpose::Burn => None::<&Destination>,
                OutputPurpose::StakePool(d) => Some(&self.purpose->StakePool_0.decommission_key),
                OutputPurpose::ProduceBlockFromStake(d, _) => Some(&self.purpose->ProduceBlockFromStake_0),
            }),
    {
        self.purpose.destination()
    }
}

impl HashWords for TxOutput {
    open spec fn words(&self) -> Seq<u64> {
        self.value.words() + self.purpose.words()
    }

    fn hash_into(&self, stream: &mut DefaultHashAlgoStream) {
        let ghost s0 = stream@;
        self.value.hash_into(stream);
        self.purpose.hash_into(stream);
        proof {
            crate::hashing::lemma_absorb_concat(s0, self.value.words(), self.purpose.words());
        }
    }
}

} // verus!
