//! Transactions: inputs referencing outpoints, outputs, and the
//! signed form carrying one witness per input.

use vstd::prelude::*;

use crate::hashing::{
    absorb, bytes_words, hash_vec, lemma_absorb_concat, lemma_absorb_push, vec_words,
    DefaultHashAlgoStream, HashWords, HASH_STREAM_INIT,
};
use crate::keys::Signature;
use crate::output::{lemma_absorb_small, TxOutput};
use crate::primitives::{Id, OutPoint};

verus! {

/// One input: a reference to the output it spends.
#[derive(Debug, Clone, Copy, PartialEq, Eq, Structural)]
pub struct TxInput {
    pub outpoint: OutPoint,
}

impl TxInput {
    pub fn new(outpoint: OutPoint) -> (r: TxInput)
        ensures
            r.outpoint == outpoint,
    {
        TxInput { outpoint }
    }

    pub fn outpoint(&self) -> (r: &OutPoint)
        ensures
            r == self.outpoint,
    {
        &self.outpoint
    }

    pub fn get_outpoint(&self) -> (r: &OutPoint)
        ensures
            r == self.outpoint,
    {
        &self.outpoint
    }
}

impl HashWords for TxInput {
    open spec fn words(&self) -> Seq<u64> {
        seq![
            self.outpoint.spec_key() as u64,
            (self.outpoint.spec_key() >> 64) as u64,
        ]
    }

    fn hash_into(&self, stream: &mut DefaultHashAlgoStream) {
        let ghost s0 = stream@;
        stream.write_u128(self.outpoint.key());
        proof {
            lemma_absorb_small(s0, self.words());
        }
    }
}

impl HashWords for OutPoint {
    open spec fn words(&self) -> Seq<u64> {
        seq![
            self.spec_key() as u64,
            (self.spec_key() >> 64) as u64,
        ]
    }

    fn hash_into(&self, stream: &mut DefaultHashAlgoStream) {
        let ghost s0 = stream@;
        stream.write_u128(self.key());
        proof {
            lemma_absorb_small(s0, self.words());
        }
    }
}

#[derive(Debug, Clone, Copy, PartialEq, Eq, Structural)]
pub enum TransactionCreationError {
    Unknown,
}

/// A transaction: flags, inputs, outputs and a lock time. Its
/// identity is the digest of that content.
#[derive(Debug, Clone, PartialEq, Eq)]
pub struct Transaction {
    pub flags: u32,
    pub inputs: Vec<TxInput>,
    pub outputs: Vec<TxOutput>,
    pub lock_time: u32,
}

impl Transaction {
    pub fn new(
        flags: u32,
        inputs: Vec<TxInput>,
        outputs: Vec<TxOutput>,
        lock_time: u32,
    ) -> (r: Result<Transaction, TransactionCreationError>)
        ensures
            r matches Ok(t) && t == (Transaction { flags, inputs, outputs, lock_time }),
    {
        Ok(Transaction { flags, inputs, outputs, lock_time })
    }

    pub fn flags(&self) -> (r: u32)
        ensures
            r == self.flags,
    {
        self.flags
    }

    pub fn get_flags(&self) -> (r: u32)
        ensures
            r == self.flags,
    {
        self.flags
    }

    pub fn inputs(&self) -> (r: &Vec<TxInput>)
        ensures
            r == self.inputs,
    {
        &self.inputs
    }

    pub fn get_inputs(&self) -> (r: &Vec<TxInput>)
        ensures
            r == self.inputs,
    {
        &self.inputs
    }

    pub fn outputs(&self) -> (r: &Vec<TxOutput>)
        ensures
            r == self.outputs,
    {
        &self.outputs
    }

    pub fn get_outputs(&self) -> (r: &Vec<TxOutput>)
        ensures
            r == self.outputs,
    {
        &self.outputs
    }

    pub fn lock_time(&self) -> (r: u32)
        ensures
            r == self.lock_time,
    {
        self.lock_time
    }

    pub fn get_lock_time(&self) -> (r: u32)
        ensures
            r == self.lock_time,
    {
        self.lock_time
    }

    /// The replace-by-fee flag.
    pub fn is_replaceable(&self) -> (r: bool)
        ensures
            r == (self.flags & 1u32 != 0),
    {
        (self.flags & 1u32) != 0
    }

    /// The identity of this transaction: the digest of its content.
    pub open spec fn spec_id(self) -> Id {
        txv_id(self@)
    }

    /// An owned copy with the same content, hence the same identity.
    pub fn duplicate(&self) -> (r: Transaction)
        ensures
            r@ == self@,
    {
        let r = Transaction {
            flags: self.flags,
            inputs: dup_inputs(&self.inputs),
            outputs: dup_outputs(&self.outputs),
            lock_time: self.lock_time,
        };
        r
    }

    pub fn get_id(&self) -> (r: Id)
        ensures
            r == self.spec_id(),
    {
        let mut stream = DefaultHashAlgoStream::new();
        self.hash_into(&mut stream);
        Id { value: stream.finalize() }
    }

    /// Nominal serialized size in bytes.
    pub open spec fn spec_encoded_size(self) -> int {
        13 + 37 * self.inputs@.len() + outputs_size(self.outputs@)
    }

    pub fn encoded_size(&self) -> (r: usize)
        requires
            self.spec_encoded_size() <= usize::MAX,
        ensures
            r == self.spec_encoded_size(),
    {
        let mut total: usize = 13;
        let n_in = self.inputs.len();
        assert(37 * n_in <= 37 * self.inputs@.len()) by (nonlinear_arith)
            requires n_in == self.inputs@.len();
        proof {
            lemma_outputs_size_nonneg(self.outputs@, self.outputs@.len() as int);
            assert(self.outputs@.take(self.outputs@.len() as int) =~= self.outputs@);
        }
        let mut i: usize = 0;
        while i < n_in
            invariant
                n_in == self.inputs@.len(),
                i <= n_in,
                total == 13 + 37 * i,
                self.spec_encoded_size() <= usize::MAX,
                outputs_size(self.outputs@) >= 0,
            decreases n_in - i,
        {
            assert(37 * (i + 1) <= 37 * n_in) by (nonlinear_arith)
                requires i + 1 <= n_in;
            total = total + 37;
            i = i + 1;
        }
        let n_out = self.outputs.len();
        let mut j: usize = 0;
        while j < n_out
            invariant
                n_out == self.outputs@.len(),
                j <= n_out,
                total == 13 + 37 * self.inputs@.len() + outputs_size(self.outputs@.take(j as int)),
                self.spec_encoded_size() <= usize::MAX,
            decreases n_out - j,
        {
            proof {
                lemma_outputs_size_take(self.outputs@, j as int);
                lemma_outputs_size_prefix_bound(self.outputs@, j + 1);
            }
            let osz = self.outputs[j].encoded_size();
            total = total + osz;
            j = j + 1;
        }
        proof {
            assert(self.outputs@.take(n_out as int) =~= self.outputs@);
        }
        total
    }
}

/// Combined nominal size of a sequence of outputs.
pub open spec fn outputs_size(s: Seq<TxOutput>) -> int
    decreases s.len(),
{
    if s.len() == 0 {
        0
    } else {
        outputs_size(s.drop_last()) + s.last().spec_encoded_size()
    }
}

pub proof fn lemma_outputs_size_nonneg(s: Seq<TxOutput>, n: int)
    requires
        0 <= n <= s.len(),
    ensures
        outputs_size(s.take(n)) >= 0,
    decreases n,
{
    if n > 0 {
        assert(s.take(n).drop_last() =~= s.take(n - 1));
        assert(s.take(n).last() == s[n - 1]);
        lemma_outputs_size_nonneg(s, n - 1);
    } else {
        assert(s.take(0) =~= Seq::<TxOutput>::empty());
    }
}

pub proof fn lemma_outputs_size_take(s: Seq<TxOutput>, j: int)
    requires
        0 <= j < s.len(),
    ensures
        outputs_size(s.take(j + 1)) == outputs_size(s.take(j)) + s[j].spec_encoded_size(),
{
    assert(s.take(j + 1).drop_last() =~= s.take(j));
    assert(s.take(j + 1).last() == s[j]);
}

/// A prefix of the outputs never outweighs the whole.
pub proof fn lemma_outputs_size_prefix_bound(s: Seq<TxOutput>, n: int)
    requires
        0 <= n <= s.len(),
    ensures
        outputs_size(s.take(n)) <= outputs_size(s),
    decreases s.len() - n,
{
    if n == s.len() {
        assert(s.take(n) =~= s);
    } else {
        lemma_outputs_size_take(s, n);
        lemma_outputs_size_prefix_bound(s, n + 1);
    }
}

impl TxOutput {
    /// Nominal serialized size in bytes.
    pub open spec fn spec_encoded_size(self) -> int {
        let value_size: int = match self.value {
            crate::output::OutputValue::Coin(_) => 17,
            crate::output::OutputValue::TokenTransfer(_, _) => 25,
            crate::output::OutputValue::TokenIssuance(_) => 17,
        };
        let dest_size = |d: crate::output::Destination| -> int {
            match d {
                crate::output::Destination::AnyoneCanSpend => 1,
                crate::output::Destination::PublicKey(_) => 34,
            }
        };
        let purpose_size: int = match self.purpose {
            crate::output::OutputPurpose::Transfer(d) => 1 + dest_size(d),
            crate::output::OutputPurpose::LockThenTransfer(d, _) => 10 + dest_size(d),
            crate::output::OutputPurpose::Burn => 1,
            crate::output::OutputPurpose::StakePool(data) => 67 + dest_size(data.decommission_key),
            crate::output::OutputPurpose::ProduceBlockFromStake(d, _) => 9 + dest_size(d),
        };
        value_size + purpose_size
    }

    pub fn encoded_size(&self) -> (r: usize)
        requires
            self.spec_encoded_size() <= usize::MAX,
        ensures
            r == self.spec_encoded_size(),
    {
        let value_size: usize = match &self.value {
            crate::output::OutputValue::Coin(_) => 17,
            crate::output::OutputValue::TokenTransfer(_, _) => 25,
            crate::output::OutputValue::TokenIssuance(_) => 17,
        };
        let purpose_size: usize = match &self.purpose {
            crate::output::OutputPurpose::Transfer(d) => 1 + dest_size_exec(d),
            crate::output::OutputPurpose::LockThenTransfer(d, _) => 10 + dest_size_exec(d),
            crate::output::OutputPurpose::Burn => 1,
            crate::output::OutputPurpose::StakePool(data) => 67 + dest_size_exec(&data.decommission_key),
            crate::output::OutputPurpose::ProduceBlockFromStake(d, _) => 9 + dest_size_exec(d),
        };
        value_size + purpose_size
    }
}

fn dest_size_exec(d: &crate::output::Destination) -> (r: usize)
    ensures
        r as int == (match *d {
            crate::output::Destination::AnyoneCanSpend => 1int,
            crate::output::Destination::PublicKey(_) => 34int,
        }),
{
    match d {
        crate::output::Destination::AnyoneCanSpend => 1,
        crate::output::Destination::PublicKey(_) => 34,
    }
}

/// The content view of a transaction.
pub ghost struct TransactionV {
    pub flags: u32,
    pub inputs: Seq<TxInput>,
    pub outputs: Seq<TxOutput>,
    pub lock_time: u32,
}

impl View for Transaction {
    type V = TransactionV;

    open spec fn view(&self) -> TransactionV {
        TransactionV {
            flags: self.flags,
            inputs: self.inputs@,
            outputs: self.outputs@,
            lock_time: self.lock_time,
        }
    }
}

/// The words a transaction's content feeds into the hasher.
pub open spec fn txv_words(v: TransactionV) -> Seq<u64> {
    seq![1u64, v.flags as u64] + vec_words(v.inputs) + vec_words(v.outputs) + seq![v.lock_time as u64]
}

/// The identity of a transaction with the given content.
pub open spec fn txv_id(v: TransactionV) -> Id {
    Id { value: absorb(HASH_STREAM_INIT, txv_words(v)) }
}

/// Copy a vector of inputs.
pub fn dup_inputs(v: &Vec<TxInput>) -> (r: Vec<TxInput>)
    ensures
        r@ == v@,
{
    let mut out: Vec<TxInput> = Vec::new();
    let n = v.len();
    for i in 0..n
        invariant
            n == v@.len(),
            out@ =~= v@.take(i as int),
    {
        out.push(v[i]);
        proof {
            assert(out@ =~= v@.take(i + 1));
        }
    }
    proof {
        assert(v@.take(n as int) =~= v@);
    }
    out
}

/// Copy a vector of outputs.
pub fn dup_outputs(v: &Vec<TxOutput>) -> (r: Vec<TxOutput>)
    ensures
        r@ == v@,
{
    let mut out: Vec<TxOutput> = Vec::new();
    let n = v.len();
    for i in 0..n
        invariant
            n == v@.len(),
            out@ =~= v@.take(i as int),
    {
        out.push(v[i]);
        proof {
            assert(out@ =~= v@.take(i + 1));
        }
    }
    proof {
        assert(v@.take(n as int) =~= v@);
    }
    out
}

impl HashWords for Transaction {
    open spec fn words(&self) -> Seq<u64> {
        txv_words((*self)@)
    }

    fn hash_into(&self, stream: &mut DefaultHashAlgoStream) {
        let ghost s0 = stream@;
        let ghost w1 = seq![1u64, self.flags as u64];
        stream.write_u64(1u64);
        stream.write_u32(self.flags);
        proof {
            lemma_absorb_small(s0, w1);
        }
        hash_vec(stream, &self.inputs);
        proof {
            lemma_absorb_concat(s0, w1, vec_words(self.inputs@));
        }
        let ghost w2 = w1 + vec_words(self.inputs@);
        hash_vec(stream, &self.outputs);
        proof {
            lemma_absorb_concat(s0, w2, vec_words(self.outputs@));
        }
        let ghost w3 = w2 + vec_words(self.outputs@);
        stream.write_u32(self.lock_time);
        proof {
            lemma_absorb_push(s0, w3, self.lock_time as u64);
            assert(w3.push(self.lock_time as u64) =~= self.words());
        }
    }
}

/// The signature modes a witness commits to.
#[derive(Debug, Clone, Copy, PartialEq, Eq, Structural)]
pub enum InputsMode {
    CommitWhoPays,
    AnyoneCanPay,
}

#[derive(Debug, Clone, Copy, PartialEq, Eq, Structural)]
pub enum OutputsMode {
    All,
    NoOutputs,
    Single,
}

/// Which parts of a transaction a signature covers.
#[derive(Debug, Clone, Copy, PartialEq, Eq, Structural)]
pub struct SigHashType {
    pub inputs_mode: InputsMode,
    pub outputs_mode: OutputsMode,
}

impl SigHashType {
    /// The default mode: commit to every input and output.
    pub fn all() -> (r: SigHashType)
        ensures
            r.inputs_mode == InputsMode::CommitWhoPays,
            r.outputs_mode == OutputsMode::All,
    {
        SigHashType { inputs_mode: InputsMode::CommitWhoPays, outputs_mode: OutputsMode::All }
    }

    pub fn inputs_mode(&self) -> (r: InputsMode)
        ensures
            r == self.inputs_mode,
    {
        self.inputs_mode
    }

    pub fn outputs_mode(&self) -> (r: OutputsMode)
        ensures
            r == self.outputs_mode,
    {
        self.outputs_mode
    }

    pub open spec fn spec_word(self) -> u64 {
        ((match self.inputs_mode {
            InputsMode::CommitWhoPays => 0u64,
            InputsMode::AnyoneCanPay => 1u64,
        }) + (match self.outputs_mode {
            OutputsMode::All => 0u64,
            OutputsMode::NoOutputs => 2u64,
            OutputsMode::Single => 4u64,
        })) as u64
    }

    pub fn word(&self) -> (r: u64)
        ensures
            r == self.spec_word(),
    {
        let a: u64 = match self.inputs_mode {
            InputsMode::CommitWhoPays => 0,
            InputsMode::AnyoneCanPay => 1,
        };
        let b: u64 = match self.outputs_mode {
            OutputsMode::All => 0,
            OutputsMode::NoOutputs => 2,
            OutputsMode::Single => 4,
        };
        a + b
    }
}

/// A standard signature over a chosen sighash mode.
#[derive(Debug, Clone, Copy, PartialEq, Eq, Structural)]
pub struct StandardInputSignature {
    pub sighash_type: SigHashType,
    pub signature: Signature,
}

impl StandardInputSignature {
    pub fn new(sighash_type: SigHashType, signature: Signature) -> (r: StandardInputSignature)
        ensures
            r.sighash_type == sighash_type,
            r.signature == signature,
    {
        StandardInputSignature { sighash_type, signature }
    }

    pub fn sighash_type(&self) -> (r: SigHashType)
        ensures
            r == self.sighash_type,
    {
        self.sighash_type
    }
}

/// The witness attached to one input.
#[derive(Debug, Clone, PartialEq, Eq)]
pub enum InputWitness {
    NoSignature(Option<Vec<u8>>),
    Standard(StandardInputSignature),
}

/// The content view of a witness.
pub ghost enum WitnessV {
    NoSignature(Option<Seq<u8>>),
    Standard(StandardInputSignature),
}

impl View for InputWitness {
    type V = WitnessV;

    open spec fn view(&self) -> WitnessV {
        match self {
            InputWitness::NoSignature(d) => WitnessV::NoSignature(
                match d {
                    Some(v) => Some(v@),
                    None => None,
                },
            ),
            InputWitness::Standard(s) => WitnessV::Standard(*s),
        }
    }
}

/// The words a witness's content feeds into the hasher.
pub open spec fn witv_words(v: WitnessV) -> Seq<u64> {
    match v {
        WitnessV::NoSignature(_) => seq![0u64],
        WitnessV::Standard(s) => seq![1u64, s.sighash_type.spec_word()]
            + bytes_words(s.signature.spec_bytes()),
    }
}

/// Copy a vector of witnesses; content is preserved.
pub fn dup_witnesses(v: &Vec<InputWitness>) -> (r: Vec<InputWitness>)
    ensures
        r@.len() == v@.len(),
        forall|i: int| 0 <= i < v@.len() ==> #[trigger] r@[i]@ == v@[i]@,
{
    let mut out: Vec<InputWitness> = Vec::new();
    let n = v.len();
    for i in 0..n
        invariant
            n == v@.len(),
            out@.len() == i,
            forall|j: int| 0 <= j < i ==> #[trigger] out@[j]@ == v@[j]@,
    {
        let w = match &v[i] {
            InputWitness::NoSignature(d) => {
                let dd = match d {
                    Some(bytes) => {
                        let mut copy: Vec<u8> = Vec::new();
                        let m = bytes.len();
                        for k in 0..m
                            invariant
                                m == bytes@.len(),
                                copy@ =~= bytes@.take(k as int),
                        {
                            copy.push(bytes[k]);
                            proof {
                                assert(copy@ =~= bytes@.take(k + 1));
                            }
                        }
                        proof {
                            assert(bytes@.take(m as int) =~= bytes@);
                        }
                        Some(copy)
                    },
                    None => None,
                };
                InputWitness::NoSignature(dd)
            },
            InputWitness::Standard(s) => InputWitness::Standard(*s),
        };
        out.push(w);
    }
    out
}

impl HashWords for InputWitness {
    open spec fn words(&self) -> Seq<u64> {
        witv_words((*self)@)
    }

    fn hash_into(&self, stream: &mut DefaultHashAlgoStream) {
        let ghost s0 = stream@;
        match self {
            InputWitness::NoSignature(_) => {
                stream.write_u64(0u64);
                proof {
                    lemma_absorb_small(s0, self.words());
                }
            },
            InputWitness::Standard(s) => {
                let ghost w1 = seq![1u64, s.sighash_type.spec_word()];
                stream.write_u64(1u64);
                stream.write_u64(s.sighash_type.word());
                proof {
                    lemma_absorb_small(s0, w1);
                }
                match &s.signature {
                    Signature::RistrettoSchnorrSig(b) => {
                        let bytes = crate::keys::sig_bytes_to_vec(b);
                        stream.write_bytes(&bytes);
                        proof {
                            lemma_absorb_concat(s0, w1, bytes_words(bytes@));
                        }
                    },
                }
            },
        }
    }
}

/// A transaction together with one witness per input.
#[derive(Debug, Clone, PartialEq, Eq)]
pub struct SignedTransaction {
    pub transaction: Transaction,
    pub signatures: Vec<InputWitness>,
}

/// The content view of a signed transaction.
pub ghost struct SignedTxV {
    pub transaction: TransactionV,
    pub signatures: Seq<WitnessV>,
}

impl View for SignedTransaction {
    type V = SignedTxV;

    open spec fn view(&self) -> SignedTxV {
        SignedTxV {
            transaction: self.transaction@,
            signatures: self.signatures@.map_values(|w: InputWitness| w@),
        }
    }
}

/// The words a signed transaction's content feeds into the hasher:
/// the transaction's, then the witnesses' behind a length prefix.
pub open spec fn stxv_words(v: SignedTxV) -> Seq<u64> {
    txv_words(v.transaction) + seq![v.signatures.len() as u64] + witv_seq_words(v.signatures)
}

pub open spec fn witv_seq_words(s: Seq<WitnessV>) -> Seq<u64>
    decreases s.len(),
{
    if s.len() == 0 {
        Seq::empty()
    } else {
        witv_words(s[0]) + witv_seq_words(s.drop_first())
    }
}

/// Exec-level witness words agree with their views'.
pub proof fn lemma_witness_seq_words(s: Seq<InputWitness>)
    ensures
        crate::hashing::seq_words(s) == witv_seq_words(s.map_values(|w: InputWitness| w@)),
    decreases s.len(),
{
    let m = s.map_values(|w: InputWitness| w@);
    if s.len() == 0 {
        assert(m.len() == 0);
    } else {
        lemma_witness_seq_words(s.drop_first());
        assert(m[0] == s[0]@);
        assert(m.drop_first() =~= s.drop_first().map_values(|w: InputWitness| w@));
    }
}

#[derive(Debug, Clone, Copy, PartialEq, Eq, Structural)]
pub enum TransactionSize {
    ScriptedTransaction(usize),
}

impl SignedTransaction {
    /// Well-formed: one witness per input.
    pub open spec fn wf(self) -> bool {
        self.signatures@.len() == self.transaction.inputs@.len()
    }

    pub fn new(transaction: Transaction, signatures: Vec<InputWitness>) -> (r: Result<
        SignedTransaction,
        TransactionCreationError,
    >)
        ensures
            signatures@.len() == transaction.inputs@.len()
                ==> (r matches Ok(t) && t == (SignedTransaction { transaction, signatures }) && t.wf()),
            signatures@.len() != transaction.inputs@.len()
                ==> r is Err,
    {
        if signatures.len() == transaction.inputs.len() {
            Ok(SignedTransaction { transaction, signatures })
        } else {
            Err(TransactionCreationError::Unknown)
        }
    }

    pub fn transaction(&self) -> (r: &Transaction)
        ensures
            r == self.transaction,
    {
        &self.transaction
    }

    pub fn signatures(&self) -> (r: &Vec<InputWitness>)
        ensures
            r == self.signatures,
    {
        &self.signatures
    }

    pub fn inputs(&self) -> (r: &Vec<TxInput>)
        ensures
            r == self.transaction.inputs,
    {
        &self.transaction.inputs
    }

    pub fn outputs(&self) -> (r: &Vec<TxOutput>)
        ensures
            r == self.transaction.outputs,
    {
        &self.transaction.outputs
    }

    pub open spec fn spec_encoded_size(self) -> int {
        self.transaction.spec_encoded_size() + 1 + 70 * self.signatures@.len()
    }

    pub fn encoded_size(&self) -> (r: usize)
        requires
            self.spec_encoded_size() <= usize::MAX,
        ensures
            r == self.spec_encoded_size(),
    {
        proof {
            assert(self.transaction.spec_encoded_size() >= 13) by {
                lemma_outputs_size_nonneg(self.transaction.outputs@, self.transaction.outputs@.len() as int);
                assert(self.transaction.outputs@.take(self.transaction.outputs@.len() as int)
                    =~= self.transaction.outputs@);
                assert(37 * self.transaction.inputs@.len() >= 0);
            };
        }
        let base = self.transaction.encoded_size();
        let n = self.signatures.len();
        let mut total: usize = base + 1;
        let mut i: usize = 0;
        while i < n
            invariant
                n == self.signatures@.len(),
                i <= n,
                total == self.transaction.spec_encoded_size() + 1 + 70 * i,
                self.spec_encoded_size() <= usize::MAX,
            decreases n - i,
        {
            assert(70 * (i + 1) <= 70 * n) by (nonlinear_arith)
                requires i + 1 <= n;
            total = total + 70;
            i = i + 1;
        }
        total
    }
}

impl HashWords for SignedTransaction {
    open spec fn words(&self) -> Seq<u64> {
        stxv_words((*self)@)
    }

    fn hash_into(&self, stream: &mut DefaultHashAlgoStream) {
        let ghost s0 = stream@;
        self.transaction.hash_into(stream);
        hash_vec(stream, &self.signatures);
        proof {
            lemma_absorb_concat(s0, self.transaction.words(), vec_words(self.signatures@));
            lemma_witness_seq_words(self.signatures@);
            assert((self.transaction.words() + vec_words(self.signatures@)) =~= self.words());
        }
    }
}

impl SignedTransaction {
    /// An owned copy with the same content.
    pub fn duplicate(&self) -> (r: SignedTransaction)
        ensures
            r@ == self@,
    {
        let r = SignedTransaction {
            transaction: self.transaction.duplicate(),
            signatures: dup_witnesses(&self.signatures),
        };
        proof {
            assert(r@.signatures =~= self@.signatures);
        }
        r
    }
}

} // verus!
