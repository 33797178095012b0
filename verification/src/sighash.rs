//! Signature hashes and input-signature verification. The hash a
//! witness signs is the digest of the parts of the transaction its
//! mode commits to, together with the spent outputs.

use vstd::prelude::*;

use crate::hashing::{
    absorb, hash_vec, lemma_absorb_concat, lemma_absorb_push, vec_words, DefaultHashAlgoStream,
    HashWords, HASH_STREAM_INIT,
};
use crate::keys::{schnorr_verifies, PrivateKey, PublicKey, SignatureError};
use crate::output::{lemma_absorb_small, Destination, TxOutput};
use crate::transaction::{
    InputWitness, InputsMode, OutputsMode, SigHashType, SignedTransaction, StandardInputSignature,
    Transaction, TxInput,
};

verus! {

#[derive(Debug, Clone, Copy, PartialEq, Eq, Structural)]
pub enum TransactionSigError {
    InvalidInputIndex(usize, usize),
    InvalidUtxoCountVsInputs(usize, usize),
    InvalidSignatureIndex(usize, usize),
    SigHashRequestWithoutInputs,
    SignatureVerificationWithoutInputs,
    SignatureVerificationWithoutSigs,
    SignatureVerificationFailed,
    SignatureNotFound,
    ProducingSignatureFailed(SignatureError),
    AttemptedToVerifyStandardSignatureForAnyoneCanSpend,
    AttemptedToProduceSignatureForAnyoneCanSpend,
    Unsupported,
}

/// Something whose signature hash can be taken: a view on inputs,
/// outputs and header fields, each possibly absent.
pub trait Signable {
    spec fn spec_inputs(&self) -> Option<Seq<TxInput>>;

    spec fn spec_outputs(&self) -> Option<Seq<TxOutput>>;

    spec fn spec_version_byte(&self) -> Option<u8>;

    spec fn spec_lock_time(&self) -> Option<u32>;

    spec fn spec_flags(&self) -> Option<u32>;

    fn inputs(&self) -> (r: Option<&Vec<TxInput>>)
        ensures
            r is Some <==> self.spec_inputs() is Some,
            r matches Some(v) ==> self.spec_inputs() == Some(v@);

    fn outputs(&self) -> (r: Option<&Vec<TxOutput>>)
        ensures
            r is Some <==> self.spec_outputs() is Some,
            r matches Some(v) ==> self.spec_outputs() == Some(v@);

    fn version_byte(&self) -> (r: Option<u8>)
        ensures
            r == self.spec_version_byte();

    fn lock_time(&self) -> (r: Option<u32>)
        ensures
            r == self.spec_lock_time();

    fn flags(&self) -> (r: Option<u32>)
        ensures
            r == self.spec_flags();
}

/// A signable whose witnesses are at hand.
pub trait Transactable: Signable {
    spec fn spec_signatures(&self) -> Option<Seq<InputWitness>>;

    fn signatures(&self) -> (r: Option<&Vec<InputWitness>>)
        ensures
            r is Some <==> self.spec_signatures() is Some,
            r matches Some(v) ==> self.spec_signatures() == Some(v@);
}

impl Signable for Transaction {
    open spec fn spec_inputs(&self) -> Option<Seq<TxInput>> {
        Some(self.inputs@)
    }

    open spec fn spec_outputs(&self) -> Option<Seq<TxOutput>> {
        Some(self.outputs@)
    }

    open spec fn spec_version_byte(&self) -> Option<u8> {
        Some(1u8)
    }

    open spec fn spec_lock_time(&self) -> Option<u32> {
        Some(self.lock_time)
    }

    open spec fn spec_flags(&self) -> Option<u32> {
        Some(self.flags)
    }

    fn inputs(&self) -> (r: Option<&Vec<TxInput>>) {
        Some(&self.inputs)
    }

    fn outputs(&self) -> (r: Option<&Vec<TxOutput>>) {
        Some(&self.outputs)
    }

    fn version_byte(&self) -> (r: Option<u8>) {
        Some(1u8)
    }

    fn lock_time(&self) -> (r: Option<u32>) {
        Some(self.lock_time)
    }

    fn flags(&self) -> (r: Option<u32>) {
        Some(self.flags)
    }
}

impl Signable for SignedTransaction {
    open spec fn spec_inputs(&self) -> Option<Seq<TxInput>> {
        Some(self.transaction.inputs@)
    }

    open spec fn spec_outputs(&self) -> Option<Seq<TxOutput>> {
        Some(self.transaction.outputs@)
    }

    open spec fn spec_version_byte(&self) -> Option<u8> {
        Some(1u8)
    }

    open spec fn spec_lock_time(&self) -> Option<u32> {
        Some(self.transaction.lock_time)
    }

    open spec fn spec_flags(&self) -> Option<u32> {
        Some(self.transaction.flags)
    }

    fn inputs(&self) -> (r: Option<&Vec<TxInput>>) {
        Some(&self.transaction.inputs)
    }

    fn outputs(&self) -> (r: Option<&Vec<TxOutput>>) {
        Some(&self.transaction.outputs)
    }

    fn version_byte(&self) -> (r: Option<u8>) {
        Some(1u8)
    }

    fn lock_time(&self) -> (r: Option<u32>) {
        Some(self.transaction.lock_time)
    }

    fn flags(&self) -> (r: Option<u32>) {
        Some(self.transaction.flags)
    }
}

impl Transactable for SignedTransaction {
    open spec fn spec_signatures(&self) -> Option<Seq<InputWitness>> {
        Some(self.signatures@)
    }

    fn signatures(&self) -> (r: Option<&Vec<InputWitness>>) {
        Some(&self.signatures)
    }
}

impl<'a> Signable for crate::block::BlockRewardTransactable<'a> {
    open spec fn spec_inputs(&self) -> Option<Seq<TxInput>> {
        match self.inputs {
            Some(v) => Some(v@),
            None => None,
        }
    }

    open spec fn spec_outputs(&self) -> Option<Seq<TxOutput>> {
        match self.outputs {
            Some(v) => Some(v@),
            None => None,
        }
    }

    open spec fn spec_version_byte(&self) -> Option<u8> {
        None
    }

    open spec fn spec_lock_time(&self) -> Option<u32> {
        None
    }

    open spec fn spec_flags(&self) -> Option<u32> {
        None
    }

    fn inputs(&self) -> (r: Option<&Vec<TxInput>>) {
        self.inputs
    }

    fn outputs(&self) -> (r: Option<&Vec<TxOutput>>) {
        self.outputs
    }

    fn version_byte(&self) -> (r: Option<u8>) {
        None
    }

    fn lock_time(&self) -> (r: Option<u32>) {
        None
    }

    fn flags(&self) -> (r: Option<u32>) {
        None
    }
}

impl<'a> Transactable for crate::block::BlockRewardTransactable<'a> {
    open spec fn spec_signatures(&self) -> Option<Seq<InputWitness>> {
        match self.witnesses {
            Some(v) => Some(v@),
            None => None,
        }
    }

    fn signatures(&self) -> (r: Option<&Vec<InputWitness>>) {
        self.witnesses
    }
}

/// The words the inputs contribute under a mode: every outpoint when
/// the signature commits to who pays, only the spent one otherwise.
pub open spec fn sighash_inputs_words(mode: SigHashType, inputs: Seq<TxInput>, target: TxInput) -> Seq<u64> {
    match mode.inputs_mode {
        InputsMode::CommitWhoPays => vec_words(inputs),
        InputsMode::AnyoneCanPay => target.words(),
    }
}

/// The words the outputs contribute under a mode.
pub open spec fn sighash_outputs_words(mode: SigHashType, outputs: Seq<TxOutput>, target_num: int) -> Seq<u64> {
    match mode.outputs_mode {
        OutputsMode::All => vec_words(outputs),
        OutputsMode::NoOutputs => Seq::empty(),
        OutputsMode::Single => outputs[target_num].words(),
    }
}

pub open spec fn opt_u64_words(v: Option<u64>) -> Seq<u64> {
    match v {
        Some(x) => seq![x],
        None => Seq::empty(),
    }
}

/// Everything a signature under `mode` commits to.
pub open spec fn sighash_words(
    mode: SigHashType,
    version: Option<u8>,
    flags: Option<u32>,
    lock_time: Option<u32>,
    inputs: Seq<TxInput>,
    outputs: Seq<TxOutput>,
    target_num: int,
    utxos: Seq<TxOutput>,
) -> Seq<u64> {
    seq![mode.spec_word()]
        + opt_u64_words(match version { Some(v) => Some(v as u64), None => None })
        + opt_u64_words(match flags { Some(v) => Some(v as u64), None => None })
        + opt_u64_words(match lock_time { Some(v) => Some(v as u64), None => None })
        + sighash_inputs_words(mode, inputs, inputs[target_num])
        + sighash_outputs_words(mode, outputs, target_num)
        + vec_words(utxos)
        + seq![u32::MAX as u64]
}

/// The signature hash, or the error that prevents taking it: no
/// inputs at all, an input or output index out of range, or a
/// mismatched count of spent outputs.
pub open spec fn spec_signature_hash(
    mode: SigHashType,
    version: Option<u8>,
    flags: Option<u32>,
    lock_time: Option<u32>,
    inputs: Option<Seq<TxInput>>,
    outputs: Option<Seq<TxOutput>>,
    utxos: Seq<TxOutput>,
    input_num: usize,
) -> Result<u64, TransactionSigError> {
    match inputs {
        None => Err(TransactionSigError::SigHashRequestWithoutInputs),
        Some(ins) => {
            let outs = match outputs {
                Some(o) => o,
                None => Seq::empty(),
            };
            if input_num >= ins.len() {
                Err(TransactionSigError::InvalidInputIndex(input_num, ins.len() as usize))
            } else if mode.outputs_mode is Single && input_num >= outs.len() {
                Err(TransactionSigError::InvalidInputIndex(input_num, outs.len() as usize))
            } else if utxos.len() != ins.len() {
                Err(TransactionSigError::InvalidUtxoCountVsInputs(utxos.len() as usize, ins.len() as usize))
            } else {
                Ok(absorb(
                    HASH_STREAM_INIT,
                    sighash_words(mode, version, flags, lock_time, ins, outs, input_num as int, utxos),
                ))
            }
        },
    }
}

/// Absorb the inputs a signature commits to.
pub fn signature_hash_for_inputs(
    stream: &mut DefaultHashAlgoStream,
    mode: SigHashType,
    inputs: &Vec<TxInput>,
    target_input: &TxInput,
)
    ensures
        final(stream)@ == absorb(old(stream)@, sighash_inputs_words(mode, inputs@, *target_input)),
{
    match mode.inputs_mode() {
        InputsMode::CommitWhoPays => {
            hash_vec(stream, inputs);
        },
        InputsMode::AnyoneCanPay => {
            target_input.hash_into(stream);
        },
    }
}

/// Absorb the outputs a signature commits to; fails when the single
/// committed output does not exist.
pub fn signature_hash_for_outputs(
    stream: &mut DefaultHashAlgoStream,
    mode: SigHashType,
    outputs: &Vec<TxOutput>,
    target_input_num: usize,
) -> (r: Result<(), TransactionSigError>)
    ensures
        !(mode.outputs_mode is Single && target_input_num >= outputs@.len()) ==> (
            r is Ok
            && final(stream)@ == absorb(old(stream)@, sighash_outputs_words(mode, outputs@, target_input_num as int))
        ),
        mode.outputs_mode is Single && target_input_num >= outputs@.len() ==> r == Result::<
            (),
            TransactionSigError,
        >::Err(TransactionSigError::InvalidInputIndex(target_input_num, outputs@.len() as usize)),
{
    match mode.outputs_mode() {
        OutputsMode::All => {
            hash_vec(stream, outputs);
            Ok(())
        },
        OutputsMode::NoOutputs => {
            proof {
                assert(absorb(stream@, Seq::<u64>::empty()) == stream@);
            }
            Ok(())
        },
        OutputsMode::Single => {
            if target_input_num >= outputs.len() {
                Err(TransactionSigError::InvalidInputIndex(target_input_num, outputs.len()))
            } else {
                outputs[target_input_num].hash_into(stream);
                Ok(())
            }
        },
    }
}

/// The signature hash of `tx`'s input number `input_num`, given the
/// outputs those inputs spend.
#[verifier::rlimit(60)]
pub fn signature_hash<T: Signable>(
    mode: SigHashType,
    tx: &T,
    inputs_utxos: &Vec<TxOutput>,
    input_num: usize,
) -> (r: Result<u64, TransactionSigError>)
    ensures
        r == spec_signature_hash(
            mode,
            tx.spec_version_byte(),
            tx.spec_flags(),
            tx.spec_lock_time(),
            tx.spec_inputs(),
            tx.spec_outputs(),
            inputs_utxos@,
            input_num,
        ),
{
    let inputs = match tx.inputs() {
        Some(ins) => ins,
        None => {
            return Err(TransactionSigError::SigHashRequestWithoutInputs);
        },
    };
    let ghost outs_seq: Seq<TxOutput> = match tx.spec_outputs() {
        Some(o) => o,
        None => Seq::empty(),
    };
    if input_num >= inputs.len() {
        return Err(TransactionSigError::InvalidInputIndex(input_num, inputs.len()));
    }
    let single_mode = match mode.outputs_mode() {
        OutputsMode::Single => true,
        _ => false,
    };
    let outputs_len: usize = match tx.outputs() {
        Some(o) => o.len(),
        None => 0,
    };
    if single_mode && input_num >= outputs_len {
        return Err(TransactionSigError::InvalidInputIndex(input_num, outputs_len));
    }
    if inputs_utxos.len() != inputs.len() {
        return Err(TransactionSigError::InvalidUtxoCountVsInputs(inputs_utxos.len(), inputs.len()));
    }

    let mut stream = DefaultHashAlgoStream::new();
    let ghost s0 = stream@;
    let ghost w1 = seq![mode.spec_word()];
    stream.write_u64(mode.word());
    proof {
        lemma_absorb_small(s0, w1);
    }
    let ghost mut ws = w1;
    match tx.version_byte() {
        Some(v) => {
            stream.write_u64(v as u64);
            proof {
                lemma_absorb_push(s0, ws, v as u64);
                ws = ws.push(v as u64);
            }
        },
        None => (),
    }
    proof {
        assert(ws =~= w1 + opt_u64_words(
            match tx.spec_version_byte() { Some(v) => Some(v as u64), None => None },
        ));
    }
    let ghost w2 = ws;
    match tx.flags() {
        Some(v) => {
            stream.write_u32(v);
            proof {
                lemma_absorb_push(s0, ws, v as u64);
                ws = ws.push(v as u64);
            }
        },
        None => (),
    }
    proof {
        assert(ws =~= w2 + opt_u64_words(
            match tx.spec_flags() { Some(v) => Some(v as u64), None => None },
        ));
    }
    let ghost w3 = ws;
    match tx.lock_time() {
        Some(v) => {
            stream.write_u32(v);
            proof {
                lemma_absorb_push(s0, ws, v as u64);
                ws = ws.push(v as u64);
            }
        },
        None => (),
    }
    proof {
        assert(ws =~= w3 + opt_u64_words(
            match tx.spec_lock_time() { Some(v) => Some(v as u64), None => None },
        ));
    }
    let target_input = &inputs[input_num];
    signature_hash_for_inputs(&mut stream, mode, inputs, target_input);
    proof {
        lemma_absorb_concat(s0, ws, sighash_inputs_words(mode, inputs@, inputs@[input_num as int]));
        ws = ws + sighash_inputs_words(mode, inputs@, inputs@[input_num as int]);
    }
    let hash_outputs_result = match tx.outputs() {
        Some(o) => signature_hash_for_outputs(&mut stream, mode, o, input_num),
        None => {
            let empty_outputs: Vec<TxOutput> = Vec::new();
            let r = signature_hash_for_outputs(&mut stream, mode, &empty_outputs, input_num);
            proof {
                assert(empty_outputs@ =~= outs_seq);
            }
            r
        },
    };
    match hash_outputs_result {
        Ok(_) => (),
        Err(_) => {
            proof {
                assert(false);
            }
            return Err(TransactionSigError::Unsupported);
        },
    }
    proof {
        lemma_absorb_concat(s0, ws, sighash_outputs_words(mode, outs_seq, input_num as int));
        ws = ws + sighash_outputs_words(mode, outs_seq, input_num as int);
    }
    hash_vec(&mut stream, inputs_utxos);
    proof {
        lemma_absorb_concat(s0, ws, vec_words(inputs_utxos@));
        ws = ws + vec_words(inputs_utxos@);
    }
    stream.write_u32(u32::MAX);
    proof {
        lemma_absorb_push(s0, ws, u32::MAX as u64);
        ws = ws.push(u32::MAX as u64);
        assert(ws =~= sighash_words(
            mode,
            tx.spec_version_byte(),
            tx.spec_flags(),
            tx.spec_lock_time(),
            tx.spec_inputs()->0,
            outs_seq,
            input_num as int,
            inputs_utxos@,
        ));
    }
    Ok(stream.finalize())
}

/// The little-endian bytes of a hash, as the message handed to the
/// signature scheme.
pub open spec fn hash_message_bytes(h: u64) -> Seq<u8> {
    Seq::new(8, |i: int| (h >> (8 * i)) as u8)
}

/// Render a hash as the 8-byte message that gets signed.
pub fn hash_message(h: u64) -> (r: Vec<u8>)
    ensures
        r@ == hash_message_bytes(h),
{
    let mut out: Vec<u8> = Vec::new();
    let mut i: usize = 0;
    while i < 8
        invariant
            i <= 8,
            out@.len() == i,
            forall|j: int| 0 <= j < i ==> out@[j] == (h >> (8 * j)) as u8,
        decreases 8 - i,
    {
        assert(8 * i <= 56);
        let b: u8 = #[verifier::truncate] ((h >> ((8 * i) as u64)) as u8);
        out.push(b);
        i = i + 1;
    }
    proof {
        assert(out@ =~= hash_message_bytes(h));
    }
    out
}

/// What verifying one input signature yields, as a function of the
/// committed parts alone.
pub open spec fn spec_verify_signature(
    dest: Destination,
    version: Option<u8>,
    flags: Option<u32>,
    lock_time: Option<u32>,
    inputs: Option<Seq<TxInput>>,
    outputs: Option<Seq<TxOutput>>,
    sigs: Option<Seq<InputWitness>>,
    utxos: Seq<TxOutput>,
    input_num: usize,
) -> Result<(), TransactionSigError> {
    match inputs {
        None => Err(TransactionSigError::SignatureVerificationWithoutInputs),
        Some(ins) => match sigs {
            None => Err(TransactionSigError::SignatureVerificationWithoutSigs),
            Some(ss) => {
                if input_num >= ss.len() {
                    Err(TransactionSigError::InvalidSignatureIndex(input_num, ins.len() as usize))
                } else {
                    match ss[input_num as int] {
                        InputWitness::NoSignature(_) => match dest {
                            Destination::AnyoneCanSpend => Ok(()),
                            Destination::PublicKey(_) => Err(TransactionSigError::SignatureNotFound),
                        },
                        InputWitness::Standard(w) => match dest {
                            Destination::AnyoneCanSpend => Err(
                                TransactionSigError::AttemptedToVerifyStandardSignatureForAnyoneCanSpend,
                            ),
                            Destination::PublicKey(pk) => match spec_signature_hash(
                                w.sighash_type,
                                version,
                                flags,
                                lock_time,
                                inputs,
                                outputs,
                                utxos,
                                input_num,
                            ) {
                                Err(e) => Err(e),
                                Ok(h) => {
                                    if schnorr_verifies(
                                        pk.spec_bytes(),
                                        w.signature.spec_bytes(),
                                        hash_message_bytes(h),
                                    ) {
                                        Ok(())
                                    } else {
                                        Err(TransactionSigError::SignatureVerificationFailed)
                                    }
                                },
                            },
                        },
                    }
                }
            },
        },
    }
}

/// Verify the witness of input `input_num` against the destination of
/// the output it spends.
pub fn verify_signature<T: Transactable>(
    outpoint_destination: &Destination,
    tx: &T,
    inputs_utxos: &Vec<TxOutput>,
    input_num: usize,
) -> (r: Result<(), TransactionSigError>)
    ensures
        r == spec_verify_signature(
            *outpoint_destination,
            tx.spec_version_byte(),
            tx.spec_flags(),
            tx.spec_lock_time(),
            tx.spec_inputs(),
            tx.spec_outputs(),
            tx.spec_signatures(),
            inputs_utxos@,
            input_num,
        ),
{
    let inputs = match tx.inputs() {
        Some(ins) => ins,
        None => {
            return Err(TransactionSigError::SignatureVerificationWithoutInputs);
        },
    };
    let sigs = match tx.signatures() {
        Some(s) => s,
        None => {
            return Err(TransactionSigError::SignatureVerificationWithoutSigs);
        },
    };
    if input_num >= sigs.len() {
        return Err(TransactionSigError::InvalidSignatureIndex(input_num, inputs.len()));
    }
    match &sigs[input_num] {
        InputWitness::NoSignature(_) => match outpoint_destination {
            Destination::AnyoneCanSpend => Ok(()),
            Destination::PublicKey(_) => Err(TransactionSigError::SignatureNotFound),
        },
        InputWitness::Standard(w) => match outpoint_destination {
            Destination::AnyoneCanSpend => Err(
                TransactionSigError::AttemptedToVerifyStandardSignatureForAnyoneCanSpend,
            ),
            Destination::PublicKey(pk) => {
                match signature_hash(w.sighash_type(), tx, inputs_utxos, input_num) {
                    Err(e) => Err(e),
                    Ok(h) => {
                        let msg = hash_message(h);
                        if pk.verify_message(&w.signature, &msg) {
                            Ok(())
                        } else {
                            Err(TransactionSigError::SignatureVerificationFailed)
                        }
                    },
                }
            },
        },
    }
}

/// Produce the standard witness for one input of a transaction: sign
/// its signature hash. The witness then verifies against the key's
/// public half.
pub fn make_signature(
    private_key: &PrivateKey,
    mode: SigHashType,
    tx: &Transaction,
    inputs_utxos: &Vec<TxOutput>,
    input_num: usize,
) -> (r: Result<StandardInputSignature, TransactionSigError>)
    ensures
        r matches Ok(w) ==> {
            &&& w.sighash_type == mode
            &&& spec_signature_hash(
                mode,
                Some(1u8),
                Some(tx.flags),
                Some(tx.lock_time),
                Some(tx.inputs@),
                Some(tx.outputs@),
                inputs_utxos@,
                input_num,
            ) matches Ok(h)
            &&& schnorr_verifies(
                crate::keys::pubkey_of(private_key.spec_seed()),
                w.signature.spec_bytes(),
                hash_message_bytes(h),
            )
        },
        r matches Err(e) ==> spec_signature_hash(
            mode,
            Some(1u8),
            Some(tx.flags),
            Some(tx.lock_time),
            Some(tx.inputs@),
            Some(tx.outputs@),
            inputs_utxos@,
            input_num,
        ) == Result::<u64, TransactionSigError>::Err(e),
{
    let h = match signature_hash(mode, tx, inputs_utxos, input_num) {
        Ok(h) => h,
        Err(e) => {
            return Err(e);
        },
    };
    let msg = hash_message(h);
    match private_key.sign_message(&msg) {
        Ok(sig) => Ok(StandardInputSignature::new(mode, sig)),
        Err(e) => Err(TransactionSigError::ProducingSignatureFailed(e)),
    }
}

} // verus!
