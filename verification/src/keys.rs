//! Key pairs and message signatures. The Ristretto Schnorr scheme
//! itself is supplied by an outside cryptography crate behind trusted
//! wrappers; the library stores keys and signatures as fixed words,
//! renders them to bytes in verified code, and reasons about
//! verification through the name `schnorr_verifies`.

use vstd::prelude::*;

verus! {

/// The public-key bytes that the outside scheme derives from a seed;
/// derivation is a function of the seed alone.
pub uninterp spec fn pubkey_of(seed: Seq<u8>) -> Seq<u8>;

/// Whether the outside scheme accepts `sig` as a signature by `pk`
/// over `msg`; verification is a function of these bytes alone.
pub uninterp spec fn schnorr_verifies(pk: Seq<u8>, sig: Seq<u8>, msg: Seq<u8>) -> bool;

/// 32 bytes held as four words, least significant byte first within
/// each word.
#[derive(Debug, Clone, Copy, PartialEq, Eq, Structural)]
pub struct KeyBytes32 {
    pub w0: u64,
    pub w1: u64,
    pub w2: u64,
    pub w3: u64,
}

/// 64 bytes held as eight words.
#[derive(Debug, Clone, Copy, PartialEq, Eq, Structural)]
pub struct SigBytes64 {
    pub w0: u64,
    pub w1: u64,
    pub w2: u64,
    pub w3: u64,
    pub w4: u64,
    pub w5: u64,
    pub w6: u64,
    pub w7: u64,
}

pub open spec fn word_of_32(k: KeyBytes32, i: int) -> u64 {
    if i < 8 { k.w0 } else if i < 16 { k.w1 } else if i < 24 { k.w2 } else { k.w3 }
}

/// The byte string a 32-byte word block denotes.
pub open spec fn seq32(k: KeyBytes32) -> Seq<u8> {
    Seq::new(32, |i: int| (word_of_32(k, i) >> (8 * (i % 8))) as u8)
}

pub open spec fn word_of_64(k: SigBytes64, i: int) -> u64 {
    if i < 8 { k.w0 } else if i < 16 { k.w1 } else if i < 24 { k.w2 } else if i < 32 { k.w3 }
    else if i < 40 { k.w4 } else if i < 48 { k.w5 } else if i < 56 { k.w6 } else { k.w7 }
}

/// The byte string a 64-byte word block denotes.
pub open spec fn seq64(k: SigBytes64) -> Seq<u8> {
    Seq::new(64, |i: int| (word_of_64(k, i) >> (8 * (i % 8))) as u8)
}

fn word_of_32_exec(k: &KeyBytes32, i: usize) -> (r: u64)
    ensures
        r == word_of_32(*k, i as int),
{
    if i < 8 { k.w0 } else if i < 16 { k.w1 } else if i < 24 { k.w2 } else { k.w3 }
}

fn word_of_64_exec(k: &SigBytes64, i: usize) -> (r: u64)
    ensures
        r == word_of_64(*k, i as int),
{
    if i < 8 { k.w0 } else if i < 16 { k.w1 } else if i < 24 { k.w2 } else if i < 32 { k.w3 }
    else if i < 40 { k.w4 } else if i < 48 { k.w5 } else if i < 56 { k.w6 } else { k.w7 }
}

/// Render a 32-byte word block as bytes.
pub fn key_bytes_to_vec(k: &KeyBytes32) -> (r: Vec<u8>)
    ensures
        r@ == seq32(*k),
{
    let mut out: Vec<u8> = Vec::new();
    let mut i: usize = 0;
    while i < 32
        invariant
            i <= 32,
            out@.len() == i,
            forall|j: int| 0 <= j < i ==> out@[j] == seq32(*k)[j],
        decreases 32 - i,
    {
        let w = word_of_32_exec(k, i);
        let b: u8 = #[verifier::truncate] ((w >> ((8 * (i % 8)) as u64)) as u8);
        out.push(b);
        i = i + 1;
    }
    proof {
        assert(out@ =~= seq32(*k));
    }
    out
}

/// Render a 64-byte word block as bytes.
pub fn sig_bytes_to_vec(k: &SigBytes64) -> (r: Vec<u8>)
    ensures
        r@ == seq64(*k),
{
    let mut out: Vec<u8> = Vec::new();
    let mut i: usize = 0;
    while i < 64
        invariant
            i <= 64,
            out@.len() == i,
            forall|j: int| 0 <= j < i ==> out@[j] == seq64(*k)[j],
        decreases 64 - i,
    {
        let w = word_of_64_exec(k, i);
        let b: u8 = #[verifier::truncate] ((w >> ((8 * (i % 8)) as u64)) as u8);
        out.push(b);
        i = i + 1;
    }
    proof {
        assert(out@ =~= seq64(*k));
    }
    out
}

/// Read one little-endian word from eight bytes.
fn word_from_le(v: &Vec<u8>, off: usize) -> (r: u64)
    requires
        off + 8 <= v@.len(),
    ensures
        forall|j: int| 0 <= j < 8 ==> (r >> (8 * j)) as u8 == #[trigger] v@[off + j],
{
    let n = v.len();
    let b0 = v[off] as u64;
    let b1 = v[off + 1] as u64;
    let b2 = v[off + 2] as u64;
    let b3 = v[off + 3] as u64;
    let b4 = v[off + 4] as u64;
    let b5 = v[off + 5] as u64;
    let b6 = v[off + 6] as u64;
    let b7 = v[off + 7] as u64;
    let r = b0 | (b1 << 8u64) | (b2 << 16u64) | (b3 << 24u64) | (b4 << 32u64) | (b5 << 40u64)
        | (b6 << 48u64) | (b7 << 56u64);
    proof {
        assert forall|j: int| 0 <= j < 8 implies (r >> (8 * j)) as u8 == #[trigger] v@[off + j] by {
            assert(
                ((r >> 0u64) as u8 == b0 as u8) && ((r >> 8u64) as u8 == b1 as u8)
                && ((r >> 16u64) as u8 == b2 as u8) && ((r >> 24u64) as u8 == b3 as u8)
                && ((r >> 32u64) as u8 == b4 as u8) && ((r >> 40u64) as u8 == b5 as u8)
                && ((r >> 48u64) as u8 == b6 as u8) && ((r >> 56u64) as u8 == b7 as u8)
            ) by (bit_vector)
                requires
                    r == b0 | (b1 << 8u64) | (b2 << 16u64) | (b3 << 24u64) | (b4 << 32u64)
                        | (b5 << 40u64) | (b6 << 48u64) | (b7 << 56u64),
                    b0 < 256 && b1 < 256 && b2 < 256 && b3 < 256,
                    b4 < 256 && b5 < 256 && b6 < 256 && b7 < 256,
            ;
            if j == 0 { assert((r >> (8 * j)) as u8 == v@[off + j]); }
            if j == 1 { assert((r >> (8 * j)) as u8 == v@[off + j]); }
            if j == 2 { assert((r >> (8 * j)) as u8 == v@[off + j]); }
            if j == 3 { assert((r >> (8 * j)) as u8 == v@[off + j]); }
            if j == 4 { assert((r >> (8 * j)) as u8 == v@[off + j]); }
            if j == 5 { assert((r >> (8 * j)) as u8 == v@[off + j]); }
            if j == 6 { assert((r >> (8 * j)) as u8 == v@[off + j]); }
            if j == 7 { assert((r >> (8 * j)) as u8 == v@[off + j]); }
        }
    }
    r
}

/// Pack 32 bytes into words.
pub fn vec_to_key_bytes(v: &Vec<u8>) -> (r: KeyBytes32)
    requires
        v@.len() == 32,
    ensures
        seq32(r) == v@,
{
    let r = KeyBytes32 {
        w0: word_from_le(v, 0),
        w1: word_from_le(v, 8),
        w2: word_from_le(v, 16),
        w3: word_from_le(v, 24),
    };
    proof {
        assert forall|i: int| 0 <= i < 32 implies seq32(r)[i] == v@[i] by {
            assert((word_of_32(r, i) >> (8 * (i % 8))) as u8 == v@[8 * (i / 8) + (i % 8)]);
        }
        assert(seq32(r) =~= v@);
    }
    r
}

/// Pack 64 bytes into words.
pub fn vec_to_sig_bytes(v: &Vec<u8>) -> (r: SigBytes64)
    requires
        v@.len() == 64,
    ensures
        seq64(r) == v@,
{
    let r = SigBytes64 {
        w0: word_from_le(v, 0),
        w1: word_from_le(v, 8),
        w2: word_from_le(v, 16),
        w3: word_from_le(v, 24),
        w4: word_from_le(v, 32),
        w5: word_from_le(v, 40),
        w6: word_from_le(v, 48),
        w7: word_from_le(v, 56),
    };
    proof {
        assert forall|i: int| 0 <= i < 64 implies seq64(r)[i] == v@[i] by {
            assert((word_of_64(r, i) >> (8 * (i % 8))) as u8 == v@[8 * (i / 8) + (i % 8)]);
        }
        assert(seq64(r) =~= v@);
    }
    r
}

/// Relies on rand::random: returns 32 bytes of fresh entropy.
#[verifier::external_body]
fn random_seed_bytes() -> (r: Vec<u8>)
    ensures
        r@.len() == 32,
{
    rand::random::<[u8; 32]>().to_vec()
}

/// Relies on schnorrkel::MiniSecretKey::expand_to_keypair: the public
/// half is 32 bytes and depends on the seed alone.
#[verifier::external_body]
fn schnorr_public_bytes(seed: &Vec<u8>) -> (r: Vec<u8>)
    requires
        seed@.len() == 32,
    ensures
        r@.len() == 32,
        r@ == pubkey_of(seed@),
{
    let mini = schnorrkel::MiniSecretKey::from_bytes(seed).expect("seed is 32 bytes");
    let kp = mini.expand_to_keypair(schnorrkel::ExpansionMode::Ed25519);
    kp.public.to_bytes().to_vec()
}

/// Relies on schnorrkel::Keypair::sign_simple: the signature is 64
/// bytes and verifies under the keypair's public key.
#[verifier::external_body]
fn schnorr_sign_bytes(seed: &Vec<u8>, msg: &Vec<u8>) -> (r: Vec<u8>)
    requires
        seed@.len() == 32,
    ensures
        r@.len() == 64,
        schnorr_verifies(pubkey_of(seed@), r@, msg@),
{
    let mini = schnorrkel::MiniSecretKey::from_bytes(seed).expect("seed is 32 bytes");
    let kp = mini.expand_to_keypair(schnorrkel::ExpansionMode::Ed25519);
    kp.sign_simple(b"chaincore", msg).to_bytes().to_vec()
}

/// Relies on schnorrkel::PublicKey::verify_simple: acceptance is a
/// function of the key, signature and message bytes; malformed key or
/// signature encodings are rejected.
#[verifier::external_body]
fn schnorr_verify_bytes(pk: &Vec<u8>, sig: &Vec<u8>, msg: &Vec<u8>) -> (r: bool)
    ensures
        r == schnorr_verifies(pk@, sig@, msg@),
{
    let pk = match schnorrkel::PublicKey::from_bytes(pk) {
        Ok(k) => k,
        Err(_) => return false,
    };
    let sig = match schnorrkel::Signature::from_bytes(sig) {
        Ok(s) => s,
        Err(_) => return false,
    };
    pk.verify_simple(b"chaincore", msg, &sig).is_ok()
}

#[derive(Debug, Clone, Copy, PartialEq, Eq, Structural)]
pub enum SignatureError {
    Unknown,
    DataConversionError,
    SignatureConstructionError,
}

#[derive(Debug, Clone, Copy, PartialEq, Eq, Structural)]
pub enum KeyKind {
    RistrettoSchnorr,
}

#[derive(Debug, Clone, Copy, PartialEq, Eq, Structural)]
pub enum PrivateKeyHolder {
    RistrettoSchnorr(KeyBytes32),
}

#[derive(Debug, Clone, Copy, PartialEq, Eq, Structural)]
pub enum PublicKeyHolder {
    RistrettoSchnorr(KeyBytes32),
}

#[derive(Debug, Clone, Copy, PartialEq, Eq, Structural)]
pub enum Signature {
    RistrettoSchnorrSig(SigBytes64),
}

impl Signature {
    pub open spec fn spec_bytes(self) -> Seq<u8> {
        match self {
            Signature::RistrettoSchnorrSig(b) => seq64(b),
        }
    }
}

#[derive(Debug, Clone, Copy, PartialEq, Eq, Structural)]
pub struct PrivateKey {
    pub key: PrivateKeyHolder,
}

#[derive(Debug, Clone, Copy, PartialEq, Eq, Structural)]
pub struct PublicKey {
    pub pub_key: PublicKeyHolder,
}

impl PrivateKey {
    pub open spec fn spec_seed(self) -> Seq<u8> {
        match self.key {
            PrivateKeyHolder::RistrettoSchnorr(s) => seq32(s),
        }
    }

    /// Generate a fresh key pair; the public half is derived from the
    /// private half.
    pub fn new(key_kind: KeyKind) -> (r: (PrivateKey, PublicKey))
        ensures
            r.1.spec_bytes() == pubkey_of(r.0.spec_seed()),
    {
        match key_kind {
            KeyKind::RistrettoSchnorr => {
                let seed = random_seed_bytes();
                let public = schnorr_public_bytes(&seed);
                let seed_words = vec_to_key_bytes(&seed);
                let public_words = vec_to_key_bytes(&public);
                (
                    PrivateKey { key: PrivateKeyHolder::RistrettoSchnorr(seed_words) },
                    PublicKey { pub_key: PublicKeyHolder::RistrettoSchnorr(public_words) },
                )
            },
        }
    }

    pub fn kind(&self) -> (r: KeyKind)
        ensures
            r == KeyKind::RistrettoSchnorr,
    {
        match self.key {
            PrivateKeyHolder::RistrettoSchnorr(_) => KeyKind::RistrettoSchnorr,
        }
    }

    pub fn get_internal_key(&self) -> (r: &PrivateKeyHolder)
        ensures
            r == self.key,
    {
        &self.key
    }

    /// Sign a message; the signature verifies under this key's public
    /// half.
    pub fn sign_message(&self, msg: &Vec<u8>) -> (r: Result<Signature, SignatureError>)
        ensures
            r is Ok,
            r matches Ok(sig) ==> schnorr_verifies(pubkey_of(self.spec_seed()), sig.spec_bytes(), msg@),
    {
        match &self.key {
            PrivateKeyHolder::RistrettoSchnorr(seed) => {
                let seed_vec = key_bytes_to_vec(seed);
                let sig = schnorr_sign_bytes(&seed_vec, msg);
                let sig_words = vec_to_sig_bytes(&sig);
                Ok(Signature::RistrettoSchnorrSig(sig_words))
            },
        }
    }
}

impl PublicKey {
    pub open spec fn spec_bytes(self) -> Seq<u8> {
        match self.pub_key {
            PublicKeyHolder::RistrettoSchnorr(b) => seq32(b),
        }
    }

    pub fn from_private_key(private_key: &PrivateKey) -> (r: PublicKey)
        ensures
            r.spec_bytes() == pubkey_of(private_key.spec_seed()),
    {
        match &private_key.key {
            PrivateKeyHolder::RistrettoSchnorr(seed) => {
                let seed_vec = key_bytes_to_vec(seed);
                let public = schnorr_public_bytes(&seed_vec);
                PublicKey {
                    pub_key: PublicKeyHolder::RistrettoSchnorr(vec_to_key_bytes(&public)),
                }
            },
        }
    }

    /// Check a signature over a message against this key.
    pub fn verify_message(&self, signature: &Signature, msg: &Vec<u8>) -> (r: bool)
        ensures
            r == schnorr_verifies(self.spec_bytes(), signature.spec_bytes(), msg@),
    {
        let k = match &self.pub_key {
            PublicKeyHolder::RistrettoSchnorr(k) => key_bytes_to_vec(k),
        };
        match signature {
            Signature::RistrettoSchnorrSig(s) => {
                let sv = sig_bytes_to_vec(s);
                schnorr_verify_bytes(&k, &sv, msg)
            },
        }
    }

    pub fn is_aggregable(&self) -> (r: bool)
        ensures
            r,
    {
        match self.pub_key {
            PublicKeyHolder::RistrettoSchnorr(_) => true,
        }
    }
}

} // verus!
