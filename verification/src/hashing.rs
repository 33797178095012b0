//! Content digests. Every identifier in the chain is the digest of
//! the words an object feeds into a streaming hasher; the mixing
//! function is fully specified, so identity of equal content is a
//! theorem rather than an assumption.

use vstd::prelude::*;

verus! {

/// Product of two words, truncated to 64 bits.
pub open spec fn mul64(a: u64, b: u64) -> u64 {
    ((((a as u128) * (b as u128)) as u128) & 0xffffffffffffffffu128) as u64
}

/// One mixing step: absorb the word `w` into the running state.
pub open spec fn mix64(s: u64, w: u64) -> u64 {
    let x0 = (s ^ w) ^ 0x9e3779b97f4a7c15u64;
    let x1 = mul64(x0 ^ (x0 >> 33), 0xff51afd7ed558ccdu64);
    let x2 = mul64(x1 ^ (x1 >> 33), 0xc4ceb9fe1a85ec53u64);
    x2 ^ (x2 >> 33)
}

/// Absorb a sequence of words, left to right.
pub open spec fn absorb(s: u64, ws: Seq<u64>) -> u64
    decreases ws.len(),
{
    if ws.len() == 0 {
        s
    } else {
        absorb(mix64(s, ws[0]), ws.drop_first())
    }
}

/// Absorbing one more word mixes it into the accumulated state.
pub proof fn lemma_absorb_push(s: u64, ws: Seq<u64>, w: u64)
    ensures
        absorb(s, ws.push(w)) == mix64(absorb(s, ws), w),
    decreases ws.len(),
{
    if ws.len() == 0 {
        let s1 = ws.push(w);
        assert(s1[0] == w);
        assert(s1.drop_first() =~= Seq::<u64>::empty());
        assert(absorb(s, s1) == absorb(mix64(s, w), s1.drop_first()));
        assert(absorb(mix64(s, w), s1.drop_first()) == mix64(s, w));
    } else {
        assert(ws.push(w)[0] == ws[0]);
        assert(ws.push(w).drop_first() =~= ws.drop_first().push(w));
        lemma_absorb_push(mix64(s, ws[0]), ws.drop_first(), w);
    }
}

/// Absorbing a concatenation absorbs each part in turn.
pub proof fn lemma_absorb_concat(s: u64, a: Seq<u64>, b: Seq<u64>)
    ensures
        absorb(s, a + b) == absorb(absorb(s, a), b),
    decreases a.len(),
{
    if a.len() == 0 {
        assert(a + b =~= b);
    } else {
        assert((a + b)[0] == a[0]);
        assert((a + b).drop_first() =~= a.drop_first() + b);
        lemma_absorb_concat(mix64(s, a[0]), a.drop_first(), b);
    }
}

fn mul64_exec(a: u64, b: u64) -> (r: u64)
    ensures
        r == mul64(a, b),
{
    assert((a as u128) * (b as u128) <= 0xffffffffffffffffu128 * 0xffffffffffffffffu128)
        by (nonlinear_arith)
        requires a <= 0xffffffffffffffffu128 && b <= 0xffffffffffffffffu128;
    let p: u128 = (a as u128) * (b as u128);
    let m: u128 = p & 0xffffffffffffffffu128;
    assert(m <= 0xffffffffffffffffu128) by (bit_vector)
        requires m == p & 0xffffffffffffffffu128;
    m as u64
}

/// The initial state of a fresh stream.
pub const HASH_STREAM_INIT: u64 = 0x517cc1b727220a95;

/// A streaming hasher over 64-bit words.
#[derive(Debug, Clone, Copy, PartialEq, Eq, Structural)]
pub struct DefaultHashAlgoStream {
    pub state: u64,
}

impl DefaultHashAlgoStream {
    pub open spec fn view(self) -> u64 {
        self.state
    }

    pub fn new() -> (r: DefaultHashAlgoStream)
        ensures
            r@ == HASH_STREAM_INIT,
    {
        DefaultHashAlgoStream { state: HASH_STREAM_INIT }
    }

    pub fn write_u64(&mut self, w: u64)
        ensures
            final(self)@ == mix64(old(self)@, w),
    {
        let x0 = (self.state ^ w) ^ 0x9e3779b97f4a7c15u64;
        let x1 = mul64_exec(x0 ^ (x0 >> 33u64), 0xff51afd7ed558ccdu64);
        let x2 = mul64_exec(x1 ^ (x1 >> 33u64), 0xc4ceb9fe1a85ec53u64);
        self.state = x2 ^ (x2 >> 33u64);
    }

    pub fn write_u32(&mut self, w: u32)
        ensures
            final(self)@ == mix64(old(self)@, w as u64),
    {
        self.write_u64(w as u64);
    }

    /// Absorb a 128-bit word as its two halves, low first.
    pub fn write_u128(&mut self, w: u128)
        ensures
            final(self)@ == mix64(mix64(old(self)@, w as u64), (w >> 64u128) as u64),
    {
        let lo: u64 = #[verifier::truncate] (w as u64);
        let hi: u128 = w >> 64u128;
        assert(hi <= 0xffffffffffffffffu128) by (bit_vector)
            requires hi == w >> 64u128;
        self.write_u64(lo);
        self.write_u64(hi as u64);
    }

    /// Absorb raw bytes, one word per byte after a length prefix.
    pub fn write_bytes(&mut self, bytes: &Vec<u8>)
        ensures
            final(self)@ == absorb(old(self)@, bytes_words(bytes@)),
    {
        let ghost mut ws: Seq<u64> = Seq::empty();
        self.write_u64(bytes.len() as u64);
        proof {
            ws = ws.push(bytes.len() as u64);
            assert(absorb(old(self)@, ws) == self@) by {
                lemma_absorb_push(old(self)@, Seq::empty(), bytes@.len() as u64);
            };
        }
        let n = bytes.len();
        for i in 0..n
            invariant
                n == bytes@.len(),
                ws == seq![bytes@.len() as u64] + bytes@.take(i as int).map_values(|b: u8| b as u64),
                self@ == absorb(old(self)@, ws),
        {
            let b = bytes[i];
            self.write_u64(b as u64);
            proof {
                lemma_absorb_push(old(self)@, ws, b as u64);
                ws = ws.push(b as u64);
                assert(bytes@.take(i + 1).map_values(|b: u8| b as u64)
                    =~= bytes@.take(i as int).map_values(|b: u8| b as u64).push(bytes@[i as int] as u64));
            }
        }
        proof {
            assert(bytes@.take(n as int) =~= bytes@);
            assert(ws =~= bytes_words(bytes@));
        }
    }

    pub fn finalize(&self) -> (r: u64)
        ensures
            r == self@,
    {
        self.state
    }
}

/// The word sequence a byte string contributes: its length, then one
/// word per byte.
pub open spec fn bytes_words(bytes: Seq<u8>) -> Seq<u64> {
    seq![bytes.len() as u64] + bytes.map_values(|b: u8| b as u64)
}

/// A value that feeds a fixed word sequence into the hasher; its
/// digest is thereby a function of its content.
pub trait HashWords {
    spec fn words(&self) -> Seq<u64>;

    fn hash_into(&self, stream: &mut DefaultHashAlgoStream)
        ensures
            final(stream)@ == absorb(old(stream)@, self.words());
}

/// The words of a sequence of hashable values, in order.
pub open spec fn seq_words<T: HashWords>(s: Seq<T>) -> Seq<u64>
    decreases s.len(),
{
    if s.len() == 0 {
        Seq::empty()
    } else {
        s[0].words() + seq_words(s.drop_first())
    }
}

pub proof fn lemma_seq_words_take<T: HashWords>(s: Seq<T>, i: int)
    requires
        0 <= i < s.len(),
    ensures
        seq_words(s.take(i + 1)) == seq_words(s.take(i)) + s[i].words(),
    decreases i,
{
    if i == 0 {
        assert(s.take(1)[0] == s[0]);
        assert(s.take(1).drop_first() =~= Seq::<T>::empty());
        assert(s.take(0) =~= Seq::<T>::empty());
        assert(seq_words(s.take(1).drop_first()) =~= Seq::<u64>::empty());
        assert(seq_words(s.take(1)) =~= s[0].words() + Seq::<u64>::empty());
        assert(s[0].words() + Seq::<u64>::empty() =~= s[0].words());
        assert(Seq::<u64>::empty() + s[0].words() =~= s[0].words());
    } else {
        let t = s.drop_first();
        assert(s.take(i + 1)[0] == s[0]);
        assert(s.take(i + 1).drop_first() =~= t.take(i));
        assert(s.take(i)[0] == s[0]);
        assert(s.take(i).drop_first() =~= t.take(i - 1));
        lemma_seq_words_take(t, i - 1);
        assert(t[i - 1] == s[i]);
        assert(s[0].words() + (seq_words(t.take(i - 1)) + s[i].words())
            =~= (s[0].words() + seq_words(t.take(i - 1))) + s[i].words());
    }
}

/// The word contribution of a vector: a length prefix, then each
/// element's words.
pub open spec fn vec_words<T: HashWords>(s: Seq<T>) -> Seq<u64> {
    seq![s.len() as u64] + seq_words(s)
}

/// Absorb a vector of hashable values: length first, then elements.
pub fn hash_vec<T: HashWords>(stream: &mut DefaultHashAlgoStream, v: &Vec<T>)
    ensures
        final(stream)@ == absorb(old(stream)@, vec_words(v@)),
{
    let ghost mut ws: Seq<u64> = seq![v@.len() as u64];
    stream.write_u64(v.len() as u64);
    proof {
        lemma_absorb_push(old(stream)@, Seq::empty(), v@.len() as u64);
        assert(Seq::<u64>::empty().push(v@.len() as u64) =~= ws);
    }
    let n = v.len();
    for i in 0..n
        invariant
            n == v@.len(),
            ws == seq![v@.len() as u64] + seq_words(v@.take(i as int)),
            stream@ == absorb(old(stream)@, ws),
    {
        assert(v@.take(0int) =~= Seq::<T>::empty());
        v[i].hash_into(stream);
        proof {
            lemma_absorb_concat(old(stream)@, ws, v@[i as int].words());
            lemma_seq_words_take(v@, i as int);
            ws = ws + v@[i as int].words();
            assert(seq![v@.len() as u64] + (seq_words(v@.take(i as int)) + v@[i as int].words())
                =~= (seq![v@.len() as u64] + seq_words(v@.take(i as int))) + v@[i as int].words());
        }
    }
    proof {
        assert(v@.take(n as int) =~= v@);
    }
}

} // verus!
