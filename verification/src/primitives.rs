//! Small value types shared by the whole node: identifiers, heights,
//! distances, compact difficulty encodings and spans of time.

use vstd::prelude::*;

verus! {

/// Content-derived identifier of a block, transaction, pool or other
/// hashed object.
#[derive(Debug, Clone, Copy, PartialEq, Eq, Structural, Hash, PartialOrd, Ord)]
pub struct Id {
    pub value: u64,
}

impl Id {
    pub fn new(value: u64) -> (r: Id)
        ensures
            r.value == value,
    {
        Id { value }
    }

    pub fn get(&self) -> (r: u64)
        ensures
            r == self.value,
    {
        self.value
    }
}

/// Height of a block: genesis sits at height zero.
#[derive(Debug, Clone, Copy, PartialEq, Eq, Structural, PartialOrd, Ord)]
pub struct BlockHeight {
    pub val: u64,
}

impl BlockHeight {
    pub fn new(val: u64) -> (r: BlockHeight)
        ensures
            r.val == val,
    {
        BlockHeight { val }
    }

    pub fn zero() -> (r: BlockHeight)
        ensures
            r.val == 0,
    {
        BlockHeight { val: 0 }
    }

    pub fn get(&self) -> (r: u64)
        ensures
            r == self.val,
    {
        self.val
    }

    pub fn next_height(&self) -> (r: BlockHeight)
        requires
            self.val < u64::MAX,
        ensures
            r.val == self.val + 1,
    {
        BlockHeight { val: self.val + 1 }
    }

    /// Height difference as a distance; `None` on overflow of `i64`.
    pub fn distance_to(&self, lower: BlockHeight) -> (r: Option<BlockDistance>)
        ensures
            self.val >= lower.val && self.val - lower.val <= i64::MAX
                ==> (r is Some && r->0.val == self.val - lower.val),
            self.val < lower.val && lower.val - self.val <= i64::MAX
                ==> (r is Some && r->0.val == self.val - lower.val),
            (self.val - lower.val > i64::MAX || lower.val - self.val > i64::MAX) ==> r is None,
    {
        if self.val >= lower.val {
            let d = self.val - lower.val;
            if d <= i64::MAX as u64 {
                Some(BlockDistance { val: d as i64 })
            } else {
                None
            }
        } else {
            let d = lower.val - self.val;
            if d <= i64::MAX as u64 {
                Some(BlockDistance { val: -(d as i64) })
            } else {
                None
            }
        }
    }

    /// Height moved down by a distance; `None` when the result would
    /// fall outside `0..=u64::MAX`.
    pub fn sub_distance(&self, d: BlockDistance) -> (r: Option<BlockHeight>)
        ensures
            (0 <= self.val - d.val <= u64::MAX) <==> r is Some,
            r is Some ==> r->0.val == self.val - d.val,
    {
        if d.val >= 0 {
            let dv = d.val as u64;
            if self.val >= dv {
                Some(BlockHeight { val: self.val - dv })
            } else {
                None
            }
        } else {
            let dv = (-(d.val as i128)) as u64;
            if self.val <= u64::MAX - dv {
                Some(BlockHeight { val: self.val + dv })
            } else {
                None
            }
        }
    }
}

/// Signed distance between two block heights.
#[derive(Debug, Clone, Copy, PartialEq, Eq, Structural, PartialOrd, Ord)]
pub struct BlockDistance {
    pub val: i64,
}

impl BlockDistance {
    pub fn new(val: i64) -> (r: BlockDistance)
        ensures
            r.val == val,
    {
        BlockDistance { val }
    }

    pub fn get(&self) -> (r: i64)
        ensures
            r == self.val,
    {
        self.val
    }
}

/// A span of wall-clock time in whole seconds.
#[derive(Debug, Clone, Copy, PartialEq, Eq, Structural, PartialOrd, Ord)]
pub struct TimeSpan {
    pub secs: u64,
}

impl TimeSpan {
    pub fn from_secs(secs: u64) -> (r: TimeSpan)
        ensures
            r.secs == secs,
    {
        TimeSpan { secs }
    }

    pub fn as_secs(&self) -> (r: u64)
        ensures
            r == self.secs,
    {
        self.secs
    }

    /// Saturating sum of two spans.
    pub fn saturating_add(&self, other: TimeSpan) -> (r: TimeSpan)
        ensures
            r.secs == if self.secs + other.secs <= u64::MAX { self.secs + other.secs } else { u64::MAX as int },
    {
        match self.secs.checked_add(other.secs) {
            Some(v) => TimeSpan { secs: v },
            None => TimeSpan { secs: u64::MAX },
        }
    }
}

/// The source a spendable output comes from: a past transaction or a
/// block's reward payout.
#[derive(Debug, Clone, Copy, PartialEq, Eq, Structural, PartialOrd, Ord)]
pub enum OutPointSourceId {
    Transaction(Id),
    BlockReward(Id),
}

pub const SOURCE_TAG_MULTIPLIER: u128 = 0x10000000000000000;

impl OutPointSourceId {
    pub open spec fn spec_id(self) -> Id {
        match self {
            OutPointSourceId::Transaction(id) => id,
            OutPointSourceId::BlockReward(id) => id,
        }
    }

    pub open spec fn spec_tag(self) -> u128 {
        match self {
            OutPointSourceId::Transaction(_) => 0,
            OutPointSourceId::BlockReward(_) => 1,
        }
    }

    /// Table key of this source: tag and identifier packed into one
    /// integer, injectively.
    pub open spec fn spec_key(self) -> u128 {
        (self.spec_tag() * SOURCE_TAG_MULTIPLIER + self.spec_id().value as u128) as u128
    }

    pub fn key(&self) -> (r: u128)
        ensures
            r == self.spec_key(),
    {
        match self {
            OutPointSourceId::Transaction(id) => id.value as u128,
            OutPointSourceId::BlockReward(id) => SOURCE_TAG_MULTIPLIER + id.value as u128,
        }
    }

    pub fn get_id(&self) -> (r: Id)
        ensures
            r == self.spec_id(),
    {
        match self {
            OutPointSourceId::Transaction(id) => *id,
            OutPointSourceId::BlockReward(id) => *id,
        }
    }

    pub fn eq_source(&self, other: &OutPointSourceId) -> (r: bool)
        ensures
            r == (*self == *other),
    {
        match (self, other) {
            (OutPointSourceId::Transaction(a), OutPointSourceId::Transaction(b)) => a.value == b.value,
            (OutPointSourceId::BlockReward(a), OutPointSourceId::BlockReward(b)) => a.value == b.value,
            _ => false,
        }
    }
}

/// Packing a source key is injective.
pub proof fn lemma_source_key_injective(a: OutPointSourceId, b: OutPointSourceId)
    requires
        a.spec_key() == b.spec_key(),
    ensures
        a == b,
{
    assert(a.spec_id().value < SOURCE_TAG_MULTIPLIER);
    assert(b.spec_id().value < SOURCE_TAG_MULTIPLIER);
}

/// Reference to one spendable output: its source and the output's
/// position within that source.
#[derive(Debug, Clone, Copy, PartialEq, Eq, Structural, PartialOrd, Ord)]
pub struct OutPoint {
    pub source: OutPointSourceId,
    pub index: u32,
}

pub const OUTPOINT_TAG_MULTIPLIER: u128 = 0x100000000000000000000000000;
pub const OUTPOINT_ID_MULTIPLIER: u128 = 0x100000000;

impl OutPoint {
    pub fn new(source: OutPointSourceId, index: u32) -> (r: OutPoint)
        ensures
            r.source == source,
            r.index == index,
    {
        OutPoint { source, index }
    }

    /// Table key: tag, source id and output index packed injectively.
    pub open spec fn spec_key(self) -> u128 {
        (self.source.spec_tag() * OUTPOINT_TAG_MULTIPLIER
            + (self.source.spec_id().value as u128) * OUTPOINT_ID_MULTIPLIER
            + self.index as u128) as u128
    }

    pub fn key(&self) -> (r: u128)
        ensures
            r == self.spec_key(),
    {
        self.source.spec_tag_exec() * OUTPOINT_TAG_MULTIPLIER
            + (self.source.get_id().value as u128) * OUTPOINT_ID_MULTIPLIER
            + self.index as u128
    }

    pub fn get_tx_id(&self) -> (r: OutPointSourceId)
        ensures
            r == self.source,
    {
        self.source
    }

    pub fn get_output_index(&self) -> (r: u32)
        ensures
            r == self.index,
    {
        self.index
    }

    pub fn eq_outpoint(&self, other: &OutPoint) -> (r: bool)
        ensures
            r == (*self == *other),
    {
        self.source.eq_source(&other.source) && self.index == other.index
    }
}

impl OutPointSourceId {
    pub fn spec_tag_exec(&self) -> (r: u128)
        ensures
            r == self.spec_tag(),
    {
        match self {
            OutPointSourceId::Transaction(_) => 0,
            OutPointSourceId::BlockReward(_) => 1,
        }
    }
}

/// Packing an outpoint key is injective.
pub proof fn lemma_outpoint_key_injective(a: OutPoint, b: OutPoint)
    requires
        a.spec_key() == b.spec_key(),
    ensures
        a == b,
{
    let aid = a.source.spec_id().value as u128;
    let bid = b.source.spec_id().value as u128;
    assert(aid * OUTPOINT_ID_MULTIPLIER + (a.index as u128) < OUTPOINT_TAG_MULTIPLIER) by {
        assert(aid <= 0xffffffffffffffffu128);
        assert(aid * OUTPOINT_ID_MULTIPLIER <= 0xffffffffffffffffu128 * OUTPOINT_ID_MULTIPLIER)
            by (nonlinear_arith)
            requires aid <= 0xffffffffffffffffu128;
    };
    assert(bid * OUTPOINT_ID_MULTIPLIER + (b.index as u128) < OUTPOINT_TAG_MULTIPLIER) by {
        assert(bid <= 0xffffffffffffffffu128);
        assert(bid * OUTPOINT_ID_MULTIPLIER <= 0xffffffffffffffffu128 * OUTPOINT_ID_MULTIPLIER)
            by (nonlinear_arith)
            requires bid <= 0xffffffffffffffffu128;
    };
    assert(a.source.spec_tag() == b.source.spec_tag());
    assert(aid * OUTPOINT_ID_MULTIPLIER + (a.index as u128)
        == bid * OUTPOINT_ID_MULTIPLIER + (b.index as u128));
    assert(aid == bid && a.index == b.index) by (nonlinear_arith)
        requires
            aid * 0x100000000u128 + (a.index as u128) == bid * 0x100000000u128 + (b.index as u128),
            a.index < 0x100000000u128,
            b.index < 0x100000000u128;
}

/// Compact ("bits") encoding of a 128-bit difficulty target, in the
/// classic mantissa-and-exponent form: the target equals
/// `mantissa * 256^(exponent - 3)`.
#[derive(Debug, Clone, Copy, PartialEq, Eq, Structural, PartialOrd, Ord)]
pub struct Compact {
    pub bits: u32,
}

impl Compact {
    pub fn new(bits: u32) -> (r: Compact)
        ensures
            r.bits == bits,
    {
        Compact { bits }
    }

    pub open spec fn spec_mantissa(self) -> u32 {
        self.bits & 0x007fffff
    }

    pub open spec fn spec_exponent(self) -> u32 {
        self.bits >> 24
    }

    /// The target a compact value denotes, when it fits 128 bits and
    /// carries no sign bit.
    pub open spec fn spec_target(self) -> Option<u128> {
        if self.bits & 0x00800000u32 != 0 {
            None
        } else if self.spec_exponent() <= 3 {
            Some((self.spec_mantissa() >> ((3 - self.spec_exponent()) * 8)) as u128)
        } else if self.spec_exponent() <= 18 {
            Some((self.spec_mantissa() as u128) << ((self.spec_exponent() - 3) * 8))
        } else if self.spec_mantissa() == 0 {
            Some(0)
        } else {
            None
        }
    }

    /// Decode the target; `None` when the sign bit is set or the
    /// value does not fit 128 bits.
    pub fn to_target(&self) -> (r: Option<u128>)
        ensures
            r == self.spec_target(),
    {
        let mantissa: u32 = self.bits & 0x007fffff;
        let exponent: u32 = self.bits >> 24;
        let ghost b = self.bits;
        assert(exponent <= 255) by (bit_vector) requires exponent == b >> 24;
        if self.bits & 0x00800000u32 != 0 {
            None
        } else if exponent <= 3 {
            let sh = (3 - exponent) * 8;
            assert(sh <= 24);
            Some((mantissa >> sh) as u128)
        } else if exponent <= 18 {
            let sh = (exponent - 3) * 8;
            assert(sh <= 120);
            Some((mantissa as u128) << sh)
        } else if mantissa == 0 {
            Some(0)
        } else {
            None
        }
    }

    /// Encode a 128-bit target in compact form. Round-trips exactly
    /// for targets whose mantissa fits 23 bits.
    pub fn from_target(target: u128) -> (r: Compact) {
        let mut mantissa: u128 = target;
        let mut exponent: u32 = 3;
        while mantissa > 0x007fffff && exponent < 40
            invariant
                3 <= exponent <= 40,
            decreases mantissa,
        {
            mantissa = mantissa / 256;
            exponent = exponent + 1;
        }
        let m32 = (mantissa & 0x007fffff) as u32;
        Compact { bits: (exponent << 24) | m32 }
    }
}

} // verus!
