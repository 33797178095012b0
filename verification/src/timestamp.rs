//! Block timestamps: whole seconds since the epoch, stored in 32 bits.

use vstd::prelude::*;

use crate::primitives::TimeSpan;

verus! {

#[derive(Debug, Clone, Copy, PartialEq, Eq, Structural, PartialOrd, Ord)]
pub struct BlockTimestamp {
    pub timestamp: u32,
}

#[derive(Debug, Clone, Copy, PartialEq, Eq, Structural)]
pub enum TimestampError {
    DurationTooLargeForU32(TimeSpan),
}

impl BlockTimestamp {
    pub fn from_int_seconds(timestamp: u32) -> (r: BlockTimestamp)
        ensures
            r.timestamp == timestamp,
    {
        BlockTimestamp { timestamp }
    }

    /// A timestamp from a span since the epoch; rejected exactly when
    /// the seconds do not fit 32 bits.
    pub fn from_duration_since_epoch(duration: TimeSpan) -> (r: Result<BlockTimestamp, TimestampError>)
        ensures
            duration.secs <= u32::MAX
                ==> r == Result::<BlockTimestamp, TimestampError>::Ok(BlockTimestamp { timestamp: duration.secs as u32 }),
            duration.secs > u32::MAX
                ==> r == Result::<BlockTimestamp, TimestampError>::Err(TimestampError::DurationTooLargeForU32(duration)),
    {
        if duration.secs <= u32::MAX as u64 {
            Ok(BlockTimestamp { timestamp: duration.secs as u32 })
        } else {
            Err(TimestampError::DurationTooLargeForU32(duration))
        }
    }

    pub fn as_duration_since_epoch(&self) -> (r: TimeSpan)
        ensures
            r.secs == self.timestamp,
    {
        TimeSpan { secs: self.timestamp as u64 }
    }

    pub fn as_int_seconds(&self) -> (r: u32)
        ensures
            r == self.timestamp,
    {
        self.timestamp
    }
}

} // verus!
