use vstd::prelude::*;

use crate::trade::{TradeDetails, TradeState};
use crate::user::UserId;

verus! {

/// An instant in UTC: whole seconds since the Unix epoch, negative before it, and the
/// nanoseconds past that second.
#[derive(Clone, Copy, PartialEq, Eq, Structural, Debug)]
pub struct Timestamp {
    pub seconds: i64,
    pub nanoseconds: u32,
}

/// The instant of a timestamp, in nanoseconds from the Unix epoch.
pub open spec fn instant(t: Timestamp) -> int {
    t.seconds * 1_000_000_000 + t.nanoseconds
}

/// Reads the system clock with std's `SystemTime::now` and measures the reading from
/// the Unix epoch with `duration_since(UNIX_EPOCH)`: `(true, s, n)` where the clock
/// reads `s` seconds and `n` nanoseconds past the epoch, `(false, s, n)` where
/// `duration_since` fails because the clock reads that long before it.
/// Trusted: nothing is stated of the reading but that the nanoseconds of a `Duration`
/// are below one second, as std documents for `subsec_nanos`.
#[verifier::external_body]
fn clock_reading() -> (reading: (bool, u64, u32))
    ensures
        reading.2 < 1_000_000_000,
{
    match std::time::SystemTime::now().duration_since(std::time::UNIX_EPOCH) {
        Ok(elapsed) => (true, elapsed.as_secs(), elapsed.subsec_nanos()),
        Err(early) => (false, early.duration().as_secs(), early.duration().subsec_nanos()),
    }
}

impl Timestamp {
    /// The timestamp `seconds` and `nanoseconds` away from the Unix epoch, after it
    /// where `after_epoch` and before it otherwise. An offset beyond what `i64` seconds
    /// hold is pinned to the last or first whole second they hold.
    pub fn from_epoch_offset(after_epoch: bool, seconds: u64, nanoseconds: u32) -> (t: Timestamp)
        requires
            nanoseconds < 1_000_000_000,
        ensures
            t.nanoseconds < 1_000_000_000,
            seconds < i64::MAX ==> instant(t) == if after_epoch {
                seconds * 1_000_000_000 + nanoseconds
            } else {
                -(seconds * 1_000_000_000 + nanoseconds)
            },
            seconds >= i64::MAX ==> t == (if after_epoch {
                Timestamp { seconds: i64::MAX, nanoseconds: 0 }
            } else {
                Timestamp { seconds: i64::MIN, nanoseconds: 0 }
            }),
    {
        if seconds >= i64::MAX as u64 {
            if after_epoch {
                Timestamp { seconds: i64::MAX, nanoseconds: 0 }
            } else {
                Timestamp { seconds: i64::MIN, nanoseconds: 0 }
            }
        } else if after_epoch {
            Timestamp { seconds: seconds as i64, nanoseconds }
        } else if nanoseconds == 0 {
            Timestamp { seconds: -(seconds as i64), nanoseconds: 0 }
        } else {
            Timestamp { seconds: -(seconds as i64) - 1, nanoseconds: 1_000_000_000 - nanoseconds }
        }
    }

    /// The current time of the system clock.
    pub fn now() -> (t: Timestamp)
        ensures
            t.nanoseconds < 1_000_000_000,
    {
        let (after_epoch, seconds, nanoseconds) = clock_reading();
        Timestamp::from_epoch_offset(after_epoch, seconds, nanoseconds)
    }
}

/// Identifies an entry in a trade's history; the entries of a trade are numbered from 1.
#[derive(Clone, Copy, Eq, PartialEq, Structural, Debug)]
pub struct HistoryId(pub u64);

impl HistoryId {
    pub fn new(id: u64) -> (history_id: HistoryId)
        ensures
            history_id.0 == id,
    {
        HistoryId(id)
    }
}

/// One transition of a trade: who made it, between which states, the details that
/// were in effect before it, the notes given with it and when it happened.
#[derive(Debug, Eq, PartialEq)]
pub struct History {
    pub id: HistoryId,
    pub user_id: UserId,
    pub state_before: TradeState,
    pub state_after: TradeState,
    pub details_before: TradeDetails,
    pub notes: String,
    pub timestamp: Timestamp,
}

impl History {
    /// A history entry with the given fields, stamped with the current time of the
    /// system clock.
    pub fn new(
        id: HistoryId,
        user_id: UserId,
        state_before: TradeState,
        state_after: TradeState,
        details_before: TradeDetails,
        notes: String,
    ) -> (entry: History)
        ensures
            entry.id == id,
            entry.user_id == user_id,
            entry.state_before == state_before,
            entry.state_after == state_after,
            entry.details_before == details_before,
            entry.notes == notes,
            entry.timestamp.nanoseconds < 1_000_000_000,
    {
        History {
            id,
            user_id,
            state_before,
            state_after,
            details_before,
            timestamp: Timestamp::now(),
            notes,
        }
    }
}

} // verus!
