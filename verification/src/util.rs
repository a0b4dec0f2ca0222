//! Clock access and per-connection transfer metrics.
//!
//! Time is carried through the verified core as a plain `u128` count of
//! nanoseconds, so every liveness decision is a pure function of its
//! arguments; only [`timestamp`] touches the real clock.

use vstd::prelude::*;

verus! {

/// Nanoseconds since the Unix epoch, as read from the system clock.
///
/// Relies on `std::time::SystemTime::now`: the result is converted to a plain
/// nanosecond count against the Unix epoch, and is zero in the (never
/// expected) case of a clock that precedes the epoch. Nothing can be promised
/// of a clock reading, so this wrapper has no contract.
#[verifier::external_body]
pub fn timestamp() -> u128 {
    match std::time::SystemTime::now().duration_since(std::time::UNIX_EPOCH) {
        Ok(d) => d.as_nanos(),
        Err(_) => 0,
    }
}

/// `a + b`, stopping at the largest `u128` value instead of wrapping.
pub open spec fn sat_add_u128(a: u128, b: u128) -> u128 {
    if a + b <= u128::MAX {
        (a + b) as u128
    } else {
        u128::MAX
    }
}

/// `a + 1`, stopping at the largest `u64` value instead of wrapping.
pub open spec fn sat_inc_u64(a: u64) -> u64 {
    if a < u64::MAX {
        (a + 1) as u64
    } else {
        u64::MAX
    }
}

/// What a metrics record becomes after one transfer of `size` bytes at `now`.
pub open spec fn metrics_transferred(m: Metrics, size: usize, now: u128) -> Metrics {
    Metrics {
        bytes_transfer: sat_add_u128(m.bytes_transfer, size as u128),
        packets_transfer: sat_inc_u64(m.packets_transfer),
        last_transfer: now,
    }
}

/// Byte and packet counters for one direction of one connection, together
/// with the instant (nanoseconds) of the most recent transfer.
#[derive(Clone, Copy, PartialEq, Eq, Structural, Debug)]
pub struct Metrics {
    pub bytes_transfer: u128,
    pub packets_transfer: u64,
    pub last_transfer: u128,
}

impl Metrics {
    /// Fresh counters whose last-transfer instant is `now`.
    pub fn new(now: u128) -> (m: Metrics)
        ensures
            m == (Metrics { bytes_transfer: 0, packets_transfer: 0, last_transfer: now }),
    {
        Metrics { bytes_transfer: 0, packets_transfer: 0, last_transfer: now }
    }

    /// Record one transfer of `size` bytes at instant `now`. Counters
    /// saturate rather than wrap; the counters are never reset.
    pub fn transfer(&mut self, size: usize, now: u128)
        ensures
            *final(self) == metrics_transferred(*old(self), size, now),
    {
        if self.bytes_transfer <= u128::MAX - size as u128 {
            self.bytes_transfer = self.bytes_transfer + size as u128;
        } else {
            self.bytes_transfer = u128::MAX;
        }
        if self.packets_transfer < u64::MAX {
            self.packets_transfer = self.packets_transfer + 1;
        }
        self.last_transfer = now;
    }
}

} // verus!
