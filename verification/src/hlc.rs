//! Hybrid logical clock timestamps.
//!
//! A timestamp pairs a physical wall-clock reading with a logical counter so
//! that operations created on several devices are totally ordered.
use vstd::prelude::*;

verus! {

/// Largest wall-clock reading that fits the 48-bit field of the packed form.
pub open spec fn wall_fits_48(wall: u64) -> bool {
    wall < 0x1_0000_0000_0000
}

/// Hybrid Logical Clock timestamp for causal ordering of operations.
///
/// Combines a physical wall-clock component with a logical counter
/// to ensure unique, monotonically increasing timestamps across devices.
#[derive(Debug, Clone, Copy, PartialEq, Eq, Structural, PartialOrd, Ord, Hash)]
pub struct HlcTimestamp {
    /// Physical time component (milliseconds since Unix epoch).
    pub wall_time_ms: u64,
    /// Logical counter for disambiguation within the same millisecond.
    pub counter: u16,
    /// Device/node identifier hash.
    pub node_id: u32,
}

/// The order on timestamps: by wall time, then counter, then node id.
pub open spec fn hlc_lt(a: HlcTimestamp, b: HlcTimestamp) -> bool {
    ||| a.wall_time_ms < b.wall_time_ms
    ||| (a.wall_time_ms == b.wall_time_ms && a.counter < b.counter)
    ||| (a.wall_time_ms == b.wall_time_ms && a.counter == b.counter && a.node_id < b.node_id)
}

/// The (wall time, counter) part of the order, which ignores the node id.
pub open spec fn clock_lt(a: HlcTimestamp, b: HlcTimestamp) -> bool {
    ||| a.wall_time_ms < b.wall_time_ms
    ||| (a.wall_time_ms == b.wall_time_ms && a.counter < b.counter)
}

/// The packed 64-bit form: wall time in the upper 48 bits, counter in the lower 16.
pub open spec fn packed(t: HlcTimestamp) -> int {
    t.wall_time_ms * 65536 + t.counter
}

pub open spec fn max_u64(a: u64, b: u64) -> u64 {
    if a >= b { a } else { b }
}

/// The wall time that `merge` picks: the largest of the three readings.
pub open spec fn merged_wall(local: HlcTimestamp, remote: HlcTimestamp, now_ms: u64) -> u64 {
    max_u64(max_u64(now_ms, local.wall_time_ms), remote.wall_time_ms)
}

/// The counter that `merge` picks for the given readings.
pub open spec fn merged_counter(local: HlcTimestamp, remote: HlcTimestamp, now_ms: u64) -> int {
    let w = merged_wall(local, remote, now_ms);
    if w == local.wall_time_ms && w == remote.wall_time_ms {
        (if local.counter >= remote.counter { local.counter } else { remote.counter }) + 1
    } else if w == local.wall_time_ms {
        local.counter + 1
    } else if w == remote.wall_time_ms {
        remote.counter + 1
    } else {
        0
    }
}

/// Whether `tick` can advance without the counter leaving its 16 bits.
pub open spec fn tick_fits(t: HlcTimestamp, now_ms: u64) -> bool {
    now_ms > t.wall_time_ms || t.counter < u16::MAX
}

/// Whether `merge` can advance without the counter leaving its 16 bits.
pub open spec fn merge_fits(local: HlcTimestamp, remote: HlcTimestamp, now_ms: u64) -> bool {
    merged_counter(local, remote, now_ms) <= u16::MAX
}

/// The timestamp that ticking `t` at wall-clock reading `now_ms` gives: the
/// reading itself with a zero counter when the clock moved forward, else the
/// same wall time with the counter one higher.
pub open spec fn ticked(t: HlcTimestamp, now_ms: u64) -> HlcTimestamp {
    if now_ms > t.wall_time_ms {
        HlcTimestamp { wall_time_ms: now_ms, counter: 0, node_id: t.node_id }
    } else {
        HlcTimestamp { wall_time_ms: t.wall_time_ms, counter: (t.counter + 1) as u16, node_id: t.node_id }
    }
}

/// The timestamp that merging `remote` into `local` at `now_ms` gives; it
/// keeps the local node id.
pub open spec fn merged(local: HlcTimestamp, remote: HlcTimestamp, now_ms: u64) -> HlcTimestamp {
    HlcTimestamp {
        wall_time_ms: merged_wall(local, remote, now_ms),
        counter: merged_counter(local, remote, now_ms) as u16,
        node_id: local.node_id,
    }
}

impl HlcTimestamp {
    /// Create a new HLC timestamp with the given wall time.
    pub fn new(wall_time_ms: u64, node_id: u32) -> (t: Self)
        ensures
            t.wall_time_ms == wall_time_ms,
            t.counter == 0,
            t.node_id == node_id,
    {
        HlcTimestamp { wall_time_ms, counter: 0, node_id }
    }

    /// Create a zero timestamp (used as a default/sentinel).
    pub fn zero() -> (t: Self)
        ensures
            t.wall_time_ms == 0,
            t.counter == 0,
            t.node_id == 0,
    {
        HlcTimestamp { wall_time_ms: 0, counter: 0, node_id: 0 }
    }

    /// Convert to a single u64 for storage (wall time in the upper 48 bits,
    /// counter in the lower 16 bits). The wall time must fit in 48 bits.
    pub fn to_u64(&self) -> (v: u64)
        requires
            wall_fits_48(self.wall_time_ms),
        ensures
            v == packed(*self),
    {
        let w = self.wall_time_ms;
        let c = self.counter as u64;
        assert((w << 16u64) | c == w * 65536 + c) by (bit_vector)
            requires
                w < 0x1_0000_0000_0000u64,
                c < 65536u64,
        ;
        (w << 16u64) | c
    }

    /// Reconstruct from a u64 value.
    pub fn from_u64(val: u64, node_id: u32) -> (t: Self)
        ensures
            t.wall_time_ms == val / 65536,
            t.counter == val % 65536,
            t.node_id == node_id,
            wall_fits_48(t.wall_time_ms),
            packed(t) == val,
    {
        let w = val >> 16u64;
        let low = val & 0xFFFFu64;
        assert(w == val / 65536 && low == val % 65536 && w < 0x1_0000_0000_0000u64) by (bit_vector)
            requires
                w == val >> 16u64,
                low == val & 0xFFFFu64,
        ;
        HlcTimestamp { wall_time_ms: w, counter: low as u16, node_id }
    }

    /// Tick the clock: advance based on the current wall time.
    /// The result is greater than `self`.
    pub fn tick(&self, now_ms: u64) -> (t: Self)
        requires
            tick_fits(*self, now_ms),
        ensures
            t == ticked(*self, now_ms),
    {
        if now_ms > self.wall_time_ms {
            HlcTimestamp { wall_time_ms: now_ms, counter: 0, node_id: self.node_id }
        } else {
            HlcTimestamp { wall_time_ms: self.wall_time_ms, counter: self.counter + 1, node_id: self.node_id }
        }
    }

    /// Merge with a remote timestamp. The result is greater than both.
    pub fn merge(&self, remote: &HlcTimestamp, now_ms: u64) -> (t: Self)
        requires
            merge_fits(*self, *remote, now_ms),
        ensures
            t == merged(*self, *remote, now_ms),
    {
        let a = if now_ms >= self.wall_time_ms { now_ms } else { self.wall_time_ms };
        let max_wall = if a >= remote.wall_time_ms { a } else { remote.wall_time_ms };
        let counter: u16 = if max_wall == self.wall_time_ms && max_wall == remote.wall_time_ms {
            let m = if self.counter >= remote.counter { self.counter } else { remote.counter };
            m + 1
        } else if max_wall == self.wall_time_ms {
            self.counter + 1
        } else if max_wall == remote.wall_time_ms {
            remote.counter + 1
        } else {
            0
        };
        HlcTimestamp { wall_time_ms: max_wall, counter, node_id: self.node_id }
    }
}

/// Resolve a Last-Writer-Wins conflict between local and remote operations.
///
/// Returns true if the remote operation should win (it has the higher
/// packed HLC timestamp); on a tie the local operation wins.
pub fn lww_resolve(local_hlc_ts: u64, remote_hlc_ts: u64) -> (remote_wins: bool)
    ensures
        remote_wins == (remote_hlc_ts > local_hlc_ts),
{
    remote_hlc_ts > local_hlc_ts
}

/// Ticking the clock always yields a timestamp later than the one ticked,
/// on the same node, and not earlier than the wall-clock reading.
pub proof fn lemma_tick_advances(t: HlcTimestamp, now_ms: u64)
    requires
        tick_fits(t, now_ms),
    ensures
        clock_lt(t, ticked(t, now_ms)),
        hlc_lt(t, ticked(t, now_ms)),
        ticked(t, now_ms).node_id == t.node_id,
        ticked(t, now_ms).wall_time_ms >= now_ms,
{
}

/// A merged timestamp is later than both the local and the remote one, and
/// never earlier than the current wall-clock reading.
pub proof fn lemma_merge_dominates(local: HlcTimestamp, remote: HlcTimestamp, now_ms: u64)
    requires
        merge_fits(local, remote, now_ms),
    ensures
        clock_lt(local, merged(local, remote, now_ms)),
        clock_lt(remote, merged(local, remote, now_ms)),
        hlc_lt(local, merged(local, remote, now_ms)),
        merged(local, remote, now_ms).wall_time_ms >= now_ms,
{
}

/// Packing preserves the clock order: for timestamps whose wall time fits in
/// 48 bits, comparing the packed values compares (wall time, counter).
pub proof fn lemma_packed_order(a: HlcTimestamp, b: HlcTimestamp)
    requires
        wall_fits_48(a.wall_time_ms),
        wall_fits_48(b.wall_time_ms),
    ensures
        clock_lt(a, b) <==> packed(a) < packed(b),
        packed(a) == packed(b) <==> (a.wall_time_ms == b.wall_time_ms && a.counter == b.counter),
{
}

/// Unpacking a packed timestamp gives back its wall time and counter.
pub proof fn lemma_pack_roundtrip(t: HlcTimestamp)
    requires
        wall_fits_48(t.wall_time_ms),
    ensures
        packed(t) / 65536 == t.wall_time_ms,
        packed(t) % 65536 == t.counter,
{
}

} // verus!
