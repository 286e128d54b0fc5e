//! The two report fields that change by themselves: the timestamp and the
//! vibration byte.
use std::time::Instant;
use vstd::prelude::*;

use crate::clock::nanos_since;

verus! {

/// Nanoseconds per timestamp unit: four units to the millisecond.
pub const NANOS_PER_UNIT: u128 = 250_000;

/// Vibration byte values, cycled round-robin in every report.
///
/// The console watches that this byte keeps changing to confirm that the
/// controller is alive. A stuck value makes it treat the controller as frozen
/// and drop the connection.
pub const VIBRATOR_BYTES: [u8; 4] = [0xA0, 0xB0, 0xC0, 0x90];

/// How far `nanos` of elapsed time moves the timestamp: four units per
/// millisecond, whole units only.
pub open spec fn stamp_step(nanos: int) -> int {
    nanos / (NANOS_PER_UNIT as int)
}

/// The timestamp `nanos` after it read `value`. It wraps freely.
pub open spec fn stamp_after(value: u8, nanos: u128) -> u8 {
    ((value + stamp_step(nanos as int)) % 256) as u8
}

/// Timestamp and vibration state of a series of reports.
pub struct Timer {
    value: u8,
    last: Option<Instant>,
    vib_idx: u8,
}

impl Timer {
    /// The timestamp that the latest report carried.
    pub closed spec fn stamp(&self) -> u8 {
        self.value
    }

    /// When the clock was last read.
    pub closed spec fn last_tick(&self) -> Option<Instant> {
        self.last
    }

    /// Which of the vibration bytes comes next.
    pub closed spec fn phase(&self) -> int {
        self.vib_idx as int
    }

    pub open spec fn wf(&self) -> bool {
        0 <= self.phase() < 4
    }

    pub fn new() -> (timer: Timer)
        ensures
            timer.wf(),
            timer.stamp() == 0,
            timer.last_tick() is None,
            timer.phase() == 0,
    {
        Timer { value: 0, last: None, vib_idx: 0 }
    }

    /// Moves the timestamp on by `elapsed` nanoseconds, or leaves it where it
    /// is when no earlier reading exists to measure from.
    pub fn advance(&mut self, elapsed: Option<u128>) -> (stamp: u8)
        ensures
            stamp == final(self).stamp(),
            stamp == (match elapsed {
                Some(nanos) => stamp_after(old(self).stamp(), nanos),
                None => old(self).stamp(),
            }),
            final(self).last_tick() == old(self).last_tick(),
            final(self).phase() == old(self).phase(),
    {
        if let Some(nanos) = elapsed {
            let units: u128 = nanos / NANOS_PER_UNIT;
            self.value = self.value.wrapping_add((units % 256) as u8);
        }
        self.value
    }

    /// Takes in a reading of the clock and advances the timestamp by the time
    /// since the last one.
    pub fn tick_at(&mut self, now: Instant) -> (stamp: u8)
        ensures
            stamp == final(self).stamp(),
            final(self).last_tick() == Some(now),
            stamp == (match old(self).last_tick() {
                Some(last) => stamp_after(
                    old(self).stamp(),
                    crate::clock::nanos_between(last, now),
                ),
                None => old(self).stamp(),
            }),
            final(self).phase() == old(self).phase(),
    {
        let elapsed: Option<u128> = match self.last {
            Some(last) => Some(nanos_since(now, last)),
            None => None,
        };
        self.last = Some(now);
        self.advance(elapsed)
    }

    /// Reads the clock and advances the timestamp by the time since the last
    /// reading. That the reading is a fresh one is not part of the contract.
    pub fn tick(&mut self) -> (stamp: u8)
        ensures
            stamp == final(self).stamp(),
            ticked(*old(self), *final(self)),
            final(self).phase() == old(self).phase(),
    {
        self.tick_at(Instant::now())
    }

    /// The next vibration byte.
    pub fn vib(&mut self) -> (byte: u8)
        requires
            old(self).wf(),
        ensures
            final(self).wf(),
            byte == vib_byte(old(self).phase()),
            final(self).phase() == (old(self).phase() + 1) % 4,
            final(self).stamp() == old(self).stamp(),
            final(self).last_tick() == old(self).last_tick(),
    {
        let byte: u8 = VIBRATOR_BYTES[self.vib_idx as usize];
        self.vib_idx = (self.vib_idx + 1) % 4;
        byte
    }
}

/// The clock was read once between `before` and `after`, and the timestamp
/// moved by the time since the reading before that.
pub open spec fn ticked(before: Timer, after: Timer) -> bool {
    &&& after.last_tick() matches Some(now)
    &&& after.stamp() == match before.last_tick() {
        Some(last) => stamp_after(before.stamp(), crate::clock::nanos_between(last, now)),
        None => before.stamp(),
    }
}

/// The vibration byte of a phase.
pub open spec fn vib_byte(phase: int) -> u8 {
    VIBRATOR_BYTES@[phase]
}

/// The timestamp moves by four units per millisecond and wraps freely.
pub proof fn law_four_units_per_millisecond(value: u8, millis: u128)
    requires
        millis * 1_000_000 <= u128::MAX,
    ensures
        stamp_after(value, (millis * 1_000_000) as u128) == (value + 4 * millis) % 256,
{
    assert((millis * 1_000_000) as u128 == millis * 1_000_000);
    assert((millis * 1_000_000) / 250_000 == 4 * millis);
}

/// The timestamp goes round once in sixty-four milliseconds.
pub proof fn law_timestamp_full_cycle(value: u8, nanos: u128)
    requires
        nanos + 64_000_000 <= u128::MAX,
    ensures
        stamp_after(value, (nanos + 64_000_000) as u128) == stamp_after(value, nanos),
{
    assert((nanos + 64_000_000) / 250_000 == nanos / 250_000 + 256);
}

/// The timestamp increments: unless a report comes a whole number of cycles
/// after the one before it, or within the same unit, it carries another one.
pub proof fn law_timestamp_increments(value: u8, nanos: u128)
    requires
        stamp_step(nanos as int) % 256 != 0,
    ensures
        stamp_after(value, nanos) != value,
{
}

/// No two reports in a row of one series carry the same vibration byte.
pub proof fn law_vibration_keeps_changing(phase: int)
    requires
        0 <= phase < 4,
    ensures
        vib_byte(phase) != vib_byte((phase + 1) % 4),
{
}

/// The vibration bytes come round: four reports carry each of the four values
/// once, and the fifth starts over.
pub proof fn law_vibration_round_robin(phase: int, byte: u8)
    requires
        0 <= phase < 4,
        VIBRATOR_BYTES@.contains(byte),
    ensures
        (phase + 4) % 4 == phase,
        exists|k: int| 0 <= k < 4 && #[trigger] vib_byte((phase + k) % 4) == byte,
{
    let at = choose|i: int| 0 <= i < 4 && VIBRATOR_BYTES@[i] == byte;
    let k = (at - phase) % 4;
    assert(vib_byte((phase + k) % 4) == byte);
}

/// Elapsed time counts in quarters of a millisecond: a report that comes sooner
/// than that after the one before carries the same timestamp, and every further
/// quarter adds one, past 255 to 0.
pub proof fn law_timestamp_counts_quarters(value: u8, nanos: u128)
    ensures
        nanos < 250_000 ==> stamp_after(value, nanos) == value,
        nanos >= 250_000 ==> stamp_after(value, nanos) == (stamp_after(
            value,
            (nanos - 250_000) as u128,
        ) + 1) % 256,
{
    if nanos >= 250_000 {
        assert(nanos as int / 250_000 == (nanos - 250_000) / 250_000 + 1);
    }
}

/// What a tick does to the timestamp: the first reading leaves it alone, every
/// other one adds the quarters of a millisecond since the reading before.
pub proof fn law_tick_adds_elapsed_time(before: Timer, after: Timer)
    requires
        ticked(before, after),
    ensures
        after.last_tick() is Some,
        before.last_tick() is None ==> after.stamp() == before.stamp(),
        before.last_tick() is Some ==> after.stamp() == (before.stamp()
            + crate::clock::nanos_between(before.last_tick()->0, after.last_tick()->0) as int
            / 250_000) % 256,
{
}

/// The cycle of vibration bytes: A0, B0, C0, 90.
pub proof fn law_vibration_cycle(phase: int)
    requires
        0 <= phase < 4,
    ensures
        vib_byte(phase) == seq![0xA0u8, 0xB0u8, 0xC0u8, 0x90u8][phase],
{
}

} // verus!
