use vstd::prelude::*;

verus! {

/// Number of microseconds in one second.
pub const MICROS_PER_SECOND: u64 = 1_000_000;

/// A local reading of the real-time clock, kept in microseconds since the
/// Unix epoch, from which the SNTP client builds the timestamps it sends.
#[derive(Clone, Copy)]
pub struct Timestamp {
    pub current_time_us: u64,
}

impl Timestamp {
    /// A reading of `current_time_us` microseconds since the Unix epoch.
    pub fn new(current_time_us: u64) -> (r: Self)
        ensures
            r.current_time_us == current_time_us,
    {
        Timestamp { current_time_us }
    }

    /// Records a fresh reading of the real-time clock, in microseconds.
    pub fn init(&mut self, now_us: u64)
        ensures
            final(self).current_time_us == now_us,
    {
        self.current_time_us = now_us;
    }

    /// Whole seconds since the Unix epoch of the recorded reading.
    pub fn timestamp_sec(&self) -> (r: u64)
        ensures
            r == self.current_time_us / 1_000_000,
    {
        self.current_time_us / MICROS_PER_SECOND
    }

    /// Microseconds past the last whole second of the recorded reading.
    pub fn timestamp_subsec_micros(&self) -> (r: u32)
        ensures
            r == self.current_time_us % 1_000_000,
            r < 1_000_000,
    {
        (self.current_time_us % MICROS_PER_SECOND) as u32
    }
}

/// The whole seconds and the sub-second microseconds of a reading together
/// give back the reading, and the sub-second part is below one second.
pub proof fn lemma_timestamp_split(t: Timestamp)
    ensures
        (t.current_time_us / 1_000_000) * 1_000_000 + t.current_time_us % 1_000_000
            == t.current_time_us,
        t.current_time_us % 1_000_000 < 1_000_000,
{
}

} // verus!
