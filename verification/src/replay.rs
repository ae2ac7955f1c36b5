//! The decisions of the replay loop: what is printed, how long to wait
//! between frames, and how many frames went out.
use vstd::prelude::*;

verus! {

/// Whether the tool prints as it goes (it does in a dry run only).
pub struct Output {
    pub enabled: bool,
}

impl Output {
    /// Output that prints exactly when `enabled`.
    pub fn new(enabled: bool) -> (out: Self)
        ensures
            out.enabled == enabled,
    {
        Output { enabled }
    }
}

/// The longest pause between two frames, in microseconds: longer gaps in a
/// recording are not waited for.
pub const MAX_PAUSE_US: u64 = 10_000_000;

/// The pause taken before a frame whose scaled distance from the previous
/// frame is `delay_us` microseconds: that distance when it is positive and
/// below [`MAX_PAUSE_US`], otherwise none.
pub open spec fn pause_spec(delay_us: u64) -> Option<u64> {
    if 0 < delay_us < MAX_PAUSE_US {
        Some(delay_us)
    } else {
        None
    }
}

/// How long to pause before a frame whose scaled distance from the previous
/// frame is `delay_us` microseconds.
pub fn pause_for(delay_us: u64) -> (pause: Option<u64>)
    ensures
        pause == pause_spec(delay_us),
{
    if delay_us > 0 && delay_us < MAX_PAUSE_US {
        Some(delay_us)
    } else {
        None
    }
}

/// The progress of a replay: the hardware timestamp of the frame replayed
/// last and the number of frames sent.
pub struct ReplayClock {
    prev_hw_ts: Option<i64>,
    frames_sent: u64,
}

impl ReplayClock {
    /// The hardware timestamp of the frame replayed last, if any.
    pub closed spec fn previous(&self) -> Option<i64> {
        self.prev_hw_ts
    }

    /// The number of frames sent so far.
    pub closed spec fn sent(&self) -> nat {
        self.frames_sent as nat
    }

    /// A replay that has not started.
    pub fn new() -> (clock: Self)
        ensures
            clock.previous() == None::<i64>,
            clock.sent() == 0,
    {
        ReplayClock { prev_hw_ts: None, frames_sent: 0 }
    }

    /// Moves on to the frame with hardware timestamp `hw_ts_us` and gives
    /// its distance in microseconds from the frame before it, or nothing for
    /// the first frame. The distance is computed in `i64`, so it must fit.
    pub fn advance(&mut self, hw_ts_us: i64) -> (gap: Option<i64>)
        requires
            old(self).previous() matches Some(prev) ==> i64::MIN <= hw_ts_us - prev <= i64::MAX,
        ensures
            gap == match old(self).previous() {
                Some(prev) => Some((hw_ts_us - prev) as i64),
                None => None::<i64>,
            },
            final(self).previous() == Some(hw_ts_us),
            final(self).sent() == old(self).sent(),
    {
        let gap = match self.prev_hw_ts {
            Some(prev) => Some(hw_ts_us - prev),
            None => None,
        };
        self.prev_hw_ts = Some(hw_ts_us);
        gap
    }

    /// Counts one more frame as sent.
    pub fn frame_sent(&mut self)
        requires
            old(self).sent() < u64::MAX,
        ensures
            final(self).sent() == old(self).sent() + 1,
            final(self).previous() == old(self).previous(),
    {
        self.frames_sent = self.frames_sent + 1;
    }

    /// The hardware timestamp of the frame replayed last, if any.
    pub fn previous_timestamp(&self) -> (prev: Option<i64>)
        ensures
            prev == self.previous(),
    {
        self.prev_hw_ts
    }

    /// The number of frames sent so far.
    pub fn frames_sent(&self) -> (n: u64)
        ensures
            n == self.sent(),
    {
        self.frames_sent
    }
}

} // verus!
