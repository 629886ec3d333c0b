//! Frame pacing: the pure bookkeeping of a sleep-based rate limiter.
//!
//! The regulator only decides how long the caller must still sleep to
//! keep a configured frame duration; reading clocks and sleeping are
//! side effects the embedding application performs with the returned
//! deficit.

use vstd::prelude::*;

verus! {

/// A frame-rate limiter configured with a minimum duration per frame,
/// in nanoseconds.
#[derive(Clone, Copy, Debug, PartialEq, Eq, Structural)]
pub struct FrameRegulator {
    pub frame_duration_nanos: u64,
}

/// The error of asking for a frame rate of zero frames per second.
#[derive(Debug, PartialEq, Eq, Structural, Clone, Copy)]
pub struct ZeroFps;

/// One second, in nanoseconds.
pub const NANOS_PER_SECOND: u64 = 1_000_000_000;

impl FrameRegulator {
    /// A regulator that holds every frame on screen for at least
    /// `frame_duration_nanos` nanoseconds.
    pub fn new(frame_duration_nanos: u64) -> (r: Self)
        ensures
            r.frame_duration_nanos == frame_duration_nanos,
    {
        Self { frame_duration_nanos }
    }

    /// A regulator for `fps` frames per second; zero frames per second
    /// is refused.
    pub fn fps(fps: u64) -> (r: Result<Self, ZeroFps>)
        ensures
            fps == 0 <==> r is Err,
            fps != 0 ==> (r matches Ok(fr) && fr.frame_duration_nanos == NANOS_PER_SECOND as int
                / fps as int),
    {
        if fps == 0 {
            Err(ZeroFps)
        } else {
            Ok(Self::new(NANOS_PER_SECOND / fps))
        }
    }

    /// How much longer the caller must sleep, given how many
    /// nanoseconds have already elapsed since the previous frame: the
    /// remainder of the frame duration, or nothing once the duration
    /// has fully elapsed.
    pub fn sleep_deficit(&self, elapsed_nanos: u64) -> (d: u64)
        ensures
            d == if elapsed_nanos < self.frame_duration_nanos {
                self.frame_duration_nanos - elapsed_nanos
            } else {
                0
            },
    {
        if elapsed_nanos < self.frame_duration_nanos {
            self.frame_duration_nanos - elapsed_nanos
        } else {
            0
        }
    }
}

} // verus!
