//! Frame clocks: one that follows the wall clock while playing, and one
//! that advances a fixed period per frame for offline rendering.
use vstd::prelude::*;

use std::time::{Duration, Instant};

verus! {

/// Declared so that a clock can keep the instant it counts from.
#[verifier::external_type_specification]
#[verifier::external_body]
pub struct ExInstant(Instant);

/// `Instant::now`: the present instant. Nothing is promised of it; it is
/// only handed back to `nanos_since`.
#[verifier::external_body]
fn instant_now() -> Instant {
    Instant::now()
}

/// `Instant::elapsed`: the time since `origin`. It depends on the time of the
/// call, so nothing is promised of it.
#[verifier::external_body]
fn instant_elapsed(origin: &Instant) -> Duration {
    origin.elapsed()
}

/// `Duration::as_nanos`: the whole nanoseconds of a duration. A duration has
/// no view here, so nothing is promised of the number.
#[verifier::external_body]
fn duration_as_nanos(d: &Duration) -> u128 {
    d.as_nanos()
}

/// The nanoseconds since `origin`, read from the wall clock.
fn nanos_since(origin: &Instant) -> u128 {
    let elapsed = instant_elapsed(origin);
    duration_as_nanos(&elapsed)
}

/// A clock reading: time since the start, length of the last frame (both in
/// nanoseconds) and the number of frames.
#[derive(Clone, Copy, Debug)]
pub struct ClockResult {
    pub total_elapsed: u128,
    pub last_period: u128,
    pub frame_count: u32,
}

/// The period of one frame of the offline clock: 20 ms.
pub open spec fn print_rate() -> u128 {
    20_000_000
}

/// A clock for offline rendering: every frame lasts 20 ms.
#[derive(Debug)]
pub struct PrintClock {
    pub rate: u128,
    pub time_elapsed: u128,
    pub frame_count: u32,
    pub playing: bool,
}

impl PrintClock {
    /// The time elapsed is always one period per frame rendered.
    pub open spec fn well_formed(&self) -> bool {
        &&& self.rate == print_rate()
        &&& self.time_elapsed == self.frame_count * print_rate()
    }

    /// A clock at frame zero, paused.
    pub fn init() -> (clock: PrintClock)
        ensures
            clock.well_formed(),
            clock.frame_count == 0,
            clock.time_elapsed == 0,
            !clock.playing,
    {
        PrintClock { rate: 20_000_000, time_elapsed: 0, frame_count: 0, playing: false }
    }

    /// Advance by one frame of one period.
    pub fn update(&mut self)
        requires
            old(self).well_formed(),
            old(self).frame_count < u32::MAX,
        ensures
            final(self).well_formed(),
            final(self).frame_count == old(self).frame_count + 1,
            final(self).time_elapsed == old(self).time_elapsed + print_rate(),
            final(self).playing == old(self).playing,
    {
        proof {
            assert(self.frame_count * print_rate() + print_rate() == (self.frame_count + 1) * print_rate()) by (nonlinear_arith);
            assert((self.frame_count + 1) * print_rate() <= u32::MAX * print_rate()) by (nonlinear_arith)
                requires self.frame_count < u32::MAX;
        }
        self.time_elapsed = self.time_elapsed + self.rate;
        self.frame_count = self.frame_count + 1;
    }

    /// The reading of the clock.
    pub fn current(&self) -> (result: ClockResult)
        ensures
            result.last_period == self.rate,
            result.total_elapsed == self.time_elapsed,
            result.frame_count == self.frame_count,
    {
        ClockResult { last_period: self.rate, total_elapsed: self.time_elapsed, frame_count: self.frame_count }
    }

    /// Whether a reading at this frame is reported: every hundredth frame.
    pub fn reports_reading(&self) -> (report: bool)
        ensures
            report == (self.frame_count % 100 == 0),
    {
        self.frame_count % 100 == 0
    }

    /// Start playing.
    pub fn play(&mut self)
        ensures
            final(self).playing,
            final(self).rate == old(self).rate,
            final(self).time_elapsed == old(self).time_elapsed,
            final(self).frame_count == old(self).frame_count,
    {
        self.playing = true;
    }

    /// Stop playing.
    pub fn pause(&mut self)
        ensures
            !final(self).playing,
            final(self).rate == old(self).rate,
            final(self).time_elapsed == old(self).time_elapsed,
            final(self).frame_count == old(self).frame_count,
    {
        self.playing = false;
    }

    /// Whether the clock is playing.
    pub fn is_playing(&self) -> (playing: bool)
        ensures
            playing == self.playing,
    {
        self.playing
    }

    /// Play or pause.
    pub fn set_playing(&mut self, play: bool)
        ensures
            final(self).playing == play,
            final(self).rate == old(self).rate,
            final(self).time_elapsed == old(self).time_elapsed,
            final(self).frame_count == old(self).frame_count,
    {
        self.playing = play
    }
}

/// A clock for real-time rendering. Times are nanoseconds since the clock
/// was made; the time elapsed only grows while the clock plays.
#[derive(Debug)]
pub struct RenderClock {
    pub origin: Instant,
    pub total_elapsed: u128,
    pub last_render_time: u128,
    pub last_period: u128,
    pub frame_count: u32,
    pub playing: bool,
}

impl RenderClock {
    /// A clock at frame zero, paused, rendered last at its start.
    pub fn init() -> (clock: RenderClock)
        ensures
            clock.total_elapsed == 0,
            clock.last_render_time == 0,
            clock.last_period == 0,
            clock.frame_count == 0,
            !clock.playing,
    {
        RenderClock {
            origin: instant_now(),
            total_elapsed: 0,
            last_render_time: 0,
            last_period: 0,
            frame_count: 0,
            playing: false,
        }
    }

    /// Record a frame rendered at `now`: the period is the time since the last
    /// frame (none if `now` is not later), and it counts towards the time
    /// elapsed only while playing.
    pub fn update_at(&mut self, now: u128)
        requires
            old(self).frame_count < u32::MAX,
        ensures
            final(self).origin == old(self).origin,
            final(self).last_period == (if now >= old(self).last_render_time {
                now - old(self).last_render_time
            } else {
                0
            }),
            final(self).total_elapsed == (if old(self).playing {
                if old(self).total_elapsed + final(self).last_period <= u128::MAX {
                    old(self).total_elapsed + final(self).last_period
                } else {
                    u128::MAX as int
                }
            } else {
                old(self).total_elapsed as int
            }),
            final(self).last_render_time == now,
            final(self).frame_count == old(self).frame_count + 1,
            final(self).playing == old(self).playing,
    {
        let dt = now.saturating_sub(self.last_render_time);
        if self.playing {
            self.total_elapsed = self.total_elapsed.saturating_add(dt);
        }
        self.last_period = dt;
        self.last_render_time = now;
        self.frame_count = self.frame_count + 1;
    }

    /// Record a frame rendered now: the period is the time since the last
    /// frame (none if the clock reads earlier), and while playing it is added
    /// to the time elapsed.
    pub fn update(&mut self)
        requires
            old(self).frame_count < u32::MAX,
        ensures
            final(self).origin == old(self).origin,
            final(self).frame_count == old(self).frame_count + 1,
            final(self).playing == old(self).playing,
            final(self).last_render_time >= old(self).last_render_time ==> final(self).last_period
                == final(self).last_render_time - old(self).last_render_time,
            final(self).last_render_time < old(self).last_render_time ==> final(self).last_period == 0,
            old(self).playing ==> final(self).total_elapsed == (if old(self).total_elapsed + final(self).last_period
                <= u128::MAX {
                old(self).total_elapsed + final(self).last_period
            } else {
                u128::MAX as int
            }),
            !old(self).playing ==> final(self).total_elapsed == old(self).total_elapsed,
    {
        let now = nanos_since(&self.origin);
        self.update_at(now);
    }

    /// The reading of the clock.
    pub fn current(&self) -> (result: ClockResult)
        ensures
            result.last_period == self.last_period,
            result.total_elapsed == self.total_elapsed,
            result.frame_count == self.frame_count,
    {
        ClockResult {
            last_period: self.last_period,
            total_elapsed: self.total_elapsed,
            frame_count: self.frame_count,
        }
    }

    /// Start playing from `now`: the time before it does not count.
    pub fn play_at(&mut self, now: u128)
        ensures
            final(self).origin == old(self).origin,
            final(self).playing,
            final(self).last_render_time == now,
            final(self).total_elapsed == old(self).total_elapsed,
            final(self).last_period == old(self).last_period,
            final(self).frame_count == old(self).frame_count,
    {
        self.last_render_time = now;
        self.playing = true;
    }

    /// Start playing from now.
    pub fn play(&mut self)
        ensures
            final(self).origin == old(self).origin,
            final(self).playing,
            final(self).total_elapsed == old(self).total_elapsed,
            final(self).last_period == old(self).last_period,
            final(self).frame_count == old(self).frame_count,
    {
        let now = nanos_since(&self.origin);
        self.play_at(now);
    }

    /// Stop playing.
    pub fn pause(&mut self)
        ensures
            final(self).origin == old(self).origin,
            !final(self).playing,
            final(self).total_elapsed == old(self).total_elapsed,
            final(self).last_render_time == old(self).last_render_time,
            final(self).last_period == old(self).last_period,
            final(self).frame_count == old(self).frame_count,
    {
        self.playing = false;
    }

    /// Whether the clock is playing.
    pub fn is_playing(&self) -> (playing: bool)
        ensures
            playing == self.playing,
    {
        self.playing
    }

    /// Play or pause, keeping the time of the last frame.
    pub fn set_playing(&mut self, play: bool)
        ensures
            final(self).origin == old(self).origin,
            final(self).playing == play,
            final(self).total_elapsed == old(self).total_elapsed,
            final(self).last_render_time == old(self).last_render_time,
            final(self).last_period == old(self).last_period,
            final(self).frame_count == old(self).frame_count,
    {
        self.playing = play
    }
}

} // verus!
