//! Constant-rate pacing of a session.
//!
//! Times are nanoseconds since the session started, which is also where the
//! timestamps of both streams begin.

use vstd::prelude::*;

verus! {

/// The shortest and the longest wait for a fresher frame, in nanoseconds.
pub const MIN_CAPTURE_WAIT_NS: u64 = 2_000_000;

pub const MAX_CAPTURE_WAIT_NS: u64 = 50_000_000;

/// How long one frame lasts, in nanoseconds.
pub open spec fn frame_duration(fps: int) -> int {
    1_000_000_000int / fps
}

/// How long a capture may wait for a fresher frame: half of a frame, which leaves
/// room for encoding, within bounds.
pub open spec fn capture_wait(frame_ns: int) -> int {
    let half = frame_ns / 2;
    if half < MIN_CAPTURE_WAIT_NS {
        MIN_CAPTURE_WAIT_NS as int
    } else if half > MAX_CAPTURE_WAIT_NS {
        MAX_CAPTURE_WAIT_NS as int
    } else {
        half
    }
}

/// The tick after one that was due at `tick` and done at `now`: one frame later,
/// or, where that is over by more than another frame, at once. Frames that were
/// missed are not made up for.
pub open spec fn following_tick(tick: int, frame_ns: int, now: int) -> int {
    if now > tick + frame_ns + frame_ns {
        now
    } else {
        tick + frame_ns
    }
}

/// How long to sleep at the end of a tick.
pub open spec fn pause_at(tick: int, frame_ns: int, now: int) -> int {
    if now < tick + frame_ns {
        tick + frame_ns - now
    } else {
        0
    }
}

/// What a session does next.
#[derive(Debug, Clone, Copy, PartialEq, Eq, Structural)]
pub enum Task {
    /// Capture a frame and push it into the encoder, unless the session is to end.
    Capture { pts_ns: u64, wait_ns: u64 },
    /// Send the audio packets that are there.
    DrainAudio,
    /// Send the video packets that are there.
    DrainVideo,
    /// End the tick.
    Pace,
}

/// Where in a tick a session stands.
#[derive(Debug, Clone, Copy, PartialEq, Eq, Structural)]
pub enum Phase {
    Capture,
    DrainAudio,
    DrainVideo,
    Pace,
}

/// The part of a tick that comes after this one.
pub open spec fn next_phase(with_audio: bool, phase: Phase) -> Phase {
    match phase {
        Phase::Capture => if with_audio {
            Phase::DrainAudio
        } else {
            Phase::DrainVideo
        },
        Phase::DrainAudio => Phase::DrainVideo,
        Phase::DrainVideo => Phase::Pace,
        Phase::Pace => Phase::Capture,
    }
}

/// The pace of a session.
///
/// Audio goes first in every tick: its packets are tiny next to a keyframe, and
/// this bounds how long one can wait behind a video frame that is being written.
#[derive(Debug, Clone, Copy)]
pub struct Pacer {
    frame_ns: u64,
    with_audio: bool,
    index: u64,
    tick: u128,
    phase: Phase,
}

impl Pacer {
    pub closed spec fn frame_ns(self) -> int {
        self.frame_ns as int
    }

    pub closed spec fn with_audio(self) -> bool {
        self.with_audio
    }

    /// How many frames have been captured.
    pub closed spec fn index(self) -> int {
        self.index as int
    }

    /// When the current tick is due.
    pub closed spec fn tick(self) -> int {
        self.tick as int
    }

    pub closed spec fn phase(self) -> Phase {
        self.phase
    }

    /// The timestamp of the current frame fits its field.
    pub open spec fn wf(self) -> bool {
        self.index() * self.frame_ns() <= u64::MAX
    }

    /// Whether another frame and another tick fit.
    pub open spec fn has_room(self) -> bool {
        &&& (self.index() + 1) * self.frame_ns() <= u64::MAX
        &&& self.index() < u64::MAX
        &&& self.tick() + 2 * self.frame_ns() <= u128::MAX
    }

    /// A session that starts now.
    pub fn new(fps: u32, with_audio: bool) -> (r: Pacer)
        requires
            fps > 0,
        ensures
            r.wf(),
            r.frame_ns() == frame_duration(fps as int),
            r.with_audio() == with_audio,
            r.index() == 0,
            r.tick() == 0,
            r.phase() is Capture,
    {
        Pacer {
            frame_ns: 1_000_000_000 / (fps as u64),
            with_audio,
            index: 0,
            tick: 0,
            phase: Phase::Capture,
        }
    }

    /// What to do next. Frames are stamped by their number and never by the
    /// clock.
    pub fn task(&self) -> (r: Task)
        requires
            self.wf(),
        ensures
            r == (match self.phase() {
                Phase::Capture => Task::Capture {
                    pts_ns: (self.index() * self.frame_ns()) as u64,
                    wait_ns: capture_wait(self.frame_ns()) as u64,
                },
                Phase::DrainAudio => Task::DrainAudio,
                Phase::DrainVideo => Task::DrainVideo,
                Phase::Pace => Task::Pace,
            }),
    {
        match self.phase {
            Phase::Capture => {
                let half = self.frame_ns / 2;
                let wait_ns = if half < MIN_CAPTURE_WAIT_NS {
                    MIN_CAPTURE_WAIT_NS
                } else if half > MAX_CAPTURE_WAIT_NS {
                    MAX_CAPTURE_WAIT_NS
                } else {
                    half
                };
                assert(0 <= self.index * self.frame_ns) by (nonlinear_arith)
                    requires
                        0 <= self.index,
                        0 <= self.frame_ns,
                ;
                Task::Capture { pts_ns: self.index * self.frame_ns, wait_ns }
            },
            Phase::DrainAudio => Task::DrainAudio,
            Phase::DrainVideo => Task::DrainVideo,
            Phase::Pace => Task::Pace,
        }
    }

    /// Whether another frame and another tick fit.
    pub fn can_go_on(&self) -> (r: bool)
        ensures
            r == self.has_room(),
    {
        let frame_ns = self.frame_ns as u128;
        assert(0 <= (self.index + 1) * self.frame_ns <= 0x1_0000_0000_0000_0000
            * 0xffff_ffff_ffff_ffff) by (nonlinear_arith)
            requires
                0 <= self.index <= 0xffff_ffff_ffff_ffff,
                0 <= self.frame_ns <= 0xffff_ffff_ffff_ffff,
        ;
        self.index < u64::MAX && (self.index as u128 + 1) * frame_ns <= u64::MAX as u128
            && self.tick <= u128::MAX - 2 * frame_ns
    }

    /// The frame has been captured and pushed.
    pub fn captured(&mut self)
        requires
            old(self).phase() is Capture,
            old(self).has_room(),
        ensures
            final(self).wf(),
            final(self).frame_ns() == old(self).frame_ns(),
            final(self).with_audio() == old(self).with_audio(),
            final(self).index() == old(self).index() + 1,
            final(self).tick() == old(self).tick(),
            final(self).phase() == next_phase(old(self).with_audio(), old(self).phase()),
    {
        self.index = self.index + 1;
        self.phase = if self.with_audio {
            Phase::DrainAudio
        } else {
            Phase::DrainVideo
        };
    }

    /// The packets that were there have been sent.
    pub fn drained(&mut self)
        requires
            old(self).wf(),
            old(self).phase() is DrainAudio || old(self).phase() is DrainVideo,
        ensures
            final(self).wf(),
            final(self).frame_ns() == old(self).frame_ns(),
            final(self).with_audio() == old(self).with_audio(),
            final(self).index() == old(self).index(),
            final(self).tick() == old(self).tick(),
            final(self).phase() == next_phase(old(self).with_audio(), old(self).phase()),
    {
        self.phase = match self.phase {
            Phase::DrainAudio => Phase::DrainVideo,
            _ => Phase::Pace,
        };
    }

    /// End the tick at the time `now`: how long to sleep before the next.
    pub fn paced(&mut self, now: u128) -> (sleep_ns: u128)
        requires
            old(self).wf(),
            old(self).phase() is Pace,
            old(self).tick() + 2 * old(self).frame_ns() <= u128::MAX,
        ensures
            final(self).wf(),
            final(self).frame_ns() == old(self).frame_ns(),
            final(self).with_audio() == old(self).with_audio(),
            final(self).index() == old(self).index(),
            final(self).tick() == following_tick(
                old(self).tick(),
                old(self).frame_ns(),
                now as int,
            ),
            final(self).phase() == next_phase(old(self).with_audio(), old(self).phase()),
            sleep_ns == pause_at(old(self).tick(), old(self).frame_ns(), now as int),
    {
        let frame_ns = self.frame_ns as u128;
        self.phase = Phase::Capture;
        self.tick = self.tick + frame_ns;
        if now < self.tick {
            self.tick - now
        } else {
            if now > self.tick + frame_ns {
                self.tick = now;
            }
            0
        }
    }

    /// How many frames have been captured.
    pub fn frames(&self) -> (r: u64)
        ensures
            r == self.index(),
    {
        self.index
    }
}

// ---------------------------------------------------------------------------
// Whole sessions
// ---------------------------------------------------------------------------

/// With audio, video is only ever sent right after the audio that was there; and
/// without, audio is never sent.
pub proof fn audio_goes_before_video(with_audio: bool, phase: Phase)
    requires
        phase is DrainAudio ==> with_audio,
    ensures
        with_audio && next_phase(with_audio, phase) is DrainVideo ==> phase is DrainAudio,
        next_phase(with_audio, phase) is DrainAudio ==> with_audio && phase is Capture,
        next_phase(with_audio, phase) is Capture ==> phase is Pace,
{
}

/// When the tick after these is due, of which each was done at its time.
pub open spec fn tick_after(frame_ns: int, done: Seq<int>) -> int
    decreases done.len(),
{
    if done.len() == 0 {
        0
    } else {
        following_tick(tick_after(frame_ns, done.drop_last()), frame_ns, done.last())
    }
}

/// Sessions that are never behind by more than a frame keep an exact rate: the
/// tick number n is due n frames after the start.
pub proof fn ticks_keep_the_rate(frame_ns: int, done: Seq<int>)
    requires
        frame_ns >= 0,
        forall|i: int| 0 <= i < done.len() ==> #[trigger] done[i] <= (i + 2) * frame_ns,
    ensures
        tick_after(frame_ns, done) == done.len() * frame_ns,
    decreases done.len(),
{
    if done.len() > 0 {
        let n = done.len() as int;
        assert forall|i: int| 0 <= i < n - 1 implies #[trigger] done.drop_last()[i] <= (i + 2)
            * frame_ns by {
            assert(done[i] <= (i + 2) * frame_ns);
        }
        ticks_keep_the_rate(frame_ns, done.drop_last());
        assert(done[n - 1] <= (n + 1) * frame_ns);
        assert((n - 1) * frame_ns + frame_ns == n * frame_ns) by (nonlinear_arith);
        assert(n * frame_ns + frame_ns == (n + 1) * frame_ns) by (nonlinear_arith);
    } else {
        assert(0 * frame_ns == 0) by (nonlinear_arith);
    }
}

/// After a stall there is no burst of frames to catch up: the next tick is never
/// due more than one frame before now, and sleeping ends exactly when it is due.
pub proof fn no_burst_after_a_stall(tick: int, frame_ns: int, now: int)
    requires
        frame_ns >= 0,
    ensures
        now <= following_tick(tick, frame_ns, now) + frame_ns,
        pause_at(tick, frame_ns, now) > 0 ==> now + pause_at(tick, frame_ns, now)
            == following_tick(tick, frame_ns, now),
        following_tick(tick, frame_ns, now) >= tick + frame_ns,
{
}

/// A frame lasts as many whole nanoseconds as fit when a second is shared out evenly:
/// that many frames fit in a second, and with one nanosecond more they would not.
pub proof fn frames_share_the_second(fps: int)
    requires
        fps > 0,
    ensures
        frame_duration(fps) >= 0,
        fps * frame_duration(fps) <= 1_000_000_000,
        fps * (frame_duration(fps) + 1) > 1_000_000_000,
{
    let d = frame_duration(fps);
    assert(d >= 0 && fps * d <= 1_000_000_000 && fps * (d + 1) > 1_000_000_000) by (nonlinear_arith)
        requires
            fps > 0,
            d == 1_000_000_000int / fps,
    ;
}

/// A capture waits for half of a frame, no less than two and no more than fifty
/// milliseconds, and longer frames never make for a shorter wait.
pub proof fn captures_wait_for_half_a_frame(frame_ns: int, longer_ns: int)
    requires
        0 <= frame_ns <= longer_ns,
    ensures
        2_000_000 <= capture_wait(frame_ns) <= 50_000_000,
        4_000_000 <= frame_ns <= 100_000_000 ==> frame_ns - 1 <= 2 * capture_wait(frame_ns)
            <= frame_ns,
        frame_ns <= 4_000_000 ==> capture_wait(frame_ns) == 2_000_000,
        frame_ns >= 100_000_000 ==> capture_wait(frame_ns) == 50_000_000,
        capture_wait(frame_ns) <= capture_wait(longer_ns),
{
}

/// A tick that is done early is followed by a sleep that ends with the next tick, and
/// one that is late by no sleep. Being late by at most a frame moves no tick; being
/// later than that starts the count anew from now.
pub proof fn late_ticks_start_anew(tick: int, frame_ns: int, now: int)
    requires
        frame_ns >= 0,
    ensures
        now < tick + frame_ns <==> pause_at(tick, frame_ns, now) > 0,
        pause_at(tick, frame_ns, now) >= 0,
        now <= tick + 2 * frame_ns ==> following_tick(tick, frame_ns, now) - tick == frame_ns,
        now > tick + 2 * frame_ns ==> following_tick(tick, frame_ns, now) == now,
{
}

/// A tick has the same parts in the same order whichever part one starts from: four
/// with audio, three without, and each of them once.
pub proof fn ticks_have_all_their_parts(with_audio: bool, phase: Phase)
    requires
        phase is DrainAudio ==> with_audio,
    ensures
        ({
            let second = next_phase(with_audio, phase);
            let third = next_phase(with_audio, second);
            let fourth = next_phase(with_audio, third);
            &&& second != phase && third != phase && second != third
            &&& with_audio ==> fourth != phase && fourth != second && fourth != third && next_phase(
                with_audio,
                fourth,
            ) == phase
            &&& !with_audio ==> fourth == phase && !(second is DrainAudio) && !(third is DrainAudio)
            &&& phase is DrainVideo <==> second is Pace
            &&& phase is Pace <==> second is Capture
        }),
{
}

} // verus!
