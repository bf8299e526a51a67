//! Transport state: playhead, play and pause, frame stepping, looping at the
//! end.
//!
//! Elapsed time is counted in whole nanoseconds and turned into frames
//! without rounding, so playback does not drift.

use crate::clock::{counts_between, nanos_between};
use crate::media::av_sync::rounded;
use crate::model::time::{Framerate, Rational};
use std::time::Instant;
use vstd::prelude::*;

verus! {

#[derive(Clone, Copy, Debug, PartialEq, Eq, Structural)]
pub enum PlayState {
    Stopped,
    Playing,
}

#[derive(Clone, Copy, Debug)]
pub struct Playhead {
    state: PlayState,
    current_frame: u32,
    duration_frames: u32,
    framerate: Framerate,
    last_tick: Instant,
    /// Time since the last frame advance, in units of a nanosecond divided by
    /// the framerate's numerator.
    accumulator: u128,
}

/// What a playhead holds.
pub struct PlayheadModel {
    pub state: PlayState,
    pub current_frame: u32,
    pub duration_frames: u32,
    pub framerate: Framerate,
    /// When it last looked at the clock.
    pub looked_at: Instant,
    pub accumulator: u128,
}

impl View for Playhead {
    type V = PlayheadModel;

    closed spec fn view(&self) -> PlayheadModel {
        PlayheadModel {
            state: self.state,
            current_frame: self.current_frame,
            duration_frames: self.duration_frames,
            framerate: self.framerate,
            looked_at: self.last_tick,
            accumulator: self.accumulator,
        }
    }
}

/// A stopped playhead at frame 0 that was made at `now`.
pub open spec fn new_playhead(
    framerate: Framerate,
    duration_frames: u32,
    now: Instant,
) -> PlayheadModel {
    PlayheadModel {
        state: PlayState::Stopped,
        current_frame: 0,
        duration_frames,
        framerate,
        looked_at: now,
        accumulator: 0,
    }
}

/// The last frame; 0 if there are none.
pub open spec fn last_frame(p: PlayheadModel) -> u32 {
    if p.duration_frames == 0 {
        0
    } else {
        (p.duration_frames - 1) as u32
    }
}

/// `p` with another duration, of at least one frame; a playhead beyond the
/// end moves to the last frame.
pub open spec fn with_duration(p: PlayheadModel, d: u32) -> PlayheadModel {
    let dur = if d == 0 {
        1
    } else {
        d
    };
    PlayheadModel {
        duration_frames: dur,
        current_frame: if p.current_frame >= dur {
            (dur - 1) as u32
        } else {
            p.current_frame
        },
        ..p
    }
}

/// A framerate of at least a thousandth of a frame per second. One without a
/// value counts as none.
pub open spec fn usable_rate(framerate: Framerate) -> Framerate {
    if framerate.0.num == 0 || framerate.0.num * 1000 < framerate.0.den {
        Framerate(Rational { num: 1, den: 1000 })
    } else {
        framerate
    }
}

/// `p` at another framerate, with the part of a frame that was already counted
/// carried over. At a framerate without a denominator frames have no parts.
pub open spec fn with_framerate(p: PlayheadModel, framerate: Framerate) -> PlayheadModel {
    let rate = usable_rate(framerate);
    let scaled = p.accumulator * rate.0.den;
    PlayheadModel {
        framerate: rate,
        accumulator: if p.framerate.0.den == 0 {
            0
        } else {
            ((if scaled > u128::MAX {
                u128::MAX as int
            } else {
                scaled
            }) / (p.framerate.0.den as int)) as u128
        },
        ..p
    }
}

/// `p` playing since `now`, with no time counted yet.
pub open spec fn playing(p: PlayheadModel, now: Instant) -> PlayheadModel {
    PlayheadModel { state: PlayState::Playing, looked_at: now, accumulator: 0, ..p }
}

/// `p` stopped.
pub open spec fn paused(p: PlayheadModel) -> PlayheadModel {
    PlayheadModel { state: PlayState::Stopped, ..p }
}

/// `p` stopped if it was playing, else playing since `now`.
pub open spec fn toggled(p: PlayheadModel, now: Instant) -> PlayheadModel {
    match p.state {
        PlayState::Playing => paused(p),
        PlayState::Stopped => playing(p, now),
    }
}

/// `p` at `frame`, or at the last frame if that is beyond the end.
pub open spec fn sought(p: PlayheadModel, frame: u32) -> PlayheadModel {
    PlayheadModel {
        current_frame: if frame > last_frame(p) {
            last_frame(p)
        } else {
            frame
        },
        accumulator: 0,
        ..p
    }
}

/// `p` one frame on, from the last frame back to the first.
pub open spec fn stepped_forward(p: PlayheadModel) -> PlayheadModel {
    PlayheadModel {
        current_frame: if p.current_frame < last_frame(p) {
            (p.current_frame + 1) as u32
        } else {
            0
        },
        accumulator: 0,
        ..p
    }
}

/// `p` one frame back, from the first frame to the last.
pub open spec fn stepped_backward(p: PlayheadModel) -> PlayheadModel {
    PlayheadModel {
        current_frame: if p.current_frame > 0 {
            (p.current_frame - 1) as u32
        } else {
            last_frame(p)
        },
        accumulator: 0,
        ..p
    }
}

/// How much of the accumulator one frame takes.
pub open spec fn frame_units(framerate: Framerate) -> int {
    framerate.0.den * 1_000_000_000
}

/// The accumulator after `elapsed` more nanoseconds.
pub open spec fn accumulated(p: PlayheadModel, elapsed: u128) -> int {
    let sum = p.accumulator + elapsed * p.framerate.0.num;
    if sum > u128::MAX {
        u128::MAX as int
    } else {
        sum
    }
}

/// How many whole frames are due after `elapsed` more nanoseconds, at most as
/// many as can be counted. At a framerate without a denominator any time takes
/// that many, unless the framerate has no value at all.
pub open spec fn frames_due(p: PlayheadModel, elapsed: u128) -> int {
    if p.framerate.0.den == 0 {
        if elapsed * p.framerate.0.num == 0 {
            0
        } else {
            u32::MAX as int
        }
    } else {
        let n = accumulated(p, elapsed) / frame_units(p.framerate);
        if n > u32::MAX {
            u32::MAX as int
        } else {
            n
        }
    }
}

/// `p` after `elapsed` nanoseconds: a playing playhead advances by the whole
/// frames that are due, looping at the end, and keeps the rest of the time.
/// Nothing is left over at a framerate without a denominator.
pub open spec fn ticked(p: PlayheadModel, elapsed: u128) -> PlayheadModel {
    if p.state == PlayState::Stopped {
        p
    } else {
        let due = frames_due(p, elapsed);
        PlayheadModel {
            accumulator: if p.framerate.0.den == 0 {
                0
            } else {
                (accumulated(p, elapsed) - due * frame_units(p.framerate)) as u128
            },
            current_frame: if last_frame(p) == 0 {
                p.current_frame
            } else {
                ((p.current_frame + due) % (p.duration_frames as int)) as u32
            },
            ..p
        }
    }
}

/// `p` after a look at the clock at `now`, `elapsed` nanoseconds after the last.
pub open spec fn looked(p: PlayheadModel, now: Instant, elapsed: u128) -> PlayheadModel {
    PlayheadModel { looked_at: now, ..ticked(p, elapsed) }
}

/// Whether the playhead is on a frame of the timeline.
pub open spec fn in_range(p: PlayheadModel) -> bool {
    p.current_frame <= last_frame(p)
}

/// A playhead on the timeline stays on it, whatever is done.
pub proof fn playhead_stays_in_range(
    p: PlayheadModel,
    d: u32,
    frame: u32,
    now: Instant,
    elapsed: u128,
)
    requires
        in_range(p),
    ensures
        in_range(with_duration(p, d)),
        in_range(playing(p, now)),
        in_range(paused(p)),
        in_range(sought(p, frame)),
        in_range(stepped_forward(p)),
        in_range(stepped_backward(p)),
        in_range(ticked(p, elapsed)),
        in_range(looked(p, now, elapsed)),
{
    if p.state == PlayState::Playing && last_frame(p) > 0 {
        let due = frames_due(p, elapsed);
        vstd::arithmetic::div_mod::lemma_mod_bound(
            p.current_frame + due,
            p.duration_frames as int,
        );
    }
}

/// A step forward and a step back lead to the same frame again.
pub proof fn forward_then_backward(p: PlayheadModel)
    requires
        in_range(p),
    ensures
        stepped_backward(stepped_forward(p)).current_frame == p.current_frame,
        stepped_forward(stepped_backward(p)).current_frame == p.current_frame,
{
}

/// Time that is counted in two parts advances as far as in one, where no part
/// is longer than can be counted.
pub proof fn ticks_add_up(p: PlayheadModel, a: u128, b: u128)
    requires
        p.state == PlayState::Playing,
        p.framerate.0.den > 0,
        p.duration_frames > 1,
        a + b <= u128::MAX,
        p.accumulator + (a + b) * p.framerate.0.num <= u128::MAX,
        accumulated(p, (a + b) as u128) / frame_units(p.framerate) <= u32::MAX,
    ensures
        ticked(ticked(p, a), b).current_frame == ticked(p, (a + b) as u128).current_frame,
        ticked(ticked(p, a), b).accumulator == ticked(p, (a + b) as u128).accumulator,
{
    let num = p.framerate.0.num as int;
    let unit = frame_units(p.framerate);
    let acc = p.accumulator as int;
    let x = a * num;
    let y = b * num;
    assert((a + b) * num == x + y) by (nonlinear_arith)
        requires
            x == a * num,
            y == b * num,
    ;
    assert(x >= 0 && y >= 0) by (nonlinear_arith)
        requires
            x == a * num,
            y == b * num,
            num >= 0,
            a >= 0,
            b >= 0,
    ;
    let first = acc + x;
    let q = ticked(p, a);
    vstd::arithmetic::div_mod::lemma_div_is_ordered(first, first + y, unit);
    vstd::arithmetic::div_mod::lemma_fundamental_div_mod(first, unit);
    vstd::arithmetic::div_mod::lemma_mod_bound(first, unit);
    let n1 = first / unit;
    let r1 = first % unit;
    assert(n1 >= 0) by (nonlinear_arith)
        requires
            first == unit * n1 + r1,
            0 <= r1 < unit,
            first >= 0,
    ;
    assert(n1 * unit == unit * n1) by (nonlinear_arith);
    assert(q.accumulator == r1);
    let second = r1 + y;
    vstd::arithmetic::div_mod::lemma_fundamental_div_mod(second, unit);
    vstd::arithmetic::div_mod::lemma_mod_bound(second, unit);
    let n2 = second / unit;
    let r2 = second % unit;
    assert(first + y == unit * (n1 + n2) + r2) by (nonlinear_arith)
        requires
            first == unit * n1 + r1,
            second == r1 + y,
            second == unit * n2 + r2,
    ;
    vstd::arithmetic::div_mod::lemma_fundamental_div_mod_converse(
        first + y,
        unit,
        n1 + n2,
        r2,
    );
    assert(n2 >= 0) by (nonlinear_arith)
        requires
            second == unit * n2 + r2,
            0 <= r2 < unit,
            second >= 0,
    ;
    assert(n2 * unit == unit * n2) by (nonlinear_arith);
    assert((n1 + n2) * unit == unit * (n1 + n2)) by (nonlinear_arith);
    let d = p.duration_frames as int;
    let c = p.current_frame as int;
    vstd::arithmetic::div_mod::lemma_mod_bound(c + n1, d);
    vstd::arithmetic::div_mod::lemma_add_mod_noop(c + n1, n2, d);
    vstd::arithmetic::div_mod::lemma_add_mod_noop((c + n1) % d, n2, d);
    vstd::arithmetic::div_mod::lemma_mod_twice(c + n1, d);
    assert(q.current_frame == (c + n1) % d);
}

impl Playhead {
    pub fn new(framerate: Framerate, duration_frames: u32) -> (r: Self)
        ensures
            r@ == new_playhead(framerate, duration_frames, r@.looked_at),
            call_ensures(Instant::now, (), r@.looked_at),
    {
        let clock = Instant::now;
        Playhead {
            state: PlayState::Stopped,
            current_frame: 0,
            duration_frames,
            framerate,
            last_tick: clock(),
            accumulator: 0,
        }
    }

    pub fn current_frame(&self) -> (r: u32)
        ensures
            r == self@.current_frame,
    {
        self.current_frame
    }

    pub fn duration_frames(&self) -> (r: u32)
        ensures
            r == self@.duration_frames,
    {
        self.duration_frames
    }

    /// Changes the duration, to at least one frame.
    pub fn set_duration_frames(&mut self, d: u32)
        ensures
            final(self)@ == with_duration(old(self)@, d),
    {
        self.duration_frames = if d == 0 {
            1
        } else {
            d
        };
        if self.current_frame >= self.duration_frames {
            self.current_frame = self.duration_frames - 1;
        }
    }

    pub fn framerate(&self) -> (r: Framerate)
        ensures
            r == self@.framerate,
    {
        self.framerate
    }

    /// Changes the framerate, to at least a thousandth of a frame per second.
    /// The part of a frame that was already counted stays the same part.
    pub fn set_framerate(&mut self, framerate: Framerate)
        ensures
            final(self)@ == with_framerate(old(self)@, framerate),
    {
        let next = if framerate.0.num == 0 || (framerate.0.num as u64) * 1000
            < framerate.0.den as u64 {
            Framerate(Rational { num: 1, den: 1000 })
        } else {
            framerate
        };
        let den: u128 = next.0.den as u128;
        let scaled: u128 = match self.accumulator.checked_mul(den) {
            Some(v) => v,
            None => u128::MAX,
        };
        self.accumulator = if self.framerate.0.den == 0 {
            0
        } else {
            scaled / (self.framerate.0.den as u128)
        };
        self.framerate = next;
    }

    pub fn is_playing(&self) -> (r: bool)
        ensures
            r == (self@.state == PlayState::Playing),
    {
        match self.state {
            PlayState::Playing => true,
            PlayState::Stopped => false,
        }
    }

    pub fn play(&mut self)
        ensures
            final(self)@ == playing(old(self)@, final(self)@.looked_at),
            call_ensures(Instant::now, (), final(self)@.looked_at),
    {
        let clock = Instant::now;
        self.state = PlayState::Playing;
        self.last_tick = clock();
        self.accumulator = 0;
    }

    pub fn pause(&mut self)
        ensures
            final(self)@ == paused(old(self)@),
    {
        self.state = PlayState::Stopped;
    }

    pub fn toggle(&mut self)
        ensures
            final(self)@ == toggled(old(self)@, final(self)@.looked_at),
            old(self)@.state == PlayState::Stopped ==> call_ensures(
                Instant::now,
                (),
                final(self)@.looked_at,
            ),
    {
        match self.state {
            PlayState::Playing => self.pause(),
            PlayState::Stopped => self.play(),
        }
    }

    fn last(&self) -> (r: u32)
        ensures
            r == last_frame(self@),
    {
        if self.duration_frames == 0 {
            0
        } else {
            self.duration_frames - 1
        }
    }

    pub fn seek(&mut self, frame: u32)
        ensures
            final(self)@ == sought(old(self)@, frame),
    {
        let max: u32 = self.last();
        self.current_frame = if frame > max {
            max
        } else {
            frame
        };
        self.accumulator = 0;
    }

    pub fn step_forward(&mut self)
        ensures
            final(self)@ == stepped_forward(old(self)@),
    {
        let max: u32 = self.last();
        if self.current_frame < max {
            self.current_frame = self.current_frame + 1;
        } else {
            self.current_frame = 0;
        }
        self.accumulator = 0;
    }

    pub fn step_backward(&mut self)
        ensures
            final(self)@ == stepped_backward(old(self)@),
    {
        if self.current_frame > 0 {
            self.current_frame = self.current_frame - 1;
        } else {
            self.current_frame = self.last();
        }
        self.accumulator = 0;
    }

    /// Counts `elapsed` nanoseconds. Returns whether the playhead moved.
    pub fn tick_by(&mut self, elapsed: u128) -> (r: bool)
        ensures
            final(self)@ == ticked(old(self)@, elapsed),
            r == (final(self)@.current_frame != old(self)@.current_frame),
    {
        if !self.is_playing() {
            return false;
        }
        let num: u32 = self.framerate.0.num;
        let more: u128 = match elapsed.checked_mul(num as u128) {
            Some(v) => v,
            None => u128::MAX,
        };
        proof {
            assert(elapsed * num >= 0) by (nonlinear_arith)
                requires
                    elapsed >= 0,
                    num >= 0,
            ;
        }
        let mut due: u32 = 0;
        if self.framerate.0.den == 0 {
            if more > 0 {
                due = 0xffff_ffff;
            }
            self.accumulator = 0;
        } else {
            let sum: u128 = if self.accumulator > u128::MAX - more {
                u128::MAX
            } else {
                self.accumulator + more
            };
            let unit: u128 = (self.framerate.0.den as u128) * 1_000_000_000;
            let whole: u128 = sum / unit;
            due = if whole > 0xffff_ffff {
                0xffff_ffff
            } else {
                whole as u32
            };
            proof {
                vstd::arithmetic::div_mod::lemma_fundamental_div_mod(sum as int, unit as int);
                vstd::arithmetic::div_mod::lemma_mod_bound(sum as int, unit as int);
                assert(0 <= due * unit <= whole * unit) by (nonlinear_arith)
                    requires
                        0 <= due <= whole,
                        unit >= 0,
                ;
                assert(whole * unit == unit * whole) by (nonlinear_arith);
            }
            self.accumulator = sum - (due as u128) * unit;
        }
        if self.last() == 0 {
            return false;
        }
        let next: u64 = (self.current_frame as u64 + due as u64) % (self.duration_frames as u64);
        let moved = next != self.current_frame as u64;
        self.current_frame = next as u32;
        moved
    }

    /// Advances the playhead by the time since it last looked at the clock.
    /// Returns whether it moved.
    pub fn tick(&mut self) -> (r: bool)
        ensures
            exists|now: Instant, n: u128| #[trigger]
                call_ensures(Instant::now, (), now) && #[trigger] counts_between(
                    now,
                    old(self)@.looked_at,
                    n,
                ) && final(self)@ == looked(old(self)@, now, n),
            r == (final(self)@.current_frame != old(self)@.current_frame),
            old(self)@.state == PlayState::Stopped ==> !r,
    {
        let clock = Instant::now;
        let now = clock();
        let elapsed: u128 = nanos_between(now, self.last_tick);
        self.last_tick = now;
        let r = self.tick_by(elapsed);
        assert(call_ensures(Instant::now, (), now) && counts_between(
            now,
            old(self)@.looked_at,
            elapsed,
        ));
        r
    }

    /// Nanoseconds to wait before the next look while playing: half a frame,
    /// at most half a second.
    pub fn repaint_after_nanos(&self) -> (r: Option<u64>)
        ensures
            r is Some == (self@.state == PlayState::Playing),
            r matches Some(n) ==> n == if self@.framerate.0.num == 0 || self@.framerate.0.num
                < self@.framerate.0.den {
                500_000_000
            } else {
                rounded(500_000_000 * self@.framerate.0.den, self@.framerate.0.num as int)
            },
    {
        if !self.is_playing() {
            return None;
        }
        let num: u32 = self.framerate.0.num;
        let den: u32 = self.framerate.0.den;
        if num == 0 || num < den {
            return Some(500_000_000);
        }
        let n: u64 = 500_000_000 * (den as u64);
        let twice: u64 = 2 * (num as u64);
        Some((2 * n + num as u64) / twice)
    }
}

/// No time is lost or invented: what has passed is the frames that are due and
/// what is kept for the next look, which is less than a frame.
pub proof fn ticking_keeps_the_time(p: PlayheadModel, elapsed: u128)
    requires
        p.state == PlayState::Playing,
        p.framerate.0.den > 0,
        p.accumulator + elapsed * p.framerate.0.num <= u128::MAX,
        frames_due(p, elapsed) < u32::MAX,
    ensures
        frames_due(p, elapsed) * frame_units(p.framerate) + ticked(p, elapsed).accumulator
            == p.accumulator + elapsed * p.framerate.0.num,
        ticked(p, elapsed).accumulator < frame_units(p.framerate),
{
    let units = frame_units(p.framerate);
    let sum = accumulated(p, elapsed);
    vstd::arithmetic::div_mod::lemma_fundamental_div_mod(sum, units);
    vstd::arithmetic::div_mod::lemma_mod_bound(sum, units);
    assert(units * (sum / units) == (sum / units) * units) by (nonlinear_arith);
    assert(elapsed * p.framerate.0.num >= 0) by (nonlinear_arith);
}

/// At `num / den` frames per second, `num` frames are due in `den` seconds.
pub proof fn rate_is_kept(p: PlayheadModel, elapsed: u128)
    requires
        p.framerate.0.den > 0,
        p.accumulator == 0,
        elapsed == p.framerate.0.den * 1_000_000_000,
    ensures
        frames_due(p, elapsed) == p.framerate.0.num,
{
    let units = frame_units(p.framerate);
    let n = p.framerate.0.num as int;
    assert(elapsed * n == n * units) by (nonlinear_arith)
        requires
            elapsed == units,
    ;
    assert(units * n <= 0xffff_ffff * 1_000_000_000 * 0xffff_ffff) by (nonlinear_arith)
        requires
            0 <= units <= 0xffff_ffff * 1_000_000_000,
            0 <= n <= 0xffff_ffff,
    ;
    vstd::arithmetic::div_mod::lemma_div_by_multiple(n, units);
    assert(n * units == units * n) by (nonlinear_arith);
}

/// The playhead goes on by the frames that are due, starting over at the end.
pub proof fn due_frames_are_shown(p: PlayheadModel, elapsed: u128)
    requires
        p.state == PlayState::Playing,
        p.duration_frames > 1,
    ensures
        p.current_frame + frames_due(p, elapsed) < p.duration_frames ==> ticked(
            p,
            elapsed,
        ).current_frame == p.current_frame + frames_due(p, elapsed),
        p.duration_frames <= p.current_frame + frames_due(p, elapsed) < 2 * p.duration_frames
            ==> ticked(p, elapsed).current_frame == p.current_frame + frames_due(p, elapsed)
            - p.duration_frames,
        ticked(p, elapsed).state == p.state,
        ticked(p, elapsed).framerate == p.framerate,
        ticked(p, elapsed).duration_frames == p.duration_frames,
{
    let sum = p.current_frame + frames_due(p, elapsed);
    let d = p.duration_frames as int;
    due_is_bounded(p, elapsed);
    if 0 <= sum < d {
        vstd::arithmetic::div_mod::lemma_small_mod(sum as nat, d as nat);
    } else if d <= sum < 2 * d {
        vstd::arithmetic::div_mod::lemma_mod_sub_multiples_vanish(sum, d);
        vstd::arithmetic::div_mod::lemma_small_mod((sum - d) as nat, d as nat);
    }
}

proof fn due_is_bounded(p: PlayheadModel, elapsed: u128)
    ensures
        0 <= frames_due(p, elapsed) <= u32::MAX,
{
    if p.framerate.0.den > 0 {
        assert(elapsed * p.framerate.0.num >= 0) by (nonlinear_arith);
        vstd::arithmetic::div_mod::lemma_div_pos_is_pos(
            accumulated(p, elapsed),
            frame_units(p.framerate),
        );
    }
}

/// A stopped playhead does not move, however much time passes. Playing and
/// pausing do not move it either, and toggling does the one or the other.
pub proof fn transport_keeps_the_frame(p: PlayheadModel, now: Instant, elapsed: u128)
    ensures
        ticked(paused(p), elapsed) == paused(p),
        playing(p, now).current_frame == p.current_frame,
        paused(p).current_frame == p.current_frame,
        toggled(p, now).current_frame == p.current_frame,
        toggled(p, now).state != p.state,
        toggled(toggled(p, now), now).state == p.state,
        playing(p, now).state == PlayState::Playing,
        paused(p).state == PlayState::Stopped,
        playing(p, now).accumulator == 0,
        playing(p, now).looked_at == now,
        looked(p, now, elapsed).looked_at == now,
{
}

/// Seeking goes to the frame that was asked for, or to the last one if there
/// is no such frame. It changes neither the state nor the length.
pub proof fn seeking_goes_there(p: PlayheadModel, frame: u32)
    ensures
        frame < p.duration_frames ==> sought(p, frame).current_frame == frame,
        frame >= p.duration_frames > 0 ==> sought(p, frame).current_frame + 1 == p.duration_frames,
        sought(sought(p, frame), frame) == sought(p, frame),
        sought(p, frame).accumulator == 0,
        (PlayheadModel {
            current_frame: p.current_frame,
            accumulator: p.accumulator,
            ..sought(p, frame)
        }) == p,
{
}

/// A step goes to the next frame or the one before; at the ends it goes round.
pub proof fn steps_are_single_frames(p: PlayheadModel)
    requires
        in_range(p),
        p.duration_frames > 0,
    ensures
        p.current_frame + 1 < p.duration_frames ==> stepped_forward(p).current_frame
            == p.current_frame + 1,
        p.current_frame + 1 == p.duration_frames ==> stepped_forward(p).current_frame == 0,
        stepped_forward(p).state == p.state,
        stepped_backward(p).state == p.state,
        stepped_forward(p).accumulator == 0,
        stepped_backward(p).accumulator == 0,
{
}

/// A new duration keeps the frame that is shown if the frame is still there.
pub proof fn new_duration_keeps_the_frame(p: PlayheadModel, d: u32)
    ensures
        p.current_frame < d ==> with_duration(p, d).current_frame == p.current_frame,
        p.current_frame >= d > 0 ==> with_duration(p, d).current_frame + 1 == d,
        d > 0 ==> with_duration(p, d).duration_frames == d,
        with_duration(p, d).duration_frames > 0,
        (PlayheadModel {
            current_frame: p.current_frame,
            duration_frames: p.duration_frames,
            ..with_duration(p, d)
        }) == p,
{
}

/// A rate of at least one frame in a thousand seconds is taken as it is, and a
/// lower one is replaced by that.
pub proof fn rates_are_kept_from_below(framerate: Framerate)
    ensures
        usable_rate(framerate).0.num > 0,
        usable_rate(framerate).0.den <= 1000 * usable_rate(framerate).0.num,
        framerate.0.num > 0 && framerate.0.den <= 1000 * framerate.0.num ==> usable_rate(framerate)
            == framerate,
        !(framerate.0.num > 0 && framerate.0.den <= 1000 * framerate.0.num) ==> usable_rate(
            framerate,
        ).0.den == 1000 * usable_rate(framerate).0.num,
{
}

/// A change of rate keeps the part of a frame that has passed, rounded down.
pub proof fn new_rate_keeps_the_fraction(p: PlayheadModel, framerate: Framerate)
    requires
        p.framerate.0.den > 0,
        p.accumulator * usable_rate(framerate).0.den <= u128::MAX,
    ensures
        ({
            let after = with_framerate(p, framerate);
            &&& after.framerate == usable_rate(framerate)
            &&& after.accumulator * p.framerate.0.den <= p.accumulator * after.framerate.0.den
                < (after.accumulator + 1) * p.framerate.0.den
            &&& after.current_frame == p.current_frame
            &&& after.state == p.state
            &&& after.duration_frames == p.duration_frames
        }),
{
    let scaled = p.accumulator * usable_rate(framerate).0.den;
    let d = p.framerate.0.den as int;
    assert(scaled >= 0) by (nonlinear_arith)
        requires
            scaled == p.accumulator * usable_rate(framerate).0.den,
    ;
    vstd::arithmetic::div_mod::lemma_fundamental_div_mod(scaled, d);
    vstd::arithmetic::div_mod::lemma_mod_bound(scaled, d);
    vstd::arithmetic::div_mod::lemma_div_pos_is_pos(scaled, d);
    let q = scaled / d;
    assert(q <= scaled) by (nonlinear_arith)
        requires
            scaled == d * q + scaled % d,
            scaled % d >= 0,
            d >= 1,
            q >= 0,
    ;
    assert(d * q == q * d && (q + 1) * d == q * d + d) by (nonlinear_arith);
}

/// A new playhead stands at the first frame and does not move.
pub proof fn new_playhead_stands(
    framerate: Framerate,
    duration_frames: u32,
    now: Instant,
    elapsed: u128,
)
    ensures
        ticked(new_playhead(framerate, duration_frames, now), elapsed) == new_playhead(
            framerate,
            duration_frames,
            now,
        ),
        new_playhead(framerate, duration_frames, now).current_frame == 0,
        new_playhead(framerate, duration_frames, now).duration_frames == duration_frames,
        new_playhead(framerate, duration_frames, now).framerate == framerate,
{
}

/// With a rate that is no number every look is due all frames there can be, and
/// with no time passed none.
pub proof fn boundless_rate_is_always_due(p: PlayheadModel, elapsed: u128)
    requires
        p.framerate.0.den == 0,
        p.framerate.0.num > 0,
    ensures
        elapsed > 0 ==> frames_due(p, elapsed) == u32::MAX,
        elapsed == 0 ==> frames_due(p, elapsed) == 0,
{
    let n = p.framerate.0.num as int;
    let t = elapsed as int;
    if t > 0 {
        assert(t * n > 0) by (nonlinear_arith)
            requires
                t > 0,
                n > 0,
        ;
    } else {
        assert(t * n == 0) by (nonlinear_arith)
            requires
                t == 0,
        ;
    }
}

} // verus!
