//! The session clock: play / pause / stop state machine and the advancement
//! of time and beat once per rendered frame.

use vstd::prelude::*;
use crate::ratio::{Ratio, plus, fits_u64, is_sum, advanced_by, lemma_plus_is_sum, lemma_advanced_step};

verus! {

/// Wall-clock readings handed to the clock are counted in microseconds.
pub const MICROS_PER_SECOND: u64 = 1_000_000;

pub const SECONDS_PER_MINUTE: u64 = 60;

pub const MICROS_PER_MINUTE: u64 = 60_000_000;

/// Playback state. A session starts `Paused`; `Stopped` is terminal.
#[derive(Clone, Copy, Debug, PartialEq, Eq, Structural)]
pub enum PlayState {
    Paused,
    Playing,
    Stopped,
}

/// Raised when a time or beat value no longer fits its representation.
#[derive(Clone, Copy, Debug, PartialEq, Eq, Structural)]
pub struct ClockOverflow;

/// The session clock.
#[derive(Clone, Copy, Debug)]
pub struct Transport {
    /// Beats per minute.
    pub bpm: Ratio,
    /// Frames per second assumed when the speed is locked; never zero.
    pub target_fps: u64,
    /// Advance by a fixed step per frame rather than by elapsed wall time.
    pub locked_speed: bool,
    /// Elapsed session time, in seconds.
    pub time: Ratio,
    /// Elapsed beats.
    pub beat: Ratio,
    /// Frames finished so far.
    pub frame_count: u64,
    pub state: PlayState,
    /// Wall-clock reading (microseconds) at the last advancement or start.
    pub last_update_us: u64,
}

/// The step of one frame at `fps` frames per second: `1 / fps` seconds.
pub open spec fn locked_time_step(fps: u64) -> (int, int) {
    (1, fps as int)
}

/// The beats of one frame at `fps` frames per second: `bpm / (60 * fps)`.
pub open spec fn locked_beat_step(bpm: Ratio, fps: u64) -> (int, int) {
    (bpm.num as int, bpm.den * SECONDS_PER_MINUTE * fps)
}

/// `elapsed_us` microseconds, in seconds.
pub open spec fn wall_time_step(elapsed_us: int) -> (int, int) {
    (elapsed_us, MICROS_PER_SECOND as int)
}

/// The beats in `elapsed_us` microseconds: `elapsed * bpm / 60`.
pub open spec fn wall_beat_step(bpm: Ratio, elapsed_us: int) -> (int, int) {
    (elapsed_us * bpm.num, bpm.den * MICROS_PER_MINUTE)
}

pub open spec fn pair_fits(p: (int, int)) -> bool {
    fits_u64(p.0) && fits_u64(p.1)
}

pub open spec fn to_ratio(p: (int, int)) -> Ratio {
    Ratio { num: p.0 as u64, den: p.1 as u64 }
}

/// `t` follows `s` by one frame at locked speed, with rate and tempo kept.
pub open spec fn locked_frame(s: Transport, t: Transport) -> bool {
    &&& s.state == PlayState::Playing
    &&& s.locked_speed
    &&& pair_fits(plus(s.time, 1, s.target_fps as int))
    &&& pair_fits(
        plus(s.beat, locked_beat_step(s.bpm, s.target_fps).0, locked_beat_step(s.bpm, s.target_fps).1),
    )
    &&& t.time == to_ratio(plus(s.time, 1, s.target_fps as int))
    &&& t.beat == to_ratio(
        plus(s.beat, locked_beat_step(s.bpm, s.target_fps).0, locked_beat_step(s.bpm, s.target_fps).1),
    )
    &&& t.bpm == s.bpm
    &&& t.target_fps == s.target_fps
    &&& t.locked_speed
    &&& t.state == PlayState::Playing
    &&& t.wf()
}

/// Frame `i` of `states` is followed by frame `i + 1` at locked speed.
pub open spec fn locked_frame_at(states: Seq<Transport>, i: int) -> bool {
    locked_frame(states[i], states[i + 1])
}

impl Transport {
    pub open spec fn wf(self) -> bool {
        &&& self.bpm.wf()
        &&& self.target_fps > 0
        &&& self.time.wf()
        &&& self.beat.wf()
    }

    /// Wall time since the last reference reading; a clock that went
    /// backwards counts as no time.
    pub open spec fn elapsed_us(self, now_us: u64) -> int {
        if now_us >= self.last_update_us {
            now_us - self.last_update_us
        } else {
            0
        }
    }

    pub open spec fn time_step(self, now_us: u64) -> (int, int) {
        if self.locked_speed {
            locked_time_step(self.target_fps)
        } else {
            wall_time_step(self.elapsed_us(now_us))
        }
    }

    pub open spec fn beat_step(self, now_us: u64) -> (int, int) {
        if self.locked_speed {
            locked_beat_step(self.bpm, self.target_fps)
        } else {
            wall_beat_step(self.bpm, self.elapsed_us(now_us))
        }
    }

    /// Time and beat after one advancement at `now_us`, when they fit.
    pub open spec fn next_clock(self, now_us: u64) -> Option<(Ratio, Ratio)> {
        let ts = self.time_step(now_us);
        let bs = self.beat_step(now_us);
        let t = plus(self.time, ts.0, ts.1);
        let b = plus(self.beat, bs.0, bs.1);
        if pair_fits(ts) && pair_fits(bs) && pair_fits(t) && pair_fits(b) {
            Some((to_ratio(t), to_ratio(b)))
        } else {
            None
        }
    }

    pub open spec fn after_play(self, now_us: u64) -> Transport {
        if self.state == PlayState::Paused {
            Transport { state: PlayState::Playing, last_update_us: now_us, ..self }
        } else {
            self
        }
    }

    pub open spec fn after_pause(self) -> Transport {
        if self.state == PlayState::Playing {
            Transport { state: PlayState::Paused, ..self }
        } else {
            self
        }
    }

    pub open spec fn after_stop(self) -> Transport {
        Transport { state: PlayState::Stopped, ..self }
    }

    /// A paused clock at zero.
    pub fn new(bpm: Ratio, target_fps: u64, locked_speed: bool, now_us: u64) -> (r: Transport)
        requires
            bpm.wf(),
            target_fps > 0,
        ensures
            r.wf(),
            r.bpm == bpm,
            r.target_fps == target_fps,
            r.locked_speed == locked_speed,
            r.time == Ratio::from_int_spec(0),
            r.beat == Ratio::from_int_spec(0),
            r.frame_count == 0,
            r.state == PlayState::Paused,
            r.last_update_us == now_us,
    {
        Transport {
            bpm,
            target_fps,
            locked_speed,
            time: Ratio::from_int(0),
            beat: Ratio::from_int(0),
            frame_count: 0,
            state: PlayState::Paused,
            last_update_us: now_us,
        }
    }

    pub fn is_playing(&self) -> (r: bool)
        ensures
            r == (self.state == PlayState::Playing),
    {
        self.state == PlayState::Playing
    }

    /// Starts a paused clock, taking `now_us` as the new wall-clock
    /// reference so that no time jump occurs. Returns whether the state
    /// changed, in which case the inputs are to be started too.
    pub fn play(&mut self, now_us: u64) -> (changed: bool)
        ensures
            *final(self) == old(self).after_play(now_us),
            changed == (old(self).state == PlayState::Paused),
    {
        if self.state == PlayState::Paused {
            self.state = PlayState::Playing;
            self.last_update_us = now_us;
            true
        } else {
            false
        }
    }

    /// Freezes advancement. Returns whether the clock is not stopped, in
    /// which case the inputs are to be paused too.
    pub fn pause(&mut self) -> (live: bool)
        ensures
            *final(self) == old(self).after_pause(),
            live == (old(self).state != PlayState::Stopped),
    {
        if self.state == PlayState::Playing {
            self.state = PlayState::Paused;
        }
        self.state != PlayState::Stopped
    }

    /// Terminal transition. Returns whether this call made it, in which case
    /// the inputs are released and the frame sink told to finish.
    pub fn stop(&mut self) -> (changed: bool)
        ensures
            *final(self) == old(self).after_stop(),
            changed == (old(self).state != PlayState::Stopped),
    {
        let changed = self.state != PlayState::Stopped;
        self.state = PlayState::Stopped;
        changed
    }

    /// Advances time and beat by one frame while playing: by `1 / target_fps`
    /// seconds and `bpm / (60 * target_fps)` beats at locked speed, else by
    /// the wall time since the last reference reading. Frozen otherwise.
    pub fn advance(&mut self, now_us: u64) -> (r: Result<(), ClockOverflow>)
        requires
            old(self).wf(),
        ensures
            final(self).wf(),
            old(self).state != PlayState::Playing ==> r is Ok && *final(self) == *old(self),
            old(self).state == PlayState::Playing ==> match old(self).next_clock(now_us) {
                Some(next) => r is Ok && *final(self) == (Transport {
                    time: next.0,
                    beat: next.1,
                    last_update_us: now_us,
                    ..*old(self)
                }),
                None => r is Err && *final(self) == *old(self),
            },
            r is Ok && old(self).state == PlayState::Playing ==> is_sum(
                (final(self).time.num as int, final(self).time.den as int),
                old(self).time,
                old(self).time_step(now_us).0,
                old(self).time_step(now_us).1,
            ) && is_sum(
                (final(self).beat.num as int, final(self).beat.den as int),
                old(self).beat,
                old(self).beat_step(now_us).0,
                old(self).beat_step(now_us).1,
            ),
            r is Ok && old(self).state == PlayState::Playing && old(self).locked_speed
                ==> locked_frame(*old(self), *final(self)),
    {
        if self.state != PlayState::Playing {
            return Ok(());
        }
        let elapsed: u64 = if now_us >= self.last_update_us {
            now_us - self.last_update_us
        } else {
            0
        };
        let steps = self.steps(elapsed);
        match steps {
            None => Err(ClockOverflow),
            Some((ts, bs)) => {
                proof {
                    lemma_plus_is_sum(self.time, ts.num as int, ts.den as int);
                    lemma_plus_is_sum(self.beat, bs.num as int, bs.den as int);
                }
                match (self.time.add(ts.num, ts.den), self.beat.add(bs.num, bs.den)) {
                    (Some(t), Some(b)) => {
                        self.time = t;
                        self.beat = b;
                        self.last_update_us = now_us;
                        Ok(())
                    },
                    _ => Err(ClockOverflow),
                }
            },
        }
    }

    /// The time and beat steps of one frame, when both fit.
    fn steps(&self, elapsed_us: u64) -> (r: Option<(Ratio, Ratio)>)
        requires
            self.wf(),
        ensures
            ({
                let ts = if self.locked_speed {
                    locked_time_step(self.target_fps)
                } else {
                    wall_time_step(elapsed_us as int)
                };
                let bs = if self.locked_speed {
                    locked_beat_step(self.bpm, self.target_fps)
                } else {
                    wall_beat_step(self.bpm, elapsed_us as int)
                };
                &&& r is Some <==> pair_fits(ts) && pair_fits(bs)
                &&& r matches Some((t, b)) ==> t == to_ratio(ts) && b == to_ratio(bs) && t.wf() && b.wf()
            }),
    {
        let per_minute: u64 = if self.locked_speed {
            if self.target_fps > u64::MAX / SECONDS_PER_MINUTE {
                assert(self.bpm.den * SECONDS_PER_MINUTE * self.target_fps > u64::MAX) by (nonlinear_arith)
                    requires self.bpm.den >= 1, self.target_fps > u64::MAX / 60;
                return None;
            }
            SECONDS_PER_MINUTE * self.target_fps
        } else {
            MICROS_PER_MINUTE
        };
        proof {
            vstd::arithmetic::mul::lemma_mul_upper_bound(
                self.bpm.den as int, u64::MAX as int, per_minute as int, u64::MAX as int);
        }
        let beat_den = self.bpm.den as u128 * per_minute as u128;
        assert(beat_den > 0) by (nonlinear_arith)
            requires beat_den == self.bpm.den * per_minute, self.bpm.den > 0, per_minute > 0;
        if beat_den > u64::MAX as u128 {
            assert(self.locked_speed ==> self.bpm.den * SECONDS_PER_MINUTE * self.target_fps == beat_den) by (nonlinear_arith)
                requires beat_den == self.bpm.den * per_minute,
                    self.locked_speed ==> per_minute == SECONDS_PER_MINUTE * self.target_fps;
            return None;
        }
        assert(self.locked_speed ==> self.bpm.den * SECONDS_PER_MINUTE * self.target_fps == beat_den) by (nonlinear_arith)
            requires beat_den == self.bpm.den * per_minute,
                self.locked_speed ==> per_minute == SECONDS_PER_MINUTE * self.target_fps;
        if self.locked_speed {
            Some((
                Ratio { num: 1, den: self.target_fps },
                Ratio { num: self.bpm.num, den: beat_den as u64 },
            ))
        } else {
            proof {
                vstd::arithmetic::mul::lemma_mul_upper_bound(
                    elapsed_us as int, u64::MAX as int, self.bpm.num as int, u64::MAX as int);
            }
            let beat_num = elapsed_us as u128 * self.bpm.num as u128;
            if beat_num > u64::MAX as u128 {
                return None;
            }
            Some((
                Ratio { num: elapsed_us, den: MICROS_PER_SECOND },
                Ratio { num: beat_num as u64, den: beat_den as u64 },
            ))
        }
    }

    /// Counts one finished frame, saturating at `u64::MAX`.
    pub fn finish_frame(&mut self)
        ensures
            final(self).frame_count == if old(self).frame_count < u64::MAX {
                old(self).frame_count + 1
            } else {
                old(self).frame_count as int
            },
            *final(self) == (Transport { frame_count: final(self).frame_count, ..*old(self) }),
    {
        if self.frame_count < u64::MAX {
            self.frame_count = self.frame_count + 1;
        }
    }
}

/// Over any run of frames rendered at locked speed, time advances by exactly
/// `n / target_fps` seconds and the beat count by exactly
/// `n * bpm / (60 * target_fps)`, where `n` is the number of frames, whatever
/// the wall clock did between them.
pub proof fn lemma_locked_frames_advance_exactly(states: Seq<Transport>)
    requires
        states.len() >= 1,
        states[0].wf(),
        forall|i: int| 0 <= i < states.len() - 1 ==> #[trigger] locked_frame_at(states, i),
    ensures
        ({
            let n = states.len() - 1;
            let first = states[0];
            let last = states[n];
            let bs = locked_beat_step(first.bpm, first.target_fps);
            &&& advanced_by(last.time, first.time, n, 1, first.target_fps as int)
            &&& advanced_by(last.beat, first.beat, n, bs.0, bs.1)
        }),
    decreases states.len(),
{
    let n = states.len() - 1;
    let first = states[0];
    let bs = locked_beat_step(first.bpm, first.target_fps);
    if n == 0 {
        assert(advanced_by(first.time, first.time, 0, 1, first.target_fps as int)) by (nonlinear_arith);
        assert(advanced_by(first.beat, first.beat, 0, bs.0, bs.1)) by (nonlinear_arith);
    } else {
        let prefix = states.drop_last();
        assert forall|i: int| 0 <= i < prefix.len() - 1 implies #[trigger] locked_frame_at(prefix, i) by {
            assert(locked_frame_at(states, i));
        }
        lemma_locked_frames_advance_exactly(prefix);
        let prev = states[n - 1];
        let last = states[n];
        assert(locked_frame_at(states, n - 1));
        assert(prev.wf()) by {
            if n - 1 > 0 {
                assert(locked_frame_at(states, n - 2));
            }
        }
        lemma_rate_kept(states, n - 1);
        assert(bs.1 > 0) by (nonlinear_arith)
            requires bs.1 == first.bpm.den * SECONDS_PER_MINUTE * first.target_fps,
                first.bpm.den > 0, first.target_fps > 0;
        lemma_plus_is_sum(prev.time, 1, first.target_fps as int);
        lemma_plus_is_sum(prev.beat, bs.0, bs.1);
        lemma_advanced_step(first.time, prev.time, last.time, n - 1, 1, first.target_fps as int);
        lemma_advanced_step(first.beat, prev.beat, last.beat, n - 1, bs.0, bs.1);
    }
}

/// Along a run of locked frames the tempo and rate stay those of the start.
proof fn lemma_rate_kept(states: Seq<Transport>, k: int)
    requires
        0 <= k < states.len(),
        forall|i: int| 0 <= i < states.len() - 1 ==> #[trigger] locked_frame_at(states, i),
    ensures
        states[k].bpm == states[0].bpm,
        states[k].target_fps == states[0].target_fps,
    decreases k,
{
    if k > 0 {
        assert(locked_frame_at(states, k - 1));
        lemma_rate_kept(states, k - 1);
    }
}

/// Stopping is idempotent, and a stopped clock ignores play and pause.
pub proof fn lemma_stop_is_terminal(s: Transport, now_us: u64)
    ensures
        s.after_stop().after_stop() == s.after_stop(),
        s.after_stop().after_play(now_us) == s.after_stop(),
        s.after_stop().after_pause() == s.after_stop(),
{
}

} // verus!
