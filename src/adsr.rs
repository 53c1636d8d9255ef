use vstd::prelude::*;
use vstd::arithmetic::div_mod::lemma_div_is_ordered;

verus! {

/// The largest level an envelope produces at full velocity.
pub const MAX_LEVEL: u32 = 4095;

const DEFAULT_ATTACK_MS: u32 = 100;

const DEFAULT_DECAY_MS: u32 = 50;

const DEFAULT_RELEASE_MS: u32 = 500;

/// Stage of an attack/decay/sustain/release envelope.
#[derive(Debug, Clone, Copy, PartialEq, Eq, Structural)]
pub enum AdsrState {
    Attack,
    Decay,
    Sustain,
    Release,
    Idle,
}

/// The abstract value of an envelope generator.
pub struct AdsrModel {
    pub attack_ms: int,
    pub decay_ms: int,
    pub sustain_level: int,
    pub aftertouch: int,
    pub release_ms: int,
    pub state: AdsrState,
    pub time_us: int,
    pub held: bool,
    pub velocity: int,
}

/// An attack/decay/sustain/release amplitude envelope driven by elapsed microseconds.
pub struct Adsr {
    attack_ms: u32,
    decay_ms: u32,
    sustain_level: u32,
    aftertouch: u32,
    release_ms: u32,
    state: AdsrState,
    time_us: u32,
    triggered: bool,
    velocity: u8,
}

impl View for Adsr {
    type V = AdsrModel;

    closed spec fn view(&self) -> AdsrModel {
        AdsrModel {
            attack_ms: self.attack_ms as int,
            decay_ms: self.decay_ms as int,
            sustain_level: self.sustain_level as int,
            aftertouch: self.aftertouch as int,
            release_ms: self.release_ms as int,
            state: self.state,
            time_us: self.time_us as int,
            held: self.triggered,
            velocity: self.velocity as int,
        }
    }
}

/// The power-up envelope: idle, attack 100 ms, decay 50 ms, sustain at a third
/// of `MAX_LEVEL`, release 500 ms, no aftertouch, full velocity.
pub open spec fn adsr_initial() -> AdsrModel {
    AdsrModel {
        attack_ms: 100,
        decay_ms: 50,
        sustain_level: (MAX_LEVEL / 3) as int,
        aftertouch: 0,
        release_ms: 500,
        state: AdsrState::Idle,
        time_us: 0,
        held: false,
        velocity: 127,
    }
}

/// A trigger: the velocity is kept, the note counts as held and the attack starts over.
pub open spec fn adsr_triggered(m: AdsrModel, velocity: int) -> AdsrModel {
    AdsrModel { velocity, held: true, time_us: 0, state: AdsrState::Attack, ..m }
}

/// A release: the note no longer counts as held; nothing else changes until the next update.
pub open spec fn adsr_released(m: AdsrModel) -> AdsrModel {
    AdsrModel { held: false, ..m }
}

/// `x` floored at one, the divisor used for every stage duration.
pub open spec fn at_least_one(x: int) -> int {
    if x < 1 { 1 } else { x }
}

/// Scales a level by a MIDI velocity, 127 being full scale.
pub open spec fn scale_by_velocity(level: int, velocity: int) -> int {
    level * velocity / 127
}

/// Level during the attack ramp, `t` milliseconds after the trigger.
pub open spec fn attack_level(attack_ms: int, velocity: int, t: int) -> int {
    scale_by_velocity(MAX_LEVEL * t / at_least_one(attack_ms), velocity)
}

/// Level during the decay ramp, `t` milliseconds after the trigger.
pub open spec fn decay_level(m: AdsrModel, t: int) -> int {
    let into_decay = if t < m.attack_ms { 0 } else { t - m.attack_ms };
    scale_by_velocity(
        MAX_LEVEL - (MAX_LEVEL - m.sustain_level) * into_decay / at_least_one(m.decay_ms),
        m.velocity,
    )
}

/// Level kept while the note is held, with the aftertouch offset, capped at `MAX_LEVEL`.
pub open spec fn sustain_output(m: AdsrModel) -> int {
    let v = scale_by_velocity(m.sustain_level, m.velocity) + m.aftertouch;
    if v < MAX_LEVEL { v } else { MAX_LEVEL as int }
}

/// Level during the release ramp, `t` milliseconds after the release began.
pub open spec fn release_level(m: AdsrModel, t: int) -> int {
    scale_by_velocity(
        m.sustain_level - m.sustain_level * t / at_least_one(m.release_ms),
        m.velocity,
    )
}

/// The elapsed-time counter after `dt` more microseconds; it stops at `u32::MAX`.
pub open spec fn advanced_time(time_us: int, dt: int) -> int {
    if time_us + dt > u32::MAX { u32::MAX as int } else { time_us + dt }
}

/// One update of the envelope by `dt` microseconds: the next state and the level returned.
pub open spec fn adsr_step(m: AdsrModel, dt: int) -> (AdsrModel, int) {
    let now = advanced_time(m.time_us, dt);
    let t = now / 1000;
    let m1 = AdsrModel { time_us: now, ..m };
    match m.state {
        AdsrState::Idle => (AdsrModel { time_us: 0, ..m }, 0),
        AdsrState::Attack => if t >= m.attack_ms {
            (AdsrModel { state: AdsrState::Decay, ..m1 }, MAX_LEVEL as int)
        } else {
            (m1, attack_level(m.attack_ms, m.velocity, t))
        },
        AdsrState::Decay => if t >= m.attack_ms + m.decay_ms {
            (AdsrModel { state: AdsrState::Sustain, ..m1 }, m.sustain_level)
        } else {
            (m1, decay_level(m, t))
        },
        AdsrState::Sustain => if !m.held {
            (AdsrModel { state: AdsrState::Release, time_us: 0, ..m }, sustain_output(m))
        } else {
            (m1, sustain_output(m))
        },
        AdsrState::Release => if t > m.release_ms {
            (AdsrModel { state: AdsrState::Idle, time_us: 0, ..m }, 0)
        } else {
            (m1, release_level(m, t))
        },
    }
}

/// The ranges every envelope's fields stay in.
pub open spec fn model_valid(m: AdsrModel) -> bool {
    &&& 0 <= m.attack_ms <= u32::MAX
    &&& 0 <= m.decay_ms <= u32::MAX
    &&& 0 <= m.sustain_level <= MAX_LEVEL
    &&& 0 <= m.aftertouch <= u32::MAX
    &&& 0 <= m.release_ms <= u32::MAX
    &&& 0 <= m.time_us <= u32::MAX
    &&& 0 <= m.velocity <= 255
}

/// With a zero attack time and full velocity, the first update after a trigger
/// returns the full level, scaled by velocity, and moves on to the decay stage.
pub proof fn lemma_zero_attack(m: AdsrModel, dt: u32)
    requires
        model_valid(m),
        m.state == AdsrState::Attack,
        m.time_us == 0,
        m.attack_ms == 0,
        m.velocity == 127,
    ensures
        adsr_step(m, dt as int).1 == scale_by_velocity(MAX_LEVEL as int, m.velocity),
        adsr_step(m, dt as int).0.state == AdsrState::Decay,
{
}

/// With a zero decay time, the first update in the decay stage returns the
/// sustain level and moves on to the sustain stage.
pub proof fn lemma_zero_decay(m: AdsrModel, dt: u32)
    requires
        model_valid(m),
        m.state == AdsrState::Decay,
        m.time_us / 1000 >= m.attack_ms,
        m.decay_ms == 0,
    ensures
        adsr_step(m, dt as int).1 == m.sustain_level,
        adsr_step(m, dt as int).0.state == AdsrState::Sustain,
{
    assert(advanced_time(m.time_us, dt as int) >= m.time_us);
    lemma_div_is_ordered(m.time_us, advanced_time(m.time_us, dt as int), 1000);
}

/// While the note is held with no aftertouch, the sustain stage returns
/// `sustain_level * velocity / 127` on every update, however much time passes.
pub proof fn lemma_sustain_holds(m: AdsrModel, dt1: u32, dt2: u32)
    requires
        model_valid(m),
        m.velocity <= 127,
        m.state == AdsrState::Sustain,
        m.held,
        m.aftertouch == 0,
    ensures
        adsr_step(m, dt1 as int).1 == m.sustain_level * m.velocity / 127,
        adsr_step(m, dt1 as int).0.state == AdsrState::Sustain,
        adsr_step(adsr_step(m, dt1 as int).0, dt2 as int).1 == m.sustain_level * m.velocity / 127,
{
    lemma_velocity_bound(m.sustain_level, m.velocity);
}

/// Releasing during the sustain stage: the next update enters the release stage
/// with the elapsed time reset to zero.
pub proof fn lemma_release_starts(m: AdsrModel, dt: u32)
    requires
        model_valid(m),
        m.state == AdsrState::Sustain,
        !m.held,
    ensures
        adsr_step(m, dt as int).0.state == AdsrState::Release,
        adsr_step(m, dt as int).0.time_us == 0,
{
}

/// The release stage ramps down: each update returns `release_level` of the
/// elapsed milliseconds, which never grows with time and is zero at `release_ms`;
/// once more than `release_ms` have passed the update returns exactly zero and
/// the envelope goes idle.
pub proof fn lemma_release_ramp(m: AdsrModel, dt: u32, t1: int, t2: int)
    requires
        model_valid(m),
        m.state == AdsrState::Release,
        0 <= t1 <= t2,
    ensures
        ({
            let t = advanced_time(m.time_us, dt as int) / 1000;
            if t > m.release_ms {
                adsr_step(m, dt as int).1 == 0 && adsr_step(m, dt as int).0.state == AdsrState::Idle
            } else {
                adsr_step(m, dt as int).1 == release_level(m, t)
                    && adsr_step(m, dt as int).0.state == AdsrState::Release
            }
        }),
        t2 <= at_least_one(m.release_ms) ==> release_level(m, t1) >= release_level(m, t2),
        m.release_ms >= 1 ==> release_level(m, m.release_ms) == 0,
{
    let s = m.sustain_level;
    let d = at_least_one(m.release_ms);
    if t2 <= d {
        assert(s * t1 <= s * t2) by (nonlinear_arith)
            requires
                0 <= s,
                t1 <= t2,
        ;
        lemma_div_is_ordered(s * t1, s * t2, d);
        lemma_ramp_below(s, t2, d);
        lemma_ramp_below(s, t1, d);
        let l1 = s - s * t1 / d;
        let l2 = s - s * t2 / d;
        assert(l2 * m.velocity <= l1 * m.velocity) by (nonlinear_arith)
            requires
                0 <= l2 <= l1,
                0 <= m.velocity,
        ;
        lemma_div_is_ordered(l2 * m.velocity, l1 * m.velocity, 127);
    }
    if m.release_ms >= 1 {
        assert(s * m.release_ms / m.release_ms == s) by (nonlinear_arith)
            requires
                m.release_ms >= 1,
        ;
    }
}

proof fn lemma_ramp_below(k: int, t: int, d: int)
    requires
        0 <= k <= MAX_LEVEL,
        0 <= t <= d,
        0 < d,
    ensures
        0 <= k * t <= MAX_LEVEL * u32::MAX || d > u32::MAX,
        0 <= k * t / d <= k,
{
    assert(0 <= k * t <= k * d) by (nonlinear_arith)
        requires
            0 <= k,
            0 <= t <= d,
    ;
    assert(d <= u32::MAX ==> k * d <= MAX_LEVEL * u32::MAX) by (nonlinear_arith)
        requires
            0 <= k <= MAX_LEVEL,
            0 < d,
    ;
    lemma_div_is_ordered(k * t, k * d, d);
    lemma_div_is_ordered(0, k * t, d);
    assert(k * d / d == k) by (nonlinear_arith)
        requires
            0 < d,
    ;
}

proof fn lemma_velocity_bound(level: int, velocity: int)
    requires
        0 <= level <= MAX_LEVEL,
        0 <= velocity <= 255,
    ensures
        0 <= scale_by_velocity(level, velocity) <= 8222,
        velocity <= 127 ==> scale_by_velocity(level, velocity) <= level,
{
    assert(0 <= level * velocity <= 4095 * 255) by (nonlinear_arith)
        requires
            0 <= level <= 4095,
            0 <= velocity <= 255,
    ;
    if velocity <= 127 {
        assert(level * velocity <= level * 127) by (nonlinear_arith)
            requires
                0 <= level,
                velocity <= 127,
        ;
        lemma_div_is_ordered(level * velocity, level * 127, 127);
        assert(level * 127 / 127 == level);
    }
}

impl Adsr {
    /// Internal consistency: the sustain level never exceeds `MAX_LEVEL`.
    pub closed spec fn wf(&self) -> bool {
        self.sustain_level <= MAX_LEVEL
    }

    /// An idle envelope with the power-up settings.
    pub fn new() -> (r: Self)
        ensures
            r.wf(),
            r@ == adsr_initial(),
    {
        Adsr {
            attack_ms: DEFAULT_ATTACK_MS,
            decay_ms: DEFAULT_DECAY_MS,
            sustain_level: MAX_LEVEL / 3,
            release_ms: DEFAULT_RELEASE_MS,
            aftertouch: 0,
            state: AdsrState::Idle,
            time_us: 0,
            triggered: false,
            velocity: 127,
        }
    }

    pub fn set_attack(&mut self, attack_ms: u32)
        requires
            old(self).wf(),
        ensures
            final(self).wf(),
            final(self)@ == (AdsrModel { attack_ms: attack_ms as int, ..old(self)@ }),
    {
        self.attack_ms = attack_ms;
    }

    pub fn set_decay(&mut self, decay_ms: u32)
        requires
            old(self).wf(),
        ensures
            final(self).wf(),
            final(self)@ == (AdsrModel { decay_ms: decay_ms as int, ..old(self)@ }),
    {
        self.decay_ms = decay_ms;
    }

    /// Sets the sustain level, clamped to `MAX_LEVEL`.
    pub fn set_sustain(&mut self, sustain_level: u32)
        requires
            old(self).wf(),
        ensures
            final(self).wf(),
            final(self)@ == (AdsrModel {
                sustain_level: if sustain_level <= MAX_LEVEL { sustain_level as int } else { MAX_LEVEL as int },
                ..old(self)@
            }),
    {
        self.sustain_level = if sustain_level <= MAX_LEVEL { sustain_level } else { MAX_LEVEL };
    }

    pub fn set_aftertouch(&mut self, aftertouch: u32)
        requires
            old(self).wf(),
        ensures
            final(self).wf(),
            final(self)@ == (AdsrModel { aftertouch: aftertouch as int, ..old(self)@ }),
    {
        self.aftertouch = aftertouch;
    }

    pub fn set_release(&mut self, release_ms: u32)
        requires
            old(self).wf(),
        ensures
            final(self).wf(),
            final(self)@ == (AdsrModel { release_ms: release_ms as int, ..old(self)@ }),
    {
        self.release_ms = release_ms;
    }

    /// Starts (or restarts) the envelope from the attack stage with the given velocity.
    pub fn trigger(&mut self, velocity: u8)
        requires
            old(self).wf(),
        ensures
            final(self).wf(),
            final(self)@ == adsr_triggered(old(self)@, velocity as int),
    {
        self.velocity = velocity;
        self.triggered = true;
        self.time_us = 0;
        self.state = AdsrState::Attack;
    }

    /// Marks the note as let go; the sustain stage turns into the release stage on its next update.
    pub fn release(&mut self)
        requires
            old(self).wf(),
        ensures
            final(self).wf(),
            final(self)@ == adsr_released(old(self)@),
    {
        self.triggered = false;
    }

    /// Every envelope's fields stay in their ranges.
    pub proof fn lemma_valid(&self)
        requires
            self.wf(),
        ensures
            model_valid(self@),
    {
    }

    /// The current stage.
    pub fn state(&self) -> (r: AdsrState)
        ensures
            r == self@.state,
    {
        self.state
    }

    /// Advances the envelope by `dt_us` microseconds and returns its level.
    pub fn update(&mut self, dt_us: u32) -> (r: u16)
        requires
            old(self).wf(),
        ensures
            final(self).wf(),
            (final(self)@, r as int) == adsr_step(old(self)@, dt_us as int),
    {
        let ghost m = self@;
        self.time_us = self.time_us.saturating_add(dt_us);
        let time_ms: u64 = (self.time_us / 1000) as u64;
        let velocity: u64 = self.velocity as u64;
        let max_level: u64 = MAX_LEVEL as u64;
        let attack: u64 = self.attack_ms as u64;
        let sustain: u64 = self.sustain_level as u64;
        match self.state {
            AdsrState::Idle => {
                self.time_us = 0;
                0
            },
            AdsrState::Attack => {
                if time_ms >= attack {
                    self.state = AdsrState::Decay;
                    return MAX_LEVEL as u16;
                }
                let divisor: u64 = if attack < 1 { 1 } else { attack };
                proof {
                    lemma_ramp_below(MAX_LEVEL as int, time_ms as int, divisor as int);
                }
                let ramp: u64 = max_level * time_ms / divisor;
                proof {
                    lemma_velocity_bound(ramp as int, velocity as int);
                }
                (ramp * velocity / 127) as u16
            },
            AdsrState::Decay => {
                let decay: u64 = self.decay_ms as u64;
                if time_ms >= attack + decay {
                    self.state = AdsrState::Sustain;
                    return self.sustain_level as u16;
                }
                let into_decay: u64 = if time_ms < attack { 0 } else { time_ms - attack };
                let divisor: u64 = if decay < 1 { 1 } else { decay };
                let span: u64 = max_level - sustain;
                proof {
                    lemma_ramp_below(span as int, into_decay as int, divisor as int);
                }
                let fall: u64 = span * into_decay / divisor;
                let level: u64 = max_level - fall;
                proof {
                    lemma_velocity_bound(level as int, velocity as int);
                }
                (level * velocity / 127) as u16
            },
            AdsrState::Sustain => {
                if !self.triggered {
                    self.state = AdsrState::Release;
                    self.time_us = 0;
                }
                proof {
                    lemma_velocity_bound(sustain as int, velocity as int);
                }
                let held: u64 = sustain * velocity / 127 + self.aftertouch as u64;
                if held < max_level {
                    held as u16
                } else {
                    MAX_LEVEL as u16
                }
            },
            AdsrState::Release => {
                let release: u64 = self.release_ms as u64;
                if time_ms > release {
                    self.state = AdsrState::Idle;
                    self.time_us = 0;
                    return 0;
                }
                let divisor: u64 = if release < 1 { 1 } else { release };
                proof {
                    lemma_ramp_below(sustain as int, time_ms as int, divisor as int);
                }
                let fall: u64 = sustain * time_ms / divisor;
                let level: u64 = sustain - fall;
                proof {
                    lemma_velocity_bound(level as int, velocity as int);
                }
                (level * velocity / 127) as u16
            },
        }
    }
}

} // verus!
