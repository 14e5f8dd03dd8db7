//! The motion of one axis: a velocity that slews toward its target, the step
//! pulses that it gives rise to, and the deadman that stops it.
//!
//! Times are in microseconds.

use crate::axis::{en_level, enable_level, AxisCmd, Level};
use vstd::prelude::*;

verus! {

/// The highest step rate that a command can ask for.
pub const MAX_HZ: u32 = 40_000;

/// The slowest rate at which a ramp toward a faster target dwells.
pub const START_HZ: i32 = 20;

/// A moving axis halts when no jog has come for longer than this.
pub const WATCHDOG_MS: u64 = 200;

/// The state of an axis.
#[derive(Clone, Copy, Debug, PartialEq, Eq, Structural)]
pub struct Motion {
    pub enabled: bool,
    /// The commanded velocity, in steps per second.
    pub target_v: i32,
    /// The velocity now, in thousandths of a step per second.
    pub current_milli: i64,
    /// The slew limit in steps per second squared; zero is instant.
    pub accel: u32,
    /// When the last jog was applied.
    pub last_jog_at: u64,
    /// When the velocity was last slewed.
    pub last_slew_at: u64,
    /// The sign of the velocity that the direction pin was last set for.
    pub last_dir_sign: i32,
    /// When the step pin was last pulsed.
    pub last_step_at: Option<u64>,
}

/// What an axis does next.
#[derive(Clone, Copy, Debug, PartialEq, Eq, Structural)]
pub enum Drive {
    /// At rest: wait for a command, however long.
    Idle,
    /// Set the direction pin if a level is given, pulse the step pin if
    /// `step` holds, and wait for a command at most `wait_us`.
    Run { dir: Option<Level>, step: bool, wait_us: u64 },
}

/// What ended the wait of a running axis.
#[derive(Clone, Copy, Debug, PartialEq, Eq, Structural)]
pub enum Wake {
    /// The time was up.
    Timer,
    /// A command came; it is applied at time `at`.
    Command { cmd: AxisCmd, at: u64 },
}

/// What the end of a wait asks of the outside.
#[derive(Clone, Copy, Debug, PartialEq, Eq, Structural)]
pub struct Reaction {
    /// The level to drive the enable pin to.
    pub en: Option<Level>,
    /// Whether the deadman halted the axis.
    pub halted: bool,
}

pub open spec fn sign_of(v: int) -> int {
    if v > 0 {
        1
    } else if v < 0 {
        -1
    } else {
        0
    }
}

pub open spec fn magnitude(v: int) -> int {
    if v < 0 {
        -v
    } else {
        v
    }
}

/// Whole steps per second in a velocity given in thousandths, rounded toward zero.
pub open spec fn whole_hz(milli: int) -> int {
    if milli < 0 {
        -((-milli) / 1000)
    } else {
        milli / 1000
    }
}

/// The largest change of velocity in `dt` microseconds, in thousandths.
pub open spec fn slew_limit(accel: int, dt: int) -> int {
    if accel * dt > i64::MAX {
        i64::MAX as int / 1000
    } else {
        (accel * dt) / 1000
    }
}

/// The point nearest to `to` within `limit` of `from`.
pub open spec fn toward(from: int, to: int, limit: int) -> int {
    if to > from + limit {
        from + limit
    } else if to < from - limit {
        from - limit
    } else {
        to
    }
}

/// Whether a ramp that reached `milli` is lifted to the start rate: it is on
/// the target's side of zero, or at zero, and slower than the start rate,
/// while the target is faster.
pub open spec fn lifted(milli: int, target: int) -> bool {
    &&& magnitude(target) > START_HZ
    &&& magnitude(milli) < START_HZ * 1000
    &&& milli == 0 || sign_of(milli) == sign_of(target)
}

/// The velocity, in thousandths, after slewing for `dt` microseconds.
pub open spec fn slewed(milli: int, target: int, accel: int, dt: int) -> int {
    if accel == 0 {
        target * 1000
    } else {
        let reached = toward(milli, target * 1000, slew_limit(accel, dt));
        if lifted(reached, target) {
            sign_of(target) * START_HZ * 1000
        } else {
            reached
        }
    }
}

/// The time from one step to the next.
pub open spec fn step_period(hz: int) -> int {
    if 1_000_000int / magnitude(hz) > 4 {
        1_000_000int / magnitude(hz)
    } else {
        4
    }
}

impl Motion {
    /// Every state that the axis can reach.
    pub open spec fn wf(self) -> bool {
        &&& i32::MIN * 1000 <= self.current_milli <= i32::MAX * 1000
        &&& -1 <= self.last_dir_sign <= 1
    }

    /// The velocity now, in whole steps per second.
    pub open spec fn hz(self) -> int {
        whole_hz(self.current_milli as int)
    }

    /// At rest, with nothing to do until a command comes.
    pub open spec fn at_rest(self) -> bool {
        self.hz() == 0 && self.target_v == 0
    }

    /// The state after a command is applied at `at`.
    pub open spec fn applied(self, cmd: AxisCmd, at: u64) -> Motion {
        match cmd {
            AxisCmd::Enable(on) => if on {
                Motion { enabled: true, ..self }
            } else {
                Motion { enabled: false, target_v: 0, current_milli: 0, ..self }
            },
            AxisCmd::Jog(hz) => Motion {
                target_v: hz,
                enabled: self.enabled || hz != 0,
                last_jog_at: at,
                ..self
            },
            AxisCmd::Accel(a) => Motion { accel: a, ..self },
        }
    }

    /// The state after a command preempts motion at `at`. Without a slew
    /// limit a jog takes effect there and then.
    pub open spec fn preempted(self, cmd: AxisCmd, at: u64) -> Motion {
        let next = self.applied(cmd, at);
        if cmd is Jog && self.accel == 0 {
            Motion { current_milli: (next.target_v * 1000) as i64, ..next }
        } else {
            next
        }
    }

    /// The level that a command drives the enable pin to.
    pub open spec fn en_for(self, cmd: AxisCmd) -> Option<Level> {
        match cmd {
            AxisCmd::Enable(on) => Some(en_level(on)),
            AxisCmd::Jog(hz) => if hz != 0 && !self.enabled {
                Some(Level::Low)
            } else {
                None
            },
            AxisCmd::Accel(_) => None,
        }
    }

    /// The state after slewing up to `now`.
    pub open spec fn slewed_at(self, now: u64) -> Motion {
        Motion {
            current_milli: slewed(
                self.current_milli as int,
                self.target_v as int,
                self.accel as int,
                now - self.last_slew_at,
            ) as i64,
            last_slew_at: now,
            ..self
        }
    }

    /// No jog has come for longer than the deadman allows.
    pub open spec fn overdue(self, now: u64) -> bool {
        now - self.last_jog_at > WATCHDOG_MS * 1000
    }

    /// How long it is until the deadman is due.
    pub open spec fn grace(self, now: u64) -> int {
        if self.overdue(now) {
            0
        } else {
            WATCHDOG_MS * 1000 + 1 - (now - self.last_jog_at)
        }
    }

    /// The state with all motion stopped at once, the motor left as it is.
    pub open spec fn stopped(self) -> Motion {
        Motion { target_v: 0, current_milli: 0, ..self }
    }

    /// The end of a wait at `now` finds the deadman due, and no jog to hold
    /// it off.
    pub open spec fn halts(self, now: u64, wake: Wake) -> bool {
        self.overdue(now) && !is_jog(wake)
    }

    /// The state after a wait that ended at `now`.
    pub open spec fn woken(self, now: u64, wake: Wake) -> Motion {
        let slewed = self.slewed_at(now);
        let next = if self.halts(now, wake) {
            slewed.stopped()
        } else {
            slewed
        };
        match wake {
            Wake::Timer => next,
            Wake::Command { cmd, at } => next.preempted(cmd, at),
        }
    }

    /// The times at which a wait can end: the clock does not run backwards,
    /// and the time since the last slew is one that a ramp can count.
    pub open spec fn clock_ok(self, now: u64) -> bool {
        &&& self.last_slew_at <= now
        &&& self.last_jog_at <= now
        &&& self.accel > 0 ==> now - self.last_slew_at <= i64::MAX
    }

    /// The times at which the axis can go on: the clock does not run
    /// backwards.
    pub open spec fn on_time(self, now: u64) -> bool {
        &&& self.last_jog_at <= now
        &&& self.last_step_at matches Some(t) ==> t <= now
    }

    /// How long it is until a moving axis has waited out the period of its
    /// rate since its last step.
    pub open spec fn due_in(self, now: u64) -> int {
        match self.last_step_at {
            Some(t) => if now - t < step_period(self.hz()) {
                step_period(self.hz()) - (now - t)
            } else {
                0
            },
            None => 0,
        }
    }

    /// Whether the axis makes a step at `now`: it moves, the period of its
    /// rate is over, and the deadman is not due.
    pub open spec fn steps_at(self, now: u64) -> bool {
        self.hz() != 0 && self.due_in(now) == 0 && !self.overdue(now)
    }

    /// What the axis does next, at `now`.
    pub open spec fn drive(self, now: u64) -> Drive {
        if self.at_rest() {
            Drive::Idle
        } else {
            let hz = self.hz();
            let sign = sign_of(hz);
            let rest = if hz == 0 {
                1000
            } else if self.steps_at(now) {
                step_period(hz) - 2
            } else {
                self.due_in(now)
            };
            Drive::Run {
                dir: if sign != 0 && sign != self.last_dir_sign {
                    Some(if sign > 0 { Level::High } else { Level::Low })
                } else {
                    None
                },
                step: self.steps_at(now),
                wait_us: (if rest < self.grace(now) {
                    rest
                } else {
                    self.grace(now)
                }) as u64,
            }
        }
    }

    /// The state once the direction pin agrees with the velocity, and the
    /// step that is due at `now` is made.
    pub open spec fn driven(self, now: u64) -> Motion {
        let sign = sign_of(self.hz());
        if !self.at_rest() && sign != 0 {
            Motion {
                last_dir_sign: sign as i32,
                last_step_at: if self.steps_at(now) {
                    Some(now)
                } else {
                    self.last_step_at
                },
                ..self
            }
        } else {
            self
        }
    }

    /// A free axis at rest, made at two readings of the clock.
    pub fn new(jog_at: u64, slew_at: u64) -> (r: Motion)
        ensures
            r.wf(),
            r.at_rest(),
            !r.enabled,
            r.current_milli == 0,
            r.accel == 0,
            r.last_dir_sign == 0,
            r.last_step_at is None,
            r.last_jog_at == jog_at,
            r.last_slew_at == slew_at,
    {
        Motion {
            enabled: false,
            target_v: 0,
            current_milli: 0,
            accel: 0,
            last_jog_at: jog_at,
            last_slew_at: slew_at,
            last_dir_sign: 0,
            last_step_at: None,
        }
    }

    /// The velocity now, in whole steps per second.
    pub fn cur_hz(&self) -> (r: i32)
        requires
            self.wf(),
        ensures
            r == self.hz(),
    {
        if self.current_milli >= 0 {
            (self.current_milli / 1000) as i32
        } else {
            let m: i64 = -self.current_milli;
            (-(m / 1000)) as i32
        }
    }

    /// Decides what the axis does next, at `now`, and notes the direction it
    /// sets and the step it makes.
    pub fn next(&mut self, now: u64) -> (r: Drive)
        requires
            old(self).wf(),
            old(self).on_time(now),
        ensures
            final(self).wf(),
            r == old(self).drive(now),
            *final(self) == old(self).driven(now),
    {
        let hz: i32 = self.cur_hz();
        if hz == 0 && self.target_v == 0 {
            return Drive::Idle;
        }
        let silent: u64 = now - self.last_jog_at;
        let grace: u64 = if silent > WATCHDOG_MS * 1000 {
            0
        } else {
            WATCHDOG_MS * 1000 + 1 - silent
        };
        if hz == 0 {
            let wait_us: u64 = if 1000 < grace {
                1000
            } else {
                grace
            };
            return Drive::Run { dir: None, step: false, wait_us };
        }
        let sign: i32 = if hz > 0 {
            1
        } else {
            -1
        };
        let dir: Option<Level> = if sign != self.last_dir_sign {
            Some(if sign > 0 { Level::High } else { Level::Low })
        } else {
            None
        };
        self.last_dir_sign = sign;
        let abs_hz: u64 = if hz < 0 {
            (-(hz as i64)) as u64
        } else {
            hz as u64
        };
        let quotient: u64 = 1_000_000u64 / abs_hz;
        let period_us: u64 = if quotient > 4 {
            quotient
        } else {
            4
        };
        let due_in: u64 = match self.last_step_at {
            Some(t) => if now - t < period_us {
                period_us - (now - t)
            } else {
                0
            },
            None => 0,
        };
        let step: bool = due_in == 0 && grace > 0;
        let rest: u64 = if step {
            self.last_step_at = Some(now);
            period_us - 2
        } else {
            due_in
        };
        let wait_us: u64 = if rest < grace {
            rest
        } else {
            grace
        };
        Drive::Run { dir, step, wait_us }
    }

    /// Applies a command at time `at`; returns the level to drive the enable
    /// pin to, if the command moves it.
    pub fn apply(&mut self, cmd: AxisCmd, at: u64) -> (r: Option<Level>)
        requires
            old(self).wf(),
        ensures
            final(self).wf(),
            *final(self) == old(self).applied(cmd, at),
            r == old(self).en_for(cmd),
    {
        match cmd {
            AxisCmd::Enable(on) => {
                self.enabled = on;
                if !on {
                    self.target_v = 0;
                    self.current_milli = 0;
                }
                Some(enable_level(on))
            },
            AxisCmd::Jog(hz) => {
                self.last_jog_at = at;
                self.target_v = hz;
                if hz != 0 && !self.enabled {
                    self.enabled = true;
                    Some(Level::Low)
                } else {
                    None
                }
            },
            AxisCmd::Accel(a) => {
                self.accel = a;
                None
            },
        }
    }

    /// Takes the command that ends an idle wait. The ramp starts at `slew_at`.
    pub fn idle_command(&mut self, cmd: AxisCmd, at: u64, slew_at: u64) -> (r: Option<Level>)
        requires
            old(self).wf(),
        ensures
            final(self).wf(),
            *final(self) == after(*old(self), Event::Idle { cmd, at, slew_at }),
            r == old(self).en_for(cmd),
    {
        let en: Option<Level> = self.apply(cmd, at);
        self.last_slew_at = slew_at;
        en
    }

    /// Slews the velocity toward its target for the time since the last slew.
    pub fn slew(&mut self, now: u64)
        requires
            old(self).wf(),
            old(self).last_slew_at <= now,
            old(self).accel > 0 ==> now - old(self).last_slew_at <= i64::MAX,
        ensures
            final(self).wf(),
            *final(self) == old(self).slewed_at(now),
    {
        let dt: u64 = now - self.last_slew_at;
        let target_milli: i64 = self.target_v as i64 * 1000;
        proof {
            ramp_stays_between(
                self.current_milli as int,
                self.target_v as int,
                self.accel as int,
                dt as int,
            );
        }
        self.last_slew_at = now;
        if self.accel == 0 {
            self.current_milli = target_milli;
            return;
        }
        let ghost accel = self.accel;
        assert(0 <= accel * dt <= 0xffff_ffff * 0x7fff_ffff_ffff_ffff) by (nonlinear_arith)
            requires
                0 <= accel <= 0xffff_ffff,
                0 <= dt <= 0x7fff_ffff_ffff_ffff,
        ;
        let product: u128 = self.accel as u128 * dt as u128;
        let limit: i64 = if product > 0x7fff_ffff_ffff_ffffu128 {
            0x7fff_ffff_ffff_ffffi64 / 1000
        } else {
            product as i64 / 1000
        };
        let diff: i64 = target_milli - self.current_milli;
        let dv: i64 = if diff > limit {
            limit
        } else if diff < -limit {
            -limit
        } else {
            diff
        };
        let reached: i64 = self.current_milli + dv;
        let floor: i64 = START_HZ as i64 * 1000;
        let up: bool = self.target_v > START_HZ && 0 <= reached && reached < floor;
        let down: bool = self.target_v < -START_HZ && -floor < reached && reached <= 0;
        self.current_milli = if up {
            floor
        } else if down {
            -floor
        } else {
            reached
        };
    }

    /// Ends a wait at `now`: slews the velocity for the time that has passed,
    /// halts the axis if the deadman is due, and takes the command that came.
    pub fn wake(&mut self, now: u64, wake: Wake) -> (r: Reaction)
        requires
            old(self).wf(),
            old(self).clock_ok(now),
        ensures
            final(self).wf(),
            *final(self) == old(self).woken(now, wake),
            r.en == (match wake {
                Wake::Timer => None,
                Wake::Command { cmd, .. } => old(self).en_for(cmd),
            }),
            r.halted == old(self).halts(now, wake),
    {
        let silent: u64 = now - self.last_jog_at;
        let jogs: bool = match wake {
            Wake::Command { cmd: AxisCmd::Jog(_), .. } => true,
            _ => false,
        };
        let halted: bool = silent > WATCHDOG_MS * 1000 && !jogs;
        self.slew(now);
        if halted {
            self.target_v = 0;
            self.current_milli = 0;
        }
        match wake {
            Wake::Timer => Reaction { en: None, halted },
            Wake::Command { cmd, at } => {
                let en: Option<Level> = self.apply(cmd, at);
                if jogs && self.accel == 0 {
                    self.current_milli = self.target_v as i64 * 1000;
                }
                Reaction { en, halted }
            },
        }
    }
}

/// Whether what ended a wait was a jog.
pub open spec fn is_jog(wake: Wake) -> bool {
    wake matches Wake::Command { cmd, .. } && cmd is Jog
}

/// A slew limit is never negative.
proof fn lemma_slew_limit(accel: int, dt: int)
    requires
        0 <= accel,
        0 <= dt,
    ensures
        0 <= slew_limit(accel, dt),
{
    assert(0 <= accel * dt) by (nonlinear_arith)
        requires
            0 <= accel,
            0 <= dt,
    ;
}

/// A ramp stays between the velocity it leaves and the one it is after: it
/// neither overshoots its target nor backs away from it.
pub proof fn ramp_stays_between(milli: int, target: int, accel: int, dt: int)
    requires
        0 <= accel,
        0 <= dt,
    ensures
        milli <= target * 1000 ==> milli <= slewed(milli, target, accel, dt) <= target * 1000,
        target * 1000 <= milli ==> target * 1000 <= slewed(milli, target, accel, dt) <= milli,
{
    lemma_slew_limit(accel, dt);
}

/// A ramp changes the velocity by no more than the slew limit allows for the
/// time that has passed. The one exception is the lift to the start rate.
pub proof fn ramp_is_limited(milli: int, target: int, accel: int, dt: int)
    requires
        0 < accel,
        0 <= dt,
    ensures
        ({
            let v = slewed(milli, target, accel, dt);
            ||| magnitude(v - milli) * 1000 <= accel * dt
            ||| magnitude(target) > START_HZ && v == sign_of(target) * START_HZ * 1000
        }),
{
    lemma_slew_limit(accel, dt);
}

/// A ramp reaches its target as soon as the slew limit covers the distance,
/// and at once where there is no limit.
pub proof fn ramp_arrives(milli: int, target: int, accel: int, dt: int)
    requires
        0 <= accel,
        0 <= dt,
        accel == 0 || magnitude(target * 1000 - milli) <= slew_limit(accel, dt),
    ensures
        slewed(milli, target, accel, dt) == target * 1000,
{
}

/// A ramp uses all of its slew limit, in both directions. `reach` is how far
/// the limit lets the velocity change in the time that has passed, in whole
/// thousandths. A target within reach is met. On the way to one farther off the
/// velocity changes by exactly that much, unless that leaves it below 20 steps
/// per second on the side of a target above 20: then it is lifted to 20.
pub proof fn ramps_use_their_limit(milli: int, target: int, accel: int, dt: int, reach: int)
    requires
        0 < accel,
        0 <= dt,
        accel * dt <= i64::MAX,
        reach * 1000 <= accel * dt < (reach + 1) * 1000,
    ensures
        ({
            let v = slewed(milli, target, accel, dt);
            let way = target * 1000 - milli;
            &&& -reach <= way <= reach ==> v == target * 1000
            &&& way > reach ==> v == (if target > 20 && 0 <= milli + reach < 20_000 {
                20_000
            } else {
                milli + reach
            })
            &&& way < -reach ==> v == (if target < -20 && 0 <= reach - milli < 20_000 {
                -20_000
            } else {
                milli - reach
            })
        }),
{
    assert(slew_limit(accel, dt) == reach);
    lemma_slew_limit(accel, dt);
}

/// The two directions are alike: a ramp backwards is the mirror image of the
/// ramp forwards.
pub proof fn ramps_are_symmetric(milli: int, target: int, accel: int, dt: int)
    requires
        0 <= accel,
        0 <= dt,
    ensures
        slewed(-milli, -target, accel, dt) == -slewed(milli, target, accel, dt),
{
    lemma_slew_limit(accel, dt);
}

/// An axis that is fed and whose wait runs out keeps all it was told, and its
/// velocity has changed by what the slew limit allows since it last did: by
/// exactly that where the target is farther off, but for the lift to 20 steps
/// per second. Without a limit, or with more time than any ramp takes, it is at
/// its target.
pub proof fn waits_ramp(m: Motion, now: u64, reach: int)
    requires
        m.wf(),
        m.last_slew_at <= now,
        m.last_jog_at <= now <= m.last_jog_at + 200_000,
        m.accel > 0 ==> reach * 1000 <= m.accel * (now - m.last_slew_at) < (reach + 1) * 1000,
    ensures
        ({
            let n = m.woken(now, Wake::Timer);
            let v = n.current_milli as int;
            let from = m.current_milli as int;
            let way = m.target_v * 1000 - from;
            &&& n == (Motion { current_milli: n.current_milli, last_slew_at: now, ..m })
            &&& m.accel == 0 || m.accel * (now - m.last_slew_at) > i64::MAX ==> v == m.target_v
                * 1000
            &&& m.accel > 0 && m.accel * (now - m.last_slew_at) <= i64::MAX ==> {
                &&& -reach <= way <= reach ==> v == m.target_v * 1000
                &&& way > reach ==> v == (if m.target_v > 20 && 0 <= from + reach < 20_000 {
                    20_000
                } else {
                    from + reach
                })
                &&& way < -reach ==> v == (if m.target_v < -20 && 0 <= reach - from < 20_000 {
                    -20_000
                } else {
                    from - reach
                })
            }
        }),
{
    let dt = now - m.last_slew_at;
    let accel = m.accel as int;
    if accel > 0 && accel * dt <= i64::MAX {
        ramps_use_their_limit(m.current_milli as int, m.target_v as int, accel, dt, reach);
    }
    ramp_stays_between(m.current_milli as int, m.target_v as int, accel, dt);
}

/// A jog that ends a wait sets the target and feeds the deadman; it energises
/// the motor if it asks for any motion. The velocity up to then is that of an
/// axis that was fed: a jog that comes late still counts. From then on it is
/// the new one where there is no slew limit.
pub proof fn jogs_set_the_target(m: Motion, now: u64, hz: i32, at: u64)
    requires
        m.wf(),
        m.last_slew_at <= now,
    ensures
        ({
            let n = m.woken(now, Wake::Command { cmd: AxisCmd::Jog(hz), at });
            let fed = Motion { last_jog_at: now, ..m };
            &&& n.target_v == hz
            &&& n.last_jog_at == at
            &&& n.last_slew_at == now
            &&& n.enabled == (m.enabled || hz != 0)
            &&& n.accel == m.accel
            &&& n.last_dir_sign == m.last_dir_sign
            &&& n.last_step_at == m.last_step_at
            &&& n.current_milli == (if m.accel == 0 {
                hz * 1000
            } else {
                fed.woken(now, Wake::Timer).current_milli as int
            })
        }),
{
}

/// The deadman is due when no jog has come for more than 200 milliseconds. It
/// halts the axis whatever ends the wait, unless that is a jog: the velocity
/// and the target are gone, and nothing else is.
pub proof fn silence_halts(m: Motion, now: u64, wake: Wake)
    requires
        m.last_jog_at <= now,
    ensures
        m.halts(now, wake) <==> now - m.last_jog_at > 200_000 && !(wake matches Wake::Command {
            cmd: AxisCmd::Jog(_),
            ..
        }),
        now - m.last_jog_at > 200_000 ==> m.woken(now, Wake::Timer) == (Motion {
            target_v: 0,
            current_milli: 0,
            last_slew_at: now,
            ..m
        }),
{
}

/// Commands other than jogs act on top of what the wait came to. A new slew
/// limit changes nothing but the limit. Energising changes nothing but that,
/// and freeing also stops.
pub proof fn other_commands_keep_the_motion(m: Motion, now: u64, a: u32, at: u64)
    ensures
        ({
            let t = m.woken(now, Wake::Timer);
            &&& m.woken(now, Wake::Command { cmd: AxisCmd::Accel(a), at }) == (Motion {
                accel: a,
                ..t
            })
            &&& m.woken(now, Wake::Command { cmd: AxisCmd::Enable(true), at }) == (Motion {
                enabled: true,
                ..t
            })
            &&& m.woken(now, Wake::Command { cmd: AxisCmd::Enable(false), at }) == (Motion {
                enabled: false,
                target_v: 0,
                current_milli: 0,
                ..t
            })
        }),
{
}

/// A command that ends an idle wait is taken as it is, and the ramp starts
/// then. The velocity stays what it was: it has yet to be ramped.
pub proof fn idle_axes_take_commands(m: Motion, hz: i32, a: u32, at: u64, slew_at: u64)
    ensures
        after(m, Event::Idle { cmd: AxisCmd::Jog(hz), at, slew_at }) == (Motion {
            target_v: hz,
            enabled: m.enabled || hz != 0,
            last_jog_at: at,
            last_slew_at: slew_at,
            ..m
        }),
        after(m, Event::Idle { cmd: AxisCmd::Accel(a), at, slew_at }) == (Motion {
            accel: a,
            last_slew_at: slew_at,
            ..m
        }),
        after(m, Event::Idle { cmd: AxisCmd::Enable(true), at, slew_at }) == (Motion {
            enabled: true,
            last_slew_at: slew_at,
            ..m
        }),
        after(m, Event::Idle { cmd: AxisCmd::Enable(false), at, slew_at }) == (Motion {
            enabled: false,
            target_v: 0,
            current_milli: 0,
            last_slew_at: slew_at,
            ..m
        }),
        m.en_for(AxisCmd::Enable(true)) == Some(Level::Low),
        m.en_for(AxisCmd::Enable(false)) == Some(Level::High),
        m.en_for(AxisCmd::Accel(a)) is None,
        m.en_for(AxisCmd::Jog(hz)) == (if hz != 0 && !m.enabled {
            Some(Level::Low)
        } else {
            None
        }),
{
}

/// What an axis does when it goes on. Let `rate` be its velocity in whole steps
/// per second, either way, and `period` the whole microseconds of a step at
/// that rate, of which there are four at least. The axis is idle when it neither
/// moves nor is to move. It steps if it moves, has been fed within 200
/// milliseconds, and its last step is a period ago. After a step it waits for the rest of
/// the period, of which the pulse took two microseconds; between steps for what
/// is left of it; and below one step per second for a millisecond: never longer
/// than until the deadman is due.
pub proof fn axes_go_on_in_time(m: Motion, now: u64, rate: int, period: int)
    requires
        m.wf(),
        m.on_time(now),
        rate >= 0,
        rate * 1000 <= m.current_milli < (rate + 1) * 1000 || rate * 1000 <= -m.current_milli < (
        rate + 1) * 1000,
        period >= 4,
        0 < rate <= 250_000 ==> period * rate <= 1_000_000 < (period + 1) * rate,
        rate > 250_000 ==> period == 4,
    ensures
        m.drive(now) is Idle <==> rate == 0 && m.target_v == 0,
        m.drive(now) matches Drive::Run { dir, step, wait_us } ==> {
            let silent = now - m.last_jog_at;
            let rested = match m.last_step_at {
                Some(t) => now - t,
                None => period,
            };
            let rest = if rate == 0 {
                1000
            } else if step {
                period - 2
            } else if rested < period {
                period - rested
            } else {
                0
            };
            &&& step <==> rate > 0 && silent <= 200_000 && rested >= period
            &&& silent > 200_000 ==> wait_us == 0
            &&& silent <= 200_000 && rest <= 200_001 - silent ==> wait_us == rest
            &&& silent <= 200_000 && rest > 200_001 - silent ==> wait_us == 200_001 - silent
            &&& dir == (if rate > 0 && m.current_milli > 0 && m.last_dir_sign != 1 {
                Some(Level::High)
            } else if rate > 0 && m.current_milli < 0 && m.last_dir_sign != -1 {
                Some(Level::Low)
            } else {
                None
            })
            &&& m.driven(now) == (Motion {
                last_step_at: if step {
                    Some(now)
                } else {
                    m.last_step_at
                },
                last_dir_sign: if rate == 0 {
                    m.last_dir_sign
                } else if m.current_milli > 0 {
                    1i32
                } else {
                    -1i32
                },
                ..m
            })
        },
        m.drive(now) is Idle ==> m.driven(now) == m,
{
    assert(magnitude(m.hz()) == rate);
    if rate > 0 {
        let q = 1_000_000int / rate;
        vstd::arithmetic::div_mod::lemma_fundamental_div_mod(1_000_000, rate);
        if rate <= 250_000 {
            assert(q == period) by (nonlinear_arith)
                requires
                    rate > 0,
                    1_000_000 == rate * q + 1_000_000int % rate,
                    0 <= 1_000_000int % rate < rate,
                    period * rate <= 1_000_000 < (period + 1) * rate,
            ;
        } else {
            assert(q < 4) by (nonlinear_arith)
                requires
                    rate > 250_000,
                    1_000_000 == rate * q + 1_000_000int % rate,
                    0 <= 1_000_000int % rate,
            ;
        }
        lemma_period_bounds(m);
    }
}

/// A ramp that has a target to reach never stalls: given a limit that allows
/// any change at all, it comes nearer.
pub proof fn ramp_progresses(milli: int, target: int, accel: int, dt: int)
    requires
        0 <= accel,
        0 <= dt,
        accel == 0 || slew_limit(accel, dt) > 0,
        milli != target * 1000,
    ensures
        magnitude(target * 1000 - slewed(milli, target, accel, dt)) < magnitude(
            target * 1000 - milli,
        ),
{
    ramp_stays_between(milli, target, accel, dt);
}

/// A target no faster than the start rate is ramped to without a lift.
pub proof fn slow_targets_are_not_lifted(milli: int, target: int, accel: int, dt: int)
    requires
        0 < accel,
        magnitude(target) <= START_HZ,
    ensures
        slewed(milli, target, accel, dt) == toward(milli, target * 1000, slew_limit(accel, dt)),
{
}

/// A ramp that is still on the far side of zero is not lifted: reversing
/// slows down through zero first.
pub proof fn reversals_pass_through_zero(milli: int, target: int, accel: int, dt: int)
    requires
        0 < accel,
        0 <= dt,
        sign_of(toward(milli, target * 1000, slew_limit(accel, dt))) == -sign_of(target),
    ensures
        slewed(milli, target, accel, dt) == toward(milli, target * 1000, slew_limit(accel, dt)),
{
}

/// A ramp toward a target above the start rate never dwells below that rate
/// on the target's side of zero.
pub proof fn fast_targets_do_not_dwell(milli: int, target: int, accel: int, dt: int)
    requires
        0 <= accel,
        0 <= dt,
        magnitude(target) > START_HZ,
    ensures
        ({
            let v = slewed(milli, target, accel, dt);
            ||| sign_of(v) == -sign_of(target)
            ||| magnitude(v) >= START_HZ * 1000
        }),
{
}

/// When no jog has come for longer than the deadman allows, the axis stops at
/// once and goes idle, whatever else ends its wait; its motor is not freed, and
/// holds position.
pub proof fn deadman_halts(m: Motion, now: u64, wake: Wake, then: u64)
    requires
        m.overdue(now),
        !is_jog(wake),
    ensures
        m.woken(now, wake).drive(then) is Idle,
        m.woken(now, wake).target_v == 0,
        m.woken(now, wake).current_milli == 0,
        wake is Timer ==> m.woken(now, wake).enabled == m.enabled,
{
}

/// An axis makes no step once the deadman is due, and waits no longer than
/// until then.
pub proof fn deadman_is_prompt(m: Motion, now: u64)
    requires
        m.wf(),
        m.on_time(now),
        m.drive(now) is Run,
    ensures
        m.drive(now)->step ==> now <= m.last_jog_at + WATCHDOG_MS * 1000,
        m.overdue(now) ==> m.drive(now)->wait_us == 0,
        !m.overdue(now) ==> now + m.drive(now)->wait_us <= m.last_jog_at + WATCHDOG_MS * 1000 + 1,
{
    if m.hz() != 0 {
        lemma_period_bounds(m);
    }
}

/// As long as jogs come in time, the deadman leaves the axis alone.
pub proof fn fed_axes_keep_moving(m: Motion, now: u64)
    requires
        !m.overdue(now),
    ensures
        m.woken(now, Wake::Timer) == m.slewed_at(now),
        m.woken(now, Wake::Timer).target_v == m.target_v,
{
}

/// A jog feeds the deadman, and no other command does.
pub proof fn jogs_feed_the_deadman(m: Motion, cmd: AxisCmd, at: u64)
    ensures
        cmd is Jog ==> m.applied(cmd, at).last_jog_at == at,
        cmd !is Jog ==> m.applied(cmd, at).last_jog_at == m.last_jog_at,
{
}

/// Without a slew limit a jog preempts what is under way: the velocity is the
/// new one at once, and a jog of zero leaves the axis idle.
pub proof fn jogs_preempt(m: Motion, now: u64, hz: i32, at: u64, then: u64)
    requires
        m.accel == 0,
    ensures
        ({
            let next = m.woken(now, Wake::Command { cmd: AxisCmd::Jog(hz), at });
            &&& next.current_milli == hz * 1000
            &&& next.hz() == hz
            &&& hz == 0 ==> next.drive(then) is Idle
        }),
{
}

/// Sending a jog again changes nothing of the motion under way.
pub proof fn resending_keeps_the_motion(m: Motion, now: u64, at: u64)
    requires
        m.enabled,
        m.current_milli == m.target_v * 1000,
        m.last_slew_at <= now,
    ensures
        m.woken(now, Wake::Command { cmd: AxisCmd::Jog(m.target_v), at }) == (Motion {
            last_jog_at: at,
            last_slew_at: now,
            ..m
        }),
{
    lemma_slew_limit(m.accel as int, now - m.last_slew_at);
}

/// Freeing an axis stops it at once, from any state.
pub proof fn freeing_halts(m: Motion, at: u64, then: u64)
    ensures
        m.applied(AxisCmd::Enable(false), at).drive(then) is Idle,
        !m.applied(AxisCmd::Enable(false), at).enabled,
        m.en_for(AxisCmd::Enable(false)) == Some(Level::High),
{
}

/// The level of a pin that is driven to `level`, if to any.
pub open spec fn pin_after(before: Level, level: Option<Level>) -> Level {
    match level {
        Some(l) => l,
        None => before,
    }
}

/// The enable pin always tells whether the motor is energised: a command
/// drives it exactly where that changes. In particular a motor that is asked
/// to turn is energised first.
pub proof fn enable_pin_agrees(m: Motion, cmd: AxisCmd, at: u64, pin: Level)
    requires
        pin == en_level(m.enabled),
    ensures
        pin_after(pin, m.en_for(cmd)) == en_level(m.applied(cmd, at).enabled),
        (cmd matches AxisCmd::Jog(hz) ==> hz != 0 ==> m.applied(cmd, at).enabled),
{
}

/// The level of the direction pin for a velocity of that sign.
pub open spec fn dir_level(sign: int) -> Level {
    if sign > 0 {
        Level::High
    } else {
        Level::Low
    }
}

/// The direction pin agrees with the velocity at every step, and is driven
/// only when the direction changes.
pub proof fn direction_pin_agrees(m: Motion, now: u64, pin: Level)
    requires
        m.last_dir_sign != 0 ==> pin == dir_level(m.last_dir_sign as int),
        m.drive(now) is Run,
    ensures
        m.drive(now)->step ==> pin_after(pin, m.drive(now)->dir) == dir_level(m.hz()),
        m.driven(now).last_dir_sign != 0 ==> pin_after(pin, m.drive(now)->dir) == dir_level(
            m.driven(now).last_dir_sign as int,
        ),
        m.drive(now)->dir is Some ==> sign_of(m.hz()) != m.last_dir_sign,
{
}

/// The period of a rate is what its name says: a second over it, rounded down
/// to whole microseconds, for every rate that pulses can follow.
pub proof fn periods_match_rates(hz: int)
    requires
        0 < magnitude(hz) <= 250_000,
    ensures
        4 <= step_period(hz) <= 1_000_000,
        step_period(hz) * magnitude(hz) <= 1_000_000,
        (step_period(hz) + 1) * magnitude(hz) > 1_000_000,
        magnitude(hz) <= MAX_HZ ==> step_period(hz) >= 25,
{
    let m = magnitude(hz);
    let q = 1_000_000int / m;
    assert(m * q <= 1_000_000 < m * (q + 1)) by {
        vstd::arithmetic::div_mod::lemma_fundamental_div_mod(1_000_000, m);
        assert(m * (q + 1) == m * q + m) by (nonlinear_arith);
    }
    assert(q >= 4) by (nonlinear_arith)
        requires
            m <= 250_000,
            0 < m,
            1_000_000 < m * (q + 1),
    ;
    assert(m <= 40_000 ==> q >= 25) by (nonlinear_arith)
        requires
            0 < m,
            1_000_000 < m * (q + 1),
    ;
    assert(q <= 1_000_000) by (nonlinear_arith)
        requires
            0 < m,
            m * q <= 1_000_000,
            q >= 4,
    ;
    assert(q * m == m * q) by (nonlinear_arith);
    assert((q + 1) * m == m * (q + 1)) by (nonlinear_arith);
}

proof fn lemma_period_bounds(m: Motion)
    requires
        m.wf(),
        m.hz() != 0,
    ensures
        4 <= step_period(m.hz()) <= 1_000_000,
{
    let a = magnitude(m.hz());
    let q = 1_000_000int / a;
    vstd::arithmetic::div_mod::lemma_fundamental_div_mod(1_000_000, a);
    assert(q <= 1_000_000) by (nonlinear_arith)
        requires
            0 < a,
            1_000_000 == a * q + 1_000_000int % a,
            0 <= 1_000_000int % a < a,
    ;
}

/// After a step, an axis whose velocity stays makes the next exactly when the
/// period of its rate is over, as long as it is fed.
pub proof fn steps_follow_the_period(m: Motion, now: u64, later: u64)
    requires
        m.wf(),
        m.drive(now) is Run,
        m.drive(now)->step,
        now <= later,
        !m.overdue(later),
    ensures
        m.driven(now).drive(later)->step <==> later - now >= step_period(m.hz()),
{
}

/// What can happen to an axis.
pub enum Event {
    /// It goes on, at `now`.
    Next { now: u64 },
    /// A wait ends at `now`.
    Wake { now: u64, wake: Wake },
    /// A command ends an idle wait.
    Idle { cmd: AxisCmd, at: u64, slew_at: u64 },
}

/// The state after an event.
pub open spec fn after(m: Motion, e: Event) -> Motion {
    match e {
        Event::Next { now } => m.driven(now),
        Event::Wake { now, wake } => m.woken(now, wake),
        Event::Idle { cmd, at, slew_at } => Motion { last_slew_at: slew_at, ..m.applied(cmd, at) },
    }
}

/// The state after the first `n` of a run of events.
pub open spec fn after_all(m: Motion, events: Seq<Event>, n: int) -> Motion
    decreases n,
{
    if n <= 0 {
        m
    } else {
        after(after_all(m, events, n - 1), events[n - 1])
    }
}

/// Whether an event makes a step.
pub open spec fn steps(m: Motion, e: Event) -> bool {
    e matches Event::Next { now } && m.drive(now) is Run && m.drive(now)->step
}

proof fn lemma_quiet_events(m: Motion, events: Seq<Event>, n: int)
    requires
        0 <= n <= events.len(),
        forall|i: int|
            0 <= i < events.len() ==> !steps(#[trigger] after_all(m, events, i), events[i]),
    ensures
        after_all(m, events, n).last_step_at == m.last_step_at,
    decreases n,
{
    if n > 0 {
        lemma_quiet_events(m, events, n - 1);
        assert(!steps(after_all(m, events, n - 1), events[n - 1]));
    }
}

/// Two steps are never closer than the period of the rate at which the second
/// is made, whatever happened in between: however many commands came, and
/// however the velocity changed.
pub proof fn steps_stay_apart(m: Motion, first: u64, events: Seq<Event>, second: u64)
    requires
        steps(m, Event::Next { now: first }),
        forall|i: int|
            0 <= i < events.len() ==> !steps(
                #[trigger] after_all(m.driven(first), events, i),
                events[i],
            ),
        steps(after_all(m.driven(first), events, events.len() as int), Event::Next { now: second }),
    ensures
        second - first >= step_period(
            after_all(m.driven(first), events, events.len() as int).hz(),
        ),
{
    lemma_quiet_events(m.driven(first), events, events.len() as int);
}

/// Velocities stay within the step rates that commands can ask for.
pub open spec fn within(m: Motion) -> bool {
    &&& -(MAX_HZ as int) <= m.target_v <= MAX_HZ
    &&& -(MAX_HZ as int) * 1000 <= m.current_milli <= MAX_HZ * 1000
}

/// A jog that asks for a rate within bounds, or something else.
pub open spec fn asks_within(cmd: AxisCmd) -> bool {
    cmd matches AxisCmd::Jog(hz) ==> -(MAX_HZ as int) <= hz <= MAX_HZ
}

/// No run of commands and ramps takes an axis beyond the highest step rate.
/// With `steps_stay_apart`, no two of its steps are ever less than 25
/// microseconds apart.
pub proof fn rates_stay_within(m: Motion, e: Event)
    requires
        within(m),
        e matches Event::Wake { now, wake } ==> m.last_slew_at <= now && (
        wake matches Wake::Command { cmd, .. } ==> asks_within(cmd)),
        e matches Event::Idle { cmd, .. } ==> asks_within(cmd),
    ensures
        within(after(m, e)),
        m.hz() != 0 ==> step_period(m.hz()) >= 25,
{
    if let Event::Wake { now, wake } = e {
        ramp_stays_between(
            m.current_milli as int,
            m.target_v as int,
            m.accel as int,
            now - m.last_slew_at,
        );
    }
    if m.hz() != 0 {
        periods_match_rates(m.hz());
    }
}

} // verus!
