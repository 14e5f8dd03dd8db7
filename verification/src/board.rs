//! What was last commanded of a board: the record that `status` reads, and
//! the commands that change it.

use crate::axis::{AxisCmd, Level, AXES};
use crate::effect::{acts, push_effect, Act, Effect};
use crate::motion::{Motion, Reaction, Wake, MAX_HZ};
use crate::tmc::{mres, TmcCfg};
use vstd::prelude::*;

verus! {

/// How many fan outputs a board has.
pub const FANS: usize = 3;

/// How many servo outputs a board has.
pub const SERVOS: usize = 5;

/// The longest servo pulse that a command can ask for, in microseconds.
pub const MAX_SERVO_US: u16 = 10_000;

/// What was last commanded of an axis.
#[derive(Clone, Copy, Debug, PartialEq, Eq, Structural)]
pub struct AxisShadow {
    /// As last commanded: to energise the motor, or to free it.
    pub enabled: bool,
    /// Whether the motor is energised, by that command or by a jog since.
    pub energised: bool,
    pub velocity: i32,
    pub accel: u32,
    /// Microsteps as last configured over UART; zero if never.
    pub microsteps: u16,
}

/// What was last commanded of a board.
#[derive(Debug)]
pub struct Board {
    pub axes: [AxisShadow; 4],
    pub fans: [bool; 3],
    /// Pulse widths in microseconds; zero is off.
    pub servos: [u16; 5],
}

/// The mathematical counterpart of a board's record.
#[verifier::ext_equal]
pub struct Record {
    pub axes: Seq<AxisShadow>,
    pub fans: Seq<bool>,
    pub servos: Seq<u16>,
}

impl View for Board {
    type V = Record;

    open spec fn view(&self) -> Record {
        Record { axes: self.axes@, fans: self.fans@, servos: self.servos@ }
    }
}

impl AxisShadow {
    /// The record after a command.
    pub open spec fn commanded(self, cmd: AxisCmd) -> AxisShadow {
        match cmd {
            AxisCmd::Enable(on) => AxisShadow { enabled: on, energised: on, ..self },
            AxisCmd::Jog(hz) => AxisShadow {
                velocity: hz,
                energised: self.energised || hz != 0,
                ..self
            },
            AxisCmd::Accel(a) => AxisShadow { accel: a, ..self },
        }
    }

    /// What a command line can bring about.
    pub open spec fn wf(self) -> bool {
        &&& -(MAX_HZ as int) <= self.velocity <= MAX_HZ
        &&& self.microsteps == 0 || mres(self.microsteps as int) is Some
    }
}

/// A velocity command stays within the step rates that the axes take.
pub open spec fn rate_ok(cmd: AxisCmd) -> bool {
    cmd matches AxisCmd::Jog(hz) ==> -(MAX_HZ as int) <= hz <= MAX_HZ
}

impl Record {
    /// What command lines can bring about.
    pub open spec fn wf(self) -> bool {
        &&& self.axes.len() == AXES
        &&& self.fans.len() == FANS
        &&& self.servos.len() == SERVOS
        &&& forall|i: int| 0 <= i < AXES ==> (#[trigger] self.axes[i]).wf()
        &&& forall|i: int| 0 <= i < SERVOS ==> #[trigger] self.servos[i] <= MAX_SERVO_US
    }

    /// The record after a command to one axis.
    pub open spec fn commanded(self, axis: int, cmd: AxisCmd) -> Record {
        Record { axes: self.axes.update(axis, self.axes[axis].commanded(cmd)), ..self }
    }

    /// The record after the same command to every axis.
    pub open spec fn all_commanded(self, cmd: AxisCmd) -> Record {
        Record { axes: self.axes.map_values(|a: AxisShadow| a.commanded(cmd)), ..self }
    }

    pub open spec fn fan_set(self, fan: int, on: bool) -> Record {
        Record { fans: self.fans.update(fan, on), ..self }
    }

    pub open spec fn servo_set(self, servo: int, us: u16) -> Record {
        Record { servos: self.servos.update(servo, us), ..self }
    }

    /// The record after the settings of a driver were written.
    pub open spec fn configured(self, cfg: TmcCfg) -> Record {
        let axis = cfg.axis as int;
        Record {
            axes: self.axes.update(
                axis,
                AxisShadow { microsteps: cfg.microsteps, ..self.axes[axis] },
            ),
            ..self
        }
    }

    /// The record after the wait of an axis ended, which halted it or did not.
    pub open spec fn waited(self, axis: int, halted: bool) -> Record {
        if halted {
            self.commanded(axis, AxisCmd::Jog(0))
        } else {
            self
        }
    }

    /// The record after an axis was moved: energised, and stopped.
    pub open spec fn nudged(self, axis: int) -> Record {
        let a = AxisShadow { energised: true, velocity: 0, ..self.axes[axis] };
        Record { axes: self.axes.update(axis, a), ..self }
    }

    /// The record with every axis stopped and free.
    pub open spec fn released(self) -> Record {
        Record {
            axes: self.axes.map_values(
                |a: AxisShadow|
                    AxisShadow { enabled: false, energised: false, velocity: 0, ..a },
            ),
            ..self
        }
    }

    /// The record with every output off. Slew limits and microsteps stay.
    pub open spec fn quiet(self) -> Record {
        Record {
            axes: self.released().axes,
            fans: Seq::new(FANS as nat, |i: int| false),
            servos: Seq::new(SERVOS as nat, |i: int| 0u16),
        }
    }
}

/// What the record says of a motor agrees with its driver: where the two agree
/// before a command, they agree after it.
pub proof fn records_tell_what_is_energised(a: AxisShadow, m: Motion, cmd: AxisCmd, at: u64)
    requires
        a.energised == m.enabled,
    ensures
        a.commanded(cmd).energised == m.applied(cmd, at).enabled,
{
}

/// The same command to every axis, in order.
pub open spec fn to_all(cmd: AxisCmd) -> Seq<Act> {
    Seq::new(AXES as nat, |i: int| Act::Axis { axis: i, cmd })
}

/// Stopping, then freeing, each axis in order; then every fan and servo off.
pub open spec fn shutdown() -> Seq<Act> {
    Seq::new(
        2 * AXES as nat,
        |i: int|
            Act::Axis {
                axis: i / 2,
                cmd: if i % 2 == 0 {
                    AxisCmd::Jog(0)
                } else {
                    AxisCmd::Enable(false)
                },
            },
    ) + Seq::new(FANS as nat, |i: int| Act::Fan { fan: i, on: false }) + Seq::new(
        SERVOS as nat,
        |i: int| Act::Servo { servo: i, us: 0 },
    )
}

impl Board {
    pub open spec fn wf(&self) -> bool {
        self@.wf()
    }

    /// A board of which nothing has been asked.
    pub fn new() -> (r: Board)
        ensures
            r.wf(),
            r@ == r@.quiet(),
            forall|i: int|
                0 <= i < AXES ==> (#[trigger] r@.axes[i]).accel == 0 && r@.axes[i].microsteps == 0,
    {
        let axis: AxisShadow = AxisShadow {
            enabled: false,
            energised: false,
            velocity: 0,
            accel: 0,
            microsteps: 0,
        };
        let b: Board = Board {
            axes: [axis, axis, axis, axis],
            fans: [false, false, false],
            servos: [0, 0, 0, 0, 0],
        };
        assert(b@ =~= b@.quiet());
        b
    }
}

/// Records a command to an axis, and hands it to the axis's driver.
pub fn send_cmd(board: &mut Board, idx: usize, cmd: AxisCmd) -> (r: Effect)
    requires
        idx < AXES,
    ensures
        final(board)@ == old(board)@.commanded(idx as int, cmd),
        r@ == (Act::Axis { axis: idx as int, cmd }),
        old(board).wf() && rate_ok(cmd) ==> final(board).wf(),
{
    match cmd {
        AxisCmd::Enable(on) => {
            board.axes[idx].enabled = on;
            board.axes[idx].energised = on;
        },
        AxisCmd::Jog(hz) => {
            board.axes[idx].velocity = hz;
            if hz != 0 {
                board.axes[idx].energised = true;
            }
        },
        AxisCmd::Accel(a) => {
            board.axes[idx].accel = a;
        },
    }
    assert(board@ =~= old(board)@.commanded(idx as int, cmd));
    Effect::Axis { axis: idx, cmd }
}

/// Records the same command to every axis, and hands it to their drivers.
pub fn send_all(board: &mut Board, out: &mut Vec<Effect>, cmd: AxisCmd)
    ensures
        final(board)@ == old(board)@.all_commanded(cmd),
        acts(final(out)@) == acts(old(out)@) + to_all(cmd),
        old(board).wf() && rate_ok(cmd) ==> final(board).wf(),
{
    let ghost start = acts(out@);
    let ghost before = board@;
    let mut i: usize = 0;
    while i < AXES
        invariant
            i <= AXES,
            before == old(board)@,
            before.axes.len() == AXES,
            board@.fans == before.fans,
            board@.servos == before.servos,
            board@.axes.len() == AXES,
            forall|j: int| 0 <= j < i ==> board@.axes[j] == before.axes[j].commanded(cmd),
            forall|j: int| i <= j < AXES ==> board@.axes[j] == before.axes[j],
            acts(out@) == start + to_all(cmd).take(i as int),
            old(board).wf() && rate_ok(cmd) ==> board.wf(),
        decreases AXES - i,
    {
        let effect: Effect = send_cmd(board, i, cmd);
        push_effect(out, effect);
        assert(to_all(cmd).take(i + 1) =~= to_all(cmd).take(i as int).push(to_all(cmd)[i as int]));
        i += 1;
    }
    assert(board@ =~= before.all_commanded(cmd));
    assert(to_all(cmd).take(AXES as int) =~= to_all(cmd));
}

/// Records the state of a fan, and hands it to the fan's driver.
pub fn fan_cmd(board: &mut Board, idx: usize, on: bool) -> (r: Effect)
    requires
        idx < FANS,
    ensures
        final(board)@ == old(board)@.fan_set(idx as int, on),
        r@ == (Act::Fan { fan: idx as int, on }),
        old(board).wf() ==> final(board).wf(),
{
    board.fans[idx] = on;
    assert(board@ =~= old(board)@.fan_set(idx as int, on));
    Effect::Fan { fan: idx, on }
}

/// The level of a fan's pin.
pub fn fan_level(on: bool) -> (r: Level)
    ensures
        r == (if on { Level::High } else { Level::Low }),
{
    if on {
        Level::High
    } else {
        Level::Low
    }
}

/// Records the pulse width of a servo, and hands it to the servo's driver.
pub fn servo_cmd(board: &mut Board, idx: usize, us: u16) -> (r: Effect)
    requires
        idx < SERVOS,
    ensures
        final(board)@ == old(board)@.servo_set(idx as int, us),
        r@ == (Act::Servo { servo: idx as int, us }),
        old(board).wf() && us <= MAX_SERVO_US ==> final(board).wf(),
{
    board.servos[idx] = us;
    assert(board@ =~= old(board)@.servo_set(idx as int, us));
    Effect::Servo { servo: idx, us }
}

/// Ends a wait of an axis at `now`, and records it if the deadman halted the
/// axis. Returns the level to drive the enable pin to, if any.
pub fn axis_woken(
    board: &mut Board,
    idx: usize,
    motion: &mut Motion,
    now: u64,
    wake: Wake,
) -> (r: Option<Level>)
    requires
        idx < AXES,
        old(motion).wf(),
        old(motion).clock_ok(now),
    ensures
        final(motion).wf(),
        *final(motion) == old(motion).woken(now, wake),
        final(board)@ == old(board)@.waited(idx as int, old(motion).halts(now, wake)),
        old(board).wf() ==> final(board).wf(),
        r == (match wake {
            Wake::Timer => None,
            Wake::Command { cmd, .. } => old(motion).en_for(cmd),
        }),
{
    let reaction: Reaction = motion.wake(now, wake);
    if reaction.halted {
        board.axes[idx].velocity = 0;
        assert(board@ =~= old(board)@.commanded(idx as int, AxisCmd::Jog(0)));
    }
    reaction.en
}

/// Records the microsteps of a driver once its configuration is written.
pub fn tmc_written(board: &mut Board, cfg: TmcCfg)
    requires
        crate::tmc::configurable(cfg),
    ensures
        final(board)@ == old(board)@.configured(cfg),
        old(board).wf() ==> final(board).wf(),
{
    board.axes[cfg.axis as usize].microsteps = cfg.microsteps;
    assert(board@ =~= old(board)@.configured(cfg));
}

/// The host is gone: stops and frees every axis, and turns every other output off.
pub fn disconnected(board: &mut Board) -> (r: Vec<Effect>)
    ensures
        final(board)@ == old(board)@.quiet(),
        acts(r@) == shutdown(),
        old(board).wf() ==> final(board).wf(),
{
    let mut out: Vec<Effect> = Vec::new();
    let ghost before = board@;
    let mut i: usize = 0;
    while i < AXES
        invariant
            i <= AXES,
            before == old(board)@,
            before.axes.len() == AXES,
            board@.axes.len() == AXES,
            board@.fans == before.fans,
            board@.servos == before.servos,
            forall|j: int|
                0 <= j < i ==> board@.axes[j] == (AxisShadow {
                    enabled: false,
                    energised: false,
                    velocity: 0,
                    ..before.axes[j]
                }),
            forall|j: int| i <= j < AXES ==> board@.axes[j] == before.axes[j],
            acts(out@) == shutdown().take(2 * i as int),
            old(board).wf() ==> board.wf(),
        decreases AXES - i,
    {
        let stop: Effect = send_cmd(board, i, AxisCmd::Jog(0));
        push_effect(&mut out, stop);
        let free: Effect = send_cmd(board, i, AxisCmd::Enable(false));
        push_effect(&mut out, free);
        assert(shutdown().take(2 * i + 2) =~= shutdown().take(2 * i as int).push(
            shutdown()[2 * i as int],
        ).push(shutdown()[2 * i + 1]));
        i += 1;
    }
    let ghost axes = board@.axes;
    i = 0;
    while i < FANS
        invariant
            i <= FANS,
            board@.axes == axes,
            board@.fans.len() == FANS,
            board@.servos == before.servos,
            forall|j: int| 0 <= j < i ==> board@.fans[j] == false,
            acts(out@) == shutdown().take(8 + i),
            old(board).wf() ==> board.wf(),
        decreases FANS - i,
    {
        let effect: Effect = fan_cmd(board, i, false);
        push_effect(&mut out, effect);
        assert(shutdown().take(8 + i + 1) =~= shutdown().take(8 + i).push(shutdown()[8 + i]));
        i += 1;
    }
    let ghost fans = board@.fans;
    i = 0;
    while i < SERVOS
        invariant
            i <= SERVOS,
            board@.axes == axes,
            board@.fans == fans,
            board@.servos.len() == SERVOS,
            forall|j: int| 0 <= j < i ==> board@.servos[j] == 0,
            acts(out@) == shutdown().take(11 + i),
            old(board).wf() ==> board.wf(),
        decreases SERVOS - i,
    {
        let effect: Effect = servo_cmd(board, i, 0);
        push_effect(&mut out, effect);
        assert(shutdown().take(11 + i + 1) =~= shutdown().take(11 + i).push(shutdown()[11 + i]));
        i += 1;
    }
    assert(board@ =~= before.quiet());
    assert(shutdown().take(16) =~= shutdown());
    out
}

/// Whatever was asked of an axis before, what it is asked last when the host
/// is gone is to let go of its motor. A driver that only gets to see the
/// newest command therefore still stops.
pub proof fn shutdown_frees_every_axis(axis: int)
    requires
        0 <= axis < AXES,
    ensures
        shutdown()[2 * axis + 1] == (Act::Axis { axis, cmd: AxisCmd::Enable(false) }),
        forall|j: int|
            2 * axis + 1 < j < shutdown().len() ==> !(#[trigger] shutdown()[j] matches Act::Axis {
                axis: a,
                ..
            } && a == axis),
{
}

/// A command to an axis is recorded with that axis, in the field that it is
/// about, and nowhere else.
pub proof fn commands_are_recorded(
    r: Record,
    axis: int,
    other: int,
    on: bool,
    hz: i32,
    accel: u32,
)
    requires
        r.axes.len() == 4,
        0 <= axis < 4,
        0 <= other < 4,
    ensures
        ({
            let a = r.axes[axis];
            let switched = r.commanded(axis, AxisCmd::Enable(on));
            let jogged = r.commanded(axis, AxisCmd::Jog(hz));
            let limited = r.commanded(axis, AxisCmd::Accel(accel));
            &&& switched.axes[axis] == (AxisShadow { enabled: on, energised: on, ..a })
            &&& jogged.axes[axis] == (AxisShadow {
                velocity: hz,
                energised: a.energised || hz != 0,
                ..a
            })
            &&& limited.axes[axis] == (AxisShadow { accel, ..a })
            &&& other != axis ==> {
                &&& switched.axes[other] == r.axes[other]
                &&& jogged.axes[other] == r.axes[other]
                &&& limited.axes[other] == r.axes[other]
            }
            &&& switched.axes.len() == 4 && jogged.axes.len() == 4 && limited.axes.len() == 4
            &&& switched.fans == r.fans && jogged.fans == r.fans && limited.fans == r.fans
            &&& switched.servos == r.servos && jogged.servos == r.servos && limited.servos
                == r.servos
        }),
{
}

/// A command to all axes is recorded as the same command to each of them, and
/// is handed to each of them once, in order.
pub proof fn commands_to_all_reach_each(r: Record, axis: int, cmd: AxisCmd)
    requires
        r.axes.len() == 4,
        0 <= axis < 4,
    ensures
        r.all_commanded(cmd).axes.len() == 4,
        r.all_commanded(cmd).axes[axis] == r.commanded(axis, cmd).axes[axis],
        r.all_commanded(cmd).fans == r.fans,
        r.all_commanded(cmd).servos == r.servos,
        to_all(cmd).len() == 4,
        to_all(cmd)[axis] == (Act::Axis { axis, cmd }),
{
}

/// Fans and servos are recorded one by one.
pub proof fn outputs_are_recorded(r: Record, fan: int, on: bool, servo: int, us: u16, other: int)
    requires
        r.fans.len() == 3,
        r.servos.len() == 5,
        0 <= fan < 3,
        0 <= servo < 5,
        0 <= other,
    ensures
        r.fan_set(fan, on).fans[fan] == on,
        other < 3 && other != fan ==> r.fan_set(fan, on).fans[other] == r.fans[other],
        r.fan_set(fan, on).fans.len() == 3,
        r.fan_set(fan, on).axes == r.axes,
        r.fan_set(fan, on).servos == r.servos,
        r.servo_set(servo, us).servos[servo] == us,
        other < 5 && other != servo ==> r.servo_set(servo, us).servos[other] == r.servos[other],
        r.servo_set(servo, us).servos.len() == 5,
        r.servo_set(servo, us).axes == r.axes,
        r.servo_set(servo, us).fans == r.fans,
{
}

/// When the host is gone every axis is stopped and freed, in this order and
/// one after the other, and then every fan and every servo is turned off: that
/// is recorded, and it is all that is. Slew limits and microsteps stay. A safe
/// stop leaves the same record of the axes, and the other outputs as they were;
/// a move leaves its axis energised and at rest.
pub proof fn shutting_down_turns_everything_off(r: Record, axis: int, fan: int, servo: int)
    requires
        r.axes.len() == 4,
        0 <= axis < 4,
        0 <= fan < 3,
        0 <= servo < 5,
    ensures
        ({
            let a = r.axes[axis];
            let off = AxisShadow { enabled: false, energised: false, velocity: 0, ..a };
            &&& r.quiet().axes.len() == 4
            &&& r.quiet().axes[axis] == off
            &&& r.quiet().fans.len() == 3
            &&& !r.quiet().fans[fan]
            &&& r.quiet().servos.len() == 5
            &&& r.quiet().servos[servo] == 0
            &&& r.released().axes.len() == 4
            &&& r.released().axes[axis] == off
            &&& r.released().fans == r.fans
            &&& r.released().servos == r.servos
            &&& r.nudged(axis) == (Record {
                axes: r.axes.update(axis, AxisShadow { energised: true, velocity: 0, ..a }),
                ..r
            })
        }),
        shutdown().len() == 16,
        shutdown()[2 * axis] == (Act::Axis { axis, cmd: AxisCmd::Jog(0) }),
        shutdown()[2 * axis + 1] == (Act::Axis { axis, cmd: AxisCmd::Enable(false) }),
        shutdown()[8 + fan] == (Act::Fan { fan, on: false }),
        shutdown()[11 + servo] == (Act::Servo { servo, us: 0 }),
{
}

/// The microsteps of a driver are recorded with its axis alone. An axis that
/// the deadman halts is recorded as at rest, and is otherwise as it was; one
/// that it does not halt is recorded as before.
pub proof fn drivers_and_halts_are_recorded(r: Record, cfg: TmcCfg, axis: int, other: int)
    requires
        r.axes.len() == 4,
        cfg.axis < 4,
        0 <= axis < 4,
        0 <= other < 4,
    ensures
        ({
            let c = r.configured(cfg);
            let h = r.waited(axis, true);
            let driver = cfg.axis as int;
            &&& c.axes.len() == 4
            &&& c.axes[driver] == (AxisShadow { microsteps: cfg.microsteps, ..r.axes[driver] })
            &&& other != driver ==> c.axes[other] == r.axes[other]
            &&& c.fans == r.fans && c.servos == r.servos
            &&& h.axes.len() == 4
            &&& h.axes[axis] == (AxisShadow { velocity: 0, ..r.axes[axis] })
            &&& other != axis ==> h.axes[other] == r.axes[other]
            &&& h.fans == r.fans && h.servos == r.servos
            &&& r.waited(axis, false) == r
        }),
{
}

} // verus!
