//! The firmware's command interpreter: what each request does to the board's
//! record, what it asks of the hardware, and what it replies.

use crate::axis::{axes_have_their_letters, axis_label, axis_name, axis_named, AxisCmd, AXES};
use crate::board::{
    fan_cmd, send_all, send_cmd, servo_cmd, to_all, Board, Record, FANS, MAX_SERVO_US, SERVOS,
};
use crate::command::{parse_request, request, Refusal, Request, Target};
use crate::effect::{acts, push_effect, shown, shown_line, write_line, write_text, Act, Effect};
use crate::message::{lemma_joined_three, piece_views};
use crate::motion::{magnitude, MAX_HZ, WATCHDOG_MS};
use crate::reply::{
    accel_pieces, fan_reply_pieces, help_lines, jog_pieces, owned, refusal_reply, refusal_text,
    replied, replies_tell_what_was_asked, reply, servo_reply_pieces, shown_lines, status_report,
    status_text, target_reply, tmc_reply_is_whole, tmc_reply_pieces, version_pieces, version_text, write_help,
};
use crate::text::{decimal, signed_decimal, signed_text, unsigned_text, words};
use crate::tmc::TmcCfg;
use vstd::prelude::*;

verus! {

/// What the interpreter waits for before it can end a command.
#[derive(Clone, Copy, Debug, PartialEq, Eq, Structural)]
pub enum Pending {
    /// Nothing: the command is done.
    Nothing,
    /// A slice of the time that a move takes, and what is left behind it. At
    /// the end of a slice the jog is sent again, or the move is done.
    Sleep { axis: usize, velocity: i32, wait_us: u64, left_us: u64 },
    /// Room for a driver's settings in the queue to the UART; then the reply
    /// says whether there was any.
    Queue { cfg: TmcCfg },
}

/// What a command does at once, and what it waits for.
#[derive(Debug)]
pub struct Outcome {
    pub effects: Vec<Effect>,
    pub pending: Pending,
}

/// The mathematical counterpart of an outcome, with the record it leaves.
pub struct Plan {
    pub record: Record,
    pub acts: Seq<Act>,
    pub pending: Pending,
}

/// The velocity of a move: its rate, in the direction of its steps.
pub open spec fn move_velocity(steps: i32, hz: u32) -> i32 {
    if steps > 0 {
        hz as i32
    } else {
        (-(hz as int)) as i32
    }
}

/// How long a move takes at its rate, in whole microseconds.
pub open spec fn move_time(steps: int, hz: int) -> int {
    (magnitude(steps) * 1_000_000) / hz
}

/// The longest time that a move goes without its jog being sent again.
pub const SLICE_US: u64 = 100_000;

/// A move that goes on for `total` microseconds.
pub open spec fn sleeping(axis: usize, velocity: i32, total: int) -> Pending {
    let wait = if total < SLICE_US {
        total
    } else {
        SLICE_US as int
    };
    Pending::Sleep { axis, velocity, wait_us: wait as u64, left_us: (total - wait) as u64 }
}

/// A command to one axis.
pub open spec fn to_one(axis: int, cmd: AxisCmd) -> Seq<Act> {
    seq![Act::Axis { axis, cmd }]
}

/// What a request does.
pub open spec fn plan(r: Record, req: Request, version: Seq<char>) -> Plan {
    let done = |record: Record, acts: Seq<Act>|
        Plan { record, acts, pending: Pending::Nothing };
    match req {
        Request::Nothing => done(r, Seq::empty()),
        Request::Help => done(r, shown_lines(help_lines())),
        Request::Version => done(r, shown(version_text(version))),
        Request::Status => done(r, shown(status_text(r))),
        Request::Enable { target, on } => {
            let ok = shown_line(
                if on {
                    "ok enabled"@
                } else {
                    "ok disabled"@
                },
            );
            let cmd = AxisCmd::Enable(on);
            match target {
                Target::All => done(r.all_commanded(cmd), to_all(cmd) + ok),
                Target::Axis { axis, .. } => done(
                    r.commanded(axis as int, cmd),
                    to_one(axis as int, cmd) + ok,
                ),
            }
        },
        Request::Accel { target, accel } => {
            let ok = replied(accel_pieces(target, accel), 48);
            let cmd = AxisCmd::Accel(accel);
            match target {
                Target::All => done(r.all_commanded(cmd), to_all(cmd) + ok),
                Target::Axis { axis, .. } => done(
                    r.commanded(axis as int, cmd),
                    to_one(axis as int, cmd) + ok,
                ),
            }
        },
        Request::Tmc { cfg } => Plan {
            record: r,
            acts: Seq::empty(),
            pending: Pending::Queue { cfg },
        },
        Request::Jog { axis, hz } => done(
            r.commanded(axis as int, AxisCmd::Jog(hz)),
            to_one(axis as int, AxisCmd::Jog(hz)) + replied(jog_pieces(axis as int, hz), 48),
        ),
        Request::Move { axis, steps, hz } => if steps == 0 || hz == 0 {
            done(r, shown_line("ok"@))
        } else {
            let cmd = AxisCmd::Jog(move_velocity(steps, hz));
            Plan {
                record: r.commanded(axis as int, cmd),
                acts: to_one(axis as int, cmd),
                pending: sleeping(
                    axis,
                    move_velocity(steps, hz),
                    move_time(steps as int, hz as int),
                ),
            }
        },
        Request::Fan { fan, on } => done(
            r.fan_set(fan as int, on),
            seq![Act::Fan { fan: fan as int, on }] + replied(fan_reply_pieces(fan as int, on), 48),
        ),
        Request::Servo { servo, us } => done(
            r.servo_set(servo as int, us),
            seq![Act::Servo { servo: servo as int, us }] + replied(
                servo_reply_pieces(servo as int, us),
                64,
            ),
        ),
        Request::Refused { why } => done(r, shown_line(refusal_text(why))),
    }
}

/// What a command line does.
pub open spec fn line_plan(r: Record, line: Seq<char>, version: Seq<char>) -> Plan {
    plan(r, request(words(line)), version)
}

fn run_enable(board: &mut Board, target: Target, on: bool) -> (r: Vec<Effect>)
    requires
        target.wf(),
    ensures
        final(board)@ == plan(old(board)@, Request::Enable { target, on }, Seq::empty()).record,
        acts(r@) == plan(old(board)@, Request::Enable { target, on }, Seq::empty()).acts,
        old(board).wf() ==> final(board).wf(),
{
    let mut out: Vec<Effect> = Vec::new();
    match target {
        Target::All => {
            send_all(board, &mut out, AxisCmd::Enable(on));
            assert(acts(out@) =~= to_all(AxisCmd::Enable(on)));
        },
        Target::Axis { axis, .. } => {
            let effect: Effect = send_cmd(board, axis, AxisCmd::Enable(on));
            push_effect(&mut out, effect);
            assert(acts(out@) =~= to_one(axis as int, AxisCmd::Enable(on)));
        },
    }
    write_line(&mut out, if on { "ok enabled" } else { "ok disabled" });
    out
}

fn run_accel(board: &mut Board, target: Target, accel: u32) -> (r: Vec<Effect>)
    requires
        target.wf(),
    ensures
        final(board)@ == plan(old(board)@, Request::Accel { target, accel }, Seq::empty()).record,
        acts(r@) == plan(old(board)@, Request::Accel { target, accel }, Seq::empty()).acts,
        old(board).wf() ==> final(board).wf(),
{
    let mut out: Vec<Effect> = Vec::new();
    match target {
        Target::All => {
            send_all(board, &mut out, AxisCmd::Accel(accel));
            assert(acts(out@) =~= to_all(AxisCmd::Accel(accel)));
        },
        Target::Axis { axis, .. } => {
            let effect: Effect = send_cmd(board, axis, AxisCmd::Accel(accel));
            push_effect(&mut out, effect);
            assert(acts(out@) =~= to_one(axis as int, AxisCmd::Accel(accel)));
        },
    }
    let pieces: Vec<String> = vec![
        owned("ok accel "),
        target_reply(target),
        owned(" "),
        unsigned_text(accel as u64),
        owned("\r\n"),
    ];
    assert(piece_views(pieces@) =~= accel_pieces(target, accel));
    reply::<48>(&mut out, &pieces);
    out
}

fn run_jog(board: &mut Board, axis: usize, hz: i32) -> (r: Vec<Effect>)
    requires
        axis < AXES,
        -(MAX_HZ as int) <= hz <= MAX_HZ,
    ensures
        final(board)@ == plan(old(board)@, Request::Jog { axis, hz }, Seq::empty()).record,
        acts(r@) == plan(old(board)@, Request::Jog { axis, hz }, Seq::empty()).acts,
        old(board).wf() ==> final(board).wf(),
{
    let mut out: Vec<Effect> = Vec::new();
    let effect: Effect = send_cmd(board, axis, AxisCmd::Jog(hz));
    push_effect(&mut out, effect);
    assert(acts(out@) =~= to_one(axis as int, AxisCmd::Jog(hz)));
    let pieces: Vec<String> = vec![
        owned("ok jog "),
        owned(axis_name(axis)),
        owned(" "),
        signed_text(hz as i64),
        owned("\r\n"),
    ];
    assert(piece_views(pieces@) =~= jog_pieces(axis as int, hz));
    reply::<48>(&mut out, &pieces);
    out
}

fn sleep(axis: usize, velocity: i32, total: u64) -> (r: Pending)
    ensures
        r == sleeping(axis, velocity, total as int),
{
    let wait_us: u64 = if total < SLICE_US {
        total
    } else {
        SLICE_US
    };
    Pending::Sleep { axis, velocity, wait_us, left_us: total - wait_us }
}

fn run_move(board: &mut Board, axis: usize, steps: i32, hz: u32) -> (r: Outcome)
    requires
        axis < AXES,
        hz <= MAX_HZ,
    ensures
        final(board)@ == plan(old(board)@, Request::Move { axis, steps, hz }, Seq::empty()).record,
        acts(r.effects@) == plan(old(board)@, Request::Move { axis, steps, hz }, Seq::empty()).acts,
        r.pending == plan(old(board)@, Request::Move { axis, steps, hz }, Seq::empty()).pending,
        old(board).wf() ==> final(board).wf(),
{
    let mut out: Vec<Effect> = Vec::new();
    if steps == 0 || hz == 0 {
        write_line(&mut out, "ok");
        assert(acts(out@) =~= shown_line("ok"@));
        return Outcome { effects: out, pending: Pending::Nothing };
    }
    let velocity: i32 = if steps > 0 {
        hz as i32
    } else {
        -(hz as i32)
    };
    let count: u64 = if steps < 0 {
        (-(steps as i64)) as u64
    } else {
        steps as u64
    };
    let duration_us: u64 = count * 1_000_000u64 / hz as u64;
    proof {
        assert(count == magnitude(steps as int));
        lemma_move_time(steps as int, hz as int);
    }
    let effect: Effect = send_cmd(board, axis, AxisCmd::Jog(velocity));
    push_effect(&mut out, effect);
    assert(acts(out@) =~= to_one(axis as int, AxisCmd::Jog(velocity)));
    Outcome { effects: out, pending: sleep(axis, velocity, duration_us) }
}

fn run_fan(board: &mut Board, fan: usize, on: bool) -> (r: Vec<Effect>)
    requires
        fan < FANS,
    ensures
        final(board)@ == plan(old(board)@, Request::Fan { fan, on }, Seq::empty()).record,
        acts(r@) == plan(old(board)@, Request::Fan { fan, on }, Seq::empty()).acts,
        old(board).wf() ==> final(board).wf(),
{
    let mut out: Vec<Effect> = Vec::new();
    let effect: Effect = fan_cmd(board, fan, on);
    push_effect(&mut out, effect);
    assert(acts(out@) =~= seq![Act::Fan { fan: fan as int, on }]);
    let pieces: Vec<String> = vec![
        owned("ok fan "),
        unsigned_text(fan as u64),
        owned(" "),
        owned(if on { "on" } else { "off" }),
        owned("\r\n"),
    ];
    assert(piece_views(pieces@) =~= fan_reply_pieces(fan as int, on));
    reply::<48>(&mut out, &pieces);
    out
}

fn run_servo(board: &mut Board, servo: usize, us: u16) -> (r: Vec<Effect>)
    requires
        servo < SERVOS,
        us <= MAX_SERVO_US,
    ensures
        final(board)@ == plan(old(board)@, Request::Servo { servo, us }, Seq::empty()).record,
        acts(r@) == plan(old(board)@, Request::Servo { servo, us }, Seq::empty()).acts,
        old(board).wf() ==> final(board).wf(),
{
    let mut out: Vec<Effect> = Vec::new();
    let effect: Effect = servo_cmd(board, servo, us);
    push_effect(&mut out, effect);
    assert(acts(out@) =~= seq![Act::Servo { servo: servo as int, us }]);
    let pieces: Vec<String> = vec![
        owned("ok servo "),
        unsigned_text(servo as u64),
        owned(" "),
        unsigned_text(us as u64),
        owned(" us\r\n"),
    ];
    assert(piece_views(pieces@) =~= servo_reply_pieces(servo as int, us));
    reply::<64>(&mut out, &pieces);
    out
}

fn run_version(version: &str) -> (r: Vec<Effect>)
    ensures
        acts(r@) == shown(version_text(version@)),
{
    let mut out: Vec<Effect> = Vec::new();
    let pieces: Vec<String> = vec![
        owned("tmc-new-era firmware v"),
        owned(version),
        owned("\r\n"),
    ];
    assert(piece_views(pieces@) =~= version_pieces(version@));
    reply::<64>(&mut out, &pieces);
    assert(acts(out@) =~= shown(version_text(version@)));
    out
}

/// Carries out a request.
pub fn execute(board: &mut Board, req: Request, version: &str) -> (r: Outcome)
    requires
        req.wf(),
    ensures
        final(board)@ == plan(old(board)@, req, version@).record,
        acts(r.effects@) == plan(old(board)@, req, version@).acts,
        r.pending == plan(old(board)@, req, version@).pending,
        old(board).wf() ==> final(board).wf(),
{
    let mut out: Vec<Effect> = Vec::new();
    assert(acts(out@) =~= Seq::<Act>::empty());
    match req {
        Request::Nothing => {},
        Request::Help => {
            write_help(&mut out);
            assert(acts(out@) =~= shown_lines(help_lines()));
        },
        Request::Version => {
            out = run_version(version);
        },
        Request::Status => {
            let text: String = status_report(board);
            write_text(&mut out, text.as_str());
            assert(acts(out@) =~= shown(status_text(board@)));
        },
        Request::Enable { target, on } => {
            out = run_enable(board, target, on);
        },
        Request::Accel { target, accel } => {
            out = run_accel(board, target, accel);
        },
        Request::Tmc { cfg } => {
            return Outcome { effects: out, pending: Pending::Queue { cfg } };
        },
        Request::Jog { axis, hz } => {
            out = run_jog(board, axis, hz);
        },
        Request::Move { axis, steps, hz } => {
            return run_move(board, axis, steps, hz);
        },
        Request::Fan { fan, on } => {
            out = run_fan(board, fan, on);
        },
        Request::Servo { servo, us } => {
            out = run_servo(board, servo, us);
        },
        Request::Refused { why } => {
            write_line(&mut out, refusal_reply(why));
            assert(acts(out@) =~= shown_line(refusal_text(why)));
        },
    }
    Outcome { effects: out, pending: Pending::Nothing }
}

/// Carries out a command line.
pub fn run_command(board: &mut Board, line: &str, version: &str) -> (r: Outcome)
    ensures
        final(board)@ == line_plan(old(board)@, line@, version@).record,
        acts(r.effects@) == line_plan(old(board)@, line@, version@).acts,
        r.pending == line_plan(old(board)@, line@, version@).pending,
        old(board).wf() ==> final(board).wf(),
{
    let req: Request = parse_request(line);
    execute(board, req, version)
}

/// What the end of a wait does: the jog of a move that goes on is sent again;
/// a move that is over stops and is reported; settings that found room in the
/// queue, or none, are answered.
pub open spec fn resumed(pending: Pending, accepted: bool) -> Seq<Act> {
    match pending {
        Pending::Nothing => Seq::empty(),
        Pending::Sleep { axis, velocity, left_us, .. } => if left_us > 0 {
            to_one(axis as int, AxisCmd::Jog(velocity))
        } else {
            to_one(axis as int, AxisCmd::Jog(0)) + shown_line("done"@)
        },
        Pending::Queue { cfg } => if accepted {
            replied(tmc_reply_pieces(cfg.axis as int), 80)
        } else {
            shown_line("busy"@)
        },
    }
}

/// The record after the end of a wait.
pub open spec fn resumed_record(r: Record, pending: Pending) -> Record {
    match pending {
        Pending::Sleep { axis, velocity, left_us, .. } => r.commanded(
            axis as int,
            AxisCmd::Jog(
                if left_us > 0 {
                    velocity
                } else {
                    0
                },
            ),
        ),
        _ => r,
    }
}

/// What there is to wait for after the end of a wait.
pub open spec fn pending_after(pending: Pending) -> Pending {
    match pending {
        Pending::Sleep { axis, velocity, left_us, .. } => if left_us > 0 {
            sleeping(axis, velocity, left_us as int)
        } else {
            Pending::Nothing
        },
        _ => Pending::Nothing,
    }
}

impl Pending {
    /// A wait for an axis that exists, at a rate that it takes.
    pub open spec fn wf(self) -> bool {
        match self {
            Pending::Nothing => true,
            Pending::Sleep { axis, velocity, .. } => axis < AXES && -(MAX_HZ as int) <= velocity
                <= MAX_HZ,
            Pending::Queue { cfg } => cfg.axis < AXES,
        }
    }

    /// How much waiting there is still to come, as a bound on its ends.
    pub open spec fn ahead(self) -> nat {
        match self {
            Pending::Nothing => 0,
            Pending::Sleep { left_us, .. } => left_us as nat + 1,
            Pending::Queue { .. } => 1,
        }
    }
}

/// Goes on with a command that had to wait. `accepted` tells whether settings
/// found room in the queue; no other wait looks at it.
pub fn resume(board: &mut Board, pending: Pending, accepted: bool) -> (r: Outcome)
    requires
        pending.wf(),
    ensures
        final(board)@ == resumed_record(old(board)@, pending),
        acts(r.effects@) == resumed(pending, accepted),
        r.pending == pending_after(pending),
        r.pending.wf(),
        old(board).wf() ==> final(board).wf(),
{
    let mut out: Vec<Effect> = Vec::new();
    assert(acts(out@) =~= Seq::<Act>::empty());
    match pending {
        Pending::Nothing => {},
        Pending::Sleep { axis, velocity, left_us, .. } => {
            if left_us > 0 {
                let effect: Effect = send_cmd(board, axis, AxisCmd::Jog(velocity));
                push_effect(&mut out, effect);
                assert(acts(out@) =~= to_one(axis as int, AxisCmd::Jog(velocity)));
                return Outcome { effects: out, pending: sleep(axis, velocity, left_us) };
            }
            let effect: Effect = send_cmd(board, axis, AxisCmd::Jog(0));
            push_effect(&mut out, effect);
            assert(acts(out@) =~= to_one(axis as int, AxisCmd::Jog(0)));
            write_line(&mut out, "done");
        },
        Pending::Queue { cfg } => {
            if accepted {
                let pieces: Vec<String> = vec![
                    owned("ok tmc "),
                    owned(axis_name(cfg.axis as usize)),
                    owned(" queued\r\n"),
                ];
                assert(piece_views(pieces@) =~= tmc_reply_pieces(cfg.axis as int));
                reply::<80>(&mut out, &pieces);
                assert(acts(out@) =~= replied(tmc_reply_pieces(cfg.axis as int), 80));
            } else {
                write_line(&mut out, "busy");
                assert(acts(out@) =~= shown_line("busy"@));
            }
        },
    }
    Outcome { effects: out, pending: Pending::Nothing }
}

/// All that follows a wait, to the end of its command.
pub open spec fn finished(pending: Pending, accepted: bool) -> Seq<Act>
    decreases pending.ahead(),
{
    if pending is Nothing {
        Seq::empty()
    } else {
        resumed(pending, accepted) + finished(pending_after(pending), accepted)
    }
}

/// The record at the end of a command that had to wait.
pub open spec fn finished_record(r: Record, pending: Pending) -> Record
    decreases pending.ahead(),
{
    if pending is Nothing {
        r
    } else {
        finished_record(resumed_record(r, pending), pending_after(pending))
    }
}

/// The waits of a command, one after the other.
pub open spec fn waits(pending: Pending) -> Seq<int>
    decreases pending.ahead(),
{
    match pending {
        Pending::Sleep { wait_us, .. } => seq![wait_us as int] + waits(pending_after(pending)),
        _ => Seq::empty(),
    }
}

/// The sum of a run of waits.
pub open spec fn sum(w: Seq<int>) -> int
    decreases w.len(),
{
    if w.len() == 0 {
        0
    } else {
        w[0] + sum(w.skip(1))
    }
}

// --------------------------------------------------------------------------
// Laws
// --------------------------------------------------------------------------

/// A refused line changes nothing, starts nothing, and is answered with the
/// reason alone.
pub proof fn refused_lines_do_nothing(r: Record, line: Seq<char>, version: Seq<char>, why: Refusal)
    requires
        request(words(line)) == (Request::Refused { why }),
    ensures
        line_plan(r, line, version).record == r,
        line_plan(r, line, version).acts == shown_line(refusal_text(why)),
        line_plan(r, line, version).pending is Nothing,
{
}

/// A move lasts as long as its steps take at its rate, to the microsecond
/// that is under way.
pub proof fn moves_last_their_steps(steps: int, hz: int)
    requires
        hz > 0,
    ensures
        hz * move_time(steps, hz) <= magnitude(steps) * 1_000_000,
        magnitude(steps) * 1_000_000 < hz * (move_time(steps, hz) + 1),
{
    let total = magnitude(steps) * 1_000_000;
    vstd::arithmetic::div_mod::lemma_fundamental_div_mod(total, hz);
    assert(hz * (total / hz + 1) == hz * (total / hz) + hz) by (nonlinear_arith);
}

proof fn lemma_move_time(steps: int, hz: int)
    requires
        hz > 0,
        -0x8000_0000 <= steps <= 0x7fff_ffff,
    ensures
        0 <= move_time(steps, hz) <= 2_147_483_648_000_000,
{
    let total = magnitude(steps) * 1_000_000;
    vstd::arithmetic::div_mod::lemma_div_pos_is_pos(total, hz);
    vstd::arithmetic::div_mod::lemma_div_is_ordered_by_denominator(total, 1, hz);
    assert(total / 1 == total);
}

/// However long a move takes, it waits exactly that long in all, and sends its
/// jog again before the deadman is due: no slice lasts as long as that.
pub proof fn moves_outlast_the_deadman(axis: usize, velocity: i32, total: int)
    requires
        0 <= total <= u64::MAX,
    ensures
        sum(waits(sleeping(axis, velocity, total))) == total,
        forall|i: int|
            0 <= i < waits(sleeping(axis, velocity, total)).len() ==> 0 <= #[trigger] waits(
                sleeping(axis, velocity, total),
            )[i] < WATCHDOG_MS * 1000,
    decreases total,
{
    let p = sleeping(axis, velocity, total);
    let rest = waits(pending_after(p));
    if total > SLICE_US {
        moves_outlast_the_deadman(axis, velocity, total - SLICE_US);
    } else {
        assert(rest =~= Seq::<int>::empty());
        assert(sum(rest) == 0);
    }
    assert(waits(p).skip(1) =~= rest);
    assert(waits(p) =~= seq![p->wait_us as int] + rest);
}

/// Between the slices of a move its jog is sent again, and nothing else; at
/// the end it is stopped and reported.
pub proof fn moves_renew_their_jog(axis: usize, velocity: i32, total: int, accepted: bool)
    requires
        0 <= total <= u64::MAX,
    ensures
        ({
            let p = sleeping(axis, velocity, total);
            let n = waits(p).len() as int;
            finished(p, accepted) == Seq::new(
                (n - 1) as nat,
                |i: int| Act::Axis { axis: axis as int, cmd: AxisCmd::Jog(velocity) },
            ) + to_one(axis as int, AxisCmd::Jog(0)) + shown_line("done"@)
        }),
    decreases total,
{
    let p = sleeping(axis, velocity, total);
    let jog = |i: int| Act::Axis { axis: axis as int, cmd: AxisCmd::Jog(velocity) };
    let n = waits(p).len() as int;
    let end = to_one(axis as int, AxisCmd::Jog(0)) + shown_line("done"@);
    if total > SLICE_US {
        let q = sleeping(axis, velocity, total - SLICE_US);
        moves_renew_their_jog(axis, velocity, total - SLICE_US, accepted);
        assert(pending_after(p) == q);
        assert(n == waits(q).len() + 1);
        assert(waits(q).len() >= 1);
        assert(to_one(axis as int, AxisCmd::Jog(velocity)) + Seq::new((n - 2) as nat, jog)
            =~= Seq::new((n - 1) as nat, jog));
        assert(finished(p, accepted) =~= Seq::new((n - 1) as nat, jog) + to_one(
            axis as int,
            AxisCmd::Jog(0),
        ) + shown_line("done"@));
    } else {
        assert(pending_after(p) is Nothing);
        assert(waits(Pending::Nothing) =~= Seq::<int>::empty());
        assert(n == 1);
        assert(finished(Pending::Nothing, accepted) =~= Seq::<Act>::empty());
        assert(finished(p, accepted) =~= end);
        assert(Seq::new(0, jog) + to_one(axis as int, AxisCmd::Jog(0)) + shown_line("done"@)
            =~= end);
    }
}

proof fn lemma_finished_move(r: Record, axis: usize, velocity: i32, total: int)
    requires
        r.wf(),
        axis < AXES,
        -(MAX_HZ as int) <= velocity <= MAX_HZ,
        r.axes[axis as int].velocity == velocity,
        r.axes[axis as int].energised,
        0 <= total <= u64::MAX,
    ensures
        finished_record(r, sleeping(axis, velocity, total)) == r.commanded(
            axis as int,
            AxisCmd::Jog(0),
        ),
    decreases total,
{
    let p = sleeping(axis, velocity, total);
    if total > SLICE_US {
        assert(r.commanded(axis as int, AxisCmd::Jog(velocity)) =~= r);
        lemma_finished_move(r, axis, velocity, total - SLICE_US);
    } else {
        let end = r.commanded(axis as int, AxisCmd::Jog(0));
        assert(finished_record(end, Pending::Nothing) == end);
    }
}

/// A move that has ended leaves its axis energised, with no velocity
/// commanded, and every other output as it was.
pub proof fn moves_end_at_rest(r: Record, axis: usize, steps: i32, hz: u32, version: Seq<char>)
    requires
        r.wf(),
        axis < AXES,
        0 < hz <= MAX_HZ,
        steps != 0,
    ensures
        ({
            let p = plan(r, Request::Move { axis, steps, hz }, version);
            finished_record(p.record, p.pending) == r.nudged(axis as int)
        }),
{
    let p = plan(r, Request::Move { axis, steps, hz }, version);
    let velocity = move_velocity(steps, hz);
    lemma_move_time(steps as int, hz as int);
    lemma_finished_move(p.record, axis, velocity, move_time(steps as int, hz as int));
    assert(finished_record(p.record, p.pending) =~= r.nudged(axis as int));
}

/// A move jogs its axis at its rate, forward for positive steps and backward
/// for negative ones, and waits for as long as the steps take at that rate, in
/// whole microseconds and a tenth of a second at a time. Nothing is said before
/// it is done. A move that goes nowhere is done at once.
pub proof fn moves_go_as_asked(r: Record, axis: usize, steps: i32, hz: u32, version: Seq<char>)
    requires
        hz <= 40_000,
    ensures
        ({
            let p = plan(r, Request::Move { axis, steps, hz }, version);
            &&& steps == 0 || hz == 0 ==> {
                &&& p.record == r
                &&& p.acts == shown_line("ok"@)
                &&& p.pending is Nothing
            }
            &&& steps != 0 && hz != 0 ==> (p.pending matches Pending::Sleep {
                axis: a,
                velocity,
                wait_us,
                left_us,
            } && {
                let time = wait_us + left_us;
                let n = if steps > 0 {
                    steps as int
                } else {
                    -steps
                };
                &&& a == axis
                &&& velocity * n == hz * steps
                &&& time * hz <= n * 1_000_000 < (time + 1) * hz
                &&& wait_us <= 100_000
                &&& left_us > 0 ==> wait_us == 100_000
                &&& p.acts == seq![Act::Axis { axis: axis as int, cmd: AxisCmd::Jog(velocity) }]
                &&& p.record == r.commanded(axis as int, AxisCmd::Jog(velocity))
            })
        }),
{
    if steps != 0 && hz != 0 {
        let v = move_velocity(steps, hz);
        let n = magnitude(steps as int);
        lemma_move_time(steps as int, hz as int);
        moves_last_their_steps(steps as int, hz as int);
        let time = move_time(steps as int, hz as int);
        assert(time * hz == hz * time) by (nonlinear_arith);
        assert((time + 1) * hz == hz * (time + 1)) by (nonlinear_arith);
        assert(v * n == hz * steps) by (nonlinear_arith)
            requires
                (v == hz && n == steps) || (v == -(hz as int) && n == -steps),
        ;
    }
}

/// The velocity of a move has the direction of its steps and the magnitude of
/// its rate.
pub proof fn moves_have_their_direction(steps: i32, hz: u32)
    requires
        steps != 0,
        hz <= 40_000,
    ensures
        steps > 0 ==> move_velocity(steps, hz) == hz,
        steps < 0 ==> move_velocity(steps, hz) == -(hz as int),
{
}

/// At the end of a wait a move that has time left sends its jog again, and
/// waits for what is left, a tenth of a second at a time; one that has none
/// stops its axis and says so. Driver settings are answered by whether they
/// found room in the queue.
pub proof fn waits_end_as_they_should(
    r: Record,
    axis: usize,
    velocity: i32,
    wait_us: u64,
    left_us: u64,
    accepted: bool,
    cfg: TmcCfg,
)
    requires
        cfg.axis < 4,
    ensures
        ({
            let p = Pending::Sleep { axis, velocity, wait_us, left_us };
            let q = Pending::Queue { cfg };
            let name = axis_label(cfg.axis as int);
            &&& left_us > 0 ==> {
                &&& resumed(p, accepted) == seq![
                    Act::Axis { axis: axis as int, cmd: AxisCmd::Jog(velocity) },
                ]
                &&& resumed_record(r, p) == r.commanded(axis as int, AxisCmd::Jog(velocity))
                &&& pending_after(p) == (Pending::Sleep {
                    axis,
                    velocity,
                    wait_us: if left_us > 100_000 {
                        100_000
                    } else {
                        left_us
                    },
                    left_us: if left_us > 100_000 {
                        (left_us - 100_000) as u64
                    } else {
                        0
                    },
                })
            }
            &&& left_us == 0 ==> {
                &&& resumed(p, accepted) == seq![
                    Act::Axis { axis: axis as int, cmd: AxisCmd::Jog(0) },
                ] + shown_line("done"@)
                &&& resumed_record(r, p) == r.commanded(axis as int, AxisCmd::Jog(0))
                &&& pending_after(p) is Nothing
            }
            &&& resumed(q, true) == shown("ok tmc "@ + name + " queued\r\n"@)
            &&& resumed(q, false) == shown_line("busy"@)
            &&& resumed_record(r, q) == r
            &&& pending_after(q) is Nothing
            &&& resumed(Pending::Nothing, accepted) == Seq::<Act>::empty()
            &&& resumed_record(r, Pending::Nothing) == r
            &&& pending_after(Pending::Nothing) is Nothing
        }),
{
    tmc_reply_is_whole(cfg.axis as int);
    lemma_joined_three("ok tmc "@, axis_label(cfg.axis as int), " queued\r\n"@);
}

/// Each request to an axis reaches the axis that it names, as it was asked,
/// and is recorded and answered; one to all axes reaches each.
pub proof fn axes_get_what_is_asked(
    r: Record,
    axis: usize,
    letter: char,
    on: bool,
    hz: i32,
    accel: u32,
    version: Seq<char>,
)
    requires
        axis < 4,
        axis_named(seq![letter]) == Some(axis as int),
        -40_000 <= hz <= 40_000,
    ensures
        ({
            let one = Target::Axis { axis, letter };
            let a = axis as int;
            let ok = shown_line(
                if on {
                    "ok enabled"@
                } else {
                    "ok disabled"@
                },
            );
            let e = AxisCmd::Enable(on);
            let c = AxisCmd::Accel(accel);
            let j = AxisCmd::Jog(hz);
            let jog = plan(r, Request::Jog { axis, hz }, version);
            let switch = plan(r, Request::Enable { target: one, on }, version);
            let switch_all = plan(r, Request::Enable { target: Target::All, on }, version);
            let limit = plan(r, Request::Accel { target: one, accel }, version);
            let limit_all = plan(r, Request::Accel { target: Target::All, accel }, version);
            &&& jog.record == r.commanded(a, j)
            &&& jog.acts == seq![Act::Axis { axis: a, cmd: j }] + shown(
                "ok jog "@ + axis_label(a) + " "@ + signed_decimal(hz as int) + "\r\n"@,
            )
            &&& jog.pending is Nothing
            &&& switch.record == r.commanded(a, e)
            &&& switch.acts == seq![Act::Axis { axis: a, cmd: e }] + ok
            &&& switch.pending is Nothing
            &&& switch_all.record == r.all_commanded(e)
            &&& switch_all.acts == to_all(e) + ok
            &&& switch_all.pending is Nothing
            &&& limit.record == r.commanded(a, c)
            &&& limit.acts == seq![Act::Axis { axis: a, cmd: c }] + shown(
                "ok accel "@ + seq![letter] + " "@ + decimal(accel as nat) + "\r\n"@,
            )
            &&& limit.pending is Nothing
            &&& limit_all.record == r.all_commanded(c)
            &&& limit_all.acts == to_all(c) + shown(
                "ok accel "@ + "all"@ + " "@ + decimal(accel as nat) + "\r\n"@,
            )
            &&& limit_all.pending is Nothing
        }),
{
    replies_tell_what_was_asked(axis as int, hz, letter, accel, 0, on, 0, 0);
}

/// Each request to a fan, a servo or a driver reaches the one that it names;
/// the settings of a driver wait for room in the queue first. What is only
/// asked for is told, and changes nothing.
pub proof fn outputs_get_what_is_asked(
    r: Record,
    fan: usize,
    on: bool,
    servo: usize,
    us: u16,
    cfg: TmcCfg,
    version: Seq<char>,
)
    requires
        fan < 3,
        servo < 5,
        us <= 10_000,
    ensures
        ({
            let f = plan(r, Request::Fan { fan, on }, version);
            let s = plan(r, Request::Servo { servo, us }, version);
            let t = plan(r, Request::Tmc { cfg }, version);
            let status = plan(r, Request::Status, version);
            let told = plan(r, Request::Version, version);
            let help = plan(r, Request::Help, version);
            let nothing = plan(r, Request::Nothing, version);
            &&& f.record == r.fan_set(fan as int, on)
            &&& f.acts == seq![Act::Fan { fan: fan as int, on }] + shown(
                "ok fan "@ + decimal(fan as nat) + " "@ + (if on {
                    "on"@
                } else {
                    "off"@
                }) + "\r\n"@,
            )
            &&& f.pending is Nothing
            &&& s.record == r.servo_set(servo as int, us)
            &&& s.acts == seq![Act::Servo { servo: servo as int, us }] + shown(
                "ok servo "@ + decimal(servo as nat) + " "@ + decimal(us as nat) + " us\r\n"@,
            )
            &&& s.pending is Nothing
            &&& t.record == r && t.acts == Seq::<Act>::empty() && t.pending == (Pending::Queue {
                cfg,
            })
            &&& status.record == r && status.acts == shown(status_text(r)) && status.pending
                is Nothing
            &&& told.record == r && told.acts == shown(version_text(version)) && told.pending
                is Nothing
            &&& help.record == r && help.acts == shown_lines(help_lines()) && help.pending
                is Nothing
            &&& nothing.record == r && nothing.acts == Seq::<Act>::empty() && nothing.pending
                is Nothing
        }),
{
    axes_have_their_letters(seq!['x']);
    replies_tell_what_was_asked(0, 0, 'x', 0, fan as int, on, servo as int, us);
}

/// A line does what the request that it spells does.
pub proof fn lines_do_what_they_spell(r: Record, line: Seq<char>, version: Seq<char>)
    ensures
        line_plan(r, line, version) == plan(r, request(words(line)), version),
{
}

/// What is left of a command is what its waits do one after the other, and
/// then nothing.
pub proof fn commands_go_on_wait_by_wait(r: Record, pending: Pending, accepted: bool)
    ensures
        pending is Nothing ==> {
            &&& finished(pending, accepted) == Seq::<Act>::empty()
            &&& finished_record(r, pending) == r
        },
        pending !is Nothing ==> {
            &&& finished(pending, accepted) == resumed(pending, accepted) + finished(
                pending_after(pending),
                accepted,
            )
            &&& finished_record(r, pending) == finished_record(
                resumed_record(r, pending),
                pending_after(pending),
            )
        },
{
}

} // verus!
