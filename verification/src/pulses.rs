//! How many steps a move makes, on a clock that keeps every wait.

use crate::axis::AxisCmd;
use crate::firmware::{
    move_time, move_velocity, pending_after, resumed, sleeping, Pending, SLICE_US,
};
use crate::motion::{after, magnitude, step_period, steps, Event, Motion, Wake, MAX_HZ};
use vstd::prelude::*;

verus! {

/// A command on its way to an axis, and when it is sent.
pub struct Send {
    pub at: int,
    pub cmd: AxisCmd,
}

/// What a move sends to its axis from the time `at` on: a command at the end
/// of each of its waits.
pub open spec fn sends(pending: Pending, at: int) -> Seq<Send>
    decreases pending.ahead(),
{
    match pending {
        Pending::Sleep { wait_us, .. } => seq![
            Send { at: at + wait_us, cmd: resumed(pending, false)[0]->cmd },
        ] + sends(pending_after(pending), at + wait_us),
        _ => Seq::empty(),
    }
}

/// One turn of a running axis: it goes on, and the wait after that ends at
/// `at`.
pub struct Round {
    pub at: u64,
    pub wake: Wake,
}

/// The state after a turn that began at `now`.
pub open spec fn after_round(m: Motion, now: u64, round: Round) -> Motion {
    after(after(m, Event::Next { now }), Event::Wake { now: round.at, wake: round.wake })
}

/// How long the step pin is held high in a turn.
pub open spec fn held(m: Motion, now: u64) -> int {
    if steps(m, Event::Next { now }) {
        2
    } else {
        0
    }
}

/// Turns that keep to the clock, up to the last of the commands in `queue`. A
/// wait begins once the step pin is low again. It ends with the next command,
/// as soon as that has been sent, and otherwise after the time that the axis
/// asked for.
pub open spec fn punctual(m: Motion, now: u64, queue: Seq<Send>, rounds: Seq<Round>) -> bool
    decreases rounds.len(),
{
    if rounds.len() == 0 {
        queue.len() == 0
    } else {
        let round = rounds[0];
        let low = now + held(m, now);
        let next = after_round(m, now, round);
        &&& queue.len() > 0
        &&& m.drive(now) is Run
        &&& match round.wake {
            Wake::Timer => {
                &&& round.at == low + m.drive(now)->wait_us
                &&& round.at <= queue[0].at
                &&& punctual(next, round.at, queue, rounds.skip(1))
            },
            Wake::Command { cmd, at } => {
                &&& cmd == queue[0].cmd
                &&& at == round.at
                &&& round.at == (if queue[0].at < low {
                    low
                } else {
                    queue[0].at
                })
                &&& round.at <= low + m.drive(now)->wait_us
                &&& punctual(next, round.at, queue.skip(1), rounds.skip(1))
            },
        }
    }
}

/// How many steps an axis makes in some turns.
pub open spec fn pulses(m: Motion, now: u64, rounds: Seq<Round>) -> nat
    decreases rounds.len(),
{
    if rounds.len() == 0 {
        0
    } else {
        let round = rounds[0];
        let made: nat = if steps(m, Event::Next { now }) {
            1
        } else {
            0
        };
        made + pulses(after_round(m, now, round), round.at, rounds.skip(1))
    }
}

/// The state after some turns.
pub open spec fn after_rounds(m: Motion, now: u64, rounds: Seq<Round>) -> Motion
    decreases rounds.len(),
{
    if rounds.len() == 0 {
        m
    } else {
        after_rounds(after_round(m, now, rounds[0]), rounds[0].at, rounds.skip(1))
    }
}

/// An axis at full speed without a slew limit, whose next step is due at
/// `due`.
spec fn cruising(m: Motion, v: i32, now: u64, due: int) -> bool {
    &&& m.accel == 0
    &&& m.target_v == v
    &&& m.current_milli == v * 1000
    &&& now <= due
    &&& match m.last_step_at {
        Some(t) => {
            &&& t <= now
            &&& due == t + step_period(v as int) || (due == now && t + step_period(v as int) <= now)
        },
        None => due == now,
    }
}

proof fn lemma_sends(axis: usize, v: i32, total: int, t: int)
    requires
        0 <= total <= u64::MAX,
    ensures
        ({
            let queue = sends(sleeping(axis, v, total), t);
            if total > SLICE_US {
                &&& queue.len() > 0
                &&& queue[0] == (Send { at: t + SLICE_US, cmd: AxisCmd::Jog(v) })
                &&& queue.skip(1) == sends(sleeping(axis, v, total - SLICE_US), t + SLICE_US)
            } else {
                &&& queue.len() == 1
                &&& queue[0] == (Send { at: t + total, cmd: AxisCmd::Jog(0) })
            }
        }),
{
    let p = sleeping(axis, v, total);
    let rest = sends(pending_after(p), t + p->wait_us);
    assert(sends(p, t).skip(1) =~= rest);
    if total <= SLICE_US {
        assert(rest =~= Seq::<Send>::empty());
    }
}

/// What a cruising axis does in a turn.
proof fn lemma_turn(m: Motion, v: i32, now: u64, due: int)
    requires
        cruising(m, v, now, due),
        v != 0,
        -(MAX_HZ as int) <= v <= MAX_HZ,
        m.last_jog_at <= now,
        !m.overdue(now),
    ensures
        ({
            let p = step_period(v as int);
            let rest = if now == due {
                p - 2
            } else {
                due - now
            };
            &&& p >= 25
            &&& m.drive(now) is Run
            &&& steps(m, Event::Next { now }) == (now == due)
            &&& m.drive(now)->wait_us == (if rest < m.grace(now) {
                rest
            } else {
                m.grace(now)
            })
            &&& m.driven(now).accel == 0
            &&& m.driven(now).target_v == v
            &&& m.driven(now).current_milli == v * 1000
            &&& m.driven(now).last_jog_at == m.last_jog_at
            &&& m.driven(now).last_step_at == (if now == due {
                Some(now)
            } else {
                m.last_step_at
            })
        }),
{
    assert(m.hz() == v);
    let a = magnitude(v as int);
    assert(1_000_000int / a >= 25) by (nonlinear_arith)
        requires
            0 < a <= 40_000,
    ;
    assert(1_000_000int / a <= 1_000_000) by (nonlinear_arith)
        requires
            0 < a,
    ;
}

/// The steps of a cruising axis are a period apart, the first when it is due,
/// up to the end of its move.
#[verifier::rlimit(40)]
proof fn lemma_cruise(
    m: Motion,
    now: u64,
    rounds: Seq<Round>,
    axis: usize,
    v: i32,
    total: int,
    t: int,
    due: int,
)
    requires
        v != 0,
        -(MAX_HZ as int) <= v <= MAX_HZ,
        0 <= total <= u64::MAX,
        cruising(m, v, now, due),
        t <= m.last_jog_at <= now,
        now <= t + total + 2,
        now <= t + SLICE_US + 2,
        total > SLICE_US ==> now <= t + SLICE_US,
        punctual(m, now, sends(sleeping(axis, v, total), t), rounds),
    ensures
        ({
            let n = pulses(m, now, rounds);
            let p = step_period(v as int);
            let end = rounds.last().at;
            &&& rounds.len() > 0
            &&& now <= end
            &&& t + total <= end <= t + total + 4
            &&& end <= due + n * p
            &&& n > 0 ==> due + (n - 1) * p <= end
            &&& after_rounds(m, now, rounds).at_rest()
        }),
    decreases rounds.len(),
{
    let queue = sends(sleeping(axis, v, total), t);
    let p = step_period(v as int);
    lemma_sends(axis, v, total, t);
    lemma_turn(m, v, now, due);
    let round = rounds[0];
    let next = after_round(m, now, round);
    let rest = rounds.skip(1);
    let made: int = if now == due {
        1
    } else {
        0
    };
    let due_next = if now == due {
        now + p
    } else {
        due
    };
    let n = pulses(next, round.at, rest);
    assert(pulses(m, now, rounds) == made + n);
    assert(after_rounds(m, now, rounds) == after_rounds(next, round.at, rest));
    assert(round.at <= due_next);
    assert((n + 1) * p == n * p + p) by (nonlinear_arith);
    assert((n - 1) * p == n * p - p) by (nonlinear_arith);
    match round.wake {
        Wake::Timer => {
            assert(round.at == due_next);
            assert(cruising(next, v, round.at, due_next));
            lemma_cruise(next, round.at, rest, axis, v, total, t, due_next);
            assert(rounds.last() == rest.last());
        },
        Wake::Command { .. } => {
            if total > SLICE_US {
                assert(cruising(next, v, round.at, due_next));
                lemma_cruise(
                    next,
                    round.at,
                    rest,
                    axis,
                    v,
                    total - SLICE_US,
                    t + SLICE_US,
                    due_next,
                );
                assert(rounds.last() == rest.last());
            } else {
                assert(queue.skip(1).len() == 0);
                assert(punctual(next, round.at, queue.skip(1), rest));
                assert(rest.len() == 0);
                assert(rounds.last() == round);
            }
        },
    }
}

/// Turns of a cruising axis that keep to the clock, up to the end of its move.
#[verifier::rlimit(40)]
proof fn lemma_cruise_goes_on(
    m: Motion,
    now: u64,
    axis: usize,
    v: i32,
    total: int,
    t: int,
    due: int,
) -> (rounds: Seq<Round>)
    requires
        v != 0,
        -(MAX_HZ as int) <= v <= MAX_HZ,
        0 <= total,
        t + total + 4 <= u64::MAX,
        cruising(m, v, now, due),
        0 <= t <= m.last_jog_at <= now,
        now <= t + total + 2,
        now <= t + SLICE_US + 2,
        total > SLICE_US ==> now <= t + SLICE_US,
    ensures
        punctual(m, now, sends(sleeping(axis, v, total), t), rounds),
    decreases total, t + total + 2 - now,
{
    let queue = sends(sleeping(axis, v, total), t);
    lemma_sends(axis, v, total, t);
    lemma_turn(m, v, now, due);
    let low = now + held(m, now);
    let up = low + m.drive(now)->wait_us;
    let due_next = if now == due {
        now + step_period(v as int)
    } else {
        due
    };
    if up < queue[0].at {
        let round = Round { at: up as u64, wake: Wake::Timer };
        let next = after_round(m, now, round);
        assert(up == due_next);
        assert(cruising(next, v, round.at, due_next));
        let rest = lemma_cruise_goes_on(next, round.at, axis, v, total, t, due_next);
        let rounds = seq![round] + rest;
        assert(rounds.skip(1) =~= rest);
        rounds
    } else {
        let at = if queue[0].at < low {
            low
        } else {
            queue[0].at
        } as u64;
        let round = Round { at, wake: Wake::Command { cmd: queue[0].cmd, at } };
        let next = after_round(m, now, round);
        if total > SLICE_US {
            assert(cruising(next, v, at, due_next));
            let rest = lemma_cruise_goes_on(
                next,
                at,
                axis,
                v,
                total - SLICE_US,
                t + SLICE_US,
                due_next,
            );
            let rounds = seq![round] + rest;
            assert(rounds.skip(1) =~= rest);
            rounds
        } else {
            let rounds = seq![round];
            assert(queue.skip(1).len() == 0);
            assert(rounds.skip(1) =~= Seq::<Round>::empty());
            assert(punctual(next, at, queue.skip(1), rounds.skip(1)));
            rounds
        }
    }
}

/// The time of a move holds its steps, each with its period.
proof fn lemma_time_holds_steps(steps: i32, hz: u32)
    requires
        0 < hz <= MAX_HZ,
    ensures
        step_period(hz as int) == 1_000_000int / hz as int,
        magnitude(steps as int) * step_period(hz as int) <= move_time(steps as int, hz as int),
        move_time(steps as int, hz as int) <= 2_147_483_648_000_000,
        1_000_000int % hz as int == 0 ==> move_time(steps as int, hz as int) == magnitude(
            steps as int,
        ) * step_period(hz as int),
{
    let n = magnitude(steps as int);
    let h = hz as int;
    let p = 1_000_000int / h;
    let total = n * 1_000_000;
    assert(p >= 25) by (nonlinear_arith)
        requires
            0 < h <= 40_000,
            p == 1_000_000int / h,
    ;
    vstd::arithmetic::div_mod::lemma_fundamental_div_mod(1_000_000, h);
    vstd::arithmetic::div_mod::lemma_fundamental_div_mod(total, h);
    let d = total / h;
    let over = 1_000_000int % h;
    assert(n * p <= d) by (nonlinear_arith)
        requires
            n >= 0,
            h > 0,
            1_000_000 == h * p + over,
            over >= 0,
            n * 1_000_000 == h * d + total % h,
            total % h < h,
    ;
    assert(over == 0 ==> d <= n * p) by (nonlinear_arith)
        requires
            n >= 0,
            h > 0,
            1_000_000 == h * p + over,
            n * 1_000_000 == h * d + total % h,
            total % h >= 0,
    ;
    assert(d <= total) by (nonlinear_arith)
        requires
            h >= 1,
            total >= 0,
            total == h * d + total % h,
            total % h >= 0,
    ;
}

// --------------------------------------------------------------------------
// Laws
// --------------------------------------------------------------------------

/// A move makes about as many steps as it is asked for. On a clock that keeps
/// every wait, an idle axis without a slew limit makes the steps of a move one
/// period apart, from a millisecond after its first jog, or from the end of the
/// period that an earlier step began, to its closing jog, and is then at rest.
/// The period is a whole number of microseconds. So:
///
/// - no more steps are missing than fit into the time before the first one;
/// - there are no more of them than periods begin in the time of the move;
/// - up to a thousand steps per second they differ from those asked for by one
///   at most, unless the parts of a microsecond that the periods leave out add
///   up to more than a period, which they never do where the period is exact.
pub proof fn moves_make_their_steps(
    m: Motion,
    at: u64,
    axis: usize,
    asked: i32,
    hz: u32,
    rounds: Seq<Round>,
)
    requires
        m.wf(),
        m.at_rest(),
        m.accel == 0,
        m.last_step_at matches Some(t) ==> t <= at,
        asked != 0,
        0 < hz <= MAX_HZ,
        ({
            let v = move_velocity(asked, hz);
            let jogged = after(m, Event::Idle { cmd: AxisCmd::Jog(v), at, slew_at: at });
            let total = move_time(asked as int, hz as int);
            punctual(jogged, at, sends(sleeping(axis, v, total), at as int), rounds)
        }),
    ensures
        ({
            let v = move_velocity(asked, hz);
            let jogged = after(m, Event::Idle { cmd: AxisCmd::Jog(v), at, slew_at: at });
            let made = pulses(jogged, at, rounds);
            let n = magnitude(asked as int);
            let period = step_period(hz as int);
            let total = move_time(asked as int, hz as int);
            &&& after_rounds(jogged, at, rounds).at_rest()
            &&& (n - made) * period <= (if period > 1000 {
                period
            } else {
                1000
            })
            &&& (made - 1) * period < total
            &&& hz <= 1000 && total <= (n + 1) * period ==> n - 1 <= made <= n + 1
            &&& hz <= 1000 && 1_000_000int % hz as int == 0 ==> n - 1 <= made <= n
        }),
{
    let v = move_velocity(asked, hz);
    let jogged = after(m, Event::Idle { cmd: AxisCmd::Jog(v), at, slew_at: at });
    let n = magnitude(asked as int);
    let p = step_period(hz as int);
    let total = move_time(asked as int, hz as int);
    let made = pulses(jogged, at, rounds) as int;
    let queue = sends(sleeping(axis, v, total), at as int);
    lemma_time_holds_steps(asked, hz);
    lemma_sends(axis, v, total, at as int);
    assert(step_period(v as int) == p);
    let round = rounds[0];
    let next = after_round(jogged, at, round);
    let rest = rounds.skip(1);
    let wait: int = if p > 1000 {
        p
    } else {
        1000
    };
    assert(jogged.drive(at)->wait_us == 1000);
    assert(made == pulses(next, round.at, rest));
    assert(after_rounds(jogged, at, rounds) == after_rounds(next, round.at, rest));
    assert((n - made) * p == n * p - made * p) by (nonlinear_arith);
    assert((made - 1) * p == made * p - p) by (nonlinear_arith);
    match round.wake {
        Wake::Timer => {
            let due = match m.last_step_at {
                Some(t) => if t + p > round.at {
                    t + p
                } else {
                    round.at as int
                },
                None => round.at as int,
            };
            assert(cruising(next, v, round.at, due));
            lemma_cruise(next, round.at, rest, axis, v, total, at as int, due);
        },
        Wake::Command { .. } => {
            assert(total <= 1000);
            assert(queue.skip(1).len() == 0);
            assert(punctual(next, round.at, queue.skip(1), rest));
            assert(rest.len() == 0);
            assert(made == 0);
        },
    }
    if hz <= 1000 {
        assert(p >= 1000) by (nonlinear_arith)
            requires
                0 < hz <= 1000,
                p == 1_000_000int / hz as int,
        ;
        assert(n - made <= 1) by (nonlinear_arith)
            requires
                (n - made) * p <= p,
                p > 0,
        ;
        if total <= (n + 1) * p {
            assert(made - 1 < n + 1) by (nonlinear_arith)
                requires
                    (made - 1) * p < (n + 1) * p,
                    p > 0,
            ;
        }
        if 1_000_000int % hz as int == 0 {
            assert(made - 1 < n) by (nonlinear_arith)
                requires
                    (made - 1) * p < n * p,
                    p > 0,
            ;
        }
    }
}

/// Every move of such an axis can keep to the clock.
pub proof fn moves_can_keep_to_the_clock(m: Motion, at: u64, axis: usize, asked: i32, hz: u32)
    requires
        m.wf(),
        m.at_rest(),
        m.accel == 0,
        m.last_step_at matches Some(t) ==> t <= at,
        asked != 0,
        0 < hz <= MAX_HZ,
        at + move_time(asked as int, hz as int) + 4 <= u64::MAX,
    ensures
        ({
            let v = move_velocity(asked, hz);
            let jogged = after(m, Event::Idle { cmd: AxisCmd::Jog(v), at, slew_at: at });
            let total = move_time(asked as int, hz as int);
            exists|rounds: Seq<Round>|
                punctual(jogged, at, sends(sleeping(axis, v, total), at as int), rounds)
        }),
{
    let v = move_velocity(asked, hz);
    let jogged = after(m, Event::Idle { cmd: AxisCmd::Jog(v), at, slew_at: at });
    let p = step_period(v as int);
    let total = move_time(asked as int, hz as int);
    let queue = sends(sleeping(axis, v, total), at as int);
    lemma_time_holds_steps(asked, hz);
    lemma_sends(axis, v, total, at as int);
    assert(jogged.drive(at)->wait_us == 1000);
    if at + 1000 <= queue[0].at {
        let round = Round { at: (at + 1000) as u64, wake: Wake::Timer };
        let next = after_round(jogged, at, round);
        let due = match m.last_step_at {
            Some(t) => if t + p > round.at {
                t + p
            } else {
                round.at as int
            },
            None => round.at as int,
        };
        assert(cruising(next, v, round.at, due));
        let rest = lemma_cruise_goes_on(next, round.at, axis, v, total, at as int, due);
        let rounds = seq![round] + rest;
        assert(rounds.skip(1) =~= rest);
        assert(punctual(jogged, at, queue, rounds));
    } else {
        let end = queue[0].at as u64;
        let round = Round { at: end, wake: Wake::Command { cmd: queue[0].cmd, at: end } };
        let next = after_round(jogged, at, round);
        let rounds = seq![round];
        assert(queue.skip(1).len() == 0);
        assert(rounds.skip(1) =~= Seq::<Round>::empty());
        assert(punctual(next, end, queue.skip(1), rounds.skip(1)));
        assert(punctual(jogged, at, queue, rounds));
    }
}

} // verus!
