//! The integrator: at every tick, the jogs that follow the sticks.
//!
//! A velocity that is not zero is sent again at every tick, which keeps the
//! deadman of the board fed; zero is sent once.

use crate::axis::{axis_index, axis_named, AxisCmd, AXES};
use crate::config::{clamped_poll_hz, poll_rate, AxisMap};
use crate::link::{axis_word, jog_command, jog_text, texts};
use crate::motion::{Motion, START_HZ, WATCHDOG_MS};
use vstd::prelude::*;
use vstd::seq_lib::group_to_multiset_ensures;

verus! {

/// Velocities are sent in multiples of this many steps per second.
pub const BUCKET: u32 = 25;

/// How many buckets a speed can have.
pub const MAX_BUCKETS: u32 = 171_798_691;

/// A velocity: a sign, and a number of steps per second.
#[derive(Clone, Copy, Debug, PartialEq, Eq, Structural)]
pub struct Speed {
    pub sign: i32,
    pub mag: u32,
}

/// Where a stick's velocity lies: below one step per second, or so many
/// buckets, rounded, to one side.
#[derive(Clone, Copy, Debug, PartialEq, Eq, Structural)]
pub struct Deflection {
    pub idle: bool,
    pub positive: bool,
    pub buckets: u32,
}

/// The velocity that a deflection stands for: none, or at least one bucket.
pub open spec fn speed_for(d: Deflection) -> Speed {
    if d.idle {
        Speed { sign: 0, mag: 0 }
    } else {
        Speed {
            sign: if d.positive {
                1i32
            } else {
                -1i32
            },
            mag: if d.buckets == 0 {
                BUCKET
            } else {
                (d.buckets * BUCKET) as u32
            },
        }
    }
}

impl Speed {
    /// At rest, or a whole number of buckets to one side.
    pub open spec fn wf(self) -> bool {
        ||| self.sign == 0 && self.mag == 0
        ||| (self.sign == 1 || self.sign == -1) && self.mag > 0 && self.mag % BUCKET == 0
    }

    /// The signed number that is sent: the speed, as far as the signed range
    /// goes.
    pub open spec fn signed(self) -> int {
        let m = if self.mag <= i32::MAX {
            self.mag as int
        } else {
            i32::MAX as int
        };
        if self.sign > 0 {
            m
        } else if self.sign < 0 {
            -m
        } else {
            0
        }
    }
}

/// Rounds a deflection to a velocity.
pub fn bucketed(d: Deflection) -> (r: Speed)
    requires
        d.buckets <= MAX_BUCKETS,
    ensures
        r == speed_for(d),
        r.wf(),
{
    if d.idle {
        return Speed { sign: 0, mag: 0 };
    }
    let sign: i32 = if d.positive {
        1
    } else {
        -1
    };
    let buckets: u32 = if d.buckets == 0 {
        1
    } else {
        d.buckets
    };
    Speed { sign, mag: buckets * BUCKET }
}

/// The signed number that is sent for a speed.
pub fn signed_hz(speed: Speed) -> (r: i32)
    requires
        speed.wf(),
    ensures
        r == speed.signed(),
{
    let m: i32 = if speed.mag > i32::MAX as u32 {
        i32::MAX
    } else {
        speed.mag as i32
    };
    if speed.sign == 0 {
        0
    } else if speed.sign > 0 {
        m
    } else {
        -m
    }
}

/// What was last sent to the axes of a board.
#[derive(Debug)]
pub struct Drive {
    pub last: [Speed; 4],
}

/// Whether a speed is sent, given what was sent before: unless both are none.
pub open spec fn due(last: Speed, speed: Speed) -> bool {
    speed.mag != 0 || last.mag != 0
}

/// What was last sent, after the first `n` sticks of a tick.
pub open spec fn last_after(
    last: Seq<Speed>,
    maps: Seq<AxisMap>,
    speeds: Seq<Speed>,
    n: int,
) -> Seq<Speed>
    decreases n,
{
    if n <= 0 {
        last
    } else {
        let before = last_after(last, maps, speeds, n - 1);
        match axis_named(maps[n - 1].target@) {
            Some(axis) => if due(before[axis], speeds[n - 1]) {
                before.update(axis, speeds[n - 1])
            } else {
                before
            },
            None => before,
        }
    }
}

/// What the first `n` sticks of a tick send.
pub open spec fn jogs(
    last: Seq<Speed>,
    maps: Seq<AxisMap>,
    speeds: Seq<Speed>,
    n: int,
) -> Seq<Seq<char>>
    decreases n,
{
    if n <= 0 {
        Seq::empty()
    } else {
        let before = last_after(last, maps, speeds, n - 1);
        let sent = jogs(last, maps, speeds, n - 1);
        match axis_named(maps[n - 1].target@) {
            Some(axis) => if due(before[axis], speeds[n - 1]) {
                sent.push(jog_text(axis, speeds[n - 1].signed()))
            } else {
                sent
            },
            None => sent,
        }
    }
}

/// The speeds that a tick goes by: those of the sticks, and none at all while
/// the joystick is away.
pub open spec fn heard(connected: bool, speeds: Seq<Speed>) -> Seq<Speed> {
    if connected {
        speeds
    } else {
        Seq::new(speeds.len(), |i: int| Speed { sign: 0, mag: 0 })
    }
}

/// Whether one of the sticks drives an axis.
pub open spec fn mapped(maps: Seq<AxisMap>, n: int, axis: int) -> bool {
    exists|i: int| 0 <= i < n && axis_named((#[trigger] maps[i]).target@) == Some(axis)
}

/// Whether a text stops an axis.
pub open spec fn is_stop(text: Seq<char>) -> bool {
    exists|axis: int| 0 <= axis < AXES && text == #[trigger] jog_text(axis, 0)
}

impl Drive {
    /// Nothing has been sent.
    pub fn new() -> (r: Drive)
        ensures
            r.last@ == Seq::new(AXES as nat, |i: int| Speed { sign: 0, mag: 0 }),
    {
        let none: Speed = Speed { sign: 0, mag: 0 };
        let d: Drive = Drive { last: [none, none, none, none] };
        assert(d.last@ =~= Seq::new(AXES as nat, |i: int| Speed { sign: 0, mag: 0 }));
        d
    }

    /// Takes the speed of one axis; returns the jog to send, if one is due.
    pub fn drive(&mut self, axis: usize, speed: Speed) -> (r: Option<String>)
        requires
            axis < AXES,
            speed.wf(),
        ensures
            r is Some <==> due(old(self).last@[axis as int], speed),
            r matches Some(text) ==> text@ == jog_text(axis as int, speed.signed()),
            final(self).last@ == (if due(old(self).last@[axis as int], speed) {
                old(self).last@.update(axis as int, speed)
            } else {
                old(self).last@
            }),
    {
        let prev: Speed = self.last[axis];
        if speed.mag == 0 && prev.mag == 0 {
            return None;
        }
        self.last[axis] = speed;
        Some(jog_command(axis, signed_hz(speed)))
    }

    /// One tick of a board: takes the speed of each of its sticks, in order,
    /// and whether the joystick is there; returns what to send.
    pub fn tick(&mut self, connected: bool, maps: &Vec<AxisMap>, speeds: &Vec<Speed>) -> (r: Vec<
        String,
    >)
        requires
            maps@.len() == speeds@.len(),
            forall|i: int| 0 <= i < speeds@.len() ==> (#[trigger] speeds@[i]).wf(),
        ensures
            final(self).last@ == last_after(
                old(self).last@,
                maps@,
                heard(connected, speeds@),
                maps@.len() as int,
            ),
            texts(r@) == jogs(
                old(self).last@,
                maps@,
                heard(connected, speeds@),
                maps@.len() as int,
            ),
    {
        let mut out: Vec<String> = Vec::new();
        let mut i: usize = 0;
        let ghost taken = heard(connected, speeds@);
        assert(texts(out@) =~= Seq::<Seq<char>>::empty());
        while i < maps.len()
            invariant
                i <= maps@.len(),
                maps@.len() == speeds@.len(),
                taken == heard(connected, speeds@),
                forall|j: int| 0 <= j < speeds@.len() ==> (#[trigger] speeds@[j]).wf(),
                self.last@ == last_after(old(self).last@, maps@, taken, i as int),
                texts(out@) == jogs(old(self).last@, maps@, taken, i as int),
            decreases maps.len() - i,
        {
            if let Some(axis) = axis_index(maps[i].target.as_str()) {
                let speed: Speed = if connected {
                    speeds[i]
                } else {
                    Speed { sign: 0, mag: 0 }
                };
                let ghost before = out@;
                if let Some(text) = self.drive(axis, speed) {
                    let ghost t = text@;
                    out.push(text);
                    assert(texts(out@) =~= texts(before).push(t));
                }
            }
            i += 1;
        }
        out
    }
}

/// The time from tick to tick at a rate, in nanoseconds.
pub open spec fn period_at(poll_hz: int) -> int {
    1_000_000_000int / poll_rate(poll_hz)
}

/// The time from tick to tick, in nanoseconds.
pub fn tick_period(poll_hz: u32) -> (r: u64)
    ensures
        r == period_at(poll_hz as int),
{
    1_000_000_000 / clamped_poll_hz(poll_hz) as u64
}

/// When a tick is, and how long it is until then.
#[derive(Clone, Copy, Debug, PartialEq, Eq, Structural)]
pub struct Pace {
    pub next: u64,
    pub wait: u64,
}

/// The tick after the one at `last`: a period later, or now if that has
/// passed.
pub open spec fn paced(last: int, period: int, now: int) -> int {
    if last + period > now {
        last + period
    } else {
        now
    }
}

/// Decides when the tick after the one at `last` is. Times are in nanoseconds.
pub fn pace(last: u64, period: u64, now: u64) -> (r: Pace)
    requires
        last + period <= u64::MAX,
    ensures
        r.next == paced(last as int, period as int, now as int),
        r.wait == r.next - now,
{
    let next: u64 = last + period;
    if next > now {
        Pace { next, wait: next - now }
    } else {
        Pace { next: now, wait: 0 }
    }
}

// --------------------------------------------------------------------------
// Laws
// --------------------------------------------------------------------------

/// A stick that is held is heard at every tick: a speed that is not zero is
/// sent whatever was sent before.
pub proof fn held_sticks_are_resent(last: Speed, speed: Speed)
    requires
        speed.mag != 0,
    ensures
        due(last, speed),
{
}

/// A stick that is let go stops its axis: zero is sent after any other speed,
/// and not again.
pub proof fn zero_is_sent_once(last: Speed, zero: Speed)
    requires
        zero.mag == 0,
    ensures
        last.mag != 0 ==> due(last, zero),
        zero.wf() ==> zero.signed() == 0,
        !due(zero, zero),
{
}

/// A joystick that is lost stops what it drives, whatever its sticks were last
/// seen at: the tick that finds it away sends `jog 0` once to each axis that a
/// stick drives and whose last speed was not zero, and sends nothing else; the
/// ticks after that send nothing.
pub proof fn lost_sticks_stop_once(
    last: Seq<Speed>,
    maps: Seq<AxisMap>,
    speeds: Seq<Speed>,
    later: Seq<Speed>,
)
    requires
        last.len() == AXES,
        maps.len() == speeds.len(),
        maps.len() == later.len(),
    ensures
        ({
            let n = maps.len() as int;
            let sent = jogs(last, maps, heard(false, speeds), n);
            let after = last_after(last, maps, heard(false, speeds), n);
            &&& forall|axis: int|
                0 <= axis < AXES ==> sent.to_multiset().count(#[trigger] jog_text(axis, 0)) == (
                if mapped(maps, n, axis) && last[axis].mag != 0 {
                    1nat
                } else {
                    0nat
                })
            &&& forall|k: int| 0 <= k < sent.len() ==> is_stop(#[trigger] sent[k])
            &&& jogs(after, maps, heard(false, later), n) == Seq::<Seq<char>>::empty()
            &&& last_after(after, maps, heard(false, later), n) == after
        }),
{
    let n = maps.len() as int;
    lemma_lost(last, maps, speeds, n);
    let after = last_after(last, maps, heard(false, speeds), n);
    assert forall|i: int| 0 <= i < n implies (axis_named((#[trigger] maps[i]).target@) matches Some(
        axis,
    ) ==> after[axis].mag == 0) by {
        if let Some(axis) = axis_named(maps[i].target@) {
            assert(mapped(maps, n, axis));
        }
    }
    lemma_silent(after, maps, later, n);
}

proof fn lemma_lost(last: Seq<Speed>, maps: Seq<AxisMap>, speeds: Seq<Speed>, n: int)
    requires
        last.len() == AXES,
        maps.len() == speeds.len(),
        0 <= n <= maps.len(),
    ensures
        ({
            let sent = jogs(last, maps, heard(false, speeds), n);
            let after = last_after(last, maps, heard(false, speeds), n);
            &&& after.len() == AXES
            &&& forall|axis: int|
                0 <= axis < AXES ==> (#[trigger] after[axis]).mag == (if mapped(maps, n, axis) {
                    0
                } else {
                    last[axis].mag
                })
            &&& forall|axis: int|
                0 <= axis < AXES ==> sent.to_multiset().count(#[trigger] jog_text(axis, 0)) == (
                if mapped(maps, n, axis) && last[axis].mag != 0 {
                    1nat
                } else {
                    0nat
                })
            &&& forall|k: int| 0 <= k < sent.len() ==> is_stop(#[trigger] sent[k])
        }),
    decreases n,
{
    broadcast use group_to_multiset_ensures;

    if n > 0 {
        lemma_lost(last, maps, speeds, n - 1);
        let zeros = heard(false, speeds);
        let sent = jogs(last, maps, zeros, n - 1);
        let before = last_after(last, maps, zeros, n - 1);
        let named = axis_named(maps[n - 1].target@);
        assert forall|axis: int| mapped(maps, n, axis) == (mapped(maps, n - 1, axis) || named
            == Some(axis)) by {
            if named == Some(axis) {
                assert(axis_named(maps[n - 1].target@) == Some(axis));
            }
        }
        if let Some(axis) = named {
            if before[axis].mag != 0 {
                let text = jog_text(axis, 0);
                let more = sent.push(text);
                assert(jogs(last, maps, zeros, n) == more);
                assert forall|other: int| 0 <= other < AXES implies more.to_multiset().count(
                    #[trigger] jog_text(other, 0),
                ) == sent.to_multiset().count(jog_text(other, 0)) + (if other == axis {
                    1nat
                } else {
                    0nat
                }) by {
                    if other != axis {
                        zero_jogs_differ(other, axis);
                    }
                }
                assert forall|k: int| 0 <= k < more.len() implies is_stop(#[trigger] more[k]) by {
                    if k < sent.len() {
                        assert(more[k] == sent[k]);
                    }
                }
            }
        }
    }
}

/// Where every axis that a stick drives is at rest, a tick with the joystick
/// away sends nothing.
proof fn lemma_silent(last: Seq<Speed>, maps: Seq<AxisMap>, speeds: Seq<Speed>, n: int)
    requires
        maps.len() == speeds.len(),
        0 <= n <= maps.len(),
        forall|i: int|
            0 <= i < n ==> (axis_named((#[trigger] maps[i]).target@) matches Some(axis)
                ==> last[axis].mag == 0),
    ensures
        jogs(last, maps, heard(false, speeds), n) == Seq::<Seq<char>>::empty(),
        last_after(last, maps, heard(false, speeds), n) == last,
    decreases n,
{
    if n > 0 {
        lemma_silent(last, maps, speeds, n - 1);
        assert(axis_named(maps[n - 1].target@) matches Some(axis) ==> last[axis].mag == 0);
    }
}

proof fn zero_jogs_differ(a: int, b: int)
    requires
        0 <= a < AXES,
        0 <= b < AXES,
        a != b,
    ensures
        jog_text(a, 0) != jog_text(b, 0),
{
    reveal_strlit("jog ");
    reveal_strlit("x");
    reveal_strlit("y");
    reveal_strlit("z");
    reveal_strlit("e");
    assert(jog_text(a, 0)[4] == axis_word(a)[0]);
    assert(jog_text(b, 0)[4] == axis_word(b)[0]);
}

/// Polling keeps a schedule: a tick that is reached in time is one period
/// after the one before it. One that is reached late is at once, and the next
/// is due one period after it, so that a delay is never followed by another.
pub proof fn ticks_keep_their_period(last: int, period: int, now: int, then: int)
    requires
        period > 0,
    ensures
        now <= last + period ==> paced(last, period, now) == last + period,
        now > last + period ==> paced(last, period, now) == now,
        ({
            let tick = paced(last, period, now);
            &&& tick - last >= period
            &&& then <= tick + period ==> paced(tick, period, then) == tick + period
        }),
{
}

/// Polling feeds the deadman, whatever rate is asked for. An axis that got its
/// jog at the tick at `last` gets the next one before the deadman is due, if
/// that tick is reached in time, and even if it is late by a whole period. The
/// jogs are taken to reach the board as far apart as the ticks were.
pub proof fn polling_feeds_the_deadman(
    poll_hz: u32,
    last: int,
    now: int,
    m: Motion,
    hz: i32,
    at: u64,
    again_at: u64,
)
    requires
        now <= last + 2 * period_at(poll_hz as int),
        again_at - at <= (paced(last, period_at(poll_hz as int), now) - last) / 1000,
    ensures
        2 * period_at(poll_hz as int) <= WATCHDOG_MS * 1_000_000,
        !m.applied(AxisCmd::Jog(hz), at).overdue(again_at),
{
    let rate = poll_rate(poll_hz as int);
    assert(1_000_000_000int / rate <= 100_000_000) by (nonlinear_arith)
        requires
            10 <= rate,
    ;
}

/// Every speed is a whole number of buckets, and one that is not zero is
/// faster than the rate at which a board's ramps start.
pub proof fn speeds_are_bucketed(d: Deflection)
    requires
        d.buckets <= MAX_BUCKETS,
    ensures
        speed_for(d).mag % BUCKET == 0,
        !d.idle ==> speed_for(d).mag > START_HZ,
        d.idle <==> speed_for(d).mag == 0,
{
}

/// A stick's velocity is sent to the nearest 25 steps per second, in the
/// direction of the stick: as many times 25 as there are buckets, and once 25
/// where there is less, unless the stick is idle.
pub proof fn speeds_follow_the_stick(d: Deflection)
    requires
        d.buckets * 25 <= u32::MAX,
    ensures
        d.idle ==> speed_for(d).sign == 0 && speed_for(d).mag == 0,
        !d.idle ==> speed_for(d).sign == (if d.positive {
            1int
        } else {
            -1
        }),
        !d.idle && d.buckets > 0 ==> speed_for(d).mag == d.buckets * 25,
        !d.idle && d.buckets == 0 ==> speed_for(d).mag == 25,
{
}

/// A speed is sent as its magnitude, with a minus sign for the negative side;
/// one that a signed number does not hold is sent as the largest.
pub proof fn speeds_are_sent_signed(speed: Speed)
    requires
        speed.wf(),
    ensures
        speed.mag <= 0x7fff_ffff && speed.sign > 0 ==> speed.signed() == speed.mag,
        speed.mag <= 0x7fff_ffff && speed.sign < 0 ==> speed.signed() == -(speed.mag as int),
        speed.mag > 0x7fff_ffff && speed.sign > 0 ==> speed.signed() == 0x7fff_ffff,
        speed.mag > 0x7fff_ffff && speed.sign < 0 ==> speed.signed() == -0x7fff_ffff,
        speed.mag == 0 ==> speed.signed() == 0,
{
}

proof fn lemma_ticks_of_a_prefix(
    last: Seq<Speed>,
    maps: Seq<AxisMap>,
    speeds: Seq<Speed>,
    map: AxisMap,
    speed: Speed,
    n: int,
)
    requires
        maps.len() == speeds.len(),
        0 <= n <= maps.len(),
    ensures
        last_after(last, maps.push(map), speeds.push(speed), n) == last_after(
            last,
            maps,
            speeds,
            n,
        ),
        jogs(last, maps.push(map), speeds.push(speed), n) == jogs(last, maps, speeds, n),
    decreases n,
{
    if n > 0 {
        lemma_ticks_of_a_prefix(last, maps, speeds, map, speed, n - 1);
        assert(maps.push(map)[n - 1] == maps[n - 1]);
        assert(speeds.push(speed)[n - 1] == speeds[n - 1]);
    }
}

/// A tick goes through the sticks one by one. A stick more sends one jog more,
/// to the axis that it drives and of its speed, and that is then what was last
/// sent to the axis; unless both it and what was last sent are at rest, or it
/// drives no axis. A tick without sticks sends nothing.
pub proof fn sticks_send_in_turn(
    last: Seq<Speed>,
    maps: Seq<AxisMap>,
    speeds: Seq<Speed>,
    map: AxisMap,
    speed: Speed,
)
    requires
        maps.len() == speeds.len(),
    ensures
        ({
            let n = maps.len() as int;
            let sent = jogs(last, maps, speeds, n);
            let known = last_after(last, maps, speeds, n);
            let sent_more = jogs(last, maps.push(map), speeds.push(speed), n + 1);
            let known_more = last_after(last, maps.push(map), speeds.push(speed), n + 1);
            &&& jogs(last, Seq::empty(), Seq::empty(), 0) == Seq::<Seq<char>>::empty()
            &&& last_after(last, Seq::empty(), Seq::empty(), 0) == last
            &&& match axis_named(map.target@) {
                Some(axis) => if speed.mag == 0 && known[axis].mag == 0 {
                    sent_more == sent && known_more == known
                } else {
                    &&& sent_more == sent.push(jog_text(axis, speed.signed()))
                    &&& known_more == known.update(axis, speed)
                },
                None => sent_more == sent && known_more == known,
            }
        }),
{
    let n = maps.len() as int;
    lemma_ticks_of_a_prefix(last, maps, speeds, map, speed, n);
    assert(maps.push(map)[n] == map);
    assert(speeds.push(speed)[n] == speed);
}

/// A tick goes by the sticks as they are while the joystick is there.
pub proof fn present_sticks_are_heard(speeds: Seq<Speed>)
    ensures
        heard(true, speeds) == speeds,
{
}

/// There are as many ticks in a second as the polling rate says: the period is
/// a second over the rate, in whole nanoseconds.
pub proof fn periods_match_the_rate(poll_hz: int, rate: int)
    requires
        10 <= rate <= 200,
        10 <= poll_hz <= 200 ==> rate == poll_hz,
        poll_hz < 10 ==> rate == 10,
        poll_hz > 200 ==> rate == 200,
    ensures
        period_at(poll_hz) * rate <= 1_000_000_000 < (period_at(poll_hz) + 1) * rate,
{
    let p = period_at(poll_hz);
    vstd::arithmetic::div_mod::lemma_fundamental_div_mod(1_000_000_000, rate);
    assert(p * rate <= 1_000_000_000 < (p + 1) * rate) by (nonlinear_arith)
        requires
            rate > 0,
            1_000_000_000 == rate * p + 1_000_000_000int % rate,
            0 <= 1_000_000_000int % rate < rate,
    ;
}

} // verus!
