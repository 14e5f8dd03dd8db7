//! The command language of the firmware: what a line asks for, or why it is
//! refused. Words behind the last one that a command takes are ignored.

use crate::axis::{axis_named, axis_of, AXES};
use crate::board::{FANS, MAX_SERVO_US, SERVOS};
use crate::motion::MAX_HZ;
use crate::text::{
    digits_count_by_place, numerals_are_read, parse_int, read_i32, read_u16, read_u32, read_u8,
    read_usize, same, split_words, word_views, words,
};
use crate::tmc::{microsteps_to_mres, mres, TmcCfg};
use vstd::prelude::*;

verus! {

/// The axes that a command is for.
#[derive(Clone, Copy, Debug, PartialEq, Eq, Structural)]
pub enum Target {
    All,
    /// One axis, and the letter that named it.
    Axis { axis: usize, letter: char },
}

/// Why a line is refused.
#[derive(Clone, Copy, Debug, PartialEq, Eq, Structural)]
pub enum Refusal {
    EnableUsage,
    AccelUsage,
    TmcUsage,
    JogUsage,
    MoveUsage,
    FanUsage,
    ServoUsage,
    UnknownAxis,
    BadAccel,
    BadNumber,
    BadMicrosteps,
    BadHz,
    BadSteps,
    BadFan,
    FanRange,
    BadFanState,
    BadServo,
    ServoRange,
    BadPulse,
    UnknownCommand,
}

/// What a line asks for.
#[derive(Clone, Copy, Debug, PartialEq, Eq, Structural)]
pub enum Request {
    /// A line without words.
    Nothing,
    Help,
    Version,
    Status,
    Enable { target: Target, on: bool },
    Accel { target: Target, accel: u32 },
    Tmc { cfg: TmcCfg },
    Jog { axis: usize, hz: i32 },
    Move { axis: usize, steps: i32, hz: u32 },
    Fan { fan: usize, on: bool },
    Servo { servo: usize, us: u16 },
    Refused { why: Refusal },
}

pub open spec fn refused(why: Refusal) -> Request {
    Request::Refused { why }
}

/// The axes that a word names: all of them, or one.
pub open spec fn target_named(word: Seq<char>) -> Option<Target> {
    if word == "all"@ {
        Some(Target::All)
    } else {
        match axis_named(word) {
            Some(a) => Some(Target::Axis { axis: a as usize, letter: word[0] }),
            None => None,
        }
    }
}

pub open spec fn enable_request(w: Seq<Seq<char>>, on: bool) -> Request {
    if w.len() < 2 {
        refused(Refusal::EnableUsage)
    } else {
        match target_named(w[1]) {
            Some(target) => Request::Enable { target, on },
            None => refused(Refusal::UnknownAxis),
        }
    }
}

pub open spec fn accel_request(w: Seq<Seq<char>>) -> Request {
    if w.len() < 3 {
        refused(Refusal::AccelUsage)
    } else if parse_int(w[2], 0, u32::MAX as int) is None {
        refused(Refusal::BadAccel)
    } else {
        match target_named(w[1]) {
            Some(target) => Request::Accel {
                target,
                accel: parse_int(w[2], 0, u32::MAX as int)->0 as u32,
            },
            None => refused(Refusal::UnknownAxis),
        }
    }
}

/// The words that switch a driver option on; any other word switches it off.
pub open spec fn says_yes(word: Seq<char>) -> bool {
    word == "1"@ || word == "true"@ || word == "on"@ || word == "yes"@
}

pub open spec fn tmc_request(w: Seq<Seq<char>>) -> Request {
    if w.len() < 8 {
        refused(Refusal::TmcUsage)
    } else if axis_named(w[1]) is None {
        refused(Refusal::UnknownAxis)
    } else {
        let ms = parse_int(w[2], 0, u16::MAX as int);
        let run = parse_int(w[3], 0, u32::MAX as int);
        let hold = parse_int(w[4], 0, u32::MAX as int);
        let delay = parse_int(w[5], 0, u8::MAX as int);
        if ms is None || run is None || hold is None || delay is None {
            refused(Refusal::BadNumber)
        } else if mres(ms->0) is None {
            refused(Refusal::BadMicrosteps)
        } else {
            Request::Tmc {
                cfg: TmcCfg {
                    axis: axis_named(w[1])->0 as u8,
                    microsteps: ms->0 as u16,
                    run_ma: run->0 as u32,
                    hold_ma: hold->0 as u32,
                    hold_delay: delay->0 as u8,
                    spreadcycle: says_yes(w[6]),
                    interpolate: says_yes(w[7]),
                },
            }
        }
    }
}

/// `v`, or the nearer of the two bounds.
pub open spec fn clamped(v: int, lo: int, hi: int) -> int {
    if v < lo {
        lo
    } else if v > hi {
        hi
    } else {
        v
    }
}

pub open spec fn jog_request(w: Seq<Seq<char>>) -> Request {
    if w.len() < 3 {
        refused(Refusal::JogUsage)
    } else if axis_named(w[1]) is None {
        refused(Refusal::UnknownAxis)
    } else {
        match parse_int(w[2], i32::MIN as int, i32::MAX as int) {
            Some(hz) => Request::Jog {
                axis: axis_named(w[1])->0 as usize,
                hz: clamped(hz, -(MAX_HZ as int), MAX_HZ as int) as i32,
            },
            None => refused(Refusal::BadHz),
        }
    }
}

/// The step rate of a move: the fourth word, or a default. A rate that is
/// given must be positive, and is cut to what the axes take.
pub open spec fn move_rate(w: Seq<Seq<char>>) -> Option<int> {
    if w.len() < 4 {
        Some(1000)
    } else {
        match parse_int(w[3], 0, u32::MAX as int) {
            Some(v) => if v > 0 {
                Some(clamped(v, 1, MAX_HZ as int))
            } else {
                None
            },
            None => None,
        }
    }
}

pub open spec fn move_request(w: Seq<Seq<char>>) -> Request {
    if w.len() < 3 {
        refused(Refusal::MoveUsage)
    } else if axis_named(w[1]) is None {
        refused(Refusal::UnknownAxis)
    } else {
        match parse_int(w[2], i32::MIN as int, i32::MAX as int) {
            Some(steps) => match move_rate(w) {
                Some(hz) => Request::Move {
                    axis: axis_named(w[1])->0 as usize,
                    steps: steps as i32,
                    hz: hz as u32,
                },
                None => refused(Refusal::BadHz),
            },
            None => refused(Refusal::BadSteps),
        }
    }
}

/// The state that a word gives a fan.
pub open spec fn fan_state(word: Seq<char>) -> Option<bool> {
    if word == "on"@ || word == "1"@ || word == "ON"@ {
        Some(true)
    } else if word == "off"@ || word == "0"@ || word == "OFF"@ {
        Some(false)
    } else {
        None
    }
}

pub open spec fn fan_request(w: Seq<Seq<char>>) -> Request {
    if w.len() < 3 {
        refused(Refusal::FanUsage)
    } else {
        match parse_int(w[1], 0, usize::MAX as int) {
            None => refused(Refusal::BadFan),
            Some(fan) => if fan >= FANS {
                refused(Refusal::FanRange)
            } else {
                match fan_state(w[2]) {
                    Some(on) => Request::Fan { fan: fan as usize, on },
                    None => refused(Refusal::BadFanState),
                }
            },
        }
    }
}

/// The pulse width that a word gives a servo.
pub open spec fn pulse_width(word: Seq<char>) -> Option<int> {
    if word == "off"@ || word == "OFF"@ || word == "0"@ {
        Some(0)
    } else {
        match parse_int(word, 0, u16::MAX as int) {
            Some(v) => Some(clamped(v, 0, MAX_SERVO_US as int)),
            None => None,
        }
    }
}

pub open spec fn servo_request(w: Seq<Seq<char>>) -> Request {
    if w.len() < 3 {
        refused(Refusal::ServoUsage)
    } else {
        match parse_int(w[1], 0, usize::MAX as int) {
            None => refused(Refusal::BadServo),
            Some(servo) => if servo >= SERVOS {
                refused(Refusal::ServoRange)
            } else {
                match pulse_width(w[2]) {
                    Some(us) => Request::Servo { servo: servo as usize, us: us as u16 },
                    None => refused(Refusal::BadPulse),
                }
            },
        }
    }
}

/// What a line of words asks for.
pub open spec fn request(w: Seq<Seq<char>>) -> Request {
    if w.len() == 0 {
        Request::Nothing
    } else if w[0] == "help"@ || w[0] == "?"@ {
        Request::Help
    } else if w[0] == "version"@ || w[0] == "ver"@ {
        Request::Version
    } else if w[0] == "status"@ {
        Request::Status
    } else if w[0] == "enable"@ {
        enable_request(w, true)
    } else if w[0] == "disable"@ {
        enable_request(w, false)
    } else if w[0] == "accel"@ {
        accel_request(w)
    } else if w[0] == "tmc"@ {
        tmc_request(w)
    } else if w[0] == "jog"@ {
        jog_request(w)
    } else if w[0] == "move"@ {
        move_request(w)
    } else if w[0] == "fan"@ {
        fan_request(w)
    } else if w[0] == "servo"@ {
        servo_request(w)
    } else {
        refused(Refusal::UnknownCommand)
    }
}

impl Request {
    /// What every request that comes out of a line satisfies.
    pub open spec fn wf(self) -> bool {
        match self {
            Request::Enable { target, .. } => target.wf(),
            Request::Accel { target, .. } => target.wf(),
            Request::Tmc { cfg } => crate::tmc::configurable(cfg),
            Request::Jog { axis, hz } => axis < AXES && -(MAX_HZ as int) <= hz <= MAX_HZ,
            Request::Move { axis, hz, .. } => axis < AXES && 0 < hz <= MAX_HZ,
            Request::Fan { fan, .. } => fan < FANS,
            Request::Servo { servo, us } => servo < SERVOS && us <= MAX_SERVO_US,
            _ => true,
        }
    }
}

impl Target {
    /// One of the axes, named by a letter of its own.
    pub open spec fn wf(self) -> bool {
        self matches Target::Axis { axis, letter } ==> axis < AXES && axis_named(seq![letter])
            == Some(axis as int)
    }
}

/// A word that names an axis is one letter.
proof fn lemma_axis_names(word: Seq<char>)
    requires
        axis_named(word) is Some,
    ensures
        word == seq![word[0]],
        0 <= axis_named(word)->0 < AXES,
{
    reveal_strlit("x");
    reveal_strlit("X");
    reveal_strlit("y");
    reveal_strlit("Y");
    reveal_strlit("z");
    reveal_strlit("Z");
    reveal_strlit("e");
    reveal_strlit("E");
    assert(word =~= seq![word[0]]);
}

/// Every request that comes out of a line names outputs that exist, rates
/// that the axes take, and pulses that the servos take.
pub proof fn requests_are_sound(w: Seq<Seq<char>>)
    ensures
        request(w).wf(),
{
    if w.len() > 1 && axis_named(w[1]) is Some {
        lemma_axis_names(w[1]);
    }
}

/// Reads the axes that a word names.
pub fn parse_target(word: &Vec<char>) -> (r: Option<Target>)
    ensures
        r == target_named(word@),
{
    if same(word, "all") {
        Some(Target::All)
    } else {
        match axis_of(word) {
            Some(axis) => {
                proof {
                    lemma_axis_names(word@);
                }
                Some(Target::Axis { axis, letter: word[0] })
            },
            None => None,
        }
    }
}

fn parse_enable(w: &Vec<Vec<char>>, on: bool) -> (r: Request)
    ensures
        r == enable_request(word_views(w@), on),
{
    if w.len() < 2 {
        return Request::Refused { why: Refusal::EnableUsage };
    }
    match parse_target(&w[1]) {
        Some(target) => Request::Enable { target, on },
        None => Request::Refused { why: Refusal::UnknownAxis },
    }
}

fn parse_accel(w: &Vec<Vec<char>>) -> (r: Request)
    ensures
        r == accel_request(word_views(w@)),
{
    if w.len() < 3 {
        return Request::Refused { why: Refusal::AccelUsage };
    }
    match read_u32(&w[2]) {
        None => Request::Refused { why: Refusal::BadAccel },
        Some(accel) => match parse_target(&w[1]) {
            Some(target) => Request::Accel { target, accel },
            None => Request::Refused { why: Refusal::UnknownAxis },
        },
    }
}

fn parse_yes(word: &Vec<char>) -> (r: bool)
    ensures
        r == says_yes(word@),
{
    same(word, "1") || same(word, "true") || same(word, "on") || same(word, "yes")
}

fn parse_tmc(w: &Vec<Vec<char>>) -> (r: Request)
    ensures
        r == tmc_request(word_views(w@)),
{
    if w.len() < 8 {
        return Request::Refused { why: Refusal::TmcUsage };
    }
    let axis: usize = match axis_of(&w[1]) {
        Some(axis) => axis,
        None => {
            return Request::Refused { why: Refusal::UnknownAxis };
        },
    };
    match (read_u16(&w[2]), read_u32(&w[3]), read_u32(&w[4]), read_u8(&w[5])) {
        (Some(ms), Some(run_ma), Some(hold_ma), Some(hold_delay)) => {
            if microsteps_to_mres(ms).is_none() {
                return Request::Refused { why: Refusal::BadMicrosteps };
            }
            Request::Tmc {
                cfg: TmcCfg {
                    axis: axis as u8,
                    microsteps: ms,
                    run_ma,
                    hold_ma,
                    hold_delay,
                    spreadcycle: parse_yes(&w[6]),
                    interpolate: parse_yes(&w[7]),
                },
            }
        },
        _ => Request::Refused { why: Refusal::BadNumber },
    }
}

fn parse_jog(w: &Vec<Vec<char>>) -> (r: Request)
    ensures
        r == jog_request(word_views(w@)),
{
    if w.len() < 3 {
        return Request::Refused { why: Refusal::JogUsage };
    }
    let axis: usize = match axis_of(&w[1]) {
        Some(axis) => axis,
        None => {
            return Request::Refused { why: Refusal::UnknownAxis };
        },
    };
    match read_i32(&w[2]) {
        Some(hz) => {
            let max: i32 = MAX_HZ as i32;
            let hz: i32 = if hz < -max {
                -max
            } else if hz > max {
                max
            } else {
                hz
            };
            Request::Jog { axis, hz }
        },
        None => Request::Refused { why: Refusal::BadHz },
    }
}

fn parse_move(w: &Vec<Vec<char>>) -> (r: Request)
    ensures
        r == move_request(word_views(w@)),
{
    if w.len() < 3 {
        return Request::Refused { why: Refusal::MoveUsage };
    }
    let axis: usize = match axis_of(&w[1]) {
        Some(axis) => axis,
        None => {
            return Request::Refused { why: Refusal::UnknownAxis };
        },
    };
    let steps: i32 = match read_i32(&w[2]) {
        Some(steps) => steps,
        None => {
            return Request::Refused { why: Refusal::BadSteps };
        },
    };
    if w.len() < 4 {
        return Request::Move { axis, steps, hz: 1000 };
    }
    match read_u32(&w[3]) {
        Some(v) => {
            if v == 0 {
                Request::Refused { why: Refusal::BadHz }
            } else {
                let hz: u32 = if v > MAX_HZ {
                    MAX_HZ
                } else {
                    v
                };
                Request::Move { axis, steps, hz }
            }
        },
        None => Request::Refused { why: Refusal::BadHz },
    }
}

fn parse_fan(w: &Vec<Vec<char>>) -> (r: Request)
    ensures
        r == fan_request(word_views(w@)),
{
    if w.len() < 3 {
        return Request::Refused { why: Refusal::FanUsage };
    }
    let fan: usize = match read_usize(&w[1]) {
        Some(fan) => fan,
        None => {
            return Request::Refused { why: Refusal::BadFan };
        },
    };
    if fan >= FANS {
        return Request::Refused { why: Refusal::FanRange };
    }
    if same(&w[2], "on") || same(&w[2], "1") || same(&w[2], "ON") {
        Request::Fan { fan, on: true }
    } else if same(&w[2], "off") || same(&w[2], "0") || same(&w[2], "OFF") {
        Request::Fan { fan, on: false }
    } else {
        Request::Refused { why: Refusal::BadFanState }
    }
}

fn parse_servo(w: &Vec<Vec<char>>) -> (r: Request)
    ensures
        r == servo_request(word_views(w@)),
{
    if w.len() < 3 {
        return Request::Refused { why: Refusal::ServoUsage };
    }
    let servo: usize = match read_usize(&w[1]) {
        Some(servo) => servo,
        None => {
            return Request::Refused { why: Refusal::BadServo };
        },
    };
    if servo >= SERVOS {
        return Request::Refused { why: Refusal::ServoRange };
    }
    if same(&w[2], "off") || same(&w[2], "OFF") || same(&w[2], "0") {
        return Request::Servo { servo, us: 0 };
    }
    match read_u16(&w[2]) {
        Some(v) => {
            let us: u16 = if v > MAX_SERVO_US {
                MAX_SERVO_US
            } else {
                v
            };
            Request::Servo { servo, us }
        },
        None => Request::Refused { why: Refusal::BadPulse },
    }
}

/// Reads a command line.
pub fn parse_request(line: &str) -> (r: Request)
    ensures
        r == request(words(line@)),
        r.wf(),
{
    let w: Vec<Vec<char>> = split_words(line);
    proof {
        requests_are_sound(words(line@));
    }
    if w.len() == 0 {
        return Request::Nothing;
    }
    let cmd: &Vec<char> = &w[0];
    if same(cmd, "help") || same(cmd, "?") {
        Request::Help
    } else if same(cmd, "version") || same(cmd, "ver") {
        Request::Version
    } else if same(cmd, "status") {
        Request::Status
    } else if same(cmd, "enable") {
        parse_enable(&w, true)
    } else if same(cmd, "disable") {
        parse_enable(&w, false)
    } else if same(cmd, "accel") {
        parse_accel(&w)
    } else if same(cmd, "tmc") {
        parse_tmc(&w)
    } else if same(cmd, "jog") {
        parse_jog(&w)
    } else if same(cmd, "move") {
        parse_move(&w)
    } else if same(cmd, "fan") {
        parse_fan(&w)
    } else if same(cmd, "servo") {
        parse_servo(&w)
    } else {
        Request::Refused { why: Refusal::UnknownCommand }
    }
}

// --------------------------------------------------------------------------
// Laws
// --------------------------------------------------------------------------

/// Each command is known by a word of its own.
proof fn lemma_dispatch(w: Seq<Seq<char>>)
    requires
        w.len() > 0,
    ensures
        w[0] == "help"@ || w[0] == "?"@ ==> request(w) is Help,
        w[0] == "version"@ || w[0] == "ver"@ ==> request(w) is Version,
        w[0] == "status"@ ==> request(w) is Status,
        w[0] == "enable"@ ==> request(w) == enable_request(w, true),
        w[0] == "disable"@ ==> request(w) == enable_request(w, false),
        w[0] == "accel"@ ==> request(w) == accel_request(w),
        w[0] == "tmc"@ ==> request(w) == tmc_request(w),
        w[0] == "jog"@ ==> request(w) == jog_request(w),
        w[0] == "move"@ ==> request(w) == move_request(w),
        w[0] == "fan"@ ==> request(w) == fan_request(w),
        w[0] == "servo"@ ==> request(w) == servo_request(w),
{
    reveal_strlit("help");
    reveal_strlit("?");
    reveal_strlit("version");
    reveal_strlit("ver");
    reveal_strlit("status");
    reveal_strlit("enable");
    reveal_strlit("disable");
    reveal_strlit("accel");
    reveal_strlit("tmc");
    reveal_strlit("jog");
    reveal_strlit("move");
    reveal_strlit("fan");
    reveal_strlit("servo");
    assert("help"@[0] == 'h' && "?"@[0] == '?' && "version"@[0] == 'v' && "ver"@[0] == 'v');
    assert("status"@[0] == 's' && "enable"@[0] == 'e' && "disable"@[0] == 'd');
    assert("accel"@[0] == 'a' && "tmc"@[0] == 't' && "jog"@[0] == 'j' && "move"@[0] == 'm');
    assert("fan"@[0] == 'f' && "servo"@[0] == 's');
    assert("servo"@[1] == 'e' && "status"@[1] == 't');
}

/// The commands without arguments are known by their first word alone; a line
/// without words asks for nothing, and one with another first word is refused.
pub proof fn plain_commands_are_known(w: Seq<Seq<char>>)
    ensures
        w.len() == 0 ==> request(w) is Nothing,
        w.len() > 0 && (w[0] == "help"@ || w[0] == "?"@) ==> request(w) is Help,
        w.len() > 0 && (w[0] == "version"@ || w[0] == "ver"@) ==> request(w) is Version,
        w.len() > 0 && w[0] == "status"@ ==> request(w) is Status,
        w.len() > 0 && w[0] != "help"@ && w[0] != "?"@ && w[0] != "version"@ && w[0] != "ver"@
            && w[0] != "status"@ && w[0] != "enable"@ && w[0] != "disable"@ && w[0] != "accel"@
            && w[0] != "tmc"@ && w[0] != "jog"@ && w[0] != "move"@ && w[0] != "fan"@ && w[0]
            != "servo"@ ==> request(w) == (Request::Refused { why: Refusal::UnknownCommand }),
{
    if w.len() > 0 {
        lemma_dispatch(w);
    }
}

/// `enable` and `disable` take the axis that is named, or all of them.
pub proof fn switches_are_read(w: Seq<Seq<char>>)
    requires
        w.len() > 0,
        w[0] == "enable"@ || w[0] == "disable"@,
    ensures
        w.len() == 1 ==> request(w) == (Request::Refused { why: Refusal::EnableUsage }),
        w.len() > 1 && w[1] == "all"@ ==> request(w) == (Request::Enable {
            target: Target::All,
            on: w[0] == "enable"@,
        }),
        w.len() > 1 && w[1] != "all"@ ==> match axis_named(w[1]) {
            Some(a) => request(w) matches Request::Enable {
                target: Target::Axis { axis, letter },
                on,
            } && axis == a && w[1] == seq![letter] && on == (w[0] == "enable"@),
            None => request(w) == (Request::Refused { why: Refusal::UnknownAxis }),
        },
{
    lemma_dispatch(w);
    reveal_strlit("enable");
    reveal_strlit("disable");
    if w.len() > 1 && axis_named(w[1]) is Some {
        lemma_axis_names(w[1]);
    }
}

/// `accel` takes the limit that its third word spells, for the axis that its
/// second word names, or for all.
pub proof fn slew_limits_are_read(w: Seq<Seq<char>>)
    requires
        w.len() > 0,
        w[0] == "accel"@,
    ensures
        w.len() < 3 ==> request(w) == (Request::Refused { why: Refusal::AccelUsage }),
        w.len() >= 3 ==> match parse_int(w[2], 0, 0xffff_ffff) {
            None => request(w) == (Request::Refused { why: Refusal::BadAccel }),
            Some(v) => if w[1] == "all"@ {
                request(w) matches Request::Accel { target: Target::All, accel } && accel == v
            } else {
                match axis_named(w[1]) {
                    Some(a) => request(w) matches Request::Accel {
                        target: Target::Axis { axis, letter },
                        accel,
                    } && axis == a && w[1] == seq![letter] && accel == v,
                    None => request(w) == (Request::Refused { why: Refusal::UnknownAxis }),
                }
            },
        },
{
    lemma_dispatch(w);
    if w.len() > 1 && axis_named(w[1]) is Some {
        lemma_axis_names(w[1]);
    }
}

/// `jog` takes the velocity that its third word spells, up to 40000 steps per
/// second in either direction.
pub proof fn jogs_are_read(w: Seq<Seq<char>>)
    requires
        w.len() > 0,
        w[0] == "jog"@,
    ensures
        w.len() < 3 ==> request(w) == (Request::Refused { why: Refusal::JogUsage }),
        w.len() >= 3 ==> match axis_named(w[1]) {
            None => request(w) == (Request::Refused { why: Refusal::UnknownAxis }),
            Some(a) => match parse_int(w[2], -0x8000_0000, 0x7fff_ffff) {
                None => request(w) == (Request::Refused { why: Refusal::BadHz }),
                Some(v) => request(w) matches Request::Jog { axis, hz } && {
                    &&& axis == a
                    &&& -40_000 <= v <= 40_000 ==> hz == v
                    &&& v > 40_000 ==> hz == 40_000
                    &&& v < -40_000 ==> hz == -40_000
                },
            },
        },
{
    lemma_dispatch(w);
    if w.len() > 1 && axis_named(w[1]) is Some {
        lemma_axis_names(w[1]);
    }
}

/// `move` takes the steps that its third word spells, at the rate that its
/// fourth spells, up to 40000 steps per second, or at 1000 if it has none.
pub proof fn moves_are_read(w: Seq<Seq<char>>)
    requires
        w.len() > 0,
        w[0] == "move"@,
    ensures
        w.len() < 3 ==> request(w) == (Request::Refused { why: Refusal::MoveUsage }),
        w.len() >= 3 ==> match axis_named(w[1]) {
            None => request(w) == (Request::Refused { why: Refusal::UnknownAxis }),
            Some(a) => match parse_int(w[2], -0x8000_0000, 0x7fff_ffff) {
                None => request(w) == (Request::Refused { why: Refusal::BadSteps }),
                Some(n) => {
                    let rate = if w.len() == 3 {
                        Some(1000int)
                    } else {
                        parse_int(w[3], 1, 0xffff_ffff)
                    };
                    match rate {
                        None => request(w) == (Request::Refused { why: Refusal::BadHz }),
                        Some(v) => request(w) matches Request::Move { axis, steps, hz } && {
                            &&& axis == a
                            &&& steps == n
                            &&& v <= 40_000 ==> hz == v
                            &&& v > 40_000 ==> hz == 40_000
                        },
                    }
                },
            },
        },
{
    lemma_dispatch(w);
    if w.len() > 1 && axis_named(w[1]) is Some {
        lemma_axis_names(w[1]);
    }
}

/// `tmc` takes each of its settings from a word of its own: the axis, the
/// microsteps, the run current, the hold current, the delay between the two,
/// and whether to use spreadcycle and interpolation.
pub proof fn driver_settings_are_read(w: Seq<Seq<char>>)
    requires
        w.len() > 0,
        w[0] == "tmc"@,
    ensures
        w.len() < 8 ==> request(w) == (Request::Refused { why: Refusal::TmcUsage }),
        w.len() >= 8 ==> {
            let ms = parse_int(w[2], 0, 0xffff);
            let run = parse_int(w[3], 0, 0xffff_ffff);
            let hold = parse_int(w[4], 0, 0xffff_ffff);
            let delay = parse_int(w[5], 0, 0xff);
            match axis_named(w[1]) {
                None => request(w) == (Request::Refused { why: Refusal::UnknownAxis }),
                Some(a) => if ms is None || run is None || hold is None || delay is None {
                    request(w) == (Request::Refused { why: Refusal::BadNumber })
                } else if !(ms->0 == 1 || ms->0 == 2 || ms->0 == 4 || ms->0 == 8 || ms->0 == 16
                    || ms->0 == 32 || ms->0 == 64 || ms->0 == 128 || ms->0 == 256) {
                    request(w) == (Request::Refused { why: Refusal::BadMicrosteps })
                } else {
                    request(w) matches Request::Tmc { cfg } && {
                        &&& cfg.axis == a
                        &&& Some(cfg.microsteps as int) == ms
                        &&& Some(cfg.run_ma as int) == run
                        &&& Some(cfg.hold_ma as int) == hold
                        &&& Some(cfg.hold_delay as int) == delay
                        &&& cfg.spreadcycle == (w[6] == "1"@ || w[6] == "true"@ || w[6] == "on"@
                            || w[6] == "yes"@)
                        &&& cfg.interpolate == (w[7] == "1"@ || w[7] == "true"@ || w[7] == "on"@
                            || w[7] == "yes"@)
                    }
                },
            }
        },
{
    lemma_dispatch(w);
    if w.len() > 1 && axis_named(w[1]) is Some {
        lemma_axis_names(w[1]);
    }
}

/// `fan` switches the fan that its second word counts, of three, to the state
/// that its third word names.
pub proof fn fans_are_read(w: Seq<Seq<char>>)
    requires
        w.len() > 0,
        w[0] == "fan"@,
    ensures
        w.len() < 3 ==> request(w) == (Request::Refused { why: Refusal::FanUsage }),
        w.len() >= 3 ==> match parse_int(w[1], 0, usize::MAX as int) {
            None => request(w) == (Request::Refused { why: Refusal::BadFan }),
            Some(n) => {
                let up = w[2] == "on"@ || w[2] == "1"@ || w[2] == "ON"@;
                let down = w[2] == "off"@ || w[2] == "0"@ || w[2] == "OFF"@;
                &&& n > 2 ==> request(w) == (Request::Refused { why: Refusal::FanRange })
                &&& n <= 2 && !up && !down ==> request(w) == (Request::Refused {
                    why: Refusal::BadFanState,
                })
                &&& n <= 2 && (up || down) ==> (request(w) matches Request::Fan { fan, on } && fan
                    == n && on == up)
            },
        },
{
    lemma_dispatch(w);
}

/// `servo` gives the servo that its second word counts, of five, the pulse
/// width that its third word spells, up to 10000 microseconds, or none.
pub proof fn servos_are_read(w: Seq<Seq<char>>)
    requires
        w.len() > 0,
        w[0] == "servo"@,
    ensures
        w.len() < 3 ==> request(w) == (Request::Refused { why: Refusal::ServoUsage }),
        w.len() >= 3 ==> match parse_int(w[1], 0, usize::MAX as int) {
            None => request(w) == (Request::Refused { why: Refusal::BadServo }),
            Some(n) => {
                let off = w[2] == "off"@ || w[2] == "OFF"@;
                let width = if off {
                    Some(0int)
                } else {
                    parse_int(w[2], 0, 0xffff)
                };
                &&& n > 4 ==> request(w) == (Request::Refused { why: Refusal::ServoRange })
                &&& n <= 4 && width is None ==> request(w) == (Request::Refused {
                    why: Refusal::BadPulse,
                })
                &&& n <= 4 && width is Some ==> (request(w) matches Request::Servo { servo, us } && {
                    &&& servo == n
                    &&& width->0 <= 10_000 ==> us == width->0
                    &&& width->0 > 10_000 ==> us == 10_000
                })
            },
        },
{
    lemma_dispatch(w);
    reveal_strlit("0");
    digits_count_by_place(Seq::empty(), '0');
    assert("0"@ =~= Seq::<char>::empty().push('0'));
    numerals_are_read("0"@, 0, 0xffff);
}

} // verus!
