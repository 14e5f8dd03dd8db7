//! The bare firmware: one command at a time, with the steps of a move counted
//! out one by one.

use crate::axis::{
    axes_have_their_letters, axis_label, axis_named, axis_of, en_level, enable_level, Level, AXES,
};
use crate::command::{clamped, parse_target, target_named, Target};
use crate::editor::{
    echoed, edited, edited_all, ends_line, printable, typed_text, typing_appends, Editor, LINE,
};
use crate::effect::{
    acts, prompt, push_effect, shown, shown_line, write_line, write_text, Act, Effect, Pulses,
};
use crate::message::{
    compose, joined, lemma_joined_five, lemma_joined_push, lemma_joined_three, lemma_size_concat,
    message_is_whole, piece_views, size, total_size,
};
use crate::motion::{magnitude, step_period};
use crate::reply::{
    composed, lemma_common_room, lemma_composed_is_whole, lemma_number_room, lemma_powers,
    lemma_whole_grows, lines_size, owned, replied, reply, shown_lines, whole, write_lines,
};
use crate::text::{
    decimal, parse_int, read_i32, read_u32, same, signed_decimal, signed_text, split_words,
    unsigned_text, word_views, words,
};
use vstd::prelude::*;
use vstd::utf8::is_ascii_chars_encode_utf8;

verus! {

/// The highest step rate of a move.
pub const MAX_SPEED: u32 = 20_000;

/// An axis: its name, and whether its motor is energised.
#[derive(Clone, Copy, Debug)]
pub struct Axis {
    pub name: &'static str,
    pub enabled: bool,
}

/// The mathematical counterpart of an axis.
pub struct AxisState {
    pub name: Seq<char>,
    pub enabled: bool,
}

impl View for Axis {
    type V = AxisState;

    open spec fn view(&self) -> AxisState {
        AxisState { name: self.name@, enabled: self.enabled }
    }
}

pub open spec fn states(axes: Seq<Axis>) -> Seq<AxisState> {
    axes.map_values(|a: Axis| a@)
}

/// The pulses of a move, if it has any.
pub open spec fn move_pulses(steps: i32, speed: u32) -> Option<Pulses> {
    if steps == 0 {
        None
    } else {
        let hz = if speed == 0 {
            1
        } else {
            speed as int
        };
        Some(
            Pulses {
                dir: if steps > 0 {
                    Level::High
                } else {
                    Level::Low
                },
                count: magnitude(steps as int) as u32,
                high_us: 2,
                low_us: (step_period(hz) - 2) as u64,
            },
        )
    }
}

impl Axis {
    /// A free axis, with the level that its enable pin is driven to.
    pub fn new(name: &'static str) -> (r: (Axis, Level))
        ensures
            r.0@ == (AxisState { name: name@, enabled: false }),
            r.1 == en_level(false),
    {
        (Axis { name, enabled: false }, enable_level(false))
    }

    /// Energises the motor; returns the level to drive the enable pin to.
    pub fn enable(&mut self) -> (r: Level)
        ensures
            final(self)@ == (AxisState { enabled: true, ..old(self)@ }),
            r == en_level(true),
    {
        self.enabled = true;
        enable_level(true)
    }

    /// Frees the motor; returns the level to drive the enable pin to.
    pub fn disable(&mut self) -> (r: Level)
        ensures
            final(self)@ == (AxisState { enabled: false, ..old(self)@ }),
            r == en_level(false),
    {
        self.enabled = false;
        enable_level(false)
    }

    /// The pulses of a move by `steps` at `speed_hz`, none if it goes nowhere.
    pub fn move_steps(&self, steps: i32, speed_hz: u32) -> (r: Option<Pulses>)
        ensures
            r == move_pulses(steps, speed_hz),
    {
        if steps == 0 {
            return None;
        }
        let dir: Level = if steps > 0 {
            Level::High
        } else {
            Level::Low
        };
        let count: u32 = if steps < 0 {
            (-(steps as i64)) as u32
        } else {
            steps as u32
        };
        let hz: u64 = if speed_hz == 0 {
            1
        } else {
            speed_hz as u64
        };
        let quotient: u64 = 1_000_000u64 / hz;
        let period_us: u64 = if quotient > 4 {
            quotient
        } else {
            4
        };
        Some(Pulses { dir, count, high_us: 2, low_us: period_us - 2 })
    }
}

// --------------------------------------------------------------------------
// Command language
// --------------------------------------------------------------------------

/// Why a line is refused.
#[derive(Clone, Copy, Debug, PartialEq, Eq, Structural)]
pub enum Refusal {
    EnableUsage,
    EnableAxis,
    MoveUsage,
    MoveAxis,
    BadSteps,
    BadHz,
    UnknownCommand,
}

/// What a line asks for.
#[derive(Clone, Copy, Debug, PartialEq, Eq, Structural)]
pub enum Request {
    /// A line without words.
    Nothing,
    Help,
    Status,
    Enable { target: Target, on: bool },
    Move { axis: usize, steps: i32, speed: u32 },
    Refused { why: Refusal },
}

pub open spec fn enable_request(w: Seq<Seq<char>>, on: bool) -> Request {
    if w.len() < 2 {
        Request::Refused { why: Refusal::EnableUsage }
    } else {
        match target_named(w[1]) {
            Some(target) => Request::Enable { target, on },
            None => Request::Refused { why: Refusal::EnableAxis },
        }
    }
}

/// The step rate of a move: the fourth word, or a default. A rate that is
/// given must be positive, and is cut to the highest.
pub open spec fn move_speed(w: Seq<Seq<char>>) -> Option<int> {
    if w.len() < 4 {
        Some(1000)
    } else {
        match parse_int(w[3], 0, u32::MAX as int) {
            Some(v) => if v > 0 {
                Some(clamped(v, 1, MAX_SPEED as int))
            } else {
                None
            },
            None => None,
        }
    }
}

pub open spec fn move_request(w: Seq<Seq<char>>) -> Request {
    if w.len() < 3 {
        Request::Refused { why: Refusal::MoveUsage }
    } else if axis_named(w[1]) is None {
        Request::Refused { why: Refusal::MoveAxis }
    } else {
        match parse_int(w[2], i32::MIN as int, i32::MAX as int) {
            Some(steps) => match move_speed(w) {
                Some(speed) => Request::Move {
                    axis: axis_named(w[1])->0 as usize,
                    steps: steps as i32,
                    speed: speed as u32,
                },
                None => Request::Refused { why: Refusal::BadHz },
            },
            None => Request::Refused { why: Refusal::BadSteps },
        }
    }
}

/// What a line of words asks for.
pub open spec fn request(w: Seq<Seq<char>>) -> Request {
    if w.len() == 0 {
        Request::Nothing
    } else if w[0] == "help"@ || w[0] == "?"@ {
        Request::Help
    } else if w[0] == "status"@ {
        Request::Status
    } else if w[0] == "enable"@ {
        enable_request(w, true)
    } else if w[0] == "disable"@ {
        enable_request(w, false)
    } else if w[0] == "move"@ {
        move_request(w)
    } else {
        Request::Refused { why: Refusal::UnknownCommand }
    }
}

impl Request {
    /// A request for axes that exist, at a rate that a move can have.
    pub open spec fn wf(self) -> bool {
        match self {
            Request::Enable { target, .. } => target matches Target::Axis { axis, .. } ==> axis
                < AXES,
            Request::Move { axis, speed, .. } => axis < AXES && 0 < speed <= MAX_SPEED,
            _ => true,
        }
    }
}

fn parse_enable(w: &Vec<Vec<char>>, on: bool) -> (r: Request)
    ensures
        r == enable_request(word_views(w@), on),
        r.wf(),
{
    if w.len() < 2 {
        return Request::Refused { why: Refusal::EnableUsage };
    }
    match parse_target(&w[1]) {
        Some(target) => Request::Enable { target, on },
        None => Request::Refused { why: Refusal::EnableAxis },
    }
}

fn parse_move(w: &Vec<Vec<char>>) -> (r: Request)
    ensures
        r == move_request(word_views(w@)),
        r.wf(),
{
    if w.len() < 3 {
        return Request::Refused { why: Refusal::MoveUsage };
    }
    let axis: usize = match axis_of(&w[1]) {
        Some(axis) => axis,
        None => {
            return Request::Refused { why: Refusal::MoveAxis };
        },
    };
    let steps: i32 = match read_i32(&w[2]) {
        Some(steps) => steps,
        None => {
            return Request::Refused { why: Refusal::BadSteps };
        },
    };
    if w.len() < 4 {
        return Request::Move { axis, steps, speed: 1000 };
    }
    match read_u32(&w[3]) {
        Some(v) => {
            if v == 0 {
                Request::Refused { why: Refusal::BadHz }
            } else {
                let speed: u32 = if v > MAX_SPEED {
                    MAX_SPEED
                } else {
                    v
                };
                Request::Move { axis, steps, speed }
            }
        },
        None => Request::Refused { why: Refusal::BadHz },
    }
}

/// Reads a command line.
pub fn parse_request(line: &str) -> (r: Request)
    ensures
        r == request(words(line@)),
        r.wf(),
{
    let w: Vec<Vec<char>> = split_words(line);
    if w.len() == 0 {
        return Request::Nothing;
    }
    let cmd: &Vec<char> = &w[0];
    if same(cmd, "help") || same(cmd, "?") {
        Request::Help
    } else if same(cmd, "status") {
        Request::Status
    } else if same(cmd, "enable") {
        parse_enable(&w, true)
    } else if same(cmd, "disable") {
        parse_enable(&w, false)
    } else if same(cmd, "move") {
        parse_move(&w)
    } else {
        Request::Refused { why: Refusal::UnknownCommand }
    }
}

// --------------------------------------------------------------------------
// Texts
// --------------------------------------------------------------------------

/// The reply to a refused line.
pub open spec fn refusal_text(why: Refusal) -> Seq<char> {
    match why {
        Refusal::EnableUsage => "usage: enable|disable <x|y|z|e|all>"@,
        Refusal::EnableAxis => "unknown axis (expected x|y|z|e|all)"@,
        Refusal::MoveUsage => "usage: move <axis> <steps> [hz]"@,
        Refusal::MoveAxis => "unknown axis"@,
        Refusal::BadSteps => "bad steps (signed integer expected)"@,
        Refusal::BadHz => "bad hz (positive integer expected)"@,
        Refusal::UnknownCommand => "unknown command — try 'help'"@,
    }
}

/// The reply to a refused line.
pub fn refusal_reply(why: Refusal) -> (r: &'static str)
    ensures
        r@ == refusal_text(why),
{
    match why {
        Refusal::EnableUsage => "usage: enable|disable <x|y|z|e|all>",
        Refusal::EnableAxis => "unknown axis (expected x|y|z|e|all)",
        Refusal::MoveUsage => "usage: move <axis> <steps> [hz]",
        Refusal::MoveAxis => "unknown axis",
        Refusal::BadSteps => "bad steps (signed integer expected)",
        Refusal::BadHz => "bad hz (positive integer expected)",
        Refusal::UnknownCommand => "unknown command — try 'help'",
    }
}

/// The lines of the help text.
pub open spec fn help_lines() -> Seq<Seq<char>> {
    seq![
        "commands:"@,
        "  help                        show this"@,
        "  status                      show axis enable state"@,
        "  enable  <x|y|z|e|all>       drive EN low (motor energized)"@,
        "  disable <x|y|z|e|all>       drive EN high (motor free)"@,
        "  move    <axis> <steps> [hz] steps signed, hz default 1000 (max 20000)"@,
        "pins (from SKR-Pico klipper.cfg):"@,
        "  X  step=GP11  dir=GP10  en=GP12"@,
        "  Y  step=GP6   dir=GP5   en=GP7"@,
        "  Z  step=GP19  dir=GP28  en=GP2"@,
        "  E  step=GP14  dir=GP13  en=GP15"@,
    ]
}

fn write_help(out: &mut Vec<Effect>)
    ensures
        acts(final(out)@) == acts(old(out)@) + shown_lines(help_lines()),
{
    let lines: [&'static str; 11] = [
        "commands:",
        "  help                        show this",
        "  status                      show axis enable state",
        "  enable  <x|y|z|e|all>       drive EN low (motor energized)",
        "  disable <x|y|z|e|all>       drive EN high (motor free)",
        "  move    <axis> <steps> [hz] steps signed, hz default 1000 (max 20000)",
        "pins (from SKR-Pico klipper.cfg):",
        "  X  step=GP11  dir=GP10  en=GP12",
        "  Y  step=GP6   dir=GP5   en=GP7",
        "  Z  step=GP19  dir=GP28  en=GP2",
        "  E  step=GP14  dir=GP13  en=GP15",
    ];
    assert(lines@.map_values(|s: &'static str| s@) =~= help_lines());
    write_lines(out, lines.as_slice());
}

pub open spec fn on_text(on: bool) -> Seq<char> {
    if on {
        "enabled"@
    } else {
        "disabled"@
    }
}

fn on_word(on: bool) -> (r: &'static str)
    ensures
        r@ == on_text(on),
{
    if on {
        "enabled"
    } else {
        "disabled"
    }
}

/// The pieces of an axis's line in the status report.
pub open spec fn axis_pieces(a: AxisState) -> Seq<Seq<char>> {
    seq!["  "@, a.name, ": "@, on_text(a.enabled), "\r\n"@]
}

/// The status report, composed in 96 bytes.
pub open spec fn status_text(axes: Seq<AxisState>) -> Seq<char> {
    composed(axes.map_values(|a: AxisState| axis_pieces(a)), 96)
}

/// The reply to a command that energised or freed one axis.
pub open spec fn enable_pieces(a: AxisState) -> Seq<Seq<char>> {
    seq![a.name, " "@, on_text(a.enabled), "\r\n"@]
}

/// What a move is announced with.
pub open spec fn moving_pieces(name: Seq<char>, steps: i32, speed: u32) -> Seq<Seq<char>> {
    seq![
        "moving "@,
        name,
        " "@,
        signed_decimal(steps as int),
        " steps @ "@,
        decimal(speed as nat),
        " hz\r\n"@,
    ]
}

/// The status report of the axes.
pub fn status_report(axes: &[Axis; 4]) -> (r: String)
    ensures
        r@ == status_text(states(axes@)),
        size(r@) <= 96,
{
    let ghost lines = states(axes@).map_values(|a: AxisState| axis_pieces(a));
    let mut text: String = String::new();
    let mut i: usize = 0;
    assert(lines.take(0) =~= Seq::<Seq<Seq<char>>>::empty());
    assert(text@ =~= Seq::<char>::empty());
    while i < AXES
        invariant
            i <= AXES,
            lines == states(axes@).map_values(|a: AxisState| axis_pieces(a)),
            text@ == composed(lines.take(i as int), 96),
            size(text@) <= 96,
        decreases AXES - i,
    {
        let a: Axis = axes[i];
        let pieces: Vec<String> = vec![
            owned("  "),
            owned(a.name),
            owned(": "),
            owned(on_word(a.enabled)),
            owned("\r\n"),
        ];
        assert(piece_views(pieces@) =~= axis_pieces(a@));
        assert(lines.take(i + 1).drop_last() =~= lines.take(i as int));
        assert(lines.take(i + 1).last() == piece_views(pieces@));
        text = compose::<96>(text, &pieces);
        i += 1;
    }
    assert(lines.take(i as int) =~= lines);
    text
}

// --------------------------------------------------------------------------
// Requests
// --------------------------------------------------------------------------

/// The axes after one of them is energised or freed.
pub open spec fn switched(axes: Seq<AxisState>, axis: int, on: bool) -> Seq<AxisState> {
    axes.update(axis, AxisState { enabled: on, ..axes[axis] })
}

/// The axes after all of them are energised or freed.
pub open spec fn all_switched(axes: Seq<AxisState>, on: bool) -> Seq<AxisState> {
    axes.map_values(|a: AxisState| AxisState { enabled: on, ..a })
}

/// Driving one enable pin.
pub open spec fn switch(axis: int, on: bool) -> Seq<Act> {
    seq![Act::Enable { axis, level: en_level(on) }]
}

/// Driving every enable pin, in order.
pub open spec fn switch_all(on: bool) -> Seq<Act> {
    Seq::new(AXES as nat, |i: int| Act::Enable { axis: i, level: en_level(on) })
}

/// What a request does to the axes.
pub open spec fn axes_after(axes: Seq<AxisState>, req: Request) -> Seq<AxisState> {
    match req {
        Request::Enable { target: Target::All, on } => all_switched(axes, on),
        Request::Enable { target: Target::Axis { axis, .. }, on } => switched(axes, axis as int, on),
        Request::Move { axis, .. } => switched(axes, axis as int, true),
        _ => axes,
    }
}

/// What a request asks of the hardware, and what it replies.
pub open spec fn request_acts(axes: Seq<AxisState>, req: Request) -> Seq<Act> {
    match req {
        Request::Nothing => Seq::empty(),
        Request::Help => shown_lines(help_lines()),
        Request::Status => shown(status_text(axes)),
        Request::Enable { target: Target::All, on } => switch_all(on) + shown_line(
            if on {
                "all axes enabled"@
            } else {
                "all axes disabled"@
            },
        ),
        Request::Enable { target: Target::Axis { axis, .. }, on } => switch(axis as int, on)
            + replied(enable_pieces(AxisState { enabled: on, ..axes[axis as int] }), 48),
        Request::Move { axis, steps, speed } => {
            let a = axes[axis as int];
            let wake = if a.enabled {
                Seq::empty()
            } else {
                switch(axis as int, true)
            };
            let go = match move_pulses(steps, speed) {
                Some(pulses) => seq![Act::Steps { axis: axis as int, pulses }],
                None => Seq::empty(),
            };
            wake + replied(moving_pieces(a.name, steps, speed), 96) + go + shown_line("done"@)
        },
        Request::Refused { why } => shown_line(refusal_text(why)),
    }
}

/// Energises or frees every axis.
pub fn switch_axes(axes: &mut [Axis; 4], out: &mut Vec<Effect>, on: bool)
    ensures
        states(final(axes)@) == all_switched(states(old(axes)@), on),
        acts(final(out)@) == acts(old(out)@) + switch_all(on),
{
    let ghost start = acts(out@);
    let ghost before = axes@;
    let mut i: usize = 0;
    while i < AXES
        invariant
            i <= AXES,
            before == old(axes)@,
            before.len() == AXES,
            axes@.len() == AXES,
            forall|j: int|
                0 <= j < i ==> axes@[j]@ == (AxisState { enabled: on, ..before[j]@ }),
            forall|j: int| i <= j < AXES ==> axes@[j] == before[j],
            acts(out@) == start + switch_all(on).take(i as int),
        decreases AXES - i,
    {
        let mut a: Axis = axes[i];
        let level: Level = if on {
            a.enable()
        } else {
            a.disable()
        };
        axes[i] = a;
        push_effect(out, Effect::Enable { axis: i, level });
        assert(switch_all(on).take(i + 1) =~= switch_all(on).take(i as int).push(
            switch_all(on)[i as int],
        ));
        i += 1;
    }
    assert(states(axes@) =~= all_switched(states(before), on));
    assert(switch_all(on).take(AXES as int) =~= switch_all(on));
}

/// Energises or frees one axis.
fn switch_axis(axes: &mut [Axis; 4], out: &mut Vec<Effect>, axis: usize, on: bool)
    requires
        axis < AXES,
    ensures
        states(final(axes)@) == switched(states(old(axes)@), axis as int, on),
        acts(final(out)@) == acts(old(out)@) + switch(axis as int, on),
{
    let ghost start = acts(out@);
    let mut a: Axis = axes[axis];
    let level: Level = if on {
        a.enable()
    } else {
        a.disable()
    };
    axes[axis] = a;
    push_effect(out, Effect::Enable { axis, level });
    assert(states(axes@) =~= switched(states(old(axes)@), axis as int, on));
    assert(acts(out@) =~= start + switch(axis as int, on));
}

fn run_move(axes: &mut [Axis; 4], axis: usize, steps: i32, speed: u32) -> (r: Vec<Effect>)
    requires
        axis < AXES,
    ensures
        states(final(axes)@) == axes_after(
            states(old(axes)@),
            (Request::Move { axis, steps, speed }),
        ),
        acts(r@) == request_acts(states(old(axes)@), (Request::Move { axis, steps, speed })),
{
    let mut out: Vec<Effect> = Vec::new();
    let a: Axis = axes[axis];
    assert(states(axes@)[axis as int] == a@);
    let ghost wake: Seq<Act> = if a.enabled {
        Seq::empty()
    } else {
        switch(axis as int, true)
    };
    if !a.enabled {
        switch_axis(axes, &mut out, axis, true);
    } else {
        assert(switched(states(axes@), axis as int, true) =~= states(axes@));
    }
    assert(acts(out@) =~= wake);
    let pieces: Vec<String> = vec![
        owned("moving "),
        owned(a.name),
        owned(" "),
        signed_text(steps as i64),
        owned(" steps @ "),
        unsigned_text(speed as u64),
        owned(" hz\r\n"),
    ];
    assert(piece_views(pieces@) =~= moving_pieces(a@.name, steps, speed));
    reply::<96>(&mut out, &pieces);
    let ghost announced = acts(out@);
    match a.move_steps(steps, speed) {
        Some(pulses) => {
            push_effect(&mut out, Effect::Steps { axis, pulses });
            assert(acts(out@) =~= announced + seq![Act::Steps { axis: axis as int, pulses }]);
        },
        None => {
            assert(announced + Seq::<Act>::empty() =~= announced);
        },
    }
    write_line(&mut out, "done");
    out
}

/// Carries out a command line.
pub fn run_command(axes: &mut [Axis; 4], line: &str) -> (r: Vec<Effect>)
    ensures
        states(final(axes)@) == axes_after(states(old(axes)@), request(words(line@))),
        acts(r@) == request_acts(states(old(axes)@), request(words(line@))),
{
    let req: Request = parse_request(line);
    let mut out: Vec<Effect> = Vec::new();
    assert(acts(out@) =~= Seq::<Act>::empty());
    match req {
        Request::Nothing => {},
        Request::Help => {
            write_help(&mut out);
            assert(acts(out@) =~= shown_lines(help_lines()));
        },
        Request::Status => {
            let text: String = status_report(axes);
            write_text(&mut out, text.as_str());
            assert(acts(out@) =~= shown(status_text(states(axes@))));
        },
        Request::Enable { target, on } => match target {
            Target::All => {
                switch_axes(axes, &mut out, on);
                assert(acts(out@) =~= switch_all(on));
                write_line(&mut out, if on { "all axes enabled" } else { "all axes disabled" });
            },
            Target::Axis { axis, .. } => {
                switch_axis(axes, &mut out, axis, on);
                assert(acts(out@) =~= switch(axis as int, on));
                let a: Axis = axes[axis];
                assert(states(axes@)[axis as int] == a@);
                let pieces: Vec<String> = vec![
                    owned(a.name),
                    owned(" "),
                    owned(on_word(on)),
                    owned("\r\n"),
                ];
                assert(piece_views(pieces@) =~= enable_pieces(a@));
                reply::<48>(&mut out, &pieces);
            },
        },
        Request::Move { axis, steps, speed } => {
            return run_move(axes, axis, steps, speed);
        },
        Request::Refused { why } => {
            write_line(&mut out, refusal_reply(why));
            assert(acts(out@) =~= shown_line(refusal_text(why)));
        },
    }
    out
}

// --------------------------------------------------------------------------
// Session
// --------------------------------------------------------------------------

/// What opens a session.
pub open spec fn greeting() -> Seq<Act> {
    shown_line(""@) + shown_line("tmc-new-era — SKR Pico stepper CLI"@) + shown_line(
        "type 'help' for commands"@,
    ) + shown("> "@)
}

/// The line under way after a byte. A line that is entered stays until it is run.
pub open spec fn fed_line(line: Seq<char>, b: u8) -> Seq<char> {
    if ends_line(b) {
        line
    } else {
        edited(line, b)
    }
}

/// What a byte from the host is answered at once.
pub open spec fn fed_acts(line: Seq<char>, b: u8) -> Seq<Act> {
    if !ends_line(b) {
        echoed(line, b)
    } else if line.len() == 0 {
        shown("\r\n"@) + shown("> "@)
    } else {
        shown("\r\n"@)
    }
}

/// Whether a byte from the host enters a line that holds anything.
pub open spec fn enters(line: Seq<char>, b: u8) -> bool {
    ends_line(b) && line.len() > 0
}

/// A session: the line under way.
pub struct Session {
    pub editor: Editor,
}

impl Session {
    pub open spec fn wf(&self) -> bool {
        self.editor.wf()
    }

    /// Opens a session: greets the host and starts an empty line.
    pub fn open() -> (r: (Session, Vec<Effect>))
        ensures
            r.0.wf(),
            r.0.editor@ == Seq::<char>::empty(),
            acts(r.1@) == greeting(),
    {
        let mut out: Vec<Effect> = Vec::new();
        write_line(&mut out, "");
        write_line(&mut out, "tmc-new-era — SKR Pico stepper CLI");
        write_line(&mut out, "type 'help' for commands");
        prompt(&mut out);
        assert(acts(out@) =~= greeting());
        (Session { editor: Editor::new() }, out)
    }

    /// Takes a byte from the host: edits the line under way, or ends it. The
    /// axes are not touched. Returns whether the line is to be run, once every
    /// packet is delivered.
    pub fn feed(&mut self, b: u8) -> (r: (Vec<Effect>, bool))
        requires
            old(self).wf(),
        ensures
            final(self).wf(),
            final(self).editor@ == fed_line(old(self).editor@, b),
            acts(r.0@) == fed_acts(old(self).editor@, b),
            r.1 == enters(old(self).editor@, b),
    {
        let mut out: Vec<Effect> = Vec::new();
        assert(acts(out@) =~= Seq::<Act>::empty());
        let entered: bool = self.editor.key(b, &mut out);
        if !entered {
            assert(acts(out@) =~= echoed(old(self).editor@, b));
            return (out, false);
        }
        write_text(&mut out, "\r\n");
        assert(acts(out@) =~= shown("\r\n"@));
        if self.editor.is_empty() {
            prompt(&mut out);
            return (out, false);
        }
        (out, true)
    }

    /// Runs the line under way, prompts for the next, and starts an empty one.
    pub fn run(&mut self, axes: &mut [Axis; 4]) -> (r: Vec<Effect>)
        requires
            old(self).wf(),
        ensures
            final(self).wf(),
            final(self).editor@ == Seq::<char>::empty(),
            states(final(axes)@) == axes_after(
                states(old(axes)@),
                request(words(old(self).editor@)),
            ),
            acts(r@) == request_acts(states(old(axes)@), request(words(old(self).editor@)))
                + shown("> "@),
    {
        let mut out: Vec<Effect> = run_command(axes, self.editor.text());
        self.editor.clear();
        prompt(&mut out);
        out
    }
}

/// The host is gone: frees every axis.
pub fn disconnected(axes: &mut [Axis; 4]) -> (r: Vec<Effect>)
    ensures
        states(final(axes)@) == all_switched(states(old(axes)@), false),
        acts(r@) == switch_all(false),
{
    let mut out: Vec<Effect> = Vec::new();
    switch_axes(axes, &mut out, false);
    assert(acts(out@) =~= switch_all(false));
    out
}

// --------------------------------------------------------------------------
// Laws
// --------------------------------------------------------------------------

/// The axes carry the names of a board's axes, in order.
pub open spec fn named(axes: Seq<AxisState>) -> bool {
    axes.len() == AXES && forall|i: int| 0 <= i < AXES ==> (#[trigger] axes[i]).name == axis_label(i)
}

/// No request renames an axis or adds one.
pub proof fn names_stay(axes: Seq<AxisState>, line: Seq<char>)
    requires
        named(axes),
    ensures
        named(axes_after(axes, request(words(line)))),
{
}

/// A move makes as many pulses as it has steps, in their direction. From one
/// to the next is the period of its rate, rounded down to whole microseconds.
pub proof fn moves_count_their_steps(steps: i32, speed: u32)
    requires
        steps != 0,
        0 < speed <= MAX_SPEED,
    ensures
        move_pulses(steps, speed) matches Some(p) && {
            &&& p.count == magnitude(steps as int)
            &&& p.dir == (if steps > 0 { Level::High } else { Level::Low })
            &&& p.high_us == 2
            &&& (p.high_us + p.low_us) * speed <= 1_000_000
            &&& (p.high_us + p.low_us + 1) * speed > 1_000_000
        },
{
    let q = 1_000_000int / speed as int;
    vstd::arithmetic::div_mod::lemma_fundamental_div_mod(1_000_000, speed as int);
    assert(50 <= q <= 1_000_000 && q * speed <= 1_000_000 && (q + 1) * speed > 1_000_000)
        by (nonlinear_arith)
        requires
            0 < speed <= 20_000,
            1_000_000 == speed * q + 1_000_000int % (speed as int),
            0 <= 1_000_000int % (speed as int) < speed,
    ;
}

/// An axis that moves is energised first: whatever it was before, it is
/// energised after, and its pin is driven low before the first step if need be.
pub proof fn moves_energise(axes: Seq<AxisState>, axis: usize, steps: i32, speed: u32)
    requires
        axes.len() == AXES,
        axis < AXES,
    ensures
        axes_after(axes, Request::Move { axis, steps, speed })[axis as int].enabled,
        !axes[axis as int].enabled ==> request_acts(axes, Request::Move { axis, steps, speed })[0]
            == (Act::Enable { axis: axis as int, level: Level::Low }),
{
}

/// When the host is gone no motor is left energised, and every enable pin is
/// driven high.
pub proof fn disconnecting_frees_every_axis(axes: Seq<AxisState>, axis: int)
    requires
        axes.len() == AXES,
        0 <= axis < AXES,
    ensures
        !all_switched(axes, false)[axis].enabled,
        switch_all(false)[axis] == (Act::Enable { axis, level: Level::High }),
{
}

/// A refused line changes nothing and is answered with the reason alone.
pub proof fn refused_lines_do_nothing(axes: Seq<AxisState>, line: Seq<char>, why: Refusal)
    requires
        request(words(line)) == (Request::Refused { why }),
    ensures
        axes_after(axes, request(words(line))) == axes,
        request_acts(axes, request(words(line))) == shown_line(refusal_text(why)),
{
}

/// A session between two bytes: the line under way, and the axes.
#[verifier::ext_equal]
pub struct Seat {
    pub line: Seq<char>,
    pub axes: Seq<AxisState>,
}

/// The session after a byte, and after the line that the byte entered has run,
/// if any.
pub open spec fn served(s: Seat, b: u8) -> Seat {
    if enters(s.line, b) {
        Seat { line: Seq::empty(), axes: axes_after(s.axes, request(words(s.line))) }
    } else {
        Seat { line: fed_line(s.line, b), axes: s.axes }
    }
}

/// The session after a run of bytes.
pub open spec fn served_all(s: Seat, bytes: Seq<u8>) -> Seat
    decreases bytes.len(),
{
    if bytes.len() == 0 {
        s
    } else {
        served(served_all(s, bytes.drop_last()), bytes.last())
    }
}

/// Typing changes the line under way and nothing else.
pub proof fn typing_leaves_the_axes(s: Seat, bytes: Seq<u8>)
    requires
        forall|i: int| 0 <= i < bytes.len() ==> !ends_line(#[trigger] bytes[i]),
    ensures
        served_all(s, bytes) == (Seat { line: edited_all(s.line, bytes), axes: s.axes }),
    decreases bytes.len(),
{
    if bytes.len() > 0 {
        typing_leaves_the_axes(s, bytes.drop_last());
    }
}

/// A line that is typed on an empty one and entered runs, once, exactly as it
/// was typed, and leaves an empty line behind; the line feed behind the
/// carriage return does nothing more.
pub proof fn entered_lines_run(axes: Seq<AxisState>, bytes: Seq<u8>)
    requires
        0 < bytes.len() <= LINE,
        forall|i: int| 0 <= i < bytes.len() ==> printable(#[trigger] bytes[i]),
    ensures
        served_all(Seat { line: Seq::empty(), axes }, bytes + seq![0x0du8, 0x0au8]) == (Seat {
            line: Seq::empty(),
            axes: axes_after(axes, request(words(typed_text(bytes)))),
        }),
{
    let start = Seat { line: Seq::empty(), axes };
    let all = bytes + seq![0x0du8, 0x0au8];
    typing_leaves_the_axes(start, bytes);
    typing_appends(Seq::empty(), bytes);
    assert(Seq::<char>::empty() + typed_text(bytes) =~= typed_text(bytes));
    assert(all.drop_last() =~= bytes.push(0x0d));
    assert(bytes.push(0x0d).drop_last() =~= bytes);
    assert(all.last() == 0x0a);
    let entered = served_all(start, bytes.push(0x0d));
    assert(entered.line =~= Seq::<char>::empty());
    assert(entered.axes == axes_after(axes, request(words(typed_text(bytes)))));
    assert(served_all(start, all) == served(entered, 0x0a));
}

proof fn lemma_literal_room()
    ensures
        size("moving "@) == 7,
        size(" steps @ "@) == 9,
        size(" hz\r\n"@) == 5,
        forall|on: bool| size(#[trigger] on_text(on)) <= 8,
{
    reveal_strlit("moving ");
    reveal_strlit(" steps @ ");
    reveal_strlit(" hz\r\n");
    reveal_strlit("enabled");
    reveal_strlit("disabled");
    is_ascii_chars_encode_utf8("moving "@);
    is_ascii_chars_encode_utf8(" steps @ "@);
    is_ascii_chars_encode_utf8(" hz\r\n"@);
    is_ascii_chars_encode_utf8("enabled"@);
    is_ascii_chars_encode_utf8("disabled"@);
}

/// The status report always fits: it holds the lines of all axes, whole.
pub proof fn status_is_whole(axes: Seq<AxisState>)
    requires
        named(axes),
    ensures
        status_text(axes) == whole(axes.map_values(|a: AxisState| axis_pieces(a))),
{
    let lines = axes.map_values(|a: AxisState| axis_pieces(a));
    lemma_common_room();
    lemma_literal_room();
    reveal_with_fuel(total_size, 6);
    assert forall|i: int| 0 <= i < AXES implies (#[trigger] lines[i]).len() == 5 && total_size(
        lines[i],
        5,
    ) <= 15 by {
        let p = lines[i];
        assert(p == axis_pieces(axes[i]));
        assert(size(p[0]) == 2 && size(p[1]) == 1 && size(p[2]) == 2 && size(p[3]) <= 8);
    }
    reveal_with_fuel(lines_size, 5);
    assert(lines[0].len() == 5 && lines[1].len() == 5 && lines[2].len() == 5 && lines[3].len()
        == 5);
    lemma_composed_is_whole(lines, 4, 96);
    assert(lines.take(4) =~= lines);
}

/// What announces a move always fits.
pub proof fn moving_is_whole(axis: int, steps: i32, speed: u32)
    requires
        0 <= axis < AXES,
    ensures
        replied(moving_pieces(axis_label(axis), steps, speed), 96) == shown(
            joined(moving_pieces(axis_label(axis), steps, speed)),
        ),
{
    lemma_common_room();
    lemma_literal_room();
    lemma_powers();
    lemma_number_room(magnitude(steps as int) as nat, 10);
    lemma_number_room(speed as nat, 10);
    if steps < 0 {
        lemma_size_concat(seq!['-'], decimal((-steps) as nat));
        is_ascii_chars_encode_utf8(seq!['-']);
    }
    reveal_with_fuel(total_size, 8);
    let p = moving_pieces(axis_label(axis), steps, speed);
    assert(size(p[0]) == 7 && size(p[1]) == 1 && size(p[2]) == 1 && size(p[3]) <= 11);
    assert(size(p[4]) == 9 && size(p[5]) <= 10 && size(p[6]) == 5);
    message_is_whole(p, 96);
}

/// The reply to energising or freeing one axis always fits.
pub proof fn enable_reply_is_whole(axis: int, on: bool)
    requires
        0 <= axis < AXES,
    ensures
        ({
            let p = enable_pieces(AxisState { name: axis_label(axis), enabled: on });
            replied(p, 48) == shown(joined(p))
        }),
{
    lemma_common_room();
    lemma_literal_room();
    reveal_with_fuel(total_size, 5);
    let p = enable_pieces(AxisState { name: axis_label(axis), enabled: on });
    assert(size(p[0]) == 1 && size(p[1]) == 1 && size(p[2]) <= 8 && size(p[3]) == 2);
    message_is_whole(p, 48);
}

/// The pulses of a move, at every rate: as many as it has steps, with the
/// direction pin high for positive steps and low for negative ones, each two
/// microseconds high, and together with the time low a period of the rate in
/// whole microseconds, of which there are four at least. A rate of zero counts
/// as one.
pub proof fn pulses_are_as_asked(steps: i32, speed: u32, rate: int)
    requires
        rate == (if speed == 0 {
            1int
        } else {
            speed as int
        }),
    ensures
        steps == 0 ==> move_pulses(steps, speed) is None,
        steps != 0 ==> (move_pulses(steps, speed) matches Some(p) && {
            let period = p.high_us + p.low_us;
            &&& steps > 0 ==> p.count == steps && p.dir is High
            &&& steps < 0 ==> p.count == -steps && p.dir is Low
            &&& p.high_us == 2
            &&& period >= 4
            &&& rate <= 250_000 ==> period * rate <= 1_000_000 < (period + 1) * rate
            &&& rate > 250_000 ==> period == 4
        }),
{
    let q = 1_000_000int / rate;
    vstd::arithmetic::div_mod::lemma_fundamental_div_mod(1_000_000, rate);
    assert(0 <= q <= 1_000_000 && q * rate <= 1_000_000 && (q + 1) * rate > 1_000_000)
        by (nonlinear_arith)
        requires
            0 < rate,
            1_000_000 == rate * q + 1_000_000int % rate,
            0 <= 1_000_000int % rate < rate,
    ;
    assert(rate <= 250_000 ==> q >= 4) by (nonlinear_arith)
        requires
            0 < rate,
            (q + 1) * rate > 1_000_000,
    ;
    assert(rate > 250_000 ==> q <= 4) by (nonlinear_arith)
        requires
            0 < rate,
            q * rate <= 1_000_000,
    ;
}

proof fn lemma_dispatch(w: Seq<Seq<char>>)
    requires
        w.len() > 0,
    ensures
        w[0] == "help"@ || w[0] == "?"@ ==> request(w) is Help,
        w[0] == "status"@ ==> request(w) is Status,
        w[0] == "enable"@ ==> request(w) == enable_request(w, true),
        w[0] == "disable"@ ==> request(w) == enable_request(w, false),
        w[0] == "move"@ ==> request(w) == move_request(w),
{
    reveal_strlit("help");
    reveal_strlit("?");
    reveal_strlit("status");
    reveal_strlit("enable");
    reveal_strlit("disable");
    reveal_strlit("move");
    assert("help"@[0] == 'h' && "?"@[0] == '?' && "status"@[0] == 's' && "enable"@[0] == 'e');
    assert("disable"@[0] == 'd' && "move"@[0] == 'm');
}

/// Lines are read by their words: `help` and `status` alone, `enable` and
/// `disable` with an axis or all of them, and nothing else but `move`.
pub proof fn plain_lines_are_read(w: Seq<Seq<char>>)
    ensures
        w.len() == 0 ==> request(w) is Nothing,
        w.len() > 0 && (w[0] == "help"@ || w[0] == "?"@) ==> request(w) is Help,
        w.len() > 0 && w[0] == "status"@ ==> request(w) is Status,
        w.len() > 0 && (w[0] == "enable"@ || w[0] == "disable"@) ==> {
            let up = w[0] == "enable"@;
            if w.len() == 1 {
                request(w) == (Request::Refused { why: Refusal::EnableUsage })
            } else if w[1] == "all"@ {
                request(w) == (Request::Enable { target: Target::All, on: up })
            } else {
                match axis_named(w[1]) {
                    Some(a) => request(w) matches Request::Enable {
                        target: Target::Axis { axis, .. },
                        on,
                    } && axis == a && on == up,
                    None => request(w) == (Request::Refused { why: Refusal::EnableAxis }),
                }
            }
        },
        w.len() > 0 && w[0] != "help"@ && w[0] != "?"@ && w[0] != "status"@ && w[0] != "enable"@
            && w[0] != "disable"@ && w[0] != "move"@ ==> request(w) == (Request::Refused {
            why: Refusal::UnknownCommand,
        }),
{
    if w.len() > 0 {
        lemma_dispatch(w);
        reveal_strlit("enable");
        reveal_strlit("disable");
        if w.len() > 1 {
            axes_have_their_letters(w[1]);
        }
    }
}

/// `move` takes the steps that its third word spells, at the rate that its
/// fourth spells, up to 20000 steps per second, or at 1000 if it has none.
pub proof fn moves_are_read(w: Seq<Seq<char>>)
    requires
        w.len() > 0,
        w[0] == "move"@,
    ensures
        w.len() < 3 ==> request(w) == (Request::Refused { why: Refusal::MoveUsage }),
        w.len() >= 3 ==> match axis_named(w[1]) {
            None => request(w) == (Request::Refused { why: Refusal::MoveAxis }),
            Some(a) => match parse_int(w[2], -0x8000_0000, 0x7fff_ffff) {
                None => request(w) == (Request::Refused { why: Refusal::BadSteps }),
                Some(n) => {
                    let rate = if w.len() == 3 {
                        Some(1000int)
                    } else {
                        parse_int(w[3], 1, 0xffff_ffff)
                    };
                    match rate {
                        None => request(w) == (Request::Refused { why: Refusal::BadHz }),
                        Some(v) => request(w) matches Request::Move { axis, steps, speed } && {
                            &&& axis == a
                            &&& steps == n
                            &&& v <= 20_000 ==> speed == v
                            &&& v > 20_000 ==> speed == 20_000
                        },
                    }
                },
            },
        },
{
    lemma_dispatch(w);
    if w.len() > 1 {
        axes_have_their_letters(w[1]);
    }
}

/// Energising or freeing an axis drives its own pin, active low, is kept with
/// that axis alone, and is answered with its name; for all axes it is the same
/// for each, in order.
pub proof fn switches_do_as_asked(
    axes: Seq<AxisState>,
    axis: usize,
    letter: char,
    on: bool,
    other: int,
)
    requires
        named(axes),
        axis < 4,
        0 <= other < 4,
    ensures
        ({
            let a = axis as int;
            let level = if on {
                Level::Low
            } else {
                Level::High
            };
            let word = if on {
                "enabled"@
            } else {
                "disabled"@
            };
            let one = Request::Enable { target: Target::Axis { axis, letter }, on };
            let all = Request::Enable { target: Target::All, on };
            let after = axes_after(axes, one);
            let after_all = axes_after(axes, all);
            &&& after.len() == 4 && after_all.len() == 4
            &&& after[a] == (AxisState { enabled: on, ..axes[a] })
            &&& other != a ==> after[other] == axes[other]
            &&& after_all[other] == (AxisState { enabled: on, ..axes[other] })
            &&& request_acts(axes, one) == seq![Act::Enable { axis: a, level }] + shown(
                axis_label(a) + " "@ + word + "\r\n"@,
            )
            &&& request_acts(axes, all) == seq![
                Act::Enable { axis: 0, level },
                Act::Enable { axis: 1, level },
                Act::Enable { axis: 2, level },
                Act::Enable { axis: 3, level },
            ] + shown_line("all axes "@ + word)
        }),
{
    let a = axis as int;
    let word = on_text(on);
    enable_reply_is_whole(a, on);
    let p = enable_pieces(AxisState { enabled: on, ..axes[a] });
    assert(p =~= enable_pieces(AxisState { name: axis_label(a), enabled: on }));
    lemma_joined_three(axis_label(a), " "@, word);
    lemma_joined_push(seq![axis_label(a), " "@, word], "\r\n"@);
    assert(p =~= seq![axis_label(a), " "@, word].push("\r\n"@));
    reveal_strlit("all axes ");
    reveal_strlit("all axes enabled");
    reveal_strlit("all axes disabled");
    reveal_strlit("enabled");
    reveal_strlit("disabled");
    assert("all axes "@ + "enabled"@ =~= "all axes enabled"@);
    assert("all axes "@ + "disabled"@ =~= "all axes disabled"@);
    let level = en_level(on);
    assert(switch_all(on) =~= seq![
        Act::Enable { axis: 0, level },
        Act::Enable { axis: 1, level },
        Act::Enable { axis: 2, level },
        Act::Enable { axis: 3, level },
    ]);
}

/// A move energises its axis if need be, says what it does, makes its pulses,
/// and says that it is done; it is kept with that axis alone.
pub proof fn moves_do_as_asked(
    axes: Seq<AxisState>,
    axis: usize,
    steps: i32,
    speed: u32,
    other: int,
)
    requires
        named(axes),
        axis < 4,
        0 < speed <= 20_000,
        0 <= other < 4,
    ensures
        ({
            let a = axis as int;
            let req = Request::Move { axis, steps, speed };
            let after = axes_after(axes, req);
            let wake = if axes[a].enabled {
                Seq::<Act>::empty()
            } else {
                seq![Act::Enable { axis: a, level: Level::Low }]
            };
            let tell = shown(
                "moving "@ + axis_label(a) + " "@ + signed_decimal(steps as int) + (" steps @ "@
                    + decimal(speed as nat)) + " hz\r\n"@,
            );
            let go = if steps == 0 {
                Seq::<Act>::empty()
            } else {
                seq![Act::Steps { axis: a, pulses: move_pulses(steps, speed)->0 }]
            };
            &&& after.len() == 4
            &&& after[a] == (AxisState { enabled: true, ..axes[a] })
            &&& other != a ==> after[other] == axes[other]
            &&& request_acts(axes, req) == wake + tell + go + shown_line("done"@)
        }),
{
    let a = axis as int;
    let p = moving_pieces(axis_label(a), steps, speed);
    moving_is_whole(a, steps, speed);
    lemma_joined_five(p[0], p[1], p[2], p[3], p[4]);
    let first = seq![p[0], p[1], p[2], p[3], p[4]];
    lemma_joined_push(first, p[5]);
    lemma_joined_push(first.push(p[5]), p[6]);
    assert(p =~= first.push(p[5]).push(p[6]));
    assert(joined(p) =~= p[0] + p[1] + p[2] + p[3] + (p[4] + p[5]) + p[6]);
}

/// What is only asked for is told, and changes nothing.
pub proof fn questions_change_nothing(axes: Seq<AxisState>)
    ensures
        axes_after(axes, Request::Nothing) == axes,
        axes_after(axes, Request::Help) == axes,
        axes_after(axes, Request::Status) == axes,
        request_acts(axes, Request::Nothing) == Seq::<Act>::empty(),
        request_acts(axes, Request::Help) == shown_lines(help_lines()),
        request_acts(axes, Request::Status) == shown(status_text(axes)),
{
}

/// The status report tells of each axis, by name and in order, whether it is
/// energised.
#[verifier::rlimit(40)]
pub proof fn status_tells_every_axis(axes: Seq<AxisState>)
    requires
        named(axes),
    ensures
        ({
            let line = |i: int|
                "  "@ + axis_label(i) + ": "@ + (if axes[i].enabled {
                    "enabled"@
                } else {
                    "disabled"@
                }) + "\r\n"@;
            status_text(axes) == line(0) + line(1) + line(2) + line(3)
        }),
{
    let lines = axes.map_values(|a: AxisState| axis_pieces(a));
    status_is_whole(axes);
    assert(lines.take(4) =~= lines);
    assert(lines.take(0).map_values(|pieces: Seq<Seq<char>>| joined(pieces)) =~= Seq::<
        Seq<char>,
    >::empty());
    assert(whole(lines.take(0)) =~= Seq::<char>::empty());
    lemma_whole_grows(lines, 0);
    lemma_whole_grows(lines, 1);
    lemma_whole_grows(lines, 2);
    lemma_whole_grows(lines, 3);
    lemma_joined_five("  "@, axis_label(0), ": "@, on_text(axes[0].enabled), "\r\n"@);
    lemma_joined_five("  "@, axis_label(1), ": "@, on_text(axes[1].enabled), "\r\n"@);
    lemma_joined_five("  "@, axis_label(2), ": "@, on_text(axes[2].enabled), "\r\n"@);
    lemma_joined_five("  "@, axis_label(3), ": "@, on_text(axes[3].enabled), "\r\n"@);
    assert(whole(lines.take(1)) =~= joined(lines[0]));
}

/// What a session makes of a byte. A carriage return or a line feed is answered
/// by a line break; the line that it ends is run, and where there is none the
/// prompt follows. Any other byte edits the line.
pub proof fn bytes_are_taken(s: Seat, bytes: Seq<u8>, b: u8)
    ensures
        ({
            let line = s.line;
            let ends = b == 0x0d || b == 0x0a;
            &&& enters(line, b) <==> ends && line.len() > 0
            &&& ends && line.len() > 0 ==> {
                &&& fed_line(line, b) == line
                &&& fed_acts(line, b) == shown("\r\n"@)
                &&& served(s, b) == (Seat {
                    line: Seq::empty(),
                    axes: axes_after(s.axes, request(words(line))),
                })
            }
            &&& ends && line.len() == 0 ==> {
                &&& fed_line(line, b) == line
                &&& fed_acts(line, b) == shown("\r\n"@) + shown("> "@)
                &&& served(s, b) == s
            }
            &&& !ends ==> {
                &&& fed_line(line, b) == edited(line, b)
                &&& fed_acts(line, b) == echoed(line, b)
                &&& served(s, b) == (Seat { line: edited(line, b), axes: s.axes })
            }
            &&& served_all(s, Seq::empty()) == s
            &&& served_all(s, bytes.push(b)) == served(served_all(s, bytes), b)
        }),
{
    assert(bytes.push(b).drop_last() =~= bytes);
}

} // verus!
