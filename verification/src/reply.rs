//! What the firmware says: the help text, the status report, and the replies
//! to commands, each composed in a buffer of its own.

use crate::axis::{axis_label, axis_name, axis_named, AXES};
use crate::board::{AxisShadow, Board, Record, FANS, MAX_SERVO_US, SERVOS};
use crate::command::{Refusal, Target};
use crate::effect::{acts, shown, shown_line, write_line, write_text, Act, Effect};
use crate::message::{
    compose, fitted, fitted_is_whole, joined, lemma_joined_five, lemma_joined_push,
    lemma_joined_size, lemma_joined_three, lemma_size_concat, message_is_whole, piece_views, size, total_size,
};
use crate::motion::{magnitude, MAX_HZ};
use crate::text::{decimal, decimal_is_short, lemma_decimal_ascii, signed_decimal, signed_text, unsigned_text};
use vstd::arithmetic::power::pow;
use vstd::prelude::*;
use vstd::utf8::is_ascii_chars_encode_utf8;

verus! {

/// The reply to a refused line.
pub open spec fn refusal_text(why: Refusal) -> Seq<char> {
    match why {
        Refusal::EnableUsage => "usage: enable|disable <x|y|z|e|all>"@,
        Refusal::AccelUsage => "usage: accel <axis|all> <hz/sec>"@,
        Refusal::TmcUsage =>
            "usage: tmc <axis> <ms> <run_ma> <hold_ma> <hold_delay> <sc> <int>"@,
        Refusal::JogUsage => "usage: jog <axis> <signed_hz>"@,
        Refusal::MoveUsage => "usage: move <axis> <steps> [hz]"@,
        Refusal::FanUsage => "usage: fan <0|1|2> <on|off>"@,
        Refusal::ServoUsage => "usage: servo <0..4> <us|off>"@,
        Refusal::UnknownAxis => "unknown axis"@,
        Refusal::BadAccel => "bad accel"@,
        Refusal::BadNumber => "bad numeric arg"@,
        Refusal::BadMicrosteps => "microsteps must be 1/2/4/8/16/32/64/128/256"@,
        Refusal::BadHz => "bad hz"@,
        Refusal::BadSteps => "bad steps"@,
        Refusal::BadFan => "bad fan number"@,
        Refusal::FanRange => "fan out of range"@,
        Refusal::BadFanState => "bad fan state (on|off)"@,
        Refusal::BadServo => "bad servo number"@,
        Refusal::ServoRange => "servo out of range (0..4)"@,
        Refusal::BadPulse => "bad us (number or 'off')"@,
        Refusal::UnknownCommand => "unknown command - try 'help'"@,
    }
}

/// The reply to a refused line.
pub fn refusal_reply(why: Refusal) -> (r: &'static str)
    ensures
        r@ == refusal_text(why),
{
    match why {
        Refusal::EnableUsage => "usage: enable|disable <x|y|z|e|all>",
        Refusal::AccelUsage => "usage: accel <axis|all> <hz/sec>",
        Refusal::TmcUsage => "usage: tmc <axis> <ms> <run_ma> <hold_ma> <hold_delay> <sc> <int>",
        Refusal::JogUsage => "usage: jog <axis> <signed_hz>",
        Refusal::MoveUsage => "usage: move <axis> <steps> [hz]",
        Refusal::FanUsage => "usage: fan <0|1|2> <on|off>",
        Refusal::ServoUsage => "usage: servo <0..4> <us|off>",
        Refusal::UnknownAxis => "unknown axis",
        Refusal::BadAccel => "bad accel",
        Refusal::BadNumber => "bad numeric arg",
        Refusal::BadMicrosteps => "microsteps must be 1/2/4/8/16/32/64/128/256",
        Refusal::BadHz => "bad hz",
        Refusal::BadSteps => "bad steps",
        Refusal::BadFan => "bad fan number",
        Refusal::FanRange => "fan out of range",
        Refusal::BadFanState => "bad fan state (on|off)",
        Refusal::BadServo => "bad servo number",
        Refusal::ServoRange => "servo out of range (0..4)",
        Refusal::BadPulse => "bad us (number or 'off')",
        Refusal::UnknownCommand => "unknown command - try 'help'",
    }
}

/// The lines of the help text.
pub open spec fn help_lines() -> Seq<Seq<char>> {
    seq![
        "commands:"@,
        "  help"@,
        "  version"@,
        "  status"@,
        "  enable  <x|y|z|e|all>"@,
        "  disable <x|y|z|e|all>"@,
        "  accel   <axis|all> <hz/sec>    0=instant slew (default)"@,
        "  jog     <axis> <signed_hz>     0 stops; sign sets DIR"@,
        "  move    <axis> <steps> [hz]    one-shot, duration-based"@,
        "  fan     <0|1|2> <on|off>       SKR Pico fan headers"@,
        "  servo   <0..4> <us>            0=off, 500..2500 typical"@,
        "  tmc     <axis> <ms> <run_ma> <hold_ma> <hold_delay> <sc> <int>"@,
        "                                 configure driver over UART"@,
        "max hz 40000."@,
    ]
}

/// Sending lines one by one.
pub open spec fn shown_lines(lines: Seq<Seq<char>>) -> Seq<Act>
    decreases lines.len(),
{
    if lines.len() == 0 {
        Seq::empty()
    } else {
        shown_lines(lines.drop_last()) + shown_line(lines.last())
    }
}

/// Sends lines one by one.
pub fn write_lines(out: &mut Vec<Effect>, lines: &[&'static str])
    ensures
        acts(final(out)@) == acts(old(out)@) + shown_lines(
            lines@.map_values(|s: &'static str| s@),
        ),
{
    let ghost start = acts(out@);
    let ghost texts = lines@.map_values(|s: &'static str| s@);
    let mut i: usize = 0;
    assert(texts.take(0) =~= Seq::<Seq<char>>::empty());
    assert(acts(out@) =~= start + shown_lines(texts.take(0)));
    while i < lines.len()
        invariant
            i <= lines.len(),
            texts == lines@.map_values(|s: &'static str| s@),
            acts(out@) == start + shown_lines(texts.take(i as int)),
        decreases lines.len() - i,
    {
        write_line(out, lines[i]);
        assert(texts.take(i + 1).drop_last() =~= texts.take(i as int));
        assert(acts(out@) =~= start + shown_lines(texts.take(i + 1)));
        i += 1;
    }
    assert(texts.take(i as int) =~= texts);
}

pub fn write_help(out: &mut Vec<Effect>)
    ensures
        acts(final(out)@) == acts(old(out)@) + shown_lines(help_lines()),
{
    let lines: [&'static str; 14] = [
        "commands:",
        "  help",
        "  version",
        "  status",
        "  enable  <x|y|z|e|all>",
        "  disable <x|y|z|e|all>",
        "  accel   <axis|all> <hz/sec>    0=instant slew (default)",
        "  jog     <axis> <signed_hz>     0 stops; sign sets DIR",
        "  move    <axis> <steps> [hz]    one-shot, duration-based",
        "  fan     <0|1|2> <on|off>       SKR Pico fan headers",
        "  servo   <0..4> <us>            0=off, 500..2500 typical",
        "  tmc     <axis> <ms> <run_ma> <hold_ma> <hold_delay> <sc> <int>",
        "                                 configure driver over UART",
        "max hz 40000.",
    ];
    assert(lines@.map_values(|s: &'static str| s@) =~= help_lines());
    write_lines(out, lines.as_slice());
}

/// The pieces of the version reply.
pub open spec fn version_pieces(version: Seq<char>) -> Seq<Seq<char>> {
    seq!["tmc-new-era firmware v"@, version, "\r\n"@]
}

/// The version reply, composed in 64 bytes.
pub open spec fn version_text(version: Seq<char>) -> Seq<char> {
    fitted(Seq::empty(), version_pieces(version), 64)
}

/// The pieces of an axis's line in the status report.
pub open spec fn axis_pieces(i: int, a: AxisShadow) -> Seq<Seq<char>> {
    seq![
        "  "@,
        axis_label(i),
        ": "@,
        if a.energised {
            "EN"@
        } else {
            "--"@
        },
        " vel="@,
        signed_decimal(a.velocity as int),
        " accel="@,
        decimal(a.accel as nat),
        " ms="@,
        decimal(a.microsteps as nat),
        "\r\n"@,
    ]
}

/// The pieces of a fan's line in the status report.
pub open spec fn fan_pieces(i: int, on: bool) -> Seq<Seq<char>> {
    seq![
        "  fan"@,
        decimal(i as nat),
        ": "@,
        if on {
            "ON"@
        } else {
            "off"@
        },
        "\r\n"@,
    ]
}

/// The header that a servo is plugged into.
pub open spec fn servo_label(i: int) -> Seq<char> {
    if i == 0 {
        "X-STOP"@
    } else if i == 1 {
        "Y-STOP"@
    } else if i == 2 {
        "Z-STOP"@
    } else if i == 3 {
        "E0-STOP"@
    } else {
        "SERVOS"@
    }
}

/// The pieces of a servo's line in the status report.
pub open spec fn servo_pieces(i: int, us: u16) -> Seq<Seq<char>> {
    seq![
        "  servo"@,
        decimal(i as nat),
        " ("@,
        servo_label(i),
        "): "@,
        decimal(us as nat),
        " us\r\n"@,
    ]
}

/// The lines of the status report, each in pieces: axes, fans, servos.
pub open spec fn status_pieces(r: Record) -> Seq<Seq<Seq<char>>> {
    Seq::new(
        (AXES + FANS + SERVOS) as nat,
        |i: int|
            if i < AXES {
                axis_pieces(i, r.axes[i])
            } else if i < AXES + FANS {
                fan_pieces(i - AXES, r.fans[i - AXES])
            } else {
                servo_pieces(i - AXES - FANS, r.servos[i - AXES - FANS])
            },
    )
}

/// What a buffer of `capacity` bytes holds after lines of pieces were written
/// to it in turn.
pub open spec fn composed(lines: Seq<Seq<Seq<char>>>, capacity: nat) -> Seq<char>
    decreases lines.len(),
{
    if lines.len() == 0 {
        Seq::empty()
    } else {
        fitted(composed(lines.drop_last(), capacity), lines.last(), capacity)
    }
}

/// The status report, composed in 512 bytes.
pub open spec fn status_text(r: Record) -> Seq<char> {
    composed(status_pieces(r), 512)
}

/// The words that name a target.
pub open spec fn target_text(target: Target) -> Seq<char> {
    match target {
        Target::All => "all"@,
        Target::Axis { axis, letter } => seq![letter],
    }
}

pub open spec fn accel_pieces(target: Target, accel: u32) -> Seq<Seq<char>> {
    seq!["ok accel "@, target_text(target), " "@, decimal(accel as nat), "\r\n"@]
}

pub open spec fn jog_pieces(axis: int, hz: i32) -> Seq<Seq<char>> {
    seq!["ok jog "@, axis_label(axis), " "@, signed_decimal(hz as int), "\r\n"@]
}

pub open spec fn fan_reply_pieces(fan: int, on: bool) -> Seq<Seq<char>> {
    seq![
        "ok fan "@,
        decimal(fan as nat),
        " "@,
        if on {
            "on"@
        } else {
            "off"@
        },
        "\r\n"@,
    ]
}

pub open spec fn servo_reply_pieces(servo: int, us: u16) -> Seq<Seq<char>> {
    seq!["ok servo "@, decimal(servo as nat), " "@, decimal(us as nat), " us\r\n"@]
}

pub open spec fn tmc_reply_pieces(axis: int) -> Seq<Seq<char>> {
    seq!["ok tmc "@, axis_label(axis), " queued\r\n"@]
}

/// Sending a reply that is composed in `capacity` bytes.
pub open spec fn replied(pieces: Seq<Seq<char>>, capacity: nat) -> Seq<Act> {
    shown(fitted(Seq::empty(), pieces, capacity))
}

/// Composes a reply in `N` bytes and sends it.
pub fn reply<const N: usize>(out: &mut Vec<Effect>, pieces: &Vec<String>)
    ensures
        acts(final(out)@) == acts(old(out)@) + replied(piece_views(pieces@), N as nat),
{
    let empty: String = String::new();
    assert(empty@ =~= Seq::<char>::empty());
    let text: String = compose::<N>(empty, pieces);
    write_text(out, text.as_str());
}

pub fn owned(s: &str) -> (r: String)
    ensures
        r@ == s@,
{
    s.to_owned()
}

/// A letter that names an axis, as a string.
fn letter_text(letter: char, axis: usize) -> (r: String)
    requires
        (Target::Axis { axis, letter }).wf(),
    ensures
        r@ == seq![letter],
{
    proof {
        reveal_strlit("x");
        reveal_strlit("X");
        reveal_strlit("y");
        reveal_strlit("Y");
        reveal_strlit("z");
        reveal_strlit("Z");
        reveal_strlit("e");
        reveal_strlit("E");
        assert(seq![letter][0] == letter);
    }
    let s: &'static str = if letter == 'x' {
        "x"
    } else if letter == 'X' {
        "X"
    } else if letter == 'y' {
        "y"
    } else if letter == 'Y' {
        "Y"
    } else if letter == 'z' {
        "z"
    } else if letter == 'Z' {
        "Z"
    } else if letter == 'e' {
        "e"
    } else {
        "E"
    };
    assert(s@ =~= seq![letter]);
    owned(s)
}

pub fn target_reply(target: Target) -> (r: String)
    requires
        target.wf(),
    ensures
        r@ == target_text(target),
{
    match target {
        Target::All => owned("all"),
        Target::Axis { axis, letter } => letter_text(letter, axis),
    }
}

fn servo_name(i: usize) -> (r: &'static str)
    requires
        i < SERVOS,
    ensures
        r@ == servo_label(i as int),
{
    if i == 0 {
        "X-STOP"
    } else if i == 1 {
        "Y-STOP"
    } else if i == 2 {
        "Z-STOP"
    } else if i == 3 {
        "E0-STOP"
    } else {
        "SERVOS"
    }
}

fn axis_line(i: usize, a: AxisShadow) -> (r: Vec<String>)
    requires
        i < AXES,
    ensures
        piece_views(r@) == axis_pieces(i as int, a),
{
    let r: Vec<String> = vec![
        owned("  "),
        owned(axis_name(i)),
        owned(": "),
        owned(if a.energised { "EN" } else { "--" }),
        owned(" vel="),
        signed_text(a.velocity as i64),
        owned(" accel="),
        unsigned_text(a.accel as u64),
        owned(" ms="),
        unsigned_text(a.microsteps as u64),
        owned("\r\n"),
    ];
    assert(piece_views(r@) =~= axis_pieces(i as int, a));
    r
}

fn fan_line(i: usize, on: bool) -> (r: Vec<String>)
    ensures
        piece_views(r@) == fan_pieces(i as int, on),
{
    let r: Vec<String> = vec![
        owned("  fan"),
        unsigned_text(i as u64),
        owned(": "),
        owned(if on { "ON" } else { "off" }),
        owned("\r\n"),
    ];
    assert(piece_views(r@) =~= fan_pieces(i as int, on));
    r
}

fn servo_line(i: usize, us: u16) -> (r: Vec<String>)
    requires
        i < SERVOS,
    ensures
        piece_views(r@) == servo_pieces(i as int, us),
{
    let r: Vec<String> = vec![
        owned("  servo"),
        unsigned_text(i as u64),
        owned(" ("),
        owned(servo_name(i)),
        owned("): "),
        unsigned_text(us as u64),
        owned(" us\r\n"),
    ];
    assert(piece_views(r@) =~= servo_pieces(i as int, us));
    r
}

/// The status report of a board.
pub fn status_report(board: &Board) -> (r: String)
    ensures
        r@ == status_text(board@),
        size(r@) <= 512,
{
    let ghost lines = status_pieces(board@);
    let total: usize = AXES + FANS + SERVOS;
    let mut text: String = String::new();
    let mut i: usize = 0;
    assert(lines.take(0) =~= Seq::<Seq<Seq<char>>>::empty());
    assert(text@ =~= Seq::<char>::empty());
    while i < total
        invariant
            i <= total,
            total == AXES + FANS + SERVOS,
            lines == status_pieces(board@),
            text@ == composed(lines.take(i as int), 512),
            size(text@) <= 512,
        decreases total - i,
    {
        let pieces: Vec<String> = if i < AXES {
            axis_line(i, board.axes[i])
        } else if i < AXES + FANS {
            fan_line(i - AXES, board.fans[i - AXES])
        } else {
            servo_line(i - AXES - FANS, board.servos[i - AXES - FANS])
        };
        assert(lines.take(i + 1).drop_last() =~= lines.take(i as int));
        assert(lines.take(i + 1).last() == piece_views(pieces@));
        text = compose::<512>(text, &pieces);
        i += 1;
    }
    assert(lines.take(i as int) =~= lines);
    text
}

// --------------------------------------------------------------------------
// Room
// --------------------------------------------------------------------------

/// A number of at most `digits` digits takes at most that many bytes.
pub proof fn lemma_number_room(n: nat, digits: nat)
    requires
        digits > 0,
        n < pow(10, digits),
    ensures
        size(decimal(n)) <= digits,
{
    decimal_is_short(n, digits);
    lemma_decimal_ascii(n);
    is_ascii_chars_encode_utf8(decimal(n));
}

/// How long the words are that lines of every firmware are made of.
pub proof fn lemma_common_room()
    ensures
        size("  "@) == 2,
        size(": "@) == 2,
        size("\r\n"@) == 2,
        size(" "@) == 1,
        forall|i: int| size(#[trigger] axis_label(i)) == 1,
{
    reveal_strlit("  ");
    reveal_strlit(": ");
    reveal_strlit("\r\n");
    reveal_strlit(" ");
    reveal_strlit("X");
    reveal_strlit("Y");
    reveal_strlit("Z");
    reveal_strlit("E");
    is_ascii_chars_encode_utf8("  "@);
    is_ascii_chars_encode_utf8(": "@);
    is_ascii_chars_encode_utf8("\r\n"@);
    is_ascii_chars_encode_utf8(" "@);
    is_ascii_chars_encode_utf8("X"@);
    is_ascii_chars_encode_utf8("Y"@);
    is_ascii_chars_encode_utf8("Z"@);
    is_ascii_chars_encode_utf8("E"@);
}

proof fn lemma_literal_room()
    ensures
        size("EN"@) == 2,
        size("--"@) == 2,
        size(" vel="@) == 5,
        size(" accel="@) == 7,
        size(" ms="@) == 4,
        size("  fan"@) == 5,
        size("ON"@) == 2,
        size("off"@) == 3,
        size("on"@) == 2,
        size("  servo"@) == 7,
        size(" ("@) == 2,
        size("): "@) == 3,
        size(" us\r\n"@) == 5,
        size("ok accel "@) == 9,
        size("ok jog "@) == 7,
        size("ok fan "@) == 7,
        size("ok servo "@) == 9,
        size("ok tmc "@) == 7,
        size(" queued\r\n"@) == 9,
        size("all"@) == 3,
        size("tmc-new-era firmware v"@) == 22,
        forall|i: int| size(#[trigger] servo_label(i)) <= 7,
{
    reveal_strlit("EN");
    reveal_strlit("--");
    reveal_strlit(" vel=");
    reveal_strlit(" accel=");
    reveal_strlit(" ms=");
    reveal_strlit("  fan");
    reveal_strlit("ON");
    reveal_strlit("off");
    reveal_strlit("on");
    reveal_strlit("  servo");
    reveal_strlit(" (");
    reveal_strlit("): ");
    reveal_strlit(" us\r\n");
    reveal_strlit("ok accel ");
    reveal_strlit("ok jog ");
    reveal_strlit("ok fan ");
    reveal_strlit("ok servo ");
    reveal_strlit("ok tmc ");
    reveal_strlit(" queued\r\n");
    reveal_strlit("all");
    reveal_strlit("tmc-new-era firmware v");
    reveal_strlit("X-STOP");
    reveal_strlit("Y-STOP");
    reveal_strlit("Z-STOP");
    reveal_strlit("E0-STOP");
    reveal_strlit("SERVOS");
    is_ascii_chars_encode_utf8("EN"@);
    is_ascii_chars_encode_utf8("--"@);
    is_ascii_chars_encode_utf8(" vel="@);
    is_ascii_chars_encode_utf8(" accel="@);
    is_ascii_chars_encode_utf8(" ms="@);
    is_ascii_chars_encode_utf8("  fan"@);
    is_ascii_chars_encode_utf8("ON"@);
    is_ascii_chars_encode_utf8("off"@);
    is_ascii_chars_encode_utf8("on"@);
    is_ascii_chars_encode_utf8("  servo"@);
    is_ascii_chars_encode_utf8(" ("@);
    is_ascii_chars_encode_utf8("): "@);
    is_ascii_chars_encode_utf8(" us\r\n"@);
    is_ascii_chars_encode_utf8("ok accel "@);
    is_ascii_chars_encode_utf8("ok jog "@);
    is_ascii_chars_encode_utf8("ok fan "@);
    is_ascii_chars_encode_utf8("ok servo "@);
    is_ascii_chars_encode_utf8("ok tmc "@);
    is_ascii_chars_encode_utf8(" queued\r\n"@);
    is_ascii_chars_encode_utf8("all"@);
    is_ascii_chars_encode_utf8("tmc-new-era firmware v"@);
    is_ascii_chars_encode_utf8("X-STOP"@);
    is_ascii_chars_encode_utf8("Y-STOP"@);
    is_ascii_chars_encode_utf8("Z-STOP"@);
    is_ascii_chars_encode_utf8("E0-STOP"@);
    is_ascii_chars_encode_utf8("SERVOS"@);
}

/// The room that the first `n` of `lines` take.
pub open spec fn lines_size(lines: Seq<Seq<Seq<char>>>, n: int) -> nat
    decreases n,
{
    if n <= 0 {
        0
    } else {
        lines_size(lines, n - 1) + total_size(lines[n - 1], lines[n - 1].len() as int)
    }
}

/// All of `lines`, each with all of its pieces.
pub open spec fn whole(lines: Seq<Seq<Seq<char>>>) -> Seq<char> {
    joined(lines.map_values(|pieces: Seq<Seq<char>>| joined(pieces)))
}

/// Where the lines take no more room than the buffer has, it holds them all.
pub proof fn lemma_composed_is_whole(lines: Seq<Seq<Seq<char>>>, n: int, capacity: nat)
    requires
        0 <= n <= lines.len(),
        lines_size(lines, n) <= capacity,
    ensures
        composed(lines.take(n), capacity) == whole(lines.take(n)),
        size(whole(lines.take(n))) == lines_size(lines, n),
    decreases n,
{
    let f = |pieces: Seq<Seq<char>>| joined(pieces);
    if n == 0 {
        assert(lines.take(0) =~= Seq::<Seq<Seq<char>>>::empty());
        assert(lines.take(0).map_values(f) =~= Seq::<Seq<char>>::empty());
    } else {
        let last = lines[n - 1];
        lemma_composed_is_whole(lines, n - 1, capacity);
        assert(lines.take(n).drop_last() =~= lines.take(n - 1));
        assert(lines.take(n).map_values(f) =~= lines.take(n - 1).map_values(f).push(joined(last)));
        lemma_joined_push(lines.take(n - 1).map_values(f), joined(last));
        assert(last.take(last.len() as int) =~= last);
        lemma_joined_size(last, last.len() as int);
        fitted_is_whole(whole(lines.take(n - 1)), last, capacity);
        lemma_size_concat(whole(lines.take(n - 1)), joined(last));
    }
}

#[verifier::rlimit(40)]
proof fn lemma_axis_room(i: int, a: AxisShadow)
    requires
        0 <= i < AXES,
        a.wf(),
    ensures
        axis_pieces(i, a).len() == 11,
        total_size(axis_pieces(i, a), 11) <= 44,
{
    let p = axis_pieces(i, a);
    lemma_common_room();
    lemma_literal_room();
    lemma_powers();
    lemma_number_room(a.accel as nat, 10);
    lemma_number_room(a.microsteps as nat, 3);
    lemma_number_room(magnitude(a.velocity as int) as nat, 5);
    if a.velocity < 0 {
        let digits = decimal((-a.velocity) as nat);
        lemma_size_concat(seq!['-'], digits);
        is_ascii_chars_encode_utf8(seq!['-']);
    }
    reveal_with_fuel(total_size, 12);
    assert(size(p[5]) <= 6);
    assert(size(p[0]) == 2 && size(p[1]) == 1 && size(p[2]) == 2 && size(p[3]) == 2);
    assert(size(p[4]) == 5 && size(p[6]) == 7 && size(p[8]) == 4 && size(p[10]) == 2);
}

proof fn lemma_fan_room(i: int, on: bool)
    requires
        0 <= i < FANS,
    ensures
        fan_pieces(i, on).len() == 5,
        total_size(fan_pieces(i, on), 5) <= 13,
{
    let p = fan_pieces(i, on);
    lemma_common_room();
    lemma_literal_room();
    lemma_powers();
    lemma_number_room(i as nat, 1);
    reveal_with_fuel(total_size, 6);
    assert(size(p[0]) == 5 && size(p[1]) <= 1 && size(p[2]) == 2 && size(p[3]) <= 3);
}

#[verifier::rlimit(40)]
proof fn lemma_servo_room(i: int, us: u16)
    requires
        0 <= i < SERVOS,
        us <= MAX_SERVO_US,
    ensures
        servo_pieces(i, us).len() == 7,
        total_size(servo_pieces(i, us), 7) <= 30,
{
    let p = servo_pieces(i, us);
    lemma_common_room();
    lemma_literal_room();
    lemma_powers();
    lemma_number_room(i as nat, 1);
    lemma_number_room(us as nat, 5);
    reveal_with_fuel(total_size, 8);
    assert(size(p[0]) == 7 && size(p[1]) <= 1 && size(p[2]) == 2 && size(p[3]) <= 7);
    assert(size(p[4]) == 3 && size(p[5]) <= 5 && size(p[6]) == 5);
}

pub proof fn lemma_powers()
    ensures
        pow(10, 1) == 10,
        pow(10, 3) == 1_000,
        pow(10, 5) == 100_000,
        pow(10, 10) == 10_000_000_000,
{
    reveal(pow);
    reveal_with_fuel(pow, 11);
}

/// The status report always fits: whatever command lines have brought about,
/// it holds every line of every output, whole and in order.
#[verifier::rlimit(40)]
pub proof fn status_is_whole(r: Record)
    requires
        r.wf(),
    ensures
        status_text(r) == whole(status_pieces(r)),
        size(status_text(r)) <= 365,
{
    let lines = status_pieces(r);
    lemma_axis_room(0, r.axes[0]);
    lemma_axis_room(1, r.axes[1]);
    lemma_axis_room(2, r.axes[2]);
    lemma_axis_room(3, r.axes[3]);
    lemma_fan_room(0, r.fans[0]);
    lemma_fan_room(1, r.fans[1]);
    lemma_fan_room(2, r.fans[2]);
    lemma_servo_room(0, r.servos[0]);
    lemma_servo_room(1, r.servos[1]);
    lemma_servo_room(2, r.servos[2]);
    lemma_servo_room(3, r.servos[3]);
    lemma_servo_room(4, r.servos[4]);
    reveal_with_fuel(lines_size, 13);
    assert(lines_size(lines, 12) <= 365);
    lemma_composed_is_whole(lines, 12, 512);
    assert(lines.take(12) =~= lines);
}

/// The reply to a jog always fits.
pub proof fn jog_reply_is_whole(axis: int, hz: i32)
    requires
        0 <= axis < AXES,
        -(MAX_HZ as int) <= hz <= MAX_HZ,
    ensures
        replied(jog_pieces(axis, hz), 48) == shown(joined(jog_pieces(axis, hz))),
{
    lemma_common_room();
    lemma_literal_room();
    lemma_powers();
    lemma_number_room(magnitude(hz as int) as nat, 5);
    if hz < 0 {
        lemma_size_concat(seq!['-'], decimal((-hz) as nat));
        is_ascii_chars_encode_utf8(seq!['-']);
    }
    reveal_with_fuel(total_size, 6);
    let p = jog_pieces(axis, hz);
    assert(size(p[0]) == 7 && size(p[1]) == 1 && size(p[2]) == 1 && size(p[3]) <= 6);
    message_is_whole(p, 48);
}

/// The reply to a new slew limit always fits.
#[verifier::rlimit(40)]
pub proof fn accel_reply_is_whole(target: Target, accel: u32)
    requires
        target.wf(),
    ensures
        replied(accel_pieces(target, accel), 48) == shown(joined(accel_pieces(target, accel))),
{
    lemma_common_room();
    lemma_literal_room();
    lemma_powers();
    lemma_number_room(accel as nat, 10);
    if let Target::Axis { axis, letter } = target {
        lemma_letters(letter);
        is_ascii_chars_encode_utf8(seq![letter]);
    }
    reveal_with_fuel(total_size, 6);
    let p = accel_pieces(target, accel);
    assert(size(p[0]) == 9 && size(p[1]) <= 3 && size(p[2]) == 1 && size(p[3]) <= 10);
    message_is_whole(p, 48);
}

/// The reply to a fan's new state always fits.
pub proof fn fan_reply_is_whole(fan: int, on: bool)
    requires
        0 <= fan < FANS,
    ensures
        replied(fan_reply_pieces(fan, on), 48) == shown(joined(fan_reply_pieces(fan, on))),
{
    lemma_common_room();
    lemma_literal_room();
    lemma_powers();
    lemma_number_room(fan as nat, 1);
    reveal_with_fuel(total_size, 6);
    let p = fan_reply_pieces(fan, on);
    assert(size(p[0]) == 7 && size(p[1]) <= 1 && size(p[2]) == 1 && size(p[3]) <= 3);
    message_is_whole(p, 48);
}

/// The reply to a servo's new pulse width always fits.
pub proof fn servo_reply_is_whole(servo: int, us: u16)
    requires
        0 <= servo < SERVOS,
        us <= MAX_SERVO_US,
    ensures
        replied(servo_reply_pieces(servo, us), 64) == shown(joined(servo_reply_pieces(servo, us))),
{
    lemma_common_room();
    lemma_literal_room();
    lemma_powers();
    lemma_number_room(servo as nat, 1);
    lemma_number_room(us as nat, 5);
    reveal_with_fuel(total_size, 6);
    let p = servo_reply_pieces(servo, us);
    assert(size(p[0]) == 9 && size(p[1]) <= 1 && size(p[2]) == 1 && size(p[3]) <= 5);
    message_is_whole(p, 64);
}

/// The reply to a driver's new settings always fits.
pub proof fn tmc_reply_is_whole(axis: int)
    requires
        0 <= axis < AXES,
    ensures
        replied(tmc_reply_pieces(axis), 80) == shown(joined(tmc_reply_pieces(axis))),
{
    lemma_common_room();
    lemma_literal_room();
    reveal_with_fuel(total_size, 4);
    let p = tmc_reply_pieces(axis);
    assert(size(p[0]) == 7 && size(p[1]) == 1 && size(p[2]) == 9);
    message_is_whole(p, 80);
}

/// A letter that names an axis is one byte long.
proof fn lemma_letters(letter: char)
    requires
        axis_named(seq![letter]) is Some,
    ensures
        (letter as nat) < 128,
{
    reveal_strlit("x");
    reveal_strlit("X");
    reveal_strlit("y");
    reveal_strlit("Y");
    reveal_strlit("z");
    reveal_strlit("Z");
    reveal_strlit("e");
    reveal_strlit("E");
    assert(seq![letter][0] == letter);
}

/// The version reply is whole for every version of at most forty bytes.
pub proof fn version_is_whole(version: Seq<char>)
    requires
        size(version) <= 40,
    ensures
        version_text(version) == joined(version_pieces(version)),
{
    let p = version_pieces(version);
    lemma_common_room();
    lemma_literal_room();
    reveal_with_fuel(total_size, 4);
    assert(size(p[0]) == 22 && size(p[1]) == size(version) && size(p[2]) == 2);
    message_is_whole(p, 64);
}

// --------------------------------------------------------------------------
// Wording
// --------------------------------------------------------------------------

/// The replies to commands tell what was asked for: the axis, the fan or the
/// servo, and its new setting, in decimal and with its sign.
pub proof fn replies_tell_what_was_asked(
    axis: int,
    hz: i32,
    letter: char,
    accel: u32,
    fan: int,
    on: bool,
    servo: int,
    us: u16,
)
    requires
        0 <= axis < 4,
        -40_000 <= hz <= 40_000,
        axis_named(seq![letter]) == Some(axis),
        0 <= fan < 3,
        0 <= servo < 5,
        us <= 10_000,
    ensures
        replied(jog_pieces(axis, hz), 48) == shown(
            "ok jog "@ + axis_label(axis) + " "@ + signed_decimal(hz as int) + "\r\n"@,
        ),
        replied(accel_pieces(Target::Axis { axis: axis as usize, letter }, accel), 48) == shown(
            "ok accel "@ + seq![letter] + " "@ + decimal(accel as nat) + "\r\n"@,
        ),
        replied(accel_pieces(Target::All, accel), 48) == shown(
            "ok accel "@ + "all"@ + " "@ + decimal(accel as nat) + "\r\n"@,
        ),
        replied(fan_reply_pieces(fan, on), 48) == shown(
            "ok fan "@ + decimal(fan as nat) + " "@ + (if on {
                "on"@
            } else {
                "off"@
            }) + "\r\n"@,
        ),
        replied(servo_reply_pieces(servo, us), 64) == shown(
            "ok servo "@ + decimal(servo as nat) + " "@ + decimal(us as nat) + " us\r\n"@,
        ),
        replied(tmc_reply_pieces(axis), 80) == shown(
            "ok tmc "@ + axis_label(axis) + " queued\r\n"@,
        ),
{
    let one = Target::Axis { axis: axis as usize, letter };
    let state = if on {
        "on"@
    } else {
        "off"@
    };
    let cr = "\r\n"@;
    jog_reply_is_whole(axis, hz);
    accel_reply_is_whole(one, accel);
    accel_reply_is_whole(Target::All, accel);
    fan_reply_is_whole(fan, on);
    servo_reply_is_whole(servo, us);
    tmc_reply_is_whole(axis);
    lemma_joined_five("ok jog "@, axis_label(axis), " "@, signed_decimal(hz as int), cr);
    lemma_joined_five("ok accel "@, seq![letter], " "@, decimal(accel as nat), cr);
    lemma_joined_five("ok accel "@, "all"@, " "@, decimal(accel as nat), cr);
    lemma_joined_five("ok fan "@, decimal(fan as nat), " "@, state, cr);
    lemma_joined_five(
        "ok servo "@,
        decimal(servo as nat),
        " "@,
        decimal(us as nat),
        " us\r\n"@,
    );
    lemma_joined_three("ok tmc "@, axis_label(axis), " queued\r\n"@);
}

/// The version reply tells the version.
pub proof fn version_replies_tell_the_version(version: Seq<char>)
    requires
        size(version) <= 40,
    ensures
        version_text(version) == "tmc-new-era firmware v"@ + version + "\r\n"@,
{
    version_is_whole(version);
    lemma_joined_three("tmc-new-era firmware v"@, version, "\r\n"@);
}

proof fn lemma_axis_line(i: int, a: AxisShadow)
    ensures
        joined(axis_pieces(i, a)) == "  "@ + axis_label(i) + ": "@ + (if a.energised {
            "EN"@
        } else {
            "--"@
        }) + (" vel="@ + signed_decimal(a.velocity as int)) + (" accel="@ + decimal(a.accel as nat))
            + (" ms="@ + decimal(a.microsteps as nat)) + "\r\n"@,
{
    let p = axis_pieces(i, a);
    let first = seq![p[0], p[1], p[2], p[3], p[4]];
    lemma_joined_five(p[0], p[1], p[2], p[3], p[4]);
    lemma_joined_push(first, p[5]);
    lemma_joined_push(first.push(p[5]), p[6]);
    lemma_joined_push(first.push(p[5]).push(p[6]), p[7]);
    let most = first.push(p[5]).push(p[6]).push(p[7]);
    lemma_joined_push(most, p[8]);
    lemma_joined_push(most.push(p[8]), p[9]);
    lemma_joined_push(most.push(p[8]).push(p[9]), p[10]);
    assert(p =~= most.push(p[8]).push(p[9]).push(p[10]));
    assert(joined(p) =~= p[0] + p[1] + p[2] + p[3] + (p[4] + p[5]) + (p[6] + p[7]) + (p[8] + p[9])
        + p[10]);
}

proof fn lemma_servo_line(i: int, us: u16)
    ensures
        joined(servo_pieces(i, us)) == "  servo"@ + decimal(i as nat) + (" ("@ + servo_label(i)
            + "): "@) + decimal(us as nat) + " us\r\n"@,
{
    let p = servo_pieces(i, us);
    let first = seq![p[0], p[1], p[2], p[3], p[4]];
    lemma_joined_five(p[0], p[1], p[2], p[3], p[4]);
    lemma_joined_push(first, p[5]);
    lemma_joined_push(first.push(p[5]), p[6]);
    assert(p =~= first.push(p[5]).push(p[6]));
    assert(joined(p) =~= p[0] + p[1] + (p[2] + p[3] + p[4]) + p[5] + p[6]);
}

/// A line more is one line longer.
pub proof fn lemma_whole_grows(lines: Seq<Seq<Seq<char>>>, n: int)
    requires
        0 <= n < lines.len(),
    ensures
        whole(lines.take(n + 1)) == whole(lines.take(n)) + joined(lines[n]),
{
    let f = |pieces: Seq<Seq<char>>| joined(pieces);
    assert(lines.take(n + 1).map_values(f) =~= lines.take(n).map_values(f).push(joined(lines[n])));
    lemma_joined_push(lines.take(n).map_values(f), joined(lines[n]));
}

/// The status report tells of every output what was last commanded of it: of
/// each axis whether its motor is energised, its velocity, its slew limit and
/// its microsteps, then of each fan whether it is on, then of each servo the
/// header that it is plugged into and its pulse width.
#[verifier::rlimit(40)]
pub proof fn status_tells_everything(r: Record)
    requires
        r.wf(),
    ensures
        ({
            let axis = |i: int|
                "  "@ + axis_label(i) + ": "@ + (if r.axes[i].energised {
                    "EN"@
                } else {
                    "--"@
                }) + (" vel="@ + signed_decimal(r.axes[i].velocity as int)) + (" accel="@ + decimal(
                    r.axes[i].accel as nat,
                )) + (" ms="@ + decimal(r.axes[i].microsteps as nat)) + "\r\n"@;
            let fan = |i: int|
                "  fan"@ + decimal(i as nat) + ": "@ + (if r.fans[i] {
                    "ON"@
                } else {
                    "off"@
                }) + "\r\n"@;
            let servo = |i: int, label: Seq<char>|
                "  servo"@ + decimal(i as nat) + (" ("@ + label + "): "@) + decimal(
                    r.servos[i] as nat,
                ) + " us\r\n"@;
            status_text(r) == axis(0) + axis(1) + axis(2) + axis(3) + fan(0) + fan(1) + fan(2)
                + servo(0, "X-STOP"@) + servo(1, "Y-STOP"@) + servo(2, "Z-STOP"@) + servo(
                3,
                "E0-STOP"@,
            ) + servo(4, "SERVOS"@)
        }),
{
    let lines = status_pieces(r);
    status_is_whole(r);
    assert(lines.take(12) =~= lines);
    assert(lines.take(0).map_values(|pieces: Seq<Seq<char>>| joined(pieces)) =~= Seq::<
        Seq<char>,
    >::empty());
    assert(whole(lines.take(0)) =~= Seq::<char>::empty());
    lemma_whole_grows(lines, 0);
    lemma_whole_grows(lines, 1);
    lemma_whole_grows(lines, 2);
    lemma_whole_grows(lines, 3);
    lemma_whole_grows(lines, 4);
    lemma_whole_grows(lines, 5);
    lemma_whole_grows(lines, 6);
    lemma_whole_grows(lines, 7);
    lemma_whole_grows(lines, 8);
    lemma_whole_grows(lines, 9);
    lemma_whole_grows(lines, 10);
    lemma_whole_grows(lines, 11);
    lemma_axis_line(0, r.axes[0]);
    lemma_axis_line(1, r.axes[1]);
    lemma_axis_line(2, r.axes[2]);
    lemma_axis_line(3, r.axes[3]);
    lemma_fan_line(0, r.fans[0]);
    lemma_fan_line(1, r.fans[1]);
    lemma_fan_line(2, r.fans[2]);
    lemma_servo_line(0, r.servos[0]);
    lemma_servo_line(1, r.servos[1]);
    lemma_servo_line(2, r.servos[2]);
    lemma_servo_line(3, r.servos[3]);
    lemma_servo_line(4, r.servos[4]);
    assert(whole(lines.take(1)) =~= joined(lines[0]));
}

proof fn lemma_fan_line(i: int, on: bool)
    ensures
        joined(fan_pieces(i, on)) == "  fan"@ + decimal(i as nat) + ": "@ + (if on {
            "ON"@
        } else {
            "off"@
        }) + "\r\n"@,
{
    let p = fan_pieces(i, on);
    lemma_joined_five(p[0], p[1], p[2], p[3], p[4]);
    assert(p =~= seq![p[0], p[1], p[2], p[3], p[4]]);
}

/// Lines are shown one by one, each whole.
pub proof fn lines_are_shown_in_turn(lines: Seq<Seq<char>>, line: Seq<char>)
    ensures
        shown_lines(Seq::empty()) == Seq::<Act>::empty(),
        shown_lines(lines.push(line)) == shown_lines(lines) + shown_line(line),
{
    assert(lines.push(line).drop_last() =~= lines);
}

} // verus!
