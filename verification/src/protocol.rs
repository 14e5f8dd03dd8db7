//! Host and board together: what the host sends, an idle board understands and
//! does.

use crate::axis::{axis_named, AxisCmd, AXES};
use crate::board::Record;
use crate::command::{
    clamped, enable_request, jog_request, move_request, request, Refusal, Request, Target,
};
use crate::editor::{ends_line, printable, typed_text, typing_appends, LINE};
use crate::effect::{lemma_said_concat, said, sent_is_said, shown};
use crate::firmware::moves_end_at_rest;
use crate::handshake::{
    dotted, in_token, is_version, lemma_skip_separator, lemma_skip_token, names_version,
    query_text, version_in, versions_are_found,
};
use crate::link::{axis_word, disable_text, enable_text, jog_text, move_text, stop_texts};
use crate::message::{joined, lemma_encode_concat, size};
use crate::motion::MAX_HZ;
use crate::reply::{version_is_whole, version_pieces};
use crate::session::{
    answered, banner_is_whole, banner_pieces, banner_text, entered_lines_run, lemma_spoken_concat,
    line_ends_start_over, packets_do_not_matter, run_record, served, served_all, spoken,
    typing_is_echoed, typing_leaves_the_board, Seat,
};
use crate::text::{
    decimal, decimal_denotes, decimal_is_short, is_digit, is_space, lemma_word_len_is,
    numerals_round_trip, signed_decimal, words,
};
use vstd::arithmetic::power::pow;
use vstd::prelude::*;
use vstd::utf8::{
    decode_utf8, encode_utf8, encode_utf8_decode_utf8, encode_utf8_valid_utf8, is_ascii_chars,
    is_ascii_chars_encode_utf8, valid_utf8,
};

verus! {

/// A session whose line under way is empty.
pub open spec fn idle(r: Record) -> Seat {
    Seat { line: Seq::empty(), record: r }
}

/// A session after the host has sent it a command.
#[verifier::opaque]
pub open spec fn told(s: Seat, text: Seq<char>, version: Seq<char>) -> Seat {
    served_all(s, encode_utf8(text), version)
}

/// A session after the host has sent it a run of commands.
pub open spec fn told_all(s: Seat, texts: Seq<Seq<char>>, version: Seq<char>) -> Seat
    decreases texts.len(),
{
    if texts.len() == 0 {
        s
    } else {
        told(told_all(s, texts.drop_last(), version), texts.last(), version)
    }
}

/// Characters that a line takes.
pub open spec fn typable(s: Seq<char>) -> bool {
    forall|i: int| 0 <= i < s.len() ==> ' ' <= #[trigger] s[i] <= '~'
}

/// A word, as a command line sees it.
pub open spec fn is_word(s: Seq<char>) -> bool {
    s.len() > 0 && forall|i: int| 0 <= i < s.len() ==> ' ' < #[trigger] s[i] <= '~'
}

// --------------------------------------------------------------------------
// Words
// --------------------------------------------------------------------------

/// A word is a line of one word.
proof fn lemma_one_word(w: Seq<char>)
    requires
        is_word(w),
    ensures
        words(w) == seq![w],
{
    lemma_word_len_is(w, w.len() as int);
    assert(w.take(w.len() as int) =~= w);
    assert(w.skip(w.len() as int) =~= Seq::<char>::empty());
    assert(!is_space(w[0]));
    assert(words(w.skip(w.len() as int)) =~= Seq::<Seq<char>>::empty());
    assert(words(w) =~= seq![w]);
}

/// A word and a blank in front of a line are one word more.
proof fn lemma_more_words(w: Seq<char>, rest: Seq<char>)
    requires
        is_word(w),
    ensures
        words(w + seq![' '] + rest) == seq![w] + words(rest),
{
    let s = w + seq![' '] + rest;
    let n = w.len() as int;
    assert(s[n] == ' ');
    assert forall|i: int| 0 <= i < n implies !is_space(#[trigger] s[i]) by {
        assert(s[i] == w[i]);
    }
    lemma_word_len_is(s, n);
    assert(!is_space(s[0]));
    assert(s.take(n) =~= w);
    assert(s.skip(n)[0] == ' ');
    assert(s.skip(n).skip(1) =~= rest);
    assert(words(s.skip(n)) == words(rest));
    assert(words(s) =~= seq![w] + words(rest));
}

proof fn lemma_numbers_are_words(n: int)
    ensures
        is_word(signed_decimal(n)),
{
    let s = signed_decimal(n);
    if n < 0 {
        decimal_denotes((-n) as nat);
        assert forall|i: int| 0 <= i < s.len() implies ' ' < #[trigger] s[i] <= '~' by {
            if i > 0 {
                assert(is_digit(decimal((-n) as nat)[i - 1]));
            }
        }
    } else {
        decimal_denotes(n as nat);
        assert forall|i: int| 0 <= i < s.len() implies ' ' < #[trigger] s[i] <= '~' by {
            assert(is_digit(s[i]));
        }
    }
}

/// A number of 32 bits is written in at most eleven characters.
proof fn lemma_numbers_are_short(n: int)
    requires
        -0x1_0000_0000 < n < 0x1_0000_0000,
    ensures
        signed_decimal(n).len() <= 11,
{
    assert(pow(10, 10) == 10_000_000_000) by {
        reveal(pow);
        reveal_with_fuel(pow, 11);
    }
    if n < 0 {
        decimal_is_short((-n) as nat, 10);
    } else {
        decimal_is_short(n as nat, 10);
    }
}

proof fn lemma_axis_words(axis: int)
    requires
        0 <= axis < AXES,
    ensures
        is_word(axis_word(axis)),
        axis_word(axis).len() == 1,
        axis_named(axis_word(axis)) == Some(axis),
{
    reveal_strlit("x");
    reveal_strlit("X");
    reveal_strlit("y");
    reveal_strlit("Y");
    reveal_strlit("z");
    reveal_strlit("Z");
    reveal_strlit("e");
    reveal_strlit("E");
    assert("X"@[0] == 'X' && "Y"@[0] == 'Y' && "Z"@[0] == 'Z' && "E"@[0] == 'E');
    assert("x"@[0] == 'x' && "y"@[0] == 'y' && "z"@[0] == 'z' && "e"@[0] == 'e');
}

// --------------------------------------------------------------------------
// Lines
// --------------------------------------------------------------------------

/// A line that an idle session is sent runs exactly as it was sent, and
/// leaves the session idle.
pub proof fn sent_lines_run(r: Record, line: Seq<char>, version: Seq<char>)
    requires
        0 < line.len() <= LINE,
        typable(line),
    ensures
        told(idle(r), line + "\r\n"@, version) == idle(run_record(r, line, version)),
{
    let bytes = encode_utf8(line);
    reveal(told);
    assert(is_ascii_chars(line));
    is_ascii_chars_encode_utf8(line);
    assert forall|i: int| 0 <= i < bytes.len() implies printable(#[trigger] bytes[i]) by {
        assert(' ' <= line[i] <= '~');
    }
    assert(typed_text(bytes) =~= line) by {
        assert forall|i: int| 0 <= i < line.len() implies typed_text(bytes)[i] == #[trigger] line[i] by {
            assert(' ' <= line[i] <= '~');
            assert(bytes[i] == line[i] as u8);
        }
    }
    reveal_strlit("\r\n");
    is_ascii_chars_encode_utf8("\r\n"@);
    assert(encode_utf8("\r\n"@) =~= seq![0x0du8, 0x0au8]) by {
        assert("\r\n"@[0] == '\r' && "\r\n"@[1] == '\n');
    }
    lemma_encode_concat(line, "\r\n"@);
    entered_lines_run(r, bytes, version);
}

/// The words that commands begin with are all different.
proof fn lemma_command_words()
    ensures
        is_word("jog"@),
        is_word("move"@),
        is_word("enable"@),
        is_word("disable"@),
        is_word("all"@),
        forall|rest: Seq<Seq<char>>|
            #![trigger request(seq!["jog"@] + rest)]
            request(seq!["jog"@] + rest) == jog_request(seq!["jog"@] + rest),
        forall|rest: Seq<Seq<char>>|
            #![trigger request(seq!["move"@] + rest)]
            request(seq!["move"@] + rest) == move_request(seq!["move"@] + rest),
        forall|rest: Seq<Seq<char>>|
            #![trigger request(seq!["enable"@] + rest)]
            request(seq!["enable"@] + rest) == enable_request(seq!["enable"@] + rest, true),
        forall|rest: Seq<Seq<char>>|
            #![trigger request(seq!["disable"@] + rest)]
            request(seq!["disable"@] + rest) == enable_request(seq!["disable"@] + rest, false),
{
    reveal_strlit("help");
    reveal_strlit("?");
    reveal_strlit("version");
    reveal_strlit("ver");
    reveal_strlit("status");
    reveal_strlit("enable");
    reveal_strlit("disable");
    reveal_strlit("accel");
    reveal_strlit("tmc");
    reveal_strlit("jog");
    reveal_strlit("move");
    reveal_strlit("all");
    assert("jog"@[0] == 'j');
    assert("ver"@[0] == 'v');
    assert("tmc"@[0] == 't');
    assert("help"@[0] == 'h');
    assert("move"@[0] == 'm');
    assert("status"@[0] == 's');
    assert("enable"@[0] == 'e');
    assert("version"@[0] == 'v');
    assert("disable"@[0] == 'd');
}

/// A jog reaches the board as the host meant it, cut to the rates that the
/// axes take.
pub proof fn jogs_are_understood(axis: int, hz: int)
    requires
        0 <= axis < AXES,
        i32::MIN <= hz <= i32::MAX,
    ensures
        request(words("jog "@ + axis_word(axis) + " "@ + signed_decimal(hz))) == (Request::Jog {
            axis: axis as usize,
            hz: clamped(hz, -(MAX_HZ as int), MAX_HZ as int) as i32,
        }),
{
    let number = signed_decimal(hz);
    lemma_command_words();
    lemma_axis_words(axis);
    lemma_numbers_are_words(hz);
    numerals_round_trip(hz, i32::MIN as int, i32::MAX as int);
    lemma_one_word(number);
    lemma_more_words(axis_word(axis), number);
    lemma_more_words("jog"@, axis_word(axis) + seq![' '] + number);
    reveal_strlit("jog ");
    reveal_strlit("jog");
    reveal_strlit(" ");
    assert("jog "@ =~= "jog"@ + seq![' ']);
    assert(" "@ =~= seq![' ']);
    assert("jog "@ + axis_word(axis) + " "@ + number =~= "jog"@ + seq![' '] + (axis_word(axis)
        + seq![' '] + number));
    let rest = seq![axis_word(axis)] + seq![number];
    let w = seq!["jog"@] + rest;
    assert(w[1] == axis_word(axis) && w[2] == number);
}

/// A jog that the host sends to an idle board gives the axis that velocity,
/// and touches nothing else.
#[verifier::rlimit(40)]
pub proof fn jogs_are_obeyed(r: Record, axis: int, hz: int, version: Seq<char>)
    requires
        r.wf(),
        0 <= axis < AXES,
        i32::MIN <= hz <= i32::MAX,
    ensures
        told(idle(r), jog_text(axis, hz), version) == idle(
            r.commanded(
                axis,
                AxisCmd::Jog(clamped(hz, -(MAX_HZ as int), MAX_HZ as int) as i32),
            ),
        ),
{
    let line = "jog "@ + axis_word(axis) + " "@ + signed_decimal(hz);
    jogs_are_understood(axis, hz);
    lemma_axis_words(axis);
    lemma_numbers_are_words(hz);
    lemma_numbers_are_short(hz);
    reveal_strlit("jog ");
    reveal_strlit(" ");
    assert(typable("jog "@) && typable(" "@));
    lemma_typable_concat("jog "@, axis_word(axis));
    lemma_typable_concat("jog "@ + axis_word(axis), " "@);
    lemma_typable_concat("jog "@ + axis_word(axis) + " "@, signed_decimal(hz));
    sent_lines_run(r, line, version);
}

proof fn lemma_typable_concat(a: Seq<char>, b: Seq<char>)
    requires
        typable(a),
        typable(b) || is_word(b),
    ensures
        typable(a + b),
{
    let s = a + b;
    assert forall|i: int| 0 <= i < s.len() implies ' ' <= #[trigger] s[i] <= '~' by {
        if i < a.len() {
            assert(s[i] == a[i]);
        } else {
            assert(s[i] == b[i - a.len()]);
        }
    }
}

/// A nudge reaches the board as the host meant it, at a rate cut to what the
/// axes take; a rate of zero is refused.
#[verifier::rlimit(40)]
pub proof fn moves_are_understood(axis: int, delta: int, hz: nat)
    requires
        0 <= axis < AXES,
        i32::MIN <= delta <= i32::MAX,
        hz <= u32::MAX,
    ensures
        request(
            words(
                "move "@ + axis_word(axis) + " "@ + signed_decimal(delta) + " "@ + decimal(hz),
            ),
        ) == if hz == 0 {
            Request::Refused { why: Refusal::BadHz }
        } else {
            Request::Move {
                axis: axis as usize,
                steps: delta as i32,
                hz: clamped(hz as int, 1, MAX_HZ as int) as u32,
            }
        },
{
    let steps = signed_decimal(delta);
    let rate = decimal(hz);
    assert(rate == signed_decimal(hz as int));
    lemma_command_words();
    lemma_axis_words(axis);
    lemma_numbers_are_words(delta);
    lemma_numbers_are_words(hz as int);
    numerals_round_trip(delta, i32::MIN as int, i32::MAX as int);
    numerals_round_trip(hz as int, 0, u32::MAX as int);
    lemma_one_word(rate);
    lemma_more_words(steps, rate);
    lemma_more_words(axis_word(axis), steps + seq![' '] + rate);
    lemma_more_words("move"@, axis_word(axis) + seq![' '] + (steps + seq![' '] + rate));
    reveal_strlit("move ");
    reveal_strlit("move");
    reveal_strlit(" ");
    assert("move "@ =~= "move"@ + seq![' ']);
    assert(" "@ =~= seq![' ']);
    assert("move "@ + axis_word(axis) + " "@ + steps + " "@ + rate =~= "move"@ + seq![' '] + (
    axis_word(axis) + seq![' '] + (steps + seq![' '] + rate)));
    let rest = seq![axis_word(axis)] + (seq![steps] + seq![rate]);
    let w = seq!["move"@] + rest;
    assert(w[1] == axis_word(axis) && w[2] == steps && w[3] == rate);
}

/// A nudge that the host sends to an idle board ends with the axis energised
/// and at rest, and touches nothing else; one that goes nowhere, or at no rate, does
/// nothing at all.
#[verifier::rlimit(40)]
pub proof fn moves_are_obeyed(r: Record, axis: int, delta: int, hz: nat, version: Seq<char>)
    requires
        r.wf(),
        0 <= axis < AXES,
        i32::MIN <= delta <= i32::MAX,
        hz <= u32::MAX,
    ensures
        told(idle(r), move_text(axis, delta, hz), version) == idle(
            if delta == 0 || hz == 0 {
                r
            } else {
                r.nudged(axis)
            },
        ),
{
    let line = "move "@ + axis_word(axis) + " "@ + signed_decimal(delta) + " "@ + decimal(hz);
    moves_are_understood(axis, delta, hz);
    lemma_axis_words(axis);
    lemma_numbers_are_words(delta);
    lemma_numbers_are_short(delta);
    assert(decimal(hz) == signed_decimal(hz as int));
    lemma_numbers_are_words(hz as int);
    lemma_numbers_are_short(hz as int);
    reveal_strlit("move ");
    reveal_strlit(" ");
    assert(typable("move "@) && typable(" "@));
    lemma_typable_concat("move "@, axis_word(axis));
    lemma_typable_concat("move "@ + axis_word(axis), " "@);
    lemma_typable_concat("move "@ + axis_word(axis) + " "@, signed_decimal(delta));
    lemma_typable_concat("move "@ + axis_word(axis) + " "@ + signed_decimal(delta), " "@);
    lemma_typable_concat(
        "move "@ + axis_word(axis) + " "@ + signed_decimal(delta) + " "@,
        decimal(hz),
    );
    sent_lines_run(r, line, version);
    if delta != 0 && hz != 0 {
        let rate = clamped(hz as int, 1, MAX_HZ as int) as u32;
        moves_end_at_rest(r, axis as usize, delta as i32, rate, version);
    }
    assert(run_record(r, line, version) =~= if delta == 0 || hz == 0 {
        r
    } else {
        r.nudged(axis)
    });
}

/// The commands that energise or free every motor are obeyed by an idle board.
#[verifier::rlimit(40)]
pub proof fn switching_is_obeyed(r: Record, on: bool, version: Seq<char>)
    ensures
        told(
            idle(r),
            if on {
                enable_text()
            } else {
                disable_text()
            },
            version,
        ) == idle(r.all_commanded(AxisCmd::Enable(on))),
{
    let word = if on {
        "enable"@
    } else {
        "disable"@
    };
    let line = word + seq![' '] + "all"@;
    lemma_command_words();
    lemma_one_word("all"@);
    lemma_more_words(word, "all"@);
    reveal_strlit("enable");
    reveal_strlit("disable");
    reveal_strlit("all");
    reveal_strlit("\r\n");
    reveal_strlit("enable all\r\n");
    reveal_strlit("disable all\r\n");
    assert(typable(seq![' ']));
    assert(typable(word));
    lemma_typable_concat(word, seq![' ']);
    lemma_typable_concat(word + seq![' '], "all"@);
    sent_lines_run(r, line, version);
    assert(line + "\r\n"@ =~= if on {
        enable_text()
    } else {
        disable_text()
    });
    let w = seq![word] + seq!["all"@];
    assert(w[1] == "all"@);
    assert(request(words(line)) == (Request::Enable { target: Target::All, on }));
}

/// The safe stop leaves an idle board with every axis stopped and every motor
/// free. What else was commanded of the board stays.
#[verifier::rlimit(40)]
pub proof fn stopping_stops(r: Record, version: Seq<char>)
    requires
        r.wf(),
    ensures
        told_all(idle(r), stop_texts(), version) == idle(r.released()),
{
    let r1 = r.commanded(0, AxisCmd::Jog(0));
    let r2 = r1.commanded(1, AxisCmd::Jog(0));
    let r3 = r2.commanded(2, AxisCmd::Jog(0));
    let r4 = r3.commanded(3, AxisCmd::Jog(0));
    lemma_jogged_wf(r, 0);
    lemma_jogged_wf(r1, 1);
    lemma_jogged_wf(r2, 2);
    lemma_jogged_wf(r3, 3);
    let t0 = Seq::<Seq<char>>::empty();
    let t1 = t0.push(jog_text(0, 0));
    let t2 = t1.push(jog_text(1, 0));
    let t3 = t2.push(jog_text(2, 0));
    let t4 = t3.push(jog_text(3, 0));
    assert(told_all(idle(r), t1, version) == idle(r1)) by {
        jogs_are_obeyed(r, 0, 0, version);
        lemma_told_one_more(idle(r), t0, jog_text(0, 0), version);
    }
    assert(told_all(idle(r), t2, version) == idle(r2)) by {
        jogs_are_obeyed(r1, 1, 0, version);
        lemma_told_one_more(idle(r), t1, jog_text(1, 0), version);
    }
    assert(told_all(idle(r), t3, version) == idle(r3)) by {
        jogs_are_obeyed(r2, 2, 0, version);
        lemma_told_one_more(idle(r), t2, jog_text(2, 0), version);
    }
    assert(told_all(idle(r), t4, version) == idle(r4)) by {
        jogs_are_obeyed(r3, 3, 0, version);
        lemma_told_one_more(idle(r), t3, jog_text(3, 0), version);
    }
    switching_is_obeyed(r4, false, version);
    lemma_told_one_more(idle(r), t4, disable_text(), version);
    assert(stop_texts() =~= t4.push(disable_text()));
    lemma_stopped_record(r);
}

proof fn lemma_jogged_wf(r: Record, axis: int)
    requires
        r.wf(),
        0 <= axis < AXES,
    ensures
        r.commanded(axis, AxisCmd::Jog(0)).wf(),
{
}

proof fn lemma_told_one_more(s: Seat, texts: Seq<Seq<char>>, text: Seq<char>, version: Seq<char>)
    ensures
        told_all(s, texts.push(text), version) == told(told_all(s, texts, version), text, version),
{
    assert(texts.push(text).drop_last() =~= texts);
}

proof fn lemma_stopped_record(r: Record)
    requires
        r.wf(),
    ensures
        r.commanded(0, AxisCmd::Jog(0)).commanded(1, AxisCmd::Jog(0)).commanded(
            2,
            AxisCmd::Jog(0),
        ).commanded(3, AxisCmd::Jog(0)).all_commanded(AxisCmd::Enable(false)) == r.released(),
{
    let stopped = r.commanded(0, AxisCmd::Jog(0)).commanded(1, AxisCmd::Jog(0)).commanded(
        2,
        AxisCmd::Jog(0),
    ).commanded(3, AxisCmd::Jog(0)).all_commanded(AxisCmd::Enable(false));
    assert(stopped =~= r.released());
}

// --------------------------------------------------------------------------
// Handshake
// --------------------------------------------------------------------------

/// What comes back to a host that asks an idle board for its version.
pub open spec fn version_transcript(version: Seq<char>) -> Seq<char> {
    "\r\n"@ + "> "@ + "\r\n"@ + "> "@ + "version"@ + "\r\n"@ + "tmc-new-era firmware v"@ + version
        + "\r\n"@ + "> "@ + "\r\n"@ + "> "@
}

proof fn lemma_tokens()
    ensures
        forall|rest: Seq<char>|
            #![trigger version_in("\r\n"@ + rest)]
            version_in("\r\n"@ + rest) == version_in(rest),
        forall|rest: Seq<char>|
            #![trigger version_in("> "@ + rest)]
            version_in("> "@ + rest) == version_in(rest),
{
    reveal_strlit("\r\n");
    reveal_strlit("> ");
    assert forall|rest: Seq<char>|
        #![trigger version_in("\r\n"@ + rest)]
        version_in("\r\n"@ + rest) == version_in(rest) by {
        assert("\r\n"@ + rest =~= seq!['\r'] + (seq!['\n'] + rest));
        lemma_skip_separator('\r', seq!['\n'] + rest);
        lemma_skip_separator('\n', rest);
    }
    assert forall|rest: Seq<char>|
        #![trigger version_in("> "@ + rest)]
        version_in("> "@ + rest) == version_in(rest) by {
        assert("> "@ + rest =~= seq!['>'] + (seq![' '] + rest));
        lemma_skip_separator('>', seq![' '] + rest);
        lemma_skip_separator(' ', rest);
    }
}

/// A token whose first character is no `v`, and a separator, are passed over.
proof fn lemma_plain_token(token: Seq<char>, c: char, rest: Seq<char>)
    requires
        token.len() > 0,
        token[0] != 'v',
        forall|i: int| 0 <= i < token.len() ==> in_token(#[trigger] token[i]),
        !in_token(c),
    ensures
        version_in(token + (seq![c] + rest)) == version_in(rest),
{
    lemma_skip_token(token, seq![c] + rest);
    lemma_skip_separator(c, rest);
}

/// `tmc-new-era`, and a separator, tell no version.
proof fn lemma_project_name(c: char, rest: Seq<char>)
    requires
        !in_token(c),
    ensures
        version_in("tmc-new-era"@ + (seq![c] + rest)) == version_in(rest),
{
    reveal_strlit("tmc-new-era");
    let tmc = seq!['t', 'm', 'c'];
    let new = seq!['n', 'e', 'w'];
    let era = seq!['e', 'r', 'a'];
    let tail = era + (seq![c] + rest);
    let middle = new + (seq!['-'] + tail);
    assert("tmc-new-era"@ + (seq![c] + rest) =~= tmc + (seq!['-'] + middle));
    lemma_plain_token(tmc, '-', middle);
    lemma_plain_token(new, '-', tail);
    lemma_plain_token(era, c, rest);
}

/// The host finds the version of a board in what comes back.
#[verifier::rlimit(40)]
pub proof fn transcripts_name_the_version(version: Seq<char>)
    requires
        is_version(version),
    ensures
        version_in(version_transcript(version)) == Some(version),
{
    reveal_strlit("version");
    reveal_strlit("tmc-new-era firmware v");
    reveal_strlit("tmc-new-era");
    reveal_strlit("\r\n");
    lemma_tokens();
    let end = "\r\n"@ + ("> "@ + ("\r\n"@ + "> "@));
    let told = seq!['v'] + version + end;
    let firmware = seq!['f', 'i', 'r', 'm', 'w', 'a', 'r', 'e'];
    let reply = "tmc-new-era"@ + (seq![' '] + (firmware + (seq![' '] + told)));
    let echo = "version"@ + ("\r\n"@ + reply);
    assert(version_in(told) == Some(version)) by {
        assert(end[0] == '\r');
        versions_are_found(version, end);
    }
    lemma_plain_token(firmware, ' ', told);
    lemma_project_name(' ', firmware + (seq![' '] + told));
    assert(version_in(echo) == version_in("\r\n"@ + reply)) by {
        assert(!names_version("version"@)) by {
            let rest = "version"@.skip(1);
            assert(rest[0] == 'e');
            assert forall|i: int, j: int| !#[trigger] dotted(rest, i, j) by {
                if dotted(rest, i, j) {
                    assert(is_digit(rest[0]));
                }
            }
        }
        assert(("\r\n"@ + reply)[0] == '\r');
        lemma_skip_token("version"@, "\r\n"@ + reply);
    }
    assert("tmc-new-era firmware v"@ =~= "tmc-new-era"@ + (seq![' '] + (firmware + (seq![' ']
        + seq!['v']))));
    let whole = "\r\n"@ + ("> "@ + ("\r\n"@ + ("> "@ + echo)));
    assert(version_transcript(version) =~= whole);
}

/// What comes back for one byte.
proof fn lemma_spoken_one(s: Seat, b: u8, version: Seq<char>, room: bool)
    ensures
        spoken(s, seq![b], version, room) == said(answered(s, b, version, room)),
        served_all(s, seq![b], version) == served(s, b, version),
{
    reveal(served_all);
    reveal(spoken);
    assert(seq![b].drop_last() =~= Seq::<u8>::empty());
    assert(spoken(s, Seq::empty(), version, room) =~= Seq::<u8>::empty());
    assert(served_all(s, Seq::empty(), version) == s);
    assert(spoken(s, seq![b], version, room) =~= said(answered(s, b, version, room)));
}

/// An empty line is answered with a prompt, and changes nothing.
proof fn lemma_empty_line(r: Record, b: u8, version: Seq<char>, room: bool)
    requires
        ends_line(b),
    ensures
        spoken(idle(r), seq![b], version, room) == encode_utf8("\r\n"@) + encode_utf8("> "@),
        served_all(idle(r), seq![b], version) == idle(r),
{
    reveal(served);
    lemma_spoken_one(idle(r), b, version, room);
    let a = shown("\r\n"@) + shown("> "@);
    reveal(answered);
    assert(answered(idle(r), b, version, room) =~= a);
    lemma_said_concat(shown("\r\n"@), shown("> "@));
    sent_is_said(encode_utf8("\r\n"@));
    sent_is_said(encode_utf8("> "@));
}

/// The question for the version, typed and entered, is answered with it.
#[verifier::rlimit(40)]
proof fn lemma_version_line(r: Record, version: Seq<char>, room: bool)
    requires
        size(version) <= 40,
    ensures
        ({
            let asked = Seat { line: "version"@, record: r };
            &&& spoken(asked, seq![0x0du8], version, room) == encode_utf8("\r\n"@) + encode_utf8(
                joined(version_pieces(version)),
            ) + encode_utf8("> "@)
            &&& served_all(asked, seq![0x0du8], version) == idle(r)
        }),
{
    reveal(served);
    let asked = Seat { line: "version"@, record: r };
    let text = joined(version_pieces(version));
    reveal_strlit("version");
    reveal_strlit("help");
    reveal_strlit("?");
    lemma_one_word("version"@);
    assert(request(words("version"@)) == Request::Version) by {
        assert("version"@.len() == 7 && "help"@.len() == 4 && "?"@.len() == 1);
        assert(seq!["version"@][0] == "version"@);
    }
    version_is_whole(version);
    lemma_spoken_one(asked, 0x0d, version, room);
    let a = shown("\r\n"@) + shown(text) + shown("> "@);
    reveal(answered);
    assert(answered(asked, 0x0d, version, room) =~= a);
    lemma_said_concat(shown("\r\n"@) + shown(text), shown("> "@));
    lemma_said_concat(shown("\r\n"@), shown(text));
    sent_is_said(encode_utf8("\r\n"@));
    sent_is_said(encode_utf8(text));
    sent_is_said(encode_utf8("> "@));
}

/// What comes back to a host that asks an idle board for its version is the
/// transcript, and the board stays as it was.
#[verifier::rlimit(40)]
pub proof fn boards_tell_their_version(r: Record, version: Seq<char>, room: bool)
    requires
        size(version) <= 40,
    ensures
        spoken(idle(r), encode_utf8(query_text()), version, room) == encode_utf8(
            version_transcript(version),
        ),
        served_all(idle(r), encode_utf8(query_text()), version) == idle(r),
{
    let cr = seq![0x0du8];
    let lf = seq![0x0au8];
    let word = encode_utf8("version"@);
    lemma_query_bytes();
    lemma_empty_line(r, 0x0d, version, room);
    lemma_empty_line(r, 0x0a, version, room);
    lemma_version_typed(r, version, room);
    lemma_version_line(r, version, room);
    lemma_in_turn(idle(r), cr, lf, version, room);
    lemma_in_turn(idle(r), cr + lf, word, version, room);
    lemma_in_turn(idle(r), cr + lf + word, cr, version, room);
    lemma_in_turn(idle(r), cr + lf + word + cr, lf, version, room);
    lemma_transcript_bytes(version);
}

/// One run of bytes behind another.
proof fn lemma_in_turn(s: Seat, a: Seq<u8>, b: Seq<u8>, version: Seq<char>, room: bool)
    ensures
        spoken(s, a + b, version, room) == spoken(s, a, version, room) + spoken(
            served_all(s, a, version),
            b,
            version,
            room,
        ),
        served_all(s, a + b, version) == served_all(served_all(s, a, version), b, version),
{
    lemma_spoken_concat(s, a, b, version, room);
    packets_do_not_matter(s, a, b, version);
}

proof fn lemma_query_bytes()
    ensures
        encode_utf8(query_text()) == seq![0x0du8] + seq![0x0au8] + encode_utf8("version"@)
            + seq![0x0du8] + seq![0x0au8],
{
    reveal_strlit("version");
    reveal_strlit("\r\nversion\r\n");
    is_ascii_chars_encode_utf8("version"@);
    is_ascii_chars_encode_utf8(query_text());
    assert(encode_utf8(query_text()) =~= seq![0x0du8] + seq![0x0au8] + encode_utf8("version"@)
        + seq![0x0du8] + seq![0x0au8]);
}

/// The question for the version, typed on an empty line.
proof fn lemma_version_typed(r: Record, version: Seq<char>, room: bool)
    ensures
        spoken(idle(r), encode_utf8("version"@), version, room) == encode_utf8("version"@),
        served_all(idle(r), encode_utf8("version"@), version) == (Seat {
            line: "version"@,
            record: r,
        }),
{
    let word = encode_utf8("version"@);
    reveal_strlit("version");
    is_ascii_chars_encode_utf8("version"@);
    assert forall|i: int| 0 <= i < word.len() implies printable(#[trigger] word[i]) by {
        assert(word[i] == "version"@[i] as u8);
    }
    typing_is_echoed(idle(r), word, version, room);
    typing_leaves_the_board(idle(r), word, version);
    typing_appends(Seq::empty(), word);
    assert(Seq::<char>::empty() + typed_text(word) =~= "version"@);
}

proof fn lemma_transcript_bytes(version: Seq<char>)
    ensures
        ({
            let line = encode_utf8("\r\n"@) + encode_utf8("> "@);
            line + line + encode_utf8("version"@) + (encode_utf8("\r\n"@) + encode_utf8(
                joined(version_pieces(version)),
            ) + encode_utf8("> "@)) + line == encode_utf8(version_transcript(version))
        }),
{
    let n = "\r\n"@;
    let p = "> "@;
    let v = "version"@;
    let j = joined(version_pieces(version));
    let f = "tmc-new-era firmware v"@;
    reveal_with_fuel(joined, 4);
    assert(j =~= f + version + n) by {
        let pieces = version_pieces(version);
        assert(pieces.skip(1).skip(1).skip(1) =~= Seq::<Seq<char>>::empty());
        assert(pieces.skip(1)[0] == version);
        assert(pieces.skip(1).skip(1)[0] == n);
        assert(joined(pieces.skip(1).skip(1).skip(1)) =~= Seq::<char>::empty());
    }
    let text = n + p + (n + p) + v + (n + j + p) + (n + p);
    assert(version_transcript(version) =~= text);
    lemma_encode_concat(n, p);
    lemma_encode_concat(n + p, n + p);
    lemma_encode_concat(n + p + (n + p), v);
    lemma_encode_concat(n, j);
    lemma_encode_concat(n + j, p);
    lemma_encode_concat(n + p + (n + p) + v, n + j + p);
    lemma_encode_concat(n + p + (n + p) + v + (n + j + p), n + p);
}

/// A host that asks an idle board for its version gets it: what comes back is
/// UTF-8, and the version that it names is the board's.
pub proof fn handshakes_succeed(r: Record, version: Seq<char>, room: bool)
    requires
        is_version(version),
        size(version) <= 40,
    ensures
        ({
            let reply = spoken(idle(r), encode_utf8(query_text()), version, room);
            &&& valid_utf8(reply)
            &&& version_in(decode_utf8(reply)) == Some(version)
        }),
{
    boards_tell_their_version(r, version, room);
    transcripts_name_the_version(version);
    encode_utf8_valid_utf8(version_transcript(version));
    encode_utf8_decode_utf8(version_transcript(version));
}

/// What comes back behind the first prompt.
pub open spec fn version_tail(version: Seq<char>) -> Seq<char> {
    "\r\n"@ + "> "@ + "version"@ + "\r\n"@ + "tmc-new-era firmware v"@ + version + "\r\n"@ + "> "@
        + "\r\n"@ + "> "@
}

/// Whatever line is under way when the host asks, the board tells its version:
/// first comes what the end of that line is answered, and then a reply that
/// names it.
#[verifier::rlimit(40)]
pub proof fn handshakes_end_what_is_under_way(s: Seat, version: Seq<char>, room: bool)
    requires
        is_version(version),
        size(version) <= 40,
    ensures
        spoken(s, encode_utf8(query_text()), version, room) == said(
            answered(s, 0x0d, version, room),
        ) + encode_utf8(version_tail(version)),
        served_all(s, encode_utf8(query_text()), version) == idle(served(s, 0x0d, version).record),
        version_in(version_tail(version)) == Some(version),
{
    let cr = seq![0x0du8];
    let r = served(s, 0x0d, version).record;
    lemma_query_bytes();
    assert(encode_utf8(query_text()) =~= cr + query_rest());
    line_ends_start_over(s, 0x0d, version);
    assert(served(s, 0x0d, version) =~= idle(r));
    lemma_spoken_one(s, 0x0d, version, room);
    lemma_in_turn(s, cr, query_rest(), version, room);
    lemma_version_tail(r, version, room);
    transcripts_name_the_version(version);
    lemma_tokens();
    assert(version_transcript(version) =~= "\r\n"@ + ("> "@ + version_tail(version)));
}

/// The bytes of the question behind the first.
pub open spec fn query_rest() -> Seq<u8> {
    seq![0x0au8] + encode_utf8("version"@) + seq![0x0du8] + seq![0x0au8]
}

proof fn lemma_version_tail(r: Record, version: Seq<char>, room: bool)
    requires
        size(version) <= 40,
    ensures
        spoken(idle(r), query_rest(), version, room) == encode_utf8(version_tail(version)),
        served_all(idle(r), query_rest(), version) == idle(r),
{
    let cr = seq![0x0du8];
    let rest = query_rest();
    let head = "\r\n"@ + "> "@;
    let tail = version_tail(version);
    let x = spoken(idle(r), rest, version, room);
    lemma_query_bytes();
    assert(encode_utf8(query_text()) =~= cr + rest);
    lemma_empty_line(r, 0x0d, version, room);
    lemma_in_turn(idle(r), cr, rest, version, room);
    boards_tell_their_version(r, version, room);
    assert(version_transcript(version) =~= head + tail);
    lemma_encode_concat("\r\n"@, "> "@);
    lemma_encode_concat(head, tail);
    assert(x =~= encode_utf8(tail)) by {
        let n = encode_utf8(head).len() as int;
        assert((encode_utf8(head) + x).skip(n) =~= x);
        assert((encode_utf8(head) + encode_utf8(tail)).skip(n) =~= encode_utf8(tail));
    }
}

/// A host that reads the greeting of a board learns its version from that
/// already, whatever follows.
#[verifier::rlimit(40)]
pub proof fn greetings_name_the_version(version: Seq<char>, rest: Seq<char>)
    requires
        is_version(version),
        size(version) <= 40,
    ensures
        version_in("\r\n"@ + (banner_text(version) + rest)) == Some(version),
{
    let end = " - SKR Pico stepper CLI"@ + rest;
    banner_is_whole(version);
    reveal_with_fuel(joined, 4);
    reveal_strlit("tmc-new-era v");
    reveal_strlit("tmc-new-era");
    reveal_strlit(" - SKR Pico stepper CLI");
    lemma_tokens();
    let told = seq!['v'] + version + end;
    assert(banner_text(version) + rest =~= "tmc-new-era"@ + (seq![' '] + told)) by {
        let pieces = banner_pieces(version);
        assert(pieces.skip(1)[0] == version);
        assert(pieces.skip(1).skip(1)[0] == " - SKR Pico stepper CLI"@);
        assert(pieces.skip(1).skip(1).skip(1) =~= Seq::<Seq<char>>::empty());
        assert(joined(pieces.skip(1).skip(1).skip(1)) =~= Seq::<char>::empty());
        assert("tmc-new-era v"@ =~= "tmc-new-era"@ + seq![' ', 'v']);
    }
    assert(end[0] == ' ');
    versions_are_found(version, end);
    lemma_project_name(' ', told);
}

} // verus!
