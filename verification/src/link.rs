//! What the host sends to a board: jogs, nudges, and the commands of its start
//! and of its end.

use crate::axis::{axis_index, axis_named, AXES};
use crate::config::ButtonMap;
use crate::reply::owned;
use crate::text::{decimal, signed_decimal, signed_text, unsigned_text};
use vstd::prelude::*;

verus! {

/// The word that names an axis to a board.
pub open spec fn axis_word(axis: int) -> Seq<char> {
    if axis == 0 {
        "x"@
    } else if axis == 1 {
        "y"@
    } else if axis == 2 {
        "z"@
    } else {
        "e"@
    }
}

/// The word that names an axis to a board.
pub fn axis_word_of(axis: usize) -> (r: &'static str)
    requires
        axis < AXES,
    ensures
        r@ == axis_word(axis as int),
{
    if axis == 0 {
        "x"
    } else if axis == 1 {
        "y"
    } else if axis == 2 {
        "z"
    } else {
        "e"
    }
}

/// The word that names a configured axis to a board; none if it names none.
pub fn axis_token(s: &str) -> (r: Option<&'static str>)
    ensures
        match axis_named(s@) {
            Some(axis) => r matches Some(t) && t@ == axis_word(axis),
            None => r is None,
        },
{
    match axis_index(s) {
        Some(axis) => Some(axis_word_of(axis)),
        None => None,
    }
}

/// The command that gives an axis a velocity.
pub open spec fn jog_text(axis: int, hz: int) -> Seq<char> {
    "jog "@ + axis_word(axis) + " "@ + signed_decimal(hz) + "\r\n"@
}

/// The command that gives an axis a velocity.
pub fn jog_command(axis: usize, hz: i32) -> (r: String)
    requires
        axis < AXES,
    ensures
        r@ == jog_text(axis as int, hz as int),
{
    let mut text: String = String::new();
    assert(text@ =~= Seq::<char>::empty());
    text.append("jog ");
    text.append(axis_word_of(axis));
    text.append(" ");
    text.append(signed_text(hz as i64).as_str());
    text.append("\r\n");
    assert(text@ =~= jog_text(axis as int, hz as int));
    text
}

/// The command that moves an axis by some steps.
pub open spec fn move_text(axis: int, delta: int, hz: nat) -> Seq<char> {
    "move "@ + axis_word(axis) + " "@ + signed_decimal(delta) + " "@ + decimal(hz) + "\r\n"@
}

/// The command that moves an axis by some steps.
pub fn move_command(axis: usize, delta: i32, hz: u32) -> (r: String)
    requires
        axis < AXES,
    ensures
        r@ == move_text(axis as int, delta as int, hz as nat),
{
    let mut text: String = String::new();
    assert(text@ =~= Seq::<char>::empty());
    text.append("move ");
    text.append(axis_word_of(axis));
    text.append(" ");
    text.append(signed_text(delta as i64).as_str());
    text.append(" ");
    text.append(unsigned_text(hz as u64).as_str());
    text.append("\r\n");
    assert(text@ =~= move_text(axis as int, delta as int, hz as nat));
    text
}

/// The views of a run of commands.
pub open spec fn texts(v: Seq<String>) -> Seq<Seq<char>> {
    v.map_values(|s: String| s@)
}

/// Whether a binding is for a button, and for an axis.
pub open spec fn listens(b: ButtonMap, button: u8) -> bool {
    b.index == button && axis_named(b.target@) is Some
}

/// What a press of a button sends to a board: a move for each of the first
/// `n` bindings that listens to it, in their order.
pub open spec fn presses(buttons: Seq<ButtonMap>, n: int, button: u8) -> Seq<Seq<char>>
    decreases n,
{
    if n <= 0 {
        Seq::empty()
    } else {
        let b = buttons[n - 1];
        let before = presses(buttons, n - 1, button);
        if listens(b, button) {
            before.push(move_text(axis_named(b.target@)->0, b.delta as int, b.hz as nat))
        } else {
            before
        }
    }
}

/// What a press of a button sends to a board.
pub fn button_commands(buttons: &Vec<ButtonMap>, button: u8) -> (r: Vec<String>)
    ensures
        texts(r@) == presses(buttons@, buttons@.len() as int, button),
{
    let mut out: Vec<String> = Vec::new();
    let mut i: usize = 0;
    assert(texts(out@) =~= Seq::<Seq<char>>::empty());
    while i < buttons.len()
        invariant
            i <= buttons@.len(),
            texts(out@) == presses(buttons@, i as int, button),
        decreases buttons.len() - i,
    {
        let b: &ButtonMap = &buttons[i];
        if b.index == button as usize {
            if let Some(axis) = axis_index(b.target.as_str()) {
                let ghost before = out@;
                out.push(move_command(axis, b.delta, b.hz));
                assert(texts(out@) =~= texts(before).push(
                    move_text(axis as int, b.delta as int, b.hz as nat),
                ));
            }
        }
        i += 1;
    }
    out
}

/// The command that energises every motor.
pub open spec fn enable_text() -> Seq<char> {
    "enable all\r\n"@
}

/// The command that frees every motor.
pub open spec fn disable_text() -> Seq<char> {
    "disable all\r\n"@
}

/// What the host sends to each board when it starts, if it is to.
pub open spec fn start_texts(enable_on_start: bool) -> Seq<Seq<char>> {
    if enable_on_start {
        seq![enable_text()]
    } else {
        Seq::empty()
    }
}

/// What the host sends to each board when it starts, if it is to.
pub fn start_commands(enable_on_start: bool) -> (r: Vec<String>)
    ensures
        texts(r@) == start_texts(enable_on_start),
{
    let mut out: Vec<String> = Vec::new();
    if enable_on_start {
        out.push(owned("enable all\r\n"));
        assert(texts(out@) =~= seq![enable_text()]);
    } else {
        assert(texts(out@) =~= Seq::<Seq<char>>::empty());
    }
    out
}

/// What stops a board: every axis stopped, and every motor freed.
pub open spec fn stop_texts() -> Seq<Seq<char>> {
    seq![jog_text(0, 0), jog_text(1, 0), jog_text(2, 0), jog_text(3, 0), disable_text()]
}

/// What the host sends to each board when it ends, if it is to.
pub open spec fn end_texts(safe_stop_on_exit: bool) -> Seq<Seq<char>> {
    if safe_stop_on_exit {
        stop_texts()
    } else {
        Seq::empty()
    }
}

/// What the host sends to each board when it ends, if it is to.
pub fn stop_commands(safe_stop_on_exit: bool) -> (r: Vec<String>)
    ensures
        texts(r@) == end_texts(safe_stop_on_exit),
{
    let mut out: Vec<String> = Vec::new();
    assert(texts(out@) =~= Seq::<Seq<char>>::empty());
    if safe_stop_on_exit {
        let mut axis: usize = 0;
        while axis < AXES
            invariant
                axis <= AXES,
                texts(out@) == stop_texts().take(axis as int),
            decreases AXES - axis,
        {
            let ghost before = out@;
            out.push(jog_command(axis, 0));
            assert(texts(out@) =~= texts(before).push(jog_text(axis as int, 0)));
            assert(stop_texts().take(axis + 1) =~= stop_texts().take(axis as int).push(
                stop_texts()[axis as int],
            ));
            axis += 1;
        }
        let ghost before = out@;
        out.push(owned("disable all\r\n"));
        assert(texts(out@) =~= texts(before).push(disable_text()));
        assert(texts(out@) =~= stop_texts());
    }
    out
}

/// The characters that count as white space in Unicode.
pub open spec fn is_white(c: char) -> bool {
    ||| '\u{9}' <= c <= '\u{d}'
    ||| c == ' '
    ||| c == '\u{85}'
    ||| c == '\u{a0}'
    ||| c == '\u{1680}'
    ||| '\u{2000}' <= c <= '\u{200a}'
    ||| c == '\u{2028}'
    ||| c == '\u{2029}'
    ||| c == '\u{202f}'
    ||| c == '\u{205f}'
    ||| c == '\u{3000}'
}

fn is_white_char(c: char) -> (r: bool)
    ensures
        r == is_white(c),
{
    ('\u{9}' <= c && c <= '\u{d}') || c == ' ' || c == '\u{85}' || c == '\u{a0}' || c == '\u{1680}'
        || ('\u{2000}' <= c && c <= '\u{200a}') || c == '\u{2028}' || c == '\u{2029}' || c
        == '\u{202f}' || c == '\u{205f}' || c == '\u{3000}'
}

/// A text without the white space at its end.
pub open spec fn trimmed(s: Seq<char>) -> Seq<char>
    decreases s.len(),
{
    if s.len() > 0 && is_white(s.last()) {
        trimmed(s.drop_last())
    } else {
        s
    }
}

/// What the log says of a command.
pub open spec fn log_text(label: Seq<char>, command: Seq<char>) -> Seq<char> {
    "["@ + label + "] > "@ + trimmed(command)
}

/// What the log says of a command.
pub fn log_line(label: &str, command: &str) -> (r: String)
    ensures
        r@ == log_text(label@, command@),
{
    let mut n: usize = command.unicode_len();
    assert(command@.take(n as int) =~= command@);
    while n > 0 && is_white_char(command.get_char(n - 1))
        invariant
            n <= command@.len(),
            trimmed(command@.take(n as int)) == trimmed(command@),
        decreases n,
    {
        assert(command@.take(n as int).drop_last() =~= command@.take(n - 1));
        n -= 1;
    }
    let mut text: String = String::new();
    assert(text@ =~= Seq::<char>::empty());
    text.append("[");
    text.append(label);
    text.append("] > ");
    text.append(command.substring_char(0, n));
    assert(command@.take(n as int) =~= command@.subrange(0, n as int));
    assert(text@ =~= log_text(label@, command@));
    text
}

// --------------------------------------------------------------------------
// Laws
// --------------------------------------------------------------------------

proof fn lemma_presses_of_a_prefix(buttons: Seq<ButtonMap>, more: ButtonMap, n: int, button: u8)
    requires
        0 <= n <= buttons.len(),
    ensures
        presses(buttons.push(more), n, button) == presses(buttons, n, button),
    decreases n,
{
    if n > 0 {
        lemma_presses_of_a_prefix(buttons, more, n - 1, button);
        assert(buttons.push(more)[n - 1] == buttons[n - 1]);
    }
}

/// A press goes through the bindings in order. A binding more sends its move,
/// as far and as fast as it says, if it is bound to the button and names an
/// axis; otherwise it sends nothing.
pub proof fn presses_send_in_turn(buttons: Seq<ButtonMap>, more: ButtonMap, button: u8)
    ensures
        ({
            let n = buttons.len() as int;
            let before = presses(buttons, n, button);
            let after = presses(buttons.push(more), n + 1, button);
            &&& presses(Seq::empty(), 0, button) == Seq::<Seq<char>>::empty()
            &&& match axis_named(more.target@) {
                Some(axis) => if more.index == button {
                    after == before.push(move_text(axis, more.delta as int, more.hz as nat))
                } else {
                    after == before
                },
                None => after == before,
            }
        }),
{
    lemma_presses_of_a_prefix(buttons, more, buttons.len() as int, button);
    assert(buttons.push(more)[buttons.len() as int] == more);
}

/// Commands are worded as the boards read them: each is one line of words, with
/// the axis in a small letter and the numbers in decimal.
pub proof fn commands_are_worded(axis: int, n: int, hz: nat)
    requires
        0 <= axis < 4,
    ensures
        ({
            let name = if axis == 0 {
                seq!['x']
            } else if axis == 1 {
                seq!['y']
            } else if axis == 2 {
                seq!['z']
            } else {
                seq!['e']
            };
            &&& jog_text(axis, n) == "jog "@ + name + seq![' '] + signed_decimal(n) + seq![
                '\r',
                '\n',
            ]
            &&& move_text(axis, n, hz) == "move "@ + name + seq![' '] + signed_decimal(n) + seq![
                ' ',
            ] + decimal(hz) + seq!['\r', '\n']
            &&& enable_text() == "enable all"@ + seq!['\r', '\n']
            &&& disable_text() == "disable all"@ + seq!['\r', '\n']
            &&& start_texts(true) == seq!["enable all"@ + seq!['\r', '\n']]
            &&& start_texts(false).len() == 0
            &&& end_texts(true) == stop_texts()
            &&& end_texts(false).len() == 0
            &&& stop_texts().len() == 5
            &&& stop_texts()[axis] == jog_text(axis, 0)
            &&& stop_texts()[4] == disable_text()
        }),
{
    reveal_strlit("x");
    reveal_strlit("y");
    reveal_strlit("z");
    reveal_strlit("e");
    reveal_strlit(" ");
    reveal_strlit("\r\n");
    reveal_strlit("enable all");
    reveal_strlit("disable all");
    reveal_strlit("enable all\r\n");
    reveal_strlit("disable all\r\n");
    assert("x"@ =~= seq!['x'] && "y"@ =~= seq!['y'] && "z"@ =~= seq!['z'] && "e"@ =~= seq!['e']);
    assert(" "@ =~= seq![' ']);
    assert("\r\n"@ =~= seq!['\r', '\n']);
    assert(enable_text() =~= "enable all"@ + seq!['\r', '\n']);
    assert(disable_text() =~= "disable all"@ + seq!['\r', '\n']);
}

/// The log shows the board and the command, less the white space at the
/// command's end: what is left out is white, and what is kept ends in something else.
pub proof fn logs_are_trimmed(label: Seq<char>, command: Seq<char>)
    ensures
        ({
            let kept = trimmed(command);
            &&& log_text(label, command) == seq!['['] + label + seq![']', ' ', '>', ' '] + kept
            &&& kept.len() <= command.len()
            &&& kept == command.take(kept.len() as int)
            &&& forall|i: int|
                kept.len() <= i < command.len() ==> is_white(#[trigger] command[i])
            &&& kept.len() > 0 ==> !is_white(kept.last())
        }),
{
    reveal_strlit("[");
    reveal_strlit("] > ");
    assert("["@ =~= seq!['[']);
    assert("] > "@ =~= seq![']', ' ', '>', ' ']);
    lemma_trimmed(command);
}

proof fn lemma_trimmed(s: Seq<char>)
    ensures
        ({
            let kept = trimmed(s);
            &&& kept.len() <= s.len()
            &&& kept == s.take(kept.len() as int)
            &&& forall|i: int| kept.len() <= i < s.len() ==> is_white(#[trigger] s[i])
            &&& kept.len() > 0 ==> !is_white(kept.last())
        }),
    decreases s.len(),
{
    if s.len() > 0 && is_white(s.last()) {
        lemma_trimmed(s.drop_last());
        let kept = trimmed(s);
        assert(kept =~= s.take(kept.len() as int));
        assert forall|i: int| kept.len() <= i < s.len() implies is_white(#[trigger] s[i]) by {
            if i < s.len() - 1 {
                assert(s.drop_last()[i] == s[i]);
            }
        }
    } else {
        assert(s.take(s.len() as int) =~= s);
    }
}

/// White space is the blank, the controls from tab to carriage return, and the
/// other separators of Unicode.
pub proof fn white_space_is_that_of_unicode(c: char)
    ensures
        is_white(c) <==> (c as u32 >= 9 && c as u32 <= 13) || c as u32 == 0x20 || c as u32 == 0x85
            || c as u32 == 0xa0 || c as u32 == 0x1680 || (c as u32 >= 0x2000 && c as u32 <= 0x200a)
            || c as u32 == 0x2028 || c as u32 == 0x2029 || c as u32 == 0x202f || c as u32 == 0x205f
            || c as u32 == 0x3000,
{
}

} // verus!
