//! The four stepper axes: their names, and the commands their drivers take.

use crate::text::{chars_of, same};
use vstd::prelude::*;

verus! {

/// How many axes a board has.
pub const AXES: usize = 4;

/// A command for one axis.
#[derive(Clone, Copy, Debug, PartialEq, Eq, Structural)]
pub enum AxisCmd {
    /// Energise or free the motor.
    Enable(bool),
    /// Signed steps per second. Zero stops; it leaves the motor energised.
    Jog(i32),
    /// Slew limit in steps per second squared. Zero is instant.
    Accel(u32),
}

/// The level of an output pin.
#[derive(Clone, Copy, Debug, PartialEq, Eq, Structural)]
pub enum Level {
    Low,
    High,
}

/// The level of an enable pin, which is active low.
pub open spec fn en_level(on: bool) -> Level {
    if on {
        Level::Low
    } else {
        Level::High
    }
}

/// The enable pin's level for a motor that is energised or free.
pub fn enable_level(on: bool) -> (r: Level)
    ensures
        r == en_level(on),
{
    if on {
        Level::Low
    } else {
        Level::High
    }
}

/// The axis that a word names, in either case.
pub open spec fn axis_named(s: Seq<char>) -> Option<int> {
    if s == "x"@ || s == "X"@ {
        Some(0)
    } else if s == "y"@ || s == "Y"@ {
        Some(1)
    } else if s == "z"@ || s == "Z"@ {
        Some(2)
    } else if s == "e"@ || s == "E"@ {
        Some(3)
    } else {
        None
    }
}

/// The name under which replies speak of an axis.
pub open spec fn axis_label(axis: int) -> Seq<char> {
    if axis == 0 {
        "X"@
    } else if axis == 1 {
        "Y"@
    } else if axis == 2 {
        "Z"@
    } else {
        "E"@
    }
}

/// The axis that a word names, in either case.
pub fn axis_index(s: &str) -> (r: Option<usize>)
    ensures
        match r {
            Some(i) => i < AXES && axis_named(s@) == Some(i as int),
            None => axis_named(s@) is None,
        },
{
    axis_of(&chars_of(s))
}

/// The axis that a word of a command line names.
pub fn axis_of(word: &Vec<char>) -> (r: Option<usize>)
    ensures
        match r {
            Some(i) => i < AXES && axis_named(word@) == Some(i as int),
            None => axis_named(word@) is None,
        },
{
    if same(word, "x") || same(word, "X") {
        Some(0)
    } else if same(word, "y") || same(word, "Y") {
        Some(1)
    } else if same(word, "z") || same(word, "Z") {
        Some(2)
    } else if same(word, "e") || same(word, "E") {
        Some(3)
    } else {
        None
    }
}

/// The name under which replies speak of an axis.
pub fn axis_name(axis: usize) -> (r: &'static str)
    requires
        axis < AXES,
    ensures
        r@ == axis_label(axis as int),
{
    if axis == 0 {
        "X"
    } else if axis == 1 {
        "Y"
    } else if axis == 2 {
        "Z"
    } else {
        "E"
    }
}

/// Each axis answers to its own name.
pub proof fn labels_name_their_axis(axis: int)
    requires
        0 <= axis < AXES,
    ensures
        axis_named(axis_label(axis)) == Some(axis),
{
    reveal_strlit("x");
    reveal_strlit("X");
    reveal_strlit("y");
    reveal_strlit("Y");
    reveal_strlit("z");
    reveal_strlit("Z");
    reveal_strlit("e");
    reveal_strlit("E");
    assert("X"@[0] == 'X' && "Y"@[0] == 'Y' && "Z"@[0] == 'Z' && "E"@[0] == 'E');
    assert("x"@[0] == 'x' && "y"@[0] == 'y' && "z"@[0] == 'z' && "e"@[0] == 'e');
}

/// The names of the axes are the letters X, Y, Z and E, in either case and on
/// their own; nothing else names an axis. Replies use the capitals.
pub proof fn axes_have_their_letters(word: Seq<char>)
    ensures
        axis_named(word) == Some(0int) <==> word == seq!['x'] || word == seq!['X'],
        axis_named(word) == Some(1int) <==> word == seq!['y'] || word == seq!['Y'],
        axis_named(word) == Some(2int) <==> word == seq!['z'] || word == seq!['Z'],
        axis_named(word) == Some(3int) <==> word == seq!['e'] || word == seq!['E'],
        axis_named(word) matches Some(axis) ==> 0 <= axis < 4,
        axis_label(0) == seq!['X'],
        axis_label(1) == seq!['Y'],
        axis_label(2) == seq!['Z'],
        axis_label(3) == seq!['E'],
{
    reveal_strlit("x");
    reveal_strlit("X");
    reveal_strlit("y");
    reveal_strlit("Y");
    reveal_strlit("z");
    reveal_strlit("Z");
    reveal_strlit("e");
    reveal_strlit("E");
    assert("X"@ =~= seq!['X'] && "Y"@ =~= seq!['Y'] && "Z"@ =~= seq!['Z'] && "E"@ =~= seq!['E']);
    assert("x"@ =~= seq!['x'] && "y"@ =~= seq!['y'] && "z"@ =~= seq!['z'] && "e"@ =~= seq!['e']);
    assert(seq!['X'][0] == 'X' && seq!['Y'][0] == 'Y' && seq!['Z'][0] == 'Z' && seq!['E'][0] == 'E');
    assert(seq!['x'][0] == 'x' && seq!['y'][0] == 'y' && seq!['z'][0] == 'z' && seq!['e'][0] == 'e');
}

/// Enable pins are active low.
pub proof fn enable_pins_are_active_low()
    ensures
        en_level(true) is Low,
        en_level(false) is High,
{
}

} // verus!
