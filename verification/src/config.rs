//! What the host is told to do: the joystick, the boards, and which stick or
//! button drives which axis of which board.

use crate::reply::owned;
use crate::text::{decimal, unsigned_text};
use vstd::prelude::*;

verus! {

/// A stick that drives an axis. How far it has to go, and how fast that is,
/// is not for this library to tell.
#[derive(Debug)]
pub struct AxisMap {
    /// The number of the stick.
    pub index: usize,
    /// The axis: `x`, `y`, `z` or `e`; anything else is none.
    pub target: String,
}

/// A button that nudges an axis.
#[derive(Debug)]
pub struct ButtonMap {
    /// The number of the button.
    pub index: usize,
    /// The axis: `x`, `y`, `z` or `e`; anything else is none.
    pub target: String,
    /// How many steps a press is worth, and in which direction.
    pub delta: i32,
    /// The step rate of the nudge.
    pub hz: u32,
}

/// A board.
#[derive(Debug)]
pub struct BoardConfig {
    /// The path of its serial device.
    pub serial: String,
    /// What to call it.
    pub name: Option<String>,
    pub axes: Vec<AxisMap>,
    pub buttons: Vec<ButtonMap>,
}

/// Everything.
#[derive(Debug)]
pub struct Config {
    /// The path of the joystick device.
    pub device: String,
    pub poll_hz: u32,
    /// Print every command that is sent.
    pub log: bool,
    pub enable_on_start: bool,
    pub safe_stop_on_exit: bool,
    pub boards: Vec<BoardConfig>,
}

/// How often the sticks are polled if nothing else is said.
pub fn default_poll_hz() -> (r: u32)
    ensures
        r == 40,
{
    40
}

/// Boards are enabled on start, and stopped on exit, if nothing else is said.
pub fn default_true() -> (r: bool)
    ensures
        r,
{
    true
}

/// The step rate of a nudge if nothing else is said.
pub fn default_button_hz() -> (r: u32)
    ensures
        r == 1000,
{
    1000
}

/// Why a configuration is of no use.
#[derive(Clone, Copy, Debug, PartialEq, Eq, Structural)]
pub enum ConfigError {
    NoBoards,
}

pub open spec fn error_text(e: ConfigError) -> Seq<char> {
    match e {
        ConfigError::NoBoards => "config has no [[boards]] entries"@,
    }
}

impl ConfigError {
    /// What to tell of the error.
    pub fn text(self) -> (r: &'static str)
        ensures
            r@ == error_text(self),
    {
        match self {
            ConfigError::NoBoards => "config has no [[boards]] entries",
        }
    }
}

/// Holds a configuration to what it must have: a board.
pub fn check_config(cfg: &Config) -> (r: Result<(), ConfigError>)
    ensures
        r == (if cfg.boards@.len() == 0 {
            Err::<(), ConfigError>(ConfigError::NoBoards)
        } else {
            Ok::<(), ConfigError>(())
        }),
{
    if cfg.boards.len() == 0 {
        Err(ConfigError::NoBoards)
    } else {
        Ok(())
    }
}

/// What a board is called: its name, or else the path of its device.
pub open spec fn label_of(b: BoardConfig) -> Seq<char> {
    match b.name {
        Some(name) => name@,
        None => b.serial@,
    }
}

/// What a board is called.
pub fn board_label(b: &BoardConfig) -> (r: String)
    ensures
        r@ == label_of(*b),
{
    match &b.name {
        Some(name) => owned(name.as_str()),
        None => owned(b.serial.as_str()),
    }
}

/// The rate at which the sticks are polled: what is asked for, within bounds.
pub open spec fn poll_rate(poll_hz: int) -> int {
    if poll_hz < 10 {
        10
    } else if poll_hz > 200 {
        200
    } else {
        poll_hz
    }
}

/// The rate at which the sticks are polled.
pub fn clamped_poll_hz(poll_hz: u32) -> (r: u32)
    ensures
        r == poll_rate(poll_hz as int),
{
    if poll_hz < 10 {
        10
    } else if poll_hz > 200 {
        200
    } else {
        poll_hz
    }
}

/// How many sticks drive anything on the first `n` boards.
pub open spec fn axis_count(boards: Seq<BoardConfig>, n: int) -> int
    decreases n,
{
    if n <= 0 {
        0
    } else {
        axis_count(boards, n - 1) + boards[n - 1].axes@.len()
    }
}

/// How many buttons nudge anything on the first `n` boards.
pub open spec fn button_count(boards: Seq<BoardConfig>, n: int) -> int
    decreases n,
{
    if n <= 0 {
        0
    } else {
        button_count(boards, n - 1) + boards[n - 1].buttons@.len()
    }
}

proof fn lemma_counts_grow(boards: Seq<BoardConfig>, n: int, m: int)
    requires
        0 <= n <= m <= boards.len(),
    ensures
        0 <= axis_count(boards, n) <= axis_count(boards, m),
        0 <= button_count(boards, n) <= button_count(boards, m),
    decreases m,
{
    if m > 0 {
        if n == m {
            lemma_counts_grow(boards, n - 1, m - 1);
        } else {
            lemma_counts_grow(boards, n, m - 1);
        }
    }
}

/// What the host says of a configuration when it has started.
pub open spec fn summary_text(cfg: Config) -> Seq<char> {
    let n = cfg.boards@.len() as int;
    "tmc-new-era-host: device="@ + cfg.device@ + " poll_hz="@ + decimal(cfg.poll_hz as nat)
        + " boards="@ + decimal(n as nat) + " axes="@ + decimal(axis_count(cfg.boards@, n) as nat)
        + " buttons="@ + decimal(button_count(cfg.boards@, n) as nat)
}

/// What the host says of a configuration when it has started.
pub fn summary(cfg: &Config) -> (r: String)
    requires
        axis_count(cfg.boards@, cfg.boards@.len() as int) <= usize::MAX,
        button_count(cfg.boards@, cfg.boards@.len() as int) <= usize::MAX,
    ensures
        r@ == summary_text(*cfg),
{
    let mut axes: usize = 0;
    let mut buttons: usize = 0;
    let mut i: usize = 0;
    while i < cfg.boards.len()
        invariant
            i <= cfg.boards@.len(),
            axis_count(cfg.boards@, cfg.boards@.len() as int) <= usize::MAX,
            button_count(cfg.boards@, cfg.boards@.len() as int) <= usize::MAX,
            axes == axis_count(cfg.boards@, i as int),
            buttons == button_count(cfg.boards@, i as int),
        decreases cfg.boards.len() - i,
    {
        proof {
            lemma_counts_grow(cfg.boards@, i + 1, cfg.boards@.len() as int);
        }
        axes += cfg.boards[i].axes.len();
        buttons += cfg.boards[i].buttons.len();
        i += 1;
    }
    let mut text: String = String::new();
    assert(text@ =~= Seq::<char>::empty());
    text.append("tmc-new-era-host: device=");
    text.append(cfg.device.as_str());
    text.append(" poll_hz=");
    text.append(unsigned_text(cfg.poll_hz as u64).as_str());
    text.append(" boards=");
    text.append(unsigned_text(cfg.boards.len() as u64).as_str());
    text.append(" axes=");
    text.append(unsigned_text(axes as u64).as_str());
    text.append(" buttons=");
    text.append(unsigned_text(buttons as u64).as_str());
    assert(text@ =~= summary_text(*cfg));
    text
}

// --------------------------------------------------------------------------
// Laws
// --------------------------------------------------------------------------

/// The sticks are polled at the rate that is asked for, or at the nearest that
/// there is, from 10 to 200 times a second.
pub proof fn polling_is_as_asked(poll_hz: int)
    ensures
        10 <= poll_rate(poll_hz) <= 200,
        10 <= poll_hz <= 200 ==> poll_rate(poll_hz) == poll_hz,
        poll_hz < 10 ==> poll_rate(poll_hz) == 10,
        poll_hz > 200 ==> poll_rate(poll_hz) == 200,
{
}

proof fn lemma_counts_of_a_prefix(boards: Seq<BoardConfig>, more: BoardConfig, n: int)
    requires
        0 <= n <= boards.len(),
    ensures
        axis_count(boards.push(more), n) == axis_count(boards, n),
        button_count(boards.push(more), n) == button_count(boards, n),
    decreases n,
{
    if n > 0 {
        lemma_counts_of_a_prefix(boards, more, n - 1);
    }
}

/// A board more adds its sticks and its buttons to those that are counted, and
/// without boards there are none.
pub proof fn boards_add_up(boards: Seq<BoardConfig>, more: BoardConfig)
    ensures
        ({
            let n = boards.len() as int;
            &&& axis_count(Seq::empty(), 0) == 0
            &&& button_count(Seq::empty(), 0) == 0
            &&& axis_count(boards.push(more), n + 1) == axis_count(boards, n) + more.axes@.len()
            &&& button_count(boards.push(more), n + 1) == button_count(boards, n)
                + more.buttons@.len()
        }),
{
    lemma_counts_of_a_prefix(boards, more, boards.len() as int);
}

/// The summary names the device, and tells the rate that was asked for and the
/// numbers of boards, sticks and buttons.
pub proof fn summaries_tell_the_numbers(cfg: Config, axes: nat, buttons: nat)
    requires
        axes == axis_count(cfg.boards@, cfg.boards@.len() as int),
        buttons == button_count(cfg.boards@, cfg.boards@.len() as int),
    ensures
        summary_text(cfg) == "tmc-new-era-host: device="@ + cfg.device@ + (" poll_hz="@ + decimal(
            cfg.poll_hz as nat,
        )) + (" boards="@ + decimal(cfg.boards@.len())) + (" axes="@ + decimal(axes)) + (
        " buttons="@ + decimal(buttons)),
{
    assert(summary_text(cfg) =~= "tmc-new-era-host: device="@ + cfg.device@ + (" poll_hz="@
        + decimal(cfg.poll_hz as nat)) + (" boards="@ + decimal(cfg.boards@.len())) + (" axes="@
        + decimal(axes)) + (" buttons="@ + decimal(buttons)));
}

/// A board goes by its name, and by its device where it has none.
pub proof fn boards_go_by_their_name(b: BoardConfig)
    ensures
        b.name matches Some(name) ==> label_of(b) == name@,
        b.name is None ==> label_of(b) == b.serial@,
{
}

} // verus!
