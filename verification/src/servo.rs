//! Servo outputs: pulse widths as compare values of a 50 Hz pulse generator.

use crate::board::{MAX_SERVO_US, SERVOS};
use vstd::prelude::*;

verus! {

/// The clock divider: 125 MHz over 64 is 1.953125 ticks per microsecond.
pub const SERVO_DIVIDER: u8 = 64;

/// The last tick of a period; 39063 ticks are 20 ms.
pub const SERVO_TOP: u16 = 39_062;

/// The settings of a pulse generator with two channels.
#[derive(Clone, Copy, Debug, PartialEq, Eq, Structural)]
pub struct PwmSetting {
    pub divider: u8,
    pub top: u16,
    pub compare_a: u16,
    pub compare_b: u16,
}

/// Whole ticks in `us` microseconds.
pub open spec fn ticks(us: int) -> int {
    (us * 1_953_125) / 1_000_000
}

/// The compare value for a pulse of `us` microseconds, in the width of the
/// compare register.
pub fn us_to_compare(us: u16) -> (r: u16)
    ensures
        r == ticks(us as int) % 0x10000,
        us <= MAX_SERVO_US ==> r == ticks(us as int),
{
    (((us as u64 * 1_953_125) / 1_000_000) % 0x10000) as u16
}

/// A servo generator with both channels off.
pub fn servo_base_config() -> (r: PwmSetting)
    ensures
        r == (PwmSetting {
            divider: SERVO_DIVIDER,
            top: SERVO_TOP,
            compare_a: 0,
            compare_b: 0,
        }),
{
    PwmSetting { divider: SERVO_DIVIDER, top: SERVO_TOP, compare_a: 0, compare_b: 0 }
}

/// Whether a servo hangs on the first channel of its generator.
pub open spec fn on_channel_a(servo: int) -> bool {
    servo == 0 || servo == 3
}

impl PwmSetting {
    /// The setting with a servo's channel at a new pulse width, in the width of
    /// the compare register.
    pub open spec fn updated(self, servo: int, us: u16) -> PwmSetting {
        let compare = (ticks(us as int) % 0x10000) as u16;
        if on_channel_a(servo) {
            PwmSetting { compare_a: compare, ..self }
        } else {
            PwmSetting { compare_b: compare, ..self }
        }
    }
}

/// Sets a servo's generator to a new pulse width; zero turns the channel off.
pub fn servo_update(cfg: &mut PwmSetting, idx: usize, us: u16)
    requires
        idx < SERVOS,
    ensures
        *final(cfg) == old(cfg).updated(idx as int, us),
{
    let compare: u16 = if us == 0 {
        0
    } else {
        us_to_compare(us)
    };
    if idx == 0 || idx == 3 {
        cfg.compare_a = compare;
    } else {
        cfg.compare_b = compare;
    }
}

/// No pulse that a command can ask for is on for more than half of a period.
pub proof fn duty_is_at_most_half(us: int)
    requires
        0 <= us <= MAX_SERVO_US,
    ensures
        0 <= 2 * ticks(us) <= SERVO_TOP,
{
}

/// A longer pulse never has a smaller compare value, and only a pulse of zero
/// turns a channel off.
pub proof fn ticks_grow(a: int, b: int)
    requires
        0 <= a <= b,
    ensures
        ticks(a) <= ticks(b),
        ticks(a) == 0 <==> a == 0,
{
}

/// A pulse is counted in whole ticks of 64 cycles of the 125 MHz clock: it is
/// no longer than asked for, and shorter by less than a tick.
pub proof fn ticks_measure_the_pulse(us: int)
    requires
        0 <= us,
    ensures
        ticks(us) * 64 <= us * 125 < (ticks(us) + 1) * 64,
{
}

/// The first and the fourth servo are on the first channel of their generators,
/// and the others on the second.
pub proof fn servos_have_their_channels(servo: int)
    requires
        0 <= servo < 5,
    ensures
        on_channel_a(servo) <==> servo % 3 == 0,
{
}

/// A servo's new pulse width reaches its own channel, and leaves the other and
/// the period alone. Every pulse that a command can ask for is set as it is.
pub proof fn servos_set_their_own_channel(cfg: PwmSetting, servo: int, us: u16)
    requires
        0 <= servo < 5,
        us <= 10_000,
    ensures
        ({
            let n = cfg.updated(servo, us);
            let mine = if servo == 0 || servo == 3 {
                n.compare_a
            } else {
                n.compare_b
            };
            &&& n.divider == cfg.divider && n.top == cfg.top
            &&& servo == 0 || servo == 3 ==> n.compare_b == cfg.compare_b
            &&& servo != 0 && servo != 3 ==> n.compare_a == cfg.compare_a
            &&& mine * 64 <= us * 125 < (mine + 1) * 64
        }),
{
}

/// The generators run at 50 Hz, to the nearest tick: a period is 20 ms of the
/// 125 MHz clock, or 2500000 cycles, of which a tick takes 64.
pub proof fn generators_run_at_fifty_hertz()
    ensures
        SERVO_DIVIDER == 64,
        2_500_000 <= (SERVO_TOP + 1) * 64 < 2_500_000 + 64,
{
}

} // verus!
