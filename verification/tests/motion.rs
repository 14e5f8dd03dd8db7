use tmc_new_era::axis::{AxisCmd, Level};
use tmc_new_era::motion::{Drive, Motion, Reaction, Wake, MAX_HZ, START_HZ, WATCHDOG_MS};

fn moving(target_v: i32, current_milli: i64, accel: u32) -> Motion {
    Motion {
        enabled: true,
        target_v,
        current_milli,
        accel,
        last_jog_at: 0,
        last_slew_at: 0,
        last_dir_sign: 0,
        last_step_at: None,
    }
}

fn timer(mut m: Motion, now: u64) -> Motion {
    m.wake(now, Wake::Timer);
    m
}

#[test]
fn a_new_axis_is_free_and_idle() {
    let mut m = Motion::new(5, 7);
    assert!(!m.enabled);
    assert_eq!(m.cur_hz(), 0);
    assert_eq!(m.last_jog_at, 5);
    assert_eq!(m.last_slew_at, 7);
    assert_eq!(m.last_step_at, None);
    assert_eq!(m.next(9), Drive::Idle);
}

#[test]
fn a_jog_energises_and_feeds_the_deadman() {
    let mut m = Motion::new(0, 0);
    assert_eq!(m.idle_command(AxisCmd::Jog(800), 10, 11), Some(Level::Low));
    assert!(m.enabled);
    assert_eq!(m.target_v, 800);
    assert_eq!(m.last_jog_at, 10);
    assert_eq!(m.last_slew_at, 11);
    // Energised already: the pin is left alone.
    assert_eq!(m.apply(AxisCmd::Jog(-800), 12), None);
    assert_eq!(m.target_v, -800);
    assert_eq!(m.last_jog_at, 12);
}

#[test]
fn a_zero_jog_leaves_the_motor_alone() {
    let mut m = Motion::new(0, 0);
    assert_eq!(m.apply(AxisCmd::Jog(0), 1), None);
    assert!(!m.enabled);
    assert_eq!(m.next(1), Drive::Idle);
}

#[test]
fn freeing_stops_at_once() {
    let mut m = moving(500, 480_000, 100);
    assert_eq!(m.apply(AxisCmd::Enable(false), 9), Some(Level::High));
    assert!(!m.enabled);
    assert_eq!((m.target_v, m.current_milli), (0, 0));
    assert_eq!(m.next(0), Drive::Idle);
    assert_eq!(m.apply(AxisCmd::Enable(true), 10), Some(Level::Low));
    assert!(m.enabled);
}

#[test]
fn a_slew_limit_changes_nothing_else() {
    let mut m = moving(500, 480_000, 100);
    assert_eq!(m.apply(AxisCmd::Accel(7), 3), None);
    assert_eq!(m, Motion { accel: 7, ..moving(500, 480_000, 100) });
}

#[test]
fn steps_come_at_the_period_of_the_rate() {
    let mut m = moving(1000, 1_000_000, 0);
    assert_eq!(m.next(0), Drive::Run { dir: Some(Level::High), step: true, wait_us: 998 });
    assert_eq!(m.last_step_at, Some(0));
    // The direction is set once.
    assert_eq!(m.next(1000), Drive::Run { dir: None, step: true, wait_us: 998 });
    let mut m = moving(-10, -10_000, 0);
    assert_eq!(m.next(0), Drive::Run { dir: Some(Level::Low), step: true, wait_us: 99_998 });
    let mut m = moving(MAX_HZ as i32, MAX_HZ as i64 * 1000, 0);
    assert_eq!(m.next(0), Drive::Run { dir: Some(Level::High), step: true, wait_us: 23 });
    // Rates beyond what the pulses allow are cut at four microseconds.
    let mut m = moving(1_000_000, 1_000_000_000, 0);
    assert_eq!(m.next(0), Drive::Run { dir: Some(Level::High), step: true, wait_us: 2 });
}

#[test]
fn a_step_waits_out_the_period_since_the_last() {
    let mut m = moving(25, 25_000, 0);
    assert_eq!(m.next(0), Drive::Run { dir: Some(Level::High), step: true, wait_us: 39_998 });
    m.wake(25_000, Wake::Command { cmd: AxisCmd::Jog(25), at: 25_000 });
    assert_eq!(m.next(25_000), Drive::Run { dir: None, step: false, wait_us: 15_000 });
    assert_eq!(m.next(39_999), Drive::Run { dir: None, step: false, wait_us: 1 });
    assert_eq!(m.next(40_000), Drive::Run { dir: None, step: true, wait_us: 39_998 });
    // A faster rate is due sooner.
    m.wake(41_000, Wake::Command { cmd: AxisCmd::Jog(500), at: 41_000 });
    assert_eq!(m.next(41_000), Drive::Run { dir: None, step: false, wait_us: 1_000 });
    assert_eq!(m.next(42_000), Drive::Run { dir: None, step: true, wait_us: 1_998 });
}

#[test]
fn no_step_comes_after_the_deadman_is_due() {
    let limit = WATCHDOG_MS * 1000;
    // A slow axis does not wait past it.
    let mut m = moving(2, 2_000, 0);
    assert_eq!(m.next(0), Drive::Run { dir: Some(Level::High), step: true, wait_us: limit + 1 });
    let mut m = moving(800, 800_000, 0);
    assert_eq!(m.next(limit), Drive::Run { dir: Some(Level::High), step: true, wait_us: 1 });
    let mut m = moving(800, 800_000, 0);
    assert_eq!(m.next(limit + 1), Drive::Run { dir: Some(Level::High), step: false, wait_us: 0 });
}

#[test]
fn a_ramp_below_one_step_ticks_without_stepping() {
    let mut m = moving(10, 999, 5);
    assert_eq!(m.next(0), Drive::Run { dir: None, step: false, wait_us: 1000 });
    let mut m = moving(-10, -999, 5);
    assert_eq!(m.cur_hz(), 0);
    assert_eq!(m.next(0), Drive::Run { dir: None, step: false, wait_us: 1000 });
}

#[test]
fn turning_round_sets_the_direction_again() {
    let mut m = Motion { last_dir_sign: 1, ..moving(-100, -100_000, 0) };
    assert_eq!(m.next(0), Drive::Run { dir: Some(Level::Low), step: true, wait_us: 9_998 });
    assert_eq!(m.last_dir_sign, -1);
}

#[test]
fn without_a_limit_the_target_is_reached_at_once() {
    let m = timer(moving(-750, 300_000, 0), 1);
    assert_eq!(m.current_milli, -750_000);
    assert_eq!(m.last_slew_at, 1);
}

#[test]
fn ramps_follow_the_limit() {
    // 2000 steps per second squared for 10 ms: 20 steps per second.
    let m = timer(moving(1000, 100_000, 2000), 10_000);
    assert_eq!(m.current_milli, 120_000);
    let m = timer(moving(-1000, 100_000, 2000), 10_000);
    assert_eq!(m.current_milli, 80_000);
    let m = timer(moving(110, 100_000, 2000), 10_000);
    assert_eq!(m.current_milli, 110_000);
}

#[test]
fn fast_targets_start_at_the_start_rate() {
    let floor = START_HZ as i64 * 1000;
    assert_eq!(timer(moving(1000, 0, 100), 1000).current_milli, floor);
    assert_eq!(timer(moving(-1000, 0, 100), 1000).current_milli, -floor);
    assert_eq!(timer(moving(21, 5_000, 100), 0).current_milli, floor);
}

#[test]
fn slow_targets_ramp_from_rest() {
    assert_eq!(timer(moving(20, 0, 100), 1000).current_milli, 100);
    assert_eq!(timer(moving(-10, 0, 100), 1000).current_milli, -100);
    assert_eq!(timer(moving(0, 15_000, 100), 1000).current_milli, 14_900);
}

#[test]
fn reversals_are_not_lifted_on_the_far_side() {
    assert_eq!(timer(moving(-1000, 5_000, 100), 1000).current_milli, 4_900);
    assert_eq!(timer(moving(1000, -5_000, 100), 1000).current_milli, -4_900);
    // Through zero: lifted on the other side.
    assert_eq!(timer(moving(-1000, 50, 100), 1000).current_milli, -20_000);
}

#[test]
fn long_waits_do_not_overflow_a_ramp() {
    let mut m = moving(i32::MAX, i32::MIN as i64 * 1000, u32::MAX);
    m.last_jog_at = i64::MAX as u64;
    let m = timer(m, i64::MAX as u64);
    assert_eq!(m.current_milli, i32::MAX as i64 * 1000);
}

#[test]
fn the_deadman_halts_a_silent_axis() {
    let mut m = moving(800, 800_000, 0);
    let limit = WATCHDOG_MS * 1000;
    assert_eq!(m.wake(limit, Wake::Timer), Reaction { en: None, halted: false });
    assert_eq!(m.cur_hz(), 800);
    assert_eq!(m.wake(limit + 1, Wake::Timer), Reaction { en: None, halted: true });
    assert_eq!((m.target_v, m.current_milli), (0, 0));
    assert!(m.enabled);
    assert_eq!(m.next(limit + 1), Drive::Idle);
}

#[test]
fn commands_other_than_jogs_do_not_feed_the_deadman() {
    let late = WATCHDOG_MS * 1000 + 1;
    for cmd in [AxisCmd::Accel(5), AxisCmd::Enable(true)] {
        let mut m = moving(800, 800_000, 0);
        m.wake(1000, Wake::Command { cmd, at: 1000 });
        assert_eq!(m.last_jog_at, 0);
        let r = m.wake(late, Wake::Command { cmd, at: late });
        assert!(r.halted);
        assert_eq!(m.next(late), Drive::Idle);
    }
}

#[test]
fn a_command_in_time_keeps_an_axis_moving() {
    let mut m = moving(800, 800_000, 0);
    let late = WATCHDOG_MS * 1000 + 500;
    let r = m.wake(late, Wake::Command { cmd: AxisCmd::Jog(800), at: late + 1 });
    assert_eq!(r, Reaction { en: None, halted: false });
    assert_eq!(m.last_jog_at, late + 1);
    assert_eq!(m.cur_hz(), 800);
    let r = m.wake(late + 100, Wake::Timer);
    assert_eq!(r, Reaction { en: None, halted: false });
}

#[test]
fn a_command_that_frees_takes_effect_in_mid_run() {
    let mut m = moving(800, 800_000, 0);
    let r = m.wake(10, Wake::Command { cmd: AxisCmd::Enable(false), at: 11 });
    assert_eq!(r, Reaction { en: Some(Level::High), halted: false });
    assert_eq!(m.next(0), Drive::Idle);
}

#[test]
fn a_jog_preempts_the_one_under_way() {
    let mut m = moving(800, 800_000, 0);
    m.wake(10, Wake::Command { cmd: AxisCmd::Jog(-400), at: 10 });
    assert_eq!((m.target_v, m.cur_hz()), (-400, -400));
    m.wake(20, Wake::Command { cmd: AxisCmd::Jog(0), at: 20 });
    assert_eq!(m.next(20), Drive::Idle);
    // With a slew limit the ramp turns to the new target.
    let mut m = moving(800, 800_000, 1000);
    m.wake(10_000, Wake::Command { cmd: AxisCmd::Jog(0), at: 10_000 });
    assert_eq!((m.target_v, m.current_milli), (0, 800_000));
    m.wake(20_000, Wake::Timer);
    assert_eq!(m.current_milli, 790_000);
}

#[test]
fn resending_a_jog_leaves_the_motion_alone() {
    let before = Motion { last_step_at: Some(3), ..moving(800, 800_000, 1000) };
    let mut m = before;
    m.wake(50, Wake::Command { cmd: AxisCmd::Jog(800), at: 51 });
    assert_eq!(m, Motion { last_jog_at: 51, last_slew_at: 50, ..before });
}
