use tmc_new_era::axis::{AxisCmd, Level};
use tmc_new_era::board::{
    axis_woken, disconnected, fan_cmd, fan_level, send_cmd, servo_cmd, tmc_written, Board,
};
use tmc_new_era::command::{parse_request, Refusal, Request, Target};
use tmc_new_era::effect::{prompt, write_all, write_line, write_text, Effect};
use tmc_new_era::firmware::{resume, run_command, Outcome, Pending};
use tmc_new_era::motion::{Drive, Motion, Wake, WATCHDOG_MS};
use tmc_new_era::reply::{refusal_reply, status_report};
use tmc_new_era::session::{Next, Presence, Session};
use tmc_new_era::tmc::TmcCfg;

const VERSION: &str = "0.3.1";

const HERE: Presence = Presence { before: true, after: true };

fn said(effects: &[Effect]) -> String {
    let mut bytes: Vec<u8> = Vec::new();
    for e in effects {
        if let Effect::Packet(p) = e {
            bytes.extend_from_slice(p);
        }
    }
    String::from_utf8(bytes).unwrap()
}

fn done(effects: &[Effect]) -> Vec<Effect> {
    effects.iter().filter(|e| !matches!(e, Effect::Packet(_))).cloned().collect()
}

fn run(board: &mut Board, line: &str) -> Outcome {
    run_command(board, line, VERSION)
}

fn reply(line: &str) -> String {
    let mut board = Board::new();
    let out = run(&mut board, line);
    assert_eq!(out.pending, Pending::Nothing);
    said(&out.effects)
}

fn axis(axis: usize, cmd: AxisCmd) -> Effect {
    Effect::Axis { axis, cmd }
}

fn tell(session: &mut Session, board: &mut Board, text: &str) -> Vec<Effect> {
    let mut all: Vec<Effect> = Vec::new();
    for b in text.bytes() {
        let mut turn = session.feed(b);
        loop {
            all.extend(turn.effects);
            turn = match turn.next {
                Next::Byte => break,
                Next::Line => session.run(board, VERSION),
                Next::Wait { pending } => session.resume(board, pending, true, HERE),
                Next::Gone => panic!("the host has not left"),
            };
        }
    }
    all
}

#[test]
fn bytes_go_out_in_packets_of_sixty_four() {
    let mut out: Vec<Effect> = Vec::new();
    write_all(&mut out, &[]);
    assert_eq!(out.len(), 0);
    let data: Vec<u8> = (0..150u8).collect();
    write_all(&mut out, &data);
    assert_eq!(
        out,
        vec![
            Effect::Packet(data[..64].to_vec()),
            Effect::Packet(data[64..128].to_vec()),
            Effect::Packet(data[128..].to_vec()),
        ]
    );
    let mut out: Vec<Effect> = Vec::new();
    write_all(&mut out, &data[..128]);
    assert_eq!(out.len(), 2);
}

#[test]
fn lines_end_in_a_packet_of_their_own() {
    let mut out: Vec<Effect> = Vec::new();
    write_line(&mut out, "ok");
    write_line(&mut out, "");
    prompt(&mut out);
    write_text(&mut out, "é");
    assert_eq!(
        out,
        vec![
            Effect::Packet(b"ok".to_vec()),
            Effect::Packet(b"\r\n".to_vec()),
            Effect::Packet(b"\r\n".to_vec()),
            Effect::Packet(b"> ".to_vec()),
            Effect::Packet(vec![0xc3, 0xa9]),
        ]
    );
}

#[test]
fn commands_are_recorded_and_handed_on() {
    let mut b = Board::new();
    assert_eq!(send_cmd(&mut b, 2, AxisCmd::Jog(-5)), axis(2, AxisCmd::Jog(-5)));
    assert_eq!(send_cmd(&mut b, 2, AxisCmd::Enable(true)), axis(2, AxisCmd::Enable(true)));
    assert_eq!(send_cmd(&mut b, 2, AxisCmd::Accel(9)), axis(2, AxisCmd::Accel(9)));
    assert_eq!(fan_cmd(&mut b, 1, true), Effect::Fan { fan: 1, on: true });
    assert_eq!(servo_cmd(&mut b, 4, 1500), Effect::Servo { servo: 4, us: 1500 });
    assert!(b.axes[2].enabled);
    assert_eq!((b.axes[2].velocity, b.axes[2].accel), (-5, 9));
    assert!(b.axes[2].energised);
    assert_eq!(b.axes[1], Board::new().axes[1]);
    assert_eq!(b.fans, [false, true, false]);
    assert_eq!(b.servos, [0, 0, 0, 0, 1500]);
}

#[test]
fn a_halt_by_the_deadman_is_recorded() {
    let mut b = Board::new();
    run(&mut b, "jog z 300");
    let mut m = Motion::new(0, 0);
    m.idle_command(AxisCmd::Jog(300), 0, 0);
    assert_eq!(axis_woken(&mut b, 2, &mut m, 200_000, Wake::Timer), None);
    assert_eq!((b.axes[2].velocity, m.cur_hz()), (300, 300));
    let jog = Wake::Command { cmd: AxisCmd::Jog(200), at: 300_000 };
    assert_eq!(axis_woken(&mut b, 2, &mut m, 300_000, jog), None);
    assert_eq!((b.axes[2].velocity, m.cur_hz()), (300, 200));
    let accel = Wake::Command { cmd: AxisCmd::Accel(0), at: 500_001 };
    assert_eq!(axis_woken(&mut b, 2, &mut m, 500_001, accel), None);
    assert_eq!((b.axes[2].velocity, m.cur_hz()), (0, 0));
    assert!(b.axes[2].energised && m.enabled);
}

#[test]
fn fans_are_driven_high() {
    assert_eq!(fan_level(true), Level::High);
    assert_eq!(fan_level(false), Level::Low);
}

#[test]
fn a_lost_host_turns_everything_off() {
    let mut b = Board::new();
    run(&mut b, "accel all 300");
    run(&mut b, "jog y 100");
    run(&mut b, "fan 0 on");
    run(&mut b, "servo 3 900");
    let out = disconnected(&mut b);
    let mut want: Vec<Effect> = Vec::new();
    for i in 0..4 {
        want.push(axis(i, AxisCmd::Jog(0)));
        want.push(axis(i, AxisCmd::Enable(false)));
    }
    for fan in 0..3 {
        want.push(Effect::Fan { fan, on: false });
    }
    for servo in 0..5 {
        want.push(Effect::Servo { servo, us: 0 });
    }
    assert_eq!(out, want);
    assert!(b.axes.iter().all(|a| !a.enabled && a.velocity == 0 && a.accel == 300));
    assert_eq!(b.fans, [false; 3]);
    assert_eq!(b.servos, [0; 5]);
}

#[test]
fn empty_lines_do_nothing() {
    assert_eq!(parse_request(""), Request::Nothing);
    assert_eq!(parse_request("  \t"), Request::Nothing);
    assert_eq!(reply("   "), "");
}

#[test]
fn help_lists_the_commands() {
    let text = reply("help");
    assert_eq!(text, reply("?"));
    assert_eq!(
        text,
        "commands:\r\n  help\r\n  version\r\n  status\r\n  enable  <x|y|z|e|all>\r\n  \
         disable <x|y|z|e|all>\r\n  accel   <axis|all> <hz/sec>    0=instant slew (default)\r\n  \
         jog     <axis> <signed_hz>     0 stops; sign sets DIR\r\n  \
         move    <axis> <steps> [hz]    one-shot, duration-based\r\n  \
         fan     <0|1|2> <on|off>       SKR Pico fan headers\r\n  \
         servo   <0..4> <us>            0=off, 500..2500 typical\r\n  \
         tmc     <axis> <ms> <run_ma> <hold_ma> <hold_delay> <sc> <int>\r\n                                 \
         configure driver over UART\r\nmax hz 40000.\r\n"
    );
}

#[test]
fn version_is_told() {
    assert_eq!(reply("version"), "tmc-new-era firmware v0.3.1\r\n");
    assert_eq!(reply("ver"), "tmc-new-era firmware v0.3.1\r\n");
    // A version that does not fit is left out with what follows.
    let mut b = Board::new();
    let long = "1".repeat(43);
    assert_eq!(said(&run_command(&mut b, "ver", &long).effects), "tmc-new-era firmware v");
    let longest = "1".repeat(40);
    assert_eq!(said(&run_command(&mut b, "ver", &longest).effects).len(), 64);
}

#[test]
fn status_reports_every_output() {
    let mut b = Board::new();
    run(&mut b, "enable y");
    run(&mut b, "jog z -250");
    run(&mut b, "accel e 4294967295");
    run(&mut b, "fan 2 on");
    run(&mut b, "servo 4 1500");
    let cfg = match run(&mut b, "tmc x 16 800 400 8 0 1").pending {
        Pending::Queue { cfg } => cfg,
        _ => panic!("not queued"),
    };
    tmc_written(&mut b, cfg);
    let want = "  X: -- vel=0 accel=0 ms=16\r\n  Y: EN vel=0 accel=0 ms=0\r\n  \
                Z: EN vel=-250 accel=0 ms=0\r\n  E: -- vel=0 accel=4294967295 ms=0\r\n  \
                fan0: off\r\n  fan1: off\r\n  fan2: ON\r\n  servo0 (X-STOP): 0 us\r\n  \
                servo1 (Y-STOP): 0 us\r\n  servo2 (Z-STOP): 0 us\r\n  servo3 (E0-STOP): 0 us\r\n  \
                servo4 (SERVOS): 1500 us\r\n";
    assert_eq!(said(&run(&mut b, "status").effects), want);
    assert_eq!(status_report(&b), want);
}

#[test]
fn status_shows_which_motors_are_energised() {
    let mut b = Board::new();
    let first = |b: &Board| status_report(b).lines().next().unwrap().to_string();
    assert_eq!(first(&b), "  X: -- vel=0 accel=0 ms=0");
    run(&mut b, "jog x 800");
    assert_eq!(first(&b), "  X: EN vel=800 accel=0 ms=0");
    assert!(!b.axes[0].enabled && b.axes[0].energised);
    run(&mut b, "jog x 0");
    assert_eq!(first(&b), "  X: EN vel=0 accel=0 ms=0");
    run(&mut b, "disable x");
    assert_eq!(first(&b), "  X: -- vel=0 accel=0 ms=0");
    run(&mut b, "jog x 0");
    assert_eq!(first(&b), "  X: -- vel=0 accel=0 ms=0");
}

#[test]
fn the_longest_status_fits() {
    let mut b = Board::new();
    run(&mut b, "enable all");
    run(&mut b, "accel all 4294967295");
    for a in ["x", "y", "z", "e"] {
        run(&mut b, &format!("jog {a} -40000"));
        if let Pending::Queue { cfg } = run(&mut b, &format!("tmc {a} 256 0 0 0 0 0")).pending {
            tmc_written(&mut b, cfg);
        }
    }
    for s in 0..5 {
        run(&mut b, &format!("servo {s} 10000"));
    }
    let text = status_report(&b);
    assert_eq!(text.lines().count(), 12);
    assert!(text.ends_with("  servo4 (SERVOS): 10000 us\r\n"));
    assert!(text.len() <= 365);
}

#[test]
fn axes_are_energised_and_freed() {
    let mut b = Board::new();
    let out = run(&mut b, "enable all");
    assert_eq!(done(&out.effects), (0..4).map(|i| axis(i, AxisCmd::Enable(true))).collect::<Vec<_>>());
    assert_eq!(said(&out.effects), "ok enabled\r\n");
    assert!(b.axes.iter().all(|a| a.enabled));
    let out = run(&mut b, "disable Z");
    assert_eq!(done(&out.effects), vec![axis(2, AxisCmd::Enable(false))]);
    assert_eq!(said(&out.effects), "ok disabled\r\n");
    assert!(!b.axes[2].enabled && b.axes[3].enabled);
    assert_eq!(
        parse_request("enable E"),
        Request::Enable { target: Target::Axis { axis: 3, letter: 'E' }, on: true }
    );
}

#[test]
fn slew_limits_are_set() {
    let mut b = Board::new();
    let out = run(&mut b, "accel X 2000");
    assert_eq!(done(&out.effects), vec![axis(0, AxisCmd::Accel(2000))]);
    assert_eq!(said(&out.effects), "ok accel X 2000\r\n");
    for (word, i) in [("x", 0), ("y", 1), ("Y", 1), ("z", 2), ("Z", 2), ("e", 3), ("E", 3)] {
        let out = run(&mut b, &format!("accel {word} 7"));
        assert_eq!(done(&out.effects), vec![axis(i, AxisCmd::Accel(7))]);
        assert_eq!(said(&out.effects), format!("ok accel {word} 7\r\n"));
    }
    let out = run(&mut b, "accel all 0");
    assert_eq!(done(&out.effects), (0..4).map(|i| axis(i, AxisCmd::Accel(0))).collect::<Vec<_>>());
    assert_eq!(said(&out.effects), "ok accel all 0\r\n");
}

#[test]
fn jogs_are_clamped() {
    let mut b = Board::new();
    for (line, i, hz, text) in [
        ("jog x 800", 0, 800, "ok jog X 800\r\n"),
        ("jog Y -400", 1, -400, "ok jog Y -400\r\n"),
        ("jog z 40001", 2, 40_000, "ok jog Z 40000\r\n"),
        ("jog e -2147483648", 3, -40_000, "ok jog E -40000\r\n"),
        ("jog e 0 and more", 3, 0, "ok jog E 0\r\n"),
    ] {
        let out = run(&mut b, line);
        assert_eq!(done(&out.effects), vec![axis(i, AxisCmd::Jog(hz))]);
        assert_eq!(said(&out.effects), text);
        assert_eq!(b.axes[i].velocity, hz);
    }
}

fn waits(board: &mut Board, mut pending: Pending) -> (Vec<u64>, Vec<Effect>) {
    let mut slices: Vec<u64> = Vec::new();
    let mut all: Vec<Effect> = Vec::new();
    while let Pending::Sleep { wait_us, .. } = pending {
        slices.push(wait_us);
        let out = resume(board, pending, false);
        all.extend(out.effects);
        pending = out.pending;
    }
    assert_eq!(pending, Pending::Nothing);
    (slices, all)
}

#[test]
fn moves_jog_wait_and_stop() {
    let mut b = Board::new();
    let out = run(&mut b, "move x 50 1000");
    assert_eq!(out.effects, vec![axis(0, AxisCmd::Jog(1000))]);
    assert_eq!(
        out.pending,
        Pending::Sleep { axis: 0, velocity: 1000, wait_us: 50_000, left_us: 0 }
    );
    assert_eq!(b.axes[0].velocity, 1000);
    let end = resume(&mut b, out.pending, false);
    assert_eq!(end.pending, Pending::Nothing);
    assert_eq!(done(&end.effects), vec![axis(0, AxisCmd::Jog(0))]);
    assert_eq!(said(&end.effects), "done\r\n");
    assert_eq!(end.effects[0], axis(0, AxisCmd::Jog(0)));
    assert_eq!(b.axes[0].velocity, 0);
    assert!(b.axes[0].energised);
}

#[test]
fn long_moves_send_their_jog_again() {
    let mut b = Board::new();
    let out = run(&mut b, "move x 1600 1000");
    assert_eq!(out.effects, vec![axis(0, AxisCmd::Jog(1000))]);
    let (slices, all) = waits(&mut b, out.pending);
    assert_eq!(slices, vec![100_000; 16]);
    let mut want = vec![axis(0, AxisCmd::Jog(1000)); 15];
    want.push(axis(0, AxisCmd::Jog(0)));
    assert_eq!(done(&all), want);
    assert_eq!(said(&all), "done\r\n");

    let out = run(&mut b, "move z -7 3");
    assert_eq!(out.effects, vec![axis(2, AxisCmd::Jog(-3))]);
    let (slices, all) = waits(&mut b, out.pending);
    assert_eq!(slices.iter().sum::<u64>(), 2_333_333);
    assert_eq!(slices.last(), Some(&33_333));
    assert!(slices.iter().all(|s| *s < WATCHDOG_MS * 1000));
    assert_eq!(done(&all)[0], axis(2, AxisCmd::Jog(-3)));
    // The default rate, the cap, and the largest move.
    let total = |b: &mut Board, line: &str| match run(b, line).pending {
        Pending::Sleep { wait_us, left_us, .. } => wait_us + left_us,
        _ => panic!("no move"),
    };
    assert_eq!(total(&mut b, "move y 5"), 5_000);
    assert_eq!(total(&mut b, "move y 40000 4294967295"), 1_000_000);
    assert_eq!(total(&mut b, "move e -2147483648 1"), 2_147_483_648_000_000);
}

/// Runs an axis on an ideal clock from 0 to `end`, taking each command at its
/// time, and counts its steps.
fn pulses(commands: &[(u64, AxisCmd)], end: u64) -> Vec<u64> {
    let mut m = Motion::new(0, 0);
    let mut now = 0;
    let mut steps: Vec<u64> = Vec::new();
    let mut queue = commands.iter();
    let mut coming = queue.next();
    while now < end {
        match m.next(now) {
            Drive::Idle => match coming {
                None => break,
                Some((at, cmd)) => {
                    now = now.max(*at);
                    m.idle_command(*cmd, now, now);
                    coming = queue.next();
                }
            },
            Drive::Run { step, wait_us, .. } => {
                if step {
                    steps.push(now);
                    now += 2;
                }
                let timer = now + wait_us;
                match coming {
                    Some((at, cmd)) if *at <= timer => {
                        now = now.max(*at);
                        m.wake(now, Wake::Command { cmd: *cmd, at: now });
                        coming = queue.next();
                    }
                    _ => {
                        now = timer;
                        m.wake(now, Wake::Timer);
                    }
                }
            }
        }
    }
    steps
}

/// The times of the steps that a move makes.
fn move_pulses(line: &str) -> Vec<u64> {
    let mut b = Board::new();
    let out = run(&mut b, line);
    let mut commands: Vec<(u64, AxisCmd)> = Vec::new();
    let mut take = |at: u64, effects: &[Effect]| {
        for e in effects {
            if let Effect::Axis { cmd, .. } = e {
                commands.push((at, *cmd));
            }
        }
    };
    take(0, &out.effects);
    let mut at = 0;
    let mut pending = out.pending;
    while let Pending::Sleep { wait_us, .. } = pending {
        at += wait_us;
        let more = resume(&mut b, pending, false);
        take(at, &more.effects);
        pending = more.pending;
    }
    pulses(&commands, 100_000_000)
}

#[test]
fn a_long_move_makes_about_its_steps() {
    let steps = move_pulses("move x 1600 1000");
    assert_eq!(steps.len(), 1599);
    assert_eq!(steps[0], 1000);
    assert!(steps.windows(2).all(|w| w[1] - w[0] == 1000));
    assert!(*steps.last().unwrap() <= 1_600_000);
}

#[test]
fn moves_make_their_steps_up_to_the_rounding_of_the_period() {
    assert_eq!(move_pulses("move y 10 100").len(), 10);
    assert_eq!(move_pulses("move z -7 3").len(), 7);
    assert_eq!(move_pulses("move x 60 1").len(), 60);
    // A period of 33 microseconds stands for a third of a microsecond more.
    assert_eq!(move_pulses("move x 30000 30000").len(), 30273);
    // It is over before the first millisecond is.
    assert_eq!(move_pulses("move x 10 40000").len(), 0);
    assert_eq!(move_pulses("move x 4000 40000").len(), 3960);
}

#[test]
fn resending_a_jog_makes_no_more_steps() {
    let commands: Vec<(u64, AxisCmd)> = (0..40).map(|i| (i * 25_000, AxisCmd::Jog(25))).collect();
    let steps = pulses(&commands, 1_000_000);
    assert!((24..=26).contains(&steps.len()), "{}", steps.len());
    assert!(steps.windows(2).all(|w| w[1] - w[0] >= 40_000));
}

#[test]
fn only_jogs_hold_off_the_deadman() {
    let mut commands = vec![(0, AxisCmd::Jog(800))];
    commands.extend((1..20).map(|i| (i * 50_000, AxisCmd::Accel(0))));
    let steps = pulses(&commands, 2_000_000);
    assert!(*steps.last().unwrap() <= 200_000);
    assert!(steps.len() >= 155, "{}", steps.len());
}

#[test]
fn a_zero_jog_stops_the_pulses_at_once() {
    let steps = pulses(&[(0, AxisCmd::Jog(800)), (50_300, AxisCmd::Jog(0))], 1_000_000);
    assert!(*steps.last().unwrap() <= 50_300);
}

#[test]
fn a_move_of_no_steps_is_done() {
    let mut b = Board::new();
    let out = run(&mut b, "move x 0");
    assert_eq!(said(&out.effects), "ok\r\n");
    assert_eq!(done(&out.effects).len(), 0);
    assert_eq!(out.pending, Pending::Nothing);
}

#[test]
fn fans_are_switched() {
    let mut b = Board::new();
    for (line, fan, on, text) in [
        ("fan 0 on", 0, true, "ok fan 0 on\r\n"),
        ("fan 1 1", 1, true, "ok fan 1 on\r\n"),
        ("fan 2 ON", 2, true, "ok fan 2 on\r\n"),
        ("fan 0 off", 0, false, "ok fan 0 off\r\n"),
        ("fan 1 0", 1, false, "ok fan 1 off\r\n"),
        ("fan 2 OFF", 2, false, "ok fan 2 off\r\n"),
    ] {
        let out = run(&mut b, line);
        assert_eq!(done(&out.effects), vec![Effect::Fan { fan, on }]);
        assert_eq!(said(&out.effects), text);
        assert_eq!(b.fans[fan], on);
    }
}

#[test]
fn servos_are_set_and_capped() {
    let mut b = Board::new();
    for (line, servo, us, text) in [
        ("servo 4 1500", 4, 1500, "ok servo 4 1500 us\r\n"),
        ("servo 0 10001", 0, 10_000, "ok servo 0 10000 us\r\n"),
        ("servo 1 65535", 1, 10_000, "ok servo 1 10000 us\r\n"),
        ("servo 4 off", 4, 0, "ok servo 4 0 us\r\n"),
        ("servo 0 OFF", 0, 0, "ok servo 0 0 us\r\n"),
        ("servo 1 0", 1, 0, "ok servo 1 0 us\r\n"),
        ("servo 1 +7", 1, 7, "ok servo 1 7 us\r\n"),
    ] {
        let out = run(&mut b, line);
        assert_eq!(done(&out.effects), vec![Effect::Servo { servo, us }]);
        assert_eq!(said(&out.effects), text);
        assert_eq!(b.servos[servo], us);
    }
}

#[test]
fn driver_settings_are_queued() {
    let mut b = Board::new();
    let cfg = TmcCfg {
        axis: 1,
        microsteps: 64,
        run_ma: 800,
        hold_ma: 400,
        hold_delay: 8,
        spreadcycle: true,
        interpolate: false,
    };
    let out = run(&mut b, "tmc y 64 800 400 8 yes maybe");
    assert_eq!(out.effects.len(), 0);
    assert_eq!(out.pending, Pending::Queue { cfg });
    let queued = resume(&mut b, out.pending, true);
    assert_eq!(said(&queued.effects), "ok tmc Y queued\r\n");
    assert_eq!(queued.pending, Pending::Nothing);
    assert_eq!(said(&resume(&mut b, out.pending, false).effects), "busy\r\n");
    assert_eq!(b.axes[1].microsteps, 0);
    tmc_written(&mut b, cfg);
    assert_eq!(b.axes[1].microsteps, 64);
    for word in ["1", "true", "on", "yes"] {
        let line = format!("tmc y 64 800 400 8 {word} {word}");
        assert_eq!(
            parse_request(&line),
            Request::Tmc { cfg: TmcCfg { spreadcycle: true, interpolate: true, ..cfg } }
        );
    }
}

#[test]
fn refusals_say_why_and_change_nothing() {
    let cases = [
        ("enable", Refusal::EnableUsage, "usage: enable|disable <x|y|z|e|all>"),
        ("disable", Refusal::EnableUsage, "usage: enable|disable <x|y|z|e|all>"),
        ("enable q", Refusal::UnknownAxis, "unknown axis"),
        ("enable ALL", Refusal::UnknownAxis, "unknown axis"),
        ("accel x", Refusal::AccelUsage, "usage: accel <axis|all> <hz/sec>"),
        ("accel q -1", Refusal::BadAccel, "bad accel"),
        ("accel q 1", Refusal::UnknownAxis, "unknown axis"),
        (
            "tmc x 16 800 400 8 0",
            Refusal::TmcUsage,
            "usage: tmc <axis> <ms> <run_ma> <hold_ma> <hold_delay> <sc> <int>",
        ),
        ("tmc q 7 a b c 0 0", Refusal::UnknownAxis, "unknown axis"),
        ("tmc x 7 a 400 8 0 0", Refusal::BadNumber, "bad numeric arg"),
        ("tmc x 16 800 400 256 0 0", Refusal::BadNumber, "bad numeric arg"),
        (
            "tmc x 7 800 400 8 0 0",
            Refusal::BadMicrosteps,
            "microsteps must be 1/2/4/8/16/32/64/128/256",
        ),
        ("jog x", Refusal::JogUsage, "usage: jog <axis> <signed_hz>"),
        ("jog all 5", Refusal::UnknownAxis, "unknown axis"),
        ("jog x 2147483648", Refusal::BadHz, "bad hz"),
        ("jog x 1.5", Refusal::BadHz, "bad hz"),
        ("move x", Refusal::MoveUsage, "usage: move <axis> <steps> [hz]"),
        ("move q a", Refusal::UnknownAxis, "unknown axis"),
        ("move x a", Refusal::BadSteps, "bad steps"),
        ("move x 5 0", Refusal::BadHz, "bad hz"),
        ("move x 5 -1", Refusal::BadHz, "bad hz"),
        ("fan 0", Refusal::FanUsage, "usage: fan <0|1|2> <on|off>"),
        ("fan x on", Refusal::BadFan, "bad fan number"),
        ("fan 3 on", Refusal::FanRange, "fan out of range"),
        ("fan 0 On", Refusal::BadFanState, "bad fan state (on|off)"),
        ("servo 0", Refusal::ServoUsage, "usage: servo <0..4> <us|off>"),
        ("servo -1 5", Refusal::BadServo, "bad servo number"),
        ("servo 5 5", Refusal::ServoRange, "servo out of range (0..4)"),
        ("servo 0 Off", Refusal::BadPulse, "bad us (number or 'off')"),
        ("servo 0 65536", Refusal::BadPulse, "bad us (number or 'off')"),
        ("home", Refusal::UnknownCommand, "unknown command - try 'help'"),
        ("JOG x 5", Refusal::UnknownCommand, "unknown command - try 'help'"),
    ];
    for (line, why, text) in cases {
        assert_eq!(parse_request(line), Request::Refused { why }, "{line}");
        assert_eq!(refusal_reply(why), text);
        let mut b = Board::new();
        let out = run(&mut b, line);
        assert_eq!(said(&out.effects), format!("{text}\r\n"));
        assert_eq!(done(&out.effects).len(), 0);
        assert_eq!(out.pending, Pending::Nothing);
        assert_eq!(status_report(&b), status_report(&Board::new()));
    }
}

#[test]
fn a_session_greets() {
    let (session, out) = Session::open(VERSION);
    assert_eq!(
        said(&out),
        "\r\ntmc-new-era v0.3.1 - SKR Pico stepper CLI\r\ntype 'help' for commands\r\n> "
    );
    assert_eq!(session.editor.text(), "");
}

#[test]
fn typing_is_echoed_and_edited() {
    let (mut s, _) = Session::open(VERSION);
    let mut b = Board::new();
    assert_eq!(said(&tell(&mut s, &mut b, "jog y")), "jog y");
    assert_eq!(said(&tell(&mut s, &mut b, "\x7f")), "\x08 \x08");
    assert_eq!(s.editor.text(), "jog ");
    assert_eq!(said(&tell(&mut s, &mut b, "x\x08")), "x\x08 \x08");
    assert_eq!(said(&tell(&mut s, &mut b, "z 5")), "z 5");
    // Control characters and bytes beyond ASCII are ignored.
    assert_eq!(said(&tell(&mut s, &mut b, "\t\x1b\x00é")), "");
    assert_eq!(s.editor.text(), "jog z 5");
    assert_eq!(said(&tell(&mut s, &mut b, "\r")), "\r\nok jog Z 5\r\n> ");
    assert_eq!(s.editor.text(), "");
    assert_eq!(b.axes[2].velocity, 5);
    assert_eq!(said(&tell(&mut s, &mut b, "\x7f\x08")), "");
    assert_eq!(said(&tell(&mut s, &mut b, "\n")), "\r\n> ");
}

#[test]
fn a_line_can_be_abandoned() {
    let (mut s, _) = Session::open(VERSION);
    let mut b = Board::new();
    assert_eq!(said(&tell(&mut s, &mut b, "enable all\x03")), "enable all^C\r\n> ");
    assert_eq!(s.editor.text(), "");
    assert_eq!(said(&tell(&mut s, &mut b, "\r")), "\r\n> ");
    assert!(!b.axes[0].enabled);
}

#[test]
fn a_full_line_takes_no_more() {
    let (mut s, _) = Session::open(VERSION);
    let mut b = Board::new();
    let long = "x".repeat(200);
    assert_eq!(said(&tell(&mut s, &mut b, &long)), "x".repeat(128));
    assert_eq!(s.editor.text(), "x".repeat(128));
    assert_eq!(said(&tell(&mut s, &mut b, "\x7fy")), "\x08 \x08y");
}

#[test]
fn blank_lines_run_nothing_but_are_cleared() {
    let (mut s, _) = Session::open(VERSION);
    let mut b = Board::new();
    assert_eq!(said(&tell(&mut s, &mut b, "  \r")), "  \r\n> ");
    assert_eq!(s.editor.text(), "");
}

#[test]
fn a_line_runs_only_once_its_break_is_delivered() {
    let (mut s, _) = Session::open(VERSION);
    let mut b = Board::new();
    for byte in "accel all 300".bytes() {
        s.feed(byte);
    }
    let turn = s.feed(b'\r');
    assert_eq!(turn.effects, vec![Effect::Packet(b"\r\n".to_vec())]);
    assert_eq!(turn.next, Next::Line);
    assert_eq!(b.axes[0].accel, 0);
    let turn = s.run(&mut b, VERSION);
    assert_eq!(said(&turn.effects), "ok accel all 300\r\n> ");
    assert_eq!(turn.next, Next::Byte);
    assert_eq!(b.axes[0].accel, 300);
    assert_eq!(s.editor.text(), "");
}

#[test]
fn the_prompt_waits_for_a_move() {
    let (mut s, _) = Session::open(VERSION);
    let mut b = Board::new();
    for byte in "move x 15 100\r".bytes() {
        s.feed(byte);
    }
    let turn = s.run(&mut b, VERSION);
    assert_eq!(said(&turn.effects), "");
    let Next::Wait { pending } = turn.next else { panic!("no wait") };
    assert_eq!(
        pending,
        Pending::Sleep { axis: 0, velocity: 100, wait_us: 100_000, left_us: 50_000 }
    );
    let turn = s.resume(&mut b, pending, true, HERE);
    assert_eq!(turn.effects, vec![axis(0, AxisCmd::Jog(100))]);
    let Next::Wait { pending } = turn.next else { panic!("no wait") };
    let turn = s.resume(&mut b, pending, true, HERE);
    assert_eq!(said(&turn.effects), "done\r\n> ");
    assert_eq!(turn.next, Next::Byte);
    for byte in "tmc x 8 1 1 1 0 0\r".bytes() {
        s.feed(byte);
    }
    let Next::Wait { pending } = s.run(&mut b, VERSION).next else { panic!("no wait") };
    assert_eq!(said(&s.resume(&mut b, pending, false, HERE).effects), "busy\r\n> ");
}

#[test]
fn a_host_that_leaves_renews_nothing() {
    let (mut s, _) = Session::open(VERSION);
    let mut b = Board::new();
    for byte in "move x 15 100\r".bytes() {
        s.feed(byte);
    }
    let Next::Wait { pending } = s.run(&mut b, VERSION).next else { panic!("no wait") };
    let left = Presence { before: true, after: false };
    let turn = s.resume(&mut b, pending, true, left);
    assert_eq!(turn.effects, vec![]);
    assert_eq!(turn.next, Next::Gone);
    assert_eq!(b.axes[0].velocity, 100);
    assert!(disconnected(&mut b).contains(&axis(0, AxisCmd::Enable(false))));
    // A host that never held the line open is not missed.
    let quiet = Presence { before: false, after: false };
    let turn = s.resume(&mut b, pending, true, quiet);
    assert_eq!(turn.effects, vec![axis(0, AxisCmd::Jog(100))]);
}
