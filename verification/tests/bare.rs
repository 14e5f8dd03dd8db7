use tmc_new_era::axis::{axis_name, Level};
use tmc_new_era::bare::{
    disconnected, parse_request, refusal_reply, run_command, status_report, Axis, Refusal, Request,
    Session,
};
use tmc_new_era::effect::{Effect, Pulses};

fn axes() -> [Axis; 4] {
    [0, 1, 2, 3].map(|i| Axis::new(axis_name(i)).0)
}

fn said(effects: &[Effect]) -> String {
    let mut bytes: Vec<u8> = Vec::new();
    for e in effects {
        if let Effect::Packet(p) = e {
            bytes.extend_from_slice(p);
        }
    }
    String::from_utf8(bytes).unwrap()
}

fn done(effects: &[Effect]) -> Vec<Effect> {
    effects.iter().filter(|e| !matches!(e, Effect::Packet(_))).cloned().collect()
}

fn enable(axis: usize, level: Level) -> Effect {
    Effect::Enable { axis, level }
}

#[test]
fn a_new_bare_axis_is_free() {
    let (a, level) = Axis::new("X");
    assert_eq!((a.name, a.enabled), ("X", false));
    assert_eq!(level, Level::High);
}

#[test]
fn bare_axes_switch_their_pin() {
    let (mut a, _) = Axis::new("Y");
    assert_eq!(a.enable(), Level::Low);
    assert!(a.enabled);
    assert_eq!(a.disable(), Level::High);
    assert!(!a.enabled);
}

#[test]
fn bare_moves_count_their_steps() {
    let (a, _) = Axis::new("Z");
    assert_eq!(a.move_steps(0, 1000), None);
    assert_eq!(
        a.move_steps(800, 1000),
        Some(Pulses { dir: Level::High, count: 800, high_us: 2, low_us: 998 })
    );
    assert_eq!(
        a.move_steps(-3, 20_000),
        Some(Pulses { dir: Level::Low, count: 3, high_us: 2, low_us: 48 })
    );
    assert_eq!(
        a.move_steps(i32::MIN, 0),
        Some(Pulses { dir: Level::Low, count: 0x8000_0000, high_us: 2, low_us: 999_998 })
    );
    assert_eq!(
        a.move_steps(1, u32::MAX),
        Some(Pulses { dir: Level::High, count: 1, high_us: 2, low_us: 2 })
    );
}

#[test]
fn bare_help_names_the_pins() {
    let mut ax = axes();
    let text = said(&run_command(&mut ax, "help"));
    assert_eq!(text, said(&run_command(&mut ax, "?")));
    assert_eq!(
        text,
        "commands:\r\n  help                        show this\r\n  \
         status                      show axis enable state\r\n  \
         enable  <x|y|z|e|all>       drive EN low (motor energized)\r\n  \
         disable <x|y|z|e|all>       drive EN high (motor free)\r\n  \
         move    <axis> <steps> [hz] steps signed, hz default 1000 (max 20000)\r\n\
         pins (from SKR-Pico klipper.cfg):\r\n  X  step=GP11  dir=GP10  en=GP12\r\n  \
         Y  step=GP6   dir=GP5   en=GP7\r\n  Z  step=GP19  dir=GP28  en=GP2\r\n  \
         E  step=GP14  dir=GP13  en=GP15\r\n"
    );
}

#[test]
fn bare_status_reports_every_axis() {
    let mut ax = axes();
    run_command(&mut ax, "enable e");
    let want = "  X: disabled\r\n  Y: disabled\r\n  Z: disabled\r\n  E: enabled\r\n";
    assert_eq!(said(&run_command(&mut ax, "status")), want);
    assert_eq!(status_report(&ax), want);
}

#[test]
fn bare_axes_are_energised_and_freed() {
    let mut ax = axes();
    let out = run_command(&mut ax, "enable all");
    assert_eq!(done(&out), (0..4).map(|i| enable(i, Level::Low)).collect::<Vec<_>>());
    assert_eq!(said(&out), "all axes enabled\r\n");
    assert!(ax.iter().all(|a| a.enabled));
    let out = run_command(&mut ax, "disable y");
    assert_eq!(done(&out), vec![enable(1, Level::High)]);
    assert_eq!(said(&out), "Y disabled\r\n");
    let out = run_command(&mut ax, "enable Y");
    assert_eq!(said(&out), "Y enabled\r\n");
    let out = run_command(&mut ax, "disable all");
    assert_eq!(said(&out), "all axes disabled\r\n");
    assert!(ax.iter().all(|a| !a.enabled));
}

#[test]
fn bare_moves_energise_announce_and_step() {
    let mut ax = axes();
    let pulses = Pulses { dir: Level::Low, count: 1600, high_us: 2, low_us: 498 };
    let out = run_command(&mut ax, "move y -1600 2000");
    assert_eq!(
        out,
        vec![
            enable(1, Level::Low),
            Effect::Packet(b"moving Y -1600 steps @ 2000 hz\r\n".to_vec()),
            Effect::Steps { axis: 1, pulses },
            Effect::Packet(b"done".to_vec()),
            Effect::Packet(b"\r\n".to_vec()),
        ]
    );
    assert!(ax[1].enabled);
    // Energised already, and cut to the highest rate.
    let out = run_command(&mut ax, "move y 1 99999");
    assert_eq!(
        done(&out),
        vec![Effect::Steps {
            axis: 1,
            pulses: Pulses { dir: Level::High, count: 1, high_us: 2, low_us: 48 }
        }]
    );
    assert_eq!(said(&out), "moving Y 1 steps @ 20000 hz\r\ndone\r\n");
    let out = run_command(&mut ax, "move x 0");
    assert_eq!(done(&out), vec![enable(0, Level::Low)]);
    assert_eq!(said(&out), "moving X 0 steps @ 1000 hz\r\ndone\r\n");
    assert_eq!(
        parse_request("move z 5"),
        Request::Move { axis: 2, steps: 5, speed: 1000 }
    );
}

#[test]
fn bare_refusals_say_why_and_change_nothing() {
    let cases = [
        ("enable", Refusal::EnableUsage, "usage: enable|disable <x|y|z|e|all>"),
        ("disable q", Refusal::EnableAxis, "unknown axis (expected x|y|z|e|all)"),
        ("move", Refusal::MoveUsage, "usage: move <axis> <steps> [hz]"),
        ("move q", Refusal::MoveUsage, "usage: move <axis> <steps> [hz]"),
        ("move q a", Refusal::MoveAxis, "unknown axis"),
        ("move x a", Refusal::BadSteps, "bad steps (signed integer expected)"),
        ("move x 5 0", Refusal::BadHz, "bad hz (positive integer expected)"),
        ("move x 5 a", Refusal::BadHz, "bad hz (positive integer expected)"),
        ("jog x 5", Refusal::UnknownCommand, "unknown command — try 'help'"),
    ];
    for (line, why, text) in cases {
        assert_eq!(parse_request(line), Request::Refused { why }, "{line}");
        assert_eq!(refusal_reply(why), text);
        let mut ax = axes();
        let out = run_command(&mut ax, line);
        assert_eq!(said(&out), format!("{text}\r\n"));
        assert_eq!(done(&out).len(), 0);
        assert!(ax.iter().all(|a| !a.enabled));
    }
    assert_eq!(parse_request(" "), Request::Nothing);
}

#[test]
fn a_bare_session_runs_lines() {
    let mut ax = axes();
    let (mut s, hello) = Session::open();
    assert_eq!(
        said(&hello),
        "\r\ntmc-new-era — SKR Pico stepper CLI\r\ntype 'help' for commands\r\n> "
    );
    let mut all: Vec<Effect> = Vec::new();
    for b in "enabble\x7f\x7f\x7fle x\r\n".bytes() {
        let (effects, entered) = s.feed(b);
        all.extend(effects);
        if entered {
            all.extend(s.run(&mut ax));
        }
    }
    assert_eq!(
        said(&all),
        "enabble\x08 \x08\x08 \x08\x08 \x08le x\r\nX enabled\r\n> \r\n> "
    );
    assert_eq!(done(&all), vec![enable(0, Level::Low)]);
    assert!(ax[0].enabled);
    let mut all: Vec<Effect> = Vec::new();
    for b in "disable x\x03\r".bytes() {
        let (effects, entered) = s.feed(b);
        all.extend(effects);
        if entered {
            all.extend(s.run(&mut ax));
        }
    }
    assert_eq!(said(&all), "disable x^C\r\n> \r\n> ");
    assert!(ax[0].enabled);
}

#[test]
fn a_lost_host_frees_every_bare_axis() {
    let mut ax = axes();
    run_command(&mut ax, "enable all");
    let out = disconnected(&mut ax);
    assert_eq!(out, (0..4).map(|i| enable(i, Level::High)).collect::<Vec<_>>());
    assert!(ax.iter().all(|a| !a.enabled));
}

#[test]
fn a_bare_line_runs_only_once_its_break_is_delivered() {
    let mut ax = axes();
    let (mut s, _) = Session::open();
    for b in "enable x".bytes() {
        s.feed(b);
    }
    let (effects, entered) = s.feed(b'\r');
    assert_eq!(effects, vec![Effect::Packet(b"\r\n".to_vec())]);
    assert!(entered && !ax[0].enabled);
    s.run(&mut ax);
    assert!(ax[0].enabled);
}
