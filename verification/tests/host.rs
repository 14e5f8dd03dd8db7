use tmc_new_era::axis::AxisCmd;
use tmc_new_era::board::Board;
use tmc_new_era::config::{
    board_label, check_config, clamped_poll_hz, default_button_hz, default_poll_hz, default_true,
    summary, AxisMap, BoardConfig, ButtonMap, Config, ConfigError,
};
use tmc_new_era::drive::{
    bucketed, pace, signed_hz, tick_period, Deflection, Drive, Pace, Speed,
};
use tmc_new_era::effect::Effect;
use tmc_new_era::handshake::{check_version, parse_version, version_of, Handshake, HandshakeError};
use tmc_new_era::joystick::{
    parse_js_event, read_event, JsEvent, Reader, Snapshot, Supervisor, JS_EVENT_AXIS,
    JS_EVENT_BUTTON, JS_EVENT_INIT,
};
use tmc_new_era::link::{
    axis_token, button_commands, jog_command, log_line, move_command, start_commands, stop_commands,
};
use tmc_new_era::session::{Next, Presence, Session};

fn event(ev_type: u8, number: u8, value: i16) -> JsEvent {
    JsEvent { time: 0, value, ev_type, number }
}

fn button(index: usize, target: &str, delta: i32, hz: u32) -> ButtonMap {
    ButtonMap { index, target: target.to_string(), delta, hz }
}

fn stick(index: usize, target: &str) -> AxisMap {
    AxisMap { index, target: target.to_string() }
}

fn board(serial: &str, name: Option<&str>) -> BoardConfig {
    BoardConfig {
        serial: serial.to_string(),
        name: name.map(|s| s.to_string()),
        axes: vec![stick(0, "x"), stick(1, "y")],
        buttons: vec![button(0, "x", 5, 100)],
    }
}

fn config(boards: Vec<BoardConfig>) -> Config {
    Config {
        device: "/dev/input/js0".to_string(),
        poll_hz: 40,
        log: false,
        enable_on_start: true,
        safe_stop_on_exit: true,
        boards,
    }
}

fn tell(session: &mut Session, b: &mut Board, text: &str) -> (String, Vec<Effect>) {
    let mut bytes: Vec<u8> = Vec::new();
    let mut rest: Vec<Effect> = Vec::new();
    let mut take = |effects: Vec<Effect>| {
        for e in effects {
            match e {
                Effect::Packet(p) => bytes.extend(p),
                other => rest.push(other),
            }
        }
    };
    for byte in text.bytes() {
        let mut turn = session.feed(byte);
        loop {
            take(turn.effects);
            turn = match turn.next {
                Next::Byte => break,
                Next::Line => session.run(b, "1.2.3"),
                Next::Wait { pending } => {
                    session.resume(b, pending, true, Presence { before: true, after: true })
                }
                Next::Gone => panic!("the host has not left"),
            };
        }
    }
    (String::from_utf8(bytes).unwrap(), rest)
}

#[test]
fn defaults_are_as_documented() {
    assert_eq!(default_poll_hz(), 40);
    assert!(default_true());
    assert_eq!(default_button_hz(), 1000);
}

#[test]
fn events_are_little_endian() {
    let buf = [0x78, 0x56, 0x34, 0x12, 0xfe, 0xff, 0x82, 0x03];
    let ev = JsEvent { time: 0x1234_5678, value: -2, ev_type: 0x82, number: 3 };
    assert_eq!(parse_js_event(&buf), ev);
    assert_eq!(read_event(&buf, 8), Some(ev));
    assert_eq!(read_event(&buf, 0), None);
    assert_eq!(read_event(&buf, 7), None);
    assert_eq!(parse_js_event(&[0, 0, 0, 0, 0x00, 0x80, 1, 0, 99]).value, i16::MIN);
    assert_eq!(parse_js_event(&[0, 0, 0, 0, 0xff, 0x7f, 1, 0]).value, i16::MAX);
    assert_eq!(parse_js_event(&[0xff; 8]).time, u32::MAX);
}

#[test]
fn sticks_read_back_their_last_event() {
    let mut r = Reader::new();
    let mut s = Snapshot::new();
    assert_eq!(s.stick(2, true), 0);
    assert_eq!(r.event(&mut s, event(JS_EVENT_AXIS, 2, -500)), None);
    assert_eq!(s.axes, vec![0, 0, -500]);
    assert_eq!(r.event(&mut s, event(JS_EVENT_AXIS | JS_EVENT_INIT, 0, 7)), None);
    assert_eq!(s.axes, vec![7, 0, -500]);
    assert_eq!(s.stick(2, true), -500);
    assert_eq!(s.stick(2, false), 0);
    assert_eq!(s.stick(3, true), 0);
    // Events of other kinds are nobody's.
    assert_eq!(r.event(&mut s, event(0x04, 1, 1)), None);
    assert_eq!(s.axes, vec![7, 0, -500]);
}

#[test]
fn buttons_press_on_the_way_down() {
    let mut r = Reader::new();
    let mut s = Snapshot::new();
    assert_eq!(r.event(&mut s, event(JS_EVENT_BUTTON, 4, 1)), Some(4));
    assert_eq!(r.event(&mut s, event(JS_EVENT_BUTTON, 4, 1)), None);
    assert_eq!(r.event(&mut s, event(JS_EVENT_BUTTON, 5, 1)), Some(5));
    assert_eq!(r.event(&mut s, event(JS_EVENT_BUTTON, 4, 0)), None);
    assert_eq!(r.event(&mut s, event(JS_EVENT_BUTTON, 4, 1)), Some(4));
    assert_eq!(s.axes.len(), 0);
}

#[test]
fn the_state_at_opening_presses_nothing() {
    let mut r = Reader::new();
    let mut s = Snapshot::new();
    assert_eq!(r.event(&mut s, event(JS_EVENT_BUTTON | JS_EVENT_INIT, 1, 1)), None);
    // It counts as down all the same.
    assert_eq!(r.event(&mut s, event(JS_EVENT_BUTTON, 1, 1)), None);
    assert_eq!(r.event(&mut s, event(JS_EVENT_BUTTON | JS_EVENT_INIT, 2, 0)), None);
    assert_eq!(r.event(&mut s, event(JS_EVENT_BUTTON, 2, 1)), Some(2));
}

#[test]
fn a_lost_joystick_is_centred() {
    let mut sup = Supervisor::new();
    let mut r = Reader::new();
    let mut s = Snapshot::new();
    assert_eq!(sup.open_failed(), (true, 1000));
    assert_eq!(sup.open_failed(), (false, 1000));
    sup.opened(&mut s);
    assert_eq!(sup, Supervisor { connected: true, warned: true });
    r.event(&mut s, event(JS_EVENT_AXIS, 1, 32_000));
    assert_eq!(sup.lost(&mut s), 300);
    assert_eq!(sup, Supervisor { connected: false, warned: false });
    assert_eq!(s.axes, vec![0, 0]);
    assert_eq!(sup.open_failed(), (true, 1000));
}

#[test]
fn opening_centres_what_was_left() {
    let mut sup = Supervisor::new();
    let mut s = Snapshot { axes: vec![3, -4] };
    sup.opened(&mut s);
    assert_eq!(s.axes, vec![0, 0]);
    assert!(sup.connected);
}

#[test]
fn versions_are_found() {
    let cases = [
        ("tmc-new-era firmware v0.1.0\r\n> ", Some("0.1.0")),
        ("version\r\ntmc-new-era firmware v10.20.30\r\n", Some("10.20.30")),
        ("v1.2.3", Some("1.2.3")),
        ("v1.2 v1.2.3.4 v1..2 v.1.2 v1.2. v1.2.x va.b.c V1.2.3 v4.5.6 v7.8.9", Some("4.5.6")),
        ("xv1.2.3 1.2.3", None),
        ("é:v1.2.3é", Some("1.2.3")),
        ("v", None),
        ("", None),
        ("v1_2_3", None),
    ];
    for (text, want) in cases {
        assert_eq!(parse_version(text).as_deref(), want, "{text}");
    }
}

#[test]
fn replies_without_a_version_are_quoted() {
    assert_eq!(version_of("hello v1.2.3").unwrap(), "1.2.3");
    let HandshakeError::NoVersion { excerpt } = version_of("what?").unwrap_err();
    assert_eq!(excerpt, "what?");
    let long = "é".repeat(200);
    let HandshakeError::NoVersion { excerpt } = version_of(&long).unwrap_err();
    assert_eq!(excerpt, "é".repeat(160));
}

#[test]
fn a_handshake_collects_until_it_has_enough() {
    let mut h = Handshake::new();
    assert!(!h.take(b""));
    assert!(!h.take(b"\r\n> version\r\ntmc-new-era firm"));
    assert!(!h.take(b"ware v3.2.1\r\n> "));
    assert_eq!(h.version().unwrap(), "3.2.1");
    let mut h = Handshake::new();
    assert!(!h.take(&[b' '; 4096]));
    assert!(!h.take(b""));
    assert!(h.take(b"x"));
    assert_eq!(h.reply.len(), 4097);
}

#[test]
fn a_handshake_survives_noise() {
    let mut h = Handshake::new();
    h.take(&[0xff, 0xfe, b'v', b'1', b'.', b'2', b'.', b'3', 0x80]);
    assert_eq!(h.version().unwrap(), "1.2.3");
    let mut h = Handshake::new();
    h.take(&[0xff, b'a']);
    let HandshakeError::NoVersion { excerpt } = h.version().unwrap_err();
    assert_eq!(excerpt, "\u{fffd}a");
}

#[test]
fn versions_must_be_the_same() {
    assert_eq!(check_version("arm", "1.2.3", "1.2.3"), Ok(()));
    assert_eq!(
        check_version("arm", "1.2.3", "1.2.4"),
        Err("board arm: version mismatch: firmware v1.2.3 != host v1.2.4. Reflash \
             firmware/target/thumbv6m-none-eabi/release/tmc-new-era.uf2 or rebuild the host."
            .to_string())
    );
}

#[test]
fn boards_have_labels() {
    assert_eq!(board_label(&board("/dev/ttyACM0", None)), "/dev/ttyACM0");
    assert_eq!(board_label(&board("/dev/ttyACM0", Some("arm"))), "arm");
}

#[test]
fn a_configuration_needs_a_board() {
    assert_eq!(check_config(&config(vec![])), Err(ConfigError::NoBoards));
    assert_eq!(ConfigError::NoBoards.text(), "config has no [[boards]] entries");
    assert_eq!(check_config(&config(vec![board("a", None)])), Ok(()));
}

#[test]
fn a_configuration_is_summed_up() {
    let cfg = config(vec![board("a", None), board("b", None)]);
    assert_eq!(
        summary(&cfg),
        "tmc-new-era-host: device=/dev/input/js0 poll_hz=40 boards=2 axes=4 buttons=2"
    );
}

#[test]
fn poll_rates_are_clamped() {
    let want = [(0, 10), (9, 10), (10, 10), (40, 40), (200, 200), (201, 200), (u32::MAX, 200)];
    for (asked, got) in want {
        assert_eq!(clamped_poll_hz(asked), got);
    }
}

#[test]
fn targets_name_axes_in_any_case() {
    for t in ["x", "y", "z", "e"] {
        assert_eq!(axis_token(t), Some(t));
        assert_eq!(axis_token(&t.to_uppercase()), Some(t));
    }
    for t in ["none", "None", "", "w", "xy", " x"] {
        assert_eq!(axis_token(t), None);
    }
}

#[test]
fn commands_are_spelled_out() {
    assert_eq!(jog_command(0, 25), "jog x 25\r\n");
    assert_eq!(jog_command(3, i32::MIN), "jog e -2147483648\r\n");
    assert_eq!(move_command(1, -200, 1000), "move y -200 1000\r\n");
    assert_eq!(start_commands(true), vec!["enable all\r\n"]);
    assert_eq!(start_commands(false), Vec::<String>::new());
    assert_eq!(
        stop_commands(true),
        vec!["jog x 0\r\n", "jog y 0\r\n", "jog z 0\r\n", "jog e 0\r\n", "disable all\r\n"]
    );
    assert_eq!(stop_commands(false), Vec::<String>::new());
}

#[test]
fn presses_nudge_every_axis_that_listens() {
    let buttons = vec![
        button(0, "x", 100, 1000),
        button(1, "y", 5, 7),
        button(0, "none", 1, 1),
        button(256, "y", 9, 9),
        button(0, "E", -3, 0),
        button(0, "z", i32::MIN, u32::MAX),
    ];
    assert_eq!(
        button_commands(&buttons, 0),
        vec!["move x 100 1000\r\n", "move e -3 0\r\n", "move z -2147483648 4294967295\r\n"]
    );
    assert_eq!(button_commands(&buttons, 1), vec!["move y 5 7\r\n"]);
    assert_eq!(button_commands(&buttons, 2), Vec::<String>::new());
}

#[test]
fn the_log_trims_commands() {
    assert_eq!(log_line("arm", "jog x 25\r\n"), "[arm] > jog x 25");
    assert_eq!(log_line("", " \t\r\n"), "[] > ");
    for s in ["a\u{a0}", "a \u{3000}\u{2003}", "a\u{200b}", " a b \u{85}", "a\u{1c}", "a\x0b"] {
        assert_eq!(log_line("l", s), format!("[l] > {}", s.trim_end()));
    }
}

#[test]
fn deflections_are_bucketed() {
    let d = |idle, positive, buckets| Deflection { idle, positive, buckets };
    assert_eq!(bucketed(d(true, true, 9)), Speed { sign: 0, mag: 0 });
    assert_eq!(bucketed(d(false, true, 0)), Speed { sign: 1, mag: 25 });
    assert_eq!(bucketed(d(false, false, 1)), Speed { sign: -1, mag: 25 });
    assert_eq!(bucketed(d(false, false, 40)), Speed { sign: -1, mag: 1000 });
    assert_eq!(signed_hz(Speed { sign: -1, mag: 1000 }), -1000);
    assert_eq!(signed_hz(Speed { sign: 0, mag: 0 }), 0);
    // Beyond the signed range the number stays at its end.
    assert_eq!(signed_hz(Speed { sign: 1, mag: 4_294_967_275 }), 2_147_483_647);
    assert_eq!(signed_hz(Speed { sign: -1, mag: 2_147_483_650 }), -2_147_483_647);
    assert_eq!(signed_hz(Speed { sign: 1, mag: 2_147_483_625 }), 2_147_483_625);
}

#[test]
fn moving_axes_are_resent_and_zero_is_sent_once() {
    let mut drive = Drive::new();
    let zero = Speed { sign: 0, mag: 0 };
    let fast = Speed { sign: -1, mag: 500 };
    assert_eq!(drive.drive(0, zero), None);
    assert_eq!(drive.drive(0, fast).as_deref(), Some("jog x -500\r\n"));
    assert_eq!(drive.drive(0, fast).as_deref(), Some("jog x -500\r\n"));
    assert_eq!(drive.drive(1, zero), None);
    assert_eq!(drive.drive(0, zero).as_deref(), Some("jog x 0\r\n"));
    assert_eq!(drive.drive(0, zero), None);
}

#[test]
fn a_tick_goes_through_the_sticks_in_order() {
    let mut drive = Drive::new();
    let maps = vec![stick(0, "x"), stick(1, "none"), stick(2, "Y"), stick(3, "x")];
    let zero = Speed { sign: 0, mag: 0 };
    let s = |mag| Speed { sign: 1, mag };
    assert_eq!(
        drive.tick(true, &maps, &vec![s(25), s(50), s(75), zero]),
        vec!["jog x 25\r\n", "jog y 75\r\n", "jog x 0\r\n"]
    );
    assert_eq!(drive.tick(true, &maps, &vec![zero, zero, zero, zero]), vec!["jog y 0\r\n"]);
    assert_eq!(drive.tick(true, &maps, &vec![zero, s(25), zero, zero]), Vec::<String>::new());
}

#[test]
fn a_lost_joystick_stops_each_axis_once() {
    let mut drive = Drive::new();
    let maps = vec![stick(0, "x"), stick(1, "z"), stick(2, "Y"), stick(3, "X")];
    let s = |mag| Speed { sign: -1, mag };
    let zero = Speed { sign: 0, mag: 0 };
    let held = vec![s(25), zero, s(75), s(50)];
    assert_eq!(
        drive.tick(true, &maps, &held),
        vec!["jog x -25\r\n", "jog y -75\r\n", "jog x -50\r\n"]
    );
    assert_eq!(drive.tick(false, &maps, &held), vec!["jog x 0\r\n", "jog y 0\r\n"]);
    assert_eq!(drive.tick(false, &maps, &held), Vec::<String>::new());
    assert_eq!(drive.tick(false, &maps, &held), Vec::<String>::new());
    assert_eq!(drive.tick(true, &maps, &vec![zero, s(25), zero, zero]), vec!["jog z -25\r\n"]);
}

#[test]
fn ticks_keep_their_pace() {
    assert_eq!(pace(1000, 500, 1200), Pace { next: 1500, wait: 300 });
    assert_eq!(pace(1000, 500, 1500), Pace { next: 1500, wait: 0 });
    assert_eq!(pace(1000, 500, 9999), Pace { next: 9999, wait: 0 });
    // The tick after a late one is a period behind it.
    assert_eq!(pace(9999, 500, 10_000), Pace { next: 10_499, wait: 499 });
}

#[test]
fn ticks_come_at_the_polling_rate() {
    assert_eq!(tick_period(40), 25_000_000);
    assert_eq!(tick_period(30), 33_333_333);
    assert_eq!(tick_period(0), 100_000_000);
    assert_eq!(tick_period(1000), 5_000_000);
}

#[test]
fn a_board_obeys_what_the_host_sends() {
    let (mut s, _) = Session::open("1.2.3");
    let mut b = Board::new();
    let (text, acts) = tell(&mut s, &mut b, &jog_command(2, -2_000_000));
    assert_eq!(text, "jog z -2000000\r\nok jog Z -40000\r\n> \r\n> ");
    assert_eq!(acts, vec![Effect::Axis { axis: 2, cmd: AxisCmd::Jog(-40_000) }]);
    let (_, acts) = tell(&mut s, &mut b, &move_command(0, -5, 100));
    assert_eq!(
        acts,
        vec![
            Effect::Axis { axis: 0, cmd: AxisCmd::Jog(-100) },
            Effect::Axis { axis: 0, cmd: AxisCmd::Jog(0) },
        ]
    );
    for c in start_commands(true) {
        tell(&mut s, &mut b, &c);
    }
    assert!(b.axes.iter().all(|a| a.enabled));
    for c in stop_commands(true) {
        tell(&mut s, &mut b, &c);
    }
    assert!(b.axes.iter().all(|a| !a.enabled && !a.energised && a.velocity == 0));
}

#[test]
fn a_handshake_with_a_board_succeeds() {
    let (mut s, _) = Session::open("1.2.3");
    let mut b = Board::new();
    let (text, _) = tell(&mut s, &mut b, Handshake::query());
    assert_eq!(
        text,
        "\r\n> \r\n> version\r\ntmc-new-era firmware v1.2.3\r\n> \r\n> "
    );
    let mut h = Handshake::new();
    h.take(text.as_bytes());
    assert_eq!(h.version().unwrap(), "1.2.3");
}

#[test]
fn a_handshake_ends_a_line_under_way() {
    let (mut s, _) = Session::open("1.2.3");
    let mut b = Board::new();
    tell(&mut s, &mut b, "fan 0 o");
    let (text, _) = tell(&mut s, &mut b, Handshake::query());
    assert_eq!(
        text,
        "\r\nbad fan state (on|off)\r\n> \r\n> version\r\ntmc-new-era firmware v1.2.3\r\n> \r\n> "
    );
    assert_eq!(parse_version(&text).as_deref(), Some("1.2.3"));
}

#[test]
fn the_greeting_tells_the_version() {
    let (_, out) = Session::open("10.0.7");
    let mut h = Handshake::new();
    for e in out {
        if let Effect::Packet(p) = e {
            h.take(&p);
        }
    }
    assert_eq!(h.version().unwrap(), "10.0.7");
}
