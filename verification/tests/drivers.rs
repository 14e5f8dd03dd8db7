use tmc_new_era::servo::{servo_base_config, servo_update, us_to_compare, PwmSetting, SERVO_TOP};
use tmc_new_era::tmc::{
    apply_tmc, chopconf_word, current_scale, current_to_vsense_cs, gconf_word, ihold_irun_word,
    microsteps_to_mres, tmc_addr, TmcCfg,
};

#[test]
fn currents_have_a_range_and_a_scale() {
    let want = [
        (0, (true, 0)),
        (1, (true, 0)),
        (10, (true, 0)),
        (15, (true, 0)),
        (16, (true, 0)),
        (500, (true, 15)),
        (600, (true, 19)),
        (800, (true, 25)),
        (994, (true, 31)),
        (995, (false, 17)),
        (1200, (false, 21)),
        (1773, (false, 31)),
        (2000, (false, 31)),
        (u32::MAX, (false, 31)),
    ];
    for (ma, r) in want {
        assert_eq!(current_to_vsense_cs(ma), r, "{ma}");
    }
}

#[test]
fn more_current_is_never_less() {
    let delivered = |ma| {
        let (vsense, cs) = current_to_vsense_cs(ma);
        (cs as u64 + 1) * if vsense { 180 } else { 325 }
    };
    for ma in 0..3000 {
        assert!(delivered(ma) <= delivered(ma + 1), "{ma}");
        assert_eq!(current_to_vsense_cs(ma).0, ma <= 994);
    }
}

#[test]
fn a_current_has_a_scale_in_either_range() {
    assert_eq!(current_scale(500, true), 15);
    assert_eq!(current_scale(500, false), 8);
    assert_eq!(current_scale(0, true), 0);
    assert_eq!(current_scale(0, false), 0);
    assert_eq!(current_scale(1200, true), 31);
    assert_eq!(current_scale(1200, false), 21);
    assert_eq!(current_scale(u32::MAX, false), 31);
}

#[test]
fn the_hold_current_is_scaled_in_the_range_of_the_run_current() {
    let cfg = TmcCfg {
        axis: 0,
        microsteps: 16,
        run_ma: 1200,
        hold_ma: 500,
        hold_delay: 8,
        spreadcycle: false,
        interpolate: true,
    };
    let d = apply_tmc(cfg).unwrap();
    // IRUN 21 and IHOLD 8, with the sensitive range off.
    assert_eq!(d[1][3..7], [0, 8, 21, 8]);
    assert_eq!(d[2][3..7], [0x14, 0, 0, 0x53]);
    // A hold current that the sensitive range cannot reach is its largest.
    let d = apply_tmc(TmcCfg { run_ma: 500, hold_ma: 1200, ..cfg }).unwrap();
    assert_eq!(d[1][3..7], [0, 8, 15, 31]);
}

#[test]
fn microsteps_have_codes() {
    for code in 0..9u32 {
        assert_eq!(microsteps_to_mres(256 >> code), Some(code as u8));
    }
    for ms in [0, 3, 5, 12, 255, 257, 512, u16::MAX] {
        assert_eq!(microsteps_to_mres(ms), None);
    }
}

#[test]
fn registers_are_set_bit_for_bit() {
    assert_eq!(gconf_word(false), 0xc0);
    assert_eq!(gconf_word(true), 0xc4);
    assert_eq!(ihold_irun_word(0, 0, 0), 0);
    assert_eq!(ihold_irun_word(31, 31, 15), 0xf1f1f);
    assert_eq!(ihold_irun_word(1, 2, 3), 0x30102);
    // Only the low bits of each field count.
    assert_eq!(ihold_irun_word(0xff, 0xe0, 0xf0), 0x1f00);
    assert_eq!(chopconf_word(0, false, false), 0x53);
    assert_eq!(chopconf_word(8, true, true), 0x18020053);
    assert_eq!(chopconf_word(5, true, false), 0x15000053);
}

#[test]
fn drivers_have_addresses_of_their_own() {
    let a: Vec<u8> = (0..4).map(tmc_addr).collect();
    assert_eq!(a, vec![0, 2, 1, 3]);
}

#[test]
fn settings_become_three_datagrams() {
    let cfg = TmcCfg {
        axis: 0,
        microsteps: 16,
        run_ma: 800,
        hold_ma: 400,
        hold_delay: 8,
        spreadcycle: false,
        interpolate: true,
    };
    assert_eq!(
        apply_tmc(cfg),
        Some(vec![
            vec![5, 0, 128, 0, 0, 0, 192, 64],
            vec![5, 0, 144, 0, 8, 25, 12, 43],
            vec![5, 0, 236, 20, 2, 0, 83, 212],
        ])
    );
    let cfg = TmcCfg {
        axis: 1,
        microsteps: 256,
        run_ma: 1200,
        hold_ma: 0,
        hold_delay: 255,
        spreadcycle: true,
        interpolate: false,
    };
    assert_eq!(
        apply_tmc(cfg),
        Some(vec![
            vec![5, 2, 128, 0, 0, 0, 196, 214],
            vec![5, 2, 144, 0, 15, 21, 0, 250],
            vec![5, 2, 236, 0, 0, 0, 83, 90],
        ])
    );
}

#[test]
fn datagrams_carry_the_checksum_of_the_driver_crate() {
    for axis in 0..4 {
        let cfg = TmcCfg {
            axis,
            microsteps: 64,
            run_ma: 700,
            hold_ma: 350,
            hold_delay: 6,
            spreadcycle: axis % 2 == 0,
            interpolate: axis > 1,
        };
        for d in apply_tmc(cfg).unwrap() {
            assert_eq!(d.len(), 8);
            assert_eq!(d[7], tmc2209::crc(&d[..7]));
        }
    }
}

#[test]
fn settings_for_nothing_are_passed_over() {
    let good = TmcCfg {
        axis: 3,
        microsteps: 8,
        run_ma: 1,
        hold_ma: 1,
        hold_delay: 0,
        spreadcycle: false,
        interpolate: false,
    };
    assert!(apply_tmc(good).is_some());
    assert_eq!(apply_tmc(TmcCfg { axis: 4, ..good }), None);
    assert_eq!(apply_tmc(TmcCfg { microsteps: 7, ..good }), None);
}

#[test]
fn pulse_widths_become_ticks() {
    let want = [(0, 0), (1, 1), (500, 976), (1500, 2929), (2200, 4296), (2500, 4882), (10_000, 19_531)];
    for (us, ticks) in want {
        assert_eq!(us_to_compare(us), ticks);
    }
    assert_eq!(us_to_compare(u16::MAX), 62_462);
    assert!(2 * us_to_compare(10_000) <= SERVO_TOP);
}

#[test]
fn servos_sit_on_their_own_channel() {
    let base = servo_base_config();
    assert_eq!(base, PwmSetting { divider: 64, top: 39_062, compare_a: 0, compare_b: 0 });
    for (idx, on_a) in [true, false, false, true, false].into_iter().enumerate() {
        let mut cfg = base;
        servo_update(&mut cfg, idx, 1500);
        if on_a {
            assert_eq!(cfg, PwmSetting { compare_a: 2929, ..base });
        } else {
            assert_eq!(cfg, PwmSetting { compare_b: 2929, ..base });
        }
        servo_update(&mut cfg, idx, 0);
        assert_eq!(cfg, base);
    }
}
