use tmc_new_era::axis::{axis_index, axis_name, axis_of, enable_level, Level};
use tmc_new_era::message::compose;
use tmc_new_era::text::{
    chars_of, read_i32, read_u16, read_u32, read_u8, read_usize, same, signed_text, split_words,
    unsigned_text,
};

fn chars(s: &str) -> Vec<char> {
    s.chars().collect()
}

fn pieces(p: &[&str]) -> Vec<String> {
    p.iter().map(|s| s.to_string()).collect()
}

#[test]
fn words_are_split_on_ascii_white_space() {
    assert_eq!(split_words("jog x 25"), vec![chars("jog"), chars("x"), chars("25")]);
    assert_eq!(
        split_words("  \tjog\x0c x\r\n  -5 "),
        vec![chars("jog"), chars("x"), chars("-5")]
    );
    assert_eq!(split_words(""), Vec::<Vec<char>>::new());
    assert_eq!(split_words(" \t \r\n"), Vec::<Vec<char>>::new());
    // A no-break space and a vertical tab separate nothing.
    assert_eq!(split_words("a\u{a0}b\x0bc"), vec![chars("a\u{a0}b\x0bc")]);
}

#[test]
fn words_agree_with_std() {
    for s in ["", " ", "a", " a", "a ", "a b", "a\tb\nc\rd\x0ce", "é ü", "  x  y  "] {
        let want: Vec<Vec<char>> = s.split_ascii_whitespace().map(chars).collect();
        assert_eq!(split_words(s), want);
    }
}

#[test]
fn numerals_agree_with_std() {
    let inputs = [
        "", "+", "-", "0", "-0", "+0", "00", "007", "1", "-1", "+1", "--1", "+-1", "1.0", "1e3",
        " 1", "1 ", "0x10", "255", "256", "-128", "65535", "65536", "2147483647", "2147483648",
        "-2147483648", "-2147483649", "4294967295", "4294967296", "18446744073709551615",
        "18446744073709551616", "99999999999999999999999999", "-99999999999999999999999999", "٣",
    ];
    for s in inputs {
        let c = chars(s);
        assert_eq!(read_i32(&c), s.parse::<i32>().ok(), "{s}");
        assert_eq!(read_u32(&c), s.parse::<u32>().ok(), "{s}");
        assert_eq!(read_u16(&c), s.parse::<u16>().ok(), "{s}");
        assert_eq!(read_u8(&c), s.parse::<u8>().ok(), "{s}");
        assert_eq!(read_usize(&c), s.parse::<usize>().ok(), "{s}");
    }
}

#[test]
fn numbers_are_written_in_decimal() {
    assert_eq!(unsigned_text(0), "0");
    assert_eq!(unsigned_text(9), "9");
    assert_eq!(unsigned_text(10), "10");
    assert_eq!(unsigned_text(1_234_567_890), "1234567890");
    assert_eq!(unsigned_text(u64::MAX), "18446744073709551615");
    assert_eq!(signed_text(0), "0");
    assert_eq!(signed_text(-1), "-1");
    assert_eq!(signed_text(i32::MIN as i64), "-2147483648");
    assert_eq!(signed_text(i64::MAX), "9223372036854775807");
}

#[test]
fn numbers_read_back() {
    for n in [0, 1, -1, 25, -25, 40_000, i32::MAX, i32::MIN] {
        assert_eq!(read_i32(&chars_of(&signed_text(n as i64))), Some(n));
    }
}

#[test]
fn words_are_compared_whole() {
    assert!(same(&chars("jog"), "jog"));
    assert!(!same(&chars("jog"), "jo"));
    assert!(!same(&chars("jo"), "jog"));
    assert!(!same(&chars("jog"), "Jog"));
    assert!(same(&chars(""), ""));
}

#[test]
fn axes_have_names_in_both_cases() {
    for (i, (lower, upper)) in [("x", "X"), ("y", "Y"), ("z", "Z"), ("e", "E")].iter().enumerate() {
        assert_eq!(axis_index(lower), Some(i));
        assert_eq!(axis_index(upper), Some(i));
        assert_eq!(axis_of(&chars(lower)), Some(i));
        assert_eq!(axis_name(i), *upper);
        assert_eq!(axis_index(axis_name(i)), Some(i));
    }
    for s in ["", "a", "xx", "x ", "all", "none"] {
        assert_eq!(axis_index(s), None);
    }
}

#[test]
fn enable_pins_are_active_low() {
    assert_eq!(enable_level(true), Level::Low);
    assert_eq!(enable_level(false), Level::High);
}

#[test]
fn messages_that_fit_are_whole() {
    assert_eq!(compose::<8>(String::new(), &pieces(&["abc", "de", "fgh"])), "abcdefgh");
    assert_eq!(compose::<8>("12".to_string(), &pieces(&["abc"])), "12abc");
    assert_eq!(compose::<8>("12".to_string(), &pieces(&[])), "12");
}

#[test]
fn messages_end_before_the_first_piece_that_does_not_fit() {
    assert_eq!(compose::<8>(String::new(), &pieces(&["abc", "defghi", "j"])), "abc");
    assert_eq!(compose::<2>(String::new(), &pieces(&["abc"])), "");
    // Room is counted in bytes.
    assert_eq!(compose::<4>(String::new(), &pieces(&["é", "é", "x"])), "éé");
    assert_eq!(compose::<3>(String::new(), &pieces(&["é", "é"])), "é");
}
