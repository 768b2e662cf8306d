use wl_sniper::keys::{
    button_or_default, find_f_number, key_name, not_a_number, parse_button, parse_stage,
    unrecognized_message, ButtonFault, DEFAULT_BUTTON, EV_KEY,
};
use wl_sniper::number::{parse_uint, to_dec, to_dec_int, to_hex, to_hex2, to_hex4, IntError};
use wl_sniper::probe::names;

#[test]
fn parse_button_fkeys_match_evdev() {
    // Linux KEY_F* is not contiguous: F10=68, F11=87, F12=88, F13..F24=183..=194.
    assert_eq!(parse_button("F1").unwrap(), 59);
    assert_eq!(parse_button("F10").unwrap(), 68);
    assert_eq!(parse_button("F11").unwrap(), 87);
    assert_eq!(parse_button("F12").unwrap(), 88);
    assert_eq!(parse_button("f24").unwrap(), 194);
}

#[test]
fn parse_button_names_and_codes() {
    assert_eq!(parse_button("SCROLLLOCK").unwrap(), 70);
    assert_eq!(parse_button("scrolllock").unwrap(), 70);
    assert_eq!(parse_button("70").unwrap(), 70);
    assert_eq!(parse_button("0x46").unwrap(), 70);
    assert_eq!(parse_button("BTN_EXTRA").unwrap(), 0x114);
    assert!(parse_button("F25").is_err());
    assert!(parse_button("nope").is_err());
}

#[test]
fn parse_button_basics() {
    assert_eq!(parse_button("70").unwrap(), 70);
    assert_eq!(parse_button("0x46").unwrap(), 70);
    assert_eq!(parse_button("SCROLLLOCK").unwrap(), 70);
    assert_eq!(parse_button("f12").unwrap(), 88);
    assert!(parse_button("nope").is_err());
}

#[test]
fn every_known_name_has_its_code() {
    let known: Vec<(&str, u16)> = vec![
        ("ESC", 1),
        ("PAUSE", 19),
        ("PRINT", 69),
        ("NUMLOCK", 69),
        ("SCROLLLOCK", 70),
        ("CAPSLOCK", 58),
        ("BTN_LEFT", 0x110),
        ("BTN_RIGHT", 0x111),
        ("BTN_MIDDLE", 0x112),
        ("BTN_SIDE", 0x113),
        ("BTN_EXTRA", 0x114),
        ("BTN_FORWARD", 0x115),
        ("BTN_BACK", 0x116),
        ("BTN_TASK", 0x117),
    ];
    for (name, code) in known {
        assert_eq!(parse_button(name).unwrap(), code);
        assert_eq!(parse_button(&name.to_lowercase()).unwrap(), code);
    }
}

#[test]
fn codes_as_the_standard_library_reads_them() {
    assert_eq!(parse_button("+70").unwrap(), 70);
    assert_eq!(parse_button("0x+46").unwrap(), 70);
    assert_eq!(parse_button("0X46").unwrap(), 70);
    assert_eq!(parse_button("F+12").unwrap(), 88);
    assert_eq!(parse_button("65535").unwrap(), 65535);
    assert_eq!(parse_button("0xffff").unwrap(), 65535);
    assert_eq!(parse_button("00070").unwrap(), 70);
    assert_eq!(parse_button("65536").unwrap_err().fault, ButtonFault::Unrecognized);
    assert_eq!(parse_button("0x10000").unwrap_err().fault, ButtonFault::Unrecognized);
    assert_eq!(parse_button("0x").unwrap_err().fault, ButtonFault::Unrecognized);
    assert_eq!(parse_button("").unwrap_err().fault, ButtonFault::Unrecognized);
    assert_eq!(parse_button("-1").unwrap_err().fault, ButtonFault::Unrecognized);
    assert_eq!(parse_button("７０").unwrap_err().fault, ButtonFault::Unrecognized);
}

#[test]
fn each_button_fault_and_its_message() {
    let e = parse_button("F").unwrap_err();
    assert_eq!(e.fault, ButtonFault::BadFKey(IntError::Empty));
    assert_eq!(e.message(), "bad F-key name: F");
    assert_eq!(e.chain(), "bad F-key name: F: cannot parse integer from empty string");

    let e = parse_button("fx").unwrap_err();
    assert_eq!(e.fault, ButtonFault::BadFKey(IntError::InvalidDigit));
    assert_eq!(e.chain(), "bad F-key name: fx: invalid digit found in string");

    let e = parse_button("F99999").unwrap_err();
    assert_eq!(e.fault, ButtonFault::BadFKey(IntError::Overflow));
    assert_eq!(e.chain(), "bad F-key name: F99999: number too large to fit in target type");

    let e = parse_button("f25").unwrap_err();
    assert_eq!(e.fault, ButtonFault::UnsupportedFKey);
    assert_eq!(e.message(), "unsupported F-key: f25 (F1-F24)");
    assert_eq!(e.chain(), "unsupported F-key: f25 (F1-F24)");
    assert_eq!(parse_button("F0").unwrap_err().fault, ButtonFault::UnsupportedFKey);

    let e = parse_button("no\"pe\n").unwrap_err();
    assert_eq!(e.fault, ButtonFault::Unrecognized);
    assert_eq!(e.given, "no\"pe\n");
    assert_eq!(
        e.message(),
        "unrecognized button \"no\\\"pe\\n\" — use an evdev name (SCROLLLOCK, F12, BTN_EXTRA, ...), a decimal code (70) or hex (0x46)"
    );
    assert_eq!(e.chain(), e.message());
}

#[test]
fn messages_take_the_quoted_text() {
    assert_eq!(
        unrecognized_message("\"x\""),
        "unrecognized button \"x\" — use an evdev name (SCROLLLOCK, F12, BTN_EXTRA, ...), a decimal code (70) or hex (0x46)"
    );
    assert_eq!(not_a_number("\"x\""), "\"x\" is not a number");
}

#[test]
fn default_button_is_scroll_lock() {
    assert_eq!(EV_KEY, 1);
    assert_eq!(DEFAULT_BUTTON, 70);
    assert_eq!(button_or_default(None).unwrap(), 70);
    assert_eq!(button_or_default(Some("F12")).unwrap(), 88);
    assert_eq!(button_or_default(Some("zz")).unwrap_err().given, "zz");
}

#[test]
fn stages_are_one_to_six() {
    for v in 1u8..=6 {
        assert_eq!(parse_stage(&v.to_string()), Ok(v));
    }
    assert_eq!(parse_stage("+3"), Ok(3));
    assert_eq!(parse_stage("0"), Err("0 not in 1..=6".to_string()));
    assert_eq!(parse_stage("7"), Err("7 not in 1..=6".to_string()));
    assert_eq!(parse_stage("255"), Err("255 not in 1..=6".to_string()));
    assert_eq!(parse_stage("256"), Err("\"256\" is not a number".to_string()));
    assert_eq!(parse_stage(""), Err("\"\" is not a number".to_string()));
    assert_eq!(parse_stage("two"), Err("\"two\" is not a number".to_string()));
    assert_eq!(parse_stage("\t"), Err("\"\\t\" is not a number".to_string()));
}

#[test]
fn function_keys_are_shown_by_their_own_number() {
    assert_eq!(key_name(59), "F1");
    assert_eq!(key_name(68), "F10");
    assert_eq!(key_name(87), "F11");
    assert_eq!(key_name(88), "F12");
    assert_eq!(key_name(183), "F13");
    assert_eq!(key_name(194), "F24");
    assert_eq!(names::key_name(59), "F1");
    assert_eq!(names::key_name(88), "F12");
    assert_eq!(names::key_name(183), "F13");
    assert_eq!(names::key_name(194), "F24");
    assert_eq!(find_f_number(69), None);
    assert_eq!(find_f_number(195), None);
}

#[test]
fn other_keys_are_shown_by_name_or_code() {
    assert_eq!(key_name(70), "SCROLLLOCK");
    assert_eq!(key_name(69), "PRINT/NUMLOCK");
    assert_eq!(key_name(57), "57");
    assert_eq!(key_name(0x117), "BTN_TASK");
    assert_eq!(key_name(0x118), "280");
    assert_eq!(names::key_name(69), "NUMLOCK");
    assert_eq!(names::key_name(57), "SPACE");
    assert_eq!(names::key_name(0), "0");
}

#[test]
fn shown_names_are_buttons() {
    for code in 0u16..=65535 {
        if code != 69 {
            assert_eq!(parse_button(&key_name(code)).unwrap(), code);
        }
        if code != 57 {
            assert_eq!(parse_button(&names::key_name(code)).unwrap(), code);
        }
    }
    assert!(parse_button(&key_name(69)).is_err());
    assert!(parse_button(&names::key_name(57)).is_err());
}

#[test]
fn case_decimal_and_hexadecimal_do_not_matter() {
    for code in [0u16, 1, 9, 10, 15, 16, 70, 255, 256, 4096, 65535] {
        assert_eq!(parse_button(&format!("{code}")).unwrap(), code);
        assert_eq!(parse_button(&format!("0x{code:x}")).unwrap(), code);
        assert_eq!(parse_button(&format!("0X{code:X}")).unwrap(), code);
    }
    assert_eq!(parse_button("ScRoLlLoCk").unwrap(), parse_button("SCROLLLOCK").unwrap());
    assert_eq!(parse_button("btn_Left").unwrap(), 0x110);
}

#[test]
fn function_keys_are_one_to_one() {
    let mut codes: Vec<u16> = Vec::new();
    for n in 1u16..=24 {
        let code = parse_button(&format!("F{n}")).unwrap();
        assert_eq!(find_f_number(code), Some(n));
        assert!(!codes.contains(&code));
        codes.push(code);
    }
}

#[test]
fn numbers_are_read_as_the_standard_library_reads_them() {
    let texts = [
        "", "+", "-", "0", "7", "+7", "++7", "-7", "65535", "65536", "999999", "999999x", "x999999",
        "6553x", "65536x", " 7", "7 ", "٣", "1_000", "ff", "FF", "+ff",
    ];
    for t in texts {
        let chars: Vec<char> = t.chars().collect();
        let own = parse_uint(&chars, 10, 65535);
        match t.parse::<u16>() {
            Ok(v) => assert_eq!(own, Ok(v as u32)),
            Err(e) => assert_eq!(own.unwrap_err().message(), e.to_string()),
        }
        let own = parse_uint(&chars, 16, 65535);
        match u16::from_str_radix(t, 16) {
            Ok(v) => assert_eq!(own, Ok(v as u32)),
            Err(e) => assert_eq!(own.unwrap_err().message(), e.to_string()),
        }
        let own = parse_uint(&chars, 10, u32::MAX);
        match t.parse::<u32>() {
            Ok(v) => assert_eq!(own, Ok(v)),
            Err(e) => assert_eq!(own.unwrap_err().message(), e.to_string()),
        }
    }
    let chars: Vec<char> = "4294967296".chars().collect();
    assert_eq!(parse_uint(&chars, 10, u32::MAX), Err(IntError::Overflow));
}

#[test]
fn numbers_are_written_as_the_standard_library_writes_them() {
    for n in [0u64, 1, 9, 10, 99, 100, 255, 256, 65535, u64::MAX] {
        assert_eq!(to_dec(n), format!("{n}"));
        assert_eq!(to_hex(n), format!("{n:x}"));
        assert_eq!(to_hex2(n), format!("{n:02x}"));
    }
    for n in [0u16, 1, 15, 16, 0x36a7, 0xa863, 65535] {
        assert_eq!(to_hex4(n), format!("{n:04x}"));
    }
    for n in [0i32, 1, -1, 3, -70, i32::MAX, i32::MIN] {
        assert_eq!(to_dec_int(n), format!("{n}"));
    }
}
