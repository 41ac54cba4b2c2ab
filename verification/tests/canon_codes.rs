use toucan_camera_server::backends::canon::{
    decode_af, decode_av, decode_color_temp, decode_drive, decode_ev, decode_iso, decode_metering,
    decode_tv, decode_wb,
};

#[test]
fn av_codes_have_their_labels() {
    for (code, label) in [
        (0x8, "f/1"),
        (0xb, "f/1.1"),
        (0xc, "f/1.2"),
        (0xd, "f/1.2"),
        (0x10, "f/1.4"),
        (0x13, "f/1.6"),
        (0x14, "f/1.8"),
        (0x15, "f/1.8"),
        (0x18, "f/2"),
        (0x1b, "f/2.2"),
        (0x1c, "f/2.5"),
        (0x1d, "f/2.5"),
        (0x20, "f/2.8"),
        (0x23, "f/3.2"),
        (0x24, "f/3.5"),
        (0x25, "f/3.5"),
        (0x28, "f/4"),
        (0x2b, "f/4.5"),
        (0x2c, "f/4.5"),
        (0x2d, "f/5"),
        (0x30, "f/5.6"),
        (0x33, "f/6.3"),
        (0x34, "f/6.7"),
        (0x35, "f/7.1"),
        (0x38, "f/8"),
        (0x3b, "f/9"),
        (0x3c, "f/9.5"),
        (0x3d, "f/10"),
        (0x40, "f/11"),
        (0x43, "f/13"),
        (0x44, "f/13"),
        (0x45, "f/14"),
        (0x48, "f/16"),
        (0x4b, "f/18"),
        (0x4c, "f/19"),
        (0x4d, "f/20"),
        (0x50, "f/22"),
        (0x53, "f/25"),
        (0x54, "f/27"),
        (0x55, "f/29"),
        (0x58, "f/32"),
    ] {
        assert_eq!(decode_av(code), label);
    }
}

#[test]
fn tv_codes_have_their_labels() {
    for (code, label) in [
        (0xc, "30\""),
        (0x10, "20\""),
        (0x13, "15\""),
        (0x14, "13\""),
        (0x15, "10\""),
        (0x18, "8\""),
        (0x1b, "6\""),
        (0x1c, "5\""),
        (0x1d, "4\""),
        (0x20, "3\""),
        (0x23, "2.5\""),
        (0x24, "2\""),
        (0x25, "1.6\""),
        (0x28, "1.3\""),
        (0x2b, "1\""),
        (0x2c, "0.8\""),
        (0x2d, "0.6\""),
        (0x30, "1/2"),
        (0x33, "1/2.5"),
        (0x34, "1/3"),
        (0x35, "1/3.2"),
        (0x38, "1/4"),
        (0x3b, "1/5"),
        (0x3c, "1/6"),
        (0x3d, "1/6"),
        (0x40, "1/8"),
        (0x43, "1/10"),
        (0x44, "1/10"),
        (0x45, "1/13"),
        (0x48, "1/15"),
        (0x4b, "1/20"),
        (0x4c, "1/20"),
        (0x4d, "1/25"),
        (0x50, "1/30"),
        (0x53, "1/40"),
        (0x54, "1/45"),
        (0x55, "1/50"),
        (0x58, "1/60"),
        (0x5b, "1/80"),
        (0x5c, "1/90"),
        (0x5d, "1/100"),
        (0x60, "1/125"),
        (0x63, "1/160"),
        (0x64, "1/180"),
        (0x65, "1/200"),
        (0x68, "1/250"),
        (0x6b, "1/320"),
        (0x6c, "1/350"),
        (0x6d, "1/400"),
        (0x70, "1/500"),
        (0x73, "1/640"),
        (0x74, "1/750"),
        (0x75, "1/800"),
        (0x78, "1/1000"),
        (0x7b, "1/1250"),
        (0x7c, "1/1500"),
        (0x7d, "1/1600"),
        (0x80, "1/2000"),
        (0x83, "1/2500"),
        (0x84, "1/3000"),
        (0x85, "1/3200"),
        (0x88, "1/4000"),
        (0x8b, "1/5000"),
        (0x8c, "1/6000"),
        (0x8d, "1/6400"),
        (0x90, "1/8000"),
    ] {
        assert_eq!(decode_tv(code), label);
    }
}

#[test]
fn iso_codes_have_their_labels() {
    for (code, label) in [
        (0x0, "Auto"),
        (0x40, "ISO 50"),
        (0x48, "ISO 100"),
        (0x4b, "ISO 125"),
        (0x4d, "ISO 160"),
        (0x50, "ISO 200"),
        (0x53, "ISO 250"),
        (0x55, "ISO 320"),
        (0x58, "ISO 400"),
        (0x5b, "ISO 500"),
        (0x5d, "ISO 640"),
        (0x60, "ISO 800"),
        (0x63, "ISO 1000"),
        (0x65, "ISO 1250"),
        (0x68, "ISO 1600"),
        (0x6b, "ISO 2000"),
        (0x6d, "ISO 2500"),
        (0x70, "ISO 3200"),
        (0x73, "ISO 4000"),
        (0x75, "ISO 5000"),
        (0x78, "ISO 6400"),
        (0x7b, "ISO 8000"),
        (0x7d, "ISO 10000"),
        (0x80, "ISO 12800"),
        (0x88, "ISO 25600"),
        (0x90, "ISO 51200"),
        (0x98, "ISO 102400"),
    ] {
        assert_eq!(decode_iso(code), label);
    }
}

#[test]
fn wb_codes_have_their_labels() {
    for (code, label) in [
        (0, "Auto"),
        (1, "Daylight"),
        (2, "Cloudy"),
        (3, "Tungsten"),
        (4, "Fluorescent"),
        (5, "Flash"),
        (6, "Custom"),
        (8, "Shade"),
        (9, "Color temperature"),
        (10, "Custom WB 1"),
        (11, "Custom WB 2"),
        (12, "Custom WB 3"),
        (20, "Custom WB 4"),
        (21, "Custom WB 5"),
        (-1, "Auto (white priority)"),
    ] {
        assert_eq!(decode_wb(code), label);
    }
}

#[test]
fn metering_codes_have_their_labels() {
    for (code, label) in [
        (0x1, "Spot"),
        (0x3, "Evaluative"),
        (0x4, "Partial"),
        (0x5, "Center-weighted"),
    ] {
        assert_eq!(decode_metering(code), label);
    }
}

#[test]
fn af_codes_have_their_labels() {
    for (code, label) in [
        (0x0, "One-Shot"),
        (0x1, "AI Servo"),
        (0x2, "AI Focus"),
        (0x3, "Manual"),
    ] {
        assert_eq!(decode_af(code), label);
    }
}

#[test]
fn drive_codes_have_their_labels() {
    for (code, label) in [
        (0x0, "Single"),
        (0x1, "Continuous high"),
        (0x2, "Video"),
        (0x4, "Self-timer 2s"),
        (0x5, "Self-timer 10s"),
        (0x6, "Silent single"),
        (0x7, "AF servo high"),
        (0xa, "Continuous low"),
        (0x10, "Silent continuous"),
        (0x11, "Silent continuous low"),
    ] {
        assert_eq!(decode_drive(code), label);
    }
}

#[test]
fn ev_codes_have_their_labels() {
    for (code, label) in [
        (24, "+3"),
        (21, "+2⅔"),
        (19, "+2⅓"),
        (16, "+2"),
        (13, "+1⅔"),
        (11, "+1⅓"),
        (8, "+1"),
        (5, "+⅔"),
        (3, "+⅓"),
        (0, "0"),
        (-3, "-⅓"),
        (-5, "-⅔"),
        (-8, "-1"),
        (-11, "-1⅓"),
        (-13, "-1⅔"),
        (-16, "-2"),
        (-19, "-2⅓"),
        (-21, "-2⅔"),
        (-24, "-3"),
        (7, "+7"),
        (-40, "-40"),
        (i32::MIN, "-2147483648"),
    ] {
        assert_eq!(decode_ev(code), label);
    }
}

#[test]
fn color_temperatures_are_in_kelvin() {
    assert_eq!(decode_color_temp(5200), "5200K");
    assert_eq!(decode_color_temp(0), "0K");
    assert_eq!(decode_color_temp(-1), "-1K");
    assert_eq!(decode_color_temp(i32::MIN), "-2147483648K");
}

#[test]
fn unknown_codes_are_shown_in_hexadecimal() {
    for code in [0x01, 0xFE, 0x1234, -2, i32::MAX, i32::MIN] {
        let expected = format!("0x{:02X}", code);
        assert_eq!(decode_av(code), expected);
        assert_eq!(decode_tv(code), expected);
        assert_eq!(decode_iso(code), expected);
    }
    for code in [77, 0x1234, -2, i32::MIN] {
        let expected = format!("0x{:02X}", code);
        assert_eq!(decode_metering(code), expected);
        assert_eq!(decode_af(code), expected);
        assert_eq!(decode_drive(code), expected);
        assert_eq!(decode_wb(code), expected);
    }
}
