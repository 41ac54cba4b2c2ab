use toucan_camera_server::text::{
    c_buffer_text, chars_of, decimal_text, explicitly_signed_text, hex_label_text, joined, joined3,
    numeral_text, parse_i32, parse_usize, same_text, signed_decimal_text, status_text, text_between,
};

#[test]
fn numbers_are_written_as_std_writes_them() {
    for n in [0u64, 1, 9, 10, 99, 100, 12345, u32::MAX as u64, u64::MAX] {
        assert_eq!(decimal_text(n), n.to_string());
        assert_eq!(numeral_text(n, 16, 0x61), format!("{:x}", n));
        assert_eq!(numeral_text(n, 2, 0x41), format!("{:b}", n));
    }
    for n in [0, 1, -1, 9, -10, 1234, i32::MAX, i32::MIN] {
        assert_eq!(signed_decimal_text(n), n.to_string());
        assert_eq!(explicitly_signed_text(n), format!("{:+}", n));
        assert_eq!(hex_label_text(n), format!("0x{:02X}", n));
        assert_eq!(status_text(n as u32), format!("{:#010x}", n as u32));
    }
}

#[test]
fn numbers_are_read_as_std_reads_them() {
    for s in [
        "", "+", "-", "0", "00", "7", "+7", "-7", "--7", "+-7", " 7", "7 ", "1a", "0x1", "２",
        "2147483647", "2147483648", "-2147483648", "-2147483649", "4294967296",
        "18446744073709551615", "18446744073709551616", "99999999999999999999999999", "000000000000000000000000012",
    ] {
        assert_eq!(parse_usize(s), s.parse::<usize>().ok(), "{:?}", s);
        assert_eq!(parse_i32(s), s.parse::<i32>().ok(), "{:?}", s);
    }
}

#[test]
fn what_was_written_is_read_back() {
    for n in [0usize, 1, 10, 4096, usize::MAX] {
        assert_eq!(parse_usize(&decimal_text(n as u64)), Some(n));
    }
    for n in [0, -1, 77, i32::MIN, i32::MAX] {
        assert_eq!(parse_i32(&signed_decimal_text(n)), Some(n));
        assert_eq!(parse_i32(&explicitly_signed_text(n)), Some(n));
    }
}

#[test]
fn a_c_buffer_ends_at_its_first_zero() {
    assert_eq!(c_buffer_text(b"Canon EOS R5\0rest\0"), "Canon EOS R5");
    assert_eq!(c_buffer_text(b"no end"), "no end");
    assert_eq!(c_buffer_text(b"\0hidden"), "");
    assert_eq!(c_buffer_text(&[]), "");
    assert_eq!(c_buffer_text("Caméra\0".as_bytes()), "Caméra");
}

#[test]
fn bytes_that_are_no_text_are_replaced() {
    assert_eq!(c_buffer_text(b"a\xFFb\0"), "a\u{FFFD}b");
    assert_eq!(c_buffer_text(b"\xE2\x82\0\xAC"), "\u{FFFD}");
}

#[test]
fn texts_are_compared_and_joined() {
    assert!(same_text("", ""));
    assert!(same_text("é:1", "é:1"));
    assert!(!same_text("a", "b"));
    assert!(!same_text("a", "aa"));
    assert_eq!(joined("a", "é"), "aé");
    assert_eq!(joined3("a", "", "c"), "ac");
    let chars = chars_of("aé×c");
    assert_eq!(chars, vec!['a', 'é', '×', 'c']);
    assert_eq!(text_between(&chars, 1, 3), "é×");
    assert_eq!(text_between(&chars, 2, 2), "");
}
