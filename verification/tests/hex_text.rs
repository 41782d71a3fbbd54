use disasm::hex::{c_to_hex, get_bytes, hex_str, to_hex};

#[test]
fn hex_char_values() {
    assert_eq!(c_to_hex('0'), 0);
    assert_eq!(c_to_hex('1'), 1);
    assert_eq!(c_to_hex('9'), 9);
    assert_eq!(c_to_hex('a'), 10);
    assert_eq!(c_to_hex('f'), 15);
}

#[test]
fn hex_char_others_are_zero() {
    assert_eq!(c_to_hex('%'), 0);
    assert_eq!(c_to_hex('g'), 0);
    assert_eq!(c_to_hex('A'), 0);
    assert_eq!(c_to_hex(' '), 0);
}

#[test]
fn token_values() {
    assert_eq!(to_hex("10"), 16);
    assert_eq!(to_hex("ff"), 255);
    assert_eq!(to_hex("00"), 0);
    assert_eq!(to_hex("7f"), 127);
    assert_eq!(to_hex("5"), 5);
    assert_eq!(to_hex(""), 0);
}

#[test]
fn long_tokens_wrap() {
    assert_eq!(to_hex("100"), 0);
    assert_eq!(to_hex("123"), 0x23);
    assert_eq!(to_hex("ffff"), 255);
}

#[test]
fn malformed_characters_count_as_zero() {
    assert_eq!(to_hex("zz"), 0);
    assert_eq!(to_hex("g5"), 5);
    assert_eq!(to_hex("5g"), 80);
}

#[test]
fn hex_rendering() {
    assert_eq!(hex_str(0, 2), "00");
    assert_eq!(hex_str(16, 2), "10");
    assert_eq!(hex_str(255, 2), "ff");
    assert_eq!(hex_str(256, 2), "100");
    assert_eq!(hex_str(10, 1), "a");
    assert_eq!(hex_str(0x10, 8), "00000010");
    assert_eq!(hex_str(0xdeadbeef, 8), "deadbeef");
}

#[test]
fn every_byte_round_trips_through_hex() {
    for v in 0..=255u8 {
        let token = hex_str(v as u64, 2);
        assert_eq!(to_hex(&token), v);
        assert_eq!(hex_str(to_hex(&token) as u64, 2), token);
    }
}

#[test]
fn bytes_from_text() {
    assert_eq!(get_bytes("10 ff".to_string()), vec![16, 255]);
    assert_eq!(
        get_bytes("30 12 60 01 70 00 00 00 10".to_string()),
        vec![0x30, 0x12, 0x60, 0x01, 0x70, 0x00, 0x00, 0x00, 0x10]
    );
}

#[test]
fn bytes_from_text_whitespace_runs() {
    assert_eq!(get_bytes("  10\n\tff  ".to_string()), vec![16, 255]);
    assert_eq!(get_bytes("10\r\n\r\nff".to_string()), vec![16, 255]);
    assert_eq!(get_bytes("10\u{2003}ff".to_string()), vec![16, 255]);
}

#[test]
fn bytes_from_degenerate_texts() {
    assert_eq!(get_bytes(String::new()), Vec::<u8>::new());
    assert_eq!(get_bytes("   \n\t ".to_string()), Vec::<u8>::new());
    assert_eq!(get_bytes("ab".to_string()), vec![0xab]);
}
