use palit_client::text::{chars_of, joined, labeled, owned, parse_i16, parse_u16, parse_u32, push_char, str_eq,
    string_of, u32_to_string, usize_to_string};

#[test]
fn labeled_writes_prefix_and_decimal() {
    assert_eq!(labeled("Audio Out ", 3), "Audio Out 3");
    assert_eq!(labeled("In ", 65535), "In 65535");
    assert_eq!(labeled("", 0), "0");
}

#[test]
fn u32_to_string_writes_decimal() {
    assert_eq!(u32_to_string(0), "0");
    assert_eq!(u32_to_string(48000), "48000");
    assert_eq!(u32_to_string(4294967295), "4294967295");
}

#[test]
fn str_eq_compares_characters() {
    assert!(str_eq("dsp", "dsp"));
    assert!(!str_eq("dsp", "dsp "));
    assert!(!str_eq("", "a"));
}

#[test]
fn parse_u16_reads_plus_and_digits_in_range() {
    assert_eq!(parse_u16("12"), Some(12));
    assert_eq!(parse_u16("+12"), Some(12));
    assert_eq!(parse_u16("65535"), Some(65535));
    assert_eq!(parse_u16("65536"), None);
    assert_eq!(parse_u16(""), None);
    assert_eq!(parse_u16("-1"), None);
    assert_eq!(parse_u16("1.5"), None);
}

#[test]
fn parse_u32_reads_digits_in_range() {
    assert_eq!(parse_u32("4294967295"), Some(4294967295));
    assert_eq!(parse_u32("4294967296"), None);
    assert_eq!(parse_u32("x"), None);
}

#[test]
fn parse_i16_reads_sign_and_digits_in_range() {
    assert_eq!(parse_i16("-32768"), Some(-32768));
    assert_eq!(parse_i16("32767"), Some(32767));
    assert_eq!(parse_i16("32768"), None);
    assert_eq!(parse_i16("-"), None);
    assert_eq!(parse_i16("+7"), Some(7));
}

#[test]
fn joined_and_characters() {
    assert_eq!(joined("In ", "3"), "In 3");
    let cs = chars_of("añb");
    assert_eq!(cs, vec!['a', 'ñ', 'b']);
    assert_eq!(string_of(&cs), "añb");
    let mut s = owned("ab");
    push_char(&mut s, 'c');
    assert_eq!(s, "abc");
}

#[test]
fn usize_to_string_writes_decimal() {
    assert_eq!(usize_to_string(0), "0");
    assert_eq!(usize_to_string(7), "7");
    assert_eq!(usize_to_string(10), "10");
    assert_eq!(usize_to_string(4096), "4096");
    assert_eq!(usize_to_string(usize::MAX), usize::MAX.to_string());
}

#[test]
fn written_numbers_read_back() {
    for n in [0u16, 9, 10, 99, 100, 12345, 65535] {
        assert_eq!(parse_u16(&u32_to_string(n as u32)), Some(n));
        assert_eq!(parse_u32(&usize_to_string(n as usize)), Some(n as u32));
    }
}
