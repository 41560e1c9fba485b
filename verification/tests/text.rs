use rbx_xml::base64::{decode, encode};
use rbx_xml::format::{push_decimal, push_signed_decimal, XmlDisplay};
use rbx_xml::whitespace::{is_whitespace, starts_or_ends_with_whitespace};

#[test]
fn whitespace_is_what_the_standard_library_says() {
    for code in 0u32..=0x10FFFF {
        if let Some(c) = char::from_u32(code) {
            assert_eq!(is_whitespace(c), c.is_whitespace(), "U+{:04X}", code);
        }
    }
}

#[test]
fn empty_text_has_no_outer_whitespace() {
    assert!(!starts_or_ends_with_whitespace(""));
}

#[test]
fn outer_whitespace_is_found_at_either_end() {
    assert!(starts_or_ends_with_whitespace(" a"));
    assert!(starts_or_ends_with_whitespace("a "));
    assert!(starts_or_ends_with_whitespace(" a "));
    assert!(starts_or_ends_with_whitespace("\na\n"));
    assert!(starts_or_ends_with_whitespace(" "));
    assert!(starts_or_ends_with_whitespace("\u{3000}x"));
}

#[test]
fn interior_whitespace_is_not_outer_whitespace() {
    assert!(!starts_or_ends_with_whitespace("abc"));
    assert!(!starts_or_ends_with_whitespace("a b"));
    assert!(!starts_or_ends_with_whitespace("a\n\n\nb"));
    assert!(!starts_or_ends_with_whitespace("é \u{2003} ü"));
}

#[test]
fn same_ends_same_answer() {
    assert_eq!(
        starts_or_ends_with_whitespace(" x"),
        starts_or_ends_with_whitespace(" a long text with more in it x")
    );
    assert_eq!(
        starts_or_ends_with_whitespace("ab"),
        starts_or_ends_with_whitespace("a   \n   b")
    );
}

#[test]
fn decimal_is_what_the_standard_library_prints() {
    let values: [u64; 9] = [0, 1, 9, 10, 11, 99, 100, 1234567890, u64::MAX];
    for value in values.iter() {
        let mut buffer = String::from(">");
        push_decimal(&mut buffer, *value);
        assert_eq!(buffer, format!(">{}", value));
    }
}

#[test]
fn signed_decimal_is_what_the_standard_library_prints() {
    let values: [i64; 9] = [0, 1, -1, 10, -10, 255, -256, i64::MAX, i64::MIN];
    for value in values.iter() {
        let mut buffer = String::new();
        push_signed_decimal(&mut buffer, *value);
        assert_eq!(buffer, format!("{}", value));
    }
}

#[test]
fn exact_decimal_texts() {
    let mut buffer = String::new();
    push_decimal(&mut buffer, 1203);
    assert_eq!(buffer, "1203");
    let mut buffer = String::new();
    push_signed_decimal(&mut buffer, -9223372036854775808);
    assert_eq!(buffer, "-9223372036854775808");
}

#[test]
fn write_text_appends_to_what_the_buffer_holds() {
    let mut buffer = String::from("x=");
    true.write_text(&mut buffer);
    buffer.push(',');
    false.write_text(&mut buffer);
    buffer.push(',');
    7u32.write_text(&mut buffer);
    buffer.push(',');
    (-7i32).write_text(&mut buffer);
    buffer.push(',');
    u64::MAX.write_text(&mut buffer);
    buffer.push(',');
    i64::MIN.write_text(&mut buffer);
    buffer.push(',');
    "abc".write_text(&mut buffer);
    buffer.push(',');
    String::from("def").write_text(&mut buffer);
    buffer.push(',');
    (&5u32).write_text(&mut buffer);
    assert_eq!(
        buffer,
        "x=true,false,7,-7,18446744073709551615,-9223372036854775808,abc,def,5"
    );
}

#[test]
fn base64_of_known_texts() {
    assert_eq!(encode(b""), "");
    assert_eq!(encode(b"f"), "Zg==");
    assert_eq!(encode(b"fo"), "Zm8=");
    assert_eq!(encode(b"foo"), "Zm9v");
    assert_eq!(encode(b"foob"), "Zm9vYg==");
    assert_eq!(encode(b"fooba"), "Zm9vYmE=");
    assert_eq!(encode(b"foobar"), "Zm9vYmFy");
    assert_eq!(encode(&[0xFB, 0xFF, 0xBF]), "+/+/");
    assert_eq!(encode(&[0, 0, 0]), "AAAA");
    assert_eq!(encode(&[255, 255, 255]), "////");
}

#[test]
fn base64_reads_known_texts() {
    assert_eq!(decode(""), Some(b"".to_vec()));
    assert_eq!(decode("Zg=="), Some(b"f".to_vec()));
    assert_eq!(decode("Zm8="), Some(b"fo".to_vec()));
    assert_eq!(decode("Zm9v"), Some(b"foo".to_vec()));
    assert_eq!(decode("Zm9vYg=="), Some(b"foob".to_vec()));
    assert_eq!(decode("Zm9vYmE="), Some(b"fooba".to_vec()));
    assert_eq!(decode("Zm9vYmFy"), Some(b"foobar".to_vec()));
    assert_eq!(decode("+/+/"), Some(vec![0xFB, 0xFF, 0xBF]));
}

#[test]
fn base64_refuses_what_is_not_base64() {
    assert_eq!(decode("Z"), None);
    assert_eq!(decode("Zg"), None);
    assert_eq!(decode("Zg="), None);
    assert_eq!(decode("Zm9vY"), None);
    assert_eq!(decode("Zm9*"), None);
    assert_eq!(decode("Zm 9"), None);
    assert_eq!(decode("===="), None);
    assert_eq!(decode("Z==="), None);
    assert_eq!(decode("Zg==Zm9v"), None);
    assert_eq!(decode("Zm9vZg=A"), None);
    assert_eq!(decode("Zm9é"), None);
    assert_eq!(decode("Zm9v\n"), None);
}

#[test]
fn base64_refuses_padded_groups_with_stray_bits() {
    assert_eq!(decode("Zh=="), None);
    assert_eq!(decode("Zm9="), None);
}

#[test]
fn base64_round_trips_every_length() {
    let mut bytes: Vec<u8> = Vec::new();
    for length in 0..300usize {
        let text = encode(&bytes);
        assert_eq!(text.len(), (length + 2) / 3 * 4);
        assert_eq!(decode(&text), Some(bytes.clone()));
        bytes.push((length * 37 % 256) as u8);
    }
}

#[test]
fn base64_round_trips_every_byte() {
    for byte in 0..=255u8 {
        assert_eq!(decode(&encode(&[byte])), Some(vec![byte]));
        assert_eq!(decode(&encode(&[byte, byte])), Some(vec![byte, byte]));
        assert_eq!(decode(&encode(&[1, byte, 2])), Some(vec![1, byte, 2]));
    }
}
