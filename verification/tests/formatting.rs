use logged_tcp_proxy::args::get_formatter_by_kind;
use logged_tcp_proxy::args::PayloadFormatingKind;
use logged_tcp_proxy::formatter::Formatter;

fn every_kind() -> Vec<PayloadFormatingKind> {
    vec![
        PayloadFormatingKind::Decimal,
        PayloadFormatingKind::LowerHex,
        PayloadFormatingKind::UpperHex,
        PayloadFormatingKind::Binary,
        PayloadFormatingKind::Octal,
    ]
}

fn token(kind: PayloadFormatingKind, byte: u8) -> String {
    match kind {
        PayloadFormatingKind::Decimal => format!("{}", byte),
        PayloadFormatingKind::LowerHex => format!("{:02x}", byte),
        PayloadFormatingKind::UpperHex => format!("{:02X}", byte),
        PayloadFormatingKind::Binary => format!("{:08b}", byte),
        PayloadFormatingKind::Octal => format!("{:03o}", byte),
    }
}

fn sample(length: usize) -> Vec<u8> {
    let mut bytes = Vec::new();
    for i in 0..length {
        bytes.push(((i * 37 + 11) % 256) as u8);
    }
    bytes
}

#[test]
fn lower_hex_renders_two_digits_per_byte() {
    let formatter = Formatter::new(PayloadFormatingKind::LowerHex, ":");
    assert_eq!(formatter.format_buffer(&[0x41, 0x42, 0x43]), "41:42:43");
    assert_eq!(formatter.format_buffer(&[0x0a, 0xff]), "0a:ff");
}

#[test]
fn upper_hex_renders_capital_letters() {
    let formatter = Formatter::new(PayloadFormatingKind::UpperHex, ":");
    assert_eq!(formatter.format_buffer(&[0x0a, 0xff, 0x10]), "0A:FF:10");
}

#[test]
fn decimal_renders_without_padding() {
    let formatter = Formatter::new(PayloadFormatingKind::Decimal, ":");
    assert_eq!(formatter.format_buffer(&[0, 7, 10, 255]), "0:7:10:255");
}

#[test]
fn octal_renders_three_digits_per_byte() {
    let formatter = Formatter::new(PayloadFormatingKind::Octal, ":");
    assert_eq!(formatter.format_buffer(&[0, 10, 255]), "000:012:377");
}

#[test]
fn binary_renders_eight_digits_per_byte() {
    let formatter = Formatter::new(PayloadFormatingKind::Binary, ":");
    assert_eq!(formatter.format_buffer(&[10, 255, 0]), "00001010:11111111:00000000");
}

#[test]
fn empty_buffer_renders_as_empty_text() {
    for kind in every_kind() {
        let formatter = Formatter::new(kind, ":");
        assert_eq!(formatter.format_buffer(&[]), "");
    }
}

#[test]
fn single_byte_renders_without_separator() {
    let formatter = Formatter::new(PayloadFormatingKind::LowerHex, ":");
    assert_eq!(formatter.format_buffer(&[0x7f]), "7f");
}

#[test]
fn separator_may_be_empty_or_long() {
    let close = Formatter::new(PayloadFormatingKind::LowerHex, "");
    assert_eq!(close.format_buffer(&[0x41, 0x42, 0x43]), "414243");
    let wide = Formatter::new(PayloadFormatingKind::Decimal, " | ");
    assert_eq!(wide.format_buffer(&[1, 2, 3]), "1 | 2 | 3");
}

#[test]
fn formatting_leaves_the_buffer_alone() {
    let buffer = vec![1u8, 2, 3, 250];
    let formatter = Formatter::new(PayloadFormatingKind::Binary, "-");
    let first = formatter.format_buffer(&buffer);
    let second = formatter.format_buffer(&buffer);
    assert_eq!(first, second);
    assert_eq!(buffer, vec![1u8, 2, 3, 250]);
}

#[test]
fn format_byte_matches_the_standard_rendering_for_every_byte() {
    for kind in every_kind() {
        let formatter = Formatter::new(kind, ":");
        for byte in 0..=255u8 {
            assert_eq!(formatter.format_byte(byte), token(kind, byte));
        }
    }
}

#[test]
fn format_buffer_joins_the_tokens() {
    let bytes = sample(300);
    for kind in every_kind() {
        let formatter = Formatter::new(kind, "::");
        let mut expected = String::new();
        for (i, byte) in bytes.iter().enumerate() {
            if i > 0 {
                expected.push_str("::");
            }
            expected.push_str(&token(kind, *byte));
        }
        assert_eq!(formatter.format_buffer(&bytes), expected);
    }
}

#[test]
fn formatter_keeps_kind_and_separator() {
    let formatter = get_formatter_by_kind(PayloadFormatingKind::Octal, "-");
    assert_eq!(formatter.kind(), PayloadFormatingKind::Octal);
    assert_eq!(formatter.get_separator(), "-");
    let copy = formatter.clone();
    assert_eq!(copy.kind(), PayloadFormatingKind::Octal);
    assert_eq!(copy.get_separator(), "-");
    assert_eq!(copy.format_buffer(&[8, 9]), "010-011");
}

#[test]
fn round_trip_holds_for_every_kind_and_length() {
    let lengths = [0usize, 1, 2, 3, 17, 255, 256, 1024, 2047, 2048];
    let separators = [":", "-", " | ", "::", "x", ", "];
    for kind in every_kind() {
        for separator in separators {
            let formatter = Formatter::new(kind, separator);
            for length in lengths {
                let buffer = sample(length);
                let text = formatter.format_buffer(&buffer);
                assert_eq!(formatter.decode(&text), Some(buffer));
            }
        }
    }
}

#[test]
fn round_trip_holds_for_every_byte_value() {
    let buffer: Vec<u8> = (0..=255u8).collect();
    for kind in every_kind() {
        let formatter = Formatter::new(kind, ":");
        let text = formatter.format_buffer(&buffer);
        assert_eq!(formatter.decode(&text), Some(buffer.clone()));
    }
}

#[test]
fn padded_kinds_round_trip_with_any_separator() {
    let padded = [
        PayloadFormatingKind::LowerHex,
        PayloadFormatingKind::UpperHex,
        PayloadFormatingKind::Binary,
        PayloadFormatingKind::Octal,
    ];
    let separators = ["", "0", "1", "ff", "00", "10", "a", "F"];
    let buffer = sample(64);
    for kind in padded {
        for separator in separators {
            let formatter = Formatter::new(kind, separator);
            let text = formatter.format_buffer(&buffer);
            assert_eq!(formatter.decode(&text), Some(buffer.clone()));
        }
    }
}

#[test]
fn decimal_round_trips_with_any_separator_that_marks_the_end_of_a_token() {
    let separators = [":", "-", " ", "0x", "1:", ":1", "9a9", "123", "1234", "100", "001", "a"];
    let mut buffers = vec![sample(0), sample(1), sample(2), sample(500)];
    buffers.push((0..=255u8).collect());
    buffers.push(vec![1, 12, 123, 1, 2, 3, 0, 10, 100, 112, 121, 212, 255, 0]);
    for separator in separators {
        let formatter = Formatter::new(PayloadFormatingKind::Decimal, separator);
        for buffer in buffers.iter() {
            let text = formatter.format_buffer(buffer);
            assert_eq!(formatter.decode(&text), Some(buffer.clone()));
        }
    }
}

#[test]
fn decimal_does_not_round_trip_with_a_separator_that_hides_in_a_token() {
    let close = Formatter::new(PayloadFormatingKind::Decimal, "");
    assert_eq!(close.format_buffer(&[12]), "12");
    assert_eq!(close.decode("12"), Some(vec![1, 2]));
    let digit = Formatter::new(PayloadFormatingKind::Decimal, "0");
    assert_eq!(digit.format_buffer(&[10]), "10");
    assert_eq!(digit.decode("10"), None);
    let pair = Formatter::new(PayloadFormatingKind::Decimal, "12");
    assert_eq!(pair.format_buffer(&[112]), "112");
    assert_eq!(pair.decode("112"), None);
    let echo = Formatter::new(PayloadFormatingKind::Decimal, "121");
    assert_eq!(echo.format_buffer(&[112, 5]), "1121215");
    assert_eq!(echo.decode("1121215"), Some(vec![1, 215]));
    let same = Formatter::new(PayloadFormatingKind::Decimal, "777");
    assert_eq!(same.format_buffer(&[17, 1]), "177771");
    assert_ne!(same.decode("177771"), Some(vec![17, 1]));
}

#[test]
fn decode_reads_an_empty_text_as_an_empty_buffer() {
    for kind in every_kind() {
        let formatter = Formatter::new(kind, ":");
        assert_eq!(formatter.decode(""), Some(vec![]));
    }
}

#[test]
fn decode_reads_the_scenario_payload() {
    let formatter = Formatter::new(PayloadFormatingKind::LowerHex, ":");
    assert_eq!(formatter.decode("41:42:43"), Some(vec![0x41, 0x42, 0x43]));
}

#[test]
fn decode_refuses_text_that_no_buffer_renders_to() {
    let hex = Formatter::new(PayloadFormatingKind::LowerHex, ":");
    assert_eq!(hex.decode("41:42:"), None);
    assert_eq!(hex.decode(":41"), None);
    assert_eq!(hex.decode("4"), None);
    assert_eq!(hex.decode("41:4"), None);
    assert_eq!(hex.decode("41 42"), None);
    assert_eq!(hex.decode("4g"), None);
    assert_eq!(hex.decode("FF"), None);
    assert_eq!(hex.decode("41::42"), None);
    let upper = Formatter::new(PayloadFormatingKind::UpperHex, ":");
    assert_eq!(upper.decode("ff"), None);
    assert_eq!(upper.decode("FF"), Some(vec![255]));
    let decimal = Formatter::new(PayloadFormatingKind::Decimal, ":");
    assert_eq!(decimal.decode("256"), None);
    assert_eq!(decimal.decode("01"), None);
    assert_eq!(decimal.decode("1000"), None);
    assert_eq!(decimal.decode("1:"), None);
    assert_eq!(decimal.decode("a"), None);
    assert_eq!(decimal.decode("255:0"), Some(vec![255, 0]));
    let octal = Formatter::new(PayloadFormatingKind::Octal, ":");
    assert_eq!(octal.decode("400"), None);
    assert_eq!(octal.decode("378"), None);
    assert_eq!(octal.decode("77"), None);
    assert_eq!(octal.decode("377"), Some(vec![255]));
    let binary = Formatter::new(PayloadFormatingKind::Binary, ":");
    assert_eq!(binary.decode("0000001"), None);
    assert_eq!(binary.decode("00000002"), None);
    assert_eq!(binary.decode("00000011"), Some(vec![3]));
}

#[test]
fn decode_accepts_only_what_the_formatter_writes() {
    let texts = ["0:1", "00:01", "000:001", "00000000:00000001", "0a", "0A", "10", "7"];
    for kind in every_kind() {
        let formatter = Formatter::new(kind, ":");
        for text in texts {
            if let Some(bytes) = formatter.decode(text) {
                assert_eq!(formatter.format_buffer(&bytes), text);
            }
        }
    }
}
