use logged_tcp_proxy::args::get_formatter_by_kind;
use logged_tcp_proxy::args::Arguments;
use logged_tcp_proxy::args::LoggingLevel;
use logged_tcp_proxy::args::PayloadFormatingKind;
use logged_tcp_proxy::args::DEFAULT_TIMEOUT;

#[test]
fn logging_levels_are_listed_in_order() {
    assert_eq!(
        LoggingLevel::value_variants(),
        vec![
            LoggingLevel::Trace,
            LoggingLevel::Debug,
            LoggingLevel::Info,
            LoggingLevel::Warn,
            LoggingLevel::Error,
            LoggingLevel::Off,
        ]
    );
}

#[test]
fn logging_levels_have_their_words() {
    assert_eq!(LoggingLevel::Trace.to_possible_value(), Some("trace"));
    assert_eq!(LoggingLevel::Debug.to_possible_value(), Some("debug"));
    assert_eq!(LoggingLevel::Info.to_possible_value(), Some("info"));
    assert_eq!(LoggingLevel::Warn.to_possible_value(), Some("warn"));
    assert_eq!(LoggingLevel::Error.to_possible_value(), Some("error"));
    assert_eq!(LoggingLevel::Off.to_possible_value(), Some("off"));
}

#[test]
fn logging_level_is_parsed_from_its_word() {
    assert_eq!(LoggingLevel::from_str("trace"), Ok(LoggingLevel::Trace));
    assert_eq!(LoggingLevel::from_str("debug"), Ok(LoggingLevel::Debug));
    assert_eq!(LoggingLevel::from_str("info"), Ok(LoggingLevel::Info));
    assert_eq!(LoggingLevel::from_str("warn"), Ok(LoggingLevel::Warn));
    assert_eq!(LoggingLevel::from_str("error"), Ok(LoggingLevel::Error));
    assert_eq!(LoggingLevel::from_str("off"), Ok(LoggingLevel::Off));
}

#[test]
fn logging_level_refuses_other_text() {
    assert_eq!(LoggingLevel::from_str("verbose"), Err(String::from("Invalid variant: verbose")));
    assert_eq!(LoggingLevel::from_str("DEBUG"), Err(String::from("Invalid variant: DEBUG")));
    assert_eq!(LoggingLevel::from_str(""), Err(String::from("Invalid variant: ")));
    assert_eq!(LoggingLevel::from_str("debug "), Err(String::from("Invalid variant: debug ")));
}

#[test]
fn logging_level_is_shown_as_its_word() {
    for level in LoggingLevel::value_variants() {
        let shown = level.to_string();
        assert_eq!(Some(shown.as_str()), level.to_possible_value());
        assert_eq!(LoggingLevel::from_str(&shown), Ok(level));
    }
    assert_eq!(LoggingLevel::Warn.to_string(), "warn");
}

#[test]
fn formatting_kinds_are_listed_in_order() {
    assert_eq!(
        PayloadFormatingKind::value_variants(),
        vec![
            PayloadFormatingKind::Decimal,
            PayloadFormatingKind::LowerHex,
            PayloadFormatingKind::UpperHex,
            PayloadFormatingKind::Binary,
            PayloadFormatingKind::Octal,
        ]
    );
}

#[test]
fn formatting_kinds_have_their_words() {
    assert_eq!(PayloadFormatingKind::Decimal.to_possible_value(), Some("decimal"));
    assert_eq!(PayloadFormatingKind::LowerHex.to_possible_value(), Some("lowerhex"));
    assert_eq!(PayloadFormatingKind::UpperHex.to_possible_value(), Some("upperhex"));
    assert_eq!(PayloadFormatingKind::Binary.to_possible_value(), Some("binary"));
    assert_eq!(PayloadFormatingKind::Octal.to_possible_value(), Some("octal"));
}

#[test]
fn formatting_kind_is_parsed_from_its_word() {
    assert_eq!(PayloadFormatingKind::from_str("decimal"), Ok(PayloadFormatingKind::Decimal));
    assert_eq!(PayloadFormatingKind::from_str("lowerhex"), Ok(PayloadFormatingKind::LowerHex));
    assert_eq!(PayloadFormatingKind::from_str("upperhex"), Ok(PayloadFormatingKind::UpperHex));
    assert_eq!(PayloadFormatingKind::from_str("binary"), Ok(PayloadFormatingKind::Binary));
    assert_eq!(PayloadFormatingKind::from_str("octal"), Ok(PayloadFormatingKind::Octal));
}

#[test]
fn formatting_kind_refuses_other_text() {
    assert_eq!(
        PayloadFormatingKind::from_str("hex"),
        Err(String::from("Invalid variant: hex"))
    );
    assert_eq!(
        PayloadFormatingKind::from_str("LowerHex"),
        Err(String::from("Invalid variant: LowerHex"))
    );
}

#[test]
fn formatting_kind_is_shown_as_its_word() {
    for kind in PayloadFormatingKind::value_variants() {
        let shown = kind.to_string();
        assert_eq!(Some(shown.as_str()), kind.to_possible_value());
        assert_eq!(PayloadFormatingKind::from_str(&shown), Ok(kind));
    }
    assert_eq!(PayloadFormatingKind::UpperHex.to_string(), "upperhex");
}

#[test]
fn arguments_default_to_the_documented_settings() {
    let arguments = Arguments::new("127.0.0.1:20502", "127.0.0.1:20582");
    assert_eq!(arguments.level, LoggingLevel::Debug);
    assert_eq!(arguments.bind_listener_addr, "127.0.0.1:20502");
    assert_eq!(arguments.remote_addr, "127.0.0.1:20582");
    assert_eq!(arguments.timeout, 60);
    assert_eq!(DEFAULT_TIMEOUT, 60);
    assert_eq!(arguments.formatting, PayloadFormatingKind::LowerHex);
    assert_eq!(arguments.separator, ":");
}

#[test]
fn arguments_are_copied_field_by_field() {
    let mut arguments = Arguments::new("0.0.0.0:1", "10.0.0.2:2");
    arguments.timeout = 5;
    arguments.separator = String::from("-");
    arguments.formatting = PayloadFormatingKind::Binary;
    arguments.level = LoggingLevel::Off;
    let copy = arguments.clone();
    assert_eq!(copy.level, LoggingLevel::Off);
    assert_eq!(copy.bind_listener_addr, "0.0.0.0:1");
    assert_eq!(copy.remote_addr, "10.0.0.2:2");
    assert_eq!(copy.timeout, 5);
    assert_eq!(copy.formatting, PayloadFormatingKind::Binary);
    assert_eq!(copy.separator, "-");
}

#[test]
fn arguments_choose_the_formatter() {
    let mut arguments = Arguments::new("0.0.0.0:1", "10.0.0.2:2");
    assert_eq!(arguments.formatter().format_buffer(&[0xab, 0xcd]), "ab:cd");
    arguments.formatting = PayloadFormatingKind::Decimal;
    arguments.separator = String::from(" ");
    assert_eq!(arguments.formatter().format_buffer(&[0xab, 0xcd]), "171 205");
}

#[test]
fn formatter_is_chosen_by_kind() {
    let bytes = [0u8, 9, 200];
    assert_eq!(
        get_formatter_by_kind(PayloadFormatingKind::Decimal, ",").format_buffer(&bytes),
        "0,9,200"
    );
    assert_eq!(
        get_formatter_by_kind(PayloadFormatingKind::LowerHex, ",").format_buffer(&bytes),
        "00,09,c8"
    );
    assert_eq!(
        get_formatter_by_kind(PayloadFormatingKind::UpperHex, ",").format_buffer(&bytes),
        "00,09,C8"
    );
    assert_eq!(
        get_formatter_by_kind(PayloadFormatingKind::Binary, ",").format_buffer(&bytes),
        "00000000,00001001,11001000"
    );
    assert_eq!(
        get_formatter_by_kind(PayloadFormatingKind::Octal, ",").format_buffer(&bytes),
        "000,011,310"
    );
}

#[test]
fn threshold_lets_through_what_is_at_least_as_severe() {
    let order = [
        LoggingLevel::Error,
        LoggingLevel::Warn,
        LoggingLevel::Info,
        LoggingLevel::Debug,
        LoggingLevel::Trace,
    ];
    for (i, threshold) in order.iter().enumerate() {
        for (j, severity) in order.iter().enumerate() {
            assert_eq!(threshold.shows(*severity), j <= i);
        }
    }
    assert!(LoggingLevel::Debug.shows(LoggingLevel::Error));
    assert!(LoggingLevel::Debug.shows(LoggingLevel::Debug));
    assert!(!LoggingLevel::Debug.shows(LoggingLevel::Trace));
    assert!(!LoggingLevel::Info.shows(LoggingLevel::Debug));
}

#[test]
fn threshold_off_lets_nothing_through() {
    for severity in LoggingLevel::value_variants() {
        assert!(!LoggingLevel::Off.shows(severity));
        assert!(!severity.shows(LoggingLevel::Off));
    }
}
