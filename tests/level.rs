use json_pretty::level::LogLevel;
use std::cmp::Ordering;

#[test]
fn parses_every_name_in_any_casing() {
    let cases = [
        ("fatal", LogLevel::FATAL),
        ("FATAL", LogLevel::FATAL),
        ("Error", LogLevel::ERROR),
        ("eRRoR", LogLevel::ERROR),
        ("warn", LogLevel::WARN),
        ("WaRn", LogLevel::WARN),
        ("info", LogLevel::INFO),
        ("INFO", LogLevel::INFO),
        ("debug", LogLevel::DEBUG),
        ("Debug", LogLevel::DEBUG),
        ("trace", LogLevel::TRACE),
        ("TRACE", LogLevel::TRACE),
    ];
    for (name, level) in cases {
        assert_eq!(LogLevel::parse(name).unwrap(), level, "{name}");
        assert_eq!(name.parse::<LogLevel>().unwrap(), level, "{name}");
    }
}

#[test]
fn rejects_other_names() {
    for name in ["", "warning", "inf", "infos", " info", "information", "fatal!", "3"] {
        let err = LogLevel::parse(name).unwrap_err();
        assert_eq!(err.value, name);
    }
}

#[test]
fn level_error_message() {
    let err = LogLevel::parse("loud").unwrap_err();
    assert_eq!(err.message(), "Invalid level value: 'loud'");
}

#[test]
fn order_follows_severity() {
    let ascending = [
        LogLevel::TRACE,
        LogLevel::DEBUG,
        LogLevel::INFO,
        LogLevel::WARN,
        LogLevel::ERROR,
        LogLevel::FATAL,
    ];
    for (i, a) in ascending.iter().enumerate() {
        for (j, b) in ascending.iter().enumerate() {
            assert_eq!(a.partial_cmp(b), Some(i.cmp(&j)));
            assert_eq!(a.at_least(*b), i >= j);
            assert_eq!(a.weight() < b.weight(), i < j);
        }
    }
    assert_eq!(LogLevel::INFO.partial_cmp(&LogLevel::INFO), Some(Ordering::Equal));
}

#[test]
fn weights_and_names() {
    assert_eq!(LogLevel::FATAL.weight(), 60);
    assert_eq!(LogLevel::TRACE.weight(), 10);
    assert_eq!(LogLevel::WARN.name(), "WARN");
    assert_eq!(LogLevel::DEBUG.name(), "DEBUG");
}

#[test]
fn from_str_error_quotes_input_as_given() {
    let err = "Verbose".parse::<LogLevel>().unwrap_err();
    assert_eq!(err.message(), "Invalid level value: 'Verbose'");
    for s in ["warning", "", " info", "info ", "err", "30"] {
        assert!(s.parse::<LogLevel>().is_err(), "{s}");
    }
    assert_eq!("wArN".parse::<LogLevel>().unwrap(), LogLevel::WARN);
    assert_eq!("fAtAl".parse::<LogLevel>().unwrap(), LogLevel::FATAL);
}
