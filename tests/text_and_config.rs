use omajinai::config::{Config, ConfigError};
use omajinai::recalculate::{MessageError, RecalculateMessage};
use omajinai::text::{chars_of, int_to_text, parse_i32, parse_unsigned, trim_chars};

fn chars(s: &str) -> Vec<char> {
    s.chars().collect()
}

#[test]
fn parse_plain_user_id() {
    assert_eq!(RecalculateMessage::parse("42"), Ok(RecalculateMessage { user_id: 42 }));
}

#[test]
fn parse_user_id_with_surrounding_whitespace() {
    assert_eq!(RecalculateMessage::parse(" \t42\r\n"), Ok(RecalculateMessage { user_id: 42 }));
    assert_eq!(RecalculateMessage::parse("\u{3000}7\u{a0}"), Ok(RecalculateMessage { user_id: 7 }));
}

#[test]
fn parse_signed_user_ids() {
    assert_eq!(RecalculateMessage::parse("-5"), Ok(RecalculateMessage { user_id: -5 }));
    assert_eq!(RecalculateMessage::parse("+5"), Ok(RecalculateMessage { user_id: 5 }));
    assert_eq!(
        RecalculateMessage::parse("-2147483648"),
        Ok(RecalculateMessage { user_id: i32::MIN })
    );
    assert_eq!(
        RecalculateMessage::parse("2147483647"),
        Ok(RecalculateMessage { user_id: i32::MAX })
    );
    assert_eq!(RecalculateMessage::parse("0007"), Ok(RecalculateMessage { user_id: 7 }));
}

#[test]
fn parse_rejects_malformed_payloads() {
    for bad in ["", "   ", "-", "+", "4 2", "abc", "42x", "2147483648", "-2147483649", "--1", "1.0", "99999999999999999999"] {
        assert_eq!(RecalculateMessage::parse(bad), Err(MessageError::InvalidUserId), "{bad:?}");
    }
}

#[test]
fn parse_agrees_with_std_on_samples() {
    for s in ["0", "-0", "+0", "123", "-123", "2147483647", "-2147483648", "2147483648", "", "+-1", "12a"] {
        assert_eq!(parse_i32(&chars(s)), s.parse::<i32>().ok(), "{s:?}");
    }
}

#[test]
fn parse_unsigned_respects_limit() {
    assert_eq!(parse_unsigned(&chars("65535"), 65535), Some(65535));
    assert_eq!(parse_unsigned(&chars("65536"), 65535), None);
    assert_eq!(parse_unsigned(&chars("+12"), 65535), Some(12));
    assert_eq!(parse_unsigned(&chars("-1"), 65535), None);
    assert_eq!(parse_unsigned(&chars(""), 65535), None);
    assert_eq!(parse_unsigned(&chars("18446744073709551615"), u64::MAX), Some(u64::MAX));
    assert_eq!(parse_unsigned(&chars("18446744073709551616"), u64::MAX), None);
}

#[test]
fn trim_removes_only_outer_whitespace() {
    assert_eq!(trim_chars(&chars("  a b \n")), chars("a b"));
    assert_eq!(trim_chars(&chars(" \t ")), Vec::<char>::new());
    assert_eq!(trim_chars(&chars("x")), chars("x"));
    assert_eq!(chars_of("h\u{e9}llo"), chars("h\u{e9}llo"));
}

#[test]
fn integer_text() {
    assert_eq!(int_to_text(0), "0");
    assert_eq!(int_to_text(42), "42");
    assert_eq!(int_to_text(-15), "-15");
    assert_eq!(int_to_text(1000), "1000");
    assert_eq!(int_to_text(i64::MIN), "-9223372036854775808");
    assert_eq!(int_to_text(i64::MAX), "9223372036854775807");
}

#[test]
fn integer_text_reads_back() {
    for n in [0i32, 1, -1, 42, 100, -2147483648, 2147483647] {
        let text = int_to_text(n as i64);
        assert_eq!(RecalculateMessage::parse(&text), Ok(RecalculateMessage { user_id: n }));
    }
}

#[test]
fn config_defaults() {
    let c = Config::default();
    assert_eq!(c.port, 3030);
    assert_eq!(c.beatmaps_path, ".data/osu/");
    assert_eq!(c.cache_size, 1000);
    assert_eq!(Config::from_settings(None, None, None), Ok(Config::default()));
}

#[test]
fn config_from_settings() {
    let c = Config::from_settings(Some("8080"), Some("/maps".to_string()), Some("2")).unwrap();
    assert_eq!(c.port, 8080);
    assert_eq!(c.beatmaps_path, "/maps");
    assert_eq!(c.cache_size, 2);
    assert_eq!(Config::from_settings(Some("+80"), None, None).unwrap().port, 80);
}

#[test]
fn config_rejects_bad_numbers() {
    assert_eq!(Config::from_settings(Some("70000"), None, None), Err(ConfigError::InvalidPort));
    assert_eq!(Config::from_settings(Some(" 80"), None, None), Err(ConfigError::InvalidPort));
    assert_eq!(Config::from_settings(None, None, Some("-1")), Err(ConfigError::InvalidCacheSize));
    assert_eq!(
        Config::from_settings(Some("x"), None, Some("-1")),
        Err(ConfigError::InvalidPort)
    );
}
