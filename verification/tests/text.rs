use framework::page::{parse_datetime, Interval};
use framework::text::{
    char_is_digit, char_is_whitespace, chars_of, lines, parse_u64, push_decimal, starts_with,
    strip_suffix, trim,
};
use framework::uptime::{serialize_duration_as_string, Uptime};

#[test]
fn duration_in_milliseconds() {
    assert_eq!(parse_datetime("5ms"), Some(Interval { millis: 5 }));
    assert_eq!(parse_datetime("0ms"), Some(Interval { millis: 0 }));
    assert_eq!(parse_datetime("1500ms"), Some(Interval { millis: 1500 }));
    assert_eq!(parse_datetime("007ms"), Some(Interval { millis: 7 }));
}

#[test]
fn duration_in_seconds() {
    assert_eq!(parse_datetime("1s"), Some(Interval { millis: 1000 }));
    assert_eq!(parse_datetime("5s"), Some(Interval { millis: 5000 }));
    assert_eq!(parse_datetime("0s"), Some(Interval { millis: 0 }));
}

#[test]
fn duration_at_the_limit() {
    assert_eq!(
        parse_datetime("18446744073709551615ms"),
        Some(Interval { millis: 18446744073709551615 })
    );
    assert_eq!(
        parse_datetime("18446744073709551615s"),
        Some(Interval { millis: 18446744073709551615000 })
    );
    assert_eq!(parse_datetime("18446744073709551616ms"), None);
    assert_eq!(parse_datetime("18446744073709551616s"), None);
    assert_eq!(parse_datetime("99999999999999999999999999s"), None);
}

#[test]
fn duration_refused() {
    assert_eq!(parse_datetime(""), None);
    assert_eq!(parse_datetime("s"), None);
    assert_eq!(parse_datetime("ms"), None);
    assert_eq!(parse_datetime("5"), None);
    assert_eq!(parse_datetime("5m"), None);
    assert_eq!(parse_datetime("5 s"), None);
    assert_eq!(parse_datetime(" 5s"), None);
    assert_eq!(parse_datetime("5s "), None);
    assert_eq!(parse_datetime("+5s"), None);
    assert_eq!(parse_datetime("-5ms"), None);
    assert_eq!(parse_datetime("5.0s"), None);
    assert_eq!(parse_datetime("12mss"), None);
    assert_eq!(parse_datetime("5S"), None);
    assert_eq!(parse_datetime("1h"), None);
    assert_eq!(parse_datetime("\u{663}s"), None);
}

#[test]
fn unsigned_numbers() {
    assert_eq!(parse_u64("0"), Some(0));
    assert_eq!(parse_u64("42"), Some(42));
    assert_eq!(parse_u64("0042"), Some(42));
    assert_eq!(parse_u64("18446744073709551615"), Some(u64::MAX));
    assert_eq!(parse_u64("18446744073709551616"), None);
    assert_eq!(parse_u64("184467440737095516150"), None);
    assert_eq!(parse_u64(""), None);
    assert_eq!(parse_u64("+1"), None);
    assert_eq!(parse_u64("1a"), None);
    assert_eq!(parse_u64("a1"), None);
}

#[test]
fn decimal_notation() {
    let cases: Vec<u128> = vec![0, 7, 10, 99, 100, 1000, 18446744073709551615, u128::MAX];
    for n in cases {
        let mut out = String::from("n=");
        push_decimal(&mut out, n);
        assert_eq!(out, format!("n={}", n));
    }
}

#[test]
fn decimal_notation_is_read_back() {
    let cases: Vec<u64> = vec![0, 1, 9, 10, 12345, u64::MAX];
    for n in cases {
        let mut out = String::new();
        push_decimal(&mut out, n as u128);
        assert_eq!(parse_u64(&out), Some(n));
    }
}

#[test]
fn digits_and_blanks() {
    assert!(char_is_digit('0'));
    assert!(char_is_digit('9'));
    assert!(!char_is_digit('a'));
    assert!(!char_is_digit('/'));
    assert!(!char_is_digit(':'));
    let mut code: u32 = 0;
    while code < 0x3100 {
        if let Some(c) = char::from_u32(code) {
            assert_eq!(char_is_whitespace(c), c.is_whitespace());
        }
        code += 1;
    }
}

#[test]
fn characters_in_order() {
    assert_eq!(chars_of(""), Vec::<char>::new());
    assert_eq!(chars_of("a\u{e9}z"), vec!['a', '\u{e9}', 'z']);
}

#[test]
fn prefixes_and_suffixes() {
    assert!(starts_with("/static/script.js", "/static"));
    assert!(starts_with("/static", "/static"));
    assert!(starts_with("abc", ""));
    assert!(!starts_with("/stati", "/static"));
    assert!(!starts_with("x/static", "/static"));
    assert_eq!(strip_suffix("/vms.json", ".json"), Some("/vms"));
    assert_eq!(strip_suffix(".json", ".json"), Some(""));
    assert_eq!(strip_suffix("/vms.jso", ".json"), None);
    assert_eq!(strip_suffix("json", ".json"), None);
    assert_eq!(strip_suffix("\u{e9}t\u{e9}.json", ".json"), Some("\u{e9}t\u{e9}"));
}

#[test]
fn blanks_at_the_ends() {
    let cases = vec![
        "",
        " ",
        "  a  ",
        "a",
        "\t a b \r\n",
        "\u{a0}x\u{3000}",
        " 1    infra          running",
        "   ",
        "a  ",
        "  a",
    ];
    for case in cases {
        assert_eq!(trim(case), case.trim());
    }
    assert_eq!(trim("  a b  "), "a b");
}

#[test]
fn lines_of_a_text() {
    assert_eq!(lines("foo\nbar\n\r\nbaz\r"), vec!["foo", "bar", "", "baz\r"]);
    assert_eq!(lines(""), Vec::<String>::new());
    assert_eq!(lines("\n"), vec![""]);
    assert_eq!(lines("a"), vec!["a"]);
    assert_eq!(lines("a\n"), vec!["a"]);
    assert_eq!(lines("a\n\nb"), vec!["a", "", "b"]);
    assert_eq!(lines("a\r\nb\r\n"), vec!["a", "b"]);
    assert_eq!(lines("a\rb\n"), vec!["a\rb"]);
    assert_eq!(lines("\r\n"), vec![""]);
    assert_eq!(lines("a\r\r\n"), vec!["a\r"]);
}

#[test]
fn lines_as_the_standard_library_gives_them() {
    let cases = vec![
        "",
        "\n",
        "\r\n",
        "a",
        "a\n",
        "a\r\n",
        "a\nb",
        "a\n\n\nb\n",
        " Id   Name\n-----\n 1    infra          running\n",
        "x\r\ny\rz\n\rw",
    ];
    for case in cases {
        let expected: Vec<String> = case.lines().map(|line| line.to_string()).collect();
        assert_eq!(lines(case), expected);
    }
}

#[test]
fn uptime_in_full_seconds() {
    assert_eq!(serialize_duration_as_string(&Interval { millis: 42000 }), "42s");
    assert_eq!(serialize_duration_as_string(&Interval { millis: 42999 }), "42s");
    assert_eq!(serialize_duration_as_string(&Interval { millis: 999 }), "0s");
    let page = Uptime { uptime: Interval { millis: 1000 } };
    assert_eq!(serialize_duration_as_string(&page.uptime), "1s");
}
