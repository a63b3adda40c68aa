use ti::config::parse_email_settings;
use ti::messages::{alert_message, checking_event, fetch_failed_event, stock_event};
use ti::text::{is_space_char, trim, trimmed_lines};

#[test]
fn trim_strips_unicode_whitespace() {
    assert_eq!(trim("  OPA1622 \t\r"), "OPA1622");
    assert_eq!(trim("\u{3000}x y\u{a0}"), "x y");
    assert_eq!(trim("   "), "");
    assert_eq!(trim(""), "");
    assert!(is_space_char('\u{2028}'));
    assert!(!is_space_char('x'));
}

#[test]
fn lines_are_split_and_trimmed() {
    assert_eq!(trimmed_lines("a\n\n b \r\n"), vec!["a", "", "b", ""]);
    assert_eq!(trimmed_lines(""), vec![""]);
    assert_eq!(trimmed_lines("one"), vec!["one"]);
}

#[test]
fn email_settings_of_three_lines() {
    let e = parse_email_settings("me@x.com\n secret \nyou@y.com");
    assert_eq!(e.from, "me@x.com");
    assert_eq!(e.password, "secret");
    assert_eq!(e.to, "you@y.com");
}

#[test]
fn email_settings_of_other_line_counts_are_empty() {
    for data in ["me@x.com\nsecret", "a\nb\nc\n", ""] {
        let e = parse_email_settings(data);
        assert_eq!(e.from, "");
        assert_eq!(e.password, "");
        assert_eq!(e.to, "");
    }
}

#[test]
fn event_texts() {
    assert_eq!(checking_event("ABC"), "checking ABC");
    assert_eq!(fetch_failed_event("ABC"), "fetch failed for ABC, check the product id");
    assert_eq!(stock_event("ABC", 0), "product ABC, stock 0");
    assert_eq!(stock_event("ABC", 1200), "product ABC, stock 1200");
}

#[test]
fn alert_text_has_id_and_count() {
    assert_eq!(alert_message("XYZ789", 5), "XYZ789 has 5 new units in stock");
    assert_eq!(alert_message("Q", 10), "Q has 10 new units in stock");
    assert_eq!(
        alert_message("Q", usize::MAX),
        format!("Q has {} new units in stock", usize::MAX)
    );
}
