use zeroclaw_tools::text::{i32_to_decimal, last_line_containing, trim_text};

#[test]
fn trim_removes_unicode_whitespace() {
    assert_eq!(trim_text("\u{3000}\t a b \u{a0}\n"), "a b");
    assert_eq!(trim_text("   "), "");
    assert_eq!(trim_text("x"), "x");
}

#[test]
fn decimal_matches_to_string() {
    for n in [0i32, 7, 10, -1, 255, i32::MAX, i32::MIN, -40] {
        assert_eq!(i32_to_decimal(n), n.to_string());
    }
}

#[test]
fn last_line_follows_str_lines() {
    assert_eq!(last_line_containing("a loss\r\nb loss\r\nc\n", "loss"), "b loss");
    assert_eq!(last_line_containing("a loss\r", "loss"), "a loss\r");
    assert_eq!(last_line_containing("", "loss"), "");
    assert_eq!(last_line_containing("none\n", "loss"), "");
}
