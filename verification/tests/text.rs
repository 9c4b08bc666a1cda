use oxidizedgraph::text::{parse_i32, truncate_text};

#[test]
fn parse_i32_matches_std() {
    for s in ["0", "-0", "+7", "-2147483648", "2147483647", "2147483648", "-2147483649", "", "-", "+", "1_0", " 1", "1 ", "007", "99999999999999999999"] {
        assert_eq!(parse_i32(s), s.parse::<i32>().ok(), "{:?}", s);
    }
}

#[test]
fn truncate_text_cuts_at_char_boundaries() {
    assert_eq!(truncate_text("hello", 10), "hello");
    assert_eq!(truncate_text("hello world", 5), "hello\u{2026}");
    assert_eq!(truncate_text("ééé", 3), "é\u{2026}");
}
