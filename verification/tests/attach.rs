use shuji::tool::documents::{title_from_body, truncate};

#[test]
fn title_from_body_prefers_heading() {
    assert_eq!(title_from_body("# 总体设计\n\n正文"), "总体设计");
}

#[test]
fn title_from_body_falls_back_to_first_line() {
    assert_eq!(title_from_body("摘要行\n\n更多"), "摘要行");
}

#[test]
fn truncate_keeps_short_text() {
    assert_eq!(truncate("abcdef", 3), "abc…");
    assert_eq!(truncate("abc", 10), "abc");
}
