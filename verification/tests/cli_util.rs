use dm::cli::util::{category_badge, category_color, category_icon, cw, dw, pad, status_tag, trunc};

#[test]
fn category_badges_are_ascii_width_stable() {
    assert_eq!(category_icon("系统安全"), "SEC");
    assert_eq!(category_icon("服务管理"), "SVC");
    assert_eq!(category_icon("未知分类"), "GEN");
    assert!(dw("[SYS] 系统检查") <= 18);
}

#[test]
fn truncate_respects_display_width_for_cjk() {
    let s = trunc("系统安全策略检查", 8);
    assert!(dw(&s) <= 8, "{s} is wider than 8 columns");
    assert!(s.ends_with(".."));
}

#[test]
fn widths_of_characters() {
    assert_eq!(cw('a'), 1);
    assert_eq!(cw('中'), 2);
    assert_eq!(cw('─'), 1);
    assert_eq!(cw('，'), 2);
    assert_eq!(dw("ab中"), 4);
}

#[test]
fn trunc_cuts_before_the_marker() {
    assert_eq!(trunc("abcd", 4), "abcd");
    assert_eq!(trunc("abcde", 4), "ab..");
    assert_eq!(trunc("ab", 4), "ab");
    assert_eq!(trunc("系统安全策略检查", 8), "系统安..");
    assert_eq!(trunc("abc", 0), "..");
}

#[test]
fn pad_fills_to_width() {
    assert_eq!(pad("ab", 5), "ab   ");
    assert_eq!(pad("abcdefg", 5), "abc..");
    assert_eq!(pad("中文字符", 5), "中.. ");
    assert_eq!(dw(&pad("中文字符串", 6)), 6);
}

#[test]
fn badges_and_tags() {
    assert_eq!(category_badge("系统检查"), "[SYS] 系统检查");
    assert_eq!(category_color("网络"), (52, 211, 153));
    assert_eq!(category_color("其他"), (209, 213, 219));
    assert_eq!(status_tag("success"), "[OK]");
    assert_eq!(status_tag("failed"), "[FAIL]");
    assert_eq!(status_tag("???"), "[..]");
}
