use dm::cli::docs_cmd::{parse_title, slug, strip_import_body};
use dm::cli::java::{class_histogram_rows, empty_dash, utf16be_hex, wrap_pdf_lines};
use dm::cli::list::relative_age;

#[test]
fn import_titles_and_bodies() {
    assert_eq!(parse_title("<!-- x -->\n#  \n# 运行手册 \n# 其他").as_deref(), Some("运行手册"));
    assert_eq!(parse_title("no title"), None);
    assert_eq!(strip_import_body("<!-- c -->\n# T\n\nbody\n# second\n"), "body\n# second");
}

#[test]
fn slugs_from_titles() {
    assert_eq!(slug("  Hello World! ", "1700000000"), "hello-world");
    assert_eq!(slug("运行 手册", "1"), "运行-手册");
    assert_eq!(slug("!!!", "1700000000"), "doc-1700000000");
    assert_eq!(slug(&"a".repeat(120), "1").len(), 96);
}

#[test]
fn histogram_rows_sorted_by_bytes() {
    let text = " num     #instances         #bytes  class name (module)\n-------\n   1:         10          500  [B (java.base)\n   2:         20         1500  java.lang.String (java.base)\n   3:          5          500  com.demo.A\nTotal         35         2500\n";
    let rows = class_histogram_rows(text);
    assert_eq!(rows.len(), 3);
    assert_eq!(rows[0], ("java.lang.String (java.base)".to_string(), 20, 1500));
    assert_eq!(rows[1], ("[B (java.base)".to_string(), 10, 500));
    assert_eq!(rows[2], ("com.demo.A".to_string(), 5, 500));
}

#[test]
fn report_lines_wrap() {
    let lines = vec!["abcdef".to_string(), String::new(), "中文字".to_string()];
    let out = wrap_pdf_lines(&lines, 4);
    assert_eq!(out, vec!["abcd", "  ef", "", "中文", "  字"]);
}

#[test]
fn pdf_text_is_utf16_hex() {
    assert_eq!(utf16be_hex("A中"), "00414E2D");
    assert_eq!(utf16be_hex("😀"), "D83DDE00");
    assert_eq!(empty_dash(" "), "-");
    assert_eq!(empty_dash("x"), "x");
}

#[test]
fn ages_of_last_runs() {
    assert_eq!(relative_age(-5), "刚刚");
    assert_eq!(relative_age(59), "刚刚");
    assert_eq!(relative_age(61), "1分钟前");
    assert_eq!(relative_age(7200), "2小时前");
    assert_eq!(relative_age(3 * 86400 + 5), "3天前");
}
