use dm::docs::{
    collect_doc_dirs, create_doc_dir, default_doc_needs_repair, is_default_doc, new_doc_text,
    normalized_doc_dirs, parse_doc_header, rewrite_doc, sanitize_id, stored_doc_dirs,
    strip_doc_envelope,
};

#[test]
fn update_doc_replaces_body_without_duplicating_title() {
    let id = "unit-doc-1";
    let created = new_doc_text("旧标题", "测试", "旧正文", "2024-01-01 00:00:00");
    let content = rewrite_doc(
        &created,
        id,
        Some("新标题"),
        Some("测试"),
        None,
        Some("## 步骤\n\n- 执行命令"),
        "2024-01-02 00:00:00",
    );
    let meta = parse_doc_header(&content, id);
    assert_eq!(meta.title, "新标题");
    assert!(content.contains("# 新标题"));
    assert!(content.contains("## 步骤"));
    assert_eq!(content.matches("# 新标题").count(), 1);
    assert!(!content.contains("旧正文"));
    assert_eq!(meta.updated_at, "2024-01-02 00:00:00");
    assert_eq!(meta.created_at, "2024-01-01 00:00:00");
}

#[test]
fn default_quick_start_doc_cannot_be_deleted() {
    assert!(is_default_doc("first-use-quick-start"));
    assert!(!is_default_doc("runbook"));
    assert!(default_doc_needs_repair("# 标题\n编辑时左侧写 Markdown 源码\n## 快速上手路径"));
    assert!(default_doc_needs_repair("# 标题\n正文"));
    assert!(!default_doc_needs_repair("# 标题\n## 快速上手路径"));
}

#[test]
fn doc_dirs_persist_without_docs() {
    let (written, dirs) = create_doc_dir("数据库", Vec::new(), &Vec::new()).unwrap();
    let written = written.expect("a new directory is stored");
    assert_eq!(written, vec!["数据库".to_string()]);
    assert!(dirs.iter().any(|dir| dir == "数据库"));
    assert!(dirs.iter().any(|dir| dir == "系统文档"));
    let (again, _) = create_doc_dir(" 数据库 ", written, &Vec::new()).unwrap();
    assert!(again.is_none());
}

#[test]
fn doc_dir_names_are_checked() {
    assert_eq!(create_doc_dir("   ", Vec::new(), &Vec::new()).unwrap_err(), "目录名称不能为空");
    assert_eq!(create_doc_dir("a/b", Vec::new(), &Vec::new()).unwrap_err(), "目录名称不能包含路径分隔符或换行");
    let long = "目".repeat(27);
    assert_eq!(create_doc_dir(&long, Vec::new(), &Vec::new()).unwrap_err(), "目录名称过长");
    let fits = "目".repeat(26);
    assert!(create_doc_dir(&fits, Vec::new(), &Vec::new()).is_ok());
}

#[test]
fn directory_lists_are_sorted_sets() {
    let dirs = collect_doc_dirs(
        &vec!["运维".to_string(), "通用".to_string()],
        &vec!["  ".to_string(), "数据库".to_string(), "运维".to_string()],
    );
    let mut expected = vec!["系统文档", "通用", "运维", "数据库"];
    expected.sort();
    assert_eq!(dirs, expected);
    assert_eq!(
        normalized_doc_dirs(&vec![" b ".to_string(), "a".to_string(), "".to_string(), "b".to_string()]),
        vec!["a".to_string(), "b".to_string()]
    );
    assert_eq!(stored_doc_dirs(vec![" x ".to_string(), " ".to_string()]), vec!["x".to_string()]);
}

#[test]
fn header_lines_are_read() {
    let text = "<!-- category: 运维 -->\n<!-- tags: a, b ,, c -->\n<!-- created:2024 -->\n\n# 标题 \n# 第二\n";
    let h = parse_doc_header(text, "id1");
    assert_eq!(h.title, "标题");
    assert_eq!(h.category, "运维");
    assert_eq!(h.tags, vec!["a".to_string(), "b".to_string(), "c".to_string()]);
    assert_eq!(h.created_at, "2024");
    assert_eq!(h.updated_at, "");
    let plain = parse_doc_header("no header", "id2");
    assert_eq!(plain.title, "id2");
    assert_eq!(plain.category, "未分类");
}

#[test]
fn envelope_is_stripped() {
    assert_eq!(strip_doc_envelope("<!-- x -->\n\n# T\n\nbody\n\nmore\n"), "body\n\nmore");
    assert_eq!(strip_doc_envelope("text first\n# not a title"), "text first\n# not a title");
}

#[test]
fn ids_keep_letters_digits_dash_underscore() {
    assert_eq!(sanitize_id("a-b_c!/..中文"), "a-b_c中文");
    assert_eq!(sanitize_id("../etc"), "etc");
}

#[test]
fn rewrite_without_title_line_adds_one() {
    let out = rewrite_doc("just text", "doc-x", None, None, None, None, "now");
    assert_eq!(out, "just text\n\n# doc-x");
}

use dm::docs::{list_docs, DocMeta};

fn meta(id: &str, category: &str, updated: &str) -> DocMeta {
    DocMeta {
        id: id.into(),
        title: id.into(),
        category: category.into(),
        tags: Vec::new(),
        created_at: String::new(),
        updated_at: updated.into(),
        size_bytes: 0,
    }
}

#[test]
fn documents_are_listed_latest_first() {
    let docs = vec![meta("a", "通用", "2024-01-01"), meta("b", "运维", "2024-03-01"), meta("c", "通用", "2024-02-01")];
    let ids: Vec<String> = list_docs(docs, None).into_iter().map(|d| d.id).collect();
    assert_eq!(ids, vec!["b", "c", "a"]);
    let docs = vec![meta("a", "通用", "2024-01-01"), meta("b", "运维", "2024-03-01"), meta("c", "通用", "2024-02-01")];
    let ids: Vec<String> = list_docs(docs, Some("通用")).into_iter().map(|d| d.id).collect();
    assert_eq!(ids, vec!["c", "a"]);
}

#[test]
fn updated_body_reads_back() {
    let created = new_doc_text("标题", "测试", "旧正文\n第二行", "t0");
    let content = rewrite_doc(&created, "d", None, None, None, Some("新正文\n新第二行"), "t1");
    assert!(content.ends_with("# 标题\n\n新正文\n新第二行"));
    assert!(!content.contains("旧正文"));
}

#[test]
fn quick_start_document_is_created_or_repaired() {
    assert_eq!(dm::docs::QUICK_START_ID, "first-use-quick-start");
    assert!(matches!(dm::docs::quick_start_action(None), dm::docs::QuickStartAction::Create));
    assert!(matches!(dm::docs::quick_start_action(Some("old text")), dm::docs::QuickStartAction::Repair));
    assert!(matches!(
        dm::docs::quick_start_action(Some(dm::docs::QUICK_START_BODY)),
        dm::docs::QuickStartAction::Keep
    ));
}

#[test]
fn created_quick_start_document_is_kept_next_time() {
    let text = dm::docs::new_doc_text(
        dm::docs::QUICK_START_TITLE,
        dm::docs::QUICK_START_CATEGORY,
        dm::docs::QUICK_START_BODY,
        "2024-05-01 08:00:00",
    );
    assert!(text.starts_with("<!-- category:系统文档 -->"));
    assert!(matches!(dm::docs::quick_start_action(Some(text.as_str())), dm::docs::QuickStartAction::Keep));
}
