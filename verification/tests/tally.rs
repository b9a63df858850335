use dm::checks::tally::{core_check_ids, export_tally, missing_result_row};
use dm::checks::tally::{
    count_findings, count_item_status, health_advice, health_status, health_summary_rows,
    health_tally, int_text, AdviceKind, ItemMark,
};
use dm::checks::CheckStatus;

fn s(v: &str) -> Option<String> {
    Some(v.to_string())
}

#[test]
fn count_findings_reads_statuses_kinds_and_levels() {
    let marks = vec![
        ItemMark::Label(s("warn")),
        ItemMark::Table(s("error")),
        ItemMark::Bar(s("ok")),
        ItemMark::Sparkline(s("warn")),
        ItemMark::Label(None),
        ItemMark::Warning,
        ItemMark::Error,
        ItemMark::Finding("error".to_string()),
        ItemMark::Finding("info".to_string()),
        ItemMark::Other,
    ];
    assert_eq!(count_findings(&marks), (3, 3));
    assert_eq!(count_findings(&Vec::new()), (0, 0));
}

#[test]
fn health_count_skips_tables_and_sparklines() {
    let mut issues = 0;
    let mut warnings = 0;
    count_item_status(&ItemMark::Table(s("error")), &mut issues, &mut warnings);
    count_item_status(&ItemMark::Sparkline(s("warn")), &mut issues, &mut warnings);
    assert_eq!((issues, warnings), (0, 0));
    count_item_status(&ItemMark::Bar(s("error")), &mut issues, &mut warnings);
    count_item_status(&ItemMark::Label(s("warn")), &mut issues, &mut warnings);
    count_item_status(&ItemMark::Warning, &mut issues, &mut warnings);
    count_item_status(&ItemMark::Finding("warn".to_string()), &mut issues, &mut warnings);
    assert_eq!((issues, warnings), (1, 3));
}

#[test]
fn health_tally_adds_finding_levels() {
    let marks = vec![ItemMark::Error, ItemMark::Table(s("error")), ItemMark::Label(s("warn"))];
    let levels = vec!["error".to_string(), "warn".to_string(), "warn".to_string(), "info".to_string()];
    assert_eq!(health_tally(&marks, &levels), (2, 3));
}

#[test]
fn health_status_and_summary() {
    assert!(matches!(health_status(1, 0), CheckStatus::Error));
    assert!(matches!(health_status(0, 2), CheckStatus::Warn));
    assert!(matches!(health_status(0, 0), CheckStatus::Healthy));
    let rows = health_summary_rows(2, 0);
    assert_eq!(rows[0], ("问题数".to_string(), "2".to_string(), s("error")));
    assert_eq!(rows[1], ("警告数".to_string(), "0".to_string(), s("ok")));
    assert_eq!(rows[2], ("检查项".to_string(), "系统/安全/网络/资源/服务".to_string(), None));
    assert_eq!(int_text(-12), "-12");
    assert_eq!(int_text(i32::MIN), "-2147483648");
}

#[test]
fn health_advice_texts() {
    let a = health_advice(3, 4);
    assert_eq!(a.len(), 2);
    assert!(matches!(a[0].0, AdviceKind::Warning));
    assert_eq!(a[0].1, "发现 3 个问题需要处理");
    assert!(matches!(a[1].0, AdviceKind::Info));
    assert_eq!(a[1].1, "发现 4 个警告");
    let ok = health_advice(0, 0);
    assert_eq!(ok.len(), 1);
    assert!(matches!(ok[0].0, AdviceKind::Success));
    assert_eq!(ok[0].1, "系统运行正常");
}

#[test]
fn export_tally_counts_statuses_and_missing_results() {
    let runs = vec![
        Some((CheckStatus::Healthy, 0, 0)),
        Some((CheckStatus::Info, 1, 0)),
        Some((CheckStatus::Warn, 2, 0)),
        None,
    ];
    let (t, overall) = export_tally(&runs);
    assert_eq!((t.ok, t.warn, t.error, t.warnings, t.errors), (2, 2, 0, 4, 0));
    assert!(matches!(overall, CheckStatus::Warn));
    let (t, overall) = export_tally(&vec![Some((CheckStatus::Healthy, 0, 3))]);
    assert_eq!((t.ok, t.errors), (1, 3));
    assert!(matches!(overall, CheckStatus::Error));
    let (_, overall) = export_tally(&vec![Some((CheckStatus::Healthy, 0, 0))]);
    assert!(matches!(overall, CheckStatus::Healthy));
    assert_eq!(core_check_ids().len(), 12);
    assert_eq!(core_check_ids()[11], "java-service");
    assert_eq!(missing_result_row("redis"), vec!["redis", "redis", "warn", "1", "0", "0", "0"]);
}

#[test]
fn listed_checks_run_built_in() {
    assert!(matches!(dm::checks::builtin_check("redis"), Some(dm::checks::BuiltinCheck::Redis)));
    assert!(matches!(dm::checks::builtin_check("service-manage"), Some(dm::checks::BuiltinCheck::ServiceManage)));
    assert!(dm::checks::builtin_check("kafka").is_none());
    for c in dm::checks::list_checks(Vec::new()) {
        assert!(dm::checks::builtin_check(&c.id).is_some(), "{}", c.id);
    }
}
