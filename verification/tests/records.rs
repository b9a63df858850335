use dm::maintenance::{
    complete_record, create_record, delete_record, get_record, list_records, update_record,
    MaintenanceRecord,
};

fn rec(id: &str, ts: &str, category: &str) -> MaintenanceRecord {
    MaintenanceRecord {
        id: id.to_string(),
        title: format!("title {id}"),
        description: String::new(),
        category: category.to_string(),
        operator: "system".to_string(),
        timestamp: ts.to_string(),
        status: "open".to_string(),
        result: String::new(),
    }
}

fn sample() -> Vec<MaintenanceRecord> {
    vec![
        rec("a", "2024-01-01 10:00:00", "常规维护"),
        rec("b", "2024-03-01 10:00:00", "故障处理"),
        rec("c", "2024-02-01 10:00:00", "常规维护"),
        rec("d", "2024-03-01 10:00:00", "常规维护"),
    ]
}

#[test]
fn listing_is_newest_first_and_stable() {
    let ids: Vec<String> = list_records(sample(), None).into_iter().map(|r| r.id).collect();
    assert_eq!(ids, vec!["b", "d", "c", "a"]);
    let ids: Vec<String> = list_records(sample(), Some("常规维护")).into_iter().map(|r| r.id).collect();
    assert_eq!(ids, vec!["d", "c", "a"]);
}

#[test]
fn get_record_finds_by_id() {
    assert_eq!(get_record(sample(), "c").map(|r| r.timestamp), Some("2024-02-01 10:00:00".to_string()));
    assert!(get_record(sample(), "zz").is_none());
}

#[test]
fn update_changes_given_fields_only() {
    let mut records = sample();
    let updated = update_record(&mut records, "c", Some("新标题"), None, None, None, Some("done"), Some("completed")).unwrap();
    assert_eq!(updated.title, "新标题");
    assert_eq!(updated.status, "completed");
    assert_eq!(updated.result, "done");
    assert_eq!(updated.category, "常规维护");
    assert_eq!(records[2].title, "新标题");
    let again = update_record(&mut records, "c", None, None, None, None, None, Some("whatever")).unwrap();
    assert_eq!(again.status, "open");
    let err = update_record(&mut records, "nope", None, None, None, None, None, None).unwrap_err();
    assert_eq!(err, "记录不存在");
}

#[test]
fn completing_twice_reopens() {
    let mut records = sample();
    complete_record(&mut records, "a", "fixed").unwrap();
    assert_eq!(records[0].status, "completed");
    assert_eq!(records[0].result, "fixed");
    complete_record(&mut records, "a", "other").unwrap();
    assert_eq!(records[0].status, "open");
    assert_eq!(records[0].result, "fixed");
    assert_eq!(complete_record(&mut records, "x", "r").unwrap_err(), "记录不存在");
}

#[test]
fn delete_removes_every_match() {
    let mut records = sample();
    records.push(rec("a", "2024-04-01 00:00:00", "x"));
    let left = delete_record(records, "a").unwrap();
    assert_eq!(left.len(), 3);
    assert!(left.iter().all(|r| r.id != "a"));
    assert_eq!(delete_record(sample(), "zz").unwrap_err(), "记录不存在");
}

#[test]
fn new_record_is_open_with_padded_identifier() {
    let r = create_record("t", "d", "c", "op", "20240501120000", 7, "2024-05-01 12:00:00");
    assert_eq!(r.id, "20240501120000-0007");
    assert_eq!(r.status, "open");
    assert_eq!(r.result, "");
    let r = create_record("t", "d", "c", "op", "20240501120000", 12345, "x");
    assert_eq!(r.id, "20240501120000-2345");
    assert_eq!(r.id, format!("{}-{:04}", "20240501120000", 12345u32 % 10000));
}

#[test]
fn category_tags() {
    assert_eq!(dm::maintenance::category_tag("紧急修复"), "[HOTFIX]");
    assert_eq!(dm::maintenance::category_tag("数据迁移"), "[DATA]");
    assert_eq!(dm::maintenance::category_tag("其他"), "[NOTE]");
}
