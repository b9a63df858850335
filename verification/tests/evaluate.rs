use dm::anomaly::evaluate::{enrich_sections, enrich_findings, evaluate_sections, findings_description, Item, Section};
use dm::checks::CheckStatus;

fn label(key: &str, value: &str, status: Option<&str>) -> Item {
    Item::Label { key: key.into(), value: value.into(), status: status.map(|s| s.to_string()) }
}

#[test]
fn labels_bars_and_messages_give_findings() {
    let sections = vec![
        Section {
            title: "资源".into(),
            icon: None, description: None,
            items: vec![
                label("内存", "85%", Some("warn")),
                label("CPU", "10%", Some("ok")),
                Item::Bar {
                    key: "磁盘".into(),
                    value_1: "91.5%".into(),
                    value_2: "91.50%".into(),
                    max_2: "100.00%".into(),
                    text: "91.5 100 %".into(),
                    status: Some("error".into()),
                },
                Item::Warning("采集超时".into()),
                Item::Divider,
            ],
        },
        Section { title: "异常明细".into(), icon: None, description: None, items: vec![Item::Error("ignored".into())] },
        Section {
            title: "磁盘挂载".into(),
            icon: None, description: None,
            items: vec![Item::Bar {
                key: "/snap/core".into(),
                value_1: "100.0%".into(),
                value_2: "100.00%".into(),
                max_2: "100.00%".into(),
                text: "100 100 %".into(),
                status: Some("error".into()),
            }],
        },
    ];
    let f = evaluate_sections("sample", &sections);
    assert_eq!(f.len(), 3);
    assert_eq!(f[0].rule_id, "check.sample.资源.内存");
    assert_eq!(f[0].title, "内存 状态警告");
    assert_eq!(f[0].summary, "内存: 85%");
    assert_eq!(f[1].title, "磁盘 状态异常");
    assert_eq!(f[1].summary, "磁盘 当前 91.5%，检查状态为 error");
    assert_eq!(f[1].evidence[1], "容量/基准: 100.00%");
    assert_eq!(f[2].rule_id, "check.sample.资源.message");
    assert_eq!(f[2].title, "检查返回警告");
}

#[test]
fn enriched_sections_lead_with_findings() {
    let sections = vec![Section {
        title: "资源".into(),
        icon: None, description: None,
        items: vec![label("内存", "85%", Some("warn"))],
    }];
    let (findings, sections, status) = enrich_sections("sample", sections, Vec::new(), CheckStatus::Healthy);
    assert_eq!(findings.len(), 1);
    assert_eq!(sections[0].title, "异常明细");
    assert!(matches!(sections[0].items[0], Item::Finding { .. }));
    assert!(matches!(status, CheckStatus::Warn));
    assert_eq!(sections[0].description.as_deref(), Some("共 1 条异常/警告，全部由规则引擎生成，可逐条定位和处理"));
    assert_eq!(sections[1].title, "资源");
}

#[test]
fn enrich_without_findings_keeps_sections() {
    let sections = vec![Section { title: "资源".into(), icon: None, description: None, items: vec![label("CPU", "1%", None)] }];
    let (findings, status) = enrich_findings("sample", &sections, Vec::new(), CheckStatus::Info);
    assert!(findings.is_empty());
    assert!(matches!(status, CheckStatus::Info));
    assert_eq!(findings_description(3), "共 3 条异常/警告，全部由规则引擎生成，可逐条定位和处理");
}
