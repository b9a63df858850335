use dm::anomaly::catalog::rule_catalog;

#[test]
fn rule_catalog_covers_operational_domains() {
    let rules = rule_catalog();
    assert!(
        rules.len() >= 90,
        "规则目录太少，无法支撑现场复杂检查: {}",
        rules.len()
    );
    let mut ids = std::collections::HashSet::new();
    for rule in &rules {
        assert!(ids.insert(rule.id.to_string()), "规则 ID 重复: {}", rule.id);
    }
    for category in [
        "资源水位",
        "磁盘分区",
        "进程异常",
        "服务管理",
        "日志异常",
        "数据库",
        "中间件",
        "Web网关",
        "异常类型",
        "网络链路",
        "内核异常",
        "容器运行时",
        "存储异常",
        "安全风险",
        "Java服务",
        "配置风险",
        "备份恢复",
        "调度任务",
        "检查结果",
    ] {
        assert!(
            rules.iter().any(|r| r.category == category),
            "缺少规则分类: {}",
            category
        );
    }
    assert!(rules.iter().all(|r| r.id.contains('.')));
    assert!(rules.iter().all(|r| r.condition.len() > 2));
    assert!(rules.iter().all(|r| r.description.len() > 10));
}

#[test]
fn rule_catalog_first_rule_is_cpu_critical() {
    let rules = rule_catalog();
    let first = &rules[0];
    assert_eq!(first.id, "resource.cpu.critical");
    assert_eq!(first.category, "资源水位");
    assert_eq!(first.level, "error");
    assert_eq!(first.threshold, "90");
    assert_eq!(first.title, "CPU 使用率严重过高");
    assert_eq!(first.target, "system.cpu");
    assert_eq!(first.condition, "CPU >= 90%");
    assert!(first.enabled);
    assert_eq!(first.source, "builtin");
    assert!(rules.iter().all(|r| r.enabled && r.source == "builtin"));
    assert_eq!(
        first.signals,
        vec!["system_info.cpu_usage", "top_processes.cpu_usage"]
    );
}
