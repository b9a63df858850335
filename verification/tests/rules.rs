use dm::anomaly::rules::{
    es_findings, escalated_status, kafka_findings, keepalived_findings, label_finding,
    message_finding, nginx_findings, redis_findings, service_manage_findings,
};
use dm::checks::CheckStatus;

fn row(cells: &[&str]) -> Vec<String> {
    cells.iter().map(|c| c.to_string()).collect()
}

#[test]
fn nginx_rules_read_running_and_config_text() {
    let findings = nginx_findings("运行中", "nginx: [emerg] invalid number of arguments");
    assert!(findings.iter().any(|f| f.rule_id == "middleware.nginx.config_invalid" && f.level == "error"));
    assert!(findings.iter().any(|f| f.commands.iter().any(|c| c == "nginx -t")));
    let findings = nginx_findings("未发现 nginx 进程", "syntax is ok");
    assert_eq!(findings.len(), 1);
    assert_eq!(findings[0].rule_id, "middleware.nginx.not_running");
    assert!(nginx_findings("运行中", "").is_empty());
}

#[test]
fn service_rows_give_state_and_log_findings() {
    let rows = vec![
        row(&["1", " 42 ", "nginx", "nginx", "/usr/sbin/nginx", "80", "运行", "1.0", "10", "web", "loaded/failed/failed", "error: x"]),
        row(&["2", "43", "redis", "redis", "/usr/bin/redis", "6379", "运行", "0.1", "5", "db", "loaded/active/running", "-"]),
        row(&["short"]),
    ];
    let f = service_manage_findings(&rows);
    assert_eq!(f.len(), 2);
    assert_eq!(f[0].rule_id, "service.systemctl.state.nginx");
    assert_eq!(f[0].evidence[0], "PID: 42");
    assert_eq!(f[1].rule_id, "service.systemctl.log_anomaly.nginx");
    assert_eq!(f[1].commands[1], "systemctl status nginx");
}

#[test]
fn redis_es_keepalived_kafka_rules() {
    let rows = vec![row(&["blocked_clients", "2"]), row(&["rdb_last_bgsave_status", "ok"]), row(&["aof_last_write_status", "err"])];
    let f = redis_findings("PONG", None, &rows);
    assert_eq!(f.len(), 2);
    assert_eq!(f[0].rule_id, "middleware.redis.blocked_clients");
    assert_eq!(f[0].summary, "blocked_clients = 2");
    let f = redis_findings("无响应", None, &Vec::new());
    assert_eq!(f[0].target, "redis");
    let f = es_findings("red", Some("3"));
    assert_eq!(f[0].level, "error");
    assert_eq!(f[0].evidence[1], "未分配分片: 3");
    assert_eq!(es_findings("yellow", None)[0].evidence[1], "未分配分片: -");
    assert!(es_findings("green", None).is_empty());
    assert_eq!(keepalived_findings("未发现进程").len(), 1);
    assert!(keepalived_findings("运行中").is_empty());
    assert_eq!(kafka_findings("未安装").len(), 1);
}

#[test]
fn check_items_become_findings() {
    let f = label_finding("system", "资源", "CPU", "95%", "error");
    assert_eq!(f.rule_id, "check.system.资源.CPU");
    assert_eq!(f.title, "CPU 状态异常");
    assert_eq!(f.summary, "CPU: 95%");
    assert_eq!(f.commands.len(), 2);
    let m = message_finding("nginx", "配置", "bad", false);
    assert_eq!(m.rule_id, "check.nginx.配置.message");
    assert_eq!(m.level, "warn");
    assert_eq!(m.title, "检查返回警告");
    assert!(matches!(escalated_status(&vec!["warn".into(), "error".into()], CheckStatus::Healthy), CheckStatus::Error));
    assert!(matches!(escalated_status(&vec!["warn".into()], CheckStatus::Healthy), CheckStatus::Warn));
    assert!(matches!(escalated_status(&vec!["info".into()], CheckStatus::Info), CheckStatus::Info));
}
