use dm::anomaly::{default_commands, default_suggestion, is_noise_mount, java_runtime_metric_finding, AnomalyFinding};
use dm::check_config_store::{connection_config_path, is_configurable_check_id};
use dm::config::Config;

#[test]
fn suggestions_follow_item_then_check() {
    assert_eq!(
        default_suggestion("system", "资源", "CPU", "warn"),
        "定位 CPU Top 进程，结合负载和业务时间点判断是否持续异常。"
    );
    assert_eq!(
        default_suggestion("security", "基线", "ssh", "warn"),
        "核对安全基线要求，确认是否允许该配置偏离默认加固策略。"
    );
    assert_eq!(
        default_suggestion("redis", "连接", "端口", "error"),
        "按 异常 级别处理 连接 / 端口，结合证据和现场业务影响确认优先级。"
    );
    assert_eq!(
        default_suggestion("redis", "连接", "端口", "warn"),
        "按 警告 级别处理 连接 / 端口，结合证据和现场业务影响确认优先级。"
    );
}

#[test]
fn commands_follow_item_and_security() {
    assert_eq!(default_commands("system", "磁盘"), vec!["df -h".to_string(), "du -xh / 2>/dev/null | sort -h | tail -20".to_string()]);
    let sec = default_commands("security", "CPU");
    assert_eq!(sec.len(), 3);
    assert!(sec[2].starts_with("sysctl -a"));
    assert!(default_commands("nginx", "worker").is_empty());
}

#[test]
fn container_mounts_are_noise() {
    assert!(is_noise_mount("/var/lib/docker/overlay2/x", "ext4"));
    assert!(is_noise_mount("/data", "overlay"));
    assert!(!is_noise_mount("/data", "xfs"));
}

#[test]
fn runtime_metric_finding_names_the_process() {
    let f = java_runtime_metric_finding(
        "42",
        "order-service",
        "cpu_high",
        "warn",
        "CPU 偏高",
        "CPU 91%".to_string(),
        vec!["top -Hp 42".to_string()],
    );
    assert_eq!(f.rule_id, "java.runtime.cpu_high.42");
    assert_eq!(f.title, "Java 服务 order-service CPU 偏高");
    assert_eq!(f.target, "pid:42");
    assert_eq!(f.category, "Java服务");
    assert_eq!(f.evidence, vec!["PID: 42".to_string(), "进程: order-service".to_string(), "指标: CPU 91%".to_string()]);
    assert_eq!(f.commands, vec!["top -Hp 42".to_string()]);
}

#[test]
fn builders_fill_one_field_each() {
    let f = AnomalyFinding::new("r".into(), "warn".into(), "c".into(), "t".into(), "x".into(), "s".into())
        .suggestion("do it".into())
        .commands(vec!["ls".into()]);
    assert_eq!(f.suggestion, "do it");
    assert!(f.evidence.is_empty());
    assert_eq!(f.commands.len(), 1);
}

#[test]
fn configurable_checks_and_config_file() {
    assert!(is_configurable_check_id("java-service"));
    assert!(is_configurable_check_id("redis"));
    assert!(!is_configurable_check_id("system"));
    let cfg = Config {
        scripts_dir: "/opt/dm/scripts".into(),
        user_scripts_dir: "/root/.dm/scripts".into(),
        port: 3399,
        bind: "0.0.0.0".into(),
        theme: "dark".into(),
        language: "zh".into(),
        log_dir: "/root/.dm/logs".into(),
        data_dir: "/root/.dm/data".into(),
    };
    assert_eq!(connection_config_path(&cfg), "/root/.dm/data/check-configs.json");
}

#[test]
fn settings_template_fields() {
    let ids = dm::check_config_store::configurable_ids();
    assert_eq!(ids.len(), 7);
    assert_eq!(ids[0], "elasticsearch");
    let es = dm::check_config_store::template_fields("elasticsearch");
    assert_eq!(es[0], ("url", "http://127.0.0.1:9200"));
    assert_eq!(es.len(), 9);
    assert_eq!(dm::check_config_store::template_fields("mysql")[2], ("username", "root"));
    assert!(dm::check_config_store::template_fields("system").is_empty());
}
