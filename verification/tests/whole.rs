use dm::anomaly::evaluate::{Item, Section};
use dm::anomaly::java_runtime::{java_runtime_row_findings, RowFloats};
use dm::anomaly::whole::{domain_findings, enrich_check_result, evaluate_check_result, first_table_rows, label_value, result_text, CheckResult};
use dm::anomaly::AnomalyFinding;
use dm::checks::CheckStatus;

fn s(v: &str) -> String {
    v.to_string()
}

fn row(cells: &[&str]) -> Vec<String> {
    cells.iter().map(|c| c.to_string()).collect()
}

fn table(headers: &[&str], rows: Vec<Vec<String>>) -> Item {
    Item::Table { headers: row(headers), rows, status: Some(s("warn")) }
}

fn section(title: &str, items: Vec<Item>) -> Section {
    Section { title: s(title), icon: None, description: None, items }
}

fn label(key: &str, value: &str, status: Option<&str>) -> Item {
    Item::Label { key: s(key), value: s(value), status: status.map(s) }
}

fn report(id: &str, sections: Vec<Section>) -> CheckResult {
    CheckResult {
        id: s(id),
        name: s(if id == "java-service" { "java" } else { id }),
        description: String::new(),
        category: s("test"),
        version: s("1"),
        timestamp: String::new(),
        duration_ms: 0,
        status: CheckStatus::Warn,
        sections,
    }
}

fn floats(cpu: &str, memory: &str, cpu_pct: u32, memory_mb: u32) -> RowFloats {
    RowFloats {
        cpu_1: s(cpu),
        memory_1: s(memory),
        cpu_at_70: cpu_pct >= 70,
        cpu_at_85: cpu_pct >= 85,
        cpu_at_90: cpu_pct >= 90,
        memory_at_4096: memory_mb >= 4096,
        memory_at_8192: memory_mb >= 8192,
    }
}

fn ids(findings: &[AnomalyFinding]) -> Vec<String> {
    findings.iter().map(|f| f.rule_id.clone()).collect()
}

const RUNTIME_HEADERS: [&str; 7] = ["PID", "进程", "CPU%", "内存MB", "线程数", "状态", "JVM/启动参数"];

#[test]
fn java_runtime_rules_flag_heap_and_port_risks() {
    let result = report(
        "java-service",
        vec![
            section(
                "Java 服务列表",
                vec![table(
                    &["PID", "服务名", "CPU%", "内存MB", "线程数", "监听端口", "命令"],
                    vec![row(&["42", "tomcat", "12.0", "1024.0", "180", "", "java -jar order-service.jar"])],
                )],
            ),
            section(
                "Java 运行时",
                vec![table(
                    &RUNTIME_HEADERS,
                    vec![row(&["42", "tomcat", "12.0", "1024.0", "180", "warn", "未识别到关键 JVM 参数"])],
                )],
            ),
        ],
    );
    let findings = evaluate_check_result(&result, &vec![floats("12.0", "1024.0", 12, 1024)]);
    assert!(findings.iter().any(|f| f.rule_id == "java.runtime.heap_unbounded.42"));
    assert!(findings.iter().any(|f| f.rule_id == "java.runtime.no_port.42"));
}

#[test]
fn java_runtime_rules_flag_hot_service() {
    let result = report(
        "java-service",
        vec![section(
            "Java 运行时",
            vec![table(
                &RUNTIME_HEADERS,
                vec![row(&["42", "order-service", "91.0", "5120.0", "900", "warn", "-Xmx4g order-service.jar"])],
            )],
        )],
    );
    let findings = evaluate_check_result(&result, &vec![floats("91.0", "5120.0", 91, 5120)]);
    assert!(findings.iter().any(|f| f.rule_id == "java.runtime.42"));
    assert!(findings.iter().any(|f| f.commands.iter().any(|c| c.contains("Thread.print"))));
}

#[test]
fn hot_runtime_row_gives_every_metric_finding() {
    let r = row(&["42", "order-service", "91.0", "5120.0", "900", "warn", "-Xmx4g order-service.jar"]);
    let f = java_runtime_row_findings(&r, &floats("91.0", "5120.0", 91, 5120));
    assert_eq!(
        ids(&f),
        vec![
            "java.runtime.42",
            "java.runtime.cpu_high.42",
            "java.runtime.rss_high.42",
            "java.runtime.threads_critical.42",
        ]
    );
    assert_eq!(f[0].title, "Java 服务 order-service 运行时压力偏高");
    assert_eq!(f[0].summary, "CPU 91.0%，内存 5120.0MB，线程 900");
    assert_eq!(f[0].evidence[4], "线程数: 900");
    assert_eq!(f[0].commands, vec!["jcmd 42 Thread.print | head -200", "jcmd 42 GC.heap_info", "top -Hp 42"]);
    assert_eq!(f[1].summary, "CPU 91.0% 已超过 90%");
    assert_eq!(f[1].level, "error");
    assert_eq!(f[2].summary, "RSS 内存 5120.0MB 已超过 4096MB");
    assert_eq!(f[2].commands, vec!["jcmd 42 GC.heap_info", "jmap -histo:live 42 | head -60"]);
}

#[test]
fn busy_runtime_row_without_heap_bound() {
    let r = row(&["7", "billing", "75.5", "9000.0", "450", "ok", "java -jar billing.jar"]);
    let f = java_runtime_row_findings(&r, &floats("75.5", "9000.0", 75, 9000));
    assert_eq!(
        ids(&f),
        vec![
            "java.runtime.7",
            "java.runtime.cpu_busy.7",
            "java.runtime.rss_critical.7",
            "java.runtime.threads_high.7",
            "java.runtime.heap_unbounded.7",
        ]
    );
    assert_eq!(f[1].summary, "CPU 75.5% 已超过 70%");
    assert_eq!(f[2].summary, "RSS 内存 9000.0MB 已超过 8192MB");
    assert_eq!(f[4].evidence[2], "内存: 9000.0MB");
    let short = row(&["7", "billing", "75.5"]);
    assert!(java_runtime_row_findings(&short, &floats("75.5", "0.0", 75, 0)).is_empty());
}

#[test]
fn quiet_runtime_row_with_heap_bound_gives_nothing() {
    let r = row(&["9", "api", "1.0", "512.0", "40", "ok", "-XX:MaxRAMPercentage=75"]);
    assert!(java_runtime_row_findings(&r, &floats("1.0", "512.0", 1, 512)).is_empty());
}

#[test]
fn generic_findings_come_before_check_rules() {
    let result = report(
        "nginx",
        vec![section(
            "连接与程序信息",
            vec![
                label("运行状态", "运行中", Some("ok")),
                label("配置检测", "nginx: [emerg] invalid number of arguments", Some("warn")),
            ],
        )],
    );
    let f = evaluate_check_result(&result, &Vec::new());
    assert_eq!(ids(&f), vec!["check.nginx.连接与程序信息.配置检测", "middleware.nginx.config_invalid"]);
    assert_eq!(f[0].summary, "配置检测: nginx: [emerg] invalid number of arguments");
    assert_eq!(f[0].level, "warn");
    assert_eq!(f[0].target, "配置检测");
}

#[test]
fn alarming_label_outside_findings_section_is_reported() {
    let result = report(
        "sample",
        vec![
            section("异常明细", vec![label("旧", "1", Some("error"))]),
            section("资源", vec![label("内存", "85%", Some("warn")), label("CPU", "1%", Some("ok"))]),
        ],
    );
    let f = evaluate_check_result(&result, &Vec::new());
    assert_eq!(ids(&f), vec!["check.sample.资源.内存"]);
    assert_eq!(f[0].category, "资源");
    assert_eq!(f[0].summary, "内存: 85%");
}

#[test]
fn check_rules_are_chosen_by_id() {
    let services = report(
        "service-manage",
        vec![section(
            "服务列表",
            vec![table(
                &["#", "PID", "名称", "进程", "路径", "端口", "状态", "CPU", "内存", "类型", "Systemd", "日志"],
                vec![row(&["1", "10", "nginx", "nginx", "/usr/sbin/nginx", "80", "运行", "1%", "20MB", "web", "failed", "-"])],
            )],
        )],
    );
    assert_eq!(ids(&domain_findings(&services, &Vec::new())), vec!["service.systemctl.state.nginx"]);

    let redis = report(
        "redis",
        vec![
            section("连接信息", vec![label("PING", "无响应", None), label("地址", "10.0.0.5:6379", None)]),
            section("运行状态", vec![table(&["指标", "值"], vec![row(&["blocked_clients", "3"])])]),
        ],
    );
    let f = domain_findings(&redis, &Vec::new());
    assert_eq!(ids(&f), vec!["middleware.redis.ping_failed", "middleware.redis.blocked_clients"]);
    assert_eq!(f[0].target, "10.0.0.5:6379");

    let es = report("elasticsearch", vec![section("集群健康", vec![label("集群状态", "red", None)])]);
    let f = domain_findings(&es, &Vec::new());
    assert_eq!(f[0].level, "error");
    assert_eq!(f[0].evidence[1], "未分配分片: -");

    let keepalived = report("keepalived", vec![section("运行状态", vec![label("运行状态", "未发现进程", None)])]);
    assert_eq!(ids(&domain_findings(&keepalived, &Vec::new())), vec!["middleware.keepalived.not_running"]);

    let kafka = report("kafka", vec![section("运行与连接", vec![label("运行状态", "未安装", None)])]);
    assert_eq!(ids(&domain_findings(&kafka, &Vec::new())), vec!["middleware.kafka.not_running"]);

    let other = report("mysql", vec![section("连接信息", vec![label("运行状态", "未发现", None)])]);
    assert!(domain_findings(&other, &Vec::new()).is_empty());
    let missing = report("nginx", Vec::new());
    assert!(domain_findings(&missing, &Vec::new()).is_empty());
}

#[test]
fn java_log_keywords_search_the_whole_result() {
    let result = report(
        "java-service",
        vec![
            section("匹配配置", vec![label("匹配结果", "未发现匹配进程", None)]),
            section("日志", vec![Item::Info(s("java.lang.OutOfMemoryError: Java heap space"))]),
        ],
    );
    let f = evaluate_check_result(&result, &Vec::new());
    assert_eq!(ids(&f), vec!["java.service.not_found", "java.log.oom"]);
}

#[test]
fn result_text_lists_every_value() {
    let mut result = report(
        "sample",
        vec![Section {
            title: s("资源"),
            icon: None,
            description: Some(s("说明")),
            items: vec![
                label("内存", "85%", Some("warn")),
                table(&["a", "b"], vec![row(&["1", "2"])]),
                Item::Bar {
                    key: s("磁盘"),
                    value_1: s("50.0%"),
                    value_2: s("50.00%"),
                    max_2: s("100.00%"),
                    text: s("50 100 %"),
                    status: None,
                },
                Item::Sparkline { key: s("负载"), unit: s("load"), status: None },
                Item::Success(s("完成")),
                Item::Divider,
            ],
        }],
    );
    result.description = s("描述");
    assert_eq!(
        result_text(&result),
        "sample\nsample\n描述\ntest\n资源\n说明\n内存\n85%\nwarn\na\nb\n1\n2\nwarn\n磁盘\n50 100 %\n负载\nload\n完成"
    );
}

#[test]
fn lookups_take_the_first_section_and_item() {
    let result = report(
        "sample",
        vec![
            section("连接", vec![label("地址", "a", None), label("地址", "b", None), table(&["x"], vec![row(&["1"])])]),
            section("连接", vec![label("端口", "80", None)]),
        ],
    );
    assert_eq!(label_value(&result, "连接", "地址"), Some("a"));
    assert_eq!(label_value(&result, "连接", "端口"), None);
    assert_eq!(label_value(&result, "其他", "地址"), None);
    assert_eq!(first_table_rows(&result, "连接").map(|r| r.len()), Some(1));
    assert!(first_table_rows(&result, "其他").is_none());
}

#[test]
fn enriched_report_leads_with_findings_and_raises_status() {
    let mut result = report(
        "nginx",
        vec![
            section("异常明细", vec![Item::Info(s("旧"))]),
            section("连接与程序信息", vec![label("配置检测", "nginx: [emerg] bad", None)]),
        ],
    );
    result.status = CheckStatus::Healthy;
    let f = enrich_check_result(&mut result, &Vec::new());
    assert_eq!(ids(&f), vec!["middleware.nginx.config_invalid"]);
    assert!(matches!(result.status, CheckStatus::Error));
    assert_eq!(result.sections.len(), 2);
    assert_eq!(result.sections[0].title, "异常明细");
    assert_eq!(result.sections[0].items.len(), 1);
    assert!(matches!(&result.sections[0].items[0], Item::Finding(g) if g.rule_id == "middleware.nginx.config_invalid"));
    assert_eq!(result.sections[1].title, "连接与程序信息");
    assert_eq!(result.id, "nginx");

    let mut quiet = report("sample", vec![section("资源", vec![label("CPU", "1%", Some("ok"))])]);
    quiet.status = CheckStatus::Info;
    assert!(enrich_check_result(&mut quiet, &Vec::new()).is_empty());
    assert!(matches!(quiet.status, CheckStatus::Info));
    assert_eq!(quiet.sections.len(), 1);
}

#[test]
fn check_result_is_enriched_with_detail_section() {
    let mut result = report("sample", vec![section("资源", vec![label("内存", "85%", Some("warn"))])]);
    result.status = CheckStatus::Healthy;
    let findings = enrich_check_result(&mut result, &Vec::new());
    assert_eq!(findings.len(), 1);
    assert_eq!(result.sections[0].title, "异常明细");
    assert!(matches!(result.sections[0].items[0], Item::Finding { .. }));
    assert_eq!(result.sections[0].icon.as_deref(), Some("ALERT"));
}

#[test]
fn middleware_specific_rules_create_actionable_nginx_findings() {
    let result = report(
        "nginx",
        vec![section(
            "连接与程序信息",
            vec![
                label("运行状态", "运行中", Some("ok")),
                label("配置检测", "nginx: [emerg] invalid number of arguments", Some("warn")),
            ],
        )],
    );
    let findings = evaluate_check_result(&result, &Vec::new());
    assert!(findings.iter().any(|f| f.rule_id == "middleware.nginx.config_invalid"));
    assert!(findings.iter().any(|f| f.commands.iter().any(|c| c == "nginx -t")));
}
