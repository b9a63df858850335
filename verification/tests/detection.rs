use dm::check_config_store::parse_config_items;
use dm::script::{script_arguments, script_matches, Script};
use dm::anomaly::java_rules::{java_log_findings_of_blob, java_log_keyword_findings, java_service_list_findings};
use dm::anomaly::overrides::{apply_overrides, RuleOverride};
use dm::anomaly::AnomalyFinding;
use dm::checks::endpoint::{kafka_bootstrap, mysql_auth, EndpointConfig};
use dm::checks::es_paths::{es_config_guess, es_data_guess, es_log_guess, first_log_file, PathGuess};
use dm::checks::java_service::{first_dot_log, java_log_guess};
use dm::checks::listen::{listen_pid_ports, ports_of_pid};
use dm::checks::middleware::{port_belongs, port_rows, specs, unit_state_rows};
use dm::checks::middleware_hits::{collect_hit, middleware_row, ps_processes, version_line};
use dm::checks::sections::{
    context_rows, kernel_param_list, kernel_param_status, kv_rows, numbered_lines, open_port_rows,
    path_text, path_text_if_available, service_state_text, sysctl_path, systemctl_state_text,
};
use dm::java_analyzer::sockets::{listening_sockets, process_listen_ports};
use dm::script::choose_script_file;

fn strings(v: &[&str]) -> Vec<String> {
    v.iter().map(|s| s.to_string()).collect()
}

fn endpoint() -> EndpointConfig {
    EndpointConfig {
        host: String::new(),
        port: String::new(),
        url: String::new(),
        username: String::new(),
        password: String::new(),
        service_prefix: String::new(),
        config_path: String::new(),
        data_path: String::new(),
        log_path: String::new(),
        program_path: String::new(),
    }
}

fn finding(rule_id: &str, level: &str) -> AnomalyFinding {
    AnomalyFinding::new(
        rule_id.to_string(),
        level.to_string(),
        "资源水位".to_string(),
        "标题".to_string(),
        "target".to_string(),
        "摘要".to_string(),
    )
    .suggestion("原建议".to_string())
    .commands(vec!["top".to_string()])
}

#[test]
fn java_log_keywords_give_one_finding_per_rule_in_order() {
    let f = java_log_findings_of_blob("caused by: java.lang.outofmemoryerror: java heap space\nfull gc (allocation failure)");
    let ids: Vec<&str> = f.iter().map(|x| x.rule_id.as_str()).collect();
    assert_eq!(ids, vec!["java.log.oom", "java.log.full_gc"]);
    assert_eq!(f[0].level, "error");
    assert_eq!(f[0].target, "java-log");
    assert_eq!(f[0].evidence[0], "关键词: outofmemoryerror");
    assert_eq!(f[1].commands.len(), 2);
    assert!(java_log_findings_of_blob("all good").is_empty());
}

#[test]
fn java_log_keywords_are_matched_lowercased() {
    let f = java_log_keyword_findings("java.net.ConnectException: Connection refused");
    assert_eq!(f.len(), 1);
    assert_eq!(f[0].rule_id, "java.log.connection_refused");
}

#[test]
fn java_service_list_reports_missing_service_and_silent_servers() {
    let rows = vec![
        strings(&["101", "order", "", "", "", "-", "java -jar /opt/order.jar"]),
        strings(&["102", "batch", "", "", "", "-", "java Batch"]),
        strings(&["103", "web", "", "", "", "8080", "java -jar web.jar"]),
        strings(&["short"]),
    ];
    let f = java_service_list_findings(Some("未发现匹配进程"), &rows);
    assert_eq!(f.len(), 2);
    assert_eq!(f[0].rule_id, "java.service.not_found");
    assert_eq!(f[0].evidence, vec!["匹配结果: 未发现匹配进程".to_string()]);
    assert_eq!(f[1].rule_id, "java.runtime.no_port.101");
    assert_eq!(f[1].title, "Java 服务 order 未监听端口");
    assert_eq!(f[1].evidence[2], "监听端口: -");
    assert!(java_service_list_findings(None, &vec![]).is_empty());
}

#[test]
fn script_file_prefers_sh_then_extension_then_same_name() {
    let entries = vec![("notes".to_string(), false), ("run.PY".to_string(), true)];
    assert_eq!(choose_script_file("/s/tool", "tool", true, &entries, false), Some("/s/tool/tool.sh".to_string()));
    assert_eq!(choose_script_file("/s/tool", "tool", false, &entries, true), Some("/s/tool/run.PY".to_string()));
    let no_ext = vec![("README".to_string(), true), ("run.py".to_string(), true)];
    assert_eq!(choose_script_file("/s/tool", "tool", false, &no_ext, true), Some("/s/tool/tool".to_string()));
    assert_eq!(choose_script_file("/s/tool", "tool", false, &no_ext, false), None);
}

#[test]
fn proc_net_tcp_listening_sockets_and_process_ports() {
    let table = "  sl  local_address rem_address   st tx_queue rx_queue tr tm->when retrnsmt   uid  timeout inode\n   0: 00000000:1F90 00000000:0000 0A 00000000:00000000 00:00000000 00000000  1000        0 12345 1\n   1: 0100007F:0050 0100007F:9C40 01 00000000:00000000 00:00000000 00000000  1000        0 999 1\n";
    let sockets = listening_sockets(table);
    assert_eq!(sockets, vec![("12345".to_string(), "8080".to_string())]);
    let targets = strings(&["socket:[12345]", "/dev/null", "socket:[999]", "socket:[12345]"]);
    assert_eq!(process_listen_ports(&targets, &sockets), vec!["8080".to_string()]);
    assert!(process_listen_ports(&strings(&["pipe:[1]"]), &sockets).is_empty());
}

#[test]
fn ss_output_gives_sorted_ports_per_pid() {
    let out = "LISTEN 0 128 0.0.0.0:8080 0.0.0.0:* users:((\"java\",pid=42,fd=10))\nLISTEN 0 128 [::]:443 [::]:* users:((\"nginx\",pid=7,fd=6),(\"nginx\",pid=8,fd=6))\nLISTEN 0 128 0.0.0.0:8009 0.0.0.0:* users:((\"java\",pid=42,fd=11))\nLISTEN 0 128 *:* *:* users:((\"x\",pid=9,fd=1))\n";
    let pairs = listen_pid_ports(out);
    assert_eq!(pairs.len(), 4);
    assert_eq!(pairs[0], (42, "8080".to_string()));
    assert_eq!(ports_of_pid(&pairs, 42), vec!["8009".to_string(), "8080".to_string()]);
    assert_eq!(ports_of_pid(&pairs, 8), vec!["443".to_string()]);
    assert!(ports_of_pid(&pairs, 9).is_empty());
}

#[test]
fn elasticsearch_paths_follow_value_then_command_then_config() {
    let cmds = strings(&["/usr/share/es/bin/java -Des.path.conf=/etc/es -Epath.data=/data/es"]);
    match es_config_guess("", &strings(&["java -cp x \"/opt/es/config/elasticsearch.yml\""]), &["/etc/elasticsearch/elasticsearch.yml"]) {
        PathGuess::Exact(p) => assert_eq!(p, "/opt/es/config/elasticsearch.yml"),
        _ => panic!("expected the file named on the command line"),
    }
    match es_config_guess("  ", &vec![], &["/etc/elasticsearch/elasticsearch.yml"]) {
        PathGuess::Search(v) => assert_eq!(v, strings(&["/etc/elasticsearch/elasticsearch.yml"])),
        _ => panic!("expected the defaults"),
    }
    match es_config_guess("/cfg/es.yml", &cmds, &[]) {
        PathGuess::Exact(p) => assert_eq!(p, "/cfg/es.yml"),
        _ => panic!("expected the configured value"),
    }
    match es_data_guess("", &cmds, None) {
        PathGuess::Exact(p) => assert_eq!(p, "/data/es"),
        _ => panic!("expected path.data from the command line"),
    }
    match es_data_guess("", &vec![], Some("path.data: /srv/es\n")) {
        PathGuess::Exact(p) => assert_eq!(p, "/srv/es"),
        _ => panic!("expected path.data from the configuration"),
    }
    match es_log_guess("", &vec![], Some("path.logs: /srv/logs\n")) {
        PathGuess::Search(v) => assert_eq!(v, strings(&["/srv/logs", "/var/log/elasticsearch", "/opt/elasticsearch/logs"])),
        _ => panic!("expected directories to search"),
    }
}

#[test]
fn log_files_are_picked_by_extension() {
    let entries = vec![("b.LOG".to_string(), true), ("a.log".to_string(), true), ("c.log".to_string(), false), ("x.txt".to_string(), true)];
    assert_eq!(first_log_file("/var/log/es", &entries), Some("/var/log/es/a.log".to_string()));
    assert_eq!(first_log_file("/var/log/es", &vec![("x.txt".to_string(), true)]), None);
    assert_eq!(first_dot_log("/logs", &strings(&["a.LOG", "b.log", "c.log"])), Some("/logs/b.log".to_string()));
}

#[test]
fn java_log_candidates_come_from_command_words() {
    match java_log_guess("", "java -Dlogging.file=/app/logs/app.log -jar app.jar '/data/logs/'") {
        PathGuess::Search(v) => assert_eq!(v, strings(&["/app/logs/app.log", "/data/logs/"])),
        _ => panic!("expected candidates"),
    }
    match java_log_guess("/var/log/app.log", "java") {
        PathGuess::Exact(p) => assert_eq!(p, "/var/log/app.log"),
        _ => panic!("expected the configured path"),
    }
}

#[test]
fn systemd_units_and_listening_ports_are_parsed() {
    let units = unit_state_rows("nginx.service loaded active running A web server\nodd.service\n");
    assert_eq!(units, vec![
        ("nginx.service".to_string(), "loaded/active/running".to_string()),
        ("odd.service".to_string(), "-/-/-".to_string()),
    ]);
    let ports = port_rows("Netid State Recv-Q Send-Q Local Peer\ntcp LISTEN 0 128 0.0.0.0:6379 0.0.0.0:* users:((\"redis-server\"))\ntcp LISTEN 0 128 *:* *:*\n");
    assert_eq!(ports.len(), 2);
    assert_eq!(ports[0].0, "Local");
    assert_eq!(ports[1].0, "6379");
    assert!(ports[1].1.contains("redis-server"));
}

#[test]
fn known_ports_count_only_for_a_component_already_seen() {
    let all = specs();
    let redis = all.iter().find(|s| s.id == "redis").unwrap();
    assert!(port_belongs(redis, "1234", "tcp listen users:((\"redis-server\"))", false));
    assert!(port_belongs(redis, "6379", "tcp listen users:((\"other\"))", true));
    assert!(!port_belongs(redis, "6379", "tcp listen users:((\"other\"))", false));
}

#[test]
fn middleware_hits_become_rows() {
    let all = specs();
    let nginx = all.iter().find(|s| s.id == "nginx").unwrap();
    let ps = vec![
        (120u32, "nginx".to_string(), "nginx: master process /usr/sbin/nginx -c /etc/nginx/nginx.conf".to_string(), Some("/usr/sbin/nginx".to_string())),
        (7u32, "bash".to_string(), "bash".to_string(), None),
    ];
    let units = vec![("nginx.service".to_string(), "loaded/active/running".to_string())];
    let ports = vec![("80".to_string(), "tcp listen users:((\"other\"))".to_string())];
    let hit = collect_hit(nginx, &strings(&["/usr/sbin/nginx"]), "nginx version: nginx/1.24".to_string(), &vec![], &ps, &units, &ports);
    assert_eq!(hit.pids, strings(&["120"]));
    assert_eq!(hit.ports, strings(&["80"]));
    assert_eq!(hit.paths, strings(&["/etc/nginx/nginx.conf", "/usr/sbin/nginx"]));
    let (row, running) = middleware_row(nginx, &hit, &vec![]).unwrap();
    assert!(running);
    assert_eq!(row[0], "Nginx");
    assert_eq!(row[1], "运行中");
    assert_eq!(row[4], "nginx.service");
    assert_eq!(row[7], "/etc/nginx/nginx.conf, /usr/sbin/nginx");
    let kafka = all.iter().find(|s| s.id == "kafka").unwrap();
    let none = collect_hit(kafka, &vec![], String::new(), &vec![], &ps, &units, &ports);
    assert!(middleware_row(kafka, &none, &vec![]).is_none());
}

#[test]
fn middleware_inputs_are_parsed() {
    let ps = ps_processes("  1 systemd /sbin/init splash\nx bad line\n 42 java  java   -jar app.jar\n");
    assert_eq!(ps, vec![
        (1, "systemd".to_string(), "/sbin/init splash".to_string()),
        (42, "java".to_string(), "java -jar app.jar".to_string()),
    ]);
    assert_eq!(version_line(Some("nginx version: nginx/1.24.0\nmore")), "nginx version: nginx/1.24.0");
    assert_eq!(version_line(None), "");
}

#[test]
fn endpoint_addresses_use_defaults_for_blank_values() {
    let mut cfg = endpoint();
    assert_eq!(cfg.address("127.0.0.1", "6379"), ("127.0.0.1".to_string(), "6379".to_string()));
    assert_eq!(cfg.base_url("http", "127.0.0.1", "9200"), "http://127.0.0.1:9200");
    assert_eq!(kafka_bootstrap(&cfg), "127.0.0.1:9092");
    cfg.host = " 10.0.0.5 ".to_string();
    cfg.url = " https://es.local:9200// ".to_string();
    assert_eq!(cfg.address("127.0.0.1", "9200").0, "10.0.0.5");
    assert_eq!(cfg.base_url("http", "127.0.0.1", "9200"), "https://es.local:9200");
    assert_eq!(kafka_bootstrap(&cfg), "https://es.local:9200//");
    assert_eq!(mysql_auth(&cfg), "");
    cfg.username = "root".to_string();
    cfg.password = "p w".to_string();
    assert_eq!(mysql_auth(&cfg), "-u root -p'p w'");
}

#[test]
fn check_tables_number_filter_and_cut_lines() {
    let rows = numbered_lines(Some("a\nb"));
    assert_eq!(rows, vec![strings(&["1", "a"]), strings(&["2", "b"])]);
    assert!(numbered_lines(None).is_empty());
    let long = "x".repeat(300);
    assert_eq!(numbered_lines(Some(&long))[0][1].chars().count(), 263);
    let kv = kv_rows(Some("Uptime 100\nThreads_connected 5 now\n"), &["Threads_connected", "Missing", "Uptime"]);
    assert_eq!(kv, vec![strings(&["Threads_connected", "5 now"]), strings(&["Uptime", "100"])]);
    let ctx = context_rows("worker_processes 4;\n  Listen 80;\n# nothing\n", &["listen", "WORKER"]);
    assert_eq!(ctx, vec![strings(&["1", "worker_processes 4;"]), strings(&["2", "Listen 80;"])]);
}

#[test]
fn open_ports_and_kernel_settings() {
    let rows = open_port_rows("Netid State Recv-Q Send-Q Local Peer Process\ntcp LISTEN 0 128 0.0.0.0:22 0.0.0.0:* users:((\"sshd\",pid=1,fd=3))\nudp UNCONN 0\n");
    assert_eq!(rows, vec![("22".to_string(), "tcp".to_string(), "\"sshd\",pid=1,fd=3".to_string())]);
    assert_eq!(kernel_param_list().len(), 7);
    assert_eq!(kernel_param_status("net.ipv4.tcp_syncookies", "1"), "ok");
    assert_eq!(kernel_param_status("net.ipv4.conf.all.rp_filter", "0"), "warn");
    assert_eq!(kernel_param_status("kernel.randomize_va_space", "2"), "ok");
    assert_eq!(kernel_param_status("kernel.randomize_va_space", "1"), "warn");
    assert_eq!(kernel_param_status("kernel.randomize_va_space", "0"), "error");
    assert_eq!(kernel_param_status("kernel.exec-shield", "1"), "info");
    assert_eq!(sysctl_path("net.ipv4.tcp_syncookies"), "/proc/sys/net/ipv4/tcp_syncookies");
}

#[test]
fn service_states_and_path_texts() {
    assert_eq!(systemctl_state_text("active\n"), Some("运行中"));
    assert_eq!(systemctl_state_text("inactive"), Some("已停止"));
    assert_eq!(systemctl_state_text("unknown"), None);
    assert_eq!(service_state_text(Some("sshd is Running")), "运行中");
    assert_eq!(service_state_text(Some("stopped")), "已停止");
    assert_eq!(service_state_text(Some("?")), "未安装");
    assert_eq!(service_state_text(None), "未安装");
    assert_eq!(path_text(Some("/etc/x")), "/etc/x");
    assert_eq!(path_text(None), "未推断到");
    assert_eq!(path_text_if_available(None, false), "未检测到程序，跳过路径推断");
}

#[test]
fn overrides_switch_off_or_rewrite_findings() {
    let findings = vec![finding("resource.cpu.critical", "error"), finding("resource.memory.warning", "warn"), finding("disk.usage", "warn")];
    let overrides = vec![
        ("resource.cpu.critical".to_string(), RuleOverride { enabled: Some(false), level: None, title: None, summary: None, suggestion: None, commands: None }),
        ("resource.memory".to_string(), RuleOverride { enabled: Some(true), level: Some("error".to_string()), title: Some(String::new()), summary: None, suggestion: Some("新建议".to_string()), commands: Some(vec![]) }),
    ];
    let out = apply_overrides(findings, &overrides);
    assert_eq!(out.len(), 2);
    assert_eq!(out[0].rule_id, "resource.memory.warning");
    assert_eq!(out[0].level, "error");
    assert_eq!(out[0].title, "标题");
    assert_eq!(out[0].suggestion, "新建议");
    assert!(out[0].commands.is_empty());
    assert_eq!(out[1].rule_id, "disk.usage");
    assert_eq!(out[1].suggestion, "原建议");
    let same = apply_overrides(vec![finding("a.b", "warn")], &vec![]);
    assert_eq!(same[0].level, "warn");
    assert_eq!(same[0].commands, vec!["top".to_string()]);
}

#[test]
fn pdf_objects_are_found_where_the_cross_reference_table_says() {
    let lines: Vec<String> = (0..50).map(|i| format!("第 {} 行 line", i)).collect();
    let pdf = dm::cli::pdf::build_cjk_pdf(&lines);
    assert!(pdf.starts_with(b"%PDF-1.4\n%"));
    assert!(pdf.ends_with(b"%%EOF\n"));
    let text = String::from_utf8_lossy(&pdf).to_string();
    assert!(text.contains("/Kids [4 0 R 6 0 R] /Count 2"));
    let xref_at = text.rfind("xref\n0 8\n").expect("xref table");
    let rows: Vec<&str> = text[xref_at..].lines().skip(3).take(7).collect();
    for (k, row) in rows.iter().enumerate() {
        let offset: usize = row[..10].parse().unwrap();
        let head = format!("{} 0 obj\n", k + 1);
        assert_eq!(&pdf[offset..offset + head.len()], head.as_bytes());
    }
    let empty = dm::cli::pdf::build_cjk_pdf(&[]);
    let t = String::from_utf8_lossy(&empty).to_string();
    assert!(t.contains("/Kids [4 0 R] /Count 1"));
    assert!(t.contains("xref\n0 4\n"));
}

#[test]
fn check_config_items_are_read_or_refused() {
    assert_eq!(
        parse_config_items(&strings(&[" host = 10.0.0.1 ", "port=9200", "url=http://x?a=b"])),
        Ok(vec![
            ("host".to_string(), "10.0.0.1".to_string()),
            ("port".to_string(), "9200".to_string()),
            ("url".to_string(), "http://x?a=b".to_string()),
        ])
    );
    assert_eq!(parse_config_items(&vec![]), Err("至少需要一个 KEY=VALUE 配置项".to_string()));
    assert_eq!(parse_config_items(&strings(&["a=1", "novalue"])), Err("配置项格式错误: novalue，应为 KEY=VALUE".to_string()));
    assert_eq!(parse_config_items(&strings(&["bad key=1"])), Err("配置项名称非法: bad key".to_string()));
}

#[test]
fn scripts_are_filtered_and_given_their_arguments() {
    let s = Script {
        id: "disk-clean".to_string(),
        name: "Disk Cleaner".to_string(),
        description: "清理磁盘".to_string(),
        feature: String::new(),
        example: String::new(),
        path: "/s/disk-clean/disk-clean.sh".to_string(),
        metadata: None,
        modified: None,
        category: "系统维护".to_string(),
        user_managed: false,
    };
    assert!(script_matches(&s, Some("CLEAN"), None));
    assert!(script_matches(&s, None, Some("系统维护")));
    assert!(!script_matches(&s, Some("nginx"), None));
    assert!(!script_matches(&s, Some("disk"), Some("其他")));
    assert_eq!(
        script_arguments(&strings(&["-v"]), &strings(&["days=7", "force"])),
        strings(&["-v", "--days=7", "force"])
    );
}
