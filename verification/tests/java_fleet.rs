use dm::java_analyzer::{
    fleet_add_analysis, fleet_add_failure, fleet_analyze_request, fleet_limit, fleet_percent,
    fleet_scan_finish, fleet_scan_new, heap_dump_filename, sampling_percent, sampling_plan,
    HotFrame, JavaAnalysis, JavaAnalyzeRequest, JavaFinding, JavaFleetScanRequest, JavaProcess,
};

fn process(pid: u32, service: &str) -> JavaProcess {
    JavaProcess {
        pid,
        name: "java".into(),
        service_name: service.into(),
        display_name: service.into(),
        exe: "/usr/bin/java".into(),
        cwd: "/".into(),
        cmd: "java -jar app.jar".into(),
        main: "app.jar".into(),
        jar: "app.jar".into(),
        user: "root".into(),
        state: "S".into(),
        threads: 1,
        cpu_ticks: 0,
        memory_bytes: 0,
        heap_flags: Vec::new(),
        ports: Vec::new(),
        start_time: String::new(),
        uptime: String::new(),
        score: 0,
        attach_available: true,
        attach_path: String::new(),
    }
}

fn finding(level: &str, title: &str) -> JavaFinding {
    JavaFinding {
        level: level.into(),
        title: title.into(),
        detail: "d".into(),
        suggestion: "s".into(),
    }
}

fn analysis(pid: u32, findings: Vec<JavaFinding>) -> JavaAnalysis {
    JavaAnalysis {
        process: process(pid, "svc"),
        progress: 100,
        runtime_logs: Vec::new(),
        attach_ok: true,
        attach_error: String::new(),
        thread_dump: String::new(),
        heap_info: String::new(),
        class_histogram: String::new(),
        threads: Vec::new(),
        hot_frames: vec![HotFrame {
            method: "com.demo.A.run".into(),
            count: 3,
            weight: 9,
            category: "业务代码".into(),
        }],
        samples: Vec::new(),
        findings,
        summary: vec![("服务名".into(), "svc".into())],
    }
}

#[test]
fn fleet_scan_counts_levels_of_findings() {
    let mut scan = fleet_scan_new("task-1".into(), 2);
    fleet_add_analysis(
        &mut scan,
        analysis(7, vec![finding("error", "E"), finding("warn", "W"), finding("info", "I")]),
    );
    fleet_add_failure(&mut scan, process(8, "pay"), "attach refused".into());
    fleet_scan_finish(&mut scan);
    assert_eq!(scan.errors, 2);
    assert_eq!(scan.warnings, 1);
    assert_eq!(scan.findings.len(), 4);
    assert_eq!(scan.findings[0].pid, 7);
    assert_eq!(scan.findings[3].title, "Java 进程规则扫描失败");
    assert_eq!(scan.findings[3].detail, "attach refused");
    assert_eq!(scan.analyzed, 2);
    assert_eq!(scan.progress, 100);
    assert_eq!(scan.reports[0].hot_method, "com.demo.A.run");
    assert_eq!(scan.reports[0].findings.len(), 3);
    assert!(!scan.reports[1].attach_ok);
    assert_eq!(scan.task_key, "task-1");
}

#[test]
fn sampling_is_clamped() {
    let req = JavaAnalyzeRequest { pid: 1, samples: None, interval_ms: None, include_histogram: None, cancel_key: None };
    assert_eq!(sampling_plan(&req), (3, 900, true));
    let req = JavaAnalyzeRequest { pid: 1, samples: Some(40), interval_ms: Some(10), include_histogram: Some(false), cancel_key: None };
    assert_eq!(sampling_plan(&req), (12, 200, false));
    assert_eq!(sampling_percent(1, 3), 66);
    assert_eq!(sampling_percent(3, 3), 82);
    assert_eq!(sampling_percent(12, 12), 79);
}

#[test]
fn fleet_requests_are_clamped() {
    let req = JavaFleetScanRequest { samples: None, interval_ms: Some(5000), include_histogram: None, max_processes: Some(0), cancel_key: Some("k".into()) };
    assert_eq!(fleet_limit(&req), 1);
    let a = fleet_analyze_request(&req, 9);
    assert_eq!(a.pid, 9);
    assert_eq!(a.samples, Some(2));
    assert_eq!(a.interval_ms, Some(800));
    assert_eq!(a.include_histogram, Some(true));
    assert_eq!(a.cancel_key.as_deref(), Some("k"));
    let req = JavaFleetScanRequest { samples: Some(9), interval_ms: None, include_histogram: Some(false), max_processes: None, cancel_key: None };
    assert_eq!(fleet_limit(&req), 64);
    assert_eq!(fleet_analyze_request(&req, 1).samples, Some(4));
    assert_eq!(fleet_analyze_request(&req, 1).interval_ms, Some(240));
}

#[test]
fn fleet_progress_runs_from_ten() {
    assert_eq!(fleet_percent(0, 0), 100);
    assert_eq!(fleet_percent(0, 4), 31);
    assert_eq!(fleet_percent(3, 4), 94);
}

#[test]
fn heap_dump_names_are_file_safe() {
    assert_eq!(
        heap_dump_filename("order api/v1:x", 42, "20240101120000"),
        "dm-java-heap-order_api_v1_x-42-20240101120000.hprof"
    );
}

#[test]
fn markdown_report_of_an_analysis() {
    let a = analysis(7, vec![finding("warn", "W")]);
    let objects = vec![("java.lang.String".to_string(), 10u64, "1.0 KB".to_string())];
    let text = dm::java_analyzer::report::report_text(&a, "2024-01-01 00:00:00", &objects);
    assert!(text.starts_with("# DM Java 运行时分析报告\n\n- 导出时间: 2024-01-01 00:00:00\n- PID: 7\n- 服务名: svc\n"));
    assert!(text.contains("- Attach: 正常\n- 线程: 0\n- 热点方法: 1\n\n## 异常综合分析\n\n- [warn] W\n  - 说明: d\n  - 建议: s\n"));
    assert!(text.contains("\n## CPU 热点\n\n- com.demo.A.run / 业务代码 / 命中 3 / 权重 9\n"));
    assert!(text.contains("\n## 对象占用\n\n- java.lang.String / 10 / 1.0 KB\n"));
    assert!(text.ends_with("\n## 线程摘要\n\n"));
}

#[test]
fn pdf_report_lines_of_an_analysis() {
    let mut a = analysis(7, Vec::new());
    a.heap_info = "garbage-first heap\n region size".into();
    let lines = dm::java_analyzer::report_lines::pdf_report_lines(&a, "t", "10 MB", &Vec::new());
    assert_eq!(lines[0], "DM Java 运行时分析报告");
    assert_eq!(lines[4], "监听端口: -");
    assert_eq!(lines[7], "线程: 0  热点方法: 1  进程内存: 10 MB");
    assert_eq!(lines[10], "  暂无异常结论");
    assert_eq!(lines[13], "01. com.demo.A.run | 业务代码 | 命中 3 | 权重 9");
    assert!(lines.contains(&"  garbage-first heap".to_string()));
    assert_eq!(lines.last().unwrap(), "运行日志");
}
