use dm::java_analyzer::{
    aggregate_hot_frames_from_dumps, build_findings, format_duration, infer_main,
    infer_service_name, is_java_process, parse_thread_dump, JavaProcess,
};

#[test]
fn parses_thread_dump_and_hot_frames() {
    let dump = r#""http-nio-8080-exec-1" #31 nid=0x2f runnable
   java.lang.Thread.State: RUNNABLE
        at com.demo.OrderController.query(OrderController.java:42)
        at com.demo.OrderService.load(OrderService.java:88)

"worker" #32 nid=0x30 waiting
   java.lang.Thread.State: WAITING
        at java.util.concurrent.locks.LockSupport.park(LockSupport.java:1)
        at com.demo.Queue.take(Queue.java:18)
"#;
    let threads = parse_thread_dump(dump);
    assert_eq!(threads.len(), 2);
    assert_eq!(threads[0].state, "RUNNABLE");
    let hot = aggregate_hot_frames_from_dumps(&[dump.to_string()]);
    assert_eq!(hot[0].method, "com.demo.OrderController.query");
}

#[test]
fn java_process_matcher_rejects_java_word_in_url() {
    assert!(!is_java_process(
        "curl",
        "curl -s http://127.0.0.1:3400/api/java/processes"
    ));
    assert!(!is_java_process(
        "bash",
        "/bin/bash -c curl http://localhost/api/java/analyze"
    ));
    assert!(!is_java_process("rg", "rg -n Java 堆栈实时分析|未发现 Java 进程"));
    assert!(!is_java_process(
        "chrome",
        "chrome --dump-dom http://127.0.0.1:3400/#/java-analyzer"
    ));
    assert!(is_java_process(
        "java",
        "/usr/bin/java -Xmx1g -jar /opt/app/service.jar"
    ));
    assert!(is_java_process(
        "service",
        "/usr/lib/jvm/bin/java -cp app.jar com.demo.Main"
    ));
}

fn fake_process() -> JavaProcess {
    JavaProcess {
        pid: 42,
        name: "java".into(),
        service_name: "demo".into(),
        display_name: "demo".into(),
        exe: "/usr/bin/java".into(),
        cwd: "/opt/demo".into(),
        cmd: "java -Xmx512m -jar demo.jar".into(),
        main: "demo.jar".into(),
        jar: "demo.jar".into(),
        user: "root".into(),
        state: "S".into(),
        threads: 2,
        cpu_ticks: 0,
        memory_bytes: 512 * 1024 * 1024,
        heap_flags: vec!["-Xmx512m".into()],
        ports: vec!["8080".into()],
        start_time: "2026-06-10 00:00:00".into(),
        uptime: "1分".into(),
        score: 80,
        attach_available: true,
        attach_path: "/tmp/.java_pid42".into(),
    }
}

#[test]
fn rule_engine_reports_stack_depth_and_external_dependency_hotspots() {
    let mut deep_frames = String::new();
    for i in 0..85 {
        deep_frames.push_str(&format!(
            "        at com.demo.deep.Layer{i}.invoke(Layer{i}.java:{i})\n"
        ));
    }
    let dump = format!(
        r#""http-nio-8080-exec-9" #41 nid=0x41 runnable
   java.lang.Thread.State: RUNNABLE
        at okhttp3.internal.connection.RealCall.execute(RealCall.kt:153)
        at com.demo.RemoteClient.query(RemoteClient.java:27)
{deep_frames}

"blocked-worker" #42 nid=0x42 waiting
   java.lang.Thread.State: BLOCKED
        at com.demo.LockService.update(LockService.java:19)
"#
    );
    let threads = parse_thread_dump(&dump);
    let hot = aggregate_hot_frames_from_dumps(&[dump]);
    let process = fake_process();

    let findings = build_findings(&process, &threads, &hot, "", "", true, "");
    let titles = findings
        .iter()
        .map(|finding| finding.title.as_str())
        .collect::<Vec<_>>();

    assert!(titles.contains(&"调用栈深度异常"));
    assert!(titles.contains(&"外部依赖调用热点"));
}

#[test]
fn infers_main_class_after_classpath_option() {
    assert_eq!(infer_main("java -cp /tmp DmStackTarget", ""), "DmStackTarget");
    assert_eq!(
        infer_main(
            "/usr/lib/jvm/jdk-21.0.11-oracle-x64/bin/java -Xmx1g -classpath lib/* com.demo.Main --port 8080",
            ""
        ),
        "com.demo.Main"
    );
}

#[test]
fn infers_service_name_from_java_arguments() {
    assert_eq!(
        infer_service_name(
            "java -Dspring.application.name=order-api -jar /opt/app/order.jar",
            "order.jar",
            "/opt/app/order.jar",
            42
        ),
        "order-api"
    );
    assert_eq!(
        infer_service_name(
            "java -cp /tmp com.demo.StackDemo",
            "com.demo.StackDemo",
            "",
            42
        ),
        "StackDemo"
    );
    assert_eq!(
        infer_service_name(
            "java -jar /opt/app/payment-service.jar",
            "payment-service.jar",
            "/opt/app/payment-service.jar",
            42
        ),
        "payment-service"
    );
}

#[test]
fn formats_process_uptime() {
    assert_eq!(format_duration(65), "1分");
    assert_eq!(format_duration(3_900), "1时 5分");
    assert_eq!(format_duration(90_300), "1天 1时 5分");
}
