use dm::java_analyzer::assembly::{analysis_done_message, analysis_log, analysis_summary, sample_from_dump, tally_states};
use dm::java_analyzer::parse_thread_dump;
use dm::java_analyzer::process::{
    boot_time, build_java_process, heap_flags_of, jar_of, proc_start_ticks, proc_stat_ticks,
    select_java_processes, start_secs, uid_to_user,
};

const STAT: &str = "4242 (java (worker)) S 1 4242 4242 0 -1 4194560 100 0 0 0 150 25 0 0 20 0 30 0 98765 1000 200";

#[test]
fn stat_fields_after_command_name() {
    assert_eq!(proc_stat_ticks(STAT), Some((175, 0)));
    assert_eq!(proc_start_ticks(STAT), Some(98765));
    assert_eq!(proc_stat_ticks("garbage"), None);
    assert_eq!(boot_time("cpu 1 2 3\nbtime 1700000000\nprocesses 5\n"), Some(1700000000));
    assert_eq!(start_secs(1_700_000_000, 98765, 100), 1_700_000_987);
    assert_eq!(start_secs(u64::MAX, 500, 0), u64::MAX);
}

#[test]
fn java_command_line_pieces() {
    let cmd = "java -Xmx2g -Xms1g -XX:+UseG1GC -Dserver.port=8080 -jar /opt/app/order.jar --spring.profiles.active=prod";
    assert_eq!(heap_flags_of(cmd), vec!["-Xmx2g", "-Xms1g", "-XX:+UseG1GC", "-Dserver.port=8080"]);
    assert_eq!(jar_of(cmd), "/opt/app/order.jar");
    assert_eq!(jar_of("java -cp x Main"), "");
    let many: String = (0..20).map(|i| format!("-XX:F{i} ")).collect();
    assert_eq!(heap_flags_of(&many).len(), 16);
}

#[test]
fn users_from_passwd() {
    let passwd = "root:x:0:0:root:/root:/bin/bash\napp:x:1000:1000::/home/app:/bin/sh\n";
    assert_eq!(uid_to_user(passwd, "1000"), "app");
    assert_eq!(uid_to_user(passwd, "42"), "42");
}

#[test]
fn process_record_is_built_for_java_only() {
    let status = "Name:\tjava\nState:\tS (sleeping)\nUid:\t1000\t1000\t1000\t1000\nVmRSS:\t2097152 kB\nThreads:\t42\n";
    let passwd = "app:x:1000:1000::/home/app:/bin/sh\n";
    let p = build_java_process(
        7,
        "java",
        "java -Xmx1g -Dspring.application.name=order-api -jar /opt/app/order.jar",
        "/usr/bin/java".into(),
        "/opt/app".into(),
        status,
        passwd,
        12,
        "2024-01-01 00:00:00".into(),
        "1分".into(),
        vec!["8080".into()],
        "/tmp/.java_pid7".into(),
    )
    .expect("a Java process");
    assert_eq!(p.service_name, "order-api");
    assert_eq!(p.display_name, "order-api");
    assert_eq!(p.jar, "/opt/app/order.jar");
    assert_eq!(p.memory_bytes, 2097152 * 1024);
    assert_eq!(p.threads, 42);
    assert_eq!(p.state, "S (sleeping)");
    assert_eq!(p.user, "app");
    assert_eq!(p.score, 20 + 30 + 20 + 20 + 10);
    assert!(p.attach_available);
    assert!(build_java_process(8, "bash", "bash run.sh", String::new(), String::new(), "", "", 0, String::new(), String::new(), Vec::new(), String::new()).is_none());
}

#[test]
fn process_list_is_filtered_and_ranked() {
    let mk = |pid: u32, score: u32, cmd: &str| {
        build_java_process(pid, "java", cmd, String::new(), String::new(), "", "", 0, String::new(), String::new(), Vec::new(), String::new())
            .map(|mut p| {
                p.score = score;
                p
            })
            .unwrap()
    };
    let ps = vec![mk(30, 50, "java -jar a.jar"), mk(10, 80, "java -jar b.jar"), mk(20, 50, "java -jar Order.jar")];
    let all: Vec<u32> = select_java_processes(ps, None).iter().map(|p| p.pid).collect();
    assert_eq!(all, vec![10, 20, 30]);
    let ps = vec![mk(30, 50, "java -jar a.jar"), mk(10, 80, "java -jar b.jar"), mk(20, 50, "java -jar Order.jar")];
    let found: Vec<u32> = select_java_processes(ps, Some("  ORDER ")).iter().map(|p| p.pid).collect();
    assert_eq!(found, vec![20]);
}

const DUMP: &str = "\"a\" #1 nid=0x1 runnable\n   java.lang.Thread.State: RUNNABLE\n        at x.A.run(A.java:1)\n\n\"b\" #2 nid=0x2 waiting\n   java.lang.Thread.State: WAITING\n\n\"c\" #3 nid=0x3 runnable\n   java.lang.Thread.State: RUNNABLE\n";

#[test]
fn samples_count_states() {
    let s = sample_from_dump(DUMP, "12:00:00".into());
    assert_eq!(s.runnable, 2);
    assert_eq!(s.waiting, 1);
    assert_eq!(s.blocked, 0);
    assert_eq!(s.states, vec![("RUNNABLE".to_string(), 2), ("WAITING".to_string(), 1)]);
    let threads = parse_thread_dump(DUMP);
    assert_eq!(tally_states(&threads).len(), 2);
}

#[test]
fn summary_and_logs() {
    let threads = parse_thread_dump(DUMP);
    let summary = analysis_summary(&threads, &[], true, "order", &vec!["8080".into(), "9090".into()]);
    let keys: Vec<&str> = summary.iter().map(|(k, _)| k.as_str()).collect();
    let mut sorted = keys.clone();
    sorted.sort();
    assert_eq!(keys, sorted);
    let get = |k: &str| summary.iter().find(|(key, _)| key == k).map(|(_, v)| v.clone()).unwrap();
    assert_eq!(get("线程数"), "3");
    assert_eq!(get("RUNNABLE"), "2");
    assert_eq!(get("热点方法"), "-");
    assert_eq!(get("Attach"), "可用");
    assert_eq!(get("监听端口"), "8080, 9090");
    let log = analysis_log("t".into(), "info", "parse", "m", 150);
    assert_eq!(log.percent, 100);
    assert_eq!(analysis_done_message(3, 1, 2), "分析完成: 3 个线程，1 个热点方法，2 条诊断结论");
}
