use dm::anomaly::java_runtime::{java_heap_findings, java_thread_findings};

#[test]
fn thread_count_rules() {
    let f = java_thread_findings("42", "order-service", "900");
    assert_eq!(f.len(), 1);
    assert_eq!(f[0].rule_id, "java.runtime.threads_critical.42");
    assert_eq!(f[0].level, "error");
    assert_eq!(f[0].summary, "线程数 900 已超过 800");
    assert_eq!(f[0].commands[1], "ps -eLf | awk '$2==42{print}' | wc -l");
    let f = java_thread_findings("42", "order-service", "450");
    assert_eq!(f[0].rule_id, "java.runtime.threads_high.42");
    assert_eq!(f[0].commands, vec!["jcmd 42 Thread.print | head -220", "ss -antp | grep 42"]);
    assert!(java_thread_findings("42", "x", "399").is_empty());
    assert!(java_thread_findings("42", "x", "many").is_empty());
}

#[test]
fn heap_unbounded_rule() {
    assert!(java_heap_findings("42", "tomcat", "1024.0", "-Xmx4g order.jar").is_empty());
    let f = java_heap_findings("42", "tomcat", "1024.0", "java -jar order-service.jar");
    assert_eq!(f.len(), 1);
    assert_eq!(f[0].rule_id, "java.runtime.heap_unbounded.42");
    assert_eq!(f[0].title, "Java 服务 tomcat 未识别到堆上限");
    assert_eq!(f[0].evidence[2], "内存: 1024.0MB");
    assert_eq!(f[0].commands[0], "jcmd 42 VM.flags");
}
