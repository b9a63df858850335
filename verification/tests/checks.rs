use dm::checks::common::{shell_escape, status_from_bool, truncate};
use dm::checks::java_service::{is_java_process, java_has_heap_limit};
use dm::checks::service_manage::{infer_unit_from_cgroup, unit_display_name};
use dm::checks::CheckStatus;

#[test]
fn java_process_matcher_accepts_real_java_forms() {
    assert!(is_java_process(
        "java",
        "/usr/bin/java -jar /data/apps/order-service.jar"
    ));
    assert!(is_java_process(
        "catalina.sh",
        "/opt/tomcat/bin/catalina.sh run"
    ));
    assert!(is_java_process(
        "worker",
        "/usr/lib/jvm/java-17/bin/java -Xmx2g com.example.Main"
    ));
}

#[test]
fn java_process_matcher_rejects_dm_check_command() {
    assert!(!is_java_process("dm", "target/debug/dm check java-service"));
    assert!(!is_java_process(
        "bash",
        "/bin/bash -c cargo run --quiet -- check java-service"
    ));
}

#[test]
fn infers_systemd_unit_from_cgroup() {
    let content = "0::/system.slice/nginx.service\n";
    assert_eq!(
        infer_unit_from_cgroup(content).as_deref(),
        Some("nginx.service")
    );
}

#[test]
fn unit_display_name_removes_suffix() {
    assert_eq!(
        unit_display_name("redis-server.service", "redis"),
        "redis-server"
    );
    assert_eq!(unit_display_name("", "java"), "java");
}

#[test]
fn heap_limit_is_found_in_any_case() {
    assert!(java_has_heap_limit("-XMX2G -server"));
    assert!(java_has_heap_limit("-XX:MaxRAMPercentage=75"));
    assert!(!java_has_heap_limit("-Xms512m -server"));
}

#[test]
fn status_follows_outcome() {
    assert!(matches!(status_from_bool(true), CheckStatus::Healthy));
    assert!(matches!(status_from_bool(false), CheckStatus::Warn));
}

#[test]
fn truncate_keeps_short_text() {
    assert_eq!(truncate("abc", 5), "abc");
}

#[test]
fn shell_escape_quotes_single_quotes() {
    assert_eq!(shell_escape("it's"), "'it'\\''s'");
}
