use dm::dashboard::{infer_process_path, normalize_process_status};

#[test]
fn infer_process_path_falls_back_to_absolute_command_token() {
    let path = infer_process_path("", "java -Xmx1g -jar /opt/dm/app.jar", "java");

    assert_eq!(path, "/opt/dm/app.jar");
}

#[test]
fn infer_process_path_falls_back_to_command_or_name() {
    let command_path = infer_process_path("", "python app.py --port 8080", "python");
    let name_path = infer_process_path("", "", "worker");

    assert_eq!(command_path, "python app.py --port 8080");
    assert_eq!(name_path, "worker");
}

#[test]
fn process_status_is_human_readable_with_raw_state() {
    assert_eq!(normalize_process_status("R+"), "运行(R+)");
    assert_eq!(normalize_process_status("S"), "睡眠(S)");
    assert_eq!(normalize_process_status("Z"), "僵尸(Z)");
    assert_eq!(normalize_process_status(""), "未知");
}

#[test]
fn infer_process_path_prefers_executable() {
    assert_eq!(infer_process_path("/usr/bin/java", "java -jar x.jar", "java"), "/usr/bin/java");
    assert_eq!(infer_process_path("", "  ", "  "), "unknown");
}
