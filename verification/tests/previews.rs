use dm::checks::previews::{config_preview_rows, configured_or_first, log_rows};

#[test]
fn configured_path_wins_unless_blank() {
    let existing = vec!["/etc/redis/redis.conf".to_string(), "/etc/redis.conf".to_string()];
    assert_eq!(configured_or_first(" /opt/r.conf", &existing), Some(" /opt/r.conf".to_string()));
    assert_eq!(configured_or_first("  ", &existing), Some("/etc/redis/redis.conf".to_string()));
    assert_eq!(configured_or_first("", &Vec::new()), None);
}

#[test]
fn config_preview_keeps_first_lines_numbered() {
    let content: String = (1..=170).map(|i| format!("line {}\n", i)).collect();
    let rows = config_preview_rows(&content);
    assert_eq!(rows.len(), 160);
    assert_eq!(rows[0], vec!["1".to_string(), "line 1".to_string()]);
    assert_eq!(rows[159], vec!["160".to_string(), "line 160".to_string()]);
    let long = "x".repeat(230);
    let rows = config_preview_rows(&long);
    assert_eq!(rows[0][1], format!("{}...", "x".repeat(220)));
    assert!(config_preview_rows("").is_empty());
}

#[test]
fn log_rows_number_every_line() {
    let errors = vec!["error a".to_string(), "y".repeat(270)];
    let rows = log_rows(&errors);
    assert_eq!(rows.len(), 2);
    assert_eq!(rows[0], vec!["1".to_string(), "error a".to_string()]);
    assert_eq!(rows[1][0], "2");
    assert_eq!(rows[1][1], format!("{}...", "y".repeat(260)));
}
