use dm::checks::endpoint::EndpointConfig;
use dm::checks::es_status::{
    curl_command, es_check_status, es_health_level, or_if_blank, unassigned_level,
};
use dm::checks::CheckStatus;

fn config(username: &str, password: &str) -> EndpointConfig {
    EndpointConfig {
        host: String::new(),
        port: String::new(),
        url: String::new(),
        username: username.to_string(),
        password: password.to_string(),
        service_prefix: String::new(),
        config_path: String::new(),
        data_path: String::new(),
        log_path: String::new(),
        program_path: String::new(),
    }
}

#[test]
fn es_status_follows_cluster_health() {
    assert!(matches!(es_check_status(false, Some("green")), CheckStatus::Warn));
    assert!(matches!(es_check_status(true, Some("green")), CheckStatus::Healthy));
    assert!(matches!(es_check_status(true, Some("yellow")), CheckStatus::Warn));
    assert!(matches!(es_check_status(true, Some("red")), CheckStatus::Error));
    assert!(matches!(es_check_status(true, None), CheckStatus::Warn));
    assert_eq!(es_health_level("green"), "ok");
    assert_eq!(es_health_level("red"), "error");
    assert_eq!(es_health_level("unknown"), "warn");
    assert_eq!(unassigned_level(3), "warn");
    assert_eq!(unassigned_level(0), "ok");
}

#[test]
fn curl_command_quotes_and_authenticates() {
    assert_eq!(
        curl_command("http://127.0.0.1:9200//", "/_cluster/health?pretty", &config("", "")),
        "curl -fsS --max-time 5 'http://127.0.0.1:9200/_cluster/health?pretty'"
    );
    assert_eq!(
        curl_command("http://es:9200", "", &config("elastic", "p'w")),
        "curl -fsS --max-time 5 -u elastic:'p'\\''w' http://es:9200"
    );
    assert_eq!(
        curl_command("http://es:9200", "", &config("  ", "x")),
        "curl -fsS --max-time 5 http://es:9200"
    );
}

#[test]
fn blank_setting_takes_the_alternative() {
    assert_eq!(or_if_blank("  ".to_string(), "/data".to_string()), "/data");
    assert_eq!(or_if_blank("/es".to_string(), "/data".to_string()), "/es");
}
