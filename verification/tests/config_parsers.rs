use dm::checks::elasticsearch::{es_cmd_setting, es_config_setting, infer_program_path, mask_empty};
use dm::checks::keepalived::{extract_blocks, extract_keepalived};
use dm::checks::redis::{info_rows, info_section};
use dm::checks::system::format_uptime;

#[test]
fn keepalived_lines_and_blocks() {
    let conf = "global_defs {\n  router_id LVS_1\n}\nvrrp_instance VI_1 {\n  state MASTER\n  virtual_ipaddress {\n    10.0.0.9\n  }\n}\n";
    let rows = extract_keepalived(conf, &["state", "router_id"]);
    assert_eq!(rows, vec![vec!["router_id".to_string(), "router_id LVS_1".to_string()], vec!["state".to_string(), "state MASTER".to_string()]]);
    let blocks = extract_blocks(conf, "vrrp_instance");
    assert_eq!(blocks.len(), 1);
    assert_eq!(blocks[0][0], "1");
    assert_eq!(blocks[0][1], "vrrp_instance VI_1 { | state MASTER | virtual_ipaddress { | 10.0.0.9 | } | }");
}

#[test]
fn elasticsearch_settings() {
    assert_eq!(es_cmd_setting("java -Epath.data=/data/es -Des.path.logs=/logs", "path.data").as_deref(), Some("/data/es"));
    assert_eq!(es_cmd_setting("java -Des.path.logs=/logs", "path.logs").as_deref(), Some("/logs"));
    assert_eq!(es_cmd_setting("java -Epath.data=", "path.data"), None);
    let yml = "# comment\ncluster.name: demo\npath.data: [\"/data/a\", \"/data/b\"] # two\npath.logs:\n";
    assert_eq!(es_config_setting(yml, "path.data").as_deref(), Some("\"/data/a\""));
    assert_eq!(es_config_setting(yml, "cluster.name").as_deref(), Some("demo"));
    assert_eq!(es_config_setting(yml, "path.logs"), None);
    assert_eq!(
        infer_program_path(&vec!["bash x".to_string(), "\"/usr/share/elasticsearch/bin/java\" -Xms1g".to_string()]).as_deref(),
        Some("/usr/share/elasticsearch/bin/java")
    );
    assert_eq!(mask_empty("  "), "未配置");
    assert_eq!(mask_empty("x"), "x");
}

#[test]
fn redis_info_sections() {
    let info = "# Server\r\nredis_version:7.0.0\r\n\r\n# Clients\r\nconnected_clients:3\r\nblocked_clients:0\r\n# Memory\r\nused_memory:100\r\n";
    assert_eq!(info_section(Some(info), "Clients").as_deref(), Some("connected_clients:3\nblocked_clients:0"));
    assert_eq!(info_section(Some(info), "Nope"), None);
    assert_eq!(info_section(None, "Server"), None);
    let rows = info_rows(Some(info), &["redis_version", "missing"]);
    assert_eq!(rows[0], vec!["redis_version".to_string(), "7.0.0".to_string()]);
    assert_eq!(rows[1], vec!["missing".to_string(), "-".to_string()]);
}

#[test]
fn uptime_text() {
    assert_eq!(format_uptime(90_300), "1天 1时 5分");
    assert_eq!(format_uptime(59), "0天 0时 0分");
}
