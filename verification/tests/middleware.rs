use dm::checks::middleware::{
    add_existing_path, config_hint, extract_paths_from_cmd, matches_spec, middleware_state,
    sorted_join, specs, split_cmd_tokens, unit_running,
};

#[test]
fn command_words_are_unquoted() {
    let toks: Vec<String> = split_cmd_tokens("java \"-jar\" '/opt/a.jar'  ''")
        .into_iter()
        .map(|t| t.into_iter().collect())
        .collect();
    assert_eq!(toks, vec!["java", "-jar", "/opt/a.jar"]);
}

#[test]
fn paths_named_by_a_command_line() {
    let mut paths: Vec<String> = Vec::new();
    extract_paths_from_cmd(
        "/usr/sbin/nginx -c /etc/nginx/nginx.conf --config=file:/etc/app.yml -Dcatalina.base=/opt/tomcat x.jar /var/log/app.xml",
        &mut paths,
    );
    assert_eq!(
        paths,
        vec![
            "/etc/app.yml".to_string(),
            "/etc/nginx/nginx.conf".to_string(),
            "/opt/tomcat".to_string(),
            "/var/log/app.xml".to_string(),
        ]
    );
}

#[test]
fn relative_and_placeholder_paths_are_ignored() {
    let mut paths: Vec<String> = Vec::new();
    add_existing_path(&mut paths, &" - ".chars().collect::<Vec<_>>());
    add_existing_path(&mut paths, &"conf/a.conf".chars().collect::<Vec<_>>());
    add_existing_path(&mut paths, &" '/etc/x' ".chars().collect::<Vec<_>>());
    add_existing_path(&mut paths, &"/etc/x".chars().collect::<Vec<_>>());
    assert_eq!(paths, vec!["/etc/x".to_string()]);
}

#[test]
fn components_are_recognised_in_lowercase_text() {
    assert!(matches_spec(&["redis-server"], "redis", "/usr/bin/Redis-Server *:6379"));
    assert!(matches_spec(&["catalina"], "tomcat", "java org.apache.Catalina.startup"));
    assert!(!matches_spec(&["nginx"], "nginx", "httpd -k start"));
}

#[test]
fn sorted_join_limits_values() {
    let v = vec!["a".to_string(), "b".to_string(), "c".to_string()];
    assert_eq!(sorted_join(&v, "-", 2), "a, b, +1");
    assert_eq!(sorted_join(&v, "-", 3), "a, b, c");
    assert_eq!(sorted_join(&Vec::new(), "-", 3), "-");
    assert_eq!(config_hint(&Vec::new(), &vec!["/etc/x.conf".to_string()]), "/etc/x.conf");
    assert_eq!(config_hint(&Vec::new(), &Vec::new()), "-");
}

#[test]
fn running_installed_or_absent() {
    assert_eq!(middleware_state(false, false, false, false, false), None);
    assert_eq!(middleware_state(true, false, false, false, false), Some(true));
    assert_eq!(middleware_state(false, false, true, false, false), Some(false));
    assert!(unit_running(&vec!["loaded/active/running".to_string()]));
    assert!(!unit_running(&vec!["loaded/inactive/dead".to_string()]));
}

#[test]
fn known_components() {
    let s = specs();
    assert_eq!(s.len(), 13);
    assert_eq!(s[0].id, "nginx");
    assert_eq!(s[12].id, "haproxy");
}
