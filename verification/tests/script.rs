use dm::script::executor::{normalize_env_key, resolve_interpreter};
use dm::script::{discover_scripts, find_script, find_script_in, ScriptDir};
use dm::script::metadata::ScriptMetadata;

#[test]
fn resolves_common_executable_script_types() {
    let cases = [
        ("maint.sh", "bash"),
        ("maint.bash", "bash"),
        ("maint.py", "python3"),
        ("maint.python", "python3"),
        ("maint.pl", "perl"),
        ("maint.perl", "perl"),
        ("maint.expect", "expect"),
        ("maint.awk", "awk"),
    ];
    for (file, expected) in cases {
        let (cmd, args) = resolve_interpreter(file);
        assert_eq!(cmd, expected);
        assert!(args.iter().any(|arg| arg.contains(file)));
    }
}

#[test]
fn env_keys_are_shell_friendly() {
    assert_eq!(normalize_env_key("service-name"), "SERVICE_NAME");
    assert_eq!(normalize_env_key("dry_run"), "DRY_RUN");
}

fn dir(name: &str, script: Option<&str>, meta: Option<ScriptMetadata>) -> ScriptDir {
    ScriptDir {
        dir_name: name.to_string(),
        script_path: script.map(|s| s.to_string()),
        metadata: meta,
        modified: None,
    }
}

fn meta(name: &str) -> ScriptMetadata {
    ScriptMetadata {
        name: name.to_string(),
        description: "desc".to_string(),
        feature: "f".to_string(),
        example: "e".to_string(),
        version: "1.0.0".to_string(),
        author: "me".to_string(),
        category: "系统检查".to_string(),
        params: Vec::new(),
    }
}

#[test]
fn discovery_keeps_first_directory_and_sorts_by_name() {
    let entries = vec![
        dir("zeta", Some("/a/zeta/zeta.sh"), None),
        dir("alpha", None, None),
        dir("alpha", Some("/b/alpha/alpha.sh"), None),
        dir("beta", Some("/a/beta/run.py"), Some(meta("Backup"))),
        dir("zeta", Some("/b/zeta/zeta.sh"), None),
    ];
    let scripts = discover_scripts(entries);
    let names: Vec<&str> = scripts.iter().map(|s| s.name.as_str()).collect();
    assert_eq!(names, vec!["Backup", "zeta"]);
    assert_eq!(scripts[1].path, "/a/zeta/zeta.sh");
    assert_eq!(scripts[1].description, "无描述");
    assert_eq!(scripts[1].category, "未分类");
    assert_eq!(scripts[0].id, "beta");
    assert_eq!(scripts[0].category, "系统检查");
}

#[test]
fn find_script_by_id() {
    let scripts = discover_scripts(vec![dir("a", Some("/x/a/a.sh"), None), dir("b", Some("/x/b/b.sh"), None)]);
    assert_eq!(find_script(scripts, "b").map(|s| s.path), Some("/x/b/b.sh".to_string()));
    let scripts = discover_scripts(vec![dir("a", Some("/x/a/a.sh"), None)]);
    assert!(find_script(scripts, "c").is_none());
}

use dm::script::executor::{env_file_entries, parameter_environment};

#[test]
fn parameter_environment_exports_shell_friendly_names() {
    let params = vec![
        ("service-name".to_string(), "nginx".to_string()),
        ("dry_run".to_string(), "true".to_string()),
    ];

    let envs: std::collections::HashMap<String, String> = parameter_environment(&params).into_iter().collect();

    assert_eq!(
        envs.get("DM_PARAM_SERVICE_NAME").map(String::as_str),
        Some("nginx")
    );
    assert_eq!(envs.get("PARAM_DRY_RUN").map(String::as_str), Some("true"));
    assert!(envs
        .get("DM_SCRIPT_PARAMS_JSON")
        .is_some_and(|raw| raw.contains("service-name")));
}

#[test]
fn env_files_are_read() {
    let entries = env_file_entries("# c\nLANG=\"zh_CN.UTF-8\"\n =x\nPATH = /bin \nbad\n");
    assert_eq!(
        entries,
        vec![("LANG".to_string(), "zh_CN.UTF-8".to_string()), ("PATH".to_string(), "/bin".to_string())]
    );
    assert!(parameter_environment(&Vec::new()).is_empty());
}

#[test]
fn parameter_json_names_every_parameter() {
    let params = vec![
        ("service-name".to_string(), "nginx".to_string()),
        ("note".to_string(), "say \"hi\"\n".to_string()),
    ];
    let envs = parameter_environment(&params);
    let (key, json) = envs.last().unwrap();
    assert_eq!(key, "DM_SCRIPT_PARAMS_JSON");
    assert!(json.starts_with('{') && json.ends_with('}'));
    assert!(json.contains("\"service-name\":\"nginx\""));
    assert!(json.contains("\"note\":\"say \\\"hi\\\"\\n\""));
}

#[test]
fn find_script_in_takes_the_first_directory_of_the_name() {
    let entries = vec![
        dir("restart-nginx", Some("/a/restart-nginx/restart-nginx.sh"), None),
        dir("backup", Some("/a/backup/backup.sh"), None),
        dir("restart-nginx", Some("/b/restart-nginx/restart-nginx.sh"), None),
    ];
    let s = find_script_in(entries, "restart-nginx").unwrap();
    assert_eq!(s.path, "/a/restart-nginx/restart-nginx.sh");
    assert_eq!(s.name, "restart-nginx");
    assert_eq!(s.category, "未分类");
    assert!(find_script_in(vec![dir("x", None, None)], "x").is_none());
}

#[test]
fn duplicate_helpers() {
    assert_eq!(dm::script::duplicate::duplicate_id("  new-nginx "), Some("new-nginx".to_string()));
    assert_eq!(dm::script::duplicate::duplicate_id("a/b"), None);
    assert_eq!(dm::script::duplicate::duplicate_id("a\\b"), None);
    assert_eq!(dm::script::duplicate::duplicate_id("   "), None);
    assert_eq!(
        dm::script::duplicate::renamed_metadata("name = \"old\"\ndescription = \"d\"\nnamespace", "new"),
        "name = \"new\"\ndescription = \"d\"\nnamespace"
    );
    assert_eq!(dm::script::duplicate::renamed_file("old.sh", "old", "new"), Some("new.sh".to_string()));
    assert_eq!(dm::script::duplicate::renamed_file(".dm.toml", "old", "new"), None);
}
