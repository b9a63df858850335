//! Application settings: default locations, script search directories and relative
//! paths resolved against the base directories.
use vstd::prelude::*;
use crate::paths::{path_eq, path_eq_spec, path_join, path_join_spec};

verus! {

pub struct Config {
    pub scripts_dir: String,
    pub user_scripts_dir: String,
    pub port: u16,
    pub bind: String,
    pub theme: String,
    pub language: String,
    pub log_dir: String,
    pub data_dir: String,
}

pub fn default_port() -> (r: u16)
    ensures
        r == 3399,
{
    3399
}

pub fn default_bind() -> (r: String)
    ensures
        r@ == "0.0.0.0"@,
{
    "0.0.0.0".to_owned()
}

pub fn default_theme() -> (r: String)
    ensures
        r@ == "dark"@,
{
    "dark".to_owned()
}

pub fn default_language() -> (r: String)
    ensures
        r@ == "zh"@,
{
    "zh".to_owned()
}

/// `<base>/scripts`.
pub fn default_scripts_dir(base: &str) -> (r: String)
    ensures
        r@ == path_join_spec(base@, "scripts"@),
{
    path_join(base, "scripts")
}

/// `<home>/.dm/<leaf>`.
pub open spec fn dm_home_path(home: Seq<char>, leaf: Seq<char>) -> Seq<char> {
    path_join_spec(path_join_spec(home, ".dm"@), leaf)
}

fn dm_path(home: &str, leaf: &str) -> (r: String)
    ensures
        r@ == dm_home_path(home@, leaf@),
{
    let d = path_join(home, ".dm");
    path_join(d.as_str(), leaf)
}

pub fn default_user_scripts_dir(home: &str) -> (r: String)
    ensures
        r@ == dm_home_path(home@, "scripts"@),
{
    dm_path(home, "scripts")
}

pub fn default_log_dir(home: &str) -> (r: String)
    ensures
        r@ == dm_home_path(home@, "logs"@),
{
    dm_path(home, "logs")
}

pub fn default_data_dir(home: &str) -> (r: String)
    ensures
        r@ == dm_home_path(home@, "data"@),
{
    dm_path(home, "data")
}

pub open spec fn default_config_spec(c: Config, base: Seq<char>, home: Seq<char>) -> bool {
    &&& c.scripts_dir@ == path_join_spec(base, "scripts"@)
    &&& c.user_scripts_dir@ == dm_home_path(home, "scripts"@)
    &&& c.port == 3399
    &&& c.bind@ == "0.0.0.0"@
    &&& c.theme@ == "dark"@
    &&& c.language@ == "zh"@
    &&& c.log_dir@ == dm_home_path(home, "logs"@)
    &&& c.data_dir@ == dm_home_path(home, "data"@)
}

impl Config {
    /// The default settings for a base directory (where `scripts/` is looked for) and a
    /// home directory.
    pub fn default_for(base: &str, home: &str) -> (c: Config)
        ensures
            default_config_spec(c, base@, home@),
    {
        Config {
            scripts_dir: default_scripts_dir(base),
            user_scripts_dir: default_user_scripts_dir(home),
            port: default_port(),
            bind: default_bind(),
            theme: default_theme(),
            language: default_language(),
            log_dir: default_log_dir(home),
            data_dir: default_data_dir(home),
        }
    }

    /// The user-level settings file, `<home>/.dm/.dm.toml`.
    pub fn config_path(home: &str) -> (r: String)
        ensures
            r@ == dm_home_path(home@, ".dm.toml"@),
    {
        dm_path(home, ".dm.toml")
    }

    /// Settings read from a file, with relative directories resolved: the scripts
    /// directory against `base`, the others against `dm_home`.
    pub fn resolve_relative(self, base: &str, dm_home: &str) -> (c: Config)
        ensures
            c.scripts_dir@ == path_join_spec(base@, self.scripts_dir@),
            c.user_scripts_dir@ == path_join_spec(dm_home@, self.user_scripts_dir@),
            c.log_dir@ == path_join_spec(dm_home@, self.log_dir@),
            c.data_dir@ == path_join_spec(dm_home@, self.data_dir@),
            c.port == self.port,
            c.bind == self.bind,
            c.theme == self.theme,
            c.language == self.language,
    {
        Config {
            scripts_dir: path_join(base, self.scripts_dir.as_str()),
            user_scripts_dir: path_join(dm_home, self.user_scripts_dir.as_str()),
            port: self.port,
            bind: self.bind,
            theme: self.theme,
            language: self.language,
            log_dir: path_join(dm_home, self.log_dir.as_str()),
            data_dir: path_join(dm_home, self.data_dir.as_str()),
        }
    }
}

/// `all_script_dirs`: the project scripts directory first, then the user directory
/// unless it is the same path.
pub fn all_script_dirs(config: &Config) -> (r: Vec<String>)
    ensures
        r@.len() >= 1,
        r@[0]@ == config.scripts_dir@,
        path_eq_spec(config.user_scripts_dir@, config.scripts_dir@) ==> r@.len() == 1,
        !path_eq_spec(config.user_scripts_dir@, config.scripts_dir@) ==> r@.len() == 2 && r@[1]@
            == config.user_scripts_dir@,
{
    let mut dirs: Vec<String> = Vec::new();
    dirs.push(config.scripts_dir.clone());
    if !path_eq(config.user_scripts_dir.as_str(), config.scripts_dir.as_str()) {
        dirs.push(config.user_scripts_dir.clone());
    }
    dirs
}

} // verus!
