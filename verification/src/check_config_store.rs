//! Which checks take connection settings, and where those settings are kept.
use vstd::prelude::*;
use crate::config::{Config};
use crate::paths::{path_join, path_join_spec};
use crate::text::{chars_of, contains, eq_str, find_char, first_index, is_ascii_alnum, push_all, push_str, slice_to_vec, string_of, string_views, trim, trim_spec};

verus! {

/// The checks whose connection settings can be saved, imported and exported.
pub open spec fn configurable_check_ids() -> Seq<Seq<char>> {
    seq![
        "elasticsearch"@,
        "redis"@,
        "nginx"@,
        "keepalived"@,
        "mysql"@,
        "kafka"@,
        "java-service"@,
    ]
}

pub fn is_configurable_check_id(check_id: &str) -> (r: bool)
    ensures
        r == configurable_check_ids().contains(check_id@),
{
    let c = chars_of(check_id);
    let c = c.as_slice();
    let r = eq_str(c, "elasticsearch") || eq_str(c, "redis") || eq_str(c, "nginx") || eq_str(
        c,
        "keepalived",
    ) || eq_str(c, "mysql") || eq_str(c, "kafka") || eq_str(c, "java-service");
    proof {
        let ids = configurable_check_ids();
        if r {
            if check_id@ == "elasticsearch"@ { assert(ids[0] == check_id@); }
            if check_id@ == "redis"@ { assert(ids[1] == check_id@); }
            if check_id@ == "nginx"@ { assert(ids[2] == check_id@); }
            if check_id@ == "keepalived"@ { assert(ids[3] == check_id@); }
            if check_id@ == "mysql"@ { assert(ids[4] == check_id@); }
            if check_id@ == "kafka"@ { assert(ids[5] == check_id@); }
            if check_id@ == "java-service"@ { assert(ids[6] == check_id@); }
        } else {
            assert forall|i: int| 0 <= i < ids.len() implies ids[i] != check_id@ by {
                assert(ids[0] == "elasticsearch"@ && ids[1] == "redis"@ && ids[2] == "nginx"@);
            }
        }
    }
    r
}

/// The configurable checks, in the order the settings file lists them.
pub fn configurable_ids() -> (r: Vec<&'static str>)
    ensures
        r@.map_values(|s: &str| s@) == configurable_check_ids(),
{
    let r = vec!["elasticsearch", "redis", "nginx", "keepalived", "mysql", "kafka", "java-service"];
    assert(r@.map_values(|s: &str| s@) =~= configurable_check_ids());
    r
}

/// What the settings template explains.
pub const TEMPLATE_DESCRIPTION: &'static str = "DM 常规检查连接配置导入模板。program_path 是程序可执行文件完整路径，不是所在目录；config_path/log_path 是文件路径，data_path 是数据目录。路径字段可以留空，系统会根据进程、systemd、命令行参数和配置文件自动推断。";

/// The settings that the template offers for a check, with their defaults, in order;
/// none for a check that takes no settings.
pub open spec fn template_fields_spec(check_id: Seq<char>) -> Seq<(Seq<char>, Seq<char>)> {
    if check_id == "elasticsearch"@ {
        seq![
            ("url"@, "http://127.0.0.1:9200"@), ("host"@, "127.0.0.1"@), ("port"@, "9200"@), ("username"@, ""@),
            ("password"@, ""@), ("config_path"@, ""@), ("data_path"@, ""@), ("log_path"@, ""@), ("program_path"@, ""@),
        ]
    } else if check_id == "redis"@ {
        seq![
            ("host"@, "127.0.0.1"@), ("port"@, "6379"@), ("password"@, ""@), ("config_path"@, ""@),
            ("data_path"@, ""@), ("log_path"@, ""@), ("program_path"@, ""@),
        ]
    } else if check_id == "nginx"@ || check_id == "keepalived"@ {
        seq![("config_path"@, ""@), ("log_path"@, ""@), ("program_path"@, ""@)]
    } else if check_id == "mysql"@ {
        seq![
            ("host"@, "127.0.0.1"@), ("port"@, "3306"@), ("username"@, "root"@), ("password"@, ""@),
            ("config_path"@, ""@), ("data_path"@, ""@), ("log_path"@, ""@), ("program_path"@, ""@),
        ]
    } else if check_id == "kafka"@ {
        seq![
            ("host"@, "127.0.0.1"@), ("port"@, "9092"@), ("config_path"@, ""@), ("data_path"@, ""@),
            ("log_path"@, ""@), ("program_path"@, ""@),
        ]
    } else if check_id == "java-service"@ {
        seq![("service_prefix"@, ""@), ("log_path"@, ""@), ("program_path"@, ""@)]
    } else {
        Seq::empty()
    }
}

pub open spec fn field_views(v: Seq<(&str, &str)>) -> Seq<(Seq<char>, Seq<char>)> {
    v.map_values(|f: (&str, &str)| (f.0@, f.1@))
}

pub fn template_fields(check_id: &str) -> (r: Vec<(&'static str, &'static str)>)
    ensures
        field_views(r@) == template_fields_spec(check_id@),
{
    let c = chars_of(check_id);
    let c = c.as_slice();
    let r: Vec<(&'static str, &'static str)> = if eq_str(c, "elasticsearch") {
        vec![
            ("url", "http://127.0.0.1:9200"), ("host", "127.0.0.1"), ("port", "9200"), ("username", ""),
            ("password", ""), ("config_path", ""), ("data_path", ""), ("log_path", ""), ("program_path", ""),
        ]
    } else if eq_str(c, "redis") {
        vec![
            ("host", "127.0.0.1"), ("port", "6379"), ("password", ""), ("config_path", ""),
            ("data_path", ""), ("log_path", ""), ("program_path", ""),
        ]
    } else if eq_str(c, "nginx") || eq_str(c, "keepalived") {
        vec![("config_path", ""), ("log_path", ""), ("program_path", "")]
    } else if eq_str(c, "mysql") {
        vec![
            ("host", "127.0.0.1"), ("port", "3306"), ("username", "root"), ("password", ""),
            ("config_path", ""), ("data_path", ""), ("log_path", ""), ("program_path", ""),
        ]
    } else if eq_str(c, "kafka") {
        vec![
            ("host", "127.0.0.1"), ("port", "9092"), ("config_path", ""), ("data_path", ""),
            ("log_path", ""), ("program_path", ""),
        ]
    } else if eq_str(c, "java-service") {
        vec![("service_prefix", ""), ("log_path", ""), ("program_path", "")]
    } else {
        Vec::new()
    };
    assert(field_views(r@) =~= template_fields_spec(check_id@));
    r
}

/// `<data_dir>/check-configs.json`: the file that mirrors the saved connection settings.
pub fn connection_config_path(config: &Config) -> (r: String)
    ensures
        r@ == path_join_spec(config.data_dir@, "check-configs.json"@),
{
    path_join(config.data_dir.as_str(), "check-configs.json")
}

/// A setting name may hold ASCII letters and digits, `_` and `-`, and is not empty.
pub open spec fn valid_key(k: Seq<char>) -> bool {
    k.len() > 0 && forall|i: int| 0 <= i < k.len() ==> {
        let c = #[trigger] k[i];
        is_ascii_alnum(c) || c == '_' || c == '-'
    }
}

/// One `KEY=VALUE` item: the text before the first `=` trimmed as the key, the rest
/// trimmed as the value; the error that `dm check-config set` reports otherwise.
pub open spec fn config_item(item: Seq<char>) -> Result<(Seq<char>, Seq<char>), Seq<char>> {
    match first_index(item, '=') {
        None => Err("配置项格式错误: "@ + item + "，应为 KEY=VALUE"@),
        Some(k) => {
            let key = trim_spec(item.take(k));
            if valid_key(key) {
                Ok((key, trim_spec(item.skip(k + 1))))
            } else {
                Err("配置项名称非法: "@ + key)
            }
        },
    }
}

/// The items in order, or the error of the first bad one; at least one item is
/// needed.
pub open spec fn config_items_spec(items: Seq<Seq<char>>) -> Result<Seq<(Seq<char>, Seq<char>)>, Seq<char>>
    decreases items.len(),
{
    if items.len() == 0 {
        Ok(Seq::empty())
    } else {
        match config_items_spec(items.drop_last()) {
            Err(e) => Err(e),
            Ok(prev) => match config_item(items.last()) {
                Err(e) => Err(e),
                Ok(p) => Ok(prev.push(p)),
            },
        }
    }
}

fn valid_key_exec(k: &[char]) -> (r: bool)
    ensures
        r == valid_key(k@),
{
    if k.len() == 0 {
        return false;
    }
    let mut i: usize = 0;
    while i < k.len()
        invariant
            i <= k@.len(),
            forall|j: int| 0 <= j < i ==> {
                let c = #[trigger] k@[j];
                is_ascii_alnum(c) || c == '_' || c == '-'
            },
        decreases k.len() - i,
    {
        let c = k[i];
        let ok = ('0' <= c && c <= '9') || ('a' <= c && c <= 'z') || ('A' <= c && c <= 'Z') || c == '_' || c
            == '-';
        if !ok {
            return false;
        }
        i = i + 1;
    }
    true
}

/// Reads the `KEY=VALUE` items of `dm check-config set`.
pub fn parse_config_items(items: &Vec<String>) -> (r: Result<Vec<(String, String)>, String>)
    ensures
        items@.len() == 0 ==> (r matches Err(e) && e@ == "至少需要一个 KEY=VALUE 配置项"@),
        items@.len() > 0 ==> match config_items_spec(string_views(items@)) {
            Ok(ps) => r matches Ok(v) && v@.map_values(|p: (String, String)| (p.0@, p.1@)) == ps,
            Err(e) => r matches Err(x) && x@ == e,
        },
{
    if items.len() == 0 {
        return Err("至少需要一个 KEY=VALUE 配置项".to_owned());
    }
    let ghost iv = string_views(items@);
    let mut out: Vec<(String, String)> = Vec::new();
    let mut i: usize = 0;
    assert(iv.take(0) =~= Seq::<Seq<char>>::empty());
    assert(out@.map_values(|p: (String, String)| (p.0@, p.1@)) =~= Seq::<(Seq<char>, Seq<char>)>::empty());
    while i < items.len()
        invariant
            i <= items@.len(),
            iv == string_views(items@),
            config_items_spec(iv.take(i as int)) == Ok::<Seq<(Seq<char>, Seq<char>)>, Seq<char>>(
                out@.map_values(|p: (String, String)| (p.0@, p.1@)),
            ),
        decreases items.len() - i,
    {
        assert(iv.take(i + 1).drop_last() =~= iv.take(i as int));
        assert(iv.take(i + 1).last() == items@[i as int]@);
        let c = chars_of(items[i].as_str());
        match find_char(c.as_slice(), '=') {
            None => {
                let mut e = chars_of("配置项格式错误: ");
                push_str(&mut e, items[i].as_str());
                push_str(&mut e, "，应为 KEY=VALUE");
                proof {
                    lemma_prefix_error(iv, i as int);
                }
                return Err(string_of(e.as_slice()));
            },
            Some(k) => {
                let kslice = slice_to_vec(c.as_slice(), 0, k);
                let key = trim(kslice.as_slice());
                assert(kslice@ =~= c@.take(k as int));
                if !valid_key_exec(key.as_slice()) {
                    let mut e = chars_of("配置项名称非法: ");
                    push_all(&mut e, key.as_slice());
                    proof {
                        lemma_prefix_error(iv, i as int);
                    }
                    return Err(string_of(e.as_slice()));
                }
                let vslice = slice_to_vec(c.as_slice(), k + 1, c.len());
                assert(vslice@ =~= c@.skip(k + 1));
                let value = trim(vslice.as_slice());
                let ghost before = out@.map_values(|p: (String, String)| (p.0@, p.1@));
                let pair = (string_of(key.as_slice()), string_of(value.as_slice()));
                out.push(pair);
                assert(out@.map_values(|p: (String, String)| (p.0@, p.1@)) =~= before.push((pair.0@, pair.1@)));
            },
        }
        i = i + 1;
    }
    assert(iv.take(i as int) =~= iv);
    Ok(out)
}

/// Once an item is bad, the whole list is refused with that item's error.
proof fn lemma_prefix_error(iv: Seq<Seq<char>>, i: int)
    requires
        0 <= i < iv.len(),
        config_items_spec(iv.take(i)) is Ok,
        config_item(iv[i]) is Err,
    ensures
        config_items_spec(iv) == Err::<Seq<(Seq<char>, Seq<char>)>, Seq<char>>(config_item(iv[i])->Err_0),
    decreases iv.len() - i,
{
    if i + 1 == iv.len() {
        assert(iv.take(i + 1) =~= iv);
        assert(iv.drop_last() =~= iv.take(i));
    } else {
        assert(iv.drop_last().take(i) =~= iv.take(i));
        assert(iv.drop_last()[i] == iv[i]);
        lemma_prefix_error(iv.drop_last(), i);
    }
}

} // verus!
