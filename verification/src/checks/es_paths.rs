//! Where an Elasticsearch node keeps its configuration, data and logs: what the
//! configured values, the process command lines and `elasticsearch.yml` say, before
//! the file system is asked.
use vstd::prelude::*;
use crate::checks::elasticsearch::{config_scan, es_cmd_scan, es_cmd_setting, es_config_setting, unquote};
use crate::java_analyzer::{eq_ignore_ascii_case, eq_ignore_ascii_case_spec};
use crate::paths::{extension, extension_spec, path_join, path_join_spec};
use crate::text::{chars_of, ends_with_spec, ends_with_str, lex_le, lex_le_exec, lines_spec, split_whitespace, split_ws, string_of, string_views, trim, trim_char, trim_spec, views};

verus! {

/// What is known of a path before the file system is asked.
pub enum PathGuess {
    /// This path.
    Exact(String),
    /// A configuration setting: the file `elasticsearch.yml` inside it where it is a
    /// directory, else the setting itself.
    SettingDir(String),
    /// The first of these that exists (for logs: the first that holds a log file).
    Search(Vec<String>),
}

/// What a guess says, as text.
pub enum GuessView {
    Exact(Seq<char>),
    SettingDir(Seq<char>),
    Search(Seq<Seq<char>>),
}

impl PathGuess {
    pub open spec fn view(&self) -> GuessView {
        match self {
            PathGuess::Exact(p) => GuessView::Exact(p@),
            PathGuess::SettingDir(p) => GuessView::SettingDir(p@),
            PathGuess::Search(v) => GuessView::Search(string_views(v@)),
        }
    }
}

/// The first of the settings `key` and `default.<key>` that a command line gives.
pub open spec fn cmd_setting(cmd: Seq<char>, key: Seq<char>) -> Option<Seq<char>> {
    match es_cmd_scan(split_ws(cmd), key) {
        Some(v) => Some(v),
        None => es_cmd_scan(split_ws(cmd), "default."@ + key),
    }
}

fn cmd_setting_exec(cmd: &str, key: &str) -> (r: Option<String>)
    ensures
        match cmd_setting(cmd@, key@) {
            Some(v) => r matches Some(s) && s@ == v,
            None => r is None,
        },
{
    match es_cmd_setting(cmd, key) {
        Some(v) => Some(v),
        None => {
            let mut d = chars_of("default.");
            crate::text::push_str(&mut d, key);
            let dk = string_of(d.as_slice());
            proof {
                reveal_strlit("default.");
            }
            assert(dk@ =~= "default."@ + key@);
            es_cmd_setting(cmd, dk.as_str())
        },
    }
}

/// The first word of a command line that, unquoted, names `elasticsearch.yml` or
/// `elasticsearch.yaml`.
pub open spec fn yml_token(toks: Seq<Seq<char>>) -> Option<Seq<char>>
    decreases toks.len(),
{
    if toks.len() == 0 {
        None
    } else {
        let t = unquote(toks[0]);
        if ends_with_spec(t, "elasticsearch.yml"@) || ends_with_spec(t, "elasticsearch.yaml"@) {
            Some(t)
        } else {
            yml_token(toks.drop_first())
        }
    }
}

/// The configuration that the command lines name, tried one after the other: a
/// `path.conf` setting (as a possible directory), else a word naming the file.
pub open spec fn config_from_cmds(cmds: Seq<Seq<char>>) -> Option<GuessView>
    decreases cmds.len(),
{
    if cmds.len() == 0 {
        None
    } else {
        match cmd_setting(cmds[0], "path.conf"@) {
            Some(p) => Some(GuessView::SettingDir(p)),
            None => match yml_token(split_ws(cmds[0])) {
                Some(t) => Some(GuessView::Exact(t)),
                None => config_from_cmds(cmds.drop_first()),
            },
        }
    }
}

/// Where the configuration is: the configured value unless blank, else what the
/// command lines name, else the first of the default locations that exists.
pub open spec fn config_guess_spec(value: Seq<char>, cmds: Seq<Seq<char>>, defaults: Seq<Seq<char>>) -> GuessView {
    if trim_spec(value).len() > 0 {
        GuessView::Exact(value)
    } else {
        match config_from_cmds(cmds) {
            Some(g) => g,
            None => GuessView::Search(defaults),
        }
    }
}

fn yml_token_exec(cmd: &str) -> (r: Option<String>)
    ensures
        match yml_token(split_ws(cmd@)) {
            Some(v) => r matches Some(s) && s@ == v,
            None => r is None,
        },
{
    let cc = chars_of(cmd);
    let toks = split_whitespace(cc.as_slice());
    let ghost tv = views(toks@);
    let mut i: usize = 0;
    assert(tv.skip(0) =~= tv);
    while i < toks.len()
        invariant
            i <= toks@.len(),
            tv == views(toks@),
            tv == split_ws(cmd@),
            yml_token(tv) == yml_token(tv.skip(i as int)),
        decreases toks.len() - i,
    {
        assert(tv.skip(i as int)[0] == toks@[i as int]@);
        assert(tv.skip(i as int).drop_first() =~= tv.skip(i + 1));
        let a = trim_char(toks[i].as_slice(), '"');
        let b = trim_char(a.as_slice(), '\'');
        if ends_with_str(b.as_slice(), "elasticsearch.yml") || ends_with_str(b.as_slice(), "elasticsearch.yaml") {
            return Some(string_of(b.as_slice()));
        }
        i = i + 1;
    }
    None
}

fn owned_all(v: &[&str]) -> (r: Vec<String>)
    ensures
        string_views(r@) == v@.map_values(|s: &str| s@),
{
    let mut out: Vec<String> = Vec::new();
    let mut i: usize = 0;
    while i < v.len()
        invariant
            i <= v@.len(),
            string_views(out@) == v@.take(i as int).map_values(|s: &str| s@),
        decreases v.len() - i,
    {
        out.push(v[i].to_owned());
        assert(v@.take(i + 1).map_values(|s: &str| s@) =~= v@.take(i as int).map_values(|s: &str| s@).push(
            v@[i as int]@,
        ));
        assert(string_views(out@) =~= string_views(out@.drop_last()).push(out@.last()@));
        i = i + 1;
    }
    assert(v@.take(i as int) =~= v@);
    out
}

fn is_blank(value: &str) -> (r: bool)
    ensures
        r == (trim_spec(value@).len() == 0),
{
    let vc = chars_of(value);
    trim(vc.as_slice()).len() == 0
}

/// Where the Elasticsearch configuration is, from the configured value, the command
/// lines of its processes and the default locations.
pub fn es_config_guess(value: &str, cmds: &Vec<String>, defaults: &[&str]) -> (r: PathGuess)
    ensures
        r.view() == config_guess_spec(value@, string_views(cmds@), defaults@.map_values(|s: &str| s@)),
{
    if !is_blank(value) {
        return PathGuess::Exact(value.to_owned());
    }
    let ghost cv = string_views(cmds@);
    let mut i: usize = 0;
    assert(cv.skip(0) =~= cv);
    while i < cmds.len()
        invariant
            i <= cmds@.len(),
            cv == string_views(cmds@),
            trim_spec(value@).len() == 0,
            config_from_cmds(cv) == config_from_cmds(cv.skip(i as int)),
        decreases cmds.len() - i,
    {
        assert(cv.skip(i as int)[0] == cmds@[i as int]@);
        assert(cv.skip(i as int).drop_first() =~= cv.skip(i + 1));
        match cmd_setting_exec(cmds[i].as_str(), "path.conf") {
            Some(p) => {
                return PathGuess::SettingDir(p);
            },
            None => {},
        }
        match yml_token_exec(cmds[i].as_str()) {
            Some(t) => {
                return PathGuess::Exact(t);
            },
            None => {},
        }
        i = i + 1;
    }
    PathGuess::Search(owned_all(defaults))
}

/// The first command line that gives `key` (or `default.<key>`).
pub open spec fn first_cmd_setting(cmds: Seq<Seq<char>>, key: Seq<char>) -> Option<Seq<char>>
    decreases cmds.len(),
{
    if cmds.len() == 0 {
        None
    } else {
        match cmd_setting(cmds[0], key) {
            Some(p) => Some(p),
            None => first_cmd_setting(cmds.drop_first(), key),
        }
    }
}

fn first_cmd_setting_exec(cmds: &Vec<String>, key: &str) -> (r: Option<String>)
    ensures
        match first_cmd_setting(string_views(cmds@), key@) {
            Some(v) => r matches Some(s) && s@ == v,
            None => r is None,
        },
{
    let ghost cv = string_views(cmds@);
    let mut i: usize = 0;
    assert(cv.skip(0) =~= cv);
    while i < cmds.len()
        invariant
            i <= cmds@.len(),
            cv == string_views(cmds@),
            first_cmd_setting(cv, key@) == first_cmd_setting(cv.skip(i as int), key@),
        decreases cmds.len() - i,
    {
        assert(cv.skip(i as int)[0] == cmds@[i as int]@);
        assert(cv.skip(i as int).drop_first() =~= cv.skip(i + 1));
        match cmd_setting_exec(cmds[i].as_str(), key) {
            Some(p) => {
                return Some(p);
            },
            None => {},
        }
        i = i + 1;
    }
    None
}

/// The setting `key` of a configuration text, where there is one.
pub open spec fn config_setting(config: Option<Seq<char>>, key: Seq<char>) -> Option<Seq<char>> {
    match config {
        Some(text) => config_scan(lines_spec(text), key),
        None => None,
    }
}

/// Where the data is: the configured value unless blank, else the first `path.data`
/// of the command lines, else that of the configuration, else the first of the
/// default data directories that exists.
pub open spec fn data_guess_spec(value: Seq<char>, cmds: Seq<Seq<char>>, config: Option<Seq<char>>) -> GuessView {
    if trim_spec(value).len() > 0 {
        GuessView::Exact(value)
    } else {
        match first_cmd_setting(cmds, "path.data"@) {
            Some(p) => GuessView::Exact(p),
            None => match config_setting(config, "path.data"@) {
                Some(p) => GuessView::Exact(p),
                None => GuessView::Search(seq!["/var/lib/elasticsearch"@, "/opt/elasticsearch/data"@]),
            },
        }
    }
}

pub fn es_data_guess(value: &str, cmds: &Vec<String>, config: Option<&str>) -> (r: PathGuess)
    ensures
        r.view() == data_guess_spec(
            value@,
            string_views(cmds@),
            match config {
                Some(c) => Some(c@),
                None => None,
            },
        ),
{
    if !is_blank(value) {
        return PathGuess::Exact(value.to_owned());
    }
    match first_cmd_setting_exec(cmds, "path.data") {
        Some(p) => PathGuess::Exact(p),
        None => {
            let from_config = match config {
                Some(text) => es_config_setting(text, "path.data"),
                None => None,
            };
            match from_config {
                Some(p) => PathGuess::Exact(p),
                None => {
                    let v = vec!["/var/lib/elasticsearch".to_owned(), "/opt/elasticsearch/data".to_owned()];
                    assert(string_views(v@) =~= seq!["/var/lib/elasticsearch"@, "/opt/elasticsearch/data"@]);
                    PathGuess::Search(v)
                },
            }
        },
    }
}

/// The `path.logs` settings of the command lines, in order.
pub open spec fn cmd_log_dirs(cmds: Seq<Seq<char>>) -> Seq<Seq<char>>
    decreases cmds.len(),
{
    if cmds.len() == 0 {
        Seq::empty()
    } else {
        let prev = cmd_log_dirs(cmds.drop_last());
        match cmd_setting(cmds.last(), "path.logs"@) {
            Some(p) => prev.push(p),
            None => prev,
        }
    }
}

/// Where the logs are: the configured value unless blank, else the directories to
/// search: the command lines' `path.logs`, the configuration's, then the default
/// log directories.
pub open spec fn log_guess_spec(value: Seq<char>, cmds: Seq<Seq<char>>, config: Option<Seq<char>>) -> GuessView {
    if trim_spec(value).len() > 0 {
        GuessView::Exact(value)
    } else {
        let from_config = match config_setting(config, "path.logs"@) {
            Some(p) => seq![p],
            None => Seq::empty(),
        };
        GuessView::Search(
            cmd_log_dirs(cmds) + from_config + seq!["/var/log/elasticsearch"@, "/opt/elasticsearch/logs"@],
        )
    }
}

pub fn es_log_guess(value: &str, cmds: &Vec<String>, config: Option<&str>) -> (r: PathGuess)
    ensures
        r.view() == log_guess_spec(
            value@,
            string_views(cmds@),
            match config {
                Some(c) => Some(c@),
                None => None,
            },
        ),
{
    if !is_blank(value) {
        return PathGuess::Exact(value.to_owned());
    }
    let ghost cv = string_views(cmds@);
    let mut dirs: Vec<String> = Vec::new();
    let mut i: usize = 0;
    assert(cv.take(0) =~= Seq::<Seq<char>>::empty());
    while i < cmds.len()
        invariant
            i <= cmds@.len(),
            cv == string_views(cmds@),
            trim_spec(value@).len() == 0,
            string_views(dirs@) == cmd_log_dirs(cv.take(i as int)),
        decreases cmds.len() - i,
    {
        assert(cv.take(i + 1).drop_last() =~= cv.take(i as int));
        assert(cv.take(i + 1).last() == cmds@[i as int]@);
        match cmd_setting_exec(cmds[i].as_str(), "path.logs") {
            Some(p) => {
                let ghost before = string_views(dirs@);
                dirs.push(p);
                assert(string_views(dirs@) =~= before.push(dirs@.last()@));
            },
            None => {},
        }
        i = i + 1;
    }
    assert(cv.take(i as int) =~= cv);
    let ghost head = string_views(dirs@);
    let from_config = match config {
        Some(text) => es_config_setting(text, "path.logs"),
        None => None,
    };
    let ghost cfg = match config {
        Some(c) => Some(c@),
        None => None,
    };
    let ghost fc = match config_setting(cfg, "path.logs"@) {
        Some(p) => seq![p],
        None => Seq::<Seq<char>>::empty(),
    };
    match from_config {
        Some(p) => {
            dirs.push(p);
        },
        None => {},
    }
    let ghost mid = string_views(dirs@);
    assert(mid =~= head + fc);
    dirs.push("/var/log/elasticsearch".to_owned());
    dirs.push("/opt/elasticsearch/logs".to_owned());
    assert(string_views(dirs@) =~= mid + seq!["/var/log/elasticsearch"@, "/opt/elasticsearch/logs"@]);
    PathGuess::Search(dirs)
}

/// Whether entry `e` (file name, whether it is a file) of directory `dir` is a log
/// file: a file whose extension is `log` in any case.
pub open spec fn is_log_entry(dir: Seq<char>, e: (String, bool)) -> bool {
    e.1 && match extension_spec(path_join_spec(dir, e.0@)) {
        Some(x) => eq_ignore_ascii_case_spec(x, "log"@),
        None => false,
    }
}

/// The log file of a log directory, given its entries (file name, whether it is a
/// file): the log file whose name comes first in `String` order.
pub fn first_log_file(dir: &str, entries: &Vec<(String, bool)>) -> (r: Option<String>)
    ensures
        match r {
            Some(p) => exists|k: int|
                0 <= k < entries@.len() && is_log_entry(dir@, #[trigger] entries@[k]) && p@ == path_join_spec(
                    dir@,
                    entries@[k].0@,
                ) && forall|j: int|
                    0 <= j < entries@.len() && is_log_entry(dir@, #[trigger] entries@[j]) ==> lex_le(
                        entries@[k].0@,
                        entries@[j].0@,
                    ),
            None => forall|j: int| 0 <= j < entries@.len() ==> !is_log_entry(dir@, #[trigger] entries@[j]),
        },
{
    let mut best: Option<usize> = None;
    let mut i: usize = 0;
    while i < entries.len()
        invariant
            i <= entries@.len(),
            match best {
                Some(k) => k < i && is_log_entry(dir@, entries@[k as int]) && forall|j: int|
                    0 <= j < i && is_log_entry(dir@, #[trigger] entries@[j]) ==> lex_le(
                        entries@[k as int].0@,
                        entries@[j].0@,
                    ),
                None => forall|j: int| 0 <= j < i ==> !is_log_entry(dir@, #[trigger] entries@[j]),
            },
        decreases entries.len() - i,
    {
        let mut is_log = false;
        if entries[i].1 {
            let p = path_join(dir, entries[i].0.as_str());
            let pc = chars_of(p.as_str());
            match extension(pc.as_slice()) {
                Some(x) => {
                    let l = chars_of("log");
                    is_log = eq_ignore_ascii_case(x.as_slice(), l.as_slice());
                },
                None => {},
            }
        }
        assert(is_log == is_log_entry(dir@, entries@[i as int]));
        if is_log {
            match best {
                None => {
                    best = Some(i);
                    proof {
                        crate::text::lemma_lex_le_total(entries@[i as int].0@, entries@[i as int].0@);
                    }
                },
                Some(k) => {
                    let a = chars_of(entries[i].0.as_str());
                    let b = chars_of(entries[k].0.as_str());
                    if !lex_le_exec(b.as_slice(), a.as_slice()) {
                        proof {
                            crate::text::lemma_lex_le_total(b@, a@);
                            crate::text::lemma_lex_le_total(a@, a@);
                            assert forall|j: int|
                                0 <= j < i + 1 && is_log_entry(dir@, #[trigger] entries@[j]) implies lex_le(
                                a@,
                                entries@[j].0@,
                            ) by {
                                if j < i {
                                    crate::text::lemma_lex_le_trans(a@, b@, entries@[j].0@);
                                }
                            }
                        }
                        best = Some(i);
                    }
                },
            }
        }
        i = i + 1;
    }
    match best {
        Some(k) => Some(path_join(dir, entries[k].0.as_str())),
        None => None,
    }
}

} // verus!
