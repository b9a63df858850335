//! Middleware detection: the paths that a command line names, how a component is
//! recognised in text, and how the traces found are shown.
use vstd::prelude::*;
use crate::checks::listen::port_part;
use crate::text::{chars_of, lines, lines_spec, rfind_char, contains, contains_spec, contains_str, dec, dec_spec, ends_with_spec, ends_with_str, eq_str, insert_sorted_unique, join, join_spec, push_all, push_str, slice_to_vec, split_whitespace, split_ws, starts_with_spec, starts_with_str, strictly_sorted, string_of, string_views, strip_prefixes, to_lowercase, trim, trim_char, trim_char_spec, trim_spec, trim_start_matches_str, unicode_lowercase, views};

verus! {

/// A command-line word without surrounding double, then single, quotes.
pub open spec fn clean_arg(t: Seq<char>) -> Seq<char> {
    trim_char_spec(trim_char_spec(t, '"'), '\'')
}

/// The cleaned words of `toks` that are not empty, in order.
pub open spec fn nonempty_args(toks: Seq<Seq<char>>) -> Seq<Seq<char>>
    decreases toks.len(),
{
    if toks.len() == 0 {
        toks
    } else if clean_arg(toks.last()).len() > 0 {
        nonempty_args(toks.drop_last()).push(clean_arg(toks.last()))
    } else {
        nonempty_args(toks.drop_last())
    }
}

/// The words of a command line, unquoted, empty ones dropped.
pub open spec fn cmd_tokens(cmd: Seq<char>) -> Seq<Seq<char>> {
    nonempty_args(split_ws(cmd))
}

pub fn split_cmd_tokens(cmd: &str) -> (r: Vec<Vec<char>>)
    ensures
        views(r@) == cmd_tokens(cmd@),
{
    let cc = chars_of(cmd);
    let toks = split_whitespace(cc.as_slice());
    let ghost tv = views(toks@);
    let mut out: Vec<Vec<char>> = Vec::new();
    let mut i: usize = 0;
    assert(tv.take(0) =~= Seq::<Seq<char>>::empty());
    assert(views(out@) =~= Seq::<Seq<char>>::empty());
    while i < toks.len()
        invariant
            i <= toks@.len(),
            tv == views(toks@),
            views(out@) == nonempty_args(tv.take(i as int)),
        decreases toks.len() - i,
    {
        let a = trim_char(toks[i].as_slice(), '"');
        let b = trim_char(a.as_slice(), '\'');
        assert(tv.take(i + 1).drop_last() =~= tv.take(i as int));
        assert(tv.take(i + 1).last() == toks@[i as int]@);
        if b.len() > 0 {
            let ghost before = views(out@);
            out.push(b);
            assert(views(out@) =~= before.push(clean_arg(tv[i as int])));
        }
        i = i + 1;
    }
    assert(tv.take(i as int) =~= tv);
    out
}

/// A path value as it is kept: trimmed, then unquoted.
pub open spec fn path_candidate(value: Seq<char>) -> Seq<char> {
    clean_arg(trim_spec(value))
}

/// A value is kept as a path when, cleaned, it is an absolute path (not empty, not `-`).
pub open spec fn accepted_path(value: Seq<char>) -> bool {
    let c = path_candidate(value);
    c.len() > 0 && c != "-"@ && starts_with_spec(c, "/"@)
}

/// The texts held by a list of strings.
pub open spec fn contents(v: Seq<String>) -> Set<Seq<char>> {
    string_views(v).to_set()
}

pub fn add_existing_path(paths: &mut Vec<String>, value: &[char])
    requires
        strictly_sorted(string_views(old(paths)@)),
    ensures
        strictly_sorted(string_views(final(paths)@)),
        forall|y: Seq<char>|
            string_views(final(paths)@).contains(y) <==> (string_views(old(paths)@).contains(y) || (
            accepted_path(value@) && y == path_candidate(value@))),
{
    let t = trim(value);
    let a = trim_char(t.as_slice(), '"');
    let c = trim_char(a.as_slice(), '\'');
    if c.len() == 0 || eq_str(c.as_slice(), "-") {
        return;
    }
    if starts_with_str(c.as_slice(), "/") {
        insert_sorted_unique(paths, string_of(c.as_slice()));
    }
}

/// Options whose value names a path.
pub open spec fn path_prefixes() -> Seq<Seq<char>> {
    seq![
        "--config="@,
        "--conf="@,
        "--config.file="@,
        "--defaults-file="@,
        "--defaults-extra-file="@,
        "-Dspring.config.location="@,
        "--spring.config.location="@,
        "-Dlogging.file.name="@,
        "-Dlogging.file.path="@,
        "-Dpath.conf="@,
        "-Dpath.logs="@,
        "-Dcatalina.base="@,
        "-Dcatalina.home="@,
        "-Djava.io.tmpdir="@,
        "-jar="@,
    ]
}

/// Options followed by a path as the next word.
pub open spec fn path_flags() -> Seq<Seq<char>> {
    seq![
        "-c"@,
        "--config"@,
        "--conf"@,
        "--defaults-file"@,
        "--defaults-extra-file"@,
        "-f"@,
        "--pid-file"@,
    ]
}

/// The values that `tok` gives for the prefixes `ps`, in order.
pub open spec fn prefix_values(tok: Seq<char>, ps: Seq<Seq<char>>) -> Seq<Seq<char>>
    decreases ps.len(),
{
    if ps.len() == 0 {
        Seq::empty()
    } else {
        let p = ps.last();
        let rest = prefix_values(tok, ps.drop_last());
        if starts_with_spec(tok, p) {
            rest.push(strip_prefixes(tok.skip(p.len() as int), "file:"@))
        } else {
            rest
        }
    }
}

/// Whether a word names a configuration-like file by its look.
pub open spec fn looks_like_config_path(tok: Seq<char>) -> bool {
    starts_with_spec(tok, "/"@) && (contains_spec(tok, "/conf"@) || ends_with_spec(tok, ".conf"@)
        || ends_with_spec(tok, ".yml"@) || ends_with_spec(tok, ".yaml"@) || ends_with_spec(
        tok,
        ".properties"@,
    ) || ends_with_spec(tok, ".xml"@) || ends_with_spec(tok, ".jar"@))
}

/// The path values that word `i` of `toks` gives: option values, the next word after a
/// path option, and the word itself where it looks like a configuration path.
pub open spec fn token_candidates(toks: Seq<Seq<char>>, i: int) -> Seq<Seq<char>> {
    let tok = toks[i];
    let a = prefix_values(tok, path_prefixes());
    let b = if path_flags().contains(tok) && i + 1 < toks.len() {
        a.push(toks[i + 1])
    } else {
        a
    };
    if looks_like_config_path(tok) {
        b.push(strip_prefixes(tok, "file:"@))
    } else {
        b
    }
}

/// The path values of the first `n` words, in order.
pub open spec fn candidates_upto(toks: Seq<Seq<char>>, n: int) -> Seq<Seq<char>>
    decreases n,
{
    if n <= 0 {
        Seq::empty()
    } else {
        candidates_upto(toks, n - 1) + token_candidates(toks, n - 1)
    }
}

/// The paths that a command line names.
pub open spec fn cmd_path_candidates(cmd: Seq<char>) -> Seq<Seq<char>> {
    let toks = cmd_tokens(cmd);
    candidates_upto(toks, toks.len() as int)
}

fn prefix_list() -> (r: Vec<&'static str>)
    ensures
        r@.map_values(|s: &str| s@) == path_prefixes(),
{
    let r = vec![
        "--config=",
        "--conf=",
        "--config.file=",
        "--defaults-file=",
        "--defaults-extra-file=",
        "-Dspring.config.location=",
        "--spring.config.location=",
        "-Dlogging.file.name=",
        "-Dlogging.file.path=",
        "-Dpath.conf=",
        "-Dpath.logs=",
        "-Dcatalina.base=",
        "-Dcatalina.home=",
        "-Djava.io.tmpdir=",
        "-jar=",
    ];
    assert(r@.map_values(|s: &str| s@) =~= path_prefixes());
    r
}

fn flag_list() -> (r: Vec<&'static str>)
    ensures
        r@.map_values(|s: &str| s@) == path_flags(),
{
    let r = vec!["-c", "--config", "--conf", "--defaults-file", "--defaults-extra-file", "-f", "--pid-file"];
    assert(r@.map_values(|s: &str| s@) =~= path_flags());
    r
}

fn push_token_candidates(out: &mut Vec<Vec<char>>, toks: &Vec<Vec<char>>, i: usize)
    requires
        i < toks@.len(),
    ensures
        views(final(out)@) == views(old(out)@) + token_candidates(views(toks@), i as int),
{
    let ghost tv = views(toks@);
    let tok = toks[i].as_slice();
    assert(tv[i as int] == tok@);
    let ps = prefix_list();
    let ghost pv = ps@.map_values(|s: &str| s@);
    let ghost base = views(out@);
    let mut j: usize = 0;
    assert(pv.take(0) =~= Seq::<Seq<char>>::empty());
    assert(base + prefix_values(tok@, pv.take(0)) =~= base);
    while j < ps.len()
        invariant
            j <= ps@.len(),
            pv == ps@.map_values(|s: &str| s@),
            views(out@) == base + prefix_values(tok@, pv.take(j as int)),
        decreases ps.len() - j,
    {
        assert(pv.take(j + 1).drop_last() =~= pv.take(j as int));
        assert(pv.take(j + 1).last() == ps@[j as int]@);
        if starts_with_str(tok, ps[j]) {
            let pc = chars_of(ps[j]);
            let rest = slice_to_vec(tok, pc.len(), tok.len());
            assert(rest@ =~= tok@.skip(pc@.len() as int));
            let v = trim_start_matches_str(rest.as_slice(), "file:");
            let ghost before = views(out@);
            out.push(v);
            assert(views(out@) =~= before.push(v@));
        }
        j = j + 1;
    }
    assert(pv.take(j as int) =~= pv);
    let fl = flag_list();
    let ghost fv = fl@.map_values(|s: &str| s@);
    let mut is_flag = false;
    let mut k: usize = 0;
    while k < fl.len()
        invariant
            k <= fl@.len(),
            fv == fl@.map_values(|s: &str| s@),
            fv == path_flags(),
            is_flag <==> exists|m: int| 0 <= m < k && fv[m] == tok@,
        decreases fl.len() - k,
    {
        assert(fv[k as int] == fl@[k as int]@);
        if eq_str(tok, fl[k]) {
            is_flag = true;
        }
        k = k + 1;
    }
    assert(is_flag == path_flags().contains(tok@));
    if is_flag && i < toks.len() - 1 {
        let next = slice_to_vec(toks[i + 1].as_slice(), 0, toks[i + 1].len());
        assert(next@ =~= tv[i + 1]);
        let ghost before = views(out@);
        out.push(next);
        assert(views(out@) =~= before.push(tv[i + 1]));
    }
    let looks = starts_with_str(tok, "/") && (contains_str(tok, "/conf") || ends_with_str(tok, ".conf")
        || ends_with_str(tok, ".yml") || ends_with_str(tok, ".yaml") || ends_with_str(
        tok,
        ".properties",
    ) || ends_with_str(tok, ".xml") || ends_with_str(tok, ".jar"));
    if looks {
        let v = trim_start_matches_str(tok, "file:");
        let ghost before = views(out@);
        out.push(v);
        assert(views(out@) =~= before.push(v@));
    }
    assert(views(out@) =~= base + token_candidates(tv, i as int));
}

/// Adds to `paths` every absolute path that command line `cmd` names.
pub fn extract_paths_from_cmd(cmd: &str, paths: &mut Vec<String>)
    requires
        strictly_sorted(string_views(old(paths)@)),
    ensures
        strictly_sorted(string_views(final(paths)@)),
        forall|y: Seq<char>|
            string_views(final(paths)@).contains(y) <==> (string_views(old(paths)@).contains(y)
                || exists|k: int|
                0 <= k < cmd_path_candidates(cmd@).len() && accepted_path(
                    #[trigger] cmd_path_candidates(cmd@)[k],
                ) && y == path_candidate(cmd_path_candidates(cmd@)[k])),
{
    let toks = split_cmd_tokens(cmd);
    let ghost tv = views(toks@);
    let mut cands: Vec<Vec<char>> = Vec::new();
    let mut i: usize = 0;
    assert(views(cands@) =~= Seq::<Seq<char>>::empty());
    while i < toks.len()
        invariant
            i <= toks@.len(),
            tv == views(toks@),
            views(cands@) == candidates_upto(tv, i as int),
        decreases toks.len() - i,
    {
        push_token_candidates(&mut cands, &toks, i);
        i = i + 1;
    }
    let ghost cv = views(cands@);
    assert(cv == cmd_path_candidates(cmd@));
    let ghost start = string_views(paths@);
    let mut m: usize = 0;
    while m < cands.len()
        invariant
            m <= cands@.len(),
            cv == views(cands@),
            strictly_sorted(string_views(paths@)),
            forall|y: Seq<char>|
                #![trigger string_views(paths@).contains(y)]
                string_views(paths@).contains(y) <==> (start.contains(y) || exists|k: int|
                    0 <= k < m && accepted_path(#[trigger] cv[k]) && y == path_candidate(cv[k])),
        decreases cands.len() - m,
    {
        assert(cv[m as int] == cands@[m as int]@);
        let ghost old_paths = string_views(paths@);
        add_existing_path(paths, cands[m].as_slice());
        assert forall|y: Seq<char>|
            string_views(paths@).contains(y) <==> (start.contains(y) || exists|k: int|
                0 <= k < m + 1 && accepted_path(#[trigger] cv[k]) && y == path_candidate(cv[k])) by {
            assert(old_paths.contains(y) <==> (start.contains(y) || exists|k: int|
                0 <= k < m && accepted_path(#[trigger] cv[k]) && y == path_candidate(cv[k])));
            if exists|k: int| 0 <= k < m + 1 && accepted_path(#[trigger] cv[k]) && y == path_candidate(cv[k]) {
                let k = choose|k: int| 0 <= k < m + 1 && accepted_path(#[trigger] cv[k]) && y == path_candidate(cv[k]);
                if k < m {
                    assert(old_paths.contains(y));
                }
            }
            if accepted_path(cv[m as int]) && y == path_candidate(cv[m as int]) {
                assert(0 <= m < m + 1 && accepted_path(cv[m as int]) && y == path_candidate(cv[m as int]));
            }
        }
        m = m + 1;
    }
}

/// Whether `text` mentions a component: one of its patterns, or its identifier, in
/// the lowercased text.
pub open spec fn matches_spec_text(patterns: Seq<Seq<char>>, id: Seq<char>, text: Seq<char>) -> bool {
    let lower = unicode_lowercase(text);
    (exists|i: int| 0 <= i < patterns.len() && contains_spec(lower, #[trigger] patterns[i])) || contains_spec(lower, id)
}

pub fn matches_spec(patterns: &[&str], id: &str, text: &str) -> (r: bool)
    ensures
        r == matches_spec_text(patterns@.map_values(|s: &str| s@), id@, text@),
{
    let ghost pv = patterns@.map_values(|s: &str| s@);
    let tc = chars_of(text);
    let lower = to_lowercase(tc.as_slice());
    let mut i: usize = 0;
    while i < patterns.len()
        invariant
            i <= patterns@.len(),
            pv == patterns@.map_values(|s: &str| s@),
            lower@ == unicode_lowercase(text@),
            forall|k: int| 0 <= k < i ==> !contains_spec(lower@, #[trigger] pv[k]),
        decreases patterns.len() - i,
    {
        assert(pv[i as int] == patterns@[i as int]@);
        if contains_str(lower.as_slice(), patterns[i]) {
            return true;
        }
        i = i + 1;
    }
    contains_str(lower.as_slice(), id)
}

/// The values joined with `, ` in order, at most `limit` of them followed by `+n` for
/// the `n` left out; `fallback` when there are none.
pub open spec fn sorted_join_spec(values: Seq<Seq<char>>, fallback: Seq<char>, limit: nat) -> Seq<char> {
    if values.len() == 0 {
        fallback
    } else if values.len() > limit {
        join_spec(values.take(limit as int).push("+"@ + dec_spec((values.len() - limit) as nat)), ", "@)
    } else {
        join_spec(values, ", "@)
    }
}

/// `sorted_join` over values kept sorted and without repeats (as a sorted set gives them).
pub fn sorted_join(values: &Vec<String>, fallback: &str, limit: usize) -> (r: String)
    requires
        strictly_sorted(string_views(values@)),
    ensures
        r@ == sorted_join_spec(string_views(values@), fallback@, limit as nat),
{
    let ghost sv = string_views(values@);
    if values.len() == 0 {
        return fallback.to_owned();
    }
    let n = if values.len() > limit {
        limit
    } else {
        values.len()
    };
    let mut parts: Vec<Vec<char>> = Vec::new();
    let mut i: usize = 0;
    while i < n
        invariant
            i <= n,
            n <= values@.len(),
            sv == string_views(values@),
            views(parts@) == sv.take(i as int),
        decreases n - i,
    {
        let ghost before = views(parts@);
        parts.push(chars_of(values[i].as_str()));
        assert(views(parts@) =~= before.push(sv[i as int]));
        assert(sv.take(i + 1) =~= sv.take(i as int).push(sv[i as int]));
        i = i + 1;
    }
    if values.len() > limit {
        let mut extra: Vec<char> = Vec::new();
        push_str(&mut extra, "+");
        let d = dec((values.len() - limit) as u64);
        push_all(&mut extra, d.as_slice());
        let ghost before = views(parts@);
        parts.push(extra);
        assert(views(parts@) =~= before.push("+"@ + dec_spec((values.len() - limit) as nat)));
    } else {
        assert(sv.take(n as int) =~= sv);
    }
    let sep = chars_of(", ");
    let j = join(parts.as_slice(), sep.as_slice());
    string_of(j.as_slice())
}

/// What the traces of a component make of it: `Some(true)` when it runs (a process,
/// or a unit active and running), `Some(false)` when it is only installed (a command,
/// a unit or a version found), `None` when it is neither and is not shown.
pub open spec fn middleware_state_spec(
    has_pids: bool,
    unit_running: bool,
    has_commands: bool,
    has_units: bool,
    has_version: bool,
) -> Option<bool> {
    let installed = has_commands || has_units || has_version;
    let running = has_pids || unit_running;
    if !installed && !running {
        None
    } else {
        Some(running)
    }
}

/// Whether any unit state reads `active/running`.
pub fn unit_running(states: &Vec<String>) -> (r: bool)
    ensures
        r == exists|i: int| 0 <= i < states@.len() && contains_spec(#[trigger] states@[i]@, "active/running"@),
{
    let mut i: usize = 0;
    while i < states.len()
        invariant
            i <= states@.len(),
            forall|k: int| 0 <= k < i ==> !contains_spec(#[trigger] states@[k]@, "active/running"@),
        decreases states.len() - i,
    {
        let c = chars_of(states[i].as_str());
        if contains_str(c.as_slice(), "active/running") {
            return true;
        }
        i = i + 1;
    }
    false
}

pub fn middleware_state(
    has_pids: bool,
    unit_running: bool,
    has_commands: bool,
    has_units: bool,
    has_version: bool,
) -> (r: Option<bool>)
    ensures
        r == middleware_state_spec(has_pids, unit_running, has_commands, has_units, has_version),
{
    let installed = has_commands || has_units || has_version;
    let running = has_pids || unit_running;
    if !installed && !running {
        None
    } else {
        Some(running)
    }
}


/// A middleware component and the traces by which it is recognised.
pub struct MiddlewareSpec {
    pub id: &'static str,
    pub name: &'static str,
    pub patterns: Vec<&'static str>,
    pub commands: Vec<&'static str>,
    pub version_cmd: Vec<&'static str>,
    pub ports: Vec<&'static str>,
    pub config_hints: Vec<&'static str>,
}

/// The components that the middleware check looks for, in the order it lists them.
pub open spec fn middleware_ids() -> Seq<Seq<char>> {
    seq![
        "nginx"@,
        "tomcat"@,
        "redis"@,
        "mysql"@,
        "kafka"@,
        "elasticsearch"@,
        "keepalived"@,
        "rabbitmq"@,
        "mongodb"@,
        "postgresql"@,
        "zookeeper"@,
        "docker"@,
        "haproxy"@,
    ]
}

/// A component's traces as text.
pub struct SpecText {
    pub id: Seq<char>,
    pub name: Seq<char>,
    pub patterns: Seq<Seq<char>>,
    pub commands: Seq<Seq<char>>,
    pub version_cmd: Seq<Seq<char>>,
    pub ports: Seq<Seq<char>>,
    pub config_hints: Seq<Seq<char>>,
}

pub open spec fn strs(v: Seq<&str>) -> Seq<Seq<char>> {
    v.map_values(|s: &str| s@)
}

pub open spec fn spec_text(m: MiddlewareSpec) -> SpecText {
    SpecText {
        id: m.id@,
        name: m.name@,
        patterns: strs(m.patterns@),
        commands: strs(m.commands@),
        version_cmd: strs(m.version_cmd@),
        ports: strs(m.ports@),
        config_hints: strs(m.config_hints@),
    }
}

/// The components that the middleware check looks for, in the order it lists them,
/// with the names, patterns, commands, version command, usual ports and usual
/// configuration files by which each is recognised.
pub open spec fn middleware_table() -> Seq<SpecText> {
    seq![
        SpecText {
            id: "nginx"@,
            name: "Nginx"@,
            patterns: seq!["nginx"@],
            commands: seq!["nginx"@],
            version_cmd: seq!["nginx"@, "-v"@],
            ports: seq!["80"@, "443"@],
            config_hints: seq!["/etc/nginx/nginx.conf"@, "/usr/local/nginx/conf/nginx.conf"@],
        },
        SpecText {
            id: "tomcat"@,
            name: "Tomcat"@,
            patterns: seq!["tomcat"@, "catalina"@, "org.apache.catalina.startup.bootstrap"@],
            commands: seq!["catalina.sh"@, "startup.sh"@],
            version_cmd: seq!["catalina.sh"@, "version"@],
            ports: seq!["8080"@, "8009"@, "8005"@],
            config_hints: seq!["/etc/tomcat/server.xml"@, "/usr/local/tomcat/conf/server.xml"@, "/opt/tomcat/conf/server.xml"@],
        },
        SpecText {
            id: "redis"@,
            name: "Redis"@,
            patterns: seq!["redis-server"@, "redis sentinel"@],
            commands: seq!["redis-server"@, "redis-cli"@],
            version_cmd: seq!["redis-server"@, "--version"@],
            ports: seq!["6379"@, "26379"@],
            config_hints: seq!["/etc/redis/redis.conf"@, "/etc/redis.conf"@, "/usr/local/redis/redis.conf"@],
        },
        SpecText {
            id: "mysql"@,
            name: "MySQL/MariaDB"@,
            patterns: seq!["mysqld"@, "mariadbd"@, "mysql.server"@],
            commands: seq!["mysqld"@, "mysql"@, "mariadbd"@],
            version_cmd: seq!["mysql"@, "--version"@],
            ports: seq!["3306"@],
            config_hints: seq!["/etc/my.cnf"@, "/etc/mysql/my.cnf"@, "/etc/mysql/mysql.conf.d/mysqld.cnf"@],
        },
        SpecText {
            id: "kafka"@,
            name: "Kafka"@,
            patterns: seq!["kafka"@, "kafka.kafka"@, "kafka.server.kafka"@],
            commands: seq!["kafka-server-start.sh"@, "kafka-topics.sh"@],
            version_cmd: seq!["kafka-topics.sh"@, "--version"@],
            ports: seq!["9092"@, "9093"@, "9094"@],
            config_hints: seq!["/etc/kafka/server.properties"@, "/opt/kafka/config/server.properties"@, "/usr/local/kafka/config/server.properties"@],
        },
        SpecText {
            id: "elasticsearch"@,
            name: "Elasticsearch"@,
            patterns: seq!["elasticsearch"@, "org.elasticsearch.bootstrap"@],
            commands: seq!["elasticsearch"@],
            version_cmd: seq!["elasticsearch"@, "--version"@],
            ports: seq!["9200"@, "9300"@],
            config_hints: seq!["/etc/elasticsearch/elasticsearch.yml"@, "/usr/local/elasticsearch/config/elasticsearch.yml"@, "/opt/elasticsearch/config/elasticsearch.yml"@],
        },
        SpecText {
            id: "keepalived"@,
            name: "Keepalived"@,
            patterns: seq!["keepalived"@],
            commands: seq!["keepalived"@],
            version_cmd: seq!["keepalived"@, "--version"@],
            ports: seq!["112"@],
            config_hints: seq!["/etc/keepalived/keepalived.conf"@],
        },
        SpecText {
            id: "rabbitmq"@,
            name: "RabbitMQ"@,
            patterns: seq!["rabbitmq"@, "beam.smp"@],
            commands: seq!["rabbitmqctl"@, "rabbitmq-server"@],
            version_cmd: seq!["rabbitmqctl"@, "version"@],
            ports: seq!["5672"@, "15672"@, "25672"@],
            config_hints: seq!["/etc/rabbitmq/rabbitmq.conf"@, "/etc/rabbitmq/advanced.config"@],
        },
        SpecText {
            id: "mongodb"@,
            name: "MongoDB"@,
            patterns: seq!["mongod"@, "mongodb"@],
            commands: seq!["mongod"@, "mongo"@, "mongosh"@],
            version_cmd: seq!["mongod"@, "--version"@],
            ports: seq!["27017"@],
            config_hints: seq!["/etc/mongod.conf"@, "/etc/mongodb.conf"@],
        },
        SpecText {
            id: "postgresql"@,
            name: "PostgreSQL"@,
            patterns: seq!["postgres"@, "postmaster"@],
            commands: seq!["postgres"@, "psql"@],
            version_cmd: seq!["psql"@, "--version"@],
            ports: seq!["5432"@],
            config_hints: seq!["/etc/postgresql"@, "/var/lib/pgsql/data/postgresql.conf"@],
        },
        SpecText {
            id: "zookeeper"@,
            name: "ZooKeeper"@,
            patterns: seq!["zookeeper"@, "quorumpeermain"@],
            commands: seq!["zkServer.sh"@],
            version_cmd: seq!["zkServer.sh"@, "version"@],
            ports: seq!["2181"@, "2888"@, "3888"@],
            config_hints: seq!["/etc/zookeeper/zoo.cfg"@, "/opt/zookeeper/conf/zoo.cfg"@, "/usr/local/zookeeper/conf/zoo.cfg"@],
        },
        SpecText {
            id: "docker"@,
            name: "Docker/Containerd"@,
            patterns: seq!["dockerd"@, "containerd"@],
            commands: seq!["docker"@, "containerd"@, "dockerd"@],
            version_cmd: seq!["docker"@, "--version"@],
            ports: Seq::<Seq<char>>::empty(),
            config_hints: seq!["/etc/docker/daemon.json"@, "/etc/containerd/config.toml"@],
        },
        SpecText {
            id: "haproxy"@,
            name: "HAProxy"@,
            patterns: seq!["haproxy"@],
            commands: seq!["haproxy"@],
            version_cmd: seq!["haproxy"@, "-v"@],
            ports: seq!["80"@, "443"@],
            config_hints: seq!["/etc/haproxy/haproxy.cfg"@],
        },
    ]
}

pub fn specs() -> (r: Vec<MiddlewareSpec>)
    ensures
        r@.map_values(|m: MiddlewareSpec| spec_text(m)) == middleware_table(),
        r@.len() == middleware_ids().len(),
        forall|i: int| 0 <= i < r@.len() ==> (#[trigger] r@[i]).id@ == middleware_ids()[i],
{
    let r = vec![
        MiddlewareSpec {
            id: "nginx",
            name: "Nginx",
            patterns: vec!["nginx"],
            commands: vec!["nginx"],
            version_cmd: vec!["nginx", "-v"],
            ports: vec!["80", "443"],
            config_hints: vec!["/etc/nginx/nginx.conf", "/usr/local/nginx/conf/nginx.conf"],
        },
        MiddlewareSpec {
            id: "tomcat",
            name: "Tomcat",
            patterns: vec![
                "tomcat",
                "catalina",
                "org.apache.catalina.startup.bootstrap",
            ],
            commands: vec!["catalina.sh", "startup.sh"],
            version_cmd: vec!["catalina.sh", "version"],
            ports: vec!["8080", "8009", "8005"],
            config_hints: vec![
                "/etc/tomcat/server.xml",
                "/usr/local/tomcat/conf/server.xml",
                "/opt/tomcat/conf/server.xml",
            ],
        },
        MiddlewareSpec {
            id: "redis",
            name: "Redis",
            patterns: vec!["redis-server", "redis sentinel"],
            commands: vec!["redis-server", "redis-cli"],
            version_cmd: vec!["redis-server", "--version"],
            ports: vec!["6379", "26379"],
            config_hints: vec![
                "/etc/redis/redis.conf",
                "/etc/redis.conf",
                "/usr/local/redis/redis.conf",
            ],
        },
        MiddlewareSpec {
            id: "mysql",
            name: "MySQL/MariaDB",
            patterns: vec!["mysqld", "mariadbd", "mysql.server"],
            commands: vec!["mysqld", "mysql", "mariadbd"],
            version_cmd: vec!["mysql", "--version"],
            ports: vec!["3306"],
            config_hints: vec![
                "/etc/my.cnf",
                "/etc/mysql/my.cnf",
                "/etc/mysql/mysql.conf.d/mysqld.cnf",
            ],
        },
        MiddlewareSpec {
            id: "kafka",
            name: "Kafka",
            patterns: vec!["kafka", "kafka.kafka", "kafka.server.kafka"],
            commands: vec!["kafka-server-start.sh", "kafka-topics.sh"],
            version_cmd: vec!["kafka-topics.sh", "--version"],
            ports: vec!["9092", "9093", "9094"],
            config_hints: vec![
                "/etc/kafka/server.properties",
                "/opt/kafka/config/server.properties",
                "/usr/local/kafka/config/server.properties",
            ],
        },
        MiddlewareSpec {
            id: "elasticsearch",
            name: "Elasticsearch",
            patterns: vec!["elasticsearch", "org.elasticsearch.bootstrap"],
            commands: vec!["elasticsearch"],
            version_cmd: vec!["elasticsearch", "--version"],
            ports: vec!["9200", "9300"],
            config_hints: vec![
                "/etc/elasticsearch/elasticsearch.yml",
                "/usr/local/elasticsearch/config/elasticsearch.yml",
                "/opt/elasticsearch/config/elasticsearch.yml",
            ],
        },
        MiddlewareSpec {
            id: "keepalived",
            name: "Keepalived",
            patterns: vec!["keepalived"],
            commands: vec!["keepalived"],
            version_cmd: vec!["keepalived", "--version"],
            ports: vec!["112"],
            config_hints: vec!["/etc/keepalived/keepalived.conf"],
        },
        MiddlewareSpec {
            id: "rabbitmq",
            name: "RabbitMQ",
            patterns: vec!["rabbitmq", "beam.smp"],
            commands: vec!["rabbitmqctl", "rabbitmq-server"],
            version_cmd: vec!["rabbitmqctl", "version"],
            ports: vec!["5672", "15672", "25672"],
            config_hints: vec![
                "/etc/rabbitmq/rabbitmq.conf",
                "/etc/rabbitmq/advanced.config",
            ],
        },
        MiddlewareSpec {
            id: "mongodb",
            name: "MongoDB",
            patterns: vec!["mongod", "mongodb"],
            commands: vec!["mongod", "mongo", "mongosh"],
            version_cmd: vec!["mongod", "--version"],
            ports: vec!["27017"],
            config_hints: vec!["/etc/mongod.conf", "/etc/mongodb.conf"],
        },
        MiddlewareSpec {
            id: "postgresql",
            name: "PostgreSQL",
            patterns: vec!["postgres", "postmaster"],
            commands: vec!["postgres", "psql"],
            version_cmd: vec!["psql", "--version"],
            ports: vec!["5432"],
            config_hints: vec!["/etc/postgresql", "/var/lib/pgsql/data/postgresql.conf"],
        },
        MiddlewareSpec {
            id: "zookeeper",
            name: "ZooKeeper",
            patterns: vec!["zookeeper", "quorumpeermain"],
            commands: vec!["zkServer.sh"],
            version_cmd: vec!["zkServer.sh", "version"],
            ports: vec!["2181", "2888", "3888"],
            config_hints: vec![
                "/etc/zookeeper/zoo.cfg",
                "/opt/zookeeper/conf/zoo.cfg",
                "/usr/local/zookeeper/conf/zoo.cfg",
            ],
        },
        MiddlewareSpec {
            id: "docker",
            name: "Docker/Containerd",
            patterns: vec!["dockerd", "containerd"],
            commands: vec!["docker", "containerd", "dockerd"],
            version_cmd: vec!["docker", "--version"],
            ports: vec![],
            config_hints: vec!["/etc/docker/daemon.json", "/etc/containerd/config.toml"],
        },
        MiddlewareSpec {
            id: "haproxy",
            name: "HAProxy",
            patterns: vec!["haproxy"],
            commands: vec!["haproxy"],
            version_cmd: vec!["haproxy", "-v"],
            ports: vec!["80", "443"],
            config_hints: vec!["/etc/haproxy/haproxy.cfg"],
        },
    ];
    proof {
        assert forall|i: int| 0 <= i < r@.len() implies (#[trigger] r@[i]).id@ == middleware_ids()[i] by {
        }
        assert(strs(r@[0].patterns@) =~= middleware_table()[0].patterns);
        assert(strs(r@[0].commands@) =~= middleware_table()[0].commands);
        assert(strs(r@[0].version_cmd@) =~= middleware_table()[0].version_cmd);
        assert(strs(r@[0].ports@) =~= middleware_table()[0].ports);
        assert(strs(r@[0].config_hints@) =~= middleware_table()[0].config_hints);
        assert(spec_text(r@[0]) == middleware_table()[0]);
        assert(strs(r@[1].patterns@) =~= middleware_table()[1].patterns);
        assert(strs(r@[1].commands@) =~= middleware_table()[1].commands);
        assert(strs(r@[1].version_cmd@) =~= middleware_table()[1].version_cmd);
        assert(strs(r@[1].ports@) =~= middleware_table()[1].ports);
        assert(strs(r@[1].config_hints@) =~= middleware_table()[1].config_hints);
        assert(spec_text(r@[1]) == middleware_table()[1]);
        assert(strs(r@[2].patterns@) =~= middleware_table()[2].patterns);
        assert(strs(r@[2].commands@) =~= middleware_table()[2].commands);
        assert(strs(r@[2].version_cmd@) =~= middleware_table()[2].version_cmd);
        assert(strs(r@[2].ports@) =~= middleware_table()[2].ports);
        assert(strs(r@[2].config_hints@) =~= middleware_table()[2].config_hints);
        assert(spec_text(r@[2]) == middleware_table()[2]);
        assert(strs(r@[3].patterns@) =~= middleware_table()[3].patterns);
        assert(strs(r@[3].commands@) =~= middleware_table()[3].commands);
        assert(strs(r@[3].version_cmd@) =~= middleware_table()[3].version_cmd);
        assert(strs(r@[3].ports@) =~= middleware_table()[3].ports);
        assert(strs(r@[3].config_hints@) =~= middleware_table()[3].config_hints);
        assert(spec_text(r@[3]) == middleware_table()[3]);
        assert(strs(r@[4].patterns@) =~= middleware_table()[4].patterns);
        assert(strs(r@[4].commands@) =~= middleware_table()[4].commands);
        assert(strs(r@[4].version_cmd@) =~= middleware_table()[4].version_cmd);
        assert(strs(r@[4].ports@) =~= middleware_table()[4].ports);
        assert(strs(r@[4].config_hints@) =~= middleware_table()[4].config_hints);
        assert(spec_text(r@[4]) == middleware_table()[4]);
        assert(strs(r@[5].patterns@) =~= middleware_table()[5].patterns);
        assert(strs(r@[5].commands@) =~= middleware_table()[5].commands);
        assert(strs(r@[5].version_cmd@) =~= middleware_table()[5].version_cmd);
        assert(strs(r@[5].ports@) =~= middleware_table()[5].ports);
        assert(strs(r@[5].config_hints@) =~= middleware_table()[5].config_hints);
        assert(spec_text(r@[5]) == middleware_table()[5]);
        assert(strs(r@[6].patterns@) =~= middleware_table()[6].patterns);
        assert(strs(r@[6].commands@) =~= middleware_table()[6].commands);
        assert(strs(r@[6].version_cmd@) =~= middleware_table()[6].version_cmd);
        assert(strs(r@[6].ports@) =~= middleware_table()[6].ports);
        assert(strs(r@[6].config_hints@) =~= middleware_table()[6].config_hints);
        assert(spec_text(r@[6]) == middleware_table()[6]);
        assert(strs(r@[7].patterns@) =~= middleware_table()[7].patterns);
        assert(strs(r@[7].commands@) =~= middleware_table()[7].commands);
        assert(strs(r@[7].version_cmd@) =~= middleware_table()[7].version_cmd);
        assert(strs(r@[7].ports@) =~= middleware_table()[7].ports);
        assert(strs(r@[7].config_hints@) =~= middleware_table()[7].config_hints);
        assert(spec_text(r@[7]) == middleware_table()[7]);
        assert(strs(r@[8].patterns@) =~= middleware_table()[8].patterns);
        assert(strs(r@[8].commands@) =~= middleware_table()[8].commands);
        assert(strs(r@[8].version_cmd@) =~= middleware_table()[8].version_cmd);
        assert(strs(r@[8].ports@) =~= middleware_table()[8].ports);
        assert(strs(r@[8].config_hints@) =~= middleware_table()[8].config_hints);
        assert(spec_text(r@[8]) == middleware_table()[8]);
        assert(strs(r@[9].patterns@) =~= middleware_table()[9].patterns);
        assert(strs(r@[9].commands@) =~= middleware_table()[9].commands);
        assert(strs(r@[9].version_cmd@) =~= middleware_table()[9].version_cmd);
        assert(strs(r@[9].ports@) =~= middleware_table()[9].ports);
        assert(strs(r@[9].config_hints@) =~= middleware_table()[9].config_hints);
        assert(spec_text(r@[9]) == middleware_table()[9]);
        assert(strs(r@[10].patterns@) =~= middleware_table()[10].patterns);
        assert(strs(r@[10].commands@) =~= middleware_table()[10].commands);
        assert(strs(r@[10].version_cmd@) =~= middleware_table()[10].version_cmd);
        assert(strs(r@[10].ports@) =~= middleware_table()[10].ports);
        assert(strs(r@[10].config_hints@) =~= middleware_table()[10].config_hints);
        assert(spec_text(r@[10]) == middleware_table()[10]);
        assert(strs(r@[11].patterns@) =~= middleware_table()[11].patterns);
        assert(strs(r@[11].commands@) =~= middleware_table()[11].commands);
        assert(strs(r@[11].version_cmd@) =~= middleware_table()[11].version_cmd);
        assert(strs(r@[11].ports@) =~= middleware_table()[11].ports);
        assert(strs(r@[11].config_hints@) =~= middleware_table()[11].config_hints);
        assert(spec_text(r@[11]) == middleware_table()[11]);
        assert(strs(r@[12].patterns@) =~= middleware_table()[12].patterns);
        assert(strs(r@[12].commands@) =~= middleware_table()[12].commands);
        assert(strs(r@[12].version_cmd@) =~= middleware_table()[12].version_cmd);
        assert(strs(r@[12].ports@) =~= middleware_table()[12].ports);
        assert(strs(r@[12].config_hints@) =~= middleware_table()[12].config_hints);
        assert(spec_text(r@[12]) == middleware_table()[12]);
        assert(r@.map_values(|m: MiddlewareSpec| spec_text(m)) =~= middleware_table());
    }
    r
}

/// The configuration text shown for a component: the paths found, else the usual
/// configuration files that exist (`existing`), else `-`.
pub open spec fn config_hint_spec(paths: Seq<Seq<char>>, existing: Seq<Seq<char>>) -> Seq<char> {
    if paths.len() > 0 {
        sorted_join_spec(paths, "-"@, 4)
    } else if existing.len() == 0 {
        "-"@
    } else {
        join_spec(existing, ", "@)
    }
}

pub fn config_hint(paths: &Vec<String>, existing: &Vec<String>) -> (r: String)
    requires
        strictly_sorted(string_views(paths@)),
    ensures
        r@ == config_hint_spec(string_views(paths@), string_views(existing@)),
{
    if paths.len() > 0 {
        return sorted_join(paths, "-", 4);
    }
    if existing.len() == 0 {
        return "-".to_owned();
    }
    let ghost ev = string_views(existing@);
    let mut parts: Vec<Vec<char>> = Vec::new();
    let mut i: usize = 0;
    while i < existing.len()
        invariant
            i <= existing@.len(),
            ev == string_views(existing@),
            views(parts@) == ev.take(i as int),
        decreases existing.len() - i,
    {
        let ghost before = views(parts@);
        parts.push(chars_of(existing[i].as_str()));
        assert(views(parts@) =~= before.push(ev[i as int]));
        assert(ev.take(i + 1) =~= ev.take(i as int).push(ev[i as int]));
        i = i + 1;
    }
    assert(ev.take(i as int) =~= ev);
    let sep = chars_of(", ");
    let j = join(parts.as_slice(), sep.as_slice());
    string_of(j.as_slice())
}

/// The field `i` of a line's words, `-` where the line is shorter.
pub open spec fn field_or_dash(f: Seq<Seq<char>>, i: int) -> Seq<char> {
    if i < f.len() {
        f[i]
    } else {
        "-"@
    }
}

/// The unit of a `systemctl list-units` line with its state `load/active/sub`.
pub open spec fn unit_row(line: Seq<char>) -> Option<(Seq<char>, Seq<char>)> {
    let f = split_ws(line);
    if f.len() == 0 {
        None
    } else {
        Some((f[0], field_or_dash(f, 1) + "/"@ + field_or_dash(f, 2) + "/"@ + field_or_dash(f, 3)))
    }
}

pub open spec fn rows_of<F>(ls: Seq<Seq<char>>, f: spec_fn(Seq<char>) -> Option<F>) -> Seq<F>
    decreases ls.len(),
{
    if ls.len() == 0 {
        Seq::empty()
    } else {
        let prev = rows_of(ls.drop_last(), f);
        match f(ls.last()) {
            Some(x) => prev.push(x),
            None => prev,
        }
    }
}

pub open spec fn pair_texts(v: Seq<(String, String)>) -> Seq<(Seq<char>, Seq<char>)> {
    v.map_values(|p: (String, String)| (p.0@, p.1@))
}

fn dash_or(f: &Vec<Vec<char>>, i: usize, out: &mut Vec<char>)
    ensures
        final(out)@ == old(out)@ + field_or_dash(views(f@), i as int),
{
    if i < f.len() {
        assert(views(f@)[i as int] == f@[i as int]@);
        push_all(out, f[i].as_slice());
    } else {
        push_str(out, "-");
    }
}

/// Each unit of `systemctl list-units` output with its `load/active/sub` state, in
/// order; a missing state field reads `-`.
pub fn unit_state_rows(output: &str) -> (r: Vec<(String, String)>)
    ensures
        pair_texts(r@) == rows_of(lines_spec(output@), |l: Seq<char>| unit_row(l)),
{
    let oc = chars_of(output);
    let ls = lines(oc.as_slice());
    let ghost lv = views(ls@);
    let mut out: Vec<(String, String)> = Vec::new();
    let mut i: usize = 0;
    assert(lv.take(0) =~= Seq::<Seq<char>>::empty());
    assert(pair_texts(out@) =~= Seq::<(Seq<char>, Seq<char>)>::empty());
    while i < ls.len()
        invariant
            i <= ls@.len(),
            lv == views(ls@),
            lv == lines_spec(output@),
            pair_texts(out@) == rows_of(lv.take(i as int), |l: Seq<char>| unit_row(l)),
        decreases ls.len() - i,
    {
        assert(lv.take(i + 1).drop_last() =~= lv.take(i as int));
        assert(lv.take(i + 1).last() == ls@[i as int]@);
        let f = split_whitespace(ls[i].as_slice());
        if f.len() > 0 {
            assert(views(f@)[0] == f@[0]@);
            let mut st: Vec<char> = Vec::new();
            dash_or(&f, 1, &mut st);
            push_str(&mut st, "/");
            dash_or(&f, 2, &mut st);
            push_str(&mut st, "/");
            dash_or(&f, 3, &mut st);
            let ghost before = pair_texts(out@);
            let unit = string_of(f[0].as_slice());
            let state = string_of(st.as_slice());
            out.push((unit, state));
            assert(pair_texts(out@) =~= before.push((unit@, state@)));
        }
        i = i + 1;
    }
    assert(lv.take(i as int) =~= lv);
    out
}

/// The port of a line of `ss -ltnup` (or `netstat -ltnup`) with the line lowercased:
/// the port after the last `:` of the fifth field (the fourth where there are only
/// four), trimmed, unless it is empty, `*` or `0`.
pub open spec fn port_row(line: Seq<char>) -> Option<(Seq<char>, Seq<char>)> {
    let c = split_ws(line);
    if c.len() < 4 {
        None
    } else {
        let local = if c.len() > 4 {
            c[4]
        } else {
            c[3]
        };
        let port = trim_spec(port_part(local));
        if port.len() == 0 || port == "*"@ || port == "0"@ {
            None
        } else {
            Some((port, unicode_lowercase(line)))
        }
    }
}

/// Each listening port of `ss -ltnup` output with its line lowercased, in order.
pub fn port_rows(output: &str) -> (r: Vec<(String, String)>)
    ensures
        pair_texts(r@) == rows_of(lines_spec(output@), |l: Seq<char>| port_row(l)),
{
    let oc = chars_of(output);
    let ls = lines(oc.as_slice());
    let ghost lv = views(ls@);
    let mut out: Vec<(String, String)> = Vec::new();
    let mut i: usize = 0;
    assert(lv.take(0) =~= Seq::<Seq<char>>::empty());
    assert(pair_texts(out@) =~= Seq::<(Seq<char>, Seq<char>)>::empty());
    while i < ls.len()
        invariant
            i <= ls@.len(),
            lv == views(ls@),
            lv == lines_spec(output@),
            pair_texts(out@) == rows_of(lv.take(i as int), |l: Seq<char>| port_row(l)),
        decreases ls.len() - i,
    {
        assert(lv.take(i + 1).drop_last() =~= lv.take(i as int));
        assert(lv.take(i + 1).last() == ls@[i as int]@);
        let line = ls[i].as_slice();
        let c = split_whitespace(line);
        if c.len() >= 4 {
            let k: usize = if c.len() > 4 {
                4
            } else {
                3
            };
            assert(views(c@)[k as int] == c@[k as int]@);
            let local = c[k].as_slice();
            let part: Vec<char> = match rfind_char(local, ':') {
                Some(j) => slice_to_vec(local, j + 1, local.len()),
                None => slice_to_vec(local, 0, local.len()),
            };
            assert(part@ =~= port_part(local@));
            let port = trim(part.as_slice());
            if !(port.len() == 0 || eq_str(port.as_slice(), "*") || eq_str(port.as_slice(), "0")) {
                let lower = to_lowercase(line);
                let ghost before = pair_texts(out@);
                let p = string_of(port.as_slice());
                let l = string_of(lower.as_slice());
                out.push((p, l));
                assert(pair_texts(out@) =~= before.push((p@, l@)));
            }
        }
        i = i + 1;
    }
    assert(lv.take(i as int) =~= lv);
    out
}

/// Whether a listening port counts for a component: its line names the component,
/// or the port is one of its known ports and the component was already seen by a
/// process, a unit or a command.
pub open spec fn port_belongs_spec(spec: MiddlewareSpec, port: Seq<char>, line: Seq<char>, seen: bool) -> bool {
    let by_name = matches_spec_text(spec.patterns@.map_values(|s: &str| s@), spec.id@, line);
    let by_port = exists|i: int| 0 <= i < spec.ports@.len() && #[trigger] spec.ports@[i]@ == port;
    by_name || (by_port && seen)
}

pub fn port_belongs(spec: &MiddlewareSpec, port: &str, line: &str, seen: bool) -> (r: bool)
    ensures
        r == port_belongs_spec(*spec, port@, line@, seen),
{
    if matches_spec(spec.patterns.as_slice(), spec.id, line) {
        return true;
    }
    let pc = chars_of(port);
    let mut i: usize = 0;
    while i < spec.ports.len()
        invariant
            i <= spec.ports@.len(),
            pc@ == port@,
            !matches_spec_text(spec.patterns@.map_values(|s: &str| s@), spec.id@, line@),
            forall|k: int| 0 <= k < i ==> #[trigger] spec.ports@[k]@ != port@,
        decreases spec.ports.len() - i,
    {
        if eq_str(pc.as_slice(), spec.ports[i]) {
            assert(spec.ports@[i as int]@ == port@);
            return seen;
        }
        i = i + 1;
    }
    false
}

} // verus!
