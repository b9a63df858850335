//! Service management: systemd unit names, service classification and Java detection.
use vstd::prelude::*;
use crate::text::{chars_of, contains_spec, contains_str, ends_with_spec, ends_with_str, eq_str, lines, lines_spec, parse_unsigned, parse_unsigned_spec, push_all, push_str, replace, replace_spec, split_char, split_char_spec, split_whitespace, split_ws, string_of, strip_suffixes, to_lowercase, trim, trim_char, trim_char_spec, trim_end_matches_str, trim_spec, unicode_lowercase, views};
use crate::checks::java_service::{clean_token, clean_token_spec, javaish_name, javaish_name_exec, javaish_word, javaish_word_exec};

verus! {

pub open spec fn unit_suffix(u: Seq<char>) -> bool {
    ends_with_spec(u, ".service"@) || ends_with_spec(u, ".scope"@) || ends_with_spec(u, ".timer"@)
        || ends_with_spec(u, ".socket"@)
}

/// The text without surrounding whitespace and quotes, when it names a systemd unit
/// (`.service`, `.scope`, `.timer` or `.socket`).
pub open spec fn clean_unit_name_spec(value: Seq<char>) -> Option<Seq<char>> {
    let unit = trim_char_spec(trim_char_spec(trim_spec(value), '"'), '\'');
    if unit.len() == 0 || unit == "-"@ || !unit_suffix(unit) {
        None
    } else {
        Some(unit)
    }
}

pub fn clean_unit_name(value: &str) -> (r: Option<String>)
    ensures
        match clean_unit_name_spec(value@) {
            Some(u) => r matches Some(s) && s@ == u,
            None => r is None,
        },
{
    let v = chars_of(value);
    let unit = clean_unit_chars(v.as_slice());
    match unit {
        Some(u) => Some(string_of(u.as_slice())),
        None => None,
    }
}

fn clean_unit_chars(v: &[char]) -> (r: Option<Vec<char>>)
    ensures
        match clean_unit_name_spec(v@) {
            Some(u) => r matches Some(s) && s@ == u,
            None => r is None,
        },
{
    let a = trim(v);
    let b = trim_char(a.as_slice(), '"');
    let unit = trim_char(b.as_slice(), '\'');
    let u = unit.as_slice();
    if u.len() == 0 || eq_str(u, "-") {
        return None;
    }
    if ends_with_str(u, ".service") || ends_with_str(u, ".scope") || ends_with_str(u, ".timer")
        || ends_with_str(u, ".socket") {
        Some(unit)
    } else {
        None
    }
}

/// The unit name without its type suffixes, or the fallback when the unit is blank.
pub open spec fn unit_display_name_spec(unit: Seq<char>, fallback: Seq<char>) -> Seq<char> {
    let t = trim_spec(unit);
    if t.len() == 0 {
        fallback
    } else {
        strip_suffixes(
            strip_suffixes(strip_suffixes(strip_suffixes(t, ".service"@), ".scope"@), ".timer"@),
            ".socket"@,
        )
    }
}

pub fn unit_display_name(unit: &str, fallback: &str) -> (r: String)
    ensures
        r@ == unit_display_name_spec(unit@, fallback@),
{
    let uc = chars_of(unit);
    let t = trim(uc.as_slice());
    if t.len() == 0 {
        return fallback.to_owned();
    }
    let a = trim_end_matches_str(t.as_slice(), ".service");
    let b = trim_end_matches_str(a.as_slice(), ".scope");
    let c = trim_end_matches_str(b.as_slice(), ".timer");
    let d = trim_end_matches_str(c.as_slice(), ".socket");
    string_of(d.as_slice())
}

/// The first unit named in a `/proc/<pid>/cgroup` text: pieces between `/` on each
/// line, with `\x2d` decoded to `-`.
pub open spec fn unit_in_pieces(ps: Seq<Seq<char>>) -> Option<Seq<char>>
    decreases ps.len(),
{
    if ps.len() == 0 {
        None
    } else {
        match clean_unit_name_spec(replace_spec(ps[0], "\\x2d"@, "-"@)) {
            Some(u) => Some(u),
            None => unit_in_pieces(ps.drop_first()),
        }
    }
}

pub open spec fn unit_in_lines(ls: Seq<Seq<char>>) -> Option<Seq<char>>
    decreases ls.len(),
{
    if ls.len() == 0 {
        None
    } else {
        match unit_in_pieces(split_char_spec(ls[0], '/')) {
            Some(u) => Some(u),
            None => unit_in_lines(ls.drop_first()),
        }
    }
}

pub open spec fn infer_unit_from_cgroup_spec(content: Seq<char>) -> Option<Seq<char>> {
    unit_in_lines(lines_spec(content))
}

fn unit_in_line(line: &[char]) -> (r: Option<Vec<char>>)
    ensures
        match unit_in_pieces(split_char_spec(line@, '/')) {
            Some(u) => r matches Some(s) && s@ == u,
            None => r is None,
        },
{
    let parts = split_char(line, '/');
    let ghost pv = views(parts@);
    let pat = chars_of("\\x2d");
    let dash = chars_of("-");
    proof {
        reveal_strlit("\\x2d");
    }
    let mut i: usize = 0;
    assert(pv.skip(0) =~= pv);
    while i < parts.len()
        invariant
            i <= parts.len(),
            pv == views(parts@),
            pv == split_char_spec(line@, '/'),
            pat@ == "\\x2d"@,
            pat@.len() > 0,
            dash@ == "-"@,
            unit_in_pieces(pv) == unit_in_pieces(pv.skip(i as int)),
        decreases parts.len() - i,
    {
        proof {
            assert(pv.skip(i as int)[0] == parts@[i as int]@);
            assert(pv.skip(i as int).drop_first() =~= pv.skip(i + 1));
        }
        let decoded = replace(parts[i].as_slice(), pat.as_slice(), dash.as_slice());
        match clean_unit_chars(decoded.as_slice()) {
            Some(u) => {
                return Some(u);
            },
            None => {},
        }
        i = i + 1;
    }
    None
}

pub fn infer_unit_from_cgroup(content: &str) -> (r: Option<String>)
    ensures
        match infer_unit_from_cgroup_spec(content@) {
            Some(u) => r matches Some(s) && s@ == u,
            None => r is None,
        },
{
    let cc = chars_of(content);
    let ls = lines(cc.as_slice());
    let ghost lv = views(ls@);
    let mut i: usize = 0;
    assert(lv.skip(0) =~= lv);
    while i < ls.len()
        invariant
            i <= ls.len(),
            lv == views(ls@),
            lv == lines_spec(content@),
            unit_in_lines(lv) == unit_in_lines(lv.skip(i as int)),
        decreases ls.len() - i,
    {
        proof {
            assert(lv.skip(i as int)[0] == ls@[i as int]@);
            assert(lv.skip(i as int).drop_first() =~= lv.skip(i + 1));
        }
        match unit_in_line(ls[i].as_slice()) {
            Some(u) => {
                return Some(string_of(u.as_slice()));
            },
            None => {},
        }
        i = i + 1;
    }
    None
}

/// The service management view of a JVM: the Java service matcher, plus Spring Boot's
/// launcher class.
pub open spec fn is_java_like_process_spec(name: Seq<char>, cmd: Seq<char>) -> bool {
    let toks = split_ws(cmd);
    javaish_name(unicode_lowercase(name)) || exists|i: int|
        0 <= i < toks.len() && {
            let lower = unicode_lowercase(clean_token_spec(#[trigger] toks[i]));
            javaish_word(lower) || contains_spec(lower, "org.springframework.boot.loader"@)
        }
}

pub fn is_java_like_process(name: &str, cmd: &str) -> (r: bool)
    ensures
        r == is_java_like_process_spec(name@, cmd@),
{
    let nc = chars_of(name);
    let ln = to_lowercase(nc.as_slice());
    if javaish_name_exec(ln.as_slice()) {
        return true;
    }
    let cc = chars_of(cmd);
    let toks = split_whitespace(cc.as_slice());
    let ghost tv = views(toks@);
    let mut i: usize = 0;
    while i < toks.len()
        invariant
            i <= toks.len(),
            tv == views(toks@),
            tv == split_ws(cmd@),
            !javaish_name(unicode_lowercase(name@)),
            forall|j: int|
                0 <= j < i ==> !({
                    let lower = unicode_lowercase(clean_token_spec(#[trigger] tv[j]));
                    javaish_word(lower) || contains_spec(lower, "org.springframework.boot.loader"@)
                }),
        decreases toks.len() - i,
    {
        let clean = clean_token(toks[i].as_slice());
        let lower = to_lowercase(clean.as_slice());
        assert(tv[i as int] == toks@[i as int]@);
        if javaish_word_exec(lower.as_slice()) || contains_str(
            lower.as_slice(),
            "org.springframework.boot.loader",
        ) {
            return true;
        }
        i = i + 1;
    }
    false
}

/// `(priority, category)` of a process: 1 Java, 2 middleware and runtimes, 3 system
/// daemons, 4 anything else; judged by words in `name cmd`, lowercased.
pub open spec fn classify_service_spec(name: Seq<char>, cmd: Seq<char>) -> (u8, Seq<char>) {
    let l = unicode_lowercase(name) + " "@ + unicode_lowercase(cmd);
    if is_java_like_process_spec(name, cmd) {
        (1, "Java 服务"@)
    } else if contains_spec(l, "nginx"@) {
        (2, "Nginx"@)
    } else if contains_spec(l, "redis"@) {
        (2, "Redis"@)
    } else if contains_spec(l, "mysql"@) || contains_spec(l, "mariadb"@) || contains_spec(l, "mysqld"@) {
        (2, "MySQL"@)
    } else if contains_spec(l, "postgres"@) {
        (2, "PostgreSQL"@)
    } else if contains_spec(l, "mongo"@) {
        (2, "MongoDB"@)
    } else if contains_spec(l, "kafka"@) {
        (2, "Kafka"@)
    } else if contains_spec(l, "elastic"@) || contains_spec(l, "kibana"@) {
        (2, "Elasticsearch"@)
    } else if contains_spec(l, "rabbit"@) {
        (2, "RabbitMQ"@)
    } else if contains_spec(l, "docker"@) || contains_spec(l, "containerd"@) {
        (2, "Docker"@)
    } else if contains_spec(l, "caddy"@) {
        (2, "Caddy"@)
    } else if contains_spec(l, "haproxy"@) {
        (2, "HAProxy"@)
    } else if contains_spec(l, "memcached"@) {
        (2, "Memcached"@)
    } else if contains_spec(l, "zookeeper"@) {
        (2, "ZooKeeper"@)
    } else if contains_spec(l, "consul"@) {
        (2, "Consul"@)
    } else if contains_spec(l, "etcd"@) {
        (2, "etcd"@)
    } else if contains_spec(l, "sshd"@) {
        (3, "SSH"@)
    } else if contains_spec(l, "systemd"@) {
        (3, "Systemd"@)
    } else if contains_spec(l, "cron"@) {
        (3, "Cron"@)
    } else if contains_spec(l, "rsyslog"@) || contains_spec(l, "syslog"@) {
        (3, "Syslog"@)
    } else if contains_spec(l, "dbus"@) {
        (3, "D-Bus"@)
    } else if contains_spec(l, "networkd"@) || contains_spec(l, "NetworkManager"@) {
        (3, "网络"@)
    } else if contains_spec(l, "sshd"@) || contains_spec(l, "ssh"@) {
        (3, "SSH"@)
    } else if contains_spec(l, "node"@) || contains_spec(l, "npm"@) {
        (2, "Node.js"@)
    } else if contains_spec(l, "python"@) || contains_spec(l, "gunicorn"@) {
        (2, "Python"@)
    } else {
        (4, "其他"@)
    }
}

pub fn classify_service(name: &str, cmd: &str) -> (r: (u8, String))
    ensures
        (r.0, r.1@) == classify_service_spec(name@, cmd@),
{
    let nc = chars_of(name);
    let cc = chars_of(cmd);
    let mut lv = to_lowercase(nc.as_slice());
    push_str(&mut lv, " ");
    let lc = to_lowercase(cc.as_slice());
    push_all(&mut lv, lc.as_slice());
    let l = lv.as_slice();
    if is_java_like_process(name, cmd) {
        (1, "Java 服务".to_owned())
    } else if contains_str(l, "nginx") {
        (2, "Nginx".to_owned())
    } else if contains_str(l, "redis") {
        (2, "Redis".to_owned())
    } else if contains_str(l, "mysql") || contains_str(l, "mariadb") || contains_str(l, "mysqld") {
        (2, "MySQL".to_owned())
    } else if contains_str(l, "postgres") {
        (2, "PostgreSQL".to_owned())
    } else if contains_str(l, "mongo") {
        (2, "MongoDB".to_owned())
    } else if contains_str(l, "kafka") {
        (2, "Kafka".to_owned())
    } else if contains_str(l, "elastic") || contains_str(l, "kibana") {
        (2, "Elasticsearch".to_owned())
    } else if contains_str(l, "rabbit") {
        (2, "RabbitMQ".to_owned())
    } else if contains_str(l, "docker") || contains_str(l, "containerd") {
        (2, "Docker".to_owned())
    } else if contains_str(l, "caddy") {
        (2, "Caddy".to_owned())
    } else if contains_str(l, "haproxy") {
        (2, "HAProxy".to_owned())
    } else if contains_str(l, "memcached") {
        (2, "Memcached".to_owned())
    } else if contains_str(l, "zookeeper") {
        (2, "ZooKeeper".to_owned())
    } else if contains_str(l, "consul") {
        (2, "Consul".to_owned())
    } else if contains_str(l, "etcd") {
        (2, "etcd".to_owned())
    } else if contains_str(l, "sshd") {
        (3, "SSH".to_owned())
    } else if contains_str(l, "systemd") {
        (3, "Systemd".to_owned())
    } else if contains_str(l, "cron") {
        (3, "Cron".to_owned())
    } else if contains_str(l, "rsyslog") || contains_str(l, "syslog") {
        (3, "Syslog".to_owned())
    } else if contains_str(l, "dbus") {
        (3, "D-Bus".to_owned())
    } else if contains_str(l, "networkd") || contains_str(l, "NetworkManager") {
        (3, "网络".to_owned())
    } else if contains_str(l, "sshd") || contains_str(l, "ssh") {
        (3, "SSH".to_owned())
    } else if contains_str(l, "node") || contains_str(l, "npm") {
        (2, "Node.js".to_owned())
    } else if contains_str(l, "python") || contains_str(l, "gunicorn") {
        (2, "Python".to_owned())
    } else {
        (4, "其他".to_owned())
    }
}

/// A systemd `show --property=Id,MainPID,ControlPID --value` listing read as
/// `(pid, unit)` pairs: each unit line starts a unit, each positive number after it is
/// one of its pids; a pid keeps the first unit it was seen with.
pub open spec fn unit_index_scan(ls: Seq<Seq<char>>) -> (Seq<(u32, Seq<char>)>, Option<Seq<char>>)
    decreases ls.len(),
{
    if ls.len() == 0 {
        (Seq::empty(), None)
    } else {
        let (idx, cur) = unit_index_scan(ls.drop_last());
        let line = ls.last();
        match clean_unit_name_spec(line) {
            Some(u) => (idx, Some(u)),
            None => match parse_unsigned_spec(trim_spec(line), 10, u32::MAX as nat) {
                Some(pid) => if pid > 0 && cur is Some && !(exists|k: int|
                    0 <= k < idx.len() && #[trigger] idx[k].0 == pid as u32) {
                    (idx.push((pid as u32, cur->0)), cur)
                } else {
                    (idx, cur)
                },
                None => (idx, cur),
            },
        }
    }
}

pub open spec fn unit_pairs(v: Seq<(u32, String)>) -> Seq<(u32, Seq<char>)> {
    v.map_values(|p: (u32, String)| (p.0, p.1@))
}

/// The pid-to-unit pairs of a `systemctl show` listing (see `unit_index_scan`).
pub fn systemd_unit_index(output: &str) -> (r: Vec<(u32, String)>)
    ensures
        unit_pairs(r@) == unit_index_scan(lines_spec(output@)).0,
{
    let oc = chars_of(output);
    let ls = lines(oc.as_slice());
    let ghost lv = views(ls@);
    let mut idx: Vec<(u32, String)> = Vec::new();
    let mut current: Option<Vec<char>> = None;
    let mut i: usize = 0;
    while i < ls.len()
        invariant
            i <= ls.len(),
            lv == views(ls@),
            (unit_pairs(idx@), match current {
                Some(c) => Some(c@),
                None => None,
            }) == unit_index_scan(lv.take(i as int)),
        decreases ls.len() - i,
    {
        let line = ls[i].as_slice();
        proof {
            assert(lv.take(i + 1).drop_last() =~= lv.take(i as int));
            assert(lv.take(i + 1).last() == line@);
        }
        match clean_unit_chars(line) {
            Some(u) => {
                current = Some(u);
            },
            None => {
                let t = trim(line);
                match parse_unsigned(t.as_slice(), 10, u32::MAX as u64) {
                    Some(pid) => {
                        let pid = pid as u32;
                        if pid > 0 {
                            match &current {
                                Some(u) => {
                                    let ghost pv = unit_pairs(idx@);
                                    let mut seen = false;
                                    let mut k: usize = 0;
                                    while k < idx.len()
                                        invariant
                                            k <= idx.len(),
                                            pv == unit_pairs(idx@),
                                            seen == exists|j: int| 0 <= j < k && #[trigger] pv[j].0 == pid,
                                        decreases idx.len() - k,
                                    {
                                        if idx[k].0 == pid {
                                            assert(pv[k as int].0 == pid);
                                            seen = true;
                                        }
                                        k = k + 1;
                                    }
                                    if !seen {
                                        idx.push((pid, string_of(u.as_slice())));
                                        assert(unit_pairs(idx@) =~= pv.push((pid, u@)));
                                    }
                                },
                                None => {},
                            }
                        }
                    },
                    None => {},
                }
            },
        }
        i = i + 1;
    }
    assert(lv.take(ls@.len() as int) =~= lv);
    idx
}


// ---------------------------------------------------------------------------
// Laws
// ---------------------------------------------------------------------------

/// The kinds of service in the order they are tried: the words that mark each,
/// its priority and its category.
pub open spec fn service_kinds() -> Seq<(Seq<Seq<char>>, u8, Seq<char>)> {
    seq![
        (seq!["nginx"@], 2u8, "Nginx"@),
        (seq!["redis"@], 2u8, "Redis"@),
        (seq!["mysql"@, "mariadb"@, "mysqld"@], 2u8, "MySQL"@),
        (seq!["postgres"@], 2u8, "PostgreSQL"@),
        (seq!["mongo"@], 2u8, "MongoDB"@),
        (seq!["kafka"@], 2u8, "Kafka"@),
        (seq!["elastic"@, "kibana"@], 2u8, "Elasticsearch"@),
        (seq!["rabbit"@], 2u8, "RabbitMQ"@),
        (seq!["docker"@, "containerd"@], 2u8, "Docker"@),
        (seq!["caddy"@], 2u8, "Caddy"@),
        (seq!["haproxy"@], 2u8, "HAProxy"@),
        (seq!["memcached"@], 2u8, "Memcached"@),
        (seq!["zookeeper"@], 2u8, "ZooKeeper"@),
        (seq!["consul"@], 2u8, "Consul"@),
        (seq!["etcd"@], 2u8, "etcd"@),
        (seq!["sshd"@], 3u8, "SSH"@),
        (seq!["systemd"@], 3u8, "Systemd"@),
        (seq!["cron"@], 3u8, "Cron"@),
        (seq!["rsyslog"@, "syslog"@], 3u8, "Syslog"@),
        (seq!["dbus"@], 3u8, "D-Bus"@),
        (seq!["networkd"@, "NetworkManager"@], 3u8, "网络"@),
        (seq!["sshd"@, "ssh"@], 3u8, "SSH"@),
        (seq!["node"@, "npm"@], 2u8, "Node.js"@),
        (seq!["python"@, "gunicorn"@], 2u8, "Python"@),
    ]
}

/// Whether `text` mentions one of `words`.
pub open spec fn mentions_any(text: Seq<char>, words: Seq<Seq<char>>) -> bool {
    exists|w: int| 0 <= w < words.len() && contains_spec(text, #[trigger] words[w])
}

/// The kind of the first entry from position `i` on whose words `text` mentions;
/// `(4, 其他)` where there is none.
pub open spec fn first_kind(text: Seq<char>, kinds: Seq<(Seq<Seq<char>>, u8, Seq<char>)>, i: int) -> (u8, Seq<char>)
    decreases kinds.len() - i,
{
    if i < 0 || i >= kinds.len() {
        (4u8, "其他"@)
    } else if mentions_any(text, kinds[i].0) {
        (kinds[i].1, kinds[i].2)
    } else {
        first_kind(text, kinds, i + 1)
    }
}

proof fn lemma_mentions(text: Seq<char>, words: Seq<Seq<char>>)
    ensures
        words.len() == 1 ==> (mentions_any(text, words) <==> contains_spec(text, words[0])),
        words.len() == 2 ==> (mentions_any(text, words) <==> contains_spec(text, words[0]) || contains_spec(text, words[1])),
        words.len() == 3 ==> (mentions_any(text, words) <==> contains_spec(text, words[0]) || contains_spec(text, words[1])
            || contains_spec(text, words[2])),
{
    if mentions_any(text, words) {
        let w = choose|w: int| 0 <= w < words.len() && contains_spec(text, #[trigger] words[w]);
        assert(w == 0 || w == 1 || w == 2 || w >= 3);
    }
}

/// A Java-like process is a Java service (priority 1); any other process takes the
/// priority and category of the first kind of service, in the order of
/// `service_kinds`, whose words its lowercased `name cmd` mentions, and is `其他`
/// (priority 4) where it mentions none.
pub proof fn law_service_takes_first_matching_kind(name: Seq<char>, cmd: Seq<char>)
    ensures
        is_java_like_process_spec(name, cmd) ==> classify_service_spec(name, cmd) == (1u8, "Java 服务"@),
        !is_java_like_process_spec(name, cmd) ==> classify_service_spec(name, cmd) == first_kind(
            unicode_lowercase(name) + " "@ + unicode_lowercase(cmd),
            service_kinds(),
            0,
        ),
{
    let l = unicode_lowercase(name) + " "@ + unicode_lowercase(cmd);
    let ks = service_kinds();
    assert(ks.len() == 24);
    assert(first_kind(l, ks, 24) == (4u8, "其他"@));
    lemma_mentions(l, ks[23].0);
    assert(first_kind(l, ks, 23) == if contains_spec(l, "python"@) || contains_spec(l, "gunicorn"@) { (2u8, "Python"@) } else { first_kind(l, ks, 24) });
    lemma_mentions(l, ks[22].0);
    assert(first_kind(l, ks, 22) == if contains_spec(l, "node"@) || contains_spec(l, "npm"@) { (2u8, "Node.js"@) } else { first_kind(l, ks, 23) });
    lemma_mentions(l, ks[21].0);
    assert(first_kind(l, ks, 21) == if contains_spec(l, "sshd"@) || contains_spec(l, "ssh"@) { (3u8, "SSH"@) } else { first_kind(l, ks, 22) });
    lemma_mentions(l, ks[20].0);
    assert(first_kind(l, ks, 20) == if contains_spec(l, "networkd"@) || contains_spec(l, "NetworkManager"@) { (3u8, "网络"@) } else { first_kind(l, ks, 21) });
    lemma_mentions(l, ks[19].0);
    assert(first_kind(l, ks, 19) == if contains_spec(l, "dbus"@) { (3u8, "D-Bus"@) } else { first_kind(l, ks, 20) });
    lemma_mentions(l, ks[18].0);
    assert(first_kind(l, ks, 18) == if contains_spec(l, "rsyslog"@) || contains_spec(l, "syslog"@) { (3u8, "Syslog"@) } else { first_kind(l, ks, 19) });
    lemma_mentions(l, ks[17].0);
    assert(first_kind(l, ks, 17) == if contains_spec(l, "cron"@) { (3u8, "Cron"@) } else { first_kind(l, ks, 18) });
    lemma_mentions(l, ks[16].0);
    assert(first_kind(l, ks, 16) == if contains_spec(l, "systemd"@) { (3u8, "Systemd"@) } else { first_kind(l, ks, 17) });
    lemma_mentions(l, ks[15].0);
    assert(first_kind(l, ks, 15) == if contains_spec(l, "sshd"@) { (3u8, "SSH"@) } else { first_kind(l, ks, 16) });
    lemma_mentions(l, ks[14].0);
    assert(first_kind(l, ks, 14) == if contains_spec(l, "etcd"@) { (2u8, "etcd"@) } else { first_kind(l, ks, 15) });
    lemma_mentions(l, ks[13].0);
    assert(first_kind(l, ks, 13) == if contains_spec(l, "consul"@) { (2u8, "Consul"@) } else { first_kind(l, ks, 14) });
    lemma_mentions(l, ks[12].0);
    assert(first_kind(l, ks, 12) == if contains_spec(l, "zookeeper"@) { (2u8, "ZooKeeper"@) } else { first_kind(l, ks, 13) });
    lemma_mentions(l, ks[11].0);
    assert(first_kind(l, ks, 11) == if contains_spec(l, "memcached"@) { (2u8, "Memcached"@) } else { first_kind(l, ks, 12) });
    lemma_mentions(l, ks[10].0);
    assert(first_kind(l, ks, 10) == if contains_spec(l, "haproxy"@) { (2u8, "HAProxy"@) } else { first_kind(l, ks, 11) });
    lemma_mentions(l, ks[9].0);
    assert(first_kind(l, ks, 9) == if contains_spec(l, "caddy"@) { (2u8, "Caddy"@) } else { first_kind(l, ks, 10) });
    lemma_mentions(l, ks[8].0);
    assert(first_kind(l, ks, 8) == if contains_spec(l, "docker"@) || contains_spec(l, "containerd"@) { (2u8, "Docker"@) } else { first_kind(l, ks, 9) });
    lemma_mentions(l, ks[7].0);
    assert(first_kind(l, ks, 7) == if contains_spec(l, "rabbit"@) { (2u8, "RabbitMQ"@) } else { first_kind(l, ks, 8) });
    lemma_mentions(l, ks[6].0);
    assert(first_kind(l, ks, 6) == if contains_spec(l, "elastic"@) || contains_spec(l, "kibana"@) { (2u8, "Elasticsearch"@) } else { first_kind(l, ks, 7) });
    lemma_mentions(l, ks[5].0);
    assert(first_kind(l, ks, 5) == if contains_spec(l, "kafka"@) { (2u8, "Kafka"@) } else { first_kind(l, ks, 6) });
    lemma_mentions(l, ks[4].0);
    assert(first_kind(l, ks, 4) == if contains_spec(l, "mongo"@) { (2u8, "MongoDB"@) } else { first_kind(l, ks, 5) });
    lemma_mentions(l, ks[3].0);
    assert(first_kind(l, ks, 3) == if contains_spec(l, "postgres"@) { (2u8, "PostgreSQL"@) } else { first_kind(l, ks, 4) });
    lemma_mentions(l, ks[2].0);
    assert(first_kind(l, ks, 2) == if contains_spec(l, "mysql"@) || contains_spec(l, "mariadb"@) || contains_spec(l, "mysqld"@) { (2u8, "MySQL"@) } else { first_kind(l, ks, 3) });
    lemma_mentions(l, ks[1].0);
    assert(first_kind(l, ks, 1) == if contains_spec(l, "redis"@) { (2u8, "Redis"@) } else { first_kind(l, ks, 2) });
    lemma_mentions(l, ks[0].0);
    assert(first_kind(l, ks, 0) == if contains_spec(l, "nginx"@) { (2u8, "Nginx"@) } else { first_kind(l, ks, 1) });
}

} // verus!
