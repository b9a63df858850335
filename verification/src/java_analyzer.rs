//! Java runtime analysis: recognising Java processes from their command lines,
//! reading HotSpot thread dumps, ranking hot frames and deriving diagnostic findings.
use vstd::prelude::*;
use crate::text::{ascii_lower, chars_of, contains, contains_spec, contains_str, dec, dec_spec, ends_with_spec, ends_with_str, eq_str, find, find_char, find_spec, first_index, is_first_occurrence_from, join, join_spec, last_index, lines, lines_spec, occurs_at, parse_unsigned, parse_unsigned_spec, push_dec, push_str, rfind_char, seq_eq, slice_to_vec, split_char, split_char_spec, split_whitespace, split_ws, starts_with_spec, starts_with_str, string_of, string_views, strip_prefix, strip_prefix_str, strip_prefixes, strip_suffixes, to_ascii_lowercase, to_lowercase, trim, trim_char, trim_char_spec, trim_end_matches_str, trim_spec, trim_start_matches_str, unicode_lowercase, views};
use crate::paths::{file_name, file_name_spec, file_stem, file_stem_spec};

pub mod assembly;
pub mod process;
pub mod report;
pub mod report_lines;
pub mod run;
pub mod sockets;

verus! {

// ---------------------------------------------------------------------------
// Uptime text
// ---------------------------------------------------------------------------

/// `"{d}天 {h}时 {m}分"`, dropping leading zero units (minutes are always shown).
pub open spec fn duration_text(t: nat) -> Seq<char> {
    let days = t / 86400;
    let hours = (t % 86400) / 3600;
    let minutes = (t % 3600) / 60;
    if days > 0 {
        dec_spec(days) + "天 "@ + dec_spec(hours) + "时 "@ + dec_spec(minutes) + "分"@
    } else if hours > 0 {
        dec_spec(hours) + "时 "@ + dec_spec(minutes) + "分"@
    } else {
        dec_spec(minutes) + "分"@
    }
}

pub fn format_duration(total_secs: u64) -> (r: String)
    ensures
        r@ == duration_text(total_secs as nat),
{
    let days = total_secs / 86_400;
    let hours = (total_secs % 86_400) / 3_600;
    let minutes = (total_secs % 3_600) / 60;
    let mut out: Vec<char> = Vec::new();
    if days > 0 {
        push_dec(&mut out, days);
        push_str(&mut out, "天 ");
        push_dec(&mut out, hours);
        push_str(&mut out, "时 ");
    } else if hours > 0 {
        push_dec(&mut out, hours);
        push_str(&mut out, "时 ");
    }
    push_dec(&mut out, minutes);
    push_str(&mut out, "分");
    assert(out@ =~= duration_text(total_secs as nat));
    string_of(out.as_slice())
}

// ---------------------------------------------------------------------------
// Thread-dump lines
// ---------------------------------------------------------------------------

/// A frame `pkg.Class.method(File.java:12)` split into the method and the text in
/// brackets (trailing `)` removed); a frame without `(` has no location.
pub open spec fn split_frame_spec(f: Seq<char>) -> (Seq<char>, Seq<char>) {
    match first_index(f, '(') {
        Some(i) => (f.take(i), strip_suffixes(f.skip(i + 1), ")"@)),
        None => (f, Seq::empty()),
    }
}

pub fn split_frame(frame: &[char]) -> (r: (Vec<char>, Vec<char>))
    ensures
        (r.0@, r.1@) == split_frame_spec(frame@),
{
    match find_char(frame, '(') {
        Some(i) => {
            let method = slice_to_vec(frame, 0, i);
            let rest = slice_to_vec(frame, i + 1, frame.len());
            assert(method@ =~= frame@.take(i as int));
            assert(rest@ =~= frame@.skip(i + 1));
            (method, trim_end_matches_str(rest.as_slice(), ")"))
        },
        None => {
            let all = slice_to_vec(frame, 0, frame.len());
            assert(all@ =~= frame@);
            let empty: Vec<char> = Vec::new();
            assert(empty@ =~= Seq::<char>::empty());
            (all, empty)
        },
    }
}

/// The whitespace-separated word right after the first `key` in `line`, without `"`s
/// at its ends.
pub open spec fn token_after_spec(line: Seq<char>, key: Seq<char>) -> Option<Seq<char>> {
    match find_spec(line, key) {
        Some(i) => {
            let toks = split_ws(line.skip(i + key.len()));
            if toks.len() > 0 {
                Some(trim_char_spec(toks[0], '"'))
            } else {
                None
            }
        },
        None => None,
    }
}

pub fn token_after(line: &[char], key: &[char]) -> (r: Option<Vec<char>>)
    ensures
        match token_after_spec(line@, key@) {
            Some(t) => r matches Some(v) && v@ == t,
            None => r is None,
        },
{
    match find(line, key) {
        Some(i) => {
            proof {
                assert(find_spec(line@, key@) == Some(i as int));
                assert(is_first_occurrence_from(line@, key@, 0, i as int));
                assert(occurs_at(line@, key@, i as int));
                assert(i + key@.len() <= line@.len());
            }
            let kl = key.len();
            let ll = line.len();
            assert(kl == key@.len() && ll == line@.len());
            let rest = slice_to_vec(line, i + kl, ll);
            assert(rest@ =~= line@.skip(i + key@.len()));
            let toks = split_whitespace(rest.as_slice());
            if toks.len() > 0 {
                assert(views(toks@)[0] == toks@[0]@);
                Some(trim_char(toks[0].as_slice(), '"'))
            } else {
                None
            }
        },
        None => None,
    }
}

/// The native thread id after `nid=`: hexadecimal (with any `0x` prefixes removed),
/// else decimal.
pub open spec fn parse_nid_spec(line: Seq<char>) -> Option<u32> {
    match token_after_spec(line, "nid="@) {
        Some(raw) => match parse_unsigned_spec(strip_prefixes(raw, "0x"@), 16, u32::MAX as nat) {
            Some(v) => Some(v as u32),
            None => match parse_unsigned_spec(raw, 10, u32::MAX as nat) {
                Some(v) => Some(v as u32),
                None => None,
            },
        },
        None => None,
    }
}

pub fn parse_nid(line: &[char]) -> (r: Option<u32>)
    ensures
        r == parse_nid_spec(line@),
{
    let key = chars_of("nid=");
    match token_after(line, key.as_slice()) {
        Some(raw) => {
            let hex = trim_start_matches_str(raw.as_slice(), "0x");
            match parse_unsigned(hex.as_slice(), 16, u32::MAX as u64) {
                Some(v) => Some(v as u32),
                None => match parse_unsigned(raw.as_slice(), 10, u32::MAX as u64) {
                    Some(v) => Some(v as u32),
                    None => None,
                },
            }
        },
        None => None,
    }
}

/// Frames of the JDK's own waiting and I/O machinery, left out of hot-spot ranking.
pub open spec fn is_noise_frame_spec(m: Seq<char>) -> bool {
    starts_with_spec(m, "java.lang.Thread."@) || starts_with_spec(m, "jdk.internal."@)
        || starts_with_spec(m, "sun.nio."@) || starts_with_spec(
        m,
        "java.util.concurrent.locks.LockSupport"@,
    ) || starts_with_spec(m, "java.net.Socket"@)
}

pub fn is_noise_frame(method: &[char]) -> (r: bool)
    ensures
        r == is_noise_frame_spec(method@),
{
    starts_with_str(method, "java.lang.Thread.") || starts_with_str(method, "jdk.internal.")
        || starts_with_str(method, "sun.nio.") || starts_with_str(
        method,
        "java.util.concurrent.locks.LockSupport",
    ) || starts_with_str(method, "java.net.Socket")
}

/// The kind of work a method belongs to, judged by words in its lowercased name.
pub open spec fn method_category_spec(m: Seq<char>) -> Seq<char> {
    let l = unicode_lowercase(m);
    if contains_spec(l, "controller"@) || contains_spec(l, "servlet"@) || contains_spec(
        l,
        "filter"@,
    ) {
        "接口入口"@
    } else if contains_spec(l, "jdbc"@) || contains_spec(l, "mybatis"@) || contains_spec(
        l,
        "hibernate"@,
    ) || contains_spec(l, "repository"@) || contains_spec(l, "dao"@) {
        "数据库"@
    } else if contains_spec(l, "redis"@) || contains_spec(l, "jedis"@) || contains_spec(
        l,
        "lettuce"@,
    ) || contains_spec(l, "redisson"@) {
        "Redis"@
    } else if contains_spec(l, "elasticsearch"@) || contains_spec(l, "opensearch"@)
        || contains_spec(l, "resthighlevel"@) || contains_spec(l, "elastic"@) {
        "搜索引擎"@
    } else if contains_spec(l, "http"@) || contains_spec(l, "okhttp"@) || contains_spec(
        l,
        "feign"@,
    ) || contains_spec(l, "resttemplate"@) {
        "外部调用"@
    } else if contains_spec(l, "lock"@) || contains_spec(l, "sync"@) {
        "锁竞争"@
    } else {
        "业务/框架"@
    }
}

pub fn method_category(method: &[char]) -> (r: String)
    ensures
        r@ == method_category_spec(method@),
{
    let l = to_lowercase(method);
    let l = l.as_slice();
    if contains_str(l, "controller") || contains_str(l, "servlet") || contains_str(l, "filter") {
        "接口入口".to_owned()
    } else if contains_str(l, "jdbc") || contains_str(l, "mybatis") || contains_str(
        l,
        "hibernate",
    ) || contains_str(l, "repository") || contains_str(l, "dao") {
        "数据库".to_owned()
    } else if contains_str(l, "redis") || contains_str(l, "jedis") || contains_str(l, "lettuce")
        || contains_str(l, "redisson") {
        "Redis".to_owned()
    } else if contains_str(l, "elasticsearch") || contains_str(l, "opensearch") || contains_str(
        l,
        "resthighlevel",
    ) || contains_str(l, "elastic") {
        "搜索引擎".to_owned()
    } else if contains_str(l, "http") || contains_str(l, "okhttp") || contains_str(l, "feign")
        || contains_str(l, "resttemplate") {
        "外部调用".to_owned()
    } else if contains_str(l, "lock") || contains_str(l, "sync") {
        "锁竞争".to_owned()
    } else {
        "业务/框架".to_owned()
    }
}


// ---------------------------------------------------------------------------
// Recognising Java processes
// ---------------------------------------------------------------------------

/// `Path::new(t).file_name().unwrap_or(t)`.
pub open spec fn base_name(t: Seq<char>) -> Seq<char> {
    match file_name_spec(t) {
        Some(n) => n,
        None => t,
    }
}

pub fn base_name_of(t: &[char]) -> (r: Vec<char>)
    ensures
        r@ == base_name(t@),
{
    match file_name(t) {
        Some(n) => n,
        None => {
            let v = slice_to_vec(t, 0, t.len());
            assert(v@ =~= t@);
            v
        },
    }
}

/// `str::eq_ignore_ascii_case`.
pub open spec fn eq_ignore_ascii_case_spec(a: Seq<char>, b: Seq<char>) -> bool {
    ascii_lower(a) == ascii_lower(b)
}

pub fn eq_ignore_ascii_case(a: &[char], b: &[char]) -> (r: bool)
    ensures
        r == eq_ignore_ascii_case_spec(a@, b@),
{
    let la = to_ascii_lowercase(a);
    let lb = to_ascii_lowercase(b);
    seq_eq(la.as_slice(), lb.as_slice())
}

/// A command-line word that shows a JVM: a jar given to `-jar`, a Tomcat path, or the
/// Catalina bootstrap class after the first word.
pub open spec fn token_marks_java(toks: Seq<Seq<char>>, idx: int) -> bool {
    let lower = unicode_lowercase(toks[idx]);
    (ends_with_spec(lower, ".jar"@) && idx > 0 && eq_ignore_ascii_case_spec(
        toks[idx - 1],
        "-jar"@,
    )) || contains_spec(lower, "/tomcat/"@) || contains_spec(lower, "/catalina."@) || (idx > 0
        && lower == "org.apache.catalina.startup.bootstrap"@)
}

/// A process is Java when its name is a JVM launcher or a jar, when the program it
/// runs is `java`/`javaw`/`jsvc`, or when a word of its command line marks a JVM;
/// a `java` that only appears inside some other word (a URL, a search text) does not count.
pub open spec fn is_java_process_spec(name: Seq<char>, cmd: Seq<char>) -> bool {
    let ln = unicode_lowercase(name);
    let toks = split_ws(cmd);
    let first = unicode_lowercase(base_name(toks[0]));
    ln == "java"@ || ln == "javaw"@ || ln == "jsvc"@ || ln == "catalina"@ || ln == "tomcat"@
        || ends_with_spec(ln, ".jar"@) || (toks.len() > 0 && (first == "java"@ || first
        == "javaw"@ || first == "jsvc"@)) || exists|i: int|
        0 <= i < toks.len() && #[trigger] token_marks_java(toks, i)
}

fn marks_java(toks: &Vec<Vec<char>>, idx: usize) -> (r: bool)
    requires
        idx < toks.len(),
    ensures
        r == token_marks_java(views(toks@), idx as int),
{
    let lower = to_lowercase(toks[idx].as_slice());
    let lower = lower.as_slice();
    let prev_is_jar = if idx > 0 {
        let dash_jar = chars_of("-jar");
        eq_ignore_ascii_case(toks[idx - 1].as_slice(), dash_jar.as_slice())
    } else {
        false
    };
    (ends_with_str(lower, ".jar") && idx > 0 && prev_is_jar) || contains_str(lower, "/tomcat/")
        || contains_str(lower, "/catalina.") || (idx > 0 && eq_str(
        lower,
        "org.apache.catalina.startup.bootstrap",
    ))
}

pub fn is_java_process(name: &str, cmd: &str) -> (r: bool)
    ensures
        r == is_java_process_spec(name@, cmd@),
{
    let name_chars = chars_of(name);
    let ln = to_lowercase(name_chars.as_slice());
    let ln = ln.as_slice();
    if eq_str(ln, "java") || eq_str(ln, "javaw") || eq_str(ln, "jsvc") || eq_str(ln, "catalina")
        || eq_str(ln, "tomcat") || ends_with_str(ln, ".jar") {
        return true;
    }
    let cmd_chars = chars_of(cmd);
    let toks = split_whitespace(cmd_chars.as_slice());
    let ghost tv = views(toks@);
    if toks.len() > 0 {
        assert(tv[0] == toks@[0]@);
        let base = base_name_of(toks[0].as_slice());
        let first = to_lowercase(base.as_slice());
        let first = first.as_slice();
        if eq_str(first, "java") || eq_str(first, "javaw") || eq_str(first, "jsvc") {
            return true;
        }
    }
    let mut i: usize = 0;
    while i < toks.len()
        invariant
            i <= toks.len(),
            tv == views(toks@),
            tv == split_ws(cmd@),
            forall|j: int| 0 <= j < i ==> !#[trigger] token_marks_java(tv, j),
        decreases toks.len() - i,
    {
        if marks_java(&toks, i) {
            return true;
        }
        i = i + 1;
    }
    false
}

// ---------------------------------------------------------------------------
// Main class and service name
// ---------------------------------------------------------------------------

pub open spec fn is_classpath_option(lower: Seq<char>) -> bool {
    lower == "-cp"@ || lower == "-classpath"@ || lower == "--class-path"@ || lower
        == "--module-path"@ || lower == "-p"@
}

/// Reading the words of a command line from the left: skip up to the `java`
/// launcher, then skip options (and the argument of `-cp`-like options and `-jar`);
/// the first other word is the main class.
pub open spec fn main_scan(toks: Seq<Seq<char>>, seen: bool, skip: bool) -> Seq<char>
    decreases toks.len(),
{
    if toks.len() == 0 {
        Seq::empty()
    } else {
        let t = toks[0];
        let rest = toks.drop_first();
        if !seen {
            let base = ascii_lower(base_name(t));
            if base == "java"@ || base == "javaw"@ || contains_spec(t, "/java"@) {
                main_scan(rest, true, skip)
            } else {
                main_scan(rest, false, skip)
            }
        } else if skip {
            main_scan(rest, true, false)
        } else {
            let lower = ascii_lower(t);
            if is_classpath_option(lower) || lower == "-jar"@ {
                main_scan(rest, true, true)
            } else if starts_with_spec(t, "-"@) {
                main_scan(rest, true, false)
            } else {
                t
            }
        }
    }
}

/// The jar's file name when there is a jar, else the main class of the command line
/// (empty when none is found).
pub open spec fn infer_main_spec(cmd: Seq<char>, jar: Seq<char>) -> Seq<char> {
    if jar.len() > 0 {
        base_name(jar)
    } else {
        main_scan(split_ws(cmd), false, false)
    }
}

pub fn infer_main(cmd: &str, jar: &str) -> (r: String)
    ensures
        r@ == infer_main_spec(cmd@, jar@),
{
    let jar_chars = chars_of(jar);
    if jar_chars.len() > 0 {
        let b = base_name_of(jar_chars.as_slice());
        return string_of(b.as_slice());
    }
    let cmd_chars = chars_of(cmd);
    let toks = split_whitespace(cmd_chars.as_slice());
    let ghost tv = views(toks@);
    let mut seen = false;
    let mut skip = false;
    let mut i: usize = 0;
    assert(tv.skip(0) =~= tv);
    while i < toks.len()
        invariant
            i <= toks.len(),
            jar@.len() == 0,
            tv == views(toks@),
            tv == split_ws(cmd@),
            main_scan(tv, false, false) == main_scan(tv.skip(i as int), seen, skip),
        decreases toks.len() - i,
    {
        let token = toks[i].as_slice();
        proof {
            assert(tv.skip(i as int)[0] == token@);
            assert(tv.skip(i as int).drop_first() =~= tv.skip(i + 1));
        }
        if !seen {
            let b = base_name_of(token);
            let base = to_ascii_lowercase(b.as_slice());
            let base = base.as_slice();
            if eq_str(base, "java") || eq_str(base, "javaw") || contains_str(token, "/java") {
                seen = true;
            }
            i = i + 1;
            continue ;
        }
        if skip {
            skip = false;
            i = i + 1;
            continue ;
        }
        let lower = to_ascii_lowercase(token);
        let lower = lower.as_slice();
        if eq_str(lower, "-cp") || eq_str(lower, "-classpath") || eq_str(lower, "--class-path")
            || eq_str(lower, "--module-path") || eq_str(lower, "-p") || eq_str(lower, "-jar") {
            skip = true;
            i = i + 1;
            continue ;
        }
        if starts_with_str(token, "-") {
            i = i + 1;
            continue ;
        }
        return string_of(token);
    }
    let empty: Vec<char> = Vec::new();
    assert(empty@ =~= main_scan(tv.skip(i as int), seen, skip));
    string_of(empty.as_slice())
}

/// The trimmed rest of the first word that starts with `key`.
pub open spec fn prefixed_value(toks: Seq<Seq<char>>, key: Seq<char>) -> Option<Seq<char>>
    decreases toks.len(),
{
    if toks.len() == 0 {
        None
    } else if starts_with_spec(toks[0], key) {
        Some(trim_spec(toks[0].skip(key.len() as int)))
    } else {
        prefixed_value(toks.drop_first(), key)
    }
}

pub open spec fn service_name_keys() -> Seq<Seq<char>> {
    seq![
        "-Dspring.application.name="@,
        "-Dapp.name="@,
        "-Dservice.name="@,
        "-Dproject.name="@,
        "--spring.application.name="@,
        "--server.servlet.context-path="@,
    ]
}

/// The first key, in order, whose first matching word carries a non-empty value.
pub open spec fn key_value(toks: Seq<Seq<char>>, keys: Seq<Seq<char>>) -> Option<Seq<char>>
    decreases keys.len(),
{
    if keys.len() == 0 {
        None
    } else {
        match prefixed_value(toks, keys[0]) {
            Some(v) => if v.len() > 0 {
                Some(v)
            } else {
                key_value(toks, keys.drop_first())
            },
            None => key_value(toks, keys.drop_first()),
        }
    }
}

/// `main.rsplit('.').next()`: the part after the last `.`.
pub open spec fn after_last_dot(s: Seq<char>) -> Seq<char> {
    match last_index(s, '.') {
        Some(i) => s.skip(i + 1),
        None => s,
    }
}

/// The service name: a name given by a `-Dspring.application.name=`-like option,
/// else the jar's file stem, else the simple main class name, else `java-<pid>`.
pub open spec fn infer_service_name_spec(
    cmd: Seq<char>,
    main: Seq<char>,
    jar: Seq<char>,
    pid: u32,
) -> Seq<char> {
    match key_value(split_ws(cmd), service_name_keys()) {
        Some(v) => strip_prefixes(trim_char_spec(v, '"'), "/"@),
        None => if jar.len() > 0 {
            match file_stem_spec(jar) {
                Some(st) => st,
                None => jar,
            }
        } else if main.len() > 0 {
            after_last_dot(main)
        } else {
            "java-"@ + dec_spec(pid as nat)
        },
    }
}

fn find_prefixed_value(toks: &Vec<Vec<char>>, key: &[char]) -> (r: Option<Vec<char>>)
    ensures
        match prefixed_value(views(toks@), key@) {
            Some(v) => r matches Some(x) && x@ == v,
            None => r is None,
        },
{
    let ghost tv = views(toks@);
    let mut i: usize = 0;
    assert(tv.skip(0) =~= tv);
    while i < toks.len()
        invariant
            i <= toks.len(),
            tv == views(toks@),
            prefixed_value(tv, key@) == prefixed_value(tv.skip(i as int), key@),
        decreases toks.len() - i,
    {
        proof {
            assert(tv.skip(i as int)[0] == toks@[i as int]@);
            assert(tv.skip(i as int).drop_first() =~= tv.skip(i + 1));
        }
        match strip_prefix(toks[i].as_slice(), key) {
            Some(rest) => {
                return Some(trim(rest.as_slice()));
            },
            None => {},
        }
        i = i + 1;
    }
    None
}

pub fn after_last_dot_of(s: &[char]) -> (r: Vec<char>)
    ensures
        r@ == after_last_dot(s@),
{
    match rfind_char(s, '.') {
        Some(i) => {
            let v = slice_to_vec(s, i + 1, s.len());
            assert(v@ =~= s@.skip(i + 1));
            v
        },
        None => {
            let v = slice_to_vec(s, 0, s.len());
            assert(v@ =~= s@);
            v
        },
    }
}

pub fn infer_service_name(cmd: &str, main: &str, jar: &str, pid: u32) -> (r: String)
    ensures
        r@ == infer_service_name_spec(cmd@, main@, jar@, pid),
{
    let cmd_chars = chars_of(cmd);
    let toks = split_whitespace(cmd_chars.as_slice());
    let keys: Vec<Vec<char>> = vec![
        chars_of("-Dspring.application.name="),
        chars_of("-Dapp.name="),
        chars_of("-Dservice.name="),
        chars_of("-Dproject.name="),
        chars_of("--spring.application.name="),
        chars_of("--server.servlet.context-path="),
    ];
    let ghost kv = views(keys@);
    assert(kv =~= service_name_keys());
    assert(kv.skip(0) =~= kv);
    let mut k: usize = 0;
    while k < keys.len()
        invariant
            k <= keys.len(),
            kv == views(keys@),
            views(toks@) == split_ws(cmd@),
            key_value(views(toks@), service_name_keys()) == key_value(
                views(toks@),
                kv.skip(k as int),
            ),
        decreases keys.len() - k,
    {
        proof {
            assert(kv.skip(k as int)[0] == keys@[k as int]@);
            assert(kv.skip(k as int).drop_first() =~= kv.skip(k + 1));
        }
        match find_prefixed_value(&toks, keys[k].as_slice()) {
            Some(v) => {
                if v.len() > 0 {
                    let unquoted = trim_char(v.as_slice(), '"');
                    let name = trim_start_matches_str(unquoted.as_slice(), "/");
                    return string_of(name.as_slice());
                }
            },
            None => {},
        }
        k = k + 1;
    }
    let jar_chars = chars_of(jar);
    if jar_chars.len() > 0 {
        return match file_stem(jar_chars.as_slice()) {
            Some(st) => string_of(st.as_slice()),
            None => jar.to_owned(),
        };
    }
    let main_chars = chars_of(main);
    if main_chars.len() > 0 {
        let last = after_last_dot_of(main_chars.as_slice());
        return string_of(last.as_slice());
    }
    let mut out = chars_of("java-");
    push_dec(&mut out, pid as u64);
    string_of(out.as_slice())
}

// ---------------------------------------------------------------------------
// /proc/<pid>/status fields
// ---------------------------------------------------------------------------

/// The number after `key` on a status line, when the line starts with `key`.
pub open spec fn kb_of_line(line: Seq<char>, key: Seq<char>) -> Option<nat> {
    if starts_with_spec(line, key) {
        let toks = split_ws(line.skip(key.len() as int));
        if toks.len() > 0 {
            parse_unsigned_spec(toks[0], 10, u64::MAX as nat)
        } else {
            None
        }
    } else {
        None
    }
}

/// The first line (of `lines`) whose `key` field holds a number.
pub open spec fn first_kb(ls: Seq<Seq<char>>, key: Seq<char>) -> Option<nat>
    decreases ls.len(),
{
    if ls.len() == 0 {
        None
    } else {
        match kb_of_line(ls[0], key) {
            Some(v) => Some(v),
            None => first_kb(ls.drop_first(), key),
        }
    }
}

/// The first line (of `lines`) starting with `key`, its rest trimmed.
pub open spec fn first_line_value(ls: Seq<Seq<char>>, key: Seq<char>) -> Option<Seq<char>>
    decreases ls.len(),
{
    if ls.len() == 0 {
        None
    } else if starts_with_spec(ls[0], key) {
        Some(trim_spec(ls[0].skip(key.len() as int)))
    } else {
        first_line_value(ls.drop_first(), key)
    }
}

fn kb_of(line: &[char], key: &[char]) -> (r: Option<u64>)
    ensures
        match kb_of_line(line@, key@) {
            Some(v) => r == Some(v as u64),
            None => r is None,
        },
{
    match strip_prefix(line, key) {
        Some(rest) => {
            let toks = split_whitespace(rest.as_slice());
            if toks.len() > 0 {
                assert(views(toks@)[0] == toks@[0]@);
                parse_unsigned(toks[0].as_slice(), 10, u64::MAX)
            } else {
                None
            }
        },
        None => None,
    }
}

/// A number (such as `VmRSS:` kB or `Threads:`) read from a `/proc/<pid>/status` text.
pub fn status_value_kb(status: &str, key: &str) -> (r: Option<u64>)
    ensures
        match first_kb(lines_spec(status@), key@) {
            Some(v) => r == Some(v as u64),
            None => r is None,
        },
{
    let sc = chars_of(status);
    let kc = chars_of(key);
    let ls = lines(sc.as_slice());
    let ghost lv = views(ls@);
    let mut i: usize = 0;
    assert(lv.skip(0) =~= lv);
    while i < ls.len()
        invariant
            i <= ls.len(),
            lv == views(ls@),
            lv == lines_spec(status@),
            kc@ == key@,
            first_kb(lv, kc@) == first_kb(lv.skip(i as int), kc@),
        decreases ls.len() - i,
    {
        proof {
            assert(lv.skip(i as int)[0] == ls@[i as int]@);
            assert(lv.skip(i as int).drop_first() =~= lv.skip(i + 1));
        }
        match kb_of(ls[i].as_slice(), kc.as_slice()) {
            Some(v) => {
                return Some(v);
            },
            None => {},
        }
        i = i + 1;
    }
    None
}

/// The trimmed value of the first `/proc/<pid>/status` line starting with `key`.
pub fn status_line_value(status: &str, key: &str) -> (r: Option<String>)
    ensures
        match first_line_value(lines_spec(status@), key@) {
            Some(v) => r matches Some(x) && x@ == v,
            None => r is None,
        },
{
    let sc = chars_of(status);
    let kc = chars_of(key);
    let ls = lines(sc.as_slice());
    let ghost lv = views(ls@);
    let mut i: usize = 0;
    assert(lv.skip(0) =~= lv);
    while i < ls.len()
        invariant
            i <= ls.len(),
            lv == views(ls@),
            lv == lines_spec(status@),
            kc@ == key@,
            first_line_value(lv, kc@) == first_line_value(lv.skip(i as int), kc@),
        decreases ls.len() - i,
    {
        proof {
            assert(lv.skip(i as int)[0] == ls@[i as int]@);
            assert(lv.skip(i as int).drop_first() =~= lv.skip(i + 1));
        }
        match strip_prefix(ls[i].as_slice(), kc.as_slice()) {
            Some(rest) => {
                let v = trim(rest.as_slice());
                return Some(string_of(v.as_slice()));
            },
            None => {},
        }
        i = i + 1;
    }
    None
}


// ---------------------------------------------------------------------------
// Thread dumps
// ---------------------------------------------------------------------------

pub struct ThreadFrame {
    pub class_method: String,
    pub file_line: String,
}

pub struct ThreadInfo {
    pub name: String,
    pub nid: Option<u32>,
    pub java_tid: Option<String>,
    pub state: String,
    pub top_frame: String,
    pub frames: Vec<ThreadFrame>,
    pub raw_header: String,
}

/// What a parsed thread holds, as character sequences.
pub struct ThreadView {
    pub name: Seq<char>,
    pub nid: Option<u32>,
    pub java_tid: Option<Seq<char>>,
    pub state: Seq<char>,
    pub top_frame: Seq<char>,
    pub frames: Seq<(Seq<char>, Seq<char>)>,
    pub raw_header: Seq<char>,
}

pub open spec fn opt_view(o: Option<String>) -> Option<Seq<char>> {
    match o {
        Some(s) => Some(s@),
        None => None,
    }
}

pub open spec fn frame_views(fs: Seq<ThreadFrame>) -> Seq<(Seq<char>, Seq<char>)> {
    fs.map_values(|f: ThreadFrame| (f.class_method@, f.file_line@))
}

impl View for ThreadInfo {
    type V = ThreadView;

    open spec fn view(&self) -> ThreadView {
        ThreadView {
            name: self.name@,
            nid: self.nid,
            java_tid: opt_view(self.java_tid),
            state: self.state@,
            top_frame: self.top_frame@,
            frames: frame_views(self.frames@),
            raw_header: self.raw_header@,
        }
    }
}

pub open spec fn thread_views(ts: Seq<ThreadInfo>) -> Seq<ThreadView> {
    ts.map_values(|t: ThreadInfo| t@)
}

/// A thread as its header line (`"name" #31 ... nid=0x2f ...`) starts it.
pub open spec fn header_view(line: Seq<char>) -> ThreadView {
    let parts = split_char_spec(line, '"');
    ThreadView {
        name: if parts.len() > 1 {
            parts[1]
        } else {
            "unknown"@
        },
        nid: parse_nid_spec(line),
        java_tid: token_after_spec(line, "tid="@),
        state: "UNKNOWN"@,
        top_frame: Seq::empty(),
        frames: Seq::empty(),
        raw_header: line,
    }
}

pub open spec fn state_prefix() -> Seq<char> {
    "java.lang.Thread.State:"@
}

/// A line inside a thread's block: its state line sets the state, an `at ...` line adds
/// a frame (the first frame is the top frame), other lines change nothing.
pub open spec fn apply_line(t: ThreadView, line: Seq<char>) -> ThreadView {
    let trimmed = trim_spec(line);
    if starts_with_spec(trimmed, state_prefix()) {
        let toks = split_ws(trim_spec(trimmed.skip(state_prefix().len() as int)));
        ThreadView {
            state: if toks.len() > 0 {
                toks[0]
            } else {
                "UNKNOWN"@
            },
            ..t
        }
    } else if starts_with_spec(trimmed, "at "@) {
        let (m, fl) = split_frame_spec(trimmed.skip(3));
        ThreadView {
            top_frame: if t.top_frame.len() == 0 {
                m
            } else {
                t.top_frame
            },
            frames: t.frames.push((m, fl)),
            ..t
        }
    } else {
        t
    }
}

/// Threads completed and the thread being read, after the given lines.
pub open spec fn dump_scan(ls: Seq<Seq<char>>) -> (Seq<ThreadView>, Option<ThreadView>)
    decreases ls.len(),
{
    if ls.len() == 0 {
        (Seq::empty(), None)
    } else {
        let (done, cur) = dump_scan(ls.drop_last());
        let line = ls.last();
        if starts_with_spec(line, "\""@) {
            (
                match cur {
                    Some(t) => done.push(t),
                    None => done,
                },
                Some(header_view(line)),
            )
        } else {
            match cur {
                Some(t) => (done, Some(apply_line(t, line))),
                None => (done, None),
            }
        }
    }
}

/// The threads of a `Thread.print` dump, in order; lines before the first thread
/// header are ignored.
pub open spec fn parse_thread_dump_spec(text: Seq<char>) -> Seq<ThreadView> {
    let (done, cur) = dump_scan(lines_spec(text));
    match cur {
        Some(t) => done.push(t),
        None => done,
    }
}

fn header_thread(line: &[char]) -> (t: ThreadInfo)
    ensures
        t@ == header_view(line@),
{
    let parts = split_char(line, '"');
    let name = if parts.len() > 1 {
        assert(views(parts@)[1] == parts@[1]@);
        string_of(parts[1].as_slice())
    } else {
        "unknown".to_owned()
    };
    let tid_key = chars_of("tid=");
    let java_tid = match token_after(line, tid_key.as_slice()) {
        Some(v) => Some(string_of(v.as_slice())),
        None => None,
    };
    let t = ThreadInfo {
        name,
        nid: parse_nid(line),
        java_tid,
        state: "UNKNOWN".to_owned(),
        top_frame: String::new(),
        frames: Vec::new(),
        raw_header: string_of(line),
    };
    assert(t@.frames =~= Seq::<(Seq<char>, Seq<char>)>::empty());
    t
}

fn apply_thread_line(t: ThreadInfo, line: &[char]) -> (r: ThreadInfo)
    ensures
        r@ == apply_line(t@, line@),
{
    let trimmed = trim(line);
    let sp = chars_of("java.lang.Thread.State:");
    match strip_prefix(trimmed.as_slice(), sp.as_slice()) {
        Some(rest) => {
            let rest = trim(rest.as_slice());
            let toks = split_whitespace(rest.as_slice());
            let state = if toks.len() > 0 {
                assert(views(toks@)[0] == toks@[0]@);
                string_of(toks[0].as_slice())
            } else {
                "UNKNOWN".to_owned()
            };
            let mut t = t;
            t.state = state;
            return t;
        },
        None => {},
    }
    match strip_prefix_str(trimmed.as_slice(), "at ") {
        Some(frame) => {
            proof {
                reveal_strlit("at ");
            }
            let (method, file_line) = split_frame(frame.as_slice());
            let mut t = t;
            let ghost old_frames = t@.frames;
            if t.top_frame.as_str().is_empty() {
                t.top_frame = string_of(method.as_slice());
            }
            t.frames.push(ThreadFrame { class_method: string_of(method.as_slice()), file_line: string_of(file_line.as_slice()) });
            assert(t@.frames =~= old_frames.push((method@, file_line@)));
            t
        },
        None => t,
    }
}

/// `parse_thread_dump`: the threads of a HotSpot thread dump, with name, ids, state
/// and frames.
pub fn parse_thread_dump(text: &str) -> (r: Vec<ThreadInfo>)
    ensures
        thread_views(r@) == parse_thread_dump_spec(text@),
{
    let tc = chars_of(text);
    let ls = lines(tc.as_slice());
    let ghost lv = views(ls@);
    let mut done: Vec<ThreadInfo> = Vec::new();
    let mut current: Option<ThreadInfo> = None;
    let mut i: usize = 0;
    while i < ls.len()
        invariant
            i <= ls.len(),
            lv == views(ls@),
            (thread_views(done@), match current {
                Some(t) => Some(t@),
                None => None,
            }) == dump_scan(lv.take(i as int)),
        decreases ls.len() - i,
    {
        let line = ls[i].as_slice();
        proof {
            assert(lv.take(i + 1).drop_last() =~= lv.take(i as int));
            assert(lv.take(i + 1).last() == line@);
        }
        if starts_with_str(line, "\"") {
            let ghost old_done = thread_views(done@);
            match current {
                Some(t) => {
                    let ghost tv = t@;
                    done.push(t);
                    assert(thread_views(done@) =~= old_done.push(tv));
                },
                None => {},
            }
            current = Some(header_thread(line));
        } else {
            current = match current {
                Some(t) => Some(apply_thread_line(t, line)),
                None => None,
            };
        }
        i = i + 1;
    }
    assert(lv.take(ls@.len() as int) =~= lv);
    match current {
        Some(t) => {
            let ghost old_done = thread_views(done@);
            let ghost tv = t@;
            done.push(t);
            assert(thread_views(done@) =~= old_done.push(tv));
        },
        None => {},
    }
    done
}

/// Number of threads in the given state.
pub open spec fn count_state_spec(ts: Seq<ThreadView>, state: Seq<char>) -> nat
    decreases ts.len(),
{
    if ts.len() == 0 {
        0
    } else {
        count_state_spec(ts.drop_last(), state) + if ts.last().state == state {
            1nat
        } else {
            0nat
        }
    }
}

pub fn count_state(threads: &[ThreadInfo], state: &str) -> (r: usize)
    ensures
        r == count_state_spec(thread_views(threads@), state@),
{
    let sc = chars_of(state);
    let ghost tv = thread_views(threads@);
    let mut n: usize = 0;
    let mut i: usize = 0;
    while i < threads.len()
        invariant
            i <= threads.len(),
            tv == thread_views(threads@),
            sc@ == state@,
            n == count_state_spec(tv.take(i as int), state@),
            n <= i,
        decreases threads.len() - i,
    {
        let st = chars_of(threads[i].state.as_str());
        proof {
            assert(tv.take(i + 1).drop_last() =~= tv.take(i as int));
            assert(tv.take(i + 1).last() == threads@[i as int]@);
        }
        if seq_eq(st.as_slice(), sc.as_slice()) {
            n = n + 1;
        }
        i = i + 1;
    }
    assert(tv.take(threads@.len() as int) =~= tv);
    n
}


// ---------------------------------------------------------------------------
// Hot frames
// ---------------------------------------------------------------------------

pub struct HotFrame {
    pub method: String,
    pub count: usize,
    pub weight: usize,
    pub category: String,
}

/// A hot-frame tally entry: method, hits, accumulated weight.
pub type Tally = Seq<(Seq<char>, nat, nat)>;

/// Addition that stops at `usize::MAX`.
pub open spec fn sat_add(a: nat, b: nat) -> nat {
    if a + b > usize::MAX {
        usize::MAX as nat
    } else {
        a + b
    }
}

/// Weight of the frame at depth `idx` of a thread: frames near the top of a RUNNABLE
/// thread weigh most (10 down to 2), other threads' frames 4 down to 1.
pub open spec fn frame_weight(state: Seq<char>, idx: int) -> nat {
    let base: int = if state == "RUNNABLE"@ {
        10
    } else {
        4
    };
    let m: int = if idx < 8 {
        idx
    } else {
        8
    };
    if base - m >= 1 {
        (base - m) as nat
    } else {
        1
    }
}

pub open spec fn tally_has(t: Tally, m: Seq<char>) -> bool {
    exists|k: int| 0 <= k < t.len() && #[trigger] t[k].0 == m
}

pub open spec fn tally_distinct(t: Tally) -> bool {
    forall|i: int, j: int| 0 <= i < j < t.len() ==> t[i].0 != t[j].0
}

/// One more hit of method `m` with weight `w`.
pub open spec fn add_hit(t: Tally, m: Seq<char>, w: nat) -> Tally {
    if tally_has(t, m) {
        let k = choose|k: int| 0 <= k < t.len() && #[trigger] t[k].0 == m;
        t.update(k, (m, sat_add(t[k].1, 1), sat_add(t[k].2, w)))
    } else {
        t.push((m, 1nat, w))
    }
}

/// Number of frames from the top of a thread that count: at most 18.
pub open spec fn frames_considered(t: ThreadView) -> int {
    if t.frames.len() < 18 {
        t.frames.len() as int
    } else {
        18
    }
}

/// The tally after the first `k` frames of thread `th`, skipping JDK noise frames.
pub open spec fn add_frames(t: Tally, th: ThreadView, k: int) -> Tally
    decreases k,
{
    if k <= 0 {
        t
    } else {
        let before = add_frames(t, th, k - 1);
        let m = th.frames[k - 1].0;
        if is_noise_frame_spec(m) {
            before
        } else {
            add_hit(before, m, frame_weight(th.state, k - 1))
        }
    }
}

pub open spec fn add_threads(t: Tally, ts: Seq<ThreadView>) -> Tally
    decreases ts.len(),
{
    if ts.len() == 0 {
        t
    } else {
        let before = add_threads(t, ts.drop_last());
        add_frames(before, ts.last(), frames_considered(ts.last()))
    }
}

/// Hits and weights of every method over all thread dumps, in order of first appearance.
pub open spec fn hot_tally(dumps: Seq<Seq<char>>) -> Tally
    decreases dumps.len(),
{
    if dumps.len() == 0 {
        Seq::empty()
    } else {
        add_threads(hot_tally(dumps.drop_last()), parse_thread_dump_spec(dumps.last()))
    }
}

/// `(weight, hits)` of `a` is at least that of `b`, weight first.
pub open spec fn ranks_at_least(a: (Seq<char>, nat, nat), b: (Seq<char>, nat, nat)) -> bool {
    a.2 > b.2 || (a.2 == b.2 && a.1 >= b.1)
}

pub open spec fn min_nat(a: nat, b: nat) -> nat {
    if a < b {
        a
    } else {
        b
    }
}

/// `r` is the top of tally `t`: at most 40 distinct entries of `t`, ordered by weight
/// then hits, and no left-out entry ranks above an entry that was kept.
pub open spec fn is_top_ranking(t: Tally, r: Tally) -> bool {
    &&& r.len() == min_nat(40, t.len())
    &&& forall|i: int, j: int| 0 <= i < j < r.len() ==> r[i].0 != r[j].0
    &&& forall|i: int| 0 <= i < r.len() ==> t.contains(#[trigger] r[i])
    &&& forall|i: int, j: int| 0 <= i < j < r.len() ==> ranks_at_least(r[i], r[j])
    &&& forall|k: int, i: int|
        0 <= k < t.len() && 0 <= i < r.len() && !tally_has(r, t[k].0) ==> ranks_at_least(
            #[trigger] r[i],
            #[trigger] t[k],
        )
}

pub open spec fn hot_views(hs: Seq<HotFrame>) -> Tally {
    hs.map_values(|h: HotFrame| (h.method@, h.count as nat, h.weight as nat))
}

pub open spec fn entry_views(es: Seq<(Vec<char>, usize, usize)>) -> Tally {
    es.map_values(|e: (Vec<char>, usize, usize)| (e.0@, e.1 as nat, e.2 as nat))
}

fn weight_of(runnable: bool, idx: usize) -> (w: usize)
    ensures
        w == (if runnable {
            let m: int = if idx < 8 {
                idx as int
            } else {
                8
            };
            if 10 - m >= 1 {
                10 - m
            } else {
                1
            }
        } else {
            let m: int = if idx < 8 {
                idx as int
            } else {
                8
            };
            if 4 - m >= 1 {
                4 - m
            } else {
                1
            }
        }),
{
    let base: usize = if runnable {
        10
    } else {
        4
    };
    let m = if idx < 8 {
        idx
    } else {
        8
    };
    let w = base.saturating_sub(m);
    if w >= 1 {
        w
    } else {
        1
    }
}

fn add_hit_exec(es: &mut Vec<(Vec<char>, usize, usize)>, m: &[char], w: usize)
    requires
        tally_distinct(entry_views(old(es)@)),
    ensures
        entry_views(final(es)@) == add_hit(entry_views(old(es)@), m@, w as nat),
        tally_distinct(entry_views(final(es)@)),
{
    let ghost t = entry_views(es@);
    let mut k: usize = 0;
    while k < es.len()
        invariant
            k <= es.len(),
            es@ == old(es)@,
            t == entry_views(es@),
            tally_distinct(t),
            forall|j: int| 0 <= j < k ==> t[j].0 != m@,
        decreases es.len() - k,
    {
        if seq_eq(es[k].0.as_slice(), m) {
            let c = es[k].1;
            let ww = es[k].2;
            let nc = c.saturating_add(1);
            let nw = ww.saturating_add(w);
            proof {
                assert(t[k as int].0 == m@);
                assert(tally_has(t, m@));
                let kk = choose|kk: int| 0 <= kk < t.len() && #[trigger] t[kk].0 == m@;
                assert(kk == k);
            }
            let mv = slice_to_vec(m, 0, m.len());
            assert(mv@ =~= m@);
            es.set(k, (mv, nc, nw));
            assert(entry_views(es@) =~= add_hit(t, m@, w as nat));
            return ;
        }
        k = k + 1;
    }
    let mv = slice_to_vec(m, 0, m.len());
    assert(mv@ =~= m@);
    es.push((mv, 1, w));
    assert(!tally_has(t, m@));
    assert(entry_views(es@) =~= add_hit(t, m@, w as nat));
}

fn add_thread_frames(es: &mut Vec<(Vec<char>, usize, usize)>, th: &ThreadInfo)
    requires
        tally_distinct(entry_views(old(es)@)),
    ensures
        entry_views(final(es)@) == add_frames(entry_views(old(es)@), th@, frames_considered(th@)),
        tally_distinct(entry_views(final(es)@)),
{
    let n = if th.frames.len() < 18 {
        th.frames.len()
    } else {
        18
    };
    let rs = chars_of("RUNNABLE");
    let st = chars_of(th.state.as_str());
    let runnable = seq_eq(st.as_slice(), rs.as_slice());
    let mut k: usize = 0;
    assert(frame_views(th.frames@).len() == th.frames@.len());
    while k < n
        invariant
            k <= n,
            n as int == frames_considered(th@),
            n <= th.frames.len(),
            runnable == (th@.state == "RUNNABLE"@),
            entry_views(es@) == add_frames(entry_views(old(es)@), th@, k as int),
            tally_distinct(entry_views(es@)),
        decreases n - k,
    {
        let mc = chars_of(th.frames[k].class_method.as_str());
        assert(th@.frames[k as int].0 == mc@);
        if !is_noise_frame(mc.as_slice()) {
            let w = weight_of(runnable, k);
            assert(w == frame_weight(th@.state, k as int));
            add_hit_exec(es, mc.as_slice(), w);
        }
        k = k + 1;
    }
}

proof fn lemma_missing_index(sel: Seq<int>, n: int)
    requires
        sel.no_duplicates(),
        forall|i: int| 0 <= i < sel.len() ==> 0 <= #[trigger] sel[i] < n,
        sel.len() < n,
    ensures
        exists|k: int| 0 <= k < n && !sel.contains(k),
{
    broadcast use vstd::seq_lib::seq_to_set_is_finite;

    if forall|k: int| 0 <= k < n ==> sel.contains(k) {
        vstd::set_lib::lemma_int_range(0, n);
        sel.unique_seq_to_set();
        assert(vstd::set_lib::set_int_range(0, n).subset_of(sel.to_set()));
        vstd::set_lib::lemma_len_subset(vstd::set_lib::set_int_range(0, n), sel.to_set());
    }
}

/// `aggregate_hot_frames_from_dumps`: over all dumps, each method among the top 18
/// frames of a thread (JDK noise frames left out) gets one hit and a weight by depth;
/// the 40 heaviest methods are returned, heaviest first, each with its category.
pub fn aggregate_hot_frames_from_dumps(dumps: &[String]) -> (r: Vec<HotFrame>)
    ensures
        is_top_ranking(hot_tally(dumps@.map_values(|d: String| d@)), hot_views(r@)),
        forall|i: int|
            0 <= i < r.len() ==> (#[trigger] r@[i]).category@ == method_category_spec(
                r@[i].method@,
            ),
{
    let ghost dv = dumps@.map_values(|d: String| d@);
    let mut es: Vec<(Vec<char>, usize, usize)> = Vec::new();
    let mut d: usize = 0;
    assert(entry_views(es@) =~= hot_tally(dv.take(0)));
    while d < dumps.len()
        invariant
            d <= dumps.len(),
            dv == dumps@.map_values(|d: String| d@),
            entry_views(es@) == hot_tally(dv.take(d as int)),
            tally_distinct(entry_views(es@)),
        decreases dumps.len() - d,
    {
        let threads = parse_thread_dump(dumps[d].as_str());
        let ghost tv = thread_views(threads@);
        let ghost start = entry_views(es@);
        proof {
            assert(dv.take(d + 1).drop_last() =~= dv.take(d as int));
            assert(dv.take(d + 1).last() == dumps@[d as int]@);
        }
        let mut i: usize = 0;
        assert(tv.take(0) =~= Seq::<ThreadView>::empty());
        while i < threads.len()
            invariant
                i <= threads.len(),
                tv == thread_views(threads@),
                entry_views(es@) == add_threads(start, tv.take(i as int)),
                tally_distinct(entry_views(es@)),
            decreases threads.len() - i,
        {
            add_thread_frames(&mut es, &threads[i]);
            proof {
                assert(tv.take(i + 1).drop_last() =~= tv.take(i as int));
                assert(tv.take(i + 1).last() == threads@[i as int]@);
            }
            i = i + 1;
        }
        assert(tv.take(threads@.len() as int) =~= tv);
        d = d + 1;
    }
    assert(dv.take(dumps@.len() as int) =~= dv);
    let ghost t = entry_views(es@);
    let n = es.len();
    let limit: usize = if n < 40 {
        n
    } else {
        40
    };
    let mut chosen: Vec<bool> = Vec::new();
    let mut z: usize = 0;
    while z < n
        invariant
            z <= n,
            chosen@.len() == z,
            forall|k: int| 0 <= k < z ==> !chosen@[k],
        decreases n - z,
    {
        chosen.push(false);
        z = z + 1;
    }
    let ghost mut sel: Seq<int> = Seq::empty();
    let mut out: Vec<HotFrame> = Vec::new();
    while out.len() < limit
        invariant
            n == es.len(),
            t == entry_views(es@),
            tally_distinct(t),
            limit as nat == min_nat(40, t.len()),
            chosen@.len() == n,
            out@.len() == sel.len(),
            out@.len() <= limit,
            sel.no_duplicates(),
            forall|i: int| 0 <= i < sel.len() ==> 0 <= #[trigger] sel[i] < n,
            forall|k: int| 0 <= k < n ==> (chosen@[k] <==> sel.contains(k)),
            forall|i: int| 0 <= i < sel.len() ==> hot_views(out@)[i] == t[#[trigger] sel[i]],
            forall|i: int|
                0 <= i < out@.len() ==> (#[trigger] out@[i]).category@ == method_category_spec(
                    out@[i].method@,
                ),
            forall|i: int, j: int|
                0 <= i < j < sel.len() ==> ranks_at_least(t[sel[i]], t[sel[j]]),
            forall|i: int, k: int|
                0 <= i < sel.len() && 0 <= k < n && !chosen@[k] ==> ranks_at_least(
                    t[#[trigger] sel[i]],
                    #[trigger] t[k],
                ),
        decreases limit - out@.len(),
    {
        proof {
            lemma_missing_index(sel, n as int);
        }
        let mut best: usize = n;
        let mut k: usize = 0;
        while k < n
            invariant
                k <= n,
                n == es.len(),
                t == entry_views(es@),
                chosen@.len() == n,
                best == n || (best < k && !chosen@[best as int]),
                best == n ==> forall|j: int| 0 <= j < k ==> chosen@[j],
                best < n ==> forall|j: int|
                    0 <= j < k && !chosen@[j] ==> ranks_at_least(t[best as int], #[trigger] t[j]),
            decreases n - k,
        {
            if !chosen[k] {
                if best == n {
                    best = k;
                } else if es[k].2 > es[best].2 || (es[k].2 == es[best].2 && es[k].1 > es[best].1) {
                    best = k;
                }
            }
            k = k + 1;
        }
        proof {
            let kk = choose|kk: int| 0 <= kk < n && !sel.contains(kk);
            assert(!chosen@[kk]);
        }
        let method = string_of(es[best].0.as_slice());
        let category = method_category(es[best].0.as_slice());
        out.push(HotFrame { method, count: es[best].1, weight: es[best].2, category });
        let ghost old_chosen = chosen@;
        chosen.set(best, true);
        proof {
            let old_sel = sel;
            sel = sel.push(best as int);
            assert forall|i: int, j: int| 0 <= i < j < sel.len() implies sel[i] != sel[j] by {
                if j == sel.len() - 1 {
                    assert(old_sel.contains(sel[i]));
                }
            }
            assert(sel.no_duplicates());
            assert forall|i: int| 0 <= i < sel.len() implies hot_views(out@)[i] == t[
                #[trigger] sel[i]
            ] by {
                if i < old_sel.len() {
                    assert(hot_views(out@)[i].0 == out@[i].method@);
                }
            }
            assert forall|k: int| 0 <= k < n implies (chosen@[k] <==> sel.contains(k)) by {
                if k == best {
                    assert(sel[sel.len() - 1] == k);
                } else {
                    assert(chosen@[k] == old_chosen[k]);
                    if sel.contains(k) {
                        let w = choose|w: int| 0 <= w < sel.len() && sel[w] == k;
                        assert(w < old_sel.len());
                        assert(old_sel[w] == k);
                        assert(old_sel.contains(k));
                    }
                    if old_sel.contains(k) {
                        let w = choose|w: int| 0 <= w < old_sel.len() && old_sel[w] == k;
                        assert(sel[w] == k);
                        assert(sel.contains(k));
                    }
                }
            }
        }
    }
    proof {
        let r = hot_views(out@);
        assert forall|i: int| 0 <= i < r.len() implies t.contains(#[trigger] r[i]) by {
            assert(r[i] == t[sel[i]]);
        }
        assert forall|i: int, j: int| 0 <= i < j < r.len() implies r[i].0 != r[j].0 by {
            assert(r[i] == t[sel[i]]);
            assert(r[j] == t[sel[j]]);
        }
        assert forall|k: int, i: int|
            0 <= k < t.len() && 0 <= i < r.len() && !tally_has(r, t[k].0) implies ranks_at_least(
            #[trigger] r[i],
            #[trigger] t[k],
        ) by {
            assert(r[i] == t[sel[i]]);
            assert(t.len() == n);
            if chosen@[k] {
                assert(sel.contains(k));
                let w = choose|w: int| 0 <= w < sel.len() && sel[w] == k;
                assert(r[w] == t[sel[w]]);
                assert(r[w].0 == t[k].0);
                assert(tally_has(r, t[k].0));
            }
        }
        assert forall|i: int, j: int| 0 <= i < j < r.len() implies ranks_at_least(r[i], r[j]) by {
            assert(r[i] == t[sel[i]]);
            assert(r[j] == t[sel[j]]);
        }
    }
    out
}


// ---------------------------------------------------------------------------
// Processes and findings
// ---------------------------------------------------------------------------

pub struct JavaProcess {
    pub pid: u32,
    pub name: String,
    pub service_name: String,
    pub display_name: String,
    pub exe: String,
    pub cwd: String,
    pub cmd: String,
    pub main: String,
    pub jar: String,
    pub user: String,
    pub state: String,
    pub threads: usize,
    pub cpu_ticks: u64,
    pub memory_bytes: u64,
    pub heap_flags: Vec<String>,
    pub ports: Vec<String>,
    pub start_time: String,
    pub uptime: String,
    pub score: u32,
    pub attach_available: bool,
    pub attach_path: String,
}

pub struct JavaFinding {
    pub level: String,
    pub title: String,
    pub detail: String,
    pub suggestion: String,
}

pub struct FindingView {
    pub level: Seq<char>,
    pub title: Seq<char>,
    pub detail: Seq<char>,
    pub suggestion: Seq<char>,
}

impl View for JavaFinding {
    type V = FindingView;

    open spec fn view(&self) -> FindingView {
        FindingView {
            level: self.level@,
            title: self.title@,
            detail: self.detail@,
            suggestion: self.suggestion@,
        }
    }
}

pub open spec fn finding_views(fs: Seq<JavaFinding>) -> Seq<FindingView> {
    fs.map_values(|f: JavaFinding| f@)
}

pub open spec fn fv(level: Seq<char>, title: Seq<char>, detail: Seq<char>, suggestion: Seq<char>) -> FindingView {
    FindingView { level, title, detail, suggestion }
}

pub open spec fn finding_if(c: bool, f: FindingView) -> Seq<FindingView> {
    if c {
        seq![f]
    } else {
        Seq::empty()
    }
}

/// The thread with the most frames; the last one among equals.
pub open spec fn deepest_thread(ts: Seq<ThreadView>) -> Option<ThreadView>
    decreases ts.len(),
{
    if ts.len() == 0 {
        None
    } else {
        match deepest_thread(ts.drop_last()) {
            None => Some(ts.last()),
            Some(d) => if ts.last().frames.len() >= d.frames.len() {
                Some(ts.last())
            } else {
                Some(d)
            },
        }
    }
}

pub open spec fn is_external_category(c: Seq<char>) -> bool {
    c == "外部调用"@ || c == "数据库"@ || c == "Redis"@ || c == "搜索引擎"@
}

/// The first hot frame whose category is an outside dependency.
pub open spec fn first_external(hs: Seq<HotFrame>) -> Option<HotFrame>
    decreases hs.len(),
{
    if hs.len() == 0 {
        None
    } else if is_external_category(hs[0].category@) {
        Some(hs[0])
    } else {
        first_external(hs.drop_first())
    }
}

/// A heap flag that bounds the heap: `-Xmx...` or `...MaxRAMPercentage...` (any case).
pub open spec fn bounds_heap(f: Seq<char>) -> bool {
    let l = unicode_lowercase(f);
    starts_with_spec(l, "-xmx"@) || contains_spec(l, "maxrampercentage"@)
}

/// Tenths of a GiB in `bytes`, rounded to nearest, ties to even.
pub open spec fn gib_tenths(bytes: nat) -> nat {
    let num = bytes * 10;
    let den = 1073741824nat;
    let q = num / den;
    let r = num % den;
    if 2 * r > den || (2 * r == den && q % 2 == 1) {
        q + 1
    } else {
        q
    }
}

/// `bytes` in GiB with one decimal, as `{:.1}` writes `bytes as f64 / 1024^3`.
pub open spec fn gib_text(bytes: nat) -> Seq<char> {
    let t = gib_tenths(bytes);
    dec_spec(t / 10) + "."@ + dec_spec(t % 10)
}

pub open spec fn joined_headers(ts: Seq<ThreadView>) -> Seq<char> {
    join_spec(ts.map_values(|t: ThreadView| t.raw_header), "\n"@)
}

pub open spec fn attach_failed_finding(err: Seq<char>) -> FindingView {
    fv(
        "error"@,
        "无法读取 JVM 运行时"@,
        err,
        "确认运行用户和 Java 进程用户一致，JVM 未设置 -XX:+DisableAttachMechanism，容器 /tmp 可见。"@,
    )
}

pub open spec fn blocked_piece(threads: Seq<ThreadView>) -> Seq<FindingView> {
    let blocked = count_state_spec(threads, "BLOCKED"@);
    finding_if(
        blocked > 0,
        fv(
            "warn"@,
            "存在 BLOCKED 线程"@,
            dec_spec(blocked) + " 个线程正在等待锁，可能存在锁竞争或同步块耗时。"@,
            "查看 BLOCKED 线程顶部栈，重点检查 synchronized、ReentrantLock、连接池借还和缓存锁。"@,
        ),
    )
}

pub open spec fn runnable_piece(threads: Seq<ThreadView>) -> Seq<FindingView> {
    let runnable = count_state_spec(threads, "RUNNABLE"@);
    finding_if(
        runnable >= 16,
        fv(
            "warn"@,
            "RUNNABLE 线程偏多"@,
            dec_spec(runnable) + " 个线程处于 RUNNABLE，可能是 CPU 热点、忙等或高并发请求。"@,
            "优先查看热点方法列表，连续采样对比顶部方法是否稳定出现。"@,
        ),
    )
}

pub open spec fn top_piece(hot: Seq<HotFrame>) -> Seq<FindingView> {
    finding_if(
        hot.len() > 0,
        fv(
            "info"@,
            "最可疑耗时方法"@,
            hot[0].method@ + " 出现 "@ + dec_spec(hot[0].count as nat) + " 次，权重 "@ + dec_spec(
                hot[0].weight as nat,
            ),
            "如果该方法连续多次位于顶部，优先检查接口实现、SQL/HTTP 调用、锁等待或循环逻辑。"@,
        ),
    )
}

pub open spec fn deep_piece(threads: Seq<ThreadView>) -> Seq<FindingView> {
    match deepest_thread(threads) {
        Some(d) => finding_if(
            d.frames.len() >= 80,
            fv(
                "warn"@,
                "调用栈深度异常"@,
                "线程 "@ + d.name + " 当前调用栈深度 "@ + dec_spec(d.frames.len()) + " 层，顶部方法 "@
                    + d.top_frame + "。"@,
                "检查递归、AOP/代理链、序列化/反序列化嵌套、模板渲染或复杂业务编排是否导致栈过深。"@,
            ),
        ),
        None => Seq::empty(),
    }
}

pub open spec fn external_piece(hot: Seq<HotFrame>) -> Seq<FindingView> {
    match first_external(hot) {
        Some(h) => seq![
            fv(
                "warn"@,
                "外部依赖调用热点"@,
                h.method@ + " 在采样中出现 "@ + dec_spec(h.count as nat) + " 次，分类为 "@
                    + h.category@ + "，权重 "@ + dec_spec(h.weight as nat) + "。"@,
                "优先检查慢 SQL、HTTP/Redis/ES 超时、连接池等待、网络抖动、批量大小和重试风暴。"@,
            ),
        ],
        None => Seq::empty(),
    }
}

pub open spec fn repeated_piece(hot: Seq<HotFrame>) -> Seq<FindingView> {
    finding_if(
        hot.len() > 0 && hot[0].count >= 3 && hot[0].weight >= 20,
        fv(
            "warn"@,
            "热点方法持续聚集"@,
            hot[0].method@ + " 在多轮采样中稳定出现，命中 "@ + dec_spec(hot[0].count as nat)
                + " 次，权重 "@ + dec_spec(hot[0].weight as nat) + "。"@,
            "开启实时跟踪观察该方法是否持续居首；若稳定出现，建议定位对应接口、任务或消费线程的耗时来源。"@,
        ),
    )
}

pub open spec fn deadlock_piece(threads: Seq<ThreadView>) -> Seq<FindingView> {
    finding_if(
        contains_spec(unicode_lowercase(joined_headers(threads)), "deadlock"@),
        fv(
            "error"@,
            "疑似死锁线索"@,
            "线程转储中出现 deadlock 关键字。"@,
            "立即导出完整线程转储，定位互相持有的 monitor/lock，并按锁顺序、超时获取或无锁结构改造。"@,
        ),
    )
}

pub open spec fn heap_limit_piece(heap_flags: Seq<Seq<char>>) -> Seq<FindingView> {
    finding_if(
        !(exists|i: int| 0 <= i < heap_flags.len() && bounds_heap(#[trigger] heap_flags[i])),
        fv(
            "warn"@,
            "未识别到最大堆限制"@,
            "启动参数中未发现 -Xmx 或 MaxRAMPercentage。"@,
            "生产进程建议明确堆上限，避免容器/宿主机内存压力下被 OOM Killer 终止。"@,
        ),
    )
}

pub open spec fn oom_piece(heap: Seq<char>) -> Seq<FindingView> {
    let lower_heap = unicode_lowercase(heap);
    finding_if(
        contains_spec(lower_heap, "outofmemory"@) || contains_spec(
            lower_heap,
            "java.lang.outofmemoryerror"@,
        ),
        fv(
            "error"@,
            "发现 OOM 痕迹"@,
            "JVM 诊断输出中包含 OutOfMemoryError。"@,
            "结合类直方图排名检查 byte[]、char[]、集合、缓存对象和业务实体是否异常增长。"@,
        ),
    )
}

pub open spec fn rss_piece(memory_bytes: nat) -> Seq<FindingView> {
    finding_if(
        memory_bytes > 0 && memory_bytes > 8589934592,
        fv(
            "warn"@,
            "RSS 内存较高"@,
            "当前 RSS 约 "@ + gib_text(memory_bytes) + " GB。"@,
            "比较堆信息与 RSS 差异，若 RSS 明显大于堆，检查 DirectBuffer、线程栈、JNI/native 内存。"@,
        ),
    )
}

/// The diagnostic findings for one analysed JVM, in this order: BLOCKED threads,
/// many RUNNABLE threads, the top hot method, a very deep stack, an outside-dependency
/// hot spot, a persistently hot method, deadlock hints, no heap limit, OOM traces, high
/// RSS. When the JVM could not be attached, only the attach failure is reported.
pub open spec fn build_findings_spec(
    heap_flags: Seq<Seq<char>>,
    memory_bytes: nat,
    threads: Seq<ThreadView>,
    hot: Seq<HotFrame>,
    heap: Seq<char>,
    attach_ok: bool,
    attach_error: Seq<char>,
) -> Seq<FindingView> {
    if !attach_ok {
        seq![attach_failed_finding(attach_error)]
    } else {
        blocked_piece(threads) + runnable_piece(threads) + top_piece(hot) + deep_piece(threads)
            + external_piece(hot) + repeated_piece(hot) + deadlock_piece(threads)
            + heap_limit_piece(heap_flags) + oom_piece(heap) + rss_piece(memory_bytes)
    }
}

fn finding(level: &str, title: &str, detail: Vec<char>, suggestion: &str) -> (f: JavaFinding)
    ensures
        f@ == fv(level@, title@, detail@, suggestion@),
{
    JavaFinding {
        level: level.to_owned(),
        title: title.to_owned(),
        detail: string_of(detail.as_slice()),
        suggestion: suggestion.to_owned(),
    }
}

fn one(f: JavaFinding) -> (r: Vec<JavaFinding>)
    ensures
        finding_views(r@) == seq![f@],
{
    let mut r: Vec<JavaFinding> = Vec::new();
    r.push(f);
    assert(finding_views(r@) =~= seq![f@]);
    r
}

fn none() -> (r: Vec<JavaFinding>)
    ensures
        finding_views(r@) == Seq::<FindingView>::empty(),
{
    let r: Vec<JavaFinding> = Vec::new();
    assert(finding_views(r@) =~= Seq::<FindingView>::empty());
    r
}

fn append_findings(fs: &mut Vec<JavaFinding>, more: Vec<JavaFinding>)
    ensures
        finding_views(final(fs)@) == finding_views(old(fs)@) + finding_views(more@),
{
    let mut more = more;
    let ghost m = more@;
    fs.append(&mut more);
    assert(finding_views(fs@) =~= finding_views(old(fs)@) + finding_views(m));
}

/// The thread with the most frames (the last among equals).
fn deepest(threads: &[ThreadInfo]) -> (r: Option<usize>)
    ensures
        match deepest_thread(thread_views(threads@)) {
            Some(d) => r matches Some(i) && i < threads.len() && threads@[i as int]@ == d,
            None => r is None,
        },
{
    let ghost tv = thread_views(threads@);
    let mut best: Option<usize> = None;
    let mut i: usize = 0;
    while i < threads.len()
        invariant
            i <= threads.len(),
            tv == thread_views(threads@),
            match deepest_thread(tv.take(i as int)) {
                Some(d) => best matches Some(b) && b < i && threads@[b as int]@ == d,
                None => best is None,
            },
        decreases threads.len() - i,
    {
        proof {
            assert(tv.take(i + 1).drop_last() =~= tv.take(i as int));
            assert(tv.take(i + 1).last() == threads@[i as int]@);
            assert(threads@[i as int]@.frames.len() == threads@[i as int].frames@.len());
        }
        match best {
            None => {
                best = Some(i);
            },
            Some(b) => {
                assert(threads@[b as int]@.frames.len() == threads@[b as int].frames@.len());
                if threads[i].frames.len() >= threads[b].frames.len() {
                    best = Some(i);
                }
            },
        }
        i = i + 1;
    }
    assert(tv.take(threads@.len() as int) =~= tv);
    best
}

fn is_external(c: &[char]) -> (r: bool)
    ensures
        r == is_external_category(c@),
{
    eq_str(c, "外部调用") || eq_str(c, "数据库") || eq_str(c, "Redis") || eq_str(c, "搜索引擎")
}

fn find_external(hot: &[HotFrame]) -> (r: Option<usize>)
    ensures
        match first_external(hot@) {
            Some(h) => r matches Some(i) && i < hot.len() && hot@[i as int] == h,
            None => r is None,
        },
{
    let mut i: usize = 0;
    assert(hot@.skip(0) =~= hot@);
    while i < hot.len()
        invariant
            i <= hot.len(),
            first_external(hot@) == first_external(hot@.skip(i as int)),
        decreases hot.len() - i,
    {
        let c = chars_of(hot[i].category.as_str());
        proof {
            assert(hot@.skip(i as int)[0] == hot@[i as int]);
            assert(hot@.skip(i as int).drop_first() =~= hot@.skip(i + 1));
        }
        if is_external(c.as_slice()) {
            return Some(i);
        }
        i = i + 1;
    }
    None
}

fn gib_tenths_exec(bytes: u64) -> (t: u64)
    ensures
        t == gib_tenths(bytes as nat),
{
    let num: u128 = (bytes as u128) * 10;
    let den: u128 = 1073741824;
    let q = num / den;
    let r = num % den;
    assert(q <= 18446744073709551615u128 * 10 / 1073741824) by (nonlinear_arith)
        requires
            num <= 18446744073709551615u128 * 10,
            q == num / den,
            den == 1073741824,
    ;
    let t = if 2 * r > den || (2 * r == den && q % 2 == 1) {
        q + 1
    } else {
        q
    };
    t as u64
}

fn blocked_finding(threads: &[ThreadInfo]) -> (r: Vec<JavaFinding>)
    ensures
        finding_views(r@) == blocked_piece(thread_views(threads@)),
{
    let blocked = count_state(threads, "BLOCKED");
    if blocked > 0 {
        let mut d = dec(blocked as u64);
        push_str(&mut d, " 个线程正在等待锁，可能存在锁竞争或同步块耗时。");
        one(
            finding(
                "warn",
                "存在 BLOCKED 线程",
                d,
                "查看 BLOCKED 线程顶部栈，重点检查 synchronized、ReentrantLock、连接池借还和缓存锁。",
            ),
        )
    } else {
        none()
    }
}

fn runnable_finding(threads: &[ThreadInfo]) -> (r: Vec<JavaFinding>)
    ensures
        finding_views(r@) == runnable_piece(thread_views(threads@)),
{
    let runnable = count_state(threads, "RUNNABLE");
    if runnable >= 16 {
        let mut d = dec(runnable as u64);
        push_str(&mut d, " 个线程处于 RUNNABLE，可能是 CPU 热点、忙等或高并发请求。");
        one(
            finding(
                "warn",
                "RUNNABLE 线程偏多",
                d,
                "优先查看热点方法列表，连续采样对比顶部方法是否稳定出现。",
            ),
        )
    } else {
        none()
    }
}

fn top_finding(hot: &[HotFrame]) -> (r: Vec<JavaFinding>)
    ensures
        finding_views(r@) == top_piece(hot@),
{
    if hot.len() > 0 {
        let mut d = chars_of(hot[0].method.as_str());
        push_str(&mut d, " 出现 ");
        push_dec(&mut d, hot[0].count as u64);
        push_str(&mut d, " 次，权重 ");
        push_dec(&mut d, hot[0].weight as u64);
        one(
            finding(
                "info",
                "最可疑耗时方法",
                d,
                "如果该方法连续多次位于顶部，优先检查接口实现、SQL/HTTP 调用、锁等待或循环逻辑。",
            ),
        )
    } else {
        none()
    }
}

fn deep_finding(threads: &[ThreadInfo]) -> (r: Vec<JavaFinding>)
    ensures
        finding_views(r@) == deep_piece(thread_views(threads@)),
{
    match deepest(threads) {
        Some(b) => {
            let t = &threads[b];
            assert(t@.frames.len() == t.frames@.len());
            if t.frames.len() >= 80 {
                let mut d = chars_of("线程 ");
                push_str(&mut d, t.name.as_str());
                push_str(&mut d, " 当前调用栈深度 ");
                push_dec(&mut d, t.frames.len() as u64);
                push_str(&mut d, " 层，顶部方法 ");
                push_str(&mut d, t.top_frame.as_str());
                push_str(&mut d, "。");
                one(
                    finding(
                        "warn",
                        "调用栈深度异常",
                        d,
                        "检查递归、AOP/代理链、序列化/反序列化嵌套、模板渲染或复杂业务编排是否导致栈过深。",
                    ),
                )
            } else {
                none()
            }
        },
        None => none(),
    }
}

fn external_finding(hot: &[HotFrame]) -> (r: Vec<JavaFinding>)
    ensures
        finding_views(r@) == external_piece(hot@),
{
    match find_external(hot) {
        Some(k) => {
            let h = &hot[k];
            let mut d = chars_of(h.method.as_str());
            push_str(&mut d, " 在采样中出现 ");
            push_dec(&mut d, h.count as u64);
            push_str(&mut d, " 次，分类为 ");
            push_str(&mut d, h.category.as_str());
            push_str(&mut d, "，权重 ");
            push_dec(&mut d, h.weight as u64);
            push_str(&mut d, "。");
            one(
                finding(
                    "warn",
                    "外部依赖调用热点",
                    d,
                    "优先检查慢 SQL、HTTP/Redis/ES 超时、连接池等待、网络抖动、批量大小和重试风暴。",
                ),
            )
        },
        None => none(),
    }
}

fn repeated_finding(hot: &[HotFrame]) -> (r: Vec<JavaFinding>)
    ensures
        finding_views(r@) == repeated_piece(hot@),
{
    if hot.len() > 0 && hot[0].count >= 3 && hot[0].weight >= 20 {
        let mut d = chars_of(hot[0].method.as_str());
        push_str(&mut d, " 在多轮采样中稳定出现，命中 ");
        push_dec(&mut d, hot[0].count as u64);
        push_str(&mut d, " 次，权重 ");
        push_dec(&mut d, hot[0].weight as u64);
        push_str(&mut d, "。");
        one(
            finding(
                "warn",
                "热点方法持续聚集",
                d,
                "开启实时跟踪观察该方法是否持续居首；若稳定出现，建议定位对应接口、任务或消费线程的耗时来源。",
            ),
        )
    } else {
        none()
    }
}

fn raw_headers(threads: &[ThreadInfo]) -> (r: Vec<Vec<char>>)
    ensures
        views(r@) == thread_views(threads@).map_values(|t: ThreadView| t.raw_header),
{
    let ghost tv = thread_views(threads@);
    let mut headers: Vec<Vec<char>> = Vec::new();
    let mut i: usize = 0;
    while i < threads.len()
        invariant
            i <= threads.len(),
            tv == thread_views(threads@),
            headers@.len() == i,
            forall|j: int| 0 <= j < i ==> #[trigger] headers@[j]@ == tv[j].raw_header,
        decreases threads.len() - i,
    {
        let h = chars_of(threads[i].raw_header.as_str());
        headers.push(h);
        i = i + 1;
    }
    assert(views(headers@) =~= tv.map_values(|t: ThreadView| t.raw_header));
    headers
}

fn deadlock_finding(threads: &[ThreadInfo]) -> (r: Vec<JavaFinding>)
    ensures
        finding_views(r@) == deadlock_piece(thread_views(threads@)),
{
    let headers = raw_headers(threads);
    let nl = chars_of("\n");
    let joined = join(headers.as_slice(), nl.as_slice());
    assert(views(headers@) =~= headers@.map_values(|v: Vec<char>| v@));
    let dump_text = to_lowercase(joined.as_slice());
    if contains_str(dump_text.as_slice(), "deadlock") {
        one(
            finding(
                "error",
                "疑似死锁线索",
                chars_of("线程转储中出现 deadlock 关键字。"),
                "立即导出完整线程转储，定位互相持有的 monitor/lock，并按锁顺序、超时获取或无锁结构改造。",
            ),
        )
    } else {
        none()
    }
}

fn heap_limited(flags: &[String]) -> (r: bool)
    ensures
        r == exists|i: int| 0 <= i < flags.len() && bounds_heap(#[trigger] string_views(flags@)[i]),
{
    let ghost fl = string_views(flags@);
    let mut i: usize = 0;
    while i < flags.len()
        invariant
            i <= flags.len(),
            fl == string_views(flags@),
            forall|j: int| 0 <= j < i ==> !bounds_heap(#[trigger] fl[j]),
        decreases flags.len() - i,
    {
        let fc = chars_of(flags[i].as_str());
        let l = to_lowercase(fc.as_slice());
        assert(fl[i as int] == fc@);
        if starts_with_str(l.as_slice(), "-xmx") || contains_str(l.as_slice(), "maxrampercentage") {
            return true;
        }
        i = i + 1;
    }
    false
}

fn heap_limit_finding(flags: &[String]) -> (r: Vec<JavaFinding>)
    ensures
        finding_views(r@) == heap_limit_piece(string_views(flags@)),
{
    if !heap_limited(flags) {
        one(
            finding(
                "warn",
                "未识别到最大堆限制",
                chars_of("启动参数中未发现 -Xmx 或 MaxRAMPercentage。"),
                "生产进程建议明确堆上限，避免容器/宿主机内存压力下被 OOM Killer 终止。",
            ),
        )
    } else {
        none()
    }
}

fn oom_finding(heap: &str) -> (r: Vec<JavaFinding>)
    ensures
        finding_views(r@) == oom_piece(heap@),
{
    let heap_chars = chars_of(heap);
    let lower_heap = to_lowercase(heap_chars.as_slice());
    if contains_str(lower_heap.as_slice(), "outofmemory") || contains_str(
        lower_heap.as_slice(),
        "java.lang.outofmemoryerror",
    ) {
        one(
            finding(
                "error",
                "发现 OOM 痕迹",
                chars_of("JVM 诊断输出中包含 OutOfMemoryError。"),
                "结合类直方图排名检查 byte[]、char[]、集合、缓存对象和业务实体是否异常增长。",
            ),
        )
    } else {
        none()
    }
}

fn rss_finding(memory_bytes: u64) -> (r: Vec<JavaFinding>)
    ensures
        finding_views(r@) == rss_piece(memory_bytes as nat),
{
    if memory_bytes > 0 && memory_bytes > 8 * 1024 * 1024 * 1024 {
        let t = gib_tenths_exec(memory_bytes);
        let mut d = chars_of("当前 RSS 约 ");
        push_dec(&mut d, t / 10);
        push_str(&mut d, ".");
        push_dec(&mut d, t % 10);
        push_str(&mut d, " GB。");
        assert(d@ =~= "当前 RSS 约 "@ + gib_text(memory_bytes as nat) + " GB。"@);
        one(
            finding(
                "warn",
                "RSS 内存较高",
                d,
                "比较堆信息与 RSS 差异，若 RSS 明显大于堆，检查 DirectBuffer、线程栈、JNI/native 内存。",
            ),
        )
    } else {
        none()
    }
}

/// `build_findings`: the rule engine's findings for an analysed JVM (see
/// `build_findings_spec`). The class histogram takes no part in the rules.
pub fn build_findings(
    process: &JavaProcess,
    threads: &[ThreadInfo],
    hot: &[HotFrame],
    heap: &str,
    histogram: &str,
    attach_ok: bool,
    attach_error: &str,
) -> (r: Vec<JavaFinding>)
    ensures
        finding_views(r@) == build_findings_spec(
            string_views(process.heap_flags@),
            process.memory_bytes as nat,
            thread_views(threads@),
            hot@,
            heap@,
            attach_ok,
            attach_error@,
        ),
{
    if !attach_ok {
        let f = finding(
            "error",
            "无法读取 JVM 运行时",
            chars_of(attach_error),
            "确认运行用户和 Java 进程用户一致，JVM 未设置 -XX:+DisableAttachMechanism，容器 /tmp 可见。",
        );
        return one(f);
    }
    let mut findings = blocked_finding(threads);
    append_findings(&mut findings, runnable_finding(threads));
    append_findings(&mut findings, top_finding(hot));
    append_findings(&mut findings, deep_finding(threads));
    append_findings(&mut findings, external_finding(hot));
    append_findings(&mut findings, repeated_finding(hot));
    append_findings(&mut findings, deadlock_finding(threads));
    append_findings(&mut findings, heap_limit_finding(process.heap_flags.as_slice()));
    append_findings(&mut findings, oom_finding(heap));
    append_findings(&mut findings, rss_finding(process.memory_bytes));
    findings
}


// ---------------------------------------------------------------------------
// Analyses and fleet scans
// ---------------------------------------------------------------------------

/// Thread states counted in one thread dump. `states` holds each state that occurs
/// with its count, in the order of the state names.
pub struct ThreadSample {
    pub timestamp: String,
    pub states: Vec<(String, usize)>,
    pub runnable: usize,
    pub blocked: usize,
    pub waiting: usize,
    pub timed_waiting: usize,
}

/// One line of the progress log of an analysis.
pub struct JavaAnalysisLog {
    pub timestamp: String,
    pub level: String,
    pub stage: String,
    pub message: String,
    pub percent: u8,
}

/// A finished analysis of one Java process. `summary` holds key and value pairs in
/// the order of the keys, each key once.
pub struct JavaAnalysis {
    pub process: JavaProcess,
    pub progress: u8,
    pub runtime_logs: Vec<JavaAnalysisLog>,
    pub attach_ok: bool,
    pub attach_error: String,
    pub thread_dump: String,
    pub heap_info: String,
    pub class_histogram: String,
    pub threads: Vec<ThreadInfo>,
    pub hot_frames: Vec<HotFrame>,
    pub samples: Vec<ThreadSample>,
    pub findings: Vec<JavaFinding>,
    pub summary: Vec<(String, String)>,
}

pub struct JavaAnalyzeRequest {
    pub pid: u32,
    pub samples: Option<u8>,
    pub interval_ms: Option<u64>,
    pub include_histogram: Option<bool>,
    pub cancel_key: Option<String>,
}

pub struct JavaFleetScanRequest {
    pub samples: Option<u8>,
    pub interval_ms: Option<u64>,
    pub include_histogram: Option<bool>,
    pub max_processes: Option<usize>,
    pub cancel_key: Option<String>,
}

pub struct JavaHeapDumpRequest {
    pub pid: u32,
    pub live: Option<bool>,
    pub cancel_key: Option<String>,
}

pub struct JavaHeapDump {
    pub path: String,
    pub filename: String,
    pub bytes: u64,
    pub message: String,
}

pub struct JavaFleetFinding {
    pub pid: u32,
    pub service_name: String,
    pub level: String,
    pub title: String,
    pub detail: String,
    pub suggestion: String,
}

pub struct JavaProcessRuleReport {
    pub process: JavaProcess,
    pub attach_ok: bool,
    pub error: String,
    pub thread_count: usize,
    pub hot_method: String,
    pub findings: Vec<JavaFinding>,
    pub summary: Vec<(String, String)>,
}

pub struct JavaFleetScan {
    pub task_key: String,
    pub progress: u8,
    pub runtime_logs: Vec<JavaAnalysisLog>,
    pub total: usize,
    pub analyzed: usize,
    pub warnings: usize,
    pub errors: usize,
    pub reports: Vec<JavaProcessRuleReport>,
    pub findings: Vec<JavaFleetFinding>,
}

pub open spec fn clamp(x: int, lo: int, hi: int) -> int {
    if x < lo {
        lo
    } else if x > hi {
        hi
    } else {
        x
    }
}

/// How an analysis samples: the number of thread dumps (3 unless asked, kept within
/// 1 to 12), the pause between them in milliseconds (900 unless asked, kept within
/// 200 to 5000), and whether the class histogram is read (unless asked not to).
pub fn sampling_plan(req: &JavaAnalyzeRequest) -> (r: (u8, u64, bool))
    ensures
        r.0 == clamp(
            match req.samples {
                Some(n) => n as int,
                None => 3,
            },
            1,
            12,
        ),
        r.1 == clamp(
            match req.interval_ms {
                Some(n) => n as int,
                None => 900,
            },
            200,
            5000,
        ),
        r.2 == match req.include_histogram {
            Some(b) => b,
            None => true,
        },
{
    let s: u8 = match req.samples {
        Some(n) => n,
        None => 3,
    };
    let s: u8 = if s < 1 {
        1
    } else if s > 12 {
        12
    } else {
        s
    };
    let iv: u64 = match req.interval_ms {
        Some(n) => n,
        None => 900,
    };
    let iv: u64 = if iv < 200 {
        200
    } else if iv > 5000 {
        5000
    } else {
        iv
    };
    let h = match req.include_histogram {
        Some(b) => b,
        None => true,
    };
    (s, iv, h)
}

/// Progress shown before sampling round `idx` of `samples`: from 58 up, at most 84.
pub open spec fn sampling_percent_spec(idx: nat, samples: nat) -> int {
    let step: int = if idx * 24 > 255 {
        255
    } else {
        (idx * 24) as int
    };
    let d: int = if samples > 1 {
        samples as int
    } else {
        1
    };
    let p: int = 58 + step / d;
    if p > 84 {
        84
    } else {
        p
    }
}

pub fn sampling_percent(idx: usize, samples: u8) -> (r: u8)
    requires
        1 <= idx <= samples,
    ensures
        r == sampling_percent_spec(idx as nat, samples as nat),
{
    let i: u8 = idx as u8;
    let wide: u16 = (i as u16) * 24;
    let step: u8 = if wide > 255 {
        255
    } else {
        wide as u8
    };
    let d: u8 = if samples > 1 {
        samples
    } else {
        1
    };
    let q: u8 = step / d;
    assert((q as int) <= 24) by (nonlinear_arith)
        requires
            (q as int) == (step as int) / (d as int),
            (step as int) <= (i as int) * 24,
            (i as int) <= (d as int),
            (d as int) >= 1,
    ;
    let p: u8 = 58 + q;
    if p > 84 {
        84
    } else {
        p
    }
}

/// Progress shown before the scan of process `idx` (from 0) of `total`.
pub open spec fn fleet_percent_spec(idx: nat, total: nat) -> int {
    if total == 0 {
        100
    } else {
        let q: int = ((idx + 1) * 84) as int / (total as int);
        10 + if q > 84 {
            84
        } else {
            q
        }
    }
}

pub fn fleet_percent(idx: usize, total: usize) -> (r: u8)
    requires
        (idx + 1) * 84 <= usize::MAX,
    ensures
        r == fleet_percent_spec(idx as nat, total as nat),
{
    if total == 0 {
        100
    } else {
        let q: usize = ((idx + 1) * 84) / total;
        let q: usize = if q > 84 {
            84
        } else {
            q
        };
        10 + (q as u8)
    }
}

/// How many processes a fleet scan takes at most: 64 unless asked, kept within 1 to 256.
pub fn fleet_limit(req: &JavaFleetScanRequest) -> (r: usize)
    ensures
        r == clamp(
            match req.max_processes {
                Some(n) => n as int,
                None => 64,
            },
            1,
            256,
        ),
{
    let m: usize = match req.max_processes {
        Some(n) => n,
        None => 64,
    };
    if m < 1 {
        1
    } else if m > 256 {
        256
    } else {
        m
    }
}

/// The analysis that a fleet scan asks for process `pid`: 2 samples unless asked
/// (within 1 to 4), 240 ms apart unless asked (within 180 to 800), with the class
/// histogram unless asked not to.
pub fn fleet_analyze_request(req: &JavaFleetScanRequest, pid: u32) -> (r: JavaAnalyzeRequest)
    ensures
        r.pid == pid,
        r.samples == Some(
            clamp(
                match req.samples {
                    Some(n) => n as int,
                    None => 2,
                },
                1,
                4,
            ) as u8,
        ),
        r.interval_ms == Some(
            clamp(
                match req.interval_ms {
                    Some(n) => n as int,
                    None => 240,
                },
                180,
                800,
            ) as u64,
        ),
        r.include_histogram == Some(
            match req.include_histogram {
                Some(b) => b,
                None => true,
            },
        ),
        match r.cancel_key {
            Some(k) => req.cancel_key matches Some(c) && k@ == c@,
            None => req.cancel_key is None,
        },
{
    let s: u8 = match req.samples {
        Some(n) => n,
        None => 2,
    };
    let s: u8 = if s < 1 {
        1
    } else if s > 4 {
        4
    } else {
        s
    };
    let iv: u64 = match req.interval_ms {
        Some(n) => n,
        None => 240,
    };
    let iv: u64 = if iv < 180 {
        180
    } else if iv > 800 {
        800
    } else {
        iv
    };
    let h = match req.include_histogram {
        Some(b) => b,
        None => true,
    };
    let key = match &req.cancel_key {
        Some(k) => Some(k.clone()),
        None => None,
    };
    JavaAnalyzeRequest { pid, samples: Some(s), interval_ms: Some(iv), include_histogram: Some(h), cancel_key: key }
}

/// The name of a heap dump file: the service name with `/`, `\`, space and `:`
/// made `_`, the process number and the time stamp.
pub open spec fn dump_safe_char(c: char) -> char {
    if c == '/' || c == '\\' || c == ' ' || c == ':' {
        '_'
    } else {
        c
    }
}

pub open spec fn heap_dump_filename_spec(service: Seq<char>, pid: nat, ts: Seq<char>) -> Seq<char> {
    "dm-java-heap-"@ + service.map_values(|c: char| dump_safe_char(c)) + "-"@ + dec_spec(pid) + "-"@ + ts
        + ".hprof"@
}

pub fn heap_dump_filename(service: &str, pid: u32, ts: &str) -> (r: String)
    ensures
        r@ == heap_dump_filename_spec(service@, pid as nat, ts@),
{
    let sc = chars_of(service);
    let mut out: Vec<char> = Vec::new();
    push_str(&mut out, "dm-java-heap-");
    let ghost head = out@;
    let mut i: usize = 0;
    while i < sc.len()
        invariant
            i <= sc@.len(),
            out@ == head + sc@.take(i as int).map_values(|c: char| dump_safe_char(c)),
        decreases sc.len() - i,
    {
        let c = sc[i];
        let d = if c == '/' || c == '\\' || c == ' ' || c == ':' {
            '_'
        } else {
            c
        };
        out.push(d);
        assert(sc@.take(i + 1).map_values(|c: char| dump_safe_char(c)) =~= sc@.take(i as int).map_values(
            |c: char| dump_safe_char(c),
        ).push(d));
        i = i + 1;
    }
    assert(sc@.take(i as int) =~= sc@);
    push_str(&mut out, "-");
    push_dec(&mut out, pid as u64);
    push_str(&mut out, "-");
    push_str(&mut out, ts);
    push_str(&mut out, ".hprof");
    string_of(out.as_slice())
}


/// Number of fleet findings at `level`.
pub open spec fn count_fleet_level(fs: Seq<JavaFleetFinding>, level: Seq<char>) -> nat
    decreases fs.len(),
{
    if fs.len() == 0 {
        0
    } else {
        count_fleet_level(fs.drop_last(), level) + if fs.last().level@ == level {
            1nat
        } else {
            0nat
        }
    }
}

/// Number of findings at `level`.
pub open spec fn count_finding_level(fs: Seq<FindingView>, level: Seq<char>) -> nat
    decreases fs.len(),
{
    if fs.len() == 0 {
        0
    } else {
        count_finding_level(fs.drop_last(), level) + if fs.last().level == level {
            1nat
        } else {
            0nat
        }
    }
}

/// The warning and error counts of a scan are those of its findings.
pub open spec fn fleet_consistent(scan: JavaFleetScan) -> bool {
    &&& scan.errors == count_fleet_level(scan.findings@, "error"@)
    &&& scan.warnings == count_fleet_level(scan.findings@, "warn"@)
}

/// The fleet finding that a finding of process `pid` (service `service`) gives.
pub open spec fn fleet_finding_of(g: JavaFleetFinding, pid: u32, service: Seq<char>, f: FindingView) -> bool {
    &&& g.pid == pid
    &&& g.service_name@ == service
    &&& g.level@ == f.level
    &&& g.title@ == f.title
    &&& g.detail@ == f.detail
    &&& g.suggestion@ == f.suggestion
}

/// A scan that has looked at nothing yet.
pub fn fleet_scan_new(task_key: String, total: usize) -> (scan: JavaFleetScan)
    ensures
        scan.task_key == task_key,
        scan.total == total,
        scan.progress == 0,
        scan.runtime_logs@.len() == 0,
        scan.analyzed == 0,
        scan.warnings == 0,
        scan.errors == 0,
        scan.reports@.len() == 0,
        scan.findings@.len() == 0,
        fleet_consistent(scan),
{
    JavaFleetScan {
        task_key,
        progress: 0,
        runtime_logs: Vec::new(),
        total,
        analyzed: 0,
        warnings: 0,
        errors: 0,
        reports: Vec::new(),
        findings: Vec::new(),
    }
}

fn copy_finding(f: &JavaFinding) -> (g: JavaFinding)
    ensures
        g@ == f@,
{
    JavaFinding {
        level: f.level.clone(),
        title: f.title.clone(),
        detail: f.detail.clone(),
        suggestion: f.suggestion.clone(),
    }
}

/// Adds the analysis of one process to a scan: each of its findings becomes a fleet
/// finding of the process and is counted as a warning or an error by its level, and
/// the process gets a report.
pub fn fleet_add_analysis(scan: &mut JavaFleetScan, analysis: JavaAnalysis)
    requires
        old(scan).errors + count_finding_level(finding_views(analysis.findings@), "error"@) <= usize::MAX,
        old(scan).warnings + count_finding_level(finding_views(analysis.findings@), "warn"@) <= usize::MAX,
    ensures
        final(scan).errors == old(scan).errors + count_finding_level(finding_views(analysis.findings@), "error"@),
        final(scan).warnings == old(scan).warnings + count_finding_level(finding_views(analysis.findings@), "warn"@),
        final(scan).findings@.len() == old(scan).findings@.len() + analysis.findings@.len(),
        final(scan).findings@.take(old(scan).findings@.len() as int) == old(scan).findings@,
        forall|i: int|
            0 <= i < analysis.findings@.len() ==> fleet_finding_of(
                #[trigger] final(scan).findings@[old(scan).findings@.len() + i],
                analysis.process.pid,
                analysis.process.service_name@,
                analysis.findings@[i]@,
            ),
        final(scan).reports@.len() == old(scan).reports@.len() + 1,
        final(scan).reports@.drop_last() == old(scan).reports@,
        ({
            let r = final(scan).reports@.last();
            &&& r.process == analysis.process
            &&& r.attach_ok == analysis.attach_ok
            &&& r.error == analysis.attach_error
            &&& r.thread_count == analysis.threads@.len()
            &&& r.hot_method@ == (if analysis.hot_frames@.len() > 0 {
                analysis.hot_frames@[0].method@
            } else {
                Seq::empty()
            })
            &&& finding_views(r.findings@) == finding_views(analysis.findings@)
            &&& r.summary == analysis.summary
        }),
        final(scan).task_key == old(scan).task_key,
        final(scan).total == old(scan).total,
        final(scan).progress == old(scan).progress,
        final(scan).analyzed == old(scan).analyzed,
        final(scan).runtime_logs == old(scan).runtime_logs,
        fleet_consistent(*old(scan)) ==> fleet_consistent(*final(scan)),
{
    let ghost fv = finding_views(analysis.findings@);
    let ghost old_scan = *scan;
    let ghost n0 = scan.findings@.len();
    let mut i: usize = 0;
    while i < analysis.findings.len()
        invariant
            i <= analysis.findings@.len(),
            fv == finding_views(analysis.findings@),
            old_scan.errors + count_finding_level(fv, "error"@) <= usize::MAX,
            old_scan.warnings + count_finding_level(fv, "warn"@) <= usize::MAX,
            scan.errors == old_scan.errors + count_finding_level(fv.take(i as int), "error"@),
            scan.warnings == old_scan.warnings + count_finding_level(fv.take(i as int), "warn"@),
            scan.findings@.len() == n0 + i,
            n0 == old_scan.findings@.len(),
            scan.findings@.take(n0 as int) == old_scan.findings@,
            count_fleet_level(scan.findings@, "error"@) == count_fleet_level(old_scan.findings@, "error"@)
                + count_finding_level(fv.take(i as int), "error"@),
            count_fleet_level(scan.findings@, "warn"@) == count_fleet_level(old_scan.findings@, "warn"@)
                + count_finding_level(fv.take(i as int), "warn"@),
            forall|k: int|
                0 <= k < i ==> fleet_finding_of(
                    #[trigger] scan.findings@[n0 + k],
                    analysis.process.pid,
                    analysis.process.service_name@,
                    fv[k],
                ),
            scan.reports@ == old_scan.reports@,
            scan.task_key == old_scan.task_key,
            scan.total == old_scan.total,
            scan.progress == old_scan.progress,
            scan.analyzed == old_scan.analyzed,
            scan.runtime_logs == old_scan.runtime_logs,
        decreases analysis.findings@.len() - i,
    {
        let f = &analysis.findings[i];
        assert(fv[i as int] == f@);
        proof {
            assert(fv.take(i + 1).drop_last() =~= fv.take(i as int));
            lemma_count_finding_prefix(fv, i as int + 1);
            lemma_count_finding_mono(fv, i as int + 1);
            reveal_strlit("error");
            reveal_strlit("warn");
            assert("error"@ != "warn"@) by {
                assert("error"@.len() != "warn"@.len());
            }
        }
        let lc = chars_of(f.level.as_str());
        if eq_str(lc.as_slice(), "error") {
            scan.errors = scan.errors + 1;
        } else if eq_str(lc.as_slice(), "warn") {
            scan.warnings = scan.warnings + 1;
        }
        let g = JavaFleetFinding {
            pid: analysis.process.pid,
            service_name: analysis.process.service_name.clone(),
            level: f.level.clone(),
            title: f.title.clone(),
            detail: f.detail.clone(),
            suggestion: f.suggestion.clone(),
        };
        let ghost before = scan.findings@;
        scan.findings.push(g);
        proof {
            assert(scan.findings@.drop_last() =~= before);
            assert(scan.findings@.take(n0 as int) =~= before.take(n0 as int));
            reveal_strlit("error");
            reveal_strlit("warn");
        }
        i = i + 1;
    }
    assert(fv.take(i as int) =~= fv);
    let mut copies: Vec<JavaFinding> = Vec::new();
    let mut j: usize = 0;
    while j < analysis.findings.len()
        invariant
            j <= analysis.findings@.len(),
            fv == finding_views(analysis.findings@),
            finding_views(copies@) == fv.take(j as int),
        decreases analysis.findings@.len() - j,
    {
        let ghost before = finding_views(copies@);
        copies.push(copy_finding(&analysis.findings[j]));
        assert(finding_views(copies@) =~= before.push(fv[j as int]));
        assert(fv.take(j + 1) =~= fv.take(j as int).push(fv[j as int]));
        j = j + 1;
    }
    assert(fv.take(j as int) =~= fv);
    let hot_method = if analysis.hot_frames.len() > 0 {
        analysis.hot_frames[0].method.clone()
    } else {
        String::new()
    };
    let thread_count = analysis.threads.len();
    let report = JavaProcessRuleReport {
        process: analysis.process,
        attach_ok: analysis.attach_ok,
        error: analysis.attach_error,
        thread_count,
        hot_method,
        findings: copies,
        summary: analysis.summary,
    };
    scan.reports.push(report);
}

proof fn lemma_count_finding_mono(fs: Seq<FindingView>, n: int)
    requires
        0 <= n <= fs.len(),
    ensures
        count_finding_level(fs.take(n), "error"@) <= count_finding_level(fs, "error"@),
        count_finding_level(fs.take(n), "warn"@) <= count_finding_level(fs, "warn"@),
    decreases fs.len() - n,
{
    if n < fs.len() {
        lemma_count_finding_mono(fs, n + 1);
        lemma_count_finding_prefix(fs, n + 1);
    } else {
        assert(fs.take(n) =~= fs);
    }
}

proof fn lemma_count_finding_prefix(fs: Seq<FindingView>, n: int)
    requires
        0 < n <= fs.len(),
    ensures
        count_finding_level(fs.take(n), "error"@) == count_finding_level(fs.take(n - 1), "error"@) + if fs[n - 1].level == "error"@ {
            1nat
        } else {
            0nat
        },
        count_finding_level(fs.take(n), "warn"@) == count_finding_level(fs.take(n - 1), "warn"@) + if fs[n - 1].level == "warn"@ {
            1nat
        } else {
            0nat
        },
{
    assert(fs.take(n).drop_last() =~= fs.take(n - 1));
}

/// Adds a process whose analysis failed to a scan: an error finding that carries the
/// failure, and a report without analysis.
pub fn fleet_add_failure(scan: &mut JavaFleetScan, process: JavaProcess, error: String)
    requires
        old(scan).errors < usize::MAX,
    ensures
        final(scan).errors == old(scan).errors + 1,
        final(scan).warnings == old(scan).warnings,
        final(scan).findings@.len() == old(scan).findings@.len() + 1,
        final(scan).findings@.drop_last() == old(scan).findings@,
        fleet_finding_of(
            final(scan).findings@.last(),
            process.pid,
            process.service_name@,
            FindingView {
                level: "error"@,
                title: "Java 进程规则扫描失败"@,
                detail: error@,
                suggestion: "确认进程仍在运行、权限一致、Attach 未被禁用，并重新扫描。"@,
            },
        ),
        final(scan).reports@.len() == old(scan).reports@.len() + 1,
        final(scan).reports@.drop_last() == old(scan).reports@,
        ({
            let r = final(scan).reports@.last();
            &&& r.process == process
            &&& !r.attach_ok
            &&& r.error@ == error@
            &&& r.thread_count == 0
            &&& r.hot_method@.len() == 0
            &&& r.findings@.len() == 0
            &&& r.summary@.len() == 0
        }),
        final(scan).task_key == old(scan).task_key,
        final(scan).total == old(scan).total,
        final(scan).progress == old(scan).progress,
        final(scan).analyzed == old(scan).analyzed,
        final(scan).runtime_logs == old(scan).runtime_logs,
        fleet_consistent(*old(scan)) ==> fleet_consistent(*final(scan)),
{
    let ghost before = scan.findings@;
    scan.errors = scan.errors + 1;
    let g = JavaFleetFinding {
        pid: process.pid,
        service_name: process.service_name.clone(),
        level: "error".to_owned(),
        title: "Java 进程规则扫描失败".to_owned(),
        detail: error.clone(),
        suggestion: "确认进程仍在运行、权限一致、Attach 未被禁用，并重新扫描。".to_owned(),
    };
    scan.findings.push(g);
    proof {
        assert(scan.findings@.drop_last() =~= before);
        reveal_strlit("error");
        reveal_strlit("warn");
        assert("error"@ != "warn"@) by {
            assert("error"@.len() != "warn"@.len());
        }
        assert(scan.findings@.last().level@ == "error"@);
        assert(count_fleet_level(scan.findings@, "error"@) == count_fleet_level(before, "error"@) + 1);
        assert(count_fleet_level(scan.findings@, "warn"@) == count_fleet_level(before, "warn"@));
    }
    let report = JavaProcessRuleReport {
        process,
        attach_ok: false,
        error,
        thread_count: 0,
        hot_method: String::new(),
        findings: Vec::new(),
        summary: Vec::new(),
    };
    scan.reports.push(report);
}

/// Closes a scan: full progress, and as many processes analysed as there are reports.
pub fn fleet_scan_finish(scan: &mut JavaFleetScan)
    ensures
        final(scan).progress == 100,
        final(scan).analyzed == old(scan).reports@.len(),
        final(scan).reports == old(scan).reports,
        final(scan).findings == old(scan).findings,
        final(scan).errors == old(scan).errors,
        final(scan).warnings == old(scan).warnings,
        final(scan).total == old(scan).total,
        final(scan).task_key == old(scan).task_key,
        final(scan).runtime_logs == old(scan).runtime_logs,
{
    scan.progress = 100;
    scan.analyzed = scan.reports.len();
}


// ---------------------------------------------------------------------------
// Laws of the hot-frame ranking and the findings
// ---------------------------------------------------------------------------

/// A method of the JDK's own waiting and socket machinery.
pub open spec fn jdk_machinery(m: Seq<char>) -> bool {
    ||| starts_with_spec(m, "java.lang.Thread."@)
    ||| starts_with_spec(m, "jdk.internal."@)
    ||| starts_with_spec(m, "sun.nio."@)
    ||| starts_with_spec(m, "java.util.concurrent.locks.LockSupport"@)
    ||| starts_with_spec(m, "java.net.Socket"@)
}

pub open spec fn tally_clean(t: Tally) -> bool {
    forall|k: int| 0 <= k < t.len() ==> !jdk_machinery(#[trigger] t[k].0)
}

proof fn lemma_add_hit_clean(t: Tally, m: Seq<char>, w: nat)
    requires
        tally_clean(t),
        !jdk_machinery(m),
    ensures
        tally_clean(add_hit(t, m, w)),
{
    let r = add_hit(t, m, w);
    if tally_has(t, m) {
        assert forall|j: int| 0 <= j < r.len() implies !jdk_machinery(#[trigger] r[j].0) by {
            assert(r[j].0 == t[j].0);
        }
    } else {
        assert forall|j: int| 0 <= j < r.len() implies !jdk_machinery(#[trigger] r[j].0) by {
            if j < t.len() {
                assert(r[j] == t[j]);
            }
        }
    }
}

proof fn lemma_add_frames_clean(t: Tally, th: ThreadView, k: int)
    requires
        tally_clean(t),
    ensures
        tally_clean(add_frames(t, th, k)),
    decreases k,
{
    if k > 0 {
        lemma_add_frames_clean(t, th, k - 1);
        let m = th.frames[k - 1].0;
        if !is_noise_frame_spec(m) {
            lemma_add_hit_clean(add_frames(t, th, k - 1), m, frame_weight(th.state, k - 1));
        }
    }
}

proof fn lemma_add_threads_clean(t: Tally, ts: Seq<ThreadView>)
    requires
        tally_clean(t),
    ensures
        tally_clean(add_threads(t, ts)),
    decreases ts.len(),
{
    if ts.len() > 0 {
        lemma_add_threads_clean(t, ts.drop_last());
        lemma_add_frames_clean(add_threads(t, ts.drop_last()), ts.last(), frames_considered(ts.last()));
    }
}

proof fn lemma_hot_tally_clean(dumps: Seq<Seq<char>>)
    ensures
        tally_clean(hot_tally(dumps)),
    decreases dumps.len(),
{
    if dumps.len() > 0 {
        lemma_hot_tally_clean(dumps.drop_last());
        lemma_add_threads_clean(hot_tally(dumps.drop_last()), parse_thread_dump_spec(dumps.last()));
    }
}

/// No method of the JDK's own waiting and socket machinery (`java.lang.Thread.`,
/// `jdk.internal.`, `sun.nio.`, `java.util.concurrent.locks.LockSupport`,
/// `java.net.Socket`) is ever counted, so none stands in a hot-frame ranking.
pub proof fn law_hot_frames_leave_out_jdk_machinery(dumps: Seq<Seq<char>>, r: Tally)
    requires
        is_top_ranking(hot_tally(dumps), r),
    ensures
        forall|k: int| 0 <= k < hot_tally(dumps).len() ==> !jdk_machinery(#[trigger] hot_tally(dumps)[k].0),
        forall|i: int| 0 <= i < r.len() ==> !jdk_machinery(#[trigger] r[i].0),
{
    let t = hot_tally(dumps);
    lemma_hot_tally_clean(dumps);
    assert forall|i: int| 0 <= i < r.len() implies !jdk_machinery(#[trigger] r[i].0) by {
        assert(t.contains(r[i]));
        let k = choose|k: int| 0 <= k < t.len() && t[k] == r[i];
        assert(!jdk_machinery(t[k].0));
    }
}

proof fn lemma_count_state_filter(ts: Seq<ThreadView>, state: Seq<char>)
    ensures
        count_state_spec(ts, state) == ts.filter(|t: ThreadView| t.state == state).len(),
        count_state_spec(ts, state) > 0 <==> exists|j: int| 0 <= j < ts.len() && #[trigger] ts[j].state == state,
    decreases ts.len(),
{
    reveal(Seq::filter);
    if ts.len() > 0 {
        lemma_count_state_filter(ts.drop_last(), state);
        let p = |t: ThreadView| t.state == state;
        assert(ts.filter(p) == if p(ts.last()) {
            ts.drop_last().filter(p).push(ts.last())
        } else {
            ts.drop_last().filter(p)
        });
        if exists|j: int| 0 <= j < ts.len() && #[trigger] ts[j].state == state {
            let j = choose|j: int| 0 <= j < ts.len() && #[trigger] ts[j].state == state;
            if j < ts.len() - 1 {
                assert(ts.drop_last()[j].state == state);
            }
        }
        if count_state_spec(ts.drop_last(), state) > 0 {
            let j = choose|j: int| 0 <= j < ts.len() - 1 && #[trigger] ts.drop_last()[j].state == state;
            assert(ts[j].state == state);
        }
        assert(ts[ts.len() - 1] == ts.last());
    }
}

pub open spec fn blocked_title() -> Seq<char> {
    "存在 BLOCKED 线程"@
}

pub open spec fn lacks_blocked_title(fs: Seq<FindingView>) -> bool {
    forall|i: int| 0 <= i < fs.len() ==> (#[trigger] fs[i]).title != blocked_title()
}

proof fn lemma_lacks_concat(a: Seq<FindingView>, b: Seq<FindingView>)
    requires
        lacks_blocked_title(a),
        lacks_blocked_title(b),
    ensures
        lacks_blocked_title(a + b),
{
    assert forall|i: int| 0 <= i < (a + b).len() implies (#[trigger] (a + b)[i]).title != blocked_title() by {
        if i < a.len() {
            assert((a + b)[i] == a[i]);
        } else {
            assert((a + b)[i] == b[i - a.len()]);
        }
    }
}

proof fn lemma_piece_lacks(fs: Seq<FindingView>, title: Seq<char>)
    requires
        title.len() > 0,
        title[0] != '存',
        forall|i: int| 0 <= i < fs.len() ==> (#[trigger] fs[i]).title == title,
    ensures
        lacks_blocked_title(fs),
{
    reveal_strlit("存在 BLOCKED 线程");
    assert forall|i: int| 0 <= i < fs.len() implies (#[trigger] fs[i]).title != blocked_title() by {
        assert(fs[i].title[0] != blocked_title()[0]);
    }
}

/// What the law below says of a list of findings.
pub open spec fn blocked_facts(fs: Seq<FindingView>, threads: Seq<ThreadView>) -> bool {
    &&& (exists|i: int| 0 <= i < fs.len() && (#[trigger] fs[i]).title == "存在 BLOCKED 线程"@) <==> (exists|j: int|
        0 <= j < threads.len() && #[trigger] threads[j].state == "BLOCKED"@)
    &&& forall|i: int|
        0 <= i < fs.len() && (#[trigger] fs[i]).title == "存在 BLOCKED 线程"@ ==> fs[i].detail == dec_spec(
            threads.filter(|t: ThreadView| t.state == "BLOCKED"@).len(),
        ) + " 个线程正在等待锁，可能存在锁竞争或同步块耗时。"@
}

proof fn lemma_blocked_head(threads: Seq<ThreadView>)
    ensures
        blocked_facts(blocked_piece(threads), threads),
{
    lemma_count_state_filter(threads, "BLOCKED"@);
    reveal_strlit("存在 BLOCKED 线程");
    if exists|j: int| 0 <= j < threads.len() && #[trigger] threads[j].state == "BLOCKED"@ {
        assert(blocked_piece(threads)[0].title == "存在 BLOCKED 线程"@);
    }
}

proof fn lemma_blocked_extend(fs: Seq<FindingView>, more: Seq<FindingView>, threads: Seq<ThreadView>)
    requires
        blocked_facts(fs, threads),
        lacks_blocked_title(more),
    ensures
        blocked_facts(fs + more, threads),
{
    let all = fs + more;
    reveal_strlit("存在 BLOCKED 线程");
    assert forall|i: int| 0 <= i < all.len() && (#[trigger] all[i]).title == "存在 BLOCKED 线程"@ implies i < fs.len()
        && all[i] == fs[i] by {
        if i >= fs.len() {
            assert(all[i] == more[i - fs.len()]);
        }
    }
    if exists|i: int| 0 <= i < fs.len() && (#[trigger] fs[i]).title == "存在 BLOCKED 线程"@ {
        let i = choose|i: int| 0 <= i < fs.len() && (#[trigger] fs[i]).title == "存在 BLOCKED 线程"@;
        assert(all[i] == fs[i]);
    }
}

/// Of an attached JVM, the findings hold one titled `存在 BLOCKED 线程` exactly when
/// some thread's state is `BLOCKED`, and its detail starts with the number of the
/// threads whose state is `BLOCKED`.
pub proof fn law_blocked_finding_iff_blocked_thread(
    heap_flags: Seq<Seq<char>>,
    memory_bytes: nat,
    threads: Seq<ThreadView>,
    hot: Seq<HotFrame>,
    heap: Seq<char>,
    attach_error: Seq<char>,
)
    ensures
        blocked_facts(build_findings_spec(heap_flags, memory_bytes, threads, hot, heap, true, attach_error), threads),
{
    reveal_strlit("RUNNABLE 线程偏多");
    reveal_strlit("最可疑耗时方法");
    reveal_strlit("调用栈深度异常");
    reveal_strlit("外部依赖调用热点");
    reveal_strlit("热点方法持续聚集");
    reveal_strlit("疑似死锁线索");
    reveal_strlit("未识别到最大堆限制");
    reveal_strlit("发现 OOM 痕迹");
    reveal_strlit("RSS 内存较高");
    let p0 = blocked_piece(threads);
    let p1 = runnable_piece(threads);
    let p2 = top_piece(hot);
    let p3 = deep_piece(threads);
    let p4 = external_piece(hot);
    let p5 = repeated_piece(hot);
    let p6 = deadlock_piece(threads);
    let p7 = heap_limit_piece(heap_flags);
    let p8 = oom_piece(heap);
    let p9 = rss_piece(memory_bytes);
    lemma_piece_lacks(p1, "RUNNABLE 线程偏多"@);
    lemma_piece_lacks(p2, "最可疑耗时方法"@);
    lemma_piece_lacks(p3, "调用栈深度异常"@);
    lemma_piece_lacks(p4, "外部依赖调用热点"@);
    lemma_piece_lacks(p5, "热点方法持续聚集"@);
    lemma_piece_lacks(p6, "疑似死锁线索"@);
    lemma_piece_lacks(p7, "未识别到最大堆限制"@);
    lemma_piece_lacks(p8, "发现 OOM 痕迹"@);
    lemma_piece_lacks(p9, "RSS 内存较高"@);
    lemma_blocked_head(threads);
    lemma_blocked_extend(p0, p1, threads);
    lemma_blocked_extend(p0 + p1, p2, threads);
    lemma_blocked_extend(p0 + p1 + p2, p3, threads);
    lemma_blocked_extend(p0 + p1 + p2 + p3, p4, threads);
    lemma_blocked_extend(p0 + p1 + p2 + p3 + p4, p5, threads);
    lemma_blocked_extend(p0 + p1 + p2 + p3 + p4 + p5, p6, threads);
    lemma_blocked_extend(p0 + p1 + p2 + p3 + p4 + p5 + p6, p7, threads);
    lemma_blocked_extend(p0 + p1 + p2 + p3 + p4 + p5 + p6 + p7, p8, threads);
    lemma_blocked_extend(p0 + p1 + p2 + p3 + p4 + p5 + p6 + p7 + p8, p9, threads);
}


/// The titles of the findings, piece by piece, in the order they are drawn.
pub open spec fn finding_titles() -> Seq<Seq<char>> {
    seq![
        "存在 BLOCKED 线程"@,
        "RUNNABLE 线程偏多"@,
        "最可疑耗时方法"@,
        "调用栈深度异常"@,
        "外部依赖调用热点"@,
        "热点方法持续聚集"@,
        "疑似死锁线索"@,
        "未识别到最大堆限制"@,
        "发现 OOM 痕迹"@,
        "RSS 内存较高"@,
    ]
}

pub open spec fn finding_pieces(
    heap_flags: Seq<Seq<char>>,
    memory_bytes: nat,
    threads: Seq<ThreadView>,
    hot: Seq<HotFrame>,
    heap: Seq<char>,
) -> Seq<Seq<FindingView>> {
    seq![
        blocked_piece(threads),
        runnable_piece(threads),
        top_piece(hot),
        deep_piece(threads),
        external_piece(hot),
        repeated_piece(hot),
        deadlock_piece(threads),
        heap_limit_piece(heap_flags),
        oom_piece(heap),
        rss_piece(memory_bytes),
    ]
}

pub open spec fn lacks_title(fs: Seq<FindingView>, t: Seq<char>) -> bool {
    forall|i: int| 0 <= i < fs.len() ==> (#[trigger] fs[i]).title != t
}

/// `fs` holds a finding titled `t` exactly when `cond`, and every such finding is `f`.
pub open spec fn title_iff(fs: Seq<FindingView>, t: Seq<char>, cond: bool, f: FindingView) -> bool {
    &&& (exists|i: int| 0 <= i < fs.len() && (#[trigger] fs[i]).title == t) <==> cond
    &&& forall|i: int| 0 <= i < fs.len() && (#[trigger] fs[i]).title == t ==> fs[i] == f
}

proof fn lemma_join_titles(
    a: Seq<FindingView>,
    b: Seq<FindingView>,
    t: Seq<char>,
    cond: bool,
    f: FindingView,
    a_has: bool,
    b_has: bool,
)
    requires
        !(a_has && b_has),
        a_has ==> title_iff(a, t, cond, f),
        !a_has ==> lacks_title(a, t),
        b_has ==> title_iff(b, t, cond, f),
        !b_has ==> lacks_title(b, t),
    ensures
        a_has || b_has ==> title_iff(a + b, t, cond, f),
        !a_has && !b_has ==> lacks_title(a + b, t),
{
    let c = a + b;
    assert forall|i: int| 0 <= i < c.len() implies c[i] == (if i < a.len() {
        a[i]
    } else {
        b[i - a.len()]
    }) by {}
    if a_has {
        if exists|i: int| 0 <= i < a.len() && (#[trigger] a[i]).title == t {
            let i = choose|i: int| 0 <= i < a.len() && (#[trigger] a[i]).title == t;
            assert(c[i] == a[i]);
        }
    }
    if b_has {
        if exists|i: int| 0 <= i < b.len() && (#[trigger] b[i]).title == t {
            let i = choose|i: int| 0 <= i < b.len() && (#[trigger] b[i]).title == t;
            assert(c[a.len() + i] == b[i]);
        }
    }
}

proof fn lemma_titles_distinct()
    ensures
        forall|a: int, b: int|
            0 <= a < 10 && 0 <= b < 10 && a != b ==> (#[trigger] finding_titles()[a]) != #[trigger] finding_titles()[b],
{
    reveal_strlit("存在 BLOCKED 线程");
    reveal_strlit("RUNNABLE 线程偏多");
    reveal_strlit("最可疑耗时方法");
    reveal_strlit("调用栈深度异常");
    reveal_strlit("外部依赖调用热点");
    reveal_strlit("热点方法持续聚集");
    reveal_strlit("疑似死锁线索");
    reveal_strlit("未识别到最大堆限制");
    reveal_strlit("发现 OOM 痕迹");
    reveal_strlit("RSS 内存较高");
    let ts = finding_titles();
    assert forall|a: int, b: int| 0 <= a < 10 && 0 <= b < 10 && a != b implies (#[trigger] ts[a]) != #[trigger] ts[b] by {
        assert(ts[a][0] != ts[b][0] || ts[a][1] != ts[b][1]);
    }
}

proof fn lemma_piece_titles(
    heap_flags: Seq<Seq<char>>,
    memory_bytes: nat,
    threads: Seq<ThreadView>,
    hot: Seq<HotFrame>,
    heap: Seq<char>,
)
    ensures
        forall|k: int, i: int|
            0 <= k < 10 && 0 <= i < finding_pieces(heap_flags, memory_bytes, threads, hot, heap)[k].len() ==> (#[trigger] finding_pieces(
                heap_flags,
                memory_bytes,
                threads,
                hot,
                heap,
            )[k][i]).title == finding_titles()[k],
{
}

proof fn lemma_findings_title(
    heap_flags: Seq<Seq<char>>,
    memory_bytes: nat,
    threads: Seq<ThreadView>,
    hot: Seq<HotFrame>,
    heap: Seq<char>,
    attach_error: Seq<char>,
    k: int,
    cond: bool,
    f: FindingView,
)
    requires
        0 <= k < 10,
        title_iff(finding_pieces(heap_flags, memory_bytes, threads, hot, heap)[k], finding_titles()[k], cond, f),
    ensures
        title_iff(
            build_findings_spec(heap_flags, memory_bytes, threads, hot, heap, true, attach_error),
            finding_titles()[k],
            cond,
            f,
        ),
{
    let ps = finding_pieces(heap_flags, memory_bytes, threads, hot, heap);
    let t = finding_titles()[k];
    lemma_titles_distinct();
    lemma_piece_titles(heap_flags, memory_bytes, threads, hot, heap);
    assert forall|m: int| 0 <= m < 10 && m != k implies lacks_title(#[trigger] ps[m], t) by {
        assert(finding_titles()[m] != t);
        assert forall|i: int| 0 <= i < ps[m].len() implies (#[trigger] ps[m][i]).title != t by {
            assert(ps[m][i].title == finding_titles()[m]);
        }
    }
    let s0 = ps[0];
    let s1 = s0 + ps[1];
    let s2 = s1 + ps[2];
    let s3 = s2 + ps[3];
    let s4 = s3 + ps[4];
    let s5 = s4 + ps[5];
    let s6 = s5 + ps[6];
    let s7 = s6 + ps[7];
    let s8 = s7 + ps[8];
    let s9 = s8 + ps[9];
    lemma_join_titles(s0, ps[1], t, cond, f, k == 0, k == 1);
    lemma_join_titles(s1, ps[2], t, cond, f, k <= 1, k == 2);
    lemma_join_titles(s2, ps[3], t, cond, f, k <= 2, k == 3);
    lemma_join_titles(s3, ps[4], t, cond, f, k <= 3, k == 4);
    lemma_join_titles(s4, ps[5], t, cond, f, k <= 4, k == 5);
    lemma_join_titles(s5, ps[6], t, cond, f, k <= 5, k == 6);
    lemma_join_titles(s6, ps[7], t, cond, f, k <= 6, k == 7);
    lemma_join_titles(s7, ps[8], t, cond, f, k <= 7, k == 8);
    lemma_join_titles(s8, ps[9], t, cond, f, k <= 8, k == 9);
    assert(build_findings_spec(heap_flags, memory_bytes, threads, hot, heap, true, attach_error) == s9);
}

/// Of an attached JVM, the findings hold one titled `RUNNABLE 线程偏多` exactly when
/// 16 threads or more are in state `RUNNABLE`, and it gives their number.
pub proof fn law_runnable_finding(
    heap_flags: Seq<Seq<char>>,
    memory_bytes: nat,
    threads: Seq<ThreadView>,
    hot: Seq<HotFrame>,
    heap: Seq<char>,
    attach_error: Seq<char>,
)
    ensures
        title_iff(
            build_findings_spec(heap_flags, memory_bytes, threads, hot, heap, true, attach_error),
            "RUNNABLE 线程偏多"@,
            threads.filter(|t: ThreadView| t.state == "RUNNABLE"@).len() >= 16,
            fv(
                "warn"@,
                "RUNNABLE 线程偏多"@,
                dec_spec(threads.filter(|t: ThreadView| t.state == "RUNNABLE"@).len())
                    + " 个线程处于 RUNNABLE，可能是 CPU 热点、忙等或高并发请求。"@,
                "优先查看热点方法列表，连续采样对比顶部方法是否稳定出现。"@,
            ),
        ),
{
    lemma_count_state_filter(threads, "RUNNABLE"@);
    let n = threads.filter(|t: ThreadView| t.state == "RUNNABLE"@).len();
    let f = fv(
        "warn"@,
        "RUNNABLE 线程偏多"@,
        dec_spec(n) + " 个线程处于 RUNNABLE，可能是 CPU 热点、忙等或高并发请求。"@,
        "优先查看热点方法列表，连续采样对比顶部方法是否稳定出现。"@,
    );
    let p = runnable_piece(threads);
    if n >= 16 {
        assert(p[0].title == "RUNNABLE 线程偏多"@);
    }
    assert(title_iff(p, "RUNNABLE 线程偏多"@, n >= 16, f));
    lemma_findings_title(heap_flags, memory_bytes, threads, hot, heap, attach_error, 1, n >= 16, f);
}


/// Of an attached JVM with a hot-frame ranking, the findings hold one titled
/// `最可疑耗时方法` exactly when the ranking is not empty; it names the top method
/// with its hits and weight.
pub proof fn law_top_method_finding(
    heap_flags: Seq<Seq<char>>,
    memory_bytes: nat,
    threads: Seq<ThreadView>,
    hot: Seq<HotFrame>,
    heap: Seq<char>,
    attach_error: Seq<char>,
)
    ensures
        title_iff(
            build_findings_spec(heap_flags, memory_bytes, threads, hot, heap, true, attach_error),
            "最可疑耗时方法"@,
            hot.len() > 0,
            fv(
                "info"@,
                "最可疑耗时方法"@,
                hot[0].method@ + " 出现 "@ + dec_spec(hot[0].count as nat) + " 次，权重 "@ + dec_spec(hot[0].weight as nat),
                "如果该方法连续多次位于顶部，优先检查接口实现、SQL/HTTP 调用、锁等待或循环逻辑。"@,
            ),
        ),
{
    let p = top_piece(hot);
    if hot.len() > 0 {
        assert(p[0].title == "最可疑耗时方法"@);
    }
    assert(title_iff(p, "最可疑耗时方法"@, hot.len() > 0, fv(
                "info"@,
                "最可疑耗时方法"@,
                hot[0].method@ + " 出现 "@ + dec_spec(hot[0].count as nat) + " 次，权重 "@ + dec_spec(hot[0].weight as nat),
                "如果该方法连续多次位于顶部，优先检查接口实现、SQL/HTTP 调用、锁等待或循环逻辑。"@,
            )));
    lemma_findings_title(heap_flags, memory_bytes, threads, hot, heap, attach_error, 2, hot.len() > 0, fv(
                "info"@,
                "最可疑耗时方法"@,
                hot[0].method@ + " 出现 "@ + dec_spec(hot[0].count as nat) + " 次，权重 "@ + dec_spec(hot[0].weight as nat),
                "如果该方法连续多次位于顶部，优先检查接口实现、SQL/HTTP 调用、锁等待或循环逻辑。"@,
            ));
}

/// The findings hold one titled `热点方法持续聚集` exactly when the top method of
/// the ranking has 3 hits or more and a weight of 20 or more.
pub proof fn law_repeated_method_finding(
    heap_flags: Seq<Seq<char>>,
    memory_bytes: nat,
    threads: Seq<ThreadView>,
    hot: Seq<HotFrame>,
    heap: Seq<char>,
    attach_error: Seq<char>,
)
    ensures
        title_iff(
            build_findings_spec(heap_flags, memory_bytes, threads, hot, heap, true, attach_error),
            "热点方法持续聚集"@,
            hot.len() > 0 && hot[0].count >= 3 && hot[0].weight >= 20,
            fv(
                "warn"@,
                "热点方法持续聚集"@,
                hot[0].method@ + " 在多轮采样中稳定出现，命中 "@ + dec_spec(hot[0].count as nat) + " 次，权重 "@ + dec_spec(
                    hot[0].weight as nat,
                ) + "。"@,
                "开启实时跟踪观察该方法是否持续居首；若稳定出现，建议定位对应接口、任务或消费线程的耗时来源。"@,
            ),
        ),
{
    let p = repeated_piece(hot);
    if hot.len() > 0 && hot[0].count >= 3 && hot[0].weight >= 20 {
        assert(p[0].title == "热点方法持续聚集"@);
    }
    assert(title_iff(p, "热点方法持续聚集"@, hot.len() > 0 && hot[0].count >= 3 && hot[0].weight >= 20, fv(
                "warn"@,
                "热点方法持续聚集"@,
                hot[0].method@ + " 在多轮采样中稳定出现，命中 "@ + dec_spec(hot[0].count as nat) + " 次，权重 "@ + dec_spec(
                    hot[0].weight as nat,
                ) + "。"@,
                "开启实时跟踪观察该方法是否持续居首；若稳定出现，建议定位对应接口、任务或消费线程的耗时来源。"@,
            )));
    lemma_findings_title(heap_flags, memory_bytes, threads, hot, heap, attach_error, 5, hot.len() > 0 && hot[0].count >= 3 && hot[0].weight >= 20, fv(
                "warn"@,
                "热点方法持续聚集"@,
                hot[0].method@ + " 在多轮采样中稳定出现，命中 "@ + dec_spec(hot[0].count as nat) + " 次，权重 "@ + dec_spec(
                    hot[0].weight as nat,
                ) + "。"@,
                "开启实时跟踪观察该方法是否持续居首；若稳定出现，建议定位对应接口、任务或消费线程的耗时来源。"@,
            ));
}

/// The findings hold the error `疑似死锁线索` exactly when the thread headers,
/// joined by line breaks and lowercased, mention `deadlock`.
pub proof fn law_deadlock_finding(
    heap_flags: Seq<Seq<char>>,
    memory_bytes: nat,
    threads: Seq<ThreadView>,
    hot: Seq<HotFrame>,
    heap: Seq<char>,
    attach_error: Seq<char>,
)
    ensures
        title_iff(
            build_findings_spec(heap_flags, memory_bytes, threads, hot, heap, true, attach_error),
            "疑似死锁线索"@,
            contains_spec(unicode_lowercase(join_spec(threads.map_values(|t: ThreadView| t.raw_header), "\n"@)), "deadlock"@),
            fv(
                "error"@,
                "疑似死锁线索"@,
                "线程转储中出现 deadlock 关键字。"@,
                "立即导出完整线程转储，定位互相持有的 monitor/lock，并按锁顺序、超时获取或无锁结构改造。"@,
            ),
        ),
{
    let p = deadlock_piece(threads);
    if contains_spec(unicode_lowercase(join_spec(threads.map_values(|t: ThreadView| t.raw_header), "\n"@)), "deadlock"@) {
        assert(p[0].title == "疑似死锁线索"@);
    }
    assert(title_iff(p, "疑似死锁线索"@, contains_spec(unicode_lowercase(join_spec(threads.map_values(|t: ThreadView| t.raw_header), "\n"@)), "deadlock"@), fv(
                "error"@,
                "疑似死锁线索"@,
                "线程转储中出现 deadlock 关键字。"@,
                "立即导出完整线程转储，定位互相持有的 monitor/lock，并按锁顺序、超时获取或无锁结构改造。"@,
            )));
    lemma_findings_title(heap_flags, memory_bytes, threads, hot, heap, attach_error, 6, contains_spec(unicode_lowercase(join_spec(threads.map_values(|t: ThreadView| t.raw_header), "\n"@)), "deadlock"@), fv(
                "error"@,
                "疑似死锁线索"@,
                "线程转储中出现 deadlock 关键字。"@,
                "立即导出完整线程转储，定位互相持有的 monitor/lock，并按锁顺序、超时获取或无锁结构改造。"@,
            ));
}

/// The findings hold the warning `未识别到最大堆限制` exactly when no heap flag,
/// lowercased, starts with `-xmx` or mentions `maxrampercentage`.
pub proof fn law_heap_limit_finding(
    heap_flags: Seq<Seq<char>>,
    memory_bytes: nat,
    threads: Seq<ThreadView>,
    hot: Seq<HotFrame>,
    heap: Seq<char>,
    attach_error: Seq<char>,
)
    ensures
        title_iff(
            build_findings_spec(heap_flags, memory_bytes, threads, hot, heap, true, attach_error),
            "未识别到最大堆限制"@,
            !(exists|i: int| 0 <= i < heap_flags.len() && (starts_with_spec(unicode_lowercase(#[trigger] heap_flags[i]), "-xmx"@) || contains_spec(unicode_lowercase(heap_flags[i]), "maxrampercentage"@))),
            fv(
                "warn"@,
                "未识别到最大堆限制"@,
                "启动参数中未发现 -Xmx 或 MaxRAMPercentage。"@,
                "生产进程建议明确堆上限，避免容器/宿主机内存压力下被 OOM Killer 终止。"@,
            ),
        ),
{
    let p = heap_limit_piece(heap_flags);
    if !(exists|i: int| 0 <= i < heap_flags.len() && (starts_with_spec(unicode_lowercase(#[trigger] heap_flags[i]), "-xmx"@) || contains_spec(unicode_lowercase(heap_flags[i]), "maxrampercentage"@))) {
        assert(p[0].title == "未识别到最大堆限制"@);
    }
    assert(title_iff(p, "未识别到最大堆限制"@, !(exists|i: int| 0 <= i < heap_flags.len() && (starts_with_spec(unicode_lowercase(#[trigger] heap_flags[i]), "-xmx"@) || contains_spec(unicode_lowercase(heap_flags[i]), "maxrampercentage"@))), fv(
                "warn"@,
                "未识别到最大堆限制"@,
                "启动参数中未发现 -Xmx 或 MaxRAMPercentage。"@,
                "生产进程建议明确堆上限，避免容器/宿主机内存压力下被 OOM Killer 终止。"@,
            )));
    lemma_findings_title(heap_flags, memory_bytes, threads, hot, heap, attach_error, 7, !(exists|i: int| 0 <= i < heap_flags.len() && (starts_with_spec(unicode_lowercase(#[trigger] heap_flags[i]), "-xmx"@) || contains_spec(unicode_lowercase(heap_flags[i]), "maxrampercentage"@))), fv(
                "warn"@,
                "未识别到最大堆限制"@,
                "启动参数中未发现 -Xmx 或 MaxRAMPercentage。"@,
                "生产进程建议明确堆上限，避免容器/宿主机内存压力下被 OOM Killer 终止。"@,
            ));
}

/// The findings hold the error `发现 OOM 痕迹` exactly when the heap output,
/// lowercased, mentions `outofmemory`.
pub proof fn law_oom_finding(
    heap_flags: Seq<Seq<char>>,
    memory_bytes: nat,
    threads: Seq<ThreadView>,
    hot: Seq<HotFrame>,
    heap: Seq<char>,
    attach_error: Seq<char>,
)
    ensures
        title_iff(
            build_findings_spec(heap_flags, memory_bytes, threads, hot, heap, true, attach_error),
            "发现 OOM 痕迹"@,
            contains_spec(unicode_lowercase(heap), "outofmemory"@) || contains_spec(unicode_lowercase(heap), "java.lang.outofmemoryerror"@),
            fv(
                "error"@,
                "发现 OOM 痕迹"@,
                "JVM 诊断输出中包含 OutOfMemoryError。"@,
                "结合类直方图排名检查 byte[]、char[]、集合、缓存对象和业务实体是否异常增长。"@,
            ),
        ),
{
    let p = oom_piece(heap);
    if contains_spec(unicode_lowercase(heap), "outofmemory"@) || contains_spec(unicode_lowercase(heap), "java.lang.outofmemoryerror"@) {
        assert(p[0].title == "发现 OOM 痕迹"@);
    }
    assert(title_iff(p, "发现 OOM 痕迹"@, contains_spec(unicode_lowercase(heap), "outofmemory"@) || contains_spec(unicode_lowercase(heap), "java.lang.outofmemoryerror"@), fv(
                "error"@,
                "发现 OOM 痕迹"@,
                "JVM 诊断输出中包含 OutOfMemoryError。"@,
                "结合类直方图排名检查 byte[]、char[]、集合、缓存对象和业务实体是否异常增长。"@,
            )));
    lemma_findings_title(heap_flags, memory_bytes, threads, hot, heap, attach_error, 8, contains_spec(unicode_lowercase(heap), "outofmemory"@) || contains_spec(unicode_lowercase(heap), "java.lang.outofmemoryerror"@), fv(
                "error"@,
                "发现 OOM 痕迹"@,
                "JVM 诊断输出中包含 OutOfMemoryError。"@,
                "结合类直方图排名检查 byte[]、char[]、集合、缓存对象和业务实体是否异常增长。"@,
            ));
}

/// The findings hold the warning `RSS 内存较高` exactly when the resident memory
/// is above 8 GiB, and it gives the memory in GiB.
pub proof fn law_rss_finding(
    heap_flags: Seq<Seq<char>>,
    memory_bytes: nat,
    threads: Seq<ThreadView>,
    hot: Seq<HotFrame>,
    heap: Seq<char>,
    attach_error: Seq<char>,
)
    ensures
        title_iff(
            build_findings_spec(heap_flags, memory_bytes, threads, hot, heap, true, attach_error),
            "RSS 内存较高"@,
            memory_bytes > 8589934592,
            fv(
                "warn"@,
                "RSS 内存较高"@,
                "当前 RSS 约 "@ + gib_text(memory_bytes) + " GB。"@,
                "比较堆信息与 RSS 差异，若 RSS 明显大于堆，检查 DirectBuffer、线程栈、JNI/native 内存。"@,
            ),
        ),
{
    let p = rss_piece(memory_bytes);
    if memory_bytes > 8589934592 {
        assert(p[0].title == "RSS 内存较高"@);
    }
    assert(title_iff(p, "RSS 内存较高"@, memory_bytes > 8589934592, fv(
                "warn"@,
                "RSS 内存较高"@,
                "当前 RSS 约 "@ + gib_text(memory_bytes) + " GB。"@,
                "比较堆信息与 RSS 差异，若 RSS 明显大于堆，检查 DirectBuffer、线程栈、JNI/native 内存。"@,
            )));
    lemma_findings_title(heap_flags, memory_bytes, threads, hot, heap, attach_error, 9, memory_bytes > 8589934592, fv(
                "warn"@,
                "RSS 内存较高"@,
                "当前 RSS 约 "@ + gib_text(memory_bytes) + " GB。"@,
                "比较堆信息与 RSS 差异，若 RSS 明显大于堆，检查 DirectBuffer、线程栈、JNI/native 内存。"@,
            ));
}


/// A category of calls that leave the process: outside services, databases, Redis,
/// search engines.
pub open spec fn leaves_process(c: Seq<char>) -> bool {
    c == "外部调用"@ || c == "数据库"@ || c == "Redis"@ || c == "搜索引擎"@
}

proof fn lemma_first_external(hs: Seq<HotFrame>)
    ensures
        first_external(hs) is None <==> !(exists|k: int| 0 <= k < hs.len() && leaves_process((#[trigger] hs[k]).category@)),
        first_external(hs) matches Some(h) ==> exists|k: int|
            0 <= k < hs.len() && #[trigger] hs[k] == h && leaves_process(h.category@) && forall|j: int|
                0 <= j < k ==> !leaves_process((#[trigger] hs[j]).category@),
    decreases hs.len(),
{
    if hs.len() > 0 {
        lemma_first_external(hs.drop_first());
        let t = hs.drop_first();
        assert forall|k: int| 0 <= k < t.len() implies #[trigger] t[k] == hs[k + 1] by {}
        if !is_external_category(hs[0].category@) {
            if let Some(h) = first_external(t) {
                let k = choose|k: int|
                    0 <= k < t.len() && #[trigger] t[k] == h && leaves_process(h.category@) && forall|j: int|
                        0 <= j < k ==> !leaves_process((#[trigger] t[j]).category@);
                assert(hs[k + 1] == h);
                assert forall|j: int| 0 <= j < k + 1 implies !leaves_process((#[trigger] hs[j]).category@) by {
                    if j > 0 {
                        assert(hs[j] == t[j - 1]);
                    }
                }
            }
            if exists|k: int| 0 <= k < hs.len() && leaves_process((#[trigger] hs[k]).category@) {
                let k = choose|k: int| 0 <= k < hs.len() && leaves_process((#[trigger] hs[k]).category@);
                assert(k > 0);
                assert(t[k - 1] == hs[k]);
            }
        } else {
            assert(hs[0] == hs[0]);
        }
    }
}

/// The findings hold one titled `外部依赖调用热点` exactly when some method of the
/// ranking leaves the process (outside call, database, Redis or search engine); it
/// names the first such method of the ranking with its hits, category and weight.
pub proof fn law_external_call_finding(
    heap_flags: Seq<Seq<char>>,
    memory_bytes: nat,
    threads: Seq<ThreadView>,
    hot: Seq<HotFrame>,
    heap: Seq<char>,
    attach_error: Seq<char>,
)
    ensures
        ({
            let fs = build_findings_spec(heap_flags, memory_bytes, threads, hot, heap, true, attach_error);
            &&& (exists|i: int| 0 <= i < fs.len() && (#[trigger] fs[i]).title == "外部依赖调用热点"@) <==> (exists|k: int|
                0 <= k < hot.len() && leaves_process((#[trigger] hot[k]).category@))
            &&& forall|i: int|
                0 <= i < fs.len() && (#[trigger] fs[i]).title == "外部依赖调用热点"@ ==> exists|k: int|
                    0 <= k < hot.len() && leaves_process((#[trigger] hot[k]).category@) && (forall|j: int|
                        0 <= j < k ==> !leaves_process((#[trigger] hot[j]).category@)) && fs[i] == fv(
                        "warn"@,
                        "外部依赖调用热点"@,
                        hot[k].method@ + " 在采样中出现 "@ + dec_spec(hot[k].count as nat) + " 次，分类为 "@
                            + hot[k].category@ + "，权重 "@ + dec_spec(hot[k].weight as nat) + "。"@,
                        "优先检查慢 SQL、HTTP/Redis/ES 超时、连接池等待、网络抖动、批量大小和重试风暴。"@,
                    )
        }),
{
    lemma_first_external(hot);
    let p = external_piece(hot);
    let cond = first_external(hot) is Some;
    let f = if cond {
        p[0]
    } else {
        fv(""@, ""@, ""@, ""@)
    };
    assert(title_iff(p, "外部依赖调用热点"@, cond, f));
    lemma_findings_title(heap_flags, memory_bytes, threads, hot, heap, attach_error, 4, cond, f);
}

proof fn lemma_deepest(ts: Seq<ThreadView>)
    ensures
        ts.len() == 0 <==> deepest_thread(ts) is None,
        deepest_thread(ts) matches Some(d) ==> (exists|k: int| 0 <= k < ts.len() && #[trigger] ts[k] == d) && forall|m: int|
            0 <= m < ts.len() ==> (#[trigger] ts[m]).frames.len() <= d.frames.len(),
    decreases ts.len(),
{
    if ts.len() > 0 {
        lemma_deepest(ts.drop_last());
        let n = ts.len() - 1;
        assert(ts[n] == ts.last());
        assert forall|m: int| 0 <= m < n implies #[trigger] ts[m] == ts.drop_last()[m] by {}
        if let Some(d) = deepest_thread(ts.drop_last()) {
            let k = choose|k: int| 0 <= k < n && #[trigger] ts.drop_last()[k] == d;
            assert(ts[k] == d);
        }
    }
}

/// The findings hold one titled `调用栈深度异常` exactly when some thread has 80
/// frames or more; it names a thread with the most frames, its depth and its top
/// frame.
pub proof fn law_deep_stack_finding(
    heap_flags: Seq<Seq<char>>,
    memory_bytes: nat,
    threads: Seq<ThreadView>,
    hot: Seq<HotFrame>,
    heap: Seq<char>,
    attach_error: Seq<char>,
)
    ensures
        ({
            let fs = build_findings_spec(heap_flags, memory_bytes, threads, hot, heap, true, attach_error);
            &&& (exists|i: int| 0 <= i < fs.len() && (#[trigger] fs[i]).title == "调用栈深度异常"@) <==> (exists|k: int|
                0 <= k < threads.len() && (#[trigger] threads[k]).frames.len() >= 80)
            &&& forall|i: int|
                0 <= i < fs.len() && (#[trigger] fs[i]).title == "调用栈深度异常"@ ==> exists|k: int|
                    0 <= k < threads.len() && (forall|m: int|
                        0 <= m < threads.len() ==> (#[trigger] threads[m]).frames.len() <= threads[k].frames.len())
                        && fs[i].level == "warn"@ && fs[i].detail == "线程 "@ + (#[trigger] threads[k]).name
                        + " 当前调用栈深度 "@ + dec_spec(threads[k].frames.len()) + " 层，顶部方法 "@
                        + threads[k].top_frame + "。"@
        }),
{
    lemma_deepest(threads);
    let p = deep_piece(threads);
    let cond = match deepest_thread(threads) {
        Some(d) => d.frames.len() >= 80,
        None => false,
    };
    let f = if cond {
        p[0]
    } else {
        fv(""@, ""@, ""@, ""@)
    };
    if let Some(d) = deepest_thread(threads) {
        if exists|k: int| 0 <= k < threads.len() && (#[trigger] threads[k]).frames.len() >= 80 {
            let k = choose|k: int| 0 <= k < threads.len() && (#[trigger] threads[k]).frames.len() >= 80;
            assert(threads[k].frames.len() <= d.frames.len());
        }
        let k = choose|k: int| 0 <= k < threads.len() && #[trigger] threads[k] == d;
        assert(threads[k] == d);
    }
    assert(title_iff(p, "调用栈深度异常"@, cond, f));
    lemma_findings_title(heap_flags, memory_bytes, threads, hot, heap, attach_error, 3, cond, f);
}


/// Whether method `x` stands among the top 18 frames of thread `th`.
pub open spec fn in_top_frames(th: ThreadView, x: Seq<char>) -> bool {
    exists|i: int| 0 <= i < 18 && 0 <= i < th.frames.len() && (#[trigger] th.frames[i]).0 == x
}

/// Whether method `x` stands among the top 18 frames of some thread of some dump.
pub open spec fn sampled(dumps: Seq<Seq<char>>, x: Seq<char>) -> bool {
    exists|d: int, j: int|
        0 <= d < dumps.len() && 0 <= j < parse_thread_dump_spec(dumps[d]).len() && in_top_frames(
            #[trigger] parse_thread_dump_spec(dumps[d])[j],
            x,
        )
}

proof fn lemma_has_add_hit(t: Tally, m: Seq<char>, w: nat, x: Seq<char>)
    ensures
        tally_has(add_hit(t, m, w), x) <==> tally_has(t, x) || x == m,
{
    let r = add_hit(t, m, w);
    if tally_has(t, m) {
        assert forall|j: int| 0 <= j < r.len() implies #[trigger] r[j].0 == t[j].0 by {}
        if tally_has(t, x) {
            let k = choose|k: int| 0 <= k < t.len() && #[trigger] t[k].0 == x;
            assert(r[k].0 == x);
        }
        if tally_has(r, x) {
            let k = choose|k: int| 0 <= k < r.len() && #[trigger] r[k].0 == x;
            assert(t[k].0 == x);
        }
    } else {
        assert(r[t.len() as int].0 == m);
        if tally_has(t, x) {
            let k = choose|k: int| 0 <= k < t.len() && #[trigger] t[k].0 == x;
            assert(r[k] == t[k]);
        }
        if tally_has(r, x) {
            let k = choose|k: int| 0 <= k < r.len() && #[trigger] r[k].0 == x;
            if k < t.len() {
                assert(r[k] == t[k]);
            }
        }
    }
}

proof fn lemma_has_add_frames(t: Tally, th: ThreadView, k: int, x: Seq<char>)
    requires
        0 <= k <= th.frames.len(),
    ensures
        tally_has(add_frames(t, th, k), x) <==> tally_has(t, x) || (exists|i: int|
            0 <= i < k && (#[trigger] th.frames[i]).0 == x && !jdk_machinery(x)),
    decreases k,
{
    if k > 0 {
        lemma_has_add_frames(t, th, k - 1, x);
        let m = th.frames[k - 1].0;
        if !is_noise_frame_spec(m) {
            lemma_has_add_hit(add_frames(t, th, k - 1), m, frame_weight(th.state, k - 1), x);
        }
        if exists|i: int| 0 <= i < k && (#[trigger] th.frames[i]).0 == x && !jdk_machinery(x) {
            let i = choose|i: int| 0 <= i < k && (#[trigger] th.frames[i]).0 == x && !jdk_machinery(x);
            if i < k - 1 {
                assert(0 <= i < k - 1 && th.frames[i].0 == x);
            }
        }
    }
}

proof fn lemma_has_add_threads(t: Tally, ts: Seq<ThreadView>, x: Seq<char>)
    ensures
        tally_has(add_threads(t, ts), x) <==> tally_has(t, x) || (!jdk_machinery(x) && exists|j: int|
            0 <= j < ts.len() && in_top_frames(#[trigger] ts[j], x)),
    decreases ts.len(),
{
    if ts.len() > 0 {
        let before = add_threads(t, ts.drop_last());
        let th = ts.last();
        lemma_has_add_threads(t, ts.drop_last(), x);
        lemma_has_add_frames(before, th, frames_considered(th), x);
        assert(ts[ts.len() - 1] == th);
        assert(in_top_frames(th, x) <==> exists|i: int|
            0 <= i < frames_considered(th) && (#[trigger] th.frames[i]).0 == x);
        if exists|j: int| 0 <= j < ts.len() && in_top_frames(#[trigger] ts[j], x) {
            let j = choose|j: int| 0 <= j < ts.len() && in_top_frames(#[trigger] ts[j], x);
            if j < ts.len() - 1 {
                assert(ts.drop_last()[j] == ts[j]);
            }
        }
        if exists|j: int| 0 <= j < ts.len() - 1 && in_top_frames(#[trigger] ts.drop_last()[j], x) {
            let j = choose|j: int| 0 <= j < ts.len() - 1 && in_top_frames(#[trigger] ts.drop_last()[j], x);
            assert(ts[j] == ts.drop_last()[j]);
        }
    }
}

proof fn lemma_has_hot_tally(dumps: Seq<Seq<char>>, x: Seq<char>)
    ensures
        tally_has(hot_tally(dumps), x) <==> sampled(dumps, x) && !jdk_machinery(x),
    decreases dumps.len(),
{
    if dumps.len() > 0 {
        let prev = dumps.drop_last();
        let ts = parse_thread_dump_spec(dumps.last());
        lemma_has_hot_tally(prev, x);
        lemma_has_add_threads(hot_tally(prev), ts, x);
        let n = dumps.len() - 1;
        assert(dumps[n] == dumps.last());
        if sampled(dumps, x) {
            let (d, j) = choose|d: int, j: int|
                0 <= d < dumps.len() && 0 <= j < parse_thread_dump_spec(dumps[d]).len() && in_top_frames(
                    #[trigger] parse_thread_dump_spec(dumps[d])[j],
                    x,
                );
            if d < n {
                assert(prev[d] == dumps[d]);
                assert(sampled(prev, x));
            } else {
                assert(in_top_frames(ts[j], x));
            }
        }
        if sampled(prev, x) {
            let (d, j) = choose|d: int, j: int|
                0 <= d < prev.len() && 0 <= j < parse_thread_dump_spec(prev[d]).len() && in_top_frames(
                    #[trigger] parse_thread_dump_spec(prev[d])[j],
                    x,
                );
            assert(prev[d] == dumps[d]);
            assert(in_top_frames(parse_thread_dump_spec(dumps[d])[j], x));
        }
        if exists|j: int| 0 <= j < ts.len() && in_top_frames(#[trigger] ts[j], x) {
            let j = choose|j: int| 0 <= j < ts.len() && in_top_frames(#[trigger] ts[j], x);
            assert(in_top_frames(parse_thread_dump_spec(dumps[n])[j], x));
        }
    }
}

/// The methods counted for the hot-frame ranking are exactly those that stand among
/// the top 18 frames of some thread of some dump, JDK machinery left out, and the
/// ranking holds no other.
pub proof fn law_hot_frames_count_the_sampled_methods(dumps: Seq<Seq<char>>, r: Tally, x: Seq<char>)
    requires
        is_top_ranking(hot_tally(dumps), r),
    ensures
        tally_has(hot_tally(dumps), x) <==> sampled(dumps, x) && !jdk_machinery(x),
        tally_has(r, x) ==> sampled(dumps, x) && !jdk_machinery(x),
{
    let t = hot_tally(dumps);
    lemma_has_hot_tally(dumps, x);
    if tally_has(r, x) {
        let i = choose|i: int| 0 <= i < r.len() && #[trigger] r[i].0 == x;
        assert(t.contains(r[i]));
        let k = choose|k: int| 0 <= k < t.len() && t[k] == r[i];
        assert(t[k].0 == x);
    }
}


/// Each method of a tally has at least one hit, and a weight of 1 to 10 per hit.
pub open spec fn weights_bounded(t: Tally) -> bool {
    forall|k: int| 0 <= k < t.len() ==> 1 <= (#[trigger] t[k]).1 <= t[k].2 && t[k].2 <= 10 * t[k].1
}

proof fn lemma_add_hit_bounded(t: Tally, m: Seq<char>, w: nat)
    requires
        weights_bounded(t),
        1 <= w <= 10,
    ensures
        weights_bounded(add_hit(t, m, w)),
{
    let r = add_hit(t, m, w);
    if tally_has(t, m) {
        assert forall|j: int| 0 <= j < r.len() implies 1 <= (#[trigger] r[j]).1 <= r[j].2 && r[j].2 <= 10 * r[j].1 by {
            if r[j] != t[j] {
                assert(r[j].0 == m);
                assert(r[j].1 == sat_add(t[j].1, 1));
                assert(r[j].2 == sat_add(t[j].2, w));
            }
        }
    } else {
        assert forall|j: int| 0 <= j < r.len() implies 1 <= (#[trigger] r[j]).1 <= r[j].2 && r[j].2 <= 10 * r[j].1 by {
            if j < t.len() {
                assert(r[j] == t[j]);
            }
        }
    }
}

proof fn lemma_add_frames_bounded(t: Tally, th: ThreadView, k: int)
    requires
        weights_bounded(t),
    ensures
        weights_bounded(add_frames(t, th, k)),
    decreases k,
{
    if k > 0 {
        lemma_add_frames_bounded(t, th, k - 1);
        let m = th.frames[k - 1].0;
        if !is_noise_frame_spec(m) {
            lemma_add_hit_bounded(add_frames(t, th, k - 1), m, frame_weight(th.state, k - 1));
        }
    }
}

proof fn lemma_add_threads_bounded(t: Tally, ts: Seq<ThreadView>)
    requires
        weights_bounded(t),
    ensures
        weights_bounded(add_threads(t, ts)),
    decreases ts.len(),
{
    if ts.len() > 0 {
        lemma_add_threads_bounded(t, ts.drop_last());
        lemma_add_frames_bounded(add_threads(t, ts.drop_last()), ts.last(), frames_considered(ts.last()));
    }
}

proof fn lemma_hot_tally_bounded(dumps: Seq<Seq<char>>)
    ensures
        weights_bounded(hot_tally(dumps)),
    decreases dumps.len(),
{
    if dumps.len() > 0 {
        lemma_hot_tally_bounded(dumps.drop_last());
        lemma_add_threads_bounded(hot_tally(dumps.drop_last()), parse_thread_dump_spec(dumps.last()));
    }
}

/// Every method in a hot-frame ranking has at least one hit, and each hit weighs
/// 1 to 10: its weight lies between its hits and ten times its hits.
pub proof fn law_hot_frame_weights(dumps: Seq<Seq<char>>, r: Tally)
    requires
        is_top_ranking(hot_tally(dumps), r),
    ensures
        forall|i: int| 0 <= i < r.len() ==> 1 <= (#[trigger] r[i]).1 <= r[i].2 && r[i].2 <= 10 * r[i].1,
{
    let t = hot_tally(dumps);
    lemma_hot_tally_bounded(dumps);
    assert forall|i: int| 0 <= i < r.len() implies 1 <= (#[trigger] r[i]).1 <= r[i].2 && r[i].2 <= 10 * r[i].1 by {
        assert(t.contains(r[i]));
        let k = choose|k: int| 0 <= k < t.len() && t[k] == r[i];
        assert(1 <= t[k].1 <= t[k].2);
    }
}


/// The header lines of the threads read so far: those of the finished threads, then
/// that of the thread being read.
pub open spec fn scanned_headers(ls: Seq<Seq<char>>) -> Seq<Seq<char>> {
    let (done, cur) = dump_scan(ls);
    done.map_values(|t: ThreadView| t.raw_header) + match cur {
        Some(t) => seq![t.raw_header],
        None => Seq::empty(),
    }
}

proof fn lemma_scanned_headers(ls: Seq<Seq<char>>)
    ensures
        scanned_headers(ls) == ls.filter(|l: Seq<char>| starts_with_spec(l, "\""@)),
    decreases ls.len(),
{
    reveal(Seq::filter);
    if ls.len() > 0 {
        lemma_scanned_headers(ls.drop_last());
        let (done, cur) = dump_scan(ls.drop_last());
        let line = ls.last();
        let f = |t: ThreadView| t.raw_header;
        if starts_with_spec(line, "\""@) {
            match cur {
                Some(t) => {
                    assert(done.push(t).map_values(f) =~= done.map_values(f).push(t.raw_header));
                },
                None => {},
            }
            assert(scanned_headers(ls) =~= scanned_headers(ls.drop_last()).push(line));
        } else {
            assert(scanned_headers(ls) =~= scanned_headers(ls.drop_last()));
        }
    }
}

/// The threads of a dump are its thread header lines (those that start with `"`),
/// one thread per header, in order: each thread keeps its header line.
pub proof fn law_one_thread_per_header(text: Seq<char>)
    ensures
        parse_thread_dump_spec(text).map_values(|t: ThreadView| t.raw_header) == lines_spec(text).filter(
            |l: Seq<char>| starts_with_spec(l, "\""@),
        ),
{
    let ls = lines_spec(text);
    lemma_scanned_headers(ls);
    let (done, cur) = dump_scan(ls);
    let f = |t: ThreadView| t.raw_header;
    match cur {
        Some(t) => {
            assert(done.push(t).map_values(f) =~= scanned_headers(ls));
        },
        None => {
            assert(done.map_values(f) =~= scanned_headers(ls));
        },
    }
}

/// Whether `state` is the first word after `java.lang.Thread.State:` on line `l`
/// (read trimmed).
pub open spec fn states(l: Seq<char>, state: Seq<char>) -> bool {
    let tr = trim_spec(l);
    &&& starts_with_spec(tr, "java.lang.Thread.State:"@)
    &&& split_ws(trim_spec(tr.skip("java.lang.Thread.State:"@.len() as int))).len() > 0
    &&& split_ws(trim_spec(tr.skip("java.lang.Thread.State:"@.len() as int)))[0] == state
}

/// Whether thread `t`'s state is `UNKNOWN` or stated by one of the lines `ls`.
pub open spec fn state_read_from(t: ThreadView, ls: Seq<Seq<char>>) -> bool {
    t.state == "UNKNOWN"@ || exists|k: int| 0 <= k < ls.len() && states(#[trigger] ls[k], t.state)
}

proof fn lemma_states_scanned(ls: Seq<Seq<char>>)
    ensures
        forall|i: int| 0 <= i < dump_scan(ls).0.len() ==> state_read_from(#[trigger] dump_scan(ls).0[i], ls),
        dump_scan(ls).1 matches Some(t) ==> state_read_from(t, ls),
    decreases ls.len(),
{
    if ls.len() > 0 {
        let prev = ls.drop_last();
        lemma_states_scanned(prev);
        let (done, cur) = dump_scan(prev);
        let line = ls.last();
        assert forall|t: ThreadView| state_read_from(t, prev) implies state_read_from(t, ls) by {
            if t.state != "UNKNOWN"@ {
                let k = choose|k: int| 0 <= k < prev.len() && states(#[trigger] prev[k], t.state);
                assert(ls[k] == prev[k]);
            }
        }
        reveal_strlit("java.lang.Thread.State:");
        if !starts_with_spec(line, "\""@) {
            if let Some(t) = cur {
                let u = apply_line(t, line);
                if u.state != t.state {
                    assert(states(line, u.state) || u.state == "UNKNOWN"@);
                    assert(ls[ls.len() - 1] == line);
                }
            }
        } else {
            reveal_strlit("UNKNOWN");
        }
        let (d2, c2) = dump_scan(ls);
        assert forall|i: int| 0 <= i < d2.len() implies state_read_from(#[trigger] d2[i], ls) by {
            if i < done.len() {
                assert(d2[i] == done[i]);
            }
        }
    }
}

/// Every thread's state is `UNKNOWN` or the first word after
/// `java.lang.Thread.State:` on a line of the dump.
pub proof fn law_thread_state_is_read_from_the_dump(text: Seq<char>)
    ensures
        forall|i: int|
            0 <= i < parse_thread_dump_spec(text).len() ==> state_read_from(
                #[trigger] parse_thread_dump_spec(text)[i],
                lines_spec(text),
            ),
{
    let ls = lines_spec(text);
    lemma_states_scanned(ls);
    let (done, cur) = dump_scan(ls);
    assert forall|i: int| 0 <= i < parse_thread_dump_spec(text).len() implies state_read_from(
        #[trigger] parse_thread_dump_spec(text)[i],
        ls,
    ) by {
        if i < done.len() {
            assert(parse_thread_dump_spec(text)[i] == done[i]);
        }
    }
}

} // verus!
