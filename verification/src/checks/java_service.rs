//! Java service check: which processes are JVMs, and which JVM options matter.
use vstd::prelude::*;
use crate::checks::es_paths::{GuessView, PathGuess};
use crate::paths::{extension, extension_spec, path_join, path_join_spec};
use crate::text::{chars_of, string_views, strip_prefixes, trim, trim_spec, trim_start_matches_str, contains_spec, contains_str, ends_with_spec, ends_with_str, eq_str, join, join_spec, slice_to_vec, split_whitespace, split_ws, starts_with_spec, starts_with_str, string_of, to_lowercase, trim_char, trim_char_spec, unicode_lowercase, views};
use crate::checks::common::{truncate_chars, truncate_spec};

verus! {

/// A command-line word without surrounding quotes and brackets.
pub open spec fn clean_token_spec(t: Seq<char>) -> Seq<char> {
    trim_char_spec(trim_char_spec(trim_char_spec(trim_char_spec(t, '"'), '\''), '('), ')')
}

pub fn clean_token(t: &[char]) -> (r: Vec<char>)
    ensures
        r@ == clean_token_spec(t@),
{
    let a = trim_char(t, '"');
    let b = trim_char(a.as_slice(), '\'');
    let c = trim_char(b.as_slice(), '(');
    trim_char(c.as_slice(), ')')
}

/// A lowercased command-line word that names a JVM: `java`, a path ending in `/java`
/// or `\java.exe`, a jar, or a Tomcat/Catalina path.
pub open spec fn javaish_word(lower: Seq<char>) -> bool {
    lower == "java"@ || ends_with_spec(lower, "/java"@) || ends_with_spec(lower, "\\java.exe"@)
        || ends_with_spec(lower, ".jar"@) || contains_spec(lower, "/tomcat/"@) || contains_spec(
        lower,
        "/catalina."@,
    )
}

/// A process name (lowercased) that is a JVM or Tomcat.
pub open spec fn javaish_name(ln: Seq<char>) -> bool {
    ln == "java"@ || ln == "java.exe"@ || contains_spec(ln, "tomcat"@) || contains_spec(
        ln,
        "catalina"@,
    )
}

/// The Java service check's matcher: by process name, or by any cleaned word of the
/// command line.
pub open spec fn is_java_process_spec(name: Seq<char>, cmd: Seq<char>) -> bool {
    let toks = split_ws(cmd);
    javaish_name(unicode_lowercase(name)) || exists|i: int|
        0 <= i < toks.len() && javaish_word(unicode_lowercase(clean_token_spec(#[trigger] toks[i])))
}

pub fn javaish_word_exec(lower: &[char]) -> (r: bool)
    ensures
        r == javaish_word(lower@),
{
    eq_str(lower, "java") || ends_with_str(lower, "/java") || ends_with_str(lower, "\\java.exe")
        || ends_with_str(lower, ".jar") || contains_str(lower, "/tomcat/") || contains_str(
        lower,
        "/catalina.",
    )
}

pub fn javaish_name_exec(ln: &[char]) -> (r: bool)
    ensures
        r == javaish_name(ln@),
{
    eq_str(ln, "java") || eq_str(ln, "java.exe") || contains_str(ln, "tomcat") || contains_str(
        ln,
        "catalina",
    )
}

pub fn is_java_process(name: &str, cmd: &str) -> (r: bool)
    ensures
        r == is_java_process_spec(name@, cmd@),
{
    let nc = chars_of(name);
    let ln = to_lowercase(nc.as_slice());
    if javaish_name_exec(ln.as_slice()) {
        return true;
    }
    let cc = chars_of(cmd);
    let toks = split_whitespace(cc.as_slice());
    let ghost tv = views(toks@);
    let mut i: usize = 0;
    while i < toks.len()
        invariant
            i <= toks.len(),
            tv == views(toks@),
            tv == split_ws(cmd@),
            !javaish_name(unicode_lowercase(name@)),
            forall|j: int|
                0 <= j < i ==> !javaish_word(unicode_lowercase(clean_token_spec(#[trigger] tv[j]))),
        decreases toks.len() - i,
    {
        let clean = clean_token(toks[i].as_slice());
        let lower = to_lowercase(clean.as_slice());
        assert(tv[i as int] == toks@[i as int]@);
        if javaish_word_exec(lower.as_slice()) {
            assert(javaish_word(unicode_lowercase(clean_token_spec(tv[i as int]))));
            return true;
        }
        i = i + 1;
    }
    false
}

/// A JVM option or launch word worth showing.
pub open spec fn is_runtime_flag(t: Seq<char>) -> bool {
    starts_with_spec(t, "-Xmx"@) || starts_with_spec(t, "-Xms"@) || starts_with_spec(t, "-XX:"@)
        || starts_with_spec(t, "-Dspring.profiles.active"@) || starts_with_spec(
        t,
        "-Dserver.port"@,
    ) || ends_with_spec(t, ".jar"@) || contains_spec(t, "/tomcat/"@)
}

/// The words of `toks` that are runtime flags, in order.
pub open spec fn runtime_flags_of(toks: Seq<Seq<char>>) -> Seq<Seq<char>>
    decreases toks.len(),
{
    if toks.len() == 0 {
        Seq::empty()
    } else if is_runtime_flag(toks.last()) {
        runtime_flags_of(toks.drop_last()).push(toks.last())
    } else {
        runtime_flags_of(toks.drop_last())
    }
}

/// Up to 12 runtime flags of the command joined by spaces (clipped to 260 characters),
/// or a note that none was found.
pub open spec fn java_runtime_flags_spec(cmd: Seq<char>) -> Seq<char> {
    let flags = runtime_flags_of(split_ws(cmd));
    let first = if flags.len() > 12 {
        flags.take(12)
    } else {
        flags
    };
    if first.len() == 0 {
        "未识别到关键 JVM 参数"@
    } else {
        truncate_spec(join_spec(first, " "@), 260)
    }
}

fn runtime_flag(t: &[char]) -> (r: bool)
    ensures
        r == is_runtime_flag(t@),
{
    starts_with_str(t, "-Xmx") || starts_with_str(t, "-Xms") || starts_with_str(t, "-XX:")
        || starts_with_str(t, "-Dspring.profiles.active") || starts_with_str(t, "-Dserver.port")
        || ends_with_str(t, ".jar") || contains_str(t, "/tomcat/")
}

proof fn lemma_flags_prefix(toks: Seq<Seq<char>>, i: int)
    requires
        0 <= i <= toks.len(),
    ensures
        runtime_flags_of(toks.take(i)).len() <= runtime_flags_of(toks).len(),
        runtime_flags_of(toks.take(i)) =~= runtime_flags_of(toks).take(
            runtime_flags_of(toks.take(i)).len() as int,
        ),
    decreases toks.len() - i,
{
    if i < toks.len() {
        lemma_flags_prefix(toks.drop_last(), i);
        assert(toks.drop_last().take(i) =~= toks.take(i));
    } else {
        assert(toks.take(i) =~= toks);
    }
}

pub fn java_runtime_flags(cmd: &str) -> (r: String)
    ensures
        r@ == java_runtime_flags_spec(cmd@),
{
    let cc = chars_of(cmd);
    let toks = split_whitespace(cc.as_slice());
    let ghost tv = views(toks@);
    let mut flags: Vec<Vec<char>> = Vec::new();
    let mut i: usize = 0;
    while i < toks.len() && flags.len() < 12
        invariant
            i <= toks.len(),
            tv == views(toks@),
            views(flags@) == runtime_flags_of(tv.take(i as int)),
            flags@.len() <= 12,
        decreases toks.len() - i,
    {
        proof {
            assert(tv.take(i + 1).drop_last() =~= tv.take(i as int));
            assert(tv.take(i + 1).last() == toks@[i as int]@);
        }
        if runtime_flag(toks[i].as_slice()) {
            let t = slice_to_vec(toks[i].as_slice(), 0, toks[i].len());
            assert(t@ =~= toks@[i as int]@);
            flags.push(t);
            assert(views(flags@) =~= runtime_flags_of(tv.take(i as int)).push(t@));
        }
        i = i + 1;
    }
    proof {
        lemma_flags_prefix(tv, i as int);
        let all = runtime_flags_of(tv);
        if flags@.len() < 12 {
            assert(i == toks.len());
            assert(tv.take(i as int) =~= tv);
        } else {
            assert(all.take(12) =~= views(flags@));
            if all.len() == 12 {
                assert(all.take(12) =~= all);
            }
        }
    }
    if flags.len() == 0 {
        return "未识别到关键 JVM 参数".to_owned();
    }
    let sp = chars_of(" ");
    let joined = join(flags.as_slice(), sp.as_slice());
    assert(views(flags@) =~= flags@.map_values(|v: Vec<char>| v@));
    let t = truncate_chars(joined.as_slice(), 260);
    string_of(t.as_slice())
}

/// JVM options that bound the heap (compared in lowercase).
pub open spec fn java_has_heap_limit_spec(flags: Seq<char>) -> bool {
    let l = unicode_lowercase(flags);
    contains_spec(l, "-xmx"@) || contains_spec(l, "maxrampercentage"@) || contains_spec(
        l,
        "maxheapsize"@,
    ) || contains_spec(l, "initialrampercentage"@)
}

pub fn java_has_heap_limit(flags: &str) -> (r: bool)
    ensures
        r == java_has_heap_limit_spec(flags@),
{
    let fc = chars_of(flags);
    let l = to_lowercase(fc.as_slice());
    let l = l.as_slice();
    contains_str(l, "-xmx") || contains_str(l, "maxrampercentage") || contains_str(l, "maxheapsize")
        || contains_str(l, "initialrampercentage")
}

/// A word of a Java command line that may name its log file or directory: one that
/// holds `/logs/` or ends in `.log`.
pub open spec fn is_log_word(t: Seq<char>) -> bool {
    contains_spec(t, "/logs/"@) || ends_with_spec(t, ".log"@)
}

/// Such a word unquoted and without a `-Dlogging.file=` or `-Dlogging.path=` prefix.
pub open spec fn log_word_path(t: Seq<char>) -> Seq<char> {
    strip_prefixes(
        strip_prefixes(trim_char_spec(trim_char_spec(t, '"'), '\''), "-Dlogging.file="@),
        "-Dlogging.path="@,
    )
}

pub open spec fn log_word_paths(toks: Seq<Seq<char>>) -> Seq<Seq<char>>
    decreases toks.len(),
{
    if toks.len() == 0 {
        Seq::empty()
    } else {
        let prev = log_word_paths(toks.drop_last());
        if is_log_word(toks.last()) {
            prev.push(log_word_path(toks.last()))
        } else {
            prev
        }
    }
}

/// Where a Java service logs: the configured log path unless blank, else the paths
/// that the words of its command line name, to be tried in order (a file is taken,
/// a directory is searched for a `.log` file).
pub open spec fn java_log_guess_spec(configured: Seq<char>, cmd: Seq<char>) -> GuessView {
    if trim_spec(configured).len() > 0 {
        GuessView::Exact(configured)
    } else {
        GuessView::Search(log_word_paths(split_ws(cmd)))
    }
}

pub fn java_log_guess(configured: &str, cmd: &str) -> (r: PathGuess)
    ensures
        r.view() == java_log_guess_spec(configured@, cmd@),
{
    let kc = chars_of(configured);
    if trim(kc.as_slice()).len() > 0 {
        return PathGuess::Exact(configured.to_owned());
    }
    let cc = chars_of(cmd);
    let toks = split_whitespace(cc.as_slice());
    let ghost tv = views(toks@);
    let mut out: Vec<String> = Vec::new();
    let mut i: usize = 0;
    assert(tv.take(0) =~= Seq::<Seq<char>>::empty());
    while i < toks.len()
        invariant
            i <= toks@.len(),
            tv == views(toks@),
            string_views(out@) == log_word_paths(tv.take(i as int)),
        decreases toks.len() - i,
    {
        assert(tv.take(i + 1).drop_last() =~= tv.take(i as int));
        assert(tv.take(i + 1).last() == toks@[i as int]@);
        let t = toks[i].as_slice();
        if contains_str(t, "/logs/") || ends_with_str(t, ".log") {
            let a = trim_char(t, '"');
            let b = trim_char(a.as_slice(), '\'');
            let c = trim_start_matches_str(b.as_slice(), "-Dlogging.file=");
            let d = trim_start_matches_str(c.as_slice(), "-Dlogging.path=");
            let ghost before = string_views(out@);
            let p = string_of(d.as_slice());
            out.push(p);
            assert(string_views(out@) =~= before.push(p@));
        }
        i = i + 1;
    }
    assert(tv.take(i as int) =~= tv);
    PathGuess::Search(out)
}

/// The first entry of a log directory (by name, in listing order) whose extension is
/// exactly `log`.
pub fn first_dot_log(dir: &str, names: &Vec<String>) -> (r: Option<String>)
    ensures
        match r {
            Some(p) => exists|k: int|
                0 <= k < names@.len() && extension_spec(path_join_spec(dir@, #[trigger] names@[k]@)) == Some("log"@)
                    && p@ == path_join_spec(dir@, names@[k]@) && forall|j: int|
                    0 <= j < k ==> extension_spec(path_join_spec(dir@, #[trigger] names@[j]@)) != Some("log"@),
            None => forall|j: int|
                0 <= j < names@.len() ==> extension_spec(path_join_spec(dir@, #[trigger] names@[j]@)) != Some("log"@),
        },
{
    let mut i: usize = 0;
    while i < names.len()
        invariant
            i <= names@.len(),
            forall|j: int|
                0 <= j < i ==> extension_spec(path_join_spec(dir@, #[trigger] names@[j]@)) != Some("log"@),
        decreases names.len() - i,
    {
        let p = path_join(dir, names[i].as_str());
        let pc = chars_of(p.as_str());
        match extension(pc.as_slice()) {
            Some(x) => {
                if eq_str(x.as_slice(), "log") {
                    return Some(p);
                }
            },
            None => {},
        }
        i = i + 1;
    }
    None
}

} // verus!
