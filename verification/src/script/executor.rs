//! How a script is started: interpreter by extension, and environment variable names.
use vstd::prelude::*;
use crate::text::{ascii_upper_char, chars_of, contains_spec, eq_str, find_char, first_index, is_ascii_alnum, lines, lines_spec, push_str, slice_to_vec, starts_with_spec, starts_with_str, string_of, trim, trim_char, trim_char_spec, trim_spec, upper_ascii_char, views};
use crate::paths::{extension, extension_spec};

verus! {

/// One message of a script run.
pub struct LogMessage {
    pub msg_type: String,
    pub timestamp: String,
    pub line: String,
    pub exit_code: Option<i32>,
    pub timed_out: Option<bool>,
    pub elapsed_ms: Option<u64>,
}

/// The interpreter for a script extension, when there is one.
pub open spec fn interpreter_for(ext: Seq<char>) -> Option<Seq<char>> {
    if ext == "sh"@ || ext == "bash"@ {
        Some("bash"@)
    } else if ext == "zsh"@ {
        Some("zsh"@)
    } else if ext == "ksh"@ {
        Some("ksh"@)
    } else if ext == "py"@ || ext == "python"@ {
        Some("python3"@)
    } else if ext == "js"@ || ext == "mjs"@ {
        Some("node"@)
    } else if ext == "pl"@ || ext == "perl"@ {
        Some("perl"@)
    } else if ext == "rb"@ {
        Some("ruby"@)
    } else if ext == "lua"@ {
        Some("lua"@)
    } else if ext == "php"@ {
        Some("php"@)
    } else if ext == "awk"@ {
        Some("awk"@)
    } else if ext == "expect"@ || ext == "exp"@ {
        Some("expect"@)
    } else {
        None
    }
}

/// `(program, arguments)` that run the script: its interpreter with the script path
/// (`awk` gets `-f` first), or the script itself with no arguments.
pub open spec fn resolve_interpreter_spec(path: Seq<char>) -> (Seq<char>, Seq<Seq<char>>) {
    match extension_spec(path) {
        Some(ext) => match interpreter_for(ext) {
            Some(prog) => if ext == "awk"@ {
                (prog, seq!["-f"@, path])
            } else {
                (prog, seq![path])
            },
            None => (path, Seq::empty()),
        },
        None => (path, Seq::empty()),
    }
}

fn interpreter_of(ext: &[char]) -> (r: Option<&'static str>)
    ensures
        match interpreter_for(ext@) {
            Some(p) => r matches Some(s) && s@ == p,
            None => r is None,
        },
{
    if eq_str(ext, "sh") || eq_str(ext, "bash") {
        Some("bash")
    } else if eq_str(ext, "zsh") {
        Some("zsh")
    } else if eq_str(ext, "ksh") {
        Some("ksh")
    } else if eq_str(ext, "py") || eq_str(ext, "python") {
        Some("python3")
    } else if eq_str(ext, "js") || eq_str(ext, "mjs") {
        Some("node")
    } else if eq_str(ext, "pl") || eq_str(ext, "perl") {
        Some("perl")
    } else if eq_str(ext, "rb") {
        Some("ruby")
    } else if eq_str(ext, "lua") {
        Some("lua")
    } else if eq_str(ext, "php") {
        Some("php")
    } else if eq_str(ext, "awk") {
        Some("awk")
    } else if eq_str(ext, "expect") || eq_str(ext, "exp") {
        Some("expect")
    } else {
        None
    }
}

pub fn resolve_interpreter(script_path: &str) -> (r: (String, Vec<String>))
    ensures
        (r.0@, r.1@.map_values(|s: String| s@)) == resolve_interpreter_spec(script_path@),
{
    let pc = chars_of(script_path);
    let none: Vec<String> = Vec::new();
    match extension(pc.as_slice()) {
        Some(ext) => match interpreter_of(ext.as_slice()) {
            Some(prog) => {
                let mut args: Vec<String> = Vec::new();
                if eq_str(ext.as_slice(), "awk") {
                    args.push("-f".to_owned());
                    args.push(script_path.to_owned());
                    assert(args@.map_values(|s: String| s@) =~= seq!["-f"@, script_path@]);
                } else {
                    args.push(script_path.to_owned());
                    assert(args@.map_values(|s: String| s@) =~= seq![script_path@]);
                }
                (prog.to_owned(), args)
            },
            None => {
                assert(none@.map_values(|s: String| s@) =~= Seq::<Seq<char>>::empty());
                (script_path.to_owned(), none)
            },
        },
        None => {
            assert(none@.map_values(|s: String| s@) =~= Seq::<Seq<char>>::empty());
            (script_path.to_owned(), none)
        },
    }
}

/// The characters of a parameter name kept for an environment variable: ASCII letters
/// and digits (uppercased), with `_`, `-` and `.` becoming `_`.
pub open spec fn env_chars(k: Seq<char>) -> Seq<char>
    decreases k.len(),
{
    if k.len() == 0 {
        Seq::empty()
    } else {
        let c = k.last();
        env_chars(k.drop_last()) + if is_ascii_alnum(c) {
            seq![ascii_upper_char(c)]
        } else if c == '_' || c == '-' || c == '.' {
            seq!['_']
        } else {
            Seq::empty()
        }
    }
}

/// `s` with every run of `_` reduced to one `_`.
pub open spec fn squeeze_underscores(s: Seq<char>) -> Seq<char>
    decreases s.len(),
{
    if s.len() == 0 {
        Seq::empty()
    } else {
        let before = squeeze_underscores(s.drop_last());
        if s.last() == '_' && before.len() > 0 && before.last() == '_' {
            before
        } else {
            before.push(s.last())
        }
    }
}

/// `normalize_env_key`: the environment-variable form of a script parameter name,
/// as in `service-name` -> `SERVICE_NAME`.
pub open spec fn normalize_env_key_spec(k: Seq<char>) -> Seq<char> {
    trim_char_spec(squeeze_underscores(env_chars(k)), '_')
}

proof fn lemma_squeeze_last(s: Seq<char>)
    ensures
        squeeze_underscores(s).len() > 0 <==> s.len() > 0,
        s.len() > 0 ==> squeeze_underscores(s).last() == s.last(),
    decreases s.len(),
{
    if s.len() > 0 {
        lemma_squeeze_last(s.drop_last());
    }
}

pub fn normalize_env_key(key: &str) -> (r: String)
    ensures
        r@ == normalize_env_key_spec(key@),
{
    let kc = chars_of(key);
    let mut mapped: Vec<char> = Vec::new();
    let mut i: usize = 0;
    while i < kc.len()
        invariant
            i <= kc.len(),
            mapped@ == env_chars(kc@.take(i as int)),
        decreases kc.len() - i,
    {
        let c = kc[i];
        proof {
            assert(kc@.take(i + 1).drop_last() =~= kc@.take(i as int));
        }
        if ('0' <= c && c <= '9') || ('a' <= c && c <= 'z') || ('A' <= c && c <= 'Z') {
            mapped.push(upper_ascii_char(c));
        } else if c == '_' || c == '-' || c == '.' {
            mapped.push('_');
        }
        i = i + 1;
        assert(mapped@ =~= env_chars(kc@.take(i as int)));
    }
    assert(kc@.take(kc@.len() as int) =~= kc@);
    let mut out: Vec<char> = Vec::new();
    let mut j: usize = 0;
    while j < mapped.len()
        invariant
            j <= mapped.len(),
            out@ == squeeze_underscores(mapped@.take(j as int)),
        decreases mapped.len() - j,
    {
        let c = mapped[j];
        proof {
            assert(mapped@.take(j + 1).drop_last() =~= mapped@.take(j as int));
            lemma_squeeze_last(mapped@.take(j as int));
        }
        if !(c == '_' && out.len() > 0 && out[out.len() - 1] == '_') {
            out.push(c);
        }
        j = j + 1;
    }
    assert(mapped@.take(mapped@.len() as int) =~= mapped@);
    let t = trim_char(out.as_slice(), '_');
    string_of(t.as_slice())
}


/// The assignment that an environment-file line makes: `KEY=VALUE` after trimming,
/// not blank and not a `#` comment, with a key that is not blank; the value trimmed
/// and unquoted.
pub open spec fn env_line(raw: Seq<char>) -> Option<(Seq<char>, Seq<char>)> {
    let line = trim_spec(raw);
    if line.len() == 0 || starts_with_spec(line, "#"@) {
        None
    } else {
        match first_index(line, '=') {
            Some(i) => {
                let key = trim_spec(line.take(i));
                if key.len() == 0 {
                    None
                } else {
                    Some((key, trim_char_spec(trim_char_spec(trim_spec(line.skip(i + 1)), '"'), '\'')))
                }
            },
            None => None,
        }
    }
}

/// The assignments of an environment file, in order.
pub open spec fn env_lines(ls: Seq<Seq<char>>) -> Seq<(Seq<char>, Seq<char>)>
    decreases ls.len(),
{
    if ls.len() == 0 {
        Seq::empty()
    } else {
        match env_line(ls.last()) {
            Some(e) => env_lines(ls.drop_last()).push(e),
            None => env_lines(ls.drop_last()),
        }
    }
}

pub open spec fn pair_views(v: Seq<(String, String)>) -> Seq<(Seq<char>, Seq<char>)> {
    v.map_values(|e: (String, String)| (e.0@, e.1@))
}

/// The assignments that an environment file (`/etc/environment` and the like) makes,
/// in order; a key already set keeps its value when they are merged.
pub fn env_file_entries(content: &str) -> (r: Vec<(String, String)>)
    ensures
        pair_views(r@) == env_lines(lines_spec(content@)),
{
    let cc = chars_of(content);
    let ls = lines(cc.as_slice());
    let ghost lv = views(ls@);
    let mut out: Vec<(String, String)> = Vec::new();
    let mut i: usize = 0;
    assert(lv.take(0) =~= Seq::<Seq<char>>::empty());
    assert(pair_views(out@) =~= Seq::<(Seq<char>, Seq<char>)>::empty());
    while i < ls.len()
        invariant
            i <= ls@.len(),
            lv == views(ls@),
            pair_views(out@) == env_lines(lv.take(i as int)),
        decreases ls.len() - i,
    {
        assert(lv.take(i + 1).drop_last() =~= lv.take(i as int));
        assert(lv.take(i + 1).last() == ls@[i as int]@);
        let line = trim(ls[i].as_slice());
        if line.len() > 0 && !starts_with_str(line.as_slice(), "#") {
            match find_char(line.as_slice(), '=') {
                Some(k) => {
                    let left = slice_to_vec(line.as_slice(), 0, k);
                    let right = slice_to_vec(line.as_slice(), k + 1, line.len());
                    assert(left@ =~= line@.take(k as int));
                    assert(right@ =~= line@.skip(k + 1));
                    let key = trim(left.as_slice());
                    if key.len() > 0 {
                        let v0 = trim(right.as_slice());
                        let v1 = trim_char(v0.as_slice(), '"');
                        let v2 = trim_char(v1.as_slice(), '\'');
                        let ghost before = pair_views(out@);
                        out.push((string_of(key.as_slice()), string_of(v2.as_slice())));
                        assert(pair_views(out@) =~= before.push((key@, v2@)));
                    }
                },
                None => {},
            }
        }
        i = i + 1;
    }
    assert(lv.take(i as int) =~= lv);
    out
}

/// The variables that a script parameter exports: `DM_PARAM_<KEY>` and
/// `PARAM_<KEY>`, with the key normalised; none when the key normalises to nothing.
pub open spec fn param_env(key: Seq<char>, value: Seq<char>) -> Seq<(Seq<char>, Seq<char>)> {
    let name = normalize_env_key_spec(key);
    if name.len() == 0 {
        Seq::empty()
    } else {
        seq![("DM_PARAM_"@ + name, value), ("PARAM_"@ + name, value)]
    }
}

pub open spec fn params_env(ps: Seq<(Seq<char>, Seq<char>)>) -> Seq<(Seq<char>, Seq<char>)>
    decreases ps.len(),
{
    if ps.len() == 0 {
        Seq::empty()
    } else {
        params_env(ps.drop_last()) + param_env(ps.last().0, ps.last().1)
    }
}

fn prefixed(prefix: &str, name: &String) -> (r: String)
    ensures
        r@ == prefix@ + name@,
{
    let mut out: Vec<char> = Vec::new();
    push_str(&mut out, prefix);
    push_str(&mut out, name.as_str());
    string_of(out.as_slice())
}

/// Parameters as a map holds them: no name occurs twice.
pub open spec fn distinct_names(ps: Seq<(Seq<char>, Seq<char>)>) -> bool {
    forall|i: int, j: int| 0 <= i < j < ps.len() ==> #[trigger] ps[i].0 != #[trigger] ps[j].0
}

/// Lowercase hexadecimal digit of `n` (below 16).
pub open spec fn hex_digit(n: int) -> char {
    if n < 10 {
        (('0' as int) + n) as char
    } else {
        (('a' as int) + n - 10) as char
    }
}

/// How JSON writes one character inside a string: `"` and `\` behind a backslash,
/// the usual short escapes for backspace, tab, line feed, form feed and carriage
/// return, other control characters as `\u00XX`, every other character as it is.
pub open spec fn json_char(c: char) -> Seq<char> {
    let u = c as u32;
    if c == '"' {
        seq!['\\', '"']
    } else if c == '\\' {
        seq!['\\', '\\']
    } else if u == 8 {
        seq!['\\', 'b']
    } else if u == 9 {
        seq!['\\', 't']
    } else if u == 10 {
        seq!['\\', 'n']
    } else if u == 12 {
        seq!['\\', 'f']
    } else if u == 13 {
        seq!['\\', 'r']
    } else if u < 0x20 {
        seq!['\\', 'u', '0', '0', hex_digit(u as int / 16), hex_digit(u as int % 16)]
    } else {
        seq![c]
    }
}

/// The characters of `s` as JSON writes them inside a string.
pub open spec fn json_escape(s: Seq<char>) -> Seq<char>
    decreases s.len(),
{
    if s.len() == 0 {
        Seq::empty()
    } else {
        json_escape(s.drop_last()) + json_char(s.last())
    }
}

/// A JSON string holding `s`.
pub open spec fn json_string(s: Seq<char>) -> Seq<char> {
    seq!['"'] + json_escape(s) + seq!['"']
}

/// A member of a compact JSON object: the name, `:` and the value, both as strings.
pub open spec fn json_member(name: Seq<char>, value: Seq<char>) -> Seq<char> {
    json_string(name) + seq![':'] + json_string(value)
}

/// `t` is a compact JSON object text that holds a member for each of the pairs:
/// it starts with `{`, ends with `}`, and contains each `"name":"value"`.
pub open spec fn json_object_naming(t: Seq<char>, ps: Seq<(Seq<char>, Seq<char>)>) -> bool {
    &&& t.len() >= 2
    &&& t[0] == '{'
    &&& t.last() == '}'
    &&& forall|i: int| 0 <= i < ps.len() ==> contains_spec(t, #[trigger] json_member(ps[i].0, ps[i].1))
}

/// `serde_json::to_string` of the parameters as a `HashMap<String, String>` (one
/// entry per pair, the names being distinct). The compact serializer writes `{`,
/// then each entry as a JSON string name, `:` and a JSON string value, separated by
/// `,`, then `}`; writing a map of strings cannot fail. The order of the members
/// follows the walk of the hash map, which each process seeds anew, so the contract
/// states only that the text is an object with a member for each parameter.
#[verifier::external_body]
fn params_json(params: &Vec<(String, String)>) -> (r: String)
    requires
        distinct_names(pair_views(params@)),
    ensures
        json_object_naming(r@, pair_views(params@)),
{
    let map: std::collections::HashMap<String, String> = params.iter().cloned().collect();
    serde_json::to_string(&map).unwrap_or_default()
}

/// The variables that script parameters export, in the order of the parameters, and
/// (when there are parameters) `DM_SCRIPT_PARAMS_JSON` with all of them as JSON.
pub fn parameter_environment(params: &Vec<(String, String)>) -> (r: Vec<(String, String)>)
    requires
        distinct_names(pair_views(params@)),
    ensures
        params@.len() == 0 ==> r@.len() == 0,
        params@.len() > 0 ==> pair_views(r@).drop_last() == params_env(pair_views(params@)) && r@.last().0@
            == "DM_SCRIPT_PARAMS_JSON"@ && json_object_naming(r@.last().1@, pair_views(params@)),
{
    if params.len() == 0 {
        return Vec::new();
    }
    let mut out = parameter_pairs(params);
    let ghost before = pair_views(out@);
    out.push(("DM_SCRIPT_PARAMS_JSON".to_owned(), params_json(params)));
    assert(pair_views(out@).drop_last() =~= before);
    out
}

fn parameter_pairs(params: &Vec<(String, String)>) -> (r: Vec<(String, String)>)
    ensures
        pair_views(r@) == params_env(pair_views(params@)),
{
    let ghost pv = pair_views(params@);
    let mut out: Vec<(String, String)> = Vec::new();
    let mut i: usize = 0;
    assert(pv.take(0) =~= Seq::<(Seq<char>, Seq<char>)>::empty());
    assert(pair_views(out@) =~= Seq::<(Seq<char>, Seq<char>)>::empty());
    while i < params.len()
        invariant
            i <= params@.len(),
            pv == pair_views(params@),
            pair_views(out@) == params_env(pv.take(i as int)),
        decreases params.len() - i,
    {
        assert(pv.take(i + 1).drop_last() =~= pv.take(i as int));
        assert(pv.take(i + 1).last() == (params@[i as int].0@, params@[i as int].1@));
        let name = normalize_env_key(params[i].0.as_str());
        if !name.as_str().is_empty() {
            let ghost before = pair_views(out@);
            out.push((prefixed("DM_PARAM_", &name), params[i].1.clone()));
            out.push((prefixed("PARAM_", &name), params[i].1.clone()));
            assert(pair_views(out@) =~= before + param_env(pv[i as int].0, pv[i as int].1));
        } else {
            assert(param_env(pv[i as int].0, pv[i as int].1) =~= Seq::<(Seq<char>, Seq<char>)>::empty());
            assert(pair_views(out@) =~= params_env(pv.take(i as int)) + Seq::<(Seq<char>, Seq<char>)>::empty());
        }
        i = i + 1;
    }
    assert(pv.take(i as int) =~= pv);
    out
}

} // verus!
