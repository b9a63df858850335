//! Elasticsearch settings read from a command line or from `elasticsearch.yml`.
use vstd::prelude::*;
use crate::text::{chars_of, contains_spec, contains_str, find_char, first_index, lines, lines_spec, push_str, seq_eq, slice_to_vec, split_char, split_char_spec, split_whitespace, split_ws, starts_with, starts_with_spec, string_of, string_views, trim, trim_char, trim_char_spec, trim_spec, views};

verus! {

/// The option prefixes that set `key` on an Elasticsearch command line.
pub open spec fn es_prefixes(key: Seq<char>) -> Seq<Seq<char>> {
    seq!["-E"@ + key + "="@, "-Des."@ + key + "="@, "-Des.default."@ + key + "="@, "--"@ + key + "="@]
}

/// A command-line word without surrounding double, then single, quotes.
pub open spec fn unquote(t: Seq<char>) -> Seq<char> {
    trim_char_spec(trim_char_spec(t, '"'), '\'')
}

/// The value that word `tok` sets, by the first of the prefixes `ps` that it starts
/// with and whose value is not blank.
pub open spec fn prefixed_value(tok: Seq<char>, ps: Seq<Seq<char>>) -> Option<Seq<char>>
    decreases ps.len(),
{
    if ps.len() == 0 {
        None
    } else if starts_with_spec(tok, ps[0]) && trim_spec(tok.skip(ps[0].len() as int)).len() > 0 {
        Some(trim_spec(tok.skip(ps[0].len() as int)))
    } else {
        prefixed_value(tok, ps.drop_first())
    }
}

/// The first value that the words `toks` set for `key`.
pub open spec fn es_cmd_scan(toks: Seq<Seq<char>>, key: Seq<char>) -> Option<Seq<char>>
    decreases toks.len(),
{
    if toks.len() == 0 {
        None
    } else {
        match prefixed_value(unquote(toks[0]), es_prefixes(key)) {
            Some(v) => Some(v),
            None => es_cmd_scan(toks.drop_first(), key),
        }
    }
}

fn prefix_of(a: &str, key: &str, b: &str) -> (r: Vec<char>)
    ensures
        r@ == a@ + key@ + b@,
{
    let mut out: Vec<char> = Vec::new();
    push_str(&mut out, a);
    push_str(&mut out, key);
    push_str(&mut out, b);
    out
}

/// The value that a command line sets for setting `key`.
pub fn es_cmd_setting(cmd: &str, key: &str) -> (r: Option<String>)
    ensures
        match es_cmd_scan(split_ws(cmd@), key@) {
            Some(v) => r matches Some(s) && s@ == v,
            None => r is None,
        },
{
    let ps: Vec<Vec<char>> = vec![
        prefix_of("-E", key, "="),
        prefix_of("-Des.", key, "="),
        prefix_of("-Des.default.", key, "="),
        prefix_of("--", key, "="),
    ];
    let ghost pv = views(ps@);
    assert(pv =~= es_prefixes(key@));
    let cc = chars_of(cmd);
    let toks = split_whitespace(cc.as_slice());
    let ghost tv = views(toks@);
    let mut i: usize = 0;
    assert(tv.skip(0) =~= tv);
    while i < toks.len()
        invariant
            i <= toks@.len(),
            tv == views(toks@),
            tv == split_ws(cmd@),
            pv == views(ps@),
            pv == es_prefixes(key@),
            es_cmd_scan(tv, key@) == es_cmd_scan(tv.skip(i as int), key@),
        decreases toks.len() - i,
    {
        let a = trim_char(toks[i].as_slice(), '"');
        let t = trim_char(a.as_slice(), '\'');
        assert(tv.skip(i as int)[0] == toks@[i as int]@);
        assert(tv.skip(i as int).drop_first() =~= tv.skip(i + 1));
        let mut j: usize = 0;
        assert(pv.skip(0) =~= pv);
        while j < ps.len()
            invariant
                j <= ps@.len(),
                pv == views(ps@),
                pv == es_prefixes(key@),
                i < tv.len(),
                tv == split_ws(cmd@),
                es_cmd_scan(tv, key@) == es_cmd_scan(tv.skip(i as int), key@),
                tv.skip(i as int)[0] == tv[i as int],
                t@ == unquote(tv[i as int]),
                prefixed_value(t@, pv) == prefixed_value(t@, pv.skip(j as int)),
            decreases ps.len() - j,
        {
            assert(pv.skip(j as int)[0] == ps@[j as int]@);
            assert(pv.skip(j as int).drop_first() =~= pv.skip(j + 1));
            if starts_with(t.as_slice(), ps[j].as_slice()) {
                let rest = slice_to_vec(t.as_slice(), ps[j].len(), t.len());
                assert(rest@ =~= t@.skip(ps@[j as int]@.len() as int));
                let v = trim(rest.as_slice());
                if v.len() > 0 {
                    assert(prefixed_value(t@, pv.skip(j as int)) == Some(v@));
                    return Some(string_of(v.as_slice()));
                }
            }
            j = j + 1;
        }
        i = i + 1;
    }
    None
}

/// The text of a line before its first `#`.
pub open spec fn before_hash(l: Seq<char>) -> Seq<char> {
    match first_index(l, '#') {
        Some(i) => l.take(i),
        None => l,
    }
}

/// The value of a `key: value` line: unquoted, brackets dropped, the first item of a
/// list, trimmed.
pub open spec fn setting_value(right: Seq<char>) -> Seq<char> {
    let v = trim_char_spec(
        trim_char_spec(trim_char_spec(trim_char_spec(trim_spec(right), '"'), '\''), '['),
        ']',
    );
    trim_spec(split_char_spec(v, ',')[0])
}

/// What line `raw` sets for `key`, if it sets it to something not blank.
pub open spec fn config_line_value(raw: Seq<char>, key: Seq<char>) -> Option<Seq<char>> {
    let line = trim_spec(before_hash(raw));
    match first_index(line, ':') {
        Some(i) => if trim_spec(line.take(i)) == key && setting_value(line.skip(i + 1)).len() > 0 {
            Some(setting_value(line.skip(i + 1)))
        } else {
            None
        },
        None => None,
    }
}

/// The first value that the lines set for `key`.
pub open spec fn config_scan(ls: Seq<Seq<char>>, key: Seq<char>) -> Option<Seq<char>>
    decreases ls.len(),
{
    if ls.len() == 0 {
        None
    } else {
        match config_line_value(ls[0], key) {
            Some(v) => Some(v),
            None => config_scan(ls.drop_first(), key),
        }
    }
}

fn line_value(raw: &[char], key: &[char]) -> (r: Option<Vec<char>>)
    ensures
        match config_line_value(raw@, key@) {
            Some(v) => r matches Some(s) && s@ == v,
            None => r is None,
        },
{
    let head = match find_char(raw, '#') {
        Some(i) => slice_to_vec(raw, 0, i),
        None => slice_to_vec(raw, 0, raw.len()),
    };
    assert(head@ =~= before_hash(raw@));
    let line = trim(head.as_slice());
    match find_char(line.as_slice(), ':') {
        None => None,
        Some(i) => {
            let left = slice_to_vec(line.as_slice(), 0, i);
            let right = slice_to_vec(line.as_slice(), i + 1, line.len());
            assert(left@ =~= line@.take(i as int));
            assert(right@ =~= line@.skip(i + 1));
            let lt = trim(left.as_slice());
            if !seq_eq(lt.as_slice(), key) {
                return None;
            }
            let v0 = trim(right.as_slice());
            let v1 = trim_char(v0.as_slice(), '"');
            let v2 = trim_char(v1.as_slice(), '\'');
            let v3 = trim_char(v2.as_slice(), '[');
            let v4 = trim_char(v3.as_slice(), ']');
            let parts = split_char(v4.as_slice(), ',');
            assert(views(parts@)[0] == parts@[0]@);
            let first = trim(parts[0].as_slice());
            if first.len() > 0 {
                Some(first)
            } else {
                None
            }
        },
    }
}

/// The value that an `elasticsearch.yml` text sets for `key`.
pub fn es_config_setting(config: &str, key: &str) -> (r: Option<String>)
    ensures
        match config_scan(lines_spec(config@), key@) {
            Some(v) => r matches Some(s) && s@ == v,
            None => r is None,
        },
{
    let cc = chars_of(config);
    let kc = chars_of(key);
    let ls = lines(cc.as_slice());
    let ghost lv = views(ls@);
    let mut i: usize = 0;
    assert(lv.skip(0) =~= lv);
    while i < ls.len()
        invariant
            i <= ls@.len(),
            lv == views(ls@),
            lv == lines_spec(config@),
            kc@ == key@,
            config_scan(lv, key@) == config_scan(lv.skip(i as int), key@),
        decreases ls.len() - i,
    {
        assert(lv.skip(i as int)[0] == ls@[i as int]@);
        assert(lv.skip(i as int).drop_first() =~= lv.skip(i + 1));
        match line_value(ls[i].as_slice(), kc.as_slice()) {
            Some(v) => {
                return Some(string_of(v.as_slice()));
            },
            None => {},
        }
        i = i + 1;
    }
    None
}

/// The program of the first command line whose first word names Elasticsearch.
pub open spec fn program_of(cmds: Seq<Seq<char>>) -> Option<Seq<char>>
    decreases cmds.len(),
{
    if cmds.len() == 0 {
        None
    } else {
        let toks = split_ws(cmds[0]);
        if toks.len() > 0 && contains_spec(toks[0], "elasticsearch"@) {
            Some(unquote(toks[0]))
        } else {
            program_of(cmds.drop_first())
        }
    }
}

pub fn infer_program_path(cmds: &Vec<String>) -> (r: Option<String>)
    ensures
        match program_of(string_views(cmds@)) {
            Some(v) => r matches Some(s) && s@ == v,
            None => r is None,
        },
{
    let ghost cv = string_views(cmds@);
    let mut i: usize = 0;
    assert(cv.skip(0) =~= cv);
    while i < cmds.len()
        invariant
            i <= cmds@.len(),
            cv == string_views(cmds@),
            program_of(cv) == program_of(cv.skip(i as int)),
        decreases cmds.len() - i,
    {
        assert(cv.skip(i as int)[0] == cmds@[i as int]@);
        assert(cv.skip(i as int).drop_first() =~= cv.skip(i + 1));
        let cc = chars_of(cmds[i].as_str());
        let toks = split_whitespace(cc.as_slice());
        if toks.len() > 0 {
            assert(views(toks@)[0] == toks@[0]@);
            if contains_str(toks[0].as_slice(), "elasticsearch") {
                let a = trim_char(toks[0].as_slice(), '"');
                let b = trim_char(a.as_slice(), '\'');
                return Some(string_of(b.as_slice()));
            }
        }
        i = i + 1;
    }
    None
}

/// `未配置` for a blank value, else the value.
pub fn mask_empty(value: &str) -> (r: String)
    ensures
        r@ == (if trim_spec(value@).len() == 0 {
            "未配置"@
        } else {
            value@
        }),
{
    let vc = chars_of(value);
    let t = trim(vc.as_slice());
    if t.len() == 0 {
        "未配置".to_owned()
    } else {
        value.to_owned()
    }
}

} // verus!
