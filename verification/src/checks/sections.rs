//! The tables that the checks show: numbered text, key/value lines, matching
//! configuration lines, open ports and kernel hardening settings, with the wording of
//! service states and of paths that were or were not found.
use vstd::prelude::*;
use crate::checks::common::{truncate, truncate_spec};
use crate::checks::listen::port_part;
use crate::text::{chars_of, contains_spec, contains_str, dec, dec_spec, eq_str, join, join_spec, lines, lines_spec, push_str, replace, replace_spec, rfind_char, slice_to_vec, split_whitespace, split_ws, string_of, string_views, strip_prefixes, strip_suffixes, to_lowercase, trim, trim_end_matches_str, trim_spec, trim_start_matches_str, unicode_lowercase, views};

verus! {

pub open spec fn row_views(rows: Seq<Vec<String>>) -> Seq<Seq<Seq<char>>> {
    rows.map_values(|r: Vec<String>| string_views(r@))
}

/// The text of an optional value, empty where there is none.
pub open spec fn text_or_empty(text: Option<Seq<char>>) -> Seq<char> {
    match text {
        Some(t) => t,
        None => Seq::empty(),
    }
}

pub open spec fn opt_view(text: Option<&str>) -> Option<Seq<char>> {
    match text {
        Some(t) => Some(t@),
        None => None,
    }
}

fn text_of<'a>(text: Option<&'a str>) -> (r: &'a str)
    ensures
        r@ == text_or_empty(opt_view(text)),
{
    proof {
        reveal_strlit("");
    }
    match text {
        Some(t) => t,
        None => "",
    }
}

/// Row `i` of a numbered text table: the line number and the line cut to 260
/// characters.
pub open spec fn numbered_row(ls: Seq<Seq<char>>, i: int) -> Seq<Seq<char>> {
    seq![dec_spec((i + 1) as nat), truncate_spec(ls[i], 260)]
}

/// The first 200 lines of a text (none where there is no text), numbered from 1.
pub fn numbered_lines(text: Option<&str>) -> (r: Vec<Vec<String>>)
    ensures
        ({
            let ls = lines_spec(text_or_empty(opt_view(text)));
            &&& r@.len() == (if ls.len() > 200 {
                200
            } else {
                ls.len()
            })
            &&& forall|i: int| 0 <= i < r@.len() ==> string_views(#[trigger] r@[i]@) == numbered_row(ls, i)
        }),
{
    let t = text_of(text);
    let tc = chars_of(t);
    let ls = lines(tc.as_slice());
    let ghost lv = views(ls@);
    let n: usize = if ls.len() > 200 {
        200
    } else {
        ls.len()
    };
    let mut out: Vec<Vec<String>> = Vec::new();
    let mut i: usize = 0;
    while i < n
        invariant
            i <= n,
            n <= ls@.len(),
            n <= 200,
            lv == views(ls@),
            out@.len() == i,
            forall|k: int| 0 <= k < i ==> string_views(#[trigger] out@[k]@) == numbered_row(lv, k),
        decreases n - i,
    {
        let num = string_of(dec((i + 1) as u64).as_slice());
        let line = string_of(ls[i].as_slice());
        let cut = truncate(line.as_str(), 260);
        let row = vec![num, cut];
        assert(string_views(row@) =~= numbered_row(lv, i as int));
        out.push(row);
        i = i + 1;
    }
    out
}

/// The first line whose first word is `key`.
pub open spec fn line_with_key(ls: Seq<Seq<char>>, key: Seq<char>) -> Option<Seq<char>>
    decreases ls.len(),
{
    if ls.len() == 0 {
        None
    } else if split_ws(ls[0]).len() > 0 && split_ws(ls[0])[0] == key {
        Some(ls[0])
    } else {
        line_with_key(ls.drop_first(), key)
    }
}

/// For each key, in order, that starts a line: the key and the rest of that line's
/// words joined by single spaces.
pub open spec fn kv_rows_spec(ls: Seq<Seq<char>>, keys: Seq<Seq<char>>) -> Seq<Seq<Seq<char>>>
    decreases keys.len(),
{
    if keys.len() == 0 {
        Seq::empty()
    } else {
        let prev = kv_rows_spec(ls, keys.drop_last());
        match line_with_key(ls, keys.last()) {
            Some(l) => prev.push(seq![keys.last(), join_spec(split_ws(l).drop_first(), " "@)]),
            None => prev,
        }
    }
}

fn find_key_line(ls: &Vec<Vec<char>>, key: &str) -> (r: Option<usize>)
    ensures
        match line_with_key(views(ls@), key@) {
            Some(l) => r matches Some(i) && i < ls@.len() && ls@[i as int]@ == l,
            None => r is None,
        },
        r matches Some(i) ==> i < ls@.len() && split_ws(ls@[i as int]@).len() > 0,
{
    let ghost lv = views(ls@);
    let mut i: usize = 0;
    assert(lv.skip(0) =~= lv);
    while i < ls.len()
        invariant
            i <= ls@.len(),
            lv == views(ls@),
            line_with_key(lv, key@) == line_with_key(lv.skip(i as int), key@),
        decreases ls.len() - i,
    {
        assert(lv.skip(i as int)[0] == ls@[i as int]@);
        assert(lv.skip(i as int).drop_first() =~= lv.skip(i + 1));
        let w = split_whitespace(ls[i].as_slice());
        if w.len() > 0 {
            assert(views(w@)[0] == w@[0]@);
            if eq_str(w[0].as_slice(), key) {
                return Some(i);
            }
        }
        i = i + 1;
    }
    None
}

/// The key/value rows of a text (such as `SHOW STATUS` output) for the given keys.
pub fn kv_rows(text: Option<&str>, keys: &[&str]) -> (r: Vec<Vec<String>>)
    ensures
        row_views(r@) == kv_rows_spec(lines_spec(text_or_empty(opt_view(text))), keys@.map_values(|k: &str| k@)),
{
    let t = text_of(text);
    let tc = chars_of(t);
    let ls = lines(tc.as_slice());
    let ghost lv = views(ls@);
    let ghost kv = keys@.map_values(|k: &str| k@);
    let mut out: Vec<Vec<String>> = Vec::new();
    let mut i: usize = 0;
    assert(kv.take(0) =~= Seq::<Seq<char>>::empty());
    assert(row_views(out@) =~= Seq::<Seq<Seq<char>>>::empty());
    while i < keys.len()
        invariant
            i <= keys@.len(),
            lv == views(ls@),
            kv == keys@.map_values(|k: &str| k@),
            row_views(out@) == kv_rows_spec(lv, kv.take(i as int)),
        decreases keys.len() - i,
    {
        assert(kv.take(i + 1).drop_last() =~= kv.take(i as int));
        assert(kv.take(i + 1).last() == keys@[i as int]@);
        match find_key_line(&ls, keys[i]) {
            Some(j) => {
                let w = split_whitespace(ls[j].as_slice());
                assert(views(w@).len() == w@.len());
                let rest = slice_to_vec_of_words(&w);
                let sep = chars_of(" ");
                let value = join(rest.as_slice(), sep.as_slice());
                assert(views(rest@) =~= views(w@).drop_first());
                let row = vec![keys[i].to_owned(), string_of(value.as_slice())];
                let ghost before = row_views(out@);
                assert(string_views(row@) =~= seq![kv[i as int], join_spec(split_ws(ls@[j as int]@).drop_first(), " "@)]);
                out.push(row);
                assert(row_views(out@) =~= before.push(string_views(row@)));
            },
            None => {},
        }
        i = i + 1;
    }
    assert(kv.take(i as int) =~= kv);
    out
}

fn slice_to_vec_of_words(w: &Vec<Vec<char>>) -> (r: Vec<Vec<char>>)
    requires
        w@.len() > 0,
    ensures
        views(r@) == views(w@).drop_first(),
{
    let mut out: Vec<Vec<char>> = Vec::new();
    let mut i: usize = 1;
    while i < w.len()
        invariant
            1 <= i <= w@.len(),
            views(out@) == views(w@).subrange(1, i as int),
        decreases w.len() - i,
    {
        let ghost before = views(out@);
        out.push(w[i].clone());
        assert(views(out@) =~= before.push(w@[i as int]@));
        assert(views(w@).subrange(1, i + 1) =~= views(w@).subrange(1, i as int).push(w@[i as int]@));
        i = i + 1;
    }
    assert(views(w@).subrange(1, i as int) =~= views(w@).drop_first());
    out
}

/// Whether a configuration line mentions one of the keys, compared lowercased.
pub open spec fn mentions_key(line: Seq<char>, keys: Seq<Seq<char>>) -> bool {
    exists|k: int| 0 <= k < keys.len() && contains_spec(unicode_lowercase(line), unicode_lowercase(#[trigger] keys[k]))
}

/// The numbered, trimmed (cut to 260 characters) lines that mention a key, from
/// line `0` up to `n`.
pub open spec fn context_rows_upto(ls: Seq<Seq<char>>, keys: Seq<Seq<char>>, n: int) -> Seq<Seq<Seq<char>>>
    decreases n,
{
    if n <= 0 {
        Seq::empty()
    } else {
        let prev = context_rows_upto(ls, keys, n - 1);
        if mentions_key(ls[n - 1], keys) {
            prev.push(seq![dec_spec(n as nat), truncate_spec(trim_spec(ls[n - 1]), 260)])
        } else {
            prev
        }
    }
}

/// The first 200 of them over the whole configuration.
pub open spec fn context_rows_spec(config: Seq<char>, keys: Seq<Seq<char>>) -> Seq<Seq<Seq<char>>> {
    let ls = lines_spec(config);
    let all = context_rows_upto(ls, keys, ls.len() as int);
    if all.len() > 200 {
        all.take(200)
    } else {
        all
    }
}

fn mentions_any(line: &[char], keys: &[&str]) -> (r: bool)
    ensures
        r == mentions_key(line@, keys@.map_values(|k: &str| k@)),
{
    let ghost kv = keys@.map_values(|k: &str| k@);
    let lower = to_lowercase(line);
    let mut i: usize = 0;
    while i < keys.len()
        invariant
            i <= keys@.len(),
            kv == keys@.map_values(|k: &str| k@),
            lower@ == unicode_lowercase(line@),
            forall|k: int| 0 <= k < i ==> !contains_spec(unicode_lowercase(line@), unicode_lowercase(#[trigger] kv[k])),
        decreases keys.len() - i,
    {
        let kc = chars_of(keys[i]);
        let kl = to_lowercase(kc.as_slice());
        assert(kv[i as int] == keys@[i as int]@);
        if crate::text::contains(lower.as_slice(), kl.as_slice()) {
            return true;
        }
        i = i + 1;
    }
    false
}

/// The lines of a configuration that mention one of the keys, numbered, at most 200.
pub fn context_rows(config: &str, keys: &[&str]) -> (r: Vec<Vec<String>>)
    ensures
        row_views(r@) == context_rows_spec(config@, keys@.map_values(|k: &str| k@)),
{
    let ghost kv = keys@.map_values(|k: &str| k@);
    let cc = chars_of(config);
    let ls = lines(cc.as_slice());
    let ghost lv = views(ls@);
    let mut out: Vec<Vec<String>> = Vec::new();
    let mut i: usize = 0;
    assert(row_views(out@) =~= Seq::<Seq<Seq<char>>>::empty());
    while i < ls.len()
        invariant
            i <= ls@.len(),
            lv == views(ls@),
            lv == lines_spec(config@),
            kv == keys@.map_values(|k: &str| k@),
            row_views(out@) == context_rows_upto(lv, kv, i as int),
        decreases ls.len() - i,
    {
        assert(lv[i as int] == ls@[i as int]@);
        if mentions_any(ls[i].as_slice(), keys) {
            let num = string_of(dec((i + 1) as u64).as_slice());
            let t = trim(ls[i].as_slice());
            let ts = string_of(t.as_slice());
            let cut = truncate(ts.as_str(), 260);
            let row = vec![num, cut];
            let ghost before = row_views(out@);
            assert(string_views(row@) =~= seq![dec_spec((i + 1) as nat), truncate_spec(trim_spec(lv[i as int]), 260)]);
            out.push(row);
            assert(row_views(out@) =~= before.push(string_views(row@)));
        }
        i = i + 1;
    }
    if out.len() > 200 {
        let mut kept: Vec<Vec<String>> = Vec::new();
        let mut j: usize = 0;
        while j < 200
            invariant
                j <= 200,
                out@.len() > 200,
                row_views(kept@) == row_views(out@).take(j as int),
            decreases 200 - j,
        {
            let ghost before = row_views(kept@);
            kept.push(out[j].clone());
            assert(row_views(kept@) =~= before.push(string_views(out@[j as int]@)));
            assert(row_views(out@).take(j + 1) =~= row_views(out@).take(j as int).push(string_views(out@[j as int]@)));
            j = j + 1;
        }
        return kept;
    }
    out
}

/// An open port of `ss -tulnp` output: (port, protocol, process), where the port is
/// what follows the last `:` of the fifth field, the protocol is the first field and
/// the process is the last field without the `users:((` prefix and trailing `)`.
pub open spec fn open_port_row(line: Seq<char>) -> Option<(Seq<char>, Seq<char>, Seq<char>)> {
    let p = split_ws(line);
    if p.len() < 5 {
        None
    } else {
        Some((port_part(p[4]), p[0], strip_suffixes(strip_prefixes(p.last(), "users:(("@), ")"@)))
    }
}

pub open spec fn open_port_rows_upto(ls: Seq<Seq<char>>) -> Seq<(Seq<char>, Seq<char>, Seq<char>)>
    decreases ls.len(),
{
    if ls.len() == 0 {
        Seq::empty()
    } else {
        let prev = open_port_rows_upto(ls.drop_last());
        match open_port_row(ls.last()) {
            Some(x) => prev.push(x),
            None => prev,
        }
    }
}

pub open spec fn triple_views(v: Seq<(String, String, String)>) -> Seq<(Seq<char>, Seq<char>, Seq<char>)> {
    v.map_values(|t: (String, String, String)| (t.0@, t.1@, t.2@))
}

/// The open ports of `ss -tulnp` output, its header line left out, in order.
pub fn open_port_rows(output: &str) -> (r: Vec<(String, String, String)>)
    ensures
        triple_views(r@) == open_port_rows_upto(
            if lines_spec(output@).len() == 0 {
                Seq::empty()
            } else {
                lines_spec(output@).drop_first()
            },
        ),
{
    let oc = chars_of(output);
    let ls = lines(oc.as_slice());
    let ghost lv = views(ls@);
    let mut out: Vec<(String, String, String)> = Vec::new();
    if ls.len() == 0 {
        assert(triple_views(out@) =~= Seq::<(Seq<char>, Seq<char>, Seq<char>)>::empty());
        return out;
    }
    let ghost rows = lv.drop_first();
    let mut i: usize = 1;
    assert(rows.take(0) =~= Seq::<Seq<char>>::empty());
    assert(triple_views(out@) =~= Seq::<(Seq<char>, Seq<char>, Seq<char>)>::empty());
    while i < ls.len()
        invariant
            1 <= i <= ls@.len(),
            lv == views(ls@),
            rows == lv.drop_first(),
            triple_views(out@) == open_port_rows_upto(rows.take(i - 1)),
        decreases ls.len() - i,
    {
        assert(rows.take(i as int).drop_last() =~= rows.take(i - 1));
        assert(rows.take(i as int).last() == ls@[i as int]@);
        let p = split_whitespace(ls[i].as_slice());
        if p.len() >= 5 {
            assert(views(p@)[4] == p@[4]@);
            assert(views(p@)[0] == p@[0]@);
            assert(views(p@).last() == p@[p@.len() - 1]@);
            let local = p[4].as_slice();
            let port: Vec<char> = match rfind_char(local, ':') {
                Some(k) => slice_to_vec(local, k + 1, local.len()),
                None => slice_to_vec(local, 0, local.len()),
            };
            assert(port@ =~= port_part(local@));
            let last = p[p.len() - 1].as_slice();
            let a = trim_start_matches_str(last, "users:((");
            let b = trim_end_matches_str(a.as_slice(), ")");
            let ghost before = triple_views(out@);
            let t = (string_of(port.as_slice()), string_of(p[0].as_slice()), string_of(b.as_slice()));
            out.push(t);
            assert(triple_views(out@) =~= before.push((t.0@, t.1@, t.2@)));
        }
        i = i + 1;
    }
    assert(rows.take(i - 1) =~= rows);
    out
}

/// The kernel hardening settings that the security check reads, with their
/// descriptions.
pub open spec fn kernel_params() -> Seq<(Seq<char>, Seq<char>)> {
    seq![
        ("net.ipv4.tcp_syncookies"@, "SYN Cookie 保护"@),
        ("net.ipv4.conf.all.rp_filter"@, "反向路径过滤"@),
        ("net.ipv4.conf.all.accept_redirects"@, "ICMP 重定向"@),
        ("net.ipv4.conf.all.send_redirects"@, "发送重定向"@),
        ("net.ipv4.conf.all.accept_source_route"@, "源路由"@),
        ("kernel.randomize_va_space"@, "ASLR"@),
        ("kernel.exec-shield"@, "Exec-Shield"@),
    ]
}

pub fn kernel_param_list() -> (r: Vec<(&'static str, &'static str)>)
    ensures
        r@.map_values(|p: (&str, &str)| (p.0@, p.1@)) == kernel_params(),
{
    let r = vec![
        ("net.ipv4.tcp_syncookies", "SYN Cookie 保护"),
        ("net.ipv4.conf.all.rp_filter", "反向路径过滤"),
        ("net.ipv4.conf.all.accept_redirects", "ICMP 重定向"),
        ("net.ipv4.conf.all.send_redirects", "发送重定向"),
        ("net.ipv4.conf.all.accept_source_route", "源路由"),
        ("kernel.randomize_va_space", "ASLR"),
        ("kernel.exec-shield", "Exec-Shield"),
    ];
    assert(r@.map_values(|p: (&str, &str)| (p.0@, p.1@)) =~= kernel_params());
    r
}

/// The status of a kernel setting's value: SYN cookies and reverse path filtering
/// want `1`; address space randomisation wants `2` (`1` is a warning, anything else
/// an error); the others are only shown.
pub open spec fn kernel_status_spec(param: Seq<char>, value: Seq<char>) -> Seq<char> {
    if param == "net.ipv4.tcp_syncookies"@ || param == "net.ipv4.conf.all.rp_filter"@ {
        if value == "1"@ {
            "ok"@
        } else {
            "warn"@
        }
    } else if param == "kernel.randomize_va_space"@ {
        if value == "2"@ {
            "ok"@
        } else if value == "1"@ {
            "warn"@
        } else {
            "error"@
        }
    } else {
        "info"@
    }
}

pub fn kernel_param_status(param: &str, value: &str) -> (r: &'static str)
    ensures
        r@ == kernel_status_spec(param@, value@),
{
    let pc = chars_of(param);
    let vc = chars_of(value);
    let p = pc.as_slice();
    let v = vc.as_slice();
    if eq_str(p, "net.ipv4.tcp_syncookies") || eq_str(p, "net.ipv4.conf.all.rp_filter") {
        if eq_str(v, "1") {
            "ok"
        } else {
            "warn"
        }
    } else if eq_str(p, "kernel.randomize_va_space") {
        if eq_str(v, "2") {
            "ok"
        } else if eq_str(v, "1") {
            "warn"
        } else {
            "error"
        }
    } else {
        "info"
    }
}

/// Where a kernel setting is read: `/proc/sys/` and its name with `.` as `/`.
pub fn sysctl_path(param: &str) -> (r: String)
    ensures
        r@ == "/proc/sys/"@ + replace_spec(param@, "."@, "/"@),
{
    let pc = chars_of(param);
    let dot = chars_of(".");
    let slash = chars_of("/");
    proof {
        reveal_strlit(".");
    }
    let body = replace(pc.as_slice(), dot.as_slice(), slash.as_slice());
    let mut out = chars_of("/proc/sys/");
    crate::text::push_all(&mut out, body.as_slice());
    string_of(out.as_slice())
}

/// The state that `systemctl is-active` reports, trimmed: `active` is running,
/// `inactive` is stopped; anything else says nothing.
pub fn systemctl_state_text(stdout: &str) -> (r: Option<&'static str>)
    ensures
        r == (if trim_spec(stdout@) == "active"@ {
            Some("运行中")
        } else if trim_spec(stdout@) == "inactive"@ {
            Some("已停止")
        } else {
            None::<&str>
        }),
{
    let sc = chars_of(stdout);
    let t = trim(sc.as_slice());
    if eq_str(t.as_slice(), "active") {
        Some("运行中")
    } else if eq_str(t.as_slice(), "inactive") {
        Some("已停止")
    } else {
        None
    }
}

/// The state of a service from `service <name> status` output (`None` where the
/// command could not run): running or active is running, stopped or inactive is
/// stopped (checked lowercased), anything else reads as not installed.
pub fn service_state_text(stdout: Option<&str>) -> (r: &'static str)
    ensures
        r@ == (match stdout {
            Some(out) => {
                let l = unicode_lowercase(out@);
                if contains_spec(l, "running"@) || contains_spec(l, "active"@) {
                    "运行中"@
                } else if contains_spec(l, "stopped"@) || contains_spec(l, "inactive"@) {
                    "已停止"@
                } else {
                    "未安装"@
                }
            },
            None => "未安装"@,
        }),
{
    match stdout {
        Some(out) => {
            let oc = chars_of(out);
            let l = to_lowercase(oc.as_slice());
            if contains_str(l.as_slice(), "running") || contains_str(l.as_slice(), "active") {
                "运行中"
            } else if contains_str(l.as_slice(), "stopped") || contains_str(l.as_slice(), "inactive") {
                "已停止"
            } else {
                "未安装"
            }
        },
        None => "未安装",
    }
}

/// How a path that was looked for is shown: the path, or `未推断到`.
pub fn path_text(path: Option<&str>) -> (r: String)
    ensures
        r@ == (match path {
            Some(p) => p@,
            None => "未推断到"@,
        }),
{
    match path {
        Some(p) => p.to_owned(),
        None => "未推断到".to_owned(),
    }
}

/// The same, where the program itself may not have been found.
pub fn path_text_if_available(path: Option<&str>, available: bool) -> (r: String)
    ensures
        r@ == (if available {
            match path {
                Some(p) => p@,
                None => "未推断到"@,
            }
        } else {
            "未检测到程序，跳过路径推断"@
        }),
{
    if available {
        path_text(path)
    } else {
        "未检测到程序，跳过路径推断".to_owned()
    }
}

} // verus!
