//! Helpers shared by the checks: statuses, text clipping, shell quoting, and reading
//! `ps`/`ss` listings and log lines.
use vstd::prelude::*;
use crate::text::{chars_of, contains, contains_spec, contains_str, is_ascii_alnum, join, join_spec, lines, lines_spec, push_str, slice_to_vec, split_whitespace, split_ws, string_of, to_lowercase, unicode_lowercase, views};
use crate::checks::{CheckStatus};

verus! {

/// `Healthy` for a good outcome, else `Warn`.
pub fn status_from_bool(ok: bool) -> (s: CheckStatus)
    ensures
        ok ==> s is Healthy,
        !ok ==> s is Warn,
{
    if ok {
        CheckStatus::Healthy
    } else {
        CheckStatus::Warn
    }
}

/// At most `max` characters of `s`, followed by `...` when characters were cut.
pub open spec fn truncate_spec(s: Seq<char>, max: nat) -> Seq<char> {
    if s.len() > max {
        s.take(max as int) + "..."@
    } else {
        s
    }
}

pub fn truncate_chars(value: &[char], max_chars: usize) -> (r: Vec<char>)
    ensures
        r@ == truncate_spec(value@, max_chars as nat),
{
    if value.len() > max_chars {
        let mut out = slice_to_vec(value, 0, max_chars);
        push_str(&mut out, "...");
        assert(out@ =~= value@.take(max_chars as int) + "..."@);
        out
    } else {
        let out = slice_to_vec(value, 0, value.len());
        assert(out@ =~= value@);
        out
    }
}

pub fn truncate(value: &str, max_chars: usize) -> (r: String)
    ensures
        r@ == truncate_spec(value@, max_chars as nat),
{
    let v = chars_of(value);
    let t = truncate_chars(v.as_slice(), max_chars);
    string_of(t.as_slice())
}

/// Characters that need no quoting in a shell word.
pub open spec fn is_shell_safe(c: char) -> bool {
    is_ascii_alnum(c) || c == '-' || c == '_' || c == '.' || c == '/' || c == ':'
}

/// `s` with every `'` written as `'\''`.
pub open spec fn quote_escape(s: Seq<char>) -> Seq<char>
    decreases s.len(),
{
    if s.len() == 0 {
        Seq::empty()
    } else {
        quote_escape(s.drop_last()) + if s.last() == '\'' {
            seq!['\'', '\\', '\'', '\'']
        } else {
            seq![s.last()]
        }
    }
}

/// A word the shell reads back as `s`: `s` itself when it holds only safe characters,
/// else `s` in single quotes.
pub open spec fn shell_escape_spec(s: Seq<char>) -> Seq<char> {
    if forall|i: int| 0 <= i < s.len() ==> is_shell_safe(#[trigger] s[i]) {
        s
    } else {
        seq!['\''] + quote_escape(s) + seq!['\'']
    }
}

fn shell_safe(c: char) -> (r: bool)
    ensures
        r == is_shell_safe(c),
{
    ('0' <= c && c <= '9') || ('a' <= c && c <= 'z') || ('A' <= c && c <= 'Z') || c == '-' || c
        == '_' || c == '.' || c == '/' || c == ':'
}

pub fn shell_escape(value: &str) -> (r: String)
    ensures
        r@ == shell_escape_spec(value@),
{
    let v = chars_of(value);
    let mut all_safe = true;
    let mut i: usize = 0;
    while i < v.len()
        invariant
            i <= v.len(),
            all_safe == forall|j: int| 0 <= j < i ==> is_shell_safe(#[trigger] v@[j]),
        decreases v.len() - i,
    {
        if !shell_safe(v[i]) {
            all_safe = false;
        }
        i = i + 1;
    }
    if all_safe {
        return value.to_owned();
    }
    let mut out: Vec<char> = Vec::new();
    out.push('\'');
    let mut k: usize = 0;
    while k < v.len()
        invariant
            k <= v.len(),
            out@ == seq!['\''] + quote_escape(v@.take(k as int)),
        decreases v.len() - k,
    {
        proof {
            assert(v@.take(k + 1).drop_last() =~= v@.take(k as int));
        }
        if v[k] == '\'' {
            out.push('\'');
            out.push('\\');
            out.push('\'');
            out.push('\'');
        } else {
            out.push(v[k]);
        }
        k = k + 1;
        assert(out@ =~= seq!['\''] + quote_escape(v@.take(k as int)));
    }
    out.push('\'');
    assert(v@.take(v@.len() as int) =~= v@);
    assert(out@ =~= seq!['\''] + quote_escape(v@) + seq!['\'']);
    string_of(out.as_slice())
}

// ---------------------------------------------------------------------------
// Listings
// ---------------------------------------------------------------------------

pub open spec fn str_views(v: Seq<&str>) -> Seq<Seq<char>> {
    v.map_values(|s: &str| s@)
}

pub open spec fn row_views(rows: Seq<Vec<String>>) -> Seq<Seq<Seq<char>>> {
    rows.map_values(|r: Vec<String>| r@.map_values(|s: String| s@))
}

/// Some pattern occurs in `l`.
pub open spec fn any_contained(l: Seq<char>, ps: Seq<Seq<char>>) -> bool {
    exists|i: int| 0 <= i < ps.len() && contains_spec(l, #[trigger] ps[i])
}

/// The table row for one `ps -eo pid,ppid,user,stat,%cpu,%mem,lstart,args` line: pid,
/// ppid, user, stat, cpu, mem and the command (words 11 on, clipped to 160 characters),
/// for lines that mention one of the lowercased patterns and are not a `grep`.
pub open spec fn process_row(line: Seq<char>, lps: Seq<Seq<char>>) -> Option<Seq<Seq<char>>> {
    let lower = unicode_lowercase(line);
    let parts = split_ws(line);
    if !any_contained(lower, lps) || contains_spec(lower, "grep "@) || parts.len() < 10 {
        None
    } else {
        Some(
            seq![
                parts[0],
                parts[1],
                parts[2],
                parts[3],
                parts[4],
                parts[5],
                truncate_spec(join_spec(parts.skip(10), " "@), 160),
            ],
        )
    }
}

pub open spec fn process_rows_spec(ls: Seq<Seq<char>>, lps: Seq<Seq<char>>) -> Seq<Seq<Seq<char>>>
    decreases ls.len(),
{
    if ls.len() == 0 {
        Seq::empty()
    } else {
        let before = process_rows_spec(ls.drop_last(), lps);
        match process_row(ls.last(), lps) {
            Some(r) => before.push(r),
            None => before,
        }
    }
}

pub open spec fn lowered(ps: Seq<Seq<char>>) -> Seq<Seq<char>> {
    ps.map_values(|p: Seq<char>| unicode_lowercase(p))
}

fn lower_patterns(patterns: &[&str]) -> (r: Vec<Vec<char>>)
    ensures
        views(r@) == lowered(str_views(patterns@)),
{
    let mut out: Vec<Vec<char>> = Vec::new();
    let mut i: usize = 0;
    while i < patterns.len()
        invariant
            i <= patterns.len(),
            out@.len() == i,
            forall|j: int| 0 <= j < i ==> #[trigger] out@[j]@ == unicode_lowercase(patterns@[j]@),
        decreases patterns.len() - i,
    {
        let p = chars_of(patterns[i]);
        out.push(to_lowercase(p.as_slice()));
        i = i + 1;
    }
    assert(views(out@) =~= lowered(str_views(patterns@)));
    out
}

fn any_pattern(lower: &[char], lps: &Vec<Vec<char>>) -> (r: bool)
    ensures
        r == any_contained(lower@, views(lps@)),
{
    let ghost pv = views(lps@);
    let mut i: usize = 0;
    while i < lps.len()
        invariant
            i <= lps.len(),
            pv == views(lps@),
            forall|j: int| 0 <= j < i ==> !contains_spec(lower@, #[trigger] pv[j]),
        decreases lps.len() - i,
    {
        if contains(lower, lps[i].as_slice()) {
            assert(contains_spec(lower@, pv[i as int]));
            return true;
        }
        i = i + 1;
    }
    false
}

fn strings_of(parts: &Vec<Vec<char>>, from: usize, to: usize) -> (r: Vec<String>)
    requires
        from <= to <= parts.len(),
    ensures
        r@.map_values(|s: String| s@) == views(parts@).subrange(from as int, to as int),
{
    let mut out: Vec<String> = Vec::new();
    let mut i = from;
    while i < to
        invariant
            from <= i <= to <= parts.len(),
            out@.len() == i - from,
            forall|j: int| 0 <= j < i - from ==> #[trigger] out@[j]@ == parts@[from + j]@,
        decreases to - i,
    {
        out.push(string_of(parts[i].as_slice()));
        i = i + 1;
    }
    assert(out@.map_values(|s: String| s@) =~= views(parts@).subrange(from as int, to as int));
    out
}

fn one_process_row(line: &[char], lps: &Vec<Vec<char>>) -> (r: Option<Vec<String>>)
    ensures
        match process_row(line@, views(lps@)) {
            Some(row) => r matches Some(v) && v@.map_values(|s: String| s@) == row,
            None => r is None,
        },
{
    let lower = to_lowercase(line);
    let parts = split_whitespace(line);
    if !any_pattern(lower.as_slice(), lps) || contains_str(lower.as_slice(), "grep ")
        || parts.len() < 10 {
        return None;
    }
    let mut row = strings_of(&parts, 0, 6);
    let tail = slice_to_vec_of_vecs(&parts, 10);
    let sp = chars_of(" ");
    let cmd = join(tail.as_slice(), sp.as_slice());
    let cmd = truncate_chars(cmd.as_slice(), 160);
    let ghost head = row@.map_values(|s: String| s@);
    row.push(string_of(cmd.as_slice()));
    proof {
        let pv = views(parts@);
        assert(tail@.map_values(|v: Vec<char>| v@) =~= pv.skip(10));
        assert(row@.map_values(|s: String| s@) =~= head.push(cmd@));
        assert(head =~= pv.subrange(0, 6));
    }
    Some(row)
}

/// Copies of `parts[from..]`.
fn slice_to_vec_of_vecs(parts: &Vec<Vec<char>>, from: usize) -> (r: Vec<Vec<char>>)
    requires
        from <= parts.len(),
    ensures
        views(r@) == views(parts@).skip(from as int),
{
    let mut out: Vec<Vec<char>> = Vec::new();
    let mut i = from;
    while i < parts.len()
        invariant
            from <= i <= parts.len(),
            out@.len() == i - from,
            forall|j: int| 0 <= j < i - from ==> #[trigger] out@[j]@ == parts@[from + j]@,
        decreases parts.len() - i,
    {
        let p = slice_to_vec(parts[i].as_slice(), 0, parts[i].len());
        assert(p@ =~= parts@[i as int]@);
        out.push(p);
        i = i + 1;
    }
    assert(views(out@) =~= views(parts@).skip(from as int));
    out
}

/// `process_rows`: the rows of a `ps -eo pid,ppid,user,stat,%cpu,%mem,lstart,args
/// --no-headers` listing (`ps_output`) for processes matching any of `patterns`,
/// compared case-insensitively.
pub fn process_rows(ps_output: &str, patterns: &[&str]) -> (r: Vec<Vec<String>>)
    ensures
        row_views(r@) == process_rows_spec(lines_spec(ps_output@), lowered(str_views(patterns@))),
{
    let lps = lower_patterns(patterns);
    let out = chars_of(ps_output);
    let ls = lines(out.as_slice());
    let ghost lv = views(ls@);
    let mut rows: Vec<Vec<String>> = Vec::new();
    let mut i: usize = 0;
    while i < ls.len()
        invariant
            i <= ls.len(),
            lv == views(ls@),
            row_views(rows@) == process_rows_spec(lv.take(i as int), views(lps@)),
        decreases ls.len() - i,
    {
        proof {
            assert(lv.take(i + 1).drop_last() =~= lv.take(i as int));
            assert(lv.take(i + 1).last() == ls@[i as int]@);
        }
        match one_process_row(ls[i].as_slice(), &lps) {
            Some(row) => {
                let ghost before = row_views(rows@);
                rows.push(row);
                assert(row_views(rows@) =~= before.push(row_views(rows@).last()));
            },
            None => {},
        }
        i = i + 1;
    }
    assert(lv.take(ls@.len() as int) =~= lv);
    rows
}

/// Some port `p` occurs as `:p` in the line.
pub open spec fn any_port(line: Seq<char>, ports: Seq<Seq<char>>) -> bool {
    exists|i: int| 0 <= i < ports.len() && contains_spec(line, seq![':'] + #[trigger] ports[i])
}

/// The row for one `ss -ltnp` line that mentions a pattern (case-insensitively) or
/// one of the ports: netid, local address, peer address, last column.
pub open spec fn listen_row(line: Seq<char>, lps: Seq<Seq<char>>, ports: Seq<Seq<char>>) -> Option<
    Seq<Seq<char>>,
> {
    let cols = split_ws(line);
    if (!any_contained(unicode_lowercase(line), lps) && !any_port(line, ports)) || cols.len() < 5 {
        None
    } else {
        Some(seq![cols[0], cols[3], cols[4], cols.last()])
    }
}

pub open spec fn listen_rows_spec(
    ls: Seq<Seq<char>>,
    lps: Seq<Seq<char>>,
    ports: Seq<Seq<char>>,
) -> Seq<Seq<Seq<char>>>
    decreases ls.len(),
{
    if ls.len() == 0 {
        Seq::empty()
    } else {
        let before = listen_rows_spec(ls.drop_last(), lps, ports);
        match listen_row(ls.last(), lps, ports) {
            Some(r) => before.push(r),
            None => before,
        }
    }
}

fn port_matches(line: &[char], ports: &[&str]) -> (r: bool)
    ensures
        r == any_port(line@, str_views(ports@)),
{
    let ghost pv = str_views(ports@);
    let mut i: usize = 0;
    while i < ports.len()
        invariant
            i <= ports.len(),
            pv == str_views(ports@),
            forall|j: int| 0 <= j < i ==> !contains_spec(line@, seq![':'] + #[trigger] pv[j]),
        decreases ports.len() - i,
    {
        let mut pat: Vec<char> = Vec::new();
        pat.push(':');
        push_str(&mut pat, ports[i]);
        assert(pat@ =~= seq![':'] + pv[i as int]);
        if contains(line, pat.as_slice()) {
            return true;
        }
        i = i + 1;
    }
    false
}

fn one_listen_row(line: &[char], lps: &Vec<Vec<char>>, ports: &[&str]) -> (r: Option<Vec<String>>)
    ensures
        match listen_row(line@, views(lps@), str_views(ports@)) {
            Some(row) => r matches Some(v) && v@.map_values(|s: String| s@) == row,
            None => r is None,
        },
{
    let lower = to_lowercase(line);
    let cols = split_whitespace(line);
    let match_proc = any_pattern(lower.as_slice(), lps);
    let match_port = port_matches(line, ports);
    if (!match_proc && !match_port) || cols.len() < 5 {
        return None;
    }
    let mut row: Vec<String> = Vec::new();
    row.push(string_of(cols[0].as_slice()));
    row.push(string_of(cols[3].as_slice()));
    row.push(string_of(cols[4].as_slice()));
    row.push(string_of(cols[cols.len() - 1].as_slice()));
    proof {
        let cv = views(cols@);
        assert(row@.map_values(|s: String| s@) =~= seq![cv[0], cv[3], cv[4], cv.last()]);
    }
    Some(row)
}

/// `listen_rows`: rows of an `ss -ltnp` (or `netstat -ltnp`) listing for listeners whose
/// line mentions a process pattern or one of the ports.
pub fn listen_rows(ss_output: &str, patterns: &[&str], ports: &[&str]) -> (r: Vec<Vec<String>>)
    ensures
        row_views(r@) == listen_rows_spec(
            lines_spec(ss_output@),
            lowered(str_views(patterns@)),
            str_views(ports@),
        ),
{
    let lps = lower_patterns(patterns);
    let out = chars_of(ss_output);
    let ls = lines(out.as_slice());
    let ghost lv = views(ls@);
    let mut rows: Vec<Vec<String>> = Vec::new();
    let mut i: usize = 0;
    while i < ls.len()
        invariant
            i <= ls.len(),
            lv == views(ls@),
            row_views(rows@) == listen_rows_spec(lv.take(i as int), views(lps@), str_views(ports@)),
        decreases ls.len() - i,
    {
        proof {
            assert(lv.take(i + 1).drop_last() =~= lv.take(i as int));
            assert(lv.take(i + 1).last() == ls@[i as int]@);
        }
        match one_listen_row(ls[i].as_slice(), &lps, ports) {
            Some(row) => {
                let ghost before = row_views(rows@);
                rows.push(row);
                assert(row_views(rows@) =~= before.push(row_views(rows@).last()));
            },
            None => {},
        }
        i = i + 1;
    }
    assert(lv.take(ls@.len() as int) =~= lv);
    rows
}

// ---------------------------------------------------------------------------
// Log lines
// ---------------------------------------------------------------------------

pub open spec fn error_keywords() -> Seq<Seq<char>> {
    seq![
        "error"@,
        "exception"@,
        "fatal"@,
        "panic"@,
        "failed"@,
        "timeout"@,
        "denied"@,
        "corrupt"@,
        "oom"@,
        "unavailable"@,
        "refused"@,
    ]
}

/// A log line that, lowercased, holds an error keyword.
pub open spec fn is_error_line(l: Seq<char>) -> bool {
    any_contained(unicode_lowercase(l), error_keywords())
}

/// The last `n` elements of `s` (all of them when there are fewer).
pub open spec fn last_n<A>(s: Seq<A>, n: nat) -> Seq<A> {
    if s.len() > n {
        s.skip(s.len() - n)
    } else {
        s
    }
}

pub open spec fn error_lines(ls: Seq<Seq<char>>) -> Seq<Seq<char>>
    decreases ls.len(),
{
    if ls.len() == 0 {
        Seq::empty()
    } else if is_error_line(ls.last()) {
        error_lines(ls.drop_last()).push(ls.last())
    } else {
        error_lines(ls.drop_last())
    }
}

/// `grep_error_lines`: among the last 2000 lines of a log (`lines`, in file order),
/// the last `max_lines` that hold an error keyword, in file order.
pub fn grep_error_lines(lines: &[String], max_lines: usize) -> (r: Vec<String>)
    ensures
        r@.map_values(|s: String| s@) == last_n(
            error_lines(last_n(lines@.map_values(|s: String| s@), 2000)),
            max_lines as nat,
        ),
{
    let ghost all = lines@.map_values(|s: String| s@);
    let start: usize = if lines.len() > 2000 {
        lines.len() - 2000
    } else {
        0
    };
    let ghost tail = last_n(all, 2000);
    assert(tail =~= all.skip(start as int));
    let kws: Vec<Vec<char>> = vec![
        chars_of("error"),
        chars_of("exception"),
        chars_of("fatal"),
        chars_of("panic"),
        chars_of("failed"),
        chars_of("timeout"),
        chars_of("denied"),
        chars_of("corrupt"),
        chars_of("oom"),
        chars_of("unavailable"),
        chars_of("refused"),
    ];
    assert(views(kws@) =~= error_keywords());
    let mut kept: Vec<String> = Vec::new();
    let mut i = start;
    while i < lines.len()
        invariant
            start <= i <= lines.len(),
            all == lines@.map_values(|s: String| s@),
            tail == all.skip(start as int),
            views(kws@) == error_keywords(),
            kept@.map_values(|s: String| s@) == error_lines(tail.take(i - start)),
        decreases lines.len() - i,
    {
        let lc = chars_of(lines[i].as_str());
        let lower = to_lowercase(lc.as_slice());
        proof {
            assert(tail.take(i + 1 - start).drop_last() =~= tail.take(i - start));
            assert(tail.take(i + 1 - start).last() == lc@);
        }
        if any_pattern(lower.as_slice(), &kws) {
            let ghost before = kept@.map_values(|s: String| s@);
            kept.push(string_of(lc.as_slice()));
            assert(kept@.map_values(|s: String| s@) =~= before.push(lc@));
        }
        i = i + 1;
    }
    assert(tail.take(lines@.len() - start) =~= tail);
    let n = kept.len();
    let from: usize = if n > max_lines {
        n - max_lines
    } else {
        0
    };
    let mut out: Vec<String> = Vec::new();
    let mut k = from;
    let ghost kv = kept@.map_values(|s: String| s@);
    while k < n
        invariant
            from <= k <= n == kept.len(),
            kv == kept@.map_values(|s: String| s@),
            out@.map_values(|s: String| s@) == kv.subrange(from as int, k as int),
        decreases n - k,
    {
        let c = chars_of(kept[k].as_str());
        assert(c@ == kv[k as int]);
        let ghost before = out@.map_values(|s: String| s@);
        out.push(string_of(c.as_slice()));
        assert(out@.map_values(|s: String| s@) =~= before.push(c@));
        k = k + 1;
        assert(out@.map_values(|s: String| s@) =~= kv.subrange(from as int, k as int));
    }
    assert(kv.subrange(from as int, n as int) =~= last_n(kv, max_lines as nat));
    out
}

} // verus!
