//! The lines of the PDF report of a Java analysis: the process, the findings, the
//! top hot spots and objects, the deepest threads, an extract of the heap summary
//! and the run log.
use vstd::prelude::*;
use crate::java_analyzer::report::first_n;
use crate::java_analyzer::{HotFrame, JavaAnalysis, JavaAnalysisLog, JavaFinding};
use crate::text::{chars_of, dec_spec, join, join_spec, lex_le, lex_le_exec, lines, lines_spec, push_dec, push_str, string_of, string_views, trim, trim_spec, views};

verus! {

/// A number written with at least two digits.
pub open spec fn two_digits(n: nat) -> Seq<char> {
    if n < 10 {
        "0"@ + dec_spec(n)
    } else {
        dec_spec(n)
    }
}

pub open spec fn finding_lines(fs: Seq<JavaFinding>) -> Seq<Seq<char>>
    decreases fs.len(),
{
    if fs.len() == 0 {
        Seq::empty()
    } else {
        let f = fs.last();
        finding_lines(fs.drop_last()) + seq![
            "["@ + f.level@ + "] "@ + f.title@,
            "  说明: "@ + f.detail@,
            "  建议: "@ + f.suggestion@,
        ]
    }
}

pub open spec fn hot_lines(hs: Seq<HotFrame>) -> Seq<Seq<char>>
    decreases hs.len(),
{
    if hs.len() == 0 {
        Seq::empty()
    } else {
        let h = hs.last();
        hot_lines(hs.drop_last()).push(
            two_digits(hs.len()) + ". "@ + h.method@ + " | "@ + h.category@ + " | 命中 "@ + dec_spec(h.count as nat)
                + " | 权重 "@ + dec_spec(h.weight as nat),
        )
    }
}

pub open spec fn object_lines(os: Seq<(String, u64, String)>) -> Seq<Seq<char>>
    decreases os.len(),
{
    if os.len() == 0 {
        Seq::empty()
    } else {
        let o = os.last();
        object_lines(os.drop_last()).push(
            two_digits(os.len()) + ". "@ + o.0@ + " | 实例 "@ + dec_spec(o.1 as nat) + " | "@ + o.2@,
        )
    }
}

/// A thread as the summary orders it: stack depth, state and its line.
pub type ThreadEntry = (nat, Seq<char>, Seq<char>);

/// `a` comes no later than `b`: deeper stacks first, then states in order.
pub open spec fn entry_le(a: ThreadEntry, b: ThreadEntry) -> bool {
    a.0 > b.0 || (a.0 == b.0 && lex_le(a.1, b.1))
}

pub open spec fn insert_entry(s: Seq<ThreadEntry>, x: ThreadEntry) -> Seq<ThreadEntry>
    decreases s.len(),
{
    if s.len() == 0 {
        seq![x]
    } else if entry_le(s.last(), x) {
        s.push(x)
    } else {
        insert_entry(s.drop_last(), x).push(s.last())
    }
}

/// The entries sorted stably, deepest first, then by state.
pub open spec fn sort_entries(s: Seq<ThreadEntry>) -> Seq<ThreadEntry>
    decreases s.len(),
{
    if s.len() == 0 {
        Seq::empty()
    } else {
        insert_entry(sort_entries(s.drop_last()), s.last())
    }
}

pub open spec fn thread_entry(t: crate::java_analyzer::ThreadInfo) -> ThreadEntry {
    (
        t.frames@.len(),
        t.state@,
        t.state@ + " | 栈深 "@ + dec_spec(t.frames@.len()) + " | "@ + t.name@ + " | "@ + t.top_frame@,
    )
}

pub open spec fn entry_lines(es: Seq<ThreadEntry>) -> Seq<Seq<char>> {
    es.map_values(|e: ThreadEntry| e.2)
}

pub open spec fn heap_lines(h: Seq<char>) -> Seq<Seq<char>> {
    first_n(lines_spec(h), 18).map_values(|l: Seq<char>| "  "@ + l)
}

pub open spec fn log_lines(ls: Seq<JavaAnalysisLog>) -> Seq<Seq<char>> {
    ls.map_values(|l: JavaAnalysisLog| l.timestamp@ + " ["@ + l.level@ + "] "@ + l.message@ + " "@ + dec_spec(l.percent as nat) + "%"@)
}

pub open spec fn ports_text(ports: Seq<Seq<char>>) -> Seq<char> {
    let j = join_spec(ports, ","@);
    if trim_spec(j).len() == 0 {
        "-"@
    } else {
        j
    }
}

pub open spec fn pdf_head(a: JavaAnalysis, exported_at: Seq<char>, memory: Seq<char>) -> Seq<Seq<char>> {
    seq![
        "DM Java 运行时分析报告"@,
        "导出时间: "@ + exported_at,
        "PID: "@ + dec_spec(a.process.pid as nat),
        "服务名: "@ + a.process.service_name@,
        "监听端口: "@ + ports_text(string_views(a.process.ports@)),
        "命令: "@ + a.process.cmd@,
        "Attach: "@ + (if a.attach_ok {
            "正常"@
        } else {
            "失败"@
        }),
        "线程: "@ + dec_spec(a.threads@.len()) + "  热点方法: "@ + dec_spec(a.hot_frames@.len()) + "  进程内存: "@ + memory,
    ] + (if trim_spec(a.attach_error@).len() > 0 {
        seq!["Attach 错误: "@ + a.attach_error@]
    } else {
        Seq::empty()
    })
}

/// The lines of the PDF report; `memory` is the process memory and `objects` the
/// class-histogram rows, each size written as it is shown.
pub open spec fn pdf_lines_spec(
    a: JavaAnalysis,
    exported_at: Seq<char>,
    memory: Seq<char>,
    objects: Seq<(String, u64, String)>,
) -> Seq<Seq<char>> {
    pdf_head(a, exported_at, memory) + seq![Seq::empty(), "异常综合分析"@] + (if a.findings@.len() == 0 {
        seq!["  暂无异常结论"@]
    } else {
        finding_lines(a.findings@)
    }) + seq![Seq::empty(), "CPU 热点 Top 30"@] + hot_lines(first_n(a.hot_frames@, 30)) + seq![
        Seq::empty(),
        "对象占用 Top 30"@,
    ] + object_lines(first_n(objects, 30)) + seq![Seq::empty(), "线程摘要 Top 40"@] + entry_lines(
        first_n(sort_entries(a.threads@.map_values(|t: crate::java_analyzer::ThreadInfo| thread_entry(t))), 40),
    ) + seq![Seq::empty(), "堆概要摘录"@] + heap_lines(a.heap_info@) + seq![Seq::empty(), "运行日志"@] + log_lines(
        a.runtime_logs@,
    )
}

fn two_digit_text(out: &mut Vec<char>, n: u64)
    ensures
        final(out)@ == old(out)@ + two_digits(n as nat),
{
    if n < 10 {
        out.push('0');
    }
    push_dec(out, n);
    proof {
        reveal_strlit("0");
    }
}

fn entry_le_exec(a: &(usize, Vec<char>, String), b: &(usize, Vec<char>, String)) -> (r: bool)
    ensures
        r == entry_le((a.0 as nat, a.1@, a.2@), (b.0 as nat, b.1@, b.2@)),
{
    a.0 > b.0 || (a.0 == b.0 && lex_le_exec(a.1.as_slice(), b.1.as_slice()))
}

pub open spec fn evs(v: Seq<(usize, Vec<char>, String)>) -> Seq<ThreadEntry> {
    v.map_values(|e: (usize, Vec<char>, String)| (e.0 as nat, e.1@, e.2@))
}

proof fn lemma_insert_entry_split(s: Seq<ThreadEntry>, x: ThreadEntry, k: int)
    requires
        0 <= k <= s.len(),
        forall|j: int| k <= j < s.len() ==> !entry_le(#[trigger] s[j], x),
    ensures
        insert_entry(s, x) == insert_entry(s.take(k), x) + s.skip(k),
    decreases s.len() - k,
{
    if k < s.len() {
        lemma_insert_entry_split(s.drop_last(), x, k);
        assert(s.drop_last().take(k) =~= s.take(k));
        assert(s.drop_last().skip(k).push(s.last()) =~= s.skip(k));
    } else {
        assert(s.take(k) =~= s);
        assert(s.skip(k) =~= Seq::<ThreadEntry>::empty());
    }
}

fn insert_entry_exec(v: &mut Vec<(usize, Vec<char>, String)>, x: (usize, Vec<char>, String))
    ensures
        evs(final(v)@) == insert_entry(evs(old(v)@), (x.0 as nat, x.1@, x.2@)),
{
    let ghost xv = (x.0 as nat, x.1@, x.2@);
    let mut k: usize = v.len();
    while k > 0
        invariant
            k <= v.len(),
            v@ == old(v)@,
            xv == (x.0 as nat, x.1@, x.2@),
            forall|j: int| k <= j < v.len() ==> !entry_le(#[trigger] evs(v@)[j], xv),
        ensures
            k <= v.len(),
            v@ == old(v)@,
            forall|j: int| k <= j < v.len() ==> !entry_le(#[trigger] evs(v@)[j], xv),
            k == 0 || entry_le(evs(v@)[k - 1], xv),
        decreases k,
    {
        if entry_le_exec(&v[k - 1], &x) {
            break;
        }
        k = k - 1;
    }
    let ghost before = evs(v@);
    proof {
        lemma_insert_entry_split(before, xv, k as int);
        if k > 0 {
            assert(before.take(k as int).last() == before[k - 1]);
        }
    }
    let ghost bv = v@;
    v.insert(k, x);
    assert(v@ =~= bv.take(k as int).push(x) + bv.skip(k as int));
    assert(evs(v@) =~= before.take(k as int).push(xv) + before.skip(k as int));
}

fn push_line(out: &mut Vec<String>, line: Vec<char>)
    ensures
        string_views(final(out)@) == string_views(old(out)@).push(line@),
{
    let ghost before = string_views(out@);
    out.push(string_of(line.as_slice()));
    assert(string_views(out@) =~= before.push(line@));
}

fn text_line(prefix: &str, s: &str) -> (r: Vec<char>)
    ensures
        r@ == prefix@ + s@,
{
    let mut v = chars_of(prefix);
    push_str(&mut v, s);
    v
}

fn push_head(out: &mut Vec<String>, a: &JavaAnalysis, exported_at: &str, memory: &str)
    ensures
        string_views(final(out)@) == string_views(old(out)@) + pdf_head(*a, exported_at@, memory@),
{
    let ghost start = string_views(out@);
    push_line(out, chars_of("DM Java 运行时分析报告"));
    push_line(out, text_line("导出时间: ", exported_at));
    let mut l = chars_of("PID: ");
    push_dec(&mut l, a.process.pid as u64);
    push_line(out, l);
    push_line(out, text_line("服务名: ", a.process.service_name.as_str()));
    let mut parts: Vec<Vec<char>> = Vec::new();
    let mut i: usize = 0;
    while i < a.process.ports.len()
        invariant
            i <= a.process.ports@.len(),
            views(parts@) == string_views(a.process.ports@).take(i as int),
        decreases a.process.ports.len() - i,
    {
        parts.push(chars_of(a.process.ports[i].as_str()));
        assert(string_views(a.process.ports@).take(i + 1) =~= string_views(a.process.ports@).take(i as int).push(
            a.process.ports@[i as int]@,
        ));
        i = i + 1;
    }
    assert(string_views(a.process.ports@).take(i as int) =~= string_views(a.process.ports@));
    let comma = chars_of(",");
    let j = join(parts.as_slice(), comma.as_slice());
    let mut l = chars_of("监听端口: ");
    if trim(j.as_slice()).len() == 0 {
        push_str(&mut l, "-");
    } else {
        let mut jj = j;
        l.append(&mut jj);
    }
    push_line(out, l);
    push_line(out, text_line("命令: ", a.process.cmd.as_str()));
    push_line(out, text_line("Attach: ", if a.attach_ok { "正常" } else { "失败" }));
    let mut l = chars_of("线程: ");
    push_dec(&mut l, a.threads.len() as u64);
    push_str(&mut l, "  热点方法: ");
    push_dec(&mut l, a.hot_frames.len() as u64);
    push_str(&mut l, "  进程内存: ");
    push_str(&mut l, memory);
    push_line(out, l);
    let ec = chars_of(a.attach_error.as_str());
    if trim(ec.as_slice()).len() > 0 {
        push_line(out, text_line("Attach 错误: ", a.attach_error.as_str()));
    }
    assert(string_views(out@) =~= start + pdf_head(*a, exported_at@, memory@));
}

fn push_findings(out: &mut Vec<String>, fs: &Vec<JavaFinding>)
    ensures
        string_views(final(out)@) == string_views(old(out)@) + (if fs@.len() == 0 {
            seq!["  暂无异常结论"@]
        } else {
            finding_lines(fs@)
        }),
{
    let ghost p1 = string_views(out@);
    if fs.len() == 0 {
        push_line(out, chars_of("  暂无异常结论"));
        return;
    }
    let mut i: usize = 0;
    while i < fs.len()
        invariant
            i <= fs@.len(),
            string_views(out@) == p1 + finding_lines(fs@.take(i as int)),
        decreases fs.len() - i,
    {
        assert(fs@.take(i + 1).drop_last() =~= fs@.take(i as int));
        let f = &fs[i];
        let mut l = chars_of("[");
        push_str(&mut l, f.level.as_str());
        push_str(&mut l, "] ");
        push_str(&mut l, f.title.as_str());
        push_line(out, l);
        push_line(out, text_line("  说明: ", f.detail.as_str()));
        push_line(out, text_line("  建议: ", f.suggestion.as_str()));
        assert(string_views(out@) =~= p1 + finding_lines(fs@.take(i + 1)));
        i = i + 1;
    }
    assert(fs@.take(i as int) =~= fs@);
}

fn push_hots(out: &mut Vec<String>, hs: &Vec<HotFrame>)
    ensures
        string_views(final(out)@) == string_views(old(out)@) + hot_lines(first_n(hs@, 30)),
{
    let ghost p3 = string_views(out@);
    let m: usize = if hs.len() <= 30 { hs.len() } else { 30 };
    assert(first_n(hs@, 30) =~= hs@.take(m as int));
    let mut i: usize = 0;
    while i < m
        invariant
            i <= m,
            m <= hs@.len(),
            m <= 30,
            string_views(out@) == p3 + hot_lines(hs@.take(i as int)),
        decreases m - i,
    {
        assert(hs@.take(i + 1).drop_last() =~= hs@.take(i as int));
        let h = &hs[i];
        let mut l: Vec<char> = Vec::new();
        two_digit_text(&mut l, (i + 1) as u64);
        push_str(&mut l, ". ");
        push_str(&mut l, h.method.as_str());
        push_str(&mut l, " | ");
        push_str(&mut l, h.category.as_str());
        push_str(&mut l, " | 命中 ");
        push_dec(&mut l, h.count as u64);
        push_str(&mut l, " | 权重 ");
        push_dec(&mut l, h.weight as u64);
        push_line(out, l);
        assert(string_views(out@) =~= p3 + hot_lines(hs@.take(i + 1)));
        i = i + 1;
    }
}

fn push_objects(out: &mut Vec<String>, objects: &Vec<(String, u64, String)>)
    ensures
        string_views(final(out)@) == string_views(old(out)@) + object_lines(first_n(objects@, 30)),
{
    let ghost p5 = string_views(out@);
    let m: usize = if objects.len() <= 30 { objects.len() } else { 30 };
    assert(first_n(objects@, 30) =~= objects@.take(m as int));
    let mut i: usize = 0;
    while i < m
        invariant
            i <= m,
            m <= objects@.len(),
            m <= 30,
            string_views(out@) == p5 + object_lines(objects@.take(i as int)),
        decreases m - i,
    {
        assert(objects@.take(i + 1).drop_last() =~= objects@.take(i as int));
        let o = &objects[i];
        let mut l: Vec<char> = Vec::new();
        two_digit_text(&mut l, (i + 1) as u64);
        push_str(&mut l, ". ");
        push_str(&mut l, o.0.as_str());
        push_str(&mut l, " | 实例 ");
        push_dec(&mut l, o.1);
        push_str(&mut l, " | ");
        push_str(&mut l, o.2.as_str());
        push_line(out, l);
        assert(string_views(out@) =~= p5 + object_lines(objects@.take(i + 1)));
        i = i + 1;
    }
}

pub open spec fn thread_entries(ts: Seq<crate::java_analyzer::ThreadInfo>) -> Seq<ThreadEntry> {
    ts.map_values(|t: crate::java_analyzer::ThreadInfo| thread_entry(t))
}

fn sorted_threads(ts: &Vec<crate::java_analyzer::ThreadInfo>) -> (r: Vec<(usize, Vec<char>, String)>)
    ensures
        evs(r@) == sort_entries(thread_entries(ts@)),
{
    let ghost tes = thread_entries(ts@);
    let mut sorted: Vec<(usize, Vec<char>, String)> = Vec::new();
    let mut i: usize = 0;
    assert(evs(sorted@) =~= sort_entries(tes.take(0)));
    while i < ts.len()
        invariant
            i <= ts@.len(),
            tes == thread_entries(ts@),
            evs(sorted@) == sort_entries(tes.take(i as int)),
        decreases ts.len() - i,
    {
        let t = &ts[i];
        let mut l = chars_of(t.state.as_str());
        push_str(&mut l, " | 栈深 ");
        push_dec(&mut l, t.frames.len() as u64);
        push_str(&mut l, " | ");
        push_str(&mut l, t.name.as_str());
        push_str(&mut l, " | ");
        push_str(&mut l, t.top_frame.as_str());
        let e = (t.frames.len(), chars_of(t.state.as_str()), string_of(l.as_slice()));
        assert(tes.take(i + 1).drop_last() =~= tes.take(i as int));
        assert(tes.take(i + 1).last() == thread_entry(ts@[i as int]));
        insert_entry_exec(&mut sorted, e);
        i = i + 1;
    }
    assert(tes.take(i as int) =~= tes);
    sorted
}

fn push_threads(out: &mut Vec<String>, ts: &Vec<crate::java_analyzer::ThreadInfo>)
    ensures
        string_views(final(out)@) == string_views(old(out)@) + entry_lines(first_n(sort_entries(thread_entries(ts@)), 40)),
{
    let ghost p7 = string_views(out@);
    let sorted = sorted_threads(ts);
    let m: usize = if sorted.len() <= 40 { sorted.len() } else { 40 };
    assert(first_n(evs(sorted@), 40) =~= evs(sorted@).take(m as int));
    let mut i: usize = 0;
    while i < m
        invariant
            i <= m,
            m <= sorted@.len(),
            string_views(out@) == p7 + entry_lines(evs(sorted@).take(i as int)),
        decreases m - i,
    {
        let ghost before = string_views(out@);
        out.push(sorted[i].2.clone());
        assert(entry_lines(evs(sorted@).take(i + 1)) =~= entry_lines(evs(sorted@).take(i as int)).push(sorted@[i as int].2@));
        assert(string_views(out@) =~= before.push(sorted@[i as int].2@));
        i = i + 1;
    }
}

fn push_heap(out: &mut Vec<String>, heap: &String)
    ensures
        string_views(final(out)@) == string_views(old(out)@) + heap_lines(heap@),
{
    let ghost p9 = string_views(out@);
    let hc = chars_of(heap.as_str());
    let hl = lines(hc.as_slice());
    let m: usize = if hl.len() <= 18 { hl.len() } else { 18 };
    assert(first_n(views(hl@), 18) =~= views(hl@).take(m as int));
    let mut i: usize = 0;
    while i < m
        invariant
            i <= m,
            m <= hl@.len(),
            string_views(out@) == p9 + views(hl@).take(i as int).map_values(|l: Seq<char>| "  "@ + l),
        decreases m - i,
    {
        let mut l = chars_of("  ");
        let mut rest = hl[i].clone();
        l.append(&mut rest);
        push_line(out, l);
        assert(views(hl@).take(i + 1).map_values(|l: Seq<char>| "  "@ + l) =~= views(hl@).take(i as int).map_values(
            |l: Seq<char>| "  "@ + l,
        ).push("  "@ + hl@[i as int]@));
        i = i + 1;
    }
    assert(heap_lines(heap@) =~= views(hl@).take(m as int).map_values(|l: Seq<char>| "  "@ + l));
}

fn push_logs(out: &mut Vec<String>, logs: &Vec<JavaAnalysisLog>)
    ensures
        string_views(final(out)@) == string_views(old(out)@) + log_lines(logs@),
{
    let ghost p11 = string_views(out@);
    let mut i: usize = 0;
    while i < logs.len()
        invariant
            i <= logs@.len(),
            string_views(out@) == p11 + log_lines(logs@.take(i as int)),
        decreases logs.len() - i,
    {
        let g = &logs[i];
        let mut l = chars_of(g.timestamp.as_str());
        push_str(&mut l, " [");
        push_str(&mut l, g.level.as_str());
        push_str(&mut l, "] ");
        push_str(&mut l, g.message.as_str());
        push_str(&mut l, " ");
        push_dec(&mut l, g.percent as u64);
        push_str(&mut l, "%");
        push_line(out, l);
        assert(log_lines(logs@.take(i + 1)) =~= log_lines(logs@.take(i as int)).push(
            g.timestamp@ + " ["@ + g.level@ + "] "@ + g.message@ + " "@ + dec_spec(g.percent as nat) + "%"@,
        ));
        i = i + 1;
    }
    assert(logs@.take(i as int) =~= logs@);
}

fn push_title(out: &mut Vec<String>, title: &str)
    ensures
        string_views(final(out)@) == string_views(old(out)@) + seq![Seq::<char>::empty(), title@],
{
    let ghost before = string_views(out@);
    push_line(out, Vec::new());
    push_line(out, chars_of(title));
    assert(string_views(out@) =~= before + seq![Seq::<char>::empty(), title@]);
}

/// The lines of the PDF report of an analysis exported at `exported_at`.
pub fn pdf_report_lines(
    a: &JavaAnalysis,
    exported_at: &str,
    memory: &str,
    objects: &Vec<(String, u64, String)>,
) -> (r: Vec<String>)
    ensures
        string_views(r@) == pdf_lines_spec(*a, exported_at@, memory@, objects@),
{
    let mut out: Vec<String> = Vec::new();
    push_head(&mut out, a, exported_at, memory);
    push_title(&mut out, "异常综合分析");
    push_findings(&mut out, &a.findings);
    push_title(&mut out, "CPU 热点 Top 30");
    push_hots(&mut out, &a.hot_frames);
    push_title(&mut out, "对象占用 Top 30");
    push_objects(&mut out, objects);
    push_title(&mut out, "线程摘要 Top 40");
    push_threads(&mut out, &a.threads);
    push_title(&mut out, "堆概要摘录");
    push_heap(&mut out, &a.heap_info);
    push_title(&mut out, "运行日志");
    push_logs(&mut out, &a.runtime_logs);
    assert(string_views(out@) =~= pdf_lines_spec(*a, exported_at@, memory@, objects@));
    out
}

} // verus!
