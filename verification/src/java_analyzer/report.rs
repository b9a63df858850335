//! The Markdown report of a Java analysis: the process, the findings, the CPU hot
//! spots, the largest objects and the threads.
use vstd::prelude::*;
use crate::java_analyzer::{HotFrame, JavaAnalysis, JavaFinding, ThreadInfo};
use crate::text::{dec_spec, push_dec, push_str, string_of};

verus! {

/// The first `n` entries of `s` (all of them where there are fewer).
pub open spec fn first_n<A>(s: Seq<A>, n: nat) -> Seq<A> {
    if s.len() <= n {
        s
    } else {
        s.take(n as int)
    }
}

pub open spec fn finding_md(f: JavaFinding) -> Seq<char> {
    "- ["@ + f.level@ + "] "@ + f.title@ + "\n  - 说明: "@ + f.detail@ + "\n  - 建议: "@ + f.suggestion@ + "\n"@
}

pub open spec fn findings_md(fs: Seq<JavaFinding>) -> Seq<char>
    decreases fs.len(),
{
    if fs.len() == 0 {
        Seq::empty()
    } else {
        findings_md(fs.drop_last()) + finding_md(fs.last())
    }
}

pub open spec fn hot_md(h: HotFrame) -> Seq<char> {
    "- "@ + h.method@ + " / "@ + h.category@ + " / 命中 "@ + dec_spec(h.count as nat) + " / 权重 "@ + dec_spec(
        h.weight as nat,
    ) + "\n"@
}

pub open spec fn hots_md(hs: Seq<HotFrame>) -> Seq<char>
    decreases hs.len(),
{
    if hs.len() == 0 {
        Seq::empty()
    } else {
        hots_md(hs.drop_last()) + hot_md(hs.last())
    }
}

/// An object line: class name, instances and the size as shown.
pub open spec fn object_md(o: (String, u64, String)) -> Seq<char> {
    "- "@ + o.0@ + " / "@ + dec_spec(o.1 as nat) + " / "@ + o.2@ + "\n"@
}

pub open spec fn objects_md(os: Seq<(String, u64, String)>) -> Seq<char>
    decreases os.len(),
{
    if os.len() == 0 {
        Seq::empty()
    } else {
        objects_md(os.drop_last()) + object_md(os.last())
    }
}

pub open spec fn thread_md(t: ThreadInfo) -> Seq<char> {
    "- "@ + t.state@ + " / 栈深 "@ + dec_spec(t.frames@.len()) + " / "@ + t.name@ + " / "@ + t.top_frame@ + "\n"@
}

pub open spec fn threads_md(ts: Seq<ThreadInfo>) -> Seq<char>
    decreases ts.len(),
{
    if ts.len() == 0 {
        Seq::empty()
    } else {
        threads_md(ts.drop_last()) + thread_md(ts.last())
    }
}

pub open spec fn report_head(a: JavaAnalysis, exported_at: Seq<char>) -> Seq<char> {
    "# DM Java 运行时分析报告\n\n- 导出时间: "@ + exported_at + "\n- PID: "@ + dec_spec(a.process.pid as nat)
        + "\n- 服务名: "@ + a.process.service_name@ + "\n- 命令: "@ + a.process.cmd@ + "\n- Attach: "@ + (if a.attach_ok {
        "正常"@
    } else {
        "失败"@
    }) + "\n- 线程: "@ + dec_spec(a.threads@.len()) + "\n- 热点方法: "@ + dec_spec(a.hot_frames@.len()) + "\n\n"@
        + "## 异常综合分析\n\n"@
}

/// The report: the head, every finding, the first 30 hot spots, the first 30
/// objects (each with its size as the caller shows it) and the first 40 threads.
pub open spec fn report_spec(a: JavaAnalysis, exported_at: Seq<char>, objects: Seq<(String, u64, String)>) -> Seq<char> {
    report_head(a, exported_at) + findings_md(a.findings@) + "\n## CPU 热点\n\n"@ + hots_md(first_n(a.hot_frames@, 30))
        + "\n## 对象占用\n\n"@ + objects_md(first_n(objects, 30)) + "\n## 线程摘要\n\n"@ + threads_md(
        first_n(a.threads@, 40),
    )
}

fn push_findings(out: &mut Vec<char>, fs: &Vec<JavaFinding>)
    ensures
        final(out)@ == old(out)@ + findings_md(fs@),
{
    let ghost start = out@;
    let mut i: usize = 0;
    while i < fs.len()
        invariant
            i <= fs@.len(),
            out@ == start + findings_md(fs@.take(i as int)),
        decreases fs.len() - i,
    {
        assert(fs@.take(i + 1).drop_last() =~= fs@.take(i as int));
        let f = &fs[i];
        push_str(out, "- [");
        push_str(out, f.level.as_str());
        push_str(out, "] ");
        push_str(out, f.title.as_str());
        push_str(out, "\n  - 说明: ");
        push_str(out, f.detail.as_str());
        push_str(out, "\n  - 建议: ");
        push_str(out, f.suggestion.as_str());
        push_str(out, "\n");
        assert(out@ =~= start + findings_md(fs@.take(i as int)) + finding_md(fs@[i as int]));
        i = i + 1;
    }
    assert(fs@.take(i as int) =~= fs@);
}

fn push_hots(out: &mut Vec<char>, hs: &Vec<HotFrame>, n: usize)
    ensures
        final(out)@ == old(out)@ + hots_md(first_n(hs@, n as nat)),
{
    let ghost start = out@;
    let m: usize = if hs.len() <= n { hs.len() } else { n };
    let ghost want = first_n(hs@, n as nat);
    assert(want =~= hs@.take(m as int));
    let mut i: usize = 0;
    while i < m
        invariant
            i <= m,
            m <= hs@.len(),
            out@ == start + hots_md(hs@.take(i as int)),
        decreases m - i,
    {
        assert(hs@.take(i + 1).drop_last() =~= hs@.take(i as int));
        let h = &hs[i];
        push_str(out, "- ");
        push_str(out, h.method.as_str());
        push_str(out, " / ");
        push_str(out, h.category.as_str());
        push_str(out, " / 命中 ");
        push_dec(out, h.count as u64);
        push_str(out, " / 权重 ");
        push_dec(out, h.weight as u64);
        push_str(out, "\n");
        assert(out@ =~= start + hots_md(hs@.take(i as int)) + hot_md(hs@[i as int]));
        i = i + 1;
    }
}

fn push_objects(out: &mut Vec<char>, os: &Vec<(String, u64, String)>, n: usize)
    ensures
        final(out)@ == old(out)@ + objects_md(first_n(os@, n as nat)),
{
    let ghost start = out@;
    let m: usize = if os.len() <= n { os.len() } else { n };
    let ghost want = first_n(os@, n as nat);
    assert(want =~= os@.take(m as int));
    let mut i: usize = 0;
    while i < m
        invariant
            i <= m,
            m <= os@.len(),
            out@ == start + objects_md(os@.take(i as int)),
        decreases m - i,
    {
        assert(os@.take(i + 1).drop_last() =~= os@.take(i as int));
        let o = &os[i];
        push_str(out, "- ");
        push_str(out, o.0.as_str());
        push_str(out, " / ");
        push_dec(out, o.1);
        push_str(out, " / ");
        push_str(out, o.2.as_str());
        push_str(out, "\n");
        assert(out@ =~= start + objects_md(os@.take(i as int)) + object_md(os@[i as int]));
        i = i + 1;
    }
}

fn push_threads(out: &mut Vec<char>, ts: &Vec<ThreadInfo>, n: usize)
    ensures
        final(out)@ == old(out)@ + threads_md(first_n(ts@, n as nat)),
{
    let ghost start = out@;
    let m: usize = if ts.len() <= n { ts.len() } else { n };
    let ghost want = first_n(ts@, n as nat);
    assert(want =~= ts@.take(m as int));
    let mut i: usize = 0;
    while i < m
        invariant
            i <= m,
            m <= ts@.len(),
            out@ == start + threads_md(ts@.take(i as int)),
        decreases m - i,
    {
        assert(ts@.take(i + 1).drop_last() =~= ts@.take(i as int));
        let t = &ts[i];
        push_str(out, "- ");
        push_str(out, t.state.as_str());
        push_str(out, " / 栈深 ");
        push_dec(out, t.frames.len() as u64);
        push_str(out, " / ");
        push_str(out, t.name.as_str());
        push_str(out, " / ");
        push_str(out, t.top_frame.as_str());
        push_str(out, "\n");
        assert(out@ =~= start + threads_md(ts@.take(i as int)) + thread_md(ts@[i as int]));
        i = i + 1;
    }
}

/// The Markdown report of an analysis exported at `exported_at`; `objects` are the
/// class-histogram rows with the size of each as it is shown.
pub fn report_text(a: &JavaAnalysis, exported_at: &str, objects: &Vec<(String, u64, String)>) -> (r: String)
    ensures
        r@ == report_spec(*a, exported_at@, objects@),
{
    let mut out: Vec<char> = Vec::new();
    push_str(&mut out, "# DM Java 运行时分析报告\n\n- 导出时间: ");
    push_str(&mut out, exported_at);
    push_str(&mut out, "\n- PID: ");
    push_dec(&mut out, a.process.pid as u64);
    push_str(&mut out, "\n- 服务名: ");
    push_str(&mut out, a.process.service_name.as_str());
    push_str(&mut out, "\n- 命令: ");
    push_str(&mut out, a.process.cmd.as_str());
    push_str(&mut out, "\n- Attach: ");
    push_str(&mut out, if a.attach_ok { "正常" } else { "失败" });
    push_str(&mut out, "\n- 线程: ");
    push_dec(&mut out, a.threads.len() as u64);
    push_str(&mut out, "\n- 热点方法: ");
    push_dec(&mut out, a.hot_frames.len() as u64);
    push_str(&mut out, "\n\n");
    push_str(&mut out, "## 异常综合分析\n\n");
    assert(out@ =~= report_head(*a, exported_at@));
    push_findings(&mut out, &a.findings);
    push_str(&mut out, "\n## CPU 热点\n\n");
    push_hots(&mut out, &a.hot_frames, 30);
    push_str(&mut out, "\n## 对象占用\n\n");
    push_objects(&mut out, objects, 30);
    push_str(&mut out, "\n## 线程摘要\n\n");
    push_threads(&mut out, &a.threads, 40);
    assert(out@ =~= report_spec(*a, exported_at@, objects@));
    string_of(out.as_slice())
}

} // verus!
