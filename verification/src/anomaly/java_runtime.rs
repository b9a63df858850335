//! The Java runtime rules that read whole numbers and text: the thread count of a
//! service and whether its options bound the heap.
use vstd::prelude::*;
use crate::anomaly::{AnomalyFinding, AnomalyView, anomaly_views, java_runtime_metric_finding, joined};
use crate::anomaly::rules::{av, finding, one_if, push_finding, rows_views};
use crate::checks::java_service::{java_has_heap_limit, java_has_heap_limit_spec};
use crate::text::{chars_of, dec, dec_spec, parse_u64, parse_unsigned_spec, push_str, string_of, string_views};

verus! {

/// The thread count of a runtime row: its text read as a whole number, 0 where it
/// is not one.
pub open spec fn thread_count(text: Seq<char>) -> nat {
    match parse_unsigned_spec(text, 10, u64::MAX as nat) {
        Some(n) => n,
        None => 0,
    }
}

/// A runtime finding of one metric, as the Java runtime rules give it.
pub open spec fn metric_view(
    pid: Seq<char>,
    name: Seq<char>,
    suffix: Seq<char>,
    level: Seq<char>,
    title: Seq<char>,
    summary: Seq<char>,
    commands: Seq<Seq<char>>,
) -> AnomalyView {
    av(
        "java.runtime."@ + suffix + "."@ + pid,
        level,
        "Java服务"@,
        "Java 服务 "@ + name + " "@ + title,
        "pid:"@ + pid,
        summary,
        seq!["PID: "@ + pid, "进程: "@ + name, "指标: "@ + summary],
        "结合线程栈、GC、堆对象和最近发布/流量变化定位根因，避免直接重启掩盖现场。"@,
        commands,
    )
}

/// 800 threads or more is an error, 400 or more a warning.
pub open spec fn thread_findings_spec(pid: Seq<char>, name: Seq<char>, n: nat) -> Seq<AnomalyView> {
    if n >= 800 {
        seq![
            metric_view(
                pid,
                name,
                "threads_critical"@,
                "error"@,
                "线程数异常偏高"@,
                "线程数 "@ + dec_spec(n) + " 已超过 800"@,
                seq![
                    "jcmd "@ + pid + " Thread.print | head -260"@,
                    "ps -eLf | awk '$2=="@ + pid + "{print}' | wc -l"@,
                ],
            ),
        ]
    } else if n >= 400 {
        seq![
            metric_view(
                pid,
                name,
                "threads_high"@,
                "warn"@,
                "线程数偏高"@,
                "线程数 "@ + dec_spec(n) + " 已超过 400"@,
                seq!["jcmd "@ + pid + " Thread.print | head -220"@, "ss -antp | grep "@ + pid],
            ),
        ]
    } else {
        Seq::empty()
    }
}

fn text3(a: &str, b: &str, c: &str) -> (r: String)
    ensures
        r@ == a@ + b@ + c@,
{
    proof {
        reveal_strlit("");
    }
    let r = joined(a, b, c, "");
    assert(a@ + b@ + c@ + ""@ =~= a@ + b@ + c@);
    r
}

fn count_text(prefix: &str, n: u64, suffix: &str) -> (r: String)
    ensures
        r@ == prefix@ + dec_spec(n as nat) + suffix@,
{
    let mut out = chars_of(prefix);
    let mut d = dec(n);
    out.append(&mut d);
    push_str(&mut out, suffix);
    string_of(out.as_slice())
}

fn metric(
    pid: &str,
    name: &str,
    suffix: &str,
    level: &str,
    title: &str,
    summary: String,
    commands: Vec<String>,
) -> (f: AnomalyFinding)
    ensures
        f@ == metric_view(pid@, name@, suffix@, level@, title@, summary@, string_views(commands@)),
{
    let ghost cv = string_views(commands@);
    let f = java_runtime_metric_finding(pid, name, suffix, level, title, summary, commands);
    assert(f@.evidence =~= metric_view(pid@, name@, suffix@, level@, title@, f.summary@, cv).evidence);
    assert(f@.commands =~= cv);
    f
}

/// The thread-count findings of a Java service, from the thread-count text of its
/// runtime row.
pub fn java_thread_findings(pid: &str, name: &str, threads: &str) -> (r: Vec<AnomalyFinding>)
    ensures
        anomaly_views(r@) == thread_findings_spec(pid@, name@, thread_count(threads@)),
{
    let tc = chars_of(threads);
    let n: u64 = match parse_u64(tc.as_slice()) {
        Some(v) => v,
        None => 0,
    };
    let mut out: Vec<AnomalyFinding> = Vec::new();
    if n >= 800 {
        let cmds = vec![text3("jcmd ", pid, " Thread.print | head -260"), text3("ps -eLf | awk '$2==", pid, "{print}' | wc -l")];
        assert(string_views(cmds@) =~= seq![
            "jcmd "@ + pid@ + " Thread.print | head -260"@,
            "ps -eLf | awk '$2=="@ + pid@ + "{print}' | wc -l"@,
        ]);
        let f = metric(pid, name, "threads_critical", "error", "线程数异常偏高", count_text("线程数 ", n, " 已超过 800"), cmds);
        out.push(f);
    } else if n >= 400 {
        let cmds = vec![text3("jcmd ", pid, " Thread.print | head -220"), text3("ss -antp | grep ", pid, "")];
        proof {
            reveal_strlit("");
        }
        assert(string_views(cmds@) =~= seq!["jcmd "@ + pid@ + " Thread.print | head -220"@, "ss -antp | grep "@ + pid@]);
        let f = metric(pid, name, "threads_high", "warn", "线程数偏高", count_text("线程数 ", n, " 已超过 400"), cmds);
        out.push(f);
    }
    assert(anomaly_views(out@) =~= thread_findings_spec(pid@, name@, thread_count(threads@)));
    out
}

/// A Java service whose options bound no heap is a warning; `memory` is its memory
/// in MB as the runtime row shows it.
pub open spec fn heap_findings_spec(pid: Seq<char>, name: Seq<char>, memory: Seq<char>, flags: Seq<char>) -> Seq<AnomalyView> {
    if java_has_heap_limit_spec(flags) {
        Seq::empty()
    } else {
        seq![
            av(
                "java.runtime.heap_unbounded."@ + pid,
                "warn"@,
                "Java服务"@,
                "Java 服务 "@ + name + " 未识别到堆上限"@,
                "pid:"@ + pid,
                "启动参数未发现 -Xmx、MaxRAMPercentage 或 MaxHeapSize"@,
                seq!["PID: "@ + pid, "进程: "@ + name, "内存: "@ + memory + "MB"@, "参数: "@ + flags],
                "为 Java 服务显式配置堆上限，并结合容器/主机内存预留 metaspace、直接内存、线程栈和 page cache。"@,
                seq![
                    "jcmd "@ + pid + " VM.flags"@,
                    "jcmd "@ + pid + " GC.heap_info"@,
                    "grep -R \"Xmx\\|MaxRAMPercentage\\|MaxHeapSize\" /etc/systemd /opt 2>/dev/null | head -80"@,
                ],
            ),
        ]
    }
}

pub fn java_heap_findings(pid: &str, name: &str, memory: &str, flags: &str) -> (r: Vec<AnomalyFinding>)
    ensures
        anomaly_views(r@) == heap_findings_spec(pid@, name@, memory@, flags@),
{
    let mut out: Vec<AnomalyFinding> = Vec::new();
    if !java_has_heap_limit(flags) {
        proof {
            reveal_strlit("");
        }
        let evidence = vec![
            text3("PID: ", pid, ""),
            text3("进程: ", name, ""),
            text3("内存: ", memory, "MB"),
            text3("参数: ", flags, ""),
        ];
        let commands = vec![
            text3("jcmd ", pid, " VM.flags"),
            text3("jcmd ", pid, " GC.heap_info"),
            "grep -R \"Xmx\\|MaxRAMPercentage\\|MaxHeapSize\" /etc/systemd /opt 2>/dev/null | head -80".to_owned(),
        ];
        let f = finding(
            text3("java.runtime.heap_unbounded.", pid, ""),
            "warn",
            "Java服务",
            text3("Java 服务 ", name, " 未识别到堆上限"),
            text3("pid:", pid, ""),
            "启动参数未发现 -Xmx、MaxRAMPercentage 或 MaxHeapSize".to_owned(),
            evidence,
            "为 Java 服务显式配置堆上限，并结合容器/主机内存预留 metaspace、直接内存、线程栈和 page cache。",
            commands,
        );
        let ghost want = heap_findings_spec(pid@, name@, memory@, flags@)[0];
        assert(f@.evidence =~= want.evidence);
        assert(f@.commands =~= want.commands);
        assert(f@.rule_id =~= want.rule_id);
        assert(f@.target =~= want.target);
        out.push(f);
    }
    assert(anomaly_views(out@) =~= heap_findings_spec(pid@, name@, memory@, flags@));
    out
}

// ---------------------------------------------------------------------------
// A whole runtime row
// ---------------------------------------------------------------------------

/// What the rules read of the CPU and memory columns of a runtime row, which hold
/// decimal fractions: each number (0 where the text is none) written with one
/// decimal (`cpu_1` in percent, `memory_1` in MB), and whether it reaches the
/// thresholds of the rules: CPU 70, 85 and 90 percent, memory 4096 and 8192 MB.
pub struct RowFloats {
    pub cpu_1: String,
    pub memory_1: String,
    pub cpu_at_70: bool,
    pub cpu_at_85: bool,
    pub cpu_at_90: bool,
    pub memory_at_4096: bool,
    pub memory_at_8192: bool,
}

/// The finding of a Java service under pressure: CPU, memory or threads high.
pub open spec fn pressure_view(
    pid: Seq<char>,
    name: Seq<char>,
    cpu: Seq<char>,
    memory: Seq<char>,
    threads: nat,
    flags: Seq<char>,
) -> AnomalyView {
    av(
        "java.runtime."@ + pid,
        "warn"@,
        "Java服务"@,
        "Java 服务 "@ + name + " 运行时压力偏高"@,
        "pid:"@ + pid,
        "CPU "@ + cpu + "%，内存 "@ + memory + "MB，线程 "@ + dec_spec(threads),
        seq![
            "PID: "@ + pid,
            "进程: "@ + name,
            "CPU: "@ + cpu + "%"@,
            "内存: "@ + memory + "MB"@,
            "线程数: "@ + dec_spec(threads),
            "参数: "@ + flags,
        ],
        "抓取线程栈和 GC/堆信息，结合业务日志判断高 CPU、线程堆积或内存增长来源。"@,
        seq!["jcmd "@ + pid + " Thread.print | head -200"@, "jcmd "@ + pid + " GC.heap_info"@, "top -Hp "@ + pid],
    )
}

/// CPU at 90 percent or more is an error, at 70 or more a warning.
pub open spec fn cpu_findings_spec(pid: Seq<char>, name: Seq<char>, f: RowFloats) -> Seq<AnomalyView> {
    if f.cpu_at_90 {
        seq![
            metric_view(
                pid,
                name,
                "cpu_high"@,
                "error"@,
                "CPU 持续高位"@,
                "CPU "@ + f.cpu_1@ + "% 已超过 90%"@,
                seq![
                    "top -Hp "@ + pid,
                    "jcmd "@ + pid + " Thread.print | head -240"@,
                    "pidstat -t -p "@ + pid + " 1 5"@,
                ],
            ),
        ]
    } else if f.cpu_at_70 {
        seq![
            metric_view(
                pid,
                name,
                "cpu_busy"@,
                "warn"@,
                "CPU 使用率偏高"@,
                "CPU "@ + f.cpu_1@ + "% 已超过 70%"@,
                seq!["top -Hp "@ + pid, "jcmd "@ + pid + " Thread.print | head -200"@],
            ),
        ]
    } else {
        Seq::empty()
    }
}

/// Memory at 8192 MB or more is an error, at 4096 or more a warning.
pub open spec fn rss_findings_spec(pid: Seq<char>, name: Seq<char>, f: RowFloats) -> Seq<AnomalyView> {
    if f.memory_at_8192 {
        seq![
            metric_view(
                pid,
                name,
                "rss_critical"@,
                "error"@,
                "RSS 内存异常偏高"@,
                "RSS 内存 "@ + f.memory_1@ + "MB 已超过 8192MB"@,
                seq![
                    "jcmd "@ + pid + " GC.heap_info"@,
                    "jcmd "@ + pid + " VM.native_memory summary"@,
                    "jmap -histo:live "@ + pid + " | head -80"@,
                ],
            ),
        ]
    } else if f.memory_at_4096 {
        seq![
            metric_view(
                pid,
                name,
                "rss_high"@,
                "warn"@,
                "RSS 内存偏高"@,
                "RSS 内存 "@ + f.memory_1@ + "MB 已超过 4096MB"@,
                seq!["jcmd "@ + pid + " GC.heap_info"@, "jmap -histo:live "@ + pid + " | head -60"@],
            ),
        ]
    } else {
        Seq::empty()
    }
}

/// The findings of one runtime row (PID, name, CPU, memory, threads, status,
/// options; shorter rows give none): pressure, CPU, memory, threads and heap bound,
/// in that order.
pub open spec fn runtime_row_findings(row: Seq<Seq<char>>, f: RowFloats) -> Seq<AnomalyView> {
    if row.len() < 7 {
        Seq::empty()
    } else {
        let n = thread_count(row[4]);
        one_if(f.cpu_at_85 || f.memory_at_4096 || n >= 800, pressure_view(row[0], row[1], f.cpu_1@, f.memory_1@, n, row[6]))
            + cpu_findings_spec(row[0], row[1], f) + rss_findings_spec(row[0], row[1], f) + thread_findings_spec(
            row[0],
            row[1],
            n,
        ) + heap_findings_spec(row[0], row[1], f.memory_1@, row[6])
    }
}

/// The findings of the runtime rows, row `k` read with `fs[k]`.
pub open spec fn runtime_rows_findings(rows: Seq<Seq<Seq<char>>>, fs: Seq<RowFloats>) -> Seq<AnomalyView>
    decreases rows.len(),
{
    if rows.len() == 0 {
        Seq::empty()
    } else {
        runtime_rows_findings(rows.drop_last(), fs) + runtime_row_findings(rows.last(), fs[rows.len() - 1])
    }
}

fn pressure_finding(pid: &str, name: &str, cpu: &str, memory: &str, threads: u64, flags: &str) -> (r: AnomalyFinding)
    ensures
        r@ == pressure_view(pid@, name@, cpu@, memory@, threads as nat, flags@),
{
    proof {
        reveal_strlit("");
    }
    let mut summary = chars_of("CPU ");
    push_str(&mut summary, cpu);
    push_str(&mut summary, "%，内存 ");
    push_str(&mut summary, memory);
    push_str(&mut summary, "MB，线程 ");
    let mut d = dec(threads);
    summary.append(&mut d);
    let evidence = vec![
        text3("PID: ", pid, ""),
        text3("进程: ", name, ""),
        text3("CPU: ", cpu, "%"),
        text3("内存: ", memory, "MB"),
        count_text("线程数: ", threads, ""),
        text3("参数: ", flags, ""),
    ];
    let commands = vec![
        text3("jcmd ", pid, " Thread.print | head -200"),
        text3("jcmd ", pid, " GC.heap_info"),
        text3("top -Hp ", pid, ""),
    ];
    let f = finding(
        text3("java.runtime.", pid, ""),
        "warn",
        "Java服务",
        text3("Java 服务 ", name, " 运行时压力偏高"),
        text3("pid:", pid, ""),
        string_of(summary.as_slice()),
        evidence,
        "抓取线程栈和 GC/堆信息，结合业务日志判断高 CPU、线程堆积或内存增长来源。",
        commands,
    );
    let ghost want = pressure_view(pid@, name@, cpu@, memory@, threads as nat, flags@);
    assert(f@.evidence =~= want.evidence);
    assert(f@.commands =~= want.commands);
    assert(f@.rule_id =~= want.rule_id);
    assert(f@.target =~= want.target);
    assert(f@.summary =~= want.summary);
    f
}

fn cpu_findings(out: &mut Vec<AnomalyFinding>, pid: &str, name: &str, f: &RowFloats)
    ensures
        anomaly_views(final(out)@) == anomaly_views(old(out)@) + cpu_findings_spec(pid@, name@, *f),
{
    let ghost before = anomaly_views(out@);
    proof {
        reveal_strlit("");
    }
    if f.cpu_at_90 {
        let cmds = vec![
            text3("top -Hp ", pid, ""),
            text3("jcmd ", pid, " Thread.print | head -240"),
            text3("pidstat -t -p ", pid, " 1 5"),
        ];
        let ghost cv = seq![
            "top -Hp "@ + pid@,
            "jcmd "@ + pid@ + " Thread.print | head -240"@,
            "pidstat -t -p "@ + pid@ + " 1 5"@,
        ];
        assert(string_views(cmds@) =~= cv);
        let g = metric(pid, name, "cpu_high", "error", "CPU 持续高位", text3("CPU ", f.cpu_1.as_str(), "% 已超过 90%"), cmds);
        push_finding(out, g);
    } else if f.cpu_at_70 {
        let cmds = vec![text3("top -Hp ", pid, ""), text3("jcmd ", pid, " Thread.print | head -200")];
        let ghost cv = seq!["top -Hp "@ + pid@, "jcmd "@ + pid@ + " Thread.print | head -200"@];
        assert(string_views(cmds@) =~= cv);
        let g = metric(pid, name, "cpu_busy", "warn", "CPU 使用率偏高", text3("CPU ", f.cpu_1.as_str(), "% 已超过 70%"), cmds);
        push_finding(out, g);
    }
    assert(anomaly_views(out@) =~= before + cpu_findings_spec(pid@, name@, *f));
}

fn rss_findings(out: &mut Vec<AnomalyFinding>, pid: &str, name: &str, f: &RowFloats)
    ensures
        anomaly_views(final(out)@) == anomaly_views(old(out)@) + rss_findings_spec(pid@, name@, *f),
{
    let ghost before = anomaly_views(out@);
    if f.memory_at_8192 {
        let cmds = vec![
            text3("jcmd ", pid, " GC.heap_info"),
            text3("jcmd ", pid, " VM.native_memory summary"),
            text3("jmap -histo:live ", pid, " | head -80"),
        ];
        let ghost cv = seq![
            "jcmd "@ + pid@ + " GC.heap_info"@,
            "jcmd "@ + pid@ + " VM.native_memory summary"@,
            "jmap -histo:live "@ + pid@ + " | head -80"@,
        ];
        assert(string_views(cmds@) =~= cv);
        let g = metric(
            pid,
            name,
            "rss_critical",
            "error",
            "RSS 内存异常偏高",
            text3("RSS 内存 ", f.memory_1.as_str(), "MB 已超过 8192MB"),
            cmds,
        );
        push_finding(out, g);
    } else if f.memory_at_4096 {
        let cmds = vec![text3("jcmd ", pid, " GC.heap_info"), text3("jmap -histo:live ", pid, " | head -60")];
        let ghost cv = seq!["jcmd "@ + pid@ + " GC.heap_info"@, "jmap -histo:live "@ + pid@ + " | head -60"@];
        assert(string_views(cmds@) =~= cv);
        let g = metric(
            pid,
            name,
            "rss_high",
            "warn",
            "RSS 内存偏高",
            text3("RSS 内存 ", f.memory_1.as_str(), "MB 已超过 4096MB"),
            cmds,
        );
        push_finding(out, g);
    }
    assert(anomaly_views(out@) =~= before + rss_findings_spec(pid@, name@, *f));
}

fn append_findings(out: &mut Vec<AnomalyFinding>, more: Vec<AnomalyFinding>)
    ensures
        anomaly_views(final(out)@) == anomaly_views(old(out)@) + anomaly_views(more@),
{
    let ghost before = anomaly_views(out@);
    let ghost mv = anomaly_views(more@);
    let mut more = more;
    out.append(&mut more);
    assert(anomaly_views(out@) =~= before + mv);
}

/// The findings of one runtime row, its CPU and memory read as `f` gives them.
pub fn java_runtime_row_findings(row: &Vec<String>, f: &RowFloats) -> (r: Vec<AnomalyFinding>)
    ensures
        anomaly_views(r@) == runtime_row_findings(string_views(row@), *f),
{
    let ghost rv = string_views(row@);
    let mut out: Vec<AnomalyFinding> = Vec::new();
    if row.len() < 7 {
        assert(anomaly_views(out@) =~= Seq::<AnomalyView>::empty());
        return out;
    }
    proof {
        assert forall|i: int| 0 <= i < 7 implies rv[i] == row@[i]@ by {}
    }
    let pid = row[0].as_str();
    let name = row[1].as_str();
    let flags = row[6].as_str();
    let tc = chars_of(row[4].as_str());
    let n: u64 = match parse_u64(tc.as_slice()) {
        Some(v) => v,
        None => 0,
    };
    assert(n as nat == thread_count(rv[4]));
    if f.cpu_at_85 || f.memory_at_4096 || n >= 800 {
        let g = pressure_finding(pid, name, f.cpu_1.as_str(), f.memory_1.as_str(), n, flags);
        push_finding(&mut out, g);
    }
    assert(anomaly_views(out@) =~= one_if(
        f.cpu_at_85 || f.memory_at_4096 || n >= 800,
        pressure_view(rv[0], rv[1], f.cpu_1@, f.memory_1@, n as nat, rv[6]),
    ));
    cpu_findings(&mut out, pid, name, f);
    rss_findings(&mut out, pid, name, f);
    append_findings(&mut out, java_thread_findings(pid, name, row[4].as_str()));
    append_findings(&mut out, java_heap_findings(pid, name, f.memory_1.as_str(), flags));
    out
}

/// The findings of the rows of a Java service check's runtime table, row `k` read
/// with `floats[k]`.
pub fn java_runtime_findings(rows: &Vec<Vec<String>>, floats: &Vec<RowFloats>) -> (r: Vec<AnomalyFinding>)
    requires
        rows@.len() <= floats@.len(),
    ensures
        anomaly_views(r@) == runtime_rows_findings(rows_views(rows@), floats@),
{
    let ghost rv = rows_views(rows@);
    let mut out: Vec<AnomalyFinding> = Vec::new();
    let mut i: usize = 0;
    assert(anomaly_views(out@) =~= Seq::<AnomalyView>::empty());
    while i < rows.len()
        invariant
            i <= rows@.len(),
            rows@.len() <= floats@.len(),
            rv == rows_views(rows@),
            anomaly_views(out@) == runtime_rows_findings(rv.take(i as int), floats@),
        decreases rows.len() - i,
    {
        assert(rv.take(i + 1).drop_last() =~= rv.take(i as int));
        assert(rv.take(i + 1).last() == string_views(rows@[i as int]@));
        append_findings(&mut out, java_runtime_row_findings(&rows[i], &floats[i]));
        i = i + 1;
    }
    assert(rv.take(i as int) =~= rv);
    out
}

} // verus!
