//! The rules of the Java service check: services that were not found, servers that
//! listen on no port, and the failure keywords that its output mentions.
use vstd::prelude::*;
use crate::anomaly::{AnomalyFinding, AnomalyView, anomaly_views};
use crate::anomaly::rules::{av, cat2, cat3, col, finding, one_if, push_finding, rows_views, trimmed};
use crate::text::{chars_of, contains_spec, contains_str, eq_str, string_of, string_views, to_lowercase, unicode_lowercase};

verus! {

/// The texts of some string slices.
pub open spec fn str_views(v: Seq<&str>) -> Seq<Seq<char>> {
    v.map_values(|s: &str| s@)
}

/// One failure-keyword rule: identifier, level, title, keywords, summary, commands.
pub struct LogRule {
    pub rule_id: Seq<char>,
    pub level: Seq<char>,
    pub title: Seq<char>,
    pub keywords: Seq<Seq<char>>,
    pub summary: Seq<char>,
    pub commands: Seq<Seq<char>>,
}

/// The number of failure-keyword rules.
pub open spec fn log_rule_count() -> nat {
    7
}

/// The failure-keyword rules, in the order in which they are tried.
pub open spec fn log_rule(i: int) -> LogRule {
    if i == 0 {
        LogRule {
            rule_id: "java.log.oom"@,
            level: "error"@,
            title: "Java OOM / 堆内存异常"@,
            keywords: seq!["outofmemoryerror"@, "java heap space"@, "gc overhead limit exceeded"@],
            summary: "日志出现 OOM 或堆空间不足关键词"@,
            commands: seq![
                "grep -RniE 'OutOfMemoryError|Java heap space|GC overhead' <log_dir> | tail -80"@,
                "jcmd <pid> GC.heap_info"@,
                "jmap -histo:live <pid> | head -80"@,
            ],
        }
    } else if i == 1 {
        LogRule {
            rule_id: "java.log.metaspace"@,
            level: "error"@,
            title: "Java Metaspace 异常"@,
            keywords: seq!["metaspace"@, "compressed class space"@],
            summary: "日志出现 metaspace 或 class space 异常"@,
            commands: seq![
                "grep -RniE 'Metaspace|Compressed class space' <log_dir> | tail -80"@,
                "jcmd <pid> VM.native_memory summary"@,
            ],
        }
    } else if i == 2 {
        LogRule {
            rule_id: "java.log.native_thread"@,
            level: "error"@,
            title: "Java 原生线程创建失败"@,
            keywords: seq!["unable to create new native thread"@],
            summary: "日志出现 unable to create new native thread"@,
            commands: seq![
                "ulimit -a"@,
                "ps -eLf | awk '$2==<pid>{print}' | wc -l"@,
                "jcmd <pid> Thread.print | head -240"@,
            ],
        }
    } else if i == 3 {
        LogRule {
            rule_id: "java.log.full_gc"@,
            level: "warn"@,
            title: "Java Full GC 频繁"@,
            keywords: seq!["full gc"@, "allocation failure"@, "promotion failed"@],
            summary: "日志出现 Full GC 或对象晋升失败关键词"@,
            commands: seq![
                "grep -RniE 'Full GC|allocation failure|promotion failed' <log_dir> | tail -80"@,
                "jstat -gcutil <pid> 1000 10"@,
            ],
        }
    } else if i == 4 {
        LogRule {
            rule_id: "java.log.deadlock"@,
            level: "error"@,
            title: "Java 死锁风险"@,
            keywords: seq!["deadlock"@, "found one java-level deadlock"@],
            summary: "日志或线程栈出现 deadlock 关键词"@,
            commands: seq![
                "jcmd <pid> Thread.print | grep -i deadlock -C8"@,
                "grep -Rni deadlock <log_dir> | tail -80"@,
            ],
        }
    } else if i == 5 {
        LogRule {
            rule_id: "java.log.connection_timeout"@,
            level: "warn"@,
            title: "Java 外部依赖超时"@,
            keywords: seq!["read timed out"@, "connect timed out"@, "sockettimeoutexception"@],
            summary: "日志出现连接或读取超时关键词"@,
            commands: seq![
                "grep -RniE 'read timed out|connect timed out|SocketTimeoutException' <log_dir> | tail -80"@,
                "ss -antp | grep <pid> | head -80"@,
            ],
        }
    } else {
        LogRule {
            rule_id: "java.log.connection_refused"@,
            level: "error"@,
            title: "Java 外部依赖连接拒绝"@,
            keywords: seq!["connection refused"@, "connectexception"@, "econnrefused"@],
            summary: "日志出现连接拒绝关键词"@,
            commands: seq![
                "grep -RniE 'Connection refused|ConnectException|ECONNREFUSED' <log_dir> | tail -80"@,
                "ss -ltnp"@,
            ],
        }
    }
}

/// Whether the lowercased text `blob` holds one of the keywords of rule `i`.
pub open spec fn log_rule_hit(blob: Seq<char>, i: int) -> bool {
    exists|j: int| 0 <= j < log_rule(i).keywords.len() && contains_spec(blob, #[trigger] log_rule(i).keywords[j])
}

/// The finding of rule `i`: each keyword as evidence.
pub open spec fn log_rule_finding(i: int) -> AnomalyView {
    let r = log_rule(i);
    av(
        r.rule_id,
        r.level,
        "Java服务"@,
        r.title,
        "java-log"@,
        r.summary,
        r.keywords.map_values(|k: Seq<char>| "关键词: "@ + k),
        "优先截取首次异常上下文，关联发布时间、流量峰值、下游状态和 JVM 运行时指标。"@,
        r.commands,
    )
}

/// The findings of the first `n` rules on `blob`, in rule order.
pub open spec fn log_findings_upto(blob: Seq<char>, n: nat) -> Seq<AnomalyView>
    decreases n,
{
    if n == 0 {
        Seq::empty()
    } else {
        let prev = log_findings_upto(blob, (n - 1) as nat);
        if log_rule_hit(blob, n - 1) {
            prev.push(log_rule_finding(n - 1))
        } else {
            prev
        }
    }
}

/// The rule table entry `i`, as executable text.
fn log_rule_data(i: usize) -> (r: (&'static str, &'static str, &'static str, Vec<&'static str>, &'static str, Vec<&'static str>))
    requires
        i < 7,
    ensures
        r.0@ == log_rule(i as int).rule_id,
        r.1@ == log_rule(i as int).level,
        r.2@ == log_rule(i as int).title,
        str_views(r.3@) == log_rule(i as int).keywords,
        r.4@ == log_rule(i as int).summary,
        str_views(r.5@) == log_rule(i as int).commands,
{
    let r = if i == 0 {
        (
            "java.log.oom",
            "error",
            "Java OOM / 堆内存异常",
            vec!["outofmemoryerror", "java heap space", "gc overhead limit exceeded"],
            "日志出现 OOM 或堆空间不足关键词",
            vec![
                "grep -RniE 'OutOfMemoryError|Java heap space|GC overhead' <log_dir> | tail -80",
                "jcmd <pid> GC.heap_info",
                "jmap -histo:live <pid> | head -80",
            ],
        )
    } else if i == 1 {
        (
            "java.log.metaspace",
            "error",
            "Java Metaspace 异常",
            vec!["metaspace", "compressed class space"],
            "日志出现 metaspace 或 class space 异常",
            vec![
                "grep -RniE 'Metaspace|Compressed class space' <log_dir> | tail -80",
                "jcmd <pid> VM.native_memory summary",
            ],
        )
    } else if i == 2 {
        (
            "java.log.native_thread",
            "error",
            "Java 原生线程创建失败",
            vec!["unable to create new native thread"],
            "日志出现 unable to create new native thread",
            vec![
                "ulimit -a",
                "ps -eLf | awk '$2==<pid>{print}' | wc -l",
                "jcmd <pid> Thread.print | head -240",
            ],
        )
    } else if i == 3 {
        (
            "java.log.full_gc",
            "warn",
            "Java Full GC 频繁",
            vec!["full gc", "allocation failure", "promotion failed"],
            "日志出现 Full GC 或对象晋升失败关键词",
            vec![
                "grep -RniE 'Full GC|allocation failure|promotion failed' <log_dir> | tail -80",
                "jstat -gcutil <pid> 1000 10",
            ],
        )
    } else if i == 4 {
        (
            "java.log.deadlock",
            "error",
            "Java 死锁风险",
            vec!["deadlock", "found one java-level deadlock"],
            "日志或线程栈出现 deadlock 关键词",
            vec!["jcmd <pid> Thread.print | grep -i deadlock -C8", "grep -Rni deadlock <log_dir> | tail -80"],
        )
    } else if i == 5 {
        (
            "java.log.connection_timeout",
            "warn",
            "Java 外部依赖超时",
            vec!["read timed out", "connect timed out", "sockettimeoutexception"],
            "日志出现连接或读取超时关键词",
            vec![
                "grep -RniE 'read timed out|connect timed out|SocketTimeoutException' <log_dir> | tail -80",
                "ss -antp | grep <pid> | head -80",
            ],
        )
    } else {
        (
            "java.log.connection_refused",
            "error",
            "Java 外部依赖连接拒绝",
            vec!["connection refused", "connectexception", "econnrefused"],
            "日志出现连接拒绝关键词",
            vec!["grep -RniE 'Connection refused|ConnectException|ECONNREFUSED' <log_dir> | tail -80", "ss -ltnp"],
        )
    };
    assert(str_views(r.3@) =~= log_rule(i as int).keywords);
    assert(str_views(r.5@) =~= log_rule(i as int).commands);
    r
}

/// The findings that the failure keywords give on `blob`, text that is already
/// lowercased: one per rule that one of its keywords occurs in, in rule order.
pub fn java_log_findings_of_blob(blob: &str) -> (r: Vec<AnomalyFinding>)
    ensures
        anomaly_views(r@) == log_findings_upto(blob@, log_rule_count()),
{
    let bc = chars_of(blob);
    let mut out: Vec<AnomalyFinding> = Vec::new();
    let mut i: usize = 0;
    while i < 7
        invariant
            i <= 7,
            bc@ == blob@,
            anomaly_views(out@) == log_findings_upto(blob@, i as nat),
        decreases 7 - i,
    {
        let (id, level, title, kws, summary, cmds) = log_rule_data(i);
        let ghost rule = log_rule(i as int);
        let mut hit = false;
        let mut j: usize = 0;
        while j < kws.len()
            invariant
                j <= kws@.len(),
                bc@ == blob@,
                str_views(kws@) == rule.keywords,
                rule == log_rule(i as int),
                hit <==> exists|k: int| 0 <= k < j && contains_spec(blob@, #[trigger] rule.keywords[k]),
            decreases kws.len() - j,
        {
            assert(rule.keywords[j as int] == kws@[j as int]@);
            if contains_str(bc.as_slice(), kws[j]) {
                hit = true;
            }
            j = j + 1;
        }
        if hit {
            let mut evidence: Vec<String> = Vec::new();
            let mut k: usize = 0;
            while k < kws.len()
                invariant
                    k <= kws@.len(),
                    str_views(kws@) == rule.keywords,
                    evidence@.len() == k,
                    forall|m: int| 0 <= m < k ==> #[trigger] evidence@[m]@ == "关键词: "@ + rule.keywords[m],
                decreases kws.len() - k,
            {
                assert(rule.keywords[k as int] == kws@[k as int]@);
                evidence.push(cat2("关键词: ", kws[k]));
                k = k + 1;
            }
            let mut commands: Vec<String> = Vec::new();
            let mut k: usize = 0;
            while k < cmds.len()
                invariant
                    k <= cmds@.len(),
                    str_views(cmds@) == rule.commands,
                    commands@.len() == k,
                    forall|m: int| 0 <= m < k ==> #[trigger] commands@[m]@ == rule.commands[m],
                decreases cmds.len() - k,
            {
                assert(rule.commands[k as int] == cmds@[k as int]@);
                commands.push(cmds[k].to_owned());
                k = k + 1;
            }
            let f = finding(
                id.to_owned(),
                level,
                "Java服务",
                title.to_owned(),
                "java-log".to_owned(),
                summary.to_owned(),
                evidence,
                "优先截取首次异常上下文，关联发布时间、流量峰值、下游状态和 JVM 运行时指标。",
                commands,
            );
            assert(f@.evidence =~= log_rule_finding(i as int).evidence);
            assert(f@.commands =~= log_rule_finding(i as int).commands);
            push_finding(&mut out, f);
        }
        i = i + 1;
    }
    out
}

/// The findings that the failure keywords give on the text of a Java service check
/// once lowercased.
pub fn java_log_keyword_findings(text: &str) -> (r: Vec<AnomalyFinding>)
    ensures
        anomaly_views(r@) == log_findings_upto(unicode_lowercase(text@), log_rule_count()),
{
    let tc = chars_of(text);
    let lower = to_lowercase(tc.as_slice());
    let blob = crate::text::string_of(lower.as_slice());
    java_log_findings_of_blob(blob.as_str())
}

// ---------------------------------------------------------------------------
// Service list
// ---------------------------------------------------------------------------

/// The finding for a match that found no Java service.
pub open spec fn not_found_finding(matched: Seq<char>) -> AnomalyView {
    av(
        "java.service.not_found"@,
        "warn"@,
        "Java服务"@,
        "未发现匹配 Java 服务"@,
        "java-service"@,
        "未发现符合服务前缀或 Java/Tomcat 特征的进程"@,
        seq!["匹配结果: "@ + matched],
        "确认服务前缀配置是否过窄，或目标 Java/Tomcat 服务是否已启动。"@,
        seq!["ps -eo pid,comm,args | grep -E 'java|tomcat|catalina'"@],
    )
}

/// A command line that looks like an application server (checked lowercased).
pub open spec fn likely_server(cmd: Seq<char>) -> bool {
    let l = unicode_lowercase(cmd);
    contains_spec(l, "tomcat"@) || contains_spec(l, "catalina"@) || contains_spec(l, "spring"@)
        || contains_spec(l, "-dserver.port"@) || contains_spec(l, ".jar"@)
}

/// A port column that shows no listening port.
pub open spec fn no_listen(ports: Seq<char>) -> bool {
    ports.len() == 0 || ports == "-"@ || contains_spec(ports, "未发现"@) || contains_spec(ports, "无监听"@)
}

/// The finding for a server row (pid, name, .., ports at 5, command at 6) that
/// listens on no port.
pub open spec fn no_port_finding(row: Seq<Seq<char>>) -> AnomalyView {
    let pid = col(row, 0);
    let name = col(row, 1);
    let ports = col(row, 5);
    let cmd = col(row, 6);
    av(
        "java.runtime.no_port."@ + pid,
        "error"@,
        "Java服务"@,
        "Java 服务 "@ + name + " 未监听端口"@,
        "pid:"@ + pid,
        "Java/Tomcat 进程存在，但未发现关联监听端口"@,
        seq![
            "PID: "@ + pid,
            "进程: "@ + name,
            "监听端口: "@ + (if ports.len() == 0 {
                "-"@
            } else {
                ports
            }),
            "命令: "@ + cmd,
        ],
        "确认应用是否启动完成、server.port/AJP 配置是否正确、端口是否绑定到预期地址。"@,
        seq![
            "ss -ltnp | grep "@ + pid,
            "jcmd "@ + pid + " VM.system_properties | grep -E 'server.port|catalina|ajp'"@,
            "tail -n 200 <"@ + name + "-app.log>"@,
        ],
    )
}

/// The findings of one row of the Java service list: nothing for a short row.
pub open spec fn java_row_findings(row: Seq<Seq<char>>) -> Seq<AnomalyView> {
    if row.len() < 7 {
        Seq::empty()
    } else {
        one_if(likely_server(col(row, 6)) && no_listen(col(row, 5)), no_port_finding(row))
    }
}

pub open spec fn java_rows_findings(rows: Seq<Seq<Seq<char>>>) -> Seq<AnomalyView>
    decreases rows.len(),
{
    if rows.len() == 0 {
        Seq::empty()
    } else {
        java_rows_findings(rows.drop_last()) + java_row_findings(rows.last())
    }
}

/// The findings of the service match and the service list of a Java service check.
pub open spec fn java_list_findings_spec(matched: Option<Seq<char>>, rows: Seq<Seq<Seq<char>>>) -> Seq<AnomalyView> {
    let m = match matched {
        Some(v) => v,
        None => Seq::empty(),
    };
    one_if(contains_spec(m, "未发现"@), not_found_finding(m)) + java_rows_findings(rows)
}

fn java_row(out: &mut Vec<AnomalyFinding>, row: &Vec<String>)
    ensures
        anomaly_views(final(out)@) == anomaly_views(old(out)@) + java_row_findings(string_views(row@)),
{
    let ghost rv = string_views(row@);
    let ghost base = anomaly_views(out@);
    if row.len() < 7 {
        assert(anomaly_views(out@) =~= base + Seq::<AnomalyView>::empty());
        return;
    }
    proof {
        assert forall|i: int| 0 <= i < 7 implies rv[i] == row@[i]@ by {}
    }
    let pid = trimmed(&row[0]);
    let name = trimmed(&row[1]);
    let ports = trimmed(&row[5]);
    let cmd = trimmed(&row[6]);
    let cc = chars_of(cmd.as_str());
    let lower = to_lowercase(cc.as_slice());
    let likely = contains_str(lower.as_slice(), "tomcat") || contains_str(lower.as_slice(), "catalina")
        || contains_str(lower.as_slice(), "spring") || contains_str(lower.as_slice(), "-dserver.port")
        || contains_str(lower.as_slice(), ".jar");
    let pc = chars_of(ports.as_str());
    let silent = pc.len() == 0 || eq_str(pc.as_slice(), "-") || contains_str(pc.as_slice(), "未发现")
        || contains_str(pc.as_slice(), "无监听");
    if likely && silent {
        let p = pid.as_str();
        let n = name.as_str();
        let shown = if pc.len() == 0 {
            "-"
        } else {
            ports.as_str()
        };
        let f = finding(
            cat2("java.runtime.no_port.", p),
            "error",
            "Java服务",
            cat3("Java 服务 ", n, " 未监听端口"),
            cat2("pid:", p),
            "Java/Tomcat 进程存在，但未发现关联监听端口".to_owned(),
            vec![cat2("PID: ", p), cat2("进程: ", n), cat2("监听端口: ", shown), cat2("命令: ", cmd.as_str())],
            "确认应用是否启动完成、server.port/AJP 配置是否正确、端口是否绑定到预期地址。",
            vec![
                cat2("ss -ltnp | grep ", p),
                cat3("jcmd ", p, " VM.system_properties | grep -E 'server.port|catalina|ajp'"),
                cat3("tail -n 200 <", n, "-app.log>"),
            ],
        );
        assert(f@.evidence =~= no_port_finding(rv).evidence);
        assert(f@.commands =~= no_port_finding(rv).commands);
        push_finding(out, f);
        assert(anomaly_views(out@) =~= base + java_row_findings(rv));
    } else {
        assert(anomaly_views(out@) =~= base + java_row_findings(rv));
    }
}

/// The findings of a Java service check's match result (`None` where the check
/// reported none) and of the rows of its service list, in that order.
pub fn java_service_list_findings(matched: Option<&str>, rows: &Vec<Vec<String>>) -> (r: Vec<AnomalyFinding>)
    ensures
        anomaly_views(r@) == java_list_findings_spec(
            match matched {
                Some(v) => Some(v@),
                None => None,
            },
            rows_views(rows@),
        ),
{
    let m = match matched {
        Some(v) => v,
        None => "",
    };
    proof {
        reveal_strlit("");
    }
    assert(m@ == (match matched {
        Some(v) => v@,
        None => Seq::<char>::empty(),
    }));
    let mc = chars_of(m);
    let mut out: Vec<AnomalyFinding> = Vec::new();
    if contains_str(mc.as_slice(), "未发现") {
        let f = finding(
            "java.service.not_found".to_owned(),
            "warn",
            "Java服务",
            "未发现匹配 Java 服务".to_owned(),
            "java-service".to_owned(),
            "未发现符合服务前缀或 Java/Tomcat 特征的进程".to_owned(),
            vec![cat2("匹配结果: ", m)],
            "确认服务前缀配置是否过窄，或目标 Java/Tomcat 服务是否已启动。",
            vec!["ps -eo pid,comm,args | grep -E 'java|tomcat|catalina'".to_owned()],
        );
        assert(f@.evidence =~= not_found_finding(m@).evidence);
        assert(f@.commands =~= not_found_finding(m@).commands);
        push_finding(&mut out, f);
    }
    let ghost head = anomaly_views(out@);
    assert(head =~= one_if(contains_spec(m@, "未发现"@), not_found_finding(m@)));
    let ghost rv = rows_views(rows@);
    let mut i: usize = 0;
    assert(rv.take(0) =~= Seq::<Seq<Seq<char>>>::empty());
    assert(anomaly_views(out@) =~= head + java_rows_findings(rv.take(0)));
    while i < rows.len()
        invariant
            i <= rows@.len(),
            rv == rows_views(rows@),
            anomaly_views(out@) == head + java_rows_findings(rv.take(i as int)),
        decreases rows.len() - i,
    {
        assert(rv.take(i + 1).drop_last() =~= rv.take(i as int));
        assert(rv.take(i + 1).last() == string_views(rows@[i as int]@));
        java_row(&mut out, &rows[i]);
        assert(anomaly_views(out@) =~= head + java_rows_findings(rv.take(i + 1)));
        i = i + 1;
    }
    assert(rv.take(i as int) =~= rv);
    out
}

} // verus!
