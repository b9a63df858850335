//! Anomaly findings: what the rule engine reports, with the advice and commands
//! attached to a finding that a check raised.
use vstd::prelude::*;
use crate::text::{chars_of, eq_str, push_all, push_str, starts_with_spec, starts_with_str, string_of, string_views};

pub mod catalog;
pub mod evaluate;
pub mod java_rules;
pub mod java_runtime;
pub mod overrides;
pub mod rules;
pub mod whole;

verus! {

/// One anomaly that a rule found.
pub struct AnomalyFinding {
    pub rule_id: String,
    pub level: String,
    pub category: String,
    pub title: String,
    pub target: String,
    pub summary: String,
    pub evidence: Vec<String>,
    pub suggestion: String,
    pub commands: Vec<String>,
}

/// A finding's fields as text.
pub struct AnomalyView {
    pub rule_id: Seq<char>,
    pub level: Seq<char>,
    pub category: Seq<char>,
    pub title: Seq<char>,
    pub target: Seq<char>,
    pub summary: Seq<char>,
    pub evidence: Seq<Seq<char>>,
    pub suggestion: Seq<char>,
    pub commands: Seq<Seq<char>>,
}

impl View for AnomalyFinding {
    type V = AnomalyView;

    open spec fn view(&self) -> AnomalyView {
        AnomalyView {
            rule_id: self.rule_id@,
            level: self.level@,
            category: self.category@,
            title: self.title@,
            target: self.target@,
            summary: self.summary@,
            evidence: string_views(self.evidence@),
            suggestion: self.suggestion@,
            commands: string_views(self.commands@),
        }
    }
}

pub open spec fn anomaly_views(v: Seq<AnomalyFinding>) -> Seq<AnomalyView> {
    v.map_values(|f: AnomalyFinding| f@)
}

impl AnomalyFinding {
    /// A finding with its identity and summary, and no evidence, advice or commands yet.
    pub fn new(
        rule_id: String,
        level: String,
        category: String,
        title: String,
        target: String,
        summary: String,
    ) -> (f: AnomalyFinding)
        ensures
            f.rule_id == rule_id,
            f.level == level,
            f.category == category,
            f.title == title,
            f.target == target,
            f.summary == summary,
            f.evidence@.len() == 0,
            f.suggestion@.len() == 0,
            f.commands@.len() == 0,
    {
        AnomalyFinding {
            rule_id,
            level,
            category,
            title,
            target,
            summary,
            evidence: Vec::new(),
            suggestion: String::new(),
            commands: Vec::new(),
        }
    }

    /// The finding with `values` as its evidence.
    pub fn evidence(self, values: Vec<String>) -> (f: AnomalyFinding)
        ensures
            f == (AnomalyFinding { evidence: values, ..self }),
    {
        AnomalyFinding { evidence: values, ..self }
    }

    /// The finding with `value` as its advice.
    pub fn suggestion(self, value: String) -> (f: AnomalyFinding)
        ensures
            f == (AnomalyFinding { suggestion: value, ..self }),
    {
        AnomalyFinding { suggestion: value, ..self }
    }

    /// The finding with `values` as the commands to run.
    pub fn commands(self, values: Vec<String>) -> (f: AnomalyFinding)
        ensures
            f == (AnomalyFinding { commands: values, ..self }),
    {
        AnomalyFinding { commands: values, ..self }
    }
}

/// The advice attached to a finding of check `check_id`, section `section`, item `key`.
pub open spec fn default_suggestion_spec(
    check_id: Seq<char>,
    section: Seq<char>,
    key: Seq<char>,
    level: Seq<char>,
) -> Seq<char> {
    if key == "CPU"@ || key == "使用率"@ {
        "定位 CPU Top 进程，结合负载和业务时间点判断是否持续异常。"@
    } else if key == "内存"@ || key == "物理内存"@ || key == "Swap"@ {
        "定位 RSS 最高进程，检查 OOM、堆内存、缓存和最近发布变更。"@
    } else if key == "磁盘"@ {
        "检查磁盘增长目录，优先清理日志/临时文件/备份并评估扩容。"@
    } else if check_id == "security"@ {
        "核对安全基线要求，确认是否允许该配置偏离默认加固策略。"@
    } else if check_id == "service"@ || check_id == "service-manage"@ {
        "查看服务状态、启动日志和端口占用，先定位原因再执行重启。"@
    } else {
        "按 "@ + (if level == "error"@ {
            "异常"@
        } else {
            "警告"@
        }) + " 级别处理 "@ + section + " / "@ + key + "，结合证据和现场业务影响确认优先级。"@
    }
}

pub fn default_suggestion(check_id: &str, section: &str, key: &str, level: &str) -> (r: String)
    ensures
        r@ == default_suggestion_spec(check_id@, section@, key@, level@),
{
    let k = chars_of(key);
    let c = chars_of(check_id);
    let k = k.as_slice();
    let c = c.as_slice();
    if eq_str(k, "CPU") || eq_str(k, "使用率") {
        "定位 CPU Top 进程，结合负载和业务时间点判断是否持续异常。".to_owned()
    } else if eq_str(k, "内存") || eq_str(k, "物理内存") || eq_str(k, "Swap") {
        "定位 RSS 最高进程，检查 OOM、堆内存、缓存和最近发布变更。".to_owned()
    } else if eq_str(k, "磁盘") {
        "检查磁盘增长目录，优先清理日志/临时文件/备份并评估扩容。".to_owned()
    } else if eq_str(c, "security") {
        "核对安全基线要求，确认是否允许该配置偏离默认加固策略。".to_owned()
    } else if eq_str(c, "service") || eq_str(c, "service-manage") {
        "查看服务状态、启动日志和端口占用，先定位原因再执行重启。".to_owned()
    } else {
        let lv = chars_of(level);
        let mut out: Vec<char> = Vec::new();
        push_str(&mut out, "按 ");
        if eq_str(lv.as_slice(), "error") {
            push_str(&mut out, "异常");
        } else {
            push_str(&mut out, "警告");
        }
        push_str(&mut out, " 级别处理 ");
        push_str(&mut out, section);
        push_str(&mut out, " / ");
        push_all(&mut out, k);
        push_str(&mut out, "，结合证据和现场业务影响确认优先级。");
        string_of(out.as_slice())
    }
}

/// The security baseline command that every `security` finding carries.
pub open spec fn security_command() -> Seq<char> {
    "sysctl -a 2>/dev/null | grep -E 'tcp_syncookies|rp_filter|randomize_va_space'"@
}

/// The commands attached to a finding of check `check_id` about item `key`.
pub open spec fn default_commands_spec(check_id: Seq<char>, key: Seq<char>) -> Seq<Seq<char>> {
    let base: Seq<Seq<char>> = if key == "CPU"@ || key == "使用率"@ {
        seq!["top -o %CPU"@, "ps -eo pid,ppid,comm,%cpu,%mem --sort=-%cpu | head -20"@]
    } else if key == "内存"@ || key == "物理内存"@ || key == "Swap"@ {
        seq!["free -h"@, "ps -eo pid,comm,rss,%mem --sort=-rss | head -20"@]
    } else if key == "磁盘"@ {
        seq!["df -h"@, "du -xh / 2>/dev/null | sort -h | tail -20"@]
    } else {
        Seq::empty()
    };
    if check_id == "security"@ {
        base.push(security_command())
    } else {
        base
    }
}


pub fn default_commands(check_id: &str, key: &str) -> (r: Vec<String>)
    ensures
        string_views(r@) == default_commands_spec(check_id@, key@),
{
    let k = chars_of(key);
    let k = k.as_slice();
    let mut commands: Vec<String> = Vec::new();
    if eq_str(k, "CPU") || eq_str(k, "使用率") {
        commands.push("top -o %CPU".to_owned());
        commands.push("ps -eo pid,ppid,comm,%cpu,%mem --sort=-%cpu | head -20".to_owned());
    } else if eq_str(k, "内存") || eq_str(k, "物理内存") || eq_str(k, "Swap") {
        commands.push("free -h".to_owned());
        commands.push("ps -eo pid,comm,rss,%mem --sort=-rss | head -20".to_owned());
    } else if eq_str(k, "磁盘") {
        commands.push("df -h".to_owned());
        commands.push("du -xh / 2>/dev/null | sort -h | tail -20".to_owned());
    }
    let c = chars_of(check_id);
    if eq_str(c.as_slice(), "security") {
        commands.push(
            "sysctl -a 2>/dev/null | grep -E 'tcp_syncookies|rp_filter|randomize_va_space'".to_owned(),
        );
    }
    assert(string_views(commands@) =~= default_commands_spec(check_id@, key@));
    commands
}

/// Mounts that say nothing about the host's own disks: overlay file systems and the
/// mounts of container runtimes and snaps.
pub open spec fn is_noise_mount_spec(mount_point: Seq<char>, fs_type: Seq<char>) -> bool {
    fs_type == "overlay"@ || starts_with_spec(mount_point, "/var/lib/docker/"@)
        || starts_with_spec(mount_point, "/var/lib/containerd/"@)
        || starts_with_spec(mount_point, "/run/containerd/"@)
        || starts_with_spec(mount_point, "/snap/"@)
}

pub fn is_noise_mount(mount_point: &str, fs_type: &str) -> (r: bool)
    ensures
        r == is_noise_mount_spec(mount_point@, fs_type@),
{
    let f = chars_of(fs_type);
    let m = chars_of(mount_point);
    let m = m.as_slice();
    eq_str(f.as_slice(), "overlay") || starts_with_str(m, "/var/lib/docker/")
        || starts_with_str(m, "/var/lib/containerd/") || starts_with_str(m, "/run/containerd/")
        || starts_with_str(m, "/snap/")
}

/// What a Java runtime rule reports about process `pid` (`name`) for metric `suffix`.
pub open spec fn java_runtime_metric_spec(
    f: AnomalyFinding,
    pid: Seq<char>,
    name: Seq<char>,
    suffix: Seq<char>,
    level: Seq<char>,
    title: Seq<char>,
    summary: Seq<char>,
    commands: Seq<String>,
) -> bool {
    &&& f.rule_id@ == "java.runtime."@ + suffix + "."@ + pid
    &&& f.level@ == level
    &&& f.category@ == "Java服务"@
    &&& f.title@ == "Java 服务 "@ + name + " "@ + title
    &&& f.target@ == "pid:"@ + pid
    &&& f.summary@ == summary
    &&& string_views(f.evidence@) == seq!["PID: "@ + pid, "进程: "@ + name, "指标: "@ + summary]
    &&& f.suggestion@ == "结合线程栈、GC、堆对象和最近发布/流量变化定位根因，避免直接重启掩盖现场。"@
    &&& f.commands@ == commands
}

pub(crate) fn joined(a: &str, b: &str, c: &str, d: &str) -> (r: String)
    ensures
        r@ == a@ + b@ + c@ + d@,
{
    let mut out: Vec<char> = Vec::new();
    push_str(&mut out, a);
    push_str(&mut out, b);
    push_str(&mut out, c);
    push_str(&mut out, d);
    string_of(out.as_slice())
}

pub fn java_runtime_metric_finding(
    pid: &str,
    name: &str,
    suffix: &str,
    level: &str,
    title: &str,
    summary: String,
    commands: Vec<String>,
) -> (f: AnomalyFinding)
    ensures
        java_runtime_metric_spec(f, pid@, name@, suffix@, level@, title@, summary@, commands@),
{
    let ghost cmds = commands@;
    let evidence = vec![
        joined("PID: ", pid, "", ""),
        joined("进程: ", name, "", ""),
        joined("指标: ", summary.as_str(), "", ""),
    ];
    let rule_id = joined("java.runtime.", suffix, ".", pid);
    let f = AnomalyFinding::new(
        rule_id,
        level.to_owned(),
        "Java服务".to_owned(),
        joined("Java 服务 ", name, " ", title),
        joined("pid:", pid, "", ""),
        summary,
    ).evidence(evidence).suggestion(
        "结合线程栈、GC、堆对象和最近发布/流量变化定位根因，避免直接重启掩盖现场。".to_owned(),
    ).commands(commands);
    proof {
        reveal_strlit("");
        assert("PID: "@ + pid@ + ""@ + ""@ =~= "PID: "@ + pid@);
        assert("进程: "@ + name@ + ""@ + ""@ =~= "进程: "@ + name@);
        assert("指标: "@ + summary@ + ""@ + ""@ =~= "指标: "@ + summary@);
        assert("pid:"@ + pid@ + ""@ + ""@ =~= "pid:"@ + pid@);
        assert(string_views(f.evidence@) =~= seq!["PID: "@ + pid@, "进程: "@ + name@, "指标: "@ + summary@]);
    }
    f
}

} // verus!
