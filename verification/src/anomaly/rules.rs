//! The rules that turn what a middleware or service check reported into findings.
//! Each takes the values that the check put in its result.
use vstd::prelude::*;
use crate::anomaly::{AnomalyFinding, AnomalyView, anomaly_views, default_commands, default_commands_spec, default_suggestion, default_suggestion_spec, joined};
use crate::text::{chars_of, contains, contains_spec, contains_str, eq_str, lemma_take_contains, opt_str_view, parse_u64, parse_unsigned_spec, push_str, string_of, string_views, trim, trim_spec};
use crate::checks::common::{truncate, truncate_spec};
use crate::checks::{CheckStatus};

verus! {

pub open spec fn av(
    rule_id: Seq<char>,
    level: Seq<char>,
    category: Seq<char>,
    title: Seq<char>,
    target: Seq<char>,
    summary: Seq<char>,
    evidence: Seq<Seq<char>>,
    suggestion: Seq<char>,
    commands: Seq<Seq<char>>,
) -> AnomalyView {
    AnomalyView { rule_id, level, category, title, target, summary, evidence, suggestion, commands }
}

pub(crate) fn finding(
    rule_id: String,
    level: &str,
    category: &str,
    title: String,
    target: String,
    summary: String,
    evidence: Vec<String>,
    suggestion: &str,
    commands: Vec<String>,
) -> (f: AnomalyFinding)
    ensures
        f@ == av(
            rule_id@,
            level@,
            category@,
            title@,
            target@,
            summary@,
            string_views(evidence@),
            suggestion@,
            string_views(commands@),
        ),
{
    AnomalyFinding::new(rule_id, level.to_owned(), category.to_owned(), title, target, summary).evidence(
        evidence,
    ).suggestion(suggestion.to_owned()).commands(commands)
}

pub(crate) fn cat2(a: &str, b: &str) -> (r: String)
    ensures
        r@ == a@ + b@,
{
    let r = joined(a, b, "", "");
    proof {
        reveal_strlit("");
    }
    assert(r@ =~= a@ + b@);
    r
}

pub(crate) fn cat3(a: &str, b: &str, c: &str) -> (r: String)
    ensures
        r@ == a@ + b@ + c@,
{
    let r = joined(a, b, c, "");
    proof {
        reveal_strlit("");
    }
    assert(r@ =~= a@ + b@ + c@);
    r
}

// ---------------------------------------------------------------------------
// Service management
// ---------------------------------------------------------------------------

/// The fields of a service list row (pid, name, process, path, ports, status, CPU,
/// memory, kind, unit state, log summary, from the second column on), trimmed.
pub open spec fn col(row: Seq<Seq<char>>, i: int) -> Seq<char> {
    trim_spec(row[i])
}

/// A unit that is not active, and not process-only or unknown, is an error.
pub open spec fn unit_state_bad(row: Seq<Seq<char>>) -> bool {
    let u = col(row, 10);
    !contains_spec(u, "/active/"@) && u != "process-only"@ && u != "unknown"@
}

pub open spec fn unit_state_finding(row: Seq<Seq<char>>) -> AnomalyView {
    let name = col(row, 2);
    av(
        "service.systemctl.state."@ + name,
        "error"@,
        "服务管理"@,
        "服务 "@ + name + " systemctl 状态异常"@,
        name,
        "systemctl 状态为 "@ + col(row, 10),
        seq![
            "PID: "@ + col(row, 1),
            "进程: "@ + col(row, 3),
            "状态: "@ + col(row, 6),
            "Systemd: "@ + col(row, 10),
            "端口: "@ + col(row, 5),
            "路径: "@ + col(row, 4),
        ],
        "先查看 systemctl status 和 journalctl，确认是否为 failed、activating 卡住或反复重启。"@,
        seq!["systemctl status "@ + name, "journalctl -u "@ + name + " -n 160 --no-pager"@],
    )
}

/// A log summary that is not empty or `-` is an error.
pub open spec fn log_bad(row: Seq<Seq<char>>) -> bool {
    col(row, 11) != "-"@ && col(row, 11).len() > 0
}

pub open spec fn log_finding(row: Seq<Seq<char>>) -> AnomalyView {
    let name = col(row, 2);
    av(
        "service.systemctl.log_anomaly."@ + name,
        "error"@,
        "服务管理"@,
        "服务 "@ + name + " 最近日志存在异常"@,
        name,
        "最近 systemd 日志发现异常关键字: "@ + col(row, 11),
        seq![
            "PID: "@ + col(row, 1),
            "进程: "@ + col(row, 3),
            "类型: "@ + col(row, 9),
            "CPU: "@ + col(row, 7),
            "内存: "@ + col(row, 8),
            "日志摘要: "@ + col(row, 11),
        ],
        "保留现场日志上下文，确认异常是否持续发生；必要时结合服务健康、端口和最近变更定位。"@,
        seq![
            "journalctl -u "@ + name + " -n 200 --no-pager -p warning..alert"@,
            "systemctl status "@ + name,
        ],
    )
}

/// The findings of one row of the service list: nothing for a short row.
pub open spec fn service_row_findings(row: Seq<Seq<char>>) -> Seq<AnomalyView> {
    if row.len() < 12 {
        Seq::empty()
    } else {
        (if unit_state_bad(row) {
            seq![unit_state_finding(row)]
        } else {
            Seq::empty()
        }) + (if log_bad(row) {
            seq![log_finding(row)]
        } else {
            Seq::empty()
        })
    }
}

pub open spec fn service_findings_spec(rows: Seq<Seq<Seq<char>>>) -> Seq<AnomalyView>
    decreases rows.len(),
{
    if rows.len() == 0 {
        Seq::empty()
    } else {
        service_findings_spec(rows.drop_last()) + service_row_findings(rows.last())
    }
}

pub open spec fn rows_views(rows: Seq<Vec<String>>) -> Seq<Seq<Seq<char>>> {
    rows.map_values(|r: Vec<String>| string_views(r@))
}

pub(crate) fn trimmed(s: &String) -> (r: String)
    ensures
        r@ == trim_spec(s@),
{
    let c = chars_of(s.as_str());
    let t = trim(c.as_slice());
    string_of(t.as_slice())
}

fn service_row(out: &mut Vec<AnomalyFinding>, row: &Vec<String>)
    ensures
        anomaly_views(final(out)@) == anomaly_views(old(out)@) + service_row_findings(string_views(row@)),
{
    let ghost rv = string_views(row@);
    let ghost base = anomaly_views(out@);
    if row.len() < 12 {
        assert(anomaly_views(out@) =~= base + Seq::<AnomalyView>::empty());
        return;
    }
    proof {
        assert forall|i: int| 0 <= i < 12 implies rv[i] == row@[i]@ by {}
    }
    let pid = trimmed(&row[1]);
    let name = trimmed(&row[2]);
    let process = trimmed(&row[3]);
    let path = trimmed(&row[4]);
    let ports = trimmed(&row[5]);
    let status = trimmed(&row[6]);
    let cpu = trimmed(&row[7]);
    let memory = trimmed(&row[8]);
    let category = trimmed(&row[9]);
    let unit_state = trimmed(&row[10]);
    let log = trimmed(&row[11]);
    let n = name.as_str();
    let us = chars_of(unit_state.as_str());
    let lc = chars_of(log.as_str());
    let bad_unit = !contains_str(us.as_slice(), "/active/") && !eq_str(us.as_slice(), "process-only")
        && !eq_str(us.as_slice(), "unknown");
    let ghost mid = base;
    if bad_unit {
        let f = finding(
            cat2("service.systemctl.state.", n),
            "error",
            "服务管理",
            cat3("服务 ", n, " systemctl 状态异常"),
            n.to_owned(),
            cat2("systemctl 状态为 ", unit_state.as_str()),
            vec![
                cat2("PID: ", pid.as_str()),
                cat2("进程: ", process.as_str()),
                cat2("状态: ", status.as_str()),
                cat2("Systemd: ", unit_state.as_str()),
                cat2("端口: ", ports.as_str()),
                cat2("路径: ", path.as_str()),
            ],
            "先查看 systemctl status 和 journalctl，确认是否为 failed、activating 卡住或反复重启。",
            vec![cat2("systemctl status ", n), cat3("journalctl -u ", n, " -n 160 --no-pager")],
        );
        let ghost fv = f@;
        assert(fv.evidence =~= unit_state_finding(rv).evidence);
        assert(fv.commands =~= unit_state_finding(rv).commands);
        assert(fv == unit_state_finding(rv));
        out.push(f);
        assert(anomaly_views(out@) =~= base.push(fv));
        proof {
            mid = base.push(fv);
        }
    }
    let log_is_bad = !eq_str(lc.as_slice(), "-") && lc.len() > 0;
    if log_is_bad {
        let f = finding(
            cat2("service.systemctl.log_anomaly.", n),
            "error",
            "服务管理",
            cat3("服务 ", n, " 最近日志存在异常"),
            n.to_owned(),
            cat2("最近 systemd 日志发现异常关键字: ", log.as_str()),
            vec![
                cat2("PID: ", pid.as_str()),
                cat2("进程: ", process.as_str()),
                cat2("类型: ", category.as_str()),
                cat2("CPU: ", cpu.as_str()),
                cat2("内存: ", memory.as_str()),
                cat2("日志摘要: ", log.as_str()),
            ],
            "保留现场日志上下文，确认异常是否持续发生；必要时结合服务健康、端口和最近变更定位。",
            vec![cat3("journalctl -u ", n, " -n 200 --no-pager -p warning..alert"), cat2("systemctl status ", n)],
        );
        let ghost fv = f@;
        assert(fv.evidence =~= log_finding(rv).evidence);
        assert(fv.commands =~= log_finding(rv).commands);
        assert(fv == log_finding(rv));
        let ghost before = anomaly_views(out@);
        out.push(f);
        assert(anomaly_views(out@) =~= before.push(fv));
    }
    assert(bad_unit == unit_state_bad(rv));
    assert(log_is_bad == log_bad(rv));
    assert(anomaly_views(out@) =~= base + service_row_findings(rv));
}

/// The findings of the service list rows of a `service-manage` result.
pub fn service_manage_findings(rows: &Vec<Vec<String>>) -> (r: Vec<AnomalyFinding>)
    ensures
        anomaly_views(r@) == service_findings_spec(rows_views(rows@)),
{
    let ghost rv = rows_views(rows@);
    let mut out: Vec<AnomalyFinding> = Vec::new();
    let mut i: usize = 0;
    assert(rv.take(0) =~= Seq::<Seq<Seq<char>>>::empty());
    assert(anomaly_views(out@) =~= Seq::<AnomalyView>::empty());
    while i < rows.len()
        invariant
            i <= rows@.len(),
            rv == rows_views(rows@),
            anomaly_views(out@) == service_findings_spec(rv.take(i as int)),
        decreases rows.len() - i,
    {
        assert(rv.take(i + 1).drop_last() =~= rv.take(i as int));
        assert(rv.take(i + 1).last() == string_views(rows@[i as int]@));
        service_row(&mut out, &rows[i]);
        i = i + 1;
    }
    assert(rv.take(i as int) =~= rv);
    out
}


// ---------------------------------------------------------------------------
// Middleware
// ---------------------------------------------------------------------------

pub open spec fn one_if(c: bool, f: AnomalyView) -> Seq<AnomalyView> {
    if c {
        seq![f]
    } else {
        Seq::empty()
    }
}

pub(crate) fn push_finding(out: &mut Vec<AnomalyFinding>, f: AnomalyFinding)
    ensures
        anomaly_views(final(out)@) == anomaly_views(old(out)@).push(f@),
{
    let ghost before = anomaly_views(out@);
    let ghost fv = f@;
    out.push(f);
    assert(anomaly_views(out@) =~= before.push(fv));
}

pub open spec fn nginx_not_running(running: Seq<char>) -> AnomalyView {
    av(
        "middleware.nginx.not_running"@,
        "warn"@,
        "Web网关"@,
        "Nginx 未运行"@,
        "nginx"@,
        "未发现 Nginx master/worker 进程"@,
        seq!["运行状态: "@ + running],
        "确认该机器是否应承载 Nginx；若应运行，先检查配置再启动服务。"@,
        seq!["systemctl status nginx"@, "nginx -t"@],
    )
}

pub open spec fn nginx_config_invalid(config_test: Seq<char>) -> AnomalyView {
    av(
        "middleware.nginx.config_invalid"@,
        "error"@,
        "Web网关"@,
        "Nginx 配置检测失败"@,
        "nginx.conf"@,
        "nginx -t 未通过，重载或启动可能失败"@,
        seq![truncate_spec(config_test, 360)],
        "先修复 nginx -t 输出中的配置错误，再执行 reload/start。"@,
        seq!["nginx -t"@, "journalctl -u nginx -n 80 --no-pager"@],
    )
}

/// An Nginx that is not running is a warning; a configuration test that did not pass
/// (not empty, and neither `successful`, `ok` nor `未安装` in it) is an error. The
/// values are the `运行状态` and `配置检测` labels (empty when absent).
pub open spec fn nginx_findings_spec(running: Seq<char>, config_test: Seq<char>) -> Seq<AnomalyView> {
    one_if(contains_spec(running, "未发现"@), nginx_not_running(running)) + one_if(
        config_test.len() > 0 && !contains_spec(config_test, "successful"@) && !contains_spec(
            config_test,
            "ok"@,
        ) && !contains_spec(config_test, "未安装"@),
        nginx_config_invalid(config_test),
    )
}

pub fn nginx_findings(running: &str, config_test: &str) -> (r: Vec<AnomalyFinding>)
    ensures
        anomaly_views(r@) == nginx_findings_spec(running@, config_test@),
{
    let rc = chars_of(running);
    let cc = chars_of(config_test);
    let mut out: Vec<AnomalyFinding> = Vec::new();
    if contains_str(rc.as_slice(), "未发现") {
        let f = finding(
            "middleware.nginx.not_running".to_owned(),
            "warn",
            "Web网关",
            "Nginx 未运行".to_owned(),
            "nginx".to_owned(),
            "未发现 Nginx master/worker 进程".to_owned(),
            vec![cat2("运行状态: ", running)],
            "确认该机器是否应承载 Nginx；若应运行，先检查配置再启动服务。",
            vec!["systemctl status nginx".to_owned(), "nginx -t".to_owned()],
        );
        assert(f@.evidence =~= nginx_not_running(running@).evidence);
        assert(f@.commands =~= nginx_not_running(running@).commands);
        push_finding(&mut out, f);
    }
    let ghost mid = anomaly_views(out@);
    let c = cc.as_slice();
    if cc.len() > 0 && !contains_str(c, "successful") && !contains_str(c, "ok") && !contains_str(c, "未安装") {
        let cut = truncate(config_test, 360);
        let f = finding(
            "middleware.nginx.config_invalid".to_owned(),
            "error",
            "Web网关",
            "Nginx 配置检测失败".to_owned(),
            "nginx.conf".to_owned(),
            "nginx -t 未通过，重载或启动可能失败".to_owned(),
            vec![cut],
            "先修复 nginx -t 输出中的配置错误，再执行 reload/start。",
            vec!["nginx -t".to_owned(), "journalctl -u nginx -n 80 --no-pager".to_owned()],
        );
        assert(f@.evidence =~= nginx_config_invalid(config_test@).evidence);
        assert(f@.commands =~= nginx_config_invalid(config_test@).commands);
        push_finding(&mut out, f);
    }
    assert(anomaly_views(out@) =~= nginx_findings_spec(running@, config_test@));
    out
}

pub open spec fn redis_ping_failed(ping: Seq<char>, address: Seq<char>) -> AnomalyView {
    av(
        "middleware.redis.ping_failed"@,
        "warn"@,
        "中间件"@,
        "Redis PING 无响应"@,
        address,
        "Redis 无法响应 PING，可能未运行、认证错误或端口不可达"@,
        seq!["PING: "@ + ping],
        "确认 Redis 进程、监听端口和密码配置，避免误判为业务缓存故障。"@,
        seq!["systemctl status redis redis-server"@, "redis-cli ping"@],
    )
}

/// A status row of Redis that needs a look: blocked clients, or a failed background
/// save or append-only write.
pub open spec fn redis_row_bad(key: Seq<char>, value: Seq<char>) -> bool {
    (key == "blocked_clients"@ && match parse_unsigned_spec(value, 10, u64::MAX as nat) {
        Some(n) => n > 0,
        None => false,
    }) || (key == "rdb_last_bgsave_status"@ && value != "ok"@ && value != "-"@) || (key
        == "aof_last_write_status"@ && value != "ok"@ && value != "-"@)
}

pub open spec fn redis_row_finding(key: Seq<char>, value: Seq<char>) -> AnomalyView {
    av(
        "middleware.redis."@ + key,
        "warn"@,
        "中间件"@,
        "Redis "@ + key + " 异常"@,
        key,
        key + " = "@ + value,
        seq![key + ": "@ + value],
        "检查 Redis INFO、慢日志、持久化日志和磁盘空间。"@,
        seq!["redis-cli info"@, "redis-cli slowlog get 10"@],
    )
}

pub open spec fn redis_rows_spec(rows: Seq<Seq<Seq<char>>>) -> Seq<AnomalyView>
    decreases rows.len(),
{
    if rows.len() == 0 {
        Seq::empty()
    } else {
        let row = rows.last();
        redis_rows_spec(rows.drop_last()) + one_if(
            row.len() >= 2 && redis_row_bad(row[0], row[1]),
            redis_row_finding(row[0], row[1]),
        )
    }
}

/// A PING without answer is a warning (its target is the `地址` label, `redis` when
/// absent), and so is each status row that needs a look.
pub open spec fn redis_findings_spec(ping: Seq<char>, address: Option<Seq<char>>, rows: Seq<Seq<Seq<char>>>) -> Seq<
    AnomalyView,
> {
    one_if(
        contains_spec(ping, "无响应"@),
        redis_ping_failed(
            ping,
            match address {
                Some(a) => a,
                None => "redis"@,
            },
        ),
    ) + redis_rows_spec(rows)
}

pub fn redis_findings(ping: &str, address: Option<&str>, rows: &Vec<Vec<String>>) -> (r: Vec<AnomalyFinding>)
    ensures
        anomaly_views(r@) == redis_findings_spec(ping@, opt_str_view(address), rows_views(rows@)),
{
    let pc = chars_of(ping);
    let mut out: Vec<AnomalyFinding> = Vec::new();
    if contains_str(pc.as_slice(), "无响应") {
        let target = match address {
            Some(a) => a.to_owned(),
            None => "redis".to_owned(),
        };
        let f = finding(
            "middleware.redis.ping_failed".to_owned(),
            "warn",
            "中间件",
            "Redis PING 无响应".to_owned(),
            target,
            "Redis 无法响应 PING，可能未运行、认证错误或端口不可达".to_owned(),
            vec![cat2("PING: ", ping)],
            "确认 Redis 进程、监听端口和密码配置，避免误判为业务缓存故障。",
            vec!["systemctl status redis redis-server".to_owned(), "redis-cli ping".to_owned()],
        );
        let ghost want = redis_ping_failed(
            ping@,
            match opt_str_view(address) {
                Some(a) => a,
                None => "redis"@,
            },
        );
        assert(f@.evidence =~= want.evidence);
        assert(f@.commands =~= want.commands);
        push_finding(&mut out, f);
    }
    let ghost head = anomaly_views(out@);
    let ghost rv = rows_views(rows@);
    let mut i: usize = 0;
    assert(rv.take(0) =~= Seq::<Seq<Seq<char>>>::empty());
    assert(head + redis_rows_spec(rv.take(0)) =~= head);
    while i < rows.len()
        invariant
            i <= rows@.len(),
            rv == rows_views(rows@),
            anomaly_views(out@) == head + redis_rows_spec(rv.take(i as int)),
        decreases rows.len() - i,
    {
        assert(rv.take(i + 1).drop_last() =~= rv.take(i as int));
        assert(rv.take(i + 1).last() == string_views(rows@[i as int]@));
        let row = &rows[i];
        let ghost rw = string_views(row@);
        let mut bad = false;
        if row.len() >= 2 {
            assert(rw[0] == row@[0]@ && rw[1] == row@[1]@);
            let k = chars_of(row[0].as_str());
            let v = chars_of(row[1].as_str());
            let k = k.as_slice();
            let v = v.as_slice();
            let blocked = eq_str(k, "blocked_clients") && match parse_u64(v) {
                Some(n) => n > 0,
                None => false,
            };
            bad = blocked || (eq_str(k, "rdb_last_bgsave_status") && !eq_str(v, "ok") && !eq_str(v, "-"))
                || (eq_str(k, "aof_last_write_status") && !eq_str(v, "ok") && !eq_str(v, "-"));
            assert(bad == redis_row_bad(rw[0], rw[1]));
            if bad {
                let key = row[0].as_str();
                let value = row[1].as_str();
                let f = finding(
                    cat2("middleware.redis.", key),
                    "warn",
                    "中间件",
                    cat3("Redis ", key, " 异常"),
                    key.to_owned(),
                    cat3(key, " = ", value),
                    vec![cat3(key, ": ", value)],
                    "检查 Redis INFO、慢日志、持久化日志和磁盘空间。",
                    vec!["redis-cli info".to_owned(), "redis-cli slowlog get 10".to_owned()],
                );
                assert(f@.evidence =~= redis_row_finding(rw[0], rw[1]).evidence);
                assert(f@.commands =~= redis_row_finding(rw[0], rw[1]).commands);
                let ghost before = anomaly_views(out@);
                push_finding(&mut out, f);
                assert(before.push(f@) =~= head + redis_rows_spec(rv.take(i + 1)));
            }
        }
        if !bad {
            assert(redis_rows_spec(rv.take(i + 1)) =~= redis_rows_spec(rv.take(i as int)));
        }
        i = i + 1;
    }
    assert(rv.take(i as int) =~= rv);
    out
}

pub open spec fn es_health_finding(state: Seq<char>, unassigned: Seq<char>) -> AnomalyView {
    av(
        "middleware.elasticsearch.cluster_health"@,
        if state == "red"@ {
            "error"@
        } else {
            "warn"@
        },
        "中间件"@,
        "Elasticsearch 集群健康异常"@,
        "cluster"@,
        "集群状态: "@ + state,
        seq!["集群状态: "@ + state, "未分配分片: "@ + unassigned],
        "优先处理 red/yellow、未分配分片和磁盘水位，再观察 shard recovery。"@,
        seq!["curl -s localhost:9200/_cluster/health?pretty"@, "curl -s localhost:9200/_cat/shards?v"@],
    )
}

/// A cluster that is yellow, red or unknown is a finding (an error when red); the
/// unassigned shards label is shown as `-` when absent.
pub open spec fn es_findings_spec(state: Seq<char>, unassigned: Option<Seq<char>>) -> Seq<AnomalyView> {
    one_if(
        state == "yellow"@ || state == "red"@ || state == "unknown"@,
        es_health_finding(
            state,
            match unassigned {
                Some(u) => u,
                None => "-"@,
            },
        ),
    )
}

pub fn es_findings(state: &str, unassigned: Option<&str>) -> (r: Vec<AnomalyFinding>)
    ensures
        anomaly_views(r@) == es_findings_spec(state@, opt_str_view(unassigned)),
{
    let sc = chars_of(state);
    let s = sc.as_slice();
    let mut out: Vec<AnomalyFinding> = Vec::new();
    if eq_str(s, "yellow") || eq_str(s, "red") || eq_str(s, "unknown") {
        let u = match unassigned {
            Some(u) => u,
            None => "-",
        };
        let level = if eq_str(s, "red") {
            "error"
        } else {
            "warn"
        };
        let f = finding(
            "middleware.elasticsearch.cluster_health".to_owned(),
            level,
            "中间件",
            "Elasticsearch 集群健康异常".to_owned(),
            "cluster".to_owned(),
            cat2("集群状态: ", state),
            vec![cat2("集群状态: ", state), cat2("未分配分片: ", u)],
            "优先处理 red/yellow、未分配分片和磁盘水位，再观察 shard recovery。",
            vec![
                "curl -s localhost:9200/_cluster/health?pretty".to_owned(),
                "curl -s localhost:9200/_cat/shards?v".to_owned(),
            ],
        );
        let ghost want = es_health_finding(
            state@,
            match opt_str_view(unassigned) {
                Some(u) => u,
                None => "-"@,
            },
        );
        assert(f@.evidence =~= want.evidence);
        assert(f@.commands =~= want.commands);
        push_finding(&mut out, f);
    }
    assert(anomaly_views(out@) =~= es_findings_spec(state@, opt_str_view(unassigned)));
    out
}

pub open spec fn keepalived_finding(running: Seq<char>) -> AnomalyView {
    av(
        "middleware.keepalived.not_running"@,
        "warn"@,
        "中间件"@,
        "Keepalived 未运行"@,
        "keepalived"@,
        "未发现 Keepalived 进程，VIP 漂移能力可能失效"@,
        seq!["运行状态: "@ + running],
        "确认该节点是否应参与 VRRP；若应参与，检查配置、网卡、VRID 和日志。"@,
        seq!["systemctl status keepalived"@, "ip addr show"@, "journalctl -u keepalived -n 100 --no-pager"@],
    )
}

/// A Keepalived that is not running is a warning.
pub open spec fn keepalived_findings_spec(running: Seq<char>) -> Seq<AnomalyView> {
    one_if(contains_spec(running, "未发现"@), keepalived_finding(running))
}

pub fn keepalived_findings(running: &str) -> (r: Vec<AnomalyFinding>)
    ensures
        anomaly_views(r@) == keepalived_findings_spec(running@),
{
    let rc = chars_of(running);
    let mut out: Vec<AnomalyFinding> = Vec::new();
    if contains_str(rc.as_slice(), "未发现") {
        let f = finding(
            "middleware.keepalived.not_running".to_owned(),
            "warn",
            "中间件",
            "Keepalived 未运行".to_owned(),
            "keepalived".to_owned(),
            "未发现 Keepalived 进程，VIP 漂移能力可能失效".to_owned(),
            vec![cat2("运行状态: ", running)],
            "确认该节点是否应参与 VRRP；若应参与，检查配置、网卡、VRID 和日志。",
            vec![
                "systemctl status keepalived".to_owned(),
                "ip addr show".to_owned(),
                "journalctl -u keepalived -n 100 --no-pager".to_owned(),
            ],
        );
        assert(f@.evidence =~= keepalived_finding(running@).evidence);
        assert(f@.commands =~= keepalived_finding(running@).commands);
        push_finding(&mut out, f);
    }
    assert(anomaly_views(out@) =~= one_if(contains_spec(running@, "未发现"@), keepalived_finding(running@)));
    out
}

pub open spec fn kafka_finding(running: Seq<char>) -> AnomalyView {
    av(
        "middleware.kafka.not_running"@,
        "warn"@,
        "中间件"@,
        "Kafka 未运行"@,
        "kafka"@,
        "未发现 Kafka broker 进程或常见监听端口"@,
        seq!["运行状态: "@ + running],
        "确认该机器是否应承载 Kafka；若应运行，检查 systemd、server.properties、磁盘和 broker 日志。"@,
        seq!["systemctl status kafka"@, "ss -ltnp | grep -E ':9092|:9093'"@],
    )
}

/// A Kafka that is not running or not installed is a warning.
pub open spec fn kafka_findings_spec(running: Seq<char>) -> Seq<AnomalyView> {
    one_if(contains_spec(running, "未发现"@) || contains_spec(running, "未安装"@), kafka_finding(running))
}

pub fn kafka_findings(running: &str) -> (r: Vec<AnomalyFinding>)
    ensures
        anomaly_views(r@) == kafka_findings_spec(running@),
{
    let rc = chars_of(running);
    let mut out: Vec<AnomalyFinding> = Vec::new();
    if contains_str(rc.as_slice(), "未发现") || contains_str(rc.as_slice(), "未安装") {
        let f = finding(
            "middleware.kafka.not_running".to_owned(),
            "warn",
            "中间件",
            "Kafka 未运行".to_owned(),
            "kafka".to_owned(),
            "未发现 Kafka broker 进程或常见监听端口".to_owned(),
            vec![cat2("运行状态: ", running)],
            "确认该机器是否应承载 Kafka；若应运行，检查 systemd、server.properties、磁盘和 broker 日志。",
            vec!["systemctl status kafka".to_owned(), "ss -ltnp | grep -E ':9092|:9093'".to_owned()],
        );
        assert(f@.evidence =~= kafka_finding(running@).evidence);
        assert(f@.commands =~= kafka_finding(running@).commands);
        push_finding(&mut out, f);
    }
    assert(anomaly_views(out@) =~= one_if(
        contains_spec(running@, "未发现"@) || contains_spec(running@, "未安装"@),
        kafka_finding(running@),
    ));
    out
}


// ---------------------------------------------------------------------------
// Items of any check
// ---------------------------------------------------------------------------

/// The finding for a label item whose status is `warn` or `error`.
pub open spec fn label_finding_spec(
    check_id: Seq<char>,
    section: Seq<char>,
    key: Seq<char>,
    value: Seq<char>,
    status: Seq<char>,
) -> AnomalyView {
    av(
        "check."@ + check_id + "."@ + section + "."@ + key,
        status,
        section,
        key + " 状态"@ + (if status == "error"@ {
            "异常"@
        } else {
            "警告"@
        }),
        key,
        key + ": "@ + value,
        seq!["检查项: "@ + key, "当前值: "@ + value, "来源模块: "@ + section],
        default_suggestion_spec(check_id, section, key, status),
        default_commands_spec(check_id, key),
    )
}

fn dotted(check_id: &str, section: &str, last: &str) -> (r: String)
    ensures
        r@ == "check."@ + check_id@ + "."@ + section@ + "."@ + last@,
{
    let mut out: Vec<char> = Vec::new();
    push_str(&mut out, "check.");
    push_str(&mut out, check_id);
    push_str(&mut out, ".");
    push_str(&mut out, section);
    push_str(&mut out, ".");
    push_str(&mut out, last);
    string_of(out.as_slice())
}

pub fn label_finding(check_id: &str, section: &str, key: &str, value: &str, status: &str) -> (f: AnomalyFinding)
    ensures
        f@ == label_finding_spec(check_id@, section@, key@, value@, status@),
{
    let sc = chars_of(status);
    let word = if eq_str(sc.as_slice(), "error") {
        "异常"
    } else {
        "警告"
    };
    let f = finding(
        dotted(check_id, section, key),
        status,
        section,
        cat3(key, " 状态", word),
        key.to_owned(),
        cat3(key, ": ", value),
        vec![cat2("检查项: ", key), cat2("当前值: ", value), cat2("来源模块: ", section)],
        default_suggestion(check_id, section, key, status).as_str(),
        default_commands(check_id, key),
    );
    assert(f@.evidence =~= label_finding_spec(check_id@, section@, key@, value@, status@).evidence);
    f
}

/// The finding for a warning or error message item of a section.
pub open spec fn message_finding_spec(check_id: Seq<char>, section: Seq<char>, text: Seq<char>, is_error: bool) -> AnomalyView {
    let status = if is_error {
        "error"@
    } else {
        "warn"@
    };
    av(
        "check."@ + check_id + "."@ + section + "."@ + "message"@,
        status,
        section,
        if is_error {
            "检查返回异常"@
        } else {
            "检查返回警告"@
        },
        section,
        text,
        seq![text, "来源模块: "@ + section],
        default_suggestion_spec(check_id, section, section, status),
        default_commands_spec(check_id, section),
    )
}

pub fn message_finding(check_id: &str, section: &str, text: &str, is_error: bool) -> (f: AnomalyFinding)
    ensures
        f@ == message_finding_spec(check_id@, section@, text@, is_error),
{
    let status = if is_error {
        "error"
    } else {
        "warn"
    };
    let title = if is_error {
        "检查返回异常"
    } else {
        "检查返回警告"
    };
    let f = finding(
        dotted(check_id, section, "message"),
        status,
        section,
        title.to_owned(),
        section.to_owned(),
        text.to_owned(),
        vec![text.to_owned(), cat2("来源模块: ", section)],
        default_suggestion(check_id, section, section, status).as_str(),
        default_commands(check_id, section),
    );
    assert(f@.evidence =~= message_finding_spec(check_id@, section@, text@, is_error).evidence);
    f
}

/// The status of a check once its findings are known: `Error` when a finding is an
/// error, else `Warn` when one is a warning, else as it was.
pub open spec fn escalated_spec(levels: Seq<Seq<char>>, current: CheckStatus) -> CheckStatus {
    if levels.contains("error"@) {
        CheckStatus::Error
    } else if levels.contains("warn"@) {
        CheckStatus::Warn
    } else {
        current
    }
}

pub fn escalated_status(levels: &Vec<String>, current: CheckStatus) -> (r: CheckStatus)
    ensures
        r == escalated_spec(string_views(levels@), current),
{
    let ghost lv = string_views(levels@);
    let mut has_error = false;
    let mut has_warn = false;
    let mut i: usize = 0;
    while i < levels.len()
        invariant
            i <= levels@.len(),
            lv == string_views(levels@),
            has_error <==> lv.take(i as int).contains("error"@),
            has_warn <==> lv.take(i as int).contains("warn"@),
        decreases levels.len() - i,
    {
        let c = chars_of(levels[i].as_str());
        assert(lv[i as int] == levels@[i as int]@);
        proof {
            lemma_take_contains(lv, i as int);
        }
        if eq_str(c.as_slice(), "error") {
            has_error = true;
        }
        if eq_str(c.as_slice(), "warn") {
            has_warn = true;
        }
        i = i + 1;
    }
    assert(lv.take(i as int) =~= lv);
    if has_error {
        CheckStatus::Error
    } else if has_warn {
        CheckStatus::Warn
    } else {
        current
    }
}


// ---------------------------------------------------------------------------
// Laws
// ---------------------------------------------------------------------------

proof fn lemma_redis_row_reported(rows: Seq<Seq<Seq<char>>>, k: int)
    requires
        0 <= k < rows.len(),
        rows[k].len() >= 2,
        redis_row_bad(rows[k][0], rows[k][1]),
    ensures
        redis_rows_spec(rows).contains(redis_row_finding(rows[k][0], rows[k][1])),
    decreases rows.len(),
{
    let prev = redis_rows_spec(rows.drop_last());
    let row = rows.last();
    let tail = one_if(row.len() >= 2 && redis_row_bad(row[0], row[1]), redis_row_finding(row[0], row[1]));
    let x = redis_row_finding(rows[k][0], rows[k][1]);
    assert(redis_rows_spec(rows) == prev + tail);
    if k == rows.len() - 1 {
        assert((prev + tail)[prev.len() as int] == x);
    } else {
        assert(rows.drop_last()[k] == rows[k]);
        lemma_redis_row_reported(rows.drop_last(), k);
        let j = choose|j: int| 0 <= j < prev.len() && prev[j] == x;
        assert((prev + tail)[j] == x);
    }
}

/// Every Redis status row that needs a look gives a warning named after its key and
/// summarised as `key = value`: blocked clients above 0, or a background save or
/// append-only write whose last status is neither `ok` nor `-`.
pub proof fn law_bad_redis_rows_are_reported(
    ping: Seq<char>,
    address: Option<Seq<char>>,
    rows: Seq<Seq<Seq<char>>>,
    k: int,
)
    requires
        0 <= k < rows.len(),
        rows[k].len() >= 2,
        (rows[k][0] == "blocked_clients"@ && match parse_unsigned_spec(rows[k][1], 10, u64::MAX as nat) {
            Some(n) => n > 0,
            None => false,
        }) || ((rows[k][0] == "rdb_last_bgsave_status"@ || rows[k][0] == "aof_last_write_status"@) && rows[k][1]
            != "ok"@ && rows[k][1] != "-"@),
    ensures
        exists|j: int|
            0 <= j < redis_findings_spec(ping, address, rows).len() && {
                let f = #[trigger] redis_findings_spec(ping, address, rows)[j];
                &&& f.rule_id == "middleware.redis."@ + rows[k][0]
                &&& f.level == "warn"@
                &&& f.summary == rows[k][0] + " = "@ + rows[k][1]
            },
{
    lemma_redis_row_reported(rows, k);
    let head = one_if(
        contains_spec(ping, "无响应"@),
        redis_ping_failed(
            ping,
            match address {
                Some(a) => a,
                None => "redis"@,
            },
        ),
    );
    let body = redis_rows_spec(rows);
    let x = redis_row_finding(rows[k][0], rows[k][1]);
    let j = choose|j: int| 0 <= j < body.len() && body[j] == x;
    assert(redis_findings_spec(ping, address, rows) == head + body);
    assert((head + body)[head.len() + j] == x);
}


/// An Nginx finding is raised for each of two things, in this order: no Nginx
/// process found (the running state mentions `未发现`), a warning on `nginx`; and a
/// configuration test that did not pass (its output is not empty and mentions none
/// of `successful`, `ok`, `未安装`), an error on `nginx.conf` whose first command
/// is `nginx -t`.
pub proof fn law_nginx_findings(running: Seq<char>, config_test: Seq<char>)
    ensures
        ({
            let out = nginx_findings_spec(running, config_test);
            let down = contains_spec(running, "未发现"@);
            let failed = config_test.len() > 0 && !contains_spec(config_test, "successful"@) && !contains_spec(
                config_test,
                "ok"@,
            ) && !contains_spec(config_test, "未安装"@);
            &&& out.len() == (if down { 1int } else { 0int }) + (if failed { 1int } else { 0int })
            &&& down ==> out[0].rule_id == "middleware.nginx.not_running"@ && out[0].level == "warn"@
                && out[0].target == "nginx"@
            &&& failed ==> out[out.len() - 1].rule_id == "middleware.nginx.config_invalid"@ && out[out.len()
                - 1].level == "error"@ && out[out.len() - 1].target == "nginx.conf"@ && out[out.len()
                - 1].commands[0] == "nginx -t"@
        }),
{
}

/// A cluster whose state is `yellow`, `red` or `unknown` gives exactly one finding
/// (an error when red, else a warning) that names the state and the unassigned
/// shards (`-` when not known); any other state gives none.
pub proof fn law_es_findings(state: Seq<char>, unassigned: Option<Seq<char>>)
    ensures
        ({
            let out = es_findings_spec(state, unassigned);
            let bad = state == "yellow"@ || state == "red"@ || state == "unknown"@;
            &&& out.len() == if bad { 1int } else { 0int }
            &&& bad ==> out[0].rule_id == "middleware.elasticsearch.cluster_health"@ && out[0].level == (if state
                == "red"@ {
                "error"@
            } else {
                "warn"@
            }) && out[0].summary == "集群状态: "@ + state && out[0].evidence[1] == "未分配分片: "@ + (match unassigned {
                Some(u) => u,
                None => "-"@,
            })
        }),
{
}

/// Keepalived gives one warning, `middleware.keepalived.not_running`, exactly when
/// its running state mentions `未发现`.
pub proof fn law_keepalived_findings(running: Seq<char>)
    ensures
        keepalived_findings_spec(running).len() == if contains_spec(running, "未发现"@) {
            1int
        } else {
            0int
        },
        contains_spec(running, "未发现"@) ==> keepalived_findings_spec(running)[0].rule_id
            == "middleware.keepalived.not_running"@ && keepalived_findings_spec(running)[0].level == "warn"@,
{
}

/// Kafka gives one warning, `middleware.kafka.not_running`, exactly when its
/// running state mentions `未发现` or `未安装`.
pub proof fn law_kafka_findings(running: Seq<char>)
    ensures
        kafka_findings_spec(running).len() == if contains_spec(running, "未发现"@) || contains_spec(running, "未安装"@) {
            1int
        } else {
            0int
        },
        contains_spec(running, "未发现"@) || contains_spec(running, "未安装"@) ==> kafka_findings_spec(running)[0].rule_id
            == "middleware.kafka.not_running"@ && kafka_findings_spec(running)[0].level == "warn"@,
{
}

proof fn lemma_service_row_reported(rows: Seq<Seq<Seq<char>>>, k: int, x: AnomalyView)
    requires
        0 <= k < rows.len(),
        service_row_findings(rows[k]).contains(x),
    ensures
        service_findings_spec(rows).contains(x),
    decreases rows.len(),
{
    let prev = service_findings_spec(rows.drop_last());
    let tail = service_row_findings(rows.last());
    assert(service_findings_spec(rows) == prev + tail);
    if k == rows.len() - 1 {
        let j = choose|j: int| 0 <= j < tail.len() && tail[j] == x;
        assert((prev + tail)[prev.len() + j] == x);
    } else {
        assert(rows.drop_last()[k] == rows[k]);
        lemma_service_row_reported(rows.drop_last(), k, x);
        let j = choose|j: int| 0 <= j < prev.len() && prev[j] == x;
        assert((prev + tail)[j] == x);
    }
}

/// A full row of the service list (twelve columns or more, each read trimmed) gives
/// an error on its systemd state when the state (column 11) is neither active
/// (`/active/`), `process-only` nor `unknown`, and an error on its logs when the log
/// summary (column 12) is neither empty nor `-`; both are named after the service
/// (column 3).
pub proof fn law_service_rows_are_reported(rows: Seq<Seq<Seq<char>>>, k: int)
    requires
        0 <= k < rows.len(),
        rows[k].len() >= 12,
    ensures
        ({
            let row = rows[k];
            let unit = trim_spec(row[10]);
            !contains_spec(unit, "/active/"@) && unit != "process-only"@ && unit != "unknown"@ ==> exists|j: int|
                0 <= j < service_findings_spec(rows).len() && (#[trigger] service_findings_spec(rows)[j]).rule_id
                    == "service.systemctl.state."@ + trim_spec(row[2]) && service_findings_spec(rows)[j].level
                    == "error"@ && service_findings_spec(rows)[j].summary == "systemctl 状态为 "@ + unit
        }),
        ({
            let row = rows[k];
            let log = trim_spec(row[11]);
            log.len() > 0 && log != "-"@ ==> exists|j: int|
                0 <= j < service_findings_spec(rows).len() && (#[trigger] service_findings_spec(rows)[j]).rule_id
                    == "service.systemctl.log_anomaly."@ + trim_spec(row[2]) && service_findings_spec(rows)[j].level
                    == "error"@
        }),
{
    let row = rows[k];
    let fs = service_row_findings(row);
    let out = service_findings_spec(rows);
    if unit_state_bad(row) {
        assert(fs[0] == unit_state_finding(row));
        lemma_service_row_reported(rows, k, unit_state_finding(row));
        let j = choose|j: int| 0 <= j < out.len() && out[j] == unit_state_finding(row);
        assert(out[j].rule_id == "service.systemctl.state."@ + trim_spec(row[2]));
    }
    if log_bad(row) {
        assert(fs[fs.len() - 1] == log_finding(row));
        lemma_service_row_reported(rows, k, log_finding(row));
        let j = choose|j: int| 0 <= j < out.len() && out[j] == log_finding(row);
        assert(out[j].rule_id == "service.systemctl.log_anomaly."@ + trim_spec(row[2]));
    }
}

} // verus!
