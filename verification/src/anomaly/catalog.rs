//! The built-in rule catalogue: every rule the engine knows, with its category,
//! level, condition, threshold, description, the signals it reads and the commands
//! it suggests.
use vstd::prelude::*;

verus! {

/// One built-in rule.
pub struct RuleDef {
    pub id: &'static str,
    pub category: &'static str,
    pub level: &'static str,
    pub title: &'static str,
    pub target: &'static str,
    pub condition: &'static str,
    pub threshold: &'static str,
    pub description: &'static str,
    pub signals: Vec<&'static str>,
    pub commands: Vec<&'static str>,
    /// Whether the rule is in force; every built-in rule is.
    pub enabled: bool,
    /// Where the rule comes from: `builtin` for the catalogue's own rules.
    pub source: &'static str,
}

/// Every rule is in force and comes from the built-in catalogue.
pub open spec fn all_builtin(v: Seq<RuleDef>) -> bool {
    forall|i: int| 0 <= i < v.len() ==> (#[trigger] v[i]).enabled && v[i].source@ == "builtin"@
}

/// A rule as text.
pub struct RuleText {
    pub id: Seq<char>,
    pub category: Seq<char>,
    pub level: Seq<char>,
    pub title: Seq<char>,
    pub target: Seq<char>,
    pub condition: Seq<char>,
    pub threshold: Seq<char>,
    pub description: Seq<char>,
    pub signals: Seq<Seq<char>>,
    pub commands: Seq<Seq<char>>,
}

pub open spec fn texts(v: Seq<&str>) -> Seq<Seq<char>> {
    v.map_values(|s: &str| s@)
}

pub open spec fn rule_text(r: RuleDef) -> RuleText {
    RuleText {
        id: r.id@,
        category: r.category@,
        level: r.level@,
        title: r.title@,
        target: r.target@,
        condition: r.condition@,
        threshold: r.threshold@,
        description: r.description@,
        signals: texts(r.signals@),
        commands: texts(r.commands@),
    }
}

pub open spec fn rule_texts(v: Seq<RuleDef>) -> Seq<RuleText> {
    v.map_values(|r: RuleDef| rule_text(r))
}

fn rule(
    id: &'static str,
    category: &'static str,
    level: &'static str,
    title: &'static str,
    target: &'static str,
    condition: &'static str,
    threshold: &'static str,
    description: &'static str,
    signals: Vec<&'static str>,
    commands: Vec<&'static str>,
) -> (r: RuleDef)
    ensures
        r == (RuleDef {
            id,
            category,
            level,
            title,
            target,
            condition,
            threshold,
            description,
            signals,
            commands,
            enabled: true,
            source: "builtin",
        }),
{
    RuleDef {
        id,
        category,
        level,
        title,
        target,
        condition,
        threshold,
        description,
        signals,
        commands,
        enabled: true,
        source: "builtin",
    }
}

pub open spec fn rule_table_0() -> Seq<RuleText> {
    seq![
        RuleText {
            id: "resource.cpu.critical"@,
            category: "资源水位"@,
            level: "error"@,
            title: "CPU 使用率严重过高"@,
            target: "system.cpu"@,
            condition: "CPU >= 90%"@,
            threshold: "90"@,
            description: "系统 CPU 长时间处于高风险区间，可能导致业务响应抖动或超时。"@,
            signals: seq!["system_info.cpu_usage"@, "top_processes.cpu_usage"@],
            commands: seq!["top -o %CPU"@, "ps -eo pid,ppid,comm,%cpu,%mem --sort=-%cpu | head -20"@],
        },
        RuleText {
            id: "resource.cpu.warning"@,
            category: "资源水位"@,
            level: "warn"@,
            title: "CPU 使用率偏高"@,
            target: "system.cpu"@,
            condition: "CPU >= 80%"@,
            threshold: "80"@,
            description: "CPU 使用率偏高，需要结合负载趋势和进程分布判断是否持续异常。"@,
            signals: seq!["system_info.cpu_usage"@],
            commands: seq!["vmstat 1 10"@, "pidstat 1 5"@],
        },
        RuleText {
            id: "resource.memory.critical"@,
            category: "资源水位"@,
            level: "error"@,
            title: "内存使用率严重过高"@,
            target: "system.memory"@,
            condition: "内存 >= 90%"@,
            threshold: "90"@,
            description: "物理内存进入危险区间，可能触发 OOM、频繁回收或业务进程退出。"@,
            signals: seq!["system_info.memory_usage"@, "swap_usage"@, "top_processes.memory_bytes"@],
            commands: seq!["free -h"@, "ps -eo pid,comm,rss,%mem --sort=-rss | head -20"@, "journalctl -k -p warning --since '2 hours ago' | grep -i oom"@],
        },
        RuleText {
            id: "resource.memory.warning"@,
            category: "资源水位"@,
            level: "warn"@,
            title: "内存使用率偏高"@,
            target: "system.memory"@,
            condition: "内存 >= 80%"@,
            threshold: "80"@,
            description: "内存占用偏高，需要区分缓存增长、业务峰值和泄漏趋势。"@,
            signals: seq!["system_info.memory_usage"@],
            commands: seq!["free -h"@, "ps -eo pid,comm,rss,%mem --sort=-rss | head -20"@],
        },
        RuleText {
            id: "resource.swap.warning"@,
            category: "资源水位"@,
            level: "warn"@,
            title: "Swap 使用偏高"@,
            target: "system.swap"@,
            condition: "Swap 使用率 >= 30%"@,
            threshold: "30"@,
            description: "Swap 持续使用会显著影响响应，通常说明内存压力或进程异常增长。"@,
            signals: seq!["system_info.swap_usage"@],
            commands: seq!["free -h"@, "vmstat 1 10"@],
        },
        RuleText {
            id: "resource.disk.critical"@,
            category: "资源水位"@,
            level: "error"@,
            title: "磁盘使用率严重过高"@,
            target: "system.disk"@,
            condition: "磁盘 >= 90%"@,
            threshold: "90"@,
            description: "整体磁盘空间不足会导致写入失败、日志丢失和服务异常。"@,
            signals: seq!["system_info.disk_usage"@, "disk_total"@, "disk_used"@],
            commands: seq!["df -h"@, "du -xh /var/log 2>/dev/null | sort -h | tail -20"@],
        },
        RuleText {
            id: "resource.disk.warning"@,
            category: "资源水位"@,
            level: "warn"@,
            title: "磁盘使用率偏高"@,
            target: "system.disk"@,
            condition: "磁盘 >= 80%"@,
            threshold: "80"@,
            description: "磁盘空间接近高水位，应提前定位增长目录和清理策略。"@,
            signals: seq!["system_info.disk_usage"@],
            commands: seq!["df -h"@, "du -xh / 2>/dev/null | sort -h | tail -20"@],
        },
        RuleText {
            id: "resource.load.critical"@,
            category: "资源水位"@,
            level: "error"@,
            title: "系统负载严重过高"@,
            target: "system.loadavg"@,
            condition: "1 分钟负载 / CPU 核心数 >= 2"@,
            threshold: "2"@,
            description: "负载显著超过 CPU 核心数，需要区分 CPU 饱和、IO 等待和不可中断进程。"@,
            signals: seq!["load_avg.one"@, "cpu_count"@],
            commands: seq!["uptime"@, "vmstat 1 10"@, "ps -eo stat,pid,comm,%cpu,%mem --sort=-%cpu | head -20"@],
        },
    ]
}

pub open spec fn rule_table_1() -> Seq<RuleText> {
    seq![
        RuleText {
            id: "resource.load.warning"@,
            category: "资源水位"@,
            level: "warn"@,
            title: "系统负载偏高"@,
            target: "system.loadavg"@,
            condition: "1 分钟负载 / CPU 核心数 >= 1"@,
            threshold: "1"@,
            description: "短期负载超过核心数，需要观察 5/15 分钟趋势判断持续性。"@,
            signals: seq!["load_avg.one"@, "load_avg.five"@, "load_avg.fifteen"@],
            commands: seq!["uptime"@, "vmstat 1 5"@],
        },
        RuleText {
            id: "resource.mount.critical"@,
            category: "磁盘分区"@,
            level: "error"@,
            title: "分区空间严重不足"@,
            target: "mount"@,
            condition: "分区使用率 >= 90%"@,
            threshold: "90"@,
            description: "单个关键挂载点空间不足会直接影响对应数据目录、日志目录或备份目录。"@,
            signals: seq!["disk.mount_point"@, "disk.usage"@, "disk.fs_type"@],
            commands: seq!["df -h <mount>"@, "du -xh <mount> 2>/dev/null | sort -h | tail -20"@],
        },
        RuleText {
            id: "resource.mount.warning"@,
            category: "磁盘分区"@,
            level: "warn"@,
            title: "分区空间偏高"@,
            target: "mount"@,
            condition: "分区使用率 >= 80%"@,
            threshold: "80"@,
            description: "单个挂载点达到预警水位，需要检查增长来源并提前扩容或清理。"@,
            signals: seq!["disk.mount_point"@, "disk.usage"@],
            commands: seq!["df -h <mount>"@],
        },
        RuleText {
            id: "resource.inode.warning"@,
            category: "磁盘分区"@,
            level: "warn"@,
            title: "inode 使用率偏高"@,
            target: "mount.inode"@,
            condition: "inode 使用率 >= 80%"@,
            threshold: "80"@,
            description: "大量小文件可能耗尽 inode，即使磁盘容量未满也会造成写入失败。"@,
            signals: seq!["df -i"@, "mount_point"@],
            commands: seq!["df -i"@, "find <mount> -xdev -type f | cut -d/ -f2 | sort | uniq -c | sort -n | tail"@],
        },
        RuleText {
            id: "process.cpu.warning"@,
            category: "进程异常"@,
            level: "warn"@,
            title: "进程 CPU 占用过高"@,
            target: "process"@,
            condition: "进程 CPU >= 85%"@,
            threshold: "85"@,
            description: "单进程 CPU 异常通常来自热点请求、死循环、GC 抖动或批处理任务。"@,
            signals: seq!["top_processes.cpu_usage"@, "process.pid"@],
            commands: seq!["ps -p <pid> -o pid,ppid,comm,%cpu,%mem,etime,args"@, "top -Hp <pid>"@],
        },
        RuleText {
            id: "process.memory.warning"@,
            category: "进程异常"@,
            level: "warn"@,
            title: "进程内存占用过高"@,
            target: "process"@,
            condition: "单进程 RSS 占系统内存 >= 25%"@,
            threshold: "25"@,
            description: "单进程内存过高需要确认是否为缓存、堆增长、连接堆积或泄漏。"@,
            signals: seq!["top_processes.memory_bytes"@, "memory_total"@],
            commands: seq!["ps -p <pid> -o pid,ppid,comm,rss,%mem,etime,args"@, "pmap -x <pid> | tail -20"@],
        },
        RuleText {
            id: "process.zombie.warning"@,
            category: "进程异常"@,
            level: "warn"@,
            title: "僵尸进程数量异常"@,
            target: "process.stat"@,
            condition: "Z 状态进程数量 >= 1"@,
            threshold: "1"@,
            description: "僵尸进程说明父进程未正确回收子进程，长期累积会影响进程管理。"@,
            signals: seq!["ps stat=Z"@],
            commands: seq!["ps -eo stat,pid,ppid,comm,args | awk '$1 ~ /Z/'"@],
        },
        RuleText {
            id: "process.fd.warning"@,
            category: "进程异常"@,
            level: "warn"@,
            title: "进程文件句柄接近上限"@,
            target: "process.fd"@,
            condition: "打开 FD / limit >= 80%"@,
            threshold: "80"@,
            description: "文件句柄耗尽会导致网络连接、日志写入或文件打开失败。"@,
            signals: seq!["/proc/<pid>/fd"@, "limits"@],
            commands: seq!["ls /proc/<pid>/fd | wc -l"@, "cat /proc/<pid>/limits"@],
        },
    ]
}

pub open spec fn rule_table_2() -> Seq<RuleText> {
    seq![
        RuleText {
            id: "service.failed.error"@,
            category: "服务管理"@,
            level: "error"@,
            title: "systemd 服务失败"@,
            target: "systemd.service"@,
            condition: "服务处于 failed 状态"@,
            threshold: ""@,
            description: "核心服务进入 failed 状态，需要读取 unit 状态、最近日志和依赖关系后再处理。"@,
            signals: seq!["systemctl list-units --state=failed"@],
            commands: seq!["systemctl status <service> --no-pager"@, "journalctl -u <service> -n 120 --no-pager"@],
        },
        RuleText {
            id: "service.restart.warning"@,
            category: "服务管理"@,
            level: "warn"@,
            title: "服务近期频繁重启"@,
            target: "systemd.service"@,
            condition: "短时间重启次数 >= 3"@,
            threshold: "3"@,
            description: "频繁重启通常代表配置错误、依赖不可用、端口冲突或业务启动异常。"@,
            signals: seq!["systemctl show NRestarts"@, "journalctl"@],
            commands: seq!["systemctl show <service> -p NRestarts"@, "journalctl -u <service> --since '2 hours ago'"@],
        },
        RuleText {
            id: "service.port.error"@,
            category: "服务管理"@,
            level: "error"@,
            title: "服务监听端口缺失"@,
            target: "service.port"@,
            condition: "期望监听端口未出现"@,
            threshold: ""@,
            description: "服务进程存在但端口未监听，常见于启动半成功、配置加载失败或端口被占用。"@,
            signals: seq!["ss -ltnp"@, "service config"@],
            commands: seq!["ss -ltnp"@, "systemctl status <service> --no-pager"@],
        },
        RuleText {
            id: "service.permission.error"@,
            category: "服务管理"@,
            level: "error"@,
            title: "服务权限或用户异常"@,
            target: "service.user"@,
            condition: "运行用户不存在或目录无权限"@,
            threshold: ""@,
            description: "权限异常会导致服务无法读取配置、写日志或访问数据目录。"@,
            signals: seq!["systemd user"@, "path permissions"@],
            commands: seq!["id <user>"@, "namei -l <path>"@],
        },
        RuleText {
            id: "log.error.burst"@,
            category: "日志异常"@,
            level: "warn"@,
            title: "日志异常关键字突增"@,
            target: "log"@,
            condition: "最近日志 error/failed/panic/oom >= 5"@,
            threshold: "5"@,
            description: "日志异常突增需要结合故障时间点查看上下文，避免只看最后一行。"@,
            signals: seq!["tail -n 100"@, "keyword count"@],
            commands: seq!["tail -n 200 <log>"@, "grep -Ei 'error|critical|panic|failed|oom' <log> | tail -50"@],
        },
        RuleText {
            id: "log.oom.error"@,
            category: "日志异常"@,
            level: "error"@,
            title: "系统出现 OOM 记录"@,
            target: "kernel.log"@,
            condition: "kernel/journal 出现 OOM kill"@,
            threshold: ""@,
            description: "OOM 表示内存已经影响进程存活，需要定位被杀进程和内存增长来源。"@,
            signals: seq!["journalctl -k"@, "dmesg"@],
            commands: seq!["journalctl -k --since '2 hours ago' | grep -i oom"@, "dmesg -T | grep -i oom | tail -20"@],
        },
        RuleText {
            id: "log.auth.warning"@,
            category: "日志异常"@,
            level: "warn"@,
            title: "认证失败异常增多"@,
            target: "auth.log"@,
            condition: "认证失败/拒绝次数 >= 10"@,
            threshold: "10"@,
            description: "认证失败异常可能来自密码错误、暴力尝试、权限配置或自动化任务异常。"@,
            signals: seq!["/var/log/auth.log"@, "journal sshd"@],
            commands: seq!["grep -Ei 'failed|denied|invalid' /var/log/auth.log | tail -50"@, "journalctl -u sshd --since '2 hours ago'"@],
        },
        RuleText {
            id: "log.permission.warning"@,
            category: "日志异常"@,
            level: "warn"@,
            title: "权限拒绝异常"@,
            target: "log"@,
            condition: "日志出现 permission denied/access denied"@,
            threshold: ""@,
            description: "权限拒绝需要定位访问主体、目标路径和最近权限变更。"@,
            signals: seq!["application logs"@, "journalctl"@],
            commands: seq!["grep -R \"permission denied\\|access denied\" /var/log 2>/dev/null | tail -50"@],
        },
    ]
}

pub open spec fn rule_table_3() -> Seq<RuleText> {
    seq![
        RuleText {
            id: "database.mysql.down.error"@,
            category: "数据库"@,
            level: "error"@,
            title: "MySQL 服务不可用"@,
            target: "mysql"@,
            condition: "连接失败或服务未运行"@,
            threshold: ""@,
            description: "MySQL 不可用会直接影响依赖业务，需要先区分进程、端口、认证和存储问题。"@,
            signals: seq!["mysqladmin ping"@, "systemctl mysql"@],
            commands: seq!["mysqladmin ping"@, "systemctl status mysql mysqld --no-pager"@],
        },
        RuleText {
            id: "database.mysql.replication.error"@,
            category: "数据库"@,
            level: "error"@,
            title: "MySQL 主从复制异常"@,
            target: "mysql.replication"@,
            condition: "Slave_IO_Running/Slave_SQL_Running != Yes"@,
            threshold: ""@,
            description: "复制异常会导致数据延迟或不一致，需要定位 IO、SQL 线程错误。"@,
            signals: seq!["SHOW SLAVE STATUS"@, "SHOW REPLICA STATUS"@],
            commands: seq!["mysql -e 'SHOW SLAVE STATUS\\G'"@, "mysql -e 'SHOW REPLICA STATUS\\G'"@],
        },
        RuleText {
            id: "database.mysql.slow.warning"@,
            category: "数据库"@,
            level: "warn"@,
            title: "MySQL 慢查询异常"@,
            target: "mysql.slowlog"@,
            condition: "慢查询数量或耗时异常"@,
            threshold: ""@,
            description: "慢查询可能造成连接堆积和接口超时，需要结合索引和执行计划处理。"@,
            signals: seq!["slow_query_log"@, "performance_schema"@],
            commands: seq!["mysql -e \"SHOW GLOBAL STATUS LIKE 'Slow_queries'\""@, "mysql -e 'SHOW PROCESSLIST'"@],
        },
        RuleText {
            id: "database.redis.down.error"@,
            category: "数据库"@,
            level: "error"@,
            title: "Redis 服务不可用"@,
            target: "redis"@,
            condition: "PING 失败或端口未监听"@,
            threshold: ""@,
            description: "Redis 不可用会影响缓存、队列或会话，需要区分进程、端口、密码和持久化错误。"@,
            signals: seq!["redis-cli PING"@, "ss -ltnp"@],
            commands: seq!["redis-cli ping"@, "systemctl status redis redis-server --no-pager"@],
        },
        RuleText {
            id: "database.redis.memory.warning"@,
            category: "数据库"@,
            level: "warn"@,
            title: "Redis 内存接近上限"@,
            target: "redis.memory"@,
            condition: "used_memory / maxmemory >= 80%"@,
            threshold: "80"@,
            description: "Redis 内存接近上限可能触发淘汰、写入失败或延迟升高。"@,
            signals: seq!["INFO memory"@, "maxmemory"@],
            commands: seq!["redis-cli info memory"@, "redis-cli config get maxmemory"@],
        },
        RuleText {
            id: "database.redis.aof.error"@,
            category: "数据库"@,
            level: "error"@,
            title: "Redis AOF 文件损坏"@,
            target: "redis.aof"@,
            condition: "日志出现 Bad file format/AOF corrupted"@,
            threshold: ""@,
            description: "AOF 损坏会导致 Redis 无法启动或数据恢复失败，需要备份后执行修复。"@,
            signals: seq!["redis log"@, "appendonly.aof"@],
            commands: seq!["redis-check-aof --fix appendonly.aof"@, "cp appendonly.aof appendonly.aof.bak"@],
        },
        RuleText {
            id: "middleware.elasticsearch.red.error"@,
            category: "中间件"@,
            level: "error"@,
            title: "Elasticsearch 集群 red"@,
            target: "elasticsearch.health"@,
            condition: "cluster status == red"@,
            threshold: ""@,
            description: "ES red 表示存在未分配主分片，数据读写可能不完整。"@,
            signals: seq!["_cluster/health"@, "_cat/shards"@],
            commands: seq!["curl -s localhost:9200/_cluster/health?pretty"@, "curl -s localhost:9200/_cat/shards?v"@],
        },
        RuleText {
            id: "middleware.elasticsearch.yellow.warning"@,
            category: "中间件"@,
            level: "warn"@,
            title: "Elasticsearch 集群 yellow"@,
            target: "elasticsearch.health"@,
            condition: "cluster status == yellow"@,
            threshold: ""@,
            description: "ES yellow 表示副本分片未分配，容灾能力下降。"@,
            signals: seq!["_cluster/health"@, "_cat/allocation"@],
            commands: seq!["curl -s localhost:9200/_cluster/health?pretty"@, "curl -s localhost:9200/_cat/allocation?v"@],
        },
    ]
}

pub open spec fn rule_table_4() -> Seq<RuleText> {
    seq![
        RuleText {
            id: "middleware.elasticsearch.disk.error"@,
            category: "中间件"@,
            level: "error"@,
            title: "ES 磁盘水位过高"@,
            target: "elasticsearch.disk"@,
            condition: "节点磁盘达到 flood stage"@,
            threshold: ""@,
            description: "ES 磁盘水位过高会导致索引只读或分片迁移失败。"@,
            signals: seq!["_cat/allocation"@, "cluster settings"@],
            commands: seq!["curl -s localhost:9200/_cat/allocation?v"@, "curl -s localhost:9200/_cluster/settings?pretty"@],
        },
        RuleText {
            id: "web.nginx.config.error"@,
            category: "Web网关"@,
            level: "error"@,
            title: "Nginx 配置检测失败"@,
            target: "nginx.config"@,
            condition: "nginx -t 返回失败"@,
            threshold: ""@,
            description: "Nginx 配置错误会导致 reload 失败或网关不可用。"@,
            signals: seq!["nginx -t"@, "nginx.conf"@],
            commands: seq!["nginx -t"@, "nginx -T | head -120"@],
        },
        RuleText {
            id: "web.nginx.upstream.error"@,
            category: "Web网关"@,
            level: "error"@,
            title: "Nginx upstream 异常"@,
            target: "nginx.upstream"@,
            condition: "error.log 出现 upstream failed/refused/timed out"@,
            threshold: ""@,
            description: "反向代理后端异常会导致 502/504，需要定位 upstream 地址、端口和后端服务状态。"@,
            signals: seq!["nginx error.log"@, "upstream config"@],
            commands: seq!["tail -n 100 /var/log/nginx/error.log"@, "nginx -T | grep -n upstream -A20"@],
        },
        RuleText {
            id: "web.nginx.security.warning"@,
            category: "Web网关"@,
            level: "warn"@,
            title: "Nginx 安全配置不足"@,
            target: "nginx.security"@,
            condition: "缺少 server_tokens off / TLS 安全项"@,
            threshold: ""@,
            description: "网关安全配置不足会暴露版本信息或弱 TLS 配置。"@,
            signals: seq!["nginx -T"@, "server_tokens"@, "ssl_protocols"@],
            commands: seq!["nginx -T | grep -Ei 'server_tokens|ssl_protocols|add_header'"@],
        },
        RuleText {
            id: "web.caddy.down.error"@,
            category: "Web网关"@,
            level: "error"@,
            title: "Caddy 服务不可用"@,
            target: "caddy"@,
            condition: "caddy 进程缺失或服务失败"@,
            threshold: ""@,
            description: "Caddy 作为入口网关不可用会直接导致站点访问失败，需要优先确认 systemd、端口和配置。"@,
            signals: seq!["systemctl caddy"@, "ss -ltnp"@, "Caddyfile"@],
            commands: seq!["systemctl status caddy --no-pager"@, "journalctl -u caddy -n 160 --no-pager"@, "caddy validate --config /etc/caddy/Caddyfile"@],
        },
        RuleText {
            id: "web.caddy.config.error"@,
            category: "Web网关"@,
            level: "error"@,
            title: "Caddy 配置检测失败"@,
            target: "caddy.config"@,
            condition: "caddy validate 返回失败"@,
            threshold: ""@,
            description: "Caddyfile 配置错误会导致 reload 或启动失败，常见于反向代理地址、证书和语法错误。"@,
            signals: seq!["caddy validate"@, "Caddyfile"@],
            commands: seq!["caddy validate --config /etc/caddy/Caddyfile"@, "caddy fmt --diff /etc/caddy/Caddyfile"@],
        },
        RuleText {
            id: "web.caddy.upstream.error"@,
            category: "Web网关"@,
            level: "error"@,
            title: "Caddy upstream 异常"@,
            target: "caddy.upstream"@,
            condition: "Caddy 日志出现 reverse_proxy dial/refused/timeout"@,
            threshold: ""@,
            description: "Caddy 反向代理后端异常通常来自后端端口未监听、连接拒绝、DNS 或超时。"@,
            signals: seq!["caddy log"@, "reverse_proxy"@],
            commands: seq!["journalctl -u caddy --since '2 hours ago' --no-pager"@, "grep -RniE 'dial tcp|connection refused|timeout|502|503|504' /var/log/caddy 2>/dev/null | tail -80"@],
        },
        RuleText {
            id: "web.http.5xx.error"@,
            category: "异常类型"@,
            level: "error"@,
            title: "HTTP 5xx 错误增多"@,
            target: "http.5xx"@,
            condition: "访问日志中 5xx 数量异常"@,
            threshold: ""@,
            description: "HTTP 5xx 表明网关或后端服务已影响请求成功率，需要关联 upstream、应用日志和发布时间。"@,
            signals: seq!["access.log"@, "status>=500"@],
            commands: seq!["awk '$9 ~ /^5/ {print}' /var/log/nginx/access.log 2>/dev/null | tail -80"@, "grep -RniE ' 5[0-9][0-9] ' /var/log/caddy /var/log/nginx 2>/dev/null | tail -80"@],
        },
    ]
}

pub open spec fn rule_table_5() -> Seq<RuleText> {
    seq![
        RuleText {
            id: "web.http.4xx.warning"@,
            category: "异常类型"@,
            level: "warn"@,
            title: "HTTP 4xx 异常增多"@,
            target: "http.4xx"@,
            condition: "访问日志中 4xx 数量异常"@,
            threshold: ""@,
            description: "HTTP 4xx 异常可能来自认证失败、路径变化、爬虫扫描或网关规则误配置。"@,
            signals: seq!["access.log"@, "status>=400"@],
            commands: seq!["awk '$9 ~ /^4/ {print}' /var/log/nginx/access.log 2>/dev/null | tail -80"@, "grep -RniE ' 4[0-9][0-9] ' /var/log/caddy /var/log/nginx 2>/dev/null | tail -80"@],
        },
        RuleText {
            id: "web.tls.cert.warning"@,
            category: "配置风险"@,
            level: "warn"@,
            title: "TLS 证书即将过期"@,
            target: "tls.certificate"@,
            condition: "证书剩余有效期 <= 15 天"@,
            threshold: "15"@,
            description: "证书过期会导致 HTTPS 访问失败，需要提前确认自动续签和证书链。"@,
            signals: seq!["openssl x509"@, "cert notAfter"@],
            commands: seq!["openssl x509 -in <cert> -noout -dates"@, "systemctl status certbot.timer caddy --no-pager"@],
        },
        RuleText {
            id: "network.connection.exhaustion.error"@,
            category: "网络链路"@,
            level: "error"@,
            title: "连接数或 TIME_WAIT 异常"@,
            target: "network.connections"@,
            condition: "连接数/TIME_WAIT/SYN_RECV 超过阈值"@,
            threshold: ""@,
            description: "连接耗尽会造成新请求失败，常见于流量突增、连接泄漏、后端慢响应或攻击流量。"@,
            signals: seq!["ss -s"@, "SYN_RECV"@, "TIME_WAIT"@],
            commands: seq!["ss -s"@, "ss -ant state syn-recv | wc -l"@, "ss -ant state time-wait | wc -l"@],
        },
        RuleText {
            id: "network.packet.loss.warning"@,
            category: "网络链路"@,
            level: "warn"@,
            title: "网络丢包或重传异常"@,
            target: "network.loss"@,
            condition: "网卡统计出现丢包/错误/重传异常"@,
            threshold: ""@,
            description: "丢包和重传会导致请求延迟升高，需要确认网卡、交换机、链路质量和突发流量。"@,
            signals: seq!["ip -s link"@, "netstat -s"@],
            commands: seq!["ip -s link"@, "netstat -s | grep -Ei 'retrans|drop|error'"@],
        },
        RuleText {
            id: "network.port.conflict.error"@,
            category: "网络链路"@,
            level: "error"@,
            title: "端口冲突"@,
            target: "network.port"@,
            condition: "多个进程争用或期望端口被占用"@,
            threshold: ""@,
            description: "端口冲突会导致服务启动失败或监听错误进程，需要确认占用者和启动顺序。"@,
            signals: seq!["ss -ltnp"@, "service config"@],
            commands: seq!["ss -ltnp | grep ':<port>'"@, "lsof -i :<port>"@],
        },
        RuleText {
            id: "kernel.io.error"@,
            category: "内核异常"@,
            level: "error"@,
            title: "内核 IO 错误"@,
            target: "kernel.io"@,
            condition: "dmesg/journal 出现 I/O error、EXT4-fs error、XFS error"@,
            threshold: ""@,
            description: "内核 IO 错误可能意味着磁盘、文件系统或底层存储异常，需要优先保护数据。"@,
            signals: seq!["dmesg"@, "journalctl -k"@, "filesystem error"@],
            commands: seq!["dmesg -T | grep -Ei 'I/O error|EXT4-fs error|XFS.*error|blk_update_request' | tail -80"@, "journalctl -k --since '2 hours ago' --no-pager"@],
        },
        RuleText {
            id: "kernel.panic.error"@,
            category: "内核异常"@,
            level: "error"@,
            title: "内核严重异常"@,
            target: "kernel.panic"@,
            condition: "日志出现 panic、BUG、soft lockup、hung task"@,
            threshold: ""@,
            description: "内核级异常可能导致系统卡顿或重启，需要保留日志并确认驱动、内核和硬件状态。"@,
            signals: seq!["dmesg"@, "journalctl -k"@],
            commands: seq!["dmesg -T | grep -Ei 'panic|BUG:|soft lockup|hung task' | tail -80"@, "journalctl -k -p warning --since '6 hours ago' --no-pager"@],
        },
        RuleText {
            id: "runtime.container.restart.warning"@,
            category: "容器运行时"@,
            level: "warn"@,
            title: "容器频繁重启"@,
            target: "container.restart"@,
            condition: "容器 RestartCount 短时间升高"@,
            threshold: ""@,
            description: "容器频繁重启通常来自探针失败、配置错误、依赖不可用或 OOM。"@,
            signals: seq!["docker ps"@, "kubernetes restartCount"@],
            commands: seq!["docker ps --format 'table {{.Names}}\t{{.Status}}'"@, "kubectl get pods -A --sort-by=.status.containerStatuses[0].restartCount"@],
        },
    ]
}

pub open spec fn rule_table_6() -> Seq<RuleText> {
    seq![
        RuleText {
            id: "runtime.container.oom.error"@,
            category: "容器运行时"@,
            level: "error"@,
            title: "容器 OOM"@,
            target: "container.oom"@,
            condition: "容器被 OOMKilled"@,
            threshold: ""@,
            description: "容器 OOM 会直接导致服务重启或请求失败，需要分析内存限制、堆大小和流量峰值。"@,
            signals: seq!["docker inspect OOMKilled"@, "kubectl describe pod"@],
            commands: seq!["docker inspect <container> --format '{{.State.OOMKilled}}'"@, "kubectl describe pod <pod> -n <namespace> | grep -i oom -C3"@],
        },
        RuleText {
            id: "exception.stacktrace.error"@,
            category: "异常类型"@,
            level: "error"@,
            title: "应用堆栈异常"@,
            target: "application.stacktrace"@,
            condition: "日志出现 Exception/Traceback/panic stack"@,
            threshold: ""@,
            description: "堆栈异常需要按首次异常、业务请求和发布时间定位根因，而不是只看最后一行。"@,
            signals: seq!["application log"@, "stacktrace"@],
            commands: seq!["grep -RniE 'Exception|Traceback|panic:|stack trace|Caused by' <log_dir> | tail -100"@, "tail -n 300 <app.log>"@],
        },
        RuleText {
            id: "exception.timeout.warning"@,
            category: "异常类型"@,
            level: "warn"@,
            title: "调用超时异常"@,
            target: "application.timeout"@,
            condition: "日志出现 timeout/deadline exceeded/read timed out"@,
            threshold: ""@,
            description: "超时异常通常来自下游慢、连接池耗尽、网络抖动或线程阻塞，需要结合上下游日志。"@,
            signals: seq!["application log"@, "timeout keywords"@],
            commands: seq!["grep -RniE 'timeout|deadline exceeded|read timed out|connect timed out' <log_dir> | tail -100"@, "ss -antp | head -80"@],
        },
        RuleText {
            id: "exception.connection-refused.error"@,
            category: "异常类型"@,
            level: "error"@,
            title: "连接拒绝异常"@,
            target: "application.connection"@,
            condition: "日志出现 connection refused / connect ECONNREFUSED"@,
            threshold: ""@,
            description: "连接拒绝说明目标服务端口不可达或未监听，需要确认目标地址、端口和防火墙。"@,
            signals: seq!["application log"@, "connection refused"@],
            commands: seq!["grep -RniE 'connection refused|ECONNREFUSED|No route to host' <log_dir> | tail -100"@, "ss -ltnp"@],
        },
        RuleText {
            id: "exception.deadlock.error"@,
            category: "异常类型"@,
            level: "error"@,
            title: "死锁异常"@,
            target: "application.deadlock"@,
            condition: "日志出现 deadlock 或数据库死锁"@,
            threshold: ""@,
            description: "死锁会导致事务回滚或请求超时，需要定位 SQL、锁等待和业务并发路径。"@,
            signals: seq!["application log"@, "database log"@, "deadlock"@],
            commands: seq!["grep -RniE 'deadlock|Lock wait timeout' <log_dir> | tail -100"@, "mysql -e 'SHOW ENGINE INNODB STATUS\\G'"@],
        },
        RuleText {
            id: "storage.io-latency.warning"@,
            category: "存储异常"@,
            level: "warn"@,
            title: "磁盘 IO 延迟偏高"@,
            target: "storage.latency"@,
            condition: "await/util 持续偏高"@,
            threshold: ""@,
            description: "磁盘 IO 延迟会影响数据库、日志写入和服务响应，需要确认热点盘和写入来源。"@,
            signals: seq!["iostat await util"@, "pidstat -d"@],
            commands: seq!["iostat -x 1 5"@, "pidstat -d 1 5"@],
        },
        RuleText {
            id: "java.service.down.error"@,
            category: "Java服务"@,
            level: "error"@,
            title: "Java 服务进程缺失"@,
            target: "java.process"@,
            condition: "按服务前缀未匹配到 Java 进程"@,
            threshold: ""@,
            description: "Java 进程缺失需要确认启动脚本、systemd 状态、端口和最近日志。"@,
            signals: seq!["ps args"@, "service prefix"@],
            commands: seq!["ps -ef | grep java"@, "systemctl status <service> --no-pager"@],
        },
        RuleText {
            id: "java.gc.warning"@,
            category: "Java服务"@,
            level: "warn"@,
            title: "Java GC 异常频繁"@,
            target: "java.gc"@,
            condition: "GC 日志出现频繁 Full GC/OOM"@,
            threshold: ""@,
            description: "频繁 Full GC 或 OOM 会造成接口停顿，需要分析堆、线程和对象增长。"@,
            signals: seq!["gc.log"@, "jstat"@],
            commands: seq!["jstat -gcutil <pid> 1000 10"@, "grep -Ei 'full gc|outofmemory|java heap' <log> | tail -50"@],
        },
    ]
}

pub open spec fn rule_table_7() -> Seq<RuleText> {
    seq![
        RuleText {
            id: "java.thread.warning"@,
            category: "Java服务"@,
            level: "warn"@,
            title: "Java 线程数异常"@,
            target: "java.thread"@,
            condition: "线程数超过阈值或大量 BLOCKED"@,
            threshold: ""@,
            description: "线程异常可能来自连接池耗尽、锁竞争或请求堆积。"@,
            signals: seq!["jstack"@, "thread count"@],
            commands: seq!["jstack <pid> | head -200"@, "ps -eLf | awk '$2==<pid>{print}' | wc -l"@],
        },
        RuleText {
            id: "java.port.error"@,
            category: "Java服务"@,
            level: "error"@,
            title: "Java 服务端口未监听"@,
            target: "java.port"@,
            condition: "Java 进程存在但端口未监听"@,
            threshold: ""@,
            description: "端口缺失通常表示应用启动失败、绑定地址错误或配置未加载。"@,
            signals: seq!["ss -ltnp"@, "java pid"@],
            commands: seq!["ss -ltnp | grep <pid>"@, "tail -n 200 <app.log>"@],
        },
        RuleText {
            id: "config.file.missing.error"@,
            category: "配置风险"@,
            level: "error"@,
            title: "关键配置文件缺失"@,
            target: "config.file"@,
            condition: "配置文件不存在或不可读"@,
            threshold: ""@,
            description: "关键配置缺失会造成服务启动失败或使用默认不安全配置。"@,
            signals: seq!["configured path"@, "filesystem"@],
            commands: seq!["ls -l <config>"@, "namei -l <config>"@],
        },
        RuleText {
            id: "config.secret.warning"@,
            category: "配置风险"@,
            level: "warn"@,
            title: "配置中存在明文敏感信息"@,
            target: "config.secret"@,
            condition: "配置文件匹配 password/token/secret"@,
            threshold: ""@,
            description: "明文敏感信息需要确认权限、脱敏和密钥管理策略。"@,
            signals: seq!["config content"@, "file permissions"@],
            commands: seq!["grep -RniE 'password|token|secret' <config_dir>"@, "stat <config>"@],
        },
        RuleText {
            id: "config.listen.warning"@,
            category: "配置风险"@,
            level: "warn"@,
            title: "服务监听地址风险"@,
            target: "config.listen"@,
            condition: "敏感服务监听 0.0.0.0"@,
            threshold: ""@,
            description: "敏感服务开放全部网卡可能扩大暴露面，需要结合现场访问策略确认。"@,
            signals: seq!["ss -ltnp"@, "service config"@],
            commands: seq!["ss -ltnp"@, "grep -R \"0.0.0.0\" <config_dir>"@],
        },
        RuleText {
            id: "backup.missing.warning"@,
            category: "备份恢复"@,
            level: "warn"@,
            title: "近期未发现备份文件"@,
            target: "backup"@,
            condition: "备份目录最近 N 天无新文件"@,
            threshold: ""@,
            description: "缺少近期备份会降低故障恢复能力，需要核对备份任务和备份介质。"@,
            signals: seq!["backup directory"@, "mtime"@],
            commands: seq!["find <backup_dir> -type f -mtime -2 -ls | tail"@],
        },
        RuleText {
            id: "backup.failed.error"@,
            category: "备份恢复"@,
            level: "error"@,
            title: "备份任务失败"@,
            target: "backup.job"@,
            condition: "备份日志/任务返回失败"@,
            threshold: ""@,
            description: "备份失败需要优先确认存储空间、权限、远端连接和脚本退出码。"@,
            signals: seq!["backup log"@, "cron/systemd timer"@],
            commands: seq!["systemctl list-timers"@, "grep -Ei 'backup.*failed|error' <backup_log> | tail -50"@],
        },
        RuleText {
            id: "backup.restore.warning"@,
            category: "备份恢复"@,
            level: "warn"@,
            title: "缺少恢复验证记录"@,
            target: "restore.validation"@,
            condition: "未发现恢复演练或校验记录"@,
            threshold: ""@,
            description: "只有备份没有恢复验证仍存在不可恢复风险，需要定期做恢复演练。"@,
            signals: seq!["restore history"@, "checksum"@],
            commands: seq!["ls -l <backup_dir>"@, "sha256sum <backup_file>"@],
        },
    ]
}

pub open spec fn rule_table_8() -> Seq<RuleText> {
    seq![
        RuleText {
            id: "database.mysql.connection.warning"@,
            category: "数据库"@,
            level: "warn"@,
            title: "MySQL 连接数接近上限"@,
            target: "mysql.connections"@,
            condition: "Threads_connected / max_connections >= 80%"@,
            threshold: "80"@,
            description: "连接数接近上限会造成新请求获取连接失败，需要确认连接池、慢 SQL 和泄漏连接。"@,
            signals: seq!["SHOW GLOBAL STATUS Threads_connected"@, "max_connections"@],
            commands: seq!["mysql -e \"SHOW GLOBAL STATUS LIKE 'Threads_connected'\""@, "mysql -e \"SHOW VARIABLES LIKE 'max_connections'\""@, "mysql -e 'SHOW FULL PROCESSLIST'"@],
        },
        RuleText {
            id: "database.mysql.disk.error"@,
            category: "数据库"@,
            level: "error"@,
            title: "MySQL 数据目录磁盘不足"@,
            target: "mysql.datadir"@,
            condition: "datadir 所在分区使用率 >= 90%"@,
            threshold: "90"@,
            description: "MySQL 数据目录空间不足会导致写入失败、binlog 无法落盘或实例异常退出。"@,
            signals: seq!["datadir"@, "df -h"@, "binlog"@],
            commands: seq!["mysql -e \"SHOW VARIABLES LIKE 'datadir'\""@, "df -h <datadir>"@, "du -xh <datadir> 2>/dev/null | sort -h | tail -30"@],
        },
        RuleText {
            id: "database.mysql.lock.warning"@,
            category: "数据库"@,
            level: "warn"@,
            title: "MySQL 锁等待异常"@,
            target: "mysql.locks"@,
            condition: "锁等待/死锁/长事务异常"@,
            threshold: ""@,
            description: "锁等待会造成接口卡顿和连接堆积，需要定位阻塞事务、SQL 和业务并发路径。"@,
            signals: seq!["INNODB_TRX"@, "SHOW ENGINE INNODB STATUS"@, "Lock wait"@],
            commands: seq!["mysql -e 'SHOW ENGINE INNODB STATUS\\G'"@, "mysql -e 'SELECT * FROM information_schema.INNODB_TRX\\G'"@],
        },
        RuleText {
            id: "database.redis.eviction.warning"@,
            category: "数据库"@,
            level: "warn"@,
            title: "Redis 淘汰或拒绝连接异常"@,
            target: "redis.stats"@,
            condition: "evicted_keys/rejected_connections 增长"@,
            threshold: ""@,
            description: "Redis 出现淘汰或拒绝连接说明容量、连接池或客户端行为已经影响业务稳定性。"@,
            signals: seq!["INFO stats evicted_keys"@, "rejected_connections"@],
            commands: seq!["redis-cli info stats | grep -E 'evicted_keys|rejected_connections'"@, "redis-cli info clients"@, "redis-cli info memory"@],
        },
        RuleText {
            id: "database.redis.persistence.warning"@,
            category: "数据库"@,
            level: "warn"@,
            title: "Redis 持久化失败"@,
            target: "redis.persistence"@,
            condition: "rdb_last_bgsave_status/aof_last_bgrewrite_status != ok"@,
            threshold: ""@,
            description: "Redis 持久化失败会影响故障恢复，需要确认磁盘、权限、AOF/RDB 配置和后台保存日志。"@,
            signals: seq!["INFO persistence"@, "redis log"@],
            commands: seq!["redis-cli info persistence"@, "grep -RniE 'background saving error|AOF|RDB' /var/log/redis* 2>/dev/null | tail -80"@],
        },
        RuleText {
            id: "middleware.kafka.underreplicated.error"@,
            category: "中间件"@,
            level: "error"@,
            title: "Kafka 副本不足"@,
            target: "kafka.replication"@,
            condition: "UnderReplicatedPartitions > 0"@,
            threshold: "0"@,
            description: "Kafka 副本不足会降低可用性并可能影响生产消费稳定性，需要确认 broker、磁盘和 ISR。"@,
            signals: seq!["UnderReplicatedPartitions"@, "kafka-topics --describe"@],
            commands: seq!["kafka-topics.sh --bootstrap-server <broker> --describe --under-replicated-partitions"@, "grep -RniE 'UnderReplicated|ISR|broker.*down' <kafka_log_dir> | tail -80"@],
        },
        RuleText {
            id: "middleware.kafka.controller.warning"@,
            category: "中间件"@,
            level: "warn"@,
            title: "Kafka 控制器频繁切换"@,
            target: "kafka.controller"@,
            condition: "ActiveControllerCount 异常或 controller 日志频繁变更"@,
            threshold: ""@,
            description: "控制器频繁切换通常来自 broker 抖动、Zookeeper/KRaft 不稳或网络延迟。"@,
            signals: seq!["ActiveControllerCount"@, "controller.log"@],
            commands: seq!["grep -RniE 'Controller moved|controller epoch|ActiveController' <kafka_log_dir> | tail -80"@, "kafka-broker-api-versions.sh --bootstrap-server <broker>"@],
        },
        RuleText {
            id: "middleware.rabbitmq.queue.warning"@,
            category: "中间件"@,
            level: "warn"@,
            title: "RabbitMQ 队列堆积"@,
            target: "rabbitmq.queue"@,
            condition: "messages_ready/messages_unacknowledged 持续升高"@,
            threshold: ""@,
            description: "队列堆积会造成业务延迟，需要定位消费者状态、死信、限流和下游处理能力。"@,
            signals: seq!["rabbitmqctl list_queues"@, "messages_ready"@],
            commands: seq!["rabbitmqctl list_queues name messages_ready messages_unacknowledged consumers"@, "rabbitmqctl list_connections"@],
        },
    ]
}

pub open spec fn rule_table_9() -> Seq<RuleText> {
    seq![
        RuleText {
            id: "middleware.zookeeper.down.error"@,
            category: "中间件"@,
            level: "error"@,
            title: "Zookeeper 节点不可用"@,
            target: "zookeeper"@,
            condition: "ruok 未返回 imok 或服务失败"@,
            threshold: ""@,
            description: "Zookeeper 不可用会影响依赖的注册、选主或 Kafka 老集群稳定性。"@,
            signals: seq!["ruok"@, "mntr"@, "systemctl zookeeper"@],
            commands: seq!["echo ruok | nc 127.0.0.1 2181"@, "echo mntr | nc 127.0.0.1 2181"@, "systemctl status zookeeper --no-pager"@],
        },
        RuleText {
            id: "web.gateway.cert.error"@,
            category: "Web网关"@,
            level: "error"@,
            title: "TLS 证书已过期"@,
            target: "tls.certificate"@,
            condition: "证书已过期或证书链不可用"@,
            threshold: ""@,
            description: "证书过期会直接导致 HTTPS 访问失败，需要立即更新证书并确认自动续签链路。"@,
            signals: seq!["openssl x509 notAfter"@, "curl TLS"@],
            commands: seq!["openssl x509 -in <cert> -noout -dates"@, "curl -Iv https://<domain> 2>&1 | head -60"@],
        },
        RuleText {
            id: "security.ssh.bruteforce.warning"@,
            category: "安全风险"@,
            level: "warn"@,
            title: "SSH 暴力尝试异常"@,
            target: "ssh.auth"@,
            condition: "短时间认证失败次数异常"@,
            threshold: ""@,
            description: "SSH 暴力尝试可能带来账户风险，需要确认来源 IP、登录策略和防护规则。"@,
            signals: seq!["auth.log Failed password"@, "journal sshd"@],
            commands: seq!["journalctl -u sshd --since '2 hours ago' --no-pager | grep -Ei 'Failed|Invalid' | tail -100"@, "grep -Ei 'Failed password|Invalid user' /var/log/auth.log 2>/dev/null | tail -100"@],
        },
        RuleText {
            id: "security.firewall.disabled.warning"@,
            category: "安全风险"@,
            level: "warn"@,
            title: "防火墙未启用"@,
            target: "firewall"@,
            condition: "firewalld/ufw/iptables 规则为空或未运行"@,
            threshold: ""@,
            description: "防火墙未启用会扩大服务暴露面，需要结合现场网络边界确认是否符合要求。"@,
            signals: seq!["systemctl firewalld"@, "ufw status"@, "iptables -S"@],
            commands: seq!["systemctl status firewalld ufw --no-pager"@, "iptables -S | head -80"@, "nft list ruleset 2>/dev/null | head -120"@],
        },
        RuleText {
            id: "security.selinux.disabled.info"@,
            category: "安全风险"@,
            level: "info"@,
            title: "SELinux 未启用"@,
            target: "selinux"@,
            condition: "SELinux disabled/permissive"@,
            threshold: ""@,
            description: "SELinux 未启用不一定是故障，但需要与现场安全基线一致并记录原因。"@,
            signals: seq!["getenforce"@, "/etc/selinux/config"@],
            commands: seq!["getenforce"@, "grep -n '^SELINUX=' /etc/selinux/config 2>/dev/null"@],
        },
        RuleText {
            id: "config.drift.warning"@,
            category: "配置风险"@,
            level: "warn"@,
            title: "配置疑似漂移"@,
            target: "config.drift"@,
            condition: "运行配置与磁盘配置、模板或预期值不一致"@,
            threshold: ""@,
            description: "配置漂移会导致重启后行为变化，需要确认运行态、文件态和发布记录是否一致。"@,
            signals: seq!["runtime config"@, "file checksum"@, "template"@],
            commands: seq!["sha256sum <config>"@, "systemctl cat <service>"@, "diff -u <expected> <config>"@],
        },
        RuleText {
            id: "runtime.docker.daemon.error"@,
            category: "容器运行时"@,
            level: "error"@,
            title: "Docker daemon 异常"@,
            target: "docker.daemon"@,
            condition: "docker info 失败或 daemon 日志异常"@,
            threshold: ""@,
            description: "Docker daemon 异常会影响容器启动、网络和镜像操作，需要先确认 daemon、存储驱动和日志。"@,
            signals: seq!["docker info"@, "dockerd journal"@],
            commands: seq!["docker info"@, "systemctl status docker --no-pager"@, "journalctl -u docker --since '2 hours ago' --no-pager"@],
        },
        RuleText {
            id: "runtime.kubernetes.notready.error"@,
            category: "容器运行时"@,
            level: "error"@,
            title: "Kubernetes 节点 NotReady"@,
            target: "kubernetes.node"@,
            condition: "Node Ready != True"@,
            threshold: ""@,
            description: "节点 NotReady 会影响 Pod 调度和服务可用性，需要确认 kubelet、容器运行时、磁盘和网络插件。"@,
            signals: seq!["kubectl get nodes"@, "kubelet journal"@],
            commands: seq!["kubectl get nodes -o wide"@, "kubectl describe node <node>"@, "journalctl -u kubelet --since '2 hours ago' --no-pager"@],
        },
    ]
}

pub open spec fn rule_table_10() -> Seq<RuleText> {
    seq![
        RuleText {
            id: "storage.readonly.error"@,
            category: "存储异常"@,
            level: "error"@,
            title: "文件系统只读"@,
            target: "filesystem.readonly"@,
            condition: "mount 显示 ro 或日志出现 remount read-only"@,
            threshold: ""@,
            description: "文件系统只读通常来自底层 IO 或文件系统错误，会导致数据库、日志和业务写入失败。"@,
            signals: seq!["mount ro"@, "EXT4-fs remount"@, "XFS error"@],
            commands: seq!["mount | grep ' ro,'"@, "dmesg -T | grep -Ei 'read-only|remount|EXT4-fs error|XFS.*error' | tail -100"@],
        },
        RuleText {
            id: "storage.nfs.stale.error"@,
            category: "存储异常"@,
            level: "error"@,
            title: "NFS 挂载异常"@,
            target: "nfs.mount"@,
            condition: "stale file handle / nfs timeout / 挂载不可访问"@,
            threshold: ""@,
            description: "NFS 异常会造成进程卡死、IO 等待和文件访问失败，需要确认服务端、网络和挂载参数。"@,
            signals: seq!["nfs mount"@, "stale file handle"@, "dmesg"@],
            commands: seq!["mount | grep -i nfs"@, "dmesg -T | grep -Ei 'nfs|stale file handle|server not responding' | tail -100"@],
        },
        RuleText {
            id: "network.dns.error"@,
            category: "网络链路"@,
            level: "error"@,
            title: "DNS 解析异常"@,
            target: "dns"@,
            condition: "关键域名解析失败或耗时异常"@,
            threshold: ""@,
            description: "DNS 解析异常会造成下游连接失败、接口超时和服务注册异常。"@,
            signals: seq!["resolv.conf"@, "dig/nslookup"@, "systemd-resolved"@],
            commands: seq!["cat /etc/resolv.conf"@, "dig <domain>"@, "resolvectl status 2>/dev/null | head -120"@],
        },
        RuleText {
            id: "network.firewall.drop.warning"@,
            category: "网络链路"@,
            level: "warn"@,
            title: "防火墙丢包或拒绝异常"@,
            target: "network.firewall"@,
            condition: "iptables/nftables/journal 出现 DROP/REJECT 异常"@,
            threshold: ""@,
            description: "防火墙丢弃可能导致端口偶发不可达，需要关联策略、来源地址和业务访问路径。"@,
            signals: seq!["iptables counters"@, "nft ruleset"@, "kernel DROP"@],
            commands: seq!["iptables -vnL | head -120"@, "nft list ruleset 2>/dev/null | head -160"@, "journalctl -k --since '2 hours ago' --no-pager | grep -Ei 'DROP|REJECT' | tail -80"@],
        },
        RuleText {
            id: "exception.null-pointer.error"@,
            category: "异常类型"@,
            level: "error"@,
            title: "空指针异常"@,
            target: "application.null_pointer"@,
            condition: "日志出现 NullPointerException/NoneType/nil pointer"@,
            threshold: ""@,
            description: "空指针异常通常来自代码缺陷、脏数据或配置缺失，需要定位首次异常和请求上下文。"@,
            signals: seq!["application log"@, "NullPointerException"@, "NoneType"@],
            commands: seq!["grep -RniE 'NullPointerException|NoneType|nil pointer|null reference' <log_dir> | tail -100"@, "tail -n 300 <app.log>"@],
        },
        RuleText {
            id: "exception.out-of-memory.error"@,
            category: "异常类型"@,
            level: "error"@,
            title: "应用内存溢出"@,
            target: "application.oom"@,
            condition: "日志出现 OutOfMemoryError / memory allocation failed"@,
            threshold: ""@,
            description: "应用内存溢出会导致进程退出或请求失败，需要确认堆大小、对象增长和最近流量变化。"@,
            signals: seq!["application log"@, "OutOfMemoryError"@, "oom"@],
            commands: seq!["grep -RniE 'OutOfMemoryError|memory allocation failed|Cannot allocate memory' <log_dir> | tail -100"@, "ps -eo pid,comm,rss,%mem --sort=-rss | head -20"@],
        },
        RuleText {
            id: "exception.database-pool.warning"@,
            category: "异常类型"@,
            level: "warn"@,
            title: "数据库连接池耗尽"@,
            target: "application.db_pool"@,
            condition: "日志出现 connection pool exhausted / timeout waiting for connection"@,
            threshold: ""@,
            description: "连接池耗尽会造成接口超时，需要确认慢 SQL、连接泄漏、池配置和数据库连接上限。"@,
            signals: seq!["application log"@, "connection pool"@, "timeout"@],
            commands: seq!["grep -RniE 'connection pool|timeout waiting for connection|HikariPool|Too many connections' <log_dir> | tail -100"@, "mysql -e 'SHOW FULL PROCESSLIST'"@],
        },
        RuleText {
            id: "schedule.cron.failed.warning"@,
            category: "调度任务"@,
            level: "warn"@,
            title: "定时任务执行失败"@,
            target: "cron.job"@,
            condition: "cron/systemd timer 日志出现失败或退出码非 0"@,
            threshold: ""@,
            description: "定时任务失败会影响备份、清理和巡检类维护动作，需要定位任务脚本、权限和最近输出。"@,
            signals: seq!["cron log"@, "systemd timer"@, "exit code"@],
            commands: seq!["systemctl list-timers --all"@, "journalctl --since '24 hours ago' --no-pager | grep -Ei 'cron|timer|failed|exit status' | tail -120"@],
        },
    ]
}

pub open spec fn rule_table_11() -> Seq<RuleText> {
    seq![
        RuleText {
            id: "check.generic.warning"@,
            category: "检查结果"@,
            level: "warn"@,
            title: "检查项警告"@,
            target: "check"@,
            condition: "结构化检查返回 warn"@,
            threshold: ""@,
            description: "常规检查输出警告项，规则引擎会保留原始证据并给出处理建议。"@,
            signals: seq!["CheckResult.sections.items.status=warn"@],
            commands: seq!["dm check <id>"@],
        },
        RuleText {
            id: "check.generic.error"@,
            category: "检查结果"@,
            level: "error"@,
            title: "检查项异常"@,
            target: "check"@,
            condition: "结构化检查返回 error"@,
            threshold: ""@,
            description: "常规检查输出异常项，规则引擎会同步到系统告警并保留详情。"@,
            signals: seq!["CheckResult.sections.items.status=error"@],
            commands: seq!["dm check <id>"@],
        },
        RuleText {
            id: "check.timeout.warning"@,
            category: "检查结果"@,
            level: "warn"@,
            title: "检查项执行超时"@,
            target: "check.timeout"@,
            condition: "检查执行超过后台体检超时"@,
            threshold: ""@,
            description: "检查超时通常表示连接、命令或权限异常，需要进入单项检查定位。"@,
            signals: seq!["health task timeout"@, "duration"@],
            commands: seq!["dm check <id>"@],
        },
        RuleText {
            id: "script.failure.warning"@,
            category: "脚本执行"@,
            level: "warn"@,
            title: "近期脚本执行失败"@,
            target: "script.history"@,
            condition: "最近执行历史中失败次数 >= 2"@,
            threshold: "2"@,
            description: "维护脚本连续失败通常代表现场维护动作未完成、参数错误、权限不足或依赖命令不可用。"@,
            signals: seq!["exec_history.exit_code"@, "script_id"@, "script_name"@],
            commands: seq!["dm logs <script_id>"@, "dm stats <script_id>"@],
        },
    ]
}

/// The rules of the catalogue, in catalogue order.
pub open spec fn rule_table() -> Seq<RuleText> {
    rule_table_0() + rule_table_1() + rule_table_2() + rule_table_3() + rule_table_4() + rule_table_5() + rule_table_6() + rule_table_7() + rule_table_8() + rule_table_9() + rule_table_10() + rule_table_11()
}

#[verifier::rlimit(40)]
fn rules_0() -> (v: Vec<RuleDef>)
    ensures
        rule_texts(v@) == rule_table_0(),
        all_builtin(v@),
{
    let v = vec![
        rule("resource.cpu.critical", "资源水位", "error", "CPU 使用率严重过高", "system.cpu", "CPU >= 90%", "90", "系统 CPU 长时间处于高风险区间，可能导致业务响应抖动或超时。", vec!["system_info.cpu_usage", "top_processes.cpu_usage"], vec!["top -o %CPU", "ps -eo pid,ppid,comm,%cpu,%mem --sort=-%cpu | head -20"]),
        rule("resource.cpu.warning", "资源水位", "warn", "CPU 使用率偏高", "system.cpu", "CPU >= 80%", "80", "CPU 使用率偏高，需要结合负载趋势和进程分布判断是否持续异常。", vec!["system_info.cpu_usage"], vec!["vmstat 1 10", "pidstat 1 5"]),
        rule("resource.memory.critical", "资源水位", "error", "内存使用率严重过高", "system.memory", "内存 >= 90%", "90", "物理内存进入危险区间，可能触发 OOM、频繁回收或业务进程退出。", vec!["system_info.memory_usage", "swap_usage", "top_processes.memory_bytes"], vec!["free -h", "ps -eo pid,comm,rss,%mem --sort=-rss | head -20", "journalctl -k -p warning --since '2 hours ago' | grep -i oom"]),
        rule("resource.memory.warning", "资源水位", "warn", "内存使用率偏高", "system.memory", "内存 >= 80%", "80", "内存占用偏高，需要区分缓存增长、业务峰值和泄漏趋势。", vec!["system_info.memory_usage"], vec!["free -h", "ps -eo pid,comm,rss,%mem --sort=-rss | head -20"]),
        rule("resource.swap.warning", "资源水位", "warn", "Swap 使用偏高", "system.swap", "Swap 使用率 >= 30%", "30", "Swap 持续使用会显著影响响应，通常说明内存压力或进程异常增长。", vec!["system_info.swap_usage"], vec!["free -h", "vmstat 1 10"]),
        rule("resource.disk.critical", "资源水位", "error", "磁盘使用率严重过高", "system.disk", "磁盘 >= 90%", "90", "整体磁盘空间不足会导致写入失败、日志丢失和服务异常。", vec!["system_info.disk_usage", "disk_total", "disk_used"], vec!["df -h", "du -xh /var/log 2>/dev/null | sort -h | tail -20"]),
        rule("resource.disk.warning", "资源水位", "warn", "磁盘使用率偏高", "system.disk", "磁盘 >= 80%", "80", "磁盘空间接近高水位，应提前定位增长目录和清理策略。", vec!["system_info.disk_usage"], vec!["df -h", "du -xh / 2>/dev/null | sort -h | tail -20"]),
        rule("resource.load.critical", "资源水位", "error", "系统负载严重过高", "system.loadavg", "1 分钟负载 / CPU 核心数 >= 2", "2", "负载显著超过 CPU 核心数，需要区分 CPU 饱和、IO 等待和不可中断进程。", vec!["load_avg.one", "cpu_count"], vec!["uptime", "vmstat 1 10", "ps -eo stat,pid,comm,%cpu,%mem --sort=-%cpu | head -20"]),
    ];
    proof {
        assert(texts(v@[0].signals@) =~= rule_table_0()[0].signals);
        assert(texts(v@[0].commands@) =~= rule_table_0()[0].commands);
        assert(rule_text(v@[0]) == rule_table_0()[0]);
        assert(texts(v@[1].signals@) =~= rule_table_0()[1].signals);
        assert(texts(v@[1].commands@) =~= rule_table_0()[1].commands);
        assert(rule_text(v@[1]) == rule_table_0()[1]);
        assert(texts(v@[2].signals@) =~= rule_table_0()[2].signals);
        assert(texts(v@[2].commands@) =~= rule_table_0()[2].commands);
        assert(rule_text(v@[2]) == rule_table_0()[2]);
        assert(texts(v@[3].signals@) =~= rule_table_0()[3].signals);
        assert(texts(v@[3].commands@) =~= rule_table_0()[3].commands);
        assert(rule_text(v@[3]) == rule_table_0()[3]);
        assert(texts(v@[4].signals@) =~= rule_table_0()[4].signals);
        assert(texts(v@[4].commands@) =~= rule_table_0()[4].commands);
        assert(rule_text(v@[4]) == rule_table_0()[4]);
        assert(texts(v@[5].signals@) =~= rule_table_0()[5].signals);
        assert(texts(v@[5].commands@) =~= rule_table_0()[5].commands);
        assert(rule_text(v@[5]) == rule_table_0()[5]);
        assert(texts(v@[6].signals@) =~= rule_table_0()[6].signals);
        assert(texts(v@[6].commands@) =~= rule_table_0()[6].commands);
        assert(rule_text(v@[6]) == rule_table_0()[6]);
        assert(texts(v@[7].signals@) =~= rule_table_0()[7].signals);
        assert(texts(v@[7].commands@) =~= rule_table_0()[7].commands);
        assert(rule_text(v@[7]) == rule_table_0()[7]);
        assert(rule_texts(v@) =~= rule_table_0());
        assert(all_builtin(v@));
    }
    v
}

#[verifier::rlimit(40)]
fn rules_1() -> (v: Vec<RuleDef>)
    ensures
        rule_texts(v@) == rule_table_1(),
        all_builtin(v@),
{
    let v = vec![
        rule("resource.load.warning", "资源水位", "warn", "系统负载偏高", "system.loadavg", "1 分钟负载 / CPU 核心数 >= 1", "1", "短期负载超过核心数，需要观察 5/15 分钟趋势判断持续性。", vec!["load_avg.one", "load_avg.five", "load_avg.fifteen"], vec!["uptime", "vmstat 1 5"]),
        rule("resource.mount.critical", "磁盘分区", "error", "分区空间严重不足", "mount", "分区使用率 >= 90%", "90", "单个关键挂载点空间不足会直接影响对应数据目录、日志目录或备份目录。", vec!["disk.mount_point", "disk.usage", "disk.fs_type"], vec!["df -h <mount>", "du -xh <mount> 2>/dev/null | sort -h | tail -20"]),
        rule("resource.mount.warning", "磁盘分区", "warn", "分区空间偏高", "mount", "分区使用率 >= 80%", "80", "单个挂载点达到预警水位，需要检查增长来源并提前扩容或清理。", vec!["disk.mount_point", "disk.usage"], vec!["df -h <mount>"]),
        rule("resource.inode.warning", "磁盘分区", "warn", "inode 使用率偏高", "mount.inode", "inode 使用率 >= 80%", "80", "大量小文件可能耗尽 inode，即使磁盘容量未满也会造成写入失败。", vec!["df -i", "mount_point"], vec!["df -i", "find <mount> -xdev -type f | cut -d/ -f2 | sort | uniq -c | sort -n | tail"]),
        rule("process.cpu.warning", "进程异常", "warn", "进程 CPU 占用过高", "process", "进程 CPU >= 85%", "85", "单进程 CPU 异常通常来自热点请求、死循环、GC 抖动或批处理任务。", vec!["top_processes.cpu_usage", "process.pid"], vec!["ps -p <pid> -o pid,ppid,comm,%cpu,%mem,etime,args", "top -Hp <pid>"]),
        rule("process.memory.warning", "进程异常", "warn", "进程内存占用过高", "process", "单进程 RSS 占系统内存 >= 25%", "25", "单进程内存过高需要确认是否为缓存、堆增长、连接堆积或泄漏。", vec!["top_processes.memory_bytes", "memory_total"], vec!["ps -p <pid> -o pid,ppid,comm,rss,%mem,etime,args", "pmap -x <pid> | tail -20"]),
        rule("process.zombie.warning", "进程异常", "warn", "僵尸进程数量异常", "process.stat", "Z 状态进程数量 >= 1", "1", "僵尸进程说明父进程未正确回收子进程，长期累积会影响进程管理。", vec!["ps stat=Z"], vec!["ps -eo stat,pid,ppid,comm,args | awk '$1 ~ /Z/'"]),
        rule("process.fd.warning", "进程异常", "warn", "进程文件句柄接近上限", "process.fd", "打开 FD / limit >= 80%", "80", "文件句柄耗尽会导致网络连接、日志写入或文件打开失败。", vec!["/proc/<pid>/fd", "limits"], vec!["ls /proc/<pid>/fd | wc -l", "cat /proc/<pid>/limits"]),
    ];
    proof {
        assert(texts(v@[0].signals@) =~= rule_table_1()[0].signals);
        assert(texts(v@[0].commands@) =~= rule_table_1()[0].commands);
        assert(rule_text(v@[0]) == rule_table_1()[0]);
        assert(texts(v@[1].signals@) =~= rule_table_1()[1].signals);
        assert(texts(v@[1].commands@) =~= rule_table_1()[1].commands);
        assert(rule_text(v@[1]) == rule_table_1()[1]);
        assert(texts(v@[2].signals@) =~= rule_table_1()[2].signals);
        assert(texts(v@[2].commands@) =~= rule_table_1()[2].commands);
        assert(rule_text(v@[2]) == rule_table_1()[2]);
        assert(texts(v@[3].signals@) =~= rule_table_1()[3].signals);
        assert(texts(v@[3].commands@) =~= rule_table_1()[3].commands);
        assert(rule_text(v@[3]) == rule_table_1()[3]);
        assert(texts(v@[4].signals@) =~= rule_table_1()[4].signals);
        assert(texts(v@[4].commands@) =~= rule_table_1()[4].commands);
        assert(rule_text(v@[4]) == rule_table_1()[4]);
        assert(texts(v@[5].signals@) =~= rule_table_1()[5].signals);
        assert(texts(v@[5].commands@) =~= rule_table_1()[5].commands);
        assert(rule_text(v@[5]) == rule_table_1()[5]);
        assert(texts(v@[6].signals@) =~= rule_table_1()[6].signals);
        assert(texts(v@[6].commands@) =~= rule_table_1()[6].commands);
        assert(rule_text(v@[6]) == rule_table_1()[6]);
        assert(texts(v@[7].signals@) =~= rule_table_1()[7].signals);
        assert(texts(v@[7].commands@) =~= rule_table_1()[7].commands);
        assert(rule_text(v@[7]) == rule_table_1()[7]);
        assert(rule_texts(v@) =~= rule_table_1());
        assert(all_builtin(v@));
    }
    v
}

#[verifier::rlimit(40)]
fn rules_2() -> (v: Vec<RuleDef>)
    ensures
        rule_texts(v@) == rule_table_2(),
        all_builtin(v@),
{
    let v = vec![
        rule("service.failed.error", "服务管理", "error", "systemd 服务失败", "systemd.service", "服务处于 failed 状态", "", "核心服务进入 failed 状态，需要读取 unit 状态、最近日志和依赖关系后再处理。", vec!["systemctl list-units --state=failed"], vec!["systemctl status <service> --no-pager", "journalctl -u <service> -n 120 --no-pager"]),
        rule("service.restart.warning", "服务管理", "warn", "服务近期频繁重启", "systemd.service", "短时间重启次数 >= 3", "3", "频繁重启通常代表配置错误、依赖不可用、端口冲突或业务启动异常。", vec!["systemctl show NRestarts", "journalctl"], vec!["systemctl show <service> -p NRestarts", "journalctl -u <service> --since '2 hours ago'"]),
        rule("service.port.error", "服务管理", "error", "服务监听端口缺失", "service.port", "期望监听端口未出现", "", "服务进程存在但端口未监听，常见于启动半成功、配置加载失败或端口被占用。", vec!["ss -ltnp", "service config"], vec!["ss -ltnp", "systemctl status <service> --no-pager"]),
        rule("service.permission.error", "服务管理", "error", "服务权限或用户异常", "service.user", "运行用户不存在或目录无权限", "", "权限异常会导致服务无法读取配置、写日志或访问数据目录。", vec!["systemd user", "path permissions"], vec!["id <user>", "namei -l <path>"]),
        rule("log.error.burst", "日志异常", "warn", "日志异常关键字突增", "log", "最近日志 error/failed/panic/oom >= 5", "5", "日志异常突增需要结合故障时间点查看上下文，避免只看最后一行。", vec!["tail -n 100", "keyword count"], vec!["tail -n 200 <log>", "grep -Ei 'error|critical|panic|failed|oom' <log> | tail -50"]),
        rule("log.oom.error", "日志异常", "error", "系统出现 OOM 记录", "kernel.log", "kernel/journal 出现 OOM kill", "", "OOM 表示内存已经影响进程存活，需要定位被杀进程和内存增长来源。", vec!["journalctl -k", "dmesg"], vec!["journalctl -k --since '2 hours ago' | grep -i oom", "dmesg -T | grep -i oom | tail -20"]),
        rule("log.auth.warning", "日志异常", "warn", "认证失败异常增多", "auth.log", "认证失败/拒绝次数 >= 10", "10", "认证失败异常可能来自密码错误、暴力尝试、权限配置或自动化任务异常。", vec!["/var/log/auth.log", "journal sshd"], vec!["grep -Ei 'failed|denied|invalid' /var/log/auth.log | tail -50", "journalctl -u sshd --since '2 hours ago'"]),
        rule("log.permission.warning", "日志异常", "warn", "权限拒绝异常", "log", "日志出现 permission denied/access denied", "", "权限拒绝需要定位访问主体、目标路径和最近权限变更。", vec!["application logs", "journalctl"], vec!["grep -R \"permission denied\\|access denied\" /var/log 2>/dev/null | tail -50"]),
    ];
    proof {
        assert(texts(v@[0].signals@) =~= rule_table_2()[0].signals);
        assert(texts(v@[0].commands@) =~= rule_table_2()[0].commands);
        assert(rule_text(v@[0]) == rule_table_2()[0]);
        assert(texts(v@[1].signals@) =~= rule_table_2()[1].signals);
        assert(texts(v@[1].commands@) =~= rule_table_2()[1].commands);
        assert(rule_text(v@[1]) == rule_table_2()[1]);
        assert(texts(v@[2].signals@) =~= rule_table_2()[2].signals);
        assert(texts(v@[2].commands@) =~= rule_table_2()[2].commands);
        assert(rule_text(v@[2]) == rule_table_2()[2]);
        assert(texts(v@[3].signals@) =~= rule_table_2()[3].signals);
        assert(texts(v@[3].commands@) =~= rule_table_2()[3].commands);
        assert(rule_text(v@[3]) == rule_table_2()[3]);
        assert(texts(v@[4].signals@) =~= rule_table_2()[4].signals);
        assert(texts(v@[4].commands@) =~= rule_table_2()[4].commands);
        assert(rule_text(v@[4]) == rule_table_2()[4]);
        assert(texts(v@[5].signals@) =~= rule_table_2()[5].signals);
        assert(texts(v@[5].commands@) =~= rule_table_2()[5].commands);
        assert(rule_text(v@[5]) == rule_table_2()[5]);
        assert(texts(v@[6].signals@) =~= rule_table_2()[6].signals);
        assert(texts(v@[6].commands@) =~= rule_table_2()[6].commands);
        assert(rule_text(v@[6]) == rule_table_2()[6]);
        assert(texts(v@[7].signals@) =~= rule_table_2()[7].signals);
        assert(texts(v@[7].commands@) =~= rule_table_2()[7].commands);
        assert(rule_text(v@[7]) == rule_table_2()[7]);
        assert(rule_texts(v@) =~= rule_table_2());
        assert(all_builtin(v@));
    }
    v
}

#[verifier::rlimit(40)]
fn rules_3() -> (v: Vec<RuleDef>)
    ensures
        rule_texts(v@) == rule_table_3(),
        all_builtin(v@),
{
    let v = vec![
        rule("database.mysql.down.error", "数据库", "error", "MySQL 服务不可用", "mysql", "连接失败或服务未运行", "", "MySQL 不可用会直接影响依赖业务，需要先区分进程、端口、认证和存储问题。", vec!["mysqladmin ping", "systemctl mysql"], vec!["mysqladmin ping", "systemctl status mysql mysqld --no-pager"]),
        rule("database.mysql.replication.error", "数据库", "error", "MySQL 主从复制异常", "mysql.replication", "Slave_IO_Running/Slave_SQL_Running != Yes", "", "复制异常会导致数据延迟或不一致，需要定位 IO、SQL 线程错误。", vec!["SHOW SLAVE STATUS", "SHOW REPLICA STATUS"], vec!["mysql -e 'SHOW SLAVE STATUS\\G'", "mysql -e 'SHOW REPLICA STATUS\\G'"]),
        rule("database.mysql.slow.warning", "数据库", "warn", "MySQL 慢查询异常", "mysql.slowlog", "慢查询数量或耗时异常", "", "慢查询可能造成连接堆积和接口超时，需要结合索引和执行计划处理。", vec!["slow_query_log", "performance_schema"], vec!["mysql -e \"SHOW GLOBAL STATUS LIKE 'Slow_queries'\"", "mysql -e 'SHOW PROCESSLIST'"]),
        rule("database.redis.down.error", "数据库", "error", "Redis 服务不可用", "redis", "PING 失败或端口未监听", "", "Redis 不可用会影响缓存、队列或会话，需要区分进程、端口、密码和持久化错误。", vec!["redis-cli PING", "ss -ltnp"], vec!["redis-cli ping", "systemctl status redis redis-server --no-pager"]),
        rule("database.redis.memory.warning", "数据库", "warn", "Redis 内存接近上限", "redis.memory", "used_memory / maxmemory >= 80%", "80", "Redis 内存接近上限可能触发淘汰、写入失败或延迟升高。", vec!["INFO memory", "maxmemory"], vec!["redis-cli info memory", "redis-cli config get maxmemory"]),
        rule("database.redis.aof.error", "数据库", "error", "Redis AOF 文件损坏", "redis.aof", "日志出现 Bad file format/AOF corrupted", "", "AOF 损坏会导致 Redis 无法启动或数据恢复失败，需要备份后执行修复。", vec!["redis log", "appendonly.aof"], vec!["redis-check-aof --fix appendonly.aof", "cp appendonly.aof appendonly.aof.bak"]),
        rule("middleware.elasticsearch.red.error", "中间件", "error", "Elasticsearch 集群 red", "elasticsearch.health", "cluster status == red", "", "ES red 表示存在未分配主分片，数据读写可能不完整。", vec!["_cluster/health", "_cat/shards"], vec!["curl -s localhost:9200/_cluster/health?pretty", "curl -s localhost:9200/_cat/shards?v"]),
        rule("middleware.elasticsearch.yellow.warning", "中间件", "warn", "Elasticsearch 集群 yellow", "elasticsearch.health", "cluster status == yellow", "", "ES yellow 表示副本分片未分配，容灾能力下降。", vec!["_cluster/health", "_cat/allocation"], vec!["curl -s localhost:9200/_cluster/health?pretty", "curl -s localhost:9200/_cat/allocation?v"]),
    ];
    proof {
        assert(texts(v@[0].signals@) =~= rule_table_3()[0].signals);
        assert(texts(v@[0].commands@) =~= rule_table_3()[0].commands);
        assert(rule_text(v@[0]) == rule_table_3()[0]);
        assert(texts(v@[1].signals@) =~= rule_table_3()[1].signals);
        assert(texts(v@[1].commands@) =~= rule_table_3()[1].commands);
        assert(rule_text(v@[1]) == rule_table_3()[1]);
        assert(texts(v@[2].signals@) =~= rule_table_3()[2].signals);
        assert(texts(v@[2].commands@) =~= rule_table_3()[2].commands);
        assert(rule_text(v@[2]) == rule_table_3()[2]);
        assert(texts(v@[3].signals@) =~= rule_table_3()[3].signals);
        assert(texts(v@[3].commands@) =~= rule_table_3()[3].commands);
        assert(rule_text(v@[3]) == rule_table_3()[3]);
        assert(texts(v@[4].signals@) =~= rule_table_3()[4].signals);
        assert(texts(v@[4].commands@) =~= rule_table_3()[4].commands);
        assert(rule_text(v@[4]) == rule_table_3()[4]);
        assert(texts(v@[5].signals@) =~= rule_table_3()[5].signals);
        assert(texts(v@[5].commands@) =~= rule_table_3()[5].commands);
        assert(rule_text(v@[5]) == rule_table_3()[5]);
        assert(texts(v@[6].signals@) =~= rule_table_3()[6].signals);
        assert(texts(v@[6].commands@) =~= rule_table_3()[6].commands);
        assert(rule_text(v@[6]) == rule_table_3()[6]);
        assert(texts(v@[7].signals@) =~= rule_table_3()[7].signals);
        assert(texts(v@[7].commands@) =~= rule_table_3()[7].commands);
        assert(rule_text(v@[7]) == rule_table_3()[7]);
        assert(rule_texts(v@) =~= rule_table_3());
        assert(all_builtin(v@));
    }
    v
}

#[verifier::rlimit(40)]
fn rules_4() -> (v: Vec<RuleDef>)
    ensures
        rule_texts(v@) == rule_table_4(),
        all_builtin(v@),
{
    let v = vec![
        rule("middleware.elasticsearch.disk.error", "中间件", "error", "ES 磁盘水位过高", "elasticsearch.disk", "节点磁盘达到 flood stage", "", "ES 磁盘水位过高会导致索引只读或分片迁移失败。", vec!["_cat/allocation", "cluster settings"], vec!["curl -s localhost:9200/_cat/allocation?v", "curl -s localhost:9200/_cluster/settings?pretty"]),
        rule("web.nginx.config.error", "Web网关", "error", "Nginx 配置检测失败", "nginx.config", "nginx -t 返回失败", "", "Nginx 配置错误会导致 reload 失败或网关不可用。", vec!["nginx -t", "nginx.conf"], vec!["nginx -t", "nginx -T | head -120"]),
        rule("web.nginx.upstream.error", "Web网关", "error", "Nginx upstream 异常", "nginx.upstream", "error.log 出现 upstream failed/refused/timed out", "", "反向代理后端异常会导致 502/504，需要定位 upstream 地址、端口和后端服务状态。", vec!["nginx error.log", "upstream config"], vec!["tail -n 100 /var/log/nginx/error.log", "nginx -T | grep -n upstream -A20"]),
        rule("web.nginx.security.warning", "Web网关", "warn", "Nginx 安全配置不足", "nginx.security", "缺少 server_tokens off / TLS 安全项", "", "网关安全配置不足会暴露版本信息或弱 TLS 配置。", vec!["nginx -T", "server_tokens", "ssl_protocols"], vec!["nginx -T | grep -Ei 'server_tokens|ssl_protocols|add_header'"]),
        rule("web.caddy.down.error", "Web网关", "error", "Caddy 服务不可用", "caddy", "caddy 进程缺失或服务失败", "", "Caddy 作为入口网关不可用会直接导致站点访问失败，需要优先确认 systemd、端口和配置。", vec!["systemctl caddy", "ss -ltnp", "Caddyfile"], vec!["systemctl status caddy --no-pager", "journalctl -u caddy -n 160 --no-pager", "caddy validate --config /etc/caddy/Caddyfile"]),
        rule("web.caddy.config.error", "Web网关", "error", "Caddy 配置检测失败", "caddy.config", "caddy validate 返回失败", "", "Caddyfile 配置错误会导致 reload 或启动失败，常见于反向代理地址、证书和语法错误。", vec!["caddy validate", "Caddyfile"], vec!["caddy validate --config /etc/caddy/Caddyfile", "caddy fmt --diff /etc/caddy/Caddyfile"]),
        rule("web.caddy.upstream.error", "Web网关", "error", "Caddy upstream 异常", "caddy.upstream", "Caddy 日志出现 reverse_proxy dial/refused/timeout", "", "Caddy 反向代理后端异常通常来自后端端口未监听、连接拒绝、DNS 或超时。", vec!["caddy log", "reverse_proxy"], vec!["journalctl -u caddy --since '2 hours ago' --no-pager", "grep -RniE 'dial tcp|connection refused|timeout|502|503|504' /var/log/caddy 2>/dev/null | tail -80"]),
        rule("web.http.5xx.error", "异常类型", "error", "HTTP 5xx 错误增多", "http.5xx", "访问日志中 5xx 数量异常", "", "HTTP 5xx 表明网关或后端服务已影响请求成功率，需要关联 upstream、应用日志和发布时间。", vec!["access.log", "status>=500"], vec!["awk '$9 ~ /^5/ {print}' /var/log/nginx/access.log 2>/dev/null | tail -80", "grep -RniE ' 5[0-9][0-9] ' /var/log/caddy /var/log/nginx 2>/dev/null | tail -80"]),
    ];
    proof {
        assert(texts(v@[0].signals@) =~= rule_table_4()[0].signals);
        assert(texts(v@[0].commands@) =~= rule_table_4()[0].commands);
        assert(rule_text(v@[0]) == rule_table_4()[0]);
        assert(texts(v@[1].signals@) =~= rule_table_4()[1].signals);
        assert(texts(v@[1].commands@) =~= rule_table_4()[1].commands);
        assert(rule_text(v@[1]) == rule_table_4()[1]);
        assert(texts(v@[2].signals@) =~= rule_table_4()[2].signals);
        assert(texts(v@[2].commands@) =~= rule_table_4()[2].commands);
        assert(rule_text(v@[2]) == rule_table_4()[2]);
        assert(texts(v@[3].signals@) =~= rule_table_4()[3].signals);
        assert(texts(v@[3].commands@) =~= rule_table_4()[3].commands);
        assert(rule_text(v@[3]) == rule_table_4()[3]);
        assert(texts(v@[4].signals@) =~= rule_table_4()[4].signals);
        assert(texts(v@[4].commands@) =~= rule_table_4()[4].commands);
        assert(rule_text(v@[4]) == rule_table_4()[4]);
        assert(texts(v@[5].signals@) =~= rule_table_4()[5].signals);
        assert(texts(v@[5].commands@) =~= rule_table_4()[5].commands);
        assert(rule_text(v@[5]) == rule_table_4()[5]);
        assert(texts(v@[6].signals@) =~= rule_table_4()[6].signals);
        assert(texts(v@[6].commands@) =~= rule_table_4()[6].commands);
        assert(rule_text(v@[6]) == rule_table_4()[6]);
        assert(texts(v@[7].signals@) =~= rule_table_4()[7].signals);
        assert(texts(v@[7].commands@) =~= rule_table_4()[7].commands);
        assert(rule_text(v@[7]) == rule_table_4()[7]);
        assert(rule_texts(v@) =~= rule_table_4());
        assert(all_builtin(v@));
    }
    v
}

#[verifier::rlimit(40)]
fn rules_5() -> (v: Vec<RuleDef>)
    ensures
        rule_texts(v@) == rule_table_5(),
        all_builtin(v@),
{
    let v = vec![
        rule("web.http.4xx.warning", "异常类型", "warn", "HTTP 4xx 异常增多", "http.4xx", "访问日志中 4xx 数量异常", "", "HTTP 4xx 异常可能来自认证失败、路径变化、爬虫扫描或网关规则误配置。", vec!["access.log", "status>=400"], vec!["awk '$9 ~ /^4/ {print}' /var/log/nginx/access.log 2>/dev/null | tail -80", "grep -RniE ' 4[0-9][0-9] ' /var/log/caddy /var/log/nginx 2>/dev/null | tail -80"]),
        rule("web.tls.cert.warning", "配置风险", "warn", "TLS 证书即将过期", "tls.certificate", "证书剩余有效期 <= 15 天", "15", "证书过期会导致 HTTPS 访问失败，需要提前确认自动续签和证书链。", vec!["openssl x509", "cert notAfter"], vec!["openssl x509 -in <cert> -noout -dates", "systemctl status certbot.timer caddy --no-pager"]),
        rule("network.connection.exhaustion.error", "网络链路", "error", "连接数或 TIME_WAIT 异常", "network.connections", "连接数/TIME_WAIT/SYN_RECV 超过阈值", "", "连接耗尽会造成新请求失败，常见于流量突增、连接泄漏、后端慢响应或攻击流量。", vec!["ss -s", "SYN_RECV", "TIME_WAIT"], vec!["ss -s", "ss -ant state syn-recv | wc -l", "ss -ant state time-wait | wc -l"]),
        rule("network.packet.loss.warning", "网络链路", "warn", "网络丢包或重传异常", "network.loss", "网卡统计出现丢包/错误/重传异常", "", "丢包和重传会导致请求延迟升高，需要确认网卡、交换机、链路质量和突发流量。", vec!["ip -s link", "netstat -s"], vec!["ip -s link", "netstat -s | grep -Ei 'retrans|drop|error'"]),
        rule("network.port.conflict.error", "网络链路", "error", "端口冲突", "network.port", "多个进程争用或期望端口被占用", "", "端口冲突会导致服务启动失败或监听错误进程，需要确认占用者和启动顺序。", vec!["ss -ltnp", "service config"], vec!["ss -ltnp | grep ':<port>'", "lsof -i :<port>"]),
        rule("kernel.io.error", "内核异常", "error", "内核 IO 错误", "kernel.io", "dmesg/journal 出现 I/O error、EXT4-fs error、XFS error", "", "内核 IO 错误可能意味着磁盘、文件系统或底层存储异常，需要优先保护数据。", vec!["dmesg", "journalctl -k", "filesystem error"], vec!["dmesg -T | grep -Ei 'I/O error|EXT4-fs error|XFS.*error|blk_update_request' | tail -80", "journalctl -k --since '2 hours ago' --no-pager"]),
        rule("kernel.panic.error", "内核异常", "error", "内核严重异常", "kernel.panic", "日志出现 panic、BUG、soft lockup、hung task", "", "内核级异常可能导致系统卡顿或重启，需要保留日志并确认驱动、内核和硬件状态。", vec!["dmesg", "journalctl -k"], vec!["dmesg -T | grep -Ei 'panic|BUG:|soft lockup|hung task' | tail -80", "journalctl -k -p warning --since '6 hours ago' --no-pager"]),
        rule("runtime.container.restart.warning", "容器运行时", "warn", "容器频繁重启", "container.restart", "容器 RestartCount 短时间升高", "", "容器频繁重启通常来自探针失败、配置错误、依赖不可用或 OOM。", vec!["docker ps", "kubernetes restartCount"], vec!["docker ps --format 'table {{.Names}}\t{{.Status}}'", "kubectl get pods -A --sort-by=.status.containerStatuses[0].restartCount"]),
    ];
    proof {
        assert(texts(v@[0].signals@) =~= rule_table_5()[0].signals);
        assert(texts(v@[0].commands@) =~= rule_table_5()[0].commands);
        assert(rule_text(v@[0]) == rule_table_5()[0]);
        assert(texts(v@[1].signals@) =~= rule_table_5()[1].signals);
        assert(texts(v@[1].commands@) =~= rule_table_5()[1].commands);
        assert(rule_text(v@[1]) == rule_table_5()[1]);
        assert(texts(v@[2].signals@) =~= rule_table_5()[2].signals);
        assert(texts(v@[2].commands@) =~= rule_table_5()[2].commands);
        assert(rule_text(v@[2]) == rule_table_5()[2]);
        assert(texts(v@[3].signals@) =~= rule_table_5()[3].signals);
        assert(texts(v@[3].commands@) =~= rule_table_5()[3].commands);
        assert(rule_text(v@[3]) == rule_table_5()[3]);
        assert(texts(v@[4].signals@) =~= rule_table_5()[4].signals);
        assert(texts(v@[4].commands@) =~= rule_table_5()[4].commands);
        assert(rule_text(v@[4]) == rule_table_5()[4]);
        assert(texts(v@[5].signals@) =~= rule_table_5()[5].signals);
        assert(texts(v@[5].commands@) =~= rule_table_5()[5].commands);
        assert(rule_text(v@[5]) == rule_table_5()[5]);
        assert(texts(v@[6].signals@) =~= rule_table_5()[6].signals);
        assert(texts(v@[6].commands@) =~= rule_table_5()[6].commands);
        assert(rule_text(v@[6]) == rule_table_5()[6]);
        assert(texts(v@[7].signals@) =~= rule_table_5()[7].signals);
        assert(texts(v@[7].commands@) =~= rule_table_5()[7].commands);
        assert(rule_text(v@[7]) == rule_table_5()[7]);
        assert(rule_texts(v@) =~= rule_table_5());
        assert(all_builtin(v@));
    }
    v
}

#[verifier::rlimit(40)]
fn rules_6() -> (v: Vec<RuleDef>)
    ensures
        rule_texts(v@) == rule_table_6(),
        all_builtin(v@),
{
    let v = vec![
        rule("runtime.container.oom.error", "容器运行时", "error", "容器 OOM", "container.oom", "容器被 OOMKilled", "", "容器 OOM 会直接导致服务重启或请求失败，需要分析内存限制、堆大小和流量峰值。", vec!["docker inspect OOMKilled", "kubectl describe pod"], vec!["docker inspect <container> --format '{{.State.OOMKilled}}'", "kubectl describe pod <pod> -n <namespace> | grep -i oom -C3"]),
        rule("exception.stacktrace.error", "异常类型", "error", "应用堆栈异常", "application.stacktrace", "日志出现 Exception/Traceback/panic stack", "", "堆栈异常需要按首次异常、业务请求和发布时间定位根因，而不是只看最后一行。", vec!["application log", "stacktrace"], vec!["grep -RniE 'Exception|Traceback|panic:|stack trace|Caused by' <log_dir> | tail -100", "tail -n 300 <app.log>"]),
        rule("exception.timeout.warning", "异常类型", "warn", "调用超时异常", "application.timeout", "日志出现 timeout/deadline exceeded/read timed out", "", "超时异常通常来自下游慢、连接池耗尽、网络抖动或线程阻塞，需要结合上下游日志。", vec!["application log", "timeout keywords"], vec!["grep -RniE 'timeout|deadline exceeded|read timed out|connect timed out' <log_dir> | tail -100", "ss -antp | head -80"]),
        rule("exception.connection-refused.error", "异常类型", "error", "连接拒绝异常", "application.connection", "日志出现 connection refused / connect ECONNREFUSED", "", "连接拒绝说明目标服务端口不可达或未监听，需要确认目标地址、端口和防火墙。", vec!["application log", "connection refused"], vec!["grep -RniE 'connection refused|ECONNREFUSED|No route to host' <log_dir> | tail -100", "ss -ltnp"]),
        rule("exception.deadlock.error", "异常类型", "error", "死锁异常", "application.deadlock", "日志出现 deadlock 或数据库死锁", "", "死锁会导致事务回滚或请求超时，需要定位 SQL、锁等待和业务并发路径。", vec!["application log", "database log", "deadlock"], vec!["grep -RniE 'deadlock|Lock wait timeout' <log_dir> | tail -100", "mysql -e 'SHOW ENGINE INNODB STATUS\\G'"]),
        rule("storage.io-latency.warning", "存储异常", "warn", "磁盘 IO 延迟偏高", "storage.latency", "await/util 持续偏高", "", "磁盘 IO 延迟会影响数据库、日志写入和服务响应，需要确认热点盘和写入来源。", vec!["iostat await util", "pidstat -d"], vec!["iostat -x 1 5", "pidstat -d 1 5"]),
        rule("java.service.down.error", "Java服务", "error", "Java 服务进程缺失", "java.process", "按服务前缀未匹配到 Java 进程", "", "Java 进程缺失需要确认启动脚本、systemd 状态、端口和最近日志。", vec!["ps args", "service prefix"], vec!["ps -ef | grep java", "systemctl status <service> --no-pager"]),
        rule("java.gc.warning", "Java服务", "warn", "Java GC 异常频繁", "java.gc", "GC 日志出现频繁 Full GC/OOM", "", "频繁 Full GC 或 OOM 会造成接口停顿，需要分析堆、线程和对象增长。", vec!["gc.log", "jstat"], vec!["jstat -gcutil <pid> 1000 10", "grep -Ei 'full gc|outofmemory|java heap' <log> | tail -50"]),
    ];
    proof {
        assert(texts(v@[0].signals@) =~= rule_table_6()[0].signals);
        assert(texts(v@[0].commands@) =~= rule_table_6()[0].commands);
        assert(rule_text(v@[0]) == rule_table_6()[0]);
        assert(texts(v@[1].signals@) =~= rule_table_6()[1].signals);
        assert(texts(v@[1].commands@) =~= rule_table_6()[1].commands);
        assert(rule_text(v@[1]) == rule_table_6()[1]);
        assert(texts(v@[2].signals@) =~= rule_table_6()[2].signals);
        assert(texts(v@[2].commands@) =~= rule_table_6()[2].commands);
        assert(rule_text(v@[2]) == rule_table_6()[2]);
        assert(texts(v@[3].signals@) =~= rule_table_6()[3].signals);
        assert(texts(v@[3].commands@) =~= rule_table_6()[3].commands);
        assert(rule_text(v@[3]) == rule_table_6()[3]);
        assert(texts(v@[4].signals@) =~= rule_table_6()[4].signals);
        assert(texts(v@[4].commands@) =~= rule_table_6()[4].commands);
        assert(rule_text(v@[4]) == rule_table_6()[4]);
        assert(texts(v@[5].signals@) =~= rule_table_6()[5].signals);
        assert(texts(v@[5].commands@) =~= rule_table_6()[5].commands);
        assert(rule_text(v@[5]) == rule_table_6()[5]);
        assert(texts(v@[6].signals@) =~= rule_table_6()[6].signals);
        assert(texts(v@[6].commands@) =~= rule_table_6()[6].commands);
        assert(rule_text(v@[6]) == rule_table_6()[6]);
        assert(texts(v@[7].signals@) =~= rule_table_6()[7].signals);
        assert(texts(v@[7].commands@) =~= rule_table_6()[7].commands);
        assert(rule_text(v@[7]) == rule_table_6()[7]);
        assert(rule_texts(v@) =~= rule_table_6());
        assert(all_builtin(v@));
    }
    v
}

#[verifier::rlimit(40)]
fn rules_7() -> (v: Vec<RuleDef>)
    ensures
        rule_texts(v@) == rule_table_7(),
        all_builtin(v@),
{
    let v = vec![
        rule("java.thread.warning", "Java服务", "warn", "Java 线程数异常", "java.thread", "线程数超过阈值或大量 BLOCKED", "", "线程异常可能来自连接池耗尽、锁竞争或请求堆积。", vec!["jstack", "thread count"], vec!["jstack <pid> | head -200", "ps -eLf | awk '$2==<pid>{print}' | wc -l"]),
        rule("java.port.error", "Java服务", "error", "Java 服务端口未监听", "java.port", "Java 进程存在但端口未监听", "", "端口缺失通常表示应用启动失败、绑定地址错误或配置未加载。", vec!["ss -ltnp", "java pid"], vec!["ss -ltnp | grep <pid>", "tail -n 200 <app.log>"]),
        rule("config.file.missing.error", "配置风险", "error", "关键配置文件缺失", "config.file", "配置文件不存在或不可读", "", "关键配置缺失会造成服务启动失败或使用默认不安全配置。", vec!["configured path", "filesystem"], vec!["ls -l <config>", "namei -l <config>"]),
        rule("config.secret.warning", "配置风险", "warn", "配置中存在明文敏感信息", "config.secret", "配置文件匹配 password/token/secret", "", "明文敏感信息需要确认权限、脱敏和密钥管理策略。", vec!["config content", "file permissions"], vec!["grep -RniE 'password|token|secret' <config_dir>", "stat <config>"]),
        rule("config.listen.warning", "配置风险", "warn", "服务监听地址风险", "config.listen", "敏感服务监听 0.0.0.0", "", "敏感服务开放全部网卡可能扩大暴露面，需要结合现场访问策略确认。", vec!["ss -ltnp", "service config"], vec!["ss -ltnp", "grep -R \"0.0.0.0\" <config_dir>"]),
        rule("backup.missing.warning", "备份恢复", "warn", "近期未发现备份文件", "backup", "备份目录最近 N 天无新文件", "", "缺少近期备份会降低故障恢复能力，需要核对备份任务和备份介质。", vec!["backup directory", "mtime"], vec!["find <backup_dir> -type f -mtime -2 -ls | tail"]),
        rule("backup.failed.error", "备份恢复", "error", "备份任务失败", "backup.job", "备份日志/任务返回失败", "", "备份失败需要优先确认存储空间、权限、远端连接和脚本退出码。", vec!["backup log", "cron/systemd timer"], vec!["systemctl list-timers", "grep -Ei 'backup.*failed|error' <backup_log> | tail -50"]),
        rule("backup.restore.warning", "备份恢复", "warn", "缺少恢复验证记录", "restore.validation", "未发现恢复演练或校验记录", "", "只有备份没有恢复验证仍存在不可恢复风险，需要定期做恢复演练。", vec!["restore history", "checksum"], vec!["ls -l <backup_dir>", "sha256sum <backup_file>"]),
    ];
    proof {
        assert(texts(v@[0].signals@) =~= rule_table_7()[0].signals);
        assert(texts(v@[0].commands@) =~= rule_table_7()[0].commands);
        assert(rule_text(v@[0]) == rule_table_7()[0]);
        assert(texts(v@[1].signals@) =~= rule_table_7()[1].signals);
        assert(texts(v@[1].commands@) =~= rule_table_7()[1].commands);
        assert(rule_text(v@[1]) == rule_table_7()[1]);
        assert(texts(v@[2].signals@) =~= rule_table_7()[2].signals);
        assert(texts(v@[2].commands@) =~= rule_table_7()[2].commands);
        assert(rule_text(v@[2]) == rule_table_7()[2]);
        assert(texts(v@[3].signals@) =~= rule_table_7()[3].signals);
        assert(texts(v@[3].commands@) =~= rule_table_7()[3].commands);
        assert(rule_text(v@[3]) == rule_table_7()[3]);
        assert(texts(v@[4].signals@) =~= rule_table_7()[4].signals);
        assert(texts(v@[4].commands@) =~= rule_table_7()[4].commands);
        assert(rule_text(v@[4]) == rule_table_7()[4]);
        assert(texts(v@[5].signals@) =~= rule_table_7()[5].signals);
        assert(texts(v@[5].commands@) =~= rule_table_7()[5].commands);
        assert(rule_text(v@[5]) == rule_table_7()[5]);
        assert(texts(v@[6].signals@) =~= rule_table_7()[6].signals);
        assert(texts(v@[6].commands@) =~= rule_table_7()[6].commands);
        assert(rule_text(v@[6]) == rule_table_7()[6]);
        assert(texts(v@[7].signals@) =~= rule_table_7()[7].signals);
        assert(texts(v@[7].commands@) =~= rule_table_7()[7].commands);
        assert(rule_text(v@[7]) == rule_table_7()[7]);
        assert(rule_texts(v@) =~= rule_table_7());
        assert(all_builtin(v@));
    }
    v
}

#[verifier::rlimit(40)]
fn rules_8() -> (v: Vec<RuleDef>)
    ensures
        rule_texts(v@) == rule_table_8(),
        all_builtin(v@),
{
    let v = vec![
        rule("database.mysql.connection.warning", "数据库", "warn", "MySQL 连接数接近上限", "mysql.connections", "Threads_connected / max_connections >= 80%", "80", "连接数接近上限会造成新请求获取连接失败，需要确认连接池、慢 SQL 和泄漏连接。", vec!["SHOW GLOBAL STATUS Threads_connected", "max_connections"], vec!["mysql -e \"SHOW GLOBAL STATUS LIKE 'Threads_connected'\"", "mysql -e \"SHOW VARIABLES LIKE 'max_connections'\"", "mysql -e 'SHOW FULL PROCESSLIST'"]),
        rule("database.mysql.disk.error", "数据库", "error", "MySQL 数据目录磁盘不足", "mysql.datadir", "datadir 所在分区使用率 >= 90%", "90", "MySQL 数据目录空间不足会导致写入失败、binlog 无法落盘或实例异常退出。", vec!["datadir", "df -h", "binlog"], vec!["mysql -e \"SHOW VARIABLES LIKE 'datadir'\"", "df -h <datadir>", "du -xh <datadir> 2>/dev/null | sort -h | tail -30"]),
        rule("database.mysql.lock.warning", "数据库", "warn", "MySQL 锁等待异常", "mysql.locks", "锁等待/死锁/长事务异常", "", "锁等待会造成接口卡顿和连接堆积，需要定位阻塞事务、SQL 和业务并发路径。", vec!["INNODB_TRX", "SHOW ENGINE INNODB STATUS", "Lock wait"], vec!["mysql -e 'SHOW ENGINE INNODB STATUS\\G'", "mysql -e 'SELECT * FROM information_schema.INNODB_TRX\\G'"]),
        rule("database.redis.eviction.warning", "数据库", "warn", "Redis 淘汰或拒绝连接异常", "redis.stats", "evicted_keys/rejected_connections 增长", "", "Redis 出现淘汰或拒绝连接说明容量、连接池或客户端行为已经影响业务稳定性。", vec!["INFO stats evicted_keys", "rejected_connections"], vec!["redis-cli info stats | grep -E 'evicted_keys|rejected_connections'", "redis-cli info clients", "redis-cli info memory"]),
        rule("database.redis.persistence.warning", "数据库", "warn", "Redis 持久化失败", "redis.persistence", "rdb_last_bgsave_status/aof_last_bgrewrite_status != ok", "", "Redis 持久化失败会影响故障恢复，需要确认磁盘、权限、AOF/RDB 配置和后台保存日志。", vec!["INFO persistence", "redis log"], vec!["redis-cli info persistence", "grep -RniE 'background saving error|AOF|RDB' /var/log/redis* 2>/dev/null | tail -80"]),
        rule("middleware.kafka.underreplicated.error", "中间件", "error", "Kafka 副本不足", "kafka.replication", "UnderReplicatedPartitions > 0", "0", "Kafka 副本不足会降低可用性并可能影响生产消费稳定性，需要确认 broker、磁盘和 ISR。", vec!["UnderReplicatedPartitions", "kafka-topics --describe"], vec!["kafka-topics.sh --bootstrap-server <broker> --describe --under-replicated-partitions", "grep -RniE 'UnderReplicated|ISR|broker.*down' <kafka_log_dir> | tail -80"]),
        rule("middleware.kafka.controller.warning", "中间件", "warn", "Kafka 控制器频繁切换", "kafka.controller", "ActiveControllerCount 异常或 controller 日志频繁变更", "", "控制器频繁切换通常来自 broker 抖动、Zookeeper/KRaft 不稳或网络延迟。", vec!["ActiveControllerCount", "controller.log"], vec!["grep -RniE 'Controller moved|controller epoch|ActiveController' <kafka_log_dir> | tail -80", "kafka-broker-api-versions.sh --bootstrap-server <broker>"]),
        rule("middleware.rabbitmq.queue.warning", "中间件", "warn", "RabbitMQ 队列堆积", "rabbitmq.queue", "messages_ready/messages_unacknowledged 持续升高", "", "队列堆积会造成业务延迟，需要定位消费者状态、死信、限流和下游处理能力。", vec!["rabbitmqctl list_queues", "messages_ready"], vec!["rabbitmqctl list_queues name messages_ready messages_unacknowledged consumers", "rabbitmqctl list_connections"]),
    ];
    proof {
        assert(texts(v@[0].signals@) =~= rule_table_8()[0].signals);
        assert(texts(v@[0].commands@) =~= rule_table_8()[0].commands);
        assert(rule_text(v@[0]) == rule_table_8()[0]);
        assert(texts(v@[1].signals@) =~= rule_table_8()[1].signals);
        assert(texts(v@[1].commands@) =~= rule_table_8()[1].commands);
        assert(rule_text(v@[1]) == rule_table_8()[1]);
        assert(texts(v@[2].signals@) =~= rule_table_8()[2].signals);
        assert(texts(v@[2].commands@) =~= rule_table_8()[2].commands);
        assert(rule_text(v@[2]) == rule_table_8()[2]);
        assert(texts(v@[3].signals@) =~= rule_table_8()[3].signals);
        assert(texts(v@[3].commands@) =~= rule_table_8()[3].commands);
        assert(rule_text(v@[3]) == rule_table_8()[3]);
        assert(texts(v@[4].signals@) =~= rule_table_8()[4].signals);
        assert(texts(v@[4].commands@) =~= rule_table_8()[4].commands);
        assert(rule_text(v@[4]) == rule_table_8()[4]);
        assert(texts(v@[5].signals@) =~= rule_table_8()[5].signals);
        assert(texts(v@[5].commands@) =~= rule_table_8()[5].commands);
        assert(rule_text(v@[5]) == rule_table_8()[5]);
        assert(texts(v@[6].signals@) =~= rule_table_8()[6].signals);
        assert(texts(v@[6].commands@) =~= rule_table_8()[6].commands);
        assert(rule_text(v@[6]) == rule_table_8()[6]);
        assert(texts(v@[7].signals@) =~= rule_table_8()[7].signals);
        assert(texts(v@[7].commands@) =~= rule_table_8()[7].commands);
        assert(rule_text(v@[7]) == rule_table_8()[7]);
        assert(rule_texts(v@) =~= rule_table_8());
        assert(all_builtin(v@));
    }
    v
}

#[verifier::rlimit(40)]
fn rules_9() -> (v: Vec<RuleDef>)
    ensures
        rule_texts(v@) == rule_table_9(),
        all_builtin(v@),
{
    let v = vec![
        rule("middleware.zookeeper.down.error", "中间件", "error", "Zookeeper 节点不可用", "zookeeper", "ruok 未返回 imok 或服务失败", "", "Zookeeper 不可用会影响依赖的注册、选主或 Kafka 老集群稳定性。", vec!["ruok", "mntr", "systemctl zookeeper"], vec!["echo ruok | nc 127.0.0.1 2181", "echo mntr | nc 127.0.0.1 2181", "systemctl status zookeeper --no-pager"]),
        rule("web.gateway.cert.error", "Web网关", "error", "TLS 证书已过期", "tls.certificate", "证书已过期或证书链不可用", "", "证书过期会直接导致 HTTPS 访问失败，需要立即更新证书并确认自动续签链路。", vec!["openssl x509 notAfter", "curl TLS"], vec!["openssl x509 -in <cert> -noout -dates", "curl -Iv https://<domain> 2>&1 | head -60"]),
        rule("security.ssh.bruteforce.warning", "安全风险", "warn", "SSH 暴力尝试异常", "ssh.auth", "短时间认证失败次数异常", "", "SSH 暴力尝试可能带来账户风险，需要确认来源 IP、登录策略和防护规则。", vec!["auth.log Failed password", "journal sshd"], vec!["journalctl -u sshd --since '2 hours ago' --no-pager | grep -Ei 'Failed|Invalid' | tail -100", "grep -Ei 'Failed password|Invalid user' /var/log/auth.log 2>/dev/null | tail -100"]),
        rule("security.firewall.disabled.warning", "安全风险", "warn", "防火墙未启用", "firewall", "firewalld/ufw/iptables 规则为空或未运行", "", "防火墙未启用会扩大服务暴露面，需要结合现场网络边界确认是否符合要求。", vec!["systemctl firewalld", "ufw status", "iptables -S"], vec!["systemctl status firewalld ufw --no-pager", "iptables -S | head -80", "nft list ruleset 2>/dev/null | head -120"]),
        rule("security.selinux.disabled.info", "安全风险", "info", "SELinux 未启用", "selinux", "SELinux disabled/permissive", "", "SELinux 未启用不一定是故障，但需要与现场安全基线一致并记录原因。", vec!["getenforce", "/etc/selinux/config"], vec!["getenforce", "grep -n '^SELINUX=' /etc/selinux/config 2>/dev/null"]),
        rule("config.drift.warning", "配置风险", "warn", "配置疑似漂移", "config.drift", "运行配置与磁盘配置、模板或预期值不一致", "", "配置漂移会导致重启后行为变化，需要确认运行态、文件态和发布记录是否一致。", vec!["runtime config", "file checksum", "template"], vec!["sha256sum <config>", "systemctl cat <service>", "diff -u <expected> <config>"]),
        rule("runtime.docker.daemon.error", "容器运行时", "error", "Docker daemon 异常", "docker.daemon", "docker info 失败或 daemon 日志异常", "", "Docker daemon 异常会影响容器启动、网络和镜像操作，需要先确认 daemon、存储驱动和日志。", vec!["docker info", "dockerd journal"], vec!["docker info", "systemctl status docker --no-pager", "journalctl -u docker --since '2 hours ago' --no-pager"]),
        rule("runtime.kubernetes.notready.error", "容器运行时", "error", "Kubernetes 节点 NotReady", "kubernetes.node", "Node Ready != True", "", "节点 NotReady 会影响 Pod 调度和服务可用性，需要确认 kubelet、容器运行时、磁盘和网络插件。", vec!["kubectl get nodes", "kubelet journal"], vec!["kubectl get nodes -o wide", "kubectl describe node <node>", "journalctl -u kubelet --since '2 hours ago' --no-pager"]),
    ];
    proof {
        assert(texts(v@[0].signals@) =~= rule_table_9()[0].signals);
        assert(texts(v@[0].commands@) =~= rule_table_9()[0].commands);
        assert(rule_text(v@[0]) == rule_table_9()[0]);
        assert(texts(v@[1].signals@) =~= rule_table_9()[1].signals);
        assert(texts(v@[1].commands@) =~= rule_table_9()[1].commands);
        assert(rule_text(v@[1]) == rule_table_9()[1]);
        assert(texts(v@[2].signals@) =~= rule_table_9()[2].signals);
        assert(texts(v@[2].commands@) =~= rule_table_9()[2].commands);
        assert(rule_text(v@[2]) == rule_table_9()[2]);
        assert(texts(v@[3].signals@) =~= rule_table_9()[3].signals);
        assert(texts(v@[3].commands@) =~= rule_table_9()[3].commands);
        assert(rule_text(v@[3]) == rule_table_9()[3]);
        assert(texts(v@[4].signals@) =~= rule_table_9()[4].signals);
        assert(texts(v@[4].commands@) =~= rule_table_9()[4].commands);
        assert(rule_text(v@[4]) == rule_table_9()[4]);
        assert(texts(v@[5].signals@) =~= rule_table_9()[5].signals);
        assert(texts(v@[5].commands@) =~= rule_table_9()[5].commands);
        assert(rule_text(v@[5]) == rule_table_9()[5]);
        assert(texts(v@[6].signals@) =~= rule_table_9()[6].signals);
        assert(texts(v@[6].commands@) =~= rule_table_9()[6].commands);
        assert(rule_text(v@[6]) == rule_table_9()[6]);
        assert(texts(v@[7].signals@) =~= rule_table_9()[7].signals);
        assert(texts(v@[7].commands@) =~= rule_table_9()[7].commands);
        assert(rule_text(v@[7]) == rule_table_9()[7]);
        assert(rule_texts(v@) =~= rule_table_9());
        assert(all_builtin(v@));
    }
    v
}

#[verifier::rlimit(40)]
fn rules_10() -> (v: Vec<RuleDef>)
    ensures
        rule_texts(v@) == rule_table_10(),
        all_builtin(v@),
{
    let v = vec![
        rule("storage.readonly.error", "存储异常", "error", "文件系统只读", "filesystem.readonly", "mount 显示 ro 或日志出现 remount read-only", "", "文件系统只读通常来自底层 IO 或文件系统错误，会导致数据库、日志和业务写入失败。", vec!["mount ro", "EXT4-fs remount", "XFS error"], vec!["mount | grep ' ro,'", "dmesg -T | grep -Ei 'read-only|remount|EXT4-fs error|XFS.*error' | tail -100"]),
        rule("storage.nfs.stale.error", "存储异常", "error", "NFS 挂载异常", "nfs.mount", "stale file handle / nfs timeout / 挂载不可访问", "", "NFS 异常会造成进程卡死、IO 等待和文件访问失败，需要确认服务端、网络和挂载参数。", vec!["nfs mount", "stale file handle", "dmesg"], vec!["mount | grep -i nfs", "dmesg -T | grep -Ei 'nfs|stale file handle|server not responding' | tail -100"]),
        rule("network.dns.error", "网络链路", "error", "DNS 解析异常", "dns", "关键域名解析失败或耗时异常", "", "DNS 解析异常会造成下游连接失败、接口超时和服务注册异常。", vec!["resolv.conf", "dig/nslookup", "systemd-resolved"], vec!["cat /etc/resolv.conf", "dig <domain>", "resolvectl status 2>/dev/null | head -120"]),
        rule("network.firewall.drop.warning", "网络链路", "warn", "防火墙丢包或拒绝异常", "network.firewall", "iptables/nftables/journal 出现 DROP/REJECT 异常", "", "防火墙丢弃可能导致端口偶发不可达，需要关联策略、来源地址和业务访问路径。", vec!["iptables counters", "nft ruleset", "kernel DROP"], vec!["iptables -vnL | head -120", "nft list ruleset 2>/dev/null | head -160", "journalctl -k --since '2 hours ago' --no-pager | grep -Ei 'DROP|REJECT' | tail -80"]),
        rule("exception.null-pointer.error", "异常类型", "error", "空指针异常", "application.null_pointer", "日志出现 NullPointerException/NoneType/nil pointer", "", "空指针异常通常来自代码缺陷、脏数据或配置缺失，需要定位首次异常和请求上下文。", vec!["application log", "NullPointerException", "NoneType"], vec!["grep -RniE 'NullPointerException|NoneType|nil pointer|null reference' <log_dir> | tail -100", "tail -n 300 <app.log>"]),
        rule("exception.out-of-memory.error", "异常类型", "error", "应用内存溢出", "application.oom", "日志出现 OutOfMemoryError / memory allocation failed", "", "应用内存溢出会导致进程退出或请求失败，需要确认堆大小、对象增长和最近流量变化。", vec!["application log", "OutOfMemoryError", "oom"], vec!["grep -RniE 'OutOfMemoryError|memory allocation failed|Cannot allocate memory' <log_dir> | tail -100", "ps -eo pid,comm,rss,%mem --sort=-rss | head -20"]),
        rule("exception.database-pool.warning", "异常类型", "warn", "数据库连接池耗尽", "application.db_pool", "日志出现 connection pool exhausted / timeout waiting for connection", "", "连接池耗尽会造成接口超时，需要确认慢 SQL、连接泄漏、池配置和数据库连接上限。", vec!["application log", "connection pool", "timeout"], vec!["grep -RniE 'connection pool|timeout waiting for connection|HikariPool|Too many connections' <log_dir> | tail -100", "mysql -e 'SHOW FULL PROCESSLIST'"]),
        rule("schedule.cron.failed.warning", "调度任务", "warn", "定时任务执行失败", "cron.job", "cron/systemd timer 日志出现失败或退出码非 0", "", "定时任务失败会影响备份、清理和巡检类维护动作，需要定位任务脚本、权限和最近输出。", vec!["cron log", "systemd timer", "exit code"], vec!["systemctl list-timers --all", "journalctl --since '24 hours ago' --no-pager | grep -Ei 'cron|timer|failed|exit status' | tail -120"]),
    ];
    proof {
        assert(texts(v@[0].signals@) =~= rule_table_10()[0].signals);
        assert(texts(v@[0].commands@) =~= rule_table_10()[0].commands);
        assert(rule_text(v@[0]) == rule_table_10()[0]);
        assert(texts(v@[1].signals@) =~= rule_table_10()[1].signals);
        assert(texts(v@[1].commands@) =~= rule_table_10()[1].commands);
        assert(rule_text(v@[1]) == rule_table_10()[1]);
        assert(texts(v@[2].signals@) =~= rule_table_10()[2].signals);
        assert(texts(v@[2].commands@) =~= rule_table_10()[2].commands);
        assert(rule_text(v@[2]) == rule_table_10()[2]);
        assert(texts(v@[3].signals@) =~= rule_table_10()[3].signals);
        assert(texts(v@[3].commands@) =~= rule_table_10()[3].commands);
        assert(rule_text(v@[3]) == rule_table_10()[3]);
        assert(texts(v@[4].signals@) =~= rule_table_10()[4].signals);
        assert(texts(v@[4].commands@) =~= rule_table_10()[4].commands);
        assert(rule_text(v@[4]) == rule_table_10()[4]);
        assert(texts(v@[5].signals@) =~= rule_table_10()[5].signals);
        assert(texts(v@[5].commands@) =~= rule_table_10()[5].commands);
        assert(rule_text(v@[5]) == rule_table_10()[5]);
        assert(texts(v@[6].signals@) =~= rule_table_10()[6].signals);
        assert(texts(v@[6].commands@) =~= rule_table_10()[6].commands);
        assert(rule_text(v@[6]) == rule_table_10()[6]);
        assert(texts(v@[7].signals@) =~= rule_table_10()[7].signals);
        assert(texts(v@[7].commands@) =~= rule_table_10()[7].commands);
        assert(rule_text(v@[7]) == rule_table_10()[7]);
        assert(rule_texts(v@) =~= rule_table_10());
        assert(all_builtin(v@));
    }
    v
}

#[verifier::rlimit(40)]
fn rules_11() -> (v: Vec<RuleDef>)
    ensures
        rule_texts(v@) == rule_table_11(),
        all_builtin(v@),
{
    let v = vec![
        rule("check.generic.warning", "检查结果", "warn", "检查项警告", "check", "结构化检查返回 warn", "", "常规检查输出警告项，规则引擎会保留原始证据并给出处理建议。", vec!["CheckResult.sections.items.status=warn"], vec!["dm check <id>"]),
        rule("check.generic.error", "检查结果", "error", "检查项异常", "check", "结构化检查返回 error", "", "常规检查输出异常项，规则引擎会同步到系统告警并保留详情。", vec!["CheckResult.sections.items.status=error"], vec!["dm check <id>"]),
        rule("check.timeout.warning", "检查结果", "warn", "检查项执行超时", "check.timeout", "检查执行超过后台体检超时", "", "检查超时通常表示连接、命令或权限异常，需要进入单项检查定位。", vec!["health task timeout", "duration"], vec!["dm check <id>"]),
        rule("script.failure.warning", "脚本执行", "warn", "近期脚本执行失败", "script.history", "最近执行历史中失败次数 >= 2", "2", "维护脚本连续失败通常代表现场维护动作未完成、参数错误、权限不足或依赖命令不可用。", vec!["exec_history.exit_code", "script_id", "script_name"], vec!["dm logs <script_id>", "dm stats <script_id>"]),
    ];
    proof {
        assert(texts(v@[0].signals@) =~= rule_table_11()[0].signals);
        assert(texts(v@[0].commands@) =~= rule_table_11()[0].commands);
        assert(rule_text(v@[0]) == rule_table_11()[0]);
        assert(texts(v@[1].signals@) =~= rule_table_11()[1].signals);
        assert(texts(v@[1].commands@) =~= rule_table_11()[1].commands);
        assert(rule_text(v@[1]) == rule_table_11()[1]);
        assert(texts(v@[2].signals@) =~= rule_table_11()[2].signals);
        assert(texts(v@[2].commands@) =~= rule_table_11()[2].commands);
        assert(rule_text(v@[2]) == rule_table_11()[2]);
        assert(texts(v@[3].signals@) =~= rule_table_11()[3].signals);
        assert(texts(v@[3].commands@) =~= rule_table_11()[3].commands);
        assert(rule_text(v@[3]) == rule_table_11()[3]);
        assert(rule_texts(v@) =~= rule_table_11());
        assert(all_builtin(v@));
    }
    v
}

fn append_rules(out: &mut Vec<RuleDef>, part: Vec<RuleDef>)
    requires
        all_builtin(old(out)@),
        all_builtin(part@),
    ensures
        rule_texts(final(out)@) == rule_texts(old(out)@) + rule_texts(part@),
        all_builtin(final(out)@),
{
    let ghost before = rule_texts(out@);
    let mut part = part;
    let ghost pv = rule_texts(part@);
    let n: usize = part.len();
    let mut i: usize = 0;
    while part.len() > 0
        invariant
            i + part@.len() == n,
            rule_texts(part@) == pv.skip(i as int),
            rule_texts(out@) == before + pv.take(i as int),
            pv.len() == n,
            all_builtin(out@),
            all_builtin(part@),
        decreases part@.len(),
    {
        let ghost old_part = part@;
        let r = part.remove(0);
        proof {
            assert(part@ =~= old_part.drop_first());
            assert(rule_texts(old_part)[0] == rule_text(r));
            assert(pv.skip(i as int)[0] == pv[i as int]);
            assert(rule_text(r) == pv[i as int]);
            assert(rule_texts(part@) =~= rule_texts(old_part).drop_first());
            assert(pv.skip(i as int).drop_first() =~= pv.skip(i + 1));
        }
        let ghost prev = rule_texts(out@);
        out.push(r);
        assert(rule_texts(out@) =~= prev.push(rule_text(r)));
        assert(pv.take(i + 1) =~= pv.take(i as int).push(pv[i as int]));
        i = i + 1;
    }
    assert(pv.take(i as int) =~= pv);
}

/// The built-in rules, in catalogue order.
pub fn rule_catalog() -> (r: Vec<RuleDef>)
    ensures
        rule_texts(r@) == rule_table(),
        all_builtin(r@),
{
    let mut out: Vec<RuleDef> = Vec::new();
    assert(rule_texts(out@) =~= Seq::<RuleText>::empty());
    append_rules(&mut out, rules_0());
    append_rules(&mut out, rules_1());
    append_rules(&mut out, rules_2());
    append_rules(&mut out, rules_3());
    append_rules(&mut out, rules_4());
    append_rules(&mut out, rules_5());
    append_rules(&mut out, rules_6());
    append_rules(&mut out, rules_7());
    append_rules(&mut out, rules_8());
    append_rules(&mut out, rules_9());
    append_rules(&mut out, rules_10());
    append_rules(&mut out, rules_11());
    assert(rule_texts(out@) =~= rule_table());
    out
}

} // verus!
