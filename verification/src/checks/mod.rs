//! Check catalogue and the status every check reports.
use vstd::prelude::*;

pub mod common;
pub mod elasticsearch;
pub mod endpoint;
pub mod es_paths;
pub mod es_status;
pub mod java_service;
pub mod keepalived;
pub mod listen;
pub mod middleware;
pub mod middleware_hits;
pub mod previews;
pub mod redis;
pub mod sections;
pub mod service_manage;
pub mod system;
pub mod tally;

verus! {

/// Result status of one check run.
pub enum CheckStatus {
    Healthy,
    Warn,
    Error,
    Info,
}

/// A check as the catalogue lists it.
pub struct CheckInfo {
    pub id: String,
    pub name: String,
    pub description: String,
    pub category: String,
}

pub struct CheckInfoView {
    pub id: Seq<char>,
    pub name: Seq<char>,
    pub description: Seq<char>,
    pub category: Seq<char>,
}

impl View for CheckInfo {
    type V = CheckInfoView;

    open spec fn view(&self) -> CheckInfoView {
        CheckInfoView {
            id: self.id@,
            name: self.name@,
            description: self.description@,
            category: self.category@,
        }
    }
}

pub open spec fn info_views(v: Seq<CheckInfo>) -> Seq<CheckInfoView> {
    v.map_values(|c: CheckInfo| c@)
}

pub open spec fn civ(id: Seq<char>, name: Seq<char>, description: Seq<char>, category: Seq<char>) -> CheckInfoView {
    CheckInfoView { id, name, description, category }
}

/// The built-in checks, in the order they are offered.
pub open spec fn builtin_checks() -> Seq<CheckInfoView> {
    seq![
        civ("system"@, "系统综合检查"@, "主机信息/CPU/内存/磁盘/网络/进程"@, "常规检查"@),
        civ("security"@, "安全策略检查"@, "SELinux/AppArmor/防火墙/内核加固"@, "常规检查"@),
        civ("network"@, "网络诊断"@, "网卡/端口/SSL/防火墙"@, "常规检查"@),
        civ("resource"@, "硬件资源"@, "CPU/内存/磁盘/Swap/IO"@, "常规检查"@),
        civ("service"@, "服务状态"@, "分类/端口/异常/状态"@, "常规检查"@),
        civ("environment"@, "环境信息"@, "系统/变量/软件/用户"@, "常规检查"@),
        civ("container"@, "容器状态"@, "Docker容器/镜像/状态"@, "常规检查"@),
        civ("middleware"@, "中间件"@, "Nginx/Redis/MySQL/Kafka/ES"@, "常规检查"@),
        civ("elasticsearch"@, "Elasticsearch 健康检查"@, "健康/存储/索引/分片/任务/日志/备份/配置"@, "常规检查"@),
        civ("redis"@, "Redis 常规检查"@, "状态/连接/异常日志/Key 分布/AOF 修复"@, "常规检查"@),
        civ("nginx"@, "Nginx 常规检查"@, "端口/反向代理/安全配置/异常日志"@, "常规检查"@),
        civ("keepalived"@, "Keepalived 常规检查"@, "节点/VIP/脚本/日志/配置"@, "常规检查"@),
        civ("mysql"@, "MySQL 常规检查"@, "连接/数据库统计/异常日志/备份恢复"@, "常规检查"@),
        civ("java-service"@, "Java 服务常规检查"@, "服务前缀/进程/线程/端口/异常日志/堆栈建议"@, "常规检查"@),
        civ("business-check"@, "业务综合检查"@, "统一汇总系统、中间件、Java 服务、网络与安全异常"@, "常规检查"@),
        civ("schedule"@, "定时任务"@, "crontab/系统cron/服务状态"@, "常规检查"@),
        civ("smart-check"@, "智能全量体检"@, "智能综合检查：系统配置/服务/安全"@, "常规检查"@),
        civ("service-manage"@, "服务管理"@, "管理系统内所有服务：Java优先 > 中间件 > 系统进程"@, "服务管理"@),
    ]
}

fn info(id: &str, name: &str, description: &str, category: &str) -> (c: CheckInfo)
    ensures
        c@ == civ(id@, name@, description@, category@),
{
    CheckInfo {
        id: id.to_owned(),
        name: name.to_owned(),
        description: description.to_owned(),
        category: category.to_owned(),
    }
}

/// The checks that run built in; any other identifier is run as a plugin.
pub enum BuiltinCheck {
    System,
    Security,
    Network,
    Resource,
    Service,
    Environment,
    Container,
    Middleware,
    Schedule,
    SmartCheck,
    ServiceManage,
    Elasticsearch,
    Redis,
    Nginx,
    Keepalived,
    Mysql,
    JavaService,
    BusinessCheck,
}

/// The built-in check that an identifier names, if any.
pub open spec fn builtin_check_spec(id: Seq<char>) -> Option<BuiltinCheck> {
    if id == "system"@ {
        Some(BuiltinCheck::System)
    } else if id == "security"@ {
        Some(BuiltinCheck::Security)
    } else if id == "network"@ {
        Some(BuiltinCheck::Network)
    } else if id == "resource"@ {
        Some(BuiltinCheck::Resource)
    } else if id == "service"@ {
        Some(BuiltinCheck::Service)
    } else if id == "environment"@ {
        Some(BuiltinCheck::Environment)
    } else if id == "container"@ {
        Some(BuiltinCheck::Container)
    } else if id == "middleware"@ {
        Some(BuiltinCheck::Middleware)
    } else if id == "schedule"@ {
        Some(BuiltinCheck::Schedule)
    } else if id == "smart-check"@ {
        Some(BuiltinCheck::SmartCheck)
    } else if id == "service-manage"@ {
        Some(BuiltinCheck::ServiceManage)
    } else if id == "elasticsearch"@ {
        Some(BuiltinCheck::Elasticsearch)
    } else if id == "redis"@ {
        Some(BuiltinCheck::Redis)
    } else if id == "nginx"@ {
        Some(BuiltinCheck::Nginx)
    } else if id == "keepalived"@ {
        Some(BuiltinCheck::Keepalived)
    } else if id == "mysql"@ {
        Some(BuiltinCheck::Mysql)
    } else if id == "java-service"@ {
        Some(BuiltinCheck::JavaService)
    } else if id == "business-check"@ {
        Some(BuiltinCheck::BusinessCheck)
    } else {
        None
    }
}

/// Which built-in check runs for `id`; `None` sends it to the plugins.
pub fn builtin_check(id: &str) -> (r: Option<BuiltinCheck>)
    ensures
        r == builtin_check_spec(id@),
{
    let c = crate::text::chars_of(id);
    if crate::text::eq_str(c.as_slice(), "system") {
        Some(BuiltinCheck::System)
    } else if crate::text::eq_str(c.as_slice(), "security") {
        Some(BuiltinCheck::Security)
    } else if crate::text::eq_str(c.as_slice(), "network") {
        Some(BuiltinCheck::Network)
    } else if crate::text::eq_str(c.as_slice(), "resource") {
        Some(BuiltinCheck::Resource)
    } else if crate::text::eq_str(c.as_slice(), "service") {
        Some(BuiltinCheck::Service)
    } else if crate::text::eq_str(c.as_slice(), "environment") {
        Some(BuiltinCheck::Environment)
    } else if crate::text::eq_str(c.as_slice(), "container") {
        Some(BuiltinCheck::Container)
    } else if crate::text::eq_str(c.as_slice(), "middleware") {
        Some(BuiltinCheck::Middleware)
    } else if crate::text::eq_str(c.as_slice(), "schedule") {
        Some(BuiltinCheck::Schedule)
    } else if crate::text::eq_str(c.as_slice(), "smart-check") {
        Some(BuiltinCheck::SmartCheck)
    } else if crate::text::eq_str(c.as_slice(), "service-manage") {
        Some(BuiltinCheck::ServiceManage)
    } else if crate::text::eq_str(c.as_slice(), "elasticsearch") {
        Some(BuiltinCheck::Elasticsearch)
    } else if crate::text::eq_str(c.as_slice(), "redis") {
        Some(BuiltinCheck::Redis)
    } else if crate::text::eq_str(c.as_slice(), "nginx") {
        Some(BuiltinCheck::Nginx)
    } else if crate::text::eq_str(c.as_slice(), "keepalived") {
        Some(BuiltinCheck::Keepalived)
    } else if crate::text::eq_str(c.as_slice(), "mysql") {
        Some(BuiltinCheck::Mysql)
    } else if crate::text::eq_str(c.as_slice(), "java-service") {
        Some(BuiltinCheck::JavaService)
    } else if crate::text::eq_str(c.as_slice(), "business-check") {
        Some(BuiltinCheck::BusinessCheck)
    } else {
        None
    }
}

/// Every built-in check that the catalogue lists is run by a built-in check, never
/// handed to the plugins.
pub proof fn law_listed_checks_are_builtin(i: int)
    requires
        0 <= i < builtin_checks().len(),
    ensures
        builtin_check_spec(builtin_checks()[i].id) is Some,
{
}

/// `list_checks`: the built-in checks followed by the discovered plugins.
pub fn list_checks(plugins: Vec<CheckInfo>) -> (r: Vec<CheckInfo>)
    ensures
        info_views(r@) == builtin_checks() + info_views(plugins@),
{
    let mut checks: Vec<CheckInfo> = Vec::new();
    checks.push(info("system", "系统综合检查", "主机信息/CPU/内存/磁盘/网络/进程", "常规检查"));
    checks.push(info("security", "安全策略检查", "SELinux/AppArmor/防火墙/内核加固", "常规检查"));
    checks.push(info("network", "网络诊断", "网卡/端口/SSL/防火墙", "常规检查"));
    checks.push(info("resource", "硬件资源", "CPU/内存/磁盘/Swap/IO", "常规检查"));
    checks.push(info("service", "服务状态", "分类/端口/异常/状态", "常规检查"));
    checks.push(info("environment", "环境信息", "系统/变量/软件/用户", "常规检查"));
    checks.push(info("container", "容器状态", "Docker容器/镜像/状态", "常规检查"));
    checks.push(info("middleware", "中间件", "Nginx/Redis/MySQL/Kafka/ES", "常规检查"));
    checks.push(info("elasticsearch", "Elasticsearch 健康检查", "健康/存储/索引/分片/任务/日志/备份/配置", "常规检查"));
    checks.push(info("redis", "Redis 常规检查", "状态/连接/异常日志/Key 分布/AOF 修复", "常规检查"));
    checks.push(info("nginx", "Nginx 常规检查", "端口/反向代理/安全配置/异常日志", "常规检查"));
    checks.push(info("keepalived", "Keepalived 常规检查", "节点/VIP/脚本/日志/配置", "常规检查"));
    checks.push(info("mysql", "MySQL 常规检查", "连接/数据库统计/异常日志/备份恢复", "常规检查"));
    checks.push(info("java-service", "Java 服务常规检查", "服务前缀/进程/线程/端口/异常日志/堆栈建议", "常规检查"));
    checks.push(info("business-check", "业务综合检查", "统一汇总系统、中间件、Java 服务、网络与安全异常", "常规检查"));
    checks.push(info("schedule", "定时任务", "crontab/系统cron/服务状态", "常规检查"));
    checks.push(info("smart-check", "智能全量体检", "智能综合检查：系统配置/服务/安全", "常规检查"));
    checks.push(info("service-manage", "服务管理", "管理系统内所有服务：Java优先 > 中间件 > 系统进程", "服务管理"));
    assert(info_views(checks@) =~= builtin_checks());
    let mut plugins = plugins;
    let ghost pv = info_views(plugins@);
    checks.append(&mut plugins);
    assert(info_views(checks@) =~= builtin_checks() + pv);
    checks
}

} // verus!
