//! A whole check result judged by the rule engine: the generic findings of its
//! sections, then the findings of the rules of its own check, chosen by its id.
use vstd::prelude::*;
use crate::anomaly::{AnomalyFinding, AnomalyView, anomaly_views};
use crate::anomaly::evaluate::{Item, Section, alarming, findings_title, item_findings, items_findings, enrich_sections, enriched_sections, evaluate_sections, finding_levels, sections_findings};
use crate::anomaly::java_rules::{java_list_findings_spec, java_log_keyword_findings, java_service_list_findings, log_findings_upto, log_rule_count};
use crate::anomaly::java_runtime::{RowFloats, java_runtime_findings, runtime_rows_findings};
use crate::anomaly::rules::{label_finding_spec, es_findings, es_findings_spec, escalated_spec, kafka_findings, kafka_findings_spec, keepalived_findings, keepalived_findings_spec, nginx_findings, nginx_findings_spec, one_if, redis_findings, redis_findings_spec, rows_views, service_findings_spec, service_manage_findings};
use crate::checks::CheckStatus;
use crate::text::{chars_of, contains_spec, eq_str, join, join_spec, opt_str_view, string_of, unicode_lowercase, views};

verus! {

/// The result of one check run: what the check is, its version, when it ran and for
/// how long (in milliseconds), the status it reported and its sections.
pub struct CheckResult {
    pub id: String,
    pub name: String,
    pub description: String,
    pub category: String,
    pub version: String,
    pub timestamp: String,
    pub duration_ms: u64,
    pub status: CheckStatus,
    pub sections: Vec<Section>,
}

// ---------------------------------------------------------------------------
// Lookups
// ---------------------------------------------------------------------------

/// The position of the first section from position `i` on titled `title`.
pub open spec fn titled_from(ss: Seq<Section>, title: Seq<char>, i: int) -> Option<int>
    decreases ss.len() - i,
{
    if i < 0 || i >= ss.len() {
        None
    } else if ss[i].title@ == title {
        Some(i)
    } else {
        titled_from(ss, title, i + 1)
    }
}

/// The value of the first label keyed `key` from position `j` on.
pub open spec fn label_from(items: Seq<Item>, key: Seq<char>, j: int) -> Option<Seq<char>>
    decreases items.len() - j,
{
    if j < 0 || j >= items.len() {
        None
    } else if items[j] matches Item::Label { key: k, value, .. } && k@ == key {
        Some(items[j]->Label_value@)
    } else {
        label_from(items, key, j + 1)
    }
}

/// The rows of the first table from position `j` on.
pub open spec fn table_from(items: Seq<Item>, j: int) -> Option<Seq<Seq<Seq<char>>>>
    decreases items.len() - j,
{
    if j < 0 || j >= items.len() {
        None
    } else if items[j] is Table {
        Some(rows_views(items[j]->Table_rows@))
    } else {
        table_from(items, j + 1)
    }
}

/// The value of label `key` in the first section titled `title`: the first such
/// label of that section, if it has one.
pub open spec fn label_value_spec(ss: Seq<Section>, title: Seq<char>, key: Seq<char>) -> Option<Seq<char>> {
    match titled_from(ss, title, 0) {
        Some(i) => label_from(ss[i].items@, key, 0),
        None => None,
    }
}

/// The rows of the first table of the first section titled `title`; none where
/// there is no such section or it holds no table.
pub open spec fn table_rows_spec(ss: Seq<Section>, title: Seq<char>) -> Seq<Seq<Seq<char>>> {
    match titled_from(ss, title, 0) {
        Some(i) => match table_from(ss[i].items@, 0) {
            Some(rows) => rows,
            None => Seq::empty(),
        },
        None => Seq::empty(),
    }
}

/// A text that may be missing, read as empty where it is.
pub open spec fn or_blank(v: Option<Seq<char>>) -> Seq<char> {
    match v {
        Some(s) => s,
        None => Seq::empty(),
    }
}

fn find_section<'a>(ss: &'a Vec<Section>, title: &str) -> (r: Option<&'a Section>)
    ensures
        match titled_from(ss@, title@, 0) {
            Some(i) => r == Some(&ss@[i]),
            None => r is None,
        },
{
    let mut i: usize = 0;
    while i < ss.len()
        invariant
            i <= ss@.len(),
            titled_from(ss@, title@, 0) == titled_from(ss@, title@, i as int),
        decreases ss.len() - i,
    {
        let tc = chars_of(ss[i].title.as_str());
        if eq_str(tc.as_slice(), title) {
            return Some(&ss[i]);
        }
        i = i + 1;
    }
    None
}

fn find_label<'a>(items: &'a Vec<Item>, key: &str) -> (r: Option<&'a str>)
    ensures
        match r {
            Some(v) => label_from(items@, key@, 0) == Some(v@),
            None => label_from(items@, key@, 0) is None,
        },
{
    let mut j: usize = 0;
    while j < items.len()
        invariant
            j <= items@.len(),
            label_from(items@, key@, 0) == label_from(items@, key@, j as int),
        decreases items.len() - j,
    {
        match &items[j] {
            Item::Label { key: k, value, .. } => {
                let kc = chars_of(k.as_str());
                if eq_str(kc.as_slice(), key) {
                    return Some(value.as_str());
                }
            },
            _ => {},
        }
        j = j + 1;
    }
    None
}

fn find_table<'a>(items: &'a Vec<Item>) -> (r: Option<&'a Vec<Vec<String>>>)
    ensures
        match r {
            Some(rows) => table_from(items@, 0) == Some(rows_views(rows@)),
            None => table_from(items@, 0) is None,
        },
{
    let mut j: usize = 0;
    while j < items.len()
        invariant
            j <= items@.len(),
            table_from(items@, 0) == table_from(items@, j as int),
        decreases items.len() - j,
    {
        match &items[j] {
            Item::Table { rows, .. } => {
                return Some(rows);
            },
            _ => {},
        }
        j = j + 1;
    }
    None
}

/// The value of label `key` in the first section titled `title`.
pub fn label_value<'a>(report: &'a CheckResult, title: &str, key: &str) -> (r: Option<&'a str>)
    ensures
        match r {
            Some(v) => label_value_spec(report.sections@, title@, key@) == Some(v@),
            None => label_value_spec(report.sections@, title@, key@) is None,
        },
{
    match find_section(&report.sections, title) {
        Some(s) => find_label(&s.items, key),
        None => None,
    }
}

/// The rows of the first table of the first section titled `title`, if any.
pub fn first_table_rows<'a>(report: &'a CheckResult, title: &str) -> (r: Option<&'a Vec<Vec<String>>>)
    ensures
        match r {
            Some(rows) => table_rows_spec(report.sections@, title@) == rows_views(rows@),
            None => table_rows_spec(report.sections@, title@) == Seq::<Seq<Seq<char>>>::empty(),
        },
{
    match find_section(&report.sections, title) {
        Some(s) => find_table(&s.items),
        None => None,
    }
}


// ---------------------------------------------------------------------------
// The text of a result
// ---------------------------------------------------------------------------

/// The text of a status where there is one.
pub open spec fn status_values(status: Option<String>) -> Seq<Seq<char>> {
    match status {
        Some(s) => seq![s@],
        None => Seq::empty(),
    }
}

/// Every cell of the rows, row by row.
pub open spec fn cells(rows: Seq<Seq<Seq<char>>>) -> Seq<Seq<char>>
    decreases rows.len(),
{
    if rows.len() == 0 {
        Seq::empty()
    } else {
        cells(rows.drop_last()) + rows.last()
    }
}

/// The texts of one item: a label's key, value and status; a table's headers,
/// cells and status; a bar's key, its value and capacity text and status; a
/// sparkline's key, unit and status; a message's text; a finding's identifier,
/// level, category, title, target, summary and advice, then its evidence and
/// commands.
pub open spec fn item_values(it: Item) -> Seq<Seq<char>> {
    match it {
        Item::Label { key, value, status } => seq![key@, value@] + status_values(status),
        Item::Table { headers, rows, status } => crate::text::string_views(headers@) + cells(rows_views(rows@))
            + status_values(status),
        Item::Bar { key, text, status, .. } => seq![key@, text@] + status_values(status),
        Item::Sparkline { key, unit, status } => seq![key@, unit@] + status_values(status),
        Item::Info(t) => seq![t@],
        Item::Warning(t) => seq![t@],
        Item::Error(t) => seq![t@],
        Item::Success(t) => seq![t@],
        Item::Finding(f) => seq![
            f.rule_id@,
            f.level@,
            f.category@,
            f.title@,
            f.target@,
            f.summary@,
            f.suggestion@,
        ] + crate::text::string_views(f.evidence@) + crate::text::string_views(f.commands@),
        Item::Divider => Seq::empty(),
    }
}

pub open spec fn items_values(items: Seq<Item>) -> Seq<Seq<char>>
    decreases items.len(),
{
    if items.len() == 0 {
        Seq::empty()
    } else {
        items_values(items.drop_last()) + item_values(items.last())
    }
}

/// The texts of a section: its title, its description where it has one, then the
/// texts of its items.
pub open spec fn section_values(s: Section) -> Seq<Seq<char>> {
    seq![s.title@] + status_values(s.description) + items_values(s.items@)
}

pub open spec fn sections_values(ss: Seq<Section>) -> Seq<Seq<char>>
    decreases ss.len(),
{
    if ss.len() == 0 {
        Seq::empty()
    } else {
        sections_values(ss.drop_last()) + section_values(ss.last())
    }
}

/// The text of a check result: its id, name, description and category, then the
/// texts of its sections, one per line.
pub open spec fn result_text_spec(r: CheckResult) -> Seq<char> {
    join_spec(
        seq![r.id@, r.name@, r.description@, r.category@] + sections_values(r.sections@),
        "\n"@,
    )
}

fn push_text(parts: &mut Vec<Vec<char>>, s: &str)
    ensures
        views(final(parts)@) == views(old(parts)@).push(s@),
{
    let ghost before = views(parts@);
    parts.push(chars_of(s));
    assert(views(parts@) =~= before.push(s@));
}

fn push_status(parts: &mut Vec<Vec<char>>, status: &Option<String>)
    ensures
        views(final(parts)@) == views(old(parts)@) + status_values(*status),
{
    let ghost before = views(parts@);
    match status {
        Some(s) => push_text(parts, s.as_str()),
        None => {},
    }
    assert(views(parts@) =~= before + status_values(*status));
}

fn push_texts(parts: &mut Vec<Vec<char>>, v: &Vec<String>)
    ensures
        views(final(parts)@) == views(old(parts)@) + crate::text::string_views(v@),
{
    let ghost before = views(parts@);
    let mut i: usize = 0;
    while i < v.len()
        invariant
            i <= v@.len(),
            views(parts@) == before + crate::text::string_views(v@.take(i as int)),
        decreases v.len() - i,
    {
        push_text(parts, v[i].as_str());
        assert(crate::text::string_views(v@.take(i + 1)) =~= crate::text::string_views(v@.take(i as int)).push(
            v@[i as int]@,
        ));
        i = i + 1;
    }
    assert(v@.take(i as int) =~= v@);
}

fn push_cells(parts: &mut Vec<Vec<char>>, rows: &Vec<Vec<String>>)
    ensures
        views(final(parts)@) == views(old(parts)@) + cells(rows_views(rows@)),
{
    let ghost before = views(parts@);
    let mut i: usize = 0;
    while i < rows.len()
        invariant
            i <= rows@.len(),
            views(parts@) == before + cells(rows_views(rows@.take(i as int))),
        decreases rows.len() - i,
    {
        proof {
            assert(rows_views(rows@.take(i + 1)).drop_last() =~= rows_views(rows@.take(i as int)));
            assert(rows_views(rows@.take(i + 1)).last() == crate::text::string_views(rows@[i as int]@));
        }
        push_texts(parts, &rows[i]);
        i = i + 1;
    }
    assert(rows@.take(i as int) =~= rows@);
}

fn push_item(parts: &mut Vec<Vec<char>>, it: &Item)
    ensures
        views(final(parts)@) == views(old(parts)@) + item_values(*it),
{
    let ghost before = views(parts@);
    match it {
        Item::Label { key, value, status } => {
            push_text(parts, key.as_str());
            push_text(parts, value.as_str());
            push_status(parts, status);
        },
        Item::Table { headers, rows, status } => {
            push_texts(parts, headers);
            push_cells(parts, rows);
            push_status(parts, status);
        },
        Item::Bar { key, text, status, .. } => {
            push_text(parts, key.as_str());
            push_text(parts, text.as_str());
            push_status(parts, status);
        },
        Item::Sparkline { key, unit, status } => {
            push_text(parts, key.as_str());
            push_text(parts, unit.as_str());
            push_status(parts, status);
        },
        Item::Info(t) => push_text(parts, t.as_str()),
        Item::Warning(t) => push_text(parts, t.as_str()),
        Item::Error(t) => push_text(parts, t.as_str()),
        Item::Success(t) => push_text(parts, t.as_str()),
        Item::Finding(f) => {
            push_text(parts, f.rule_id.as_str());
            push_text(parts, f.level.as_str());
            push_text(parts, f.category.as_str());
            push_text(parts, f.title.as_str());
            push_text(parts, f.target.as_str());
            push_text(parts, f.summary.as_str());
            push_text(parts, f.suggestion.as_str());
            push_texts(parts, &f.evidence);
            push_texts(parts, &f.commands);
        },
        Item::Divider => {},
    }
    assert(views(parts@) =~= before + item_values(*it));
}

fn push_section(parts: &mut Vec<Vec<char>>, s: &Section)
    ensures
        views(final(parts)@) == views(old(parts)@) + section_values(*s),
{
    let ghost before = views(parts@);
    push_text(parts, s.title.as_str());
    push_status(parts, &s.description);
    let ghost mid = views(parts@);
    let mut j: usize = 0;
    while j < s.items.len()
        invariant
            j <= s.items@.len(),
            views(parts@) == mid + items_values(s.items@.take(j as int)),
        decreases s.items.len() - j,
    {
        assert(s.items@.take(j + 1).drop_last() =~= s.items@.take(j as int));
        push_item(parts, &s.items[j]);
        j = j + 1;
    }
    assert(s.items@.take(j as int) =~= s.items@);
    assert(views(parts@) =~= before + section_values(*s));
}

/// The text of a check result that the log keyword rules search.
pub fn result_text(r: &CheckResult) -> (t: String)
    ensures
        t@ == result_text_spec(*r),
{
    let mut parts: Vec<Vec<char>> = Vec::new();
    push_text(&mut parts, r.id.as_str());
    push_text(&mut parts, r.name.as_str());
    push_text(&mut parts, r.description.as_str());
    push_text(&mut parts, r.category.as_str());
    let ghost head = views(parts@);
    assert(head =~= seq![r.id@, r.name@, r.description@, r.category@]);
    let mut i: usize = 0;
    while i < r.sections.len()
        invariant
            i <= r.sections@.len(),
            views(parts@) == head + sections_values(r.sections@.take(i as int)),
        decreases r.sections.len() - i,
    {
        assert(r.sections@.take(i + 1).drop_last() =~= r.sections@.take(i as int));
        push_section(&mut parts, &r.sections[i]);
        i = i + 1;
    }
    assert(r.sections@.take(i as int) =~= r.sections@);
    let sep = chars_of("\n");
    let joined = join(parts.as_slice(), sep.as_slice());
    string_of(joined.as_slice())
}

// ---------------------------------------------------------------------------
// The rules of each check
// ---------------------------------------------------------------------------

/// The findings of the rules of a Java service check: its match result and
/// service list, its runtime rows (row `k` read with `floats[k]`), then the
/// failure keywords in its whole text.
pub open spec fn java_service_findings_spec(r: CheckResult, floats: Seq<RowFloats>) -> Seq<AnomalyView> {
    let ss = r.sections@;
    java_list_findings_spec(label_value_spec(ss, "匹配配置"@, "匹配结果"@), table_rows_spec(ss, "Java 服务列表"@))
        + runtime_rows_findings(table_rows_spec(ss, "Java 运行时"@), floats) + log_findings_upto(
        unicode_lowercase(result_text_spec(r)),
        log_rule_count(),
    )
}

/// The findings of the rules of the check that gave the result, chosen by its id;
/// a check without rules of its own gives none.
pub open spec fn domain_findings_spec(r: CheckResult, floats: Seq<RowFloats>) -> Seq<AnomalyView> {
    let id = r.id@;
    let ss = r.sections@;
    if id == "service-manage"@ {
        service_findings_spec(table_rows_spec(ss, "服务列表"@))
    } else if id == "nginx"@ {
        nginx_findings_spec(
            or_blank(label_value_spec(ss, "连接与程序信息"@, "运行状态"@)),
            or_blank(label_value_spec(ss, "连接与程序信息"@, "配置检测"@)),
        )
    } else if id == "redis"@ {
        redis_findings_spec(
            or_blank(label_value_spec(ss, "连接信息"@, "PING"@)),
            label_value_spec(ss, "连接信息"@, "地址"@),
            table_rows_spec(ss, "运行状态"@),
        )
    } else if id == "elasticsearch"@ {
        es_findings_spec(
            or_blank(label_value_spec(ss, "集群健康"@, "集群状态"@)),
            label_value_spec(ss, "集群健康"@, "未分配分片"@),
        )
    } else if id == "keepalived"@ {
        keepalived_findings_spec(or_blank(label_value_spec(ss, "运行状态"@, "运行状态"@)))
    } else if id == "kafka"@ {
        kafka_findings_spec(or_blank(label_value_spec(ss, "运行与连接"@, "运行状态"@)))
    } else if id == "java-service"@ {
        java_service_findings_spec(r, floats)
    } else {
        Seq::empty()
    }
}

/// Whether `floats` reads every runtime row of a Java service result.
pub open spec fn floats_cover(r: CheckResult, floats: Seq<RowFloats>) -> bool {
    r.id@ == "java-service"@ ==> table_rows_spec(r.sections@, "Java 运行时"@).len() <= floats.len()
}

/// The findings of a whole check result: the generic findings of its sections,
/// then the findings of the rules of its own check.
pub open spec fn report_findings(r: CheckResult, floats: Seq<RowFloats>) -> Seq<AnomalyView> {
    sections_findings(r.id@, r.sections@) + domain_findings_spec(r, floats)
}

fn blank_or<'a>(v: Option<&'a str>) -> (s: &'a str)
    ensures
        s@ == or_blank(opt_str_view(v)),
{
    match v {
        Some(t) => t,
        None => {
            proof {
                reveal_strlit("");
            }
            ""
        },
    }
}

fn rows_in<'a>(report: &'a CheckResult, title: &str, empty: &'a Vec<Vec<String>>) -> (rows: &'a Vec<Vec<String>>)
    requires
        empty@.len() == 0,
    ensures
        rows_views(rows@) == table_rows_spec(report.sections@, title@),
{
    match first_table_rows(report, title) {
        Some(t) => t,
        None => {
            assert(rows_views(empty@) =~= Seq::<Seq<Seq<char>>>::empty());
            empty
        },
    }
}

fn java_service_findings(r: &CheckResult, floats: &Vec<RowFloats>) -> (out: Vec<AnomalyFinding>)
    requires
        table_rows_spec(r.sections@, "Java 运行时"@).len() <= floats@.len(),
    ensures
        anomaly_views(out@) == java_service_findings_spec(*r, floats@),
{
    let empty: Vec<Vec<String>> = Vec::new();
    let matched = label_value(r, "匹配配置", "匹配结果");
    let mut out = java_service_list_findings(matched, rows_in(r, "Java 服务列表", &empty));
    let runtime = rows_in(r, "Java 运行时", &empty);
    let ghost a = anomaly_views(out@);
    let mut more = java_runtime_findings(runtime, floats);
    let ghost b = anomaly_views(more@);
    out.append(&mut more);
    let text = result_text(r);
    let mut logs = java_log_keyword_findings(text.as_str());
    let ghost c = anomaly_views(logs@);
    out.append(&mut logs);
    assert(anomaly_views(out@) =~= a + b + c);
    out
}

fn report_status(s: &CheckStatus) -> (c: CheckStatus)
    ensures
        c == *s,
{
    match s {
        CheckStatus::Healthy => CheckStatus::Healthy,
        CheckStatus::Warn => CheckStatus::Warn,
        CheckStatus::Error => CheckStatus::Error,
        CheckStatus::Info => CheckStatus::Info,
    }
}

/// The findings of the rules of the check that gave `r`, chosen by its id.
pub fn domain_findings(r: &CheckResult, floats: &Vec<RowFloats>) -> (out: Vec<AnomalyFinding>)
    requires
        floats_cover(*r, floats@),
    ensures
        anomaly_views(out@) == domain_findings_spec(*r, floats@),
{
    let id = chars_of(r.id.as_str());
    let id = id.as_slice();
    let empty: Vec<Vec<String>> = Vec::new();
    if eq_str(id, "service-manage") {
        service_manage_findings(rows_in(r, "服务列表", &empty))
    } else if eq_str(id, "nginx") {
        nginx_findings(
            blank_or(label_value(r, "连接与程序信息", "运行状态")),
            blank_or(label_value(r, "连接与程序信息", "配置检测")),
        )
    } else if eq_str(id, "redis") {
        redis_findings(
            blank_or(label_value(r, "连接信息", "PING")),
            label_value(r, "连接信息", "地址"),
            rows_in(r, "运行状态", &empty),
        )
    } else if eq_str(id, "elasticsearch") {
        es_findings(blank_or(label_value(r, "集群健康", "集群状态")), label_value(r, "集群健康", "未分配分片"))
    } else if eq_str(id, "keepalived") {
        keepalived_findings(blank_or(label_value(r, "运行状态", "运行状态")))
    } else if eq_str(id, "kafka") {
        kafka_findings(blank_or(label_value(r, "运行与连接", "运行状态")))
    } else if eq_str(id, "java-service") {
        java_service_findings(r, floats)
    } else {
        let none: Vec<AnomalyFinding> = Vec::new();
        assert(anomaly_views(none@) =~= Seq::<AnomalyView>::empty());
        none
    }
}

/// The findings that the rule engine draws from a whole check result: the
/// generic findings of its sections, then those of the rules of its own check;
/// `floats` reads the runtime rows of a Java service result.
pub fn evaluate_check_result(r: &CheckResult, floats: &Vec<RowFloats>) -> (out: Vec<AnomalyFinding>)
    requires
        floats_cover(*r, floats@),
    ensures
        anomaly_views(out@) == report_findings(*r, floats@),
{
    let mut out = evaluate_sections(r.id.as_str(), &r.sections);
    let ghost a = anomaly_views(out@);
    let mut more = domain_findings(r, floats);
    let ghost b = anomaly_views(more@);
    out.append(&mut more);
    assert(anomaly_views(out@) =~= a + b);
    out
}

/// A check result enriched in place: the findings of `evaluate_check_result` are
/// returned, its status is raised to `Error` where one of them is an error, else to
/// `Warn` where one is a warning, and its sections are led by a findings section
/// in place of any earlier one (unchanged where there is no finding); what the
/// check is stays as it was.
pub fn enrich_check_result(r: &mut CheckResult, floats: &Vec<RowFloats>) -> (out: Vec<AnomalyFinding>)
    requires
        floats_cover(*old(r), floats@),
    ensures
        anomaly_views(out@) == report_findings(*old(r), floats@),
        final(r).status == escalated_spec(finding_levels(anomaly_views(out@)), old(r).status),
        enriched_sections(old(r).sections@, out@, final(r).sections@),
        final(r).id == old(r).id,
        final(r).name == old(r).name,
        final(r).description == old(r).description,
        final(r).category == old(r).category,
        final(r).version == old(r).version,
        final(r).timestamp == old(r).timestamp,
        final(r).duration_ms == old(r).duration_ms,
{
    let domain = domain_findings(&*r, floats);
    let mut sections: Vec<Section> = Vec::new();
    std::mem::swap(&mut sections, &mut r.sections);
    let current = report_status(&r.status);
    let (findings, enriched, status) = enrich_sections(r.id.as_str(), sections, domain, current);
    r.sections = enriched;
    r.status = status;
    findings
}

// ---------------------------------------------------------------------------
// Laws
// ---------------------------------------------------------------------------

proof fn lemma_concat_contains(a: Seq<AnomalyView>, b: Seq<AnomalyView>, x: AnomalyView)
    ensures
        (a.contains(x) || b.contains(x)) ==> (a + b).contains(x),
{
    if a.contains(x) {
        let k = choose|k: int| 0 <= k < a.len() && a[k] == x;
        assert((a + b)[k] == x);
    } else if b.contains(x) {
        let k = choose|k: int| 0 <= k < b.len() && b[k] == x;
        assert((a + b)[a.len() + k] == x);
    }
}

proof fn lemma_item_in_items(id: Seq<char>, title: Seq<char>, items: Seq<Item>, j: int, x: AnomalyView)
    requires
        0 <= j < items.len(),
        item_findings(id, title, items[j]).contains(x),
    ensures
        items_findings(id, title, items).contains(x),
    decreases items.len(),
{
    let head = items_findings(id, title, items.drop_last());
    let tail = item_findings(id, title, items.last());
    if j < items.len() - 1 {
        assert(items.drop_last()[j] == items[j]);
        lemma_item_in_items(id, title, items.drop_last(), j, x);
    }
    lemma_concat_contains(head, tail, x);
}

proof fn lemma_section_in_sections(id: Seq<char>, ss: Seq<Section>, i: int, x: AnomalyView)
    requires
        0 <= i < ss.len(),
        ss[i].title@ != findings_title(),
        items_findings(id, ss[i].title@, ss[i].items@).contains(x),
    ensures
        sections_findings(id, ss).contains(x),
    decreases ss.len(),
{
    let head = sections_findings(id, ss.drop_last());
    let s = ss.last();
    let tail = if s.title@ == findings_title() {
        Seq::<AnomalyView>::empty()
    } else {
        items_findings(id, s.title@, s.items@)
    };
    if i < ss.len() - 1 {
        assert(ss.drop_last()[i] == ss[i]);
        lemma_section_in_sections(id, ss.drop_last(), i, x);
    }
    lemma_concat_contains(head, tail, x);
}

/// Every finding that an item outside the findings section gives (an alarming
/// label or bar, a warning or an error message) is among the findings of the
/// whole result.
pub proof fn law_item_findings_are_reported(r: CheckResult, floats: Seq<RowFloats>, i: int, j: int, x: AnomalyView)
    requires
        0 <= i < r.sections@.len(),
        r.sections@[i].title@ != findings_title(),
        0 <= j < r.sections@[i].items@.len(),
        item_findings(r.id@, r.sections@[i].title@, r.sections@[i].items@[j]).contains(x),
    ensures
        report_findings(r, floats).contains(x),
{
    lemma_item_in_items(r.id@, r.sections@[i].title@, r.sections@[i].items@, j, x);
    lemma_section_in_sections(r.id@, r.sections@, i, x);
    lemma_concat_contains(sections_findings(r.id@, r.sections@), domain_findings_spec(r, floats), x);
}

/// A label marked `warn` or `error` outside the findings section gives its finding
/// (identified by check, section and key, at the label's level, its summary the
/// key and value) among the findings of the whole result.
pub proof fn law_alarming_label_is_reported(r: CheckResult, floats: Seq<RowFloats>, i: int, j: int)
    requires
        0 <= i < r.sections@.len(),
        r.sections@[i].title@ != findings_title(),
        0 <= j < r.sections@[i].items@.len(),
        r.sections@[i].items@[j] matches Item::Label { status, .. } && alarming(status),
    ensures
        r.sections@[i].items@[j] matches Item::Label { key, value, status } ==> report_findings(
            r,
            floats,
        ).contains(label_finding_spec(r.id@, r.sections@[i].title@, key@, value@, status->0@)),
{
    let it = r.sections@[i].items@[j];
    match it {
        Item::Label { key, value, status } => {
            let x = label_finding_spec(r.id@, r.sections@[i].title@, key@, value@, status->0@);
            assert(item_findings(r.id@, r.sections@[i].title@, it)[0] == x);
            law_item_findings_are_reported(r, floats, i, j, x);
        },
        _ => {},
    }
}


/// A label marked `warn` or `error` outside the findings section is reported under
/// the rule `check.<check>.<section>.<key>`, at the label's level, in the section's
/// category, aimed at the key and summarised as `key: value`.
pub proof fn law_alarming_label_names_its_finding(r: CheckResult, floats: Seq<RowFloats>, i: int, j: int)
    requires
        0 <= i < r.sections@.len(),
        r.sections@[i].title@ != "异常明细"@,
        0 <= j < r.sections@[i].items@.len(),
        r.sections@[i].items@[j] matches Item::Label { status, .. } && (status matches Some(st) && (st@ == "warn"@
            || st@ == "error"@)),
    ensures
        r.sections@[i].items@[j] matches Item::Label { key, value, status } ==> exists|k: int|
            0 <= k < report_findings(r, floats).len() && {
                let f = #[trigger] report_findings(r, floats)[k];
                &&& f.rule_id == "check."@ + r.id@ + "."@ + r.sections@[i].title@ + "."@ + key@
                &&& f.level == status->0@
                &&& f.category == r.sections@[i].title@
                &&& f.target == key@
                &&& f.summary == key@ + ": "@ + value@
            },
{
    reveal_strlit("异常明细");
    law_alarming_label_is_reported(r, floats, i, j);
}

/// A warning or error message outside the findings section is reported under the
/// rule `check.<check>.<section>.message`, as a warning or an error, summarised by
/// its text.
pub proof fn law_message_names_its_finding(r: CheckResult, floats: Seq<RowFloats>, i: int, j: int)
    requires
        0 <= i < r.sections@.len(),
        r.sections@[i].title@ != "异常明细"@,
        0 <= j < r.sections@[i].items@.len(),
        r.sections@[i].items@[j] is Warning || r.sections@[i].items@[j] is Error,
    ensures
        exists|k: int|
            0 <= k < report_findings(r, floats).len() && {
                let f = #[trigger] report_findings(r, floats)[k];
                &&& f.rule_id == "check."@ + r.id@ + "."@ + r.sections@[i].title@ + "."@ + "message"@
                &&& f.level == if r.sections@[i].items@[j] is Error {
                    "error"@
                } else {
                    "warn"@
                }
                &&& f.summary == match r.sections@[i].items@[j] {
                    Item::Warning(t) => t@,
                    Item::Error(t) => t@,
                    _ => Seq::empty(),
                }
            },
{
    reveal_strlit("异常明细");
    let it = r.sections@[i].items@[j];
    let title = r.sections@[i].title@;
    let x = item_findings(r.id@, title, it)[0];
    law_item_findings_are_reported(r, floats, i, j, x);
    let k = choose|k: int| 0 <= k < report_findings(r, floats).len() && report_findings(r, floats)[k] == x;
    assert(report_findings(r, floats)[k] == x);
}

} // verus!
