//! The findings that the generic rules draw from any check result: a label or bar
//! marked `warn` or `error`, and every warning or error message, section by
//! section (the findings section itself left out).
use vstd::prelude::*;
use crate::anomaly::{AnomalyFinding, AnomalyView, anomaly_views, default_commands, default_commands_spec, default_suggestion, default_suggestion_spec, is_noise_mount, is_noise_mount_spec};
use crate::anomaly::rules::{av, finding, label_finding, label_finding_spec, message_finding, message_finding_spec};
use crate::text::{chars_of, eq_str, push_str, string_of, string_views};

verus! {

/// An item of a check result, with what the rules read of it. A bar carries its
/// value and capacity already written as text: `value_1` with one decimal,
/// `value_2` and `max_2` with two, each followed by the unit, and `text` as value,
/// capacity and unit separated by spaces.
pub enum Item {
    Label { key: String, value: String, status: Option<String> },
    Table { headers: Vec<String>, rows: Vec<Vec<String>>, status: Option<String> },
    Bar { key: String, value_1: String, value_2: String, max_2: String, text: String, status: Option<String> },
    Sparkline { key: String, unit: String, status: Option<String> },
    Info(String),
    Warning(String),
    Error(String),
    Success(String),
    /// A finding that the rules drew earlier, as the findings section lists it.
    Finding(AnomalyFinding),
    Divider,
}

/// A section of a check result: its title, icon, description and items.
pub struct Section {
    pub title: String,
    pub icon: Option<String>,
    pub description: Option<String>,
    pub items: Vec<Item>,
}

/// The title of the section that holds the findings; the rules skip it.
pub open spec fn findings_title() -> Seq<char> {
    "异常明细"@
}

pub open spec fn alarming(status: Option<String>) -> bool {
    match status {
        Some(s) => s@ == "warn"@ || s@ == "error"@,
        None => false,
    }
}

pub open spec fn bar_finding_spec(
    check_id: Seq<char>,
    section: Seq<char>,
    key: Seq<char>,
    value_1: Seq<char>,
    value_2: Seq<char>,
    max_2: Seq<char>,
    status: Seq<char>,
) -> AnomalyView {
    av(
        "check."@ + check_id + "."@ + section + "."@ + key,
        status,
        section,
        key + " 状态"@ + (if status == "error"@ {
            "异常"@
        } else {
            "警告"@
        }),
        key,
        key + " 当前 "@ + value_1 + "，检查状态为 "@ + status,
        seq!["当前值: "@ + value_2, "容量/基准: "@ + max_2, "检查状态: "@ + status, "来源模块: "@ + section],
        default_suggestion_spec(check_id, section, key, status),
        default_commands_spec(check_id, key),
    )
}

/// The findings of one item: a warning or error label, a warning or error bar (but
/// not a mount that the disk section lists only as noise), or a message.
pub open spec fn item_findings(check_id: Seq<char>, section: Seq<char>, it: Item) -> Seq<AnomalyView> {
    match it {
        Item::Label { key, value, status } => if alarming(status) {
            seq![label_finding_spec(check_id, section, key@, value@, status->0@)]
        } else {
            Seq::empty()
        },
        Item::Bar { key, value_1, value_2, max_2, text, status } => if alarming(status) && !(section == "磁盘挂载"@
            && is_noise_mount_spec(key@, key@)) {
            seq![bar_finding_spec(check_id, section, key@, value_1@, value_2@, max_2@, status->0@)]
        } else {
            Seq::empty()
        },
        Item::Warning(text) => seq![message_finding_spec(check_id, section, text@, false)],
        Item::Error(text) => seq![message_finding_spec(check_id, section, text@, true)],
        _ => Seq::empty(),
    }
}

pub open spec fn items_findings(check_id: Seq<char>, section: Seq<char>, items: Seq<Item>) -> Seq<AnomalyView>
    decreases items.len(),
{
    if items.len() == 0 {
        Seq::empty()
    } else {
        items_findings(check_id, section, items.drop_last()) + item_findings(check_id, section, items.last())
    }
}

pub open spec fn sections_findings(check_id: Seq<char>, ss: Seq<Section>) -> Seq<AnomalyView>
    decreases ss.len(),
{
    if ss.len() == 0 {
        Seq::empty()
    } else {
        let s = ss.last();
        sections_findings(check_id, ss.drop_last()) + if s.title@ == findings_title() {
            Seq::empty()
        } else {
            items_findings(check_id, s.title@, s.items@)
        }
    }
}

fn bar_finding(
    check_id: &str,
    section: &str,
    key: &str,
    value_1: &str,
    value_2: &str,
    max_2: &str,
    status: &str,
) -> (f: AnomalyFinding)
    ensures
        f@ == bar_finding_spec(check_id@, section@, key@, value_1@, value_2@, max_2@, status@),
{
    let sc = chars_of(status);
    let word = if eq_str(sc.as_slice(), "error") {
        "异常"
    } else {
        "警告"
    };
    let mut id: Vec<char> = Vec::new();
    push_str(&mut id, "check.");
    push_str(&mut id, check_id);
    push_str(&mut id, ".");
    push_str(&mut id, section);
    push_str(&mut id, ".");
    push_str(&mut id, key);
    let mut title: Vec<char> = Vec::new();
    push_str(&mut title, key);
    push_str(&mut title, " 状态");
    push_str(&mut title, word);
    let mut summary: Vec<char> = Vec::new();
    push_str(&mut summary, key);
    push_str(&mut summary, " 当前 ");
    push_str(&mut summary, value_1);
    push_str(&mut summary, "，检查状态为 ");
    push_str(&mut summary, status);
    let mut e1 = chars_of("当前值: ");
    push_str(&mut e1, value_2);
    let mut e2 = chars_of("容量/基准: ");
    push_str(&mut e2, max_2);
    let mut e3 = chars_of("检查状态: ");
    push_str(&mut e3, status);
    let mut e4 = chars_of("来源模块: ");
    push_str(&mut e4, section);
    let evidence = vec![
        string_of(e1.as_slice()),
        string_of(e2.as_slice()),
        string_of(e3.as_slice()),
        string_of(e4.as_slice()),
    ];
    let f = finding(
        string_of(id.as_slice()),
        status,
        section,
        string_of(title.as_slice()),
        key.to_owned(),
        string_of(summary.as_slice()),
        evidence,
        default_suggestion(check_id, section, key, status).as_str(),
        default_commands(check_id, key),
    );
    let ghost want = bar_finding_spec(check_id@, section@, key@, value_1@, value_2@, max_2@, status@);
    assert(f@.evidence =~= want.evidence);
    assert(f@.rule_id =~= want.rule_id);
    assert(f@.title =~= want.title);
    assert(f@.summary =~= want.summary);
    f
}

fn status_alarming(status: &Option<String>) -> (r: bool)
    ensures
        r == alarming(*status),
{
    match status {
        Some(s) => {
            let c = chars_of(s.as_str());
            eq_str(c.as_slice(), "warn") || eq_str(c.as_slice(), "error")
        },
        None => false,
    }
}

fn push_item_findings(out: &mut Vec<AnomalyFinding>, check_id: &str, section: &str, it: &Item)
    ensures
        anomaly_views(final(out)@) == anomaly_views(old(out)@) + item_findings(check_id@, section@, *it),
{
    let ghost before = anomaly_views(out@);
    match it {
        Item::Label { key, value, status } => {
            if status_alarming(status) {
                let st = match status {
                    Some(s) => s.as_str(),
                    None => "",
                };
                out.push(label_finding(check_id, section, key.as_str(), value.as_str(), st));
            }
        },
        Item::Bar { key, value_1, value_2, max_2, text, status } => {
            let sc = chars_of(section);
            let noise = eq_str(sc.as_slice(), "磁盘挂载") && is_noise_mount(key.as_str(), key.as_str());
            if status_alarming(status) && !noise {
                let st = match status {
                    Some(s) => s.as_str(),
                    None => "",
                };
                out.push(bar_finding(check_id, section, key.as_str(), value_1.as_str(), value_2.as_str(), max_2.as_str(), st));
            }
        },
        Item::Warning(text) => {
            out.push(message_finding(check_id, section, text.as_str(), false));
        },
        Item::Error(text) => {
            out.push(message_finding(check_id, section, text.as_str(), true));
        },
        _ => {},
    }
    assert(anomaly_views(out@) =~= before + item_findings(check_id@, section@, *it));
}

/// The findings that the generic rules draw from the sections of check `check_id`,
/// in order; the findings section itself is skipped.
pub fn evaluate_sections(check_id: &str, sections: &Vec<Section>) -> (r: Vec<AnomalyFinding>)
    ensures
        anomaly_views(r@) == sections_findings(check_id@, sections@),
{
    let mut out: Vec<AnomalyFinding> = Vec::new();
    let mut i: usize = 0;
    assert(anomaly_views(out@) =~= Seq::<AnomalyView>::empty());
    while i < sections.len()
        invariant
            i <= sections@.len(),
            anomaly_views(out@) == sections_findings(check_id@, sections@.take(i as int)),
        decreases sections.len() - i,
    {
        let s = &sections[i];
        assert(sections@.take(i + 1).drop_last() =~= sections@.take(i as int));
        let ghost start = anomaly_views(out@);
        let tc = chars_of(s.title.as_str());
        if !eq_str(tc.as_slice(), "异常明细") {
            let mut j: usize = 0;
            while j < s.items.len()
                invariant
                    j <= s.items@.len(),
                    anomaly_views(out@) == start + items_findings(check_id@, s.title@, s.items@.take(j as int)),
                decreases s.items.len() - j,
            {
                assert(s.items@.take(j + 1).drop_last() =~= s.items@.take(j as int));
                push_item_findings(&mut out, check_id, s.title.as_str(), &s.items[j]);
                assert(anomaly_views(out@) =~= start + items_findings(check_id@, s.title@, s.items@.take(j + 1)));
                j = j + 1;
            }
            assert(s.items@.take(j as int) =~= s.items@);
        }
        assert(anomaly_views(out@) =~= sections_findings(check_id@, sections@.take(i + 1)));
        i = i + 1;
    }
    assert(sections@.take(i as int) =~= sections@);
    out
}

pub open spec fn finding_levels(fs: Seq<AnomalyView>) -> Seq<Seq<char>> {
    fs.map_values(|f: AnomalyView| f.level)
}

/// A check result enriched: the generic findings of its sections followed by the
/// findings of its own rules (`domain`), and its status raised to `Error` where a
/// finding is an error, else to `Warn` where one is a warning.
pub fn enrich_findings(
    check_id: &str,
    sections: &Vec<Section>,
    domain: Vec<AnomalyFinding>,
    current: crate::checks::CheckStatus,
) -> (r: (Vec<AnomalyFinding>, crate::checks::CheckStatus))
    ensures
        anomaly_views(r.0@) == sections_findings(check_id@, sections@) + anomaly_views(domain@),
        r.1 == crate::anomaly::rules::escalated_spec(
            finding_levels(sections_findings(check_id@, sections@) + anomaly_views(domain@)),
            current,
        ),
{
    let mut out = evaluate_sections(check_id, sections);
    let ghost first = anomaly_views(out@);
    let mut domain = domain;
    let ghost dv = anomaly_views(domain@);
    out.append(&mut domain);
    assert(anomaly_views(out@) =~= first + dv);
    let mut levels: Vec<String> = Vec::new();
    let mut i: usize = 0;
    while i < out.len()
        invariant
            i <= out@.len(),
            levels@.len() == i,
            forall|k: int| 0 <= k < i ==> #[trigger] levels@[k]@ == out@[k].level@,
        decreases out.len() - i,
    {
        levels.push(out[i].level.clone());
        i = i + 1;
    }
    assert(string_views(levels@) =~= finding_levels(anomaly_views(out@)));
    let status = crate::anomaly::rules::escalated_status(&levels, current);
    (out, status)
}

/// The description of the findings section: how many findings it lists.
pub open spec fn findings_description_spec(n: nat) -> Seq<char> {
    "共 "@ + crate::text::dec_spec(n) + " 条异常/警告，全部由规则引擎生成，可逐条定位和处理"@
}

pub fn findings_description(n: usize) -> (r: String)
    ensures
        r@ == findings_description_spec(n as nat),
{
    let mut out = chars_of("共 ");
    crate::text::push_dec(&mut out, n as u64);
    push_str(&mut out, " 条异常/警告，全部由规则引擎生成，可逐条定位和处理");
    string_of(out.as_slice())
}

/// The sections other than the findings section, in order.
pub open spec fn other_sections(ss: Seq<Section>) -> Seq<Section>
    decreases ss.len(),
{
    if ss.len() == 0 {
        Seq::empty()
    } else {
        other_sections(ss.drop_last()) + if ss.last().title@ == findings_title() {
            Seq::<Section>::empty()
        } else {
            seq![ss.last()]
        }
    }
}

/// The sections of a result once enriched with findings `fs`: unchanged where there
/// is no finding; else a findings section (titled `异常明细`, described by the
/// count, listing every finding) followed by the sections other than any earlier
/// findings section, in order.
pub open spec fn enriched_sections(before: Seq<Section>, fs: Seq<AnomalyFinding>, after: Seq<Section>) -> bool {
    &&& fs.len() == 0 ==> after == before
    &&& fs.len() > 0 ==> {
        &&& after.len() >= 1
        &&& after.drop_first() == other_sections(before)
        &&& after[0].title@ == findings_title()
        &&& (after[0].icon matches Some(i) && i@ == "ALERT"@)
        &&& (after[0].description matches Some(d) && d@ == findings_description_spec(fs.len()))
        &&& after[0].items@.len() == fs.len()
        &&& forall|k: int|
            0 <= k < fs.len() ==> ((#[trigger] after[0].items@[k]) matches Item::Finding(f) && f@ == fs[k]@)
    }
}

fn copy_finding(f: &AnomalyFinding) -> (g: AnomalyFinding)
    ensures
        g@ == f@,
{
    AnomalyFinding {
        rule_id: f.rule_id.clone(),
        level: f.level.clone(),
        category: f.category.clone(),
        title: f.title.clone(),
        target: f.target.clone(),
        summary: f.summary.clone(),
        evidence: crate::anomaly::overrides::clone_all(&f.evidence),
        suggestion: f.suggestion.clone(),
        commands: crate::anomaly::overrides::clone_all(&f.commands),
    }
}

/// A check result enriched: its findings and status as `enrich_findings` gives
/// them, and, where there is a finding, its sections led by a findings section
/// (titled `异常明细`, described by the count, listing every finding) in place of
/// any earlier one; with no finding the sections stay as they were.
pub fn enrich_sections(
    check_id: &str,
    sections: Vec<Section>,
    domain: Vec<AnomalyFinding>,
    current: crate::checks::CheckStatus,
) -> (r: (Vec<AnomalyFinding>, Vec<Section>, crate::checks::CheckStatus))
    ensures
        anomaly_views(r.0@) == sections_findings(check_id@, sections@) + anomaly_views(domain@),
        r.2 == crate::anomaly::rules::escalated_spec(finding_levels(anomaly_views(r.0@)), current),
        enriched_sections(sections@, r.0@, r.1@),
{
    let (findings, status) = enrich_findings(check_id, &sections, domain, current);
    if findings.len() == 0 {
        return (findings, sections, status);
    }
    let mut items: Vec<Item> = Vec::new();
    let mut k: usize = 0;
    while k < findings.len()
        invariant
            k <= findings@.len(),
            items@.len() == k,
            forall|j: int| 0 <= j < k ==> ((#[trigger] items@[j]) matches Item::Finding(f) && f@ == findings@[j]@),
        decreases findings.len() - k,
    {
        items.push(Item::Finding(copy_finding(&findings[k])));
        k = k + 1;
    }
    let head = Section {
        title: "异常明细".to_owned(),
        icon: Some("ALERT".to_owned()),
        description: Some(findings_description(findings.len())),
        items,
    };
    proof {
        reveal_strlit("异常明细");
    }
    let mut out: Vec<Section> = Vec::new();
    out.push(head);
    let ghost all = sections@;
    let n: usize = sections.len();
    let mut rest = sections;
    let mut i: usize = 0;
    assert(out@.drop_first() =~= other_sections(all.take(0)));
    while rest.len() > 0
        invariant
            i + rest@.len() == all.len(),
            all.len() == n,
            rest@ =~= all.skip(i as int),
            out@.len() >= 1,
            out@.drop_first() == other_sections(all.take(i as int)),
            out@[0] == head,
        decreases rest@.len(),
    {
        let s = rest.remove(0);
        assert(s == all[i as int]);
        assert(all.take(i + 1).drop_last() =~= all.take(i as int));
        assert(all.take(i + 1).last() == all[i as int]);
        let tc = chars_of(s.title.as_str());
        let ghost before = out@;
        if !eq_str(tc.as_slice(), "异常明细") {
            out.push(s);
            assert(out@.drop_first() =~= before.drop_first().push(all[i as int]));
        }
        assert(out@.drop_first() =~= other_sections(all.take(i + 1)));
        i = i + 1;
        assert(all.skip(i as int) =~= all.skip(i - 1).drop_first());
    }
    assert(all.take(i as int) =~= all);
    (findings, out, status)
}

} // verus!
