//! Counting the problems that a check result reports, and the summary that the
//! full health check draws from the count.
use vstd::prelude::*;

use crate::checks::CheckStatus;
use crate::text::{dec, dec_spec, eq_str, chars_of, string_of};

verus! {

/// What the tallies read of one item of a check result: its kind, and the status
/// or level it carries. Items that carry neither (info, success, divider) are `Other`.
pub enum ItemMark {
    Label(Option<String>),
    Table(Option<String>),
    Bar(Option<String>),
    Sparkline(Option<String>),
    Warning,
    Error,
    Finding(String),
    Other,
}

pub open spec fn opt_is(s: Option<String>, word: Seq<char>) -> bool {
    match s {
        Some(t) => t@ == word,
        None => false,
    }
}

/// The level an item counts with in a result's summary: labels, tables, bars and
/// sparklines by their status, warnings and errors by their kind, findings by their
/// level.
pub open spec fn summary_level(m: ItemMark, word: Seq<char>) -> bool {
    match m {
        ItemMark::Label(s) => opt_is(s, word),
        ItemMark::Table(s) => opt_is(s, word),
        ItemMark::Bar(s) => opt_is(s, word),
        ItemMark::Sparkline(s) => opt_is(s, word),
        ItemMark::Warning => word == "warn"@,
        ItemMark::Error => word == "error"@,
        ItemMark::Finding(l) => l@ == word,
        ItemMark::Other => false,
    }
}

/// The level an item counts with in the full health check, which reads the status
/// of labels and bars only.
pub open spec fn health_level(m: ItemMark, word: Seq<char>) -> bool {
    match m {
        ItemMark::Label(s) => opt_is(s, word),
        ItemMark::Bar(s) => opt_is(s, word),
        ItemMark::Table(_) => false,
        ItemMark::Sparkline(_) => false,
        _ => summary_level(m, word),
    }
}

/// How many of `ms` count as `word` in a result's summary.
pub open spec fn summary_count(ms: Seq<ItemMark>, word: Seq<char>) -> nat
    decreases ms.len(),
{
    if ms.len() == 0 {
        0
    } else {
        summary_count(ms.drop_last(), word) + if summary_level(ms.last(), word) {
            1nat
        } else {
            0nat
        }
    }
}

/// How many of `ms` count as `word` in the full health check.
pub open spec fn health_count(ms: Seq<ItemMark>, word: Seq<char>) -> nat
    decreases ms.len(),
{
    if ms.len() == 0 {
        0
    } else {
        health_count(ms.drop_last(), word) + if health_level(ms.last(), word) {
            1nat
        } else {
            0nat
        }
    }
}

/// How many of `levels` are `word`.
pub open spec fn level_count(levels: Seq<Seq<char>>, word: Seq<char>) -> nat
    decreases levels.len(),
{
    if levels.len() == 0 {
        0
    } else {
        level_count(levels.drop_last(), word) + if levels.last() == word {
            1nat
        } else {
            0nat
        }
    }
}

pub proof fn lemma_summary_count_bound(ms: Seq<ItemMark>, word: Seq<char>)
    ensures
        summary_count(ms, word) <= ms.len(),
    decreases ms.len(),
{
    if ms.len() > 0 {
        lemma_summary_count_bound(ms.drop_last(), word);
    }
}

pub proof fn lemma_health_count_bound(ms: Seq<ItemMark>, word: Seq<char>)
    ensures
        health_count(ms, word) <= ms.len(),
    decreases ms.len(),
{
    if ms.len() > 0 {
        lemma_health_count_bound(ms.drop_last(), word);
    }
}

pub proof fn lemma_level_count_bound(levels: Seq<Seq<char>>, word: Seq<char>)
    ensures
        level_count(levels, word) <= levels.len(),
    decreases levels.len(),
{
    if levels.len() > 0 {
        lemma_level_count_bound(levels.drop_last(), word);
    }
}

/// A result counts an issue (or a warning) exactly when one of its items is one.
pub proof fn law_health_count_positive_iff_present(ms: Seq<ItemMark>, word: Seq<char>)
    ensures
        health_count(ms, word) > 0 <==> exists|i: int| 0 <= i < ms.len() && #[trigger] health_level(ms[i], word),
    decreases ms.len(),
{
    if ms.len() > 0 {
        let init = ms.drop_last();
        law_health_count_positive_iff_present(init, word);
        if health_count(ms, word) > 0 && !health_level(ms.last(), word) {
            let i = choose|i: int| 0 <= i < init.len() && #[trigger] health_level(init[i], word);
            assert(ms[i] == init[i]);
        }
        if exists|i: int| 0 <= i < ms.len() && #[trigger] health_level(ms[i], word) {
            let i = choose|i: int| 0 <= i < ms.len() && #[trigger] health_level(ms[i], word);
            if i < ms.len() - 1 {
                assert(init[i] == ms[i]);
            }
        }
    }
}

/// The findings count an issue (or a warning) exactly when one of them has that level.
pub proof fn law_level_count_positive_iff_present(levels: Seq<Seq<char>>, word: Seq<char>)
    ensures
        level_count(levels, word) > 0 <==> levels.contains(word),
    decreases levels.len(),
{
    if levels.len() > 0 {
        let init = levels.drop_last();
        law_level_count_positive_iff_present(init, word);
        if level_count(levels, word) > 0 && levels.last() != word {
            let i = choose|i: int| 0 <= i < init.len() && init[i] == word;
            assert(levels[i] == init[i]);
        }
        if levels.contains(word) {
            let i = choose|i: int| 0 <= i < levels.len() && levels[i] == word;
            if i < levels.len() - 1 {
                assert(init[i] == levels[i]);
            }
        }
    }
}

fn opt_matches(s: &Option<String>, word: &str) -> (r: bool)
    ensures
        r == opt_is(*s, word@),
{
    match s {
        Some(t) => {
            let c = chars_of(t.as_str());
            eq_str(c.as_slice(), word)
        },
        None => false,
    }
}

fn is_summary_level(m: &ItemMark, word: &str) -> (r: bool)
    ensures
        r == summary_level(*m, word@),
{
    proof {
        reveal_strlit("warn");
        reveal_strlit("error");
    }
    match m {
        ItemMark::Label(s) => opt_matches(s, word),
        ItemMark::Table(s) => opt_matches(s, word),
        ItemMark::Bar(s) => opt_matches(s, word),
        ItemMark::Sparkline(s) => opt_matches(s, word),
        ItemMark::Warning => {
            let c = chars_of(word);
            eq_str(c.as_slice(), "warn")
        },
        ItemMark::Error => {
            let c = chars_of(word);
            eq_str(c.as_slice(), "error")
        },
        ItemMark::Finding(l) => {
            let c = chars_of(l.as_str());
            eq_str(c.as_slice(), word)
        },
        ItemMark::Other => false,
    }
}

fn is_health_level(m: &ItemMark, word: &str) -> (r: bool)
    ensures
        r == health_level(*m, word@),
{
    match m {
        ItemMark::Table(_) => false,
        ItemMark::Sparkline(_) => false,
        _ => is_summary_level(m, word),
    }
}

/// The number of warnings and of errors that the items of a check result report,
/// in that order, as the summary of a run shows them.
pub fn count_findings(marks: &Vec<ItemMark>) -> (r: (usize, usize))
    ensures
        r.0 == summary_count(marks@, "warn"@),
        r.1 == summary_count(marks@, "error"@),
{
    let mut warn: usize = 0;
    let mut error: usize = 0;
    let mut i: usize = 0;
    while i < marks.len()
        invariant
            i <= marks@.len(),
            warn == summary_count(marks@.take(i as int), "warn"@),
            error == summary_count(marks@.take(i as int), "error"@),
        decreases marks.len() - i,
    {
        proof {
            assert(marks@.take(i as int + 1).drop_last() =~= marks@.take(i as int));
            lemma_summary_count_bound(marks@.take(i as int), "warn"@);
            lemma_summary_count_bound(marks@.take(i as int), "error"@);
        }
        if is_summary_level(&marks[i], "warn") {
            warn = warn + 1;
        }
        if is_summary_level(&marks[i], "error") {
            error = error + 1;
        }
        i = i + 1;
    }
    assert(marks@.take(i as int) =~= marks@);
    (warn, error)
}

/// Adds one item to the running counts of the full health check: one issue for an
/// error, one warning for a warning.
pub fn count_item_status(item: &ItemMark, issues: &mut i32, warnings: &mut i32)
    requires
        *old(issues) < i32::MAX,
        *old(warnings) < i32::MAX,
    ensures
        *final(issues) == *old(issues) + if health_level(*item, "error"@) {
            1int
        } else {
            0int
        },
        *final(warnings) == *old(warnings) + if health_level(*item, "warn"@) {
            1int
        } else {
            0int
        },
{
    if is_health_level(item, "error") {
        *issues = *issues + 1;
    }
    if is_health_level(item, "warn") {
        *warnings = *warnings + 1;
    }
}

/// The counts of the full health check: issues and warnings over the items of the
/// results it ran and over the levels of the findings drawn from them.
pub fn health_tally(marks: &Vec<ItemMark>, finding_levels: &Vec<String>) -> (r: (i32, i32))
    requires
        marks@.len() + finding_levels@.len() < i32::MAX,
    ensures
        r.0 == health_count(marks@, "error"@) + level_count(
            crate::text::string_views(finding_levels@),
            "error"@,
        ),
        r.1 == health_count(marks@, "warn"@) + level_count(
            crate::text::string_views(finding_levels@),
            "warn"@,
        ),
{
    let ghost lv = crate::text::string_views(finding_levels@);
    let mut issues: i32 = 0;
    let mut warnings: i32 = 0;
    let mut i: usize = 0;
    while i < marks.len()
        invariant
            i <= marks@.len(),
            marks@.len() + finding_levels@.len() < i32::MAX,
            issues == health_count(marks@.take(i as int), "error"@),
            warnings == health_count(marks@.take(i as int), "warn"@),
        decreases marks.len() - i,
    {
        proof {
            assert(marks@.take(i as int + 1).drop_last() =~= marks@.take(i as int));
            lemma_health_count_bound(marks@.take(i as int), "warn"@);
            lemma_health_count_bound(marks@.take(i as int), "error"@);
        }
        count_item_status(&marks[i], &mut issues, &mut warnings);
        i = i + 1;
    }
    assert(marks@.take(i as int) =~= marks@);
    let ghost base_issues = issues as int;
    let ghost base_warnings = warnings as int;
    proof {
        lemma_health_count_bound(marks@, "warn"@);
        lemma_health_count_bound(marks@, "error"@);
    }
    let mut j: usize = 0;
    while j < finding_levels.len()
        invariant
            j <= finding_levels@.len(),
            lv == crate::text::string_views(finding_levels@),
            marks@.len() + finding_levels@.len() < i32::MAX,
            base_issues <= marks@.len(),
            base_warnings <= marks@.len(),
            issues == base_issues + level_count(lv.take(j as int), "error"@),
            warnings == base_warnings + level_count(lv.take(j as int), "warn"@),
        decreases finding_levels.len() - j,
    {
        proof {
            assert(lv.take(j as int + 1).drop_last() =~= lv.take(j as int));
            lemma_level_count_bound(lv.take(j as int), "warn"@);
            lemma_level_count_bound(lv.take(j as int), "error"@);
            reveal_strlit("warn");
            reveal_strlit("error");
        }
        let c = chars_of(finding_levels[j].as_str());
        assert(lv[j as int] == finding_levels@[j as int]@);
        if eq_str(c.as_slice(), "error") {
            issues = issues + 1;
        } else if eq_str(c.as_slice(), "warn") {
            warnings = warnings + 1;
        }
        j = j + 1;
    }
    assert(lv.take(j as int) =~= lv);
    (issues, warnings)
}

/// The status of the full health check: `Error` when there is an issue, else `Warn`
/// when there is a warning, else healthy.
pub fn health_status(issues: i32, warnings: i32) -> (r: CheckStatus)
    ensures
        r == (if issues > 0 {
            CheckStatus::Error
        } else if warnings > 0 {
            CheckStatus::Warn
        } else {
            CheckStatus::Healthy
        }),
{
    if issues > 0 {
        CheckStatus::Error
    } else if warnings > 0 {
        CheckStatus::Warn
    } else {
        CheckStatus::Healthy
    }
}

/// The decimal text of a signed count, with a leading `-` when it is negative.
pub open spec fn int_text_spec(n: int) -> Seq<char> {
    if n < 0 {
        seq!['-'] + dec_spec((-n) as nat)
    } else {
        dec_spec(n as nat)
    }
}

pub fn int_text(n: i32) -> (r: String)
    ensures
        r@ == int_text_spec(n as int),
{
    if n < 0 {
        let m: i64 = -(n as i64);
        let d = dec(m as u64);
        let mut out: Vec<char> = Vec::new();
        out.push('-');
        let mut d = d;
        out.append(&mut d);
        assert(out@ =~= int_text_spec(n as int));
        string_of(out.as_slice())
    } else {
        let d = dec(n as u64);
        string_of(d.as_slice())
    }
}

/// How a recommendation of the full health check is shown.
pub enum AdviceKind {
    Warning,
    Info,
    Success,
}

/// The summary rows of the full health check, as key, value and status.
pub open spec fn summary_rows_spec(issues: int, warnings: int) -> Seq<(Seq<char>, Seq<char>, Option<Seq<char>>)> {
    seq![
        ("问题数"@, int_text_spec(issues), Some(if issues > 0 { "error"@ } else { "ok"@ })),
        ("警告数"@, int_text_spec(warnings), Some(if warnings > 0 { "warn"@ } else { "ok"@ })),
        ("检查项"@, "系统/安全/网络/资源/服务"@, None),
    ]
}

pub open spec fn opt_view(o: Option<String>) -> Option<Seq<char>> {
    match o {
        Some(s) => Some(s@),
        None => None,
    }
}

pub open spec fn row3_views(v: Seq<(String, String, Option<String>)>) -> Seq<(Seq<char>, Seq<char>, Option<Seq<char>>)> {
    v.map_values(|r: (String, String, Option<String>)| (r.0@, r.1@, opt_view(r.2)))
}

/// The rows of the summary section of the full health check.
pub fn health_summary_rows(issues: i32, warnings: i32) -> (r: Vec<(String, String, Option<String>)>)
    ensures
        row3_views(r@) == summary_rows_spec(issues as int, warnings as int),
{
    let mut rows: Vec<(String, String, Option<String>)> = Vec::new();
    let issue_status = if issues > 0 { "error" } else { "ok" };
    let warn_status = if warnings > 0 { "warn" } else { "ok" };
    rows.push(("问题数".to_owned(), int_text(issues), Some(issue_status.to_owned())));
    rows.push(("警告数".to_owned(), int_text(warnings), Some(warn_status.to_owned())));
    rows.push(("检查项".to_owned(), "系统/安全/网络/资源/服务".to_owned(), None));
    assert(row3_views(rows@) =~= summary_rows_spec(issues as int, warnings as int));
    rows
}

pub open spec fn advice_spec(issues: int, warnings: int) -> Seq<(AdviceKind, Seq<char>)> {
    (if issues > 0 {
        seq![(AdviceKind::Warning, "发现 "@ + dec_spec(issues as nat) + " 个问题需要处理"@)]
    } else {
        Seq::empty()
    }) + (if warnings > 0 {
        seq![(AdviceKind::Info, "发现 "@ + dec_spec(warnings as nat) + " 个警告"@)]
    } else {
        Seq::empty()
    }) + (if issues == 0 && warnings == 0 {
        seq![(AdviceKind::Success, "系统运行正常"@)]
    } else {
        Seq::empty()
    })
}

pub open spec fn advice_views(v: Seq<(AdviceKind, String)>) -> Seq<(AdviceKind, Seq<char>)> {
    v.map_values(|a: (AdviceKind, String)| (a.0, a.1@))
}

fn counted_text(prefix: &str, n: i32, suffix: &str) -> (r: String)
    requires
        n > 0,
    ensures
        r@ == prefix@ + dec_spec(n as nat) + suffix@,
{
    let mut out = chars_of(prefix);
    let mut d = dec(n as u64);
    out.append(&mut d);
    let mut s = chars_of(suffix);
    out.append(&mut s);
    string_of(out.as_slice())
}

/// The recommendations of the full health check.
pub fn health_advice(issues: i32, warnings: i32) -> (r: Vec<(AdviceKind, String)>)
    ensures
        advice_views(r@) == advice_spec(issues as int, warnings as int),
{
    let mut out: Vec<(AdviceKind, String)> = Vec::new();
    if issues > 0 {
        out.push((AdviceKind::Warning, counted_text("发现 ", issues, " 个问题需要处理")));
    }
    if warnings > 0 {
        out.push((AdviceKind::Info, counted_text("发现 ", warnings, " 个警告")));
    }
    if issues == 0 && warnings == 0 {
        out.push((AdviceKind::Success, "系统运行正常".to_owned()));
    }
    assert(advice_views(out@) =~= advice_spec(issues as int, warnings as int));
    out
}


/// The checks that a full export runs, in order.
pub open spec fn core_check_ids_spec() -> Seq<Seq<char>> {
    seq![
        "system"@, "resource"@, "service"@, "network"@, "security"@, "middleware"@,
        "elasticsearch"@, "redis"@, "nginx"@, "keepalived"@, "mysql"@, "java-service"@,
    ]
}

pub fn core_check_ids() -> (r: Vec<&'static str>)
    ensures
        r@.map_values(|s: &str| s@) == core_check_ids_spec(),
{
    let r = vec![
        "system", "resource", "service", "network", "security", "middleware",
        "elasticsearch", "redis", "nginx", "keepalived", "mysql", "java-service",
    ];
    assert(r@.map_values(|s: &str| s@) =~= core_check_ids_spec());
    r
}

/// The counts of a full export: checks that ended healthy (or informational), with a
/// warning and with an error, and the warnings and errors reported in all.
pub struct ExportTally {
    pub ok: usize,
    pub warn: usize,
    pub error: usize,
    pub warnings: usize,
    pub errors: usize,
}

pub open spec fn tally_of(t: ExportTally) -> (nat, nat, nat, nat, nat) {
    (t.ok as nat, t.warn as nat, t.error as nat, t.warnings as nat, t.errors as nat)
}

/// The export counts after one more run: a check with a result counts by its status
/// and adds its warnings and errors; a check without a result counts as a warning
/// with one warning.
pub open spec fn export_step(t: (nat, nat, nat, nat, nat), run: Option<(CheckStatus, usize, usize)>) -> (
    nat,
    nat,
    nat,
    nat,
    nat,
) {
    match run {
        Some((status, w, e)) => {
            let (ok, warn, error) = match status {
                CheckStatus::Healthy => (t.0 + 1, t.1, t.2),
                CheckStatus::Info => (t.0 + 1, t.1, t.2),
                CheckStatus::Warn => (t.0, t.1 + 1, t.2),
                CheckStatus::Error => (t.0, t.1, t.2 + 1),
            };
            (ok, warn, error, t.3 + w as nat, t.4 + e as nat)
        },
        None => (t.0, t.1 + 1, t.2, t.3 + 1, t.4),
    }
}

/// The export counts over the runs, in order (each run being the status, warnings
/// and errors of a check, or nothing where the check gave no result).
pub open spec fn export_tally_spec(runs: Seq<Option<(CheckStatus, usize, usize)>>) -> (nat, nat, nat, nat, nat)
    decreases runs.len(),
{
    if runs.len() == 0 {
        (0, 0, 0, 0, 0)
    } else {
        export_step(export_tally_spec(runs.drop_last()), runs.last())
    }
}

/// The overall status of an export: error where any check or report is an error,
/// else warn where any is a warning, else healthy.
pub open spec fn overall_spec(t: (nat, nat, nat, nat, nat)) -> CheckStatus {
    if t.4 > 0 || t.2 > 0 {
        CheckStatus::Error
    } else if t.3 > 0 || t.1 > 0 {
        CheckStatus::Warn
    } else {
        CheckStatus::Healthy
    }
}

proof fn lemma_export_monotone(runs: Seq<Option<(CheckStatus, usize, usize)>>, i: int)
    requires
        0 <= i <= runs.len(),
    ensures
        export_tally_spec(runs.take(i)).0 <= export_tally_spec(runs).0,
        export_tally_spec(runs.take(i)).1 <= export_tally_spec(runs).1,
        export_tally_spec(runs.take(i)).2 <= export_tally_spec(runs).2,
        export_tally_spec(runs.take(i)).3 <= export_tally_spec(runs).3,
        export_tally_spec(runs.take(i)).4 <= export_tally_spec(runs).4,
        export_tally_spec(runs).0 + export_tally_spec(runs).1 + export_tally_spec(runs).2 == runs.len(),
    decreases runs.len(),
{
    if runs.len() > 0 {
        if i == runs.len() {
            assert(runs.take(i) =~= runs);
        } else {
            assert(runs.drop_last().take(i) =~= runs.take(i));
        }
        if i < runs.len() {
            lemma_export_monotone(runs.drop_last(), i);
        } else {
            lemma_export_monotone(runs.drop_last(), 0);
        }
    }
}

/// The counts and overall status of a full export.
pub fn export_tally(runs: &Vec<Option<(CheckStatus, usize, usize)>>) -> (r: (ExportTally, CheckStatus))
    requires
        export_tally_spec(runs@).3 <= usize::MAX,
        export_tally_spec(runs@).4 <= usize::MAX,
    ensures
        tally_of(r.0) == export_tally_spec(runs@),
        r.1 == overall_spec(export_tally_spec(runs@)),
{
    let mut t = ExportTally { ok: 0, warn: 0, error: 0, warnings: 0, errors: 0 };
    let mut i: usize = 0;
    proof {
        lemma_export_monotone(runs@, 0);
    }
    while i < runs.len()
        invariant
            i <= runs@.len(),
            export_tally_spec(runs@).3 <= usize::MAX,
            export_tally_spec(runs@).4 <= usize::MAX,
            tally_of(t) == export_tally_spec(runs@.take(i as int)),
        decreases runs.len() - i,
    {
        proof {
            assert(runs@.take(i + 1).drop_last() =~= runs@.take(i as int));
            lemma_export_monotone(runs@, i + 1);
            lemma_export_monotone(runs@.take(i + 1), i as int);
        }
        match &runs[i] {
            Some((status, w, e)) => {
                match status {
                    CheckStatus::Healthy => t.ok = t.ok + 1,
                    CheckStatus::Info => t.ok = t.ok + 1,
                    CheckStatus::Warn => t.warn = t.warn + 1,
                    CheckStatus::Error => t.error = t.error + 1,
                }
                t.warnings = t.warnings + *w;
                t.errors = t.errors + *e;
            },
            None => {
                t.warn = t.warn + 1;
                t.warnings = t.warnings + 1;
            },
        }
        i = i + 1;
    }
    assert(runs@.take(i as int) =~= runs@);
    let overall = if t.errors > 0 || t.error > 0 {
        CheckStatus::Error
    } else if t.warnings > 0 || t.warn > 0 {
        CheckStatus::Warn
    } else {
        CheckStatus::Healthy
    };
    (t, overall)
}

/// The row that an export shows for a check without a result: its identifier as id
/// and name, `warn`, one warning, no error, no time and no section.
pub fn missing_result_row(id: &str) -> (r: Vec<String>)
    ensures
        crate::text::string_views(r@) == seq![id@, id@, "warn"@, "1"@, "0"@, "0"@, "0"@],
{
    let r = vec![id.to_owned(), id.to_owned(), "warn".to_owned(), "1".to_owned(), "0".to_owned(), "0".to_owned(), "0".to_owned()];
    assert(crate::text::string_views(r@) =~= seq![id@, id@, "warn"@, "1"@, "0"@, "0"@, "0"@]);
    r
}

} // verus!
