//! Rule overrides: what an operator changed of a built-in rule, and how findings are
//! adjusted by it.
use vstd::prelude::*;
use crate::anomaly::{AnomalyFinding, AnomalyView, anomaly_views};
use crate::text::{chars_of, last_index, rfind_char, seq_eq, slice_to_vec, string_views};

verus! {

/// What an override sets of a rule; `None` leaves a field as the rule has it.
pub struct RuleOverride {
    pub enabled: Option<bool>,
    pub level: Option<String>,
    pub title: Option<String>,
    pub summary: Option<String>,
    pub suggestion: Option<String>,
    pub commands: Option<Vec<String>>,
}

/// The parent of a rule identifier: what comes before its last `.`, or nothing.
pub open spec fn rule_parent(id: Seq<char>) -> Seq<char> {
    match last_index(id, '.') {
        Some(k) => id.take(k),
        None => Seq::empty(),
    }
}

/// The override stored under `key` (the last one where the key repeats, as a map
/// filled in order keeps).
pub open spec fn override_at(ovs: Seq<(String, RuleOverride)>, key: Seq<char>) -> Option<RuleOverride>
    decreases ovs.len(),
{
    if ovs.len() == 0 {
        None
    } else if ovs.last().0@ == key {
        Some(ovs.last().1)
    } else {
        override_at(ovs.drop_last(), key)
    }
}

/// The override of a rule: the one for its identifier, else the one for its parent.
pub open spec fn override_for(ovs: Seq<(String, RuleOverride)>, id: Seq<char>) -> Option<RuleOverride> {
    match override_at(ovs, id) {
        Some(o) => Some(o),
        None => override_at(ovs, rule_parent(id)),
    }
}

/// Whether an override switches its rule off.
pub open spec fn switched_off(o: Option<RuleOverride>) -> bool {
    o matches Some(v) && v.enabled == Some(false)
}

/// A replacement text where it is set and not empty, else the current one.
pub open spec fn replaced(o: Option<String>, current: Seq<char>) -> Seq<char> {
    match o {
        Some(s) => if s@.len() > 0 {
            s@
        } else {
            current
        },
        None => current,
    }
}

/// A finding with its override applied: level, title, summary and advice replaced by
/// non-empty texts, commands replaced by the override's list where it has one.
pub open spec fn overridden(f: AnomalyView, o: Option<RuleOverride>) -> AnomalyView {
    match o {
        None => f,
        Some(v) => AnomalyView {
            level: replaced(v.level, f.level),
            title: replaced(v.title, f.title),
            summary: replaced(v.summary, f.summary),
            suggestion: replaced(v.suggestion, f.suggestion),
            commands: match v.commands {
                Some(c) => string_views(c@),
                None => f.commands,
            },
            ..f
        },
    }
}

/// The findings that stay, those whose rule is not switched off, each with its
/// override applied, in order.
pub open spec fn apply_overrides_spec(fs: Seq<AnomalyView>, ovs: Seq<(String, RuleOverride)>) -> Seq<AnomalyView>
    decreases fs.len(),
{
    if fs.len() == 0 {
        Seq::empty()
    } else {
        let prev = apply_overrides_spec(fs.drop_last(), ovs);
        let o = override_for(ovs, fs.last().rule_id);
        if switched_off(o) {
            prev
        } else {
            prev.push(overridden(fs.last(), o))
        }
    }
}

fn find_override(ovs: &Vec<(String, RuleOverride)>, key: &[char]) -> (r: Option<usize>)
    ensures
        match override_at(ovs@, key@) {
            Some(o) => r matches Some(i) && i < ovs@.len() && ovs@[i as int].1 == o,
            None => r is None,
        },
{
    let mut k: usize = ovs.len();
    assert(ovs@.take(k as int) =~= ovs@);
    while k > 0
        invariant
            k <= ovs@.len(),
            override_at(ovs@, key@) == override_at(ovs@.take(k as int), key@),
        decreases k,
    {
        let ghost t = ovs@.take(k as int);
        assert(t.last() == ovs@[k - 1]);
        assert(t.drop_last() =~= ovs@.take(k - 1));
        let c = chars_of(ovs[k - 1].0.as_str());
        if seq_eq(c.as_slice(), key) {
            return Some(k - 1);
        }
        k = k - 1;
    }
    None
}

fn parent_of(id: &[char]) -> (r: Vec<char>)
    ensures
        r@ == rule_parent(id@),
{
    match rfind_char(id, '.') {
        Some(k) => slice_to_vec(id, 0, k),
        None => Vec::new(),
    }
}

fn lookup(ovs: &Vec<(String, RuleOverride)>, id: &str) -> (r: Option<usize>)
    ensures
        match override_for(ovs@, id@) {
            Some(o) => r matches Some(i) && i < ovs@.len() && ovs@[i as int].1 == o,
            None => r is None,
        },
{
    let ic = chars_of(id);
    match find_override(ovs, ic.as_slice()) {
        Some(i) => Some(i),
        None => {
            let p = parent_of(ic.as_slice());
            find_override(ovs, p.as_slice())
        },
    }
}

fn replace_text(current: String, o: &Option<String>) -> (r: String)
    ensures
        r@ == replaced(*o, current@),
{
    match o {
        Some(s) => if chars_of(s.as_str()).len() > 0 {
            s.clone()
        } else {
            current
        },
        None => current,
    }
}

pub(crate) fn clone_all(v: &Vec<String>) -> (r: Vec<String>)
    ensures
        string_views(r@) == string_views(v@),
{
    let mut out: Vec<String> = Vec::new();
    let mut i: usize = 0;
    while i < v.len()
        invariant
            i <= v@.len(),
            string_views(out@) == string_views(v@).take(i as int),
        decreases v.len() - i,
    {
        let ghost before = string_views(out@);
        out.push(v[i].clone());
        assert(string_views(out@) =~= before.push(v@[i as int]@));
        assert(string_views(v@).take(i + 1) =~= string_views(v@).take(i as int).push(v@[i as int]@));
        i = i + 1;
    }
    assert(string_views(v@).take(i as int) =~= string_views(v@));
    out
}

fn apply_one(f: AnomalyFinding, o: &RuleOverride) -> (r: AnomalyFinding)
    ensures
        r@ == overridden(f@, Some(*o)),
{
    let commands = match &o.commands {
        Some(c) => clone_all(c),
        None => f.commands,
    };
    AnomalyFinding {
        rule_id: f.rule_id,
        level: replace_text(f.level, &o.level),
        category: f.category,
        title: replace_text(f.title, &o.title),
        target: f.target,
        summary: replace_text(f.summary, &o.summary),
        evidence: f.evidence,
        suggestion: replace_text(f.suggestion, &o.suggestion),
        commands,
    }
}

/// Applies the rule overrides (rule identifier or parent identifier, override) to
/// the findings: findings of a switched-off rule are dropped, the others get the
/// override's texts and commands.
pub fn apply_overrides(findings: Vec<AnomalyFinding>, overrides: &Vec<(String, RuleOverride)>) -> (r: Vec<AnomalyFinding>)
    ensures
        anomaly_views(r@) == apply_overrides_spec(anomaly_views(findings@), overrides@),
{
    let ghost all = anomaly_views(findings@);
    let n: usize = findings.len();
    let mut rest = findings;
    let mut out: Vec<AnomalyFinding> = Vec::new();
    let mut i: usize = 0;
    assert(all.take(0) =~= Seq::<AnomalyView>::empty());
    assert(anomaly_views(out@) =~= Seq::<AnomalyView>::empty());
    while rest.len() > 0
        invariant
            i + rest@.len() == n,
            all.len() == n,
            anomaly_views(rest@) =~= all.skip(i as int),
            anomaly_views(out@) == apply_overrides_spec(all.take(i as int), overrides@),
        decreases rest@.len(),
    {
        let f = rest.remove(0);
        proof {
            assert(anomaly_views(rest@) =~= all.skip(i + 1)) by {
                assert(all.skip(i as int).drop_first() =~= all.skip(i + 1));
            }
            assert(f@ == all.skip(i as int)[0]);
            assert(f@ == all[i as int]);
            assert(all.take(i + 1).drop_last() =~= all.take(i as int));
            assert(all.take(i + 1).last() == all[i as int]);
        }
        let ghost fv = f@;
        match lookup(overrides, f.rule_id.as_str()) {
            None => {
                let ghost before = anomaly_views(out@);
                out.push(f);
                assert(anomaly_views(out@) =~= before.push(fv));
            },
            Some(k) => {
                let o = &overrides[k].1;
                let off = match o.enabled {
                    Some(e) => !e,
                    None => false,
                };
                if !off {
                    let g = apply_one(f, o);
                    let ghost before = anomaly_views(out@);
                    let ghost gv = g@;
                    out.push(g);
                    assert(anomaly_views(out@) =~= before.push(gv));
                }
            },
        }
        i = i + 1;
    }
    assert(all.take(i as int) =~= all);
    out
}

/// With no overrides the findings come back unchanged.
pub proof fn law_no_overrides_keeps_findings(fs: Seq<AnomalyView>)
    ensures
        apply_overrides_spec(fs, Seq::empty()) == fs,
    decreases fs.len(),
{
    if fs.len() > 0 {
        law_no_overrides_keeps_findings(fs.drop_last());
        assert(fs.drop_last().push(fs.last()) =~= fs);
    }
}

/// No finding that comes back belongs to a switched-off rule, and each keeps the
/// rule identifier and category of a finding that went in.
pub proof fn law_switched_off_rules_are_dropped(fs: Seq<AnomalyView>, ovs: Seq<(String, RuleOverride)>)
    ensures
        forall|k: int|
            0 <= k < apply_overrides_spec(fs, ovs).len() ==> !switched_off(
                override_for(ovs, (#[trigger] apply_overrides_spec(fs, ovs)[k]).rule_id),
            ),
        forall|k: int|
            0 <= k < apply_overrides_spec(fs, ovs).len() ==> exists|j: int|
                0 <= j < fs.len() && (#[trigger] fs[j]).rule_id == (#[trigger] apply_overrides_spec(fs, ovs)[k]).rule_id
                    && fs[j].category == apply_overrides_spec(fs, ovs)[k].category,
    decreases fs.len(),
{
    if fs.len() > 0 {
        let prev = apply_overrides_spec(fs.drop_last(), ovs);
        law_switched_off_rules_are_dropped(fs.drop_last(), ovs);
        let r = apply_overrides_spec(fs, ovs);
        assert forall|k: int| 0 <= k < r.len() implies exists|j: int|
            0 <= j < fs.len() && (#[trigger] fs[j]).rule_id == (#[trigger] r[k]).rule_id && fs[j].category
                == r[k].category by {
            if k < prev.len() {
                assert(r[k] == prev[k]);
                let j = choose|j: int|
                    0 <= j < fs.drop_last().len() && (#[trigger] fs.drop_last()[j]).rule_id == (#[trigger] prev[k]).rule_id
                        && fs.drop_last()[j].category == prev[k].category;
                assert(fs[j] == fs.drop_last()[j]);
            } else {
                assert(fs[fs.len() - 1] == fs.last());
            }
        }
        assert forall|k: int| 0 <= k < r.len() implies !switched_off(override_for(ovs, (#[trigger] r[k]).rule_id)) by {
            if k < prev.len() {
                assert(r[k] == prev[k]);
            }
        }
    }
}


/// Whether override field `field` sets a text: it is there and not empty.
pub open spec fn sets_text(field: Option<String>) -> bool {
    field matches Some(t) && t@.len() > 0
}

/// Whether `g` is finding `f` under override `o`: the rule, category, target and
/// evidence stay; level, title, summary and advice become the override's texts
/// where it sets non-empty ones and stay otherwise; the commands become the
/// override's list where it has one.
pub open spec fn shows_override(f: AnomalyView, o: Option<RuleOverride>, g: AnomalyView) -> bool {
    &&& g.rule_id == f.rule_id
    &&& g.category == f.category
    &&& g.target == f.target
    &&& g.evidence == f.evidence
    &&& (o matches Some(v) && sets_text(v.level)) ==> g.level == o->0.level->0@
    &&& !(o matches Some(v) && sets_text(v.level)) ==> g.level == f.level
    &&& (o matches Some(v) && sets_text(v.title)) ==> g.title == o->0.title->0@
    &&& !(o matches Some(v) && sets_text(v.title)) ==> g.title == f.title
    &&& (o matches Some(v) && sets_text(v.summary)) ==> g.summary == o->0.summary->0@
    &&& !(o matches Some(v) && sets_text(v.summary)) ==> g.summary == f.summary
    &&& (o matches Some(v) && sets_text(v.suggestion)) ==> g.suggestion == o->0.suggestion->0@
    &&& !(o matches Some(v) && sets_text(v.suggestion)) ==> g.suggestion == f.suggestion
    &&& (o matches Some(v) && v.commands is Some) ==> g.commands == string_views(o->0.commands->0@)
    &&& !(o matches Some(v) && v.commands is Some) ==> g.commands == f.commands
}

/// Every finding whose rule is not switched off comes back with its override (by
/// rule identifier, else by the parent identifier) applied: the override's
/// non-empty level, title, summary and advice and its commands replace the
/// finding's own.
pub proof fn law_kept_findings_show_their_override(fs: Seq<AnomalyView>, ovs: Seq<(String, RuleOverride)>)
    ensures
        forall|i: int|
            0 <= i < fs.len() && !switched_off(override_for(ovs, (#[trigger] fs[i]).rule_id)) ==> exists|j: int|
                0 <= j < apply_overrides_spec(fs, ovs).len() && shows_override(
                    fs[i],
                    override_for(ovs, fs[i].rule_id),
                    #[trigger] apply_overrides_spec(fs, ovs)[j],
                ),
    decreases fs.len(),
{
    if fs.len() > 0 {
        let prev = apply_overrides_spec(fs.drop_last(), ovs);
        let r = apply_overrides_spec(fs, ovs);
        law_kept_findings_show_their_override(fs.drop_last(), ovs);
        assert forall|i: int| 0 <= i < fs.len() && !switched_off(override_for(ovs, (#[trigger] fs[i]).rule_id)) implies exists|j: int|
            0 <= j < r.len() && shows_override(fs[i], override_for(ovs, fs[i].rule_id), #[trigger] r[j]) by {
            if i < fs.len() - 1 {
                assert(fs.drop_last()[i] == fs[i]);
                let j = choose|j: int|
                    0 <= j < prev.len() && shows_override(
                        fs.drop_last()[i],
                        override_for(ovs, fs.drop_last()[i].rule_id),
                        #[trigger] prev[j],
                    );
                assert(r[j] == prev[j]);
            } else {
                let o = override_for(ovs, fs.last().rule_id);
                assert(fs[i] == fs.last());
                assert(r[prev.len() as int] == overridden(fs.last(), o));
                assert(shows_override(fs[i], o, r[prev.len() as int]));
            }
        }
    }
}


proof fn lemma_last_dot(p: Seq<char>, t: Seq<char>)
    requires
        forall|i: int| 0 <= i < t.len() ==> t[i] != '.',
    ensures
        last_index(p + "."@ + t, '.') == Some(p.len() as int),
    decreases t.len(),
{
    reveal_strlit(".");
    let s = p + "."@ + t;
    if t.len() == 0 {
        assert(s.last() == '.');
    } else {
        assert(s.last() == t.last());
        lemma_last_dot(p, t.drop_last());
        assert(s.drop_last() =~= p + "."@ + t.drop_last());
    }
}

/// The override stored under a key is the last entry with that key; a rule with no
/// entry of its own takes the one of its parent, the identifier up to its last `.`.
pub proof fn law_override_lookup(ovs: Seq<(String, RuleOverride)>, parent: Seq<char>, tail: Seq<char>, key: Seq<char>)
    requires
        forall|i: int| 0 <= i < tail.len() ==> tail[i] != '.',
    ensures
        override_at(ovs, key) is None <==> forall|i: int| 0 <= i < ovs.len() ==> (#[trigger] ovs[i]).0@ != key,
        override_at(ovs, key) matches Some(o) ==> exists|i: int|
            0 <= i < ovs.len() && (#[trigger] ovs[i]).0@ == key && ovs[i].1 == o && forall|j: int|
                i < j < ovs.len() ==> (#[trigger] ovs[j]).0@ != key,
        override_at(ovs, parent + "."@ + tail) is None ==> override_for(ovs, parent + "."@ + tail) == override_at(
            ovs,
            parent,
        ),
    decreases ovs.len(),
{
    lemma_last_dot(parent, tail);
    assert((parent + "."@ + tail).take(parent.len() as int) =~= parent);
    if ovs.len() > 0 {
        let prev = ovs.drop_last();
        law_override_lookup(prev, parent, tail, key);
        let n = ovs.len() - 1;
        assert forall|i: int| 0 <= i < n implies #[trigger] prev[i] == ovs[i] by {}
        if ovs.last().0@ != key {
            if let Some(o) = override_at(prev, key) {
                let i = choose|i: int|
                    0 <= i < prev.len() && (#[trigger] prev[i]).0@ == key && prev[i].1 == o && forall|j: int|
                        i < j < prev.len() ==> (#[trigger] prev[j]).0@ != key;
                assert(ovs[i] == prev[i]);
                assert forall|j: int| i < j < ovs.len() implies (#[trigger] ovs[j]).0@ != key by {
                    if j < n {
                        assert(ovs[j] == prev[j]);
                    }
                }
            }
            assert forall|i: int| 0 <= i < ovs.len() && override_at(prev, key) is None implies (#[trigger] ovs[i]).0@ != key by {
                if i < n {
                    assert(ovs[i] == prev[i]);
                }
            }
        } else {
            assert(ovs[n] == ovs.last());
        }
    }
}

} // verus!
