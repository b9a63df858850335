//! The traces of one middleware component gathered from the process list, the
//! systemd units and the listening ports, and the row that the middleware check shows
//! for it.
use vstd::prelude::*;
use crate::checks::middleware::{MiddlewareSpec, accepted_path, cmd_path_candidates, config_hint, config_hint_spec, extract_paths_from_cmd, matches_spec, matches_spec_text, middleware_state, middleware_state_spec, path_candidate, port_belongs, port_belongs_spec, sorted_join, sorted_join_spec, unit_running};
use crate::checks::common::{truncate, truncate_spec};
use crate::text::{chars_of, join, join_spec, lines, lines_spec, parse_unsigned, parse_unsigned_spec, split_whitespace, split_ws, views, contains_spec, dec, dec_spec, insert_sorted_unique, push_str, string_of, string_views, strictly_sorted};

verus! {

/// A process as the middleware check sees it: pid, command name, command line and
/// the target of its `exe` link where it could be read.
pub type ProcEntry = (u32, String, String, Option<String>);

/// The traces of a component, each list sorted and without repeats.
pub struct MiddlewareHit {
    pub pids: Vec<String>,
    pub units: Vec<String>,
    pub ports: Vec<String>,
    pub paths: Vec<String>,
    pub commands: Vec<String>,
    pub unit_states: Vec<String>,
    pub version: String,
}

pub open spec fn spec_patterns(spec: MiddlewareSpec) -> Seq<Seq<char>> {
    spec.patterns@.map_values(|s: &str| s@)
}

/// Whether a process belongs to the component: its name and command line mention it.
pub open spec fn proc_matches(spec: MiddlewareSpec, p: ProcEntry) -> bool {
    matches_spec_text(spec_patterns(spec), spec.id@, p.1@ + " "@ + p.2@)
}

/// Whether `y` is a path that a process shows: one its command line names, or its
/// executable.
pub open spec fn proc_path(p: ProcEntry, y: Seq<char>) -> bool {
    (exists|k: int|
        0 <= k < cmd_path_candidates(p.2@).len() && accepted_path(#[trigger] cmd_path_candidates(p.2@)[k])
            && y == path_candidate(cmd_path_candidates(p.2@)[k])) || (p.3 matches Some(e) && e@ == y)
}

pub open spec fn unit_matches(spec: MiddlewareSpec, u: (String, String)) -> bool {
    matches_spec_text(spec_patterns(spec), spec.id@, u.0@)
}

/// Whether the component was seen by a process, a unit or a command.
pub open spec fn seen_spec(spec: MiddlewareSpec, commands: Seq<String>, ps: Seq<ProcEntry>, units: Seq<(String, String)>) -> bool {
    (exists|i: int| 0 <= i < ps.len() && proc_matches(spec, #[trigger] ps[i])) || (exists|i: int|
        0 <= i < units.len() && unit_matches(spec, #[trigger] units[i])) || commands.len() > 0
}

pub open spec fn holds(v: Vec<String>, y: Seq<char>) -> bool {
    string_views(v@).contains(y)
}

/// Whether one of the strings is `y`.
pub open spec fn listed(v: Seq<String>, y: Seq<char>) -> bool {
    exists|k: int| 0 <= k < v.len() && #[trigger] v[k]@ == y
}

/// The traces of the component: the commands found, its version, the usual
/// configuration files that exist (`hints`), and what the process list (`ps`), the
/// units (unit, state) and the listening ports (port, line) show of it.
pub open spec fn hit_spec(
    spec: MiddlewareSpec,
    commands: Seq<String>,
    hints: Seq<String>,
    ps: Seq<ProcEntry>,
    units: Seq<(String, String)>,
    ports: Seq<(String, String)>,
    hit: MiddlewareHit,
) -> bool {
    &&& strictly_sorted(string_views(hit.pids@))
    &&& strictly_sorted(string_views(hit.units@))
    &&& strictly_sorted(string_views(hit.ports@))
    &&& strictly_sorted(string_views(hit.paths@))
    &&& strictly_sorted(string_views(hit.commands@))
    &&& strictly_sorted(string_views(hit.unit_states@))
    &&& forall|y: Seq<char>|
        holds(hit.pids, y) <==> exists|i: int|
            0 <= i < ps.len() && proc_matches(spec, #[trigger] ps[i]) && y == dec_spec(ps[i].0 as nat)
    &&& forall|y: Seq<char>|
        holds(hit.paths, y) <==> (listed(hints, y) || exists|i: int|
            0 <= i < ps.len() && proc_matches(spec, #[trigger] ps[i]) && proc_path(ps[i], y))
    &&& forall|y: Seq<char>|
        holds(hit.units, y) <==> exists|i: int| 0 <= i < units.len() && unit_matches(spec, #[trigger] units[i]) && y == units[i].0@
    &&& forall|y: Seq<char>|
        holds(hit.unit_states, y) <==> exists|i: int|
            0 <= i < units.len() && unit_matches(spec, #[trigger] units[i]) && y == units[i].1@
    &&& forall|y: Seq<char>| holds(hit.commands, y) <==> listed(commands, y)
    &&& forall|y: Seq<char>|
        holds(hit.ports, y) <==> exists|i: int|
            0 <= i < ports.len() && port_belongs_spec(
                spec,
                (#[trigger] ports[i]).0@,
                ports[i].1@,
                seen_spec(spec, commands, ps, units),
            ) && y == ports[i].0@
}

fn sorted_set_of(v: &Vec<String>) -> (r: Vec<String>)
    ensures
        strictly_sorted(string_views(r@)),
        forall|y: Seq<char>| string_views(r@).contains(y) <==> listed(v@, y),
{
    let mut out: Vec<String> = Vec::new();
    let mut i: usize = 0;
    while i < v.len()
        invariant
            i <= v@.len(),
            strictly_sorted(string_views(out@)),
            forall|y: Seq<char>| string_views(out@).contains(y) <==> exists|k: int| 0 <= k < i && #[trigger] v@[k]@ == y,
        decreases v.len() - i,
    {
        let ghost before = string_views(out@);
        insert_sorted_unique(&mut out, v[i].clone());
        assert forall|y: Seq<char>| string_views(out@).contains(y) <==> exists|k: int| 0 <= k < i + 1 && #[trigger] v@[k]@ == y by {
            if exists|k: int| 0 <= k < i + 1 && #[trigger] v@[k]@ == y {
                let k = choose|k: int| 0 <= k < i + 1 && #[trigger] v@[k]@ == y;
                if k < i {
                    assert(before.contains(y));
                }
            }
        }
        i = i + 1;
    }
    out
}

fn proc_text(p: &ProcEntry) -> (r: String)
    ensures
        r@ == p.1@ + " "@ + p.2@,
{
    let mut t = chars_of(p.1.as_str());
    push_str(&mut t, " ");
    push_str(&mut t, p.2.as_str());
    string_of(t.as_slice())
}

proof fn lemma_paths_step(
    spec: MiddlewareSpec,
    hints: Seq<String>,
    ps: Seq<ProcEntry>,
    i: int,
    old_p: Seq<Seq<char>>,
    new_p: Seq<Seq<char>>,
)
    requires
        0 <= i < ps.len(),
        forall|y: Seq<char>|
            #![trigger old_p.contains(y)]
            old_p.contains(y) <==> (listed(hints, y) || exists|k: int|
                0 <= k < i && proc_matches(spec, #[trigger] ps[k]) && proc_path(ps[k], y)),
        proc_matches(spec, ps[i]) ==> forall|y: Seq<char>|
            #![trigger new_p.contains(y)]
            new_p.contains(y) <==> (old_p.contains(y) || proc_path(ps[i], y)),
        !proc_matches(spec, ps[i]) ==> new_p == old_p,
    ensures
        forall|y: Seq<char>|
            #![trigger new_p.contains(y)]
            new_p.contains(y) <==> (listed(hints, y) || exists|k: int|
                0 <= k < i + 1 && proc_matches(spec, #[trigger] ps[k]) && proc_path(ps[k], y)),
{
    assert forall|y: Seq<char>|
        #![trigger new_p.contains(y)]
        new_p.contains(y) <==> (listed(hints, y) || exists|k: int|
            0 <= k < i + 1 && proc_matches(spec, #[trigger] ps[k]) && proc_path(ps[k], y)) by {
        if new_p.contains(y) && !listed(hints, y) {
            if old_p.contains(y) {
                let k = choose|k: int| 0 <= k < i && proc_matches(spec, #[trigger] ps[k]) && proc_path(ps[k], y);
                assert(0 <= k < i + 1 && proc_matches(spec, ps[k]) && proc_path(ps[k], y));
            } else {
                assert(proc_matches(spec, ps[i]) && proc_path(ps[i], y));
            }
        }
        if exists|k: int| 0 <= k < i + 1 && proc_matches(spec, #[trigger] ps[k]) && proc_path(ps[k], y) {
            let k = choose|k: int| 0 <= k < i + 1 && proc_matches(spec, #[trigger] ps[k]) && proc_path(ps[k], y);
            if k < i {
                assert(old_p.contains(y));
            }
        }
        if listed(hints, y) {
            assert(old_p.contains(y));
        }
    }
}

/// Gathers the traces of one component.
pub fn collect_hit(
    spec: &MiddlewareSpec,
    commands: &Vec<String>,
    version: String,
    hints: &Vec<String>,
    ps: &Vec<ProcEntry>,
    units: &Vec<(String, String)>,
    ports: &Vec<(String, String)>,
) -> (hit: MiddlewareHit)
    ensures
        hit_spec(*spec, commands@, hints@, ps@, units@, ports@, hit),
        hit.version == version,
{
    let cmds = sorted_set_of(commands);
    let mut paths = sorted_set_of(hints);
    let mut pids: Vec<String> = Vec::new();
    let mut i: usize = 0;
    while i < ps.len()
        invariant
            i <= ps@.len(),
            strictly_sorted(string_views(pids@)),
            strictly_sorted(string_views(paths@)),
            forall|y: Seq<char>|
                string_views(pids@).contains(y) <==> exists|k: int|
                    0 <= k < i && proc_matches(*spec, #[trigger] ps@[k]) && y == dec_spec(ps@[k].0 as nat),
            forall|y: Seq<char>|
                #![trigger string_views(paths@).contains(y)]
                string_views(paths@).contains(y) <==> (listed(hints@, y) || exists|k: int|
                    0 <= k < i && proc_matches(*spec, #[trigger] ps@[k]) && proc_path(ps@[k], y)),
        decreases ps.len() - i,
    {
        let text = proc_text(&ps[i]);
        let ghost old_pids = string_views(pids@);
        let ghost old_paths = string_views(paths@);
        if matches_spec(spec.patterns.as_slice(), spec.id, text.as_str()) {
            let pid = string_of(dec(ps[i].0 as u64).as_slice());
            insert_sorted_unique(&mut pids, pid);
            extract_paths_from_cmd(ps[i].2.as_str(), &mut paths);
            let ghost mid_paths = string_views(paths@);
            match &ps[i].3 {
                Some(e) => {
                    insert_sorted_unique(&mut paths, e.clone());
                },
                None => {},
            }
            assert forall|y: Seq<char>|
                #![trigger string_views(paths@).contains(y)]
                string_views(paths@).contains(y) <==> (old_paths.contains(y) || proc_path(ps@[i as int], y)) by {
                if mid_paths.contains(y) && !old_paths.contains(y) {
                    assert(proc_path(ps@[i as int], y));
                }
                if proc_path(ps@[i as int], y) && !(ps@[i as int].3 matches Some(e) && e@ == y) {
                    assert(mid_paths.contains(y));
                }
            }
            proof {
                lemma_paths_step(*spec, hints@, ps@, i as int, old_paths, string_views(paths@));
            }
            assert forall|y: Seq<char>|
                string_views(pids@).contains(y) <==> exists|k: int|
                    0 <= k < i + 1 && proc_matches(*spec, #[trigger] ps@[k]) && y == dec_spec(ps@[k].0 as nat) by {
                if exists|k: int| 0 <= k < i + 1 && proc_matches(*spec, #[trigger] ps@[k]) && y == dec_spec(ps@[k].0 as nat) {
                    let k = choose|k: int| 0 <= k < i + 1 && proc_matches(*spec, #[trigger] ps@[k]) && y == dec_spec(ps@[k].0 as nat);
                    if k < i {
                        assert(old_pids.contains(y));
                    }
                }
            }
        } else {
            proof {
                lemma_paths_step(*spec, hints@, ps@, i as int, old_paths, string_views(paths@));
            }
            assert forall|y: Seq<char>|
                string_views(pids@).contains(y) <==> exists|k: int|
                    0 <= k < i + 1 && proc_matches(*spec, #[trigger] ps@[k]) && y == dec_spec(ps@[k].0 as nat) by {
                if exists|k: int| 0 <= k < i + 1 && proc_matches(*spec, #[trigger] ps@[k]) && y == dec_spec(ps@[k].0 as nat) {
                    let k = choose|k: int| 0 <= k < i + 1 && proc_matches(*spec, #[trigger] ps@[k]) && y == dec_spec(ps@[k].0 as nat);
                    assert(k < i);
                }
            }
        }
        i = i + 1;
    }
    let mut unit_names: Vec<String> = Vec::new();
    let mut states: Vec<String> = Vec::new();
    let mut j: usize = 0;
    while j < units.len()
        invariant
            j <= units@.len(),
            strictly_sorted(string_views(unit_names@)),
            strictly_sorted(string_views(states@)),
            forall|y: Seq<char>|
                string_views(unit_names@).contains(y) <==> exists|k: int|
                    0 <= k < j && unit_matches(*spec, #[trigger] units@[k]) && y == units@[k].0@,
            forall|y: Seq<char>|
                string_views(states@).contains(y) <==> exists|k: int|
                    0 <= k < j && unit_matches(*spec, #[trigger] units@[k]) && y == units@[k].1@,
        decreases units.len() - j,
    {
        let ghost old_names = string_views(unit_names@);
        let ghost old_states = string_views(states@);
        if matches_spec(spec.patterns.as_slice(), spec.id, units[j].0.as_str()) {
            insert_sorted_unique(&mut unit_names, units[j].0.clone());
            insert_sorted_unique(&mut states, units[j].1.clone());
        }
        assert forall|y: Seq<char>|
            string_views(unit_names@).contains(y) <==> exists|k: int|
                0 <= k < j + 1 && unit_matches(*spec, #[trigger] units@[k]) && y == units@[k].0@ by {
            if exists|k: int| 0 <= k < j + 1 && unit_matches(*spec, #[trigger] units@[k]) && y == units@[k].0@ {
                let k = choose|k: int| 0 <= k < j + 1 && unit_matches(*spec, #[trigger] units@[k]) && y == units@[k].0@;
                if k < j {
                    assert(old_names.contains(y));
                }
            }
        }
        assert forall|y: Seq<char>|
            string_views(states@).contains(y) <==> exists|k: int|
                0 <= k < j + 1 && unit_matches(*spec, #[trigger] units@[k]) && y == units@[k].1@ by {
            if exists|k: int| 0 <= k < j + 1 && unit_matches(*spec, #[trigger] units@[k]) && y == units@[k].1@ {
                let k = choose|k: int| 0 <= k < j + 1 && unit_matches(*spec, #[trigger] units@[k]) && y == units@[k].1@;
                if k < j {
                    assert(old_states.contains(y));
                }
            }
        }
        j = j + 1;
    }
    let seen = pids.len() > 0 || unit_names.len() > 0 || commands.len() > 0;
    proof {
        let s = seen_spec(*spec, commands@, ps@, units@);
        if pids@.len() > 0 {
            assert(string_views(pids@)[0] == pids@[0]@);
            assert(string_views(pids@).contains(pids@[0]@));
        }
        if unit_names@.len() > 0 {
            assert(string_views(unit_names@)[0] == unit_names@[0]@);
            assert(string_views(unit_names@).contains(unit_names@[0]@));
        }
        if exists|k: int| 0 <= k < ps@.len() && proc_matches(*spec, #[trigger] ps@[k]) {
            let k = choose|k: int| 0 <= k < ps@.len() && proc_matches(*spec, #[trigger] ps@[k]);
            assert(string_views(pids@).contains(dec_spec(ps@[k].0 as nat)));
        }
        if exists|k: int| 0 <= k < units@.len() && unit_matches(*spec, #[trigger] units@[k]) {
            let k = choose|k: int| 0 <= k < units@.len() && unit_matches(*spec, #[trigger] units@[k]);
            assert(string_views(unit_names@).contains(units@[k].0@));
        }
        assert(seen == s);
    }
    let mut port_set: Vec<String> = Vec::new();
    let mut m: usize = 0;
    while m < ports.len()
        invariant
            m <= ports@.len(),
            seen == seen_spec(*spec, commands@, ps@, units@),
            strictly_sorted(string_views(port_set@)),
            forall|y: Seq<char>|
                string_views(port_set@).contains(y) <==> exists|k: int|
                    0 <= k < m && port_belongs_spec(*spec, (#[trigger] ports@[k]).0@, ports@[k].1@, seen)
                        && y == ports@[k].0@,
        decreases ports.len() - m,
    {
        let ghost old_ports = string_views(port_set@);
        if port_belongs(spec, ports[m].0.as_str(), ports[m].1.as_str(), seen) {
            insert_sorted_unique(&mut port_set, ports[m].0.clone());
        }
        assert forall|y: Seq<char>|
            string_views(port_set@).contains(y) <==> exists|k: int|
                0 <= k < m + 1 && port_belongs_spec(*spec, (#[trigger] ports@[k]).0@, ports@[k].1@, seen)
                    && y == ports@[k].0@ by {
            if exists|k: int|
                0 <= k < m + 1 && port_belongs_spec(*spec, (#[trigger] ports@[k]).0@, ports@[k].1@, seen)
                    && y == ports@[k].0@ {
                let k = choose|k: int|
                    0 <= k < m + 1 && port_belongs_spec(*spec, (#[trigger] ports@[k]).0@, ports@[k].1@, seen)
                        && y == ports@[k].0@;
                if k < m {
                    assert(old_ports.contains(y));
                }
            }
        }
        m = m + 1;
    }
    MiddlewareHit {
        pids,
        units: unit_names,
        ports: port_set,
        paths,
        commands: cmds,
        unit_states: states,
        version,
    }
}

/// The row of a component that shows traces: name, status, pids, ports, units, unit
/// states, version (`-` when none), configuration, commands; and whether it runs.
/// `None` for a component with no trace.
pub open spec fn row_spec(spec: MiddlewareSpec, hit: MiddlewareHit, existing: Seq<Seq<char>>) -> Option<(Seq<Seq<char>>, bool)> {
    let running_unit = exists|i: int|
        0 <= i < hit.unit_states@.len() && contains_spec(#[trigger] hit.unit_states@[i]@, "active/running"@);
    match middleware_state_spec(
        hit.pids@.len() > 0,
        running_unit,
        hit.commands@.len() > 0,
        hit.units@.len() > 0,
        hit.version@.len() > 0,
    ) {
        None => None,
        Some(running) => Some(
            (
                seq![
                    spec.name@,
                    if running {
                        "运行中"@
                    } else {
                        "已安装未运行"@
                    },
                    sorted_join_spec(string_views(hit.pids@), "-"@, 8),
                    sorted_join_spec(string_views(hit.ports@), "-"@, 8),
                    sorted_join_spec(string_views(hit.units@), "-"@, 5),
                    sorted_join_spec(string_views(hit.unit_states@), "-"@, 4),
                    if hit.version@.len() == 0 {
                        "-"@
                    } else {
                        hit.version@
                    },
                    config_hint_spec(string_views(hit.paths@), existing),
                    sorted_join_spec(string_views(hit.commands@), "-"@, 3),
                ],
                running,
            ),
        ),
    }
}

/// The row that the middleware check shows for a component, from its traces and the
/// usual configuration files that exist.
pub fn middleware_row(spec: &MiddlewareSpec, hit: &MiddlewareHit, existing: &Vec<String>) -> (r: Option<(Vec<String>, bool)>)
    requires
        strictly_sorted(string_views(hit.pids@)),
        strictly_sorted(string_views(hit.units@)),
        strictly_sorted(string_views(hit.ports@)),
        strictly_sorted(string_views(hit.paths@)),
        strictly_sorted(string_views(hit.commands@)),
        strictly_sorted(string_views(hit.unit_states@)),
    ensures
        match row_spec(*spec, *hit, string_views(existing@)) {
            Some((cells, running)) => r matches Some(x) && string_views(x.0@) == cells && x.1 == running,
            None => r is None,
        },
{
    let running_unit = unit_running(&hit.unit_states);
    let has_version = chars_of(hit.version.as_str()).len() > 0;
    match middleware_state(hit.pids.len() > 0, running_unit, hit.commands.len() > 0, hit.units.len() > 0, has_version) {
        None => None,
        Some(running) => {
            let status = if running {
                "运行中"
            } else {
                "已安装未运行"
            };
            let version = if has_version {
                hit.version.clone()
            } else {
                "-".to_owned()
            };
            let cells = vec![
                spec.name.to_owned(),
                status.to_owned(),
                sorted_join(&hit.pids, "-", 8),
                sorted_join(&hit.ports, "-", 8),
                sorted_join(&hit.units, "-", 5),
                sorted_join(&hit.unit_states, "-", 4),
                version,
                config_hint(&hit.paths, existing),
                sorted_join(&hit.commands, "-", 3),
            ];
            proof {
                match row_spec(*spec, *hit, string_views(existing@)) {
                    Some(t) => {
                        assert(string_views(cells@) =~= t.0);
                    },
                    None => {},
                }
            }
            Some((cells, running))
        },
    }
}

/// The version text of a component from its version command's output (`None` where
/// the command could not run): the first line cut to 140 characters, or nothing.
pub fn version_line(output: Option<&str>) -> (r: String)
    ensures
        r@ == (match output {
            Some(o) => if lines_spec(o@).len() > 0 {
                truncate_spec(lines_spec(o@)[0], 140)
            } else {
                truncate_spec(Seq::empty(), 140)
            },
            None => Seq::empty(),
        }),
{
    proof {
        reveal_strlit("");
    }
    match output {
        None => "".to_owned(),
        Some(o) => {
            let oc = chars_of(o);
            let ls = lines(oc.as_slice());
            if ls.len() > 0 {
                assert(views(ls@)[0] == ls@[0]@);
                let first = string_of(ls[0].as_slice());
                truncate(first.as_str(), 140)
            } else {
                truncate("", 140)
            }
        },
    }
}

/// A line of `ps -eo pid=,comm=,args=`: pid, command name and the remaining words
/// joined by single spaces; nothing for a line without a numeric pid and a name.
pub open spec fn ps_line(line: Seq<char>) -> Option<(nat, Seq<char>, Seq<char>)> {
    let w = split_ws(line);
    if w.len() < 2 {
        None
    } else {
        match parse_unsigned_spec(w[0], 10, u32::MAX as nat) {
            Some(pid) => Some((pid, w[1], join_spec(w.skip(2), " "@))),
            None => None,
        }
    }
}

pub open spec fn ps_lines(ls: Seq<Seq<char>>) -> Seq<(nat, Seq<char>, Seq<char>)>
    decreases ls.len(),
{
    if ls.len() == 0 {
        Seq::empty()
    } else {
        let prev = ps_lines(ls.drop_last());
        match ps_line(ls.last()) {
            Some(x) => prev.push(x),
            None => prev,
        }
    }
}

pub open spec fn ps_views(v: Seq<(u32, String, String)>) -> Seq<(nat, Seq<char>, Seq<char>)> {
    v.map_values(|p: (u32, String, String)| (p.0 as nat, p.1@, p.2@))
}

/// The processes of `ps -eo pid=,comm=,args=` output, in order.
pub fn ps_processes(output: &str) -> (r: Vec<(u32, String, String)>)
    ensures
        ps_views(r@) == ps_lines(lines_spec(output@)),
{
    let oc = chars_of(output);
    let ls = lines(oc.as_slice());
    let ghost lv = views(ls@);
    let mut out: Vec<(u32, String, String)> = Vec::new();
    let mut i: usize = 0;
    assert(lv.take(0) =~= Seq::<Seq<char>>::empty());
    assert(ps_views(out@) =~= Seq::<(nat, Seq<char>, Seq<char>)>::empty());
    while i < ls.len()
        invariant
            i <= ls@.len(),
            lv == views(ls@),
            lv == lines_spec(output@),
            ps_views(out@) == ps_lines(lv.take(i as int)),
        decreases ls.len() - i,
    {
        assert(lv.take(i + 1).drop_last() =~= lv.take(i as int));
        assert(lv.take(i + 1).last() == ls@[i as int]@);
        let w = split_whitespace(ls[i].as_slice());
        if w.len() >= 2 {
            assert(views(w@)[0] == w@[0]@);
            assert(views(w@)[1] == w@[1]@);
            match parse_unsigned(w[0].as_slice(), 10, u32::MAX as u64) {
                Some(pid) => {
                    let mut rest: Vec<Vec<char>> = Vec::new();
                    let mut k: usize = 2;
                    while k < w.len()
                        invariant
                            2 <= k <= w@.len(),
                            views(rest@) == views(w@).subrange(2, k as int),
                        decreases w.len() - k,
                    {
                        let ghost before = views(rest@);
                        rest.push(w[k].clone());
                        assert(views(rest@) =~= before.push(w@[k as int]@));
                        assert(views(w@).subrange(2, k + 1) =~= views(w@).subrange(2, k as int).push(w@[k as int]@));
                        k = k + 1;
                    }
                    assert(views(w@).subrange(2, k as int) =~= views(w@).skip(2));
                    let sep = chars_of(" ");
                    let cmd = join(rest.as_slice(), sep.as_slice());
                    let t = (pid as u32, string_of(w[1].as_slice()), string_of(cmd.as_slice()));
                    let ghost before = ps_views(out@);
                    out.push(t);
                    assert(ps_views(out@) =~= before.push((t.0 as nat, t.1@, t.2@)));
                },
                None => {},
            }
        }
        i = i + 1;
    }
    assert(lv.take(i as int) =~= lv);
    out
}

} // verus!
