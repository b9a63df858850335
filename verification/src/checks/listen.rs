//! Listening ports by process, as `ss -ltnp` reports them.
use vstd::prelude::*;
use crate::text::{chars_of, dec, eq_str, find_from, insert_sorted_unique, is_ascii_digit, is_first_occurrence_from, last_index, lines, lines_spec, occurs_at, parse_unsigned, parse_unsigned_spec, rfind_char, slice_to_vec, split_whitespace, split_ws, string_of, string_views, strictly_sorted, views};

verus! {

/// The number of ASCII digits at the start of `s`.
pub open spec fn digit_run(s: Seq<char>) -> nat
    decreases s.len(),
{
    if s.len() > 0 && is_ascii_digit(s[0]) {
        1 + digit_run(s.drop_first())
    } else {
        0
    }
}

/// The position of the first `pid=` at or after `from`.
pub open spec fn next_pid_key(line: Seq<char>, from: int) -> Option<int> {
    if exists|i: int| is_first_occurrence_from(line, "pid="@, from, i) {
        Some(choose|i: int| is_first_occurrence_from(line, "pid="@, from, i))
    } else {
        None
    }
}

/// The process identifiers that the `pid=` keys of `line` give from position `from`
/// on: after each key the digits that follow, where they make a `u32`; the scan goes
/// on after those digits.
pub open spec fn pids_from(line: Seq<char>, from: int) -> Seq<nat>
    decreases line.len() - from,
{
    if from < 0 || from >= line.len() {
        Seq::empty()
    } else {
        match next_pid_key(line, from) {
            None => Seq::empty(),
            Some(o) => {
                let start = o + 4;
                let next = start + digit_run(line.skip(start));
                let head = match parse_unsigned_spec(line.subrange(start, next), 10, u32::MAX as nat) {
                    Some(v) => seq![v],
                    None => Seq::empty(),
                };
                if from < next && next <= line.len() {
                    head + pids_from(line, next)
                } else {
                    head
                }
            },
        }
    }
}

/// The port of a local address: what follows its last `:` (all of it without one).
pub open spec fn port_part(local: Seq<char>) -> Seq<char> {
    match last_index(local, ':') {
        Some(k) => local.skip(k + 1),
        None => local,
    }
}

/// The (pid, port) pairs of one line of `ss -ltnp`: the port of the fourth field,
/// unless it is `0` or `*`, with each process that the line names.
pub open spec fn line_pairs(line: Seq<char>) -> Seq<(nat, Seq<char>)> {
    let f = split_ws(line);
    if f.len() < 4 {
        Seq::empty()
    } else {
        let port = port_part(f[3]);
        if port == "0"@ || port == "*"@ {
            Seq::empty()
        } else {
            pids_from(line, 0).map_values(|p: nat| (p, port))
        }
    }
}

pub open spec fn ss_pairs_spec(ls: Seq<Seq<char>>) -> Seq<(nat, Seq<char>)>
    decreases ls.len(),
{
    if ls.len() == 0 {
        Seq::empty()
    } else {
        ss_pairs_spec(ls.drop_last()) + line_pairs(ls.last())
    }
}

pub open spec fn pid_port_views(v: Seq<(u32, String)>) -> Seq<(nat, Seq<char>)> {
    v.map_values(|p: (u32, String)| (p.0 as nat, p.1@))
}

fn digits_at(line: &[char], start: usize) -> (r: usize)
    requires
        start <= line.len(),
    ensures
        r == start + digit_run(line@.skip(start as int)),
        r <= line.len(),
{
    let mut j = start;
    while j < line.len() && '0' <= line[j] && line[j] <= '9'
        invariant
            start <= j <= line.len(),
            digit_run(line@.skip(start as int)) == (j - start) + digit_run(line@.skip(j as int)),
        decreases line.len() - j,
    {
        assert(line@.skip(j as int).drop_first() =~= line@.skip(j + 1));
        j = j + 1;
    }
    proof {
        if j < line.len() {
            assert(line@.skip(j as int)[0] == line@[j as int]);
        }
    }
    j
}

fn line_pids(line: &[char]) -> (r: Vec<u32>)
    ensures
        r@.map_values(|p: u32| p as nat) == pids_from(line@, 0),
{
    let mut out: Vec<u32> = Vec::new();
    let key = chars_of("pid=");
    proof {
        reveal_strlit("pid=");
    }
    let mut from: usize = 0;
    let ghost mut acc: Seq<nat> = Seq::empty();
    if line.len() == 0 {
        assert(out@.map_values(|p: u32| p as nat) =~= Seq::<nat>::empty());
        return out;
    }
    while from < line.len()
        invariant_except_break
            from < line.len(),
            key@ == "pid="@,
            out@.map_values(|p: u32| p as nat) + pids_from(line@, from as int) == pids_from(line@, 0),
        ensures
            out@.map_values(|p: u32| p as nat) == pids_from(line@, 0),
        decreases line.len() - from,
    {
        let ghost before = out@.map_values(|p: u32| p as nat);
        match find_from(line, key.as_slice(), from) {
            None => {
                assert(next_pid_key(line@, from as int) is None);
                assert(pids_from(line@, from as int) =~= Seq::<nat>::empty());
                assert(before + Seq::<nat>::empty() =~= before);
                break;
            },
            Some(o) => {
                proof {
                    reveal_strlit("pid=");
                    assert(occurs_at(line@, key@, o as int));
                    assert(o + 4 <= line@.len());
                    let k = choose|i: int| is_first_occurrence_from(line@, "pid="@, from as int, i);
                    if k < o {
                        assert(!occurs_at(line@, "pid="@, k));
                    }
                    if o < k {
                        assert(!occurs_at(line@, "pid="@, o as int));
                    }
                    assert(next_pid_key(line@, from as int) == Some(o as int));
                }
                let start = o + 4;
                let next = digits_at(line, start);
                let digits = slice_to_vec(line, start, next);
                assert(digits@ =~= line@.subrange(start as int, next as int));
                let v = parse_unsigned(digits.as_slice(), 10, u32::MAX as u64);
                match v {
                    Some(p) => {
                        out.push(p as u32);
                    },
                    None => {},
                }
                let ghost head = match parse_unsigned_spec(line@.subrange(start as int, next as int), 10, u32::MAX as nat) {
                    Some(v) => seq![v],
                    None => Seq::<nat>::empty(),
                };
                assert(out@.map_values(|p: u32| p as nat) =~= before + head);
                if next >= line.len() {
                    assert(pids_from(line@, next as int) =~= Seq::<nat>::empty());
                    assert(pids_from(line@, from as int) == head + pids_from(line@, next as int));
                    assert(head + Seq::<nat>::empty() =~= head);
                    break;
                }
                assert(pids_from(line@, from as int) == head + pids_from(line@, next as int));
                assert(before + (head + pids_from(line@, next as int)) =~= (before + head) + pids_from(
                    line@,
                    next as int,
                ));
                from = next;
            },
        }
    }
    out
}

fn pairs_of_line(out: &mut Vec<(u32, String)>, line: &[char])
    ensures
        pid_port_views(final(out)@) == pid_port_views(old(out)@) + line_pairs(line@),
{
    let ghost base = pid_port_views(out@);
    let f = split_whitespace(line);
    if f.len() < 4 {
        assert(pid_port_views(out@) =~= base + line_pairs(line@));
        return;
    }
    assert(views(f@)[3] == f@[3]@);
    let local = f[3].as_slice();
    let port: Vec<char> = match rfind_char(local, ':') {
        Some(k) => slice_to_vec(local, k + 1, local.len()),
        None => slice_to_vec(local, 0, local.len()),
    };
    assert(port@ =~= port_part(f@[3]@));
    if eq_str(port.as_slice(), "0") || eq_str(port.as_slice(), "*") {
        assert(pid_port_views(out@) =~= base + line_pairs(line@));
        return;
    }
    let pids = line_pids(line);
    let ghost pv = pids@.map_values(|p: u32| p as nat);
    let ghost lp = pv.map_values(|p: nat| (p, port@));
    let mut i: usize = 0;
    while i < pids.len()
        invariant
            i <= pids@.len(),
            pv == pids@.map_values(|p: u32| p as nat),
            lp == pv.map_values(|p: nat| (p, port@)),
            pid_port_views(out@) == base + lp.take(i as int),
        decreases pids.len() - i,
    {
        let ghost before = pid_port_views(out@);
        out.push((pids[i], string_of(port.as_slice())));
        assert(pid_port_views(out@) =~= before.push((pids@[i as int] as nat, port@)));
        assert(lp.take(i + 1) =~= lp.take(i as int).push((pids@[i as int] as nat, port@)));
        i = i + 1;
    }
    assert(lp.take(i as int) =~= lp);
    assert(lp =~= line_pairs(line@));
}

/// The (pid, port) pairs that `ss -ltnp` output lists, line by line in order.
pub fn listen_pid_ports(output: &str) -> (r: Vec<(u32, String)>)
    ensures
        pid_port_views(r@) == ss_pairs_spec(lines_spec(output@)),
{
    let oc = chars_of(output);
    let ls = lines(oc.as_slice());
    let ghost lv = views(ls@);
    let mut out: Vec<(u32, String)> = Vec::new();
    let mut i: usize = 0;
    assert(lv.take(0) =~= Seq::<Seq<char>>::empty());
    assert(pid_port_views(out@) =~= Seq::<(nat, Seq<char>)>::empty());
    while i < ls.len()
        invariant
            i <= ls@.len(),
            lv == views(ls@),
            lv == lines_spec(output@),
            pid_port_views(out@) == ss_pairs_spec(lv.take(i as int)),
        decreases ls.len() - i,
    {
        assert(lv.take(i + 1).drop_last() =~= lv.take(i as int));
        assert(lv.take(i + 1).last() == ls@[i as int]@);
        pairs_of_line(&mut out, ls[i].as_slice());
        i = i + 1;
    }
    assert(lv.take(i as int) =~= lv);
    out
}

/// The ports that the pairs give for process `pid`: each once, in `String` order.
pub fn ports_of_pid(pairs: &Vec<(u32, String)>, pid: u32) -> (r: Vec<String>)
    ensures
        strictly_sorted(string_views(r@)),
        forall|y: Seq<char>|
            string_views(r@).contains(y) <==> exists|k: int|
                0 <= k < pairs@.len() && (#[trigger] pairs@[k]).0 == pid && pairs@[k].1@ == y,
{
    let mut out: Vec<String> = Vec::new();
    let mut i: usize = 0;
    while i < pairs.len()
        invariant
            i <= pairs@.len(),
            strictly_sorted(string_views(out@)),
            forall|y: Seq<char>|
                string_views(out@).contains(y) <==> exists|k: int|
                    0 <= k < i && (#[trigger] pairs@[k]).0 == pid && pairs@[k].1@ == y,
        decreases pairs.len() - i,
    {
        let ghost before = string_views(out@);
        if pairs[i].0 == pid {
            let p = pairs[i].1.clone();
            insert_sorted_unique(&mut out, p);
            assert forall|y: Seq<char>| string_views(out@).contains(y) implies exists|k: int|
                0 <= k < i + 1 && (#[trigger] pairs@[k]).0 == pid && pairs@[k].1@ == y by {
                if y != pairs@[i as int].1@ {
                    assert(before.contains(y));
                }
            }
        }
        assert forall|y: Seq<char>|
            (exists|k: int| 0 <= k < i + 1 && (#[trigger] pairs@[k]).0 == pid && pairs@[k].1@ == y)
                implies string_views(out@).contains(y) by {
            let k = choose|k: int| 0 <= k < i + 1 && (#[trigger] pairs@[k]).0 == pid && pairs@[k].1@ == y;
            if k < i {
                assert(before.contains(y));
            }
        }
        i = i + 1;
    }
    out
}

} // verus!
