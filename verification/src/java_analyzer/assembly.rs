//! Putting an analysis together: thread-state counts of a sample, the summary of an
//! analysis, and the progress log lines.
use vstd::prelude::*;
use crate::java_analyzer::{HotFrame, JavaAnalysisLog, ThreadInfo, ThreadSample, ThreadView, count_state, count_state_spec, parse_thread_dump, parse_thread_dump_spec, thread_views};
use crate::text::{chars_of, contains, dec, dec_spec, join, join_spec, lemma_lex_le_antisym, lemma_lex_le_total, lemma_lex_le_trans, lex_le, lex_le_exec, lex_lt, push_dec, push_str, seq_eq, strictly_sorted, string_of, string_views, views};

verus! {

/// The states that occur among the threads, each with how many threads are in it.
pub open spec fn state_counts(ts: Seq<ThreadView>, k: Seq<char>) -> nat {
    count_state_spec(ts, k)
}

/// Entries in key order, each key once, with the counts of `ts`.
pub open spec fn tally_ok(entries: Seq<(Seq<char>, nat)>, ts: Seq<ThreadView>) -> bool {
    &&& strictly_sorted(entries.map_values(|e: (Seq<char>, nat)| e.0))
    &&& forall|i: int| 0 <= i < entries.len() ==> (#[trigger] entries[i]).1 == count_state_spec(ts, entries[i].0)
    &&& forall|k: Seq<char>|
        count_state_spec(ts, k) > 0 <==> entries.map_values(|e: (Seq<char>, nat)| e.0).contains(k)
}

pub open spec fn entry_views(v: Seq<(String, usize)>) -> Seq<(Seq<char>, nat)> {
    v.map_values(|e: (String, usize)| (e.0@, e.1 as nat))
}

proof fn lemma_count_push(ts: Seq<ThreadView>, t: ThreadView, k: Seq<char>)
    ensures
        count_state_spec(ts.push(t), k) == count_state_spec(ts, k) + if t.state == k {
            1nat
        } else {
            0nat
        },
{
    assert(ts.push(t).drop_last() =~= ts);
}

proof fn lemma_count_bound(ts: Seq<ThreadView>, k: Seq<char>)
    ensures
        count_state_spec(ts, k) <= ts.len(),
    decreases ts.len(),
{
    if ts.len() > 0 {
        lemma_count_bound(ts.drop_last(), k);
    }
}

/// Counts one more thread in state `st`: its entry goes up by one, or a new entry
/// with count one is put in key order.
fn count_one(entries: &mut Vec<(String, usize)>, st: &String, Ghost(ts): Ghost<Seq<ThreadView>>, Ghost(t): Ghost<ThreadView>)
    requires
        tally_ok(entry_views(old(entries)@), ts),
        t.state == st@,
        ts.len() < usize::MAX,
    ensures
        tally_ok(entry_views(final(entries)@), ts.push(t)),
{
    proof {
        lemma_count_bound(ts, st@);
    }
    let ghost ev = entry_views(entries@);
    let ghost keys = ev.map_values(|e: (Seq<char>, nat)| e.0);
    let sc = chars_of(st.as_str());
    let mut i: usize = 0;
    while i < entries.len()
        invariant
            i <= entries@.len(),
            entries@ == old(entries)@,
            ev == entry_views(entries@),
            keys == ev.map_values(|e: (Seq<char>, nat)| e.0),
            sc@ == st@,
            forall|j: int| 0 <= j < i ==> lex_lt(#[trigger] keys[j], st@),
        ensures
            i <= entries@.len(),
            entries@ == old(entries)@,
            forall|j: int| 0 <= j < i ==> lex_lt(#[trigger] keys[j], st@),
            i == entries@.len() || lex_le(st@, keys[i as int]),
        decreases entries.len() - i,
    {
        let kc = chars_of(entries[i].0.as_str());
        assert(keys[i as int] == entries@[i as int].0@);
        if lex_le_exec(sc.as_slice(), kc.as_slice()) {
            break;
        }
        proof {
            lemma_lex_le_total(st@, keys[i as int]);
        }
        i = i + 1;
    }
    let mut found = false;
    if i < entries.len() {
        let kc = chars_of(entries[i].0.as_str());
        if seq_eq(kc.as_slice(), sc.as_slice()) {
            found = true;
        }
    }
    if found {
        let key = entries[i].0.clone();
        let n = entries[i].1;
        assert(n == count_state_spec(ts, st@));
        entries.set(i, (key, n + 1));
        proof {
            let nv = entry_views(entries@);
            assert(nv =~= ev.update(i as int, (st@, (n + 1) as nat)));
            let nkeys = nv.map_values(|e: (Seq<char>, nat)| e.0);
            assert(nkeys =~= keys);
            assert forall|m: int| 0 <= m < nv.len() implies (#[trigger] nv[m]).1 == count_state_spec(ts.push(t), nv[m].0) by {
                lemma_count_push(ts, t, nv[m].0);
                if m != i {
                    if nv[m].0 == st@ {
                        assert(keys[m] == keys[i as int]);
                        if m < i {
                            assert(lex_lt(keys[m], keys[i as int]));
                        } else {
                            assert(lex_lt(keys[i as int], keys[m]));
                        }
                    }
                }
            }
            assert forall|k: Seq<char>| count_state_spec(ts.push(t), k) > 0 <==> nkeys.contains(k) by {
                lemma_count_push(ts, t, k);
                if k == st@ {
                    assert(nkeys[i as int] == k);
                }
            }
        }
    } else {
        proof {
            if i < entries@.len() {
                assert(keys[i as int] != st@);
            }
            assert(!keys.contains(st@)) by {
                if keys.contains(st@) {
                    let m = choose|m: int| 0 <= m < keys.len() && keys[m] == st@;
                    if m < i {
                        assert(lex_lt(keys[m], st@));
                    } else if m > i {
                        assert(lex_lt(keys[i as int], keys[m]));
                        lemma_lex_le_antisym(st@, keys[i as int]);
                    }
                }
            }
            assert(count_state_spec(ts, st@) == 0);
        }
        entries.insert(i, (st.clone(), 1));
        proof {
            let nv = entry_views(entries@);
            assert(nv =~= ev.take(i as int).push((st@, 1nat)) + ev.skip(i as int));
            let nkeys = nv.map_values(|e: (Seq<char>, nat)| e.0);
            assert(nkeys =~= keys.take(i as int).push(st@) + keys.skip(i as int));
            assert forall|a: int, b: int| 0 <= a < b < nkeys.len() implies lex_lt(#[trigger] nkeys[a], #[trigger] nkeys[b]) by {
                if b < i {
                    assert(nkeys[a] == keys[a] && nkeys[b] == keys[b]);
                } else if b == i {
                    assert(nkeys[a] == keys[a]);
                } else if a < i {
                    assert(nkeys[a] == keys[a] && nkeys[b] == keys[b - 1]);
                    if b - 1 > i {
                        lemma_lex_le_trans(keys[a], st@, keys[i as int]);
                        lemma_lex_le_trans(keys[a], keys[i as int], keys[b - 1]);
                        if keys[a] == keys[b - 1] {
                            assert(lex_lt(keys[a], keys[b - 1]));
                        }
                    } else {
                        lemma_lex_le_trans(keys[a], st@, keys[b - 1]);
                        if keys[a] == keys[b - 1] {
                            assert(lex_lt(keys[a], keys[b - 1]));
                        }
                    }
                } else if a == i {
                    assert(nkeys[b] == keys[b - 1]);
                    if b - 1 > i {
                        lemma_lex_le_trans(st@, keys[i as int], keys[b - 1]);
                        if st@ == keys[b - 1] {
                            lemma_lex_le_antisym(st@, keys[i as int]);
                        }
                    }
                } else {
                    assert(nkeys[a] == keys[a - 1] && nkeys[b] == keys[b - 1]);
                }
            }
            assert forall|m: int| 0 <= m < nv.len() implies (#[trigger] nv[m]).1 == count_state_spec(ts.push(t), nv[m].0) by {
                lemma_count_push(ts, t, nv[m].0);
                if m < i {
                    assert(nv[m] == ev[m]);
                    assert(lex_lt(keys[m], st@));
                } else if m > i {
                    assert(nv[m] == ev[m - 1]);
                    assert(keys[m - 1] != st@);
                }
            }
            assert forall|k: Seq<char>| count_state_spec(ts.push(t), k) > 0 <==> nkeys.contains(k) by {
                lemma_count_push(ts, t, k);
                if nkeys.contains(k) {
                    let m = choose|m: int| 0 <= m < nkeys.len() && nkeys[m] == k;
                    if m < i {
                        assert(keys[m] == k);
                    } else if m > i {
                        assert(keys[m - 1] == k);
                    }
                }
                if keys.contains(k) {
                    let m = choose|m: int| 0 <= m < keys.len() && keys[m] == k;
                    if m < i {
                        assert(nkeys[m] == k);
                    } else {
                        assert(nkeys[m + 1] == k);
                    }
                }
                if k == st@ {
                    assert(nkeys[i as int] == k);
                }
            }
        }
    }
}

/// The thread states of a dump, counted: each state that occurs, in key order, with
/// its number of threads.
pub fn tally_states(threads: &[ThreadInfo]) -> (r: Vec<(String, usize)>)
    ensures
        tally_ok(entry_views(r@), thread_views(threads@)),
{
    let ghost tv = thread_views(threads@);
    let mut entries: Vec<(String, usize)> = Vec::new();
    let mut i: usize = 0;
    assert(tv.take(0) =~= Seq::<ThreadView>::empty());
    proof {
        let ev = entry_views(entries@);
        assert(ev =~= Seq::<(Seq<char>, nat)>::empty());
        assert(ev.map_values(|e: (Seq<char>, nat)| e.0) =~= Seq::<Seq<char>>::empty());
    }
    while i < threads.len()
        invariant
            i <= threads@.len(),
            tv == thread_views(threads@),
            tally_ok(entry_views(entries@), tv.take(i as int)),
        decreases threads.len() - i,
    {
        assert(tv.take(i + 1) =~= tv.take(i as int).push(tv[i as int]));
        assert(tv[i as int] == threads@[i as int]@);
        count_one(&mut entries, &threads[i].state, Ghost(tv.take(i as int)), Ghost(tv[i as int]));
        i = i + 1;
    }
    assert(tv.take(i as int) =~= tv);
    entries
}

/// The thread states of one dump, taken at `timestamp`.
pub fn sample_from_dump(text: &str, timestamp: String) -> (r: ThreadSample)
    ensures
        ({
            let ts = parse_thread_dump_spec(text@);
            &&& r.timestamp == timestamp
            &&& tally_ok(entry_views(r.states@), ts)
            &&& r.runnable == count_state_spec(ts, "RUNNABLE"@)
            &&& r.blocked == count_state_spec(ts, "BLOCKED"@)
            &&& r.waiting == count_state_spec(ts, "WAITING"@)
            &&& r.timed_waiting == count_state_spec(ts, "TIMED_WAITING"@)
        }),
{
    let threads = parse_thread_dump(text);
    let states = tally_states(threads.as_slice());
    ThreadSample {
        timestamp,
        states,
        runnable: count_state(threads.as_slice(), "RUNNABLE"),
        blocked: count_state(threads.as_slice(), "BLOCKED"),
        waiting: count_state(threads.as_slice(), "WAITING"),
        timed_waiting: count_state(threads.as_slice(), "TIMED_WAITING"),
    }
}


pub open spec fn pair_views(v: Seq<(String, String)>) -> Seq<(Seq<char>, Seq<char>)> {
    v.map_values(|e: (String, String)| (e.0@, e.1@))
}

/// The summary of an analysis, in key order: whether attach works, the thread counts
/// by state, the service name, the hottest method (`-` when none), the listening
/// ports and the number of threads.
pub open spec fn summary_spec(
    ts: Seq<ThreadView>,
    hot_method: Option<Seq<char>>,
    attach_ok: bool,
    service_name: Seq<char>,
    ports: Seq<Seq<char>>,
) -> Seq<(Seq<char>, Seq<char>)> {
    seq![
        ("Attach"@, if attach_ok {
            "可用"@
        } else {
            "不可用"@
        }),
        ("BLOCKED"@, dec_spec(count_state_spec(ts, "BLOCKED"@))),
        ("RUNNABLE"@, dec_spec(count_state_spec(ts, "RUNNABLE"@))),
        ("TIMED_WAITING"@, dec_spec(count_state_spec(ts, "TIMED_WAITING"@))),
        ("WAITING"@, dec_spec(count_state_spec(ts, "WAITING"@))),
        ("服务名"@, service_name),
        ("热点方法"@, match hot_method {
            Some(m) => m,
            None => "-"@,
        }),
        ("监听端口"@, join_spec(ports, ", "@)),
        ("线程数"@, dec_spec(ts.len())),
    ]
}

fn num_text(n: usize) -> (r: String)
    ensures
        r@ == dec_spec(n as nat),
{
    let d = dec(n as u64);
    string_of(d.as_slice())
}

pub fn analysis_summary(
    threads: &[ThreadInfo],
    hot_frames: &[HotFrame],
    attach_ok: bool,
    service_name: &str,
    ports: &Vec<String>,
) -> (r: Vec<(String, String)>)
    ensures
        pair_views(r@) == summary_spec(
            thread_views(threads@),
            if hot_frames@.len() > 0 {
                Some(hot_frames@[0].method@)
            } else {
                None
            },
            attach_ok,
            service_name@,
            string_views(ports@),
        ),
{
    let ghost pv = string_views(ports@);
    let mut parts: Vec<Vec<char>> = Vec::new();
    let mut i: usize = 0;
    while i < ports.len()
        invariant
            i <= ports@.len(),
            pv == string_views(ports@),
            views(parts@) == pv.take(i as int),
        decreases ports.len() - i,
    {
        let ghost before = views(parts@);
        parts.push(chars_of(ports[i].as_str()));
        assert(views(parts@) =~= before.push(pv[i as int]));
        assert(pv.take(i + 1) =~= pv.take(i as int).push(pv[i as int]));
        i = i + 1;
    }
    assert(pv.take(i as int) =~= pv);
    let sep = chars_of(", ");
    let joined = join(parts.as_slice(), sep.as_slice());
    let hot = if hot_frames.len() > 0 {
        hot_frames[0].method.clone()
    } else {
        "-".to_owned()
    };
    let attach = if attach_ok {
        "可用".to_owned()
    } else {
        "不可用".to_owned()
    };
    let r = vec![
        ("Attach".to_owned(), attach),
        ("BLOCKED".to_owned(), num_text(count_state(threads, "BLOCKED"))),
        ("RUNNABLE".to_owned(), num_text(count_state(threads, "RUNNABLE"))),
        ("TIMED_WAITING".to_owned(), num_text(count_state(threads, "TIMED_WAITING"))),
        ("WAITING".to_owned(), num_text(count_state(threads, "WAITING"))),
        ("服务名".to_owned(), service_name.to_owned()),
        ("热点方法".to_owned(), hot),
        ("监听端口".to_owned(), string_of(joined.as_slice())),
        ("线程数".to_owned(), num_text(threads.len())),
    ];
    assert(pair_views(r@) =~= summary_spec(
        thread_views(threads@),
        if hot_frames@.len() > 0 {
            Some(hot_frames@[0].method@)
        } else {
            None
        },
        attach_ok,
        service_name@,
        string_views(ports@),
    ));
    r
}

/// One progress log line; the percentage is capped at 100.
pub fn analysis_log(timestamp: String, level: &str, stage: &str, message: &str, percent: u8) -> (r: JavaAnalysisLog)
    ensures
        r.timestamp == timestamp,
        r.level@ == level@,
        r.stage@ == stage@,
        r.message@ == message@,
        r.percent == (if percent > 100 {
            100
        } else {
            percent
        }),
{
    JavaAnalysisLog {
        timestamp,
        level: level.to_owned(),
        stage: stage.to_owned(),
        message: message.to_owned(),
        percent: if percent > 100 {
            100
        } else {
            percent
        },
    }
}

/// The closing log message of an analysis.
pub fn analysis_done_message(threads: usize, hot_frames: usize, findings: usize) -> (r: String)
    ensures
        r@ == "分析完成: "@ + dec_spec(threads as nat) + " 个线程，"@ + dec_spec(hot_frames as nat)
            + " 个热点方法，"@ + dec_spec(findings as nat) + " 条诊断结论"@,
{
    let mut out: Vec<char> = Vec::new();
    push_str(&mut out, "分析完成: ");
    push_dec(&mut out, threads as u64);
    push_str(&mut out, " 个线程，");
    push_dec(&mut out, hot_frames as u64);
    push_str(&mut out, " 个热点方法，");
    push_dec(&mut out, findings as u64);
    push_str(&mut out, " 条诊断结论");
    string_of(out.as_slice())
}

} // verus!
