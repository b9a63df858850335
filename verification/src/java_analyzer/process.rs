//! What the process table says of a Java process: heap options, jar, display name,
//! priority, owner, CPU ticks and start time, and the process list as shown.
use vstd::prelude::*;
use crate::java_analyzer::{JavaProcess, first_kb, first_line_value, infer_main, infer_main_spec, infer_service_name, infer_service_name_spec, is_java_process, is_java_process_spec, status_line_value, status_value_kb};
use crate::text::{chars_of, contains, contains_spec, contains_str, dec_spec, ends_with_spec, ends_with_str, is_last_occurrence, lines, lines_spec, occurs_at, parse_u64, parse_unsigned_spec, push_dec, push_str, rfind_str, seq_eq, slice_to_vec, split_char, split_char_spec, split_whitespace, split_ws, starts_with_spec, starts_with_str, string_of, string_views, strip_prefix_str, to_lowercase, trim, trim_spec, unicode_lowercase, views};

verus! {

/// JVM options worth showing: heap sizes, `-XX:` flags, the Spring profile and the
/// server port.
pub open spec fn is_heap_flag(t: Seq<char>) -> bool {
    starts_with_spec(t, "-Xmx"@) || starts_with_spec(t, "-Xms"@) || starts_with_spec(t, "-XX:"@)
        || starts_with_spec(t, "-Dspring.profiles.active"@) || starts_with_spec(t, "-Dserver.port"@)
}

/// The words of `toks` that are such options, in order.
pub open spec fn heap_flag_words(toks: Seq<Seq<char>>) -> Seq<Seq<char>>
    decreases toks.len(),
{
    if toks.len() == 0 {
        toks
    } else if is_heap_flag(toks.last()) {
        heap_flag_words(toks.drop_last()).push(toks.last())
    } else {
        heap_flag_words(toks.drop_last())
    }
}

/// The first sixteen such options of a command line.
pub open spec fn heap_flags_spec(cmd: Seq<char>) -> Seq<Seq<char>> {
    let all = heap_flag_words(split_ws(cmd));
    if all.len() > 16 {
        all.take(16)
    } else {
        all
    }
}

pub fn heap_flags_of(cmd: &str) -> (r: Vec<String>)
    ensures
        string_views(r@) == heap_flags_spec(cmd@),
{
    let cc = chars_of(cmd);
    let toks = split_whitespace(cc.as_slice());
    let ghost tv = views(toks@);
    let mut out: Vec<String> = Vec::new();
    let mut i: usize = 0;
    assert(tv.take(0) =~= Seq::<Seq<char>>::empty());
    assert(string_views(out@) =~= Seq::<Seq<char>>::empty());
    while i < toks.len() && out.len() < 16
        invariant
            i <= toks@.len(),
            tv == views(toks@),
            out@.len() <= 16,
            string_views(out@) == heap_flag_words(tv.take(i as int)),
        decreases toks.len() - i,
    {
        let t = toks[i].as_slice();
        assert(tv.take(i + 1).drop_last() =~= tv.take(i as int));
        assert(tv.take(i + 1).last() == t@);
        if starts_with_str(t, "-Xmx") || starts_with_str(t, "-Xms") || starts_with_str(t, "-XX:")
            || starts_with_str(t, "-Dspring.profiles.active") || starts_with_str(t, "-Dserver.port") {
            let ghost before = string_views(out@);
            out.push(string_of(t));
            assert(string_views(out@) =~= before.push(t@));
        }
        i = i + 1;
    }
    proof {
        lemma_heap_words_prefix(tv, i as int);
        if i == toks@.len() {
            assert(tv.take(i as int) =~= tv);
        }
    }
    out
}

proof fn lemma_heap_words_prefix(toks: Seq<Seq<char>>, i: int)
    requires
        0 <= i <= toks.len(),
    ensures
        heap_flag_words(toks).take(heap_flag_words(toks.take(i)).len() as int) == heap_flag_words(toks.take(i)),
        heap_flag_words(toks.take(i)).len() <= heap_flag_words(toks).len(),
    decreases toks.len() - i,
{
    if i < toks.len() {
        lemma_heap_words_prefix(toks, i + 1);
        assert(toks.take(i + 1).drop_last() =~= toks.take(i));
        let a = heap_flag_words(toks.take(i));
        let b = heap_flag_words(toks.take(i + 1));
        let all = heap_flag_words(toks);
        assert(all.take(a.len() as int) =~= b.take(a.len() as int));
    } else {
        assert(toks.take(i) =~= toks);
    }
}

/// The first word of a command line that names a jar, or nothing.
pub open spec fn jar_word(toks: Seq<Seq<char>>) -> Seq<char>
    decreases toks.len(),
{
    if toks.len() == 0 {
        Seq::empty()
    } else if ends_with_spec(toks[0], ".jar"@) {
        toks[0]
    } else {
        jar_word(toks.drop_first())
    }
}

pub fn jar_of(cmd: &str) -> (r: String)
    ensures
        r@ == jar_word(split_ws(cmd@)),
{
    let cc = chars_of(cmd);
    let toks = split_whitespace(cc.as_slice());
    let ghost tv = views(toks@);
    let mut i: usize = 0;
    assert(tv.skip(0) =~= tv);
    while i < toks.len()
        invariant
            i <= toks@.len(),
            tv == views(toks@),
            tv == split_ws(cmd@),
            jar_word(tv) == jar_word(tv.skip(i as int)),
        decreases toks.len() - i,
    {
        assert(tv.skip(i as int)[0] == toks@[i as int]@);
        assert(tv.skip(i as int).drop_first() =~= tv.skip(i + 1));
        if ends_with_str(toks[i].as_slice(), ".jar") {
            return string_of(toks[i].as_slice());
        }
        i = i + 1;
    }
    String::new()
}

/// The name shown for a process: its service name, else its main class, else its
/// jar, else its command name.
pub open spec fn display_name_spec(service: Seq<char>, main: Seq<char>, jar: Seq<char>, name: Seq<char>) -> Seq<char> {
    if service.len() > 0 {
        service
    } else if main.len() > 0 {
        main
    } else if jar.len() > 0 {
        jar
    } else {
        name
    }
}

/// How likely a process is to be a business service: 20, and 30 more for a jar,
/// 20 for listening ports, 20 for Spring or Tomcat, 10 for more than 1 GiB resident.
pub open spec fn java_score_spec(jar: Seq<char>, has_ports: bool, cmd: Seq<char>, memory_bytes: nat) -> nat {
    20 + (if jar.len() > 0 {
        30nat
    } else {
        0nat
    }) + (if has_ports {
        20nat
    } else {
        0nat
    }) + (if contains_spec(cmd, "spring"@) || contains_spec(cmd, "tomcat"@) || contains_spec(
        cmd,
        "catalina"@,
    ) {
        20nat
    } else {
        0nat
    }) + (if memory_bytes > 1024 * 1024 * 1024 {
        10nat
    } else {
        0nat
    })
}

/// The user whose entry in the password file `passwd` has user id `uid`, else `uid`.
pub open spec fn passwd_user(ls: Seq<Seq<char>>, uid: Seq<char>) -> Seq<char>
    decreases ls.len(),
{
    if ls.len() == 0 {
        uid
    } else {
        let parts = split_char_spec(ls[0], ':');
        if parts.len() > 2 && parts[2] == uid {
            parts[0]
        } else {
            passwd_user(ls.drop_first(), uid)
        }
    }
}

pub fn uid_to_user(passwd: &str, uid: &str) -> (r: String)
    ensures
        r@ == passwd_user(lines_spec(passwd@), uid@),
{
    let pc = chars_of(passwd);
    let uc = chars_of(uid);
    let ls = lines(pc.as_slice());
    let ghost lv = views(ls@);
    let mut i: usize = 0;
    assert(lv.skip(0) =~= lv);
    while i < ls.len()
        invariant
            i <= ls@.len(),
            lv == views(ls@),
            lv == lines_spec(passwd@),
            uc@ == uid@,
            passwd_user(lv, uid@) == passwd_user(lv.skip(i as int), uid@),
        decreases ls.len() - i,
    {
        assert(lv.skip(i as int)[0] == ls@[i as int]@);
        assert(lv.skip(i as int).drop_first() =~= lv.skip(i + 1));
        let parts = split_char(ls[i].as_slice(), ':');
        if parts.len() > 2 {
            assert(views(parts@)[2] == parts@[2]@);
            assert(views(parts@)[0] == parts@[0]@);
            if seq_eq(parts[2].as_slice(), uc.as_slice()) {
                return string_of(parts[0].as_slice());
            }
        }
        i = i + 1;
    }
    uid.to_owned()
}

/// The fields of `/proc/<pid>/stat` after the command name: the words after the last `) `.
pub open spec fn stat_fields_spec(stat: Seq<char>) -> Option<Seq<Seq<char>>> {
    if contains_spec(stat, ") "@) {
        let i = choose|i: int| is_last_occurrence(stat, ") "@, i);
        Some(split_ws(stat.skip(i + 2)))
    } else {
        None
    }
}

fn stat_fields(stat: &str) -> (r: Option<Vec<Vec<char>>>)
    ensures
        match stat_fields_spec(stat@) {
            Some(f) => r matches Some(v) && views(v@) == f,
            None => r is None,
        },
{
    let sc = chars_of(stat);
    match rfind_str(sc.as_slice(), ") ") {
        None => None,
        Some(i) => {
            proof {
                reveal_strlit(") ");
                assert(contains_spec(stat@, ") "@));
                let k = choose|k: int| is_last_occurrence(stat@, ") "@, k);
                if k < i {
                    assert(!occurs_at_last(stat@, i as int, k));
                }
                if k > i {
                    assert(!occurs_at_last(stat@, k, i as int));
                }
            }
            let n = sc.len();
            assert(i + 2 <= n);
            let after = slice_to_vec(sc.as_slice(), i + 2, n);
            assert(after@ =~= stat@.skip(i + 2));
            Some(split_whitespace(after.as_slice()))
        },
    }
}

spec fn occurs_at_last(s: Seq<char>, a: int, b: int) -> bool {
    is_last_occurrence(s, ") "@, b) && a > b && crate::text::occurs_at(s, ") "@, a)
}

/// A field of `/proc/<pid>/stat` read as a number.
pub open spec fn stat_number(stat: Seq<char>, idx: int) -> Option<nat> {
    match stat_fields_spec(stat) {
        Some(f) => if 0 <= idx < f.len() {
            parse_unsigned_spec(f[idx], 10, u64::MAX as nat)
        } else {
            None
        },
        None => None,
    }
}

fn stat_field_number(fields: &Vec<Vec<char>>, idx: usize) -> (r: Option<u64>)
    ensures
        if idx < fields@.len() {
            match parse_unsigned_spec(fields@[idx as int]@, 10, u64::MAX as nat) {
                Some(v) => r == Some(v as u64),
                None => r is None,
            }
        } else {
            r is None
        },
{
    if idx < fields.len() {
        parse_u64(fields[idx].as_slice())
    } else {
        None
    }
}

/// The CPU time of a process in clock ticks: user time plus system time, fields 14
/// and 15 of `/proc/<pid>/stat`.
pub fn proc_stat_ticks(stat: &str) -> (r: Option<(u64, u64)>)
    requires
        match (stat_number(stat@, 11), stat_number(stat@, 12)) {
            (Some(u), Some(s)) => u + s <= u64::MAX,
            _ => true,
        },
    ensures
        match (stat_number(stat@, 11), stat_number(stat@, 12)) {
            (Some(u), Some(s)) => r == Some(((u + s) as u64, 0u64)),
            _ => r is None,
        },
{
    match stat_fields(stat) {
        None => None,
        Some(fields) => {
            assert(views(fields@).len() == fields@.len());
            proof {
                if 11 < fields@.len() {
                    assert(views(fields@)[11] == fields@[11]@);
                }
                if 12 < fields@.len() {
                    assert(views(fields@)[12] == fields@[12]@);
                }
            }
            let u = stat_field_number(&fields, 11);
            let s = stat_field_number(&fields, 12);
            match (u, s) {
                (Some(u), Some(s)) => Some((u + s, 0)),
                _ => None,
            }
        },
    }
}

/// When a process started, in clock ticks after boot: field 22 of `/proc/<pid>/stat`.
pub fn proc_start_ticks(stat: &str) -> (r: Option<u64>)
    ensures
        match stat_number(stat@, 19) {
            Some(v) => r == Some(v as u64),
            None => r is None,
        },
{
    match stat_fields(stat) {
        None => None,
        Some(fields) => {
            proof {
                if 19 < fields@.len() {
                    assert(views(fields@)[19] == fields@[19]@);
                }
            }
            stat_field_number(&fields, 19)
        },
    }
}

/// The boot time that `/proc/stat` gives on its first `btime ` line.
pub open spec fn boot_time_spec(ls: Seq<Seq<char>>) -> Option<nat>
    decreases ls.len(),
{
    if ls.len() == 0 {
        None
    } else if starts_with_spec(ls[0], "btime "@) {
        parse_unsigned_spec(trim_spec(ls[0].skip(6)), 10, u64::MAX as nat)
    } else {
        boot_time_spec(ls.drop_first())
    }
}

pub fn boot_time(proc_stat: &str) -> (r: Option<u64>)
    ensures
        match boot_time_spec(lines_spec(proc_stat@)) {
            Some(v) => r == Some(v as u64),
            None => r is None,
        },
{
    let pc = chars_of(proc_stat);
    let ls = lines(pc.as_slice());
    let ghost lv = views(ls@);
    let mut i: usize = 0;
    assert(lv.skip(0) =~= lv);
    while i < ls.len()
        invariant
            i <= ls@.len(),
            lv == views(ls@),
            lv == lines_spec(proc_stat@),
            boot_time_spec(lv) == boot_time_spec(lv.skip(i as int)),
        decreases ls.len() - i,
    {
        assert(lv.skip(i as int)[0] == ls@[i as int]@);
        assert(lv.skip(i as int).drop_first() =~= lv.skip(i + 1));
        match strip_prefix_str(ls[i].as_slice(), "btime ") {
            Some(rest) => {
                proof {
                    reveal_strlit("btime ");
                }
                let t = trim(rest.as_slice());
                return parse_u64(t.as_slice());
            },
            None => {},
        }
        i = i + 1;
    }
    None
}

/// When a process started, in seconds since the epoch: the boot time plus the start
/// ticks divided by the ticks per second (at least one), saturating.
pub fn start_secs(boot_secs: u64, start_ticks: u64, ticks_per_second: u64) -> (r: u64)
    ensures
        ({
            let tps: int = if ticks_per_second > 1 {
                ticks_per_second as int
            } else {
                1
            };
            let total = boot_secs + start_ticks as int / tps;
            r == (if total > u64::MAX {
                u64::MAX as int
            } else {
                total
            })
        }),
{
    let tps = if ticks_per_second > 1 {
        ticks_per_second
    } else {
        1
    };
    let q = start_ticks / tps;
    if boot_secs > u64::MAX - q {
        u64::MAX
    } else {
        boot_secs + q
    }
}

proof fn lemma_first_kb_fits(ls: Seq<Seq<char>>, key: Seq<char>)
    ensures
        first_kb(ls, key) matches Some(v) ==> v <= u64::MAX,
    decreases ls.len(),
{
    if ls.len() > 0 {
        lemma_first_kb_fits(ls.drop_first(), key);
    }
}

/// The process record for process `pid`, from its command name, command line,
/// executable and working-directory links, `/proc/<pid>/status` text, the password
/// file, its CPU ticks and start time, its listening ports and its attach socket;
/// `None` when it is not a Java process.
pub fn build_java_process(
    pid: u32,
    name: &str,
    cmd: &str,
    exe: String,
    cwd: String,
    status: &str,
    passwd: &str,
    cpu_ticks: u64,
    start_time: String,
    uptime: String,
    ports: Vec<String>,
    attach_path: String,
) -> (r: Option<JavaProcess>)
    ensures
        !is_java_process_spec(name@, cmd@) <==> r is None,
        r matches Some(p) ==> {
            let jar = jar_word(split_ws(cmd@));
            let main = infer_main_spec(cmd@, jar);
            let service = infer_service_name_spec(cmd@, main, jar, pid);
            let rss = match first_kb(lines_spec(status@), "VmRSS:"@) {
                Some(k) => k,
                None => 0,
            };
            let memory = if rss * 1024 > u64::MAX {
                u64::MAX as nat
            } else {
                rss * 1024
            };
            &&& p.pid == pid
            &&& p.name@ == name@
            &&& p.cmd@ == cmd@
            &&& p.exe == exe
            &&& p.cwd == cwd
            &&& p.jar@ == jar
            &&& p.main@ == main
            &&& p.service_name@ == service
            &&& p.display_name@ == display_name_spec(service, main, jar, name@)
            &&& p.memory_bytes == memory
            &&& p.threads == (match first_kb(lines_spec(status@), "Threads:"@) {
                Some(k) => k as u64,
                None => 0u64,
            }) as usize
            &&& p.state@ == (match first_line_value(lines_spec(status@), "State:"@) {
                Some(v) => v,
                None => Seq::empty(),
            })
            &&& p.user@ == passwd_user(
                lines_spec(passwd@),
                match first_line_value(lines_spec(status@), "Uid:"@) {
                    Some(v) => {
                        let w = split_ws(v);
                        if w.len() > 0 {
                            w[0]
                        } else {
                            Seq::empty()
                        }
                    },
                    None => {
                        let w = split_ws(Seq::<char>::empty());
                        if w.len() > 0 {
                            w[0]
                        } else {
                            Seq::empty()
                        }
                    },
                },
            )
            &&& p.cpu_ticks == cpu_ticks
            &&& string_views(p.heap_flags@) == heap_flags_spec(cmd@)
            &&& p.ports == ports
            &&& p.start_time == start_time
            &&& p.uptime == uptime
            &&& p.score == java_score_spec(jar, ports@.len() > 0, cmd@, memory)
            &&& p.attach_available == (attach_path@.len() > 0)
            &&& p.attach_path == attach_path
        },
{
    if !is_java_process(name, cmd) {
        return None;
    }
    proof {
        lemma_first_kb_fits(lines_spec(status@), "VmRSS:"@);
        lemma_first_kb_fits(lines_spec(status@), "Threads:"@);
    }
    let rss: u64 = match status_value_kb(status, "VmRSS:") {
        Some(k) => k,
        None => 0,
    };
    let memory_bytes: u64 = if rss > u64::MAX / 1024 {
        assert(rss * 1024 > u64::MAX) by (nonlinear_arith)
            requires
                rss > u64::MAX / 1024,
        ;
        u64::MAX
    } else {
        assert(rss * 1024 <= u64::MAX) by (nonlinear_arith)
            requires
                rss <= u64::MAX / 1024,
        ;
        rss * 1024
    };
    let thread_kb: u64 = match status_value_kb(status, "Threads:") {
        Some(k) => k,
        None => 0,
    };
    let threads = thread_kb as usize;
    let state = match status_line_value(status, "State:") {
        Some(s) => s,
        None => String::new(),
    };
    let uid_line = match status_line_value(status, "Uid:") {
        Some(s) => s,
        None => String::new(),
    };
    let uc = chars_of(uid_line.as_str());
    let uw = split_whitespace(uc.as_slice());
    let uid: String = if uw.len() > 0 {
        assert(views(uw@)[0] == uw@[0]@);
        string_of(uw[0].as_slice())
    } else {
        String::new()
    };
    proof {
        reveal_strlit("");
    }
    let user = uid_to_user(passwd, uid.as_str());
    let heap_flags = heap_flags_of(cmd);
    let jar = jar_of(cmd);
    let main = infer_main(cmd, jar.as_str());
    let service_name = infer_service_name(cmd, main.as_str(), jar.as_str(), pid);
    let display_name = if service_name.as_str().is_empty() == false {
        service_name.clone()
    } else if main.as_str().is_empty() == false {
        main.clone()
    } else if jar.as_str().is_empty() == false {
        jar.clone()
    } else {
        name.to_owned()
    };
    let cc = chars_of(cmd);
    let mut score: u32 = 20;
    if !jar.as_str().is_empty() {
        score = score + 30;
    }
    if ports.len() > 0 {
        score = score + 20;
    }
    if contains_str(cc.as_slice(), "spring") || contains_str(cc.as_slice(), "tomcat") || contains_str(
        cc.as_slice(),
        "catalina",
    ) {
        score = score + 20;
    }
    if memory_bytes > 1024 * 1024 * 1024 {
        score = score + 10;
    }
    let attach_available = !attach_path.as_str().is_empty();
    Some(
        JavaProcess {
            pid,
            name: name.to_owned(),
            service_name,
            display_name,
            exe,
            cwd,
            cmd: cmd.to_owned(),
            main,
            jar,
            user,
            state,
            threads,
            cpu_ticks,
            memory_bytes,
            heap_flags,
            ports,
            start_time,
            uptime,
            score,
            attach_available,
            attach_path,
        },
    )
}


/// The text that a search looks in: pid, name, executable, working directory, command
/// line and main class, separated by spaces, lowercased.
pub open spec fn search_text(p: JavaProcess) -> Seq<char> {
    unicode_lowercase(
        dec_spec(p.pid as nat) + " "@ + p.name@ + " "@ + p.exe@ + " "@ + p.cwd@ + " "@ + p.cmd@ + " "@ + p.main@,
    )
}

/// The processes that match the (trimmed, lowercased) query, in order.
pub open spec fn matching(ps: Seq<JavaProcess>, needle: Seq<char>) -> Seq<JavaProcess>
    decreases ps.len(),
{
    if ps.len() == 0 {
        ps
    } else if needle.len() == 0 || contains_spec(search_text(ps.last()), needle) {
        matching(ps.drop_last(), needle).push(ps.last())
    } else {
        matching(ps.drop_last(), needle)
    }
}

/// `a` is listed before `b`: a higher score first, then a lower pid.
pub open spec fn listed_before(a: JavaProcess, b: JavaProcess) -> bool {
    b.score < a.score || (b.score == a.score && a.pid < b.pid)
}

pub open spec fn insert_listed(s: Seq<JavaProcess>, x: JavaProcess) -> Seq<JavaProcess>
    decreases s.len(),
{
    if s.len() == 0 {
        seq![x]
    } else if !listed_before(x, s.last()) {
        s.push(x)
    } else {
        insert_listed(s.drop_last(), x).push(s.last())
    }
}

/// A stable sort by score (highest first), then pid.
pub open spec fn sort_listed(s: Seq<JavaProcess>) -> Seq<JavaProcess>
    decreases s.len(),
{
    if s.len() == 0 {
        s
    } else {
        insert_listed(sort_listed(s.drop_last()), s.last())
    }
}

proof fn lemma_insert_listed_split(s: Seq<JavaProcess>, x: JavaProcess, k: int)
    requires
        0 <= k <= s.len(),
        forall|j: int| k <= j < s.len() ==> listed_before(x, #[trigger] s[j]),
    ensures
        insert_listed(s, x) == insert_listed(s.take(k), x) + s.skip(k),
    decreases s.len() - k,
{
    if k < s.len() {
        lemma_insert_listed_split(s.drop_last(), x, k);
        assert(s.drop_last().take(k) =~= s.take(k));
        assert(s.drop_last().skip(k).push(s.last()) =~= s.skip(k));
    } else {
        assert(s.take(k) =~= s);
        assert(s.skip(k) =~= Seq::<JavaProcess>::empty());
    }
}

fn insert_process(v: &mut Vec<JavaProcess>, x: JavaProcess)
    ensures
        final(v)@ == insert_listed(old(v)@, x),
{
    let mut k: usize = v.len();
    while k > 0
        invariant
            k <= v.len(),
            v@ == old(v)@,
            forall|j: int| k <= j < v.len() ==> listed_before(x, #[trigger] v@[j]),
        ensures
            k <= v.len(),
            v@ == old(v)@,
            forall|j: int| k <= j < v.len() ==> listed_before(x, #[trigger] v@[j]),
            k == 0 || !listed_before(x, v@[k - 1]),
        decreases k,
    {
        let e = &v[k - 1];
        let before = e.score < x.score || (e.score == x.score && x.pid < e.pid);
        if !before {
            break;
        }
        k = k - 1;
    }
    proof {
        lemma_insert_listed_split(v@, x, k as int);
        if k > 0 {
            assert(v@.take(k as int).last() == v@[k - 1]);
        }
    }
    let ghost b = v@;
    v.insert(k, x);
    assert(v@ =~= b.take(k as int).push(x) + b.skip(k as int));
}

fn search_haystack(p: &JavaProcess) -> (r: Vec<char>)
    ensures
        r@ == search_text(*p),
{
    let mut out: Vec<char> = Vec::new();
    crate::text::push_dec(&mut out, p.pid as u64);
    crate::text::push_str(&mut out, " ");
    crate::text::push_str(&mut out, p.name.as_str());
    crate::text::push_str(&mut out, " ");
    crate::text::push_str(&mut out, p.exe.as_str());
    crate::text::push_str(&mut out, " ");
    crate::text::push_str(&mut out, p.cwd.as_str());
    crate::text::push_str(&mut out, " ");
    crate::text::push_str(&mut out, p.cmd.as_str());
    crate::text::push_str(&mut out, " ");
    crate::text::push_str(&mut out, p.main.as_str());
    crate::text::to_lowercase(out.as_slice())
}

/// The processes that `list_java_processes` shows for a query (all of them without
/// one), highest score first, then by pid.
pub fn select_java_processes(processes: Vec<JavaProcess>, query: Option<&str>) -> (r: Vec<JavaProcess>)
    ensures
        r@ == sort_listed(
            matching(
                processes@,
                unicode_lowercase(
                    trim_spec(
                        match query {
                            Some(q) => q@,
                            None => Seq::empty(),
                        },
                    ),
                ),
            ),
        ),
{
    let qc: Vec<char> = match query {
        Some(q) => chars_of(q),
        None => Vec::new(),
    };
    let qt = trim(qc.as_slice());
    let needle = crate::text::to_lowercase(qt.as_slice());
    let ghost nv = needle@;
    let ghost all = processes@;
    let n: usize = processes.len();
    let mut rest = processes;
    let mut sorted: Vec<JavaProcess> = Vec::new();
    let mut i: usize = 0;
    assert(all.take(0) =~= Seq::<JavaProcess>::empty());
    while rest.len() > 0
        invariant
            i + rest@.len() == all.len(),
            all.len() == n,
            rest@ =~= all.skip(i as int),
            nv == needle@,
            sorted@ == sort_listed(matching(all.take(i as int), nv)),
        decreases rest@.len(),
    {
        let x = rest.remove(0);
        let ghost t = all.take(i + 1);
        proof {
            assert(x == all[i as int]);
            assert(t.drop_last() =~= all.take(i as int));
            assert(t.last() == x);
        }
        let keep = if needle.len() == 0 {
            true
        } else {
            let hay = search_haystack(&x);
            crate::text::contains(hay.as_slice(), needle.as_slice())
        };
        let ghost f = matching(all.take(i as int), nv);
        proof {
            if keep {
                assert(matching(t, nv) == f.push(x));
                assert(f.push(x).drop_last() =~= f);
            } else {
                assert(matching(t, nv) == f);
            }
        }
        if keep {
            insert_process(&mut sorted, x);
        }
        i = i + 1;
        assert(all.skip(i as int) =~= all.skip(i - 1).drop_first());
    }
    assert(all.take(i as int) =~= all);
    sorted
}

} // verus!
