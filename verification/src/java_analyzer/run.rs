//! The course of one analysis of a Java process: which `jcmd` command comes next,
//! what each answer changes, and the progress lines it gives. The program runs each
//! command (pausing before a sampling round) and hands back its output or failure.
use vstd::prelude::*;
use crate::java_analyzer::{sampling_percent, sampling_percent_spec};
use crate::text::{chars_of, contains_spec, contains_str, dec_spec, push_dec, push_str, string_of, string_views, trim, trim_spec};

verus! {

/// Where an analysis stands: waiting for the first thread dump (the attach), for the
/// heap summary, for the class histogram, for a sampling round, or finished.
pub enum JavaPhase {
    Attach,
    Heap,
    Histogram,
    Sampling,
    Done,
}

/// What the program does next.
pub enum JavaAction {
    /// Take the first thread dump.
    ThreadDump,
    /// Read the heap summary.
    HeapInfo,
    /// Read the class histogram.
    ClassHistogram,
    /// Wait the sampling interval, then take a thread dump.
    PauseThenThreadDump,
    /// Stop: what was gathered is analysed.
    Finish,
}

/// What the last command gave: its output, or the reason it failed.
pub enum JavaEvent {
    Output(String),
    Failed(String),
}

/// The state of an analysis run.
pub struct JavaRun {
    /// The planned number of thread dumps.
    pub samples: u8,
    pub include_histogram: bool,
    pub phase: JavaPhase,
    pub attach_ok: bool,
    pub attach_error: String,
    /// The thread dump that the analysis parses: the first one taken.
    pub thread_dump: String,
    pub heap_info: String,
    pub class_histogram: String,
    /// Every thread dump taken, in order.
    pub dumps: Vec<String>,
}

pub struct RunView {
    pub samples: u8,
    pub include_histogram: bool,
    pub phase: JavaPhase,
    pub attach_ok: bool,
    pub attach_error: Seq<char>,
    pub thread_dump: Seq<char>,
    pub heap_info: Seq<char>,
    pub class_histogram: Seq<char>,
    pub dumps: Seq<Seq<char>>,
}

impl View for JavaRun {
    type V = RunView;

    open spec fn view(&self) -> RunView {
        RunView {
            samples: self.samples,
            include_histogram: self.include_histogram,
            phase: self.phase,
            attach_ok: self.attach_ok,
            attach_error: self.attach_error@,
            thread_dump: self.thread_dump@,
            heap_info: self.heap_info@,
            class_histogram: self.class_histogram@,
            dumps: string_views(self.dumps@),
        }
    }
}

/// A progress line: level, stage, message and percentage.
pub type LogView = (Seq<char>, Seq<char>, Seq<char>, u8);

pub open spec fn log_views(v: Seq<(String, String, String, u8)>) -> Seq<LogView> {
    v.map_values(|l: (String, String, String, u8)| (l.0@, l.1@, l.2@, l.3))
}

/// A run as the steps keep it: at least one sample is planned, no more dumps are
/// taken than planned, and a sampling round is pending only while fewer were taken.
pub open spec fn run_ok(v: RunView) -> bool {
    &&& v.samples >= 1
    &&& v.dumps.len() <= v.samples
    &&& v.phase == JavaPhase::Sampling ==> v.dumps.len() < v.samples
    &&& (v.phase == JavaPhase::Attach || v.phase == JavaPhase::Heap || v.phase == JavaPhase::Histogram) ==> v.dumps.len() == 0
}

pub open spec fn parse_log() -> LogView {
    ("info"@, "parse"@, "解析线程状态、热点方法和诊断结论"@, 88u8)
}

/// The next sampling round while fewer dumps than planned were taken (announced by
/// its number and progress), else the end.
pub open spec fn next_sample(v: RunView) -> (RunView, JavaAction, Seq<LogView>) {
    if v.dumps.len() < v.samples {
        let idx = v.dumps.len() + 1;
        (
            RunView { phase: JavaPhase::Sampling, ..v },
            JavaAction::PauseThenThreadDump,
            seq![
                (
                    "info"@,
                    "sampling"@,
                    "执行第 "@ + dec_spec(idx) + "/"@ + dec_spec(v.samples as nat) + " 次线程采样"@,
                    sampling_percent_spec(idx, v.samples as nat) as u8,
                ),
            ],
        )
    } else {
        (RunView { phase: JavaPhase::Done, ..v }, JavaAction::Finish, seq![parse_log()])
    }
}

/// Sampling starts: the first thread dump, where there is one, counts as the first
/// sample.
pub open spec fn begin_sampling(v: RunView) -> (RunView, JavaAction, Seq<LogView>) {
    if trim_spec(v.thread_dump).len() > 0 {
        next_sample(RunView { dumps: v.dumps.push(v.thread_dump), ..v })
    } else {
        next_sample(v)
    }
}

/// After the heap summary: the class histogram where it is asked for, else sampling.
pub open spec fn after_heap(v: RunView) -> (RunView, JavaAction, Seq<LogView>) {
    if v.include_histogram {
        (
            RunView { phase: JavaPhase::Histogram, ..v },
            JavaAction::ClassHistogram,
            seq![("info"@, "histogram"@, "读取 GC.class_histogram 类直方图"@, 48u8)],
        )
    } else {
        begin_sampling(v)
    }
}

/// The level of a read that may have failed: `warn` where its text holds `失败`.
pub open spec fn read_level(text: Seq<char>) -> Seq<char> {
    if contains_spec(text, "失败"@) {
        "warn"@
    } else {
        "ok"@
    }
}

pub open spec fn prepend(l: LogView, s: (RunView, JavaAction, Seq<LogView>)) -> (RunView, JavaAction, Seq<LogView>) {
    (s.0, s.1, seq![l] + s.2)
}

/// One step of an analysis:
/// - the first thread dump marks the JVM as attached, keeps the dump and asks for the
///   heap summary; its failure keeps the reason and goes straight to sampling, so
///   heap summary and histogram are skipped;
/// - the heap summary (or `GC.heap_info 失败: ` and the reason) is kept, logged as
///   `warn` where it holds `失败`, and the histogram follows where asked for;
/// - the histogram likewise (`GC.class_histogram 失败: `), then sampling;
/// - a sampling round keeps its dump (as the analysed dump too where none was taken
///   yet) and the next round follows until the planned number is reached; a failed
///   round ends sampling with a warning;
/// - a finished run stays finished.
pub open spec fn java_run_step_spec(v: RunView, e: JavaEvent) -> (RunView, JavaAction, Seq<LogView>) {
    match v.phase {
        JavaPhase::Attach => match e {
            JavaEvent::Output(o) => (
                RunView { attach_ok: true, thread_dump: o@, phase: JavaPhase::Heap, ..v },
                JavaAction::HeapInfo,
                seq![
                    ("ok"@, "attach"@, "JVM Attach 连接成功，已获取首轮线程转储"@, 26u8),
                    ("info"@, "heap"@, "读取 GC.heap_info 堆概要"@, 34u8),
                ],
            ),
            JavaEvent::Failed(m) => prepend(
                ("error"@, "attach"@, "JVM Attach 失败: "@ + m@, 26u8),
                begin_sampling(RunView { attach_error: m@, ..v }),
            ),
        },
        JavaPhase::Heap => {
            let h = match e {
                JavaEvent::Output(o) => o@,
                JavaEvent::Failed(m) => "GC.heap_info 失败: "@ + m@,
            };
            prepend((read_level(h), "heap"@, "堆概要读取完成"@, 42u8), after_heap(RunView { heap_info: h, ..v }))
        },
        JavaPhase::Histogram => {
            let h = match e {
                JavaEvent::Output(o) => o@,
                JavaEvent::Failed(m) => "GC.class_histogram 失败: "@ + m@,
            };
            prepend(
                (read_level(h), "histogram"@, "类直方图读取完成"@, 56u8),
                begin_sampling(RunView { class_histogram: h, ..v }),
            )
        },
        JavaPhase::Sampling => match e {
            JavaEvent::Output(o) => next_sample(
                RunView {
                    dumps: v.dumps.push(o@),
                    thread_dump: if trim_spec(v.thread_dump).len() == 0 {
                        o@
                    } else {
                        v.thread_dump
                    },
                    ..v
                },
            ),
            JavaEvent::Failed(_) => (
                RunView { phase: JavaPhase::Done, ..v },
                JavaAction::Finish,
                seq![
                    (
                        "warn"@,
                        "sampling"@,
                        "后续采样失败，使用已获取的采样结果继续分析"@,
                        sampling_percent_spec(v.dumps.len() + 1, v.samples as nat) as u8,
                    ),
                    parse_log(),
                ],
            ),
        },
        JavaPhase::Done => (v, JavaAction::Finish, Seq::empty()),
    }
}

fn entry(level: &str, stage: &str, message: String, percent: u8) -> (r: (String, String, String, u8))
    ensures
        r.0@ == level@,
        r.1@ == stage@,
        r.2@ == message@,
        r.3 == percent,
{
    (level.to_owned(), stage.to_owned(), message, percent)
}

/// A run that plans `samples` thread dumps (at least one), with or without the class
/// histogram: it starts by taking the first thread dump.
pub fn java_run_start(samples: u8, include_histogram: bool) -> (r: (JavaRun, JavaAction, Vec<(String, String, String, u8)>))
    requires
        samples >= 1,
    ensures
        r.0@ == (RunView {
            samples,
            include_histogram,
            phase: JavaPhase::Attach,
            attach_ok: false,
            attach_error: Seq::empty(),
            thread_dump: Seq::empty(),
            heap_info: Seq::empty(),
            class_histogram: Seq::empty(),
            dumps: Seq::empty(),
        }),
        r.1 == JavaAction::ThreadDump,
        log_views(r.2@) == seq![("info"@, "attach"@, "正在通过 jcmd 连接 JVM"@, 14u8)],
        run_ok(r.0@),
{
    proof {
        reveal_strlit("");
    }
    let run = JavaRun {
        samples,
        include_histogram,
        phase: JavaPhase::Attach,
        attach_ok: false,
        attach_error: "".to_owned(),
        thread_dump: "".to_owned(),
        heap_info: "".to_owned(),
        class_histogram: "".to_owned(),
        dumps: Vec::new(),
    };
    let mut logs: Vec<(String, String, String, u8)> = Vec::new();
    logs.push(entry("info", "attach", "正在通过 jcmd 连接 JVM".to_owned(), 14));
    assert(run@.dumps =~= Seq::<Seq<char>>::empty());
    assert(run@.attach_error =~= Seq::<char>::empty());
    assert(run@.thread_dump =~= Seq::<char>::empty());
    assert(run@.heap_info =~= Seq::<char>::empty());
    assert(run@.class_histogram =~= Seq::<char>::empty());
    assert(log_views(logs@) =~= seq![("info"@, "attach"@, "正在通过 jcmd 连接 JVM"@, 14u8)]);
    (run, JavaAction::ThreadDump, logs)
}

/// The `jcmd` command behind an action; none for the end.
pub fn jcmd_command(a: &JavaAction) -> (r: Option<&'static str>)
    ensures
        match *a {
            JavaAction::ThreadDump => r == Some("Thread.print -l"),
            JavaAction::PauseThenThreadDump => r == Some("Thread.print -l"),
            JavaAction::HeapInfo => r == Some("GC.heap_info"),
            JavaAction::ClassHistogram => r == Some("GC.class_histogram"),
            JavaAction::Finish => r is None,
        },
{
    match a {
        JavaAction::ThreadDump => Some("Thread.print -l"),
        JavaAction::PauseThenThreadDump => Some("Thread.print -l"),
        JavaAction::HeapInfo => Some("GC.heap_info"),
        JavaAction::ClassHistogram => Some("GC.class_histogram"),
        JavaAction::Finish => None,
    }
}

fn is_blank(s: &String) -> (r: bool)
    ensures
        r == (trim_spec(s@).len() == 0),
{
    let c = chars_of(s.as_str());
    trim(c.as_slice()).len() == 0
}

fn joined(a: &str, b: String) -> (r: String)
    ensures
        r@ == a@ + b@,
{
    let mut out = chars_of(a);
    push_str(&mut out, b.as_str());
    string_of(out.as_slice())
}

fn level_of(text: &String) -> (r: &'static str)
    ensures
        r@ == read_level(text@),
{
    proof {
        reveal_strlit("warn");
        reveal_strlit("ok");
    }
    let c = chars_of(text.as_str());
    if contains_str(c.as_slice(), "失败") {
        "warn"
    } else {
        "ok"
    }
}

fn next_sample_exec(run: JavaRun) -> (r: (JavaRun, JavaAction, Vec<(String, String, String, u8)>))
    requires
        run@.samples >= 1,
        run@.dumps.len() <= run@.samples,
    ensures
        (r.0@, r.1, log_views(r.2@)) == next_sample(run@),
        run_ok(r.0@),
{
    let ghost v0 = run@;
    let mut run = run;
    let mut logs: Vec<(String, String, String, u8)> = Vec::new();
    if run.dumps.len() < run.samples as usize {
        let idx: usize = run.dumps.len() + 1;
        let p = sampling_percent(idx, run.samples);
        let mut msg: Vec<char> = Vec::new();
        push_str(&mut msg, "执行第 ");
        push_dec(&mut msg, idx as u64);
        push_str(&mut msg, "/");
        push_dec(&mut msg, run.samples as u64);
        push_str(&mut msg, " 次线程采样");
        logs.push(entry("info", "sampling", string_of(msg.as_slice()), p));
        run.phase = JavaPhase::Sampling;
        assert(log_views(logs@) =~= next_sample(v0).2);
        (run, JavaAction::PauseThenThreadDump, logs)
    } else {
        logs.push(entry("info", "parse", "解析线程状态、热点方法和诊断结论".to_owned(), 88));
        run.phase = JavaPhase::Done;
        assert(log_views(logs@) =~= seq![parse_log()]);
        (run, JavaAction::Finish, logs)
    }
}

fn begin_sampling_exec(run: JavaRun) -> (r: (JavaRun, JavaAction, Vec<(String, String, String, u8)>))
    requires
        run@.samples >= 1,
        run@.dumps.len() < run@.samples,
    ensures
        (r.0@, r.1, log_views(r.2@)) == begin_sampling(run@),
        run_ok(r.0@),
{
    let ghost v0 = run@;
    let mut run = run;
    if !is_blank(&run.thread_dump) {
        let d = run.thread_dump.clone();
        run.dumps.push(d);
        assert(string_views(run.dumps@) =~= v0.dumps.push(v0.thread_dump));
        assert(run@ =~= (RunView { dumps: v0.dumps.push(v0.thread_dump), ..v0 }));
    } else {
        assert(run@ =~= v0);
    }
    next_sample_exec(run)
}

fn after_heap_exec(run: JavaRun) -> (r: (JavaRun, JavaAction, Vec<(String, String, String, u8)>))
    requires
        run@.samples >= 1,
        run@.dumps.len() == 0,
    ensures
        (r.0@, r.1, log_views(r.2@)) == after_heap(run@),
        run_ok(r.0@),
{
    if run.include_histogram {
        let mut run = run;
        run.phase = JavaPhase::Histogram;
        let mut logs: Vec<(String, String, String, u8)> = Vec::new();
        logs.push(entry("info", "histogram", "读取 GC.class_histogram 类直方图".to_owned(), 48));
        assert(log_views(logs@) =~= seq![("info"@, "histogram"@, "读取 GC.class_histogram 类直方图"@, 48u8)]);
        (run, JavaAction::ClassHistogram, logs)
    } else {
        begin_sampling_exec(run)
    }
}

fn with_first(l: (String, String, String, u8), rest: (JavaRun, JavaAction, Vec<(String, String, String, u8)>)) -> (r: (
    JavaRun,
    JavaAction,
    Vec<(String, String, String, u8)>,
))
    ensures
        r.0@ == rest.0@,
        r.1 == rest.1,
        log_views(r.2@) == seq![(l.0@, l.1@, l.2@, l.3)] + log_views(rest.2@),
{
    let (run, action, more) = rest;
    let mut logs: Vec<(String, String, String, u8)> = Vec::new();
    logs.push(l);
    let mut more = more;
    let ghost m = more@;
    logs.append(&mut more);
    assert(log_views(logs@) =~= seq![(l.0@, l.1@, l.2@, l.3)] + log_views(m));
    (run, action, logs)
}

fn event_text(e: JavaEvent, failed_prefix: &str) -> (r: String)
    ensures
        r@ == match e {
            JavaEvent::Output(o) => o@,
            JavaEvent::Failed(m) => failed_prefix@ + m@,
        },
{
    match e {
        JavaEvent::Output(o) => o,
        JavaEvent::Failed(m) => joined(failed_prefix, m),
    }
}

/// One step of an analysis run: what the answer to the last command changes, the
/// action that follows and the progress lines it gives (see `java_run_step_spec`).
pub fn java_run_step(run: JavaRun, event: JavaEvent) -> (r: (JavaRun, JavaAction, Vec<(String, String, String, u8)>))
    requires
        run_ok(run@),
    ensures
        (r.0@, r.1, log_views(r.2@)) == java_run_step_spec(run@, event),
        run_ok(r.0@),
{
    let ghost v0 = run@;
    let mut run = run;
    match run.phase {
        JavaPhase::Attach => match event {
            JavaEvent::Output(o) => {
                run.attach_ok = true;
                run.thread_dump = o;
                run.phase = JavaPhase::Heap;
                let mut logs: Vec<(String, String, String, u8)> = Vec::new();
                logs.push(entry("ok", "attach", "JVM Attach 连接成功，已获取首轮线程转储".to_owned(), 26));
                logs.push(entry("info", "heap", "读取 GC.heap_info 堆概要".to_owned(), 34));
                assert(log_views(logs@) =~= java_run_step_spec(v0, event).2);
                (run, JavaAction::HeapInfo, logs)
            },
            JavaEvent::Failed(m) => {
                let msg = joined("JVM Attach 失败: ", m.clone());
                let l = entry("error", "attach", msg, 26);
                run.attach_error = m;
                assert(run@ =~= (RunView { attach_error: m@, ..v0 }));
                let rest = begin_sampling_exec(run);
                with_first(l, rest)
            },
        },
        JavaPhase::Heap => {
            let h = event_text(event, "GC.heap_info 失败: ");
            let l = entry(level_of(&h), "heap", "堆概要读取完成".to_owned(), 42);
            run.heap_info = h;
            let rest = after_heap_exec(run);
            with_first(l, rest)
        },
        JavaPhase::Histogram => {
            let h = event_text(event, "GC.class_histogram 失败: ");
            let l = entry(level_of(&h), "histogram", "类直方图读取完成".to_owned(), 56);
            run.class_histogram = h;
            let rest = begin_sampling_exec(run);
            with_first(l, rest)
        },
        JavaPhase::Sampling => match event {
            JavaEvent::Output(o) => {
                if is_blank(&run.thread_dump) {
                    run.thread_dump = o.clone();
                }
                let ghost od = o@;
                run.dumps.push(o);
                assert(string_views(run.dumps@) =~= v0.dumps.push(od));
                next_sample_exec(run)
            },
            JavaEvent::Failed(_) => {
                let p = sampling_percent(run.dumps.len() + 1, run.samples);
                let mut logs: Vec<(String, String, String, u8)> = Vec::new();
                logs.push(entry("warn", "sampling", "后续采样失败，使用已获取的采样结果继续分析".to_owned(), p));
                logs.push(entry("info", "parse", "解析线程状态、热点方法和诊断结论".to_owned(), 88));
                run.phase = JavaPhase::Done;
                assert(log_views(logs@) =~= java_run_step_spec(v0, event).2);
                (run, JavaAction::Finish, logs)
            },
        },
        JavaPhase::Done => {
            let logs: Vec<(String, String, String, u8)> = Vec::new();
            assert(log_views(logs@) =~= Seq::<LogView>::empty());
            (run, JavaAction::Finish, logs)
        },
    }
}

} // verus!
