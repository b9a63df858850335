use dm::java_analyzer::run::{java_run_start, java_run_step, jcmd_command, JavaAction, JavaEvent, JavaPhase};

#[test]
fn attach_then_heap_histogram_and_samples() {
    let (run, action, logs) = java_run_start(3, true);
    assert!(matches!(action, JavaAction::ThreadDump));
    assert_eq!(jcmd_command(&action), Some("Thread.print -l"));
    assert_eq!(logs[0].1, "attach");
    let (run, action, logs) = java_run_step(run, JavaEvent::Output("\"main\" dump".to_string()));
    assert!(run.attach_ok);
    assert!(matches!(action, JavaAction::HeapInfo));
    assert_eq!(logs.len(), 2);
    let (run, action, logs) = java_run_step(run, JavaEvent::Failed("timeout".to_string()));
    assert_eq!(run.heap_info, "GC.heap_info 失败: timeout");
    assert_eq!(logs[0].0, "warn");
    assert!(matches!(action, JavaAction::ClassHistogram));
    let (run, action, logs) = java_run_step(run, JavaEvent::Output("histogram".to_string()));
    assert_eq!(logs[0].0, "ok");
    assert_eq!(run.dumps.len(), 1);
    assert!(matches!(action, JavaAction::PauseThenThreadDump));
    assert_eq!(logs[1].2, "执行第 2/3 次线程采样");
    let (run, action, _) = java_run_step(run, JavaEvent::Output("second".to_string()));
    assert!(matches!(action, JavaAction::PauseThenThreadDump));
    let (run, action, logs) = java_run_step(run, JavaEvent::Output("third".to_string()));
    assert!(matches!(action, JavaAction::Finish));
    assert!(matches!(run.phase, JavaPhase::Done));
    assert_eq!(run.dumps, vec!["\"main\" dump", "second", "third"]);
    assert_eq!(run.thread_dump, "\"main\" dump");
    assert_eq!(logs[0].1, "parse");
    assert_eq!(jcmd_command(&action), None);
}

#[test]
fn failed_attach_skips_heap_and_failed_sample_stops() {
    let (run, _, _) = java_run_start(3, true);
    let (run, action, logs) = java_run_step(run, JavaEvent::Failed("no jvm".to_string()));
    assert!(!run.attach_ok);
    assert_eq!(run.attach_error, "no jvm");
    assert_eq!(logs[0].2, "JVM Attach 失败: no jvm");
    assert!(run.dumps.is_empty());
    assert!(matches!(action, JavaAction::PauseThenThreadDump));
    let (run, _, _) = java_run_step(run, JavaEvent::Output("late".to_string()));
    assert_eq!(run.thread_dump, "late");
    let (run, action, logs) = java_run_step(run, JavaEvent::Failed("gone".to_string()));
    assert!(matches!(action, JavaAction::Finish));
    assert_eq!(logs[0].0, "warn");
    assert_eq!(run.dumps.len(), 1);
}

