use santa_workbench::event::{EventKind, ExecutionEvent, ExecutionFailure};
use santa_workbench::launch::{
    build_args, diagnostic_command, spawn_failure_event, staging_file_name, staging_file_name_for, RunMode,
    SESSION_TOKEN_VAR,
};
use santa_workbench::registry::Registry;
use santa_workbench::stream::{classify_line, StreamClassifier};
use serde_json::Value;

fn json(s: &str) -> Value {
    serde_json::from_str(s).unwrap()
}

fn run_lines(id: &str, lines: &[&str]) -> (StreamClassifier, Vec<ExecutionEvent>) {
    let mut t = StreamClassifier::new(id.to_string());
    let mut events = Vec::new();
    for l in lines {
        if let Some(e) = t.on_line(l) {
            events.push(e);
        }
    }
    (t, events)
}

#[test]
fn snapshot_then_patch_then_complete() {
    let mut reg = Registry::new();
    reg.register("x".to_string(), 42);
    let (t, mut events) = run_lines("x", &["{\"a\":1}", "{\"op\":\"replace\"}"]);
    events.push(t.finish(&mut reg, Some(0), None));
    assert_eq!(events.len(), 3);
    assert_eq!(events[0].kind, EventKind::Initial(json("{\"a\":1}")));
    assert_eq!(events[1].kind, EventKind::Patch(json("{\"op\":\"replace\"}")));
    assert_eq!(events[2].kind, EventKind::Complete { exit_code: 0, command: None });
    assert!(events.iter().all(|e| e.execution_id == "x"));
    assert!(!reg.contains(&"x".to_string()));
}

#[test]
fn console_line_before_snapshot() {
    let mut reg = Registry::new();
    let (t, mut events) = run_lines("y", &["hello", "{\"a\":1}"]);
    events.push(t.finish(&mut reg, Some(1), None));
    assert_eq!(events.len(), 3);
    assert_eq!(events[0].kind, EventKind::Console("hello".to_string()));
    assert_eq!(events[1].kind, EventKind::Initial(json("{\"a\":1}")));
    assert_eq!(events[2].kind, EventKind::Complete { exit_code: 1, command: None });
}

#[test]
fn console_lines_do_not_shift_classification() {
    let (_, events) = run_lines("z", &["noise", "[1]", "more noise", "[2]", "{oops", "[3]"]);
    let kinds: Vec<&EventKind> = events.iter().map(|e| &e.kind).collect();
    assert_eq!(kinds.len(), 6);
    assert_eq!(*kinds[0], EventKind::Console("noise".to_string()));
    assert_eq!(*kinds[1], EventKind::Initial(json("[1]")));
    assert_eq!(*kinds[2], EventKind::Console("more noise".to_string()));
    assert_eq!(*kinds[3], EventKind::Patch(json("[2]")));
    assert_eq!(*kinds[4], EventKind::Console("{oops".to_string()));
    assert_eq!(*kinds[5], EventKind::Patch(json("[3]")));
}

#[test]
fn blank_lines_give_nothing_and_lines_are_trimmed() {
    let (_, events) = run_lines("b", &["", "   ", "\t", "  hi there  ", " 7 "]);
    assert_eq!(events.len(), 2);
    assert_eq!(events[0].kind, EventKind::Console("hi there".to_string()));
    assert_eq!(events[1].kind, EventKind::Initial(json("7")));
}

#[test]
fn read_failure_gives_error_then_complete() {
    let mut reg = Registry::new();
    reg.register("r".to_string(), 5);
    let (mut t, mut events) = run_lines("r", &["{}"]);
    assert!(!t.is_stopped());
    events.push(t.on_read_error("stream broke".to_string()));
    assert!(t.is_stopped());
    events.push(t.finish(&mut reg, Some(2), None));
    assert_eq!(events.len(), 3);
    assert_eq!(events[1].kind, EventKind::Error("stream broke".to_string()));
    assert_eq!(events[2].kind, EventKind::Complete { exit_code: 2, command: None });
    assert!(!reg.contains(&"r".to_string()));
}

#[test]
fn spawn_failure_is_a_single_error_event() {
    let reg = Registry::new();
    let e = spawn_failure_event("s".to_string(), "No such file or directory");
    assert_eq!(e.execution_id, "s");
    match &e.kind {
        EventKind::Error(m) => {
            assert!(m.contains("spawn failed"));
            assert_eq!(m, "spawn failed: No such file or directory");
        }
        _ => panic!("expected an error event"),
    }
    assert!(!reg.contains(&"s".to_string()));
    assert_eq!(reg.lookup(&"s".to_string()), None);
}

#[test]
fn cancelled_run_completes_with_minus_one() {
    let mut reg = Registry::new();
    reg.register("c".to_string(), 777);
    let (t, mut events) = run_lines("c", &["{\"n\":0}", "tick"]);
    // cancellation: the process id is found and killed, the entry purged
    assert_eq!(reg.lookup(&"c".to_string()), Some(777));
    reg.unregister(&"c".to_string());
    assert!(!reg.contains(&"c".to_string()));
    // the reader sees the end of the stream and finishes as usual
    events.push(t.finish(&mut reg, None, None));
    assert_eq!(events.len(), 3);
    assert_eq!(events[0].kind, EventKind::Initial(json("{\"n\":0}")));
    assert_eq!(events[1].kind, EventKind::Console("tick".to_string()));
    assert_eq!(events[2].kind, EventKind::Complete { exit_code: -1, command: None });
    assert!(!reg.contains(&"c".to_string()));
}

#[test]
fn concurrent_executions_keep_their_own_events() {
    let mut reg = Registry::new();
    reg.register("A".to_string(), 1);
    reg.register("B".to_string(), 2);
    let mut a = StreamClassifier::new("A".to_string());
    let mut b = StreamClassifier::new("B".to_string());
    let mut seen: Vec<ExecutionEvent> = Vec::new();
    seen.extend(a.on_line("{\"a\":1}"));
    seen.extend(b.on_line("{\"b\":1}"));
    seen.extend(b.on_line("[\"b2\"]"));
    seen.extend(a.on_line("[\"a2\"]"));
    // cancelling B leaves A running
    reg.unregister(&"B".to_string());
    assert_eq!(reg.lookup(&"A".to_string()), Some(1));
    seen.push(b.finish(&mut reg, None, None));
    seen.push(a.finish(&mut reg, Some(0), None));
    let of = |id: &str| -> Vec<&EventKind> { seen.iter().filter(|e| e.execution_id == id).map(|e| &e.kind).collect() };
    let a_events = of("A");
    let b_events = of("B");
    assert_eq!(*a_events[0], EventKind::Initial(json("{\"a\":1}")));
    assert_eq!(*a_events[1], EventKind::Patch(json("[\"a2\"]")));
    assert_eq!(*a_events[2], EventKind::Complete { exit_code: 0, command: None });
    assert_eq!(*b_events[0], EventKind::Initial(json("{\"b\":1}")));
    assert_eq!(*b_events[1], EventKind::Patch(json("[\"b2\"]")));
    assert_eq!(*b_events[2], EventKind::Complete { exit_code: -1, command: None });
    assert!(!reg.contains(&"A".to_string()));
}

#[test]
fn cancel_of_unknown_id_is_noop() {
    let mut reg = Registry::new();
    reg.register("live".to_string(), 9);
    assert_eq!(reg.lookup(&"ghost".to_string()), None);
    reg.unregister(&"ghost".to_string());
    reg.unregister(&"ghost".to_string());
    assert_eq!(reg.lookup(&"live".to_string()), Some(9));
}

#[test]
fn register_replaces_and_unregister_is_idempotent() {
    let mut reg = Registry::new();
    reg.register("k".to_string(), 1);
    reg.register("k".to_string(), 2);
    assert_eq!(reg.lookup(&"k".to_string()), Some(2));
    assert_eq!(reg.values().len(), 1);
    reg.unregister(&"k".to_string());
    reg.unregister(&"k".to_string());
    assert!(!reg.contains(&"k".to_string()));
    assert!(reg.values().is_empty());
}

#[test]
fn classify_line_uses_given_parse() {
    let id = "q".to_string();
    assert_eq!(classify_line(&id, String::new(), None, false), None);
    let e = classify_line(&id, "[1]".to_string(), Some(json("[1]")), false).unwrap();
    assert_eq!(e.kind, EventKind::Initial(json("[1]")));
    let e = classify_line(&id, "[1]".to_string(), Some(json("[1]")), true).unwrap();
    assert_eq!(e.kind, EventKind::Patch(json("[1]")));
    let e = classify_line(&id, "x".to_string(), None, true).unwrap();
    assert_eq!(e.kind, EventKind::Console("x".to_string()));
    assert_eq!(e.execution_id, "q");
}

#[test]
fn args_for_each_mode() {
    assert_eq!(build_args(RunMode::Run, "/tmp/a.santa".to_string()), vec!["-o", "jsonl", "/tmp/a.santa"]);
    assert_eq!(build_args(RunMode::Script, "p".to_string()), vec!["-o", "jsonl", "p"]);
    assert_eq!(build_args(RunMode::Test, "p".to_string()), vec!["-o", "jsonl", "-t", "p"]);
    assert_eq!(build_args(RunMode::TestSlow, "p".to_string()), vec!["-o", "jsonl", "-t", "-s", "p"]);
}

#[test]
fn mode_names_and_unknown_fallback() {
    assert_eq!(RunMode::from_name("run"), RunMode::Run);
    assert_eq!(RunMode::from_name("test"), RunMode::Test);
    assert_eq!(RunMode::from_name("test-slow"), RunMode::TestSlow);
    assert_eq!(RunMode::from_name("script"), RunMode::Script);
    assert_eq!(RunMode::from_name("tset"), RunMode::Run);
    assert_eq!(RunMode::from_name(""), RunMode::Run);
}

#[test]
fn diagnostic_command_only_in_debug() {
    let args = build_args(RunMode::Test, "/tmp/s.santa".to_string());
    assert_eq!(diagnostic_command(false, "/bin/santa-cli", &args), None);
    assert_eq!(
        diagnostic_command(true, "/bin/santa-cli", &args),
        Some("/bin/santa-cli -o jsonl -t /tmp/s.santa".to_string())
    );
    assert_eq!(diagnostic_command(true, "exe", &Vec::new()), Some("exe ".to_string()));
}

#[test]
fn completion_carries_command() {
    let mut reg = Registry::new();
    let t = StreamClassifier::new("d".to_string());
    let e = t.finish(&mut reg, Some(0), Some("cli -o jsonl f".to_string()));
    assert_eq!(e.kind, EventKind::Complete { exit_code: 0, command: Some("cli -o jsonl f".to_string()) });
}

#[test]
fn staging_names() {
    assert_eq!(staging_file_name_for("abc"), "santa-workbench-abc.santa");
    let a = staging_file_name();
    let b = staging_file_name();
    assert!(a.starts_with("santa-workbench-") && a.ends_with(".santa"));
    assert_eq!(a.len(), "santa-workbench-".len() + 36 + ".santa".len());
    assert_ne!(a, b);
}

#[test]
fn token_variable_name() {
    assert_eq!(SESSION_TOKEN_VAR, "SANTA_CLI_SESSION_TOKEN");
    let f = ExecutionFailure::SpawnFailure("x".to_string());
    assert_ne!(f, ExecutionFailure::UnknownReindeer);
}
