use padre::lldb_signals::{analyse_stderr, analyse_stdout, LLDBStatus};
use padre::notify::{Event, LogLevel};

#[test]
fn signals_breakpoints_and_steps() {
    let (events, signals) = analyse_stdout(
        "Breakpoint 1: where = test`main + 15 at test.c:4, address = 0x0000000100000f7f\n* thread #1, stop reason = step in\n",
    )
    .unwrap();
    assert_eq!(events, vec![Event::BreakpointSet("test.c".to_string(), 4)]);
    assert_eq!(signals, vec![(LLDBStatus::Breakpoint, vec![]), (LLDBStatus::StepIn, vec![])]);
}

#[test]
fn signals_positions_and_processes() {
    let (events, signals) = analyse_stdout(
        "Process 1234 launched: '/tmp/test' (x86_64)\n    frame #0: test`main at /tmp/test.c:7\n    frame #1: libdyld.dylib`start + 1\nProcess 1234 exited with status = 0 (0x00000000) \n",
    )
    .unwrap();
    assert_eq!(
        events,
        vec![
            Event::JumpToPosition("/tmp/test.c".to_string(), 7),
            Event::Log(LogLevel::WARN, "Stopped at unknown position".to_string()),
            Event::ProcessExited(1234, 0),
        ]
    );
    assert_eq!(signals, vec![(LLDBStatus::ProcessStarted, vec!["1234".to_string()])]);
}

#[test]
fn signals_printed_variables() {
    let (_, signals) = analyse_stdout("(alloc::vec::Vec<i32>) v = vec![1, 2]\n").unwrap();
    assert_eq!(
        signals,
        vec![(
            LLDBStatus::Variable,
            vec!["v".to_string(), "[1, 2]".to_string(), "alloc::vec::Vec<i32>".to_string()]
        )]
    );
}

#[test]
fn signals_refuse_unreadable_exit_code() {
    assert!(analyse_stdout("Process 1 exited with status = 300 (0x0000012c) \n").is_none());
}

#[test]
fn signals_from_errors() {
    let (events, signals) = analyse_stderr("error: invalid process\nerror: no variable named 'a' found in this frame\n");
    assert_eq!(events, vec![Event::Log(LogLevel::WARN, "program not running".to_string())]);
    assert_eq!(signals, vec![(LLDBStatus::NoProcess, vec![]), (LLDBStatus::VariableNotFound, vec![])]);
}

#[test]
fn pointer_and_reference_types() {
    assert!(padre::lldb_signals::is_pointer_or_reference("int *"));
    assert!(padre::lldb_signals::is_pointer_or_reference("&&str *"));
    assert!(!padre::lldb_signals::is_pointer_or_reference("int"));
}
