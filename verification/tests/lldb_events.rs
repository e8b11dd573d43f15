use padre::lldb_events::{LLDBAnalyser, LLDBListener, LLDBEvent, VariableValue};
use padre::notify::{Event, LogLevel};
use padre::request::{FileLocation, Variable};

#[test]
fn events_delivered_once_to_listeners() {
    let mut a = LLDBAnalyser::new();
    a.add_listener(LLDBListener::LLDBLaunched);
    a.add_listener(LLDBListener::ProcessLaunched);
    let (events, delivered) = a
        .analyse_stdout("Current executable set to './prog' (x86_64).\nCurrent executable set to './prog' (x86_64).\n")
        .unwrap();
    assert!(events.is_empty());
    assert_eq!(delivered, vec![(LLDBListener::LLDBLaunched, LLDBEvent::LLDBLaunched)]);
    let (_, delivered) = a.analyse_stdout("Process 77 launched: './prog' (x86_64)\n").unwrap();
    assert_eq!(delivered, vec![(LLDBListener::ProcessLaunched, LLDBEvent::ProcessLaunched(77))]);
    assert!(a.is_process_running());
    let (events, delivered) = a.analyse_stdout("Process 77 exited with status = 0 (0x00000000)\n").unwrap();
    assert_eq!(events, vec![Event::ProcessExited(77, 0)]);
    assert!(delivered.is_empty());
    assert!(!a.is_process_running());
}

#[test]
fn breakpoints_and_positions() {
    let mut a = LLDBAnalyser::new();
    a.add_listener(LLDBListener::Breakpoint);
    let (events, delivered) = a
        .analyse_stdout("Breakpoint 1: where = prog`main + 4 at main.c:3:5, address = 0x0000000100000f84\n")
        .unwrap();
    assert_eq!(events, vec![Event::BreakpointSet("main.c".to_string(), 3)]);
    assert_eq!(
        delivered,
        vec![(LLDBListener::Breakpoint, LLDBEvent::BreakpointSet(FileLocation::new("main.c".to_string(), 3)))]
    );
    a.add_listener(LLDBListener::Breakpoint);
    let (_, delivered) = a.analyse_stdout("Breakpoint 2: 3 locations.\n").unwrap();
    assert_eq!(delivered, vec![(LLDBListener::Breakpoint, LLDBEvent::BreakpointMultiple)]);
    a.add_listener(LLDBListener::Breakpoint);
    let (_, delivered) = a.analyse_stdout("Breakpoint 3: no locations (pending).\n").unwrap();
    assert_eq!(delivered, vec![(LLDBListener::Breakpoint, LLDBEvent::BreakpointPending)]);
    let (events, _) = a.analyse_stdout("  frame #0 at /x/main.c:9\n  frame #1: libc`start\nerror: invalid process\n").unwrap();
    assert_eq!(
        events,
        vec![
            Event::JumpToPosition("/x/main.c".to_string(), 9),
            Event::Log(LogLevel::WARN, "Stopped at unknown position".to_string()),
            Event::Log(LogLevel::WARN, "program not running".to_string()),
        ]
    );
}

#[test]
fn printed_and_missing_variables() {
    let mut a = LLDBAnalyser::new();
    a.add_listener(LLDBListener::PrintVariable);
    let (_, delivered) = a.analyse_stdout("(int) i = 42\n").unwrap();
    assert_eq!(
        delivered,
        vec![(
            LLDBListener::PrintVariable,
            LLDBEvent::PrintVariable(Variable::new("i".to_string()), VariableValue::new("int".to_string(), "42".to_string()))
        )]
    );
    a.add_listener(LLDBListener::PrintVariable);
    let delivered = a.analyse_stderr("error: no variable named 'b' found in this frame\n").unwrap();
    assert_eq!(delivered, vec![(LLDBListener::PrintVariable, LLDBEvent::VariableNotFound(Variable::new("b".to_string())))]);
    let v = VariableValue::new("int".to_string(), "1".to_string());
    assert_eq!(v.type_(), "int");
    assert_eq!(v.value(), "1");
}

#[test]
fn refuses_a_value_that_cannot_be_cut() {
    let mut a = LLDBAnalyser::new();
    a.add_listener(LLDBListener::PrintVariable);
    assert!(a.analyse_stdout("(int) i = ").is_none());
}
