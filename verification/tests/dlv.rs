use padre::dlv::{DlvAnalyser, DelveStatus, Message, commands_for};
use padre::notify::{Event, LogLevel};
use padre::request::{FileLocation, Variable};

#[test]
fn delve_setup_reports_launch_position_and_exit() {
    let mut a = DlvAnalyser::new();
    assert_eq!(a.get_status(), DelveStatus::NotRunning);
    a.analyse_message(Message::DlvSetup, true);
    let (events, woke) = a
        .analyse_output("Process restarted with PID 321\r\n> main.main() ./main.go:5 (hits goroutine(1):1 total:1)\r\nProcess 321 has exited with status -2\r\n")
        .unwrap();
    assert_eq!(
        events,
        vec![
            Event::Log(LogLevel::INFO, "Process launched with pid: 321".to_string()),
            Event::JumpToPosition("./main.go".to_string(), 5),
            Event::ProcessExited(321, -2),
        ]
    );
    assert!(!woke);
    let (events, woke) = a.analyse_output("(dlv) ").unwrap();
    assert!(events.is_empty());
    assert!(woke);
    assert_eq!(a.get_status(), DelveStatus::Listening);
}

#[test]
fn delve_breakpoints() {
    let mut a = DlvAnalyser::new();
    a.analyse_message(Message::Breakpoint(FileLocation::new("main.go".to_string(), 7)), false);
    let (events, _) = a
        .analyse_output("Breakpoint 1 set at 0x4a8a2f for main.main() ./main.go:7\r\n")
        .unwrap();
    assert_eq!(
        events,
        vec![Event::Log(LogLevel::INFO, "Breakpoint set at file ./main.go and line number 7".to_string())]
    );
    assert!(a.analyse_output("Breakpoint 1 set at 0x4a8a2f for main.main() ./main.go:\r\n").is_none());
}

#[test]
fn delve_prints_a_variable() {
    let mut a = DlvAnalyser::new();
    a.analyse_message(Message::PrintVariable(Variable::new("x".to_string())), true);
    let (events, _) = a.analyse_output("print x\r\n").unwrap();
    assert!(events.is_empty());
    let (events, _) = a.analyse_output("42\r\n").unwrap();
    assert_eq!(events, vec![Event::Log(LogLevel::INFO, "42\r\n".to_string())]);
    let (events, woke) = a.analyse_output("(dlv) ").unwrap();
    assert_eq!(events, vec![Event::Log(LogLevel::INFO, "x=42".to_string())]);
    assert!(woke);
}

#[test]
fn delve_commands() {
    assert_eq!(
        commands_for(&Message::DlvSetup),
        Some(vec![b"break main.main\n".to_vec(), b"restart\n".to_vec(), b"continue\n".to_vec()])
    );
    assert_eq!(
        commands_for(&Message::Breakpoint(FileLocation::new("a.go".to_string(), 3))),
        Some(vec![b"break a.go:3\n".to_vec()])
    );
    assert_eq!(commands_for(&Message::StepIn), Some(vec![b"si\n".to_vec()]));
    assert_eq!(commands_for(&Message::PrintVariable(Variable::new("v".to_string()))), Some(vec![b"print v\n".to_vec()]));
    assert_eq!(commands_for(&Message::Custom(b"bt\n".to_vec())), Some(vec![b"bt\n".to_vec()]));
    assert_eq!(commands_for(&Message::DlvLaunching), None);
}
