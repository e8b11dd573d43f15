use padre::pdb_handler::{PdbHandler, PDBStatus, PDBInput, PDBOutput};
use padre::notify::Event;

#[test]
fn handler_answers_breakpoint_once() {
    let mut h = PdbHandler::new();
    h.set_status(PDBStatus::Running);
    h.add_listener(PDBInput::Breakpoint("/tmp/a.py".to_string(), 3));
    let (events, answers) = h.analyse_output("Breakpoint 1 at /tmp/a.py:3\r\n(Pdb) ").unwrap();
    assert_eq!(events, vec![Event::BreakpointSet("/tmp/a.py".to_string(), 3)]);
    assert_eq!(
        answers,
        vec![(PDBInput::Breakpoint("/tmp/a.py".to_string(), 3), PDBOutput::Breakpoint("/tmp/a.py".to_string(), 3))]
    );
    let (events, answers) = h.analyse_output("Breakpoint 2 at /tmp/a.py:3\r\n").unwrap();
    assert_eq!(events, vec![Event::BreakpointSet("/tmp/a.py".to_string(), 3)]);
    assert!(answers.is_empty());
}

#[test]
fn handler_reports_positions_and_exits() {
    let mut h = PdbHandler::new();
    h.set_pid(77);
    let (events, answers) = h
        .analyse_output("> /tmp/a.py(5)<module>()\r\nThe program exited via sys.exit(). Exit status: -2\r\n")
        .unwrap();
    assert_eq!(
        events,
        vec![Event::JumpToPosition("/tmp/a.py".to_string(), 5), Event::ProcessExited(77, -2)]
    );
    assert!(answers.is_empty());
    let (events, _) = h.analyse_output("The program finished and will be restarted\r\n").unwrap();
    assert_eq!(events, vec![Event::ProcessExited(77, 0)]);
}

#[test]
fn handler_refuses_exit_without_pid() {
    let mut h = PdbHandler::new();
    assert!(h.analyse_output("The program finished and will be restarted\r\n").is_none());
    assert_eq!(h.get_status(), PDBStatus::Idle);
}

#[test]
fn handler_prints_variable() {
    let mut h = PdbHandler::new();
    h.set_status(PDBStatus::ReadyToPrint("a".to_string()));
    h.add_listener(PDBInput::PrintVariable("a".to_string()));
    let (events, answers) = h.analyse_output("p a\r\n").unwrap();
    assert!(events.is_empty());
    assert!(answers.is_empty());
    assert_eq!(h.get_status(), PDBStatus::Printing("a".to_string()));
    let (_, answers) = h.analyse_output("123\r\n").unwrap();
    assert_eq!(
        answers,
        vec![(PDBInput::PrintVariable("a".to_string()), PDBOutput::PrintVariable("123".to_string()))]
    );
    let (_, answers) = h.analyse_output("(Pdb) ").unwrap();
    assert!(answers.is_empty());
    assert_eq!(h.get_status(), PDBStatus::Running);
}

#[test]
fn handler_print_without_caller_is_refused() {
    let mut h = PdbHandler::new();
    h.set_status(PDBStatus::Printing("b".to_string()));
    assert!(h.analyse_output("1\r\n").is_none());
    assert_eq!(h.get_status(), PDBStatus::Printing("b".to_string()));
}
