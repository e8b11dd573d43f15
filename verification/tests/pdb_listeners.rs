use padre::notify::Event as VimEvent;
use padre::pdb_listeners::{Analyser, Event, Listener, PDBStatus};
use padre::request::{FileLocation, Variable};

#[test]
fn listeners_hear_launch_once() {
    let mut a = Analyser::new();
    a.add_listener(Listener::Launch);
    let (events, delivered) = a.analyse_stdout("> /tmp/t.py(1)<module>()\n(Pdb) ").unwrap();
    assert_eq!(events, vec![VimEvent::JumpToPosition("/tmp/t.py".to_string(), 1)]);
    assert_eq!(delivered, vec![(Listener::Launch, Event::Launched)]);
    assert_eq!(a.get_status(), PDBStatus::Running);
    let (_, delivered) = a.analyse_stdout("(Pdb) ").unwrap();
    assert!(delivered.is_empty());
}

#[test]
fn listeners_hear_breakpoints() {
    let mut a = Analyser::new();
    a.add_listener(Listener::Breakpoint);
    let (events, delivered) = a.analyse_stdout("Breakpoint 1 at /tmp/t.py:7\n").unwrap();
    assert_eq!(events, vec![VimEvent::BreakpointSet("/tmp/t.py".to_string(), 7)]);
    assert_eq!(
        delivered,
        vec![(Listener::Breakpoint, Event::BreakpointSet(FileLocation::new("/tmp/t.py".to_string(), 7)))]
    );
}

#[test]
fn listeners_hear_printed_values() {
    let mut a = Analyser::new();
    a.set_pid(12);
    a.set_status(PDBStatus::Printing(Variable::new("x".to_string())));
    a.add_listener(Listener::PrintVariable);
    let (_, delivered) = a.analyse_stdout("42\r\n").unwrap();
    assert_eq!(
        delivered,
        vec![(Listener::PrintVariable, Event::PrintVariable(Variable::new("x".to_string()), "42".to_string()))]
    );
    let (events, _) = a.analyse_stdout("The program finished and will be restarted\n").unwrap();
    assert_eq!(events, vec![VimEvent::ProcessExited(12, 0)]);
}

#[test]
fn listeners_refuse_exit_without_pid() {
    let mut a = Analyser::new();
    assert!(a.analyse_stdout("The program exited via sys.exit(). Exit status: 3\n").is_none());
}
