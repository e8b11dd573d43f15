use padre::pdb::{PDBAnalyser, PDBStatus, Message, command_for, print_commands, type_variable, variable_result, strip_gibberish};
use padre::pdb::PendingBreakpoints;
use padre::python::get_python_args;
use padre::request::{FileLocation, Variable};
use padre::notify::{Event, LogLevel};
use padre::json::{JsonValue, JsonNumber};

fn to_serde(v: &JsonValue) -> serde_json::Value {
    match v {
        JsonValue::Null => serde_json::Value::Null,
        JsonValue::Bool(b) => serde_json::Value::Bool(*b),
        JsonValue::Number(JsonNumber::PosInt(n)) => serde_json::Value::from(*n),
        JsonValue::Number(JsonNumber::NegInt(n)) => serde_json::Value::from(*n),
        JsonValue::Number(JsonNumber::Float(t)) => serde_json::from_str(t).unwrap(),
        JsonValue::Str(s) => serde_json::Value::String(s.clone()),
        JsonValue::Array(a) => serde_json::Value::Array(a.iter().map(to_serde).collect()),
        JsonValue::Object(o) => serde_json::Value::Object(o.iter().map(|(k, x)| (k.clone(), to_serde(x))).collect()),
    }
}

fn json(s: &str) -> serde_json::Value {
    serde_json::from_str(s).unwrap()
}

#[test]
fn check_get_args_basic_command() {
    let args = get_python_args("/usr/bin/python3", vec!["test.py", "arg1"]).unwrap();
    assert_eq!(args, vec!["-m", "pdb", "--", "test.py", "arg1"]);
}

#[test]
fn check_get_args_recognises_matching_python_command() {
    let args = get_python_args("/usr/bin/python3", vec!["python3", "test.py", "arg1"]).unwrap();
    assert_eq!(args, vec!["-m", "pdb", "test.py", "arg1"]);
}

#[test]
fn check_get_args_leaves_non_matching_python_command() {
    let args = get_python_args("/usr/bin/python3.7", vec!["python3", "test.py", "arg1"]).unwrap();
    assert_eq!(args, vec!["-m", "pdb", "--", "python3", "test.py", "arg1"]);
}

#[test]
fn check_get_args_accepts_module_running() {
    let args = get_python_args("/usr/bin/python3", vec!["python3", "-m", "abc", "--", "arg1"]).unwrap();
    assert_eq!(args, vec!["-m", "pdb", "-m", "abc", "--", "arg1"]);
}

#[test]
fn check_get_args_accepts_command_arguments() {
    let args = get_python_args("/usr/bin/python3", vec!["python3", "-c", "print('Hello, World!')"]).unwrap();
    assert_eq!(args, vec!["-m", "pdb", "-c", "print('Hello, World!')"]);
}

#[test]
fn get_args_with_bare_interpreter_name() {
    let args = get_python_args("python3", vec!["python3", "script.py"]).unwrap();
    assert_eq!(args, vec!["-m", "pdb", "script.py"]);
    let args = get_python_args("python3", vec!["--", "script.py"]).unwrap();
    assert_eq!(args, vec!["-m", "pdb", "--", "script.py"]);
}

#[test]
fn analyser_startup() {
    let mut analyser = PDBAnalyser::new("12345".to_string());
    assert_eq!(analyser.get_status(), PDBStatus::Processing(Message::Launching));
    let (events, reply) = analyser
        .handle_output("> /Users/me/test.py(1)<module>()\r\n-> abc = 123\r\n".as_bytes())
        .unwrap();
    assert_eq!(events, vec![Event::JumpToPosition("/Users/me/test.py".to_string(), 1)]);
    assert!(reply.is_none());
    assert_eq!(analyser.get_status(), PDBStatus::Processing(Message::Launching));
    analyser.handle_output("(Pdb) ".as_bytes()).unwrap();
    assert_eq!(analyser.get_status(), PDBStatus::Listening);
}

#[test]
fn analyser_custom_syntax_error() {
    let mut analyser = PDBAnalyser::new("12345".to_string());
    analyser
        .handle_output("> /Users/me/test.py(1)<module>()\r\n-> abc = 123\r\n(Pdb) ".as_bytes())
        .unwrap();
    analyser.set_status(PDBStatus::Processing(Message::Custom));
    analyser.handle_output("do something nonsensical\r\n".as_bytes()).unwrap();
    assert_eq!(analyser.get_status(), PDBStatus::Processing(Message::Custom));
    analyser.handle_output("*** SyntaxError: invalid syntax\r\n(Pdb) ".as_bytes()).unwrap();
    assert_eq!(analyser.get_status(), PDBStatus::Listening);
}

#[test]
fn analyser_padre_message_wakeup() {
    let mut analyser = PDBAnalyser::new("12345".to_string());
    analyser
        .handle_output("> /Users/me/test.py(1)<module>()\r\n-> abc = 123\r\n(Pdb) ".as_bytes())
        .unwrap();
    let msg = Message::Breakpoint(FileLocation::new("test.py".to_string(), 2));
    analyser.set_status(PDBStatus::Processing(msg.clone()));
    assert_eq!(analyser.get_status(), PDBStatus::Processing(msg));
    let (events, _) = analyser.handle_output("Breakpoint 1 at test.py:2\r\n(Pdb) ".as_bytes()).unwrap();
    assert_eq!(
        events,
        vec![Event::Log(LogLevel::INFO, "Breakpoint set at file test.py and line number 2".to_string())]
    );
    assert_eq!(analyser.get_status(), PDBStatus::Listening);
}

#[test]
fn analyser_print_message() {
    let mut analyser = PDBAnalyser::new("12345".to_string());
    analyser
        .handle_output("> /Users/me/test.py(1)<module>()\r\n-> abc = 123\r\n(Pdb) ".as_bytes())
        .unwrap();
    let msg = Message::PrintVariable(Variable::new("abc".to_string()));
    analyser.set_status(PDBStatus::Processing(msg.clone()));
    analyser.handle_output("print(abc)\r\n".as_bytes()).unwrap();
    analyser.handle_output("123\r\n".as_bytes()).unwrap();
    assert_eq!(analyser.get_print_variable_value(), "123\r\n");
    analyser.handle_output("(Pdb) ".as_bytes()).unwrap();
}

#[test]
fn analyser_answers_a_waiting_print() {
    let mut analyser = PDBAnalyser::new("12345".to_string());
    analyser.handle_output("(Pdb) ".as_bytes()).unwrap();
    analyser.analyse_message(Message::PrintVariable(Variable::new("abc".to_string())), true);
    let (_, reply) = analyser.handle_output("print(abc)\r\n123\r\n(Pdb) ".as_bytes()).unwrap();
    let value = reply.unwrap().unwrap();
    assert_eq!(to_serde(&value), json(r#"{"value":"123"}"#));
    assert_eq!(analyser.get_print_variable_value(), "");
    assert_eq!(analyser.get_status(), PDBStatus::Listening);
}

#[test]
fn analyser_answers_a_missing_variable() {
    let mut analyser = PDBAnalyser::new("12345".to_string());
    analyser.handle_output("(Pdb) ".as_bytes()).unwrap();
    analyser.analyse_message(Message::PrintVariable(Variable::new("x".to_string())), true);
    let (_, reply) = analyser.handle_output("print(x)\r\nerror: invalid process\r\n(Pdb) ".as_bytes()).unwrap();
    let err = reply.unwrap().unwrap_err();
    assert_eq!(err.get_error_string(), "Variable not found");
    assert_eq!(err.get_debug_string(), "Variable 'x' not found");
}

#[test]
fn analyser_answers_an_empty_object_at_the_prompt() {
    let mut analyser = PDBAnalyser::new("12345".to_string());
    analyser.handle_output("(Pdb) ".as_bytes()).unwrap();
    analyser.analyse_message(Message::Continue, true);
    let (_, reply) = analyser.handle_output("(Pdb) ".as_bytes()).unwrap();
    assert_eq!(to_serde(&reply.unwrap().unwrap()), json("{}"));
    let again = analyser.set_status(PDBStatus::Listening);
    assert!(again.is_none());
}

#[test]
fn analyser_reports_returns_and_exits() {
    let mut analyser = PDBAnalyser::new("12345".to_string());
    analyser.handle_output("(Pdb) ".as_bytes()).unwrap();
    analyser.analyse_message(Message::StepOver(1), false);
    let (events, _) = analyser
        .handle_output("> /t.py(4)f()->5\r\nThe program exited via sys.exit(). Exit status: -3\r\n".as_bytes())
        .unwrap();
    assert_eq!(
        events,
        vec![
            Event::JumpToPosition("/t.py".to_string(), 4),
            Event::Log(LogLevel::INFO, "Returning value 5".to_string()),
            Event::Log(LogLevel::INFO, "Process 12345 exited with exit code -3".to_string()),
        ]
    );
    let (events, _) = analyser.handle_output("The program finished and will be restarted\r\n".as_bytes()).unwrap();
    assert_eq!(events, vec![Event::Log(LogLevel::INFO, "Process 12345 exited with exit code 0".to_string())]);
}

#[test]
fn analyser_refuses_a_line_number_that_does_not_read() {
    let mut analyser = PDBAnalyser::new("12345".to_string());
    analyser.analyse_message(Message::Breakpoint(FileLocation::new("t.py".to_string(), 2)), false);
    assert!(analyser.handle_output("Breakpoint 1 at t.py:\r\n".as_bytes()).is_none());
    assert_eq!(
        analyser.get_status(),
        PDBStatus::Processing(Message::Breakpoint(FileLocation::new("t.py".to_string(), 2)))
    );
}

#[test]
fn analyser_quiet_while_not_reporting() {
    let mut analyser = PDBAnalyser::new("1".to_string());
    analyser.set_reporting_location(false);
    let (events, _) = analyser.handle_output("> /t.py(4)f()\r\n".as_bytes()).unwrap();
    assert!(events.is_empty());
}

#[test]
fn strips_terminal_codes() {
    assert_eq!(strip_gibberish("<class 'int'>\r\n\x1b[?2004h(Pdb) "), "<class 'int'>\r\n(Pdb) ");
    assert_eq!(strip_gibberish("a\x1b[?2004l\rb"), "ab");
}

#[test]
fn pdb_commands() {
    assert_eq!(command_for(&Message::Restart), Some("run\n".to_string()));
    assert_eq!(
        command_for(&Message::Breakpoint(FileLocation::new("a.py".to_string(), 12))),
        Some("break a.py:12\n".to_string())
    );
    assert_eq!(
        command_for(&Message::Unbreakpoint(FileLocation::new("a.py".to_string(), 12))),
        Some("clear a.py:12\n".to_string())
    );
    assert_eq!(command_for(&Message::StepIn(2)), Some("step\n".to_string()));
    assert_eq!(command_for(&Message::StepOver(2)), Some("next\n".to_string()));
    assert_eq!(command_for(&Message::Continue), Some("continue\n".to_string()));
    assert_eq!(command_for(&Message::Custom), None);
    assert_eq!(print_commands("abc"), ("print(abc)\n".to_string(), "print(type(abc))\n".to_string()));
    assert_eq!(type_variable("abc"), Variable::new("type(abc)".to_string()));
}

#[test]
fn pdb_variable_result() {
    let value = JsonValue::Object(vec![("value".to_string(), JsonValue::Str("123".to_string()))]);
    let type_ = JsonValue::Object(vec![("value".to_string(), JsonValue::Str("<class 'int'>".to_string()))]);
    let r = variable_result("abc", value, type_).unwrap();
    assert_eq!(to_serde(&r), json(r#"{"variable":"abc","type":"<class 'int'>","value":"123"}"#));
    assert!(variable_result("abc", JsonValue::Null, JsonValue::Null).is_none());
}

#[test]
fn pending_breakpoints_kept_until_taken() {
    let mut p = PendingBreakpoints::new();
    p.add(FileLocation::new("a.py".to_string(), 1));
    p.add(FileLocation::new("b.py".to_string(), 2));
    p.add(FileLocation::new("a.py".to_string(), 1));
    p.remove(&FileLocation::new("a.py".to_string(), 1));
    p.remove(&FileLocation::new("c.py".to_string(), 9));
    let taken = p.take().unwrap();
    assert_eq!(taken, vec![FileLocation::new("a.py".to_string(), 1), FileLocation::new("b.py".to_string(), 2)]);
    p.add(FileLocation::new("d.py".to_string(), 4));
    assert!(p.take().is_none());
}
