use padre::lldb::{LLDBAnalyser, LLDBStatus, Message};
use padre::lldb_command::{message_for, timeout_error, file_line_message};
use padre::request::DebuggerCmd;
use padre::lldb_command::{
    get_variable_value, get_variable_info, get_variable_is_vector, breakpoints_set_at, get_breakpoints_set_at,
    setup_commands, command_for, delete_command, removed_breakpoint_message, check_can_launch, step_reports_location,
    parse_u32,
};
use padre::request::{FileLocation, Variable};
use padre::notify::{Event, LogLevel};
use padre::error::PadreErrorKind;
use padre::json::{JsonValue, JsonNumber};

fn to_serde(v: &JsonValue) -> serde_json::Value {
    match v {
        JsonValue::Null => serde_json::Value::Null,
        JsonValue::Bool(b) => serde_json::Value::Bool(*b),
        JsonValue::Number(JsonNumber::PosInt(n)) => serde_json::Value::from(*n),
        JsonValue::Number(JsonNumber::NegInt(n)) => serde_json::Value::from(*n),
        JsonValue::Number(JsonNumber::Float(t)) => serde_json::from_str(t).unwrap(),
        JsonValue::Str(s) => serde_json::Value::String(s.clone()),
        JsonValue::Array(a) => serde_json::Value::Array(a.iter().map(to_serde).collect()),
        JsonValue::Object(o) => serde_json::Value::Object(o.iter().map(|(k, x)| (k.clone(), to_serde(x))).collect()),
    }
}

#[test]
fn check_value_int() {
    let ret = get_variable_value("(int) i = 42", "int", "i", "42");
    assert_eq!(ret, "42".to_string());
}

#[test]
fn check_value_string() {
    let ret = get_variable_value("(alloc::string::String) s = \"TESTING\"", "alloc::string::String", "s", "TESTING");
    assert_eq!(ret, "TESTING".to_string());
}

#[test]
fn check_value_string_ref() {
    let ret = get_variable_value("(&str *) s = 0x00007ffeefbff368", "&str *", "s", "0x00007ffeefbff368");
    assert_eq!(ret, "0x00007ffeefbff368".to_string());
}

#[test]
fn value_of_a_vector_loses_its_macro() {
    assert!(get_variable_is_vector("alloc::vec::Vec<i32>"));
    assert!(get_variable_is_vector("&&alloc::vec::Vec<u8>"));
    assert!(!get_variable_is_vector("int"));
    let ret = get_variable_value("", "alloc::vec::Vec<i32>", "v", "vec![1, 2]");
    assert_eq!(ret, "[1, 2]");
    assert_eq!(get_variable_value("", "alloc::vec::Vec<i32>", "v", "vec!"), "");
}

#[test]
fn variable_info_reads_type_name_and_value() {
    let r = get_variable_info("(int) i = 42", &Variable::new("i".to_string())).unwrap();
    let expected: serde_json::Value = serde_json::from_str(r#"{"type":"int","value":"42","variable":"i"}"#).unwrap();
    assert_eq!(to_serde(&r), expected);
}

#[test]
fn variable_info_reports_a_missing_variable() {
    let v = Variable::new("a".to_string());
    let e = get_variable_info("error: no variable named 'a' found in this frame", &v).unwrap_err();
    assert_eq!(e.get_kind(), PadreErrorKind::DebuggerError);
    assert_eq!(e.get_error_string(), "Variable not found");
    assert_eq!(e.get_debug_string(), "Variable 'a' not found");
    assert!(get_variable_info("error: invalid process", &v).is_err());
}

#[test]
fn breakpoints_listed_at_a_location() {
    let out = "Current breakpoints:\r\n1: file = 'test.c', line = 12, exact_match = 0, locations = 1\r\n  1.1: where\r\n2: file = 'other.c', line = 12, exact_match = 0, locations = 1\r\n3: file = 'test.c', line = 12, exact_match = 0, locations = 1";
    let fl = FileLocation::new("test.c".to_string(), 12);
    assert_eq!(get_breakpoints_set_at(out, &fl), vec![1, 3]);
    assert_eq!(breakpoints_set_at(out, &fl), Some(vec![1, 3]));
    let big = "99999999999: file = 'test.c', line = 12, exact_match = 0, locations = 1";
    assert_eq!(breakpoints_set_at(big, &fl), None);
    assert_eq!(parse_u32("4294967295"), Some(4294967295));
    assert_eq!(parse_u32("4294967296"), None);
}

#[test]
fn lldb_commands() {
    let setup = setup_commands();
    assert_eq!(setup.len(), 4);
    assert_eq!(setup[3], "breakpoint set --name main");
    assert_eq!(command_for(&Message::ProcessLaunching), Some("process launch".to_string()));
    assert_eq!(
        command_for(&Message::Breakpoint(FileLocation::new("a.c".to_string(), 7))),
        Some("breakpoint set --file a.c --line 7".to_string())
    );
    assert_eq!(command_for(&Message::Unbreakpoint(FileLocation::new("a.c".to_string(), 7))), Some("breakpoint list".to_string()));
    assert_eq!(command_for(&Message::StepIn(3)), Some("thread step-in".to_string()));
    assert_eq!(command_for(&Message::StepOver(3)), Some("thread step-over".to_string()));
    assert_eq!(command_for(&Message::Continue), Some("thread continue".to_string()));
    assert_eq!(command_for(&Message::PrintVariable(Variable::new("x".to_string()))), Some("frame variable x".to_string()));
    assert_eq!(command_for(&Message::Custom), None);
    assert_eq!(delete_command(4), "breakpoint delete 4");
    assert_eq!(
        removed_breakpoint_message(&FileLocation::new("a.c".to_string(), 7)),
        "Removed breakpoint in file a.c and line number 7"
    );
    assert!(check_can_launch(&None).is_ok());
    let e = check_can_launch(&Some("123".to_string())).unwrap_err();
    assert_eq!(e.get_error_string(), "Process already running");
    assert_eq!(e.get_debug_string(), "Process with pid '123' already running");
    assert!(!step_reports_location(0, 2));
    assert!(step_reports_location(1, 2));
}

#[test]
fn analyser_follows_setup_and_launch() {
    let mut a = LLDBAnalyser::new();
    let (events, reply) = a.handle_output(b"(lldb) target create \"x\"\r\n(lldb) ").unwrap();
    assert!(events.is_empty());
    assert!(reply.is_none());
    assert_eq!(a.get_details().0, LLDBStatus::Listening);
    a.get_output(Message::ProcessLaunching, b"process launch".to_vec());
    let (events, reply) = a
        .handle_output(b"process launch\r\nProcess 4242 launched: '/tmp/x' (x86_64)\r\n")
        .unwrap();
    assert_eq!(events, vec![Event::Log(LogLevel::INFO, "Process 4242 launched".to_string())]);
    assert!(reply.is_none());
    assert_eq!(a.get_details().1, Some("4242".to_string()));
    let (events, reply) = a.handle_output(b"  frame #0 at /tmp/x.c:3\r\n(lldb) ").unwrap();
    assert_eq!(events, vec![Event::JumpToPosition("/tmp/x.c".to_string(), 3)]);
    assert_eq!(reply, Some("Process 4242 launched: '/tmp/x' (x86_64)\r\n  frame #0 at /tmp/x.c:3".to_string()));
    assert_eq!(a.get_details().0, LLDBStatus::Listening);
}

#[test]
fn analyser_reports_breakpoints_and_exits() {
    let mut a = LLDBAnalyser::new();
    a.handle_output(b"(lldb) ").unwrap();
    a.get_output(Message::Breakpoint(FileLocation::new("x.c".to_string(), 3)), b"breakpoint set --file x.c --line 3".to_vec());
    let (events, _) = a
        .handle_output(b"Breakpoint 1: where = x`main + 4 at x.c:3:5, address = 0x0000000100000f84\r\n(lldb) ")
        .unwrap();
    assert_eq!(events, vec![Event::Log(LogLevel::INFO, "Breakpoint set file=x.c, line=3".to_string())]);
    a.get_output(Message::Breakpoint(FileLocation::new("y.c".to_string(), 3)), b"b".to_vec());
    let (events, _) = a.handle_output(b"Breakpoint 2: no locations (pending).\r\n(lldb) ").unwrap();
    assert_eq!(events, vec![Event::Log(LogLevel::INFO, "Breakpoint pending".to_string())]);
    a.get_output(Message::Continue, b"thread continue".to_vec());
    let (events, _) = a
        .handle_output(b"Process 7 exited with status = 3 (0x00000003)\r\nerror: invalid process\r\n(lldb) ")
        .unwrap();
    assert_eq!(
        events,
        vec![
            Event::Log(LogLevel::INFO, "Process 7 exited with exit code 3".to_string()),
            Event::Log(LogLevel::WARN, "No process running".to_string()),
        ]
    );
}

#[test]
fn analyser_unknown_position_and_quiet_steps() {
    let mut a = LLDBAnalyser::new();
    a.handle_output(b"(lldb) ").unwrap();
    a.get_output(Message::StepIn(1), b"thread step-in".to_vec());
    let (events, _) = a.handle_output(b"  frame #0: 0x0000 libc`write\r\n").unwrap();
    assert_eq!(events, vec![Event::Log(LogLevel::WARN, "Stopped at unknown position".to_string())]);
    a.set_reporting_location(false);
    let (events, _) = a.handle_output(b"  frame #0 at /tmp/x.c:3\r\n").unwrap();
    assert!(events.is_empty());
}

#[test]
fn analyser_set_status_answers_a_waiting_caller() {
    let mut a = LLDBAnalyser::new();
    a.get_output(Message::LLDBSetup, b"settings set x".to_vec());
    assert_eq!(a.set_status(LLDBStatus::Listening), Some(String::new()));
    assert_eq!(a.set_status(LLDBStatus::Listening), None);
}

#[test]
fn debugger_commands_become_messages() {
    let fl = FileLocation::new("a.c".to_string(), 2);
    assert_eq!(message_for(DebuggerCmd::Run), Message::ProcessLaunching);
    assert_eq!(message_for(DebuggerCmd::Breakpoint(fl.clone())), Message::Breakpoint(fl.clone()));
    assert_eq!(message_for(DebuggerCmd::StepOver(3)), Message::StepOver(3));
    let e = timeout_error(&DebuggerCmd::Run, "2s").unwrap();
    assert_eq!(e.get_error_string(), "Timed out spawning process");
    assert_eq!(e.get_debug_string(), "Process spawning timed out after 2s");
    assert_eq!(timeout_error(&DebuggerCmd::Unbreakpoint(fl), "1s").unwrap().get_debug_string(), "Breakpoint removing timed out after 1s");
    assert!(timeout_error(&DebuggerCmd::Continue, "1s").is_none());
    assert_eq!(
        file_line_message("Setting breakpoint in file ", "a.c", " at line number ", 12),
        "Setting breakpoint in file a.c at line number 12"
    );
}
