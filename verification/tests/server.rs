use padre::server::{git_behind, git_on_master};
use padre::server::{serde_json_merge, debugger_response, padre_response, error_response, config_timeout};
use padre::config::Config;
use padre::error::{PadreError, PadreErrorKind};
use padre::request::{PadreCmd, DebuggerCmd, FileLocation, Variable};
use padre::notify::{Event, LogLevel};
use padre::node::get_json;
use padre::json::{JsonValue, JsonNumber};

fn to_serde(v: &JsonValue) -> serde_json::Value {
    match v {
        JsonValue::Null => serde_json::Value::Null,
        JsonValue::Bool(b) => serde_json::Value::Bool(*b),
        JsonValue::Number(JsonNumber::PosInt(n)) => serde_json::Value::from(*n),
        JsonValue::Number(JsonNumber::NegInt(n)) => serde_json::Value::from(*n),
        JsonValue::Number(JsonNumber::Float(t)) => serde_json::from_str(t).unwrap(),
        JsonValue::Str(s) => serde_json::Value::String(s.clone()),
        JsonValue::Array(a) => serde_json::Value::Array(a.iter().map(to_serde).collect()),
        JsonValue::Object(o) => serde_json::Value::Object(o.iter().map(|(k, x)| (k.clone(), to_serde(x))).collect()),
    }
}

fn json(s: &str) -> serde_json::Value {
    serde_json::from_str(s).unwrap()
}

fn value(s: &str) -> JsonValue {
    get_json(s).unwrap()
}

#[test]
fn merge_objects_recursively() {
    let mut a = value(r#"{"a":1,"b":{"c":2,"d":3},"e":4}"#);
    serde_json_merge(&mut a, value(r#"{"b":{"c":5,"d":null},"e":null,"f":[1]}"#));
    assert_eq!(to_serde(&a), json(r#"{"a":1,"b":{"c":5},"f":[1]}"#));
}

#[test]
fn merge_replaces_what_is_no_object() {
    let mut a = value(r#"{"a":1}"#);
    serde_json_merge(&mut a, value("[1,2]"));
    assert_eq!(to_serde(&a), json("[1,2]"));
    let mut a = value("3");
    serde_json_merge(&mut a, value(r#"{"x":null}"#));
    assert_eq!(to_serde(&a), json(r#"{"x":null}"#));
}

#[test]
fn debugger_answers() {
    let ok = debugger_response(Ok(value(r#"{"type":"int","value":"42","variable":"i"}"#)));
    assert_eq!(to_serde(&ok), json(r#"{"status":"OK","type":"int","value":"42","variable":"i"}"#));
    let empty = debugger_response(Ok(value("{}")));
    assert_eq!(to_serde(&empty), json(r#"{"status":"OK"}"#));
    let err = debugger_response(Err(PadreError::with_kind(
        PadreErrorKind::DebuggerError,
        "Variable not found".to_string(),
        "Variable 'a' not found".to_string(),
    )));
    assert_eq!(
        to_serde(&err),
        json(r#"{"status":"ERROR","error":"Variable not found","debug":"Variable 'a' not found"}"#)
    );
    assert_eq!(to_serde(&error_response("e", "d")), json(r#"{"status":"ERROR","error":"e","debug":"d"}"#));
}

#[test]
fn padre_commands_answered() {
    let mut config = Config::new();
    let (r, events) = padre_response(&PadreCmd::Ping, &mut config);
    assert_eq!(to_serde(&r), json(r#"{"status":"OK","ping":"pong"}"#));
    assert!(events.is_empty());
    let (r, events) = padre_response(&PadreCmd::Pings, &mut config);
    assert_eq!(to_serde(&r), json(r#"{"status":"OK"}"#));
    assert_eq!(events, vec![Event::Log(LogLevel::INFO, "pong".to_string())]);
    let (r, _) = padre_response(&PadreCmd::GetConfig("BackPressure".to_string()), &mut config);
    assert_eq!(to_serde(&r), json(r#"{"status":"OK","value":20}"#));
    let (r, _) = padre_response(&PadreCmd::SetConfig("BackPressure".to_string(), -4), &mut config);
    assert_eq!(to_serde(&r), json(r#"{"status":"OK"}"#));
    let (r, _) = padre_response(&PadreCmd::GetConfig("BackPressure".to_string()), &mut config);
    assert_eq!(to_serde(&r), json(r#"{"status":"OK","value":-4}"#));
    let (r, _) = padre_response(&PadreCmd::GetConfig("Nope".to_string()), &mut config);
    assert_eq!(to_serde(&r), json(r#"{"status":"ERROR"}"#));
    let (r, _) = padre_response(&PadreCmd::SetConfig("Nope".to_string(), 1), &mut config);
    assert_eq!(to_serde(&r), json(r#"{"status":"ERROR"}"#));
}

#[test]
fn timeouts_by_command() {
    let mut config = Config::new();
    let fl = FileLocation::new("a.c".to_string(), 1);
    assert_eq!(config_timeout(&DebuggerCmd::Breakpoint(fl.clone()), &config), Some(2));
    assert_eq!(config_timeout(&DebuggerCmd::Unbreakpoint(fl), &config), Some(2));
    assert_eq!(config_timeout(&DebuggerCmd::Run, &config), Some(10));
    assert_eq!(config_timeout(&DebuggerCmd::Print(Variable::new("x".to_string())), &config), Some(2));
    assert_eq!(config_timeout(&DebuggerCmd::Continue, &config), None);
    config.set_config("ProcessSpawnTimeout", 30);
    assert_eq!(config_timeout(&DebuggerCmd::Run, &config), Some(30));
}

#[test]
fn git_status_on_master_and_behind() {
    let behind = "On branch master\nYour branch is behind 'origin/master' by 2 commits, and can be fast-forwarded.\n";
    assert!(git_on_master(behind));
    assert_eq!(git_behind(behind), Some(true));
    let current = "On branch master\nYour branch is up to date with 'origin/master'.\n";
    assert_eq!(git_behind(current), Some(false));
    assert!(!git_on_master("On branch feature\n"));
    assert_eq!(git_behind("On branch master"), None);
}
