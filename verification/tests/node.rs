use padre::node::{Analyser, Script, WSHandler, get_json, get_message_id, get_url_file};
use padre::node::{node_started_uri, startup_messages, connected_event, set_breakpoint_message, actual_line, evaluate_message, printed_text, node_command};
use padre::request::{DebuggerCmd, Variable};
use padre::notify::{Event, LogLevel};
use padre::request::FileLocation;
use padre::json::{JsonValue, JsonNumber};

fn message(text: &str) -> JsonValue {
    get_json(text).unwrap()
}

#[test]
fn check_internal_script_parsed() {
    let msg = message(
        r#"{
          "method":"Debugger.scriptParsed",
          "params": {
            "scriptId":"7",
            "url":"internal/bootstrap/loaders.js",
            "startLine":0,
            "startColumn":0,
            "endLine":312,
            "endColumn":0,
            "executionContextId":1,
            "hash":"39ff95c38ab7c4bb459aabfe5c5eb3a27441a4d8",
            "executionContextAuxData":{
              "isDefault":true
            },
            "isLiveEdit":false,
            "sourceMapURL":"",
            "hasSourceURL":false,
            "isModule":false,
            "length":9613
          }
        }"#,
    );
    let mut analyser = Analyser::new();

    analyser.analyse_message(msg).unwrap();

    assert_eq!(analyser.get_scripts().len(), 1);
    assert_eq!(analyser.get_scripts()[0].get_file(), "internal/bootstrap/loaders.js");
    assert_eq!(analyser.get_scripts()[0].get_script_id(), "7");
    assert_eq!(analyser.get_scripts()[0].is_internal(), true);

    let msg = message(
        r#"{
          "method":"Debugger.scriptParsed",
          "params":{
            "scriptId":"8",
            "url":"internal/bootstrap/node.js",
            "startLine":0,
            "startColumn":0,
            "endLine":438,
            "endColumn":0,
            "executionContextId":1,
            "hash":"3f184a9d8a71f2554b8b31895d935027129c91c4",
            "executionContextAuxData":{
              "isDefault":true
            },
            "isLiveEdit":false,
            "sourceMapURL":"",
            "hasSourceURL":false,
            "isModule":false,
            "length":14904
          }
        }"#,
    );

    analyser.analyse_message(msg).unwrap();

    assert_eq!(analyser.get_scripts().len(), 2);
    assert_eq!(analyser.get_scripts()[1].get_file(), "internal/bootstrap/node.js");
    assert_eq!(analyser.get_scripts()[1].get_script_id(), "8");
    assert_eq!(analyser.get_scripts()[1].is_internal(), true);
}

#[test]
fn check_file_script_parsed() {
    let msg = message(
        r#"{
          "method":"Debugger.scriptParsed",
          "params":{
            "scriptId":"52",
            "url":"file:///home/me/test.js"
          }
        }"#,
    );

    let mut analyser = Analyser::new();

    analyser.analyse_message(msg).unwrap();

    assert_eq!(analyser.get_scripts().len(), 1);
    assert_eq!(analyser.get_scripts()[0].get_file(), "/home/me/test.js");
    assert_eq!(analyser.get_scripts()[0].get_script_id(), "52");
    assert_eq!(analyser.get_scripts()[0].is_internal(), false);
}

#[test]
fn test_get_existing_script_from_filename() {
    let mut analyser = Analyser::new();
    let msg = message(r#"{"method":"Debugger.scriptParsed","params":{"scriptId":"52","url":"file://exists.js"}}"#);
    analyser.analyse_message(msg).unwrap();
    let expected_script = Script::new("exists.js".to_string(), "52".to_string(), false);
    assert_eq!(analyser.get_script_from_filename("exists.js").unwrap(), &expected_script);
}

#[test]
fn test_get_no_script_from_filename() {
    let analyser = Analyser::new();
    assert_eq!(analyser.get_script_from_filename("not_exists.js"), None);
}

#[test]
fn check_add_message_id() {
    let mut ws_handler = WSHandler::new();

    let msg = "{\"TEST\":1}";
    let id = ws_handler.get_next_ws_id();
    let msg = ws_handler.add_id_to_message(msg, id).unwrap();
    let json: serde_json::Value = serde_json::from_str(&msg).unwrap();

    let expected = "{\"id\":1,\"TEST\":1}";
    let expected: serde_json::Value = serde_json::from_str(expected).unwrap();

    assert_eq!(expected, json);
    assert_eq!(2, ws_handler.get_ws_id());
}

#[test]
fn message_ids() {
    assert_eq!(get_message_id(&message(r#"{"id":7,"result":{}}"#)), Some(7));
    assert_eq!(get_message_id(&message(r#"{"id":-7}"#)), None);
    assert_eq!(get_message_id(&message(r#"{"method":"x"}"#)), None);
    assert_eq!(get_message_id(&message("[1]")), None);
    let ws = WSHandler::new();
    let t = ws.add_id_to_message(r#"{"id":3,"a":true}"#, 9).unwrap();
    assert_eq!(serde_json::from_str::<serde_json::Value>(&t).unwrap(), serde_json::from_str::<serde_json::Value>(r#"{"a":true,"id":9}"#).unwrap());
    assert_eq!(ws.add_id_to_message("null", 2).unwrap(), "{\"id\":2}");
    assert!(ws.add_id_to_message("[1]", 2).is_none());
    assert!(ws.add_id_to_message("{", 2).is_none());
}

#[test]
fn paused_and_exited() {
    let mut analyser = Analyser::new();
    let msg = message(
        r#"{"method":"Debugger.paused","params":{"callFrames":[{"url":"file:///a/b.js","location":{"lineNumber":4}}]}}"#,
    );
    let (events, close) = analyser.analyse_message(msg).unwrap();
    assert_eq!(events, vec![Event::JumpToPosition("/a/b.js".to_string(), 5)]);
    assert!(!close);
    analyser.set_pid(99);
    let (events, close) = analyser
        .analyse_message(message(r#"{"method":"Runtime.executionContextDestroyed"}"#))
        .unwrap();
    assert_eq!(events, vec![Event::ProcessExited(99, 0)]);
    assert!(close);
    let (events, _) = analyser
        .analyse_message(message(r#"{"method":"Debugger.scriptFailedToParse"}"#))
        .unwrap();
    match &events[0] {
        Event::Log(LogLevel::WARN, m) => assert!(m.starts_with("Can't parse script: ")),
        _ => panic!("expected a warning"),
    }
    assert!(analyser.analyse_message(message(r#"{"method":"Unknown.method"}"#)).is_none());
    assert!(analyser.analyse_message(message(r#"{"params":{}}"#)).is_none());
    assert!(analyser.analyse_message(JsonValue::Number(JsonNumber::PosInt(1))).is_none());
    analyser.add_pending_breakpoint(FileLocation::new("a.js".to_string(), 1));
}

#[test]
fn url_files() {
    assert_eq!(get_url_file("file:///x.js"), Some(("/x.js".to_string(), true)));
    assert_eq!(get_url_file("file://"), Some(("file://".to_string(), false)));
    assert_eq!(get_url_file("node:internal"), Some(("node:internal".to_string(), false)));
    assert_eq!(get_url_file("abcdef\u{e9}x"), None);
}

#[test]
fn node_session_messages() {
    assert_eq!(
        node_started_uri("Debugger listening on ws://127.0.0.1:9229/abc-def"),
        Some("ws://127.0.0.1:9229/abc-def".to_string())
    );
    assert_eq!(node_started_uri("For help, see: https://nodejs.org/en/docs/inspector"), None);
    assert_eq!(startup_messages()[1], "{\"method\":\"Debugger.enable\"}");
    let ok = message(r#"{"id":1,"result":{}}"#);
    assert_eq!(
        connected_event(42, &ok, &ok, &ok),
        Event::Log(LogLevel::INFO, "Node launched with pid 42 and PADRE connected to debugger".to_string())
    );
    let bad = message(r#"{"id":2,"error":null}"#);
    match connected_event(42, &ok, &bad, &ok) {
        Event::Log(LogLevel::ERROR, m) => assert!(m.starts_with("Can't connect to node debugger, responses: ")),
        e => panic!("unexpected {:?}", e),
    }
    assert_eq!(
        set_breakpoint_message("52", 3),
        Some("{\"method\":\"Debugger.setBreakpoint\",\"params\":{\"location\":{\"scriptId\":\"52\",\"lineNumber\":2}}}".to_string())
    );
    assert_eq!(set_breakpoint_message("52", 0), None);
    assert_eq!(actual_line(&message(r#"{"result":{"actualLocation":{"lineNumber":4}}}"#)), Some(5));
    assert_eq!(actual_line(&message(r#"{"result":{}}"#)), None);
    assert_eq!(
        evaluate_message("abc"),
        "{\"method\":\"Debugger.evaluateOnCallFrame\",\"params\":{\"callFrameId\":\"{\\\"ordinal\\\":0,\\\"injectedScriptId\\\":1}\",\"expression\":\"abc\",\"returnByValue\":true}}"
    );
    assert_eq!(
        printed_text("abc", &message(r#"{"result":{"result":{"type":"number","value":12}}}"#)),
        Some("(number) abc=12".to_string())
    );
    assert_eq!(
        printed_text("s", &message(r#"{"result":{"result":{"type":"string","value":"x"}}}"#)),
        Some("(string) s=\"x\"".to_string())
    );
    assert_eq!(printed_text("abc", &message(r#"{"result":{}}"#)), None);
    assert_eq!(node_command(&DebuggerCmd::StepIn(1)), Some("{\"method\":\"Debugger.stepInto\"}".to_string()));
    assert_eq!(node_command(&DebuggerCmd::StepOver(1)), Some("{\"method\":\"Debugger.stepOver\"}".to_string()));
    assert_eq!(node_command(&DebuggerCmd::Continue), Some("{\"method\":\"Debugger.resume\"}".to_string()));
    assert_eq!(node_command(&DebuggerCmd::Print(Variable::new("x".to_string()))), None);
}
