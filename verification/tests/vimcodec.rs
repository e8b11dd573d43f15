use padre::json::{JsonNumber, JsonValue};
use padre::request::{DebuggerCmd, Notification, PadreCmd, PadreResponse, PadreSend, RequestCmd};
use padre::vimcodec::VimCodec;

fn buffer(s: &str) -> Vec<u8> {
    s.as_bytes().to_vec()
}

#[test]
fn vimcodec_check_simple_json_decoding() {
    let mut codec = VimCodec::new();
    let mut buf = buffer(r#"[123,{"cmd":"run"}]"#);
    assert_eq!(buf.len(), 19);

    let padre_request = codec.decode(&mut buf).unwrap().unwrap();

    assert_eq!(123, padre_request.id());

    match padre_request.cmd() {
        RequestCmd::DebuggerCmd(cmd) => {
            assert_eq!(DebuggerCmd::Run, *cmd);
        }
        _ => panic!("Wrong command type"),
    }
}

#[test]
fn vimcodec_check_two_simple_json_decoding() {
    let mut codec = VimCodec::new();
    let mut buf = buffer(r#"[123,{"cmd":"run"}]"#);

    let padre_request = codec.decode(&mut buf).unwrap().unwrap();

    assert_eq!(123, padre_request.id());

    match padre_request.cmd() {
        RequestCmd::DebuggerCmd(cmd) => {
            assert_eq!(DebuggerCmd::Run, *cmd);
        }
        _ => panic!("Wrong command type"),
    }

    let mut buf = buffer(r#"[124,{"cmd":"ping"}]"#);
    assert_eq!(buf.len(), 20);

    let padre_request = codec.decode(&mut buf).unwrap().unwrap();

    assert_eq!(124, padre_request.id());

    match padre_request.cmd() {
        RequestCmd::PadreCmd(cmd) => {
            assert_eq!(PadreCmd::Ping, *cmd);
        }
        _ => panic!("Wrong command type"),
    }
}

#[test]
fn vimcodec_check_two_buffers_json_decodings() {
    let mut codec = VimCodec::new();
    let mut buf = buffer(r#"[123,{"cmd":"run"#);
    assert_eq!(buf.len(), 16);

    let padre_request = codec.decode(&mut buf).unwrap();

    assert_eq!(None, padre_request);

    buf.extend_from_slice(r#""}]"#.as_bytes());

    let padre_request = codec.decode(&mut buf).unwrap().unwrap();

    assert_eq!(123, padre_request.id());

    match padre_request.cmd() {
        RequestCmd::DebuggerCmd(cmd) => {
            assert_eq!(DebuggerCmd::Run, *cmd);
        }
        _ => panic!("Wrong command type"),
    }
}

#[test]
fn vimcodec_check_json_encoding_response() {
    let mut codec = VimCodec::new();
    let answer = JsonValue::Object(vec![("ping".to_string(), JsonValue::Str("pong".to_string()))]);
    let resp = PadreSend::Response(PadreResponse::new(123, answer));
    let mut buf = Vec::new();
    codec.encode(resp, &mut buf);

    let expected = format!("{}{}", r#"[123,{"ping":"pong"}]"#, "\n");
    assert_eq!(expected.len(), 22);

    assert_eq!(expected.as_bytes().to_vec(), buf);
}

#[test]
fn vimcodec_check_json_encoding_notify() {
    let mut codec = VimCodec::new();
    let resp = PadreSend::Notification(Notification::new(
        "cmd_test".to_string(),
        vec![JsonValue::Str("test".to_string()), JsonValue::Number(JsonNumber::PosInt(1))],
    ));
    let mut buf = Vec::new();
    codec.encode(resp, &mut buf);

    let expected = format!("{}{}", r#"["call","cmd_test",["test",1]]"#, "\n");
    assert_eq!(expected.len(), 31);

    assert_eq!(expected.as_bytes().to_vec(), buf);
}

#[test]
fn vimcodec_float_id_and_arguments_are_refused() {
    let mut codec = VimCodec::new();
    let mut buf = buffer(r#"[1.0,{"cmd":"run"}]"#);
    let e = codec.decode(&mut buf).unwrap_err();
    assert_eq!(e.get_id(), 0);
    assert_eq!(e.get_error_string(), "Can't read id");
    assert!(buf.is_empty());
    let mut buf = buffer(r#"[4,2.5e3]"#);
    let e = codec.decode(&mut buf).unwrap_err();
    assert_eq!(e.get_id(), 4);
    assert_eq!(e.get_error_string(), "Can't read 2nd argument as dictionary");
}

#[test]
fn vimcodec_connection_failure_is_a_generic_error() {
    let e = padre::error::PadreErrorWithId::generic("broken pipe");
    assert_eq!(e.get_id(), 0);
    assert_eq!(e.get_kind(), padre::error::PadreErrorKind::GenericError);
    assert_eq!(e.get_error_string(), "Generic error");
    assert_eq!(e.get_debug_string(), "Generic error broken pipe");
}
