use padre::debugger::{file_type_is_binary_executable, file_type_is_text};
use padre::debugger::{get_debugger_info, missing_file_error, spawn_args, to_ascii_lowercase, DebuggerType};
use padre::error::PadreErrorKind;

#[test]
fn type_given_in_any_case() {
    assert_eq!(get_debugger_info(None, Some("LLDB"), "x", false, false), Ok((DebuggerType::LLDB, "lldb".to_string())));
    assert_eq!(
        get_debugger_info(Some("/usr/bin/python3"), Some("Python"), "x.js", true, false),
        Ok((DebuggerType::Python, "/usr/bin/python3".to_string()))
    );
    assert_eq!(get_debugger_info(None, Some("node"), "x", false, false), Ok((DebuggerType::Node, "node".to_string())));
    assert_eq!(
        get_debugger_info(None, Some("gdb"), "x", false, false),
        Err("Couldn't understand debugger type gdb".to_string())
    );
}

#[test]
fn type_guessed_from_the_program() {
    assert_eq!(get_debugger_info(None, None, "a.js", true, false), Ok((DebuggerType::Node, "node".to_string())));
    assert_eq!(get_debugger_info(None, None, "a.py", true, false), Ok((DebuggerType::Python, "python3".to_string())));
    assert_eq!(get_debugger_info(None, None, "a.out", false, true), Ok((DebuggerType::LLDB, "lldb".to_string())));
    assert_eq!(get_debugger_info(Some("python3"), None, "a.txt", true, false), Ok((DebuggerType::Python, "python3".to_string())));
    assert_eq!(
        get_debugger_info(Some("gdb"), None, "a.txt", true, false),
        Err("Can't find debugger type for gdb, try specifying with -d or -t".to_string())
    );
    assert_eq!(
        get_debugger_info(None, None, "a.txt", true, false),
        Err("Can't find debugger type, try specifying with -d or -t".to_string())
    );
}

#[test]
fn lower_case() {
    assert_eq!(to_ascii_lowercase("PyThOn3-É"), "python3-É");
}

#[test]
fn spawn_arguments() {
    let d = vec!["/usr/bin/lldb".to_string()];
    let r = vec!["./prog".to_string(), "a".to_string()];
    assert_eq!(spawn_args(d.clone(), r.clone(), true, true), vec!["/usr/bin/lldb", "--", "./prog", "a"]);
    let e = missing_file_error("./prog");
    assert_eq!(e.get_kind(), PadreErrorKind::ProcessSpawnError);
    assert_eq!(e.get_error_string(), "Can't spawn, debugger doesn't exist");
    assert_eq!(e.get_debug_string(), "Can't spawn debugger as ./prog does not exist");
    assert_eq!(missing_file_error("/usr/bin/lldb").get_debug_string(), "Can't spawn debugger as /usr/bin/lldb does not exist");
}

#[test]
fn file_descriptions_name_binaries_and_text() {
    assert!(file_type_is_binary_executable("a.out: ELF 64-bit LSB pie executable, x86-64"));
    assert!(file_type_is_binary_executable("a: Mach-O 64-bit EXECUTABLE arm64"));
    assert!(!file_type_is_binary_executable("lib.dylib: Mach-O 64-bit dynamically linked shared library"));
    assert!(!file_type_is_binary_executable("t.py: Python script, ASCII text executable"));
    assert!(file_type_is_text("t.py: Python script, ASCII text executable"));
    assert!(file_type_is_text("t.js: JavaScript source, UTF-8 Unicode text"));
    assert!(!file_type_is_text("a.out: ELF 64-bit LSB pie executable, x86-64"));
}

#[test]
fn is_file_executable() {
    assert!(file_type_is_binary_executable(
        "./test_files/node: ELF 64-bit LSB executable, x86-64, version 1 (GNU/Linux), dynamically linked"
    ));
    assert!(!file_type_is_binary_executable("./test_files/test_node.js: ASCII text"));
}

#[test]
fn is_file_text() {
    assert!(!file_type_is_text(
        "./test_files/node: ELF 64-bit LSB executable, x86-64, version 1 (GNU/Linux), dynamically linked"
    ));
    assert!(file_type_is_text("./test_files/test_node.js: ASCII text"));
}
