//! Which debugger PADRE runs for a program, and with what command.

use vstd::prelude::*;
use crate::text::{str_eq, chars_of, string_of, contains_text, text_contains};
use crate::error::{PadreError, PadreErrorKind, ErrorView};

verus! {

/// The debuggers PADRE can drive.
#[derive(Clone, Copy, Debug, PartialEq, Eq, Structural)]
pub enum DebuggerType {
    LLDB,
    Node,
    Python,
}

/// `c` in lower case, where it is an ASCII capital.
pub open spec fn lower_char(c: char) -> char {
    if 'A' <= c && c <= 'Z' { ((c as u32) + 32) as char } else { c }
}

/// `s.to_ascii_lowercase()`.
pub open spec fn ascii_lowercase(s: Seq<char>) -> Seq<char> {
    s.map_values(|c: char| lower_char(c))
}

/// `s.to_ascii_lowercase()`.
pub fn to_ascii_lowercase(s: &str) -> (r: String)
    ensures
        r@ == ascii_lowercase(s@),
{
    let cs = chars_of(s);
    let mut out: Vec<char> = Vec::new();
    let mut i: usize = 0;
    while i < cs.len()
        invariant
            i <= cs@.len(),
            out@ == ascii_lowercase(cs@.take(i as int)),
        decreases cs@.len() - i,
    {
        let c = cs[i];
        let l = if 'A' <= c && c <= 'Z' { ((c as u32) + 32) as u8 as char } else { c };
        assert(l == lower_char(c)) by {
            if 'A' <= c && c <= 'Z' {
                assert((c as u32) + 32 < 256);
            }
        }
        out.push(l);
        assert(ascii_lowercase(cs@.take(i + 1)) =~= ascii_lowercase(cs@.take(i as int)).push(lower_char(c)));
        i = i + 1;
    }
    assert(cs@.take(cs@.len() as int) == cs@);
    string_of(out.as_slice())
}

/// Whether the `file` command's description of a file names a binary
/// executable: an ELF file, or a Mach-O one that says it is executable
/// (in any case).
pub open spec fn spec_binary_executable(file_output: Seq<char>) -> bool {
    contains_text(file_output, "ELF"@)
        || (contains_text(file_output, "Mach-O"@) && contains_text(ascii_lowercase(file_output), "executable"@))
}

/// Whether the `file` command's description names a binary executable;
/// see `spec_binary_executable`.
pub fn file_type_is_binary_executable(file_output: &str) -> (r: bool)
    ensures
        r == spec_binary_executable(file_output@),
{
    if text_contains(file_output, "ELF") {
        return true;
    }
    if !text_contains(file_output, "Mach-O") {
        return false;
    }
    let lower = to_ascii_lowercase(file_output);
    text_contains(lower.as_str(), "executable")
}

/// Whether the `file` command's description names a text file: ASCII or
/// UTF-8.
pub open spec fn spec_text_file(file_output: Seq<char>) -> bool {
    contains_text(file_output, "ASCII"@) || contains_text(file_output, "UTF-8"@)
}

/// Whether the `file` command's description names a text file; see
/// `spec_text_file`.
pub fn file_type_is_text(file_output: &str) -> (r: bool)
    ensures
        r == spec_text_file(file_output@),
{
    text_contains(file_output, "ASCII") || text_contains(file_output, "UTF-8")
}

/// Whether `s` ends with `suffix`.
pub open spec fn ends_with(s: Seq<char>, suffix: Seq<char>) -> bool {
    s.len() >= suffix.len() && s.skip(s.len() - suffix.len()) == suffix
}

/// Whether `s` ends with `suffix`.
fn text_ends_with(s: &str, suffix: &str) -> (r: bool)
    ensures
        r == ends_with(s@, suffix@),
{
    let a = chars_of(s);
    let b = chars_of(suffix);
    if a.len() < b.len() {
        return false;
    }
    let off = a.len() - b.len();
    let mut i: usize = 0;
    while i < b.len()
        invariant
            off + b@.len() == a@.len(),
            a@.len() <= usize::MAX,
            a@ == s@,
            b@ == suffix@,
            off == a@.len() - b@.len(),
            i <= b@.len(),
            forall|j: int| 0 <= j < i ==> a@[off + j] == b@[j],
        decreases b@.len() - i,
    {
        if a[off + i] != b[i] {
            assert(a@.skip(off as int)[i as int] != b@[i as int]);
            assert(a@.skip(a@.len() - b@.len()) != b@);
            return false;
        }
        i = i + 1;
    }
    assert(a@.skip(off as int) =~= b@);
    true
}

/// The debugger named by a type given on the command line, in any case.
pub open spec fn type_named(s: Seq<char>) -> Option<DebuggerType> {
    let l = ascii_lowercase(s);
    if l == "lldb"@ {
        Some(DebuggerType::LLDB)
    } else if l == "python"@ {
        Some(DebuggerType::Python)
    } else if l == "node"@ {
        Some(DebuggerType::Node)
    } else {
        None
    }
}

/// The debugger guessed from the program to run: Node for a text file
/// ending in `.js`, Python for one ending in `.py`, LLDB for a binary.
pub open spec fn guessed_type(run: Seq<char>, is_text: bool, is_binary: bool) -> Option<DebuggerType> {
    if is_text && ends_with(run, ".js"@) {
        Some(DebuggerType::Node)
    } else if is_text && ends_with(run, ".py"@) {
        Some(DebuggerType::Python)
    } else if is_binary {
        Some(DebuggerType::LLDB)
    } else {
        None
    }
}

/// The debugger named by the debugger's command.
pub open spec fn type_of_command(cmd: Seq<char>) -> Option<DebuggerType> {
    if cmd == "lldb"@ {
        Some(DebuggerType::LLDB)
    } else if cmd == "python"@ || cmd == "python3"@ {
        Some(DebuggerType::Python)
    } else if cmd == "node"@ {
        Some(DebuggerType::Node)
    } else {
        None
    }
}

/// The command that runs a debugger where none is given.
pub open spec fn default_command(t: DebuggerType) -> Seq<char> {
    match t {
        DebuggerType::LLDB => "lldb"@,
        DebuggerType::Node => "node"@,
        DebuggerType::Python => "python3"@,
    }
}

/// The debugger to run and its command: the type given, else the one
/// guessed from the program, else the one the command names; the command
/// given, else the type's usual one. Where none can be found, the message
/// that says why.
pub open spec fn spec_debugger_info(
    debugger_cmd: Option<Seq<char>>,
    debugger_type: Option<Seq<char>>,
    run: Seq<char>,
    is_text: bool,
    is_binary: bool,
) -> Result<(DebuggerType, Seq<char>), Seq<char>> {
    let t = match debugger_type {
        Some(s) => match type_named(s) {
            Some(t) => Ok(t),
            None => Err("Couldn't understand debugger type "@ + s),
        },
        None => match guessed_type(run, is_text, is_binary) {
            Some(t) => Ok(t),
            None => match debugger_cmd {
                Some(c) => match type_of_command(c) {
                    Some(t) => Ok(t),
                    None => Err("Can't find debugger type for "@ + c + ", try specifying with -d or -t"@),
                },
                None => Err("Can't find debugger type, try specifying with -d or -t"@),
            },
        },
    };
    match t {
        Ok(t) => Ok((t, match debugger_cmd { Some(c) => c, None => default_command(t) })),
        Err(m) => Err(m),
    }
}

/// With no type given and a program that suggests none (no text file ending
/// in `.js` or `.py`, no binary), the debugger's command decides: `lldb`
/// runs LLDB, `python` or `python3` runs PDB, `node` runs Node, each with
/// that command.
pub proof fn lemma_command_names_debugger(c: Seq<char>, run: Seq<char>, is_text: bool, is_binary: bool)
    requires
        !(is_text && ends_with(run, ".js"@)),
        !(is_text && ends_with(run, ".py"@)),
        !is_binary,
    ensures
        c == "lldb"@ ==> spec_debugger_info(Some(c), None, run, is_text, is_binary)
            == Ok::<(DebuggerType, Seq<char>), Seq<char>>((DebuggerType::LLDB, c)),
        c == "python"@ || c == "python3"@ ==> spec_debugger_info(Some(c), None, run, is_text, is_binary)
            == Ok::<(DebuggerType, Seq<char>), Seq<char>>((DebuggerType::Python, c)),
        c == "node"@ ==> spec_debugger_info(Some(c), None, run, is_text, is_binary)
            == Ok::<(DebuggerType, Seq<char>), Seq<char>>((DebuggerType::Node, c)),
{
    reveal_strlit("lldb");
    reveal_strlit("python");
    reveal_strlit("python3");
    reveal_strlit("node");
    assert("lldb"@[0] == 'l' && "python"@[0] == 'p' && "python3"@[0] == 'p' && "node"@[0] == 'n');
    assert("python"@.len() != "python3"@.len());
}

/// The model of an optional string slice.
pub open spec fn opt_str(o: Option<&str>) -> Option<Seq<char>> {
    match o {
        Some(s) => Some(s@),
        None => None,
    }
}

/// The debugger to run for the program `run_cmd0`, of which the caller
/// found out whether it is a text file and whether it is a binary; see
/// `spec_debugger_info`.
pub fn get_debugger_info(
    debugger_cmd: Option<&str>,
    debugger_type: Option<&str>,
    run_cmd0: &str,
    is_text: bool,
    is_binary: bool,
) -> (r: Result<(DebuggerType, String), String>)
    ensures
        match r {
            Ok((t, c)) => spec_debugger_info(opt_str(debugger_cmd), opt_str(debugger_type), run_cmd0@, is_text, is_binary)
                == Ok::<(DebuggerType, Seq<char>), Seq<char>>((t, c@)),
            Err(m) => spec_debugger_info(opt_str(debugger_cmd), opt_str(debugger_type), run_cmd0@, is_text, is_binary)
                == Err::<(DebuggerType, Seq<char>), Seq<char>>(m@),
        },
{
    let t = match debugger_type {
        Some(s) => {
            let l = to_ascii_lowercase(s);
            if str_eq(l.as_str(), "lldb") {
                DebuggerType::LLDB
            } else if str_eq(l.as_str(), "python") {
                DebuggerType::Python
            } else if str_eq(l.as_str(), "node") {
                DebuggerType::Node
            } else {
                let mut m = String::from_str("Couldn't understand debugger type ");
                m.append(s);
                return Err(m);
            }
        },
        None => if is_text && text_ends_with(run_cmd0, ".js") {
            DebuggerType::Node
        } else if is_text && text_ends_with(run_cmd0, ".py") {
            DebuggerType::Python
        } else if is_binary {
            DebuggerType::LLDB
        } else {
            match debugger_cmd {
                Some(c) => if str_eq(c, "lldb") {
                    DebuggerType::LLDB
                } else if str_eq(c, "python") || str_eq(c, "python3") {
                    DebuggerType::Python
                } else if str_eq(c, "node") {
                    DebuggerType::Node
                } else {
                    let mut m = String::from_str("Can't find debugger type for ");
                    m.append(c);
                    m.append(", try specifying with -d or -t");
                    return Err(m);
                },
                None => return Err(String::from_str("Can't find debugger type, try specifying with -d or -t")),
            }
        },
    };
    let cmd = match debugger_cmd {
        Some(c) => String::from_str(c),
        None => match t {
            DebuggerType::LLDB => String::from_str("lldb"),
            DebuggerType::Node => String::from_str("node"),
            DebuggerType::Python => String::from_str("python3"),
        },
    };
    Ok((t, cmd))
}

/// The error for a debugger or program that does not exist at `path`.
pub open spec fn spawn_error(path: Seq<char>) -> ErrorView {
    ErrorView {
        kind: PadreErrorKind::ProcessSpawnError,
        msg: "Can't spawn, debugger doesn't exist"@,
        debug: "Can't spawn debugger as "@ + path + " does not exist"@,
    }
}

/// The texts of a list of strings.
pub open spec fn texts(v: Seq<String>) -> Seq<Seq<char>> {
    v.map_values(|s: String| s@)
}

/// The error for a debugger or program that does not exist at `path`.
pub fn missing_file_error(path: &str) -> (r: PadreError)
    ensures
        r@ == spawn_error(path@),
{
    let mut debug = String::from_str("Can't spawn debugger as ");
    debug.append(path);
    debug.append(" does not exist");
    PadreError::with_kind(PadreErrorKind::ProcessSpawnError, String::from_str("Can't spawn, debugger doesn't exist"), debug)
}

/// The arguments that start `debugger_cmd` on `run_cmd`, of whose first
/// words the caller found out that they exist (the debugger's looked up on
/// the `PATH` where need be): the debugger's words, `--` and the program's.
/// Spawning panics where either is missing, so nothing is spawned then: the
/// caller stops first, with `missing_file_error`.
pub fn spawn_args(debugger_cmd: Vec<String>, run_cmd: Vec<String>, debugger_exists: bool, run_exists: bool) -> (r: Vec<String>)
    requires
        debugger_cmd@.len() > 0,
        run_cmd@.len() > 0,
        debugger_exists,
        run_exists,
    ensures
        texts(r@) == texts(debugger_cmd@) + seq!["--"@] + texts(run_cmd@),
{
    let ghost d0 = debugger_cmd@;
    let ghost r0 = run_cmd@;
    let mut args = debugger_cmd;
    args.push(String::from_str("--"));
    let mut run = run_cmd;
    args.append(&mut run);
    assert(texts(args@) =~= texts(d0) + seq!["--"@] + texts(r0));
    args
}

} // verus!
