//! How PADRE starts Python under PDB: the arguments that it hands to the
//! interpreter for the command the user wants to debug.

use vstd::prelude::*;
use crate::text::str_eq;
use crate::error::{PadreError, PadreErrorKind, ErrorView};

verus! {

/// The last component of the path `p`, as `std::path::Path::file_name`
/// finds it; `None` where the path ends in `..` or is a root.
pub uninterp spec fn path_file_name(p: Seq<char>) -> Option<Seq<char>>;

/// `Path::new(p).file_name()`, as text. Named by `path_file_name`.
#[verifier::external_body]
fn file_name(p: &str) -> (r: Option<String>)
    ensures
        match r {
            Some(s) => path_file_name(p@) == Some(s@),
            None => path_file_name(p@) is None,
        },
{
    std::path::Path::new(p).file_name().map(|s| s.to_string_lossy().to_string())
}

/// The name under which the interpreter `debugger_cmd` may start the run
/// command: the last component of its path, or the whole of it where it has
/// none.
pub open spec fn debugger_name(debugger_cmd: Seq<char>) -> Seq<char> {
    match path_file_name(debugger_cmd) {
        Some(s) => s,
        None => debugger_cmd,
    }
}

/// The texts of a list of string slices.
pub open spec fn strs_view(v: Seq<&str>) -> Seq<Seq<char>> {
    v.map_values(|s: &str| s@)
}

/// The state after reading the first `n` words of the run command `run`:
/// whether the words now go to the script, the interpreter's arguments so
/// far, and the script's.
///
/// The first word is dropped where it names the interpreter, and what
/// follows it then goes to the interpreter until a `--`; otherwise every
/// word goes to the script. A `--` is never passed on.
pub open spec fn args_after(name: Seq<char>, run: Seq<Seq<char>>, n: int) -> (bool, Seq<Seq<char>>, Seq<Seq<char>>)
    decreases n,
{
    if n <= 0 {
        (true, seq!["-m"@, "pdb"@], seq![])
    } else {
        let (is_script, py, script) = args_after(name, run, n - 1);
        let arg = run[n - 1];
        if n - 1 == 0 && name == arg {
            (false, py, script)
        } else if arg == "--"@ {
            (true, py, script)
        } else if n - 1 == 0 || is_script {
            (true, py, script.push(arg))
        } else {
            (false, py.push(arg), script)
        }
    }
}

/// The arguments for Python: `-m pdb`, the interpreter's own arguments,
/// then `--` and the script with its arguments where there is one.
pub open spec fn spec_python_args(debugger_cmd: Seq<char>, run: Seq<Seq<char>>) -> Seq<Seq<char>> {
    let (_, py, script) = args_after(debugger_name(debugger_cmd), run, run.len() as int);
    if script.len() > 0 {
        py + seq!["--"@] + script
    } else {
        py
    }
}

/// The error for an interpreter that is not found at `path`.
pub open spec fn debugger_missing_error(path: Seq<char>) -> ErrorView {
    ErrorView {
        kind: PadreErrorKind::DebuggerError,
        msg: "Can't spawn debugger"@,
        debug: "Can't spawn debugger as "@ + path + " does not exist"@,
    }
}

/// The error for an interpreter that is not found at `path`.
pub fn debugger_missing(path: &str) -> (r: PadreError)
    ensures
        r@ == debugger_missing_error(path@),
{
    let mut debug = String::from_str("Can't spawn debugger as ");
    debug.append(path);
    debug.append(" does not exist");
    PadreError::with_kind(PadreErrorKind::DebuggerError, String::from_str("Can't spawn debugger"), debug)
}

/// The arguments to start `run_cmd` under PDB with the interpreter
/// `debugger_cmd`; see `spec_python_args`. Whether the interpreter exists is
/// for the caller to find out first.
pub fn get_python_args<'a>(debugger_cmd: &str, run_cmd: Vec<&'a str>) -> (r: Result<Vec<&'a str>, PadreError>)
    ensures
        r matches Ok(args) && strs_view(args@) == spec_python_args(debugger_cmd@, strs_view(run_cmd@)),
{
    let ghost run = strs_view(run_cmd@);
    let name = match file_name(debugger_cmd) {
        Some(s) => s,
        None => String::from_str(debugger_cmd),
    };
    let mut python_args: Vec<&'a str> = vec!["-m", "pdb"];
    let mut script_args: Vec<&'a str> = Vec::new();
    let mut is_script_arg = true;
    proof {
        reveal_strlit("-m");
        reveal_strlit("pdb");
        assert(strs_view(python_args@) =~= seq!["-m"@, "pdb"@]);
        assert(strs_view(script_args@) =~= Seq::<Seq<char>>::empty());
    }
    let mut i: usize = 0;
    while i < run_cmd.len()
        invariant
            i <= run_cmd@.len(),
            run == strs_view(run_cmd@),
            name@ == debugger_name(debugger_cmd@),
            (is_script_arg, strs_view(python_args@), strs_view(script_args@)) == args_after(name@, run, i as int),
        decreases run_cmd@.len() - i,
    {
        let arg = run_cmd[i];
        assert(run[i as int] == arg@);
        if i == 0 && str_eq(name.as_str(), arg) {
            is_script_arg = false;
        } else if str_eq(arg, "--") {
            is_script_arg = true;
        } else if i == 0 || is_script_arg {
            is_script_arg = true;
            let ghost s0 = script_args@;
            script_args.push(arg);
            assert(strs_view(script_args@) =~= strs_view(s0).push(arg@));
        } else {
            let ghost p0 = python_args@;
            python_args.push(arg);
            assert(strs_view(python_args@) =~= strs_view(p0).push(arg@));
        }
        i = i + 1;
    }
    if script_args.len() > 0 {
        let ghost p0 = python_args@;
        let ghost s0 = script_args@;
        python_args.push("--");
        python_args.append(&mut script_args);
        proof {
            reveal_strlit("--");
            assert(strs_view(python_args@) =~= strs_view(p0) + seq!["--"@] + strs_view(s0));
        }
    }
    Ok(python_args)
}

} // verus!
