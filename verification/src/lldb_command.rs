//! What PADRE sends to LLDB for each request, and how it reads the replies
//! to the requests that wait for an answer: printing a variable and listing
//! breakpoints.

use vstd::prelude::*;
use vstd::string::*;
use crate::text::{u64_text, decimal, str_eq, chars_of, string_of, sub_chars, split, split_chars, pieces_view, parse_u64, spec_parse_u64};
use crate::json::{Json, JsonValue, lemma_members_view};
use crate::error::{PadreError, PadreErrorKind, ErrorView};
use crate::lldb::{Message, MessageView};
use crate::request::{DebuggerCmd, DebuggerCmdView, Variable, FileLocation, FileLocationView};
use crate::pattern::{is_match, regex_captures, captures, captures_view, groups_view, group, get_group, GroupsView};

verus! {

/// A Rust vector type, as LLDB prints it.
pub const RE_RUST_IS_VECTOR: &'static str = "^&*alloc::vec::Vec<(.*)>";

/// The first position at or after `from` where `s` holds `c`, or the
/// length of `s` where it holds none.
pub open spec fn first_of(s: Seq<char>, c: char, from: int) -> int
    decreases s.len() - from,
{
    if from >= s.len() {
        s.len() as int
    } else if s[from] == c {
        from
    } else {
        first_of(s, c, from + 1)
    }
}

/// Whether LLDB's reply to printing variable `name` says there is no such
/// variable, or no process.
pub open spec fn variable_not_found(out: Seq<char>, name: Seq<char>) -> bool {
    out == "error: invalid process"@ || out == "error: no variable named '"@ + name + "' found in this frame"@
}

/// Whether a character is ASCII.
pub open spec fn is_ascii_char(c: char) -> bool {
    (c as u32) < 128
}

/// Whether LLDB's reply reads as `(type) name = value`: a `(` first, the
/// first `)` at least three places before the first `=`, and ASCII text up
/// to the value, which starts two places after the `=`.
pub open spec fn variable_readable(out: Seq<char>) -> bool {
    let p = first_of(out, ')', 1);
    let q = first_of(out, '=', 1);
    &&& out.len() > 0
    &&& out[0] == '('
    &&& p + 3 <= q
    &&& q + 2 <= out.len()
    &&& forall|i: int| 0 <= i < q + 2 ==> is_ascii_char(#[trigger] out[i])
}

/// The JSON object for a printed variable: its type, value and name.
pub open spec fn variable_json(out: Seq<char>) -> Json {
    let p = first_of(out, ')', 1);
    let q = first_of(out, '=', 1);
    Json::Object(seq![
        ("type"@, Json::Str(out.subrange(1, p))),
        ("value"@, Json::Str(out.skip(q + 2))),
        ("variable"@, Json::Str(out.subrange(p + 2, q - 1))),
    ])
}

/// The error for a variable that cannot be printed.
pub open spec fn variable_not_found_error(name: Seq<char>) -> ErrorView {
    ErrorView {
        kind: PadreErrorKind::DebuggerError,
        msg: "Variable not found"@,
        debug: "Variable '"@ + name + "' not found"@,
    }
}

/// `first_of` lies between `from` and the length.
pub proof fn lemma_first_of_bounds(s: Seq<char>, c: char, from: int)
    requires
        0 <= from <= s.len(),
    ensures
        from <= first_of(s, c, from) <= s.len(),
    decreases s.len() - from,
{
    if from < s.len() && s[from] != c {
        lemma_first_of_bounds(s, c, from + 1);
    }
}

/// The position of the first `c` in `s` at or after `from`.
fn find_char(s: &[char], c: char, from: usize) -> (r: usize)
    requires
        from <= s@.len(),
    ensures
        r == first_of(s@, c, from as int),
{
    let mut i = from;
    while i < s.len()
        invariant
            from <= i <= s@.len(),
            first_of(s@, c, from as int) == first_of(s@, c, i as int),
        decreases s@.len() - i,
    {
        if s[i] == c {
            return i;
        }
        i = i + 1;
    }
    i
}

/// Reads LLDB's reply to printing `variable`: an error where LLDB found no
/// such variable or no process, else the variable's type, value and name.
pub fn get_variable_info(output: &str, variable: &Variable) -> (r: Result<JsonValue, PadreError>)
    requires
        variable_not_found(output@, variable@) || variable_readable(output@),
    ensures
        variable_not_found(output@, variable@) ==> (r matches Err(e) && e@ == variable_not_found_error(variable@)),
        !variable_not_found(output@, variable@) ==> (r matches Ok(v) && v@ == variable_json(output@)),
{
    let mut no_var = String::from_str("error: no variable named '");
    no_var.append(variable.name());
    no_var.append("' found in this frame");
    if str_eq(output, "error: invalid process") || str_eq(output, no_var.as_str()) {
        let mut debug = String::from_str("Variable '");
        debug.append(variable.name());
        debug.append("' not found");
        return Err(PadreError::with_kind(
            PadreErrorKind::DebuggerError,
            String::from_str("Variable not found"),
            debug,
        ));
    }
    let s = chars_of(output);
    assert(!variable_not_found(output@, variable@));
    assert(variable_readable(s@));
    let p = find_char(s.as_slice(), ')', 1);
    let q = find_char(s.as_slice(), '=', 1);
    proof { lemma_first_of_bounds(s@, ')', 1); }
    assert(q + 2 <= s@.len());
    assert(s@.len() == s.len());
    let type_ = string_of(sub_chars(s.as_slice(), 1, p).as_slice());
    let value = string_of(sub_chars(s.as_slice(), q + 2, s.len()).as_slice());
    let name = string_of(sub_chars(s.as_slice(), p + 2, q - 1).as_slice());
    let members = vec![
        (String::from_str("type"), JsonValue::Str(type_)),
        (String::from_str("value"), JsonValue::Str(value)),
        (String::from_str("variable"), JsonValue::Str(name)),
    ];
    let ghost mv = members@;
    let r = JsonValue::Object(members);
    proof {
        lemma_members_view(mv);
        assert(s@.subrange(q + 2, s@.len() as int) == s@.skip(q + 2));
        let e = crate::json::entries_view(mv);
        assert(e.len() == 3);
        assert(e[0] == ("type"@, Json::Str(s@.subrange(1, p as int))));
        assert(e[1] == ("value"@, Json::Str(s@.skip(q + 2))));
        assert(e[2] == ("variable"@, Json::Str(s@.subrange(p + 2, q - 1))));
        assert(r@ == Json::Object(e));
        assert(e =~= seq![
            ("type"@, Json::Str(s@.subrange(1, p as int))),
            ("value"@, Json::Str(s@.skip(q + 2))),
            ("variable"@, Json::Str(s@.subrange(p + 2, q - 1))),
        ]);
    }
    Ok(r)
}

/// `s` without the characters of `set` at its front.
pub open spec fn trim_start(s: Seq<char>, set: Seq<char>) -> Seq<char>
    decreases s.len(),
{
    if s.len() > 0 && set.contains(s[0]) {
        trim_start(s.drop_first(), set)
    } else {
        s
    }
}

/// The value LLDB printed for a variable of type `variable_type`: a Rust
/// vector's value loses the `vec!` in front.
pub open spec fn spec_variable_value(variable_type: Seq<char>, value: Seq<char>) -> Seq<char> {
    if regex_captures(RE_RUST_IS_VECTOR@, variable_type).len() > 0 {
        trim_start(value, seq!['v', 'e', 'c', '!'])
    } else {
        value
    }
}

/// Whether a variable of type `variable_type` is a Rust vector.
pub fn get_variable_is_vector(variable_type: &str) -> (r: bool)
    ensures
        r == (regex_captures(RE_RUST_IS_VECTOR@, variable_type@).len() > 0),
{
    is_match(RE_RUST_IS_VECTOR, variable_type)
}

/// The value LLDB printed for variable `variable_name` of type
/// `variable_type` in `data`, ready to show.
pub fn get_variable_value(data: &str, variable_type: &str, variable_name: &str, value: &str) -> (r: String)
    ensures
        r@ == spec_variable_value(variable_type@, value@),
{
    if get_variable_is_vector(variable_type) {
        let s = chars_of(value);
        let set: Vec<char> = vec!['v', 'e', 'c', '!'];
        let mut i: usize = 0;
        assert(s@.skip(0) == s@);
        while i < s.len() && (s[i] == 'v' || s[i] == 'e' || s[i] == 'c' || s[i] == '!')
            invariant
                i <= s@.len(),
                set@ == seq!['v', 'e', 'c', '!'],
                trim_start(s@, set@) == trim_start(s@.skip(i as int), set@),
            decreases s@.len() - i,
        {
            assert(set@.contains(s@[i as int])) by {
                if s@[i as int] == 'v' { assert(set@[0] == 'v'); }
                else if s@[i as int] == 'e' { assert(set@[1] == 'e'); }
                else if s@[i as int] == 'c' { assert(set@[2] == 'c'); }
                else { assert(set@[3] == '!'); }
            }
            assert(s@.skip(i as int).drop_first() == s@.skip(i + 1));
            i = i + 1;
        }
        proof {
            if i < s@.len() {
                assert(!set@.contains(s@.skip(i as int)[0]));
            }
        }
        string_of(sub_chars(s.as_slice(), i, s.len()).as_slice())
    } else {
        String::from_str(value)
    }
}

/// A breakpoint as `breakpoint list` shows it: its number, file and line.
pub const RE_BREAKPOINT_LISTED: &'static str = "(\\d+): file = '(.*)', line = (\\d+), exact_match = 0, locations = 1$";

/// The listed breakpoints found in `lines`, line after line.
pub open spec fn listed_matches(lines: Seq<Seq<char>>) -> Seq<GroupsView>
    decreases lines.len(),
{
    if lines.len() == 0 {
        seq![]
    } else {
        listed_matches(lines.drop_last()) + regex_captures(RE_BREAKPOINT_LISTED@, lines.last())
    }
}

/// The listed breakpoints in LLDB's reply `out` to `breakpoint list`.
pub open spec fn listed_in(out: Seq<char>) -> Seq<GroupsView> {
    listed_matches(split(out, "\r\n"@))
}

/// `s.parse::<u32>()`: a `u64` that fits in a `u32`.
pub open spec fn spec_parse_u32(s: Seq<char>) -> Option<u32> {
    match spec_parse_u64(s) {
        Some(n) => if n <= u32::MAX { Some(n as u32) } else { None },
        None => None,
    }
}

/// A listed breakpoint's number, file and line, where they read as such.
pub open spec fn listed_breakpoint(g: GroupsView) -> Option<(u32, Seq<char>, u64)> {
    match (group(g, 1), group(g, 2), group(g, 3)) {
        (Some(n), Some(f), Some(l)) => match (spec_parse_u32(n), spec_parse_u64(l)) {
            (Some(n), Some(l)) => Some((n, f, l)),
            _ => None,
        },
        _ => None,
    }
}

/// Whether every match reads as a listed breakpoint.
pub open spec fn all_listed(c: Seq<GroupsView>) -> bool {
    forall|i: int| 0 <= i < c.len() ==> (#[trigger] listed_breakpoint(c[i])) is Some
}

/// The numbers of the listed breakpoints `c` that are set at `fl`, in order.
pub open spec fn breakpoints_at(c: Seq<GroupsView>, fl: FileLocationView) -> Seq<u32>
    decreases c.len(),
{
    if c.len() == 0 {
        seq![]
    } else {
        breakpoints_at(c.drop_last(), fl) + match listed_breakpoint(c.last()) {
            Some((n, f, l)) => if f == fl.name && l == fl.line_num { seq![n] } else { seq![] },
            None => seq![],
        }
    }
}

/// `s.parse::<u32>().ok()`.
pub fn parse_u32(s: &str) -> (r: Option<u32>)
    ensures
        r == spec_parse_u32(s@),
{
    match parse_u64(s) {
        Some(n) => if n <= 0xffff_ffffu64 { Some(n as u32) } else { None },
        None => None,
    }
}

/// A listed breakpoint's number, file and line.
fn listed(g: &Vec<Option<String>>) -> (r: Option<(u32, String, u64)>)
    ensures
        match r {
            Some((n, f, l)) => listed_breakpoint(groups_view(g@)) == Some((n, f@, l)),
            None => listed_breakpoint(groups_view(g@)) is None,
        },
{
    match (get_group(g, 1), get_group(g, 2), get_group(g, 3)) {
        (Some(n), Some(f), Some(l)) => match (parse_u32(n.as_str()), parse_u64(l.as_str())) {
            (Some(n), Some(l)) => Some((n, f, l)),
            _ => None,
        },
        _ => None,
    }
}

/// The listed breakpoints in LLDB's reply `output` to `breakpoint list`.
fn listed_captures(output: &str) -> (r: Vec<Vec<Option<String>>>)
    ensures
        captures_view(r@) == listed_in(output@),
{
    let chars = chars_of(output);
    let sep: Vec<char> = vec!['\r', '\n'];
    assert(sep@ == "\r\n"@) by {
        reveal_strlit("\r\n");
    }
    let lines = split_chars(chars.as_slice(), sep.as_slice());
    let ghost lv = pieces_view(lines@);
    let mut r: Vec<Vec<Option<String>>> = Vec::new();
    let mut i: usize = 0;
    while i < lines.len()
        invariant
            i <= lines@.len(),
            lv == pieces_view(lines@),
            lv == split(output@, "\r\n"@),
            captures_view(r@) == listed_matches(lv.take(i as int)),
        decreases lines@.len() - i,
    {
        let line = string_of(lines[i].as_slice());
        assert(lv.take(i + 1).drop_last() == lv.take(i as int));
        assert(lv[i as int] == lines@[i as int]@);
        let mut c = captures(RE_BREAKPOINT_LISTED, line.as_str());
        let ghost r0 = r@;
        let ghost c0 = c@;
        r.append(&mut c);
        assert(captures_view(r@) =~= captures_view(r0) + captures_view(c0));
        i = i + 1;
    }
    assert(lv.take(lines@.len() as int) == lv);
    r
}

/// The numbers of the breakpoints set at `fl`, from LLDB's reply `output`
/// to `breakpoint list`, in the order listed.
pub fn get_breakpoints_set_at(output: &str, fl: &FileLocation) -> (r: Vec<u32>)
    requires
        all_listed(listed_in(output@)),
    ensures
        r@ == breakpoints_at(listed_in(output@), fl@),
{
    let c = listed_captures(output);
    let ghost cv = captures_view(c@);
    let mut r: Vec<u32> = Vec::new();
    let mut i: usize = 0;
    while i < c.len()
        invariant
            i <= c@.len(),
            cv == captures_view(c@),
            cv == listed_in(output@),
            all_listed(cv),
            r@ == breakpoints_at(cv.take(i as int), fl@),
        decreases c@.len() - i,
    {
        assert(cv.take(i + 1).drop_last() == cv.take(i as int));
        assert(cv[i as int] == groups_view(c@[i as int]@));
        assert(listed_breakpoint(cv[i as int]) is Some);
        match listed(&c[i]) {
            Some((n, f, l)) => {
                if str_eq(f.as_str(), fl.name()) && l == fl.line_num() {
                    r.push(n);
                }
            },
            None => {},
        }
        i = i + 1;
    }
    assert(cv.take(c@.len() as int) == cv);
    r
}

/// The numbers of the breakpoints set at `fl`, as `get_breakpoints_set_at`
/// gives them, or `None` where a listed breakpoint's number or line does not
/// read as one.
pub fn breakpoints_set_at(output: &str, fl: &FileLocation) -> (r: Option<Vec<u32>>)
    ensures
        match r {
            Some(v) => all_listed(listed_in(output@)) && v@ == breakpoints_at(listed_in(output@), fl@),
            None => !all_listed(listed_in(output@)),
        },
{
    let c = listed_captures(output);
    let ghost cv = captures_view(c@);
    let mut i: usize = 0;
    while i < c.len()
        invariant
            i <= c@.len(),
            cv == captures_view(c@),
            cv == listed_in(output@),
            forall|j: int| 0 <= j < i ==> (#[trigger] listed_breakpoint(cv[j])) is Some,
        decreases c@.len() - i,
    {
        assert(cv[i as int] == groups_view(c@[i as int]@));
        if listed(&c[i]).is_none() {
            return None;
        }
        i = i + 1;
    }
    Some(get_breakpoints_set_at(output, fl))
}

/// The commands that set LLDB up for PADRE, in the order sent.
pub open spec fn setup_commands_view() -> Seq<Seq<char>> {
    seq![
        "settings set stop-line-count-after 0"@,
        "settings set stop-line-count-before 0"@,
        "settings set frame-format frame #${frame.index}{ at ${line.file.fullpath}:${line.number}}\\n"@,
        "breakpoint set --name main"@,
    ]
}

/// The commands that set LLDB up for PADRE, in the order sent.
pub fn setup_commands() -> (r: Vec<String>)
    ensures
        r@.len() == 4,
        forall|i: int| 0 <= i < 4 ==> #[trigger] r@[i]@ == setup_commands_view()[i],
{
    vec![
        String::from_str("settings set stop-line-count-after 0"),
        String::from_str("settings set stop-line-count-before 0"),
        String::from_str("settings set frame-format frame #${frame.index}{ at ${line.file.fullpath}:${line.number}}\\n"),
        String::from_str("breakpoint set --name main"),
    ]
}

/// The command sent to LLDB for a message; for removing a breakpoint, the
/// first of them. Nothing is sent for LLDB's setup or for what the user
/// typed.
pub open spec fn spec_command_for(m: MessageView) -> Option<Seq<char>> {
    match m {
        MessageView::ProcessLaunching => Some("process launch"@),
        MessageView::Breakpoint(fl) => Some(
            "breakpoint set --file "@ + fl.name + " --line "@ + decimal(fl.line_num as nat),
        ),
        MessageView::Unbreakpoint(_) => Some("breakpoint list"@),
        MessageView::StepIn(_) => Some("thread step-in"@),
        MessageView::StepOver(_) => Some("thread step-over"@),
        MessageView::Continue => Some("thread continue"@),
        MessageView::PrintVariable(v) => Some("frame variable "@ + v),
        MessageView::LLDBSetup | MessageView::Custom => None,
    }
}

/// The command sent to LLDB for a message; see `spec_command_for`.
pub fn command_for(m: &Message) -> (r: Option<String>)
    ensures
        match r {
            Some(c) => spec_command_for(m@) == Some(c@),
            None => spec_command_for(m@) is None,
        },
{
    match m {
        Message::ProcessLaunching => Some(String::from_str("process launch")),
        Message::Breakpoint(fl) => {
            let mut c = String::from_str("breakpoint set --file ");
            c.append(fl.name());
            c.append(" --line ");
            let n = u64_text(fl.line_num());
            c.append(n.as_str());
            Some(c)
        },
        Message::Unbreakpoint(_) => Some(String::from_str("breakpoint list")),
        Message::StepIn(_) => Some(String::from_str("thread step-in")),
        Message::StepOver(_) => Some(String::from_str("thread step-over")),
        Message::Continue => Some(String::from_str("thread continue")),
        Message::PrintVariable(v) => {
            let mut c = String::from_str("frame variable ");
            c.append(v.name());
            Some(c)
        },
        Message::LLDBSetup | Message::Custom => None,
    }
}

/// The command that deletes breakpoint `n`.
pub fn delete_command(n: u32) -> (r: String)
    ensures
        r@ == "breakpoint delete "@ + decimal(n as nat),
{
    let mut c = String::from_str("breakpoint delete ");
    let t = u64_text(n as u64);
    c.append(t.as_str());
    c
}

/// What is logged once the breakpoints at `fl` are removed.
pub fn removed_breakpoint_message(fl: &FileLocation) -> (r: String)
    ensures
        r@ == "Removed breakpoint in file "@ + fl@.name + " and line number "@ + decimal(fl@.line_num as nat),
{
    let mut c = String::from_str("Removed breakpoint in file ");
    c.append(fl.name());
    c.append(" and line number ");
    let t = u64_text(fl.line_num());
    c.append(t.as_str());
    c
}

/// The error for launching while process `pid` runs.
pub open spec fn already_running_error(pid: Seq<char>) -> ErrorView {
    ErrorView {
        kind: PadreErrorKind::DebuggerError,
        msg: "Process already running"@,
        debug: "Process with pid '"@ + pid + "' already running"@,
    }
}

/// Whether a process can be launched: not while one runs.
pub fn check_can_launch(pid: &Option<String>) -> (r: Result<(), PadreError>)
    ensures
        match pid {
            Some(p) => r matches Err(e) && e@ == already_running_error(p@),
            None => r is Ok,
        },
{
    match pid {
        Some(p) => {
            let mut debug = String::from_str("Process with pid '");
            debug.append(p.as_str());
            debug.append("' already running");
            Err(PadreError::with_kind(PadreErrorKind::DebuggerError, String::from_str("Process already running"), debug))
        },
        None => Ok(()),
    }
}

/// Whether the position is reported after step `i` of `count`: only after
/// the last.
pub fn step_reports_location(i: u64, count: u64) -> (r: bool)
    ensures
        r == (i + 1 == count),
{
    count > 0 && i == count - 1
}

/// The message to LLDB that carries out a command.
pub open spec fn spec_message_for(cmd: DebuggerCmdView) -> MessageView {
    match cmd {
        DebuggerCmdView::Run => MessageView::ProcessLaunching,
        DebuggerCmdView::Breakpoint(fl) => MessageView::Breakpoint(fl),
        DebuggerCmdView::Unbreakpoint(fl) => MessageView::Unbreakpoint(fl),
        DebuggerCmdView::StepIn(n) => MessageView::StepIn(n),
        DebuggerCmdView::StepOver(n) => MessageView::StepOver(n),
        DebuggerCmdView::Continue => MessageView::Continue,
        DebuggerCmdView::Print(v) => MessageView::PrintVariable(v),
    }
}

/// The message to LLDB that carries out a command.
pub fn message_for(cmd: DebuggerCmd) -> (r: Message)
    ensures
        r@ == spec_message_for(cmd@),
{
    match cmd {
        DebuggerCmd::Run => Message::ProcessLaunching,
        DebuggerCmd::Breakpoint(fl) => Message::Breakpoint(fl),
        DebuggerCmd::Unbreakpoint(fl) => Message::Unbreakpoint(fl),
        DebuggerCmd::StepIn(n) => Message::StepIn(n),
        DebuggerCmd::StepOver(n) => Message::StepOver(n),
        DebuggerCmd::Continue => Message::Continue,
        DebuggerCmd::Print(v) => Message::PrintVariable(v),
    }
}

/// Stepping in `n` times goes to LLDB as `n` steps in, each sent as
/// `thread step-in`, and stepping over as `n` steps over, each sent as
/// `thread step-over`; the two are never sent alike.
pub proof fn lemma_steps_sent_as_asked(n: u64, m: u64)
    ensures
        spec_message_for(DebuggerCmdView::StepIn(n)) == MessageView::StepIn(n),
        spec_message_for(DebuggerCmdView::StepOver(n)) == MessageView::StepOver(n),
        spec_command_for(spec_message_for(DebuggerCmdView::StepIn(n))) == Some("thread step-in"@),
        spec_command_for(spec_message_for(DebuggerCmdView::StepOver(n))) == Some("thread step-over"@),
        spec_command_for(spec_message_for(DebuggerCmdView::StepIn(n)))
            != spec_command_for(spec_message_for(DebuggerCmdView::StepOver(m))),
{
    reveal_strlit("thread step-in");
    reveal_strlit("thread step-over");
    assert("thread step-in"@.len() != "thread step-over"@.len());
}

/// The error for a command that LLDB did not carry out in time, `waited`
/// being how long it was waited for; stepping and continuing are answered
/// at once and never time out.
pub open spec fn spec_timeout_error(cmd: DebuggerCmdView, waited: Seq<char>) -> Option<ErrorView> {
    let e = |msg: Seq<char>, debug: Seq<char>| ErrorView { kind: PadreErrorKind::DebuggerError, msg, debug: debug + waited };
    match cmd {
        DebuggerCmdView::Run => Some(e("Timed out spawning process"@, "Process spawning timed out after "@)),
        DebuggerCmdView::Breakpoint(_) => Some(e("Timed out setting breakpoint"@, "Breakpoint setting timed out after "@)),
        DebuggerCmdView::Unbreakpoint(_) => Some(e("Timed out removing breakpoint"@, "Breakpoint removing timed out after "@)),
        DebuggerCmdView::Print(_) => Some(e("Timed out printing variable"@, "Printing variable timed out after "@)),
        _ => None,
    }
}

/// The error for a command that LLDB did not carry out in time; see
/// `spec_timeout_error`.
pub fn timeout_error(cmd: &DebuggerCmd, waited: &str) -> (r: Option<PadreError>)
    ensures
        match r {
            Some(e) => spec_timeout_error(cmd@, waited@) == Some(e@),
            None => spec_timeout_error(cmd@, waited@) is None,
        },
{
    let (msg, debug) = match cmd {
        DebuggerCmd::Run => ("Timed out spawning process", "Process spawning timed out after "),
        DebuggerCmd::Breakpoint(_) => ("Timed out setting breakpoint", "Breakpoint setting timed out after "),
        DebuggerCmd::Unbreakpoint(_) => ("Timed out removing breakpoint", "Breakpoint removing timed out after "),
        DebuggerCmd::Print(_) => ("Timed out printing variable", "Printing variable timed out after "),
        _ => return None,
    };
    let mut d = String::from_str(debug);
    d.append(waited);
    Some(PadreError::with_kind(PadreErrorKind::DebuggerError, String::from_str(msg), d))
}

/// A message about a line of a file: `before`, the file, `between` and
/// the line number.
pub fn file_line_message(before: &str, file: &str, between: &str, line: u64) -> (r: String)
    ensures
        r@ == before@ + file@ + between@ + decimal(line as nat),
{
    let mut m = String::from_str(before);
    m.append(file);
    m.append(between);
    let t = u64_text(line);
    m.append(t.as_str());
    m
}

/// Whether the characters of `s` before position `n` are ASCII.
fn ascii_prefix(s: &[char], n: usize) -> (r: bool)
    requires
        n <= s@.len(),
    ensures
        r == forall|i: int| 0 <= i < n ==> is_ascii_char(#[trigger] s@[i]),
{
    let mut i: usize = 0;
    while i < n
        invariant
            i <= n <= s@.len(),
            forall|k: int| 0 <= k < i ==> is_ascii_char(#[trigger] s@[k]),
        decreases n - i,
    {
        if (s[i] as u32) >= 128 {
            return false;
        }
        i = i + 1;
    }
    true
}

/// Reads LLDB's reply to printing `variable` as `get_variable_info` does,
/// where the reply can be read: `None` where it neither reports a missing
/// variable nor reads as `(type) name = value`.
pub fn read_variable_info(output: &str, variable: &Variable) -> (r: Option<Result<JsonValue, PadreError>>)
    ensures
        match r {
            Some(x) => (variable_not_found(output@, variable@) || variable_readable(output@))
                && (variable_not_found(output@, variable@) ==> (x matches Err(e) && e@ == variable_not_found_error(variable@)))
                && (!variable_not_found(output@, variable@) ==> (x matches Ok(v) && v@ == variable_json(output@))),
            None => !variable_not_found(output@, variable@) && !variable_readable(output@),
        },
{
    let mut no_var = String::from_str("error: no variable named '");
    no_var.append(variable.name());
    no_var.append("' found in this frame");
    let not_found = str_eq(output, "error: invalid process") || str_eq(output, no_var.as_str());
    if !not_found {
        let s = chars_of(output);
        if s.len() == 0 || s[0] != '(' {
            return None;
        }
        let p = find_char(s.as_slice(), ')', 1);
        let q = find_char(s.as_slice(), '=', 1);
        proof {
            lemma_first_of_bounds(s@, ')', 1);
            lemma_first_of_bounds(s@, '=', 1);
        }
        if p >= q || q - p < 3 || q >= s.len() || s.len() - q < 2 {
            return None;
        }
        if !ascii_prefix(s.as_slice(), q + 2) {
            return None;
        }
        assert(variable_readable(output@));
    }
    Some(get_variable_info(output, variable))
}

} // verus!
