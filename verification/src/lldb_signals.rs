//! LLDB's output read line by line into signals for the one caller that
//! waits on LLDB: each match sets the waiting caller's slot to a status and
//! its arguments, so the last signal of a chunk is what the caller finds.

use vstd::prelude::*;
use vstd::string::*;
use crate::text::{chars_of, string_of, split, split_chars, pieces_view, parse_u64, spec_parse_u64};
use crate::pattern::{captures, captures_view, groups_view, group, get_group, regex_captures, is_match, GroupsView};
use crate::notify::{Event, EventView, LogLevel, events_view, lemma_events_view_push};
use crate::lldb_command::{get_variable_value, spec_variable_value, parse_u32, spec_parse_u32};

verus! {

/// A breakpoint resolved to a line.
pub const RE_BREAKPOINT: &'static str = "^Breakpoint (\\d+): where = \\S+`\\S+ \\+ \\d+ at (\\S+):(\\d+), address = 0x[0-9a-f]*$";
/// A breakpoint not resolved yet.
pub const RE_BREAKPOINT_PENDING: &'static str = "^Breakpoint (\\d+): no locations \\(pending\\)\\.$";
/// A breakpoint with several locations.
pub const RE_BREAKPOINT_MULTI: &'static str = "^Breakpoint (\\d+): (\\d+) locations\\.$";
/// A frame line: LLDB stopped somewhere.
pub const RE_STOPPED_AT_UNKNOWN_POSITION: &'static str = "^ *frame #\\d: \\S+`(.*)$";
/// A frame line with a file and line number.
pub const RE_JUMP_TO_POSITION: &'static str = "^ *frame #\\d: \\S+`\\S.* at (\\S+):(\\d+)$";
/// A step in finished.
pub const RE_STEP_IN: &'static str = "^\\* .* stop reason = step in$";
/// A step over finished.
pub const RE_STEP_OVER: &'static str = "^\\* .* stop reason = step over$";
/// The process resumed.
pub const RE_CONTINUE: &'static str = "^Process (\\d+) resuming$";
/// A printed variable: its type, name and value.
pub const RE_PRINTED_VARIABLE: &'static str = "^\\((.*)\\) (\\S+) = (.*)$";
/// A process was launched.
pub const RE_PROCESS_STARTED: &'static str = "^Process (\\d+) launched: '.*' \\((.*)\\)$";
/// A process exited.
pub const RE_PROCESS_EXITED: &'static str = "^Process (\\d+) exited with status = (\\d+) \\(0x[0-9a-f]*\\) *$";
/// There is no process.
pub const RE_PROCESS_NOT_RUNNING: &'static str = "^error: invalid process$";
/// LLDB found no such variable.
pub const RE_VARIABLE_NOT_FOUND: &'static str = "^error: no variable named 'a' found in this frame$";

/// A Rust pointer or reference type, whose value is printed again
/// dereferenced.
pub const RE_RUST_IS_POINTER_OR_REFERENCE: &'static str = "^&*.* \\*$";

/// Whether a variable of type `variable_type` is a pointer or a reference.
pub fn is_pointer_or_reference(variable_type: &str) -> (r: bool)
    ensures
        r == (regex_captures(RE_RUST_IS_POINTER_OR_REFERENCE@, variable_type@).len() > 0),
{
    is_match(RE_RUST_IS_POINTER_OR_REFERENCE, variable_type)
}

/// What a signal tells the waiting caller.
#[derive(Clone, Copy, Debug, PartialEq, Eq, Structural)]
pub enum LLDBStatus {
    NoProcess,
    ProcessStarted,
    Breakpoint,
    BreakpointPending,
    StepIn,
    StepOver,
    Continue,
    Variable,
    VariableNotFound,
}

/// What reading has given so far: the events for Vim and the signals, in
/// order, each a status and its arguments.
pub struct SigState {
    pub events: Seq<EventView>,
    pub signals: Seq<(LLDBStatus, Seq<Seq<char>>)>,
}

/// `e` told to Vim.
pub open spec fn tell(s: SigState, e: EventView) -> SigState {
    SigState { events: s.events.push(e), ..s }
}

/// `status` with `args` signalled to the waiting caller.
pub open spec fn signal(s: SigState, status: LLDBStatus, args: Seq<Seq<char>>) -> SigState {
    SigState { signals: s.signals.push((status, args)), ..s }
}

/// `s.parse::<u8>()`.
pub open spec fn spec_parse_u8(s: Seq<char>) -> Option<u8> {
    match spec_parse_u64(s) {
        Some(n) => if n <= 255 { Some(n as u8) } else { None },
        None => None,
    }
}

/// `s.parse::<u8>().ok()`.
fn parse_u8(s: &str) -> (r: Option<u8>)
    ensures
        r == spec_parse_u8(s@),
{
    match parse_u64(s) {
        Some(n) => if n <= 255 { Some(n as u8) } else { None },
        None => None,
    }
}

/// What a match is acted on for.
pub enum Act {
    Breakpoint,
    Pending,
    Multi,
    Stopped,
    StepIn,
    StepOver,
    Continue,
    Started,
    Exited,
    Printed,
}

/// A frame line: the first position it gives, or a warning that the
/// position is unknown; `None` where the line number does not read.
pub open spec fn stopped(line: Seq<char>, s: SigState) -> Option<SigState> {
    let j = regex_captures(RE_JUMP_TO_POSITION@, line);
    if j.len() == 0 {
        Some(tell(s, EventView::Log(LogLevel::WARN, "Stopped at unknown position"@)))
    } else {
        match (group(j[0], 1), group(j[0], 2)) {
            (Some(f), Some(l)) => match spec_parse_u32(l) {
                Some(n) => Some(tell(s, EventView::JumpToPosition(f, n as u64))),
                None => None,
            },
            _ => None,
        }
    }
}

/// What one match does, `line` being its line; `None` where a number in it
/// does not read.
pub open spec fn act(a: Act, line: Seq<char>, s: SigState, g: GroupsView) -> Option<SigState> {
    match a {
        Act::Breakpoint => match (group(g, 2), group(g, 3)) {
            (Some(f), Some(l)) => match spec_parse_u32(l) {
                Some(n) => Some(signal(tell(s, EventView::BreakpointSet(f, n as u64)), LLDBStatus::Breakpoint, seq![])),
                None => None,
            },
            _ => None,
        },
        Act::Pending => Some(signal(s, LLDBStatus::BreakpointPending, seq![])),
        Act::Multi => Some(signal(s, LLDBStatus::Breakpoint, seq![])),
        Act::Stopped => stopped(line, s),
        Act::StepIn => Some(signal(s, LLDBStatus::StepIn, seq![])),
        Act::StepOver => Some(signal(s, LLDBStatus::StepOver, seq![])),
        Act::Continue => Some(signal(s, LLDBStatus::Continue, seq![])),
        Act::Started => match group(g, 1) {
            Some(p) => Some(signal(s, LLDBStatus::ProcessStarted, seq![p])),
            None => None,
        },
        Act::Exited => match (group(g, 1), group(g, 2)) {
            (Some(p), Some(c)) => match (spec_parse_u32(p), spec_parse_u8(c)) {
                (Some(pid), Some(code)) => Some(tell(s, EventView::ProcessExited(pid as u64, code as i64))),
                _ => None,
            },
            _ => None,
        },
        Act::Printed => match (group(g, 1), group(g, 2), group(g, 3)) {
            (Some(t), Some(n), Some(v)) => Some(signal(s, LLDBStatus::Variable, seq![n, spec_variable_value(t, v), t])),
            _ => None,
        },
    }
}

/// What the matches `c` do, in order.
pub open spec fn fold(a: Act, line: Seq<char>, s: SigState, c: Seq<GroupsView>) -> Option<SigState>
    decreases c.len(),
{
    if c.len() == 0 {
        Some(s)
    } else {
        match fold(a, line, s, c.drop_last()) {
            Some(t) => act(a, line, t, c.last()),
            None => None,
        }
    }
}

/// What the matches of `pattern` in `line` do.
pub open spec fn on(pattern: Seq<char>, a: Act, line: Seq<char>, s: Option<SigState>) -> Option<SigState> {
    match s {
        Some(s) => fold(a, line, s, regex_captures(pattern, line)),
        None => None,
    }
}

/// What one line of LLDB's standard output does.
pub open spec fn stdout_line(line: Seq<char>, s: SigState) -> Option<SigState> {
    let s1 = on(RE_BREAKPOINT@, Act::Breakpoint, line, Some(s));
    let s2 = on(RE_BREAKPOINT_PENDING@, Act::Pending, line, s1);
    let s3 = on(RE_BREAKPOINT_MULTI@, Act::Multi, line, s2);
    let s4 = on(RE_STOPPED_AT_UNKNOWN_POSITION@, Act::Stopped, line, s3);
    let s5 = on(RE_STEP_IN@, Act::StepIn, line, s4);
    let s6 = on(RE_STEP_OVER@, Act::StepOver, line, s5);
    let s7 = on(RE_CONTINUE@, Act::Continue, line, s6);
    let s8 = on(RE_PROCESS_STARTED@, Act::Started, line, s7);
    let s9 = on(RE_PROCESS_EXITED@, Act::Exited, line, s8);
    on(RE_PRINTED_VARIABLE@, Act::Printed, line, s9)
}

/// What the lines of a chunk of standard output do, in order.
pub open spec fn stdout_lines(lines: Seq<Seq<char>>, s: SigState) -> Option<SigState>
    decreases lines.len(),
{
    if lines.len() == 0 {
        Some(s)
    } else {
        match stdout_lines(lines.drop_last(), s) {
            Some(t) => stdout_line(lines.last(), t),
            None => None,
        }
    }
}

/// What one line of LLDB's standard error does: no process is a warning
/// and a signal, a missing variable a signal.
pub open spec fn stderr_line(line: Seq<char>, s: SigState) -> SigState {
    let n = regex_captures(RE_PROCESS_NOT_RUNNING@, line).len();
    let m = regex_captures(RE_VARIABLE_NOT_FOUND@, line).len();
    SigState {
        events: s.events + Seq::new(n, |i: int| EventView::Log(LogLevel::WARN, "program not running"@)),
        signals: s.signals + Seq::new(n, |i: int| (LLDBStatus::NoProcess, Seq::<Seq<char>>::empty()))
            + Seq::new(m, |i: int| (LLDBStatus::VariableNotFound, Seq::<Seq<char>>::empty())),
    }
}

/// What the lines of a chunk of standard error do, in order.
pub open spec fn stderr_lines(lines: Seq<Seq<char>>, s: SigState) -> SigState
    decreases lines.len(),
{
    if lines.len() == 0 {
        s
    } else {
        stderr_line(lines.last(), stderr_lines(lines.drop_last(), s))
    }
}

/// The signal the waiting caller finds after a chunk: the last one, where
/// there is one.
pub open spec fn last_signal(s: SigState) -> Option<(LLDBStatus, Seq<Seq<char>>)> {
    if s.signals.len() == 0 { None } else { Some(s.signals.last()) }
}

/// The models of signals.
pub open spec fn signals_view(v: Seq<(LLDBStatus, Vec<String>)>) -> Seq<(LLDBStatus, Seq<Seq<char>>)> {
    v.map_values(|x: (LLDBStatus, Vec<String>)| (x.0, x.1@.map_values(|a: String| a@)))
}

/// What reading has given so far.
struct Acc {
    events: Vec<Event>,
    signals: Vec<(LLDBStatus, Vec<String>)>,
}

/// The model of what reading has given so far.
spec fn acc_view(a: Acc) -> SigState {
    SigState { events: events_view(a.events@), signals: signals_view(a.signals@) }
}

/// The model of what reading has given, where it could be read.
spec fn opt_acc(a: Option<Acc>) -> Option<SigState> {
    match a {
        Some(x) => Some(acc_view(x)),
        None => None,
    }
}

/// `e` told to Vim.
fn tell_exec(mut s: Acc, e: Event) -> (r: Acc)
    ensures
        acc_view(r) == tell(acc_view(s), e@),
{
    proof { lemma_events_view_push(s.events@, e); }
    s.events.push(e);
    s
}

/// `status` with `args` signalled.
fn signal_exec(mut s: Acc, status: LLDBStatus, args: Vec<String>) -> (r: Acc)
    ensures
        acc_view(r) == signal(acc_view(s), status, args@.map_values(|a: String| a@)),
{
    let ghost d0 = s.signals@;
    let ghost av = args@.map_values(|a: String| a@);
    s.signals.push((status, args));
    assert(signals_view(s.signals@) =~= signals_view(d0).push((status, av)));
    s
}

/// A frame line; see `stopped`.
fn stopped_exec(line: &str, s: Acc) -> (r: Option<Acc>)
    ensures
        opt_acc(r) == stopped(line@, acc_view(s)),
{
    let j = captures(RE_JUMP_TO_POSITION, line);
    proof { assert(captures_view(j@).len() == j@.len()); }
    if j.len() == 0 {
        return Some(tell_exec(s, Event::Log(LogLevel::WARN, String::from_str("Stopped at unknown position"))));
    }
    assert(captures_view(j@)[0] == groups_view(j@[0]@));
    match (get_group(&j[0], 1), get_group(&j[0], 2)) {
        (Some(f), Some(l)) => match parse_u32(l.as_str()) {
            Some(n) => Some(tell_exec(s, Event::JumpToPosition(f, n as u64))),
            None => None,
        },
        _ => None,
    }
}

/// What one match does; see `act`.
fn act_exec(a: &Act, line: &str, s: Acc, g: &Vec<Option<String>>) -> (r: Option<Acc>)
    ensures
        opt_acc(r) == act(*a, line@, acc_view(s), groups_view(g@)),
{
    match a {
        Act::Breakpoint => match (get_group(g, 2), get_group(g, 3)) {
            (Some(f), Some(l)) => match parse_u32(l.as_str()) {
                Some(n) => {
                    let s = tell_exec(s, Event::BreakpointSet(f, n as u64));
                    let args: Vec<String> = Vec::new();
                    assert(args@.map_values(|a: String| a@) =~= Seq::<Seq<char>>::empty());
                    Some(signal_exec(s, LLDBStatus::Breakpoint, args))
                },
                None => None,
            },
            _ => None,
        },
        Act::Stopped => stopped_exec(line, s),
        Act::Started => match get_group(g, 1) {
            Some(p) => {
                let ghost pv = p@;
                let args: Vec<String> = vec![p];
                assert(args@.map_values(|a: String| a@) =~= seq![pv]);
                Some(signal_exec(s, LLDBStatus::ProcessStarted, args))
            },
            None => None,
        },
        Act::Exited => match (get_group(g, 1), get_group(g, 2)) {
            (Some(p), Some(c)) => match (parse_u32(p.as_str()), parse_u8(c.as_str())) {
                (Some(pid), Some(code)) => Some(tell_exec(s, Event::ProcessExited(pid as u64, code as i64))),
                _ => None,
            },
            _ => None,
        },
        Act::Printed => match (get_group(g, 1), get_group(g, 2), get_group(g, 3)) {
            (Some(t), Some(n), Some(v)) => {
                let value = get_variable_value(line, t.as_str(), n.as_str(), v.as_str());
                let ghost (nv, valv, tv) = (n@, value@, t@);
                let args: Vec<String> = vec![n, value, t];
                assert(args@.map_values(|a: String| a@) =~= seq![nv, valv, tv]);
                Some(signal_exec(s, LLDBStatus::Variable, args))
            },
            _ => None,
        },
        _ => {
            let status = match a {
                Act::Pending => LLDBStatus::BreakpointPending,
                Act::StepIn => LLDBStatus::StepIn,
                Act::StepOver => LLDBStatus::StepOver,
                Act::Continue => LLDBStatus::Continue,
                _ => LLDBStatus::Breakpoint,
            };
            let args: Vec<String> = Vec::new();
            assert(args@.map_values(|a: String| a@) =~= Seq::<Seq<char>>::empty());
            Some(signal_exec(s, status, args))
        },
    }
}

/// What the matches of `pattern` in `line` do; see `on`.
fn on_exec(pattern: &str, a: Act, line: &str, s: Option<Acc>) -> (r: Option<Acc>)
    ensures
        opt_acc(r) == on(pattern@, a, line@, opt_acc(s)),
{
    let s = match s {
        Some(s) => s,
        None => return None,
    };
    let c = captures(pattern, line);
    let ghost cv = captures_view(c@);
    let ghost s0 = acc_view(s);
    let mut acc: Option<Acc> = Some(s);
    let mut i: usize = 0;
    while i < c.len()
        invariant
            i <= c@.len(),
            cv == captures_view(c@),
            cv == regex_captures(pattern@, line@),
            opt_acc(acc) == fold(a, line@, s0, cv.take(i as int)),
        decreases c@.len() - i,
    {
        assert(cv.take(i + 1).drop_last() == cv.take(i as int));
        assert(cv[i as int] == groups_view(c@[i as int]@));
        acc = match acc {
            Some(t) => act_exec(&a, line, t, &c[i]),
            None => None,
        };
        i = i + 1;
    }
    assert(cv.take(c@.len() as int) == cv);
    acc
}

/// What one line of standard output does; see `stdout_line`.
fn stdout_line_exec(line: &str, s: Acc) -> (r: Option<Acc>)
    ensures
        opt_acc(r) == stdout_line(line@, acc_view(s)),
{
    let s1 = on_exec(RE_BREAKPOINT, Act::Breakpoint, line, Some(s));
    let s2 = on_exec(RE_BREAKPOINT_PENDING, Act::Pending, line, s1);
    let s3 = on_exec(RE_BREAKPOINT_MULTI, Act::Multi, line, s2);
    let s4 = on_exec(RE_STOPPED_AT_UNKNOWN_POSITION, Act::Stopped, line, s3);
    let s5 = on_exec(RE_STEP_IN, Act::StepIn, line, s4);
    let s6 = on_exec(RE_STEP_OVER, Act::StepOver, line, s5);
    let s7 = on_exec(RE_CONTINUE, Act::Continue, line, s6);
    let s8 = on_exec(RE_PROCESS_STARTED, Act::Started, line, s7);
    let s9 = on_exec(RE_PROCESS_EXITED, Act::Exited, line, s8);
    on_exec(RE_PRINTED_VARIABLE, Act::Printed, line, s9)
}

/// The lines of `s`, cut at each newline.
fn lines_of(s: &str) -> (r: Vec<Vec<char>>)
    ensures
        pieces_view(r@) == split(s@, "\n"@),
{
    let chars = chars_of(s);
    let sep: Vec<char> = vec!['\n'];
    assert(sep@ == "\n"@) by {
        reveal_strlit("\n");
    }
    split_chars(chars.as_slice(), sep.as_slice())
}

/// Reads a chunk of LLDB's standard output, line by line: the events for
/// Vim and the signals for the waiting caller, in order (the caller finds
/// the last); `None` where a number in it does not read.
pub fn analyse_stdout(data: &str) -> (r: Option<(Vec<Event>, Vec<(LLDBStatus, Vec<String>)>)>)
    ensures
        match (r, stdout_lines(split(data@, "\n"@), SigState { events: seq![], signals: seq![] })) {
            (Some((e, d)), Some(t)) => events_view(e@) == t.events && signals_view(d@) == t.signals,
            (None, None) => true,
            _ => false,
        },
{
    let lines = lines_of(data);
    let ghost lv = pieces_view(lines@);
    let start = Acc { events: Vec::new(), signals: Vec::new() };
    let ghost s0 = acc_view(start);
    assert(s0.events =~= Seq::<EventView>::empty());
    assert(s0.signals =~= Seq::<(LLDBStatus, Seq<Seq<char>>)>::empty());
    let mut acc: Option<Acc> = Some(start);
    let mut i: usize = 0;
    while i < lines.len()
        invariant
            i <= lines@.len(),
            lv == pieces_view(lines@),
            opt_acc(acc) == stdout_lines(lv.take(i as int), s0),
        decreases lines@.len() - i,
    {
        assert(lv.take(i + 1).drop_last() == lv.take(i as int));
        assert(lv[i as int] == lines@[i as int]@);
        let line = string_of(lines[i].as_slice());
        acc = match acc {
            Some(t) => stdout_line_exec(line.as_str(), t),
            None => None,
        };
        i = i + 1;
    }
    assert(lv.take(lines@.len() as int) == lv);
    match acc {
        Some(t) => Some((t.events, t.signals)),
        None => None,
    }
}

/// Reads a chunk of LLDB's standard error, line by line: the events for
/// Vim and the signals for the waiting caller, in order.
pub fn analyse_stderr(data: &str) -> (r: (Vec<Event>, Vec<(LLDBStatus, Vec<String>)>))
    ensures
        ({
            let t = stderr_lines(split(data@, "\n"@), SigState { events: seq![], signals: seq![] });
            events_view(r.0@) == t.events && signals_view(r.1@) == t.signals
        }),
{
    let lines = lines_of(data);
    let ghost lv = pieces_view(lines@);
    let mut acc = Acc { events: Vec::new(), signals: Vec::new() };
    let ghost s0 = acc_view(acc);
    assert(s0.events =~= Seq::<EventView>::empty());
    assert(s0.signals =~= Seq::<(LLDBStatus, Seq<Seq<char>>)>::empty());
    let mut i: usize = 0;
    while i < lines.len()
        invariant
            i <= lines@.len(),
            lv == pieces_view(lines@),
            acc_view(acc) == stderr_lines(lv.take(i as int), s0),
        decreases lines@.len() - i,
    {
        assert(lv.take(i + 1).drop_last() == lv.take(i as int));
        assert(lv[i as int] == lines@[i as int]@);
        let line = string_of(lines[i].as_slice());
        let n = captures(RE_PROCESS_NOT_RUNNING, line.as_str()).len();
        let m = captures(RE_VARIABLE_NOT_FOUND, line.as_str()).len();
        let ghost before = acc_view(acc);
        let mut k: usize = 0;
        while k < n
            invariant
                k <= n,
                acc_view(acc).events == before.events + Seq::new(k as nat, |j: int| EventView::Log(LogLevel::WARN, "program not running"@)),
                acc_view(acc).signals == before.signals + Seq::new(k as nat, |j: int| (LLDBStatus::NoProcess, Seq::<Seq<char>>::empty())),
            decreases n - k,
        {
            let e = Event::Log(LogLevel::WARN, String::from_str("program not running"));
            let ghost ev = acc_view(acc).events;
            acc = tell_exec(acc, e);
            assert(acc_view(acc).events =~= before.events + Seq::new((k + 1) as nat, |j: int| EventView::Log(LogLevel::WARN, "program not running"@)));
            let args: Vec<String> = Vec::new();
            assert(args@.map_values(|a: String| a@) =~= Seq::<Seq<char>>::empty());
            acc = signal_exec(acc, LLDBStatus::NoProcess, args);
            assert(acc_view(acc).signals =~= before.signals + Seq::new((k + 1) as nat, |j: int| (LLDBStatus::NoProcess, Seq::<Seq<char>>::empty())));
            k = k + 1;
        }
        let ghost mid = acc_view(acc);
        let mut k: usize = 0;
        while k < m
            invariant
                k <= m,
                acc_view(acc).events == mid.events,
                acc_view(acc).signals == mid.signals + Seq::new(k as nat, |j: int| (LLDBStatus::VariableNotFound, Seq::<Seq<char>>::empty())),
            decreases m - k,
        {
            let args: Vec<String> = Vec::new();
            assert(args@.map_values(|a: String| a@) =~= Seq::<Seq<char>>::empty());
            acc = signal_exec(acc, LLDBStatus::VariableNotFound, args);
            assert(acc_view(acc).signals =~= mid.signals + Seq::new((k + 1) as nat, |j: int| (LLDBStatus::VariableNotFound, Seq::<Seq<char>>::empty())));
            k = k + 1;
        }
        proof {
            assert(n == regex_captures(RE_PROCESS_NOT_RUNNING@, line@).len());
            assert(m == regex_captures(RE_VARIABLE_NOT_FOUND@, line@).len());
        }
        i = i + 1;
    }
    assert(lv.take(lines@.len() as int) == lv);
    (acc.events, acc.signals)
}

} // verus!
