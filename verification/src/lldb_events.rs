//! LLDB's output read as events for listeners: a debugger front end that
//! waits for LLDB to start, a process to launch or exit, a breakpoint to be
//! set or a variable to be printed registers a listener of that kind, and
//! the first such event is delivered to it, once.

use vstd::prelude::*;
use vstd::string::*;
use vstd::utf8::*;
use crate::text::{bytes_from, chars_of, string_of, split, split_chars, pieces_view, parse_u64, parse_i64, spec_parse_u64,
    spec_parse_i64};
use crate::request::{FileLocation, FileLocationView, Variable};
use crate::pattern::{captures, captures_view, groups_view, group, get_group, regex_captures, GroupsView};
use crate::notify::{Event, EventView, LogLevel, events_view, lemma_events_view_push};

verus! {

/// LLDB set the program to debug.
pub const RE_LLDB_STARTED: &'static str = "^Current executable set to '.*' (.*)\\.$";
/// A process was launched.
pub const RE_PROCESS_STARTED: &'static str = "^Process (\\d+) launched: '.*' \\((.*)\\)$";
/// A process exited.
pub const RE_PROCESS_EXITED: &'static str = "^Process (\\d+) exited with status = (\\d+) \\(0x[0-9a-f]*\\) *$";
/// A breakpoint resolved to a column.
pub const RE_BREAKPOINT: &'static str = "Breakpoint (\\d+): where = .* at (.*):(\\d+):\\d+, address = 0x[0-9a-f]*$";
/// A breakpoint resolved to a line.
pub const RE_BREAKPOINT_2: &'static str = "Breakpoint (\\d+): where = .* at (.*):(\\d+), address = 0x[0-9a-f]*$";
/// A breakpoint with several locations.
pub const RE_BREAKPOINT_MULTIPLE: &'static str = "Breakpoint (\\d+): (\\d+) locations\\.$";
/// A breakpoint not resolved yet.
pub const RE_BREAKPOINT_PENDING: &'static str = "Breakpoint (\\d+): no locations \\(pending\\)\\.$";
/// A frame line: LLDB stopped somewhere.
pub const RE_STOPPED_AT_POSITION: &'static str = " *frame #\\d.*$";
/// A frame line with a file and line number.
pub const RE_JUMP_TO_POSITION: &'static str = "^ *frame #\\d at (\\S+):(\\d+)$";
/// A printed variable: its type and name.
pub const RE_PRINTED_VARIABLE: &'static str = "^\\((.*)\\) ([\\S+]*) = .*$";
/// There is no process.
pub const RE_PROCESS_NOT_RUNNING: &'static str = "error: invalid process$";
/// LLDB found no such variable.
pub const RE_VARIABLE_NOT_FOUND: &'static str = "error: no variable named '([^']*)' found in this frame$";

/// The kinds of event a listener can wait for.
#[derive(Clone, Copy, Debug, PartialEq, Eq, Structural)]
pub enum LLDBListener {
    LLDBLaunched,
    ProcessLaunched,
    ProcessExited,
    Breakpoint,
    PrintVariable,
}

/// The type and value of a printed variable.
#[derive(Clone, Debug, PartialEq, Eq)]
pub struct VariableValue {
    type_: String,
    value: String,
}

impl View for VariableValue {
    type V = (Seq<char>, Seq<char>);

    closed spec fn view(&self) -> (Seq<char>, Seq<char>) {
        (self.type_@, self.value@)
    }
}

impl VariableValue {
    /// A value of the given type.
    pub fn new(type_: String, value: String) -> (r: VariableValue)
        ensures
            r@ == (type_@, value@),
    {
        VariableValue { type_, value }
    }

    /// The variable's type.
    pub fn type_(&self) -> (r: &str)
        ensures
            r@ == self@.0,
    {
        self.type_.as_str()
    }

    /// The variable's value.
    pub fn value(&self) -> (r: &str)
        ensures
            r@ == self@.1,
    {
        self.value.as_str()
    }
}

/// An event delivered to a listener.
#[derive(Clone, Debug, PartialEq, Eq)]
pub enum LLDBEvent {
    LLDBLaunched,
    /// The pid.
    ProcessLaunched(u64),
    /// The pid and exit code.
    ProcessExited(u64, i64),
    BreakpointSet(FileLocation),
    BreakpointMultiple,
    BreakpointPending,
    PrintVariable(Variable, VariableValue),
    VariableNotFound(Variable),
}

/// The model of an event for a listener.
pub enum LLDBEventView {
    LLDBLaunched,
    ProcessLaunched(u64),
    ProcessExited(u64, i64),
    BreakpointSet(FileLocationView),
    BreakpointMultiple,
    BreakpointPending,
    PrintVariable(Seq<char>, (Seq<char>, Seq<char>)),
    VariableNotFound(Seq<char>),
}

impl View for LLDBEvent {
    type V = LLDBEventView;

    open spec fn view(&self) -> LLDBEventView {
        match self {
            LLDBEvent::LLDBLaunched => LLDBEventView::LLDBLaunched,
            LLDBEvent::ProcessLaunched(p) => LLDBEventView::ProcessLaunched(*p),
            LLDBEvent::ProcessExited(p, c) => LLDBEventView::ProcessExited(*p, *c),
            LLDBEvent::BreakpointSet(fl) => LLDBEventView::BreakpointSet(fl@),
            LLDBEvent::BreakpointMultiple => LLDBEventView::BreakpointMultiple,
            LLDBEvent::BreakpointPending => LLDBEventView::BreakpointPending,
            LLDBEvent::PrintVariable(v, x) => LLDBEventView::PrintVariable(v@, x@),
            LLDBEvent::VariableNotFound(v) => LLDBEventView::VariableNotFound(v@),
        }
    }
}

/// What reading output has given so far: the pid of the process, the
/// kinds still waited for, the events for Vim and the events delivered to
/// listeners, in order.
pub struct EvState {
    pub pid: Option<u64>,
    pub listeners: Set<LLDBListener>,
    pub events: Seq<EventView>,
    pub delivered: Seq<(LLDBListener, LLDBEventView)>,
}

/// `ev` delivered to the listener of `kind`, where one waits; that
/// listener then waits no more.
pub open spec fn deliver(s: EvState, kind: LLDBListener, ev: LLDBEventView) -> EvState {
    if s.listeners.contains(kind) {
        EvState { listeners: s.listeners.remove(kind), delivered: s.delivered.push((kind, ev)), ..s }
    } else {
        s
    }
}

/// `e` told to Vim.
pub open spec fn notify(s: EvState, e: EventView) -> EvState {
    EvState { events: s.events.push(e), ..s }
}

/// The first position at or after `k` where `b` holds `c`, or the length.
pub open spec fn first_byte(b: Seq<u8>, c: u8, k: int) -> int
    decreases b.len() - k,
{
    if k >= b.len() {
        b.len() as int
    } else if b[k] == c {
        k
    } else {
        first_byte(b, c, k + 1)
    }
}

/// Whether the bytes of `b` from `i` up to `j` are ASCII.
pub open spec fn ascii_between(b: Seq<u8>, i: int, j: int) -> bool {
    forall|k: int| i <= k < j ==> #[trigger] b[k] < 128
}

/// The value in LLDB's output `data` for a printed variable: what follows
/// the `= ` after the first `)`, without the last byte. The search goes
/// byte by byte and the cut by bytes: `None` where the search meets a byte
/// that is not ASCII, finds nothing, or the cuts would fall inside a
/// character or cross.
pub open spec fn printed_value(data: Seq<char>) -> Option<Seq<char>> {
    let b = encode_utf8(data);
    let p = first_byte(b, 41, 1);
    let q = first_byte(b, 61, p);
    if p >= b.len() || !ascii_between(b, 1, p) || q >= b.len() || !ascii_between(b, p, q) {
        None
    } else if q + 2 > b.len() - 1 || !is_char_boundary(b, q + 2) || !is_char_boundary(b, b.len() - 1) {
        None
    } else {
        Some(decode_utf8(b.subrange(q + 2, b.len() - 1)))
    }
}

/// What a match is acted on for.
pub enum Act {
    Started,
    Launched,
    Exited,
    Breakpoint,
    Multiple,
    Pending,
    Jump,
    Printed,
    NotRunning,
    NotFound,
}

/// What one match does, `line` being its line and `data` the whole chunk;
/// `None` where a number in it, or the printed value, does not read.
pub open spec fn act(a: Act, line: Seq<char>, data: Seq<char>, s: EvState, g: GroupsView) -> Option<EvState> {
    match a {
        Act::Started => Some(deliver(s, LLDBListener::LLDBLaunched, LLDBEventView::LLDBLaunched)),
        Act::Launched => match group(g, 1) {
            Some(p) => match spec_parse_u64(p) {
                Some(pid) => Some(deliver(
                    EvState { pid: Some(pid), ..s },
                    LLDBListener::ProcessLaunched,
                    LLDBEventView::ProcessLaunched(pid),
                )),
                None => None,
            },
            None => None,
        },
        Act::Exited => match (group(g, 1), group(g, 2)) {
            (Some(p), Some(c)) => match (spec_parse_u64(p), spec_parse_i64(c)) {
                (Some(pid), Some(code)) => Some(deliver(
                    notify(EvState { pid: None, ..s }, EventView::ProcessExited(pid, code)),
                    LLDBListener::ProcessExited,
                    LLDBEventView::ProcessExited(pid, code),
                )),
                _ => None,
            },
            _ => None,
        },
        Act::Breakpoint => match (group(g, 2), group(g, 3)) {
            (Some(f), Some(l)) => match spec_parse_u64(l) {
                Some(n) => Some(deliver(
                    notify(s, EventView::BreakpointSet(f, n)),
                    LLDBListener::Breakpoint,
                    LLDBEventView::BreakpointSet(FileLocationView { name: f, line_num: n }),
                )),
                None => None,
            },
            _ => None,
        },
        Act::Multiple => Some(deliver(s, LLDBListener::Breakpoint, LLDBEventView::BreakpointMultiple)),
        Act::Pending => Some(deliver(s, LLDBListener::Breakpoint, LLDBEventView::BreakpointPending)),
        Act::Jump => match (group(g, 1), group(g, 2)) {
            (Some(f), Some(l)) => match spec_parse_u64(l) {
                Some(n) => Some(notify(s, EventView::JumpToPosition(f, n))),
                None => None,
            },
            _ => None,
        },
        Act::Printed => match (group(g, 1), group(g, 2), printed_value(data)) {
            (Some(t), Some(v), Some(value)) => Some(deliver(
                s,
                LLDBListener::PrintVariable,
                LLDBEventView::PrintVariable(v, (t, value)),
            )),
            _ => None,
        },
        Act::NotRunning => Some(notify(s, EventView::Log(LogLevel::WARN, "program not running"@))),
        Act::NotFound => match group(g, 1) {
            Some(v) => Some(deliver(s, LLDBListener::PrintVariable, LLDBEventView::VariableNotFound(v))),
            None => None,
        },
    }
}

/// What the matches `c` do, in order.
pub open spec fn fold(a: Act, line: Seq<char>, data: Seq<char>, s: EvState, c: Seq<GroupsView>) -> Option<EvState>
    decreases c.len(),
{
    if c.len() == 0 {
        Some(s)
    } else {
        match fold(a, line, data, s, c.drop_last()) {
            Some(t) => act(a, line, data, t, c.last()),
            None => None,
        }
    }
}

/// What the matches of `pattern` in `line` do.
pub open spec fn on(pattern: Seq<char>, a: Act, line: Seq<char>, data: Seq<char>, s: Option<EvState>) -> Option<EvState> {
    match s {
        Some(s) => fold(a, line, data, s, regex_captures(pattern, line)),
        None => None,
    }
}

/// A frame line: the positions it gives, or a warning that the position
/// is unknown.
pub open spec fn stopped(line: Seq<char>, s: EvState) -> Option<EvState> {
    let j = regex_captures(RE_JUMP_TO_POSITION@, line);
    if j.len() == 0 {
        Some(notify(s, EventView::Log(LogLevel::WARN, "Stopped at unknown position"@)))
    } else {
        fold(Act::Jump, line, line, s, j)
    }
}

/// The frame lines of `line`, `n` of them.
pub open spec fn stops(line: Seq<char>, s: Option<EvState>, n: nat) -> Option<EvState>
    decreases n,
{
    if n == 0 {
        s
    } else {
        match stops(line, s, (n - 1) as nat) {
            Some(t) => stopped(line, t),
            None => None,
        }
    }
}

/// The breakpoints of a line: those resolved to a column, else those
/// resolved to a line, else those with several locations, else pending
/// ones.
pub open spec fn breakpoints(line: Seq<char>, data: Seq<char>, s: Option<EvState>) -> Option<EvState> {
    if regex_captures(RE_BREAKPOINT@, line).len() > 0 {
        on(RE_BREAKPOINT@, Act::Breakpoint, line, data, s)
    } else if regex_captures(RE_BREAKPOINT_2@, line).len() > 0 {
        on(RE_BREAKPOINT_2@, Act::Breakpoint, line, data, s)
    } else if regex_captures(RE_BREAKPOINT_MULTIPLE@, line).len() > 0 {
        on(RE_BREAKPOINT_MULTIPLE@, Act::Multiple, line, data, s)
    } else {
        on(RE_BREAKPOINT_PENDING@, Act::Pending, line, data, s)
    }
}

/// What one line of LLDB's standard output does, `data` being the whole
/// chunk.
pub open spec fn stdout_line(line: Seq<char>, data: Seq<char>, s: EvState) -> Option<EvState> {
    let s1 = on(RE_LLDB_STARTED@, Act::Started, line, data, Some(s));
    let s2 = on(RE_PROCESS_STARTED@, Act::Launched, line, data, s1);
    let s3 = on(RE_PROCESS_EXITED@, Act::Exited, line, data, s2);
    let s4 = breakpoints(line, data, s3);
    let s5 = stops(line, s4, regex_captures(RE_STOPPED_AT_POSITION@, line).len());
    let s6 = on(RE_PRINTED_VARIABLE@, Act::Printed, line, data, s5);
    on(RE_PROCESS_NOT_RUNNING@, Act::NotRunning, line, data, s6)
}

/// What the lines of a chunk of standard output do, in order.
pub open spec fn stdout_lines(lines: Seq<Seq<char>>, data: Seq<char>, s: EvState) -> Option<EvState>
    decreases lines.len(),
{
    if lines.len() == 0 {
        Some(s)
    } else {
        match stdout_lines(lines.drop_last(), data, s) {
            Some(t) => stdout_line(lines.last(), data, t),
            None => None,
        }
    }
}

/// What the lines of a chunk of standard error do, in order.
pub open spec fn stderr_lines(lines: Seq<Seq<char>>, s: EvState) -> Option<EvState>
    decreases lines.len(),
{
    if lines.len() == 0 {
        Some(s)
    } else {
        match stderr_lines(lines.drop_last(), s) {
            Some(t) => on(RE_VARIABLE_NOT_FOUND@, Act::NotFound, lines.last(), lines.last(), Some(t)),
            None => None,
        }
    }
}

/// The kinds of event that listeners wait for.
#[derive(Debug)]
struct Waiting {
    launched: bool,
    process_launched: bool,
    process_exited: bool,
    breakpoint: bool,
    print_variable: bool,
}

/// Whether a listener of `kind` waits.
spec fn waits(w: Waiting, kind: LLDBListener) -> bool {
    match kind {
        LLDBListener::LLDBLaunched => w.launched,
        LLDBListener::ProcessLaunched => w.process_launched,
        LLDBListener::ProcessExited => w.process_exited,
        LLDBListener::Breakpoint => w.breakpoint,
        LLDBListener::PrintVariable => w.print_variable,
    }
}

/// The kinds waited for.
spec fn waiting_set(w: Waiting) -> Set<LLDBListener> {
    Set::new(|k: LLDBListener| waits(w, k))
}

impl Waiting {
    /// Whether a listener of `kind` waits.
    fn get(&self, kind: LLDBListener) -> (r: bool)
        ensures
            r == waits(*self, kind),
    {
        match kind {
            LLDBListener::LLDBLaunched => self.launched,
            LLDBListener::ProcessLaunched => self.process_launched,
            LLDBListener::ProcessExited => self.process_exited,
            LLDBListener::Breakpoint => self.breakpoint,
            LLDBListener::PrintVariable => self.print_variable,
        }
    }

    /// Sets whether a listener of `kind` waits.
    fn set(&mut self, kind: LLDBListener, on: bool)
        ensures
            waiting_set(*final(self)) == (if on { waiting_set(*old(self)).insert(kind) } else { waiting_set(*old(self)).remove(kind) }),
    {
        match kind {
            LLDBListener::LLDBLaunched => self.launched = on,
            LLDBListener::ProcessLaunched => self.process_launched = on,
            LLDBListener::ProcessExited => self.process_exited = on,
            LLDBListener::Breakpoint => self.breakpoint = on,
            LLDBListener::PrintVariable => self.print_variable = on,
        }
        assert(waiting_set(*self) =~= (if on { waiting_set(*old(self)).insert(kind) } else { waiting_set(*old(self)).remove(kind) }));
    }
}

/// What reading has given so far.
struct Acc {
    pid: Option<u64>,
    waiting: Waiting,
    events: Vec<Event>,
    delivered: Vec<(LLDBListener, LLDBEvent)>,
}

/// The models of delivered events.
pub open spec fn delivered_view(d: Seq<(LLDBListener, LLDBEvent)>) -> Seq<(LLDBListener, LLDBEventView)> {
    d.map_values(|x: (LLDBListener, LLDBEvent)| (x.0, x.1@))
}

/// The model of what reading has given so far.
spec fn acc_view(a: Acc) -> EvState {
    EvState {
        pid: a.pid,
        listeners: waiting_set(a.waiting),
        events: events_view(a.events@),
        delivered: delivered_view(a.delivered@),
    }
}

/// The model of what reading has given, where it could be read.
spec fn opt_acc(a: Option<Acc>) -> Option<EvState> {
    match a {
        Some(x) => Some(acc_view(x)),
        None => None,
    }
}

/// `ev` delivered to the listener of `kind`, where one waits.
fn deliver_exec(mut s: Acc, kind: LLDBListener, ev: LLDBEvent) -> (r: Acc)
    ensures
        acc_view(r) == deliver(acc_view(s), kind, ev@),
{
    if s.waiting.get(kind) {
        s.waiting.set(kind, false);
        let ghost d0 = s.delivered@;
        s.delivered.push((kind, ev));
        assert(delivered_view(s.delivered@) =~= delivered_view(d0).push((kind, ev@)));
    }
    s
}

/// `e` told to Vim.
fn notify_exec(mut s: Acc, e: Event) -> (r: Acc)
    ensures
        acc_view(r) == notify(acc_view(s), e@),
{
    proof { lemma_events_view_push(s.events@, e); }
    s.events.push(e);
    s
}

/// The first position at or after `k` where `b` holds `c`, and whether the
/// bytes passed on the way are ASCII.
fn find_byte(b: &[u8], c: u8, k: usize) -> (r: (usize, bool))
    ensures
        r.0 == first_byte(b@, c, k as int),
        r.1 == ascii_between(b@, k as int, first_byte(b@, c, k as int)),
{
    let mut i = k;
    let mut ascii = true;
    if i > b.len() {
        i = b.len();
        assert(first_byte(b@, c, k as int) == b@.len());
        return (i, true);
    }
    while i < b.len() && b[i] != c
        invariant
            k <= i <= b@.len(),
            first_byte(b@, c, k as int) == first_byte(b@, c, i as int),
            ascii == ascii_between(b@, k as int, i as int),
        decreases b@.len() - i,
    {
        ascii = ascii && b[i] < 128;
        i = i + 1;
    }
    (i, ascii)
}

/// The value in `data` for a printed variable; see `printed_value`.
fn printed_value_exec(data: &str) -> (r: Option<String>)
    ensures
        match r {
            Some(v) => printed_value(data@) == Some(v@),
            None => printed_value(data@) is None,
        },
{
    let b = data.as_bytes();
    proof { encode_utf8_valid_utf8(data@); }
    let (p, ascii1) = find_byte(b, 41, 1);
    if p >= b.len() || !ascii1 {
        return None;
    }
    let (q, ascii2) = find_byte(b, 61, p);
    if q >= b.len() || !ascii2 {
        return None;
    }
    if b.len() - q < 3 || !data.is_char_boundary(q + 2) || !data.is_char_boundary(b.len() - 1) {
        return None;
    }
    let start = q + 2;
    let end = b.len() - 1;
    proof {
        crate::pdb::lemma_boundary_in_prefix(b@, end as int, start as int);
    }
    let (head, _) = data.split_at(end);
    let (_, mid) = head.split_at(start);
    proof {
        assert(mid.spec_bytes() == b@.subrange(start as int, end as int));
        encode_utf8_decode_utf8(mid@);
    }
    Some(String::from_str(mid))
}

/// What one match does; see `act`.
fn act_exec(a: &Act, line: &str, data: &str, s: Acc, g: &Vec<Option<String>>) -> (r: Option<Acc>)
    ensures
        opt_acc(r) == act(*a, line@, data@, acc_view(s), groups_view(g@)),
{
    match a {
        Act::Started => Some(deliver_exec(s, LLDBListener::LLDBLaunched, LLDBEvent::LLDBLaunched)),
        Act::Launched => match get_group(g, 1) {
            Some(p) => match parse_u64(p.as_str()) {
                Some(pid) => {
                    let mut s = s;
                    s.pid = Some(pid);
                    Some(deliver_exec(s, LLDBListener::ProcessLaunched, LLDBEvent::ProcessLaunched(pid)))
                },
                None => None,
            },
            None => None,
        },
        Act::Exited => match (get_group(g, 1), get_group(g, 2)) {
            (Some(p), Some(c)) => match (parse_u64(p.as_str()), parse_i64(c.as_str())) {
                (Some(pid), Some(code)) => {
                    let mut s = s;
                    s.pid = None;
                    let s = notify_exec(s, Event::ProcessExited(pid, code));
                    Some(deliver_exec(s, LLDBListener::ProcessExited, LLDBEvent::ProcessExited(pid, code)))
                },
                _ => None,
            },
            _ => None,
        },
        Act::Breakpoint => match (get_group(g, 2), get_group(g, 3)) {
            (Some(f), Some(l)) => match parse_u64(l.as_str()) {
                Some(n) => {
                    let s = notify_exec(s, Event::BreakpointSet(String::from_str(f.as_str()), n));
                    Some(deliver_exec(s, LLDBListener::Breakpoint, LLDBEvent::BreakpointSet(FileLocation::new(f, n))))
                },
                None => None,
            },
            _ => None,
        },
        Act::Multiple => Some(deliver_exec(s, LLDBListener::Breakpoint, LLDBEvent::BreakpointMultiple)),
        Act::Pending => Some(deliver_exec(s, LLDBListener::Breakpoint, LLDBEvent::BreakpointPending)),
        Act::Jump => match (get_group(g, 1), get_group(g, 2)) {
            (Some(f), Some(l)) => match parse_u64(l.as_str()) {
                Some(n) => Some(notify_exec(s, Event::JumpToPosition(f, n))),
                None => None,
            },
            _ => None,
        },
        Act::Printed => match (get_group(g, 1), get_group(g, 2), printed_value_exec(data)) {
            (Some(t), Some(v), Some(value)) => Some(deliver_exec(
                s,
                LLDBListener::PrintVariable,
                LLDBEvent::PrintVariable(Variable::new(v), VariableValue::new(t, value)),
            )),
            _ => None,
        },
        Act::NotRunning => Some(notify_exec(s, Event::Log(LogLevel::WARN, String::from_str("program not running")))),
        Act::NotFound => match get_group(g, 1) {
            Some(v) => Some(deliver_exec(s, LLDBListener::PrintVariable, LLDBEvent::VariableNotFound(Variable::new(v)))),
            None => None,
        },
    }
}

/// What the matches `c` do; see `fold`.
fn fold_exec(a: &Act, line: &str, data: &str, s: Acc, c: &Vec<Vec<Option<String>>>) -> (r: Option<Acc>)
    ensures
        opt_acc(r) == fold(*a, line@, data@, acc_view(s), captures_view(c@)),
{
    let ghost cv = captures_view(c@);
    let ghost s0 = acc_view(s);
    let mut acc: Option<Acc> = Some(s);
    let mut i: usize = 0;
    while i < c.len()
        invariant
            i <= c@.len(),
            cv == captures_view(c@),
            opt_acc(acc) == fold(*a, line@, data@, s0, cv.take(i as int)),
        decreases c@.len() - i,
    {
        assert(cv.take(i + 1).drop_last() == cv.take(i as int));
        assert(cv[i as int] == groups_view(c@[i as int]@));
        acc = match acc {
            Some(t) => act_exec(a, line, data, t, &c[i]),
            None => None,
        };
        i = i + 1;
    }
    assert(cv.take(c@.len() as int) == cv);
    acc
}

/// What the matches of `pattern` in `line` do; see `on`.
fn on_exec(pattern: &str, a: Act, line: &str, data: &str, s: Option<Acc>) -> (r: Option<Acc>)
    ensures
        opt_acc(r) == on(pattern@, a, line@, data@, opt_acc(s)),
{
    match s {
        Some(s) => {
            let c = captures(pattern, line);
            fold_exec(&a, line, data, s, &c)
        },
        None => None,
    }
}

/// The frame lines of `line`; see `stops`.
fn stops_exec(line: &str, s: Option<Acc>) -> (r: Option<Acc>)
    ensures
        opt_acc(r) == stops(line@, opt_acc(s), regex_captures(RE_STOPPED_AT_POSITION@, line@).len()),
{
    let n = captures(RE_STOPPED_AT_POSITION, line).len();
    let ghost s0 = opt_acc(s);
    let mut acc = s;
    let mut i: usize = 0;
    while i < n
        invariant
            i <= n,
            n == regex_captures(RE_STOPPED_AT_POSITION@, line@).len(),
            opt_acc(acc) == stops(line@, s0, i as nat),
        decreases n - i,
    {
        acc = match acc {
            Some(t) => {
                let j = captures(RE_JUMP_TO_POSITION, line);
                if j.len() == 0 {
                    Some(notify_exec(t, Event::Log(LogLevel::WARN, String::from_str("Stopped at unknown position"))))
                } else {
                    fold_exec(&Act::Jump, line, line, t, &j)
                }
            },
            None => None,
        };
        i = i + 1;
    }
    acc
}

/// The breakpoints of a line; see `breakpoints`.
fn breakpoints_exec(line: &str, data: &str, s: Option<Acc>) -> (r: Option<Acc>)
    ensures
        opt_acc(r) == breakpoints(line@, data@, opt_acc(s)),
{
    if captures(RE_BREAKPOINT, line).len() > 0 {
        on_exec(RE_BREAKPOINT, Act::Breakpoint, line, data, s)
    } else if captures(RE_BREAKPOINT_2, line).len() > 0 {
        on_exec(RE_BREAKPOINT_2, Act::Breakpoint, line, data, s)
    } else if captures(RE_BREAKPOINT_MULTIPLE, line).len() > 0 {
        on_exec(RE_BREAKPOINT_MULTIPLE, Act::Multiple, line, data, s)
    } else {
        on_exec(RE_BREAKPOINT_PENDING, Act::Pending, line, data, s)
    }
}

/// What one line of standard output does; see `stdout_line`.
fn stdout_line_exec(line: &str, data: &str, s: Acc) -> (r: Option<Acc>)
    ensures
        opt_acc(r) == stdout_line(line@, data@, acc_view(s)),
{
    let s1 = on_exec(RE_LLDB_STARTED, Act::Started, line, data, Some(s));
    let s2 = on_exec(RE_PROCESS_STARTED, Act::Launched, line, data, s1);
    let s3 = on_exec(RE_PROCESS_EXITED, Act::Exited, line, data, s2);
    let s4 = breakpoints_exec(line, data, s3);
    let s5 = stops_exec(line, s4);
    let s6 = on_exec(RE_PRINTED_VARIABLE, Act::Printed, line, data, s5);
    on_exec(RE_PROCESS_NOT_RUNNING, Act::NotRunning, line, data, s6)
}

/// From `s0` on, each event went to a listener that waited in `s0` and
/// waits no more, no listener got two, and no listener began to wait.
pub open spec fn delivered_once(s0: EvState, s: EvState) -> bool {
    &&& s.listeners.subset_of(s0.listeners)
    &&& forall|i: int| 0 <= i < s.delivered.len() ==> s0.listeners.contains(#[trigger] s.delivered[i].0)
        && !s.listeners.contains(s.delivered[i].0)
    &&& forall|i: int, j: int| 0 <= i < j < s.delivered.len() ==> #[trigger] s.delivered[i].0 != #[trigger] s.delivered[j].0
}

proof fn lemma_fold_once(a: Act, line: Seq<char>, data: Seq<char>, s0: EvState, s: EvState, c: Seq<GroupsView>)
    requires
        delivered_once(s0, s),
    ensures
        fold(a, line, data, s, c) matches Some(t) ==> delivered_once(s0, t),
    decreases c.len(),
{
    if c.len() > 0 {
        lemma_fold_once(a, line, data, s0, s, c.drop_last());
    }
}

proof fn lemma_on_once(pattern: Seq<char>, a: Act, line: Seq<char>, data: Seq<char>, s0: EvState, s: Option<EvState>)
    requires
        s matches Some(x) ==> delivered_once(s0, x),
    ensures
        on(pattern, a, line, data, s) matches Some(t) ==> delivered_once(s0, t),
{
    if let Some(x) = s {
        lemma_fold_once(a, line, data, s0, x, regex_captures(pattern, line));
    }
}

proof fn lemma_stops_once(line: Seq<char>, s0: EvState, s: Option<EvState>, n: nat)
    requires
        s matches Some(x) ==> delivered_once(s0, x),
    ensures
        stops(line, s, n) matches Some(t) ==> delivered_once(s0, t),
    decreases n,
{
    if n > 0 {
        lemma_stops_once(line, s0, s, (n - 1) as nat);
        if let Some(t) = stops(line, s, (n - 1) as nat) {
            lemma_fold_once(Act::Jump, line, line, s0, t, regex_captures(RE_JUMP_TO_POSITION@, line));
        }
    }
}

proof fn lemma_stdout_line_once(line: Seq<char>, data: Seq<char>, s0: EvState, s: EvState)
    requires
        delivered_once(s0, s),
    ensures
        stdout_line(line, data, s) matches Some(t) ==> delivered_once(s0, t),
{
    let s1 = on(RE_LLDB_STARTED@, Act::Started, line, data, Some(s));
    lemma_on_once(RE_LLDB_STARTED@, Act::Started, line, data, s0, Some(s));
    let s2 = on(RE_PROCESS_STARTED@, Act::Launched, line, data, s1);
    lemma_on_once(RE_PROCESS_STARTED@, Act::Launched, line, data, s0, s1);
    let s3 = on(RE_PROCESS_EXITED@, Act::Exited, line, data, s2);
    lemma_on_once(RE_PROCESS_EXITED@, Act::Exited, line, data, s0, s2);
    lemma_on_once(RE_BREAKPOINT@, Act::Breakpoint, line, data, s0, s3);
    lemma_on_once(RE_BREAKPOINT_2@, Act::Breakpoint, line, data, s0, s3);
    lemma_on_once(RE_BREAKPOINT_MULTIPLE@, Act::Multiple, line, data, s0, s3);
    lemma_on_once(RE_BREAKPOINT_PENDING@, Act::Pending, line, data, s0, s3);
    let s4 = breakpoints(line, data, s3);
    lemma_stops_once(line, s0, s4, regex_captures(RE_STOPPED_AT_POSITION@, line).len());
    let s5 = stops(line, s4, regex_captures(RE_STOPPED_AT_POSITION@, line).len());
    lemma_on_once(RE_PRINTED_VARIABLE@, Act::Printed, line, data, s0, s5);
    let s6 = on(RE_PRINTED_VARIABLE@, Act::Printed, line, data, s5);
    lemma_on_once(RE_PROCESS_NOT_RUNNING@, Act::NotRunning, line, data, s0, s6);
}

proof fn lemma_stdout_lines_once(lines: Seq<Seq<char>>, data: Seq<char>, s0: EvState, s: EvState)
    requires
        delivered_once(s0, s),
    ensures
        stdout_lines(lines, data, s) matches Some(t) ==> delivered_once(s0, t),
    decreases lines.len(),
{
    if lines.len() > 0 {
        lemma_stdout_lines_once(lines.drop_last(), data, s0, s);
        if let Some(t) = stdout_lines(lines.drop_last(), data, s) {
            lemma_stdout_line_once(lines.last(), data, s0, t);
        }
    }
}

proof fn lemma_stderr_lines_once(lines: Seq<Seq<char>>, s0: EvState, s: EvState)
    requires
        delivered_once(s0, s),
    ensures
        stderr_lines(lines, s) matches Some(t) ==> delivered_once(s0, t),
    decreases lines.len(),
{
    if lines.len() > 0 {
        lemma_stderr_lines_once(lines.drop_last(), s0, s);
        if let Some(t) = stderr_lines(lines.drop_last(), s) {
            lemma_on_once(RE_VARIABLE_NOT_FOUND@, Act::NotFound, lines.last(), lines.last(), s0, Some(t));
        }
    }
}

/// Each event that a chunk of LLDB's output, standard or error, delivers
/// goes to a listener of its kind that was waiting and waits no more; no
/// listener gets two, and output never makes a listener wait.
pub proof fn lemma_delivered_once(a: EventsAnalyserView, text: Seq<char>)
    ensures
        ({
            let s0 = EvState { pid: a.pid, listeners: a.listeners, events: seq![], delivered: seq![] };
            &&& stdout_lines(split(text, "\n"@), text, s0) matches Some(t) ==> delivered_once(s0, t)
            &&& stderr_lines(split(text, "\n"@), s0) matches Some(t) ==> delivered_once(s0, t)
        }),
{
    let s0 = EvState { pid: a.pid, listeners: a.listeners, events: seq![], delivered: seq![] };
    lemma_stdout_lines_once(split(text, "\n"@), text, s0, s0);
    lemma_stderr_lines_once(split(text, "\n"@), s0, s0);
}

/// The model of the analyser: the pid of the process being debugged and
/// the kinds of event that listeners wait for.
pub struct EventsAnalyserView {
    pub pid: Option<u64>,
    pub listeners: Set<LLDBListener>,
}

/// Reads LLDB's output for the listeners waiting on it.
#[derive(Debug)]
pub struct LLDBAnalyser {
    process_pid: Option<u64>,
    waiting: Waiting,
}

impl View for LLDBAnalyser {
    type V = EventsAnalyserView;

    closed spec fn view(&self) -> EventsAnalyserView {
        EventsAnalyserView { pid: self.process_pid, listeners: waiting_set(self.waiting) }
    }
}

/// The lines of `s`, cut at each newline.
fn lines_of(s: &str) -> (r: Vec<Vec<char>>)
    ensures
        pieces_view(r@) == split(s@, "\n"@),
{
    let chars = chars_of(s);
    let sep: Vec<char> = vec!['\n'];
    assert(sep@ == "\n"@) by {
        reveal_strlit("\n");
    }
    split_chars(chars.as_slice(), sep.as_slice())
}

impl LLDBAnalyser {
    /// An analyser with no process and no listener.
    pub fn new() -> (r: LLDBAnalyser)
        ensures
            r@.pid is None,
            r@.listeners == Set::<LLDBListener>::empty(),
    {
        let r = LLDBAnalyser {
            process_pid: None,
            waiting: Waiting {
                launched: false,
                process_launched: false,
                process_exited: false,
                breakpoint: false,
                print_variable: false,
            },
        };
        assert(waiting_set(r.waiting) =~= Set::<LLDBListener>::empty());
        r
    }

    /// A listener now waits for the next event of `kind`.
    pub fn add_listener(&mut self, kind: LLDBListener)
        ensures
            final(self)@ == (EventsAnalyserView { listeners: old(self)@.listeners.insert(kind), ..old(self)@ }),
    {
        self.waiting.set(kind, true);
    }

    /// Whether a process is running.
    pub fn is_process_running(&self) -> (r: bool)
        ensures
            r == self@.pid is Some,
    {
        self.process_pid.is_some()
    }

    /// Reads a chunk of LLDB's standard output, line by line: the events
    /// for Vim and those delivered to listeners, in order; `None`, with the
    /// analyser left as it was, where a number or a printed value in it
    /// does not read.
    pub fn analyse_stdout(&mut self, s: &str) -> (r: Option<(Vec<Event>, Vec<(LLDBListener, LLDBEvent)>)>)
        ensures
            match (r, stdout_lines(split(s@, "\n"@), s@, EvState {
                pid: old(self)@.pid,
                listeners: old(self)@.listeners,
                events: seq![],
                delivered: seq![],
            })) {
                (Some((e, d)), Some(t)) => events_view(e@) == t.events && delivered_view(d@) == t.delivered
                    && final(self)@ == (EventsAnalyserView { pid: t.pid, listeners: t.listeners }),
                (None, None) => final(self)@ == old(self)@,
                _ => false,
            },
    {
        let lines = lines_of(s);
        let ghost lv = pieces_view(lines@);
        let start = Acc {
            pid: self.process_pid,
            waiting: Waiting {
                launched: self.waiting.launched,
                process_launched: self.waiting.process_launched,
                process_exited: self.waiting.process_exited,
                breakpoint: self.waiting.breakpoint,
                print_variable: self.waiting.print_variable,
            },
            events: Vec::new(),
            delivered: Vec::new(),
        };
        let ghost s0 = acc_view(start);
        assert(s0.events =~= Seq::<EventView>::empty());
        assert(s0.delivered =~= Seq::<(LLDBListener, LLDBEventView)>::empty());
        let mut acc: Option<Acc> = Some(start);
        let mut i: usize = 0;
        while i < lines.len()
            invariant
                i <= lines@.len(),
                lv == pieces_view(lines@),
                opt_acc(acc) == stdout_lines(lv.take(i as int), s@, s0),
            decreases lines@.len() - i,
        {
            assert(lv.take(i + 1).drop_last() == lv.take(i as int));
            assert(lv[i as int] == lines@[i as int]@);
            let line = string_of(lines[i].as_slice());
            acc = match acc {
                Some(t) => stdout_line_exec(line.as_str(), s, t),
                None => None,
            };
            i = i + 1;
        }
        assert(lv.take(lines@.len() as int) == lv);
        match acc {
            Some(t) => {
                self.process_pid = t.pid;
                self.waiting = t.waiting;
                Some((t.events, t.delivered))
            },
            None => None,
        }
    }

    /// Reads a chunk of LLDB's standard error, line by line, for variables
    /// that were not found: the events delivered to listeners; `None`, with
    /// the analyser left as it was, where a match lacks its name.
    pub fn analyse_stderr(&mut self, s: &str) -> (r: Option<Vec<(LLDBListener, LLDBEvent)>>)
        ensures
            match (r, stderr_lines(split(s@, "\n"@), EvState {
                pid: old(self)@.pid,
                listeners: old(self)@.listeners,
                events: seq![],
                delivered: seq![],
            })) {
                (Some(d), Some(t)) => delivered_view(d@) == t.delivered
                    && final(self)@ == (EventsAnalyserView { pid: t.pid, listeners: t.listeners }),
                (None, None) => final(self)@ == old(self)@,
                _ => false,
            },
    {
        let lines = lines_of(s);
        let ghost lv = pieces_view(lines@);
        let start = Acc {
            pid: self.process_pid,
            waiting: Waiting {
                launched: self.waiting.launched,
                process_launched: self.waiting.process_launched,
                process_exited: self.waiting.process_exited,
                breakpoint: self.waiting.breakpoint,
                print_variable: self.waiting.print_variable,
            },
            events: Vec::new(),
            delivered: Vec::new(),
        };
        let ghost s0 = acc_view(start);
        assert(s0.events =~= Seq::<EventView>::empty());
        assert(s0.delivered =~= Seq::<(LLDBListener, LLDBEventView)>::empty());
        let mut acc: Option<Acc> = Some(start);
        let mut i: usize = 0;
        while i < lines.len()
            invariant
                i <= lines@.len(),
                lv == pieces_view(lines@),
                opt_acc(acc) == stderr_lines(lv.take(i as int), s0),
            decreases lines@.len() - i,
        {
            assert(lv.take(i + 1).drop_last() == lv.take(i as int));
            assert(lv[i as int] == lines@[i as int]@);
            let line = string_of(lines[i].as_slice());
            acc = on_exec(RE_VARIABLE_NOT_FOUND, Act::NotFound, line.as_str(), line.as_str(), acc);
            i = i + 1;
        }
        assert(lv.take(lines@.len() as int) == lv);
        match acc {
            Some(t) => {
                self.process_pid = t.pid;
                self.waiting = t.waiting;
                Some(t.delivered)
            },
            None => None,
        }
    }
}

} // verus!
