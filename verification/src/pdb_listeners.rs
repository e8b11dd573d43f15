//! PDB's output read as events for listeners: whoever waits for Python to
//! start, for a breakpoint to be set or for a variable's value registers a
//! listener of that kind, and the first such event is delivered to it,
//! once.

use vstd::prelude::*;
use vstd::string::*;
use vstd::utf8::*;
use crate::text::{chars_of, string_of, split, split_chars, pieces_view, parse_u64, parse_i64, spec_parse_u64,
    spec_parse_i64, contains_text, text_contains};
use crate::pattern::{captures, captures_view, groups_view, group, get_group, regex_captures, GroupsView};
use crate::notify::{EventView, events_view, lemma_events_view_push};
use crate::request::{FileLocation, FileLocationView, Variable};
use crate::pdb_handler::{RE_BREAKPOINT, RE_JUMP_TO_POSITION, RE_PROCESS_EXITED, RE_PROCESS_EXITED_WITH_CODE};

verus! {

/// Where Python stands.
#[derive(Clone, Debug, PartialEq, Eq)]
pub enum PDBStatus {
    /// Not started yet.
    Idle,
    Running,
    /// The value of this variable comes in the next output.
    Printing(Variable),
}

/// The model of where Python stands.
pub enum PDBStatusView {
    Idle,
    Running,
    Printing(Seq<char>),
}

impl View for PDBStatus {
    type V = PDBStatusView;

    open spec fn view(&self) -> PDBStatusView {
        match self {
            PDBStatus::Idle => PDBStatusView::Idle,
            PDBStatus::Running => PDBStatusView::Running,
            PDBStatus::Printing(v) => PDBStatusView::Printing(v@),
        }
    }
}

/// The kinds of event a listener can wait for.
#[derive(Clone, Copy, Debug, PartialEq, Eq, Structural)]
pub enum Listener {
    Launch,
    Breakpoint,
    PrintVariable,
}

/// An event delivered to a listener.
#[derive(Clone, Debug, PartialEq, Eq)]
pub enum Event {
    Launched,
    BreakpointSet(FileLocation),
    /// The variable and its printed value.
    PrintVariable(Variable, String),
}

/// The model of an event for a listener.
pub enum EventForListenerView {
    Launched,
    BreakpointSet(FileLocationView),
    PrintVariable(Seq<char>, Seq<char>),
}

impl View for Event {
    type V = EventForListenerView;

    open spec fn view(&self) -> EventForListenerView {
        match self {
            Event::Launched => EventForListenerView::Launched,
            Event::BreakpointSet(fl) => EventForListenerView::BreakpointSet(fl@),
            Event::PrintVariable(v, s) => EventForListenerView::PrintVariable(v@, s@),
        }
    }
}

/// What reading output has given so far: the pid, where Python stands, the
/// kinds still waited for, the events for Vim and the events delivered, in
/// order.
pub struct ListenState {
    pub pid: Option<u64>,
    pub status: PDBStatusView,
    pub listeners: Set<Listener>,
    pub events: Seq<EventView>,
    pub delivered: Seq<(Listener, EventForListenerView)>,
}

/// `ev` delivered to the listener of `kind`, where one waits; it then waits
/// no more.
pub open spec fn deliver(s: ListenState, kind: Listener, ev: EventForListenerView) -> ListenState {
    if s.listeners.contains(kind) {
        ListenState { listeners: s.listeners.remove(kind), delivered: s.delivered.push((kind, ev)), ..s }
    } else {
        s
    }
}

/// `e` told to Vim.
pub open spec fn tell(s: ListenState, e: EventView) -> ListenState {
    ListenState { events: s.events.push(e), ..s }
}

/// What a match is read for.
pub enum Reading {
    Breakpoint,
    Jump,
    Finished,
    ExitCode,
}

/// What one match does; `None` where a number in it does not read, or an
/// exit is reported while no pid is known.
pub open spec fn read(r: Reading, s: ListenState, g: GroupsView) -> Option<ListenState> {
    match r {
        Reading::Breakpoint => match (group(g, 2), group(g, 3)) {
            (Some(f), Some(l)) => match spec_parse_u64(l) {
                Some(n) => Some(deliver(
                    tell(s, EventView::BreakpointSet(f, n)),
                    Listener::Breakpoint,
                    EventForListenerView::BreakpointSet(FileLocationView { name: f, line_num: n }),
                )),
                None => None,
            },
            _ => None,
        },
        Reading::Jump => match (group(g, 1), group(g, 2)) {
            (Some(f), Some(l)) => match spec_parse_u64(l) {
                Some(n) => Some(tell(s, EventView::JumpToPosition(f, n))),
                None => None,
            },
            _ => None,
        },
        Reading::Finished => match s.pid {
            Some(p) => Some(tell(s, EventView::ProcessExited(p, 0))),
            None => None,
        },
        Reading::ExitCode => match (group(g, 1), s.pid) {
            (Some(c), Some(p)) => match spec_parse_i64(c) {
                Some(code) => Some(tell(s, EventView::ProcessExited(p, code))),
                None => None,
            },
            _ => None,
        },
    }
}

/// What the matches `c` do, in order.
pub open spec fn read_all(r: Reading, s: ListenState, c: Seq<GroupsView>) -> Option<ListenState>
    decreases c.len(),
{
    if c.len() == 0 {
        Some(s)
    } else {
        match read_all(r, s, c.drop_last()) {
            Some(t) => read(r, t, c.last()),
            None => None,
        }
    }
}

/// What the matches of `pattern` in `line` do.
pub open spec fn read_matches(pattern: Seq<char>, r: Reading, line: Seq<char>, s: Option<ListenState>) -> Option<ListenState> {
    match s {
        Some(s) => read_all(r, s, regex_captures(pattern, line)),
        None => None,
    }
}

/// The first prompt means Python has started: it now runs, and the
/// listener waiting for the launch hears of it.
pub open spec fn after_prompt(line: Seq<char>, s: ListenState) -> ListenState {
    if contains_text(line, "(Pdb) "@) && s.status is Idle {
        deliver(ListenState { status: PDBStatusView::Running, ..s }, Listener::Launch, EventForListenerView::Launched)
    } else {
        s
    }
}

/// What one line of output does.
pub open spec fn line_step(line: Seq<char>, s: ListenState) -> Option<ListenState> {
    let s1 = read_matches(RE_BREAKPOINT@, Reading::Breakpoint, line, Some(after_prompt(line, s)));
    let s2 = read_matches(RE_JUMP_TO_POSITION@, Reading::Jump, line, s1);
    let s3 = read_matches(RE_PROCESS_EXITED@, Reading::Finished, line, s2);
    read_matches(RE_PROCESS_EXITED_WITH_CODE@, Reading::ExitCode, line, s3)
}

/// What the lines of a chunk of output do, in order.
pub open spec fn lines_step(lines: Seq<Seq<char>>, s: ListenState) -> Option<ListenState>
    decreases lines.len(),
{
    if lines.len() == 0 {
        Some(s)
    } else {
        match lines_step(lines.drop_last(), s) {
            Some(t) => line_step(lines.last(), t),
            None => None,
        }
    }
}

/// The output without its last two bytes (the line break); `None` where it
/// is shorter, or where the cut falls inside a character and a listener
/// waits for the value.
pub open spec fn cut_value(data: Seq<char>, waits: bool) -> Option<Seq<char>> {
    let b = encode_utf8(data);
    if b.len() < 2 {
        None
    } else if !waits {
        Some(seq![])
    } else if is_char_boundary(b, b.len() - 2) {
        Some(decode_utf8(b.subrange(0, b.len() - 2)))
    } else {
        None
    }
}

/// After the lines: while a variable is printed, the whole chunk, without
/// its line break, is its value, delivered to the listener waiting for
/// it; `None` where the chunk is shorter than a line break, or does not cut
/// for a waiting listener.
pub open spec fn finish(data: Seq<char>, s: ListenState) -> Option<ListenState> {
    match s.status {
        PDBStatusView::Printing(v) => match cut_value(data, s.listeners.contains(Listener::PrintVariable)) {
            Some(value) => Some(deliver(s, Listener::PrintVariable, EventForListenerView::PrintVariable(v, value))),
            None => None,
        },
        _ => Some(s),
    }
}

/// What a chunk of output does: its lines, cut at each newline, then the
/// value of a variable being printed.
pub open spec fn stdout_step(data: Seq<char>, s: ListenState) -> Option<ListenState> {
    match lines_step(split(data, "\n"@), s) {
        Some(t) => finish(data, t),
        None => None,
    }
}

/// From `s0` on, each event went to a listener that waited in `s0` and
/// waits no more, no listener got two, and no listener began to wait.
pub open spec fn delivered_once(s0: ListenState, s: ListenState) -> bool {
    &&& s.listeners.subset_of(s0.listeners)
    &&& forall|i: int| 0 <= i < s.delivered.len() ==> s0.listeners.contains(#[trigger] s.delivered[i].0)
        && !s.listeners.contains(s.delivered[i].0)
    &&& forall|i: int, j: int| 0 <= i < j < s.delivered.len() ==> #[trigger] s.delivered[i].0 != #[trigger] s.delivered[j].0
}

proof fn lemma_read_all_once(r: Reading, s0: ListenState, s: ListenState, c: Seq<GroupsView>)
    requires
        delivered_once(s0, s),
    ensures
        read_all(r, s, c) matches Some(t) ==> delivered_once(s0, t),
    decreases c.len(),
{
    if c.len() > 0 {
        lemma_read_all_once(r, s0, s, c.drop_last());
    }
}

proof fn lemma_line_once(line: Seq<char>, s0: ListenState, s: ListenState)
    requires
        delivered_once(s0, s),
    ensures
        line_step(line, s) matches Some(t) ==> delivered_once(s0, t),
{
    let s1 = after_prompt(line, s);
    lemma_read_all_once(Reading::Breakpoint, s0, s1, regex_captures(RE_BREAKPOINT@, line));
    if let Some(t1) = read_matches(RE_BREAKPOINT@, Reading::Breakpoint, line, Some(s1)) {
        lemma_read_all_once(Reading::Jump, s0, t1, regex_captures(RE_JUMP_TO_POSITION@, line));
        if let Some(t2) = read_matches(RE_JUMP_TO_POSITION@, Reading::Jump, line, Some(t1)) {
            lemma_read_all_once(Reading::Finished, s0, t2, regex_captures(RE_PROCESS_EXITED@, line));
            if let Some(t3) = read_matches(RE_PROCESS_EXITED@, Reading::Finished, line, Some(t2)) {
                lemma_read_all_once(Reading::ExitCode, s0, t3, regex_captures(RE_PROCESS_EXITED_WITH_CODE@, line));
            }
        }
    }
}

proof fn lemma_lines_once(lines: Seq<Seq<char>>, s0: ListenState, s: ListenState)
    requires
        delivered_once(s0, s),
    ensures
        lines_step(lines, s) matches Some(t) ==> delivered_once(s0, t),
    decreases lines.len(),
{
    if lines.len() > 0 {
        lemma_lines_once(lines.drop_last(), s0, s);
        if let Some(t) = lines_step(lines.drop_last(), s) {
            lemma_line_once(lines.last(), s0, t);
        }
    }
}

/// Each event that a chunk of Python's output delivers goes to a listener
/// of its kind that was waiting and waits no more; no listener gets two,
/// and output never makes a listener wait.
pub proof fn lemma_delivered_once(a: AnalyserView, data: Seq<char>)
    ensures
        ({
            let s0 = ListenState { pid: a.pid, status: a.status, listeners: a.listeners, events: seq![], delivered: seq![] };
            stdout_step(data, s0) matches Some(t) ==> delivered_once(s0, t)
        }),
{
    let s0 = ListenState { pid: a.pid, status: a.status, listeners: a.listeners, events: seq![], delivered: seq![] };
    lemma_lines_once(split(data, "\n"@), s0, s0);
}

/// The kinds of event that listeners wait for.
#[derive(Debug)]
struct Waiting {
    launch: bool,
    breakpoint: bool,
    print_variable: bool,
}

/// Whether a listener of `kind` waits.
spec fn waits(w: Waiting, kind: Listener) -> bool {
    match kind {
        Listener::Launch => w.launch,
        Listener::Breakpoint => w.breakpoint,
        Listener::PrintVariable => w.print_variable,
    }
}

/// The kinds waited for.
spec fn waiting_set(w: Waiting) -> Set<Listener> {
    Set::new(|k: Listener| waits(w, k))
}

impl Waiting {
    /// Whether a listener of `kind` waits.
    fn get(&self, kind: Listener) -> (r: bool)
        ensures
            r == waits(*self, kind),
    {
        match kind {
            Listener::Launch => self.launch,
            Listener::Breakpoint => self.breakpoint,
            Listener::PrintVariable => self.print_variable,
        }
    }

    /// Sets whether a listener of `kind` waits.
    fn set(&mut self, kind: Listener, on: bool)
        ensures
            waiting_set(*final(self)) == (if on { waiting_set(*old(self)).insert(kind) } else { waiting_set(*old(self)).remove(kind) }),
    {
        match kind {
            Listener::Launch => self.launch = on,
            Listener::Breakpoint => self.breakpoint = on,
            Listener::PrintVariable => self.print_variable = on,
        }
        assert(waiting_set(*self) =~= (if on { waiting_set(*old(self)).insert(kind) } else { waiting_set(*old(self)).remove(kind) }));
    }
}

/// What reading has given so far.
struct Acc {
    pid: Option<u64>,
    status: PDBStatus,
    waiting: Waiting,
    events: Vec<crate::notify::Event>,
    delivered: Vec<(Listener, Event)>,
}

/// The models of the events delivered.
pub open spec fn delivered_view(d: Seq<(Listener, Event)>) -> Seq<(Listener, EventForListenerView)> {
    d.map_values(|x: (Listener, Event)| (x.0, x.1@))
}

/// The model of what reading has given so far.
spec fn acc_view(a: Acc) -> ListenState {
    ListenState {
        pid: a.pid,
        status: a.status@,
        listeners: waiting_set(a.waiting),
        events: events_view(a.events@),
        delivered: delivered_view(a.delivered@),
    }
}

/// The model of what reading has given, where it could be read.
spec fn opt_acc(a: Option<Acc>) -> Option<ListenState> {
    match a {
        Some(x) => Some(acc_view(x)),
        None => None,
    }
}

/// `ev` delivered to the listener of `kind`; see `deliver`.
fn deliver_exec(mut s: Acc, kind: Listener, ev: Event) -> (r: Acc)
    ensures
        acc_view(r) == deliver(acc_view(s), kind, ev@),
{
    if s.waiting.get(kind) {
        s.waiting.set(kind, false);
        let ghost d0 = s.delivered@;
        s.delivered.push((kind, ev));
        assert(delivered_view(s.delivered@) =~= delivered_view(d0).push((kind, ev@)));
    }
    s
}

/// `e` told to Vim.
fn tell_exec(mut s: Acc, e: crate::notify::Event) -> (r: Acc)
    ensures
        acc_view(r) == tell(acc_view(s), e@),
{
    proof { lemma_events_view_push(s.events@, e); }
    s.events.push(e);
    s
}

/// What one match does; see `read`.
fn read_exec(r: &Reading, s: Acc, g: &Vec<Option<String>>) -> (res: Option<Acc>)
    ensures
        opt_acc(res) == read(*r, acc_view(s), groups_view(g@)),
{
    match r {
        Reading::Breakpoint => match (get_group(g, 2), get_group(g, 3)) {
            (Some(f), Some(l)) => match parse_u64(l.as_str()) {
                Some(n) => {
                    let s = tell_exec(s, crate::notify::Event::BreakpointSet(String::from_str(f.as_str()), n));
                    Some(deliver_exec(s, Listener::Breakpoint, Event::BreakpointSet(FileLocation::new(f, n))))
                },
                None => None,
            },
            _ => None,
        },
        Reading::Jump => match (get_group(g, 1), get_group(g, 2)) {
            (Some(f), Some(l)) => match parse_u64(l.as_str()) {
                Some(n) => Some(tell_exec(s, crate::notify::Event::JumpToPosition(f, n))),
                None => None,
            },
            _ => None,
        },
        Reading::Finished => match s.pid {
            Some(p) => Some(tell_exec(s, crate::notify::Event::ProcessExited(p, 0))),
            None => None,
        },
        Reading::ExitCode => match (get_group(g, 1), s.pid) {
            (Some(c), Some(p)) => match parse_i64(c.as_str()) {
                Some(code) => Some(tell_exec(s, crate::notify::Event::ProcessExited(p, code))),
                None => None,
            },
            _ => None,
        },
    }
}

/// What the matches of `pattern` in `line` do; see `read_matches`.
fn read_matches_exec(pattern: &str, r: Reading, line: &str, s: Option<Acc>) -> (res: Option<Acc>)
    ensures
        opt_acc(res) == read_matches(pattern@, r, line@, opt_acc(s)),
{
    let s = match s {
        Some(s) => s,
        None => return None,
    };
    let c = captures(pattern, line);
    let ghost cv = captures_view(c@);
    let ghost s0 = acc_view(s);
    let mut acc: Option<Acc> = Some(s);
    let mut i: usize = 0;
    while i < c.len()
        invariant
            i <= c@.len(),
            cv == captures_view(c@),
            cv == regex_captures(pattern@, line@),
            opt_acc(acc) == read_all(r, s0, cv.take(i as int)),
        decreases c@.len() - i,
    {
        assert(cv.take(i + 1).drop_last() == cv.take(i as int));
        assert(cv[i as int] == groups_view(c@[i as int]@));
        acc = match acc {
            Some(t) => read_exec(&r, t, &c[i]),
            None => None,
        };
        i = i + 1;
    }
    assert(cv.take(c@.len() as int) == cv);
    acc
}

/// What one line does; see `line_step`.
fn line_step_exec(line: &str, mut s: Acc) -> (r: Option<Acc>)
    ensures
        opt_acc(r) == line_step(line@, acc_view(s)),
{
    if text_contains(line, "(Pdb) ") {
        if let PDBStatus::Idle = s.status {
            s.status = PDBStatus::Running;
            s = deliver_exec(s, Listener::Launch, Event::Launched);
        }
    }
    let s1 = read_matches_exec(RE_BREAKPOINT, Reading::Breakpoint, line, Some(s));
    let s2 = read_matches_exec(RE_JUMP_TO_POSITION, Reading::Jump, line, s1);
    let s3 = read_matches_exec(RE_PROCESS_EXITED, Reading::Finished, line, s2);
    read_matches_exec(RE_PROCESS_EXITED_WITH_CODE, Reading::ExitCode, line, s3)
}

/// The value in a chunk; see `cut_value`.
fn cut_value_exec(data: &str, waits: bool) -> (r: Option<String>)
    ensures
        match r {
            Some(v) => cut_value(data@, waits) == Some(v@),
            None => cut_value(data@, waits) is None,
        },
{
    let b = data.as_bytes();
    proof { encode_utf8_valid_utf8(data@); }
    if b.len() < 2 {
        return None;
    }
    if !waits {
        return Some(String::new());
    }
    if !data.is_char_boundary(b.len() - 2) {
        return None;
    }
    let end = b.len() - 2;
    let (head, _) = data.split_at(end);
    proof {
        assert(head.spec_bytes() == b@.subrange(0, end as int));
        encode_utf8_decode_utf8(head@);
    }
    Some(String::from_str(head))
}

/// After the lines; see `finish`.
fn finish_exec(data: &str, s: Acc) -> (r: Option<Acc>)
    ensures
        opt_acc(r) == finish(data@, acc_view(s)),
{
    let v = match &s.status {
        PDBStatus::Printing(v) => Variable::new(String::from_str(v.name())),
        _ => return Some(s),
    };
    let waits = s.waiting.get(Listener::PrintVariable);
    match cut_value_exec(data, waits) {
        Some(value) => Some(deliver_exec(s, Listener::PrintVariable, Event::PrintVariable(v, value))),
        None => None,
    }
}

/// The lines of `s`, cut at each newline.
fn lines_of(s: &str) -> (r: Vec<Vec<char>>)
    ensures
        pieces_view(r@) == split(s@, "\n"@),
{
    let chars = chars_of(s);
    let sep: Vec<char> = vec!['\n'];
    assert(sep@ == "\n"@) by {
        reveal_strlit("\n");
    }
    split_chars(chars.as_slice(), sep.as_slice())
}

/// The model of the analyser: the pid of the program, where Python
/// stands, and the kinds of event that listeners wait for.
pub struct AnalyserView {
    pub pid: Option<u64>,
    pub status: PDBStatusView,
    pub listeners: Set<Listener>,
}

/// Reads Python's output for the listeners waiting on it.
#[derive(Debug)]
pub struct Analyser {
    status: PDBStatus,
    pid: Option<u64>,
    waiting: Waiting,
}

impl View for Analyser {
    type V = AnalyserView;

    closed spec fn view(&self) -> AnalyserView {
        AnalyserView { pid: self.pid, status: self.status@, listeners: waiting_set(self.waiting) }
    }
}

/// A copy of `s`.
fn copy_status(s: &PDBStatus) -> (r: PDBStatus)
    ensures
        r@ == s@,
{
    match s {
        PDBStatus::Idle => PDBStatus::Idle,
        PDBStatus::Running => PDBStatus::Running,
        PDBStatus::Printing(v) => PDBStatus::Printing(Variable::new(String::from_str(v.name()))),
    }
}

impl Analyser {
    /// An analyser for a Python that has not started, with no listener.
    pub fn new() -> (r: Analyser)
        ensures
            r@.pid is None,
            r@.status is Idle,
            r@.listeners == Set::<Listener>::empty(),
    {
        let r = Analyser {
            status: PDBStatus::Idle,
            pid: None,
            waiting: Waiting { launch: false, breakpoint: false, print_variable: false },
        };
        assert(waiting_set(r.waiting) =~= Set::<Listener>::empty());
        r
    }

    /// Where Python stands.
    pub fn get_status(&self) -> (r: PDBStatus)
        ensures
            r@ == self@.status,
    {
        copy_status(&self.status)
    }

    /// Python now stands at `status`.
    pub fn set_status(&mut self, status: PDBStatus)
        ensures
            final(self)@ == (AnalyserView { status: status@, ..old(self)@ }),
    {
        self.status = status;
    }

    /// A listener now waits for the next event of `kind`.
    pub fn add_listener(&mut self, kind: Listener)
        ensures
            final(self)@ == (AnalyserView { listeners: old(self)@.listeners.insert(kind), ..old(self)@ }),
    {
        self.waiting.set(kind, true);
    }

    /// The program now runs under this pid.
    pub fn set_pid(&mut self, pid: u64)
        ensures
            final(self)@ == (AnalyserView { pid: Some(pid), ..old(self)@ }),
    {
        self.pid = Some(pid);
    }

    /// Reads a chunk of Python's standard output, line by line, then the
    /// value of a variable being printed: the events for Vim and those
    /// delivered to listeners, in order; `None`, with the analyser left as
    /// it was, where a number does not read, an exit is reported while no
    /// pid is known, or a printed value does not cut.
    pub fn analyse_stdout(&mut self, s: &str) -> (r: Option<(Vec<crate::notify::Event>, Vec<(Listener, Event)>)>)
        ensures
            match (r, stdout_step(s@, ListenState {
                pid: old(self)@.pid,
                status: old(self)@.status,
                listeners: old(self)@.listeners,
                events: seq![],
                delivered: seq![],
            })) {
                (Some((e, d)), Some(t)) => events_view(e@) == t.events && delivered_view(d@) == t.delivered
                    && final(self)@ == (AnalyserView { pid: t.pid, status: t.status, listeners: t.listeners }),
                (None, None) => final(self)@ == old(self)@,
                _ => false,
            },
    {
        let lines = lines_of(s);
        let ghost lv = pieces_view(lines@);
        let start = Acc {
            pid: self.pid,
            status: copy_status(&self.status),
            waiting: Waiting {
                launch: self.waiting.launch,
                breakpoint: self.waiting.breakpoint,
                print_variable: self.waiting.print_variable,
            },
            events: Vec::new(),
            delivered: Vec::new(),
        };
        let ghost s0 = acc_view(start);
        assert(s0.events =~= Seq::<EventView>::empty());
        assert(s0.delivered =~= Seq::<(Listener, EventForListenerView)>::empty());
        let mut acc: Option<Acc> = Some(start);
        let mut i: usize = 0;
        while i < lines.len()
            invariant
                i <= lines@.len(),
                lv == pieces_view(lines@),
                opt_acc(acc) == lines_step(lv.take(i as int), s0),
            decreases lines@.len() - i,
        {
            assert(lv.take(i + 1).drop_last() == lv.take(i as int));
            assert(lv[i as int] == lines@[i as int]@);
            let line = string_of(lines[i].as_slice());
            acc = match acc {
                Some(t) => line_step_exec(line.as_str(), t),
                None => None,
            };
            i = i + 1;
        }
        assert(lv.take(lines@.len() as int) == lv);
        let done = match acc {
            Some(t) => finish_exec(s, t),
            None => None,
        };
        match done {
            Some(t) => {
                self.pid = t.pid;
                self.status = t.status;
                self.waiting = t.waiting;
                Some((t.events, t.delivered))
            },
            None => None,
        }
    }
}

} // verus!
