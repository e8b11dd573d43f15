//! PDB's output read for callers waiting on a reply: a breakpoint waits
//! for PDB to confirm it, a print waits for the value, and what PDB says
//! of positions and exits is told to Vim.

use vstd::prelude::*;
use vstd::string::*;
use vstd::utf8::*;
use crate::text::{chars_of, string_of, split, split_chars, pieces_view, parse_u64, parse_i64, spec_parse_u64,
    spec_parse_i64, str_eq, contains_text, text_contains};
use crate::pattern::{captures, captures_view, groups_view, group, get_group, regex_captures, GroupsView};
use crate::notify::{Event, EventView, events_view, lemma_events_view_push};

verus! {

/// PDB set a breakpoint.
pub const RE_BREAKPOINT: &'static str = "^Breakpoint (\\d*) at (.*):(\\d*)$";
/// PDB stopped at a position.
pub const RE_JUMP_TO_POSITION: &'static str = "^> (.*)\\((\\d*)\\)[<>\\w]*\\(\\)$";
/// The program ran to its end.
pub const RE_PROCESS_EXITED: &'static str = "^The program finished and will be restarted$";
/// The program called `sys.exit`.
pub const RE_PROCESS_EXITED_WITH_CODE: &'static str = "^The program exited via sys.exit\\(\\)\\. Exit status: (-?\\d*)$";

/// Where the handler stands with PDB.
#[derive(Clone, Debug, PartialEq, Eq)]
pub enum PDBStatus {
    /// Nothing started yet.
    Idle,
    Running,
    /// The print command for this variable was sent.
    ReadyToPrint(String),
    /// The value of this variable comes in the next output.
    Printing(String),
}

/// The model of the handler's state.
pub enum PDBStatusView {
    Idle,
    Running,
    ReadyToPrint(Seq<char>),
    Printing(Seq<char>),
}

impl View for PDBStatus {
    type V = PDBStatusView;

    open spec fn view(&self) -> PDBStatusView {
        match self {
            PDBStatus::Idle => PDBStatusView::Idle,
            PDBStatus::Running => PDBStatusView::Running,
            PDBStatus::ReadyToPrint(v) => PDBStatusView::ReadyToPrint(v@),
            PDBStatus::Printing(v) => PDBStatusView::Printing(v@),
        }
    }
}

/// What a caller waits on.
#[derive(Clone, Debug, PartialEq, Eq)]
pub enum PDBInput {
    /// A breakpoint at this file and line.
    Breakpoint(String, u64),
    /// The value of this variable.
    PrintVariable(String),
}

/// The model of what a caller waits on.
pub enum PDBInputView {
    Breakpoint(Seq<char>, u64),
    PrintVariable(Seq<char>),
}

impl View for PDBInput {
    type V = PDBInputView;

    open spec fn view(&self) -> PDBInputView {
        match self {
            PDBInput::Breakpoint(f, n) => PDBInputView::Breakpoint(f@, *n),
            PDBInput::PrintVariable(v) => PDBInputView::PrintVariable(v@),
        }
    }
}

/// What a waiting caller is answered.
#[derive(Clone, Debug, PartialEq, Eq)]
pub enum PDBOutput {
    /// No answer to give.
    Empty,
    /// The breakpoint set, at this file and line.
    Breakpoint(String, u64),
    /// The printed value.
    PrintVariable(String),
}

/// The model of an answer.
pub enum PDBOutputView {
    Empty,
    Breakpoint(Seq<char>, u64),
    PrintVariable(Seq<char>),
}

impl View for PDBOutput {
    type V = PDBOutputView;

    open spec fn view(&self) -> PDBOutputView {
        match self {
            PDBOutput::Empty => PDBOutputView::Empty,
            PDBOutput::Breakpoint(f, n) => PDBOutputView::Breakpoint(f@, *n),
            PDBOutput::PrintVariable(v) => PDBOutputView::PrintVariable(v@),
        }
    }
}

/// What reading output has given so far: the pid, the state, what callers
/// still wait on, the events for Vim and the answers given, in order.
pub struct HandlerState {
    pub pid: Option<u64>,
    pub status: PDBStatusView,
    pub waiting: Set<PDBInputView>,
    pub events: Seq<EventView>,
    pub answered: Seq<(PDBInputView, PDBOutputView)>,
}

/// `out` given to the caller waiting on `key`, where one waits; it then
/// waits no more.
pub open spec fn answer(s: HandlerState, key: PDBInputView, out: PDBOutputView) -> HandlerState {
    if s.waiting.contains(key) {
        HandlerState { waiting: s.waiting.remove(key), answered: s.answered.push((key, out)), ..s }
    } else {
        s
    }
}

/// `e` told to Vim.
pub open spec fn tell(s: HandlerState, e: EventView) -> HandlerState {
    HandlerState { events: s.events.push(e), ..s }
}

/// What a match is read for.
pub enum Reading {
    Breakpoint,
    Jump,
    Finished,
    ExitCode,
}

/// What one match does; `None` where a number in it does not read, or an
/// exit is reported while no pid is known.
pub open spec fn read(r: Reading, s: HandlerState, g: GroupsView) -> Option<HandlerState> {
    match r {
        Reading::Breakpoint => match (group(g, 2), group(g, 3)) {
            (Some(f), Some(l)) => match spec_parse_u64(l) {
                Some(n) => Some(answer(
                    tell(s, EventView::BreakpointSet(f, n)),
                    PDBInputView::Breakpoint(f, n),
                    PDBOutputView::Breakpoint(f, n),
                )),
                None => None,
            },
            _ => None,
        },
        Reading::Jump => match (group(g, 1), group(g, 2)) {
            (Some(f), Some(l)) => match spec_parse_u64(l) {
                Some(n) => Some(tell(s, EventView::JumpToPosition(f, n))),
                None => None,
            },
            _ => None,
        },
        Reading::Finished => match s.pid {
            Some(p) => Some(tell(s, EventView::ProcessExited(p, 0))),
            None => None,
        },
        Reading::ExitCode => match (group(g, 1), s.pid) {
            (Some(c), Some(p)) => match spec_parse_i64(c) {
                Some(code) => Some(tell(s, EventView::ProcessExited(p, code))),
                None => None,
            },
            _ => None,
        },
    }
}

/// What the matches `c` do, in order.
pub open spec fn read_all(r: Reading, s: HandlerState, c: Seq<GroupsView>) -> Option<HandlerState>
    decreases c.len(),
{
    if c.len() == 0 {
        Some(s)
    } else {
        match read_all(r, s, c.drop_last()) {
            Some(t) => read(r, t, c.last()),
            None => None,
        }
    }
}

/// What the matches of `pattern` in `line` do.
pub open spec fn read_matches(pattern: Seq<char>, r: Reading, line: Seq<char>, s: Option<HandlerState>) -> Option<HandlerState> {
    match s {
        Some(s) => read_all(r, s, regex_captures(pattern, line)),
        None => None,
    }
}

/// A prompt in `line` ends a print that is under way.
pub open spec fn after_prompt(line: Seq<char>, s: HandlerState) -> HandlerState {
    if contains_text(line, "(Pdb) "@) && s.status is Printing {
        HandlerState { status: PDBStatusView::Running, ..s }
    } else {
        s
    }
}

/// What one line of output does.
pub open spec fn line_step(line: Seq<char>, s: HandlerState) -> Option<HandlerState> {
    let s1 = read_matches(RE_BREAKPOINT@, Reading::Breakpoint, line, Some(after_prompt(line, s)));
    let s2 = read_matches(RE_JUMP_TO_POSITION@, Reading::Jump, line, s1);
    let s3 = read_matches(RE_PROCESS_EXITED@, Reading::Finished, line, s2);
    read_matches(RE_PROCESS_EXITED_WITH_CODE@, Reading::ExitCode, line, s3)
}

/// What the lines of a chunk of output do, in order.
pub open spec fn lines_step(lines: Seq<Seq<char>>, s: HandlerState) -> Option<HandlerState>
    decreases lines.len(),
{
    if lines.len() == 0 {
        Some(s)
    } else {
        match lines_step(lines.drop_last(), s) {
            Some(t) => line_step(lines.last(), t),
            None => None,
        }
    }
}

/// A printed value: the output without its last two bytes (the line
/// break); `None` where it is shorter or the cut falls inside a character.
pub open spec fn printed(data: Seq<char>) -> Option<Seq<char>> {
    let b = encode_utf8(data);
    if b.len() >= 2 && is_char_boundary(b, b.len() - 2) {
        Some(decode_utf8(b.subrange(0, b.len() - 2)))
    } else {
        None
    }
}

/// After the lines: a print that was sent now waits for its value, and a
/// print under way takes the whole chunk as the value, for the caller
/// waiting on it; `None` where no caller waits on it or the value does not
/// cut.
pub open spec fn finish(data: Seq<char>, s: HandlerState) -> Option<HandlerState> {
    match s.status {
        PDBStatusView::ReadyToPrint(v) => Some(HandlerState { status: PDBStatusView::Printing(v), ..s }),
        PDBStatusView::Printing(v) => match printed(data) {
            Some(value) => if s.waiting.contains(PDBInputView::PrintVariable(v)) {
                Some(answer(s, PDBInputView::PrintVariable(v), PDBOutputView::PrintVariable(value)))
            } else {
                None
            },
            None => None,
        },
        _ => Some(s),
    }
}

/// What a chunk of output does: its lines, cut at each `\r\n`, then the
/// print under way.
pub open spec fn output_step(data: Seq<char>, s: HandlerState) -> Option<HandlerState> {
    match lines_step(split(data, "\r\n"@), s) {
        Some(t) => finish(data, t),
        None => None,
    }
}

/// The set of what the callers in `v` wait on.
pub open spec fn waiting_set(v: Seq<PDBInput>) -> Set<PDBInputView> {
    Set::new(|x: PDBInputView| exists|i: int| 0 <= i < v.len() && #[trigger] v[i]@ == x)
}

/// A copy of `x`.
fn copy_input(x: &PDBInput) -> (r: PDBInput)
    ensures
        r@ == x@,
{
    match x {
        PDBInput::Breakpoint(f, n) => PDBInput::Breakpoint(String::from_str(f.as_str()), *n),
        PDBInput::PrintVariable(v) => PDBInput::PrintVariable(String::from_str(v.as_str())),
    }
}

/// A copy of `v`.
fn copy_inputs(v: &Vec<PDBInput>) -> (r: Vec<PDBInput>)
    ensures
        r@.len() == v@.len(),
        forall|k: int| 0 <= k < v@.len() ==> #[trigger] r@[k]@ == v@[k]@,
{
    let mut r: Vec<PDBInput> = Vec::new();
    let mut i: usize = 0;
    while i < v.len()
        invariant
            i <= v@.len(),
            r@.len() == i,
            forall|k: int| 0 <= k < i ==> #[trigger] r@[k]@ == v@[k]@,
        decreases v@.len() - i,
    {
        r.push(copy_input(&v[i]));
        i = i + 1;
    }
    r
}

/// Whether `a` and `b` wait on the same thing.
fn same_input(a: &PDBInput, b: &PDBInput) -> (r: bool)
    ensures
        r == (a@ == b@),
{
    match (a, b) {
        (PDBInput::Breakpoint(f, n), PDBInput::Breakpoint(g, m)) => *n == *m && str_eq(f.as_str(), g.as_str()),
        (PDBInput::PrintVariable(v), PDBInput::PrintVariable(w)) => str_eq(v.as_str(), w.as_str()),
        _ => false,
    }
}

/// Whether a caller in `v` waits on `x`.
fn waits_on(v: &Vec<PDBInput>, x: &PDBInput) -> (r: bool)
    ensures
        r == waiting_set(v@).contains(x@),
{
    let mut i: usize = 0;
    while i < v.len()
        invariant
            i <= v@.len(),
            forall|k: int| 0 <= k < i ==> #[trigger] v@[k]@ != x@,
        decreases v@.len() - i,
    {
        if same_input(&v[i], x) {
            assert(v@[i as int]@ == x@);
            return true;
        }
        i = i + 1;
    }
    assert(!waiting_set(v@).contains(x@)) by {
        if exists|k: int| 0 <= k < v@.len() && #[trigger] v@[k]@ == x@ {
            let k = choose|k: int| 0 <= k < v@.len() && #[trigger] v@[k]@ == x@;
            assert(v@[k]@ != x@);
        }
    }
    false
}

/// `v` without the callers waiting on `x`.
fn without(v: Vec<PDBInput>, x: &PDBInput) -> (r: Vec<PDBInput>)
    ensures
        waiting_set(r@) == waiting_set(v@).remove(x@),
{
    let mut out: Vec<PDBInput> = Vec::new();
    let mut i: usize = 0;
    let ghost target = waiting_set(v@).remove(x@);
    while i < v.len()
        invariant
            i <= v@.len(),
            forall|k: int| 0 <= k < out@.len() ==> #[trigger] out@[k]@ != x@,
            forall|k: int| #![trigger out@[k]] 0 <= k < out@.len() ==> exists|j: int| 0 <= j < i && #[trigger] v@[j]@ == out@[k]@,
            forall|j: int| #![trigger v@[j]] 0 <= j < i && v@[j]@ != x@ ==> exists|k: int| 0 <= k < out@.len() && #[trigger] out@[k]@ == v@[j]@,
        decreases v@.len() - i,
    {
        if !same_input(&v[i], x) {
            let e = copy_input(&v[i]);
            let ghost before = out@;
            out.push(e);
            proof {
                assert(out@[before.len() as int]@ == v@[i as int]@);
                assert forall|k: int| #![trigger out@[k]] 0 <= k < out@.len() implies exists|j: int| 0 <= j < i + 1 && #[trigger] v@[j]@ == out@[k]@ by {
                    if k < before.len() {
                        assert(out@[k] == before[k]);
                        let j = choose|j: int| 0 <= j < i && #[trigger] v@[j]@ == before[k]@;
                        assert(v@[j]@ == out@[k]@);
                    } else {
                        assert(v@[i as int]@ == out@[k]@);
                    }
                }
                assert forall|j: int| #![trigger v@[j]] 0 <= j < i + 1 && v@[j]@ != x@ implies exists|k: int| 0 <= k < out@.len() && #[trigger] out@[k]@ == v@[j]@ by {
                    if j < i {
                        let k = choose|k: int| 0 <= k < before.len() && #[trigger] before[k]@ == v@[j]@;
                        assert(out@[k] == before[k]);
                    } else {
                        assert(out@[before.len() as int]@ == v@[j]@);
                    }
                }
            }
        }
        i = i + 1;
    }
    assert(waiting_set(out@) =~= target) by {
        assert forall|y: PDBInputView| waiting_set(out@).contains(y) implies target.contains(y) by {
            let k = choose|k: int| 0 <= k < out@.len() && #[trigger] out@[k]@ == y;
            let j = choose|j: int| 0 <= j < v@.len() && #[trigger] v@[j]@ == out@[k]@;
            assert(v@[j]@ == y);
        }
        assert forall|y: PDBInputView| target.contains(y) implies waiting_set(out@).contains(y) by {
            let j = choose|j: int| 0 <= j < v@.len() && #[trigger] v@[j]@ == y;
            let k = choose|k: int| 0 <= k < out@.len() && #[trigger] out@[k]@ == v@[j]@;
            assert(out@[k]@ == y);
        }
    }
    out
}

/// What reading has given so far.
struct Acc {
    pid: Option<u64>,
    status: PDBStatus,
    waiting: Vec<PDBInput>,
    events: Vec<Event>,
    answered: Vec<(PDBInput, PDBOutput)>,
}

/// The models of the answers given.
pub open spec fn answered_view(d: Seq<(PDBInput, PDBOutput)>) -> Seq<(PDBInputView, PDBOutputView)> {
    d.map_values(|x: (PDBInput, PDBOutput)| (x.0@, x.1@))
}

/// The model of what reading has given so far.
spec fn acc_view(a: Acc) -> HandlerState {
    HandlerState {
        pid: a.pid,
        status: a.status@,
        waiting: waiting_set(a.waiting@),
        events: events_view(a.events@),
        answered: answered_view(a.answered@),
    }
}

/// The model of what reading has given, where it could be read.
spec fn opt_acc(a: Option<Acc>) -> Option<HandlerState> {
    match a {
        Some(x) => Some(acc_view(x)),
        None => None,
    }
}

/// `out` given to the caller waiting on `key`; see `answer`.
fn answer_exec(mut s: Acc, key: PDBInput, out: PDBOutput) -> (r: Acc)
    ensures
        acc_view(r) == answer(acc_view(s), key@, out@),
{
    if waits_on(&s.waiting, &key) {
        let mut w: Vec<PDBInput> = Vec::new();
        std::mem::swap(&mut w, &mut s.waiting);
        s.waiting = without(w, &key);
        let ghost d0 = s.answered@;
        s.answered.push((key, out));
        assert(answered_view(s.answered@) =~= answered_view(d0).push((key@, out@)));
    }
    s
}

/// `e` told to Vim.
fn tell_exec(mut s: Acc, e: Event) -> (r: Acc)
    ensures
        acc_view(r) == tell(acc_view(s), e@),
{
    proof { lemma_events_view_push(s.events@, e); }
    s.events.push(e);
    s
}

/// What one match does; see `read`.
fn read_exec(r: &Reading, s: Acc, g: &Vec<Option<String>>) -> (res: Option<Acc>)
    ensures
        opt_acc(res) == read(*r, acc_view(s), groups_view(g@)),
{
    match r {
        Reading::Breakpoint => match (get_group(g, 2), get_group(g, 3)) {
            (Some(f), Some(l)) => match parse_u64(l.as_str()) {
                Some(n) => {
                    let s = tell_exec(s, Event::BreakpointSet(String::from_str(f.as_str()), n));
                    let key = PDBInput::Breakpoint(String::from_str(f.as_str()), n);
                    Some(answer_exec(s, key, PDBOutput::Breakpoint(f, n)))
                },
                None => None,
            },
            _ => None,
        },
        Reading::Jump => match (get_group(g, 1), get_group(g, 2)) {
            (Some(f), Some(l)) => match parse_u64(l.as_str()) {
                Some(n) => Some(tell_exec(s, Event::JumpToPosition(f, n))),
                None => None,
            },
            _ => None,
        },
        Reading::Finished => match s.pid {
            Some(p) => Some(tell_exec(s, Event::ProcessExited(p, 0))),
            None => None,
        },
        Reading::ExitCode => match (get_group(g, 1), s.pid) {
            (Some(c), Some(p)) => match parse_i64(c.as_str()) {
                Some(code) => Some(tell_exec(s, Event::ProcessExited(p, code))),
                None => None,
            },
            _ => None,
        },
    }
}

/// What the matches of `pattern` in `line` do; see `read_matches`.
fn read_matches_exec(pattern: &str, r: Reading, line: &str, s: Option<Acc>) -> (res: Option<Acc>)
    ensures
        opt_acc(res) == read_matches(pattern@, r, line@, opt_acc(s)),
{
    let s = match s {
        Some(s) => s,
        None => return None,
    };
    let c = captures(pattern, line);
    let ghost cv = captures_view(c@);
    let ghost s0 = acc_view(s);
    let mut acc: Option<Acc> = Some(s);
    let mut i: usize = 0;
    while i < c.len()
        invariant
            i <= c@.len(),
            cv == captures_view(c@),
            cv == regex_captures(pattern@, line@),
            opt_acc(acc) == read_all(r, s0, cv.take(i as int)),
        decreases c@.len() - i,
    {
        assert(cv.take(i + 1).drop_last() == cv.take(i as int));
        assert(cv[i as int] == groups_view(c@[i as int]@));
        acc = match acc {
            Some(t) => read_exec(&r, t, &c[i]),
            None => None,
        };
        i = i + 1;
    }
    assert(cv.take(c@.len() as int) == cv);
    acc
}

/// What one line does; see `line_step`.
fn line_step_exec(line: &str, mut s: Acc) -> (r: Option<Acc>)
    ensures
        opt_acc(r) == line_step(line@, acc_view(s)),
{
    let prompt = text_contains(line, "(Pdb) ");
    if prompt {
        if let PDBStatus::Printing(_) = s.status {
            s.status = PDBStatus::Running;
        }
    }
    let s1 = read_matches_exec(RE_BREAKPOINT, Reading::Breakpoint, line, Some(s));
    let s2 = read_matches_exec(RE_JUMP_TO_POSITION, Reading::Jump, line, s1);
    let s3 = read_matches_exec(RE_PROCESS_EXITED, Reading::Finished, line, s2);
    read_matches_exec(RE_PROCESS_EXITED_WITH_CODE, Reading::ExitCode, line, s3)
}

/// A printed value; see `printed`.
fn printed_exec(data: &str) -> (r: Option<String>)
    ensures
        match r {
            Some(v) => printed(data@) == Some(v@),
            None => printed(data@) is None,
        },
{
    let b = data.as_bytes();
    proof { encode_utf8_valid_utf8(data@); }
    if b.len() < 2 || !data.is_char_boundary(b.len() - 2) {
        return None;
    }
    let end = b.len() - 2;
    let (head, _) = data.split_at(end);
    proof {
        assert(head.spec_bytes() == b@.subrange(0, end as int));
        encode_utf8_decode_utf8(head@);
    }
    Some(String::from_str(head))
}

/// After the lines; see `finish`.
fn finish_exec(data: &str, mut s: Acc) -> (r: Option<Acc>)
    ensures
        opt_acc(r) == finish(data@, acc_view(s)),
{
    let mut st = PDBStatus::Idle;
    std::mem::swap(&mut st, &mut s.status);
    match st {
        PDBStatus::ReadyToPrint(v) => {
            s.status = PDBStatus::Printing(v);
            Some(s)
        },
        PDBStatus::Printing(v) => {
            let ghost vv = v@;
            match printed_exec(data) {
                Some(value) => {
                    let key = PDBInput::PrintVariable(String::from_str(v.as_str()));
                    s.status = PDBStatus::Printing(v);
                    if waits_on(&s.waiting, &key) {
                        Some(answer_exec(s, key, PDBOutput::PrintVariable(value)))
                    } else {
                        None
                    }
                },
                None => None,
            }
        },
        other => {
            s.status = other;
            Some(s)
        },
    }
}

/// The lines of `s`, cut at each `\r\n`.
fn lines_of(s: &str) -> (r: Vec<Vec<char>>)
    ensures
        pieces_view(r@) == split(s@, "\r\n"@),
{
    let chars = chars_of(s);
    let sep: Vec<char> = vec!['\r', '\n'];
    assert(sep@ == "\r\n"@) by {
        reveal_strlit("\r\n");
    }
    split_chars(chars.as_slice(), sep.as_slice())
}

/// From `s0` on, each answer went to a caller that waited in `s0` and waits
/// no more, no caller was answered twice, and no caller began to wait.
pub open spec fn answered_once(s0: HandlerState, s: HandlerState) -> bool {
    &&& s.waiting.subset_of(s0.waiting)
    &&& forall|i: int| 0 <= i < s.answered.len() ==> s0.waiting.contains(#[trigger] s.answered[i].0)
        && !s.waiting.contains(s.answered[i].0)
    &&& forall|i: int, j: int| 0 <= i < j < s.answered.len() ==> #[trigger] s.answered[i].0 != #[trigger] s.answered[j].0
}

proof fn lemma_read_once(r: Reading, s0: HandlerState, s: HandlerState, g: GroupsView)
    requires
        answered_once(s0, s),
    ensures
        read(r, s, g) matches Some(t) ==> answered_once(s0, t),
{
}

proof fn lemma_read_all_once(r: Reading, s0: HandlerState, s: HandlerState, c: Seq<GroupsView>)
    requires
        answered_once(s0, s),
    ensures
        read_all(r, s, c) matches Some(t) ==> answered_once(s0, t),
    decreases c.len(),
{
    if c.len() > 0 {
        lemma_read_all_once(r, s0, s, c.drop_last());
        if let Some(t) = read_all(r, s, c.drop_last()) {
            lemma_read_once(r, s0, t, c.last());
        }
    }
}

proof fn lemma_line_once(line: Seq<char>, s0: HandlerState, s: HandlerState)
    requires
        answered_once(s0, s),
    ensures
        line_step(line, s) matches Some(t) ==> answered_once(s0, t),
{
    let s1 = after_prompt(line, s);
    lemma_read_all_once(Reading::Breakpoint, s0, s1, regex_captures(RE_BREAKPOINT@, line));
    if let Some(t1) = read_matches(RE_BREAKPOINT@, Reading::Breakpoint, line, Some(s1)) {
        lemma_read_all_once(Reading::Jump, s0, t1, regex_captures(RE_JUMP_TO_POSITION@, line));
        if let Some(t2) = read_matches(RE_JUMP_TO_POSITION@, Reading::Jump, line, Some(t1)) {
            lemma_read_all_once(Reading::Finished, s0, t2, regex_captures(RE_PROCESS_EXITED@, line));
            if let Some(t3) = read_matches(RE_PROCESS_EXITED@, Reading::Finished, line, Some(t2)) {
                lemma_read_all_once(Reading::ExitCode, s0, t3, regex_captures(RE_PROCESS_EXITED_WITH_CODE@, line));
            }
        }
    }
}

proof fn lemma_lines_once(lines: Seq<Seq<char>>, s0: HandlerState, s: HandlerState)
    requires
        answered_once(s0, s),
    ensures
        lines_step(lines, s) matches Some(t) ==> answered_once(s0, t),
    decreases lines.len(),
{
    if lines.len() > 0 {
        lemma_lines_once(lines.drop_last(), s0, s);
        if let Some(t) = lines_step(lines.drop_last(), s) {
            lemma_line_once(lines.last(), s0, t);
        }
    }
}

/// Each answer a chunk of output gives goes to a caller that was waiting
/// and waits no more; no caller is answered twice, and output never makes
/// a caller wait.
pub proof fn lemma_answered_once(h: PdbHandlerView, data: Seq<char>)
    ensures
        ({
            let s0 = HandlerState { pid: h.pid, status: h.status, waiting: h.waiting, events: seq![], answered: seq![] };
            output_step(data, s0) matches Some(t) ==> answered_once(s0, t)
        }),
{
    let s0 = HandlerState { pid: h.pid, status: h.status, waiting: h.waiting, events: seq![], answered: seq![] };
    lemma_lines_once(split(data, "\r\n"@), s0, s0);
}

/// The model of the handler: the pid of the program, the state, and what
/// callers wait on.
pub struct PdbHandlerView {
    pub pid: Option<u64>,
    pub status: PDBStatusView,
    pub waiting: Set<PDBInputView>,
}

/// Reads PDB's output for the callers waiting on it.
#[derive(Debug)]
pub struct PdbHandler {
    pid: Option<u64>,
    status: PDBStatus,
    waiting: Vec<PDBInput>,
}

impl View for PdbHandler {
    type V = PdbHandlerView;

    closed spec fn view(&self) -> PdbHandlerView {
        PdbHandlerView { pid: self.pid, status: self.status@, waiting: waiting_set(self.waiting@) }
    }
}

impl PdbHandler {
    /// A handler with no program, no state and no caller waiting.
    pub fn new() -> (r: PdbHandler)
        ensures
            r@.pid is None,
            r@.status is Idle,
            r@.waiting == Set::<PDBInputView>::empty(),
    {
        let r = PdbHandler { pid: None, status: PDBStatus::Idle, waiting: Vec::new() };
        assert(waiting_set(r.waiting@) =~= Set::<PDBInputView>::empty());
        r
    }

    /// The program now runs under this pid.
    pub fn set_pid(&mut self, pid: u64)
        ensures
            final(self)@ == (PdbHandlerView { pid: Some(pid), ..old(self)@ }),
    {
        self.pid = Some(pid);
    }

    /// The handler's state is now `status`.
    pub fn set_status(&mut self, status: PDBStatus)
        ensures
            final(self)@ == (PdbHandlerView { status: status@, ..old(self)@ }),
    {
        self.status = status;
    }

    /// The handler's state.
    pub fn get_status(&self) -> (r: PDBStatus)
        ensures
            r@ == self@.status,
    {
        match &self.status {
            PDBStatus::Idle => PDBStatus::Idle,
            PDBStatus::Running => PDBStatus::Running,
            PDBStatus::ReadyToPrint(v) => PDBStatus::ReadyToPrint(String::from_str(v.as_str())),
            PDBStatus::Printing(v) => PDBStatus::Printing(String::from_str(v.as_str())),
        }
    }

    /// A caller now waits on `key`.
    pub fn add_listener(&mut self, key: PDBInput)
        ensures
            final(self)@ == (PdbHandlerView { waiting: old(self)@.waiting.insert(key@), ..old(self)@ }),
    {
        if !waits_on(&self.waiting, &key) {
            let ghost w0 = self.waiting@;
            self.waiting.push(key);
            assert(waiting_set(self.waiting@) =~= waiting_set(w0).insert(self.waiting@[w0.len() as int]@)) by {
                assert forall|y: PDBInputView| waiting_set(self.waiting@).contains(y) implies waiting_set(w0).insert(self.waiting@[w0.len() as int]@).contains(y) by {
                    let k = choose|k: int| 0 <= k < self.waiting@.len() && #[trigger] self.waiting@[k]@ == y;
                    if k < w0.len() {
                        assert(w0[k]@ == y);
                    }
                }
                assert forall|y: PDBInputView| waiting_set(w0).insert(self.waiting@[w0.len() as int]@).contains(y) implies waiting_set(self.waiting@).contains(y) by {
                    if y != self.waiting@[w0.len() as int]@ {
                        let k = choose|k: int| 0 <= k < w0.len() && #[trigger] w0[k]@ == y;
                        assert(self.waiting@[k]@ == y);
                    }
                }
            }
        } else {
            assert(waiting_set(self.waiting@).insert(key@) =~= waiting_set(self.waiting@));
        }
    }

    /// Reads a chunk of PDB's output: its lines, cut at each `\r\n`, then
    /// the print under way. Gives the events for Vim and the answers to
    /// waiting callers, in order; `None`, with the handler left as it was,
    /// where a number does not read, an exit is reported while no pid is
    /// known, or a print under way has no caller waiting on it or a value
    /// that does not cut.
    pub fn analyse_output(&mut self, data: &str) -> (r: Option<(Vec<Event>, Vec<(PDBInput, PDBOutput)>)>)
        ensures
            match (r, output_step(data@, HandlerState {
                pid: old(self)@.pid,
                status: old(self)@.status,
                waiting: old(self)@.waiting,
                events: seq![],
                answered: seq![],
            })) {
                (Some((e, d)), Some(t)) => events_view(e@) == t.events && answered_view(d@) == t.answered
                    && final(self)@ == (PdbHandlerView { pid: t.pid, status: t.status, waiting: t.waiting }),
                (None, None) => final(self)@ == old(self)@,
                _ => false,
            },
    {
        let lines = lines_of(data);
        let ghost lv = pieces_view(lines@);
        let start = Acc {
            pid: self.pid,
            status: self.get_status(),
            waiting: copy_inputs(&self.waiting),
            events: Vec::new(),
            answered: Vec::new(),
        };
        assert(waiting_set(start.waiting@) =~= waiting_set(self.waiting@)) by {
            assert forall|y: PDBInputView| waiting_set(start.waiting@).contains(y) implies waiting_set(self.waiting@).contains(y) by {
                let k = choose|k: int| 0 <= k < start.waiting@.len() && #[trigger] start.waiting@[k]@ == y;
                assert(self.waiting@[k]@ == y);
            }
            assert forall|y: PDBInputView| waiting_set(self.waiting@).contains(y) implies waiting_set(start.waiting@).contains(y) by {
                let k = choose|k: int| 0 <= k < self.waiting@.len() && #[trigger] self.waiting@[k]@ == y;
                assert(start.waiting@[k]@ == y);
            }
        }
        let ghost s0 = acc_view(start);
        assert(s0.events =~= Seq::<EventView>::empty());
        assert(s0.answered =~= Seq::<(PDBInputView, PDBOutputView)>::empty());
        let mut acc: Option<Acc> = Some(start);
        let mut i: usize = 0;
        while i < lines.len()
            invariant
                i <= lines@.len(),
                lv == pieces_view(lines@),
                opt_acc(acc) == lines_step(lv.take(i as int), s0),
            decreases lines@.len() - i,
        {
            assert(lv.take(i + 1).drop_last() == lv.take(i as int));
            assert(lv[i as int] == lines@[i as int]@);
            let line = string_of(lines[i].as_slice());
            acc = match acc {
                Some(t) => line_step_exec(line.as_str(), t),
                None => None,
            };
            i = i + 1;
        }
        assert(lv.take(lines@.len() as int) == lv);
        let done = match acc {
            Some(t) => finish_exec(data, t),
            None => None,
        };
        match done {
            Some(t) => {
                self.pid = t.pid;
                self.status = t.status;
                self.waiting = t.waiting;
                Some((t.events, t.answered))
            },
            None => None,
        }
    }
}

} // verus!
