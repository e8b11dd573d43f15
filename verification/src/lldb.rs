//! What PADRE makes of LLDB's output, and what it sends to LLDB.
//!
//! The analyser follows LLDB's state: it starts out processing its own
//! setup, is `Listening` once LLDB shows its prompt, and `Processing` a
//! message from the moment one is sent until the next prompt. Each chunk of
//! output is read line by line for breakpoints, positions and processes
//! starting and exiting, which become events for Vim.

use vstd::prelude::*;
use vstd::string::*;
use crate::text::{
    bytes_from, bytes_upto, bytes_start_with, str_eq, lemma_split_len, chars_of, string_of, split_chars, split, pieces_view, parse_u64, parse_i64, u64_text, i64_text,
    spec_parse_u64, spec_parse_i64, decimal, decimal_i64,
};
use crate::json::{utf8_lossy, utf8_lossy_text};
use crate::request::{FileLocation, FileLocationView, Variable};
use crate::pattern::{captures, get_group, regex_captures, captures_view, groups_view, group, GroupsView};
use crate::notify::{
    Event, EventView, LogLevel, events_view, append_events, lemma_events_view_push, opt_cat, events_of, opt_events,
    cat_opt, no_jumps, opt_no_jumps, lemma_cat_no_jumps, lemma_events_of_no_jumps,
};

verus! {

/// A breakpoint that LLDB resolved to a column.
pub const RE_BREAKPOINT: &'static str = "Breakpoint (\\d+): where = .* at (.*):(\\d+):\\d+, address = 0x[0-9a-f]*$";
/// A breakpoint that LLDB resolved to a line.
pub const RE_BREAKPOINT_2: &'static str = "Breakpoint (\\d+): where = .* at (.*):(\\d+), address = 0x[0-9a-f]*$";
/// A breakpoint that LLDB could not resolve yet.
pub const RE_BREAKPOINT_PENDING: &'static str = "Breakpoint (\\d+): no locations \\(pending\\)\\.$";
/// A frame line: LLDB stopped somewhere.
pub const RE_STOPPED_AT_POSITION: &'static str = " *frame #\\d.*$";
/// A frame line with a file and line number.
pub const RE_JUMP_TO_POSITION: &'static str = "^ *frame #\\d at (\\S+):(\\d+)$";
/// A process was launched.
pub const RE_PROCESS_LAUNCHED: &'static str = "Process (\\d+) launched: '.*' \\(.*\\)$";
/// A process exited.
pub const RE_PROCESS_EXITED: &'static str = "Process (\\d+) exited with status = (\\d+) \\(0x[0-9a-f]*\\) *$";
/// There is no process or thread to act on.
pub const RE_NOT_RUNNING: &'static str = "^error: invalid (process|thread)$";

/// A log message event.
pub open spec fn log_event(level: LogLevel, msg: Seq<char>) -> EventView {
    EventView::Log(level, msg)
}

/// The events of a resolved breakpoint match: its file (group 2) and line
/// (group 3); `None` where the line does not read as a number.
pub open spec fn breakpoint_set_events(g: GroupsView) -> Option<Seq<EventView>> {
    match (group(g, 2), group(g, 3)) {
        (Some(f), Some(l)) => match spec_parse_u64(l) {
            Some(n) => Some(seq![log_event(LogLevel::INFO, "Breakpoint set file="@ + f + ", line="@ + decimal(n as nat))]),
            None => None,
        },
        _ => None,
    }
}

/// `n` copies of event `e`.
pub open spec fn repeat_event(e: EventView, n: nat) -> Seq<EventView> {
    Seq::new(n, |i: int| e)
}

/// The events of a line read while a breakpoint is being set: the first
/// resolved breakpoint, else one message per pending one.
pub open spec fn spec_check_breakpoint(line: Seq<char>) -> Option<Seq<EventView>> {
    let c1 = regex_captures(RE_BREAKPOINT@, line);
    let c2 = regex_captures(RE_BREAKPOINT_2@, line);
    if c1.len() > 0 {
        breakpoint_set_events(c1[0])
    } else if c2.len() > 0 {
        breakpoint_set_events(c2[0])
    } else {
        Some(repeat_event(log_event(LogLevel::INFO, "Breakpoint pending"@), regex_captures(RE_BREAKPOINT_PENDING@, line).len()))
    }
}

/// The events of a file-and-line frame match.
pub open spec fn jump_event(g: GroupsView) -> Option<Seq<EventView>> {
    match (group(g, 1), group(g, 2)) {
        (Some(f), Some(l)) => match spec_parse_u64(l) {
            Some(n) => Some(seq![EventView::JumpToPosition(f, n)]),
            None => None,
        },
        _ => None,
    }
}

/// The event of a launch match: the pid in group 1.
pub open spec fn launched_event(g: GroupsView) -> Option<Seq<EventView>> {
    match group(g, 1) {
        Some(p) => Some(seq![log_event(LogLevel::INFO, "Process "@ + p + " launched"@)]),
        None => None,
    }
}

/// The pid and exit code of an exit match, where both read as numbers.
pub open spec fn exit_of(g: GroupsView) -> Option<(u64, i64)> {
    match (group(g, 1), group(g, 2)) {
        (Some(p), Some(c)) => match (spec_parse_u64(p), spec_parse_i64(c)) {
            (Some(pid), Some(code)) => Some((pid, code)),
            _ => None,
        },
        _ => None,
    }
}

/// The event of an exit match.
pub open spec fn exit_event(g: GroupsView) -> Option<Seq<EventView>> {
    match exit_of(g) {
        Some((pid, code)) => Some(seq![log_event(
            LogLevel::INFO,
            "Process "@ + decimal(pid as nat) + " exited with exit code "@ + decimal_i64(code),
        )]),
        None => None,
    }
}

/// What a match is read for.
pub enum Reading {
    Jump,
    Launched,
    Exited,
}

/// How a match is read.
pub open spec fn reader(r: Reading) -> spec_fn(GroupsView) -> Option<Seq<EventView>> {
    match r {
        Reading::Jump => |g: GroupsView| jump_event(g),
        Reading::Launched => |g: GroupsView| launched_event(g),
        Reading::Exited => |g: GroupsView| exit_event(g),
    }
}

/// The events of one frame line: where it stopped, or a warning that the
/// position is unknown.
pub open spec fn frame_events(line: Seq<char>) -> Option<Seq<EventView>> {
    let j = regex_captures(RE_JUMP_TO_POSITION@, line);
    if j.len() == 0 {
        Some(seq![log_event(LogLevel::WARN, "Stopped at unknown position"@)])
    } else {
        events_of(j, reader(Reading::Jump))
    }
}

/// `s` repeated `n` times, where it could be read.
pub open spec fn repeat_events(s: Option<Seq<EventView>>, n: nat) -> Option<Seq<EventView>>
    decreases n,
{
    if n == 0 { Some(seq![]) } else { opt_cat(repeat_events(s, (n - 1) as nat), s) }
}

/// The events of a line that may report where LLDB stopped; nothing while
/// positions are not being reported.
pub open spec fn spec_check_location(reporting: bool, line: Seq<char>) -> Option<Seq<EventView>> {
    if !reporting {
        Some(seq![])
    } else {
        repeat_events(frame_events(line), regex_captures(RE_STOPPED_AT_POSITION@, line).len())
    }
}

/// The pid of the process after the launch matches `c`: the last one
/// launched, or `pid` where none was.
pub open spec fn launched_pid(c: Seq<GroupsView>, pid: Option<Seq<char>>) -> Option<Seq<char>>
    decreases c.len(),
{
    if c.len() == 0 {
        pid
    } else {
        match group(c.last(), 1) {
            Some(p) => Some(p),
            None => launched_pid(c.drop_last(), pid),
        }
    }
}

/// The events of a line that may report a launch.
pub open spec fn spec_check_launched(line: Seq<char>) -> Option<Seq<EventView>> {
    events_of(regex_captures(RE_PROCESS_LAUNCHED@, line), reader(Reading::Launched))
}

/// The events of a line that may report that the process exited.
pub open spec fn spec_check_exited(line: Seq<char>) -> Option<Seq<EventView>> {
    events_of(regex_captures(RE_PROCESS_EXITED@, line), reader(Reading::Exited))
}

/// The events of a line that may report that nothing is running.
pub open spec fn spec_check_not_running(line: Seq<char>) -> Seq<EventView> {
    repeat_event(log_event(LogLevel::WARN, "No process running"@), regex_captures(RE_NOT_RUNNING@, line).len())
}

/// The message of a log event.
fn log(level: LogLevel, msg: String) -> (r: Event)
    ensures
        r@ == log_event(level, msg@),
{
    Event::Log(level, msg)
}

/// The events of a resolved breakpoint match.
fn breakpoint_set(g: &Vec<Option<String>>) -> (r: Option<Vec<Event>>)
    ensures
        opt_events(r) == breakpoint_set_events(groups_view(g@)),
{
    match (get_group(g, 2), get_group(g, 3)) {
        (Some(f), Some(l)) => match parse_u64(l.as_str()) {
            Some(n) => {
                let mut m = String::from_str("Breakpoint set file=");
                m.append(f.as_str());
                m.append(", line=");
                let t = u64_text(n);
                m.append(t.as_str());
                let mut r: Vec<Event> = Vec::new();
                let e = log(LogLevel::INFO, m);
                proof { lemma_events_view_push(r@, e); }
                r.push(e);
                assert(events_view(r@) =~= seq![e@]);
                Some(r)
            },
            None => None,
        },
        _ => None,
    }
}

/// `n` copies of a log event.
fn repeat_log(level: LogLevel, msg: &str, n: usize) -> (r: Vec<Event>)
    ensures
        events_view(r@) == repeat_event(log_event(level, msg@), n as nat),
{
    let mut r: Vec<Event> = Vec::new();
    let mut i: usize = 0;
    while i < n
        invariant
            i <= n,
            r@.len() == i,
            events_view(r@) == repeat_event(log_event(level, msg@), i as nat),
        decreases n - i,
    {
        let ghost old_r = r@;
        r.push(log(level, String::from_str(msg)));
        assert forall|j: int| 0 <= j < i + 1 implies events_view(r@)[j] == log_event(level, msg@) by {
            if j < i {
                assert(r@[j] == old_r[j]);
                assert(events_view(old_r)[j] == log_event(level, msg@));
            }
        }
        assert(events_view(r@) =~= repeat_event(log_event(level, msg@), (i + 1) as nat));
        i = i + 1;
    }
    r
}

/// The events of a line read while a breakpoint is being set.
pub fn check_breakpoint(line: &str) -> (r: Option<Vec<Event>>)
    ensures
        opt_events(r) == spec_check_breakpoint(line@),
{
    let c1 = captures(RE_BREAKPOINT, line);
    if c1.len() > 0 {
        return breakpoint_set(&c1[0]);
    }
    let c2 = captures(RE_BREAKPOINT_2, line);
    if c2.len() > 0 {
        return breakpoint_set(&c2[0]);
    }
    let c3 = captures(RE_BREAKPOINT_PENDING, line);
    Some(repeat_log(LogLevel::INFO, "Breakpoint pending", c3.len()))
}

/// The events of one match.
fn read_match(how: &Reading, g: &Vec<Option<String>>) -> (r: Option<Vec<Event>>)
    ensures
        opt_events(r) == (reader(*how))(groups_view(g@)),
{
    let mut v: Vec<Event> = Vec::new();
    match how {
        Reading::Jump => match (get_group(g, 1), get_group(g, 2)) {
            (Some(f), Some(l)) => match parse_u64(l.as_str()) {
                Some(n) => {
                    let e = Event::JumpToPosition(f, n);
                    proof { lemma_events_view_push(v@, e); }
                    v.push(e);
                },
                None => return None,
            },
            _ => return None,
        },
        Reading::Launched => match get_group(g, 1) {
            Some(p) => {
                let mut m = String::from_str("Process ");
                m.append(p.as_str());
                m.append(" launched");
                let e = log(LogLevel::INFO, m);
                proof { lemma_events_view_push(v@, e); }
                v.push(e);
            },
            None => return None,
        },
        Reading::Exited => match (get_group(g, 1), get_group(g, 2)) {
            (Some(p), Some(c)) => match (parse_u64(p.as_str()), parse_i64(c.as_str())) {
                (Some(pid), Some(code)) => {
                    let mut m = String::from_str("Process ");
                    let t = u64_text(pid);
                    m.append(t.as_str());
                    m.append(" exited with exit code ");
                    let t2 = i64_text(code);
                    m.append(t2.as_str());
                    let e = log(LogLevel::INFO, m);
                    proof { lemma_events_view_push(v@, e); }
                    v.push(e);
                },
                _ => return None,
            },
            _ => return None,
        },
    }
    Some(v)
}

/// The events of the matches `c`.
fn events_for(c: &Vec<Vec<Option<String>>>, how: Reading) -> (r: Option<Vec<Event>>)
    ensures
        opt_events(r) == events_of(captures_view(c@), reader(how)),
{
    let ghost cv = captures_view(c@);
    let mut acc: Option<Vec<Event>> = Some(Vec::new());
    assert(opt_events(acc) == Some(Seq::<EventView>::empty()));
    let mut i: usize = 0;
    while i < c.len()
        invariant
            i <= c@.len(),
            cv == captures_view(c@),
            opt_events(acc) == events_of(cv.take(i as int), reader(how)),
        decreases c@.len() - i,
    {
        assert(cv.take(i + 1).drop_last() == cv.take(i as int));
        assert(cv[i as int] == groups_view(c@[i as int]@));
        let e = read_match(&how, &c[i]);
        acc = cat_opt(acc, e);
        i = i + 1;
    }
    assert(cv.take(c@.len() as int) == cv);
    acc
}

/// The events of one frame line.
fn frame(line: &str) -> (r: Option<Vec<Event>>)
    ensures
        opt_events(r) == frame_events(line@),
{
    let c = captures(RE_JUMP_TO_POSITION, line);
    if c.len() == 0 {
        let mut r: Vec<Event> = Vec::new();
        let e = log(LogLevel::WARN, String::from_str("Stopped at unknown position"));
        proof { lemma_events_view_push(r@, e); }
        r.push(e);
        Some(r)
    } else {
        events_for(&c, Reading::Jump)
    }
}

/// The events of a line that may report where LLDB stopped.
pub fn check_location(reporting: bool, line: &str) -> (r: Option<Vec<Event>>)
    ensures
        opt_events(r) == spec_check_location(reporting, line@),
{
    if !reporting {
        let r: Vec<Event> = Vec::new();
        assert(events_view(r@) =~= Seq::<EventView>::empty());
        return Some(r);
    }
    let n = captures(RE_STOPPED_AT_POSITION, line).len();
    let mut acc: Option<Vec<Event>> = Some(Vec::new());
    assert(opt_events(acc) == Some(Seq::<EventView>::empty()));
    let mut i: usize = 0;
    while i < n
        invariant
            i <= n,
            n == regex_captures(RE_STOPPED_AT_POSITION@, line@).len(),
            opt_events(acc) == repeat_events(frame_events(line@), i as nat),
        decreases n - i,
    {
        let f = frame(line);
        acc = cat_opt(acc, f);
        i = i + 1;
    }
    acc
}

/// The events of a line that may report a launch, and the pid after it.
pub fn check_process_launched(line: &str, pid: Option<String>) -> (r: Option<(Vec<Event>, Option<String>)>)
    ensures
        match r {
            Some((e, p)) => spec_check_launched(line@) == Some(events_view(e@))
                && opt_chars(p) == launched_pid(regex_captures(RE_PROCESS_LAUNCHED@, line@), opt_chars(pid)),
            None => spec_check_launched(line@) is None,
        },
{
    let c = captures(RE_PROCESS_LAUNCHED, line);
    let ghost cv = captures_view(c@);
    let ghost p0 = opt_chars(pid);
    let e = events_for(&c, Reading::Launched);
    let mut pid = pid;
    let mut i: usize = 0;
    while i < c.len()
        invariant
            i <= c@.len(),
            cv == captures_view(c@),
            opt_chars(pid) == launched_pid(cv.take(i as int), p0),
        decreases c@.len() - i,
    {
        assert(cv.take(i + 1).drop_last() == cv.take(i as int));
        assert(cv[i as int] == groups_view(c@[i as int]@));
        match get_group(&c[i], 1) {
            Some(p) => {
                pid = Some(p);
            },
            None => {},
        }
        i = i + 1;
    }
    assert(cv.take(c@.len() as int) == cv);
    match e {
        Some(e) => Some((e, pid)),
        None => None,
    }
}

/// The model of an optional string.
pub open spec fn opt_chars(o: Option<String>) -> Option<Seq<char>> {
    match o {
        Some(s) => Some(s@),
        None => None,
    }
}

/// The events of a line that may report that the process exited, and
/// whether it did.
pub fn check_process_exited(line: &str) -> (r: Option<(Vec<Event>, bool)>)
    ensures
        match r {
            Some((e, exited)) => spec_check_exited(line@) == Some(events_view(e@))
                && exited == (regex_captures(RE_PROCESS_EXITED@, line@).len() > 0),
            None => spec_check_exited(line@) is None,
        },
{
    let c = captures(RE_PROCESS_EXITED, line);
    let exited = c.len() > 0;
    match events_for(&c, Reading::Exited) {
        Some(e) => Some((e, exited)),
        None => None,
    }
}

/// The events of a line that may report that nothing is running.
pub fn check_not_running(line: &str) -> (r: Vec<Event>)
    ensures
        events_view(r@) == spec_check_not_running(line@),
{
    let c = captures(RE_NOT_RUNNING, line);
    repeat_log(LogLevel::WARN, "No process running", c.len())
}

/// Messages that PADRE sends to LLDB.
#[derive(Clone, Debug, PartialEq)]
pub enum Message {
    LLDBSetup,
    ProcessLaunching,
    Breakpoint(FileLocation),
    Unbreakpoint(FileLocation),
    /// Step in, this many times.
    StepIn(u64),
    /// Step over, this many times.
    StepOver(u64),
    Continue,
    PrintVariable(Variable),
    /// Typed in by the user; PADRE does not know what it is.
    Custom,
}

/// The model of a message.
pub enum MessageView {
    LLDBSetup,
    ProcessLaunching,
    Breakpoint(FileLocationView),
    Unbreakpoint(FileLocationView),
    StepIn(u64),
    StepOver(u64),
    Continue,
    PrintVariable(Seq<char>),
    Custom,
}

impl View for Message {
    type V = MessageView;

    open spec fn view(&self) -> MessageView {
        match self {
            Message::LLDBSetup => MessageView::LLDBSetup,
            Message::ProcessLaunching => MessageView::ProcessLaunching,
            Message::Breakpoint(fl) => MessageView::Breakpoint(fl@),
            Message::Unbreakpoint(fl) => MessageView::Unbreakpoint(fl@),
            Message::StepIn(n) => MessageView::StepIn(*n),
            Message::StepOver(n) => MessageView::StepOver(*n),
            Message::Continue => MessageView::Continue,
            Message::PrintVariable(v) => MessageView::PrintVariable(v@),
            Message::Custom => MessageView::Custom,
        }
    }
}

/// LLDB's state as PADRE follows it: waiting at its prompt, or processing a
/// message, with the text that was sent for it where known.
#[derive(Clone, Debug, PartialEq)]
pub enum LLDBStatus {
    Listening,
    Processing(Message, Option<Vec<u8>>),
}

/// The model of LLDB's state.
pub enum LLDBStatusView {
    Listening,
    Processing(MessageView, Option<Seq<u8>>),
}

impl View for LLDBStatus {
    type V = LLDBStatusView;

    open spec fn view(&self) -> LLDBStatusView {
        match self {
            LLDBStatus::Listening => LLDBStatusView::Listening,
            LLDBStatus::Processing(m, Some(c)) => LLDBStatusView::Processing(m@, Some(c@)),
            LLDBStatus::Processing(m, None) => LLDBStatusView::Processing(m@, None),
        }
    }
}

/// The pid after a line that may report an exit: none where it does.
pub open spec fn exit_pid(line: Seq<char>, pid: Option<Seq<char>>) -> Option<Seq<char>> {
    if regex_captures(RE_PROCESS_EXITED@, line).len() > 0 { None } else { pid }
}

/// The events of `e`, with the pid `pid`, where they could be read.
pub open spec fn with_pid(e: Option<Seq<EventView>>, pid: Option<Seq<char>>) -> Option<(Seq<EventView>, Option<Seq<char>>)> {
    match e {
        Some(e) => Some((e, pid)),
        None => None,
    }
}

/// What one line of output tells, given LLDB's state: the events, and the
/// pid of the process afterwards; `None` where a number in it does not
/// read.
pub open spec fn spec_line_effect(
    status: LLDBStatusView,
    reporting: bool,
    line: Seq<char>,
    pid: Option<Seq<char>>,
) -> Option<(Seq<EventView>, Option<Seq<char>>)> {
    let launched = regex_captures(RE_PROCESS_LAUNCHED@, line);
    match status {
        LLDBStatusView::Processing(MessageView::Breakpoint(_), _) => with_pid(spec_check_breakpoint(line), pid),
        LLDBStatusView::Processing(MessageView::ProcessLaunching, _) => with_pid(
            opt_cat(opt_cat(spec_check_launched(line), spec_check_location(reporting, line)), spec_check_exited(line)),
            exit_pid(line, launched_pid(launched, pid)),
        ),
        LLDBStatusView::Processing(MessageView::StepIn(_), _)
        | LLDBStatusView::Processing(MessageView::StepOver(_), _)
        | LLDBStatusView::Processing(MessageView::Continue, _) => with_pid(
            opt_cat(
                opt_cat(spec_check_location(reporting, line), spec_check_exited(line)),
                Some(spec_check_not_running(line)),
            ),
            exit_pid(line, pid),
        ),
        LLDBStatusView::Processing(MessageView::Custom, _) => with_pid(
            opt_cat(
                opt_cat(opt_cat(spec_check_launched(line), spec_check_breakpoint(line)), spec_check_location(reporting, line)),
                spec_check_exited(line),
            ),
            exit_pid(line, launched_pid(launched, pid)),
        ),
        LLDBStatusView::Processing(_, _) => Some((seq![], pid)),
        LLDBStatusView::Listening => with_pid(
            opt_cat(spec_check_location(reporting, line), spec_check_exited(line)),
            exit_pid(line, pid),
        ),
    }
}

/// What the lines of a chunk of output tell, read in order.
pub open spec fn spec_lines_effect(
    status: LLDBStatusView,
    reporting: bool,
    lines: Seq<Seq<char>>,
    pid: Option<Seq<char>>,
) -> Option<(Seq<EventView>, Option<Seq<char>>)>
    decreases lines.len(),
{
    if lines.len() == 0 {
        Some((seq![], pid))
    } else {
        match spec_lines_effect(status, reporting, lines.drop_last(), pid) {
            Some((e0, p0)) => match spec_line_effect(status, reporting, lines.last(), p0) {
                Some((e1, p1)) => Some((e0 + e1, p1)),
                None => None,
            },
            None => None,
        }
    }
}

/// The model of what a line tells.
pub open spec fn effect_view(r: Option<(Vec<Event>, Option<String>)>) -> Option<(Seq<EventView>, Option<Seq<char>>)> {
    match r {
        Some((e, p)) => Some((events_view(e@), opt_chars(p))),
        None => None,
    }
}

/// Events and pid, where the events could be read.
fn pair(e: Option<Vec<Event>>, pid: Option<String>) -> (r: Option<(Vec<Event>, Option<String>)>)
    ensures
        effect_view(r) == with_pid(opt_events(e), opt_chars(pid)),
{
    match e {
        Some(e) => Some((e, pid)),
        None => None,
    }
}

/// What one line of output tells, given LLDB's state.
pub fn line_effect(status: &LLDBStatus, reporting: bool, line: &str, pid: Option<String>) -> (r: Option<(Vec<Event>, Option<String>)>)
    ensures
        effect_view(r) == spec_line_effect(status@, reporting, line@, opt_chars(pid)),
{
    match status {
        LLDBStatus::Processing(Message::Breakpoint(_), _) => pair(check_breakpoint(line), pid),
        LLDBStatus::Processing(Message::ProcessLaunching, _) | LLDBStatus::Processing(Message::Custom, _) => {
            let custom = match status {
                LLDBStatus::Processing(Message::Custom, _) => true,
                _ => false,
            };
            let (launched, pid) = match check_process_launched(line, pid) {
                Some((e, p)) => (Some(e), p),
                None => return None,
            };
            let mut acc = launched;
            if custom {
                acc = cat_opt(acc, check_breakpoint(line));
            }
            acc = cat_opt(acc, check_location(reporting, line));
            match check_process_exited(line) {
                Some((x, exited)) => pair(cat_opt(acc, Some(x)), if exited { None } else { pid }),
                None => {
                    assert(spec_check_exited(line@) is None);
                    None
                },
            }
        },
        LLDBStatus::Processing(Message::StepIn(_), _)
        | LLDBStatus::Processing(Message::StepOver(_), _)
        | LLDBStatus::Processing(Message::Continue, _) => {
            let acc = check_location(reporting, line);
            match check_process_exited(line) {
                Some((x, exited)) => {
                    let acc = cat_opt(acc, Some(x));
                    let acc = cat_opt(acc, Some(check_not_running(line)));
                    pair(acc, if exited { None } else { pid })
                },
                None => None,
            }
        },
        LLDBStatus::Processing(_, _) => {
            let r: Vec<Event> = Vec::new();
            assert(events_view(r@) =~= Seq::<EventView>::empty());
            Some((r, pid))
        },
        LLDBStatus::Listening => {
            let acc = check_location(reporting, line);
            match check_process_exited(line) {
                Some((x, exited)) => pair(cat_opt(acc, Some(x)), if exited { None } else { pid }),
                None => None,
            }
        },
    }
}

/// The bytes that end LLDB's output before its prompt: `\r\n(lldb) `.
pub open spec fn prompt_tail() -> Seq<u8> {
    seq![13u8, 10u8, 40u8, 108u8, 108u8, 100u8, 98u8, 41u8, 32u8]
}

/// `out` without the prompt at its end, where it ends with one.
pub open spec fn strip_prompt(out: Seq<u8>) -> Seq<u8> {
    if out.len() >= 9 && out.skip(out.len() - 9) == prompt_tail() {
        out.take(out.len() - 9)
    } else {
        out
    }
}

/// The output collected for the message being processed once `bytes` came
/// in: the echo of the command sent is left out when it starts the output.
pub open spec fn spec_collected(status: LLDBStatusView, output: Seq<u8>, bytes: Seq<u8>) -> Seq<u8> {
    match status {
        LLDBStatusView::Processing(_, Some(msg)) => {
            let from = if output.len() == 0 && bytes.len() >= msg.len() + 2 && bytes.take(msg.len() as int) == msg {
                msg.len() + 2
            } else {
                0
            };
            output + bytes.skip(from as int)
        },
        _ => output,
    }
}

/// Reads LLDB's output and keeps track of its state.
#[derive(Debug)]
pub struct LLDBAnalyser {
    lldb_status: LLDBStatus,
    process_pid: Option<String>,
    awaiting: bool,
    output: Vec<u8>,
    reporting_location: bool,
}

/// The model of the analyser: LLDB's state, the pid of the process being
/// debugged, whether a caller waits for the output of the message being
/// processed, the output collected for it, and whether positions are
/// reported.
pub struct LLDBAnalyserView {
    pub status: LLDBStatusView,
    pub pid: Option<Seq<char>>,
    pub awaiting: bool,
    pub output: Seq<u8>,
    pub reporting: bool,
}

impl View for LLDBAnalyser {
    type V = LLDBAnalyserView;

    closed spec fn view(&self) -> LLDBAnalyserView {
        LLDBAnalyserView {
            status: self.lldb_status@,
            pid: opt_chars(self.process_pid),
            awaiting: self.awaiting,
            output: self.output@,
            reporting: self.reporting_location,
        }
    }
}

/// What a chunk of LLDB output gives: the events for Vim, the output for
/// the caller waiting on the message (when the chunk ends at LLDB's prompt),
/// and the analyser afterwards; `None` where a number in the output does not
/// read (see `spec_line_effect`).
pub open spec fn spec_handle_output(a: LLDBAnalyserView, bytes: Seq<u8>) -> Option<(Seq<EventView>, Option<Seq<char>>, LLDBAnalyserView)> {
    let out = spec_collected(a.status, a.output, bytes);
    let lines = split(utf8_lossy(bytes), "\r\n"@);
    match spec_lines_effect(a.status, a.reporting, lines, a.pid) {
        Some((events, pid)) => if lines.last() == "(lldb) "@ {
            let replying = a.status is Processing && a.awaiting;
            Some((
                events,
                if replying { Some(utf8_lossy(strip_prompt(out))) } else { None },
                LLDBAnalyserView {
                    status: LLDBStatusView::Listening,
                    pid,
                    awaiting: if replying { false } else { a.awaiting },
                    output: seq![],
                    reporting: a.reporting,
                },
            ))
        } else {
            Some((events, None, LLDBAnalyserView { pid, output: out, ..a }))
        },
        None => None,
    }
}

/// A copy of an optional string.
pub fn copy_opt(o: &Option<String>) -> (r: Option<String>)
    ensures
        opt_chars(r) == opt_chars(*o),
{
    match o {
        Some(s) => Some(s.clone()),
        None => None,
    }
}

/// A copy of a message.
pub fn copy_message(m: &Message) -> (r: Message)
    ensures
        r@ == m@,
{
    match m {
        Message::LLDBSetup => Message::LLDBSetup,
        Message::ProcessLaunching => Message::ProcessLaunching,
        Message::Breakpoint(fl) => Message::Breakpoint(FileLocation::new(String::from_str(fl.name()), fl.line_num())),
        Message::Unbreakpoint(fl) => Message::Unbreakpoint(FileLocation::new(String::from_str(fl.name()), fl.line_num())),
        Message::StepIn(n) => Message::StepIn(*n),
        Message::StepOver(n) => Message::StepOver(*n),
        Message::Continue => Message::Continue,
        Message::PrintVariable(v) => Message::PrintVariable(Variable::new(String::from_str(v.name()))),
        Message::Custom => Message::Custom,
    }
}

/// A copy of LLDB's state.
pub fn copy_status(s: &LLDBStatus) -> (r: LLDBStatus)
    ensures
        r@ == s@,
{
    match s {
        LLDBStatus::Listening => LLDBStatus::Listening,
        LLDBStatus::Processing(m, Some(c)) => {
            let c2 = bytes_from(c.as_slice(), 0);
            assert(c2@ == c@);
            LLDBStatus::Processing(copy_message(m), Some(c2))
        },
        LLDBStatus::Processing(m, None) => LLDBStatus::Processing(copy_message(m), None),
    }
}

/// `out` without the prompt at its end, where it ends with one.
fn strip_prompt_bytes(out: &[u8]) -> (r: Vec<u8>)
    ensures
        r@ == strip_prompt(out@),
{
    let n = out.len();
    if n >= 9 {
        let tail = bytes_from(out, n - 9);
        let prompt: Vec<u8> = vec![13u8, 10u8, 40u8, 108u8, 108u8, 100u8, 98u8, 41u8, 32u8];
        assert(prompt@ == prompt_tail());
        assert(tail@.take(9) == tail@);
        if bytes_start_with(tail.as_slice(), prompt.as_slice()) {
            return bytes_upto(out, n - 9);
        }
    }
    let r = bytes_from(out, 0);
    assert(r@ == out@);
    r
}

/// What moving to state `status` gives: the output handed to a waiting
/// caller, which is empty, where LLDB leaves processing a message for its
/// prompt, and the analyser afterwards.
pub open spec fn spec_set_status(a: LLDBAnalyserView, status: LLDBStatusView) -> (Option<Seq<char>>, LLDBAnalyserView) {
    let replying = a.status is Processing && status is Listening && a.awaiting;
    (
        if replying { Some(Seq::<char>::empty()) } else { None },
        LLDBAnalyserView { status, awaiting: if replying { false } else { a.awaiting }, ..a },
    )
}

impl LLDBAnalyser {
    /// An analyser for an LLDB that is starting up.
    pub fn new() -> (r: LLDBAnalyser)
        ensures
            r@.status == LLDBStatusView::Processing(MessageView::LLDBSetup, None),
            r@.pid is None,
            !r@.awaiting,
            r@.output == Seq::<u8>::empty(),
            r@.reporting,
    {
        LLDBAnalyser {
            lldb_status: LLDBStatus::Processing(Message::LLDBSetup, None),
            process_pid: None,
            awaiting: false,
            output: Vec::new(),
            reporting_location: true,
        }
    }

    /// LLDB's state and the pid of the process being debugged.
    pub fn get_details(&self) -> (r: (LLDBStatus, Option<String>))
        ensures
            r.0@ == self@.status,
            opt_chars(r.1) == self@.pid,
    {
        (copy_status(&self.lldb_status), copy_opt(&self.process_pid))
    }

    /// Moves LLDB to a new state. Where it leaves processing a message for
    /// its prompt, the caller waiting on that message gets an empty output.
    pub fn set_status(&mut self, lldb_status: LLDBStatus) -> (r: Option<String>)
        ensures
            (opt_chars(r), final(self)@) == spec_set_status(old(self)@, lldb_status@),
    {
        let replying = match (&self.lldb_status, &lldb_status) {
            (LLDBStatus::Processing(_, _), LLDBStatus::Listening) => self.awaiting,
            _ => false,
        };
        self.lldb_status = lldb_status;
        if replying {
            self.awaiting = false;
            Some(String::new())
        } else {
            None
        }
    }

    /// Gets ready for LLDB to process `msg`, sent as the text `cmd`: the
    /// caller waits for its output.
    pub fn get_output(&mut self, msg: Message, cmd: Vec<u8>)
        ensures
            final(self)@ == (LLDBAnalyserView {
                status: LLDBStatusView::Processing(msg@, Some(cmd@)),
                awaiting: true,
                ..old(self)@
            }),
    {
        self.lldb_status = LLDBStatus::Processing(msg, Some(cmd));
        self.awaiting = true;
    }

    /// Whether the positions LLDB stops at are reported to Vim.
    pub fn set_reporting_location(&mut self, on: bool)
        ensures
            final(self)@ == (LLDBAnalyserView { reporting: on, ..old(self)@ }),
    {
        self.reporting_location = on;
    }

    /// Reads a chunk of LLDB's output; see `spec_handle_output`. Where that
    /// gives `None`, the analyser is left as it was.
    pub fn handle_output(&mut self, bytes: &[u8]) -> (r: Option<(Vec<Event>, Option<String>)>)
        ensures
            match (r, spec_handle_output(old(self)@, bytes@)) {
                (Some((e, reply)), Some((se, sreply, sa))) => events_view(e@) == se && opt_chars(reply) == sreply
                    && final(self)@ == sa,
                (None, None) => final(self)@ == old(self)@,
                _ => false,
            },
    {
        let ghost a = self@;
        // Collect the output for the message being processed.
        let mut out = bytes_from(self.output.as_slice(), 0);
        assert(out@ == a.output);
        match &self.lldb_status {
            LLDBStatus::Processing(_, Some(msg)) => {
                let skip = self.output.len() == 0 && bytes.len() >= 2 && bytes.len() - 2 >= msg.len()
                    && bytes_start_with(bytes, msg.as_slice());
                let from = if skip { msg.len() + 2 } else { 0 };
                let mut rest = bytes_from(bytes, from);
                out.append(&mut rest);
            },
            _ => {},
        }
        assert(out@ == spec_collected(a.status, a.output, bytes@));
        // Then read each line.
        let text = utf8_lossy_text(bytes);
        let chars = chars_of(text.as_str());
        let sep: Vec<char> = vec!['\r', '\n'];
        assert(sep@ == "\r\n"@) by {
            reveal_strlit("\r\n");
        }
        let lines = split_chars(chars.as_slice(), sep.as_slice());
        let ghost lv = pieces_view(lines@);
        let mut acc: Option<(Vec<Event>, Option<String>)> = Some((Vec::new(), copy_opt(&self.process_pid)));
        assert(effect_view(acc) == Some((Seq::<EventView>::empty(), a.pid)));
        let mut i: usize = 0;
        while i < lines.len()
            invariant
                i <= lines@.len(),
                lv == pieces_view(lines@),
                self@ == a,
                effect_view(acc) == spec_lines_effect(a.status, a.reporting, lv.take(i as int), a.pid),
            decreases lines@.len() - i,
        {
            let line = string_of(lines[i].as_slice());
            assert(lv.take(i + 1).drop_last() == lv.take(i as int));
            assert(lv[i as int] == lines@[i as int]@);
            acc = match acc {
                Some((mut events, pid)) => match line_effect(&self.lldb_status, self.reporting_location, line.as_str(), pid) {
                    Some((e, pid)) => {
                        append_events(&mut events, e);
                        Some((events, pid))
                    },
                    None => None,
                },
                None => None,
            };
            i = i + 1;
        }
        assert(lv.take(lines@.len() as int) == lv);
        let (events, pid) = match acc {
            Some(x) => x,
            None => return None,
        };
        self.process_pid = pid;
        proof { lemma_split_len(utf8_lossy(bytes@), "\r\n"@); }
        let last = string_of(lines[lines.len() - 1].as_slice());
        assert(last@ == lv.last());
        if str_eq(last.as_str(), "(lldb) ") {
            let replying = match &self.lldb_status {
                LLDBStatus::Processing(_, _) => self.awaiting,
                LLDBStatus::Listening => false,
            };
            let reply = if replying {
                let stripped = strip_prompt_bytes(out.as_slice());
                Some(utf8_lossy_text(stripped.as_slice()))
            } else {
                None
            };
            if replying {
                self.awaiting = false;
            }
            self.output = Vec::new();
            self.lldb_status = LLDBStatus::Listening;
            Some((events, reply))
        } else {
            self.output = out;
            Some((events, None))
        }
    }
}

/// A line read while positions are not reported tells of no position.
proof fn lemma_line_quiet(status: LLDBStatusView, line: Seq<char>, pid: Option<Seq<char>>)
    ensures
        spec_line_effect(status, false, line, pid) matches Some((e, _)) ==> no_jumps(e),
{
    assert forall|g: GroupsView| #[trigger] opt_no_jumps((reader(Reading::Launched))(g)) by {}
    assert forall|g: GroupsView| #[trigger] opt_no_jumps((reader(Reading::Exited))(g)) by {}
    lemma_events_of_no_jumps(regex_captures(RE_PROCESS_LAUNCHED@, line), reader(Reading::Launched));
    lemma_events_of_no_jumps(regex_captures(RE_PROCESS_EXITED@, line), reader(Reading::Exited));
    let launched = spec_check_launched(line);
    let bp = spec_check_breakpoint(line);
    let loc = spec_check_location(false, line);
    let ex = spec_check_exited(line);
    let nr = Some(spec_check_not_running(line));
    let c1 = regex_captures(RE_BREAKPOINT@, line);
    let c2 = regex_captures(RE_BREAKPOINT_2@, line);
    if c1.len() > 0 {
        assert(opt_no_jumps(breakpoint_set_events(c1[0])));
    } else if c2.len() > 0 {
        assert(opt_no_jumps(breakpoint_set_events(c2[0])));
    }
    assert(opt_no_jumps(bp));
    assert(opt_no_jumps(loc));
    assert(opt_no_jumps(nr));
    lemma_cat_no_jumps(launched, loc);
    lemma_cat_no_jumps(opt_cat(launched, loc), ex);
    lemma_cat_no_jumps(loc, ex);
    lemma_cat_no_jumps(opt_cat(loc, ex), nr);
    lemma_cat_no_jumps(launched, bp);
    lemma_cat_no_jumps(opt_cat(launched, bp), loc);
    lemma_cat_no_jumps(opt_cat(opt_cat(launched, bp), loc), ex);
}

/// Lines read while positions are not reported tell of no position.
proof fn lemma_lines_quiet(status: LLDBStatusView, lines: Seq<Seq<char>>, pid: Option<Seq<char>>)
    ensures
        spec_lines_effect(status, false, lines, pid) matches Some((e, _)) ==> no_jumps(e),
    decreases lines.len(),
{
    if lines.len() > 0 {
        lemma_lines_quiet(status, lines.drop_last(), pid);
        if let Some((e0, p0)) = spec_lines_effect(status, false, lines.drop_last(), pid) {
            lemma_line_quiet(status, lines.last(), p0);
            if let Some((e1, p1)) = spec_line_effect(status, false, lines.last(), p0) {
                lemma_cat_no_jumps(Some(e0), Some(e1));
            }
        }
    }
}

/// While positions are not reported (between the steps of a multiple
/// step), no chunk of LLDB's output makes PADRE tell Vim of a position.
pub proof fn lemma_quiet_while_not_reporting(a: LLDBAnalyserView, bytes: Seq<u8>)
    requires
        !a.reporting,
    ensures
        spec_handle_output(a, bytes) matches Some((e, _, _)) ==> no_jumps(e),
{
    lemma_lines_quiet(a.status, split(utf8_lossy(bytes), "\r\n"@), a.pid);
}

/// A caller waiting on a message is answered once: a chunk of output that
/// answers leaves LLDB listening and no caller waiting, and only a caller
/// that waited on a message being processed is answered.
pub proof fn lemma_answered_once(a: LLDBAnalyserView, bytes: Seq<u8>)
    ensures
        spec_handle_output(a, bytes) matches Some((_, Some(_), b)) ==> a.awaiting && a.status is Processing
            && !b.awaiting && b.status is Listening && b.output.len() == 0,
        spec_set_status(a, LLDBStatusView::Listening).0 is Some ==> a.awaiting
            && !spec_set_status(a, LLDBStatusView::Listening).1.awaiting,
{
}

} // verus!
