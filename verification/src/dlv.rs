//! What PADRE makes of Delve's output.
//!
//! The analyser follows Delve's state: not running at first, `Listening`
//! at each `(dlv) ` prompt, and `Processing` a message from the moment one
//! is sent. Lines are read for breakpoints, positions, launches and exits;
//! while a variable is printed, its lines are collected and logged as
//! `name=value` at the prompt.

use vstd::prelude::*;
use vstd::string::*;
use vstd::utf8::encode_utf8;
use crate::text::{bytes_from, sub_chars, chars_of, string_of, split, split_chars, pieces_view, str_eq, parse_u64, parse_i64,
    spec_parse_u64, spec_parse_i64, decimal, u64_text};
use crate::request::{FileLocation, FileLocationView, Variable};
use crate::pattern::{captures, captures_view, groups_view, group, get_group, regex_captures, GroupsView};
use crate::notify::{Event, EventView, LogLevel, events_view, append_events, lemma_events_view_push, opt_cat,
    events_of, opt_events, cat_opt};

verus! {

/// Delve set a breakpoint.
pub const RE_BREAKPOINT: &'static str = "^Breakpoint \\d* set at 0x[0-9a-fA-F]* for .* (.*):(\\d*)$";
/// Delve stopped at a line of a file.
pub const RE_JUMP_TO_POSITION: &'static str = "^.*> .* (.*):(\\d*) \\(.*\\)$";
/// Delve (re)started the program.
pub const RE_LAUNCHED: &'static str = "^.*Process restarted with PID (\\d*)$";
/// The program exited.
pub const RE_EXITED: &'static str = "^.*Process (\\d*) has exited with status (-*\\d*)$";

/// Messages that PADRE sends to Delve.
#[derive(Clone, Debug, PartialEq)]
pub enum Message {
    DlvLaunching,
    DlvSetup,
    ProcessLaunching,
    Breakpoint(FileLocation),
    Unbreakpoint(FileLocation),
    StepIn,
    StepOver,
    Continue,
    PrintVariable(Variable),
    /// Typed in by the user, with what was typed.
    Custom(Vec<u8>),
}

/// The model of a message.
pub enum MessageView {
    DlvLaunching,
    DlvSetup,
    ProcessLaunching,
    Breakpoint(FileLocationView),
    Unbreakpoint(FileLocationView),
    StepIn,
    StepOver,
    Continue,
    PrintVariable(Seq<char>),
    Custom(Seq<u8>),
}

impl View for Message {
    type V = MessageView;

    open spec fn view(&self) -> MessageView {
        match self {
            Message::DlvLaunching => MessageView::DlvLaunching,
            Message::DlvSetup => MessageView::DlvSetup,
            Message::ProcessLaunching => MessageView::ProcessLaunching,
            Message::Breakpoint(fl) => MessageView::Breakpoint(fl@),
            Message::Unbreakpoint(fl) => MessageView::Unbreakpoint(fl@),
            Message::StepIn => MessageView::StepIn,
            Message::StepOver => MessageView::StepOver,
            Message::Continue => MessageView::Continue,
            Message::PrintVariable(v) => MessageView::PrintVariable(v@),
            Message::Custom(b) => MessageView::Custom(b@),
        }
    }
}

/// Delve's state as PADRE follows it.
#[derive(Clone, Debug, PartialEq)]
pub enum DelveStatus {
    NotRunning,
    Listening,
    Processing(Message),
}

/// The model of Delve's state.
pub enum DelveStatusView {
    NotRunning,
    Listening,
    Processing(MessageView),
}

impl View for DelveStatus {
    type V = DelveStatusView;

    open spec fn view(&self) -> DelveStatusView {
        match self {
            DelveStatus::NotRunning => DelveStatusView::NotRunning,
            DelveStatus::Listening => DelveStatusView::Listening,
            DelveStatus::Processing(m) => DelveStatusView::Processing(m@),
        }
    }
}

/// What a match is read for.
pub enum Reading {
    Breakpoint,
    Jump,
    Launched,
    Exited,
}

/// The events of a match; `None` where a number in it does not read.
pub open spec fn read(r: Reading, g: GroupsView) -> Option<Seq<EventView>> {
    match r {
        Reading::Breakpoint => match (group(g, 1), group(g, 2)) {
            (Some(f), Some(l)) => match spec_parse_u64(l) {
                Some(n) => Some(seq![EventView::Log(
                    LogLevel::INFO,
                    "Breakpoint set at file "@ + f + " and line number "@ + decimal(n as nat),
                )]),
                None => None,
            },
            _ => None,
        },
        Reading::Jump => match (group(g, 1), group(g, 2)) {
            (Some(f), Some(l)) => match spec_parse_u64(l) {
                Some(n) => Some(seq![EventView::JumpToPosition(f, n)]),
                None => None,
            },
            _ => None,
        },
        Reading::Launched => match group(g, 1) {
            Some(p) => match spec_parse_u64(p) {
                Some(n) => Some(seq![EventView::Log(LogLevel::INFO, "Process launched with pid: "@ + decimal(n as nat))]),
                None => None,
            },
            None => None,
        },
        Reading::Exited => match (group(g, 1), group(g, 2)) {
            (Some(p), Some(c)) => match (spec_parse_u64(p), spec_parse_i64(c)) {
                (Some(pid), Some(code)) => Some(seq![EventView::ProcessExited(pid, code)]),
                _ => None,
            },
            _ => None,
        },
    }
}

/// How a match is read.
pub open spec fn reader(r: Reading) -> spec_fn(GroupsView) -> Option<Seq<EventView>> {
    |g: GroupsView| read(r, g)
}

/// The events of the matches of `pattern` in `line`.
pub open spec fn matches_events(pattern: Seq<char>, r: Reading, line: Seq<char>) -> Option<Seq<EventView>> {
    events_of(regex_captures(pattern, line), reader(r))
}

/// The model of the analyser: Delve's state, whether a caller waits for
/// the message being processed, and the lines printed for a variable.
pub struct DlvAnalyserView {
    pub status: DelveStatusView,
    pub awaiting: bool,
    pub variable_output: Seq<char>,
}

/// What reading the lines gives so far: the analyser, the events, and
/// whether a waiting caller was woken.
pub struct DlvStep {
    pub a: DlvAnalyserView,
    pub events: Seq<EventView>,
    pub woke: bool,
}

/// The value collected for a variable, without the newline that ends it.
pub open spec fn collected_value(out: Seq<char>) -> Seq<char> {
    if out.len() == 0 { out } else { out.drop_last() }
}

/// The state once Delve's prompt is read: where a variable was being
/// printed, its value is logged as `name=value`; Delve listens; a waiting
/// caller is woken.
pub open spec fn at_prompt(s: DlvStep) -> DlvStep {
    match s.a.status {
        DelveStatusView::Processing(MessageView::PrintVariable(name)) => DlvStep {
            a: DlvAnalyserView { status: DelveStatusView::Listening, awaiting: false, variable_output: seq![] },
            events: s.events.push(EventView::Log(LogLevel::INFO, name + "="@ + collected_value(s.a.variable_output))),
            woke: s.woke || s.a.awaiting,
        },
        _ => DlvStep {
            a: DlvAnalyserView { status: DelveStatusView::Listening, awaiting: false, ..s.a },
            events: s.events,
            woke: s.woke || s.a.awaiting,
        },
    }
}

/// The step after the events `e`, where they could be read.
pub open spec fn with_events(s: DlvStep, e: Option<Seq<EventView>>) -> Option<DlvStep> {
    match e {
        Some(e) => Some(DlvStep { events: s.events + e, ..s }),
        None => None,
    }
}

/// What one line gives, after the lines before it.
pub open spec fn spec_line(s: DlvStep, line: Seq<char>) -> Option<DlvStep> {
    let t = if line == "(dlv) "@ { at_prompt(s) } else { s };
    match t.a.status {
        DelveStatusView::Processing(MessageView::DlvSetup) => with_events(t, opt_cat(
            opt_cat(matches_events(RE_LAUNCHED@, Reading::Launched, line), matches_events(RE_JUMP_TO_POSITION@, Reading::Jump, line)),
            matches_events(RE_EXITED@, Reading::Exited, line),
        )),
        DelveStatusView::Processing(MessageView::Breakpoint(_)) => with_events(t, matches_events(RE_BREAKPOINT@, Reading::Breakpoint, line)),
        DelveStatusView::Processing(MessageView::StepIn)
        | DelveStatusView::Processing(MessageView::StepOver)
        | DelveStatusView::Processing(MessageView::Continue)
        | DelveStatusView::Processing(MessageView::Custom(_)) => with_events(t, opt_cat(
            matches_events(RE_JUMP_TO_POSITION@, Reading::Jump, line),
            matches_events(RE_EXITED@, Reading::Exited, line),
        )),
        DelveStatusView::Processing(MessageView::PrintVariable(name)) => if line != "print "@ + name && line != ""@ {
            Some(DlvStep {
                a: DlvAnalyserView { variable_output: t.a.variable_output + line + "\n"@, ..t.a },
                ..t
            })
        } else {
            Some(t)
        },
        _ => Some(t),
    }
}

/// What the lines give, read in order.
pub open spec fn spec_lines(s: DlvStep, lines: Seq<Seq<char>>) -> Option<DlvStep>
    decreases lines.len(),
{
    if lines.len() == 0 {
        Some(s)
    } else {
        match spec_lines(s, lines.drop_last()) {
            Some(t) => spec_line(t, lines.last()),
            None => None,
        }
    }
}

/// What a chunk of Delve's output `text` gives: the events for Vim,
/// whether a waiting caller was woken, and the analyser afterwards. A chunk
/// that leaves a variable being printed is logged whole, unless it is the
/// echo of the print command. `None` where a number in it does not read.
pub open spec fn spec_analyse_output(a: DlvAnalyserView, text: Seq<char>) -> Option<DlvStep> {
    match spec_lines(DlvStep { a, events: seq![], woke: false }, split(text, "\r\n"@)) {
        Some(t) => match t.a.status {
            DelveStatusView::Processing(MessageView::PrintVariable(name)) => if text != "print "@ + name + "\r\n"@ {
                Some(DlvStep { events: t.events.push(EventView::Log(LogLevel::INFO, text)), ..t })
            } else {
                Some(t)
            },
            _ => Some(t),
        },
        None => None,
    }
}

/// Whether the collected lines are empty or end with a newline, as each
/// collected line does.
pub open spec fn output_wf(out: Seq<char>) -> bool {
    out.len() == 0 || out.last() == '\n'
}

/// The events of one match.
fn read_match(how: &Reading, g: &Vec<Option<String>>) -> (r: Option<Vec<Event>>)
    ensures
        opt_events(r) == read(*how, groups_view(g@)),
{
    let mut v: Vec<Event> = Vec::new();
    let e = match how {
        Reading::Breakpoint => match (get_group(g, 1), get_group(g, 2)) {
            (Some(f), Some(l)) => match parse_u64(l.as_str()) {
                Some(n) => {
                    let mut m = String::from_str("Breakpoint set at file ");
                    m.append(f.as_str());
                    m.append(" and line number ");
                    let t = u64_text(n);
                    m.append(t.as_str());
                    Event::Log(LogLevel::INFO, m)
                },
                None => return None,
            },
            _ => return None,
        },
        Reading::Jump => match (get_group(g, 1), get_group(g, 2)) {
            (Some(f), Some(l)) => match parse_u64(l.as_str()) {
                Some(n) => Event::JumpToPosition(f, n),
                None => return None,
            },
            _ => return None,
        },
        Reading::Launched => match get_group(g, 1) {
            Some(p) => match parse_u64(p.as_str()) {
                Some(n) => {
                    let mut m = String::from_str("Process launched with pid: ");
                    let t = u64_text(n);
                    m.append(t.as_str());
                    Event::Log(LogLevel::INFO, m)
                },
                None => return None,
            },
            None => return None,
        },
        Reading::Exited => match (get_group(g, 1), get_group(g, 2)) {
            (Some(p), Some(c)) => match (parse_u64(p.as_str()), parse_i64(c.as_str())) {
                (Some(pid), Some(code)) => Event::ProcessExited(pid, code),
                _ => return None,
            },
            _ => return None,
        },
    };
    proof { lemma_events_view_push(v@, e); }
    v.push(e);
    Some(v)
}

/// The events of the matches of `pattern` in `line`.
fn events_for(pattern: &str, how: Reading, line: &str) -> (r: Option<Vec<Event>>)
    ensures
        opt_events(r) == matches_events(pattern@, how, line@),
{
    let c = captures(pattern, line);
    let ghost cv = captures_view(c@);
    let mut acc: Option<Vec<Event>> = Some(Vec::new());
    assert(opt_events(acc) == Some(Seq::<EventView>::empty()));
    let mut i: usize = 0;
    while i < c.len()
        invariant
            i <= c@.len(),
            cv == captures_view(c@),
            cv == regex_captures(pattern@, line@),
            opt_events(acc) == events_of(cv.take(i as int), reader(how)),
        decreases c@.len() - i,
    {
        assert(cv.take(i + 1).drop_last() == cv.take(i as int));
        assert(cv[i as int] == groups_view(c@[i as int]@));
        let e = read_match(&how, &c[i]);
        acc = cat_opt(acc, e);
        i = i + 1;
    }
    assert(cv.take(c@.len() as int) == cv);
    acc
}

/// A copy of a message.
pub fn copy_message(m: &Message) -> (r: Message)
    ensures
        r@ == m@,
{
    match m {
        Message::DlvLaunching => Message::DlvLaunching,
        Message::DlvSetup => Message::DlvSetup,
        Message::ProcessLaunching => Message::ProcessLaunching,
        Message::Breakpoint(fl) => Message::Breakpoint(FileLocation::new(String::from_str(fl.name()), fl.line_num())),
        Message::Unbreakpoint(fl) => Message::Unbreakpoint(FileLocation::new(String::from_str(fl.name()), fl.line_num())),
        Message::StepIn => Message::StepIn,
        Message::StepOver => Message::StepOver,
        Message::Continue => Message::Continue,
        Message::PrintVariable(v) => Message::PrintVariable(Variable::new(String::from_str(v.name()))),
        Message::Custom(b) => {
            let c = bytes_from(b.as_slice(), 0);
            assert(c@ == b@);
            Message::Custom(c)
        },
    }
}

/// A copy of Delve's state.
pub fn copy_status(s: &DelveStatus) -> (r: DelveStatus)
    ensures
        r@ == s@,
{
    match s {
        DelveStatus::NotRunning => DelveStatus::NotRunning,
        DelveStatus::Listening => DelveStatus::Listening,
        DelveStatus::Processing(m) => DelveStatus::Processing(copy_message(m)),
    }
}

/// Reads Delve's output and keeps track of its state.
#[derive(Debug)]
pub struct DlvAnalyser {
    status: DelveStatus,
    awaiting: bool,
    variable_output: String,
}

impl View for DlvAnalyser {
    type V = DlvAnalyserView;

    closed spec fn view(&self) -> DlvAnalyserView {
        DlvAnalyserView { status: self.status@, awaiting: self.awaiting, variable_output: self.variable_output@ }
    }
}

/// The events so far, with `e` after them.
fn push_event(acc: Option<Vec<Event>>, e: Event) -> (r: Option<Vec<Event>>)
    ensures
        opt_events(r) == match opt_events(acc) {
            Some(x) => Some(x.push(e@)),
            None => None,
        },
{
    match acc {
        Some(mut v) => {
            proof { lemma_events_view_push(v@, e); }
            v.push(e);
            Some(v)
        },
        None => None,
    }
}

impl DlvAnalyser {
    #[verifier::type_invariant]
    spec fn inv(self) -> bool {
        output_wf(self.variable_output@)
    }

    /// An analyser for a Delve that is not running yet.
    pub fn new() -> (r: DlvAnalyser)
        ensures
            r@ == (DlvAnalyserView { status: DelveStatusView::NotRunning, awaiting: false, variable_output: seq![] }),
    {
        DlvAnalyser { status: DelveStatus::NotRunning, awaiting: false, variable_output: String::new() }
    }

    /// Delve's state.
    pub fn get_status(&self) -> (r: DelveStatus)
        ensures
            r@ == self@.status,
    {
        copy_status(&self.status)
    }

    /// Gets ready for Delve to process `msg`; `awaiting` says whether a
    /// caller waits for it.
    pub fn analyse_message(&mut self, msg: Message, awaiting: bool)
        ensures
            final(self)@ == (DlvAnalyserView { status: DelveStatusView::Processing(msg@), awaiting, ..old(self)@ }),
    {
        proof { use_type_invariant(&*self); }
        self.status = DelveStatus::Processing(msg);
        self.awaiting = awaiting;
    }

    /// Reads a chunk of Delve's output; see `spec_analyse_output`. Where
    /// that gives `None`, the analyser is left as it was.
    pub fn analyse_output(&mut self, s: &str) -> (r: Option<(Vec<Event>, bool)>)
        ensures
            match (r, spec_analyse_output(old(self)@, s@)) {
                (Some((e, woke)), Some(t)) => events_view(e@) == t.events && woke == t.woke && final(self)@ == t.a,
                (None, None) => final(self)@ == old(self)@,
                _ => false,
            },
    {
        proof { use_type_invariant(&*self); }
        let ghost a = self@;
        let mut status = copy_status(&self.status);
        let mut awaiting = self.awaiting;
        let mut vout = String::from_str(self.variable_output.as_str());
        let mut woke = false;
        let mut acc: Option<Vec<Event>> = Some(Vec::new());
        let chars = chars_of(s);
        let sep: Vec<char> = vec!['\r', '\n'];
        assert(sep@ == "\r\n"@) by {
            reveal_strlit("\r\n");
        }
        let lines = split_chars(chars.as_slice(), sep.as_slice());
        let ghost lv = pieces_view(lines@);
        assert(opt_events(acc) == Some(Seq::<EventView>::empty()));
        let mut i: usize = 0;
        while i < lines.len()
            invariant
                i <= lines@.len(),
                lv == pieces_view(lines@),
                lv == split(s@, "\r\n"@),
                output_wf(vout@),
                match (opt_events(acc), spec_lines(DlvStep { a, events: seq![], woke: false }, lv.take(i as int))) {
                    (Some(e), Some(t)) => e == t.events && woke == t.woke
                        && t.a == (DlvAnalyserView { status: status@, awaiting, variable_output: vout@ }),
                    (None, None) => true,
                    _ => false,
                },
            decreases lines@.len() - i,
        {
            assert(lv.take(i + 1).drop_last() == lv.take(i as int));
            assert(lv[i as int] == lines@[i as int]@);
            let line = string_of(lines[i].as_slice());
            if str_eq(line.as_str(), "(dlv) ") {
                match &status {
                    DelveStatus::Processing(Message::PrintVariable(v)) => {
                        let cs = chars_of(vout.as_str());
                        let value = if cs.len() == 0 {
                            String::new()
                        } else {
                            string_of(sub_chars(cs.as_slice(), 0, cs.len() - 1).as_slice())
                        };
                        proof {
                            if cs@.len() > 0 {
                                assert(cs@.subrange(0, cs@.len() - 1) == cs@.drop_last());
                            }
                        }
                        let mut m = String::from_str(v.name());
                        m.append("=");
                        m.append(value.as_str());
                        acc = push_event(acc, Event::Log(LogLevel::INFO, m));
                        vout = String::new();
                    },
                    _ => {},
                }
                woke = woke || awaiting;
                awaiting = false;
                status = DelveStatus::Listening;
            }
            match &status {
                DelveStatus::Processing(Message::DlvSetup) => {
                    let a1 = cat_opt(
                        events_for(RE_LAUNCHED, Reading::Launched, line.as_str()),
                        events_for(RE_JUMP_TO_POSITION, Reading::Jump, line.as_str()),
                    );
                    let a2 = cat_opt(a1, events_for(RE_EXITED, Reading::Exited, line.as_str()));
                    acc = cat_opt(acc, a2);
                },
                DelveStatus::Processing(Message::Breakpoint(_)) => {
                    acc = cat_opt(acc, events_for(RE_BREAKPOINT, Reading::Breakpoint, line.as_str()));
                },
                DelveStatus::Processing(Message::StepIn)
                | DelveStatus::Processing(Message::StepOver)
                | DelveStatus::Processing(Message::Continue)
                | DelveStatus::Processing(Message::Custom(_)) => {
                    let a1 = cat_opt(
                        events_for(RE_JUMP_TO_POSITION, Reading::Jump, line.as_str()),
                        events_for(RE_EXITED, Reading::Exited, line.as_str()),
                    );
                    acc = cat_opt(acc, a1);
                },
                DelveStatus::Processing(Message::PrintVariable(v)) => {
                    let mut echo = String::from_str("print ");
                    echo.append(v.name());
                    if !str_eq(line.as_str(), echo.as_str()) && !str_eq(line.as_str(), "") {
                        vout.append(line.as_str());
                        vout.append("\n");
                        proof { reveal_strlit("\n"); }
                    }
                },
                _ => {},
            }
            i = i + 1;
        }
        assert(lv.take(lines@.len() as int) == lv);
        let mut events = match acc {
            Some(e) => e,
            None => return None,
        };
        match &status {
            DelveStatus::Processing(Message::PrintVariable(v)) => {
                let mut echo = String::from_str("print ");
                echo.append(v.name());
                echo.append("\r\n");
                if !str_eq(s, echo.as_str()) {
                    let e = Event::Log(LogLevel::INFO, String::from_str(s));
                    proof { lemma_events_view_push(events@, e); }
                    events.push(e);
                }
            },
            _ => {},
        }
        self.status = status;
        self.awaiting = awaiting;
        self.variable_output = vout;
        Some((events, woke))
    }
}

/// The texts sent to Delve for a message, one after the other: setting it
/// up breaks at `main.main`, restarts and continues. Nothing is sent while
/// Delve launches.
pub open spec fn spec_commands(m: MessageView) -> Option<Seq<Seq<u8>>> {
    match m {
        MessageView::DlvLaunching => None,
        MessageView::DlvSetup => Some(seq![
            encode_utf8("break main.main\n"@),
            encode_utf8("restart\n"@),
            encode_utf8("continue\n"@),
        ]),
        MessageView::ProcessLaunching => Some(seq![encode_utf8("restart\n"@)]),
        MessageView::Breakpoint(fl) => Some(seq![encode_utf8("break "@ + fl.name + ":"@ + decimal(fl.line_num as nat) + "\n"@)]),
        MessageView::Unbreakpoint(fl) => Some(seq![encode_utf8("clear "@ + fl.name + ":"@ + decimal(fl.line_num as nat) + "\n"@)]),
        MessageView::StepIn => Some(seq![encode_utf8("si\n"@)]),
        MessageView::StepOver => Some(seq![encode_utf8("next\n"@)]),
        MessageView::Continue => Some(seq![encode_utf8("continue\n"@)]),
        MessageView::PrintVariable(v) => Some(seq![encode_utf8("print "@ + v + "\n"@)]),
        MessageView::Custom(b) => Some(seq![b]),
    }
}

/// The bytes of a text.
fn text_bytes(s: &str) -> (r: Vec<u8>)
    ensures
        r@ == encode_utf8(s@),
{
    let b = s.as_bytes();
    let r = bytes_from(b, 0);
    assert(r@ == b@);
    r
}

/// The models of a list of byte vectors.
pub open spec fn byte_texts(v: Seq<Vec<u8>>) -> Seq<Seq<u8>> {
    v.map_values(|b: Vec<u8>| b@)
}

/// The texts sent to Delve for a message; see `spec_commands`.
pub fn commands_for(m: &Message) -> (r: Option<Vec<Vec<u8>>>)
    ensures
        match r {
            Some(v) => spec_commands(m@) == Some(byte_texts(v@)),
            None => spec_commands(m@) is None,
        },
{
    let v: Vec<Vec<u8>> = match m {
        Message::DlvLaunching => return None,
        Message::DlvSetup => vec![text_bytes("break main.main\n"), text_bytes("restart\n"), text_bytes("continue\n")],
        Message::ProcessLaunching => vec![text_bytes("restart\n")],
        Message::Breakpoint(fl) | Message::Unbreakpoint(fl) => {
            let mut c = match m {
                Message::Breakpoint(_) => String::from_str("break "),
                _ => String::from_str("clear "),
            };
            c.append(fl.name());
            c.append(":");
            let n = u64_text(fl.line_num());
            c.append(n.as_str());
            c.append("\n");
            vec![text_bytes(c.as_str())]
        },
        Message::StepIn => vec![text_bytes("si\n")],
        Message::StepOver => vec![text_bytes("next\n")],
        Message::Continue => vec![text_bytes("continue\n")],
        Message::PrintVariable(var) => {
            let mut c = String::from_str("print ");
            c.append(var.name());
            c.append("\n");
            vec![text_bytes(c.as_str())]
        },
        Message::Custom(b) => {
            let c = bytes_from(b.as_slice(), 0);
            assert(c@ == b@);
            vec![c]
        },
    };
    assert(byte_texts(v@) =~= spec_commands(m@)->0);
    Some(v)
}

} // verus!
