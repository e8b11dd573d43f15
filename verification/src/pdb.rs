//! What PADRE makes of PDB's output.
//!
//! The analyser follows PDB's state: it starts out processing the launch,
//! is `Listening` once PDB shows its prompt, and `Processing` a message from
//! the moment one is sent until the next prompt. Each chunk of output is read
//! line by line for breakpoints, positions, returns and exits, which become
//! events for Vim. While a variable is printed, the output is collected as
//! its value.

use vstd::prelude::*;
use vstd::string::*;
use vstd::utf8::*;
use crate::text::{
    chars_eq, sub_chars, chars_of, string_of, split, split_chars, pieces_view, lemma_split_len, str_eq, parse_u64, parse_i64,
    spec_parse_u64, spec_parse_i64, decimal, decimal_i64, u64_text, i64_text, bytes_from, bytes_start_with,
};
use crate::json::{Json, JsonValue, lemma_members_view, entries_view, utf8_lossy, utf8_lossy_text};
use crate::error::{PadreError, PadreErrorKind, ErrorView};
use crate::request::{FileLocation, FileLocationView, Variable};
use crate::pattern::{captures, captures_view, groups_view, group, get_group, regex_captures, GroupsView};
use crate::notify::{
    Event, EventView, LogLevel, events_view, append_events, lemma_events_view_push, opt_cat, events_of, opt_events,
    cat_opt, lemma_events_of_none, no_jumps, opt_no_jumps, lemma_cat_no_jumps, lemma_events_of_no_jumps,
};
use crate::lldb_command::variable_not_found_error;
use crate::vimcodec::{take_member, member};

verus! {

/// A breakpoint that PDB set.
pub const RE_BREAKPOINT: &'static str = "Breakpoint (\\d*) at (.*):(\\d*)$";
/// PDB stopped at a line of a file.
pub const RE_JUMP_TO_POSITION: &'static str = "^> (.*)\\((\\d*)\\)[<>\\w]*\\(\\)$";
/// PDB stopped at a function's return, with the value returned.
pub const RE_RETURNING: &'static str = "^> (.*)\\((\\d*)\\)[<>\\w]*\\(\\)->(.*)$";
/// The program ran to its end.
pub const RE_PROCESS_EXITED: &'static str = "^The program finished and will be restarted$";
/// The program called `sys.exit`.
pub const RE_PROCESS_EXITED_WITH_CODE: &'static str = "^The program exited via sys.exit\\(\\)\\. Exit status: (-?\\d*)$";

/// Messages that PADRE sends to PDB.
#[derive(Clone, Debug, PartialEq)]
pub enum Message {
    Launching,
    Restart,
    Breakpoint(FileLocation),
    Unbreakpoint(FileLocation),
    /// Step in, this many times.
    StepIn(u64),
    /// Step over, this many times.
    StepOver(u64),
    Continue,
    PrintVariable(Variable),
    /// Typed in by the user; PADRE does not know what it is.
    Custom,
}

/// The model of a message.
pub enum MessageView {
    Launching,
    Restart,
    Breakpoint(FileLocationView),
    Unbreakpoint(FileLocationView),
    StepIn(u64),
    StepOver(u64),
    Continue,
    PrintVariable(Seq<char>),
    Custom,
}

impl View for Message {
    type V = MessageView;

    open spec fn view(&self) -> MessageView {
        match self {
            Message::Launching => MessageView::Launching,
            Message::Restart => MessageView::Restart,
            Message::Breakpoint(fl) => MessageView::Breakpoint(fl@),
            Message::Unbreakpoint(fl) => MessageView::Unbreakpoint(fl@),
            Message::StepIn(n) => MessageView::StepIn(*n),
            Message::StepOver(n) => MessageView::StepOver(*n),
            Message::Continue => MessageView::Continue,
            Message::PrintVariable(v) => MessageView::PrintVariable(v@),
            Message::Custom => MessageView::Custom,
        }
    }
}

/// PDB's state as PADRE follows it.
#[derive(Clone, Debug, PartialEq)]
pub enum PDBStatus {
    Listening,
    Processing(Message),
}

/// The model of PDB's state.
pub enum PDBStatusView {
    Listening,
    Processing(MessageView),
}

impl View for PDBStatus {
    type V = PDBStatusView;

    open spec fn view(&self) -> PDBStatusView {
        match self {
            PDBStatus::Listening => PDBStatusView::Listening,
            PDBStatus::Processing(m) => PDBStatusView::Processing(m@),
        }
    }
}

/// The event of a breakpoint match: its file and line.
pub open spec fn breakpoint_event(g: GroupsView) -> Option<Seq<EventView>> {
    match (group(g, 2), group(g, 3)) {
        (Some(f), Some(l)) => match spec_parse_u64(l) {
            Some(n) => Some(seq![EventView::Log(
                LogLevel::INFO,
                "Breakpoint set at file "@ + f + " and line number "@ + decimal(n as nat),
            )]),
            None => None,
        },
        _ => None,
    }
}

/// The events of the pieces of a line, each read for breakpoints.
pub open spec fn breakpoint_pieces(pieces: Seq<Seq<char>>) -> Option<Seq<EventView>>
    decreases pieces.len(),
{
    if pieces.len() == 0 {
        Some(seq![])
    } else {
        opt_cat(
            breakpoint_pieces(pieces.drop_last()),
            events_of(regex_captures(RE_BREAKPOINT@, pieces.last()), reader(Reading::Breakpoint, seq![])),
        )
    }
}

/// The events of a line that may report breakpoints: it is read piece by
/// piece, cut at each carriage return.
pub open spec fn spec_check_breakpoint(line: Seq<char>) -> Option<Seq<EventView>> {
    breakpoint_pieces(split(line, "\r"@))
}

/// The event of a position match: the file and line PDB stopped at.
pub open spec fn jump_event(g: GroupsView) -> Option<Seq<EventView>> {
    match (group(g, 1), group(g, 2)) {
        (Some(f), Some(l)) => match spec_parse_u64(l) {
            Some(n) => Some(seq![EventView::JumpToPosition(f, n)]),
            None => None,
        },
        _ => None,
    }
}

/// The events of a line that may report where PDB stopped.
pub open spec fn spec_check_location(reporting: bool, line: Seq<char>) -> Option<Seq<EventView>> {
    if !reporting {
        Some(seq![])
    } else {
        events_of(regex_captures(RE_JUMP_TO_POSITION@, line), reader(Reading::Jump, seq![]))
    }
}

/// The events of a return match: the position and the value returned.
pub open spec fn returning_event(g: GroupsView) -> Option<Seq<EventView>> {
    match (group(g, 1), group(g, 2), group(g, 3)) {
        (Some(f), Some(l), Some(v)) => match spec_parse_u64(l) {
            Some(n) => Some(seq![
                EventView::JumpToPosition(f, n),
                EventView::Log(LogLevel::INFO, "Returning value "@ + v),
            ]),
            None => None,
        },
        _ => None,
    }
}

/// The events of a line that may report a function's return.
pub open spec fn spec_check_returning(reporting: bool, line: Seq<char>) -> Option<Seq<EventView>> {
    if !reporting {
        Some(seq![])
    } else {
        events_of(regex_captures(RE_RETURNING@, line), reader(Reading::Returning, seq![]))
    }
}

/// The message that process `pid` exited with `code`.
pub open spec fn exit_message(pid: Seq<char>, code: i64) -> EventView {
    EventView::Log(LogLevel::INFO, "Process "@ + pid + " exited with exit code "@ + decimal_i64(code))
}

/// The event of an exit-with-code match.
pub open spec fn exit_code_event(pid: Seq<char>, g: GroupsView) -> Option<Seq<EventView>> {
    match group(g, 1) {
        Some(c) => match spec_parse_i64(c) {
            Some(code) => Some(seq![exit_message(pid, code)]),
            None => None,
        },
        None => None,
    }
}

/// The events of a line that may report that program `pid` exited.
pub open spec fn spec_check_exited(pid: Seq<char>, line: Seq<char>) -> Option<Seq<EventView>> {
    opt_cat(
        events_of(regex_captures(RE_PROCESS_EXITED@, line), reader(Reading::Finished, pid)),
        events_of(regex_captures(RE_PROCESS_EXITED_WITH_CODE@, line), reader(Reading::ExitCode, pid)),
    )
}

/// What a match is read for.
pub enum Reading {
    Breakpoint,
    Jump,
    Returning,
    Finished,
    ExitCode,
}

/// How a match is read, for program `pid`.
pub open spec fn reader(r: Reading, pid: Seq<char>) -> spec_fn(GroupsView) -> Option<Seq<EventView>> {
    match r {
        Reading::Breakpoint => |g: GroupsView| breakpoint_event(g),
        Reading::Jump => |g: GroupsView| jump_event(g),
        Reading::Returning => |g: GroupsView| returning_event(g),
        Reading::Finished => |g: GroupsView| Some(seq![exit_message(pid, 0)]),
        Reading::ExitCode => |g: GroupsView| exit_code_event(pid, g),
    }
}

/// The log message event.
fn info(msg: String) -> (r: Event)
    ensures
        r@ == EventView::Log(LogLevel::INFO, msg@),
{
    Event::Log(LogLevel::INFO, msg)
}

/// The events of one match.
fn read_match(how: &Reading, pid: &str, g: &Vec<Option<String>>) -> (r: Option<Vec<Event>>)
    ensures
        opt_events(r) == (reader(*how, pid@))(groups_view(g@)),
{
    let mut v: Vec<Event> = Vec::new();
    let ghost gv = groups_view(g@);
    match how {
        Reading::Breakpoint => match (get_group(g, 2), get_group(g, 3)) {
            (Some(f), Some(l)) => match parse_u64(l.as_str()) {
                Some(n) => {
                    let mut m = String::from_str("Breakpoint set at file ");
                    m.append(f.as_str());
                    m.append(" and line number ");
                    let t = u64_text(n);
                    m.append(t.as_str());
                    let e = info(m);
                    proof { lemma_events_view_push(v@, e); }
                    v.push(e);
                },
                None => return None,
            },
            _ => return None,
        },
        Reading::Jump => match (get_group(g, 1), get_group(g, 2)) {
            (Some(f), Some(l)) => match parse_u64(l.as_str()) {
                Some(n) => {
                    let e = Event::JumpToPosition(f, n);
                    proof { lemma_events_view_push(v@, e); }
                    v.push(e);
                },
                None => return None,
            },
            _ => return None,
        },
        Reading::Returning => match (get_group(g, 1), get_group(g, 2), get_group(g, 3)) {
            (Some(f), Some(l), Some(rv)) => match parse_u64(l.as_str()) {
                Some(n) => {
                    let e = Event::JumpToPosition(f, n);
                    proof { lemma_events_view_push(v@, e); }
                    v.push(e);
                    let mut m = String::from_str("Returning value ");
                    m.append(rv.as_str());
                    let e2 = info(m);
                    proof { lemma_events_view_push(v@, e2); }
                    v.push(e2);
                },
                None => return None,
            },
            _ => return None,
        },
        Reading::Finished => {
            let e = exit_event(pid, 0);
            proof { lemma_events_view_push(v@, e); }
            v.push(e);
        },
        Reading::ExitCode => match get_group(g, 1) {
            Some(c) => match parse_i64(c.as_str()) {
                Some(code) => {
                    let e = exit_event(pid, code);
                    proof { lemma_events_view_push(v@, e); }
                    v.push(e);
                },
                None => return None,
            },
            None => return None,
        },
    }
    Some(v)
}

/// The message that program `pid` exited with `code`.
fn exit_event(pid: &str, code: i64) -> (r: Event)
    ensures
        r@ == exit_message(pid@, code),
{
    let mut m = String::from_str("Process ");
    m.append(pid);
    m.append(" exited with exit code ");
    let t = i64_text(code);
    m.append(t.as_str());
    info(m)
}

/// The events of the matches of `pattern` in `text`.
fn events_for(pattern: &str, text: &str, how: Reading, pid: &str) -> (r: Option<Vec<Event>>)
    ensures
        opt_events(r) == events_of(regex_captures(pattern@, text@), reader(how, pid@)),
{
    let c = captures(pattern, text);
    let ghost cv = captures_view(c@);
    let mut v: Vec<Event> = Vec::new();
    let mut i: usize = 0;
    while i < c.len()
        invariant
            i <= c@.len(),
            cv == captures_view(c@),
            cv == regex_captures(pattern@, text@),
            Some(events_view(v@)) == events_of(cv.take(i as int), reader(how, pid@)),
        decreases c@.len() - i,
    {
        assert(cv.take(i + 1).drop_last() == cv.take(i as int));
        assert(cv[i as int] == groups_view(c@[i as int]@));
        match read_match(&how, pid, &c[i]) {
            Some(e) => append_events(&mut v, e),
            None => {
                assert(events_of(cv.take(i + 1), reader(how, pid@)) is None);
                proof { lemma_events_of_none(cv, reader(how, pid@), i + 1, cv.len() as int); }
                assert(cv.take(cv.len() as int) == cv);
                return None;
            },
        }
        i = i + 1;
    }
    assert(cv.take(c@.len() as int) == cv);
    Some(v)
}

/// The events of one line of output, given PDB's state; `None` where a
/// number in it does not read.
pub open spec fn spec_line_events(status: PDBStatusView, reporting: bool, pid: Seq<char>, line: Seq<char>) -> Option<Seq<EventView>> {
    match status {
        PDBStatusView::Listening => Some(seq![]),
        PDBStatusView::Processing(MessageView::Restart) | PDBStatusView::Processing(MessageView::Launching) =>
            spec_check_location(reporting, line),
        PDBStatusView::Processing(MessageView::Breakpoint(_)) => spec_check_breakpoint(line),
        PDBStatusView::Processing(MessageView::StepIn(_))
        | PDBStatusView::Processing(MessageView::StepOver(_))
        | PDBStatusView::Processing(MessageView::Continue) => opt_cat(
            opt_cat(spec_check_location(reporting, line), spec_check_returning(reporting, line)),
            spec_check_exited(pid, line),
        ),
        PDBStatusView::Processing(MessageView::Custom) => opt_cat(
            opt_cat(
                opt_cat(spec_check_breakpoint(line), spec_check_location(reporting, line)),
                spec_check_returning(reporting, line),
            ),
            spec_check_exited(pid, line),
        ),
        PDBStatusView::Processing(_) => Some(seq![]),
    }
}

/// The events of the lines of a chunk of output, in order.
pub open spec fn spec_lines_events(status: PDBStatusView, reporting: bool, pid: Seq<char>, lines: Seq<Seq<char>>) -> Option<Seq<EventView>>
    decreases lines.len(),
{
    if lines.len() == 0 {
        Some(seq![])
    } else {
        opt_cat(spec_lines_events(status, reporting, pid, lines.drop_last()), spec_line_events(status, reporting, pid, lines.last()))
    }
}

/// The events of a line that may report breakpoints.
pub fn check_breakpoint(line: &str) -> (r: Option<Vec<Event>>)
    ensures
        opt_events(r) == spec_check_breakpoint(line@),
{
    let chars = chars_of(line);
    let sep: Vec<char> = vec!['\r'];
    assert(sep@ == "\r"@) by {
        reveal_strlit("\r");
    }
    let pieces = split_chars(chars.as_slice(), sep.as_slice());
    let ghost pv = pieces_view(pieces@);
    let mut acc: Option<Vec<Event>> = Some(Vec::new());
    assert(opt_events(acc) == Some(Seq::<EventView>::empty()));
    let mut i: usize = 0;
    while i < pieces.len()
        invariant
            i <= pieces@.len(),
            pv == pieces_view(pieces@),
            pv == split(line@, "\r"@),
            opt_events(acc) == breakpoint_pieces(pv.take(i as int)),
        decreases pieces@.len() - i,
    {
        assert(pv.take(i + 1).drop_last() == pv.take(i as int));
        assert(pv[i as int] == pieces@[i as int]@);
        let piece = string_of(pieces[i].as_slice());
        let e = events_for(RE_BREAKPOINT, piece.as_str(), Reading::Breakpoint, "");
        acc = cat_opt(acc, e);
        i = i + 1;
    }
    assert(pv.take(pieces@.len() as int) == pv);
    acc
}

/// The events of a line that may report where PDB stopped.
pub fn check_location(reporting: bool, line: &str) -> (r: Option<Vec<Event>>)
    ensures
        opt_events(r) == spec_check_location(reporting, line@),
{
    if !reporting {
        let v: Vec<Event> = Vec::new();
        assert(events_view(v@) =~= Seq::<EventView>::empty());
        return Some(v);
    }
    events_for(RE_JUMP_TO_POSITION, line, Reading::Jump, "")
}

/// The events of a line that may report a function's return.
pub fn check_returning(reporting: bool, line: &str) -> (r: Option<Vec<Event>>)
    ensures
        opt_events(r) == spec_check_returning(reporting, line@),
{
    if !reporting {
        let v: Vec<Event> = Vec::new();
        assert(events_view(v@) =~= Seq::<EventView>::empty());
        return Some(v);
    }
    events_for(RE_RETURNING, line, Reading::Returning, "")
}

/// The events of a line that may report that program `pid` exited.
pub fn check_exited(pid: &str, line: &str) -> (r: Option<Vec<Event>>)
    ensures
        opt_events(r) == spec_check_exited(pid@, line@),
{
    let a = events_for(RE_PROCESS_EXITED, line, Reading::Finished, pid);
    let b = events_for(RE_PROCESS_EXITED_WITH_CODE, line, Reading::ExitCode, pid);
    cat_opt(a, b)
}

/// The events of one line of output, given PDB's state.
pub fn line_events(status: &PDBStatus, reporting: bool, pid: &str, line: &str) -> (r: Option<Vec<Event>>)
    ensures
        opt_events(r) == spec_line_events(status@, reporting, pid@, line@),
{
    match status {
        PDBStatus::Listening => {
            let v: Vec<Event> = Vec::new();
            assert(events_view(v@) =~= Seq::<EventView>::empty());
            Some(v)
        },
        PDBStatus::Processing(Message::Restart) | PDBStatus::Processing(Message::Launching) => check_location(reporting, line),
        PDBStatus::Processing(Message::Breakpoint(_)) => check_breakpoint(line),
        PDBStatus::Processing(Message::StepIn(_))
        | PDBStatus::Processing(Message::StepOver(_))
        | PDBStatus::Processing(Message::Continue) => {
            let a = cat_opt(check_location(reporting, line), check_returning(reporting, line));
            cat_opt(a, check_exited(pid, line))
        },
        PDBStatus::Processing(Message::Custom) => {
            let a = cat_opt(check_breakpoint(line), check_location(reporting, line));
            let b = cat_opt(a, check_returning(reporting, line));
            cat_opt(b, check_exited(pid, line))
        },
        PDBStatus::Processing(_) => {
            let v: Vec<Event> = Vec::new();
            assert(events_view(v@) =~= Seq::<EventView>::empty());
            Some(v)
        },
    }
}

/// The pieces of a text put back together.
pub open spec fn concat(s: Seq<Seq<char>>) -> Seq<char>
    decreases s.len(),
{
    if s.len() == 0 {
        seq![]
    } else {
        concat(s.drop_last()) + s.last()
    }
}

/// The pieces put back together.
fn concat_pieces(v: &Vec<Vec<char>>) -> (r: Vec<char>)
    ensures
        r@ == concat(pieces_view(v@)),
{
    let ghost pv = pieces_view(v@);
    let mut r: Vec<char> = Vec::new();
    let mut i: usize = 0;
    while i < v.len()
        invariant
            i <= v@.len(),
            pv == pieces_view(v@),
            r@ == concat(pv.take(i as int)),
        decreases v@.len() - i,
    {
        assert(pv.take(i + 1).drop_last() == pv.take(i as int));
        assert(pv[i as int] == v@[i as int]@);
        let mut j: usize = 0;
        let ghost r0 = r@;
        while j < v[i].len()
            invariant
                i < v@.len(),
                j <= v@[i as int]@.len(),
                r@ == r0 + v@[i as int]@.take(j as int),
            decreases v@[i as int]@.len() - j,
        {
            r.push(v[i][j]);
            assert(v@[i as int]@.take(j + 1) == v@[i as int]@.take(j as int).push(v@[i as int]@[j as int]));
            j = j + 1;
        }
        assert(v@[i as int]@.take(v@[i as int]@.len() as int) == v@[i as int]@);
        i = i + 1;
    }
    assert(pv.take(v@.len() as int) == pv);
    r
}

/// The terminal codes that some Pythons put into PDB's output: bracketed
/// paste being switched on, and off with a carriage return.
pub open spec fn paste_on() -> Seq<char> {
    "\x1b[?2004h"@
}

/// See `paste_on`.
pub open spec fn paste_off() -> Seq<char> {
    "\x1b[?2004l\r"@
}

/// `text` without the terminal codes of `paste_on` and `paste_off`.
pub open spec fn spec_strip_gibberish(text: Seq<char>) -> Seq<char> {
    concat(split(concat(split(text, paste_on())), paste_off()))
}

/// `text` without the terminal codes of `paste_on` and `paste_off`.
pub fn strip_gibberish(text: &str) -> (r: String)
    ensures
        r@ == spec_strip_gibberish(text@),
{
    let on: Vec<char> = vec!['\x1b', '[', '?', '2', '0', '0', '4', 'h'];
    let off: Vec<char> = vec!['\x1b', '[', '?', '2', '0', '0', '4', 'l', '\r'];
    assert(on@ == paste_on()) by {
        reveal_strlit("\x1b[?2004h");
    }
    assert(off@ == paste_off()) by {
        reveal_strlit("\x1b[?2004l\r");
    }
    let chars = chars_of(text);
    let once = concat_pieces(&split_chars(chars.as_slice(), on.as_slice()));
    let twice = concat_pieces(&split_chars(once.as_slice(), off.as_slice()));
    string_of(twice.as_slice())
}

/// What PDB echoes for printing variable `name`.
pub open spec fn print_prefix(name: Seq<char>) -> Seq<char> {
    "print("@ + name + ")\r\n"@
}

/// What ends PDB's output before its prompt.
pub open spec fn pdb_suffix() -> Seq<char> {
    "\r\n(Pdb) "@
}

/// The value printed so far for variable `name`, once `text` came in: the
/// value before, with the new text, without the terminal codes, the echo
/// of the command and the prompt. The cuts go by the bytes of the text;
/// `None` where one would fall inside a character, or the echo and the
/// prompt would overlap.
pub open spec fn spec_collect_print(pv: Seq<char>, text: Seq<char>, name: Seq<char>) -> Option<Seq<char>> {
    let tb = encode_utf8(pv + spec_strip_gibberish(text));
    let pb = encode_utf8(print_prefix(name));
    let sb = encode_utf8(pdb_suffix());
    let len = tb.len() as int;
    if len >= pb.len() && !is_char_boundary(tb, pb.len() as int) {
        None
    } else if len >= sb.len() && !is_char_boundary(tb, len - sb.len()) {
        None
    } else {
        let from = if len >= pb.len() && tb.take(pb.len() as int) == pb { pb.len() as int } else { 0 };
        let to = if len >= sb.len() && tb.skip(len - sb.len()) == sb { len - sb.len() } else { len };
        if from > to {
            None
        } else {
            Some(decode_utf8(tb.subrange(from, to)))
        }
    }
}

/// A position that starts a character in `b` starts one in each of its
/// prefixes that it lies in.
pub(crate) proof fn lemma_boundary_in_prefix(b: Seq<u8>, to: int, k: int)
    requires
        valid_utf8(b),
        is_char_boundary(b, to),
        is_char_boundary(b, k),
        0 <= k <= to <= b.len(),
    ensures
        valid_utf8(b.subrange(0, to)),
        is_char_boundary(b.subrange(0, to), k),
{
    valid_utf8_split(b, to);
    let h = b.subrange(0, to);
    is_char_boundary_start_end_of_seq(h);
    if 0 < k < to {
        is_char_boundary_iff_not_is_continuation_byte(b, k);
        is_char_boundary_iff_not_is_continuation_byte(h, k);
    }
}

/// The value printed so far for `name`; see `spec_collect_print`.
fn collect_print(pv: &str, text: &str, name: &str) -> (r: Option<String>)
    ensures
        match r {
            Some(s) => spec_collect_print(pv@, text@, name@) == Some(s@),
            None => spec_collect_print(pv@, text@, name@) is None,
        },
{
    let stripped = strip_gibberish(text);
    let mut t = String::from_str(pv);
    t.append(stripped.as_str());
    let mut prefix = String::from_str("print(");
    prefix.append(name);
    prefix.append(")\r\n");
    let ts = t.as_str();
    let tb = ts.as_bytes();
    let pb = prefix.as_str().as_bytes();
    let sb = "\r\n(Pdb) ".as_bytes();
    let len = tb.len();
    proof {
        encode_utf8_valid_utf8(ts@);
    }
    if len >= pb.len() && !ts.is_char_boundary(pb.len()) {
        return None;
    }
    if len >= sb.len() && !ts.is_char_boundary(len - sb.len()) {
        return None;
    }
    let from = if len >= pb.len() && bytes_start_with(tb, pb) { pb.len() } else { 0 };
    let to = if len >= sb.len() && bytes_start_with(bytes_from(tb, len - sb.len()).as_slice(), sb) {
        len - sb.len()
    } else {
        len
    };
    proof {
        if len >= sb.len() {
            assert(tb@.skip(len - sb@.len()).take(sb@.len() as int) == tb@.skip(len - sb@.len()));
        }
    }
    if from > to {
        return None;
    }
    proof {
        is_char_boundary_start_end_of_seq(tb@);
        lemma_boundary_in_prefix(tb@, to as int, from as int);
    }
    let (head, _) = ts.split_at(to);
    let (_, mid) = head.split_at(from);
    proof {
        assert(mid.spec_bytes() == tb@.subrange(from as int, to as int));
        encode_utf8_decode_utf8(mid@);
    }
    Some(String::from_str(mid))
}

/// What a caller waiting on a message is answered: a JSON value, or an
/// error.
pub open spec fn reply_view(r: Option<Result<JsonValue, PadreError>>) -> Option<Result<Json, ErrorView>> {
    match r {
        Some(Ok(v)) => Some(Ok(v@)),
        Some(Err(e)) => Some(Err(e@)),
        None => None,
    }
}

/// Reads PDB's output and keeps track of its state.
#[derive(Debug)]
pub struct PDBAnalyser {
    pdb_status: PDBStatus,
    process_pid: String,
    awaiting: bool,
    print_variable_value: String,
    reporting_location: bool,
}

/// The model of the analyser: PDB's state, the pid of the program, whether
/// a caller waits for the message being processed, the value printed so
/// far, and whether positions are reported.
pub struct PDBAnalyserView {
    pub status: PDBStatusView,
    pub pid: Seq<char>,
    pub awaiting: bool,
    pub print_value: Seq<char>,
    pub reporting: bool,
}

impl View for PDBAnalyser {
    type V = PDBAnalyserView;

    closed spec fn view(&self) -> PDBAnalyserView {
        PDBAnalyserView {
            status: self.pdb_status@,
            pid: self.process_pid@,
            awaiting: self.awaiting,
            print_value: self.print_variable_value@,
            reporting: self.reporting_location,
        }
    }
}

/// Whether a line ends with PDB's prompt.
pub open spec fn ends_with_prompt(line: Seq<char>) -> bool {
    line.len() >= 6 && line.skip(line.len() - 6) == "(Pdb) "@
}

/// The answer to printing variable `name` once its value `pv` is complete.
pub open spec fn print_reply(name: Seq<char>, pv: Seq<char>) -> Result<Json, ErrorView> {
    if pv == "error: no variable named '"@ + name + "' found in this frame"@ || pv == "error: invalid process"@ {
        Err(variable_not_found_error(name))
    } else {
        Ok(Json::Object(seq![("value"@, Json::Str(pv))]))
    }
}

/// What moving to state `status` gives: where PDB leaves processing a
/// message, a waiting caller is answered with an empty object.
pub open spec fn spec_set_status(a: PDBAnalyserView, status: PDBStatusView) -> (Option<Result<Json, ErrorView>>, PDBAnalyserView) {
    let replying = a.status is Processing && status is Listening && a.awaiting;
    (
        if replying { Some(Ok(Json::Object(seq![]))) } else { None },
        PDBAnalyserView { status, awaiting: if replying { false } else { a.awaiting }, ..a },
    )
}

/// What a chunk of PDB's output `text` gives: the events for Vim, the
/// answer for a waiting caller where the chunk ends at PDB's prompt, and
/// the analyser afterwards; `None` where a number or a printed value in it
/// does not read (see `spec_collect_print` and `spec_line_events`).
pub open spec fn spec_handle_output(a: PDBAnalyserView, text: Seq<char>) -> Option<(Seq<EventView>, Option<Result<Json, ErrorView>>, PDBAnalyserView)> {
    let pv = match a.status {
        PDBStatusView::Processing(MessageView::PrintVariable(name)) => spec_collect_print(a.print_value, text, name),
        _ => Some(a.print_value),
    };
    let lines = split(text, "\r\n"@);
    match (pv, spec_lines_events(a.status, a.reporting, a.pid, lines)) {
        (Some(pv), Some(events)) => {
            let b = PDBAnalyserView { print_value: pv, ..a };
            if ends_with_prompt(lines.last()) {
                match a.status {
                    PDBStatusView::Processing(MessageView::PrintVariable(name)) => if a.awaiting {
                        let reply = print_reply(name, pv);
                        let pv2 = if reply is Ok { seq![] } else { pv };
                        Some((events, Some(reply), PDBAnalyserView {
                            status: PDBStatusView::Listening,
                            awaiting: false,
                            print_value: pv2,
                            ..a
                        }))
                    } else {
                        Some((events, None, PDBAnalyserView { status: PDBStatusView::Listening, ..b }))
                    },
                    _ => {
                        let (reply, c) = spec_set_status(b, PDBStatusView::Listening);
                        Some((events, reply, c))
                    },
                }
            } else {
                Some((events, None, b))
            }
        },
        _ => None,
    }
}

/// Whether a line ends with PDB's prompt.
fn line_ends_with_prompt(line: &[char]) -> (r: bool)
    ensures
        r == ends_with_prompt(line@),
{
    let prompt: Vec<char> = vec!['(', 'P', 'd', 'b', ')', ' '];
    assert(prompt@ == "(Pdb) "@) by {
        reveal_strlit("(Pdb) ");
    }
    if line.len() < 6 {
        return false;
    }
    let tail = sub_chars(line, line.len() - 6, line.len());
    assert(tail@ == line@.skip(line@.len() - 6));
    chars_eq(tail.as_slice(), prompt.as_slice())
}

/// The answer to printing variable `name` once its value `pv` is complete.
fn print_answer(name: &str, pv: &str) -> (r: Result<JsonValue, PadreError>)
    ensures
        reply_view(Some(r)) == Some(print_reply(name@, pv@)),
{
    let mut no_var = String::from_str("error: no variable named '");
    no_var.append(name);
    no_var.append("' found in this frame");
    if str_eq(pv, no_var.as_str()) || str_eq(pv, "error: invalid process") {
        let mut debug = String::from_str("Variable '");
        debug.append(name);
        debug.append("' not found");
        Err(PadreError::with_kind(PadreErrorKind::DebuggerError, String::from_str("Variable not found"), debug))
    } else {
        let members = vec![(String::from_str("value"), JsonValue::Str(String::from_str(pv)))];
        let ghost mv = members@;
        let r = JsonValue::Object(members);
        proof {
            lemma_members_view(mv);
            assert(entries_view(mv) =~= seq![("value"@, Json::Str(pv@))]);
        }
        Ok(r)
    }
}

/// An empty JSON object.
pub fn empty_object() -> (r: JsonValue)
    ensures
        r@ == Json::Object(seq![]),
{
    let members: Vec<(String, JsonValue)> = Vec::new();
    let ghost mv = members@;
    let r = JsonValue::Object(members);
    proof {
        lemma_members_view(mv);
        assert(entries_view(mv) =~= Seq::<(Seq<char>, Json)>::empty());
    }
    r
}

/// A copy of a message.
pub fn copy_message(m: &Message) -> (r: Message)
    ensures
        r@ == m@,
{
    match m {
        Message::Launching => Message::Launching,
        Message::Restart => Message::Restart,
        Message::Breakpoint(fl) => Message::Breakpoint(FileLocation::new(String::from_str(fl.name()), fl.line_num())),
        Message::Unbreakpoint(fl) => Message::Unbreakpoint(FileLocation::new(String::from_str(fl.name()), fl.line_num())),
        Message::StepIn(n) => Message::StepIn(*n),
        Message::StepOver(n) => Message::StepOver(*n),
        Message::Continue => Message::Continue,
        Message::PrintVariable(v) => Message::PrintVariable(Variable::new(String::from_str(v.name()))),
        Message::Custom => Message::Custom,
    }
}

impl PDBAnalyser {
    /// An analyser for PDB launching the program with pid `process_pid`.
    pub fn new(process_pid: String) -> (r: PDBAnalyser)
        ensures
            r@ == (PDBAnalyserView {
                status: PDBStatusView::Processing(MessageView::Launching),
                pid: process_pid@,
                awaiting: false,
                print_value: seq![],
                reporting: true,
            }),
    {
        PDBAnalyser {
            pdb_status: PDBStatus::Processing(Message::Launching),
            process_pid,
            awaiting: false,
            print_variable_value: String::new(),
            reporting_location: true,
        }
    }

    /// PDB's state.
    pub fn get_status(&self) -> (r: PDBStatus)
        ensures
            r@ == self@.status,
    {
        match &self.pdb_status {
            PDBStatus::Listening => PDBStatus::Listening,
            PDBStatus::Processing(m) => PDBStatus::Processing(copy_message(m)),
        }
    }

    /// The value printed so far for the variable being printed.
    pub fn get_print_variable_value(&self) -> (r: &str)
        ensures
            r@ == self@.print_value,
    {
        self.print_variable_value.as_str()
    }

    /// Moves PDB to a new state. Where it leaves processing a message, a
    /// caller waiting on it is answered with an empty object.
    pub fn set_status(&mut self, pdb_status: PDBStatus) -> (r: Option<Result<JsonValue, PadreError>>)
        ensures
            (reply_view(r), final(self)@) == spec_set_status(old(self)@, pdb_status@),
    {
        let replying = match (&self.pdb_status, &pdb_status) {
            (PDBStatus::Processing(_), PDBStatus::Listening) => self.awaiting,
            _ => false,
        };
        self.pdb_status = pdb_status;
        if replying {
            self.awaiting = false;
            Some(Ok(empty_object()))
        } else {
            None
        }
    }

    /// Gets ready for PDB to process `msg`; `awaiting` says whether a caller
    /// waits for it.
    pub fn analyse_message(&mut self, msg: Message, awaiting: bool)
        ensures
            final(self)@ == (PDBAnalyserView { status: PDBStatusView::Processing(msg@), awaiting, ..old(self)@ }),
    {
        self.pdb_status = PDBStatus::Processing(msg);
        self.awaiting = awaiting;
    }

    /// Whether the positions PDB stops at are reported to Vim.
    pub fn set_reporting_location(&mut self, on: bool)
        ensures
            final(self)@ == (PDBAnalyserView { reporting: on, ..old(self)@ }),
    {
        self.reporting_location = on;
    }

    /// Reads a chunk of PDB's output; see `spec_handle_output`. Where that
    /// gives `None`, the analyser is left as it was.
    pub fn handle_output(&mut self, bytes: &[u8]) -> (r: Option<(Vec<Event>, Option<Result<JsonValue, PadreError>>)>)
        ensures
            match (r, spec_handle_output(old(self)@, utf8_lossy(bytes@))) {
                (Some((e, reply)), Some((se, sreply, sa))) => events_view(e@) == se && reply_view(reply) == sreply && final(self)@ == sa,
                (None, None) => final(self)@ == old(self)@,
                _ => false,
            },
    {
        let ghost a = self@;
        let text = utf8_lossy_text(bytes);
        let pv = match &self.pdb_status {
            PDBStatus::Processing(Message::PrintVariable(v)) => collect_print(
                self.print_variable_value.as_str(),
                text.as_str(),
                v.name(),
            ),
            _ => Some(self.print_variable_value.clone()),
        };
        let chars = chars_of(text.as_str());
        let sep: Vec<char> = vec!['\r', '\n'];
        assert(sep@ == "\r\n"@) by {
            reveal_strlit("\r\n");
        }
        let lines = split_chars(chars.as_slice(), sep.as_slice());
        let ghost lv = pieces_view(lines@);
        let mut acc: Option<Vec<Event>> = Some(Vec::new());
        assert(opt_events(acc) == Some(Seq::<EventView>::empty()));
        let mut i: usize = 0;
        while i < lines.len()
            invariant
                i <= lines@.len(),
                lv == pieces_view(lines@),
                self@ == a,
                opt_events(acc) == spec_lines_events(a.status, a.reporting, a.pid, lv.take(i as int)),
            decreases lines@.len() - i,
        {
            assert(lv.take(i + 1).drop_last() == lv.take(i as int));
            assert(lv[i as int] == lines@[i as int]@);
            let line = string_of(lines[i].as_slice());
            let e = line_events(&self.pdb_status, self.reporting_location, self.process_pid.as_str(), line.as_str());
            acc = cat_opt(acc, e);
            i = i + 1;
        }
        assert(lv.take(lines@.len() as int) == lv);
        let (pv, events) = match (pv, acc) {
            (Some(pv), Some(events)) => (pv, events),
            _ => return None,
        };
        proof { lemma_split_len(utf8_lossy(bytes@), "\r\n"@); }
        let at_prompt = line_ends_with_prompt(lines[lines.len() - 1].as_slice());
        self.print_variable_value = pv;
        if !at_prompt {
            return Some((events, None));
        }
        let answer = match &self.pdb_status {
            PDBStatus::Processing(Message::PrintVariable(v)) => if self.awaiting {
                let reply = print_answer(v.name(), self.print_variable_value.as_str());
                if reply.is_ok() {
                    self.print_variable_value = String::new();
                }
                self.awaiting = false;
                Some(reply)
            } else {
                None
            },
            _ => None,
        };
        match answer {
            Some(reply) => {
                self.pdb_status = PDBStatus::Listening;
                Some((events, Some(reply)))
            },
            None => {
                let reply = self.set_status(PDBStatus::Listening);
                Some((events, reply))
            },
        }
    }
}

/// The text sent to PDB for a message that is one command; nothing for
/// the launch, for stepping (see `step_command`), for printing (see
/// `print_command`) or for what the user typed.
pub open spec fn spec_command_for(m: MessageView) -> Option<Seq<char>> {
    match m {
        MessageView::Restart => Some("run\n"@),
        MessageView::Breakpoint(fl) => Some("break "@ + fl.name + ":"@ + decimal(fl.line_num as nat) + "\n"@),
        MessageView::Unbreakpoint(fl) => Some("clear "@ + fl.name + ":"@ + decimal(fl.line_num as nat) + "\n"@),
        MessageView::StepIn(_) => Some("step\n"@),
        MessageView::StepOver(_) => Some("next\n"@),
        MessageView::Continue => Some("continue\n"@),
        _ => None,
    }
}

/// The text sent to PDB for a message; see `spec_command_for`.
pub fn command_for(m: &Message) -> (r: Option<String>)
    ensures
        match r {
            Some(c) => spec_command_for(m@) == Some(c@),
            None => spec_command_for(m@) is None,
        },
{
    match m {
        Message::Restart => Some(String::from_str("run\n")),
        Message::Breakpoint(fl) | Message::Unbreakpoint(fl) => {
            let mut c = match m {
                Message::Breakpoint(_) => String::from_str("break "),
                _ => String::from_str("clear "),
            };
            c.append(fl.name());
            c.append(":");
            let n = u64_text(fl.line_num());
            c.append(n.as_str());
            c.append("\n");
            Some(c)
        },
        Message::StepIn(_) => Some(String::from_str("step\n")),
        Message::StepOver(_) => Some(String::from_str("next\n")),
        Message::Continue => Some(String::from_str("continue\n")),
        _ => None,
    }
}

/// The texts that print variable `name` and then its type.
pub fn print_commands(name: &str) -> (r: (String, String))
    ensures
        r.0@ == "print("@ + name@ + ")\n"@,
        r.1@ == "print(type("@ + name@ + "))\n"@,
{
    let mut a = String::from_str("print(");
    a.append(name);
    a.append(")\n");
    let mut b = String::from_str("print(type(");
    b.append(name);
    b.append("))\n");
    (a, b)
}

/// The variable whose printing gives the type of variable `name`.
pub fn type_variable(name: &str) -> (r: Variable)
    ensures
        r@ == "type("@ + name@ + ")"@,
{
    let mut a = String::from_str("type(");
    a.append(name);
    a.append(")");
    Variable::new(a)
}

/// The answer to printing variable `name`, from the answers to printing its
/// value and its type: their `value` members, where both are objects with
/// one.
pub open spec fn spec_variable_result(name: Seq<char>, value: Json, type_: Json) -> Option<Json> {
    match (value, type_) {
        (Json::Object(ve), Json::Object(te)) => match (member(ve, "value"@), member(te, "value"@)) {
            (Some(v), Some(t)) => Some(Json::Object(seq![
                ("type"@, t),
                ("value"@, v),
                ("variable"@, Json::Str(name)),
            ])),
            _ => None,
        },
        _ => None,
    }
}

/// The answer to printing variable `name`; see `spec_variable_result`.
pub fn variable_result(name: &str, value: JsonValue, type_: JsonValue) -> (r: Option<JsonValue>)
    ensures
        match r {
            Some(j) => spec_variable_result(name@, value@, type_@) == Some(j@),
            None => spec_variable_result(name@, value@, type_@) is None,
        },
{
    match (value, type_) {
        (JsonValue::Object(mut ve), JsonValue::Object(mut te)) => {
            proof {
                lemma_members_view(ve@);
                lemma_members_view(te@);
            }
            match (take_member(&mut ve, "value"), take_member(&mut te, "value")) {
                (Some(v), Some(t)) => {
                    let members = vec![
                        (String::from_str("type"), t),
                        (String::from_str("value"), v),
                        (String::from_str("variable"), JsonValue::Str(String::from_str(name))),
                    ];
                    let ghost mv = members@;
                    let r = JsonValue::Object(members);
                    proof {
                        lemma_members_view(mv);
                        assert(entries_view(mv) =~= seq![
                            ("type"@, mv[0].1@),
                            ("value"@, mv[1].1@),
                            ("variable"@, Json::Str(name@)),
                        ]);
                    }
                    Some(r)
                },
                _ => None,
            }
        },
        _ => None,
    }
}

/// The breakpoints of the pieces of a line tell of no position.
proof fn lemma_pieces_quiet(pieces: Seq<Seq<char>>)
    ensures
        opt_no_jumps(breakpoint_pieces(pieces)),
    decreases pieces.len(),
{
    if pieces.len() > 0 {
        lemma_pieces_quiet(pieces.drop_last());
        assert forall|g: GroupsView| #[trigger] opt_no_jumps((reader(Reading::Breakpoint, seq![]))(g)) by {}
        lemma_events_of_no_jumps(regex_captures(RE_BREAKPOINT@, pieces.last()), reader(Reading::Breakpoint, seq![]));
        lemma_cat_no_jumps(
            breakpoint_pieces(pieces.drop_last()),
            events_of(regex_captures(RE_BREAKPOINT@, pieces.last()), reader(Reading::Breakpoint, seq![])),
        );
    }
}

/// Stepping in, stepping over and continuing read PDB's output alike: each
/// line gives the same events whichever of them PDB is processing, and
/// whatever the step counts.
pub proof fn lemma_steps_read_alike(k: u64, m: u64, reporting: bool, pid: Seq<char>, line: Seq<char>)
    ensures
        spec_line_events(PDBStatusView::Processing(MessageView::StepIn(k)), reporting, pid, line)
            == spec_line_events(PDBStatusView::Processing(MessageView::StepOver(m)), reporting, pid, line),
        spec_line_events(PDBStatusView::Processing(MessageView::StepIn(k)), reporting, pid, line)
            == spec_line_events(PDBStatusView::Processing(MessageView::Continue), reporting, pid, line),
{
}

/// After a step in, a step over or a continue, a line where PDB tells the
/// one position it stopped at (and no return or exit) moves Vim to that
/// file and line, where positions are reported.
pub proof fn lemma_step_jumps_to_position(
    msg: MessageView,
    pid: Seq<char>,
    line: Seq<char>,
    g: GroupsView,
    f: Seq<char>,
    l: Seq<char>,
    n: u64,
)
    requires
        msg is StepIn || msg is StepOver || msg is Continue,
        regex_captures(RE_JUMP_TO_POSITION@, line) == seq![g],
        group(g, 1) == Some(f),
        group(g, 2) == Some(l),
        spec_parse_u64(l) == Some(n),
        regex_captures(RE_RETURNING@, line).len() == 0,
        regex_captures(RE_PROCESS_EXITED@, line).len() == 0,
        regex_captures(RE_PROCESS_EXITED_WITH_CODE@, line).len() == 0,
    ensures
        spec_line_events(PDBStatusView::Processing(msg), true, pid, line) == Some(seq![EventView::JumpToPosition(f, n)]),
{
    let c = seq![g];
    assert(c.drop_last() =~= Seq::<GroupsView>::empty());
    assert(c.last() == g);
    let rd = reader(Reading::Jump, seq![]);
    assert(events_of(c.drop_last(), rd) == Some(Seq::<EventView>::empty()));
    assert(jump_event(g) == Some(seq![EventView::JumpToPosition(f, n)]));
    assert(rd(g) == jump_event(g));
    assert(events_of(c, rd) == opt_cat(events_of(c.drop_last(), rd), rd(c.last())));
    assert(Seq::<EventView>::empty() + seq![EventView::JumpToPosition(f, n)] =~= seq![EventView::JumpToPosition(f, n)]);
    assert(events_of(c, rd) == Some(seq![EventView::JumpToPosition(f, n)]));
    assert(seq![EventView::JumpToPosition(f, n)] + Seq::<EventView>::empty() =~= seq![EventView::JumpToPosition(f, n)]);
    assert(Seq::<EventView>::empty() + Seq::<EventView>::empty() =~= Seq::<EventView>::empty());
}

/// A line read while positions are not reported tells of no position.
proof fn lemma_line_quiet(status: PDBStatusView, pid: Seq<char>, line: Seq<char>)
    ensures
        opt_no_jumps(spec_line_events(status, false, pid, line)),
{
    lemma_pieces_quiet(split(line, "\r"@));
    assert forall|g: GroupsView| #[trigger] opt_no_jumps((reader(Reading::Finished, pid))(g)) by {}
    assert forall|g: GroupsView| #[trigger] opt_no_jumps((reader(Reading::ExitCode, pid))(g)) by {}
    lemma_events_of_no_jumps(regex_captures(RE_PROCESS_EXITED@, line), reader(Reading::Finished, pid));
    lemma_events_of_no_jumps(regex_captures(RE_PROCESS_EXITED_WITH_CODE@, line), reader(Reading::ExitCode, pid));
    let bp = spec_check_breakpoint(line);
    let loc = spec_check_location(false, line);
    let ret = spec_check_returning(false, line);
    let ex = spec_check_exited(pid, line);
    lemma_cat_no_jumps(
        events_of(regex_captures(RE_PROCESS_EXITED@, line), reader(Reading::Finished, pid)),
        events_of(regex_captures(RE_PROCESS_EXITED_WITH_CODE@, line), reader(Reading::ExitCode, pid)),
    );
    assert(opt_no_jumps(loc));
    assert(opt_no_jumps(ret));
    lemma_cat_no_jumps(loc, ret);
    lemma_cat_no_jumps(opt_cat(loc, ret), ex);
    lemma_cat_no_jumps(bp, loc);
    lemma_cat_no_jumps(opt_cat(bp, loc), ret);
    lemma_cat_no_jumps(opt_cat(opt_cat(bp, loc), ret), ex);
}

/// Lines read while positions are not reported tell of no position.
proof fn lemma_lines_quiet(status: PDBStatusView, pid: Seq<char>, lines: Seq<Seq<char>>)
    ensures
        opt_no_jumps(spec_lines_events(status, false, pid, lines)),
    decreases lines.len(),
{
    if lines.len() > 0 {
        lemma_lines_quiet(status, pid, lines.drop_last());
        lemma_line_quiet(status, pid, lines.last());
        lemma_cat_no_jumps(spec_lines_events(status, false, pid, lines.drop_last()), spec_line_events(status, false, pid, lines.last()));
    }
}

/// While positions are not reported (between the steps of a multiple
/// step), no chunk of PDB's output makes PADRE tell Vim of a position.
pub proof fn lemma_quiet_while_not_reporting(a: PDBAnalyserView, text: Seq<char>)
    requires
        !a.reporting,
    ensures
        spec_handle_output(a, text) matches Some((e, _, _)) ==> no_jumps(e),
{
    lemma_lines_quiet(a.status, a.pid, split(text, "\r\n"@));
}

/// A caller waiting on a message is answered once: a chunk of output that
/// answers leaves PDB listening and no caller waiting, and only a caller
/// that waited on a message being processed is answered.
pub proof fn lemma_answered_once(a: PDBAnalyserView, text: Seq<char>)
    ensures
        spec_handle_output(a, text) matches Some((_, Some(_), b)) ==> a.awaiting && a.status is Processing
            && !b.awaiting && b.status is Listening,
        spec_set_status(a, PDBStatusView::Listening).0 is Some ==> a.awaiting
            && !spec_set_status(a, PDBStatusView::Listening).1.awaiting,
{
}

/// The models of a list of file locations.
pub open spec fn locations(v: Seq<FileLocation>) -> Seq<FileLocationView> {
    v.map_values(|f: FileLocation| f@)
}

/// The last position at which `v` holds `fl`, if any.
pub open spec fn last_index_of(v: Seq<FileLocationView>, fl: FileLocationView) -> Option<int>
    decreases v.len(),
{
    if v.len() == 0 {
        None
    } else if v.last() == fl {
        Some(v.len() - 1)
    } else {
        last_index_of(v.drop_last(), fl)
    }
}

/// A position found by `last_index_of` holds the location sought.
proof fn lemma_last_index_of(v: Seq<FileLocationView>, fl: FileLocationView)
    ensures
        last_index_of(v, fl) matches Some(i) ==> 0 <= i < v.len() && v[i] == fl,
    decreases v.len(),
{
    if v.len() > 0 && v.last() != fl {
        lemma_last_index_of(v.drop_last(), fl);
    }
}

/// The breakpoints asked for before the program runs, kept until it is
/// launched; once taken, no more are kept.
#[derive(Debug)]
pub struct PendingBreakpoints {
    list: Option<Vec<FileLocation>>,
}

impl View for PendingBreakpoints {
    type V = Option<Seq<FileLocationView>>;

    closed spec fn view(&self) -> Option<Seq<FileLocationView>> {
        match self.list {
            Some(v) => Some(locations(v@)),
            None => None,
        }
    }
}

impl PendingBreakpoints {
    /// No breakpoint kept yet.
    pub fn new() -> (r: PendingBreakpoints)
        ensures
            r@ == Some(Seq::<FileLocationView>::empty()),
    {
        let r = PendingBreakpoints { list: Some(Vec::new()) };
        assert(locations(Seq::<FileLocation>::empty()) =~= Seq::<FileLocationView>::empty());
        r
    }

    /// Keeps a breakpoint, while they are kept.
    pub fn add(&mut self, fl: FileLocation)
        ensures
            final(self)@ == match old(self)@ {
                Some(v) => Some(v.push(fl@)),
                None => None,
            },
    {
        match &mut self.list {
            Some(v) => {
                let ghost v0 = v@;
                v.push(fl);
                assert(locations(v@) =~= locations(v0).push(fl@));
            },
            None => {},
        }
    }

    /// Drops the last kept breakpoint at `fl`, where there is one.
    pub fn remove(&mut self, fl: &FileLocation)
        ensures
            final(self)@ == match old(self)@ {
                Some(v) => Some(match last_index_of(v, fl@) {
                    Some(i) => v.remove(i),
                    None => v,
                }),
                None => None,
            },
    {
        let list = self.list.take();
        match list {
            Some(mut v) => {
                let ghost lv = locations(v@);
                let mut index: Option<usize> = None;
                let mut i: usize = 0;
                while i < v.len()
                    invariant
                        i <= v@.len(),
                        lv == locations(v@),
                        match index {
                            Some(k) => last_index_of(lv.take(i as int), fl@) == Some(k as int),
                            None => last_index_of(lv.take(i as int), fl@) is None,
                        },
                    decreases v@.len() - i,
                {
                    assert(lv.take(i + 1).drop_last() == lv.take(i as int));
                    assert(lv[i as int] == v@[i as int]@);
                    if str_eq(v[i].name(), fl.name()) && v[i].line_num() == fl.line_num() {
                        index = Some(i);
                    }
                    i = i + 1;
                }
                assert(lv.take(v@.len() as int) == lv);
                proof { lemma_last_index_of(lv, fl@); }
                match index {
                    Some(k) => {
                        let ghost v0 = v@;
                        v.remove(k);
                        assert(locations(v@) =~= locations(v0).remove(k as int));
                    },
                    None => {},
                }
                self.list = Some(v);
            },
            None => {},
        }
    }

    /// Takes the kept breakpoints, in order; none are kept afterwards.
    pub fn take(&mut self) -> (r: Option<Vec<FileLocation>>)
        ensures
            match (r, old(self)@) {
                (Some(v), Some(o)) => locations(v@) == o,
                (None, None) => true,
                _ => false,
            },
            final(self)@ is None,
    {
        self.list.take()
    }
}

} // verus!
