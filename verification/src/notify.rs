//! Notifications to Vim about what the debugger did.

use vstd::prelude::*;
use vstd::string::*;
use crate::json::{Json, JsonValue, JsonNumber, lemma_values_view, lemma_values_view_len};
use crate::request::Notification;
use crate::pattern::GroupsView;

verus! {

broadcast use {lemma_values_view, lemma_values_view_len};

/// The level of a log message; clients may filter on it.
#[derive(Clone, Copy, Debug, PartialEq, Eq, Structural)]
pub enum LogLevel {
    CRITICAL,
    ERROR,
    WARN,
    INFO,
    DEBUG,
}

/// The number that stands for a log level on the wire: 1 for CRITICAL up to
/// 5 for DEBUG.
pub open spec fn spec_level_number(level: LogLevel) -> u8 {
    match level {
        LogLevel::CRITICAL => 1,
        LogLevel::ERROR => 2,
        LogLevel::WARN => 3,
        LogLevel::INFO => 4,
        LogLevel::DEBUG => 5,
    }
}

/// The number that stands for `level` on the wire.
pub fn level_number(level: LogLevel) -> (r: u8)
    ensures
        r == spec_level_number(level),
{
    match level {
        LogLevel::CRITICAL => 1,
        LogLevel::ERROR => 2,
        LogLevel::WARN => 3,
        LogLevel::INFO => 4,
        LogLevel::DEBUG => 5,
    }
}

/// Something that happened in the debugger, to be told to every listener.
#[derive(Clone, Debug, PartialEq)]
pub enum Event {
    /// A message to log.
    Log(LogLevel, String),
    /// The debugger stopped at this line of this file.
    JumpToPosition(String, u64),
    /// The process with this pid exited with this code.
    ProcessExited(u64, i64),
    /// A breakpoint was set at this line of this file.
    BreakpointSet(String, u64),
}

/// The model of an event.
pub enum EventView {
    Log(LogLevel, Seq<char>),
    JumpToPosition(Seq<char>, u64),
    ProcessExited(u64, i64),
    BreakpointSet(Seq<char>, u64),
}

impl View for Event {
    type V = EventView;

    open spec fn view(&self) -> EventView {
        match self {
            Event::Log(l, m) => EventView::Log(*l, m@),
            Event::JumpToPosition(f, n) => EventView::JumpToPosition(f@, *n),
            Event::ProcessExited(p, c) => EventView::ProcessExited(*p, *c),
            Event::BreakpointSet(f, n) => EventView::BreakpointSet(f@, *n),
        }
    }
}

/// The models of a list of events.
pub open spec fn events_view(s: Seq<Event>) -> Seq<EventView> {
    Seq::new(s.len(), |i: int| s[i]@)
}

/// `events_view` of a list with one more event.
pub broadcast proof fn lemma_events_view_push(s: Seq<Event>, e: Event)
    ensures
        #[trigger] events_view(s.push(e)) == events_view(s).push(e@),
{
    assert(events_view(s.push(e)) =~= events_view(s).push(e@));
}

/// Appends the events `src` to `dst`.
pub fn append_events(dst: &mut Vec<Event>, src: Vec<Event>)
    ensures
        events_view(final(dst)@) == events_view(old(dst)@) + events_view(src@),
{
    let mut src = src;
    let ghost s0 = src@;
    let ghost d0 = dst@;
    let mut k: usize = 0;
    let n = src.len();
    assert(s0.skip(0) == s0);
    while src.len() > 0
        invariant
            k + src@.len() == n,
            n == s0.len(),
            src@ == s0.skip(k as int),
            events_view(dst@) == events_view(d0) + events_view(s0.take(k as int)),
        decreases src@.len(),
    {
        let e = src.remove(0);
        proof {
            assert(e == s0[k as int]);
            assert(s0.take(k + 1) == s0.take(k as int).push(e));
            lemma_events_view_push(s0.take(k as int), e);
            lemma_events_view_push(dst@, e);
            assert(s0.skip(k as int).drop_first() == s0.skip(k + 1));
        }
        dst.push(e);
        k = k + 1;
    }
    assert(s0.take(n as int) == s0);
}

/// The JSON number for an `i64`.
pub open spec fn i64_json(n: i64) -> Json {
    if n >= 0 { Json::PosInt(n as u64) } else { Json::NegInt(n) }
}

/// The notification that tells Vim of `e`: the Vim function and its
/// arguments.
pub open spec fn spec_notification(e: EventView) -> (Seq<char>, Seq<Json>) {
    match e {
        EventView::Log(level, msg) => (
            "padre#debugger#Log"@,
            seq![Json::PosInt(spec_level_number(level) as u64), Json::Str(msg)],
        ),
        EventView::JumpToPosition(file, line) => (
            "padre#debugger#JumpToPosition"@,
            seq![Json::Str(file), Json::PosInt(line)],
        ),
        EventView::ProcessExited(pid, code) => (
            "padre#debugger#ProcessExited"@,
            seq![i64_json(code), Json::PosInt(pid)],
        ),
        EventView::BreakpointSet(file, line) => (
            "padre#debugger#BreakpointSet"@,
            seq![Json::Str(file), Json::PosInt(line)],
        ),
    }
}

/// The JSON number for `n`.
fn i64_value(n: i64) -> (r: JsonValue)
    ensures
        r@ == i64_json(n),
{
    if n >= 0 {
        JsonValue::Number(JsonNumber::PosInt(n as u64))
    } else {
        JsonValue::Number(JsonNumber::NegInt(n))
    }
}

/// The notification that tells Vim of `e`.
pub fn notification(e: Event) -> (r: Notification)
    ensures
        r@ == spec_notification(e@),
{
    let ghost ev = e@;
    let (cmd, a, b) = match e {
        Event::Log(level, msg) => (
            String::from_str("padre#debugger#Log"),
            JsonValue::Number(JsonNumber::PosInt(level_number(level) as u64)),
            JsonValue::Str(msg),
        ),
        Event::JumpToPosition(file, line) => (
            String::from_str("padre#debugger#JumpToPosition"),
            JsonValue::Str(file),
            JsonValue::Number(JsonNumber::PosInt(line)),
        ),
        Event::ProcessExited(pid, code) => (
            String::from_str("padre#debugger#ProcessExited"),
            i64_value(code),
            JsonValue::Number(JsonNumber::PosInt(pid)),
        ),
        Event::BreakpointSet(file, line) => (
            String::from_str("padre#debugger#BreakpointSet"),
            JsonValue::Str(file),
            JsonValue::Number(JsonNumber::PosInt(line)),
        ),
    };
    let ghost av = a@;
    let ghost bv = b@;
    let mut args: Vec<JsonValue> = Vec::new();
    args.push(a);
    args.push(b);
    assert(args@.map_values(|x: JsonValue| x@) =~= seq![av, bv]);
    Notification::new(cmd, args)
}

/// Both lists of events, one after the other, where both could be read.
pub open spec fn opt_cat(a: Option<Seq<EventView>>, b: Option<Seq<EventView>>) -> Option<Seq<EventView>> {
    match (a, b) {
        (Some(x), Some(y)) => Some(x + y),
        _ => None,
    }
}

/// The events of the matches `c`, `f` giving each match's; `None` where a
/// match does not read.
pub open spec fn events_of(c: Seq<GroupsView>, f: spec_fn(GroupsView) -> Option<Seq<EventView>>) -> Option<Seq<EventView>>
    decreases c.len(),
{
    if c.len() == 0 {
        Some(seq![])
    } else {
        opt_cat(events_of(c.drop_last(), f), f(c.last()))
    }
}

/// Once a match does not read, no longer list of matches reads.
pub proof fn lemma_events_of_none(c: Seq<GroupsView>, f: spec_fn(GroupsView) -> Option<Seq<EventView>>, i: int, j: int)
    requires
        0 <= i <= j <= c.len(),
        events_of(c.take(i), f) is None,
    ensures
        events_of(c.take(j), f) is None,
    decreases j - i,
{
    if j > i {
        lemma_events_of_none(c, f, i, j - 1);
        assert(c.take(j).drop_last() == c.take(j - 1));
    }
}

/// The model of events that could be read.
pub open spec fn opt_events(r: Option<Vec<Event>>) -> Option<Seq<EventView>> {
    match r {
        Some(v) => Some(events_view(v@)),
        None => None,
    }
}

/// Both lists of events, where both could be read.
pub fn cat_opt(a: Option<Vec<Event>>, b: Option<Vec<Event>>) -> (r: Option<Vec<Event>>)
    ensures
        opt_events(r) == opt_cat(opt_events(a), opt_events(b)),
{
    match (a, b) {
        (Some(mut x), Some(y)) => {
            append_events(&mut x, y);
            Some(x)
        },
        _ => None,
    }
}

/// Whether none of the events tells of a position.
pub open spec fn no_jumps(e: Seq<EventView>) -> bool {
    forall|i: int| 0 <= i < e.len() ==> !(#[trigger] e[i] is JumpToPosition)
}

/// Whether events that could be read tell of no position.
pub open spec fn opt_no_jumps(o: Option<Seq<EventView>>) -> bool {
    match o {
        Some(e) => no_jumps(e),
        None => true,
    }
}

/// Events that tell of no position, one list after the other, tell of none.
pub proof fn lemma_cat_no_jumps(a: Option<Seq<EventView>>, b: Option<Seq<EventView>>)
    requires
        opt_no_jumps(a),
        opt_no_jumps(b),
    ensures
        opt_no_jumps(opt_cat(a, b)),
{
    if let (Some(x), Some(y)) = (a, b) {
        assert forall|i: int| 0 <= i < (x + y).len() implies !((x + y)[i] is JumpToPosition) by {
            if i < x.len() {
                assert((x + y)[i] == x[i]);
            } else {
                assert((x + y)[i] == y[i - x.len()]);
            }
        }
    }
}

/// Where no match gives a position, the matches together give none.
pub proof fn lemma_events_of_no_jumps(c: Seq<GroupsView>, f: spec_fn(GroupsView) -> Option<Seq<EventView>>)
    requires
        forall|g: GroupsView| #[trigger] opt_no_jumps(f(g)),
    ensures
        opt_no_jumps(events_of(c, f)),
    decreases c.len(),
{
    if c.len() > 0 {
        lemma_events_of_no_jumps(c.drop_last(), f);
        assert(opt_no_jumps(f(c.last())));
        lemma_cat_no_jumps(events_of(c.drop_last(), f), f(c.last()));
    }
}

} // verus!
