//! How PADRE answers requests: its own commands, the timeouts that guard
//! the debugger's, and the answer built from what the debugger replied.

use vstd::prelude::*;
use crate::json::{Json, JsonValue, JsonNumber, entries_view, lemma_members_view};
use crate::vimcodec::{Members, member, without, take_member};
use crate::config::Config;
use crate::error::{PadreError, PadreErrorKind, ErrorView};
use crate::request::{PadreCmd, PadreCmdView, DebuggerCmd, DebuggerCmdView};
use crate::notify::{Event, EventView, LogLevel, events_view, lemma_events_view_push, i64_json};
use crate::text::{str_eq, chars_of, string_of, split, split_chars, pieces_view, lemma_split_len, occurs_at};

verus! {

/// The member `k` of `e`, or null where it has none.
pub open spec fn member_or_null(e: Members, k: Seq<char>) -> Json {
    match member(e, k) {
        Some(v) => v,
        None => Json::Null,
    }
}

/// `b` merged into `a`: where both are objects, each member of `b` in turn
/// is merged into `a`'s member of that key (a null one removes the key);
/// otherwise `b` takes the place of `a`.
pub open spec fn merge_json(a: Json, b: Json) -> Json
    decreases b,
{
    match (a, b) {
        (Json::Object(ae), Json::Object(be)) => {
            proof {
                assert(decreases_to!(b => be));
            }
            Json::Object(merge_members(ae, be))
        },
        _ => b,
    }
}

/// The members `be` merged, one after the other, into the members `ae`.
pub open spec fn merge_members(ae: Members, be: Members) -> Members
    decreases be,
{
    if be.len() == 0 {
        ae
    } else {
        let prev = merge_members(ae, be.drop_last());
        let k = be[be.len() - 1].0;
        let v = be[be.len() - 1].1;
        if v is Null {
            without(prev, k)
        } else {
            proof {
                assert(decreases_to!(be => be[be.len() - 1]));
                assert(decreases_to!(be[be.len() - 1] => be[be.len() - 1].1));
            }
            without(prev, k).push((k, merge_json(member_or_null(prev, k), v)))
        }
    }
}

/// Whether no key occurs twice among the members `e`.
pub open spec fn keys_unique(e: Members) -> bool {
    forall|i: int, j: int| 0 <= i < j < e.len() ==> #[trigger] e[i].0 != #[trigger] e[j].0
}

/// A member that is found has an entry with its key.
proof fn lemma_member_has_key(e: Members, k: Seq<char>)
    ensures
        member(e, k) is Some ==> exists|i: int| 0 <= i < e.len() && #[trigger] e[i].0 == k,
    decreases e.len(),
{
    if e.len() > 0 && e.last().0 != k {
        lemma_member_has_key(e.drop_last(), k);
        if member(e.drop_last(), k) is Some {
            let i = choose|i: int| 0 <= i < e.drop_last().len() && #[trigger] e.drop_last()[i].0 == k;
            assert(e[i].0 == k);
        }
    } else if e.len() > 0 {
        assert(e[e.len() - 1].0 == k);
    }
}

/// Removing key `k2` leaves the other keys' members.
proof fn lemma_member_without(e: Members, k2: Seq<char>, k: Seq<char>)
    ensures
        member(without(e, k2), k) == (if k == k2 { None } else { member(e, k) }),
    decreases e.len(),
{
    if e.len() > 0 {
        lemma_member_without(e.drop_last(), k2, k);
        if e.last().0 != k2 {
            assert(without(e, k2).last() == e.last());
            assert(without(e, k2).drop_last() == without(e.drop_last(), k2));
        }
    }
}

/// The member of key `k` once `be` is merged into `ae`: none where `be`'s
/// is null, the merge where `be` has another, `ae`'s where `be` has none.
pub open spec fn merged_member(ae: Members, be: Members, k: Seq<char>) -> Option<Json> {
    match member(be, k) {
        Some(Json::Null) => None,
        Some(v) => Some(merge_json(member_or_null(ae, k), v)),
        None => member(ae, k),
    }
}

/// Merging the members `be`, whose keys are distinct, into `ae`: the
/// member of key `k` is removed where `be`'s is null, merged where `be` has
/// another, and kept where `be` has none.
pub proof fn lemma_merge_members(ae: Members, be: Members, k: Seq<char>)
    requires
        keys_unique(be),
    ensures
        member(merge_members(ae, be), k) == merged_member(ae, be, k),
    decreases be.len(),
{
    if be.len() > 0 {
        let rest = be.drop_last();
        assert(keys_unique(rest));
        lemma_merge_members(ae, rest, k);
        let prev = merge_members(ae, rest);
        let k2 = be[be.len() - 1].0;
        let v2 = be[be.len() - 1].1;
        lemma_member_without(prev, k2, k);
        if k2 == k {
            lemma_member_has_key(rest, k);
            if member(rest, k) is Some {
                let i = choose|i: int| 0 <= i < rest.len() && #[trigger] rest[i].0 == k;
                assert(be[i].0 == be[be.len() - 1].0);
            }
            assert(member(rest, k) is None);
            assert(member(be, k) == Some(v2));
            assert(member(prev, k) == member(ae, k));
        } else {
            assert(member(be, k) == member(rest, k));
            if !(v2 is Null) {
                let x = without(prev, k2);
                let y = x.push((k2, merge_json(member_or_null(prev, k2), v2)));
                assert(y.drop_last() == x);
                assert(y.last().0 == k2);
                assert(member(y, k) == member(x, k));
            }
        }
    }
}

/// The law of `serde_json_merge`: a value that is no object, or merged into
/// one that is none, takes the place of the first; where both are objects
/// and the second's keys are distinct, the member of each key is removed
/// where the second's is null, merged where it has another, and kept where
/// it has none.
pub proof fn lemma_merge(a: Json, b: Json, k: Seq<char>)
    requires
        b is Object ==> keys_unique(b->0),
    ensures
        !(a is Object && b is Object) ==> merge_json(a, b) == b,
        (a is Object && b is Object) ==> (merge_json(a, b) is Object
            && member(merge_json(a, b)->0, k) == merged_member(a->0, b->0, k)),
{
    if let (Json::Object(ae), Json::Object(be)) = (a, b) {
        lemma_merge_members(ae, be, k);
    }
}

/// `b` merged into `a`; see `merge_json`.
pub fn serde_json_merge(a: &mut JsonValue, b: JsonValue)
    ensures
        final(a)@ == merge_json(old(a)@, b@),
{
    let mut old = JsonValue::Null;
    std::mem::swap(&mut old, a);
    *a = merged(old, b);
}

/// `b` merged into `a`.
fn merged(a: JsonValue, b: JsonValue) -> (r: JsonValue)
    ensures
        r@ == merge_json(a@, b@),
    decreases b,
{
    let ghost bv = b;
    match (a, b) {
        (JsonValue::Object(mut ae), JsonValue::Object(mut be)) => {
            let ghost bvec = be;
            assert(bv == JsonValue::Object(bvec));
            proof {
                lemma_members_view(ae@);
                lemma_members_view(be@);
            }
            let ghost ae0 = entries_view(ae@);
            let ghost be0 = be@;
            let ghost bev = entries_view(be0);
            let mut i: usize = 0;
            assert(be0.skip(0) == be0);
            assert(be0.len() == be.len());
            assert(bev.take(0) =~= Seq::<(Seq<char>, Json)>::empty());
            while be.len() > 0
                invariant
                    i + be@.len() == be0.len(),
                    be0.len() <= usize::MAX,
                    be@ == be0.skip(i as int),
                    bev == entries_view(be0),
                    bvec@ == be0,
                    bv == JsonValue::Object(bvec),
                    bv == b,
                    entries_view(ae@) == merge_members(ae0, bev.take(i as int)),
                decreases be@.len(),
            {
                assert(be@[0] == be0[i as int]);
                let (k, v) = be.remove(0);
                assert(be@ == be0.skip(i + 1));
                assert(bev.take(i + 1).drop_last() == bev.take(i as int));
                assert(bev[i as int] == (k@, v@));
                let is_null = match &v {
                    JsonValue::Null => true,
                    _ => false,
                };
                if is_null {
                    let _ = take_member(&mut ae, k.as_str());
                } else {
                    let cur = match take_member(&mut ae, k.as_str()) {
                        Some(c) => c,
                        None => JsonValue::Null,
                    };
                    proof {
                        assert(decreases_to!(bv => bv->Object_0));
                        assert(bv->Object_0 == bvec);
                        assert(decreases_to!(bvec => bvec@));
                        assert(decreases_to!(bvec@ => bvec@[i as int]));
                        assert(decreases_to!(bvec@[i as int] => bvec@[i as int].1));
                        assert(v == bvec@[i as int].1);
                        assert(decreases_to!(bv => v));
                    }
                    let m = merged(cur, v);
                    let ghost before = ae@;
                    ae.push((k, m));
                    assert(entries_view(ae@) =~= entries_view(before).push((k@, m@)));
                }
                i = i + 1;
            }
            assert(bev.take(i as int) == bev);
            let r = JsonValue::Object(ae);
            proof { lemma_members_view(ae@); }
            r
        },
        (_, b) => b,
    }
}

/// A JSON string.
fn str_value(s: &str) -> (r: JsonValue)
    ensures
        r@ == Json::Str(s@),
{
    JsonValue::Str(String::from_str(s))
}

/// The JSON object with the given members, in order.
fn object(members: Vec<(String, JsonValue)>) -> (r: JsonValue)
    ensures
        r@ == Json::Object(entries_view(members@)),
{
    proof { lemma_members_view(members@); }
    JsonValue::Object(members)
}

/// `{"status":"OK"}`.
pub open spec fn status_ok() -> Json {
    Json::Object(seq![("status"@, Json::Str("OK"@))])
}

/// `{"status":"ERROR"}`.
pub open spec fn status_error() -> Json {
    Json::Object(seq![("status"@, Json::Str("ERROR"@))])
}

/// The answer to a request that failed: the message, the debugging text
/// and the status `ERROR`.
pub open spec fn error_json(msg: Seq<char>, debug: Seq<char>) -> Json {
    Json::Object(seq![
        ("debug"@, Json::Str(debug)),
        ("error"@, Json::Str(msg)),
        ("status"@, Json::Str("ERROR"@)),
    ])
}

/// The warning given where PADRE's checkout is behind its remote.
pub const OUT_OF_DATE_WARNING: &'static str = "Your PADRE version is out of date and should be updated, please run `git pull` in your PADRE directory and and then rerun `make`.";

/// Whether `git status` says the checkout is on branch master: its first
/// line says so.
pub open spec fn spec_on_master(status: Seq<char>) -> bool {
    split(status, "\n"@)[0] == "On branch master"@
}

/// Whether `s` starts with `prefix`.
pub open spec fn starts_with(s: Seq<char>, prefix: Seq<char>) -> bool {
    prefix.len() <= s.len() && s.take(prefix.len() as int) == prefix
}

/// Whether `git status` says the branch is behind its remote: its second
/// line starts so; `None` where it has no second line.
pub open spec fn spec_behind(status: Seq<char>) -> Option<bool> {
    let lines = split(status, "\n"@);
    if lines.len() < 2 {
        None
    } else {
        Some(starts_with(lines[1], "Your branch is behind "@))
    }
}

/// The lines of `s`, cut at each newline.
fn lines_of(s: &str) -> (r: Vec<Vec<char>>)
    ensures
        pieces_view(r@) == split(s@, "\n"@),
        r@.len() >= 1,
{
    let chars = chars_of(s);
    let sep: Vec<char> = vec!['\n'];
    assert(sep@ == "\n"@) by {
        reveal_strlit("\n");
    }
    let r = split_chars(chars.as_slice(), sep.as_slice());
    proof {
        lemma_split_len(s@, "\n"@);
        assert(pieces_view(r@).len() == r@.len());
    }
    r
}

/// Whether `git status` says the checkout is on branch master; see
/// `spec_on_master`.
pub fn git_on_master(status: &str) -> (r: bool)
    ensures
        r == spec_on_master(status@),
{
    let lines = lines_of(status);
    assert(pieces_view(lines@)[0] == lines@[0]@);
    let first = string_of(lines[0].as_slice());
    str_eq(first.as_str(), "On branch master")
}

/// Whether `git status` says the branch is behind its remote; see
/// `spec_behind`.
pub fn git_behind(status: &str) -> (r: Option<bool>)
    ensures
        r == spec_behind(status@),
{
    let lines = lines_of(status);
    if lines.len() < 2 {
        return None;
    }
    assert(pieces_view(lines@)[1] == lines@[1]@);
    let prefix = chars_of("Your branch is behind ");
    let starts = occurs_at(lines[1].as_slice(), prefix.as_slice(), 0);
    assert(lines@[1]@.subrange(0, prefix@.len() as int) == lines@[1]@.take(prefix@.len() as int));
    Some(starts)
}

/// The answer to a request that failed with message `msg` and debugging
/// text `debug`.
pub fn error_response(msg: &str, debug: &str) -> (r: JsonValue)
    ensures
        r@ == error_json(msg@, debug@),
{
    let m = vec![
        (String::from_str("debug"), str_value(debug)),
        (String::from_str("error"), str_value(msg)),
        (String::from_str("status"), str_value("ERROR")),
    ];
    let ghost mv = m@;
    let r = object(m);
    assert(entries_view(mv) =~= seq![
        ("debug"@, Json::Str(debug@)),
        ("error"@, Json::Str(msg@)),
        ("status"@, Json::Str("ERROR"@)),
    ]);
    r
}

/// A JSON object with one member.
fn single(key: &str, v: JsonValue) -> (r: JsonValue)
    ensures
        r@ == Json::Object(seq![(key@, v@)]),
{
    let m = vec![(String::from_str(key), v)];
    let ghost mv = m@;
    let r = object(m);
    assert(entries_view(mv) =~= seq![(key@, mv[0].1@)]);
    r
}

/// The answer to a request for the debugger, from what the debugger
/// replied: its value merged into `{"status":"OK"}`, or the error.
pub open spec fn spec_debugger_response(reply: Result<Json, ErrorView>) -> Json {
    match reply {
        Ok(v) => merge_json(status_ok(), v),
        Err(e) => error_json(e.msg, e.debug),
    }
}

/// The answer to a request for the debugger; see `spec_debugger_response`.
pub fn debugger_response(reply: Result<JsonValue, PadreError>) -> (r: JsonValue)
    ensures
        r@ == spec_debugger_response(match reply {
            Ok(v) => Ok(v@),
            Err(e) => Err(e@),
        }),
{
    match reply {
        Ok(v) => {
            let mut ret = single("status", str_value("OK"));
            serde_json_merge(&mut ret, v);
            ret
        },
        Err(e) => error_response(e.get_error_string(), e.get_debug_string()),
    }
}

/// The answer to a PADRE command, and the events it causes: `ping` is
/// answered `pong`; `pings` answers OK and logs `pong` to every listener;
/// reading and setting configuration answer OK, with the value read, or
/// ERROR for an unknown key.
pub open spec fn spec_padre_response(cmd: PadreCmdView, config: Map<Seq<char>, i64>) -> (Json, Seq<EventView>, Map<Seq<char>, i64>) {
    match cmd {
        PadreCmdView::Ping => (
            Json::Object(seq![("ping"@, Json::Str("pong"@)), ("status"@, Json::Str("OK"@))]),
            seq![],
            config,
        ),
        PadreCmdView::Pings => (status_ok(), seq![EventView::Log(LogLevel::INFO, "pong"@)], config),
        PadreCmdView::GetConfig(key) => (
            if config.dom().contains(key) {
                Json::Object(seq![("status"@, Json::Str("OK"@)), ("value"@, i64_json(config[key]))])
            } else {
                status_error()
            },
            seq![],
            config,
        ),
        PadreCmdView::SetConfig(key, value) => if config.dom().contains(key) {
            (status_ok(), seq![], config.insert(key, value))
        } else {
            (status_error(), seq![], config)
        },
    }
}

/// Answers a PADRE command; see `spec_padre_response`.
pub fn padre_response(cmd: &PadreCmd, config: &mut Config) -> (r: (JsonValue, Vec<Event>))
    ensures
        (r.0@, events_view(r.1@), final(config)@) == spec_padre_response(cmd@, old(config)@),
{
    let mut events: Vec<Event> = Vec::new();
    match cmd {
        PadreCmd::Ping => {
            let m = vec![
                (String::from_str("ping"), str_value("pong")),
                (String::from_str("status"), str_value("OK")),
            ];
            let ghost mv = m@;
            let r = object(m);
            assert(entries_view(mv) =~= seq![("ping"@, Json::Str("pong"@)), ("status"@, Json::Str("OK"@))]);
            assert(events_view(events@) =~= Seq::<EventView>::empty());
            (r, events)
        },
        PadreCmd::Pings => {
            let e = Event::Log(LogLevel::INFO, String::from_str("pong"));
            proof { lemma_events_view_push(events@, e); }
            events.push(e);
            (single("status", str_value("OK")), events)
        },
        PadreCmd::GetConfig(key) => {
            assert(events_view(events@) =~= Seq::<EventView>::empty());
            match config.get_config(key.as_str()) {
                Some(v) => {
                    let value = if v >= 0 {
                        JsonValue::Number(JsonNumber::PosInt(v as u64))
                    } else {
                        JsonValue::Number(JsonNumber::NegInt(v))
                    };
                    let m = vec![(String::from_str("status"), str_value("OK")), (String::from_str("value"), value)];
                    let ghost mv = m@;
                    let r = object(m);
                    assert(entries_view(mv) =~= seq![("status"@, Json::Str("OK"@)), ("value"@, i64_json(v))]);
                    (r, events)
                },
                None => (single("status", str_value("ERROR")), events),
            }
        },
        PadreCmd::SetConfig(key, value) => {
            assert(events_view(events@) =~= Seq::<EventView>::empty());
            if config.set_config(key.as_str(), *value) {
                (single("status", str_value("OK")), events)
            } else {
                (single("status", str_value("ERROR")), events)
            }
        },
    }
}

/// The configuration item that bounds how long the debugger may take over
/// a command.
pub open spec fn timeout_key(cmd: DebuggerCmdView) -> Seq<char> {
    match cmd {
        DebuggerCmdView::Breakpoint(_) | DebuggerCmdView::Unbreakpoint(_) => "BreakpointTimeout"@,
        DebuggerCmdView::Run => "ProcessSpawnTimeout"@,
        DebuggerCmdView::Print(_) => "PrintVariableTimeout"@,
        DebuggerCmdView::StepIn(_) | DebuggerCmdView::StepOver(_) | DebuggerCmdView::Continue => "StepTimeout"@,
    }
}

/// The seconds the debugger may take over `cmd`: the configured value,
/// read as unsigned; `None` where the configuration has no such item.
pub fn config_timeout(cmd: &DebuggerCmd, config: &Config) -> (r: Option<u64>)
    ensures
        r == (if config@.dom().contains(timeout_key(cmd@)) {
            Some(config@[timeout_key(cmd@)] as u64)
        } else {
            None
        }),
{
    let key = match cmd {
        DebuggerCmd::Breakpoint(_) | DebuggerCmd::Unbreakpoint(_) => "BreakpointTimeout",
        DebuggerCmd::Run => "ProcessSpawnTimeout",
        DebuggerCmd::Print(_) => "PrintVariableTimeout",
        DebuggerCmd::StepIn(_) | DebuggerCmd::StepOver(_) | DebuggerCmd::Continue => "StepTimeout",
    };
    match config.get_config(key) {
        Some(v) => Some(v as u64),
        None => None,
    }
}

} // verus!
