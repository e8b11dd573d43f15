//! The codec for the socket that Vim talks to.
//!
//! Given a request of the form
//! ```text
//! [1,{"cmd":"breakpoint","file":"test.c","line":1}]
//! ```
//! the codec decodes it into a `PadreRequest` with an id of `1` and the
//! debugger command `Breakpoint` at line 1 of `test.c`. Answers and
//! notifications are encoded as JSON arrays, one per line.

use vstd::prelude::*;
use vstd::string::*;
use vstd::utf8::encode_utf8;
use crate::json::{
    Json, JsonValue, JsonNumber, JsonPrefix, JsonPrefixView, entries_view, entry_keys, keys_sorted,
    json_text, json_u64_error, json_string_error, json_map_error, debug_strings, utf8_lossy,
    json_prefix, json_wf, json_depth, members_wf, lemma_members_wf, lemma_depth_all, parse_json_prefix, lemma_all_wf, lemma_values_view, lemma_values_view_len, lemma_members_view, values_view, members_view, json_to_text, json_as_u64, json_as_string,
    json_map_error_text, debug_strings_text, utf8_lossy_text, strings_view,
};
use crate::error::{PadreErrorKind, PadreErrorWithId, ErrorWithIdView, error_with_id};
use crate::request::{
    FileLocation, FileLocationView, Variable, DebuggerCmd, DebuggerCmdView, PadreCmd, PadreCmdView,
    RequestCmd, RequestCmdView, PadreRequest, PadreRequestView, PadreSend, PadreSendView,
};
use crate::text::{str_eq, trim_nul, trim_nul_text};

verus! {

broadcast use {lemma_values_view, lemma_values_view_len, lemma_members_view};

/// The members of a JSON object, as the model sees them.
pub type Members = Seq<(Seq<char>, Json)>;

/// The member `k` of `e`; where the key occurs more than once, the last one
/// (as when the members are collected into a map).
pub open spec fn member(e: Members, k: Seq<char>) -> Option<Json>
    decreases e.len(),
{
    if e.len() == 0 {
        None
    } else if e.last().0 == k {
        Some(e.last().1)
    } else {
        member(e.drop_last(), k)
    }
}

/// `e` without the members whose key is `k`.
pub open spec fn without(e: Members, k: Seq<char>) -> Members
    decreases e.len(),
{
    if e.len() == 0 {
        e
    } else if e.last().0 == k {
        without(e.drop_last(), k)
    } else {
        without(e.drop_last(), k).push(e.last())
    }
}

/// A syntax error about request `id`.
pub open spec fn syntax_error(id: u64, msg: Seq<char>, debug: Seq<char>) -> ErrorWithIdView {
    error_with_id(PadreErrorKind::RequestSyntaxError, id, msg, debug)
}

/// Whether `j` is a JSON number.
pub open spec fn is_number(j: Json) -> bool {
    j is PosInt || j is NegInt || j is Float
}

/// The number `j` as an `i64`, where it is an integer that fits.
pub open spec fn json_i64(j: Json) -> Option<i64> {
    match j {
        Json::PosInt(n) => if n <= i64::MAX as u64 { Some(n as i64) } else { None },
        Json::NegInt(n) => Some(n),
        _ => None,
    }
}

/// Takes the file location (members `file` and `line`) from `e`.
pub open spec fn spec_file_location(id: u64, e: Members) -> Result<(FileLocationView, Members), ErrorWithIdView> {
    match member(e, "file"@) {
        None => Err(syntax_error(id, "Can't understand request"@, "Need to specify a file name"@)),
        Some(Json::Str(f)) => {
            let e1 = without(e, "file"@);
            match member(e1, "line"@) {
                None => Err(syntax_error(id, "Can't understand request"@, "Need to specify a line number"@)),
                Some(Json::PosInt(t)) => Ok((FileLocationView { name: f, line_num: t }, without(e1, "line"@))),
                Some(t) => if is_number(t) {
                    Err(syntax_error(id, "Badly specified 'line'"@, "Badly specified 'line': "@ + json_text(t)))
                } else {
                    Err(syntax_error(id, "Can't read 'line' argument"@, "Can't understand 'line': "@ + json_text(t)))
                },
            }
        },
        Some(f) => Err(syntax_error(id, "Can't read 'file' argument"@, "Can't understand 'file': "@ + json_text(f))),
    }
}

/// Takes the member `variable` from `e`.
pub open spec fn spec_variable(id: u64, e: Members) -> Result<(Seq<char>, Members), ErrorWithIdView> {
    match member(e, "variable"@) {
        None => Err(syntax_error(id, "Can't understand request"@, "Need to specify a variable name"@)),
        Some(Json::Str(v)) => Ok((v, without(e, "variable"@))),
        Some(v) => Err(syntax_error(id, "Badly specified 'variable'"@, "Badly specified 'variable': "@ + json_text(v))),
    }
}

/// Takes the string member `key` from `e`.
pub open spec fn spec_string_member(id: u64, key: Seq<char>, e: Members) -> Result<(Seq<char>, Members), ErrorWithIdView> {
    match member(e, key) {
        None => Err(syntax_error(id, "Can't understand request"@, "Need to specify a '"@ + key + "'"@)),
        Some(Json::Str(s)) => Ok((s, without(e, key))),
        Some(v) => Err(syntax_error(
            id,
            "Badly specified string '"@ + key + "'"@,
            "Badly specified string '"@ + key + "': "@ + json_text(v),
        )),
    }
}

/// Takes the 64-bit integer member `key` from `e`.
pub open spec fn spec_i64_member(id: u64, key: Seq<char>, e: Members) -> Result<(i64, Members), ErrorWithIdView> {
    match member(e, key) {
        None => Err(syntax_error(id, "Can't understand request"@, "Need to specify a '"@ + key + "'"@)),
        Some(v) => match json_i64(v) {
            Some(n) => Ok((n, without(e, key))),
            None => Err(syntax_error(
                id,
                "Badly specified 64-bit integer '"@ + key + "'"@,
                "Badly specified 64-bit integer '"@ + key + "': "@ + json_text(v),
            )),
        },
    }
}

/// The step count: the member `count` where it is a `u64`, 1 otherwise.
pub open spec fn spec_count(e: Members) -> u64 {
    match member(e, "count"@) {
        Some(Json::PosInt(n)) => n,
        _ => 1,
    }
}

/// The command named `cmd` with the arguments in `e`, and the members that
/// it leaves over.
pub open spec fn spec_command(id: u64, cmd: Seq<char>, e: Members) -> Result<(RequestCmdView, Members), ErrorWithIdView> {
    if cmd == "ping"@ {
        Ok((RequestCmdView::Padre(PadreCmdView::Ping), e))
    } else if cmd == "pings"@ {
        Ok((RequestCmdView::Padre(PadreCmdView::Pings), e))
    } else if cmd == "run"@ {
        Ok((RequestCmdView::Debugger(DebuggerCmdView::Run), e))
    } else if cmd == "stepOver"@ {
        Ok((RequestCmdView::Debugger(DebuggerCmdView::StepOver(spec_count(e))), without(e, "count"@)))
    } else if cmd == "stepIn"@ {
        Ok((RequestCmdView::Debugger(DebuggerCmdView::StepIn(spec_count(e))), without(e, "count"@)))
    } else if cmd == "continue"@ {
        Ok((RequestCmdView::Debugger(DebuggerCmdView::Continue), e))
    } else if cmd == "breakpoint"@ {
        match spec_file_location(id, e) {
            Ok((fl, r)) => Ok((RequestCmdView::Debugger(DebuggerCmdView::Breakpoint(fl)), r)),
            Err(x) => Err(x),
        }
    } else if cmd == "unbreakpoint"@ {
        match spec_file_location(id, e) {
            Ok((fl, r)) => Ok((RequestCmdView::Debugger(DebuggerCmdView::Unbreakpoint(fl)), r)),
            Err(x) => Err(x),
        }
    } else if cmd == "print"@ {
        match spec_variable(id, e) {
            Ok((v, r)) => Ok((RequestCmdView::Debugger(DebuggerCmdView::Print(v)), r)),
            Err(x) => Err(x),
        }
    } else if cmd == "getConfig"@ {
        match spec_string_member(id, "key"@, e) {
            Ok((k, r)) => Ok((RequestCmdView::Padre(PadreCmdView::GetConfig(k)), r)),
            Err(x) => Err(x),
        }
    } else if cmd == "setConfig"@ {
        match spec_string_member(id, "key"@, e) {
            Ok((k, r)) => match spec_i64_member(id, "value"@, r) {
                Ok((v, r2)) => Ok((RequestCmdView::Padre(PadreCmdView::SetConfig(k, v)), r2)),
                Err(x) => Err(x),
            },
            Err(x) => Err(x),
        }
    } else {
        Err(syntax_error(id, "Command unknown"@, "Command unknown: '"@ + cmd + "'"@))
    }
}

/// The request with id `id` made of the members `e` of its second element;
/// `req` is the text of the request, for error messages.
pub open spec fn spec_request_members(id: u64, e: Members, req: Seq<char>) -> Result<PadreRequestView, ErrorWithIdView> {
    match member(e, "cmd"@) {
        None => Err(syntax_error(
            id,
            "Can't find command"@,
            "Can't find command '"@ + req + "': Need a cmd in 2nd object"@,
        )),
        Some(Json::Str(cmd)) => match spec_command(id, cmd, without(e, "cmd"@)) {
            Err(x) => Err(x),
            Ok((c, rest)) => if rest.len() == 0 {
                Ok(PadreRequestView { id, cmd: c })
            } else {
                Err(syntax_error(id, "Bad arguments"@, "Bad arguments: "@ + debug_strings(entry_keys(rest))))
            },
        },
        Some(c) => Err(syntax_error(
            id,
            "Can't find command"@,
            "Can't find command '"@ + req + "': "@ + json_string_error(c),
        )),
    }
}

/// The request that the JSON value `v` encodes; `req` is the text of the
/// request, for error messages.
pub open spec fn spec_decode_value(v: Json, req: Seq<char>) -> Result<PadreRequestView, ErrorWithIdView> {
    match v {
        Json::Array(a) => if a.len() == 0 {
            Err(syntax_error(
                0,
                "Array must have 2 elements, invalid JSON"@,
                "Can't read '"@ + req + "': Array should have 2 elements"@,
            ))
        } else {
            match a[0] {
                Json::PosInt(id) => if a.len() != 2 {
                    Err(syntax_error(
                        id,
                        "Array must have 2 elements, invalid JSON"@,
                        "Can't read '"@ + req + "': Array should have 2 elements"@,
                    ))
                } else {
                    match a[1] {
                        Json::Object(e) => spec_request_members(id, e, req),
                        other => Err(syntax_error(
                            id,
                            "Can't read 2nd argument as dictionary"@,
                            "Can't read '"@ + req + "': "@ + json_map_error(other),
                        )),
                    }
                },
                other => Err(syntax_error(
                    0,
                    "Can't read id"@,
                    "Can't read '"@ + json_text(other) + "': "@ + json_u64_error(other),
                )),
            }
        },
        _ => Err(syntax_error(
            0,
            "Not an array, invalid JSON"@,
            "Can't read '"@ + req + "': Must be an array"@,
        )),
    }
}

/// A request value is as serde_json builds it: objects with strictly
/// increasing keys, floating-point numbers kept as serde_json prints them,
/// and nesting within the parser's recursion limit.
pub open spec fn request_wf(v: Json) -> bool {
    json_wf(v) && json_depth(v) <= 127
}

/// The value of a member is one of the members' values.
proof fn lemma_member_in(e: Members, k: Seq<char>)
    ensures
        member(e, k) matches Some(x) ==> exists|i: int| 0 <= i < e.len() && #[trigger] e[i].1 == x,
    decreases e.len(),
{
    if e.len() > 0 {
        if e.last().0 == k {
            assert(e[e.len() - 1].1 == e.last().1);
        } else {
            lemma_member_in(e.drop_last(), k);
            if let Some(x) = member(e.drop_last(), k) {
                let i = choose|i: int| 0 <= i < e.drop_last().len() && #[trigger] e.drop_last()[i].1 == x;
                assert(e[i].1 == x);
            }
        }
    }
}

/// The value of a member of well-formed members is well formed.
proof fn lemma_member_wf(e: Members, k: Seq<char>)
    requires
        members_wf(e),
    ensures
        member(e, k) matches Some(x) ==> json_wf(x),
{
    lemma_member_in(e, k);
    if let Some(x) = member(e, k) {
        let i = choose|i: int| 0 <= i < e.len() && #[trigger] e[i].1 == x;
        lemma_members_wf(e, i);
    }
}

/// Every key of `e` is among `ks`.
pub open spec fn keys_among(e: Members, ks: Set<Seq<char>>) -> bool {
    forall|i: int| 0 <= i < e.len() ==> ks.contains(#[trigger] e[i].0)
}

/// Taking members with another key leaves the member `k2` as it was.
proof fn lemma_member_without(e: Members, k1: Seq<char>, k2: Seq<char>)
    requires
        k1 != k2,
    ensures
        member(without(e, k1), k2) == member(e, k2),
    decreases e.len(),
{
    if e.len() > 0 {
        lemma_member_without(e.drop_last(), k1, k2);
        if e.last().0 != k1 {
            let w = without(e.drop_last(), k1).push(e.last());
            assert(w.last() == e.last());
            assert(w.drop_last() == without(e.drop_last(), k1));
        }
    }
}

/// Taking the members with key `k` leaves keys among the others.
proof fn lemma_keys_without(e: Members, ks: Set<Seq<char>>, k: Seq<char>)
    requires
        keys_among(e, ks),
    ensures
        keys_among(without(e, k), ks.remove(k)),
    decreases e.len(),
{
    if e.len() > 0 {
        assert(keys_among(e.drop_last(), ks)) by {
            assert forall|i: int| 0 <= i < e.drop_last().len() implies ks.contains(#[trigger] e.drop_last()[i].0) by {
                assert(e.drop_last()[i] == e[i]);
            }
        }
        lemma_keys_without(e.drop_last(), ks, k);
        if e.last().0 != k {
            let w = without(e.drop_last(), k).push(e.last());
            assert(ks.contains(e[e.len() - 1].0));
            assert forall|i: int| 0 <= i < w.len() implies ks.remove(k).contains(#[trigger] w[i].0) by {
                if i < w.len() - 1 {
                    assert(w[i] == without(e.drop_last(), k)[i]);
                }
            }
        }
    }
}

/// A request to set or to remove a breakpoint, `[id, {"cmd": name, "file":
/// f, "line": n}]` with its members in any order, decodes to that command
/// at line `n` of file `f`: `breakpoint` to setting one, `unbreakpoint` to
/// removing one, never the one for the other.
pub proof fn lemma_breakpoint_requests_decode(id: u64, e: Members, name: Seq<char>, f: Seq<char>, n: u64, req: Seq<char>)
    requires
        name == "breakpoint"@ || name == "unbreakpoint"@,
        member(e, "cmd"@) == Some(Json::Str(name)),
        member(e, "file"@) == Some(Json::Str(f)),
        member(e, "line"@) == Some(Json::PosInt(n)),
        keys_among(e, set!["cmd"@, "file"@, "line"@]),
    ensures
        spec_decode_value(Json::Array(seq![Json::PosInt(id), Json::Object(e)]), req) == Ok::<PadreRequestView, ErrorWithIdView>(
            PadreRequestView {
                id,
                cmd: RequestCmdView::Debugger(
                    if name == "unbreakpoint"@ {
                        DebuggerCmdView::Unbreakpoint(FileLocationView { name: f, line_num: n })
                    } else {
                        DebuggerCmdView::Breakpoint(FileLocationView { name: f, line_num: n })
                    },
                ),
            },
        ),
{
    reveal_strlit("cmd");
    reveal_strlit("file");
    reveal_strlit("line");
    reveal_strlit("breakpoint");
    reveal_strlit("unbreakpoint");
    reveal_strlit("ping");
    reveal_strlit("pings");
    reveal_strlit("run");
    reveal_strlit("stepOver");
    reveal_strlit("stepIn");
    reveal_strlit("continue");
    assert("cmd"@[0] == 'c' && "file"@[0] == 'f' && "line"@[0] == 'l');
    assert("cmd"@ != "file"@ && "cmd"@ != "line"@ && "file"@ != "line"@);
    let a = seq![Json::PosInt(id), Json::Object(e)];
    assert(a[0] == Json::PosInt(id));
    assert(a[1] == Json::Object(e));
    let e1 = without(e, "cmd"@);
    lemma_member_without(e, "cmd"@, "file"@);
    lemma_member_without(e, "cmd"@, "line"@);
    let e2 = without(e1, "file"@);
    lemma_member_without(e1, "file"@, "line"@);
    let e3 = without(e2, "line"@);
    lemma_keys_without(e, set!["cmd"@, "file"@, "line"@], "cmd"@);
    lemma_keys_without(e1, set!["cmd"@, "file"@, "line"@].remove("cmd"@), "file"@);
    lemma_keys_without(e2, set!["cmd"@, "file"@, "line"@].remove("cmd"@).remove("file"@), "line"@);
    assert(set!["cmd"@, "file"@, "line"@].remove("cmd"@).remove("file"@).remove("line"@) =~= Set::<Seq<char>>::empty());
    if e3.len() > 0 {
        assert(Set::<Seq<char>>::empty().contains(e3[0].0));
    }
    assert(spec_file_location(id, e1) == Ok::<(FileLocationView, Members), ErrorWithIdView>((FileLocationView { name: f, line_num: n }, e3)));
}

/// The model of the result of decoding a value.
pub open spec fn request_result_view(r: Result<PadreRequest, PadreErrorWithId>) -> Result<PadreRequestView, ErrorWithIdView> {
    match r {
        Ok(q) => Ok(q@),
        Err(e) => Err(e@),
    }
}

/// The model of an optional JSON value.
pub open spec fn opt_json_view(o: Option<JsonValue>) -> Option<Json> {
    match o {
        Some(v) => Some(v@),
        None => None,
    }
}

proof fn lemma_entries_view_push(s: Seq<(String, JsonValue)>, x: (String, JsonValue))
    ensures
        entries_view(s.push(x)) == entries_view(s).push((x.0@, x.1@)),
{
    assert(entries_view(s.push(x)) =~= entries_view(s).push((x.0@, x.1@)));
}

/// Removes the members with key `key` from `entries` and returns the value
/// of the last of them.
pub(crate) fn take_member(entries: &mut Vec<(String, JsonValue)>, key: &str) -> (r: Option<JsonValue>)
    ensures
        opt_json_view(r) == member(entries_view(old(entries)@), key@),
        entries_view(final(entries)@) == without(entries_view(old(entries)@), key@),
{
    let mut rest: Vec<(String, JsonValue)> = Vec::new();
    std::mem::swap(entries, &mut rest);
    let ghost orig = rest@;
    let mut found: Option<JsonValue> = None;
    let ghost mut k: int = 0;
    assert(orig.skip(0) == orig);
    assert(entries_view(orig.take(0)) =~= Seq::<(Seq<char>, Json)>::empty());
    while rest.len() > 0
        invariant
            0 <= k <= orig.len(),
            rest@ == orig.skip(k),
            entries_view(entries@) == without(entries_view(orig.take(k)), key@),
            opt_json_view(found) == member(entries_view(orig.take(k)), key@),
        decreases rest@.len(),
    {
        let (name, val) = rest.remove(0);
        proof {
            assert(orig.take(k + 1) == orig.take(k).push(orig[k]));
            lemma_entries_view_push(orig.take(k), orig[k]);
            assert(entries_view(orig.take(k + 1)).drop_last() == entries_view(orig.take(k)));
            assert(orig.skip(k).drop_first() == orig.skip(k + 1));
        }
        if str_eq(name.as_str(), key) {
            found = Some(val);
        } else {
            proof {
                lemma_entries_view_push(entries@, (name, val));
            }
            entries.push((name, val));
        }
        proof {
            k = k + 1;
        }
    }
    assert(orig.take(k) == orig);
    found
}

/// `lit` as an owned string.
fn owned(lit: &str) -> (r: String)
    ensures
        r@ == lit@,
{
    String::from_str(lit)
}

/// The string `a` followed by `b`.
fn cat2(a: &str, b: &str) -> (r: String)
    ensures
        r@ == a@ + b@,
{
    let mut s = String::from_str(a);
    s.append(b);
    s
}

/// The string `a`, `b` and `c` one after the other.
fn cat3(a: &str, b: &str, c: &str) -> (r: String)
    ensures
        r@ == a@ + b@ + c@,
{
    let mut s = String::from_str(a);
    s.append(b);
    s.append(c);
    s
}

/// The string `a`, `b`, `c` and `d` one after the other.
fn cat4(a: &str, b: &str, c: &str, d: &str) -> (r: String)
    ensures
        r@ == a@ + b@ + c@ + d@,
{
    let mut s = String::from_str(a);
    s.append(b);
    s.append(c);
    s.append(d);
    s
}

/// A syntax error about request `id`.
fn syntax_err(id: u64, msg: String, debug: String) -> (r: PadreErrorWithId)
    ensures
        r@ == syntax_error(id, msg@, debug@),
{
    PadreErrorWithId::new(PadreErrorKind::RequestSyntaxError, id, msg, debug)
}

/// Whether `v` is a JSON number.
fn is_number_value(v: &JsonValue) -> (r: bool)
    ensures
        r == is_number(v@),
{
    match v {
        JsonValue::Number(_) => true,
        _ => false,
    }
}

/// The number `v` as an `i64`, where it is an integer that fits.
fn value_as_i64(v: &JsonValue) -> (r: Option<i64>)
    ensures
        r == json_i64(v@),
{
    match v {
        JsonValue::Number(JsonNumber::PosInt(n)) => if *n <= i64::MAX as u64 {
            Some(*n as i64)
        } else {
            None
        },
        JsonValue::Number(JsonNumber::NegInt(n)) => Some(*n),
        _ => None,
    }
}

/// Takes the file location (members `file` and `line`) from `entries`.
fn get_file_location(id: u64, entries: &mut Vec<(String, JsonValue)>) -> (r: Result<FileLocation, PadreErrorWithId>)
    ensures
        match r {
            Ok(fl) => spec_file_location(id, entries_view(old(entries)@)) == Ok::<_, ErrorWithIdView>((fl@, entries_view(final(entries)@))),
            Err(e) => spec_file_location(id, entries_view(old(entries)@)) == Err::<(FileLocationView, Members), _>(e@),
        },
{
    match take_member(entries, "file") {
        None => Err(syntax_err(id, owned("Can't understand request"), owned("Need to specify a file name"))),
        Some(JsonValue::Str(f)) => match take_member(entries, "line") {
            None => Err(syntax_err(id, owned("Can't understand request"), owned("Need to specify a line number"))),
            Some(JsonValue::Number(JsonNumber::PosInt(t))) => Ok(FileLocation::new(f, t)),
            Some(t) => {
                let text = json_to_text(&t);
                if is_number_value(&t) {
                    Err(syntax_err(id, owned("Badly specified 'line'"), cat2("Badly specified 'line': ", text.as_str())))
                } else {
                    Err(syntax_err(id, owned("Can't read 'line' argument"), cat2("Can't understand 'line': ", text.as_str())))
                }
            },
        },
        Some(f) => {
            let text = json_to_text(&f);
            Err(syntax_err(id, owned("Can't read 'file' argument"), cat2("Can't understand 'file': ", text.as_str())))
        },
    }
}

/// Takes the member `variable` from `entries`.
fn get_variable(id: u64, entries: &mut Vec<(String, JsonValue)>) -> (r: Result<Variable, PadreErrorWithId>)
    ensures
        match r {
            Ok(v) => spec_variable(id, entries_view(old(entries)@)) == Ok::<_, ErrorWithIdView>((v@, entries_view(final(entries)@))),
            Err(e) => spec_variable(id, entries_view(old(entries)@)) == Err::<(Seq<char>, Members), _>(e@),
        },
{
    match take_member(entries, "variable") {
        None => Err(syntax_err(id, owned("Can't understand request"), owned("Need to specify a variable name"))),
        Some(JsonValue::Str(v)) => Ok(Variable::new(v)),
        Some(v) => {
            let text = json_to_text(&v);
            Err(syntax_err(id, owned("Badly specified 'variable'"), cat2("Badly specified 'variable': ", text.as_str())))
        },
    }
}

/// Takes the string member `key` from `entries`.
fn get_string(id: u64, key: &str, entries: &mut Vec<(String, JsonValue)>) -> (r: Result<String, PadreErrorWithId>)
    ensures
        match r {
            Ok(s) => spec_string_member(id, key@, entries_view(old(entries)@)) == Ok::<_, ErrorWithIdView>((s@, entries_view(final(entries)@))),
            Err(e) => spec_string_member(id, key@, entries_view(old(entries)@)) == Err::<(Seq<char>, Members), _>(e@),
        },
{
    match take_member(entries, key) {
        None => Err(syntax_err(id, owned("Can't understand request"), cat3("Need to specify a '", key, "'"))),
        Some(JsonValue::Str(s)) => Ok(s),
        Some(v) => {
            let text = json_to_text(&v);
            Err(syntax_err(id, cat3("Badly specified string '", key, "'"), cat4("Badly specified string '", key, "': ", text.as_str())))
        },
    }
}

/// Takes the 64-bit integer member `key` from `entries`.
fn get_i64(id: u64, key: &str, entries: &mut Vec<(String, JsonValue)>) -> (r: Result<i64, PadreErrorWithId>)
    ensures
        match r {
            Ok(n) => spec_i64_member(id, key@, entries_view(old(entries)@)) == Ok::<_, ErrorWithIdView>((n, entries_view(final(entries)@))),
            Err(e) => spec_i64_member(id, key@, entries_view(old(entries)@)) == Err::<(i64, Members), _>(e@),
        },
{
    match take_member(entries, key) {
        None => Err(syntax_err(id, owned("Can't understand request"), cat3("Need to specify a '", key, "'"))),
        Some(v) => match value_as_i64(&v) {
            Some(n) => Ok(n),
            None => {
                let text = json_to_text(&v);
                Err(syntax_err(
                    id,
                    cat3("Badly specified 64-bit integer '", key, "'"),
                    cat4("Badly specified 64-bit integer '", key, "': ", text.as_str()),
                ))
            },
        },
    }
}

/// Takes the step count (member `count`) from `entries`: its value where it
/// is a `u64`, 1 otherwise.
fn get_count(entries: &mut Vec<(String, JsonValue)>) -> (r: u64)
    ensures
        r == spec_count(entries_view(old(entries)@)),
        entries_view(final(entries)@) == without(entries_view(old(entries)@), "count"@),
{
    match take_member(entries, "count") {
        Some(JsonValue::Number(JsonNumber::PosInt(n))) => n,
        _ => 1,
    }
}

/// The command named `cmd` with its arguments taken from `entries`.
fn get_command(id: u64, cmd: &str, entries: &mut Vec<(String, JsonValue)>) -> (r: Result<RequestCmd, PadreErrorWithId>)
    ensures
        match r {
            Ok(c) => spec_command(id, cmd@, entries_view(old(entries)@)) == Ok::<_, ErrorWithIdView>((c@, entries_view(final(entries)@))),
            Err(e) => spec_command(id, cmd@, entries_view(old(entries)@)) == Err::<(RequestCmdView, Members), _>(e@),
        },
{
    if str_eq(cmd, "ping") {
        Ok(RequestCmd::PadreCmd(PadreCmd::Ping))
    } else if str_eq(cmd, "pings") {
        Ok(RequestCmd::PadreCmd(PadreCmd::Pings))
    } else if str_eq(cmd, "run") {
        Ok(RequestCmd::DebuggerCmd(DebuggerCmd::Run))
    } else if str_eq(cmd, "stepOver") {
        let count = get_count(entries);
        Ok(RequestCmd::DebuggerCmd(DebuggerCmd::StepOver(count)))
    } else if str_eq(cmd, "stepIn") {
        let count = get_count(entries);
        Ok(RequestCmd::DebuggerCmd(DebuggerCmd::StepIn(count)))
    } else if str_eq(cmd, "continue") {
        Ok(RequestCmd::DebuggerCmd(DebuggerCmd::Continue))
    } else if str_eq(cmd, "breakpoint") {
        match get_file_location(id, entries) {
            Ok(fl) => Ok(RequestCmd::DebuggerCmd(DebuggerCmd::Breakpoint(fl))),
            Err(e) => Err(e),
        }
    } else if str_eq(cmd, "unbreakpoint") {
        match get_file_location(id, entries) {
            Ok(fl) => Ok(RequestCmd::DebuggerCmd(DebuggerCmd::Unbreakpoint(fl))),
            Err(e) => Err(e),
        }
    } else if str_eq(cmd, "print") {
        match get_variable(id, entries) {
            Ok(v) => Ok(RequestCmd::DebuggerCmd(DebuggerCmd::Print(v))),
            Err(e) => Err(e),
        }
    } else if str_eq(cmd, "getConfig") {
        match get_string(id, "key", entries) {
            Ok(k) => Ok(RequestCmd::PadreCmd(PadreCmd::GetConfig(k))),
            Err(e) => Err(e),
        }
    } else if str_eq(cmd, "setConfig") {
        match get_string(id, "key", entries) {
            Ok(k) => match get_i64(id, "value", entries) {
                Ok(v) => Ok(RequestCmd::PadreCmd(PadreCmd::SetConfig(k, v))),
                Err(e) => Err(e),
            },
            Err(e) => Err(e),
        }
    } else {
        Err(syntax_err(id, owned("Command unknown"), cat3("Command unknown: '", cmd, "'")))
    }
}

/// The keys of `entries`, in order.
fn keys_of(entries: &Vec<(String, JsonValue)>) -> (r: Vec<String>)
    ensures
        strings_view(r@) == entry_keys(entries_view(entries@)),
{
    let mut r: Vec<String> = Vec::new();
    let mut i: usize = 0;
    while i < entries.len()
        invariant
            i <= entries@.len(),
            r@.len() == i,
            strings_view(r@) == entry_keys(entries_view(entries@)).take(i as int),
        decreases entries@.len() - i,
    {
        let k = entries[i].0.clone();
        assert(k@ == entries@[i as int].0@);
        let ghost old_r = r@;
        r.push(k);
        assert(strings_view(r@) =~= entry_keys(entries_view(entries@)).take(i + 1)) by {
            assert(r@ == old_r.push(k));
            assert(strings_view(old_r) == entry_keys(entries_view(entries@)).take(i as int));
            assert(entry_keys(entries_view(entries@))[i as int] == k@);
            assert forall|j: int| 0 <= j < i implies strings_view(r@)[j] == strings_view(old_r)[j] by {
                assert(r@[j] == old_r[j]);
            }
        }
        i = i + 1;
    }
    assert(entry_keys(entries_view(entries@)).take(i as int) =~= entry_keys(entries_view(entries@)));
    r
}

/// Decodes the request made of the members `entries` of its second element.
fn decode_members(id: u64, entries: Vec<(String, JsonValue)>, req: &str) -> (r: Result<PadreRequest, PadreErrorWithId>)
    requires
        members_wf(entries_view(entries@)),
    ensures
        request_result_view(r) == spec_request_members(id, entries_view(entries@), req@),
{
    let mut entries = entries;
    let ghost e0 = entries_view(entries@);
    proof {
        lemma_member_wf(e0, "cmd"@);
    }
    match take_member(&mut entries, "cmd") {
        None => Err(syntax_err(
            id,
            owned("Can't find command"),
            cat3("Can't find command '", req, "': Need a cmd in 2nd object"),
        )),
        Some(c) => match json_as_string(&c) {
            Ok(cmd) => {
                assert(member(e0, "cmd"@) == Some(Json::Str(cmd@)));
                match get_command(id, cmd.as_str(), &mut entries) {
                    Err(e) => Err(e),
                    Ok(command) => if entries.len() == 0 {
                        Ok(PadreRequest::new(id, command))
                    } else {
                        let keys = keys_of(&entries);
                        let text = debug_strings_text(&keys);
                        Err(syntax_err(id, owned("Bad arguments"), cat2("Bad arguments: ", text.as_str())))
                    },
                }
            },
            Err(m) => Err(syntax_err(id, owned("Can't find command"), cat4("Can't find command '", req, "': ", m.as_str()))),
        },
    }
}

/// Decodes the request that the JSON value `v` encodes; `req` is the text of
/// the request, quoted in error messages.
pub fn decode_value(v: JsonValue, req: &str) -> (r: Result<PadreRequest, PadreErrorWithId>)
    requires
        request_wf(v@),
    ensures
        request_result_view(r) == spec_decode_value(v@, req@),
{
    let ghost vv = v@;
    match v {
        JsonValue::Array(a) => {
            let ghost a0 = a@;
            assert(vv == Json::Array(values_view(a0)));
            assert(vv->Array_0.len() == a0.len());
            let mut a = a;
            if a.len() == 0 {
                return Err(syntax_err(
                    0,
                    owned("Array must have 2 elements, invalid JSON"),
                    cat3("Can't read '", req, "': Array should have 2 elements"),
                ));
            }
            let len = a.len();
            proof {
                lemma_all_wf(vv->Array_0, 0);
                if a0.len() >= 2 {
                    lemma_all_wf(vv->Array_0, 1);
                    lemma_depth_all(vv->Array_0, 1);
                }
            }
            let first = a.remove(0);
            assert(first@ == vv->Array_0[0]);
            let id = match json_as_u64(&first) {
                Ok(id) => id,
                Err(m) => {
                    let text = json_to_text(&first);
                    return Err(syntax_err(0, owned("Can't read id"), cat4("Can't read '", text.as_str(), "': ", m.as_str())));
                },
            };
            if len != 2 {
                return Err(syntax_err(
                    id,
                    owned("Array must have 2 elements, invalid JSON"),
                    cat3("Can't read '", req, "': Array should have 2 elements"),
                ));
            }
            let second = a.remove(0);
            let ghost sv = second@;
            assert(sv == vv->Array_0[1]);
            match json_map_error_text(&second) {
                Some(m) => Err(syntax_err(
                    id,
                    owned("Can't read 2nd argument as dictionary"),
                    cat4("Can't read '", req, "': ", m.as_str()),
                )),
                None => match second {
                    JsonValue::Object(entries) => {
                        assert(sv == Json::Object(members_view(entries@)));
                        assert(sv->Object_0 =~= entries_view(entries@));
                        assert(members_wf(entries_view(entries@)));
                        decode_members(id, entries, req)
                    },
                    _ => {
                        assert(false);
                        Err(syntax_err(id, owned("Can't read 2nd argument as dictionary"), owned("")))
                    },
                },
            }
        },
        _ => Err(syntax_err(
            0,
            owned("Not an array, invalid JSON"),
            cat3("Can't read '", req, "': Must be an array"),
        )),
    }
}


/// What decoding the buffer `buf` leaves in it, and what it yields: nothing
/// while the buffer holds no whole JSON value yet; an error, with the buffer
/// emptied, when it holds no JSON; otherwise the value is taken from the
/// buffer and decoded as a request. `req` in error messages is the text of
/// the whole buffer, without NUL characters at its ends.
pub open spec fn spec_decode(buf: Seq<u8>) -> (Seq<u8>, Result<Option<PadreRequestView>, ErrorWithIdView>) {
    if buf.len() == 0 {
        (buf, Ok(None))
    } else {
        let req = trim_nul(utf8_lossy(buf));
        match json_prefix(buf) {
            JsonPrefixView::Empty => (buf, Ok(None)),
            JsonPrefixView::Incomplete => (buf, Ok(None)),
            JsonPrefixView::Invalid(e) => (
                Seq::empty(),
                Err(syntax_error(0, "Must be valid JSON"@, "Can't read '"@ + req + "': "@ + e)),
            ),
            JsonPrefixView::Value(n, v) => (
                buf.skip(n as int),
                match spec_decode_value(v, req) {
                    Ok(q) => Ok(Some(q)),
                    Err(x) => Err(x),
                },
            ),
        }
    }
}

/// The model of the result of decoding a buffer.
pub open spec fn decode_result_view(r: Result<Option<PadreRequest>, PadreErrorWithId>) -> Result<Option<PadreRequestView>, ErrorWithIdView> {
    match r {
        Ok(Some(q)) => Ok(Some(q@)),
        Ok(None) => Ok(None),
        Err(e) => Err(e@),
    }
}

/// The line of text that encodes `s` for Vim: an answer as `[id,answer]`, a
/// notification as `["call",cmd,[args...]]`, each followed by a newline.
pub open spec fn spec_encode(s: PadreSendView) -> Seq<char> {
    match s {
        PadreSendView::Response(id, resp) => json_text(Json::Array(seq![Json::PosInt(id), resp])) + "\n"@,
        PadreSendView::Notification(cmd, args) => json_text(
            Json::Array(seq![Json::Str("call"@), Json::Str(cmd), Json::Array(args)]),
        ) + "\n"@,
    }
}

/// Decodes requests from Vim and encodes what is sent back.
#[derive(Debug)]
pub struct VimCodec {}

impl VimCodec {
    /// A codec.
    pub fn new() -> (r: VimCodec) {
        VimCodec {}
    }

    /// Decodes the next request in `src` and takes it from the buffer; see
    /// `spec_decode`.
    pub fn decode(&mut self, src: &mut Vec<u8>) -> (r: Result<Option<PadreRequest>, PadreErrorWithId>)
        ensures
            final(src)@ == spec_decode(old(src)@).0,
            decode_result_view(r) == spec_decode(old(src)@).1,
            exists|k: int| 0 <= k <= old(src)@.len() && #[trigger] old(src)@.skip(k) == final(src)@,
            r matches Ok(None) ==> final(src)@ == old(src)@,
            r matches Ok(Some(_)) ==> final(src)@.len() < old(src)@.len(),
    {
        if src.len() == 0 {
            assert(src@.skip(0) == src@);
            return Ok(None);
        }
        assert(src@.skip(0) == src@);
        assert(src@.skip(src@.len() as int) == Seq::<u8>::empty());
        let lossy = utf8_lossy_text(src.as_slice());
        let req = trim_nul_text(lossy.as_str());
        match parse_json_prefix(src.as_slice()) {
            JsonPrefix::Empty => Ok(None),
            JsonPrefix::Incomplete => Ok(None),
            JsonPrefix::Invalid(e) => {
                src.clear();
                Err(syntax_err(0, owned("Must be valid JSON"), cat4("Can't read '", req.as_str(), "': ", e.as_str())))
            },
            JsonPrefix::Value(n, v) => {
                let tail = src.split_off(n);
                *src = tail;
                match decode_value(v, req.as_str()) {
                    Ok(q) => Ok(Some(q)),
                    Err(e) => Err(e),
                }
            },
        }
    }

    /// Appends to `buf` the line that encodes `resp`; see `spec_encode`.
    pub fn encode(&mut self, resp: PadreSend, buf: &mut Vec<u8>)
        ensures
            final(buf)@ == old(buf)@ + encode_utf8(spec_encode(resp@)),
    {
        let ghost rv = resp@;
        let value = match resp {
            PadreSend::Response(r) => {
                let (id, answer) = r.into_parts();
                let mut items: Vec<JsonValue> = Vec::new();
                items.push(JsonValue::Number(JsonNumber::PosInt(id)));
                items.push(answer);
                let ghost iv = items@;
                let v = JsonValue::Array(items);
                assert(v@ == Json::Array(seq![Json::PosInt(id), answer@])) by {
                    assert(v@ == Json::Array(values_view(iv)));
                    assert(v@->Array_0 =~= seq![Json::PosInt(id), answer@]);
                }
                v
            },
            PadreSend::Notification(n) => {
                let (cmd, args) = n.into_parts();
                let ghost av = args@.map_values(|a: JsonValue| a@);
                let call = owned("call");
                let ghost argsv = args@;
                let inner = JsonValue::Array(args);
                assert(inner@ == Json::Array(av)) by {
                    assert(inner@ == Json::Array(values_view(argsv)));
                    assert(inner@->Array_0 =~= av);
                }
                let mut items: Vec<JsonValue> = Vec::new();
                items.push(JsonValue::Str(call));
                items.push(JsonValue::Str(cmd));
                items.push(inner);
                let ghost iv = items@;
                let v = JsonValue::Array(items);
                assert(v@ == Json::Array(seq![Json::Str("call"@), Json::Str(cmd@), Json::Array(av)])) by {
                    assert(v@ == Json::Array(values_view(iv)));
                    assert(v@->Array_0 =~= seq![Json::Str("call"@), Json::Str(cmd@), Json::Array(av)]);
                }
                v
            },
        };
        let mut text = json_to_text(&value);
        text.append("\n");
        let bytes = text.as_str().as_bytes();
        buf.extend_from_slice(bytes);
    }
}

} // verus!
