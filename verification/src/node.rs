//! What PADRE makes of the messages that Node's inspector sends over its
//! websocket, and how it numbers the requests it sends there.

use vstd::prelude::*;
use vstd::string::*;
use vstd::utf8::*;
use crate::text::{str_eq, bytes_start_with, u64_text, decimal};
use crate::pattern::{captures, captures_view, groups_view, group, get_group, regex_captures};
use crate::json::{Json, JsonValue, JsonNumber, json_parse, json_from_str, json_debug, json_debug_text, json_text,
    json_to_text, json_wf, entries_view, lemma_members_view};
use crate::request::{FileLocation, FileLocationView, DebuggerCmd, DebuggerCmdView};
use crate::notify::{Event, EventView, LogLevel, events_view, lemma_events_view_push};
use crate::vimcodec::{member, without, take_member};

verus! {

/// A script that Node parsed: the file it came from, the id Node gave it,
/// and whether it is Node's own rather than a file of the user's.
#[derive(Debug, PartialEq, Eq)]
pub struct Script {
    file: String,
    script_id: String,
    is_internal: bool,
}

/// The model of a script.
pub struct ScriptView {
    pub file: Seq<char>,
    pub script_id: Seq<char>,
    pub is_internal: bool,
}

impl View for Script {
    type V = ScriptView;

    closed spec fn view(&self) -> ScriptView {
        ScriptView { file: self.file@, script_id: self.script_id@, is_internal: self.is_internal }
    }
}

impl Script {
    /// A script with the given file, id and origin.
    pub fn new(file: String, script_id: String, is_internal: bool) -> (r: Script)
        ensures
            r@ == (ScriptView { file: file@, script_id: script_id@, is_internal }),
    {
        Script { file, script_id, is_internal }
    }

    /// The id Node gave the script.
    pub fn get_script_id(&self) -> (r: &str)
        ensures
            r@ == self@.script_id,
    {
        self.script_id.as_str()
    }

    /// The file the script came from.
    pub fn get_file(&self) -> (r: &str)
        ensures
            r@ == self@.file,
    {
        self.file.as_str()
    }

    /// Whether the script is Node's own.
    pub fn is_internal(&self) -> (r: bool)
        ensures
            r == self@.is_internal,
    {
        self.is_internal
    }
}

/// The models of a list of scripts.
pub open spec fn scripts_view(s: Seq<Script>) -> Seq<ScriptView> {
    s.map_values(|x: Script| x@)
}

/// The models of a list of file locations.
pub open spec fn locations_view(s: Seq<FileLocation>) -> Seq<FileLocationView> {
    s.map_values(|x: FileLocation| x@)
}

/// Keeps what Node told about the scripts it parsed and the program.
#[derive(Debug)]
pub struct Analyser {
    scripts: Vec<Script>,
    pending_breakpoints: Vec<FileLocation>,
    pid: Option<u64>,
}

/// The model of the analyser: the scripts parsed, in order, the breakpoints
/// waiting for their script, and the program's pid.
pub struct AnalyserView {
    pub scripts: Seq<ScriptView>,
    pub pending: Seq<FileLocationView>,
    pub pid: Option<u64>,
}

impl View for Analyser {
    type V = AnalyserView;

    closed spec fn view(&self) -> AnalyserView {
        AnalyserView {
            scripts: scripts_view(self.scripts@),
            pending: locations_view(self.pending_breakpoints@),
            pid: self.pid,
        }
    }
}

/// serde_json's `value[key]`: the member of an object, else null.
pub open spec fn field(j: Json, k: Seq<char>) -> Json {
    match j {
        Json::Object(e) => match member(e, k) {
            Some(v) => v,
            None => Json::Null,
        },
        _ => Json::Null,
    }
}

/// serde_json's `value[i]`: the item of an array, else null.
pub open spec fn item(j: Json, i: int) -> Json {
    match j {
        Json::Array(a) => if 0 <= i < a.len() { a[i] } else { Json::Null },
        _ => Json::Null,
    }
}

/// The text of a JSON string.
pub open spec fn str_of(j: Json) -> Option<Seq<char>> {
    match j {
        Json::Str(s) => Some(s),
        _ => None,
    }
}

/// The file of a URL, and whether it was a `file://` URL: the prefix is cut
/// off by bytes; `None` where the cut would fall inside a character.
pub open spec fn url_file(s: Seq<char>) -> Option<(Seq<char>, bool)> {
    let b = encode_utf8(s);
    let p = encode_utf8("file://"@);
    if b.len() > p.len() && !is_char_boundary(b, p.len() as int) {
        None
    } else if b.len() > p.len() && b.take(p.len() as int) == p {
        Some((decode_utf8(b.skip(p.len() as int)), true))
    } else {
        Some((s, false))
    }
}

/// Whether a message tells that Node parsed a script.
pub open spec fn is_script_parsed(msg: Json) -> bool {
    str_of(field(msg, "method"@)) == Some("Debugger.scriptParsed"@)
}

/// When Node pauses, PADRE jumps to the innermost frame of the stack, the
/// first of `callFrames`, whatever frames follow it: to the file of its URL,
/// at its line counted from 1.
pub proof fn lemma_paused_jumps_to_top_frame(a: AnalyserView, msg: Json, frames: Seq<Json>, u: Seq<char>, n: u64, f: Seq<char>, is_file: bool)
    requires
        field(msg, "method"@) == Json::Str("Debugger.paused"@),
        field(field(msg, "params"@), "callFrames"@) == Json::Array(frames),
        frames.len() > 0,
        field(frames[0], "url"@) == Json::Str(u),
        field(field(frames[0], "location"@), "lineNumber"@) == Json::PosInt(n),
        n < u64::MAX,
        url_file(u) == Some((f, is_file)),
    ensures
        spec_analyse_message(a, msg) == Some((seq![EventView::JumpToPosition(f, (n + 1) as u64)], false, a)),
{
    reveal_strlit("Debugger.paused");
    reveal_strlit("Runtime.consoleAPICalled");
    reveal_strlit("Runtime.executionContextCreated");
    reveal_strlit("Runtime.exceptionThrown");
    reveal_strlit("Debugger.resumed");
    reveal_strlit("Runtime.executionContextDestroyed");
    assert("Debugger.paused"@.len() == 15);
    assert("Debugger.paused"@ != "Runtime.consoleAPICalled"@);
    assert("Debugger.paused"@ != "Runtime.executionContextCreated"@);
    assert("Debugger.paused"@ != "Runtime.exceptionThrown"@);
    assert("Debugger.paused"@ != "Runtime.executionContextDestroyed"@);
    assert("Debugger.paused"@[9] == 'p' && "Debugger.resumed"@[9] == 'r');
}

/// What a message from Node gives: the events for Vim, whether to close
/// the connection, and the analyser afterwards; `None` where the message is
/// not understood.
pub open spec fn spec_analyse_message(a: AnalyserView, msg: Json) -> Option<(Seq<EventView>, bool, AnalyserView)> {
    match str_of(field(msg, "method"@)) {
        None => None,
        Some(m) => if m == "Runtime.consoleAPICalled"@ || m == "Runtime.executionContextCreated"@
            || m == "Runtime.exceptionThrown"@ || m == "Debugger.resumed"@ {
            Some((seq![], false, a))
        } else if m == "Runtime.executionContextDestroyed"@ {
            Some((
                match a.pid {
                    Some(p) => seq![EventView::ProcessExited(p, 0)],
                    None => seq![],
                },
                true,
                a,
            ))
        } else if m == "Debugger.paused"@ {
            let frame = item(field(field(msg, "params"@), "callFrames"@), 0);
            match (str_of(field(frame, "url"@)), field(field(frame, "location"@), "lineNumber"@)) {
                (Some(u), Json::PosInt(n)) => match url_file(u) {
                    Some((f, _)) => if n < u64::MAX {
                        Some((seq![EventView::JumpToPosition(f, (n + 1) as u64)], false, a))
                    } else {
                        None
                    },
                    None => None,
                },
                _ => None,
            }
        } else if m == "Debugger.scriptFailedToParse"@ {
            Some((seq![EventView::Log(LogLevel::WARN, "Can't parse script: "@ + json_debug(msg))], false, a))
        } else if m == "Debugger.scriptParsed"@ {
            let p = field(msg, "params"@);
            match (str_of(field(p, "url"@)), str_of(field(p, "scriptId"@))) {
                (Some(u), Some(id)) => match url_file(u) {
                    Some((f, is_file)) => Some((
                        seq![],
                        false,
                        AnalyserView {
                            scripts: a.scripts.push(ScriptView { file: f, script_id: id, is_internal: !is_file }),
                            ..a
                        },
                    )),
                    None => None,
                },
                _ => None,
            }
        } else {
            None
        },
    }
}

/// The member `k` of an object, where it is one and has it.
fn get_field<'a>(j: &'a JsonValue, k: &str) -> (r: Option<&'a JsonValue>)
    ensures
        match r {
            Some(v) => field(j@, k@) == v@,
            None => field(j@, k@) == Json::Null,
        },
        (r is Some) == (j@ is Object && member(j@->0, k@) is Some),
{
    match j {
        JsonValue::Object(e) => {
            proof { lemma_members_view(e@); }
            let ghost ev = entries_view(e@);
            assert(j@ == Json::Object(ev));
            assert(ev.take(ev.len() as int) == ev);
            let mut i = e.len();
            while i > 0
                invariant
                    i <= e@.len(),
                    ev == entries_view(e@),
                    j@ == Json::Object(ev),
                    member(ev, k@) == member(ev.take(i as int), k@),
                decreases i,
            {
                assert(ev.take(i as int).drop_last() == ev.take(i - 1));
                assert(ev.take(i as int).last() == ev[i - 1]);
                if str_eq(e[i - 1].0.as_str(), k) {
                    assert(ev[i - 1] == (e@[i - 1].0@, e@[i - 1].1@));
                    assert(ev.take(i as int).last().0 == k@);
                    assert(member(ev.take(i as int), k@) == Some(ev[i - 1].1));
                    assert(field(j@, k@) == ev[i - 1].1);
                    return Some(&e[i - 1].1);
                }
                i = i - 1;
            }
            None
        },
        _ => None,
    }
}

/// The item `i` of an array, where it is one and has it.
fn get_item<'a>(j: &'a JsonValue, i: usize) -> (r: Option<&'a JsonValue>)
    ensures
        match r {
            Some(v) => item(j@, i as int) == v@,
            None => item(j@, i as int) == Json::Null,
        },
{
    match j {
        JsonValue::Array(a) => {
            proof {
                crate::json::lemma_values_view_len(a@);
            }
            if i < a.len() {
                proof { crate::json::lemma_values_view(a@, i as int); }
                Some(&a[i])
            } else {
                None
            }
        },
        _ => None,
    }
}

/// The text of a JSON string, where the value is one.
fn get_str<'a>(j: Option<&'a JsonValue>) -> (r: Option<&'a str>)
    ensures
        match (j, r) {
            (Some(v), Some(s)) => str_of(v@) == Some(s@),
            (Some(v), None) => str_of(v@) is None,
            (None, r) => r is None,
        },
{
    match j {
        Some(JsonValue::Str(s)) => Some(s.as_str()),
        _ => None,
    }
}

/// The file of a URL; see `url_file`.
pub fn get_url_file(s: &str) -> (r: Option<(String, bool)>)
    ensures
        match r {
            Some((f, is_file)) => url_file(s@) == Some((f@, is_file)),
            None => url_file(s@) is None,
        },
{
    let b = s.as_bytes();
    let p = "file://".as_bytes();
    proof { encode_utf8_valid_utf8(s@); }
    if b.len() > p.len() && !s.is_char_boundary(p.len()) {
        return None;
    }
    if b.len() > p.len() && bytes_start_with(b, p) {
        let (_, rest) = s.split_at(p.len());
        proof {
            is_char_boundary_start_end_of_seq(b@);
            encode_utf8_decode_utf8(rest@);
            assert(rest.spec_bytes() == b@.skip(p@.len() as int));
        }
        Some((String::from_str(rest), true))
    } else {
        Some((String::from_str(s), false))
    }
}

impl Analyser {
    /// An analyser that knows of no script yet.
    pub fn new() -> (r: Analyser)
        ensures
            r@.scripts.len() == 0,
            r@.pending.len() == 0,
            r@.pid is None,
    {
        Analyser { scripts: Vec::new(), pending_breakpoints: Vec::new(), pid: None }
    }

    /// The scripts parsed so far, in order.
    pub fn get_scripts(&self) -> (r: &Vec<Script>)
        ensures
            scripts_view(r@) == self@.scripts,
    {
        &self.scripts
    }

    /// The first script parsed from file `filename`.
    pub fn get_script_from_filename(&self, filename: &str) -> (r: Option<&Script>)
        ensures
            match r {
                Some(s) => exists|i: int| #![trigger self@.scripts[i]] 0 <= i < self@.scripts.len()
                    && self@.scripts[i] == s@ && s@.file == filename@
                    && forall|j: int| 0 <= j < i ==> #[trigger] self@.scripts[j].file != filename@,
                None => forall|j: int| 0 <= j < self@.scripts.len() ==> #[trigger] self@.scripts[j].file != filename@,
            },
    {
        let mut i: usize = 0;
        while i < self.scripts.len()
            invariant
                i <= self.scripts@.len(),
                forall|j: int| 0 <= j < i ==> #[trigger] self@.scripts[j].file != filename@,
            decreases self.scripts@.len() - i,
        {
            assert(self@.scripts[i as int] == self.scripts@[i as int]@);
            if str_eq(self.scripts[i].file.as_str(), filename) {
                return Some(&self.scripts[i]);
            }
            i = i + 1;
        }
        None
    }

    /// Keeps a breakpoint until its script is parsed.
    pub fn add_pending_breakpoint(&mut self, bkpt: FileLocation)
        ensures
            final(self)@ == (AnalyserView { pending: old(self)@.pending.push(bkpt@), ..old(self)@ }),
    {
        let ghost p0 = self.pending_breakpoints@;
        self.pending_breakpoints.push(bkpt);
        assert(locations_view(self.pending_breakpoints@) =~= locations_view(p0).push(bkpt@));
    }

    /// Whether breakpoints wait for their script.
    pub fn has_pending_breakpoints(&self) -> (r: bool)
        ensures
            r == (self@.pending.len() > 0),
    {
        self.pending_breakpoints.len() > 0
    }

    /// Records the program's pid.
    pub fn set_pid(&mut self, pid: u64)
        ensures
            final(self)@ == (AnalyserView { pid: Some(pid), ..old(self)@ }),
    {
        self.pid = Some(pid);
    }

    /// Reads a message from Node; see `spec_analyse_message`. Where that
    /// gives `None`, the analyser is left as it was. A script is not taken
    /// while breakpoints wait for theirs.
    pub fn analyse_message(&mut self, msg: JsonValue) -> (r: Option<(Vec<Event>, bool)>)
        requires
            !is_script_parsed(msg@) || old(self)@.pending.len() == 0,
        ensures
            match (r, spec_analyse_message(old(self)@, msg@)) {
                (Some((e, close)), Some((se, sclose, sa))) => events_view(e@) == se && close == sclose && final(self)@ == sa,
                (None, None) => final(self)@ == old(self)@,
                _ => false,
            },
    {
        let method = match get_str(get_field(&msg, "method")) {
            Some(m) => m,
            None => return None,
        };
        let mut events: Vec<Event> = Vec::new();
        if str_eq(method, "Runtime.consoleAPICalled") || str_eq(method, "Runtime.executionContextCreated")
            || str_eq(method, "Runtime.exceptionThrown") || str_eq(method, "Debugger.resumed") {
            return Some((events, false));
        } else if str_eq(method, "Runtime.executionContextDestroyed") {
            match self.pid {
                Some(p) => {
                    let e = Event::ProcessExited(p, 0);
                    proof { lemma_events_view_push(events@, e); }
                    events.push(e);
                },
                None => {},
            }
            assert(events_view(events@) =~= match self@.pid {
                Some(p) => seq![EventView::ProcessExited(p, 0)],
                None => Seq::<EventView>::empty(),
            });
            return Some((events, true));
        } else if str_eq(method, "Debugger.paused") {
            let frame = match get_field(&msg, "params") {
                Some(p) => match get_field(p, "callFrames") {
                    Some(c) => get_item(c, 0),
                    None => None,
                },
                None => None,
            };
            let url = match frame {
                Some(f) => get_str(get_field(f, "url")),
                None => None,
            };
            let line = match frame {
                Some(f) => match get_field(f, "location") {
                    Some(l) => get_field(l, "lineNumber"),
                    None => None,
                },
                None => None,
            };
            match (url, line) {
                (Some(u), Some(JsonValue::Number(JsonNumber::PosInt(n)))) => match get_url_file(u) {
                    Some((f, _)) => if *n < u64::MAX {
                        let e = Event::JumpToPosition(f, *n + 1);
                        proof { lemma_events_view_push(events@, e); }
                        events.push(e);
                        return Some((events, false));
                    } else {
                        return None;
                    },
                    None => return None,
                },
                _ => return None,
            }
        } else if str_eq(method, "Debugger.scriptFailedToParse") {
            let mut m = String::from_str("Can't parse script: ");
            let d = json_debug_text(&msg);
            m.append(d.as_str());
            let e = Event::Log(LogLevel::WARN, m);
            proof { lemma_events_view_push(events@, e); }
            events.push(e);
            return Some((events, false));
        } else if str_eq(method, "Debugger.scriptParsed") {
            let params = get_field(&msg, "params");
            let url = match params {
                Some(p) => get_str(get_field(p, "url")),
                None => None,
            };
            let id = match params {
                Some(p) => get_str(get_field(p, "scriptId")),
                None => None,
            };
            match (url, id) {
                (Some(u), Some(id)) => match get_url_file(u) {
                    Some((f, is_file)) => {
                        let ghost s0 = self.scripts@;
                        self.scripts.push(Script::new(f, String::from_str(id), !is_file));
                        assert(scripts_view(self.scripts@) =~= scripts_view(s0).push(
                            ScriptView { file: f@, script_id: id@, is_internal: !is_file },
                        ));
                        return Some((events, false));
                    },
                    None => return None,
                },
                _ => return None,
            }
        } else {
            return None;
        }
    }
}

/// Whether a message tells that Node parsed a script.
pub fn is_script_parsed_message(msg: &JsonValue) -> (r: bool)
    ensures
        r == is_script_parsed(msg@),
{
    match get_str(get_field(msg, "method")) {
        Some(m) => str_eq(m, "Debugger.scriptParsed"),
        None => false,
    }
}

/// serde_json's `json.get("id")` and then `as_u64`: the id of a message,
/// where it has a non-negative integer one.
pub open spec fn spec_message_id(json: Json) -> Option<u64> {
    match json {
        Json::Object(e) => match member(e, "id"@) {
            Some(Json::PosInt(n)) => Some(n),
            _ => None,
        },
        _ => None,
    }
}

/// The id of a message from Node; see `spec_message_id`.
pub fn get_message_id(json: &JsonValue) -> (r: Option<u64>)
    ensures
        r == spec_message_id(json@),
{
    match json {
        JsonValue::Object(_) => match get_field(json, "id") {
            Some(JsonValue::Number(JsonNumber::PosInt(n))) => Some(*n),
            _ => None,
        },
        _ => None,
    }
}

/// The JSON value of a message's text, where it is JSON.
pub fn get_json(text: &str) -> (r: Option<JsonValue>)
    ensures
        match r {
            Some(v) => json_parse(text@) == Some(v@) && json_wf(v@),
            None => json_parse(text@) is None,
        },
{
    json_from_str(text)
}

/// Numbers the requests sent to Node, so that the answers can be matched.
#[derive(Debug)]
pub struct WSHandler {
    ws_id: u64,
}

impl View for WSHandler {
    type V = u64;

    closed spec fn view(&self) -> u64 {
        self.ws_id
    }
}

/// The text of message `json` with the member `id` set to `id`: serde_json's
/// `json["id"] = id` on an object, or on null, which it makes an object.
pub open spec fn with_id(json: Json, id: u64) -> Option<Json> {
    match json {
        Json::Object(e) => Some(Json::Object(without(e, "id"@).push(("id"@, Json::PosInt(id))))),
        Json::Null => Some(Json::Object(seq![("id"@, Json::PosInt(id))])),
        _ => None,
    }
}

/// The text of message `message` with its id set to `id`, as serde_json
/// prints it; `None` where the text is no JSON object or null.
pub open spec fn spec_add_id(message: Seq<char>, id: u64) -> Option<Seq<char>> {
    match json_parse(message) {
        Some(j) => match with_id(j, id) {
            Some(k) => Some(json_text(k)),
            None => None,
        },
        None => None,
    }
}

impl WSHandler {
    /// A handler whose first request gets id 1.
    pub fn new() -> (r: WSHandler)
        ensures
            r@ == 1,
    {
        WSHandler { ws_id: 1 }
    }

    /// The id the next request gets.
    pub fn get_ws_id(&self) -> (r: u64)
        ensures
            r == self@,
    {
        self.ws_id
    }

    /// Takes the id for the next request.
    pub fn get_next_ws_id(&mut self) -> (r: u64)
        requires
            old(self)@ < u64::MAX,
        ensures
            r == old(self)@,
            final(self)@ == old(self)@ + 1,
    {
        let id = self.ws_id;
        self.ws_id = self.ws_id + 1;
        id
    }

    /// The text of `message` with its id set to `id`; `None` where the text
    /// is no JSON object or null.
    pub fn add_id_to_message(&self, message: &str, id: u64) -> (r: Option<String>)
        ensures
            match r {
                Some(t) => spec_add_id(message@, id) == Some(t@),
                None => spec_add_id(message@, id) is None,
            },
    {
        let json = match json_from_str(message) {
            Some(j) => j,
            None => return None,
        };
        let out = match json {
            JsonValue::Object(mut e) => {
                proof { lemma_members_view(e@); }
                let _ = take_member(&mut e, "id");
                let ghost e0 = e@;
                e.push((String::from_str("id"), JsonValue::Number(JsonNumber::PosInt(id))));
                proof {
                    lemma_members_view(e@);
                    assert(entries_view(e@) =~= entries_view(e0).push(("id"@, Json::PosInt(id))));
                }
                JsonValue::Object(e)
            },
            JsonValue::Null => {
                let e = vec![(String::from_str("id"), JsonValue::Number(JsonNumber::PosInt(id)))];
                proof {
                    lemma_members_view(e@);
                    assert(entries_view(e@) =~= seq![("id"@, Json::PosInt(id))]);
                }
                JsonValue::Object(e)
            },
            _ => return None,
        };
        Some(json_to_text(&out))
    }
}

/// Node tells where its debugger listens.
pub const RE_NODE_STARTED: &'static str = "^Debugger listening on (ws://127.0.0.1:\\d+/.*)$";

/// The websocket address of Node's debugger, where the line tells it.
pub open spec fn spec_node_started(line: Seq<char>) -> Option<Seq<char>> {
    let c = regex_captures(RE_NODE_STARTED@, line);
    if c.len() > 0 { group(c.last(), 1) } else { None }
}

/// The websocket address of Node's debugger, where the line tells it; see
/// `spec_node_started`.
pub fn node_started_uri(line: &str) -> (r: Option<String>)
    ensures
        match r {
            Some(u) => spec_node_started(line@) == Some(u@),
            None => spec_node_started(line@) is None,
        },
{
    let c = captures(RE_NODE_STARTED, line);
    assert(captures_view(c@).len() == c@.len());
    if c.len() > 0 {
        assert(captures_view(c@).last() == groups_view(c@[c@.len() - 1]@));
        get_group(&c[c.len() - 1], 1)
    } else {
        None
    }
}

/// The requests that start a debugging session, in order: enable the
/// runtime, enable the debugger, run the program that waits for it.
pub fn startup_messages() -> (r: Vec<String>)
    ensures
        r@.len() == 3,
        r@[0]@ == "{\"method\":\"Runtime.enable\"}"@,
        r@[1]@ == "{\"method\":\"Debugger.enable\"}"@,
        r@[2]@ == "{\"method\":\"Runtime.runIfWaitingForDebugger\"}"@,
{
    vec![
        String::from_str("{\"method\":\"Runtime.enable\"}"),
        String::from_str("{\"method\":\"Debugger.enable\"}"),
        String::from_str("{\"method\":\"Runtime.runIfWaitingForDebugger\"}"),
    ]
}

/// Whether an answer from Node reports an error: an object with an
/// `error` member.
pub open spec fn has_error(j: Json) -> bool {
    match j {
        Json::Object(e) => member(e, "error"@) is Some,
        _ => false,
    }
}

/// What is logged once the session is started, from the three answers: an
/// error with the answers where one reports one, else that Node runs.
pub open spec fn spec_connected(pid: u64, r1: Json, r2: Json, r3: Json) -> EventView {
    if has_error(r1) || has_error(r2) || has_error(r3) {
        EventView::Log(
            LogLevel::ERROR,
            "Can't connect to node debugger, responses: "@ + json_debug(r1) + " "@ + json_debug(r2) + " "@ + json_debug(r3),
        )
    } else {
        EventView::Log(
            LogLevel::INFO,
            "Node launched with pid "@ + decimal(pid as nat) + " and PADRE connected to debugger"@,
        )
    }
}

/// Whether an answer from Node reports an error.
fn answer_has_error(j: &JsonValue) -> (r: bool)
    ensures
        r == has_error(j@),
{
    match j {
        JsonValue::Object(_) => get_field(j, "error").is_some(),
        _ => false,
    }
}

/// What is logged once the session is started; see `spec_connected`.
pub fn connected_event(pid: u64, r1: &JsonValue, r2: &JsonValue, r3: &JsonValue) -> (r: Event)
    ensures
        r@ == spec_connected(pid, r1@, r2@, r3@),
{
    if answer_has_error(r1) || answer_has_error(r2) || answer_has_error(r3) {
        let mut m = String::from_str("Can't connect to node debugger, responses: ");
        let d1 = json_debug_text(r1);
        m.append(d1.as_str());
        m.append(" ");
        let d2 = json_debug_text(r2);
        m.append(d2.as_str());
        m.append(" ");
        let d3 = json_debug_text(r3);
        m.append(d3.as_str());
        Event::Log(LogLevel::ERROR, m)
    } else {
        let mut m = String::from_str("Node launched with pid ");
        let t = u64_text(pid);
        m.append(t.as_str());
        m.append(" and PADRE connected to debugger");
        Event::Log(LogLevel::INFO, m)
    }
}

/// The request that sets a breakpoint at line `line_num` (counted from 1)
/// of script `script_id`; Node counts lines from 0. `None` for line 0.
pub fn set_breakpoint_message(script_id: &str, line_num: u64) -> (r: Option<String>)
    ensures
        line_num == 0 ==> r is None,
        line_num > 0 ==> (r matches Some(t) && t@ == "{\"method\":\"Debugger.setBreakpoint\",\"params\":{\"location\":{\"scriptId\":\""@
            + script_id@ + "\",\"lineNumber\":"@ + decimal((line_num - 1) as nat) + "}}}"@),
{
    if line_num == 0 {
        return None;
    }
    let mut m = String::from_str("{\"method\":\"Debugger.setBreakpoint\",\"params\":{\"location\":{\"scriptId\":\"");
    m.append(script_id);
    m.append("\",\"lineNumber\":");
    let t = u64_text(line_num - 1);
    m.append(t.as_str());
    m.append("}}}");
    Some(m)
}

/// The line, counted from 1, at which Node set a breakpoint, from its
/// answer; `None` where the answer holds no such line.
pub open spec fn spec_actual_line(answer: Json) -> Option<u64> {
    match field(field(field(answer, "result"@), "actualLocation"@), "lineNumber"@) {
        Json::PosInt(n) => if n < u64::MAX { Some((n + 1) as u64) } else { None },
        _ => None,
    }
}

/// The line, counted from 1, at which Node set a breakpoint; see
/// `spec_actual_line`.
pub fn actual_line(answer: &JsonValue) -> (r: Option<u64>)
    ensures
        r == spec_actual_line(answer@),
{
    let n = match get_field(answer, "result") {
        Some(r) => match get_field(r, "actualLocation") {
            Some(l) => get_field(l, "lineNumber"),
            None => None,
        },
        None => None,
    };
    match n {
        Some(JsonValue::Number(JsonNumber::PosInt(n))) => if *n < u64::MAX { Some(*n + 1) } else { None },
        _ => None,
    }
}

/// The request that evaluates variable `name` in the top frame.
pub fn evaluate_message(name: &str) -> (r: String)
    ensures
        r@ == "{\"method\":\"Debugger.evaluateOnCallFrame\",\"params\":{\"callFrameId\":\"{\\\"ordinal\\\":0,\\\"injectedScriptId\\\":1}\",\"expression\":\""@
            + name@ + "\",\"returnByValue\":true}}"@,
{
    let mut m = String::from_str("{\"method\":\"Debugger.evaluateOnCallFrame\",\"params\":{\"callFrameId\":\"{\\\"ordinal\\\":0,\\\"injectedScriptId\\\":1}\",\"expression\":\"");
    m.append(name);
    m.append("\",\"returnByValue\":true}}");
    m
}

/// What is logged for a printed variable, from Node's answer: its type,
/// name and value; `None` where the answer gives no type.
pub open spec fn spec_printed(name: Seq<char>, answer: Json) -> Option<Seq<char>> {
    let res = field(field(answer, "result"@), "result"@);
    match str_of(field(res, "type"@)) {
        Some(t) => Some("("@ + t + ") "@ + name + "="@ + json_text(field(res, "value"@))),
        None => None,
    }
}

/// What is logged for a printed variable; see `spec_printed`.
pub fn printed_text(name: &str, answer: &JsonValue) -> (r: Option<String>)
    ensures
        match r {
            Some(t) => spec_printed(name@, answer@) == Some(t@),
            None => spec_printed(name@, answer@) is None,
        },
{
    let res = match get_field(answer, "result") {
        Some(r) => get_field(r, "result"),
        None => None,
    };
    let t = match res {
        Some(x) => get_str(get_field(x, "type")),
        None => None,
    };
    let t = match t {
        Some(t) => t,
        None => return None,
    };
    let value = match res {
        Some(x) => match get_field(x, "value") {
            Some(v) => json_to_text(v),
            None => json_to_text(&JsonValue::Null),
        },
        None => json_to_text(&JsonValue::Null),
    };
    let mut m = String::from_str("(");
    m.append(t);
    m.append(") ");
    m.append(name);
    m.append("=");
    m.append(value.as_str());
    Some(m)
}

/// The request for a command that Node carries out without answering
/// anything PADRE reads: stepping in, stepping over, resuming.
pub open spec fn spec_node_command(cmd: DebuggerCmdView) -> Option<Seq<char>> {
    match cmd {
        DebuggerCmdView::StepIn(_) => Some("{\"method\":\"Debugger.stepInto\"}"@),
        DebuggerCmdView::StepOver(_) => Some("{\"method\":\"Debugger.stepOver\"}"@),
        DebuggerCmdView::Continue => Some("{\"method\":\"Debugger.resume\"}"@),
        _ => None,
    }
}

/// The request for a command; see `spec_node_command`.
pub fn node_command(cmd: &DebuggerCmd) -> (r: Option<String>)
    ensures
        match r {
            Some(t) => spec_node_command(cmd@) == Some(t@),
            None => spec_node_command(cmd@) is None,
        },
{
    match cmd {
        DebuggerCmd::StepIn(_) => Some(String::from_str("{\"method\":\"Debugger.stepInto\"}")),
        DebuggerCmd::StepOver(_) => Some(String::from_str("{\"method\":\"Debugger.stepOver\"}")),
        DebuggerCmd::Continue => Some(String::from_str("{\"method\":\"Debugger.resume\"}")),
        _ => None,
    }
}

} // verus!
