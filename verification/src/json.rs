//! JSON values as the wire protocol carries them.
//!
//! `JsonValue` holds as plain values what the protocol logic reads of a JSON
//! document; `Json` is its mathematical model. Parsing and printing JSON text
//! is serde_json's work and goes through the trusted items at the end of this
//! file.

use vstd::prelude::*;
use vstd::utf8::{valid_utf8, decode_utf8};
use serde_json::Value;

verus! {

/// A JSON number as serde_json classifies it: a non-negative integer that
/// fits in a `u64`, a negative integer that fits in an `i64`, or any other
/// number, kept as the text that serde_json prints for it.
#[derive(Debug)]
pub enum JsonNumber {
    PosInt(u64),
    NegInt(i64),
    Float(String),
}

/// A JSON value. Object members are kept in order, one entry per key.
#[derive(Debug)]
pub enum JsonValue {
    Null,
    Bool(bool),
    Number(JsonNumber),
    Str(String),
    Array(Vec<JsonValue>),
    Object(Vec<(String, JsonValue)>),
}

/// The mathematical model of a JSON value.
pub enum Json {
    Null,
    Bool(bool),
    PosInt(u64),
    NegInt(i64),
    Float(Seq<char>),
    Str(Seq<char>),
    Array(Seq<Json>),
    Object(Seq<(Seq<char>, Json)>),
}

/// The model of a JSON value.
pub open spec fn json_view(v: JsonValue) -> Json
    decreases v,
{
    match v {
        JsonValue::Null => Json::Null,
        JsonValue::Bool(b) => Json::Bool(b),
        JsonValue::Number(JsonNumber::PosInt(n)) => Json::PosInt(n),
        JsonValue::Number(JsonNumber::NegInt(n)) => Json::NegInt(n),
        JsonValue::Number(JsonNumber::Float(t)) => Json::Float(t@),
        JsonValue::Str(s) => Json::Str(s@),
        JsonValue::Array(a) => {
            proof { assert(decreases_to!(v => a)); assert(decreases_to!(a => a@)); }
            Json::Array(values_view(a@))
        },
        JsonValue::Object(o) => {
            proof { assert(decreases_to!(v => o)); assert(decreases_to!(o => o@)); }
            Json::Object(members_view(o@))
        },
    }
}

/// The models of a sequence of JSON values.
pub open spec fn values_view(s: Seq<JsonValue>) -> Seq<Json>
    decreases s,
{
    if s.len() == 0 {
        Seq::empty()
    } else {
        seq![json_view(s[0])] + values_view(s.subrange(1, s.len() as int))
    }
}

/// The models of a sequence of object members.
pub open spec fn members_view(s: Seq<(String, JsonValue)>) -> Seq<(Seq<char>, Json)>
    decreases s,
{
    if s.len() == 0 {
        Seq::empty()
    } else {
        proof { assert(decreases_to!(s => s[0])); assert(decreases_to!(s[0] => s[0].1)); }
        seq![(s[0].0@, json_view(s[0].1))] + members_view(s.subrange(1, s.len() as int))
    }
}

/// `values_view` keeps the length.
pub broadcast proof fn lemma_values_view_len(s: Seq<JsonValue>)
    ensures
        #[trigger] values_view(s).len() == s.len(),
    decreases s.len(),
{
    if s.len() > 0 {
        lemma_values_view_len(s.subrange(1, s.len() as int));
    }
}

/// `values_view` element by element.
pub broadcast proof fn lemma_values_view(s: Seq<JsonValue>, i: int)
    requires
        0 <= i < s.len(),
    ensures
        #[trigger] values_view(s)[i] == json_view(s[i]),
    decreases s.len(),
{
    lemma_values_view_len(s.subrange(1, s.len() as int));
    if i > 0 {
        lemma_values_view(s.subrange(1, s.len() as int), i - 1);
        assert(s.subrange(1, s.len() as int)[i - 1] == s[i]);
    }
}

/// `members_view` element by element.
pub broadcast proof fn lemma_members_view(s: Seq<(String, JsonValue)>)
    ensures
        #[trigger] members_view(s) == entries_view(s),
    decreases s.len(),
{
    if s.len() > 0 {
        lemma_members_view(s.subrange(1, s.len() as int));
        assert(members_view(s) =~= entries_view(s));
    } else {
        assert(members_view(s) =~= entries_view(s));
    }
}

/// The model of a sequence of object members.
pub open spec fn entries_view(o: Seq<(String, JsonValue)>) -> Seq<(Seq<char>, Json)> {
    Seq::new(o.len(), |i: int| (o[i].0@, json_view(o[i].1)))
}

impl View for JsonValue {
    type V = Json;

    open spec fn view(&self) -> Json {
        json_view(*self)
    }
}

/// Code-point lexicographic order on character sequences: the order of
/// Rust's `String` comparison.
pub open spec fn chars_lt(a: Seq<char>, b: Seq<char>) -> bool
    decreases a.len(),
{
    if b.len() == 0 {
        false
    } else if a.len() == 0 {
        true
    } else if (a[0] as u32) < (b[0] as u32) {
        true
    } else if a[0] == b[0] {
        chars_lt(a.drop_first(), b.drop_first())
    } else {
        false
    }
}

/// The keys of the object members `e`, in order.
pub open spec fn entry_keys(e: Seq<(Seq<char>, Json)>) -> Seq<Seq<char>> {
    Seq::new(e.len(), |i: int| e[i].0)
}

/// The keys of `e` strictly increase, so each key occurs once.
pub open spec fn keys_sorted(e: Seq<(Seq<char>, Json)>) -> bool {
    forall|i: int, j: int| 0 <= i < j < e.len() ==> chars_lt(#[trigger] e[i].0, #[trigger] e[j].0)
}

/// Whether `s` is one or more ASCII decimal digits.
pub open spec fn some_digits(s: Seq<char>) -> bool {
    s.len() > 0 && forall|i: int| 0 <= i < s.len() ==> '0' <= #[trigger] s[i] && s[i] <= '9'
}

/// Whether `s` is empty or a fraction part: `.` and digits.
pub open spec fn fraction_part(s: Seq<char>) -> bool {
    s.len() == 0 || (s[0] == '.' && some_digits(s.drop_first()))
}

/// Whether `s` is empty or an exponent part: `e` or `E`, an optional sign,
/// and digits.
pub open spec fn exponent_part(s: Seq<char>) -> bool {
    s.len() == 0 || ((s[0] == 'e' || s[0] == 'E') && {
        let d = s.drop_first();
        some_digits(d) || (d.len() > 0 && (d[0] == '+' || d[0] == '-') && some_digits(d.drop_first()))
    })
}

/// Whether `t` is a JSON number literal with a fraction part or an
/// exponent: an optional `-`, digits, then `.` and digits, or an exponent,
/// or both. serde_json reads such a text as a floating-point number, never
/// as an integer, a string or a container.
pub open spec fn float_literal(t: Seq<char>) -> bool {
    if t.len() > 0 && t[0] == '-' { unsigned_float_literal(t.drop_first()) } else { unsigned_float_literal(t) }
}

/// Whether `b` is digits, then a fraction part, an exponent part, or both.
pub open spec fn unsigned_float_literal(b: Seq<char>) -> bool {
    exists|i: int, j: int|
        0 < i <= j <= b.len() && some_digits(#[trigger] b.take(i)) && fraction_part(#[trigger] b.subrange(i, j))
            && exponent_part(b.skip(j)) && (i < j || j < b.len())
}

/// Every object inside `v` has strictly increasing keys, as the objects
/// that serde_json builds have (it keeps members in a sorted map); every
/// integer kept as negative is below zero, as serde_json keeps every
/// integer from zero up as non-negative; and every floating-point number is
/// kept as a number literal with a fraction part or an exponent, as
/// serde_json prints a floating-point number.
pub open spec fn json_wf(v: Json) -> bool
    decreases v,
{
    match v {
        Json::NegInt(n) => n < 0,
        Json::Float(t) => float_literal(t),
        Json::Array(a) => all_wf(a),
        Json::Object(e) => keys_sorted(e) && members_wf(e),
        _ => true,
    }
}

/// How deep arrays and objects nest in `v`: 0 for a value that is neither,
/// else one more than the deepest value inside.
pub open spec fn json_depth(v: Json) -> nat
    decreases v,
{
    match v {
        Json::Array(a) => 1 + depth_all(a),
        Json::Object(e) => 1 + depth_members(e),
        _ => 0,
    }
}

/// The deepest nesting among the values `a`.
pub open spec fn depth_all(a: Seq<Json>) -> nat
    decreases a,
{
    if a.len() == 0 {
        0
    } else {
        let d = json_depth(a[0]);
        let r = depth_all(a.subrange(1, a.len() as int));
        if d >= r { d } else { r }
    }
}

/// The deepest nesting among the member values of `e`.
pub open spec fn depth_members(e: Seq<(Seq<char>, Json)>) -> nat
    decreases e,
{
    if e.len() == 0 {
        0
    } else {
        proof { assert(decreases_to!(e => e[0])); }
        let d = json_depth(e[0].1);
        let r = depth_members(e.subrange(1, e.len() as int));
        if d >= r { d } else { r }
    }
}

/// A value inside an array nests no deeper than the array's values do.
pub proof fn lemma_depth_all(a: Seq<Json>, i: int)
    requires
        0 <= i < a.len(),
    ensures
        json_depth(a[i]) <= depth_all(a),
    decreases a.len(),
{
    if i > 0 {
        lemma_depth_all(a.subrange(1, a.len() as int), i - 1);
    }
}

/// `members_wf` member by member.
pub proof fn lemma_members_wf(e: Seq<(Seq<char>, Json)>, i: int)
    requires
        members_wf(e),
        0 <= i < e.len(),
    ensures
        json_wf(e[i].1),
    decreases e.len(),
{
    if i > 0 {
        lemma_members_wf(e.subrange(1, e.len() as int), i - 1);
    }
}

/// Every value of `a` is well formed.
pub open spec fn all_wf(a: Seq<Json>) -> bool
    decreases a,
{
    if a.len() == 0 {
        true
    } else {
        json_wf(a[0]) && all_wf(a.subrange(1, a.len() as int))
    }
}

/// Every member value of `e` is well formed.
pub open spec fn members_wf(e: Seq<(Seq<char>, Json)>) -> bool
    decreases e,
{
    if e.len() == 0 {
        true
    } else {
        proof { assert(decreases_to!(e => e[0])); }
        json_wf(e[0].1) && members_wf(e.subrange(1, e.len() as int))
    }
}

/// `all_wf` element by element.
pub proof fn lemma_all_wf(a: Seq<Json>, i: int)
    requires
        all_wf(a),
        0 <= i < a.len(),
    ensures
        json_wf(a[i]),
    decreases a.len(),
{
    if i > 0 {
        lemma_all_wf(a.subrange(1, a.len() as int), i - 1);
    }
}

/// What serde_json's stream deserializer finds at the start of a buffer.
#[derive(Debug)]
pub enum JsonPrefix {
    /// Nothing but whitespace.
    Empty,
    /// The start of a value that the buffer does not yet hold whole.
    Incomplete,
    /// Text that is no JSON; holds serde_json's description of the error.
    Invalid(String),
    /// A whole value, and the number of bytes that it and the whitespace
    /// before it take.
    Value(usize, JsonValue),
}

/// The model of a `JsonPrefix`.
pub enum JsonPrefixView {
    Empty,
    Incomplete,
    Invalid(Seq<char>),
    Value(usize, Json),
}

impl View for JsonPrefix {
    type V = JsonPrefixView;

    open spec fn view(&self) -> JsonPrefixView {
        match self {
            JsonPrefix::Empty => JsonPrefixView::Empty,
            JsonPrefix::Incomplete => JsonPrefixView::Incomplete,
            JsonPrefix::Invalid(e) => JsonPrefixView::Invalid(e@),
            JsonPrefix::Value(n, v) => JsonPrefixView::Value(*n, v@),
        }
    }
}

/// What serde_json's stream deserializer makes of the start of `bytes`.
pub uninterp spec fn json_prefix(bytes: Seq<u8>) -> JsonPrefixView;

/// The compact text that serde_json prints for `v`.
pub uninterp spec fn json_text(v: Json) -> Seq<char>;

/// serde_json's message for a value that does not deserialize as a `u64`.
pub uninterp spec fn json_u64_error(v: Json) -> Seq<char>;

/// serde_json's message for a value that does not deserialize as a `String`.
pub uninterp spec fn json_string_error(v: Json) -> Seq<char>;

/// serde_json's message for the text of a value that does not deserialize
/// as a map from strings to values.
pub uninterp spec fn json_map_error(v: Json) -> Seq<char>;

/// The text that Rust's `Debug` formatting prints for a list of strings.
pub uninterp spec fn debug_strings(v: Seq<Seq<char>>) -> Seq<char>;

/// The text that `String::from_utf8_lossy` makes of `bytes`.
pub uninterp spec fn utf8_lossy(bytes: Seq<u8>) -> Seq<char>;

/// What `serde_json::from_str::<Value>` makes of `text`: a value, or `None`
/// where the text is no JSON document.
pub uninterp spec fn json_parse(text: Seq<char>) -> Option<Json>;

/// The text that `Debug` formatting prints for serde_json's value of `v`.
pub uninterp spec fn json_debug(v: Json) -> Seq<char>;

#[verifier::external_type_specification]
#[verifier::external_body]
pub struct ExSerdeValue(Value);

/// Converts a serde_json value into a `JsonValue`, member for member.
/// Nothing is stated of the result: it is only called inside the bodies of
/// the trusted items below, whose contracts speak of the whole conversion.
#[verifier::external_body]
fn from_serde(v: &Value) -> JsonValue {
    match v {
        Value::Null => JsonValue::Null,
        Value::Bool(b) => JsonValue::Bool(*b),
        Value::Number(n) => JsonValue::Number(match (n.as_u64(), n.as_i64()) {
            (Some(u), _) => JsonNumber::PosInt(u),
            (None, Some(i)) => JsonNumber::NegInt(i),
            (None, None) => JsonNumber::Float(n.to_string()),
        }),
        Value::String(s) => JsonValue::Str(s.clone()),
        Value::Array(a) => JsonValue::Array(a.iter().map(from_serde).collect()),
        Value::Object(o) => JsonValue::Object(
            o.iter().map(|(k, x)| (k.clone(), from_serde(x))).collect(),
        ),
    }
}

/// Converts a `JsonValue` into a serde_json value, member for member.
/// Nothing is stated of the result: it is only called inside the bodies of
/// the trusted items below, whose contracts speak of the whole conversion.
#[verifier::external_body]
fn to_serde(v: &JsonValue) -> Value {
    match v {
        JsonValue::Null => Value::Null,
        JsonValue::Bool(b) => Value::Bool(*b),
        JsonValue::Number(JsonNumber::PosInt(u)) => Value::from(*u),
        JsonValue::Number(JsonNumber::NegInt(i)) => Value::from(*i),
        JsonValue::Number(JsonNumber::Float(t)) => serde_json::from_str(t).unwrap_or_default(),
        JsonValue::Str(s) => Value::String(s.clone()),
        JsonValue::Array(a) => Value::Array(a.iter().map(to_serde).collect()),
        JsonValue::Object(o) => Value::Object(
            o.iter().map(|(k, x)| (k.clone(), to_serde(x))).collect(),
        ),
    }
}

/// Runs serde_json's stream deserializer (`Deserializer::from_slice(..)
/// .into_iter::<Value>()`) for one step on `bytes`. The result is named by
/// `json_prefix`. Of a value it is stated: that the offset that
/// `StreamDeserializer::byte_offset` reports lies within the buffer and past
/// the value's first byte; that its objects come with strictly increasing
/// keys (serde_json keeps members in a `BTreeMap<String, Value>`); that its
/// floating-point numbers are kept as serde_json prints them, with a
/// fraction part or an exponent; and that it nests at most 127 deep (the
/// parser's recursion limit of 128).
#[verifier::external_body]
pub(crate) fn parse_json_prefix(bytes: &[u8]) -> (r: JsonPrefix)
    ensures
        r@ == json_prefix(bytes@),
        r matches JsonPrefix::Value(n, v) ==> 0 < n <= bytes@.len() && json_wf(v@) && json_depth(v@) <= 127,
{
    let mut stream = serde_json::Deserializer::from_slice(bytes).into_iter::<serde_json::Value>();
    match stream.next() {
        None => JsonPrefix::Empty,
        Some(Err(e)) if e.is_eof() => JsonPrefix::Incomplete,
        Some(Err(e)) => JsonPrefix::Invalid(e.to_string()),
        Some(Ok(v)) => JsonPrefix::Value(stream.byte_offset(), from_serde(&v)),
    }
}

/// The compact text that serde_json's `Display` for `Value` prints for `v`;
/// named by `json_text`.
#[verifier::external_body]
pub(crate) fn json_to_text(v: &JsonValue) -> (r: String)
    ensures
        r@ == json_text(v@),
{
    to_serde(v).to_string()
}

/// `serde_json::from_value::<u64>` on serde_json's value of `v`: succeeds
/// exactly on non-negative integers that fit in a `u64`; the message of its
/// error is named by `json_u64_error`. A floating-point number of `v` is
/// turned back into serde_json's value by reading its text, so `v` must keep
/// those as serde_json prints them (`json_wf`).
#[verifier::external_body]
pub(crate) fn json_as_u64(v: &JsonValue) -> (r: Result<u64, String>)
    requires
        json_wf(v@),
    ensures
        (r is Ok) == (v@ is PosInt),
        r matches Ok(n) ==> v@ == Json::PosInt(n),
        r matches Err(m) ==> m@ == json_u64_error(v@),
{
    serde_json::from_value::<u64>(to_serde(v)).map_err(|e| e.to_string())
}

/// `serde_json::from_value::<String>` on serde_json's value of `v`:
/// succeeds exactly on strings; the message of its error is named by
/// `json_string_error`. As for `json_as_u64`, `v` must keep its
/// floating-point numbers as serde_json prints them.
#[verifier::external_body]
pub(crate) fn json_as_string(v: &JsonValue) -> (r: Result<String, String>)
    requires
        json_wf(v@),
    ensures
        (r is Ok) == (v@ is Str),
        r matches Ok(s) ==> v@ == Json::Str(s@),
        r matches Err(m) ==> m@ == json_string_error(v@),
{
    serde_json::from_value::<String>(to_serde(v)).map_err(|e| e.to_string())
}

/// `serde_json::from_str::<HashMap<String, Value>>` on the text of `v`:
/// fails exactly where `v` is no object; returns the message of the error,
/// named by `json_map_error`. `v` must keep its floating-point numbers as
/// serde_json prints them, and nest at most 127 deep, within the recursion
/// limit of serde_json's parser.
#[verifier::external_body]
pub(crate) fn json_map_error_text(v: &JsonValue) -> (r: Option<String>)
    requires
        json_wf(v@),
        json_depth(v@) <= 127,
    ensures
        (r is None) == (v@ is Object),
        r matches Some(m) ==> m@ == json_map_error(v@),
{
    let text = to_serde(v).to_string();
    serde_json::from_str::<std::collections::HashMap<String, serde_json::Value>>(&text)
        .err()
        .map(|e| e.to_string())
}

/// The texts of a list of strings.
pub open spec fn strings_view(s: Seq<String>) -> Seq<Seq<char>> {
    Seq::new(s.len(), |i: int| s[i]@)
}

/// `format!("{:?}", keys)`: Rust's `Debug` text of a list of strings.
#[verifier::external_body]
pub(crate) fn debug_strings_text(keys: &Vec<String>) -> (r: String)
    ensures
        r@ == debug_strings(strings_view(keys@)),
{
    format!("{:?}", keys)
}

/// `String::from_utf8_lossy`; named by `utf8_lossy`. Bytes that are valid
/// UTF-8 are read as they are.
#[verifier::external_body]
pub(crate) fn utf8_lossy_text(bytes: &[u8]) -> (r: String)
    ensures
        r@ == utf8_lossy(bytes@),
        valid_utf8(bytes@) ==> r@ == decode_utf8(bytes@),
{
    String::from_utf8_lossy(bytes).to_string()
}

/// `serde_json::from_str::<Value>`; named by `json_parse`. Of a value it is
/// stated that its objects come with strictly increasing keys, as serde_json
/// keeps members in a `BTreeMap<String, Value>`, and that its floating-point
/// numbers are kept as serde_json prints them.
#[verifier::external_body]
pub(crate) fn json_from_str(text: &str) -> (r: Option<JsonValue>)
    ensures
        match r {
            Some(v) => json_parse(text@) == Some(v@) && json_wf(v@),
            None => json_parse(text@) is None,
        },
{
    serde_json::from_str::<Value>(text).ok().map(|v| from_serde(&v))
}

/// `format!("{:?}", v)` for serde_json's value of `v`; named by `json_debug`.
#[verifier::external_body]
pub(crate) fn json_debug_text(v: &JsonValue) -> (r: String)
    ensures
        r@ == json_debug(v@),
{
    format!("{:?}", to_serde(v))
}

} // verus!
