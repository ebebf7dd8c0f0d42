//! Service discovery: the describe request and the info answer, with the descriptions of
//! the programs a satellite offers.
//!
//! The info data section is the JSON form of the `Info` value: optional texts and lists are
//! written only when present (the satellite entry is always written, `null` when absent);
//! reading accepts missing optional fields and `null` for optional ones, and refuses values
//! of the wrong kind.
use vstd::prelude::*;

use crate::audio::{format_data, write_format, AudioFormat};
use crate::event::{is_wrong_type, str_is, wrong_type, ConversionError, Event, Eventable};
use crate::json::{
    insert_opt, is_string_array, lemma_strings_round_trip, map_get, opt_str_value, strings_of,
    strings_to_values, value_bool, value_string, value_u64, values_to_strings, JsonMap, JsonNumber,
    JsonValue,
};

verus! {

/// Server asks the satellite to describe its capabilities.
#[derive(Debug, Clone, Copy, PartialEq, Eq, Structural)]
pub struct Describe;

impl Eventable for Describe {
    const EVENT_TYPE: &'static str = "describe";

    fn into_event(self) -> (r: Event)
        ensures
            r.event_type@ == "describe"@,
            r.data@ == Map::<Seq<char>, JsonValue>::empty(),
            r.payload is None,
    {
        Event::new(Self::EVENT_TYPE)
    }

    fn from_event(event: Event) -> (r: Result<Describe, ConversionError>)
        ensures
            event.event_type@ == "describe"@ ==> r == Ok::<Describe, ConversionError>(Describe),
            event.event_type@ != "describe"@ ==> (r matches Err(e) && is_wrong_type(e, "describe"@, event.event_type)),
    {
        if !str_is(&event.event_type, Self::EVENT_TYPE) {
            return Err(wrong_type(Self::EVENT_TYPE, event.event_type));
        }
        Ok(Describe)
    }
}

/// The keys of the info objects, by length and by a character telling same-length keys
/// apart.
proof fn lemma_info_keys()
    ensures
        "asr"@.len() == 3,
        "mic"@.len() == 3,
        "snd"@.len() == 3,
        "tts"@.len() == 3,
        "url"@.len() == 3,
        "area"@.len() == 4,
        "name"@.len() == 4,
        "rate"@.len() == 4,
        "wake"@.len() == 4,
        "width"@.len() == 5,
        "handle"@.len() == 6,
        "intent"@.len() == 6,
        "models"@.len() == 6,
        "phrase"@.len() == 6,
        "voices"@.len() == 6,
        "has_vad"@.len() == 7,
        "version"@.len() == 7,
        "channels"@.len() == 8,
        "speakers"@.len() == 8,
        "installed"@.len() == 9,
        "languages"@.len() == 9,
        "satellite"@.len() == 9,
        "mic_format"@.len() == 10,
        "snd_format"@.len() == 10,
        "attribution"@.len() == 11,
        "description"@.len() == 11,
        "supports_trigger"@.len() == 16,
        "active_wake_words"@.len() == 17,
        "max_active_wake_words"@.len() == 21,
        "supports_handled_streaming"@.len() == 26,
        "supports_synthesize_streaming"@.len() == 29,
        "supports_transcript_streaming"@.len() == 29,
        "asr"@[0] != "mic"@[0],
        "asr"@[0] != "snd"@[0],
        "asr"@[0] != "tts"@[0],
        "asr"@[0] != "url"@[0],
        "mic"@[0] != "snd"@[0],
        "mic"@[0] != "tts"@[0],
        "mic"@[0] != "url"@[0],
        "snd"@[0] != "tts"@[0],
        "snd"@[0] != "url"@[0],
        "tts"@[0] != "url"@[0],
        "area"@[0] != "name"@[0],
        "area"@[0] != "rate"@[0],
        "area"@[0] != "wake"@[0],
        "name"@[0] != "rate"@[0],
        "name"@[0] != "wake"@[0],
        "rate"@[0] != "wake"@[0],
        "handle"@[0] != "intent"@[0],
        "handle"@[0] != "models"@[0],
        "handle"@[0] != "phrase"@[0],
        "handle"@[0] != "voices"@[0],
        "intent"@[0] != "models"@[0],
        "intent"@[0] != "phrase"@[0],
        "intent"@[0] != "voices"@[0],
        "models"@[0] != "phrase"@[0],
        "models"@[0] != "voices"@[0],
        "phrase"@[0] != "voices"@[0],
        "has_vad"@[0] != "version"@[0],
        "channels"@[0] != "speakers"@[0],
        "installed"@[0] != "languages"@[0],
        "installed"@[0] != "satellite"@[0],
        "languages"@[0] != "satellite"@[0],
        "mic_format"@[0] != "snd_format"@[0],
        "attribution"@[0] != "description"@[0],
        "supports_synthesize_streaming"@[9] != "supports_transcript_streaming"@[9],
{
    reveal_strlit("active_wake_words");
    reveal_strlit("area");
    reveal_strlit("asr");
    reveal_strlit("attribution");
    reveal_strlit("channels");
    reveal_strlit("description");
    reveal_strlit("handle");
    reveal_strlit("has_vad");
    reveal_strlit("installed");
    reveal_strlit("intent");
    reveal_strlit("languages");
    reveal_strlit("max_active_wake_words");
    reveal_strlit("mic");
    reveal_strlit("mic_format");
    reveal_strlit("models");
    reveal_strlit("name");
    reveal_strlit("phrase");
    reveal_strlit("rate");
    reveal_strlit("satellite");
    reveal_strlit("snd");
    reveal_strlit("snd_format");
    reveal_strlit("speakers");
    reveal_strlit("supports_handled_streaming");
    reveal_strlit("supports_synthesize_streaming");
    reveal_strlit("supports_transcript_streaming");
    reveal_strlit("supports_trigger");
    reveal_strlit("tts");
    reveal_strlit("url");
    reveal_strlit("version");
    reveal_strlit("voices");
    reveal_strlit("wake");
    reveal_strlit("width");
}

/// A value of the info section that is written as a JSON object.
pub trait JsonObject: Sized {
    /// Whether `m` is the object written for `x`.
    spec fn written(m: Map<Seq<char>, JsonValue>, x: Self) -> bool;

    /// Whether `m` can be read as a value.
    spec fn valid(m: Map<Seq<char>, JsonValue>) -> bool;

    /// Whether `x` is the value read from `m`.
    spec fn read(m: Map<Seq<char>, JsonValue>, x: Self) -> bool;

    /// Whether two values are the same, lists compared by their elements.
    spec fn same(a: Self, b: Self) -> bool;

    /// What is written can be read.
    proof fn lemma_written_valid(m: Map<Seq<char>, JsonValue>, x: Self)
        requires
            Self::written(m, x),
        ensures
            Self::valid(m),
    ;

    /// What is read back from what was written is the same value.
    proof fn lemma_written_read(m: Map<Seq<char>, JsonValue>, x: Self, y: Self)
        requires
            Self::written(m, x),
            Self::read(m, y),
        ensures
            Self::same(x, y),
    ;

    /// Write the value as an object.
    fn to_object(self) -> (r: JsonMap)
        ensures
            Self::written(r@, self),
    ;

    /// Read the value from an object; a value of the wrong kind gives `InvalidValue`.
    fn from_object(m: &JsonMap) -> (r: Result<Self, ConversionError>)
        ensures
            Self::valid(m@) ==> (r matches Ok(x) && Self::read(m@, x)),
            !Self::valid(m@) ==> (r matches Err(e) && e is InvalidValue),
    ;
}

/// The error for a field with a missing or wrong value.
fn invalid(field: &str) -> (r: ConversionError)
    ensures
        r matches ConversionError::InvalidValue(m) && m@ == "invalid or missing field `"@ + field@ + "`"@,
{
    let mut msg = String::new();
    msg.push_str("invalid or missing field `");
    msg.push_str(field);
    msg.push_str("`");
    ConversionError::InvalidValue(msg)
}

/// Whether every key of `m` is in `keys`.
pub open spec fn keys_within(m: Map<Seq<char>, JsonValue>, keys: Set<Seq<char>>) -> bool {
    forall|k: Seq<char>| #[trigger] m.contains_key(k) ==> keys.contains(k)
}

// ---------------------------------------------------------------------------
// Field kinds: what is written, what is accepted, what is read
// ---------------------------------------------------------------------------

/// A required text.
pub open spec fn str_ok(v: Option<JsonValue>) -> bool {
    v matches Some(JsonValue::Str(_))
}

/// An optional text: absent, `null` or a string.
pub open spec fn opt_str_ok(v: Option<JsonValue>) -> bool {
    match v {
        None | Some(JsonValue::Null) | Some(JsonValue::Str(_)) => true,
        _ => false,
    }
}

/// A flag that defaults to false: absent or a boolean.
pub open spec fn flag_ok(v: Option<JsonValue>) -> bool {
    match v {
        None | Some(JsonValue::Bool(_)) => true,
        _ => false,
    }
}

/// The value of a flag that defaults to false.
pub open spec fn flag_of(v: Option<JsonValue>) -> bool {
    match v {
        Some(JsonValue::Bool(b)) => b,
        _ => false,
    }
}

/// An optional boolean: absent, `null` or a boolean.
pub open spec fn opt_bool_ok(v: Option<JsonValue>) -> bool {
    match v {
        None | Some(JsonValue::Null) | Some(JsonValue::Bool(_)) => true,
        _ => false,
    }
}

/// The optional boolean read.
pub open spec fn opt_bool_of(v: Option<JsonValue>) -> Option<bool> {
    value_bool(v)
}

/// The JSON value written for an optional boolean.
pub open spec fn opt_bool_value(b: Option<bool>) -> Option<JsonValue> {
    match b {
        Some(x) => Some(JsonValue::Bool(x)),
        None => None,
    }
}

/// An optional `u32`: absent, `null` or an unsigned integer that fits.
pub open spec fn opt_u32_ok(v: Option<JsonValue>) -> bool {
    match v {
        None | Some(JsonValue::Null) => true,
        Some(JsonValue::Number(JsonNumber::PosInt(n))) => n <= u32::MAX,
        _ => false,
    }
}

/// The optional `u32` read.
pub open spec fn opt_u32_of(v: Option<JsonValue>) -> Option<u32> {
    match v {
        Some(JsonValue::Number(JsonNumber::PosInt(n))) => Some(n as u32),
        _ => None,
    }
}

/// The JSON value written for an optional `u32`.
pub open spec fn opt_u32_json(n: Option<u32>) -> Option<JsonValue> {
    match n {
        Some(x) => Some(JsonValue::Number(JsonNumber::PosInt(x as u64))),
        None => None,
    }
}

/// Whether every value of a list is a string.
pub open spec fn all_str(a: Seq<JsonValue>) -> bool {
    forall|i: int| 0 <= i < a.len() ==> #[trigger] a[i] is Str
}

/// A list of texts that defaults to empty: absent or an array of strings.
pub open spec fn str_list_ok(v: Option<JsonValue>) -> bool {
    match v {
        None => true,
        Some(JsonValue::Array(a)) => all_str(a@),
        _ => false,
    }
}

/// The list of texts read.
pub open spec fn str_list_of(v: Option<JsonValue>) -> Seq<String> {
    match v {
        Some(JsonValue::Array(a)) => strings_of(a@),
        _ => Seq::empty(),
    }
}

/// Whether `m` holds the list `xs` under `k`: an array of strings, absent when empty.
pub open spec fn list_written(m: Map<Seq<char>, JsonValue>, k: Seq<char>, xs: Seq<String>) -> bool {
    if xs.len() > 0 {
        m.contains_key(k) && is_string_array(m[k], xs)
    } else {
        !m.contains_key(k)
    }
}

/// An optional list of texts: absent, `null` or an array of strings.
pub open spec fn opt_str_list_ok(v: Option<JsonValue>) -> bool {
    match v {
        None | Some(JsonValue::Null) => true,
        Some(JsonValue::Array(a)) => all_str(a@),
        _ => false,
    }
}

/// Whether `xs` is the optional list of texts read from `v`.
pub open spec fn opt_str_list_read(v: Option<JsonValue>, xs: Option<Vec<String>>) -> bool {
    match v {
        Some(JsonValue::Array(a)) => xs matches Some(w) && w@ == strings_of(a@),
        _ => xs is None,
    }
}

/// Whether `m` holds the optional list `xs` under `k`, absent when there is none.
pub open spec fn opt_list_written(m: Map<Seq<char>, JsonValue>, k: Seq<char>, xs: Option<Vec<String>>) -> bool {
    match xs {
        Some(v) => m.contains_key(k) && is_string_array(m[k], v@),
        None => !m.contains_key(k),
    }
}

/// Whether two optional lists of texts have the same texts.
pub open spec fn same_opt_list(a: Option<Vec<String>>, b: Option<Vec<String>>) -> bool {
    match (a, b) {
        (Some(x), Some(y)) => x@ == y@,
        (None, None) => true,
        _ => false,
    }
}

/// Whether `m` holds under `k` the object written for `x`.
pub open spec fn obj_written<T: JsonObject>(m: Map<Seq<char>, JsonValue>, k: Seq<char>, x: T) -> bool {
    m.contains_key(k) && (m[k] matches JsonValue::Object(o) && T::written(o@, x))
}

/// An object with a default: absent, or an object that can be read.
pub open spec fn default_obj_ok<T: JsonObject>(v: Option<JsonValue>) -> bool {
    match v {
        None => true,
        Some(JsonValue::Object(o)) => T::valid(o@),
        _ => false,
    }
}

/// Whether `a` is the attribution read from `v`: the default (empty texts) when absent.
pub open spec fn attribution_read(v: Option<JsonValue>, a: Attribution) -> bool {
    match v {
        Some(JsonValue::Object(o)) => Attribution::read(o@, a),
        _ => a.name@ == Seq::<char>::empty() && a.url@ == Seq::<char>::empty(),
    }
}

/// Whether every value of a list is an object written for the matching element of `xs`.
pub open spec fn objects_written<T: JsonObject>(a: Seq<JsonValue>, xs: Seq<T>) -> bool {
    &&& a.len() == xs.len()
    &&& forall|i: int| 0 <= i < a.len() ==> (#[trigger] a[i] matches JsonValue::Object(o) && T::written(o@, xs[i]))
}

/// Whether every value of a list is an object that can be read.
pub open spec fn objects_valid<T: JsonObject>(a: Seq<JsonValue>) -> bool {
    forall|i: int| 0 <= i < a.len() ==> (#[trigger] a[i] matches JsonValue::Object(o) && T::valid(o@))
}

/// Whether `xs` are the values read from the objects of a list, in order.
pub open spec fn objects_read<T: JsonObject>(a: Seq<JsonValue>, xs: Seq<T>) -> bool {
    &&& a.len() == xs.len()
    &&& forall|i: int| 0 <= i < a.len() ==> (#[trigger] a[i] matches JsonValue::Object(o) && T::read(o@, xs[i]))
}

/// Whether two lists hold the same values.
pub open spec fn objects_same<T: JsonObject>(a: Seq<T>, b: Seq<T>) -> bool {
    a.len() == b.len() && forall|i: int| 0 <= i < a.len() ==> T::same(#[trigger] a[i], b[i])
}

/// Whether `m` holds under `k` the array of objects for `xs`, absent when empty.
pub open spec fn obj_list_written<T: JsonObject>(m: Map<Seq<char>, JsonValue>, k: Seq<char>, xs: Seq<T>) -> bool {
    if xs.len() > 0 {
        m.contains_key(k) && (m[k] matches JsonValue::Array(a) && objects_written::<T>(a@, xs))
    } else {
        !m.contains_key(k)
    }
}

/// A list of objects that defaults to empty: absent or an array of readable objects.
pub open spec fn obj_list_ok<T: JsonObject>(v: Option<JsonValue>) -> bool {
    match v {
        None => true,
        Some(JsonValue::Array(a)) => objects_valid::<T>(a@),
        _ => false,
    }
}

/// Whether `xs` is the list of objects read from `v`.
pub open spec fn obj_list_read<T: JsonObject>(v: Option<JsonValue>, xs: Seq<T>) -> bool {
    match v {
        Some(JsonValue::Array(a)) => objects_read::<T>(a@, xs),
        _ => xs.len() == 0,
    }
}

/// Whether `m` holds under `k` the array of objects for an optional list, absent when
/// there is none.
pub open spec fn opt_obj_list_written<T: JsonObject>(m: Map<Seq<char>, JsonValue>, k: Seq<char>, xs: Option<Vec<T>>) -> bool {
    match xs {
        Some(v) => m.contains_key(k) && (m[k] matches JsonValue::Array(a) && objects_written::<T>(a@, v@)),
        None => !m.contains_key(k),
    }
}

/// An optional list of objects: absent, `null` or an array of readable objects.
pub open spec fn opt_obj_list_ok<T: JsonObject>(v: Option<JsonValue>) -> bool {
    match v {
        None | Some(JsonValue::Null) => true,
        Some(JsonValue::Array(a)) => objects_valid::<T>(a@),
        _ => false,
    }
}

/// Whether `xs` is the optional list of objects read from `v`.
pub open spec fn opt_obj_list_read<T: JsonObject>(v: Option<JsonValue>, xs: Option<Vec<T>>) -> bool {
    match v {
        Some(JsonValue::Array(a)) => xs matches Some(w) && objects_read::<T>(a@, w@),
        _ => xs is None,
    }
}

/// Whether two optional lists hold the same values.
pub open spec fn same_opt_objects<T: JsonObject>(a: Option<Vec<T>>, b: Option<Vec<T>>) -> bool {
    match (a, b) {
        (Some(x), Some(y)) => objects_same::<T>(x@, y@),
        (None, None) => true,
        _ => false,
    }
}

/// Whether `m` holds under `k` the object for an optional value, `null` when there is none.
pub open spec fn opt_obj_always_written<T: JsonObject>(m: Map<Seq<char>, JsonValue>, k: Seq<char>, x: Option<T>) -> bool {
    match x {
        Some(v) => obj_written::<T>(m, k, v),
        None => map_get(m, k) == Some(JsonValue::Null),
    }
}

/// An optional object: absent, `null` or a readable object.
pub open spec fn opt_obj_ok<T: JsonObject>(v: Option<JsonValue>) -> bool {
    match v {
        None | Some(JsonValue::Null) => true,
        Some(JsonValue::Object(o)) => T::valid(o@),
        _ => false,
    }
}

/// Whether `x` is the optional object read from `v`.
pub open spec fn opt_obj_read<T: JsonObject>(v: Option<JsonValue>, x: Option<T>) -> bool {
    match v {
        Some(JsonValue::Object(o)) => x matches Some(y) && T::read(o@, y),
        _ => x is None,
    }
}

/// Whether two optional values are the same.
pub open spec fn same_opt_object<T: JsonObject>(a: Option<T>, b: Option<T>) -> bool {
    match (a, b) {
        (Some(x), Some(y)) => T::same(x, y),
        (None, None) => true,
        _ => false,
    }
}

/// Whether `m` holds under `k` the object written for an audio format.
pub open spec fn format_written(m: Map<Seq<char>, JsonValue>, k: Seq<char>, f: AudioFormat) -> bool {
    m.contains_key(k) && (m[k] matches JsonValue::Object(o) && o@ == format_data(f, None))
}

/// A required audio format: an object with `rate`, `width` and `channels`, each an unsigned
/// integer in range.
pub open spec fn format_ok(v: Option<JsonValue>) -> bool {
    match v {
        Some(JsonValue::Object(o)) => {
            &&& value_u64(map_get(o@, "rate"@)) matches Some(r) && r <= u32::MAX
            &&& value_u64(map_get(o@, "width"@)) matches Some(w) && w <= u16::MAX
            &&& value_u64(map_get(o@, "channels"@)) matches Some(c) && c <= u16::MAX
        },
        _ => false,
    }
}

/// Whether `f` is the audio format read from `v`.
pub open spec fn format_read(v: Option<JsonValue>, f: AudioFormat) -> bool {
    v matches Some(JsonValue::Object(o)) && Some(f.rate as u64) == value_u64(map_get(o@, "rate"@)) && Some(
        f.width as u64,
    ) == value_u64(map_get(o@, "width"@)) && Some(f.channels as u64) == value_u64(map_get(o@, "channels"@))
}

// ---------------------------------------------------------------------------
// Lists: round trips
// ---------------------------------------------------------------------------

/// What is written as a list of objects can be read.
proof fn lemma_objects_written_valid<T: JsonObject>(a: Seq<JsonValue>, xs: Seq<T>)
    requires
        objects_written::<T>(a, xs),
    ensures
        objects_valid::<T>(a),
{
    assert forall|i: int| 0 <= i < a.len() implies (#[trigger] a[i] matches JsonValue::Object(o) && T::valid(o@)) by {
        T::lemma_written_valid(a[i]->Object_0@, xs[i]);
    }
}

/// A list of objects read back from what was written holds the same values.
proof fn lemma_objects_written_read<T: JsonObject>(a: Seq<JsonValue>, xs: Seq<T>, ys: Seq<T>)
    requires
        objects_written::<T>(a, xs),
        objects_read::<T>(a, ys),
    ensures
        objects_same::<T>(xs, ys),
{
    assert forall|i: int| 0 <= i < xs.len() implies T::same(#[trigger] xs[i], ys[i]) by {
        assert(a[i] matches JsonValue::Object(o) && T::written(o@, xs[i]));
        T::lemma_written_read(a[i]->Object_0@, xs[i], ys[i]);
    }
}

proof fn lemma_obj_list_written_valid<T: JsonObject>(m: Map<Seq<char>, JsonValue>, k: Seq<char>, xs: Seq<T>)
    requires
        obj_list_written::<T>(m, k, xs),
    ensures
        obj_list_ok::<T>(map_get(m, k)),
{
    if xs.len() > 0 {
        lemma_objects_written_valid::<T>(m[k]->Array_0@, xs);
    }
}

proof fn lemma_obj_list_written_read<T: JsonObject>(m: Map<Seq<char>, JsonValue>, k: Seq<char>, xs: Seq<T>, ys: Seq<T>)
    requires
        obj_list_written::<T>(m, k, xs),
        obj_list_read::<T>(map_get(m, k), ys),
    ensures
        objects_same::<T>(xs, ys),
{
    if xs.len() > 0 {
        lemma_objects_written_read::<T>(m[k]->Array_0@, xs, ys);
    }
}

proof fn lemma_opt_obj_list_written_valid<T: JsonObject>(m: Map<Seq<char>, JsonValue>, k: Seq<char>, xs: Option<Vec<T>>)
    requires
        opt_obj_list_written::<T>(m, k, xs),
    ensures
        opt_obj_list_ok::<T>(map_get(m, k)),
{
    if let Some(v) = xs {
        lemma_objects_written_valid::<T>(m[k]->Array_0@, v@);
    }
}

proof fn lemma_opt_obj_list_written_read<T: JsonObject>(
    m: Map<Seq<char>, JsonValue>,
    k: Seq<char>,
    xs: Option<Vec<T>>,
    ys: Option<Vec<T>>,
)
    requires
        opt_obj_list_written::<T>(m, k, xs),
        opt_obj_list_read::<T>(map_get(m, k), ys),
    ensures
        same_opt_objects::<T>(xs, ys),
{
    if let Some(v) = xs {
        lemma_objects_written_read::<T>(m[k]->Array_0@, v@, ys->Some_0@);
    }
}

proof fn lemma_opt_obj_written_valid<T: JsonObject>(m: Map<Seq<char>, JsonValue>, k: Seq<char>, x: Option<T>)
    requires
        opt_obj_always_written::<T>(m, k, x),
    ensures
        opt_obj_ok::<T>(map_get(m, k)),
{
    if let Some(v) = x {
        T::lemma_written_valid(m[k]->Object_0@, v);
    }
}

proof fn lemma_opt_obj_written_read<T: JsonObject>(m: Map<Seq<char>, JsonValue>, k: Seq<char>, x: Option<T>, y: Option<T>)
    requires
        opt_obj_always_written::<T>(m, k, x),
        opt_obj_read::<T>(map_get(m, k), y),
    ensures
        same_opt_object::<T>(x, y),
{
    if let Some(v) = x {
        T::lemma_written_read(m[k]->Object_0@, v, y->Some_0);
    }
}

proof fn lemma_list_written_valid(m: Map<Seq<char>, JsonValue>, k: Seq<char>, xs: Seq<String>)
    requires
        list_written(m, k, xs),
    ensures
        str_list_ok(map_get(m, k)),
{
    if xs.len() > 0 {
        let a = m[k]->Array_0@;
        assert forall|i: int| 0 <= i < a.len() implies #[trigger] a[i] is Str by {}
    }
}

proof fn lemma_list_written_read(m: Map<Seq<char>, JsonValue>, k: Seq<char>, xs: Seq<String>, ys: Seq<String>)
    requires
        list_written(m, k, xs),
        ys == str_list_of(map_get(m, k)),
    ensures
        xs == ys,
{
    lemma_strings_round_trip(xs);
    if xs.len() == 0 {
        assert(xs =~= ys);
    }
}

proof fn lemma_opt_list_written_valid(m: Map<Seq<char>, JsonValue>, k: Seq<char>, xs: Option<Vec<String>>)
    requires
        opt_list_written(m, k, xs),
    ensures
        opt_str_list_ok(map_get(m, k)),
{
    if let Some(v) = xs {
        let a = m[k]->Array_0@;
        assert forall|i: int| 0 <= i < a.len() implies #[trigger] a[i] is Str by {}
    }
}

proof fn lemma_opt_list_written_read(m: Map<Seq<char>, JsonValue>, k: Seq<char>, xs: Option<Vec<String>>, ys: Option<Vec<String>>)
    requires
        opt_list_written(m, k, xs),
        opt_str_list_read(map_get(m, k), ys),
    ensures
        same_opt_list(xs, ys),
{
    if let Some(v) = xs {
        lemma_strings_round_trip(v@);
    }
}

// ---------------------------------------------------------------------------
// Writing fields
// ---------------------------------------------------------------------------

fn insert_opt_str(m: &mut JsonMap, key: &str, v: Option<String>)
    ensures
        final(m)@ == insert_opt(old(m)@, key@, opt_str_value(v)),
{
    match v {
        Some(s) => {
            m.insert(key.to_owned(), JsonValue::Str(s));
        },
        None => {},
    }
}

fn insert_opt_bool(m: &mut JsonMap, key: &str, v: Option<bool>)
    ensures
        final(m)@ == insert_opt(old(m)@, key@, opt_bool_value(v)),
{
    match v {
        Some(b) => {
            m.insert(key.to_owned(), JsonValue::Bool(b));
        },
        None => {},
    }
}

fn insert_opt_u32(m: &mut JsonMap, key: &str, v: Option<u32>)
    ensures
        final(m)@ == insert_opt(old(m)@, key@, opt_u32_json(v)),
{
    match v {
        Some(n) => {
            m.insert(key.to_owned(), JsonValue::Number(JsonNumber::PosInt(n as u64)));
        },
        None => {},
    }
}

fn insert_str_list(m: &mut JsonMap, key: &str, v: Vec<String>)
    ensures
        v@.len() > 0 ==> final(m)@ == old(m)@.insert(key@, final(m)@[key@]) && is_string_array(final(m)@[key@], v@),
        v@.len() == 0 ==> final(m)@ == old(m)@,
{
    if v.len() > 0 {
        m.insert(key.to_owned(), JsonValue::Array(strings_to_values(&v)));
    }
}

fn insert_opt_str_list(m: &mut JsonMap, key: &str, v: Option<Vec<String>>)
    ensures
        v matches Some(x) ==> final(m)@ == old(m)@.insert(key@, final(m)@[key@]) && is_string_array(final(m)@[key@], x@),
        v is None ==> final(m)@ == old(m)@,
{
    match v {
        Some(x) => {
            m.insert(key.to_owned(), JsonValue::Array(strings_to_values(&x)));
        },
        None => {},
    }
}

/// The objects for a list of values, in order.
fn write_objects<T: JsonObject>(xs: Vec<T>) -> (r: Vec<JsonValue>)
    ensures
        objects_written::<T>(r@, xs@),
{
    let ghost all = xs@;
    let mut xs = xs;
    let mut out: Vec<JsonValue> = Vec::new();
    while xs.len() > 0
        invariant
            out@.len() + xs@.len() == all.len(),
            xs@ == all.subrange(out@.len() as int, all.len() as int),
            forall|i: int| 0 <= i < out@.len() ==> (#[trigger] out@[i] matches JsonValue::Object(o) && T::written(o@, all[i])),
        decreases xs@.len(),
    {
        let x = xs.remove(0);
        let ghost k = out@.len();
        assert(x == all[k as int]);
        out.push(JsonValue::Object(x.to_object()));
        assert(xs@ =~= all.subrange(out@.len() as int, all.len() as int));
    }
    out
}

fn insert_obj_list<T: JsonObject>(m: &mut JsonMap, key: &str, v: Vec<T>)
    ensures
        v@.len() > 0 ==> final(m)@ == old(m)@.insert(key@, final(m)@[key@]) && (final(m)@[key@] matches JsonValue::Array(a)
            && objects_written::<T>(a@, v@)),
        v@.len() == 0 ==> final(m)@ == old(m)@,
{
    if v.len() > 0 {
        m.insert(key.to_owned(), JsonValue::Array(write_objects(v)));
    }
}

fn insert_opt_obj_list<T: JsonObject>(m: &mut JsonMap, key: &str, v: Option<Vec<T>>)
    ensures
        v matches Some(x) ==> final(m)@ == old(m)@.insert(key@, final(m)@[key@]) && (final(m)@[key@] matches JsonValue::Array(a)
            && objects_written::<T>(a@, x@)),
        v is None ==> final(m)@ == old(m)@,
{
    match v {
        Some(x) => {
            m.insert(key.to_owned(), JsonValue::Array(write_objects(x)));
        },
        None => {},
    }
}

fn insert_opt_obj_always<T: JsonObject>(m: &mut JsonMap, key: &str, v: Option<T>)
    ensures
        final(m)@ == old(m)@.insert(key@, final(m)@[key@]),
        match v {
            Some(x) => final(m)@[key@] matches JsonValue::Object(o) && T::written(o@, x),
            None => final(m)@[key@] == JsonValue::Null,
        },
{
    match v {
        Some(x) => {
            m.insert(key.to_owned(), JsonValue::Object(x.to_object()));
        },
        None => {
            m.insert(key.to_owned(), JsonValue::Null);
        },
    }
}

// ---------------------------------------------------------------------------
// Reading fields
// ---------------------------------------------------------------------------

fn read_req_str(m: &JsonMap, key: &str) -> (r: Result<String, ConversionError>)
    ensures
        str_ok(map_get(m@, key@)) ==> (r matches Ok(s) && Some(s) == value_string(map_get(m@, key@))),
        !str_ok(map_get(m@, key@)) ==> (r matches Err(e) && e is InvalidValue),
{
    match m.get(key) {
        Some(JsonValue::Str(s)) => Ok(s.clone()),
        _ => Err(invalid(key)),
    }
}

fn read_opt_str(m: &JsonMap, key: &str) -> (r: Result<Option<String>, ConversionError>)
    ensures
        opt_str_ok(map_get(m@, key@)) ==> r == Ok::<Option<String>, ConversionError>(value_string(map_get(m@, key@))),
        !opt_str_ok(map_get(m@, key@)) ==> (r matches Err(e) && e is InvalidValue),
{
    match m.get(key) {
        None => Ok(None),
        Some(JsonValue::Null) => Ok(None),
        Some(JsonValue::Str(s)) => Ok(Some(s.clone())),
        _ => Err(invalid(key)),
    }
}

fn read_flag(m: &JsonMap, key: &str) -> (r: Result<bool, ConversionError>)
    ensures
        flag_ok(map_get(m@, key@)) ==> r == Ok::<bool, ConversionError>(flag_of(map_get(m@, key@))),
        !flag_ok(map_get(m@, key@)) ==> (r matches Err(e) && e is InvalidValue),
{
    match m.get(key) {
        None => Ok(false),
        Some(JsonValue::Bool(b)) => Ok(*b),
        _ => Err(invalid(key)),
    }
}

fn read_opt_bool(m: &JsonMap, key: &str) -> (r: Result<Option<bool>, ConversionError>)
    ensures
        opt_bool_ok(map_get(m@, key@)) ==> r == Ok::<Option<bool>, ConversionError>(opt_bool_of(map_get(m@, key@))),
        !opt_bool_ok(map_get(m@, key@)) ==> (r matches Err(e) && e is InvalidValue),
{
    match m.get(key) {
        None => Ok(None),
        Some(JsonValue::Null) => Ok(None),
        Some(JsonValue::Bool(b)) => Ok(Some(*b)),
        _ => Err(invalid(key)),
    }
}

fn read_opt_u32(m: &JsonMap, key: &str) -> (r: Result<Option<u32>, ConversionError>)
    ensures
        opt_u32_ok(map_get(m@, key@)) ==> r == Ok::<Option<u32>, ConversionError>(opt_u32_of(map_get(m@, key@))),
        !opt_u32_ok(map_get(m@, key@)) ==> (r matches Err(e) && e is InvalidValue),
{
    match m.get(key) {
        None => Ok(None),
        Some(JsonValue::Null) => Ok(None),
        Some(JsonValue::Number(JsonNumber::PosInt(n))) => {
            if *n <= 0xFFFF_FFFFu64 {
                Ok(Some(*n as u32))
            } else {
                Err(invalid(key))
            }
        },
        _ => Err(invalid(key)),
    }
}

/// Whether every value of a list is a string.
fn all_strings(a: &Vec<JsonValue>) -> (r: bool)
    ensures
        r == all_str(a@),
{
    let mut i: usize = 0;
    while i < a.len()
        invariant
            i <= a@.len(),
            forall|j: int| 0 <= j < i ==> #[trigger] a@[j] is Str,
        decreases a@.len() - i,
    {
        match &a[i] {
            JsonValue::Str(_) => {},
            _ => {
                return false;
            },
        }
        i = i + 1;
    }
    true
}

fn read_str_list(m: &JsonMap, key: &str) -> (r: Result<Vec<String>, ConversionError>)
    ensures
        str_list_ok(map_get(m@, key@)) ==> (r matches Ok(v) && v@ == str_list_of(map_get(m@, key@))),
        !str_list_ok(map_get(m@, key@)) ==> (r matches Err(e) && e is InvalidValue),
{
    match m.get(key) {
        None => Ok(Vec::new()),
        Some(JsonValue::Array(a)) => {
            if all_strings(a) {
                Ok(values_to_strings(a))
            } else {
                Err(invalid(key))
            }
        },
        _ => Err(invalid(key)),
    }
}

fn read_opt_str_list(m: &JsonMap, key: &str) -> (r: Result<Option<Vec<String>>, ConversionError>)
    ensures
        opt_str_list_ok(map_get(m@, key@)) ==> (r matches Ok(v) && opt_str_list_read(map_get(m@, key@), v)),
        !opt_str_list_ok(map_get(m@, key@)) ==> (r matches Err(e) && e is InvalidValue),
{
    match m.get(key) {
        None => Ok(None),
        Some(JsonValue::Null) => Ok(None),
        Some(JsonValue::Array(a)) => {
            if all_strings(a) {
                Ok(Some(values_to_strings(a)))
            } else {
                Err(invalid(key))
            }
        },
        _ => Err(invalid(key)),
    }
}

/// The values of a list of objects, or an error unless every element is a readable object.
fn read_objects<T: JsonObject>(a: &Vec<JsonValue>, key: &str) -> (r: Result<Vec<T>, ConversionError>)
    ensures
        objects_valid::<T>(a@) ==> (r matches Ok(xs) && objects_read::<T>(a@, xs@)),
        !objects_valid::<T>(a@) ==> (r matches Err(e) && e is InvalidValue),
{
    let mut out: Vec<T> = Vec::new();
    let mut i: usize = 0;
    while i < a.len()
        invariant
            i <= a@.len(),
            out@.len() == i,
            forall|j: int| 0 <= j < i ==> (#[trigger] a@[j] matches JsonValue::Object(o) && T::valid(o@) && T::read(o@, out@[j])),
        decreases a@.len() - i,
    {
        match &a[i] {
            JsonValue::Object(o) => {
                match T::from_object(o) {
                    Ok(x) => {
                        out.push(x);
                    },
                    Err(e) => {
                        return Err(e);
                    },
                }
            },
            _ => {
                return Err(invalid(key));
            },
        }
        i = i + 1;
    }
    Ok(out)
}

fn read_obj_list<T: JsonObject>(m: &JsonMap, key: &str) -> (r: Result<Vec<T>, ConversionError>)
    ensures
        obj_list_ok::<T>(map_get(m@, key@)) ==> (r matches Ok(xs) && obj_list_read::<T>(map_get(m@, key@), xs@)),
        !obj_list_ok::<T>(map_get(m@, key@)) ==> (r matches Err(e) && e is InvalidValue),
{
    match m.get(key) {
        None => Ok(Vec::new()),
        Some(JsonValue::Array(a)) => read_objects(a, key),
        _ => Err(invalid(key)),
    }
}

fn read_opt_obj_list<T: JsonObject>(m: &JsonMap, key: &str) -> (r: Result<Option<Vec<T>>, ConversionError>)
    ensures
        opt_obj_list_ok::<T>(map_get(m@, key@)) ==> (r matches Ok(xs) && opt_obj_list_read::<T>(map_get(m@, key@), xs)),
        !opt_obj_list_ok::<T>(map_get(m@, key@)) ==> (r matches Err(e) && e is InvalidValue),
{
    match m.get(key) {
        None => Ok(None),
        Some(JsonValue::Null) => Ok(None),
        Some(JsonValue::Array(a)) => {
            let xs = read_objects(a, key)?;
            Ok(Some(xs))
        },
        _ => Err(invalid(key)),
    }
}

fn read_opt_obj<T: JsonObject>(m: &JsonMap, key: &str) -> (r: Result<Option<T>, ConversionError>)
    ensures
        opt_obj_ok::<T>(map_get(m@, key@)) ==> (r matches Ok(x) && opt_obj_read::<T>(map_get(m@, key@), x)),
        !opt_obj_ok::<T>(map_get(m@, key@)) ==> (r matches Err(e) && e is InvalidValue),
{
    match m.get(key) {
        None => Ok(None),
        Some(JsonValue::Null) => Ok(None),
        Some(JsonValue::Object(o)) => {
            let x = T::from_object(o)?;
            Ok(Some(x))
        },
        _ => Err(invalid(key)),
    }
}

fn read_attribution(m: &JsonMap, key: &str) -> (r: Result<Attribution, ConversionError>)
    ensures
        default_obj_ok::<Attribution>(map_get(m@, key@)) ==> (r matches Ok(a) && attribution_read(map_get(m@, key@), a)),
        !default_obj_ok::<Attribution>(map_get(m@, key@)) ==> (r matches Err(e) && e is InvalidValue),
{
    match m.get(key) {
        None => Ok(Attribution { name: String::new(), url: String::new() }),
        Some(JsonValue::Object(o)) => Attribution::from_object(o),
        _ => Err(invalid(key)),
    }
}

fn read_strict_format(m: &JsonMap, key: &str) -> (r: Result<AudioFormat, ConversionError>)
    ensures
        format_ok(map_get(m@, key@)) ==> (r matches Ok(f) && format_read(map_get(m@, key@), f)),
        !format_ok(map_get(m@, key@)) ==> (r matches Err(e) && e is InvalidValue),
{
    match m.get(key) {
        Some(JsonValue::Object(o)) => {
            let rate = match o.get("rate") {
                Some(JsonValue::Number(JsonNumber::PosInt(n))) => *n,
                _ => return Err(invalid("rate")),
            };
            let width = match o.get("width") {
                Some(JsonValue::Number(JsonNumber::PosInt(n))) => *n,
                _ => return Err(invalid("width")),
            };
            let channels = match o.get("channels") {
                Some(JsonValue::Number(JsonNumber::PosInt(n))) => *n,
                _ => return Err(invalid("channels")),
            };
            if rate > 0xFFFF_FFFFu64 || width > 0xFFFFu64 || channels > 0xFFFFu64 {
                return Err(invalid(key));
            }
            Ok(AudioFormat { rate: rate as u32, width: width as u16, channels: channels as u16 })
        },
        _ => Err(invalid(key)),
    }
}

/// Attribution metadata for an artifact (required by Home Assistant's Wyoming library).
#[derive(Debug, Clone, PartialEq)]
pub struct Attribution {
    pub name: String,
    pub url: String,
}

impl JsonObject for Attribution {
    open spec fn written(m: Map<Seq<char>, JsonValue>, x: Attribution) -> bool {
        &&& keys_within(m, set!["name"@, "url"@])
        &&& map_get(m, "name"@) == Some(JsonValue::Str(x.name))
        &&& map_get(m, "url"@) == Some(JsonValue::Str(x.url))
    }

    open spec fn valid(m: Map<Seq<char>, JsonValue>) -> bool {
        &&& str_ok(map_get(m, "name"@))
        &&& str_ok(map_get(m, "url"@))
    }

    open spec fn read(m: Map<Seq<char>, JsonValue>, x: Attribution) -> bool {
        &&& Some(x.name) == value_string(map_get(m, "name"@))
        &&& Some(x.url) == value_string(map_get(m, "url"@))
    }

    open spec fn same(a: Attribution, b: Attribution) -> bool {
        &&& a.name == b.name
        &&& a.url == b.url
    }

    proof fn lemma_written_valid(m: Map<Seq<char>, JsonValue>, x: Attribution) {
        lemma_info_keys();

    }

    proof fn lemma_written_read(m: Map<Seq<char>, JsonValue>, x: Attribution, y: Attribution) {
        lemma_info_keys();

    }

    fn to_object(self) -> (r: JsonMap) {
        proof {
            lemma_info_keys();
        }
        let mut m = JsonMap::new();
        m.insert("name".to_owned(), JsonValue::Str(self.name));
        m.insert("url".to_owned(), JsonValue::Str(self.url));
        assert forall|k: Seq<char>| #[trigger] m@.contains_key(k) implies set!["name"@, "url"@].contains(k) by {}
        m
    }

    fn from_object(m: &JsonMap) -> (r: Result<Attribution, ConversionError>) {
        let name = read_req_str(m, "name")?;
        let url = read_req_str(m, "url")?;
        Ok(Attribution { name, url })
    }
}

/// A speaker of a TTS voice.
#[derive(Debug, Clone, PartialEq)]
pub struct TtsVoiceSpeaker {
    pub name: String,
}

impl JsonObject for TtsVoiceSpeaker {
    open spec fn written(m: Map<Seq<char>, JsonValue>, x: TtsVoiceSpeaker) -> bool {
        &&& keys_within(m, set!["name"@])
        &&& map_get(m, "name"@) == Some(JsonValue::Str(x.name))
    }

    open spec fn valid(m: Map<Seq<char>, JsonValue>) -> bool {
        &&& str_ok(map_get(m, "name"@))
    }

    open spec fn read(m: Map<Seq<char>, JsonValue>, x: TtsVoiceSpeaker) -> bool {
        &&& Some(x.name) == value_string(map_get(m, "name"@))
    }

    open spec fn same(a: TtsVoiceSpeaker, b: TtsVoiceSpeaker) -> bool {
        &&& a.name == b.name
    }

    proof fn lemma_written_valid(m: Map<Seq<char>, JsonValue>, x: TtsVoiceSpeaker) {
        lemma_info_keys();

    }

    proof fn lemma_written_read(m: Map<Seq<char>, JsonValue>, x: TtsVoiceSpeaker, y: TtsVoiceSpeaker) {
        lemma_info_keys();

    }

    fn to_object(self) -> (r: JsonMap) {
        proof {
            lemma_info_keys();
        }
        let mut m = JsonMap::new();
        m.insert("name".to_owned(), JsonValue::Str(self.name));
        assert forall|k: Seq<char>| #[trigger] m@.contains_key(k) implies set!["name"@].contains(k) by {}
        m
    }

    fn from_object(m: &JsonMap) -> (r: Result<TtsVoiceSpeaker, ConversionError>) {
        let name = read_req_str(m, "name")?;
        Ok(TtsVoiceSpeaker { name })
    }
}

/// Information about this satellite.
#[derive(Debug, Clone, PartialEq)]
pub struct SatelliteInfo {
    pub name: String,
    pub attribution: Attribution,
    pub installed: bool,
    pub area: Option<String>,
    pub description: Option<String>,
    pub version: Option<String>,
    pub has_vad: Option<bool>,
    pub active_wake_words: Option<Vec<String>>,
    pub max_active_wake_words: Option<u32>,
    pub supports_trigger: Option<bool>,
}

impl JsonObject for SatelliteInfo {
    open spec fn written(m: Map<Seq<char>, JsonValue>, x: SatelliteInfo) -> bool {
        &&& keys_within(m, set!["name"@, "attribution"@, "installed"@, "area"@, "description"@, "version"@, "has_vad"@, "active_wake_words"@, "max_active_wake_words"@, "supports_trigger"@])
        &&& map_get(m, "name"@) == Some(JsonValue::Str(x.name))
        &&& obj_written::<Attribution>(m, "attribution"@, x.attribution)
        &&& map_get(m, "installed"@) == Some(JsonValue::Bool(x.installed))
        &&& map_get(m, "area"@) == opt_str_value(x.area)
        &&& map_get(m, "description"@) == opt_str_value(x.description)
        &&& map_get(m, "version"@) == opt_str_value(x.version)
        &&& map_get(m, "has_vad"@) == opt_bool_value(x.has_vad)
        &&& opt_list_written(m, "active_wake_words"@, x.active_wake_words)
        &&& map_get(m, "max_active_wake_words"@) == opt_u32_json(x.max_active_wake_words)
        &&& map_get(m, "supports_trigger"@) == opt_bool_value(x.supports_trigger)
    }

    open spec fn valid(m: Map<Seq<char>, JsonValue>) -> bool {
        &&& str_ok(map_get(m, "name"@))
        &&& default_obj_ok::<Attribution>(map_get(m, "attribution"@))
        &&& flag_ok(map_get(m, "installed"@))
        &&& opt_str_ok(map_get(m, "area"@))
        &&& opt_str_ok(map_get(m, "description"@))
        &&& opt_str_ok(map_get(m, "version"@))
        &&& opt_bool_ok(map_get(m, "has_vad"@))
        &&& opt_str_list_ok(map_get(m, "active_wake_words"@))
        &&& opt_u32_ok(map_get(m, "max_active_wake_words"@))
        &&& opt_bool_ok(map_get(m, "supports_trigger"@))
    }

    open spec fn read(m: Map<Seq<char>, JsonValue>, x: SatelliteInfo) -> bool {
        &&& Some(x.name) == value_string(map_get(m, "name"@))
        &&& attribution_read(map_get(m, "attribution"@), x.attribution)
        &&& x.installed == flag_of(map_get(m, "installed"@))
        &&& x.area == value_string(map_get(m, "area"@))
        &&& x.description == value_string(map_get(m, "description"@))
        &&& x.version == value_string(map_get(m, "version"@))
        &&& x.has_vad == opt_bool_of(map_get(m, "has_vad"@))
        &&& opt_str_list_read(map_get(m, "active_wake_words"@), x.active_wake_words)
        &&& x.max_active_wake_words == opt_u32_of(map_get(m, "max_active_wake_words"@))
        &&& x.supports_trigger == opt_bool_of(map_get(m, "supports_trigger"@))
    }

    open spec fn same(a: SatelliteInfo, b: SatelliteInfo) -> bool {
        &&& a.name == b.name
        &&& a.attribution == b.attribution
        &&& a.installed == b.installed
        &&& a.area == b.area
        &&& a.description == b.description
        &&& a.version == b.version
        &&& a.has_vad == b.has_vad
        &&& same_opt_list(a.active_wake_words, b.active_wake_words)
        &&& a.max_active_wake_words == b.max_active_wake_words
        &&& a.supports_trigger == b.supports_trigger
    }

    proof fn lemma_written_valid(m: Map<Seq<char>, JsonValue>, x: SatelliteInfo) {
        lemma_info_keys();
        Attribution::lemma_written_valid(m["attribution"@]->Object_0@, x.attribution);
        lemma_opt_list_written_valid(m, "active_wake_words"@, x.active_wake_words);
    }

    proof fn lemma_written_read(m: Map<Seq<char>, JsonValue>, x: SatelliteInfo, y: SatelliteInfo) {
        lemma_info_keys();
        Attribution::lemma_written_read(m["attribution"@]->Object_0@, x.attribution, y.attribution);
        lemma_opt_list_written_read(m, "active_wake_words"@, x.active_wake_words, y.active_wake_words);
    }

    fn to_object(self) -> (r: JsonMap) {
        proof {
            lemma_info_keys();
        }
        let mut m = JsonMap::new();
        m.insert("name".to_owned(), JsonValue::Str(self.name));
        m.insert("attribution".to_owned(), JsonValue::Object(self.attribution.to_object()));
        m.insert("installed".to_owned(), JsonValue::Bool(self.installed));
        insert_opt_str(&mut m, "area", self.area);
        insert_opt_str(&mut m, "description", self.description);
        insert_opt_str(&mut m, "version", self.version);
        insert_opt_bool(&mut m, "has_vad", self.has_vad);
        insert_opt_str_list(&mut m, "active_wake_words", self.active_wake_words);
        insert_opt_u32(&mut m, "max_active_wake_words", self.max_active_wake_words);
        insert_opt_bool(&mut m, "supports_trigger", self.supports_trigger);
        assert forall|k: Seq<char>| #[trigger] m@.contains_key(k) implies set!["name"@, "attribution"@, "installed"@, "area"@, "description"@, "version"@, "has_vad"@, "active_wake_words"@, "max_active_wake_words"@, "supports_trigger"@].contains(k) by {}
        m
    }

    fn from_object(m: &JsonMap) -> (r: Result<SatelliteInfo, ConversionError>) {
        let name = read_req_str(m, "name")?;
        let attribution = read_attribution(m, "attribution")?;
        let installed = read_flag(m, "installed")?;
        let area = read_opt_str(m, "area")?;
        let description = read_opt_str(m, "description")?;
        let version = read_opt_str(m, "version")?;
        let has_vad = read_opt_bool(m, "has_vad")?;
        let active_wake_words = read_opt_str_list(m, "active_wake_words")?;
        let max_active_wake_words = read_opt_u32(m, "max_active_wake_words")?;
        let supports_trigger = read_opt_bool(m, "supports_trigger")?;
        Ok(SatelliteInfo { name, attribution, installed, area, description, version, has_vad, active_wake_words, max_active_wake_words, supports_trigger })
    }
}

/// A speech-to-text model.
#[derive(Debug, Clone, PartialEq)]
pub struct AsrModel {
    pub name: String,
    pub attribution: Attribution,
    pub installed: bool,
    pub description: Option<String>,
    pub version: Option<String>,
    pub languages: Vec<String>,
}

impl JsonObject for AsrModel {
    open spec fn written(m: Map<Seq<char>, JsonValue>, x: AsrModel) -> bool {
        &&& keys_within(m, set!["name"@, "attribution"@, "installed"@, "description"@, "version"@, "languages"@])
        &&& map_get(m, "name"@) == Some(JsonValue::Str(x.name))
        &&& obj_written::<Attribution>(m, "attribution"@, x.attribution)
        &&& map_get(m, "installed"@) == Some(JsonValue::Bool(x.installed))
        &&& map_get(m, "description"@) == opt_str_value(x.description)
        &&& map_get(m, "version"@) == opt_str_value(x.version)
        &&& list_written(m, "languages"@, x.languages@)
    }

    open spec fn valid(m: Map<Seq<char>, JsonValue>) -> bool {
        &&& str_ok(map_get(m, "name"@))
        &&& default_obj_ok::<Attribution>(map_get(m, "attribution"@))
        &&& flag_ok(map_get(m, "installed"@))
        &&& opt_str_ok(map_get(m, "description"@))
        &&& opt_str_ok(map_get(m, "version"@))
        &&& str_list_ok(map_get(m, "languages"@))
    }

    open spec fn read(m: Map<Seq<char>, JsonValue>, x: AsrModel) -> bool {
        &&& Some(x.name) == value_string(map_get(m, "name"@))
        &&& attribution_read(map_get(m, "attribution"@), x.attribution)
        &&& x.installed == flag_of(map_get(m, "installed"@))
        &&& x.description == value_string(map_get(m, "description"@))
        &&& x.version == value_string(map_get(m, "version"@))
        &&& x.languages@ == str_list_of(map_get(m, "languages"@))
    }

    open spec fn same(a: AsrModel, b: AsrModel) -> bool {
        &&& a.name == b.name
        &&& a.attribution == b.attribution
        &&& a.installed == b.installed
        &&& a.description == b.description
        &&& a.version == b.version
        &&& a.languages@ == b.languages@
    }

    proof fn lemma_written_valid(m: Map<Seq<char>, JsonValue>, x: AsrModel) {
        lemma_info_keys();
        Attribution::lemma_written_valid(m["attribution"@]->Object_0@, x.attribution);
        lemma_list_written_valid(m, "languages"@, x.languages@);
    }

    proof fn lemma_written_read(m: Map<Seq<char>, JsonValue>, x: AsrModel, y: AsrModel) {
        lemma_info_keys();
        Attribution::lemma_written_read(m["attribution"@]->Object_0@, x.attribution, y.attribution);
        lemma_list_written_read(m, "languages"@, x.languages@, y.languages@);
    }

    fn to_object(self) -> (r: JsonMap) {
        proof {
            lemma_info_keys();
        }
        let mut m = JsonMap::new();
        m.insert("name".to_owned(), JsonValue::Str(self.name));
        m.insert("attribution".to_owned(), JsonValue::Object(self.attribution.to_object()));
        m.insert("installed".to_owned(), JsonValue::Bool(self.installed));
        insert_opt_str(&mut m, "description", self.description);
        insert_opt_str(&mut m, "version", self.version);
        insert_str_list(&mut m, "languages", self.languages);
        assert forall|k: Seq<char>| #[trigger] m@.contains_key(k) implies set!["name"@, "attribution"@, "installed"@, "description"@, "version"@, "languages"@].contains(k) by {}
        m
    }

    fn from_object(m: &JsonMap) -> (r: Result<AsrModel, ConversionError>) {
        let name = read_req_str(m, "name")?;
        let attribution = read_attribution(m, "attribution")?;
        let installed = read_flag(m, "installed")?;
        let description = read_opt_str(m, "description")?;
        let version = read_opt_str(m, "version")?;
        let languages = read_str_list(m, "languages")?;
        Ok(AsrModel { name, attribution, installed, description, version, languages })
    }
}

/// A speech-to-text program.
#[derive(Debug, Clone, PartialEq)]
pub struct AsrProgram {
    pub name: String,
    pub attribution: Attribution,
    pub installed: bool,
    pub description: Option<String>,
    pub version: Option<String>,
    pub models: Vec<AsrModel>,
    pub supports_transcript_streaming: bool,
}

impl JsonObject for AsrProgram {
    open spec fn written(m: Map<Seq<char>, JsonValue>, x: AsrProgram) -> bool {
        &&& keys_within(m, set!["name"@, "attribution"@, "installed"@, "description"@, "version"@, "models"@, "supports_transcript_streaming"@])
        &&& map_get(m, "name"@) == Some(JsonValue::Str(x.name))
        &&& obj_written::<Attribution>(m, "attribution"@, x.attribution)
        &&& map_get(m, "installed"@) == Some(JsonValue::Bool(x.installed))
        &&& map_get(m, "description"@) == opt_str_value(x.description)
        &&& map_get(m, "version"@) == opt_str_value(x.version)
        &&& obj_list_written::<AsrModel>(m, "models"@, x.models@)
        &&& map_get(m, "supports_transcript_streaming"@) == Some(JsonValue::Bool(x.supports_transcript_streaming))
    }

    open spec fn valid(m: Map<Seq<char>, JsonValue>) -> bool {
        &&& str_ok(map_get(m, "name"@))
        &&& default_obj_ok::<Attribution>(map_get(m, "attribution"@))
        &&& flag_ok(map_get(m, "installed"@))
        &&& opt_str_ok(map_get(m, "description"@))
        &&& opt_str_ok(map_get(m, "version"@))
        &&& obj_list_ok::<AsrModel>(map_get(m, "models"@))
        &&& flag_ok(map_get(m, "supports_transcript_streaming"@))
    }

    open spec fn read(m: Map<Seq<char>, JsonValue>, x: AsrProgram) -> bool {
        &&& Some(x.name) == value_string(map_get(m, "name"@))
        &&& attribution_read(map_get(m, "attribution"@), x.attribution)
        &&& x.installed == flag_of(map_get(m, "installed"@))
        &&& x.description == value_string(map_get(m, "description"@))
        &&& x.version == value_string(map_get(m, "version"@))
        &&& obj_list_read::<AsrModel>(map_get(m, "models"@), x.models@)
        &&& x.supports_transcript_streaming == flag_of(map_get(m, "supports_transcript_streaming"@))
    }

    open spec fn same(a: AsrProgram, b: AsrProgram) -> bool {
        &&& a.name == b.name
        &&& a.attribution == b.attribution
        &&& a.installed == b.installed
        &&& a.description == b.description
        &&& a.version == b.version
        &&& objects_same::<AsrModel>(a.models@, b.models@)
        &&& a.supports_transcript_streaming == b.supports_transcript_streaming
    }

    proof fn lemma_written_valid(m: Map<Seq<char>, JsonValue>, x: AsrProgram) {
        lemma_info_keys();
        Attribution::lemma_written_valid(m["attribution"@]->Object_0@, x.attribution);
        lemma_obj_list_written_valid::<AsrModel>(m, "models"@, x.models@);
    }

    proof fn lemma_written_read(m: Map<Seq<char>, JsonValue>, x: AsrProgram, y: AsrProgram) {
        lemma_info_keys();
        Attribution::lemma_written_read(m["attribution"@]->Object_0@, x.attribution, y.attribution);
        lemma_obj_list_written_read::<AsrModel>(m, "models"@, x.models@, y.models@);
    }

    fn to_object(self) -> (r: JsonMap) {
        proof {
            lemma_info_keys();
        }
        let mut m = JsonMap::new();
        m.insert("name".to_owned(), JsonValue::Str(self.name));
        m.insert("attribution".to_owned(), JsonValue::Object(self.attribution.to_object()));
        m.insert("installed".to_owned(), JsonValue::Bool(self.installed));
        insert_opt_str(&mut m, "description", self.description);
        insert_opt_str(&mut m, "version", self.version);
        insert_obj_list(&mut m, "models", self.models);
        m.insert("supports_transcript_streaming".to_owned(), JsonValue::Bool(self.supports_transcript_streaming));
        assert forall|k: Seq<char>| #[trigger] m@.contains_key(k) implies set!["name"@, "attribution"@, "installed"@, "description"@, "version"@, "models"@, "supports_transcript_streaming"@].contains(k) by {}
        m
    }

    fn from_object(m: &JsonMap) -> (r: Result<AsrProgram, ConversionError>) {
        let name = read_req_str(m, "name")?;
        let attribution = read_attribution(m, "attribution")?;
        let installed = read_flag(m, "installed")?;
        let description = read_opt_str(m, "description")?;
        let version = read_opt_str(m, "version")?;
        let models = read_obj_list::<AsrModel>(m, "models")?;
        let supports_transcript_streaming = read_flag(m, "supports_transcript_streaming")?;
        Ok(AsrProgram { name, attribution, installed, description, version, models, supports_transcript_streaming })
    }
}

/// A text-to-speech voice.
#[derive(Debug, Clone, PartialEq)]
pub struct TtsVoice {
    pub name: String,
    pub attribution: Attribution,
    pub installed: bool,
    pub description: Option<String>,
    pub version: Option<String>,
    pub languages: Vec<String>,
    pub speakers: Option<Vec<TtsVoiceSpeaker>>,
}

impl JsonObject for TtsVoice {
    open spec fn written(m: Map<Seq<char>, JsonValue>, x: TtsVoice) -> bool {
        &&& keys_within(m, set!["name"@, "attribution"@, "installed"@, "description"@, "version"@, "languages"@, "speakers"@])
        &&& map_get(m, "name"@) == Some(JsonValue::Str(x.name))
        &&& obj_written::<Attribution>(m, "attribution"@, x.attribution)
        &&& map_get(m, "installed"@) == Some(JsonValue::Bool(x.installed))
        &&& map_get(m, "description"@) == opt_str_value(x.description)
        &&& map_get(m, "version"@) == opt_str_value(x.version)
        &&& list_written(m, "languages"@, x.languages@)
        &&& opt_obj_list_written::<TtsVoiceSpeaker>(m, "speakers"@, x.speakers)
    }

    open spec fn valid(m: Map<Seq<char>, JsonValue>) -> bool {
        &&& str_ok(map_get(m, "name"@))
        &&& default_obj_ok::<Attribution>(map_get(m, "attribution"@))
        &&& flag_ok(map_get(m, "installed"@))
        &&& opt_str_ok(map_get(m, "description"@))
        &&& opt_str_ok(map_get(m, "version"@))
        &&& str_list_ok(map_get(m, "languages"@))
        &&& opt_obj_list_ok::<TtsVoiceSpeaker>(map_get(m, "speakers"@))
    }

    open spec fn read(m: Map<Seq<char>, JsonValue>, x: TtsVoice) -> bool {
        &&& Some(x.name) == value_string(map_get(m, "name"@))
        &&& attribution_read(map_get(m, "attribution"@), x.attribution)
        &&& x.installed == flag_of(map_get(m, "installed"@))
        &&& x.description == value_string(map_get(m, "description"@))
        &&& x.version == value_string(map_get(m, "version"@))
        &&& x.languages@ == str_list_of(map_get(m, "languages"@))
        &&& opt_obj_list_read::<TtsVoiceSpeaker>(map_get(m, "speakers"@), x.speakers)
    }

    open spec fn same(a: TtsVoice, b: TtsVoice) -> bool {
        &&& a.name == b.name
        &&& a.attribution == b.attribution
        &&& a.installed == b.installed
        &&& a.description == b.description
        &&& a.version == b.version
        &&& a.languages@ == b.languages@
        &&& same_opt_objects::<TtsVoiceSpeaker>(a.speakers, b.speakers)
    }

    proof fn lemma_written_valid(m: Map<Seq<char>, JsonValue>, x: TtsVoice) {
        lemma_info_keys();
        Attribution::lemma_written_valid(m["attribution"@]->Object_0@, x.attribution);
        lemma_list_written_valid(m, "languages"@, x.languages@);
        lemma_opt_obj_list_written_valid::<TtsVoiceSpeaker>(m, "speakers"@, x.speakers);
    }

    proof fn lemma_written_read(m: Map<Seq<char>, JsonValue>, x: TtsVoice, y: TtsVoice) {
        lemma_info_keys();
        Attribution::lemma_written_read(m["attribution"@]->Object_0@, x.attribution, y.attribution);
        lemma_list_written_read(m, "languages"@, x.languages@, y.languages@);
        lemma_opt_obj_list_written_read::<TtsVoiceSpeaker>(m, "speakers"@, x.speakers, y.speakers);
    }

    fn to_object(self) -> (r: JsonMap) {
        proof {
            lemma_info_keys();
        }
        let mut m = JsonMap::new();
        m.insert("name".to_owned(), JsonValue::Str(self.name));
        m.insert("attribution".to_owned(), JsonValue::Object(self.attribution.to_object()));
        m.insert("installed".to_owned(), JsonValue::Bool(self.installed));
        insert_opt_str(&mut m, "description", self.description);
        insert_opt_str(&mut m, "version", self.version);
        insert_str_list(&mut m, "languages", self.languages);
        insert_opt_obj_list(&mut m, "speakers", self.speakers);
        assert forall|k: Seq<char>| #[trigger] m@.contains_key(k) implies set!["name"@, "attribution"@, "installed"@, "description"@, "version"@, "languages"@, "speakers"@].contains(k) by {}
        m
    }

    fn from_object(m: &JsonMap) -> (r: Result<TtsVoice, ConversionError>) {
        let name = read_req_str(m, "name")?;
        let attribution = read_attribution(m, "attribution")?;
        let installed = read_flag(m, "installed")?;
        let description = read_opt_str(m, "description")?;
        let version = read_opt_str(m, "version")?;
        let languages = read_str_list(m, "languages")?;
        let speakers = read_opt_obj_list::<TtsVoiceSpeaker>(m, "speakers")?;
        Ok(TtsVoice { name, attribution, installed, description, version, languages, speakers })
    }
}

/// A text-to-speech program.
#[derive(Debug, Clone, PartialEq)]
pub struct TtsProgram {
    pub name: String,
    pub attribution: Attribution,
    pub installed: bool,
    pub description: Option<String>,
    pub version: Option<String>,
    pub voices: Vec<TtsVoice>,
    pub supports_synthesize_streaming: bool,
}

impl JsonObject for TtsProgram {
    open spec fn written(m: Map<Seq<char>, JsonValue>, x: TtsProgram) -> bool {
        &&& keys_within(m, set!["name"@, "attribution"@, "installed"@, "description"@, "version"@, "voices"@, "supports_synthesize_streaming"@])
        &&& map_get(m, "name"@) == Some(JsonValue::Str(x.name))
        &&& obj_written::<Attribution>(m, "attribution"@, x.attribution)
        &&& map_get(m, "installed"@) == Some(JsonValue::Bool(x.installed))
        &&& map_get(m, "description"@) == opt_str_value(x.description)
        &&& map_get(m, "version"@) == opt_str_value(x.version)
        &&& obj_list_written::<TtsVoice>(m, "voices"@, x.voices@)
        &&& map_get(m, "supports_synthesize_streaming"@) == Some(JsonValue::Bool(x.supports_synthesize_streaming))
    }

    open spec fn valid(m: Map<Seq<char>, JsonValue>) -> bool {
        &&& str_ok(map_get(m, "name"@))
        &&& default_obj_ok::<Attribution>(map_get(m, "attribution"@))
        &&& flag_ok(map_get(m, "installed"@))
        &&& opt_str_ok(map_get(m, "description"@))
        &&& opt_str_ok(map_get(m, "version"@))
        &&& obj_list_ok::<TtsVoice>(map_get(m, "voices"@))
        &&& flag_ok(map_get(m, "supports_synthesize_streaming"@))
    }

    open spec fn read(m: Map<Seq<char>, JsonValue>, x: TtsProgram) -> bool {
        &&& Some(x.name) == value_string(map_get(m, "name"@))
        &&& attribution_read(map_get(m, "attribution"@), x.attribution)
        &&& x.installed == flag_of(map_get(m, "installed"@))
        &&& x.description == value_string(map_get(m, "description"@))
        &&& x.version == value_string(map_get(m, "version"@))
        &&& obj_list_read::<TtsVoice>(map_get(m, "voices"@), x.voices@)
        &&& x.supports_synthesize_streaming == flag_of(map_get(m, "supports_synthesize_streaming"@))
    }

    open spec fn same(a: TtsProgram, b: TtsProgram) -> bool {
        &&& a.name == b.name
        &&& a.attribution == b.attribution
        &&& a.installed == b.installed
        &&& a.description == b.description
        &&& a.version == b.version
        &&& objects_same::<TtsVoice>(a.voices@, b.voices@)
        &&& a.supports_synthesize_streaming == b.supports_synthesize_streaming
    }

    proof fn lemma_written_valid(m: Map<Seq<char>, JsonValue>, x: TtsProgram) {
        lemma_info_keys();
        Attribution::lemma_written_valid(m["attribution"@]->Object_0@, x.attribution);
        lemma_obj_list_written_valid::<TtsVoice>(m, "voices"@, x.voices@);
    }

    proof fn lemma_written_read(m: Map<Seq<char>, JsonValue>, x: TtsProgram, y: TtsProgram) {
        lemma_info_keys();
        Attribution::lemma_written_read(m["attribution"@]->Object_0@, x.attribution, y.attribution);
        lemma_obj_list_written_read::<TtsVoice>(m, "voices"@, x.voices@, y.voices@);
    }

    fn to_object(self) -> (r: JsonMap) {
        proof {
            lemma_info_keys();
        }
        let mut m = JsonMap::new();
        m.insert("name".to_owned(), JsonValue::Str(self.name));
        m.insert("attribution".to_owned(), JsonValue::Object(self.attribution.to_object()));
        m.insert("installed".to_owned(), JsonValue::Bool(self.installed));
        insert_opt_str(&mut m, "description", self.description);
        insert_opt_str(&mut m, "version", self.version);
        insert_obj_list(&mut m, "voices", self.voices);
        m.insert("supports_synthesize_streaming".to_owned(), JsonValue::Bool(self.supports_synthesize_streaming));
        assert forall|k: Seq<char>| #[trigger] m@.contains_key(k) implies set!["name"@, "attribution"@, "installed"@, "description"@, "version"@, "voices"@, "supports_synthesize_streaming"@].contains(k) by {}
        m
    }

    fn from_object(m: &JsonMap) -> (r: Result<TtsProgram, ConversionError>) {
        let name = read_req_str(m, "name")?;
        let attribution = read_attribution(m, "attribution")?;
        let installed = read_flag(m, "installed")?;
        let description = read_opt_str(m, "description")?;
        let version = read_opt_str(m, "version")?;
        let voices = read_obj_list::<TtsVoice>(m, "voices")?;
        let supports_synthesize_streaming = read_flag(m, "supports_synthesize_streaming")?;
        Ok(TtsProgram { name, attribution, installed, description, version, voices, supports_synthesize_streaming })
    }
}

/// An intent-handling model.
#[derive(Debug, Clone, PartialEq)]
pub struct HandleModel {
    pub name: String,
    pub attribution: Attribution,
    pub installed: bool,
    pub description: Option<String>,
    pub version: Option<String>,
    pub languages: Vec<String>,
}

impl JsonObject for HandleModel {
    open spec fn written(m: Map<Seq<char>, JsonValue>, x: HandleModel) -> bool {
        &&& keys_within(m, set!["name"@, "attribution"@, "installed"@, "description"@, "version"@, "languages"@])
        &&& map_get(m, "name"@) == Some(JsonValue::Str(x.name))
        &&& obj_written::<Attribution>(m, "attribution"@, x.attribution)
        &&& map_get(m, "installed"@) == Some(JsonValue::Bool(x.installed))
        &&& map_get(m, "description"@) == opt_str_value(x.description)
        &&& map_get(m, "version"@) == opt_str_value(x.version)
        &&& list_written(m, "languages"@, x.languages@)
    }

    open spec fn valid(m: Map<Seq<char>, JsonValue>) -> bool {
        &&& str_ok(map_get(m, "name"@))
        &&& default_obj_ok::<Attribution>(map_get(m, "attribution"@))
        &&& flag_ok(map_get(m, "installed"@))
        &&& opt_str_ok(map_get(m, "description"@))
        &&& opt_str_ok(map_get(m, "version"@))
        &&& str_list_ok(map_get(m, "languages"@))
    }

    open spec fn read(m: Map<Seq<char>, JsonValue>, x: HandleModel) -> bool {
        &&& Some(x.name) == value_string(map_get(m, "name"@))
        &&& attribution_read(map_get(m, "attribution"@), x.attribution)
        &&& x.installed == flag_of(map_get(m, "installed"@))
        &&& x.description == value_string(map_get(m, "description"@))
        &&& x.version == value_string(map_get(m, "version"@))
        &&& x.languages@ == str_list_of(map_get(m, "languages"@))
    }

    open spec fn same(a: HandleModel, b: HandleModel) -> bool {
        &&& a.name == b.name
        &&& a.attribution == b.attribution
        &&& a.installed == b.installed
        &&& a.description == b.description
        &&& a.version == b.version
        &&& a.languages@ == b.languages@
    }

    proof fn lemma_written_valid(m: Map<Seq<char>, JsonValue>, x: HandleModel) {
        lemma_info_keys();
        Attribution::lemma_written_valid(m["attribution"@]->Object_0@, x.attribution);
        lemma_list_written_valid(m, "languages"@, x.languages@);
    }

    proof fn lemma_written_read(m: Map<Seq<char>, JsonValue>, x: HandleModel, y: HandleModel) {
        lemma_info_keys();
        Attribution::lemma_written_read(m["attribution"@]->Object_0@, x.attribution, y.attribution);
        lemma_list_written_read(m, "languages"@, x.languages@, y.languages@);
    }

    fn to_object(self) -> (r: JsonMap) {
        proof {
            lemma_info_keys();
        }
        let mut m = JsonMap::new();
        m.insert("name".to_owned(), JsonValue::Str(self.name));
        m.insert("attribution".to_owned(), JsonValue::Object(self.attribution.to_object()));
        m.insert("installed".to_owned(), JsonValue::Bool(self.installed));
        insert_opt_str(&mut m, "description", self.description);
        insert_opt_str(&mut m, "version", self.version);
        insert_str_list(&mut m, "languages", self.languages);
        assert forall|k: Seq<char>| #[trigger] m@.contains_key(k) implies set!["name"@, "attribution"@, "installed"@, "description"@, "version"@, "languages"@].contains(k) by {}
        m
    }

    fn from_object(m: &JsonMap) -> (r: Result<HandleModel, ConversionError>) {
        let name = read_req_str(m, "name")?;
        let attribution = read_attribution(m, "attribution")?;
        let installed = read_flag(m, "installed")?;
        let description = read_opt_str(m, "description")?;
        let version = read_opt_str(m, "version")?;
        let languages = read_str_list(m, "languages")?;
        Ok(HandleModel { name, attribution, installed, description, version, languages })
    }
}

/// An intent-handling program.
#[derive(Debug, Clone, PartialEq)]
pub struct HandleProgram {
    pub name: String,
    pub attribution: Attribution,
    pub installed: bool,
    pub description: Option<String>,
    pub version: Option<String>,
    pub models: Vec<HandleModel>,
    pub supports_handled_streaming: bool,
}

impl JsonObject for HandleProgram {
    open spec fn written(m: Map<Seq<char>, JsonValue>, x: HandleProgram) -> bool {
        &&& keys_within(m, set!["name"@, "attribution"@, "installed"@, "description"@, "version"@, "models"@, "supports_handled_streaming"@])
        &&& map_get(m, "name"@) == Some(JsonValue::Str(x.name))
        &&& obj_written::<Attribution>(m, "attribution"@, x.attribution)
        &&& map_get(m, "installed"@) == Some(JsonValue::Bool(x.installed))
        &&& map_get(m, "description"@) == opt_str_value(x.description)
        &&& map_get(m, "version"@) == opt_str_value(x.version)
        &&& obj_list_written::<HandleModel>(m, "models"@, x.models@)
        &&& map_get(m, "supports_handled_streaming"@) == Some(JsonValue::Bool(x.supports_handled_streaming))
    }

    open spec fn valid(m: Map<Seq<char>, JsonValue>) -> bool {
        &&& str_ok(map_get(m, "name"@))
        &&& default_obj_ok::<Attribution>(map_get(m, "attribution"@))
        &&& flag_ok(map_get(m, "installed"@))
        &&& opt_str_ok(map_get(m, "description"@))
        &&& opt_str_ok(map_get(m, "version"@))
        &&& obj_list_ok::<HandleModel>(map_get(m, "models"@))
        &&& flag_ok(map_get(m, "supports_handled_streaming"@))
    }

    open spec fn read(m: Map<Seq<char>, JsonValue>, x: HandleProgram) -> bool {
        &&& Some(x.name) == value_string(map_get(m, "name"@))
        &&& attribution_read(map_get(m, "attribution"@), x.attribution)
        &&& x.installed == flag_of(map_get(m, "installed"@))
        &&& x.description == value_string(map_get(m, "description"@))
        &&& x.version == value_string(map_get(m, "version"@))
        &&& obj_list_read::<HandleModel>(map_get(m, "models"@), x.models@)
        &&& x.supports_handled_streaming == flag_of(map_get(m, "supports_handled_streaming"@))
    }

    open spec fn same(a: HandleProgram, b: HandleProgram) -> bool {
        &&& a.name == b.name
        &&& a.attribution == b.attribution
        &&& a.installed == b.installed
        &&& a.description == b.description
        &&& a.version == b.version
        &&& objects_same::<HandleModel>(a.models@, b.models@)
        &&& a.supports_handled_streaming == b.supports_handled_streaming
    }

    proof fn lemma_written_valid(m: Map<Seq<char>, JsonValue>, x: HandleProgram) {
        lemma_info_keys();
        Attribution::lemma_written_valid(m["attribution"@]->Object_0@, x.attribution);
        lemma_obj_list_written_valid::<HandleModel>(m, "models"@, x.models@);
    }

    proof fn lemma_written_read(m: Map<Seq<char>, JsonValue>, x: HandleProgram, y: HandleProgram) {
        lemma_info_keys();
        Attribution::lemma_written_read(m["attribution"@]->Object_0@, x.attribution, y.attribution);
        lemma_obj_list_written_read::<HandleModel>(m, "models"@, x.models@, y.models@);
    }

    fn to_object(self) -> (r: JsonMap) {
        proof {
            lemma_info_keys();
        }
        let mut m = JsonMap::new();
        m.insert("name".to_owned(), JsonValue::Str(self.name));
        m.insert("attribution".to_owned(), JsonValue::Object(self.attribution.to_object()));
        m.insert("installed".to_owned(), JsonValue::Bool(self.installed));
        insert_opt_str(&mut m, "description", self.description);
        insert_opt_str(&mut m, "version", self.version);
        insert_obj_list(&mut m, "models", self.models);
        m.insert("supports_handled_streaming".to_owned(), JsonValue::Bool(self.supports_handled_streaming));
        assert forall|k: Seq<char>| #[trigger] m@.contains_key(k) implies set!["name"@, "attribution"@, "installed"@, "description"@, "version"@, "models"@, "supports_handled_streaming"@].contains(k) by {}
        m
    }

    fn from_object(m: &JsonMap) -> (r: Result<HandleProgram, ConversionError>) {
        let name = read_req_str(m, "name")?;
        let attribution = read_attribution(m, "attribution")?;
        let installed = read_flag(m, "installed")?;
        let description = read_opt_str(m, "description")?;
        let version = read_opt_str(m, "version")?;
        let models = read_obj_list::<HandleModel>(m, "models")?;
        let supports_handled_streaming = read_flag(m, "supports_handled_streaming")?;
        Ok(HandleProgram { name, attribution, installed, description, version, models, supports_handled_streaming })
    }
}

/// A wake word model.
#[derive(Debug, Clone, PartialEq)]
pub struct WakeModel {
    pub name: String,
    pub attribution: Attribution,
    pub installed: bool,
    pub description: Option<String>,
    pub version: Option<String>,
    pub languages: Vec<String>,
    pub phrase: Option<String>,
}

impl JsonObject for WakeModel {
    open spec fn written(m: Map<Seq<char>, JsonValue>, x: WakeModel) -> bool {
        &&& keys_within(m, set!["name"@, "attribution"@, "installed"@, "description"@, "version"@, "languages"@, "phrase"@])
        &&& map_get(m, "name"@) == Some(JsonValue::Str(x.name))
        &&& obj_written::<Attribution>(m, "attribution"@, x.attribution)
        &&& map_get(m, "installed"@) == Some(JsonValue::Bool(x.installed))
        &&& map_get(m, "description"@) == opt_str_value(x.description)
        &&& map_get(m, "version"@) == opt_str_value(x.version)
        &&& list_written(m, "languages"@, x.languages@)
        &&& map_get(m, "phrase"@) == opt_str_value(x.phrase)
    }

    open spec fn valid(m: Map<Seq<char>, JsonValue>) -> bool {
        &&& str_ok(map_get(m, "name"@))
        &&& default_obj_ok::<Attribution>(map_get(m, "attribution"@))
        &&& flag_ok(map_get(m, "installed"@))
        &&& opt_str_ok(map_get(m, "description"@))
        &&& opt_str_ok(map_get(m, "version"@))
        &&& str_list_ok(map_get(m, "languages"@))
        &&& opt_str_ok(map_get(m, "phrase"@))
    }

    open spec fn read(m: Map<Seq<char>, JsonValue>, x: WakeModel) -> bool {
        &&& Some(x.name) == value_string(map_get(m, "name"@))
        &&& attribution_read(map_get(m, "attribution"@), x.attribution)
        &&& x.installed == flag_of(map_get(m, "installed"@))
        &&& x.description == value_string(map_get(m, "description"@))
        &&& x.version == value_string(map_get(m, "version"@))
        &&& x.languages@ == str_list_of(map_get(m, "languages"@))
        &&& x.phrase == value_string(map_get(m, "phrase"@))
    }

    open spec fn same(a: WakeModel, b: WakeModel) -> bool {
        &&& a.name == b.name
        &&& a.attribution == b.attribution
        &&& a.installed == b.installed
        &&& a.description == b.description
        &&& a.version == b.version
        &&& a.languages@ == b.languages@
        &&& a.phrase == b.phrase
    }

    proof fn lemma_written_valid(m: Map<Seq<char>, JsonValue>, x: WakeModel) {
        lemma_info_keys();
        Attribution::lemma_written_valid(m["attribution"@]->Object_0@, x.attribution);
        lemma_list_written_valid(m, "languages"@, x.languages@);
    }

    proof fn lemma_written_read(m: Map<Seq<char>, JsonValue>, x: WakeModel, y: WakeModel) {
        lemma_info_keys();
        Attribution::lemma_written_read(m["attribution"@]->Object_0@, x.attribution, y.attribution);
        lemma_list_written_read(m, "languages"@, x.languages@, y.languages@);
    }

    fn to_object(self) -> (r: JsonMap) {
        proof {
            lemma_info_keys();
        }
        let mut m = JsonMap::new();
        m.insert("name".to_owned(), JsonValue::Str(self.name));
        m.insert("attribution".to_owned(), JsonValue::Object(self.attribution.to_object()));
        m.insert("installed".to_owned(), JsonValue::Bool(self.installed));
        insert_opt_str(&mut m, "description", self.description);
        insert_opt_str(&mut m, "version", self.version);
        insert_str_list(&mut m, "languages", self.languages);
        insert_opt_str(&mut m, "phrase", self.phrase);
        assert forall|k: Seq<char>| #[trigger] m@.contains_key(k) implies set!["name"@, "attribution"@, "installed"@, "description"@, "version"@, "languages"@, "phrase"@].contains(k) by {}
        m
    }

    fn from_object(m: &JsonMap) -> (r: Result<WakeModel, ConversionError>) {
        let name = read_req_str(m, "name")?;
        let attribution = read_attribution(m, "attribution")?;
        let installed = read_flag(m, "installed")?;
        let description = read_opt_str(m, "description")?;
        let version = read_opt_str(m, "version")?;
        let languages = read_str_list(m, "languages")?;
        let phrase = read_opt_str(m, "phrase")?;
        Ok(WakeModel { name, attribution, installed, description, version, languages, phrase })
    }
}

/// A wake word program.
#[derive(Debug, Clone, PartialEq)]
pub struct WakeProgram {
    pub name: String,
    pub attribution: Attribution,
    pub installed: bool,
    pub description: Option<String>,
    pub version: Option<String>,
    pub models: Vec<WakeModel>,
}

impl JsonObject for WakeProgram {
    open spec fn written(m: Map<Seq<char>, JsonValue>, x: WakeProgram) -> bool {
        &&& keys_within(m, set!["name"@, "attribution"@, "installed"@, "description"@, "version"@, "models"@])
        &&& map_get(m, "name"@) == Some(JsonValue::Str(x.name))
        &&& obj_written::<Attribution>(m, "attribution"@, x.attribution)
        &&& map_get(m, "installed"@) == Some(JsonValue::Bool(x.installed))
        &&& map_get(m, "description"@) == opt_str_value(x.description)
        &&& map_get(m, "version"@) == opt_str_value(x.version)
        &&& obj_list_written::<WakeModel>(m, "models"@, x.models@)
    }

    open spec fn valid(m: Map<Seq<char>, JsonValue>) -> bool {
        &&& str_ok(map_get(m, "name"@))
        &&& default_obj_ok::<Attribution>(map_get(m, "attribution"@))
        &&& flag_ok(map_get(m, "installed"@))
        &&& opt_str_ok(map_get(m, "description"@))
        &&& opt_str_ok(map_get(m, "version"@))
        &&& obj_list_ok::<WakeModel>(map_get(m, "models"@))
    }

    open spec fn read(m: Map<Seq<char>, JsonValue>, x: WakeProgram) -> bool {
        &&& Some(x.name) == value_string(map_get(m, "name"@))
        &&& attribution_read(map_get(m, "attribution"@), x.attribution)
        &&& x.installed == flag_of(map_get(m, "installed"@))
        &&& x.description == value_string(map_get(m, "description"@))
        &&& x.version == value_string(map_get(m, "version"@))
        &&& obj_list_read::<WakeModel>(map_get(m, "models"@), x.models@)
    }

    open spec fn same(a: WakeProgram, b: WakeProgram) -> bool {
        &&& a.name == b.name
        &&& a.attribution == b.attribution
        &&& a.installed == b.installed
        &&& a.description == b.description
        &&& a.version == b.version
        &&& objects_same::<WakeModel>(a.models@, b.models@)
    }

    proof fn lemma_written_valid(m: Map<Seq<char>, JsonValue>, x: WakeProgram) {
        lemma_info_keys();
        Attribution::lemma_written_valid(m["attribution"@]->Object_0@, x.attribution);
        lemma_obj_list_written_valid::<WakeModel>(m, "models"@, x.models@);
    }

    proof fn lemma_written_read(m: Map<Seq<char>, JsonValue>, x: WakeProgram, y: WakeProgram) {
        lemma_info_keys();
        Attribution::lemma_written_read(m["attribution"@]->Object_0@, x.attribution, y.attribution);
        lemma_obj_list_written_read::<WakeModel>(m, "models"@, x.models@, y.models@);
    }

    fn to_object(self) -> (r: JsonMap) {
        proof {
            lemma_info_keys();
        }
        let mut m = JsonMap::new();
        m.insert("name".to_owned(), JsonValue::Str(self.name));
        m.insert("attribution".to_owned(), JsonValue::Object(self.attribution.to_object()));
        m.insert("installed".to_owned(), JsonValue::Bool(self.installed));
        insert_opt_str(&mut m, "description", self.description);
        insert_opt_str(&mut m, "version", self.version);
        insert_obj_list(&mut m, "models", self.models);
        assert forall|k: Seq<char>| #[trigger] m@.contains_key(k) implies set!["name"@, "attribution"@, "installed"@, "description"@, "version"@, "models"@].contains(k) by {}
        m
    }

    fn from_object(m: &JsonMap) -> (r: Result<WakeProgram, ConversionError>) {
        let name = read_req_str(m, "name")?;
        let attribution = read_attribution(m, "attribution")?;
        let installed = read_flag(m, "installed")?;
        let description = read_opt_str(m, "description")?;
        let version = read_opt_str(m, "version")?;
        let models = read_obj_list::<WakeModel>(m, "models")?;
        Ok(WakeProgram { name, attribution, installed, description, version, models })
    }
}

/// An intent recognition model.
#[derive(Debug, Clone, PartialEq)]
pub struct IntentModel {
    pub name: String,
    pub attribution: Attribution,
    pub installed: bool,
    pub description: Option<String>,
    pub version: Option<String>,
    pub languages: Vec<String>,
}

impl JsonObject for IntentModel {
    open spec fn written(m: Map<Seq<char>, JsonValue>, x: IntentModel) -> bool {
        &&& keys_within(m, set!["name"@, "attribution"@, "installed"@, "description"@, "version"@, "languages"@])
        &&& map_get(m, "name"@) == Some(JsonValue::Str(x.name))
        &&& obj_written::<Attribution>(m, "attribution"@, x.attribution)
        &&& map_get(m, "installed"@) == Some(JsonValue::Bool(x.installed))
        &&& map_get(m, "description"@) == opt_str_value(x.description)
        &&& map_get(m, "version"@) == opt_str_value(x.version)
        &&& list_written(m, "languages"@, x.languages@)
    }

    open spec fn valid(m: Map<Seq<char>, JsonValue>) -> bool {
        &&& str_ok(map_get(m, "name"@))
        &&& default_obj_ok::<Attribution>(map_get(m, "attribution"@))
        &&& flag_ok(map_get(m, "installed"@))
        &&& opt_str_ok(map_get(m, "description"@))
        &&& opt_str_ok(map_get(m, "version"@))
        &&& str_list_ok(map_get(m, "languages"@))
    }

    open spec fn read(m: Map<Seq<char>, JsonValue>, x: IntentModel) -> bool {
        &&& Some(x.name) == value_string(map_get(m, "name"@))
        &&& attribution_read(map_get(m, "attribution"@), x.attribution)
        &&& x.installed == flag_of(map_get(m, "installed"@))
        &&& x.description == value_string(map_get(m, "description"@))
        &&& x.version == value_string(map_get(m, "version"@))
        &&& x.languages@ == str_list_of(map_get(m, "languages"@))
    }

    open spec fn same(a: IntentModel, b: IntentModel) -> bool {
        &&& a.name == b.name
        &&& a.attribution == b.attribution
        &&& a.installed == b.installed
        &&& a.description == b.description
        &&& a.version == b.version
        &&& a.languages@ == b.languages@
    }

    proof fn lemma_written_valid(m: Map<Seq<char>, JsonValue>, x: IntentModel) {
        lemma_info_keys();
        Attribution::lemma_written_valid(m["attribution"@]->Object_0@, x.attribution);
        lemma_list_written_valid(m, "languages"@, x.languages@);
    }

    proof fn lemma_written_read(m: Map<Seq<char>, JsonValue>, x: IntentModel, y: IntentModel) {
        lemma_info_keys();
        Attribution::lemma_written_read(m["attribution"@]->Object_0@, x.attribution, y.attribution);
        lemma_list_written_read(m, "languages"@, x.languages@, y.languages@);
    }

    fn to_object(self) -> (r: JsonMap) {
        proof {
            lemma_info_keys();
        }
        let mut m = JsonMap::new();
        m.insert("name".to_owned(), JsonValue::Str(self.name));
        m.insert("attribution".to_owned(), JsonValue::Object(self.attribution.to_object()));
        m.insert("installed".to_owned(), JsonValue::Bool(self.installed));
        insert_opt_str(&mut m, "description", self.description);
        insert_opt_str(&mut m, "version", self.version);
        insert_str_list(&mut m, "languages", self.languages);
        assert forall|k: Seq<char>| #[trigger] m@.contains_key(k) implies set!["name"@, "attribution"@, "installed"@, "description"@, "version"@, "languages"@].contains(k) by {}
        m
    }

    fn from_object(m: &JsonMap) -> (r: Result<IntentModel, ConversionError>) {
        let name = read_req_str(m, "name")?;
        let attribution = read_attribution(m, "attribution")?;
        let installed = read_flag(m, "installed")?;
        let description = read_opt_str(m, "description")?;
        let version = read_opt_str(m, "version")?;
        let languages = read_str_list(m, "languages")?;
        Ok(IntentModel { name, attribution, installed, description, version, languages })
    }
}

/// An intent recognition program.
#[derive(Debug, Clone, PartialEq)]
pub struct IntentProgram {
    pub name: String,
    pub attribution: Attribution,
    pub installed: bool,
    pub description: Option<String>,
    pub version: Option<String>,
    pub models: Vec<IntentModel>,
}

impl JsonObject for IntentProgram {
    open spec fn written(m: Map<Seq<char>, JsonValue>, x: IntentProgram) -> bool {
        &&& keys_within(m, set!["name"@, "attribution"@, "installed"@, "description"@, "version"@, "models"@])
        &&& map_get(m, "name"@) == Some(JsonValue::Str(x.name))
        &&& obj_written::<Attribution>(m, "attribution"@, x.attribution)
        &&& map_get(m, "installed"@) == Some(JsonValue::Bool(x.installed))
        &&& map_get(m, "description"@) == opt_str_value(x.description)
        &&& map_get(m, "version"@) == opt_str_value(x.version)
        &&& obj_list_written::<IntentModel>(m, "models"@, x.models@)
    }

    open spec fn valid(m: Map<Seq<char>, JsonValue>) -> bool {
        &&& str_ok(map_get(m, "name"@))
        &&& default_obj_ok::<Attribution>(map_get(m, "attribution"@))
        &&& flag_ok(map_get(m, "installed"@))
        &&& opt_str_ok(map_get(m, "description"@))
        &&& opt_str_ok(map_get(m, "version"@))
        &&& obj_list_ok::<IntentModel>(map_get(m, "models"@))
    }

    open spec fn read(m: Map<Seq<char>, JsonValue>, x: IntentProgram) -> bool {
        &&& Some(x.name) == value_string(map_get(m, "name"@))
        &&& attribution_read(map_get(m, "attribution"@), x.attribution)
        &&& x.installed == flag_of(map_get(m, "installed"@))
        &&& x.description == value_string(map_get(m, "description"@))
        &&& x.version == value_string(map_get(m, "version"@))
        &&& obj_list_read::<IntentModel>(map_get(m, "models"@), x.models@)
    }

    open spec fn same(a: IntentProgram, b: IntentProgram) -> bool {
        &&& a.name == b.name
        &&& a.attribution == b.attribution
        &&& a.installed == b.installed
        &&& a.description == b.description
        &&& a.version == b.version
        &&& objects_same::<IntentModel>(a.models@, b.models@)
    }

    proof fn lemma_written_valid(m: Map<Seq<char>, JsonValue>, x: IntentProgram) {
        lemma_info_keys();
        Attribution::lemma_written_valid(m["attribution"@]->Object_0@, x.attribution);
        lemma_obj_list_written_valid::<IntentModel>(m, "models"@, x.models@);
    }

    proof fn lemma_written_read(m: Map<Seq<char>, JsonValue>, x: IntentProgram, y: IntentProgram) {
        lemma_info_keys();
        Attribution::lemma_written_read(m["attribution"@]->Object_0@, x.attribution, y.attribution);
        lemma_obj_list_written_read::<IntentModel>(m, "models"@, x.models@, y.models@);
    }

    fn to_object(self) -> (r: JsonMap) {
        proof {
            lemma_info_keys();
        }
        let mut m = JsonMap::new();
        m.insert("name".to_owned(), JsonValue::Str(self.name));
        m.insert("attribution".to_owned(), JsonValue::Object(self.attribution.to_object()));
        m.insert("installed".to_owned(), JsonValue::Bool(self.installed));
        insert_opt_str(&mut m, "description", self.description);
        insert_opt_str(&mut m, "version", self.version);
        insert_obj_list(&mut m, "models", self.models);
        assert forall|k: Seq<char>| #[trigger] m@.contains_key(k) implies set!["name"@, "attribution"@, "installed"@, "description"@, "version"@, "models"@].contains(k) by {}
        m
    }

    fn from_object(m: &JsonMap) -> (r: Result<IntentProgram, ConversionError>) {
        let name = read_req_str(m, "name")?;
        let attribution = read_attribution(m, "attribution")?;
        let installed = read_flag(m, "installed")?;
        let description = read_opt_str(m, "description")?;
        let version = read_opt_str(m, "version")?;
        let models = read_obj_list::<IntentModel>(m, "models")?;
        Ok(IntentProgram { name, attribution, installed, description, version, models })
    }
}

/// A microphone, with its capture format.
#[derive(Debug, Clone, PartialEq)]
pub struct MicProgram {
    pub name: String,
    pub attribution: Attribution,
    pub installed: bool,
    pub description: Option<String>,
    pub version: Option<String>,
    pub mic_format: AudioFormat,
}

impl JsonObject for MicProgram {
    open spec fn written(m: Map<Seq<char>, JsonValue>, x: MicProgram) -> bool {
        &&& keys_within(m, set!["name"@, "attribution"@, "installed"@, "description"@, "version"@, "mic_format"@])
        &&& map_get(m, "name"@) == Some(JsonValue::Str(x.name))
        &&& obj_written::<Attribution>(m, "attribution"@, x.attribution)
        &&& map_get(m, "installed"@) == Some(JsonValue::Bool(x.installed))
        &&& map_get(m, "description"@) == opt_str_value(x.description)
        &&& map_get(m, "version"@) == opt_str_value(x.version)
        &&& format_written(m, "mic_format"@, x.mic_format)
    }

    open spec fn valid(m: Map<Seq<char>, JsonValue>) -> bool {
        &&& str_ok(map_get(m, "name"@))
        &&& default_obj_ok::<Attribution>(map_get(m, "attribution"@))
        &&& flag_ok(map_get(m, "installed"@))
        &&& opt_str_ok(map_get(m, "description"@))
        &&& opt_str_ok(map_get(m, "version"@))
        &&& format_ok(map_get(m, "mic_format"@))
    }

    open spec fn read(m: Map<Seq<char>, JsonValue>, x: MicProgram) -> bool {
        &&& Some(x.name) == value_string(map_get(m, "name"@))
        &&& attribution_read(map_get(m, "attribution"@), x.attribution)
        &&& x.installed == flag_of(map_get(m, "installed"@))
        &&& x.description == value_string(map_get(m, "description"@))
        &&& x.version == value_string(map_get(m, "version"@))
        &&& format_read(map_get(m, "mic_format"@), x.mic_format)
    }

    open spec fn same(a: MicProgram, b: MicProgram) -> bool {
        &&& a.name == b.name
        &&& a.attribution == b.attribution
        &&& a.installed == b.installed
        &&& a.description == b.description
        &&& a.version == b.version
        &&& a.mic_format == b.mic_format
    }

    proof fn lemma_written_valid(m: Map<Seq<char>, JsonValue>, x: MicProgram) {
        lemma_info_keys();
        Attribution::lemma_written_valid(m["attribution"@]->Object_0@, x.attribution);
    }

    proof fn lemma_written_read(m: Map<Seq<char>, JsonValue>, x: MicProgram, y: MicProgram) {
        lemma_info_keys();
        Attribution::lemma_written_read(m["attribution"@]->Object_0@, x.attribution, y.attribution);
    }

    fn to_object(self) -> (r: JsonMap) {
        proof {
            lemma_info_keys();
        }
        let mut m = JsonMap::new();
        m.insert("name".to_owned(), JsonValue::Str(self.name));
        m.insert("attribution".to_owned(), JsonValue::Object(self.attribution.to_object()));
        m.insert("installed".to_owned(), JsonValue::Bool(self.installed));
        insert_opt_str(&mut m, "description", self.description);
        insert_opt_str(&mut m, "version", self.version);
        m.insert("mic_format".to_owned(), JsonValue::Object(write_format(self.mic_format, None)));
        assert forall|k: Seq<char>| #[trigger] m@.contains_key(k) implies set!["name"@, "attribution"@, "installed"@, "description"@, "version"@, "mic_format"@].contains(k) by {}
        m
    }

    fn from_object(m: &JsonMap) -> (r: Result<MicProgram, ConversionError>) {
        let name = read_req_str(m, "name")?;
        let attribution = read_attribution(m, "attribution")?;
        let installed = read_flag(m, "installed")?;
        let description = read_opt_str(m, "description")?;
        let version = read_opt_str(m, "version")?;
        let mic_format = read_strict_format(m, "mic_format")?;
        Ok(MicProgram { name, attribution, installed, description, version, mic_format })
    }
}

/// A speaker, with its playback format.
#[derive(Debug, Clone, PartialEq)]
pub struct SndProgram {
    pub name: String,
    pub attribution: Attribution,
    pub installed: bool,
    pub description: Option<String>,
    pub version: Option<String>,
    pub snd_format: AudioFormat,
}

impl JsonObject for SndProgram {
    open spec fn written(m: Map<Seq<char>, JsonValue>, x: SndProgram) -> bool {
        &&& keys_within(m, set!["name"@, "attribution"@, "installed"@, "description"@, "version"@, "snd_format"@])
        &&& map_get(m, "name"@) == Some(JsonValue::Str(x.name))
        &&& obj_written::<Attribution>(m, "attribution"@, x.attribution)
        &&& map_get(m, "installed"@) == Some(JsonValue::Bool(x.installed))
        &&& map_get(m, "description"@) == opt_str_value(x.description)
        &&& map_get(m, "version"@) == opt_str_value(x.version)
        &&& format_written(m, "snd_format"@, x.snd_format)
    }

    open spec fn valid(m: Map<Seq<char>, JsonValue>) -> bool {
        &&& str_ok(map_get(m, "name"@))
        &&& default_obj_ok::<Attribution>(map_get(m, "attribution"@))
        &&& flag_ok(map_get(m, "installed"@))
        &&& opt_str_ok(map_get(m, "description"@))
        &&& opt_str_ok(map_get(m, "version"@))
        &&& format_ok(map_get(m, "snd_format"@))
    }

    open spec fn read(m: Map<Seq<char>, JsonValue>, x: SndProgram) -> bool {
        &&& Some(x.name) == value_string(map_get(m, "name"@))
        &&& attribution_read(map_get(m, "attribution"@), x.attribution)
        &&& x.installed == flag_of(map_get(m, "installed"@))
        &&& x.description == value_string(map_get(m, "description"@))
        &&& x.version == value_string(map_get(m, "version"@))
        &&& format_read(map_get(m, "snd_format"@), x.snd_format)
    }

    open spec fn same(a: SndProgram, b: SndProgram) -> bool {
        &&& a.name == b.name
        &&& a.attribution == b.attribution
        &&& a.installed == b.installed
        &&& a.description == b.description
        &&& a.version == b.version
        &&& a.snd_format == b.snd_format
    }

    proof fn lemma_written_valid(m: Map<Seq<char>, JsonValue>, x: SndProgram) {
        lemma_info_keys();
        Attribution::lemma_written_valid(m["attribution"@]->Object_0@, x.attribution);
    }

    proof fn lemma_written_read(m: Map<Seq<char>, JsonValue>, x: SndProgram, y: SndProgram) {
        lemma_info_keys();
        Attribution::lemma_written_read(m["attribution"@]->Object_0@, x.attribution, y.attribution);
    }

    fn to_object(self) -> (r: JsonMap) {
        proof {
            lemma_info_keys();
        }
        let mut m = JsonMap::new();
        m.insert("name".to_owned(), JsonValue::Str(self.name));
        m.insert("attribution".to_owned(), JsonValue::Object(self.attribution.to_object()));
        m.insert("installed".to_owned(), JsonValue::Bool(self.installed));
        insert_opt_str(&mut m, "description", self.description);
        insert_opt_str(&mut m, "version", self.version);
        m.insert("snd_format".to_owned(), JsonValue::Object(write_format(self.snd_format, None)));
        assert forall|k: Seq<char>| #[trigger] m@.contains_key(k) implies set!["name"@, "attribution"@, "installed"@, "description"@, "version"@, "snd_format"@].contains(k) by {}
        m
    }

    fn from_object(m: &JsonMap) -> (r: Result<SndProgram, ConversionError>) {
        let name = read_req_str(m, "name")?;
        let attribution = read_attribution(m, "attribution")?;
        let installed = read_flag(m, "installed")?;
        let description = read_opt_str(m, "description")?;
        let version = read_opt_str(m, "version")?;
        let snd_format = read_strict_format(m, "snd_format")?;
        Ok(SndProgram { name, attribution, installed, description, version, snd_format })
    }
}

/// The satellite's answer to a describe request.
#[derive(Debug, Clone, PartialEq)]
pub struct Info {
    pub satellite: Option<SatelliteInfo>,
    pub asr: Vec<AsrProgram>,
    pub tts: Vec<TtsProgram>,
    pub handle: Vec<HandleProgram>,
    pub intent: Vec<IntentProgram>,
    pub wake: Vec<WakeProgram>,
    pub mic: Vec<MicProgram>,
    pub snd: Vec<SndProgram>,
}

impl JsonObject for Info {
    open spec fn written(m: Map<Seq<char>, JsonValue>, x: Info) -> bool {
        &&& keys_within(m, set!["satellite"@, "asr"@, "tts"@, "handle"@, "intent"@, "wake"@, "mic"@, "snd"@])
        &&& opt_obj_always_written::<SatelliteInfo>(m, "satellite"@, x.satellite)
        &&& obj_list_written::<AsrProgram>(m, "asr"@, x.asr@)
        &&& obj_list_written::<TtsProgram>(m, "tts"@, x.tts@)
        &&& obj_list_written::<HandleProgram>(m, "handle"@, x.handle@)
        &&& obj_list_written::<IntentProgram>(m, "intent"@, x.intent@)
        &&& obj_list_written::<WakeProgram>(m, "wake"@, x.wake@)
        &&& obj_list_written::<MicProgram>(m, "mic"@, x.mic@)
        &&& obj_list_written::<SndProgram>(m, "snd"@, x.snd@)
    }

    open spec fn valid(m: Map<Seq<char>, JsonValue>) -> bool {
        &&& opt_obj_ok::<SatelliteInfo>(map_get(m, "satellite"@))
        &&& obj_list_ok::<AsrProgram>(map_get(m, "asr"@))
        &&& obj_list_ok::<TtsProgram>(map_get(m, "tts"@))
        &&& obj_list_ok::<HandleProgram>(map_get(m, "handle"@))
        &&& obj_list_ok::<IntentProgram>(map_get(m, "intent"@))
        &&& obj_list_ok::<WakeProgram>(map_get(m, "wake"@))
        &&& obj_list_ok::<MicProgram>(map_get(m, "mic"@))
        &&& obj_list_ok::<SndProgram>(map_get(m, "snd"@))
    }

    open spec fn read(m: Map<Seq<char>, JsonValue>, x: Info) -> bool {
        &&& opt_obj_read::<SatelliteInfo>(map_get(m, "satellite"@), x.satellite)
        &&& obj_list_read::<AsrProgram>(map_get(m, "asr"@), x.asr@)
        &&& obj_list_read::<TtsProgram>(map_get(m, "tts"@), x.tts@)
        &&& obj_list_read::<HandleProgram>(map_get(m, "handle"@), x.handle@)
        &&& obj_list_read::<IntentProgram>(map_get(m, "intent"@), x.intent@)
        &&& obj_list_read::<WakeProgram>(map_get(m, "wake"@), x.wake@)
        &&& obj_list_read::<MicProgram>(map_get(m, "mic"@), x.mic@)
        &&& obj_list_read::<SndProgram>(map_get(m, "snd"@), x.snd@)
    }

    open spec fn same(a: Info, b: Info) -> bool {
        &&& same_opt_object::<SatelliteInfo>(a.satellite, b.satellite)
        &&& objects_same::<AsrProgram>(a.asr@, b.asr@)
        &&& objects_same::<TtsProgram>(a.tts@, b.tts@)
        &&& objects_same::<HandleProgram>(a.handle@, b.handle@)
        &&& objects_same::<IntentProgram>(a.intent@, b.intent@)
        &&& objects_same::<WakeProgram>(a.wake@, b.wake@)
        &&& objects_same::<MicProgram>(a.mic@, b.mic@)
        &&& objects_same::<SndProgram>(a.snd@, b.snd@)
    }

    proof fn lemma_written_valid(m: Map<Seq<char>, JsonValue>, x: Info) {
        lemma_info_keys();
        lemma_opt_obj_written_valid::<SatelliteInfo>(m, "satellite"@, x.satellite);
        lemma_obj_list_written_valid::<AsrProgram>(m, "asr"@, x.asr@);
        lemma_obj_list_written_valid::<TtsProgram>(m, "tts"@, x.tts@);
        lemma_obj_list_written_valid::<HandleProgram>(m, "handle"@, x.handle@);
        lemma_obj_list_written_valid::<IntentProgram>(m, "intent"@, x.intent@);
        lemma_obj_list_written_valid::<WakeProgram>(m, "wake"@, x.wake@);
        lemma_obj_list_written_valid::<MicProgram>(m, "mic"@, x.mic@);
        lemma_obj_list_written_valid::<SndProgram>(m, "snd"@, x.snd@);
    }

    proof fn lemma_written_read(m: Map<Seq<char>, JsonValue>, x: Info, y: Info) {
        lemma_info_keys();
        lemma_opt_obj_written_read::<SatelliteInfo>(m, "satellite"@, x.satellite, y.satellite);
        lemma_obj_list_written_read::<AsrProgram>(m, "asr"@, x.asr@, y.asr@);
        lemma_obj_list_written_read::<TtsProgram>(m, "tts"@, x.tts@, y.tts@);
        lemma_obj_list_written_read::<HandleProgram>(m, "handle"@, x.handle@, y.handle@);
        lemma_obj_list_written_read::<IntentProgram>(m, "intent"@, x.intent@, y.intent@);
        lemma_obj_list_written_read::<WakeProgram>(m, "wake"@, x.wake@, y.wake@);
        lemma_obj_list_written_read::<MicProgram>(m, "mic"@, x.mic@, y.mic@);
        lemma_obj_list_written_read::<SndProgram>(m, "snd"@, x.snd@, y.snd@);
    }

    fn to_object(self) -> (r: JsonMap) {
        proof {
            lemma_info_keys();
        }
        let mut m = JsonMap::new();
        insert_opt_obj_always(&mut m, "satellite", self.satellite);
        insert_obj_list(&mut m, "asr", self.asr);
        insert_obj_list(&mut m, "tts", self.tts);
        insert_obj_list(&mut m, "handle", self.handle);
        insert_obj_list(&mut m, "intent", self.intent);
        insert_obj_list(&mut m, "wake", self.wake);
        insert_obj_list(&mut m, "mic", self.mic);
        insert_obj_list(&mut m, "snd", self.snd);
        assert forall|k: Seq<char>| #[trigger] m@.contains_key(k) implies set!["satellite"@, "asr"@, "tts"@, "handle"@, "intent"@, "wake"@, "mic"@, "snd"@].contains(k) by {}
        m
    }

    fn from_object(m: &JsonMap) -> (r: Result<Info, ConversionError>) {
        let satellite = read_opt_obj::<SatelliteInfo>(m, "satellite")?;
        let asr = read_obj_list::<AsrProgram>(m, "asr")?;
        let tts = read_obj_list::<TtsProgram>(m, "tts")?;
        let handle = read_obj_list::<HandleProgram>(m, "handle")?;
        let intent = read_obj_list::<IntentProgram>(m, "intent")?;
        let wake = read_obj_list::<WakeProgram>(m, "wake")?;
        let mic = read_obj_list::<MicProgram>(m, "mic")?;
        let snd = read_obj_list::<SndProgram>(m, "snd")?;
        Ok(Info { satellite, asr, tts, handle, intent, wake, mic, snd })
    }
}

impl Default for Attribution {
    fn default() -> (r: Attribution)
        ensures
            r.name@ == Seq::<char>::empty(),
            r.url@ == Seq::<char>::empty(),
    {
        Attribution { name: String::new(), url: String::new() }
    }
}

impl Eventable for Info {
    const EVENT_TYPE: &'static str = "info";

    fn into_event(self) -> (r: Event)
        ensures
            r.event_type@ == "info"@,
            Info::written(r.data@, self),
            r.payload is None,
    {
        Event::new(Self::EVENT_TYPE).with_data(self.to_object())
    }

    fn from_event(event: Event) -> (r: Result<Info, ConversionError>)
        ensures
            event.event_type@ == "info"@ && Info::valid(event.data@) ==> (r matches Ok(i) && Info::read(event.data@, i)),
            event.event_type@ == "info"@ && !Info::valid(event.data@) ==> (r matches Err(e) && e is InvalidValue),
            event.event_type@ != "info"@ ==> (r matches Err(e) && is_wrong_type(e, "info"@, event.event_type)),
    {
        if !str_is(&event.event_type, Self::EVENT_TYPE) {
            return Err(wrong_type(Self::EVENT_TYPE, event.event_type));
        }
        Info::from_object(&event.data)
    }
}

/// An info answer written as an event and read back is the same answer.
pub proof fn lemma_info_round_trip(data: Map<Seq<char>, JsonValue>, x: Info, y: Info)
    requires
        Info::written(data, x),
        Info::read(data, y),
    ensures
        Info::valid(data),
        Info::same(x, y),
{
    Info::lemma_written_valid(data, x);
    Info::lemma_written_read(data, x, y);
}

} // verus!
