//! Wyoming events and their three-part wire format.
//!
//! ```text
//! Line 1: JSON header {"type":"...", "data_length":N, "payload_length":M, "version":"..."}\n
//! Next N bytes: JSON data section (UTF-8, no trailing newline)
//! Next M bytes: raw binary payload
//! ```
use vstd::prelude::*;

use crate::json::{
    JsonMap, JsonNumber, JsonValue, json_object_parse, json_object_text, map_get, object_from_text,
    object_to_text, same_simple_object, same_simple_value, simple_object, value_string, value_u64,
    object_nests_within, json_read_nesting, text_keeps_object, same_object, lemma_simple_object_reads_back,
    lemma_same_simple_object, braced_utf8,
};
use crate::text::{lemma_encode_push, trim, trim_text, utf8_text};
use crate::text::{back_skip_space, is_white_space, skip_space};
use vstd::utf8::{
    decode_utf8, decode_utf8_encode_utf8, encode_scalar, encode_utf8, encode_utf8_decode_utf8,
    encode_utf8_valid_utf8, valid_utf8,
};

verus! {

/// Protocol version we advertise in outgoing events.
pub const WYOMING_VERSION: &'static str = "1.5.2";

/// A raw Wyoming protocol event as it appears on the wire.
///
/// The header has been parsed, but `data` and `payload` are still generic. Domain-specific
/// types convert to and from this through the `Eventable` trait.
#[derive(Debug, Clone, PartialEq)]
pub struct Event {
    pub event_type: String,
    pub data: JsonMap,
    pub payload: Option<Vec<u8>>,
}

impl Event {
    /// An event of the given type with no data and no payload.
    pub fn new(event_type: &str) -> (r: Event)
        ensures
            r.event_type@ == event_type@,
            r.data@ == Map::<Seq<char>, JsonValue>::empty(),
            r.payload is None,
    {
        Event { event_type: event_type.to_owned(), data: JsonMap::new(), payload: None }
    }

    /// The same event with its data section replaced.
    pub fn with_data(self, data: JsonMap) -> (r: Event)
        ensures
            r.event_type == self.event_type,
            r.data == data,
            r.payload == self.payload,
    {
        Event { event_type: self.event_type, data, payload: self.payload }
    }

    /// The same event with the given payload.
    pub fn with_payload(self, payload: Vec<u8>) -> (r: Event)
        ensures
            r.event_type == self.event_type,
            r.data == self.data,
            r.payload == Some(payload),
    {
        Event { event_type: self.event_type, data: self.data, payload: Some(payload) }
    }
}

/// Errors while reading or writing the wire format.
#[derive(Debug)]
pub enum ProtocolError {
    /// The byte stream failed or ended in the middle of an event.
    Io(String),
    /// A header or data section is not a JSON object.
    Json(serde_json::Error),
    /// The header lacks a string `type`.
    InvalidHeader(String),
    /// The stream ended before the first byte of an event.
    ConnectionClosed,
}

/// Errors when converting between an `Event` and a typed domain struct.
#[derive(Debug, Clone, PartialEq, Eq)]
pub enum ConversionError {
    WrongType { expected: String, actual: String },
    MissingField(String),
    InvalidValue(String),
}

/// Conversion between typed domain structs and raw events.
pub trait Eventable: Sized {
    /// The wire type string for this event (e.g. "audio-chunk", "detection").
    const EVENT_TYPE: &'static str;

    /// Convert this typed struct into a raw Event.
    fn into_event(self) -> Event;

    /// Try to convert a raw Event into this typed struct.
    fn from_event(event: Event) -> Result<Self, ConversionError>;
}

/// The error for an event whose type is not the expected one.
pub fn wrong_type(expected: &str, actual: String) -> (r: ConversionError)
    ensures
        r matches ConversionError::WrongType { expected: e, actual: a } && e@ == expected@ && a
            == actual,
{
    ConversionError::WrongType { expected: expected.to_owned(), actual }
}

/// Whether `err` reports a wrong event type, `expected` instead of `actual`.
pub open spec fn is_wrong_type(err: ConversionError, expected: Seq<char>, actual: String) -> bool {
    err matches ConversionError::WrongType { expected: e, actual: a } && e@ == expected && a == actual
}

/// Whether `err` reports the missing field `name`.
pub open spec fn is_missing_field(err: ConversionError, name: Seq<char>) -> bool {
    err matches ConversionError::MissingField(f) && f@ == name
}

/// The error for a missing required field.
pub fn missing_field(name: &str) -> (r: ConversionError)
    ensures
        is_missing_field(r, name@),
{
    ConversionError::MissingField(name.to_owned())
}

/// Whether a string equals a literal.
pub fn str_is(s: &String, lit: &str) -> (r: bool)
    ensures
        r == (s@ == lit@),
{
    *s == lit.to_owned()
}

// ----------------------------------------------------------------------------
// Header
// ----------------------------------------------------------------------------

/// The fields of a parsed header line that framing needs.
#[derive(Debug)]
pub struct EventHeader {
    pub event_type: String,
    pub data_length: u64,
    pub payload_length: u64,
    /// The short data carried in the header itself (its `data` object; empty without one).
    pub data: JsonMap,
}

/// A length field of a header: its value if it is an unsigned integer, else 0.
pub open spec fn length_field(h: Map<Seq<char>, JsonValue>, key: Seq<char>) -> u64 {
    match value_u64(map_get(h, key)) {
        Some(n) => n,
        None => 0,
    }
}

/// The data a header carries inline: its `data` field where that is an object, else none.
pub open spec fn inline_data(h: Map<Seq<char>, JsonValue>) -> Map<Seq<char>, JsonValue> {
    match map_get(h, "data"@) {
        Some(JsonValue::Object(m)) => m@,
        _ => Map::empty(),
    }
}

/// What a header line reads as.
pub enum HeaderSpec {
    /// The line is empty: the stream has closed.
    Closed,
    /// The line is not UTF-8 text.
    NotText,
    /// The line, trimmed of white space at both ends, is not a JSON object.
    NotJson,
    /// The object has no string `type`.
    NoType,
    /// The type, the two lengths and the inline data.
    Fields { event_type: Seq<char>, data_length: u64, payload_length: u64, data: Map<Seq<char>, JsonValue> },
}

/// How a header line parses: an empty line means the stream has closed; otherwise the line
/// must be UTF-8, and its text, trimmed of white space at both ends, a JSON object.
pub open spec fn header_spec(line: Seq<u8>) -> HeaderSpec {
    if line.len() == 0 {
        HeaderSpec::Closed
    } else if !valid_utf8(line) {
        HeaderSpec::NotText
    } else {
        match json_object_parse(encode_utf8(trim(decode_utf8(line)))) {
            None => HeaderSpec::NotJson,
            Some(h) => header_object_spec(h),
        }
    }
}

/// How a parsed header object reads: its string `type`, its two lengths (0 where absent or
/// not unsigned integers) and its inline data; other fields are ignored.
pub open spec fn header_object_spec(h: Map<Seq<char>, JsonValue>) -> HeaderSpec {
    match value_string(map_get(h, "type"@)) {
        None => HeaderSpec::NoType,
        Some(t) => HeaderSpec::Fields {
            event_type: t@,
            data_length: length_field(h, "data_length"@),
            payload_length: length_field(h, "payload_length"@),
            data: inline_data(h),
        },
    }
}

/// Whether a header result agrees with `header_spec`.
pub open spec fn header_matches(r: Result<EventHeader, ProtocolError>, spec: HeaderSpec) -> bool {
    match spec {
        HeaderSpec::Closed => r matches Err(ProtocolError::ConnectionClosed),
        HeaderSpec::NotText => r matches Err(ProtocolError::Io(_)),
        HeaderSpec::NotJson => r matches Err(ProtocolError::Json(_)),
        HeaderSpec::NoType => r matches Err(ProtocolError::InvalidHeader(_)),
        HeaderSpec::Fields { event_type, data_length, payload_length, data } => r matches Ok(h)
            && h.event_type@ == event_type && h.data_length == data_length && h.payload_length
            == payload_length && h.data@ == data,
    }
}

/// Parse a header line as read from the stream (newline included, if any).
/// An empty line means the stream has closed; a line that is not UTF-8 is a stream error.
pub fn parse_header(line: &[u8]) -> (r: Result<EventHeader, ProtocolError>)
    ensures
        header_matches(r, header_spec(line@)),
{
    if line.len() == 0 {
        return Err(ProtocolError::ConnectionClosed);
    }
    let text = match utf8_text(line) {
        Some(t) => t,
        None => return Err(ProtocolError::Io("stream did not contain valid UTF-8".to_owned())),
    };
    let trimmed = trim_text(text);
    match object_from_text(trimmed.as_str().as_bytes()) {
        Ok(h) => header_from_object(h),
        Err(e) => Err(ProtocolError::Json(e)),
    }
}

/// The fields of a parsed header object: its string `type` (an `InvalidHeader` error where
/// there is none), its two lengths, each 0 where absent or not an unsigned integer, and its
/// inline `data` object (empty where absent or not an object). Other fields are ignored.
pub fn header_from_object(header: JsonMap) -> (r: Result<EventHeader, ProtocolError>)
    ensures
        header_matches(r, header_object_spec(header@)),
{
    let mut header = header;
    let ghost h = header@;
    let event_type = match header.remove("type") {
        Some(JsonValue::Str(s)) => s,
        _ => return Err(ProtocolError::InvalidHeader("missing 'type' field".to_owned())),
    };
    let data_length = match header.get("data_length") {
        Some(v) => match v.as_u64() {
            Some(n) => n,
            None => 0,
        },
        None => 0,
    };
    let payload_length = match header.get("payload_length") {
        Some(v) => match v.as_u64() {
            Some(n) => n,
            None => 0,
        },
        None => 0,
    };
    let data = match header.remove("data") {
        Some(JsonValue::Object(m)) => m,
        _ => JsonMap::new(),
    };
    proof {
        reveal_strlit("type");
        reveal_strlit("data");
        reveal_strlit("data_length");
        reveal_strlit("payload_length");
        assert("type"@.len() != "data_length"@.len());
        assert("type"@.len() != "payload_length"@.len());
        assert("type"@.len() != "data"@.len() + 1);
        assert("type"@ != "data"@) by {
            assert("type"@[0] != "data"@[0]);
        }
        assert(map_get(h, "data_length"@) == map_get(h.remove("type"@), "data_length"@));
        assert(map_get(h, "payload_length"@) == map_get(h.remove("type"@), "payload_length"@));
        assert(map_get(h, "data"@) == map_get(h.remove("type"@), "data"@));
    }
    Ok(EventHeader { event_type, data_length, payload_length, data })
}

/// The header object written for an event whose data section is `data_len` bytes long.
pub open spec fn header_fields_for(h: Map<Seq<char>, JsonValue>, e: Event, data_len: nat) -> bool {
    &&& forall|k: Seq<char>| #[trigger] h.contains_key(k) ==> (k == "type"@ || k == "version"@ || k
        == "data_length"@ || k == "payload_length"@)
    &&& value_string(map_get(h, "type"@)) matches Some(t) && t@ == e.event_type@
    &&& value_string(map_get(h, "version"@)) matches Some(v) && v@ == WYOMING_VERSION@
    &&& map_get(h, "data_length"@) == if e.data@ == Map::<Seq<char>, JsonValue>::empty() {
        None
    } else {
        Some(JsonValue::Number(JsonNumber::PosInt(data_len as u64)))
    }
    &&& map_get(h, "payload_length"@) == match e.payload {
        Some(p) => Some(JsonValue::Number(JsonNumber::PosInt(p@.len() as u64))),
        None => None,
    }
}

/// The data section written for an event: nothing for empty data, else its JSON text.
pub open spec fn data_section(e: Event) -> Seq<u8> {
    if e.data@ == Map::<Seq<char>, JsonValue>::empty() {
        Seq::empty()
    } else {
        json_object_text(e.data@)
    }
}

/// The payload section written for an event.
pub open spec fn payload_section(e: Event) -> Seq<u8> {
    match e.payload {
        Some(p) => p@,
        None => Seq::empty(),
    }
}

/// `bytes` is the wire form of `e`: a header line whose JSON text carries the type, the
/// version and the lengths and nothing else, then the data section, then the payload.
pub open spec fn is_encoding_of(bytes: Seq<u8>, e: Event) -> bool {
    exists|h: Map<Seq<char>, JsonValue>|
        {
            &&& #[trigger] header_fields_for(h, e, data_section(e).len())
            &&& simple_object(h)
            &&& bytes == json_object_text(h) + seq![10u8] + data_section(e) + payload_section(e)
            &&& bytes.len() <= u64::MAX
            &&& !json_object_text(h).contains(10u8)
            &&& json_object_parse(json_object_text(h)) matches Some(p) && same_simple_object(p, h)
            &&& braced_utf8(json_object_text(h))
            &&& e.data@ != Map::<Seq<char>, JsonValue>::empty() ==> {
                &&& data_section(e).len() > 0
                &&& json_object_parse(data_section(e)) is Some <==> object_nests_within(e.data@, json_read_nesting())
                &&& object_nests_within(e.data@, json_read_nesting()) && text_keeps_object(e.data@) ==> same_object(
                    json_object_parse(data_section(e)).unwrap(),
                    e.data@,
                )
            }
        }
}

/// Append bytes to a buffer.
fn append_bytes(out: &mut Vec<u8>, bytes: &[u8])
    ensures
        final(out)@ == old(out)@ + bytes@,
{
    let mut i: usize = 0;
    while i < bytes.len()
        invariant
            i <= bytes@.len(),
            out@ == old(out)@ + bytes@.take(i as int),
        decreases bytes@.len() - i,
    {
        out.push(bytes[i]);
        i = i + 1;
        assert(bytes@.take(i as int) =~= bytes@.take(i - 1) + seq![bytes@[i - 1]]);
    }
    assert(bytes@.take(i as int) =~= bytes@);
}

/// The three-part wire form of an event: header line, data section, payload.
pub fn encode_event(event: &Event) -> (r: Vec<u8>)
    ensures
        is_encoding_of(r@, *event),
{
    let mut header = JsonMap::new();
    header.insert("type".to_owned(), JsonValue::Str(event.event_type.clone()));
    header.insert("version".to_owned(), JsonValue::Str(WYOMING_VERSION.to_owned()));
    let data_bytes: Vec<u8> = if !event.data.is_empty() {
        let bytes = object_to_text(&event.data);
        header.insert("data_length".to_owned(), JsonValue::Number(JsonNumber::PosInt(bytes.len() as u64)));
        bytes
    } else {
        Vec::new()
    };
    match &event.payload {
        Some(p) => {
            header.insert("payload_length".to_owned(), JsonValue::Number(JsonNumber::PosInt(p.len() as u64)));
        },
        None => {},
    }
    let ghost h = header@;
    let mut out = object_to_text(&header);
    let ghost text = out@;
    out.push(10u8);
    append_bytes(&mut out, data_bytes.as_slice());
    match &event.payload {
        Some(p) => append_bytes(&mut out, p.as_slice()),
        None => {},
    }
    proof {
        reveal_strlit("type");
        reveal_strlit("version");
        reveal_strlit("data_length");
        reveal_strlit("payload_length");
        assert("type"@.len() != "version"@.len());
        assert("type"@.len() != "data_length"@.len());
        assert("type"@.len() != "payload_length"@.len());
        assert("version"@.len() != "data_length"@.len());
        assert("version"@.len() != "payload_length"@.len());
        assert("data_length"@ != "payload_length"@) by {
            assert("data_length"@[0] != "payload_length"@[0]);
        }
        assert(header_fields_for(h, *event, data_section(*event).len()));
        assert(simple_object(h));
        lemma_simple_object_reads_back(h);
        lemma_same_simple_object(json_object_parse(text).unwrap(), h);
        assert(out@ == text + seq![10u8] + data_section(*event) + payload_section(*event));
        assert(out@.len() == out.len());
    }
    out
}

// ----------------------------------------------------------------------------
// Decoding
// ----------------------------------------------------------------------------

/// Length of the first line of `buf`, newline included; all of `buf` if it has no newline.
pub open spec fn line_length(buf: Seq<u8>) -> nat
    decreases buf.len(),
{
    if buf.len() == 0 {
        0
    } else if buf[0] == 10u8 {
        1
    } else {
        1 + line_length(buf.skip(1))
    }
}

/// What decoding a buffer yields.
pub enum FrameSpec {
    /// The buffer is empty: the stream has closed.
    Closed,
    /// The header line is not UTF-8.
    NotText,
    /// The header or the data section is not a JSON object.
    BadJson,
    /// The header has no string `type`.
    BadHeader,
    /// The buffer ends inside the data section or the payload.
    Truncated,
    /// A whole event, and the number of bytes it takes.
    Frame { event_type: Seq<char>, data: Map<Seq<char>, JsonValue>, payload: Option<Seq<u8>>, consumed: nat },
}

/// Decoding of the first event in `buf`: its header line, `data_length` bytes of JSON data
/// (an empty object where that length is 0), then `payload_length` bytes of payload (none
/// where that length is 0). The event's data is the header's inline data updated by the
/// data section: where both hold a key, the data section's value wins.
pub open spec fn decode_spec(buf: Seq<u8>) -> FrameSpec {
    let n = line_length(buf);
    match header_spec(buf.take(n as int)) {
        HeaderSpec::Closed => FrameSpec::Closed,
        HeaderSpec::NotText => FrameSpec::NotText,
        HeaderSpec::NotJson => FrameSpec::BadJson,
        HeaderSpec::NoType => FrameSpec::BadHeader,
        HeaderSpec::Fields { event_type: t, data_length: dl, payload_length: pl, data: hd } => {
            let rest = buf.skip(n as int);
            if rest.len() < dl {
                FrameSpec::Truncated
            } else {
                let data = if dl > 0 {
                    json_object_parse(rest.take(dl as int))
                } else {
                    Some(Map::<Seq<char>, JsonValue>::empty())
                };
                match data {
                    None => FrameSpec::BadJson,
                    Some(d) => if rest.len() < dl + pl {
                        FrameSpec::Truncated
                    } else {
                        FrameSpec::Frame {
                            event_type: t,
                            data: hd.union_prefer_right(d),
                            payload: if pl > 0 {
                                Some(rest.subrange(dl as int, dl + pl))
                            } else {
                                None
                            },
                            consumed: (n + dl + pl) as nat,
                        }
                    },
                }
            }
        },
    }
}

/// Whether a decoding result agrees with `decode_spec`.
pub open spec fn frame_matches(r: Result<(Event, usize), ProtocolError>, spec: FrameSpec) -> bool {
    match spec {
        FrameSpec::Closed => r matches Err(ProtocolError::ConnectionClosed),
        FrameSpec::NotText => r matches Err(ProtocolError::Io(_)),
        FrameSpec::BadJson => r matches Err(ProtocolError::Json(_)),
        FrameSpec::BadHeader => r matches Err(ProtocolError::InvalidHeader(_)),
        FrameSpec::Truncated => r matches Err(ProtocolError::Io(_)),
        FrameSpec::Frame { event_type, data, payload, consumed } => r matches Ok((e, c)) && e.event_type@
            == event_type && e.data@ == data && c == consumed && match payload {
            Some(p) => e.payload matches Some(q) && q@ == p,
            None => e.payload is None,
        },
    }
}

/// Length of the first line of `buf`, newline included.
fn find_line_length(buf: &[u8]) -> (r: usize)
    ensures
        r == line_length(buf@),
        r <= buf@.len(),
{
    proof {
        lemma_line_length_bound(buf@);
    }
    let mut i: usize = 0;
    assert(buf@.skip(0) =~= buf@);
    while i < buf.len()
        invariant
            i <= buf@.len(),
            line_length(buf@) == i + line_length(buf@.skip(i as int)),
        decreases buf@.len() - i,
    {
        assert(buf@.skip(i as int).skip(1) =~= buf@.skip(i + 1));
        if buf[i] == 10u8 {
            return i + 1;
        }
        i = i + 1;
    }
    proof {
        r_zero_tail(buf@, i as int);
    }
    i
}

proof fn lemma_line_length_bound(buf: Seq<u8>)
    ensures
        line_length(buf) <= buf.len(),
    decreases buf.len(),
{
    if buf.len() > 0 && buf[0] != 10u8 {
        lemma_line_length_bound(buf.skip(1));
    }
}

proof fn r_zero_tail(buf: Seq<u8>, i: int)
    requires
        i == buf.len(),
    ensures
        line_length(buf.skip(i)) == 0,
{
    assert(buf.skip(i).len() == 0);
}

/// Copy `buf[start..end]` into a new vector.
fn copy_range(buf: &[u8], start: usize, end: usize) -> (r: Vec<u8>)
    requires
        start <= end <= buf@.len(),
    ensures
        r@ == buf@.subrange(start as int, end as int),
{
    let mut out: Vec<u8> = Vec::new();
    let mut i: usize = start;
    while i < end
        invariant
            start <= i <= end <= buf@.len(),
            out@ == buf@.subrange(start as int, i as int),
        decreases end - i,
    {
        out.push(buf[i]);
        i = i + 1;
        assert(out@ =~= buf@.subrange(start as int, i as int));
    }
    out
}

/// Assemble an event from its parsed header and the bytes of its data section and payload;
/// the data section updates the header's inline data.
pub fn assemble_event(header: EventHeader, data: &[u8], payload: Vec<u8>) -> (r: Result<Event, ProtocolError>)
    requires
        data@.len() == header.data_length,
        payload@.len() == header.payload_length,
    ensures
        header.data_length > 0 && json_object_parse(data@) is None ==> r matches Err(ProtocolError::Json(_)),
        header.data_length > 0 && json_object_parse(data@) is Some ==> (r matches Ok(e) && e.data@
            == header.data@.union_prefer_right(json_object_parse(data@).unwrap())),
        header.data_length == 0 ==> (r matches Ok(e) && e.data@ == header.data@),
        r matches Ok(e) ==> e.event_type == header.event_type && if header.payload_length > 0 {
            e.payload == Some(payload)
        } else {
            e.payload is None
        },
{
    let EventHeader { event_type, data_length, payload_length, data: inline } = header;
    let mut data_map = inline;
    if data_length > 0 {
        match object_from_text(data) {
            Ok(m) => data_map.extend(m),
            Err(e) => return Err(ProtocolError::Json(e)),
        }
    }
    let payload_opt = if payload_length > 0 {
        Some(payload)
    } else {
        None
    };
    Ok(Event { event_type, data: data_map, payload: payload_opt })
}

/// Decode the first event in `buf`, giving the event and the number of bytes it takes.
pub fn decode_event(buf: &[u8]) -> (r: Result<(Event, usize), ProtocolError>)
    ensures
        frame_matches(r, decode_spec(buf@)),
{
    let n = find_line_length(buf);
    let line = copy_range(buf, 0, n);
    assert(line@ == buf@.take(n as int));
    let header = parse_header(line.as_slice())?;
    let rest_len = buf.len() - n;
    if (rest_len as u64) < header.data_length {
        return Err(ProtocolError::Io("unexpected end of data section".to_owned()));
    }
    let dl = header.data_length as usize;
    let data = copy_range(buf, n, n + dl);
    assert(data@ == buf@.skip(n as int).take(dl as int));
    if header.data_length > 0 {
        match object_from_text(data.as_slice()) {
            Ok(_) => {},
            Err(e) => return Err(ProtocolError::Json(e)),
        }
    }
    if ((rest_len - dl) as u64) < header.payload_length {
        return Err(ProtocolError::Io("unexpected end of payload".to_owned()));
    }
    let pl = header.payload_length as usize;
    let payload = copy_range(buf, n + dl, n + dl + pl);
    assert(payload@ == buf@.skip(n as int).subrange(dl as int, dl + pl));
    let ghost inline = header.data@;
    proof {
        assert(inline.union_prefer_right(Map::<Seq<char>, JsonValue>::empty()) =~= inline);
    }
    let event = assemble_event(header, data.as_slice(), payload)?;
    Ok((event, n + dl + pl))
}


/// A header text followed by its newline reads, once trimmed, as the text itself.
proof fn lemma_braced_line(text: Seq<u8>)
    requires
        braced_utf8(text),
    ensures
        valid_utf8(text.push(10u8)),
        encode_utf8(trim(decode_utf8(text.push(10u8)))) == text,
{
    let cs = decode_utf8(text);
    decode_utf8_encode_utf8(text);
    lemma_encode_push(cs, '\n');
    let nl: u32 = '\n' as u32;
    assert(nl == 10);
    assert((nl & 0x7F) as u8 == 10u8) by (bit_vector)
        requires
            nl == 10,
    ;
    assert(encode_scalar(nl) =~= seq![10u8]);
    let s = cs.push('\n');
    assert(text.push(10u8) =~= encode_utf8(s));
    encode_utf8_valid_utf8(s);
    encode_utf8_decode_utf8(s);
    assert(s[0] == '{');
    assert(!is_white_space(s[0]));
    assert(skip_space(s, 0) == 0);
    assert(s[s.len() - 2] == '}');
    assert(!is_white_space(s[s.len() - 2]));
    assert(back_skip_space(s, (s.len() - 1) as nat, 0) == s.len() - 1);
    assert(is_white_space(s[s.len() - 1]));
    assert(back_skip_space(s, s.len(), 0) == s.len() - 1);
    assert(trim(s) =~= cs);
}

proof fn lemma_line_length_of_encoding(text: Seq<u8>, rest: Seq<u8>)
    requires
        !text.contains(10u8),
    ensures
        line_length(text + seq![10u8] + rest) == text.len() + 1,
    decreases text.len(),
{
    let s = text + seq![10u8] + rest;
    if text.len() == 0 {
        assert(s[0] == 10u8);
    } else {
        assert(s[0] == text[0]);
        assert(text[0] != 10u8) by {
            if text[0] == 10u8 {
                assert(text.contains(10u8));
            }
        }
        let t1 = text.skip(1);
        assert(!t1.contains(10u8)) by {
            if t1.contains(10u8) {
                let i = choose|i: int| 0 <= i < t1.len() && t1[i] == 10u8;
                assert(text[i + 1] == 10u8);
            }
        }
        assert(s.skip(1) =~= t1 + seq![10u8] + rest);
        lemma_line_length_of_encoding(t1, rest);
    }
}

/// An empty stream decodes as closed: after the last event written, reading gives
/// `ConnectionClosed`.
pub proof fn lemma_decode_empty()
    ensures
        decode_spec(Seq::<u8>::empty()) is Closed,
{
    assert(line_length(Seq::<u8>::empty()) == 0);
    assert(Seq::<u8>::empty().take(0) =~= Seq::<u8>::empty());
}

/// The payload that decoding gives back for an event: its bytes, if there are any.
pub open spec fn decoded_payload(e: Event) -> Option<Seq<u8>> {
    if payload_section(e).len() > 0 {
        Some(payload_section(e))
    } else {
        None
    }
}

/// Reading back what was written: decoding the wire form of an event whose data nests
/// arrays and objects no deeper than serde_json reads, whatever follows it in the stream,
/// yields the event's type and payload (an empty payload reads back as none), takes exactly
/// the bytes of its wire form, and yields the data that serde_json reads from the data
/// section; an empty data section reads back as an empty object, and data without
/// fractional numbers reads back as the same JSON, nested arrays and objects included.
pub proof fn lemma_decode_encoding(bytes: Seq<u8>, e: Event, rest: Seq<u8>)
    requires
        is_encoding_of(bytes, e),
        object_nests_within(e.data@, json_read_nesting()),
    ensures
        decode_spec(bytes + rest) matches FrameSpec::Frame { event_type, data, payload, consumed } && event_type
            == e.event_type@ && consumed == bytes.len() && payload == decoded_payload(e) && (e.data@
            == Map::<Seq<char>, JsonValue>::empty() ==> data == Map::<Seq<char>, JsonValue>::empty()) && (
        e.data@ != Map::<Seq<char>, JsonValue>::empty() ==> Some(data) == json_object_parse(
            json_object_text(e.data@),
        )) && (text_keeps_object(e.data@) ==> same_object(data, e.data@)),
{
    let h = choose|h: Map<Seq<char>, JsonValue>|
        {
            &&& #[trigger] header_fields_for(h, e, data_section(e).len())
            &&& simple_object(h)
            &&& bytes == json_object_text(h) + seq![10u8] + data_section(e) + payload_section(e)
            &&& bytes.len() <= u64::MAX
            &&& !json_object_text(h).contains(10u8)
            &&& json_object_parse(json_object_text(h)) matches Some(p) && same_simple_object(p, h)
            &&& braced_utf8(json_object_text(h))
            &&& e.data@ != Map::<Seq<char>, JsonValue>::empty() ==> {
                &&& data_section(e).len() > 0
                &&& json_object_parse(data_section(e)) is Some <==> object_nests_within(e.data@, json_read_nesting())
                &&& object_nests_within(e.data@, json_read_nesting()) && text_keeps_object(e.data@) ==> same_object(
                    json_object_parse(data_section(e)).unwrap(),
                    e.data@,
                )
            }
        };
    let text = json_object_text(h);
    let d = data_section(e);
    let pay = payload_section(e);
    let buf = bytes + rest;
    let tail = d + pay + rest;
    assert(buf =~= text + seq![10u8] + tail);
    lemma_line_length_of_encoding(text, tail);
    let n = text.len() + 1;
    assert(buf.take(n as int) =~= text.push(10u8));
    assert(buf.skip(n as int) =~= tail);
    let p = json_object_parse(text).unwrap();
    reveal_strlit("type");
    reveal_strlit("data_length");
    reveal_strlit("payload_length");
    assert(p.contains_key("type"@));
    let t = value_string(map_get(p, "type"@)).unwrap();
    assert(t@ == e.event_type@);
    let dl = length_field(p, "data_length"@);
    let pl = length_field(p, "payload_length"@);
    assert(dl == d.len()) by {
        if e.data@ == Map::<Seq<char>, JsonValue>::empty() {
            assert(!h.contains_key("data_length"@));
            assert(!p.contains_key("data_length"@));
        } else {
            assert(h.contains_key("data_length"@));
            assert(p.contains_key("data_length"@));
            assert(same_simple_value(p["data_length"@], h["data_length"@]));
        }
    }
    assert(pl == pay.len()) by {
        if e.payload is Some {
            assert(h.contains_key("payload_length"@));
            assert(p.contains_key("payload_length"@));
            assert(same_simple_value(p["payload_length"@], h["payload_length"@]));
        } else {
            assert(!h.contains_key("payload_length"@));
            assert(!p.contains_key("payload_length"@));
        }
    }
    lemma_braced_line(text);
    reveal_strlit("data");
    reveal_strlit("version");
    assert(!h.contains_key("data"@)) by {
        assert("data"@[0] != "type"@[0]);
        assert("data"@.len() != "version"@.len());
        assert("data"@.len() != "data_length"@.len());
        assert("data"@.len() != "payload_length"@.len());
    }
    assert(!p.contains_key("data"@));
    assert(inline_data(p) =~= Map::<Seq<char>, JsonValue>::empty());
    assert(header_spec(buf.take(n as int)) == HeaderSpec::Fields {
        event_type: t@,
        data_length: dl,
        payload_length: pl,
        data: Map::<Seq<char>, JsonValue>::empty(),
    });
    assert(tail.take(dl as int) =~= d);
    assert(tail.subrange(dl as int, dl + pl) =~= pay);
    if dl > 0 {
        let dd = json_object_parse(d).unwrap();
        assert(Map::<Seq<char>, JsonValue>::empty().union_prefer_right(dd) =~= dd);
    } else {
        assert(Map::<Seq<char>, JsonValue>::empty().union_prefer_right(Map::<Seq<char>, JsonValue>::empty())
            =~= Map::<Seq<char>, JsonValue>::empty());
    }
    if e.data@ == Map::<Seq<char>, JsonValue>::empty() {
        assert(same_object(Map::<Seq<char>, JsonValue>::empty(), e.data@));
    }
}

} // verus!
