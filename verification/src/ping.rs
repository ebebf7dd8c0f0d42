//! Keepalive ping and pong.
//!
//! Home Assistant sends pings periodically (about two seconds after going idle) and expects a
//! pong within five seconds; failing to reply makes it drop the connection and reconnect.
use vstd::prelude::*;

use crate::event::{is_wrong_type, str_is, wrong_type, ConversionError, Event, Eventable};
use crate::json::{map_get, take_string, value_string, JsonMap, JsonValue};

verus! {

/// The data section holding an echo text: empty when the text is empty.
pub open spec fn text_data(text: String) -> Map<Seq<char>, JsonValue> {
    if text@.len() == 0 {
        Map::empty()
    } else {
        Map::empty().insert("text"@, JsonValue::Str(text))
    }
}

/// The echo text read back from a data section: the empty text when absent or not a string.
pub open spec fn text_of(data: Map<Seq<char>, JsonValue>) -> Seq<char> {
    match value_string(map_get(data, "text"@)) {
        Some(s) => s@,
        None => Seq::empty(),
    }
}

/// Writing an echo text and reading it back gives the same text.
pub proof fn lemma_text_round_trip(text: String)
    ensures
        text_of(text_data(text)) == text@,
{
}

/// Build the data section for an echo text.
fn write_text(text: String) -> (r: JsonMap)
    ensures
        r@ == text_data(text),
{
    let mut data = JsonMap::new();
    if !text.as_str().is_empty() {
        data.insert("text".to_owned(), JsonValue::Str(text));
    }
    data
}

/// Read the echo text out of a data section.
fn read_text(data: JsonMap) -> (r: String)
    ensures
        r@ == text_of(data@),
        value_string(map_get(data@, "text"@)) matches Some(s) ==> r == s,
{
    let mut data = data;
    match take_string(&mut data, "text") {
        Some(s) => s,
        None => String::new(),
    }
}

/// Keepalive ping from server to satellite (or the other way round).
#[derive(Debug, Clone, PartialEq, Eq)]
pub struct Ping {
    /// Opaque text echoed back in the Pong response.
    pub text: String,
}

impl Eventable for Ping {
    const EVENT_TYPE: &'static str = "ping";

    fn into_event(self) -> (r: Event)
        ensures
            r.event_type@ == "ping"@,
            r.data@ == text_data(self.text),
            r.payload is None,
    {
        Event::new(Self::EVENT_TYPE).with_data(write_text(self.text))
    }

    fn from_event(event: Event) -> (r: Result<Ping, ConversionError>)
        ensures
            event.event_type@ == "ping"@ ==> (r matches Ok(p) && p.text@ == text_of(event.data@)),
            event.event_type@ != "ping"@ ==> (r matches Err(e) && is_wrong_type(e, "ping"@, event.event_type)),
    {
        if !str_is(&event.event_type, Self::EVENT_TYPE) {
            return Err(wrong_type(Self::EVENT_TYPE, event.event_type));
        }
        Ok(Ping { text: read_text(event.data) })
    }
}

/// Keepalive pong, sent in reply to a `Ping`.
#[derive(Debug, Clone, PartialEq, Eq)]
pub struct Pong {
    /// The text of the Ping it answers, echoed back.
    pub text: String,
}

impl Eventable for Pong {
    const EVENT_TYPE: &'static str = "pong";

    fn into_event(self) -> (r: Event)
        ensures
            r.event_type@ == "pong"@,
            r.data@ == text_data(self.text),
            r.payload is None,
    {
        Event::new(Self::EVENT_TYPE).with_data(write_text(self.text))
    }

    fn from_event(event: Event) -> (r: Result<Pong, ConversionError>)
        ensures
            event.event_type@ == "pong"@ ==> (r matches Ok(p) && p.text@ == text_of(event.data@)),
            event.event_type@ != "pong"@ ==> (r matches Err(e) && is_wrong_type(e, "pong"@, event.event_type)),
    {
        if !str_is(&event.event_type, Self::EVENT_TYPE) {
            return Err(wrong_type(Self::EVENT_TYPE, event.event_type));
        }
        Ok(Pong { text: read_text(event.data) })
    }
}

} // verus!
