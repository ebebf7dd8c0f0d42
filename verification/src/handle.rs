//! Intent-handling events.
use vstd::prelude::*;

use crate::asr::{insert_context, insert_text};
use crate::event::{is_missing_field, is_wrong_type, str_is, wrong_type, ConversionError, Event, Eventable};
use crate::json::{insert_opt, map_get, opt_str_value, take_string, take_value, value_string, JsonMap, JsonValue};
use crate::tts::{read_required_text, required_text_data, required_text_of, write_required_text};

verus! {

/// The keys `text` and `context` are distinct.
proof fn lemma_text_context_distinct()
    ensures
        "text"@ != "context"@,
{
    reveal_strlit("text");
    reveal_strlit("context");
    assert("text"@.len() == 4 && "context"@.len() == 7);
}

/// The data section holding an optional text and an optional context.
pub open spec fn text_context_data(text: Option<String>, context: Option<JsonValue>) -> Map<Seq<char>, JsonValue> {
    insert_opt(insert_opt(Map::empty(), "text"@, opt_str_value(text)), "context"@, context)
}

/// The optional text read from a data section.
pub open spec fn text_at(data: Map<Seq<char>, JsonValue>) -> Option<String> {
    value_string(map_get(data, "text"@))
}

/// The optional context read from a data section.
pub open spec fn context_at(data: Map<Seq<char>, JsonValue>) -> Option<JsonValue> {
    map_get(data, "context"@)
}

/// An optional text and context written and read back are the same.
pub proof fn lemma_text_context_round_trip(text: Option<String>, context: Option<JsonValue>)
    ensures
        text_at(text_context_data(text, context)) == text,
        context_at(text_context_data(text, context)) == context,
{
    lemma_text_context_distinct();
}

/// Build the data section holding an optional text and an optional context.
pub fn write_text_context(text: Option<String>, context: Option<JsonValue>) -> (r: JsonMap)
    ensures
        r@ == text_context_data(text, context),
{
    let mut data = JsonMap::new();
    insert_text(&mut data, "text", text);
    insert_context(&mut data, context);
    data
}

/// Read the optional text and the optional context of a data section.
pub fn read_text_context(data: JsonMap) -> (r: (Option<String>, Option<JsonValue>))
    ensures
        r.0 == text_at(data@),
        r.1 == context_at(data@),
{
    proof {
        lemma_text_context_distinct();
    }
    let mut data = data;
    let text = take_string(&mut data, "text");
    let context = take_value(&mut data, "context");
    (text, context)
}

/// Build the data section holding an optional context.
pub fn write_context(context: Option<JsonValue>) -> (r: JsonMap)
    ensures
        r@ == insert_opt(Map::empty(), "context"@, context),
{
    let mut data = JsonMap::new();
    insert_context(&mut data, context);
    data
}

/// Read the optional context of a data section.
pub fn read_context(data: JsonMap) -> (r: Option<JsonValue>)
    ensures
        r == context_at(data@),
{
    let mut data = data;
    take_value(&mut data, "context")
}

/// The intent was handled.
#[derive(Debug, Clone, PartialEq)]
pub struct Handled {
    pub text: Option<String>,
    pub context: Option<JsonValue>,
}

impl Eventable for Handled {
    const EVENT_TYPE: &'static str = "handled";

    fn into_event(self) -> (r: Event)
        ensures
            r.event_type@ == "handled"@,
            r.data@ == text_context_data(self.text, self.context),
            r.payload is None,
    {
        Event::new(Self::EVENT_TYPE).with_data(write_text_context(self.text, self.context))
    }

    fn from_event(event: Event) -> (r: Result<Handled, ConversionError>)
        ensures
            event.event_type@ == "handled"@ ==> r == Ok::<Handled, ConversionError>(
                Handled { text: text_at(event.data@), context: context_at(event.data@) },
            ),
            event.event_type@ != "handled"@ ==> (r matches Err(e) && is_wrong_type(e, "handled"@, event.event_type)),
    {
        if !str_is(&event.event_type, Self::EVENT_TYPE) {
            return Err(wrong_type(Self::EVENT_TYPE, event.event_type));
        }
        let (text, context) = read_text_context(event.data);
        Ok(Handled { text, context })
    }
}

/// The intent was not handled.
#[derive(Debug, Clone, PartialEq)]
pub struct NotHandled {
    pub text: Option<String>,
    pub context: Option<JsonValue>,
}

impl Eventable for NotHandled {
    const EVENT_TYPE: &'static str = "not-handled";

    fn into_event(self) -> (r: Event)
        ensures
            r.event_type@ == "not-handled"@,
            r.data@ == text_context_data(self.text, self.context),
            r.payload is None,
    {
        Event::new(Self::EVENT_TYPE).with_data(write_text_context(self.text, self.context))
    }

    fn from_event(event: Event) -> (r: Result<NotHandled, ConversionError>)
        ensures
            event.event_type@ == "not-handled"@ ==> r == Ok::<NotHandled, ConversionError>(
                NotHandled { text: text_at(event.data@), context: context_at(event.data@) },
            ),
            event.event_type@ != "not-handled"@ ==> (r matches Err(e) && is_wrong_type(e, "not-handled"@, event.event_type)),
    {
        if !str_is(&event.event_type, Self::EVENT_TYPE) {
            return Err(wrong_type(Self::EVENT_TYPE, event.event_type));
        }
        let (text, context) = read_text_context(event.data);
        Ok(NotHandled { text, context })
    }
}

/// Start of a streamed handled response.
#[derive(Debug, Clone, PartialEq)]
pub struct HandledStart {
    pub context: Option<JsonValue>,
}

impl Eventable for HandledStart {
    const EVENT_TYPE: &'static str = "handled-start";

    fn into_event(self) -> (r: Event)
        ensures
            r.event_type@ == "handled-start"@,
            r.data@ == insert_opt(Map::empty(), "context"@, self.context),
            r.payload is None,
    {
        Event::new(Self::EVENT_TYPE).with_data(write_context(self.context))
    }

    fn from_event(event: Event) -> (r: Result<HandledStart, ConversionError>)
        ensures
            event.event_type@ == "handled-start"@ ==> r == Ok::<HandledStart, ConversionError>(HandledStart { context: context_at(event.data@) }),
            event.event_type@ != "handled-start"@ ==> (r matches Err(e) && is_wrong_type(e, "handled-start"@, event.event_type)),
    {
        if !str_is(&event.event_type, Self::EVENT_TYPE) {
            return Err(wrong_type(Self::EVENT_TYPE, event.event_type));
        }
        Ok(HandledStart { context: read_context(event.data) })
    }
}

/// A chunk of handled response text.
#[derive(Debug, Clone, PartialEq)]
pub struct HandledChunk {
    pub text: String,
}

impl Eventable for HandledChunk {
    const EVENT_TYPE: &'static str = "handled-chunk";

    fn into_event(self) -> (r: Event)
        ensures
            r.event_type@ == "handled-chunk"@,
            r.data@ == required_text_data(self.text),
            r.payload is None,
    {
        Event::new(Self::EVENT_TYPE).with_data(write_required_text(self.text))
    }

    fn from_event(event: Event) -> (r: Result<HandledChunk, ConversionError>)
        ensures
            event.event_type@ == "handled-chunk"@ ==> match required_text_of(event.data@) {
                Ok(text) => r == Ok::<HandledChunk, ConversionError>(HandledChunk { text }),
                Err(field) => r matches Err(e) && is_missing_field(e, field),
            },
            event.event_type@ != "handled-chunk"@ ==> (r matches Err(e) && is_wrong_type(e, "handled-chunk"@, event.event_type)),
    {
        if !str_is(&event.event_type, Self::EVENT_TYPE) {
            return Err(wrong_type(Self::EVENT_TYPE, event.event_type));
        }
        let text = read_required_text(event.data)?;
        Ok(HandledChunk { text })
    }
}

/// End of a streamed handled response.
#[derive(Debug, Clone, Copy, PartialEq, Eq, Structural)]
pub struct HandledStop;

impl Eventable for HandledStop {
    const EVENT_TYPE: &'static str = "handled-stop";

    fn into_event(self) -> (r: Event)
        ensures
            r.event_type@ == "handled-stop"@,
            r.data@ == Map::<Seq<char>, JsonValue>::empty(),
            r.payload is None,
    {
        Event::new(Self::EVENT_TYPE)
    }

    fn from_event(event: Event) -> (r: Result<HandledStop, ConversionError>)
        ensures
            event.event_type@ == "handled-stop"@ ==> r == Ok::<HandledStop, ConversionError>(HandledStop),
            event.event_type@ != "handled-stop"@ ==> (r matches Err(e) && is_wrong_type(e, "handled-stop"@, event.event_type)),
    {
        if !str_is(&event.event_type, Self::EVENT_TYPE) {
            return Err(wrong_type(Self::EVENT_TYPE, event.event_type));
        }
        Ok(HandledStop)
    }
}

} // verus!
