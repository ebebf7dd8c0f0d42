//! Speech-to-text events.
use vstd::prelude::*;

use crate::event::{
    is_missing_field, is_wrong_type, missing_field, str_is, wrong_type, ConversionError, Event,
    Eventable,
};
use crate::json::{
    insert_opt, map_get, opt_str_value, take_string, take_value, value_string, JsonMap, JsonValue,
};

verus! {

/// The data keys of the speech-to-text events are pairwise distinct.
proof fn lemma_asr_keys_distinct()
    ensures
        "name"@ != "language"@,
        "name"@ != "context"@,
        "language"@ != "context"@,
        "text"@ != "language"@,
        "text"@ != "context"@,
{
    reveal_strlit("name");
    reveal_strlit("language");
    reveal_strlit("context");
    reveal_strlit("text");
    assert("name"@.len() == 4 && "language"@.len() == 8 && "context"@.len() == 7);
    assert("text"@.len() == 4);
}

/// Store an optional text under `key`.
pub fn insert_text(data: &mut JsonMap, key: &str, text: Option<String>)
    ensures
        final(data)@ == insert_opt(old(data)@, key@, opt_str_value(text)),
{
    match text {
        Some(s) => {
            data.insert(key.to_owned(), JsonValue::Str(s));
        },
        None => {},
    }
}

/// Store an optional context value.
pub fn insert_context(data: &mut JsonMap, context: Option<JsonValue>)
    ensures
        final(data)@ == insert_opt(old(data)@, "context"@, context),
{
    match context {
        Some(c) => {
            data.insert("context".to_owned(), c);
        },
        None => {},
    }
}

/// Request to transcribe audio.
#[derive(Debug, Clone, PartialEq)]
pub struct Transcribe {
    pub name: Option<String>,
    pub language: Option<String>,
    pub context: Option<JsonValue>,
}

/// The data section written for a transcription request.
pub open spec fn transcribe_data(t: Transcribe) -> Map<Seq<char>, JsonValue> {
    insert_opt(
        insert_opt(insert_opt(Map::empty(), "name"@, opt_str_value(t.name)), "language"@, opt_str_value(t.language)),
        "context"@,
        t.context,
    )
}

/// The transcription request read from a data section.
pub open spec fn transcribe_of(data: Map<Seq<char>, JsonValue>) -> Transcribe {
    Transcribe {
        name: value_string(map_get(data, "name"@)),
        language: value_string(map_get(data, "language"@)),
        context: map_get(data, "context"@),
    }
}

/// A transcription request written and read back is the same request.
pub proof fn lemma_transcribe_round_trip(t: Transcribe)
    ensures
        transcribe_of(transcribe_data(t)) == t,
{
    lemma_asr_keys_distinct();
}

impl Eventable for Transcribe {
    const EVENT_TYPE: &'static str = "transcribe";

    fn into_event(self) -> (r: Event)
        ensures
            r.event_type@ == "transcribe"@,
            r.data@ == transcribe_data(self),
            r.payload is None,
    {
        let mut data = JsonMap::new();
        insert_text(&mut data, "name", self.name);
        insert_text(&mut data, "language", self.language);
        insert_context(&mut data, self.context);
        Event::new(Self::EVENT_TYPE).with_data(data)
    }

    fn from_event(event: Event) -> (r: Result<Transcribe, ConversionError>)
        ensures
            event.event_type@ == "transcribe"@ ==> r == Ok::<Transcribe, ConversionError>(transcribe_of(event.data@)),
            event.event_type@ != "transcribe"@ ==> (r matches Err(e) && is_wrong_type(e, "transcribe"@, event.event_type)),
    {
        if !str_is(&event.event_type, Self::EVENT_TYPE) {
            return Err(wrong_type(Self::EVENT_TYPE, event.event_type));
        }
        proof {
            lemma_asr_keys_distinct();
        }
        let mut data = event.data;
        let name = take_string(&mut data, "name");
        let language = take_string(&mut data, "language");
        let context = take_value(&mut data, "context");
        Ok(Transcribe { name, language, context })
    }
}

/// Speech-to-text result.
#[derive(Debug, Clone, PartialEq)]
pub struct Transcript {
    pub text: String,
    pub language: Option<String>,
    pub context: Option<JsonValue>,
}

/// The data section written for a transcript.
pub open spec fn transcript_data(t: Transcript) -> Map<Seq<char>, JsonValue> {
    insert_opt(
        insert_opt(Map::empty().insert("text"@, JsonValue::Str(t.text)), "language"@, opt_str_value(t.language)),
        "context"@,
        t.context,
    )
}

/// The transcript read from a data section, or the missing required field.
pub open spec fn transcript_of(data: Map<Seq<char>, JsonValue>) -> Result<Transcript, Seq<char>> {
    match value_string(map_get(data, "text"@)) {
        None => Err("text"@),
        Some(text) => Ok(
            Transcript {
                text,
                language: value_string(map_get(data, "language"@)),
                context: map_get(data, "context"@),
            },
        ),
    }
}

/// A transcript written and read back is the same transcript.
pub proof fn lemma_transcript_round_trip(t: Transcript)
    ensures
        transcript_of(transcript_data(t)) == Ok::<Transcript, Seq<char>>(t),
{
    lemma_asr_keys_distinct();
}

/// A transcript is written with its text as a string under `text`, its language under
/// `language` and its context under `context` when given, and nothing else.
pub proof fn lemma_transcript_fields(t: Transcript)
    ensures
        map_get(transcript_data(t), "text"@) == Some(JsonValue::Str(t.text)),
        map_get(transcript_data(t), "language"@) == (match t.language {
            Some(l) => Some(JsonValue::Str(l)),
            None => None,
        }),
        map_get(transcript_data(t), "context"@) == t.context,
        forall|k: Seq<char>| #[trigger] transcript_data(t).contains_key(k) ==> k == "text"@ || k == "language"@ || k
            == "context"@,
{
    lemma_asr_keys_distinct();
}

impl Eventable for Transcript {
    const EVENT_TYPE: &'static str = "transcript";

    fn into_event(self) -> (r: Event)
        ensures
            r.event_type@ == "transcript"@,
            r.data@ == transcript_data(self),
            r.payload is None,
    {
        let mut data = JsonMap::new();
        data.insert("text".to_owned(), JsonValue::Str(self.text));
        insert_text(&mut data, "language", self.language);
        insert_context(&mut data, self.context);
        Event::new(Self::EVENT_TYPE).with_data(data)
    }

    fn from_event(event: Event) -> (r: Result<Transcript, ConversionError>)
        ensures
            event.event_type@ == "transcript"@ ==> match transcript_of(event.data@) {
                Ok(t) => r == Ok::<Transcript, ConversionError>(t),
                Err(name) => r matches Err(e) && is_missing_field(e, name),
            },
            event.event_type@ != "transcript"@ ==> (r matches Err(e) && is_wrong_type(e, "transcript"@, event.event_type)),
    {
        if !str_is(&event.event_type, Self::EVENT_TYPE) {
            return Err(wrong_type(Self::EVENT_TYPE, event.event_type));
        }
        proof {
            lemma_asr_keys_distinct();
        }
        let mut data = event.data;
        let text = match take_string(&mut data, "text") {
            Some(s) => s,
            None => return Err(missing_field("text")),
        };
        let language = take_string(&mut data, "language");
        let context = take_value(&mut data, "context");
        Ok(Transcript { text, language, context })
    }
}

} // verus!
