//! Text-to-speech events, whole and streaming.
use vstd::prelude::*;

use crate::event::{
    is_missing_field, is_wrong_type, missing_field, str_is, wrong_type, ConversionError, Event,
    Eventable,
};
use crate::json::{
    insert_opt, map_get, opt_str_value, take_string, take_value, value_string, JsonMap, JsonValue,
};

verus! {

/// The keys used by the synthesis events are pairwise distinct where they share an object.
proof fn lemma_tts_keys_distinct()
    ensures
        "text"@ != "voice"@,
        "text"@ != "context"@,
        "voice"@ != "context"@,
        "name"@ != "language"@,
        "name"@ != "speaker"@,
        "language"@ != "speaker"@,
{
    reveal_strlit("text");
    reveal_strlit("voice");
    reveal_strlit("context");
    reveal_strlit("name");
    reveal_strlit("language");
    reveal_strlit("speaker");
    assert("text"@.len() == 4 && "voice"@.len() == 5 && "context"@.len() == 7);
    assert("name"@.len() == 4 && "language"@.len() == 8 && "speaker"@.len() == 7);
}

/// Voice configuration for TTS synthesis.
#[derive(Debug, Clone, PartialEq)]
pub struct SynthesizeVoice {
    pub name: Option<String>,
    pub language: Option<String>,
    pub speaker: Option<String>,
}

/// The object written for a voice: each field that is present.
pub open spec fn voice_data(v: SynthesizeVoice) -> Map<Seq<char>, JsonValue> {
    insert_opt(
        insert_opt(insert_opt(Map::empty(), "name"@, opt_str_value(v.name)), "language"@, opt_str_value(v.language)),
        "speaker"@,
        opt_str_value(v.speaker),
    )
}

/// Whether a voice sets none of its fields.
pub open spec fn voice_is_blank(v: SynthesizeVoice) -> bool {
    v.name is None && v.language is None && v.speaker is None
}

/// The voice read from the data section: an object under `voice` that sets at least one
/// of the three string fields.
pub open spec fn voice_of(data: Map<Seq<char>, JsonValue>) -> Option<SynthesizeVoice> {
    match map_get(data, "voice"@) {
        Some(JsonValue::Object(m)) => {
            let v = SynthesizeVoice {
                name: value_string(map_get(m@, "name"@)),
                language: value_string(map_get(m@, "language"@)),
                speaker: value_string(map_get(m@, "speaker"@)),
            };
            if voice_is_blank(v) {
                None
            } else {
                Some(v)
            }
        },
        _ => None,
    }
}

/// Whether `data` holds the voice entry written for `voice`: an object with its fields
/// when there is a voice, no entry otherwise.
pub open spec fn voice_entry(data: Map<Seq<char>, JsonValue>, voice: Option<SynthesizeVoice>) -> bool {
    match voice {
        Some(v) => data.contains_key("voice"@) && (data["voice"@] matches JsonValue::Object(m) && m@
            == voice_data(v)),
        None => !data.contains_key("voice"@),
    }
}

/// Build the object for a voice.
fn write_voice(v: SynthesizeVoice) -> (r: JsonMap)
    ensures
        r@ == voice_data(v),
{
    let mut m = JsonMap::new();
    match v.name {
        Some(s) => {
            m.insert("name".to_owned(), JsonValue::Str(s));
        },
        None => {},
    }
    match v.language {
        Some(s) => {
            m.insert("language".to_owned(), JsonValue::Str(s));
        },
        None => {},
    }
    match v.speaker {
        Some(s) => {
            m.insert("speaker".to_owned(), JsonValue::Str(s));
        },
        None => {},
    }
    m
}

/// Store the voice entry and the context entry into `data`.
fn write_voice_and_context(data: &mut JsonMap, voice: Option<SynthesizeVoice>, context: Option<JsonValue>)
    requires
        !old(data)@.contains_key("voice"@),
        !old(data)@.contains_key("context"@),
    ensures
        voice_entry(final(data)@, voice),
        map_get(final(data)@, "context"@) == context,
        final(data)@.remove("voice"@).remove("context"@) == old(data)@,
{
    proof {
        lemma_tts_keys_distinct();
    }
    let ghost before = data@;
    match voice {
        Some(v) => {
            data.insert("voice".to_owned(), JsonValue::Object(write_voice(v)));
        },
        None => {},
    }
    match context {
        Some(c) => {
            data.insert("context".to_owned(), c);
        },
        None => {},
    }
    assert(data@.remove("voice"@).remove("context"@) =~= before);
}

/// Take the voice entry out of `data`.
fn read_voice(data: &mut JsonMap) -> (r: Option<SynthesizeVoice>)
    ensures
        r == voice_of(old(data)@),
        final(data)@ == old(data)@.remove("voice"@),
{
    proof {
        lemma_tts_keys_distinct();
    }
    match take_value(data, "voice") {
        Some(JsonValue::Object(m)) => {
            let mut m = m;
            let name = take_string(&mut m, "name");
            let language = take_string(&mut m, "language");
            let speaker = take_string(&mut m, "speaker");
            if name.is_some() || language.is_some() || speaker.is_some() {
                Some(SynthesizeVoice { name, language, speaker })
            } else {
                None
            }
        },
        _ => None,
    }
}

/// Request to synthesize speech from text.
#[derive(Debug, Clone, PartialEq)]
pub struct Synthesize {
    pub text: String,
    pub voice: Option<SynthesizeVoice>,
    pub context: Option<JsonValue>,
}

/// Whether `data` is the data section written for `s`: the text, the voice object when
/// there is a voice, the context when there is one, and no other key.
pub open spec fn synthesize_data(data: Map<Seq<char>, JsonValue>, s: Synthesize) -> bool {
    &&& map_get(data, "text"@) == Some(JsonValue::Str(s.text))
    &&& voice_entry(data, s.voice)
    &&& map_get(data, "context"@) == s.context
    &&& data.remove("voice"@).remove("context"@).remove("text"@) == Map::<Seq<char>, JsonValue>::empty()
}

/// The synthesis request read from a data section, or the missing required field.
pub open spec fn synthesize_of(data: Map<Seq<char>, JsonValue>) -> Result<Synthesize, Seq<char>> {
    match value_string(map_get(data, "text"@)) {
        None => Err("text"@),
        Some(text) => Ok(Synthesize { text, voice: voice_of(data), context: map_get(data, "context"@) }),
    }
}

/// A synthesis request written and read back is the same request, unless its voice sets
/// no field: such a voice is read back as no voice.
pub proof fn lemma_synthesize_round_trip(s: Synthesize, data: Map<Seq<char>, JsonValue>)
    requires
        synthesize_data(data, s),
    ensures
        synthesize_of(data) == Ok::<Synthesize, Seq<char>>(
            Synthesize {
                voice: match s.voice {
                    Some(v) => if voice_is_blank(v) { None } else { Some(v) },
                    None => None,
                },
                ..s
            },
        ),
{
    lemma_tts_keys_distinct();
}

impl Eventable for Synthesize {
    const EVENT_TYPE: &'static str = "synthesize";

    fn into_event(self) -> (r: Event)
        ensures
            r.event_type@ == "synthesize"@,
            synthesize_data(r.data@, self),
            r.payload is None,
    {
        proof {
            lemma_tts_keys_distinct();
        }
        let mut data = JsonMap::new();
        data.insert("text".to_owned(), JsonValue::Str(self.text));
        let ghost with_text = data@;
        write_voice_and_context(&mut data, self.voice, self.context);
        assert(data@.remove("voice"@).remove("context"@).contains_key("text"@));
        assert(data@.remove("voice"@).remove("context"@)["text"@] == with_text["text"@]);
        assert(data@.remove("voice"@).remove("context"@).remove("text"@) =~= Map::<Seq<char>, JsonValue>::empty());
        Event::new(Self::EVENT_TYPE).with_data(data)
    }

    fn from_event(event: Event) -> (r: Result<Synthesize, ConversionError>)
        ensures
            event.event_type@ == "synthesize"@ ==> match synthesize_of(event.data@) {
                Ok(s) => r == Ok::<Synthesize, ConversionError>(s),
                Err(name) => r matches Err(e) && is_missing_field(e, name),
            },
            event.event_type@ != "synthesize"@ ==> (r matches Err(e) && is_wrong_type(e, "synthesize"@, event.event_type)),
    {
        if !str_is(&event.event_type, Self::EVENT_TYPE) {
            return Err(wrong_type(Self::EVENT_TYPE, event.event_type));
        }
        proof {
            lemma_tts_keys_distinct();
        }
        let mut data = event.data;
        let text = match take_string(&mut data, "text") {
            Some(s) => s,
            None => return Err(missing_field("text")),
        };
        let voice = read_voice(&mut data);
        let context = take_value(&mut data, "context");
        Ok(Synthesize { text, voice, context })
    }
}

/// Start of a streamed synthesis.
#[derive(Debug, Clone, PartialEq)]
pub struct SynthesizeStart {
    pub voice: Option<SynthesizeVoice>,
    pub context: Option<JsonValue>,
}

/// Whether `data` is the data section written for `s`: the voice object when there is a
/// voice, the context when there is one, and no other key.
pub open spec fn synthesize_start_data(data: Map<Seq<char>, JsonValue>, s: SynthesizeStart) -> bool {
    &&& voice_entry(data, s.voice)
    &&& map_get(data, "context"@) == s.context
    &&& data.remove("voice"@).remove("context"@) == Map::<Seq<char>, JsonValue>::empty()
}

impl Eventable for SynthesizeStart {
    const EVENT_TYPE: &'static str = "synthesize-start";

    fn into_event(self) -> (r: Event)
        ensures
            r.event_type@ == "synthesize-start"@,
            synthesize_start_data(r.data@, self),
            r.payload is None,
    {
        let mut data = JsonMap::new();
        write_voice_and_context(&mut data, self.voice, self.context);
        Event::new(Self::EVENT_TYPE).with_data(data)
    }

    fn from_event(event: Event) -> (r: Result<SynthesizeStart, ConversionError>)
        ensures
            event.event_type@ == "synthesize-start"@ ==> r == Ok::<SynthesizeStart, ConversionError>(
                SynthesizeStart { voice: voice_of(event.data@), context: map_get(event.data@, "context"@) },
            ),
            event.event_type@ != "synthesize-start"@ ==> (r matches Err(e) && is_wrong_type(e, "synthesize-start"@, event.event_type)),
    {
        if !str_is(&event.event_type, Self::EVENT_TYPE) {
            return Err(wrong_type(Self::EVENT_TYPE, event.event_type));
        }
        proof {
            lemma_tts_keys_distinct();
        }
        let mut data = event.data;
        let voice = read_voice(&mut data);
        let context = take_value(&mut data, "context");
        Ok(SynthesizeStart { voice, context })
    }
}

/// The data section holding one required text.
pub open spec fn required_text_data(text: String) -> Map<Seq<char>, JsonValue> {
    Map::empty().insert("text"@, JsonValue::Str(text))
}

/// The required text read from a data section, or the missing field.
pub open spec fn required_text_of(data: Map<Seq<char>, JsonValue>) -> Result<String, Seq<char>> {
    match value_string(map_get(data, "text"@)) {
        None => Err("text"@),
        Some(t) => Ok(t),
    }
}

/// Build the data section holding one required text.
pub fn write_required_text(text: String) -> (r: JsonMap)
    ensures
        r@ == required_text_data(text),
{
    let mut data = JsonMap::new();
    data.insert("text".to_owned(), JsonValue::Str(text));
    data
}

/// Read the required text out of a data section.
pub fn read_required_text(data: JsonMap) -> (r: Result<String, ConversionError>)
    ensures
        match required_text_of(data@) {
            Ok(t) => r == Ok::<String, ConversionError>(t),
            Err(name) => r matches Err(e) && is_missing_field(e, name),
        },
{
    let mut data = data;
    match take_string(&mut data, "text") {
        Some(s) => Ok(s),
        None => Err(missing_field("text")),
    }
}

/// A chunk of text for streamed synthesis.
#[derive(Debug, Clone, PartialEq)]
pub struct SynthesizeChunk {
    pub text: String,
}

impl Eventable for SynthesizeChunk {
    const EVENT_TYPE: &'static str = "synthesize-chunk";

    fn into_event(self) -> (r: Event)
        ensures
            r.event_type@ == "synthesize-chunk"@,
            r.data@ == required_text_data(self.text),
            r.payload is None,
    {
        Event::new(Self::EVENT_TYPE).with_data(write_required_text(self.text))
    }

    fn from_event(event: Event) -> (r: Result<SynthesizeChunk, ConversionError>)
        ensures
            event.event_type@ == "synthesize-chunk"@ ==> match required_text_of(event.data@) {
                Ok(t) => r == Ok::<SynthesizeChunk, ConversionError>(SynthesizeChunk { text: t }),
                Err(name) => r matches Err(e) && is_missing_field(e, name),
            },
            event.event_type@ != "synthesize-chunk"@ ==> (r matches Err(e) && is_wrong_type(e, "synthesize-chunk"@, event.event_type)),
    {
        if !str_is(&event.event_type, Self::EVENT_TYPE) {
            return Err(wrong_type(Self::EVENT_TYPE, event.event_type));
        }
        let text = read_required_text(event.data)?;
        Ok(SynthesizeChunk { text })
    }
}

/// End of a streamed synthesis.
#[derive(Debug, Clone, Copy, PartialEq, Eq, Structural)]
pub struct SynthesizeStop;

impl Eventable for SynthesizeStop {
    const EVENT_TYPE: &'static str = "synthesize-stop";

    fn into_event(self) -> (r: Event)
        ensures
            r.event_type@ == "synthesize-stop"@,
            r.data@ == Map::<Seq<char>, JsonValue>::empty(),
            r.payload is None,
    {
        Event::new(Self::EVENT_TYPE)
    }

    fn from_event(event: Event) -> (r: Result<SynthesizeStop, ConversionError>)
        ensures
            event.event_type@ == "synthesize-stop"@ ==> r == Ok::<SynthesizeStop, ConversionError>(SynthesizeStop),
            event.event_type@ != "synthesize-stop"@ ==> (r matches Err(e) && is_wrong_type(e, "synthesize-stop"@, event.event_type)),
    {
        if !str_is(&event.event_type, Self::EVENT_TYPE) {
            return Err(wrong_type(Self::EVENT_TYPE, event.event_type));
        }
        Ok(SynthesizeStop)
    }
}

/// The server has stopped synthesis.
#[derive(Debug, Clone, Copy, PartialEq, Eq, Structural)]
pub struct SynthesizeStopped;

impl Eventable for SynthesizeStopped {
    const EVENT_TYPE: &'static str = "synthesize-stopped";

    fn into_event(self) -> (r: Event)
        ensures
            r.event_type@ == "synthesize-stopped"@,
            r.data@ == Map::<Seq<char>, JsonValue>::empty(),
            r.payload is None,
    {
        Event::new(Self::EVENT_TYPE)
    }

    fn from_event(event: Event) -> (r: Result<SynthesizeStopped, ConversionError>)
        ensures
            event.event_type@ == "synthesize-stopped"@ ==> r == Ok::<SynthesizeStopped, ConversionError>(SynthesizeStopped),
            event.event_type@ != "synthesize-stopped"@ ==> (r matches Err(e) && is_wrong_type(e, "synthesize-stopped"@, event.event_type)),
    {
        if !str_is(&event.event_type, Self::EVENT_TYPE) {
            return Err(wrong_type(Self::EVENT_TYPE, event.event_type));
        }
        Ok(SynthesizeStopped)
    }
}

} // verus!
