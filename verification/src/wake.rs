//! Wake word events.
use vstd::prelude::*;

use crate::asr::{insert_context, insert_text};
use crate::event::{is_wrong_type, str_is, wrong_type, ConversionError, Event, Eventable};
use crate::handle::{context_at, read_context, write_context};
use crate::json::{
    get_u64, insert_opt, is_string_array, lemma_strings_round_trip, map_get, opt_str_value,
    opt_u64_value, strings_of, strings_to_values, take_string, take_value, value_string, value_u64,
    values_to_strings, JsonMap, JsonNumber, JsonValue,
};

verus! {

/// The data keys of the wake word events are pairwise distinct.
proof fn lemma_wake_keys_distinct()
    ensures
        "names"@ != "context"@,
        "name"@ != "timestamp"@,
        "name"@ != "speaker"@,
        "name"@ != "context"@,
        "timestamp"@ != "speaker"@,
        "timestamp"@ != "context"@,
        "speaker"@ != "context"@,
{
    reveal_strlit("names");
    reveal_strlit("name");
    reveal_strlit("timestamp");
    reveal_strlit("speaker");
    reveal_strlit("context");
    assert("names"@.len() == 5 && "name"@.len() == 4 && "timestamp"@.len() == 9);
    assert("speaker"@.len() == 7 && "context"@.len() == 7);
    assert("speaker"@[0] != "context"@[0]);
}

/// Request to start wake word detection.
#[derive(Debug, Clone, PartialEq)]
pub struct Detect {
    pub names: Option<Vec<String>>,
    pub context: Option<JsonValue>,
}

/// Whether `data` is the data section written for `d`: the names as an array of strings
/// when there are names, the context when there is one, and no other key.
pub open spec fn detect_data(data: Map<Seq<char>, JsonValue>, d: Detect) -> bool {
    &&& map_get(data, "context"@) == d.context
    &&& match d.names {
        Some(names) => data.contains_key("names"@) && is_string_array(data["names"@], names@),
        None => !data.contains_key("names"@),
    }
    &&& data.remove("names"@).remove("context"@) == Map::<Seq<char>, JsonValue>::empty()
}

/// Whether `d` is what reading `data` gives: the strings of a `names` array, other values
/// skipped, and the context.
pub open spec fn detect_read(data: Map<Seq<char>, JsonValue>, d: Detect) -> bool {
    &&& d.context == context_at(data)
    &&& match map_get(data, "names"@) {
        Some(JsonValue::Array(a)) => d.names matches Some(v) && v@ == strings_of(a@),
        _ => d.names is None,
    }
}

/// A detection request written and read back has the same names and context.
pub proof fn lemma_detect_round_trip(d: Detect, data: Map<Seq<char>, JsonValue>, back: Detect)
    requires
        detect_data(data, d),
        detect_read(data, back),
    ensures
        back.context == d.context,
        match d.names {
            Some(v) => back.names matches Some(w) && w@ == v@,
            None => back.names is None,
        },
{
    lemma_wake_keys_distinct();
    if let Some(v) = d.names {
        lemma_strings_round_trip(v@);
    }
}

impl Eventable for Detect {
    const EVENT_TYPE: &'static str = "detect";

    fn into_event(self) -> (r: Event)
        ensures
            r.event_type@ == "detect"@,
            detect_data(r.data@, self),
            r.payload is None,
    {
        proof {
            lemma_wake_keys_distinct();
        }
        let mut data = JsonMap::new();
        match self.names {
            Some(names) => {
                data.insert("names".to_owned(), JsonValue::Array(strings_to_values(&names)));
            },
            None => {},
        }
        insert_context(&mut data, self.context);
        assert(data@.remove("names"@).remove("context"@) =~= Map::<Seq<char>, JsonValue>::empty());
        Event::new(Self::EVENT_TYPE).with_data(data)
    }

    fn from_event(event: Event) -> (r: Result<Detect, ConversionError>)
        ensures
            event.event_type@ == "detect"@ ==> (r matches Ok(d) && detect_read(event.data@, d)),
            event.event_type@ != "detect"@ ==> (r matches Err(e) && is_wrong_type(e, "detect"@, event.event_type)),
    {
        if !str_is(&event.event_type, Self::EVENT_TYPE) {
            return Err(wrong_type(Self::EVENT_TYPE, event.event_type));
        }
        proof {
            lemma_wake_keys_distinct();
        }
        let mut data = event.data;
        let names = match take_value(&mut data, "names") {
            Some(JsonValue::Array(a)) => Some(values_to_strings(&a)),
            _ => None,
        };
        let context = take_value(&mut data, "context");
        Ok(Detect { names, context })
    }
}

/// The wake word was detected by the server.
#[derive(Debug, Clone, PartialEq)]
pub struct Detection {
    pub name: Option<String>,
    pub timestamp: Option<u64>,
    pub speaker: Option<String>,
    pub context: Option<JsonValue>,
}

/// The data section written for a detection.
pub open spec fn detection_data(d: Detection) -> Map<Seq<char>, JsonValue> {
    insert_opt(
        insert_opt(
            insert_opt(insert_opt(Map::empty(), "name"@, opt_str_value(d.name)), "timestamp"@, opt_u64_value(d.timestamp)),
            "speaker"@,
            opt_str_value(d.speaker),
        ),
        "context"@,
        d.context,
    )
}

/// The detection read from a data section.
pub open spec fn detection_of(data: Map<Seq<char>, JsonValue>) -> Detection {
    Detection {
        name: value_string(map_get(data, "name"@)),
        timestamp: value_u64(map_get(data, "timestamp"@)),
        speaker: value_string(map_get(data, "speaker"@)),
        context: map_get(data, "context"@),
    }
}

/// A detection written and read back is the same detection.
pub proof fn lemma_detection_round_trip(d: Detection)
    ensures
        detection_of(detection_data(d)) == d,
{
    lemma_wake_keys_distinct();
}

/// A detection is written with the wake word's name as a string under `name`, its
/// timestamp as an unsigned integer under `timestamp`, the speaker under `speaker` and the
/// context under `context`, each when given, and nothing else.
pub proof fn lemma_detection_fields(d: Detection)
    ensures
        map_get(detection_data(d), "name"@) == (match d.name {
            Some(n) => Some(JsonValue::Str(n)),
            None => None,
        }),
        map_get(detection_data(d), "timestamp"@) == (match d.timestamp {
            Some(t) => Some(JsonValue::Number(JsonNumber::PosInt(t))),
            None => None,
        }),
        map_get(detection_data(d), "speaker"@) == (match d.speaker {
            Some(s) => Some(JsonValue::Str(s)),
            None => None,
        }),
        map_get(detection_data(d), "context"@) == d.context,
        forall|k: Seq<char>| #[trigger] detection_data(d).contains_key(k) ==> k == "name"@ || k == "timestamp"@ || k
            == "speaker"@ || k == "context"@,
{
    lemma_wake_keys_distinct();
}

impl Eventable for Detection {
    const EVENT_TYPE: &'static str = "detection";

    fn into_event(self) -> (r: Event)
        ensures
            r.event_type@ == "detection"@,
            r.data@ == detection_data(self),
            r.payload is None,
    {
        let mut data = JsonMap::new();
        insert_text(&mut data, "name", self.name);
        match self.timestamp {
            Some(t) => {
                data.insert("timestamp".to_owned(), JsonValue::Number(JsonNumber::PosInt(t)));
            },
            None => {},
        }
        insert_text(&mut data, "speaker", self.speaker);
        insert_context(&mut data, self.context);
        Event::new(Self::EVENT_TYPE).with_data(data)
    }

    fn from_event(event: Event) -> (r: Result<Detection, ConversionError>)
        ensures
            event.event_type@ == "detection"@ ==> r == Ok::<Detection, ConversionError>(detection_of(event.data@)),
            event.event_type@ != "detection"@ ==> (r matches Err(e) && is_wrong_type(e, "detection"@, event.event_type)),
    {
        if !str_is(&event.event_type, Self::EVENT_TYPE) {
            return Err(wrong_type(Self::EVENT_TYPE, event.event_type));
        }
        proof {
            lemma_wake_keys_distinct();
        }
        let mut data = event.data;
        let name = take_string(&mut data, "name");
        let timestamp = get_u64(&data, "timestamp");
        let speaker = take_string(&mut data, "speaker");
        let context = take_value(&mut data, "context");
        Ok(Detection { name, timestamp, speaker, context })
    }
}

/// The wake word was not detected before the audio stream ended.
#[derive(Debug, Clone, PartialEq)]
pub struct NotDetected {
    pub context: Option<JsonValue>,
}

impl Eventable for NotDetected {
    const EVENT_TYPE: &'static str = "not-detected";

    fn into_event(self) -> (r: Event)
        ensures
            r.event_type@ == "not-detected"@,
            r.data@ == insert_opt(Map::empty(), "context"@, self.context),
            r.payload is None,
    {
        Event::new(Self::EVENT_TYPE).with_data(write_context(self.context))
    }

    fn from_event(event: Event) -> (r: Result<NotDetected, ConversionError>)
        ensures
            event.event_type@ == "not-detected"@ ==> r == Ok::<NotDetected, ConversionError>(
                NotDetected { context: context_at(event.data@) },
            ),
            event.event_type@ != "not-detected"@ ==> (r matches Err(e) && is_wrong_type(e, "not-detected"@, event.event_type)),
    {
        if !str_is(&event.event_type, Self::EVENT_TYPE) {
            return Err(wrong_type(Self::EVENT_TYPE, event.event_type));
        }
        Ok(NotDetected { context: read_context(event.data) })
    }
}

} // verus!
