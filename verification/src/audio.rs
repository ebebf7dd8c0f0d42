//! Audio stream events: audio-start, audio-chunk, audio-stop.
use vstd::prelude::*;

use crate::event::{
    is_missing_field, is_wrong_type, missing_field, str_is, wrong_type, ConversionError, Event,
    Eventable,
};
use crate::json::{
    get_u64, insert_opt, map_get, opt_u64_value, u64_value, value_u64, JsonMap, JsonNumber,
    JsonValue,
};

verus! {

/// Shared audio format metadata.
#[derive(Debug, Clone, Copy, PartialEq, Eq, Structural)]
pub struct AudioFormat {
    pub rate: u32,
    pub width: u16,
    pub channels: u16,
}

impl AudioFormat {
    /// Standard Wyoming audio format: 16kHz, 16-bit, mono.
    pub open spec fn spec_wyoming_default() -> AudioFormat {
        AudioFormat { rate: 16000, width: 2, channels: 1 }
    }

    /// Standard Wyoming audio format: 16kHz, 16-bit, mono.
    pub fn wyoming_default() -> (r: AudioFormat)
        ensures
            r == Self::spec_wyoming_default(),
    {
        AudioFormat { rate: 16000, width: 2, channels: 1 }
    }
}

/// The data fields written for a format and an optional timestamp.
pub open spec fn format_data(f: AudioFormat, ts: Option<u64>) -> Map<Seq<char>, JsonValue> {
    insert_opt(
        Map::empty().insert("rate"@, u64_value(f.rate as u64)).insert(
            "width"@,
            u64_value(f.width as u64),
        ).insert("channels"@, u64_value(f.channels as u64)),
        "timestamp"@,
        opt_u64_value(ts),
    )
}

/// The format read back from data fields, or the name of the first missing field. Values
/// are narrowed to the field types as `as` does.
pub open spec fn format_of(data: Map<Seq<char>, JsonValue>) -> Result<AudioFormat, Seq<char>> {
    match value_u64(map_get(data, "rate"@)) {
        None => Err("rate"@),
        Some(rate) => match value_u64(map_get(data, "width"@)) {
            None => Err("width"@),
            Some(width) => match value_u64(map_get(data, "channels"@)) {
                None => Err("channels"@),
                Some(channels) => Ok(
                    AudioFormat { rate: rate as u32, width: width as u16, channels: channels as u16 },
                ),
            },
        },
    }
}

/// The timestamp read back from data fields.
pub open spec fn timestamp_of(data: Map<Seq<char>, JsonValue>) -> Option<u64> {
    value_u64(map_get(data, "timestamp"@))
}

/// Write the format fields and the optional timestamp into an empty object.
pub fn write_format(f: AudioFormat, ts: Option<u64>) -> (r: JsonMap)
    ensures
        r@ == format_data(f, ts),
{
    let mut data = JsonMap::new();
    data.insert("rate".to_owned(), JsonValue::Number(JsonNumber::PosInt(f.rate as u64)));
    data.insert("width".to_owned(), JsonValue::Number(JsonNumber::PosInt(f.width as u64)));
    data.insert("channels".to_owned(), JsonValue::Number(JsonNumber::PosInt(f.channels as u64)));
    match ts {
        Some(t) => {
            data.insert("timestamp".to_owned(), JsonValue::Number(JsonNumber::PosInt(t)));
        },
        None => {},
    }
    data
}

/// Read the format fields.
pub fn read_format(data: &JsonMap) -> (r: Result<AudioFormat, ConversionError>)
    ensures
        match format_of(data@) {
            Ok(f) => r == Ok::<AudioFormat, ConversionError>(f),
            Err(name) => r matches Err(e) && is_missing_field(e, name),
        },
{
    let rate = match get_u64(data, "rate") {
        Some(v) => v,
        None => return Err(missing_field("rate")),
    };
    let width = match get_u64(data, "width") {
        Some(v) => v,
        None => return Err(missing_field("width")),
    };
    let channels = match get_u64(data, "channels") {
        Some(v) => v,
        None => return Err(missing_field("channels")),
    };
    Ok(AudioFormat { rate: rate as u32, width: width as u16, channels: channels as u16 })
}

/// Writing a format and timestamp and reading them back gives them back.
pub proof fn lemma_format_round_trip(f: AudioFormat, ts: Option<u64>)
    ensures
        format_of(format_data(f, ts)) == Ok::<AudioFormat, Seq<char>>(f),
        timestamp_of(format_data(f, ts)) == ts,
{
    reveal_strlit("rate");
    reveal_strlit("width");
    reveal_strlit("channels");
    reveal_strlit("timestamp");
    assert("rate"@ != "width"@ && "rate"@ != "channels"@ && "rate"@ != "timestamp"@) by {
        assert("rate"@.len() != "width"@.len() && "rate"@.len() != "channels"@.len());
        assert("rate"@[0] != "timestamp"@[0]);
    }
    assert("width"@ != "channels"@ && "width"@ != "timestamp"@ && "channels"@ != "timestamp"@) by {
        assert("width"@.len() != "channels"@.len() && "width"@.len() != "timestamp"@.len());
        assert("channels"@.len() != "timestamp"@.len());
    }
}

/// A format is written with its sample rate, sample width and channel count as unsigned
/// integers under `rate`, `width` and `channels`, and a timestamp under `timestamp` exactly
/// when there is one; nothing else is written.
pub proof fn lemma_format_fields(f: AudioFormat, ts: Option<u64>)
    ensures
        map_get(format_data(f, ts), "rate"@) == Some(JsonValue::Number(JsonNumber::PosInt(f.rate as u64))),
        map_get(format_data(f, ts), "width"@) == Some(JsonValue::Number(JsonNumber::PosInt(f.width as u64))),
        map_get(format_data(f, ts), "channels"@) == Some(JsonValue::Number(JsonNumber::PosInt(f.channels as u64))),
        map_get(format_data(f, ts), "timestamp"@) == (match ts {
            Some(t) => Some(JsonValue::Number(JsonNumber::PosInt(t))),
            None => None,
        }),
        forall|k: Seq<char>| #[trigger] format_data(f, ts).contains_key(k) ==> k == "rate"@ || k == "width"@ || k
            == "channels"@ || k == "timestamp"@,
{
    reveal_strlit("rate");
    reveal_strlit("width");
    reveal_strlit("channels");
    reveal_strlit("timestamp");
    assert("rate"@ != "width"@ && "rate"@ != "channels"@ && "rate"@ != "timestamp"@) by {
        assert("rate"@.len() != "width"@.len() && "rate"@.len() != "channels"@.len());
        assert("rate"@[0] != "timestamp"@[0]);
    }
    assert("width"@ != "channels"@ && "width"@ != "timestamp"@ && "channels"@ != "timestamp"@) by {
        assert("width"@.len() != "channels"@.len() && "width"@.len() != "timestamp"@.len());
        assert("channels"@.len() != "timestamp"@.len());
    }
}

/// Signals the start of an audio stream with format metadata.
#[derive(Debug, Clone, Copy, PartialEq, Eq, Structural)]
pub struct AudioStart {
    pub format: AudioFormat,
    pub timestamp: Option<u64>,
}

impl Eventable for AudioStart {
    const EVENT_TYPE: &'static str = "audio-start";
    fn into_event(self) -> (r: Event)
        ensures
            r.event_type@ == "audio-start"@,
            r.data@ == format_data(self.format, self.timestamp),
            r.payload is None,
    {
        Event { event_type: "audio-start".to_owned(), data: write_format(self.format, self.timestamp), payload: None }
    }

    fn from_event(event: Event) -> (r: Result<AudioStart, ConversionError>)
        ensures
            event.event_type@ != "audio-start"@ ==> (r matches Err(e) && is_wrong_type(e, "audio-start"@, event.event_type)),
            event.event_type@ == "audio-start"@ ==> match format_of(event.data@) {
                Ok(f) => r == Ok::<AudioStart, ConversionError>(
                    AudioStart { format: f, timestamp: timestamp_of(event.data@) },
                ),
                Err(name) => r matches Err(e) && is_missing_field(e, name),
            },
    {
        if !str_is(&event.event_type, "audio-start") {
            return Err(wrong_type("audio-start", event.event_type));
        }
        let format = read_format(&event.data)?;
        let timestamp = get_u64(&event.data, "timestamp");
        Ok(AudioStart { format, timestamp })
    }
}

/// A chunk of raw PCM audio data.
#[derive(Debug, Clone, PartialEq, Eq)]
pub struct AudioChunk {
    pub format: AudioFormat,
    pub audio: Vec<u8>,
    pub timestamp: Option<u64>,
}

impl AudioChunk {
    /// An AudioChunk of raw PCM bytes in the default Wyoming format.
    pub fn from_pcm(audio: Vec<u8>) -> (r: AudioChunk)
        ensures
            r.format == AudioFormat::spec_wyoming_default(),
            r.audio == audio,
            r.timestamp is None,
    {
        AudioChunk { format: AudioFormat::wyoming_default(), audio, timestamp: None }
    }
}

impl Eventable for AudioChunk {
    const EVENT_TYPE: &'static str = "audio-chunk";
    fn into_event(self) -> (r: Event)
        ensures
            r.event_type@ == "audio-chunk"@,
            r.data@ == format_data(self.format, self.timestamp),
            r.payload == Some(self.audio),
    {
        Event {
            event_type: "audio-chunk".to_owned(),
            data: write_format(self.format, self.timestamp),
            payload: Some(self.audio),
        }
    }

    fn from_event(event: Event) -> (r: Result<AudioChunk, ConversionError>)
        ensures
            event.event_type@ != "audio-chunk"@ ==> (r matches Err(e) && is_wrong_type(e, "audio-chunk"@, event.event_type)),
            event.event_type@ == "audio-chunk"@ ==> match format_of(event.data@) {
                Ok(f) => r matches Ok(c) && c.format == f && c.timestamp == timestamp_of(event.data@)
                    && match event.payload {
                    Some(p) => c.audio == p,
                    None => c.audio@.len() == 0,
                },
                Err(name) => r matches Err(e) && is_missing_field(e, name),
            },
    {
        if !str_is(&event.event_type, "audio-chunk") {
            return Err(wrong_type("audio-chunk", event.event_type));
        }
        let format = read_format(&event.data)?;
        let timestamp = get_u64(&event.data, "timestamp");
        let audio = match event.payload {
            Some(p) => p,
            None => Vec::new(),
        };
        Ok(AudioChunk { format, audio, timestamp })
    }
}

/// Signals the end of an audio stream.
#[derive(Debug, Clone, Copy, PartialEq, Eq, Structural)]
pub struct AudioStop {
    pub timestamp: Option<u64>,
}

impl Eventable for AudioStop {
    const EVENT_TYPE: &'static str = "audio-stop";
    fn into_event(self) -> (r: Event)
        ensures
            r.event_type@ == "audio-stop"@,
            r.data@ == insert_opt(Map::empty(), "timestamp"@, opt_u64_value(self.timestamp)),
            r.payload is None,
    {
        let mut data = JsonMap::new();
        match self.timestamp {
            Some(t) => {
                data.insert("timestamp".to_owned(), JsonValue::Number(JsonNumber::PosInt(t)));
            },
            None => {},
        }
        Event { event_type: "audio-stop".to_owned(), data, payload: None }
    }

    fn from_event(event: Event) -> (r: Result<AudioStop, ConversionError>)
        ensures
            event.event_type@ != "audio-stop"@ ==> (r matches Err(e) && is_wrong_type(e, "audio-stop"@, event.event_type)),
            event.event_type@ == "audio-stop"@ ==> r == Ok::<AudioStop, ConversionError>(
                AudioStop { timestamp: timestamp_of(event.data@) },
            ),
    {
        if !str_is(&event.event_type, Self::EVENT_TYPE) {
            return Err(wrong_type(Self::EVENT_TYPE, event.event_type));
        }
        Ok(AudioStop { timestamp: get_u64(&event.data, "timestamp") })
    }
}

} // verus!
