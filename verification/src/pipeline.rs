//! Pipeline stages and the run-pipeline request.
use vstd::prelude::*;

use crate::event::{
    is_missing_field, is_wrong_type, missing_field, str_is, wrong_type, ConversionError, Event,
    Eventable,
};
use crate::json::{
    get_bool, insert_opt, is_string_array, map_get, opt_str_value, str_eq, strings_of, strings_to_values,
    strings_value, take_string, take_value, value_bool, value_string, values_to_strings,
    lemma_strings_round_trip, JsonMap, JsonValue,
};

verus! {

/// Pipeline stages.
#[derive(Debug, Clone, Copy, PartialEq, Eq, Structural)]
pub enum PipelineStage {
    Wake,
    Asr,
    Intent,
    Handle,
    Tts,
}

/// The wire name of a stage.
pub open spec fn stage_name(stage: PipelineStage) -> Seq<char> {
    match stage {
        PipelineStage::Wake => "wake"@,
        PipelineStage::Asr => "asr"@,
        PipelineStage::Intent => "intent"@,
        PipelineStage::Handle => "handle"@,
        PipelineStage::Tts => "tts"@,
    }
}

/// The stage with a wire name, if any.
pub open spec fn stage_of(name: Seq<char>) -> Option<PipelineStage> {
    if name == "wake"@ {
        Some(PipelineStage::Wake)
    } else if name == "asr"@ {
        Some(PipelineStage::Asr)
    } else if name == "intent"@ {
        Some(PipelineStage::Intent)
    } else if name == "handle"@ {
        Some(PipelineStage::Handle)
    } else if name == "tts"@ {
        Some(PipelineStage::Tts)
    } else {
        None
    }
}

/// Every stage is found again from its wire name.
pub proof fn lemma_stage_name_round_trip(stage: PipelineStage)
    ensures
        stage_of(stage_name(stage)) == Some(stage),
{
    reveal_strlit("wake");
    reveal_strlit("asr");
    reveal_strlit("intent");
    reveal_strlit("handle");
    reveal_strlit("tts");
    assert("asr"@[0] != "tts"@[0]);
    assert("intent"@[0] != "handle"@[0]);
}

impl PipelineStage {
    /// The wire name of this stage.
    pub fn as_str(&self) -> (r: &'static str)
        ensures
            r@ == stage_name(*self),
    {
        match self {
            PipelineStage::Wake => "wake",
            PipelineStage::Asr => "asr",
            PipelineStage::Intent => "intent",
            PipelineStage::Handle => "handle",
            PipelineStage::Tts => "tts",
        }
    }

    /// The stage with the given wire name, if any.
    pub fn from_str(s: &str) -> (r: Option<PipelineStage>)
        ensures
            r == stage_of(s@),
    {
        if str_eq(s, "wake") {
            Some(PipelineStage::Wake)
        } else if str_eq(s, "asr") {
            Some(PipelineStage::Asr)
        } else if str_eq(s, "intent") {
            Some(PipelineStage::Intent)
        } else if str_eq(s, "handle") {
            Some(PipelineStage::Handle)
        } else if str_eq(s, "tts") {
            Some(PipelineStage::Tts)
        } else {
            None
        }
    }
}

/// The stage named by a string value under `key`.
pub open spec fn stage_at(data: Map<Seq<char>, JsonValue>, key: Seq<char>) -> Option<PipelineStage> {
    match value_string(map_get(data, key)) {
        Some(s) => stage_of(s@),
        None => None,
    }
}

/// Request to run a voice pipeline.
#[derive(Debug, Clone, PartialEq)]
pub struct RunPipeline {
    pub start_stage: PipelineStage,
    pub end_stage: PipelineStage,
    pub wake_word_name: Option<String>,
    pub restart_on_end: bool,
    pub wake_word_names: Option<Vec<String>>,
    pub announce_text: Option<String>,
}

/// Whether `data` holds under `key` a string with the text `text`.
pub open spec fn has_text(data: Map<Seq<char>, JsonValue>, key: Seq<char>, text: Seq<char>) -> bool {
    &&& data.contains_key(key)
    &&& data[key] matches JsonValue::Str(s) && s@ == text
}

/// The keys written for `p`.
pub open spec fn run_pipeline_keys(p: RunPipeline) -> Set<Seq<char>> {
    let s = set!["start_stage"@, "end_stage"@];
    let s = if p.wake_word_name is Some { s.insert("wake_word_name"@) } else { s };
    let s = if p.restart_on_end { s.insert("restart_on_end"@) } else { s };
    let s = if p.wake_word_names is Some { s.insert("wake_word_names"@) } else { s };
    if p.announce_text is Some { s.insert("announce_text"@) } else { s }
}

/// Whether `data` is the data section written for `p`: the two stages by name, the optional
/// texts when present, `restart_on_end` only when set, the wake word list as an array of
/// strings when present, and no other key.
pub open spec fn run_pipeline_data(data: Map<Seq<char>, JsonValue>, p: RunPipeline) -> bool {
    &&& data.dom() == run_pipeline_keys(p)
    &&& has_text(data, "start_stage"@, stage_name(p.start_stage))
    &&& has_text(data, "end_stage"@, stage_name(p.end_stage))
    &&& map_get(data, "wake_word_name"@) == opt_str_value(p.wake_word_name)
    &&& map_get(data, "announce_text"@) == opt_str_value(p.announce_text)
    &&& (p.restart_on_end ==> data["restart_on_end"@] == JsonValue::Bool(true))
    &&& (p.wake_word_names matches Some(names) ==> is_string_array(data["wake_word_names"@], names@))
}

/// Whether `r` is what reading `data` gives: both stages are required and must be known
/// names; the wake word list keeps the strings of an array and skips other values.
pub open spec fn run_pipeline_read(data: Map<Seq<char>, JsonValue>, r: Result<RunPipeline, ConversionError>) -> bool {
    match stage_at(data, "start_stage"@) {
        None => r matches Err(e) && is_missing_field(e, "start_stage"@),
        Some(start) => match stage_at(data, "end_stage"@) {
            None => r matches Err(e) && is_missing_field(e, "end_stage"@),
            Some(end) => r matches Ok(p) && p.start_stage == start && p.end_stage == end
                && p.wake_word_name == value_string(map_get(data, "wake_word_name"@))
                && p.restart_on_end == (value_bool(map_get(data, "restart_on_end"@)) == Some(true))
                && p.announce_text == value_string(map_get(data, "announce_text"@))
                && match map_get(data, "wake_word_names"@) {
                Some(JsonValue::Array(a)) => p.wake_word_names matches Some(v) && v@ == strings_of(a@),
                _ => p.wake_word_names is None,
            },
        },
    }
}

/// Whether two requests are the same, wake word lists compared by their texts.
pub open spec fn same_run_pipeline(a: RunPipeline, b: RunPipeline) -> bool {
    &&& a.start_stage == b.start_stage
    &&& a.end_stage == b.end_stage
    &&& a.wake_word_name == b.wake_word_name
    &&& a.restart_on_end == b.restart_on_end
    &&& a.announce_text == b.announce_text
    &&& match (a.wake_word_names, b.wake_word_names) {
        (Some(x), Some(y)) => x@ == y@,
        (None, None) => true,
        _ => false,
    }
}

/// The data keys of a run-pipeline request are pairwise distinct.
proof fn lemma_run_pipeline_keys_distinct()
    ensures
        "start_stage"@ != "end_stage"@,
        "start_stage"@ != "wake_word_name"@,
        "start_stage"@ != "restart_on_end"@,
        "start_stage"@ != "wake_word_names"@,
        "start_stage"@ != "announce_text"@,
        "end_stage"@ != "wake_word_name"@,
        "end_stage"@ != "restart_on_end"@,
        "end_stage"@ != "wake_word_names"@,
        "end_stage"@ != "announce_text"@,
        "wake_word_name"@ != "restart_on_end"@,
        "wake_word_name"@ != "wake_word_names"@,
        "wake_word_name"@ != "announce_text"@,
        "restart_on_end"@ != "wake_word_names"@,
        "restart_on_end"@ != "announce_text"@,
        "wake_word_names"@ != "announce_text"@,
{
    reveal_strlit("start_stage");
    reveal_strlit("end_stage");
    reveal_strlit("wake_word_name");
    reveal_strlit("restart_on_end");
    reveal_strlit("wake_word_names");
    reveal_strlit("announce_text");
    assert("start_stage"@.len() == 11 && "end_stage"@.len() == 9 && "announce_text"@.len() == 13);
    assert("wake_word_name"@.len() == 14 && "restart_on_end"@.len() == 14);
    assert("wake_word_names"@.len() == 15);
    assert("wake_word_name"@[0] != "restart_on_end"@[0]);
}

/// A request written as a data section and read back is the same request.
pub proof fn lemma_run_pipeline_round_trip(
    p: RunPipeline,
    data: Map<Seq<char>, JsonValue>,
    r: Result<RunPipeline, ConversionError>,
)
    requires
        run_pipeline_data(data, p),
        run_pipeline_read(data, r),
    ensures
        r matches Ok(q) && same_run_pipeline(q, p),
{
    lemma_run_pipeline_keys_distinct();
    lemma_stage_name_round_trip(p.start_stage);
    lemma_stage_name_round_trip(p.end_stage);
    if let Some(names) = p.wake_word_names {
        lemma_strings_round_trip(names@);
    }
}

impl Eventable for RunPipeline {
    const EVENT_TYPE: &'static str = "run-pipeline";

    fn into_event(self) -> (r: Event)
        ensures
            r.event_type@ == "run-pipeline"@,
            run_pipeline_data(r.data@, self),
            r.payload is None,
    {
        proof {
            lemma_run_pipeline_keys_distinct();
        }
        let mut data = JsonMap::new();
        data.insert("start_stage".to_owned(), JsonValue::Str(self.start_stage.as_str().to_owned()));
        data.insert("end_stage".to_owned(), JsonValue::Str(self.end_stage.as_str().to_owned()));
        match self.wake_word_name {
            Some(name) => {
                data.insert("wake_word_name".to_owned(), JsonValue::Str(name));
            },
            None => {},
        }
        if self.restart_on_end {
            data.insert("restart_on_end".to_owned(), JsonValue::Bool(true));
        }
        match self.wake_word_names {
            Some(names) => {
                data.insert("wake_word_names".to_owned(), JsonValue::Array(strings_to_values(&names)));
            },
            None => {},
        }
        match self.announce_text {
            Some(text) => {
                data.insert("announce_text".to_owned(), JsonValue::Str(text));
            },
            None => {},
        }
        assert(data@.dom() =~= run_pipeline_keys(self));
        Event::new(Self::EVENT_TYPE).with_data(data)
    }

    fn from_event(event: Event) -> (r: Result<RunPipeline, ConversionError>)
        ensures
            event.event_type@ == "run-pipeline"@ ==> run_pipeline_read(event.data@, r),
            event.event_type@ != "run-pipeline"@ ==> (r matches Err(e) && is_wrong_type(e, "run-pipeline"@, event.event_type)),
    {
        if !str_is(&event.event_type, Self::EVENT_TYPE) {
            return Err(wrong_type(Self::EVENT_TYPE, event.event_type));
        }
        proof {
            lemma_run_pipeline_keys_distinct();
        }
        let ghost d = event.data@;
        let mut data = event.data;
        let start_stage = match take_string(&mut data, "start_stage") {
            Some(s) => match PipelineStage::from_str(s.as_str()) {
                Some(st) => st,
                None => return Err(missing_field("start_stage")),
            },
            None => return Err(missing_field("start_stage")),
        };
        let end_stage = match take_string(&mut data, "end_stage") {
            Some(s) => match PipelineStage::from_str(s.as_str()) {
                Some(st) => st,
                None => return Err(missing_field("end_stage")),
            },
            None => return Err(missing_field("end_stage")),
        };
        let wake_word_name = take_string(&mut data, "wake_word_name");
        let restart_on_end = match get_bool(&data, "restart_on_end") {
            Some(b) => b,
            None => false,
        };
        let wake_word_names = match take_value(&mut data, "wake_word_names") {
            Some(JsonValue::Array(a)) => Some(values_to_strings(&a)),
            _ => None,
        };
        let announce_text = take_string(&mut data, "announce_text");
        Ok(RunPipeline { start_stage, end_stage, wake_word_name, restart_on_end, wake_word_names, announce_text })
    }
}

} // verus!
