//! Timer events, sent by the server.
use vstd::prelude::*;

use crate::event::{
    is_missing_field, is_wrong_type, missing_field, str_is, wrong_type, ConversionError, Event,
    Eventable,
};
use crate::json::{
    get_bool, get_u64, insert_opt, map_get, opt_str_value, opt_u64_value, take_string, u64_value,
    value_bool, value_string, value_u64, JsonMap, JsonNumber, JsonValue,
};

verus! {

/// The data keys of the timer events are pairwise distinct.
proof fn lemma_timer_keys_distinct()
    ensures
        "id"@ != "total_seconds"@,
        "id"@ != "name"@,
        "id"@ != "start_hours"@,
        "id"@ != "start_minutes"@,
        "id"@ != "start_seconds"@,
        "id"@ != "is_active"@,
        "total_seconds"@ != "name"@,
        "total_seconds"@ != "start_hours"@,
        "total_seconds"@ != "start_minutes"@,
        "total_seconds"@ != "start_seconds"@,
        "total_seconds"@ != "is_active"@,
        "name"@ != "start_hours"@,
        "name"@ != "start_minutes"@,
        "name"@ != "start_seconds"@,
        "start_hours"@ != "start_minutes"@,
        "start_hours"@ != "start_seconds"@,
        "start_minutes"@ != "start_seconds"@,
{
    reveal_strlit("id");
    reveal_strlit("total_seconds");
    reveal_strlit("name");
    reveal_strlit("start_hours");
    reveal_strlit("start_minutes");
    reveal_strlit("start_seconds");
    reveal_strlit("is_active");
    assert("id"@.len() == 2 && "name"@.len() == 4 && "is_active"@.len() == 9);
    assert("total_seconds"@.len() == 13 && "start_hours"@.len() == 11);
    assert("start_minutes"@.len() == 13 && "start_seconds"@.len() == 13);
    assert("total_seconds"@[0] != "start_minutes"@[0]);
    assert("total_seconds"@[0] != "start_seconds"@[0]);
    assert("start_minutes"@[6] != "start_seconds"@[6]);
}

/// An optional `u32` as a JSON number.
pub open spec fn opt_u32_value(n: Option<u32>) -> Option<JsonValue> {
    match n {
        Some(x) => Some(u64_value(x as u64)),
        None => None,
    }
}

/// An unsigned integer under `key`, narrowed to `u32` as `as` does.
pub open spec fn u32_at(data: Map<Seq<char>, JsonValue>, key: Seq<char>) -> Option<u32> {
    match value_u64(map_get(data, key)) {
        Some(v) => Some(v as u32),
        None => None,
    }
}

/// Store an optional `u32` under `key`.
fn insert_u32(data: &mut JsonMap, key: &str, n: Option<u32>)
    ensures
        final(data)@ == insert_opt(old(data)@, key@, opt_u32_value(n)),
{
    match n {
        Some(x) => {
            data.insert(key.to_owned(), JsonValue::Number(JsonNumber::PosInt(x as u64)));
        },
        None => {},
    }
}

/// Read an unsigned integer under `key`, narrowed to `u32`.
fn read_u32(data: &JsonMap, key: &str) -> (r: Option<u32>)
    ensures
        r == u32_at(data@, key@),
{
    match get_u64(data, key) {
        Some(v) => Some(v as u32),
        None => None,
    }
}

/// A timer was started.
#[derive(Debug, Clone, PartialEq, Eq)]
pub struct TimerStarted {
    pub id: String,
    pub total_seconds: u64,
    pub name: Option<String>,
    pub start_hours: Option<u32>,
    pub start_minutes: Option<u32>,
    pub start_seconds: Option<u32>,
}

/// The data section written for a started timer.
pub open spec fn started_data(t: TimerStarted) -> Map<Seq<char>, JsonValue> {
    insert_opt(
        insert_opt(
            insert_opt(
                insert_opt(
                    Map::empty().insert("id"@, JsonValue::Str(t.id)).insert(
                        "total_seconds"@,
                        u64_value(t.total_seconds),
                    ),
                    "name"@,
                    opt_str_value(t.name),
                ),
                "start_hours"@,
                opt_u32_value(t.start_hours),
            ),
            "start_minutes"@,
            opt_u32_value(t.start_minutes),
        ),
        "start_seconds"@,
        opt_u32_value(t.start_seconds),
    )
}

/// The started timer read from a data section, or the first missing required field.
pub open spec fn started_of(data: Map<Seq<char>, JsonValue>) -> Result<TimerStarted, Seq<char>> {
    match value_string(map_get(data, "id"@)) {
        None => Err("id"@),
        Some(id) => match value_u64(map_get(data, "total_seconds"@)) {
            None => Err("total_seconds"@),
            Some(total) => Ok(
                TimerStarted {
                    id,
                    total_seconds: total,
                    name: value_string(map_get(data, "name"@)),
                    start_hours: u32_at(data, "start_hours"@),
                    start_minutes: u32_at(data, "start_minutes"@),
                    start_seconds: u32_at(data, "start_seconds"@),
                },
            ),
        },
    }
}

/// A started timer written as a data section and read back is the same timer.
pub proof fn lemma_started_round_trip(t: TimerStarted)
    ensures
        started_of(started_data(t)) == Ok::<TimerStarted, Seq<char>>(t),
{
    lemma_timer_keys_distinct();
}

/// Whether `r` is what reading `data` as a timer event gives.
pub open spec fn read_matches<T>(r: Result<T, ConversionError>, s: Result<T, Seq<char>>) -> bool {
    match s {
        Ok(t) => r == Ok::<T, ConversionError>(t),
        Err(name) => r matches Err(e) && is_missing_field(e, name),
    }
}

impl Eventable for TimerStarted {
    const EVENT_TYPE: &'static str = "timer-started";

    fn into_event(self) -> (r: Event)
        ensures
            r.event_type@ == "timer-started"@,
            r.data@ == started_data(self),
            r.payload is None,
    {
        let mut data = JsonMap::new();
        data.insert("id".to_owned(), JsonValue::Str(self.id));
        data.insert("total_seconds".to_owned(), JsonValue::Number(JsonNumber::PosInt(self.total_seconds)));
        match self.name {
            Some(name) => {
                data.insert("name".to_owned(), JsonValue::Str(name));
            },
            None => {},
        }
        insert_u32(&mut data, "start_hours", self.start_hours);
        insert_u32(&mut data, "start_minutes", self.start_minutes);
        insert_u32(&mut data, "start_seconds", self.start_seconds);
        Event::new(Self::EVENT_TYPE).with_data(data)
    }

    fn from_event(event: Event) -> (r: Result<TimerStarted, ConversionError>)
        ensures
            event.event_type@ == "timer-started"@ ==> read_matches(r, started_of(event.data@)),
            event.event_type@ != "timer-started"@ ==> (r matches Err(e) && is_wrong_type(e, "timer-started"@, event.event_type)),
    {
        if !str_is(&event.event_type, Self::EVENT_TYPE) {
            return Err(wrong_type(Self::EVENT_TYPE, event.event_type));
        }
        proof {
            lemma_timer_keys_distinct();
        }
        let mut data = event.data;
        let id = match take_string(&mut data, "id") {
            Some(s) => s,
            None => return Err(missing_field("id")),
        };
        let total_seconds = match get_u64(&data, "total_seconds") {
            Some(v) => v,
            None => return Err(missing_field("total_seconds")),
        };
        let name = take_string(&mut data, "name");
        let start_hours = read_u32(&data, "start_hours");
        let start_minutes = read_u32(&data, "start_minutes");
        let start_seconds = read_u32(&data, "start_seconds");
        Ok(TimerStarted { id, total_seconds, name, start_hours, start_minutes, start_seconds })
    }
}

/// A running timer changed.
#[derive(Debug, Clone, PartialEq, Eq)]
pub struct TimerUpdated {
    pub id: String,
    pub is_active: bool,
    pub total_seconds: u64,
}

/// The data section written for an updated timer.
pub open spec fn updated_data(t: TimerUpdated) -> Map<Seq<char>, JsonValue> {
    Map::empty().insert("id"@, JsonValue::Str(t.id)).insert("is_active"@, JsonValue::Bool(t.is_active)).insert(
        "total_seconds"@,
        u64_value(t.total_seconds),
    )
}

/// The updated timer read from a data section, or the first missing field.
pub open spec fn updated_of(data: Map<Seq<char>, JsonValue>) -> Result<TimerUpdated, Seq<char>> {
    match value_string(map_get(data, "id"@)) {
        None => Err("id"@),
        Some(id) => match value_bool(map_get(data, "is_active"@)) {
            None => Err("is_active"@),
            Some(active) => match value_u64(map_get(data, "total_seconds"@)) {
                None => Err("total_seconds"@),
                Some(total) => Ok(TimerUpdated { id, is_active: active, total_seconds: total }),
            },
        },
    }
}

/// An updated timer written as a data section and read back is the same timer.
pub proof fn lemma_updated_round_trip(t: TimerUpdated)
    ensures
        updated_of(updated_data(t)) == Ok::<TimerUpdated, Seq<char>>(t),
{
    lemma_timer_keys_distinct();
}

/// A started timer is written with its id as a string under `id` and its total length in
/// seconds as an unsigned integer under `total_seconds`, its name under `name` when given;
/// an updated timer with its id under `id`, whether it runs as a boolean under `is_active`,
/// and its total seconds under `total_seconds`, and nothing else.
pub proof fn lemma_timer_fields(s: TimerStarted, u: TimerUpdated)
    ensures
        map_get(started_data(s), "id"@) == Some(JsonValue::Str(s.id)),
        map_get(started_data(s), "total_seconds"@) == Some(JsonValue::Number(JsonNumber::PosInt(s.total_seconds))),
        map_get(started_data(s), "name"@) == (match s.name {
            Some(n) => Some(JsonValue::Str(n)),
            None => None,
        }),
        map_get(updated_data(u), "id"@) == Some(JsonValue::Str(u.id)),
        map_get(updated_data(u), "is_active"@) == Some(JsonValue::Bool(u.is_active)),
        map_get(updated_data(u), "total_seconds"@) == Some(JsonValue::Number(JsonNumber::PosInt(u.total_seconds))),
        forall|k: Seq<char>| #[trigger] updated_data(u).contains_key(k) ==> k == "id"@ || k == "is_active"@ || k
            == "total_seconds"@,
{
    lemma_timer_keys_distinct();
}

impl Eventable for TimerUpdated {
    const EVENT_TYPE: &'static str = "timer-updated";

    fn into_event(self) -> (r: Event)
        ensures
            r.event_type@ == "timer-updated"@,
            r.data@ == updated_data(self),
            r.payload is None,
    {
        let mut data = JsonMap::new();
        data.insert("id".to_owned(), JsonValue::Str(self.id));
        data.insert("is_active".to_owned(), JsonValue::Bool(self.is_active));
        data.insert("total_seconds".to_owned(), JsonValue::Number(JsonNumber::PosInt(self.total_seconds)));
        Event::new(Self::EVENT_TYPE).with_data(data)
    }

    fn from_event(event: Event) -> (r: Result<TimerUpdated, ConversionError>)
        ensures
            event.event_type@ == "timer-updated"@ ==> read_matches(r, updated_of(event.data@)),
            event.event_type@ != "timer-updated"@ ==> (r matches Err(e) && is_wrong_type(e, "timer-updated"@, event.event_type)),
    {
        if !str_is(&event.event_type, Self::EVENT_TYPE) {
            return Err(wrong_type(Self::EVENT_TYPE, event.event_type));
        }
        proof {
            lemma_timer_keys_distinct();
        }
        let mut data = event.data;
        let id = match take_string(&mut data, "id") {
            Some(s) => s,
            None => return Err(missing_field("id")),
        };
        let is_active = match get_bool(&data, "is_active") {
            Some(b) => b,
            None => return Err(missing_field("is_active")),
        };
        let total_seconds = match get_u64(&data, "total_seconds") {
            Some(v) => v,
            None => return Err(missing_field("total_seconds")),
        };
        Ok(TimerUpdated { id, is_active, total_seconds })
    }
}

/// The data section naming a timer.
pub open spec fn id_data(id: String) -> Map<Seq<char>, JsonValue> {
    Map::empty().insert("id"@, JsonValue::Str(id))
}

/// The timer id read from a data section, or the missing field.
pub open spec fn id_of(data: Map<Seq<char>, JsonValue>) -> Result<String, Seq<char>> {
    match value_string(map_get(data, "id"@)) {
        None => Err("id"@),
        Some(id) => Ok(id),
    }
}

/// Read the required timer id.
fn read_id(data: JsonMap) -> (r: Result<String, ConversionError>)
    ensures
        read_matches(r, id_of(data@)),
{
    let mut data = data;
    match take_string(&mut data, "id") {
        Some(s) => Ok(s),
        None => Err(missing_field("id")),
    }
}

/// A timer was cancelled.
#[derive(Debug, Clone, PartialEq)]
pub struct TimerCancelled {
    pub id: String,
}

impl Eventable for TimerCancelled {
    const EVENT_TYPE: &'static str = "timer-cancelled";

    fn into_event(self) -> (r: Event)
        ensures
            r.event_type@ == "timer-cancelled"@,
            r.data@ == id_data(self.id),
            r.payload is None,
    {
        let mut data = JsonMap::new();
        data.insert("id".to_owned(), JsonValue::Str(self.id));
        Event::new(Self::EVENT_TYPE).with_data(data)
    }

    fn from_event(event: Event) -> (r: Result<TimerCancelled, ConversionError>)
        ensures
            event.event_type@ == "timer-cancelled"@ ==> match id_of(event.data@) {
                Ok(id) => r == Ok::<TimerCancelled, ConversionError>(TimerCancelled { id }),
                Err(name) => r matches Err(e) && is_missing_field(e, name),
            },
            event.event_type@ != "timer-cancelled"@ ==> (r matches Err(e) && is_wrong_type(e, "timer-cancelled"@, event.event_type)),
    {
        if !str_is(&event.event_type, Self::EVENT_TYPE) {
            return Err(wrong_type(Self::EVENT_TYPE, event.event_type));
        }
        let id = read_id(event.data)?;
        Ok(TimerCancelled { id })
    }
}

/// A timer finished.
#[derive(Debug, Clone, PartialEq)]
pub struct TimerFinished {
    pub id: String,
}

impl Eventable for TimerFinished {
    const EVENT_TYPE: &'static str = "timer-finished";

    fn into_event(self) -> (r: Event)
        ensures
            r.event_type@ == "timer-finished"@,
            r.data@ == id_data(self.id),
            r.payload is None,
    {
        let mut data = JsonMap::new();
        data.insert("id".to_owned(), JsonValue::Str(self.id));
        Event::new(Self::EVENT_TYPE).with_data(data)
    }

    fn from_event(event: Event) -> (r: Result<TimerFinished, ConversionError>)
        ensures
            event.event_type@ == "timer-finished"@ ==> match id_of(event.data@) {
                Ok(id) => r == Ok::<TimerFinished, ConversionError>(TimerFinished { id }),
                Err(name) => r matches Err(e) && is_missing_field(e, name),
            },
            event.event_type@ != "timer-finished"@ ==> (r matches Err(e) && is_wrong_type(e, "timer-finished"@, event.event_type)),
    {
        if !str_is(&event.event_type, Self::EVENT_TYPE) {
            return Err(wrong_type(Self::EVENT_TYPE, event.event_type));
        }
        let id = read_id(event.data)?;
        Ok(TimerFinished { id })
    }
}

} // verus!
