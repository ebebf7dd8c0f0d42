//! Intent recognition events.
use vstd::prelude::*;

use crate::asr::{insert_context, insert_text};
use crate::event::{
    is_missing_field, is_wrong_type, missing_field, str_is, wrong_type, ConversionError, Event,
    Eventable,
};
use crate::handle::{
    context_at, read_text_context, text_at, text_context_data, write_text_context,
};
use crate::json::{
    insert_opt, map_get, opt_str_value, take_string, take_value, value_string, JsonMap, JsonValue,
};

verus! {

/// The keys used by the intent events are pairwise distinct where they share an object.
proof fn lemma_intent_keys_distinct()
    ensures
        "name"@ != "value"@,
        "name"@ != "entities"@,
        "name"@ != "text"@,
        "name"@ != "context"@,
        "entities"@ != "text"@,
        "entities"@ != "context"@,
        "text"@ != "context"@,
{
    reveal_strlit("name");
    reveal_strlit("value");
    reveal_strlit("entities");
    reveal_strlit("text");
    reveal_strlit("context");
    assert("name"@.len() == 4 && "value"@.len() == 5 && "entities"@.len() == 8);
    assert("text"@.len() == 4 && "context"@.len() == 7);
    assert("name"@[0] != "text"@[0]);
}

/// A named entity extracted from an intent.
#[derive(Debug, Clone, PartialEq)]
pub struct Entity {
    pub name: String,
    pub value: Option<JsonValue>,
}

/// The object written for an entity: its name, and its value when it has one.
pub open spec fn entity_fields(e: Entity) -> Map<Seq<char>, JsonValue> {
    insert_opt(Map::empty().insert("name"@, JsonValue::Str(e.name)), "value"@, e.value)
}

/// Whether `v` is the object written for `e`.
pub open spec fn is_entity_value(v: JsonValue, e: Entity) -> bool {
    v matches JsonValue::Object(m) && m@ == entity_fields(e)
}

/// Whether `v` is the array written for the entities `es`, one object each, in order.
pub open spec fn is_entities_array(v: JsonValue, es: Seq<Entity>) -> bool {
    &&& v matches JsonValue::Array(a)
    &&& v->Array_0@.len() == es.len()
    &&& forall|i: int| 0 <= i < es.len() ==> #[trigger] is_entity_value(v->Array_0@[i], es[i])
}

/// An optional value, with `null` read as no value.
pub open spec fn non_null(v: Option<JsonValue>) -> Option<JsonValue> {
    match v {
        Some(JsonValue::Null) => None,
        _ => v,
    }
}

/// The entity a JSON value describes, if it describes one: either an object with a string
/// `name` and an optional `value`, or an array of one or two elements whose first is the
/// name and whose second, when present, is the value. A `null` value is no value.
pub open spec fn entity_of(v: JsonValue) -> Option<Entity> {
    match v {
        JsonValue::Object(m) => match value_string(map_get(m@, "name"@)) {
            Some(name) => Some(Entity { name, value: non_null(map_get(m@, "value"@)) }),
            None => None,
        },
        JsonValue::Array(a) => if (a@.len() == 1 || a@.len() == 2) && a@[0] is Str {
            Some(
                Entity {
                    name: a@[0]->Str_0,
                    value: if a@.len() == 2 {
                        non_null(Some(a@[1]))
                    } else {
                        None
                    },
                },
            )
        } else {
            None
        },
        _ => None,
    }
}

/// The entities a list of JSON values describes, if every one of them describes one.
pub open spec fn entities_of(vs: Seq<JsonValue>) -> Option<Seq<Entity>>
    decreases vs.len(),
{
    if vs.len() == 0 {
        Some(Seq::empty())
    } else {
        match entity_of(vs[0]) {
            None => None,
            Some(e) => match entities_of(vs.drop_first()) {
                None => None,
                Some(rest) => Some(seq![e] + rest),
            },
        }
    }
}

/// The entities read from a data section: those of an `entities` array when every element
/// describes one, and none otherwise.
pub open spec fn entities_at(data: Map<Seq<char>, JsonValue>) -> Seq<Entity> {
    match map_get(data, "entities"@) {
        Some(JsonValue::Array(a)) => match entities_of(a@) {
            Some(es) => es,
            None => Seq::empty(),
        },
        _ => Seq::empty(),
    }
}

/// Entities written as objects are read back as the same entities, provided none has a
/// `null` value (which reads back as no value).
pub proof fn lemma_entities_round_trip(vs: Seq<JsonValue>, es: Seq<Entity>)
    requires
        vs.len() == es.len(),
        forall|i: int| 0 <= i < es.len() ==> #[trigger] is_entity_value(vs[i], es[i]),
        forall|i: int| 0 <= i < es.len() ==> (#[trigger] es[i]).value != Some(JsonValue::Null),
    ensures
        entities_of(vs) == Some(es),
    decreases vs.len(),
{
    lemma_intent_keys_distinct();
    if vs.len() > 0 {
        assert(is_entity_value(vs[0], es[0]));
        assert(es[0].value != Some(JsonValue::Null));
        assert forall|i: int| 0 <= i < es.drop_first().len() implies #[trigger] is_entity_value(
            vs.drop_first()[i],
            es.drop_first()[i],
        ) by {
            assert(is_entity_value(vs[i + 1], es[i + 1]));
        }
        assert forall|i: int| 0 <= i < es.drop_first().len() implies (
        #[trigger] es.drop_first()[i]).value != Some(JsonValue::Null) by {
            assert(es[i + 1].value != Some(JsonValue::Null));
        }
        lemma_entities_round_trip(vs.drop_first(), es.drop_first());
        assert(seq![es[0]] + es.drop_first() =~= es);
    } else {
        assert(es =~= Seq::<Entity>::empty());
    }
}

/// The object for one entity.
fn write_entity(e: Entity) -> (r: JsonValue)
    ensures
        is_entity_value(r, e),
{
    let mut m = JsonMap::new();
    m.insert("name".to_owned(), JsonValue::Str(e.name));
    match e.value {
        Some(v) => {
            m.insert("value".to_owned(), v);
        },
        None => {},
    }
    JsonValue::Object(m)
}

/// The array for a list of entities.
fn write_entities(es: Vec<Entity>) -> (r: JsonValue)
    ensures
        is_entities_array(r, es@),
{
    let ghost all = es@;
    let mut es = es;
    let mut out: Vec<JsonValue> = Vec::new();
    while es.len() > 0
        invariant
            out@.len() + es@.len() == all.len(),
            es@ == all.subrange(out@.len() as int, all.len() as int),
            forall|i: int| 0 <= i < out@.len() ==> #[trigger] is_entity_value(out@[i], all[i]),
        decreases es@.len(),
    {
        let e = es.remove(0);
        let ghost k = out@.len();
        assert(e == all[k as int]);
        out.push(write_entity(e));
        assert(es@ =~= all.subrange(out@.len() as int, all.len() as int));
    }
    JsonValue::Array(out)
}

/// Take an optional value out of a JSON value, with `null` read as no value.
fn take_non_null(v: Option<JsonValue>) -> (r: Option<JsonValue>)
    ensures
        r == non_null(v),
{
    match v {
        Some(JsonValue::Null) => None,
        other => other,
    }
}

/// The entity a JSON value describes, if any.
fn read_entity(v: JsonValue) -> (r: Option<Entity>)
    ensures
        r == entity_of(v),
{
    proof {
        lemma_intent_keys_distinct();
    }
    match v {
        JsonValue::Object(m) => {
            let mut m = m;
            match take_string(&mut m, "name") {
                Some(name) => {
                    let value = take_non_null(take_value(&mut m, "value"));
                    Some(Entity { name, value })
                },
                None => None,
            }
        },
        JsonValue::Array(a) => {
            let mut a = a;
            let n = a.len();
            if n == 1 || n == 2 {
                let first = a.remove(0);
                match first {
                    JsonValue::Str(name) => {
                        let value = if n == 2 {
                            take_non_null(Some(a.remove(0)))
                        } else {
                            None
                        };
                        Some(Entity { name, value })
                    },
                    _ => None,
                }
            } else {
                None
            }
        },
        _ => None,
    }
}

/// The entities a list of JSON values describes, or none unless every one describes one.
fn read_entities(vs: Vec<JsonValue>) -> (r: Vec<Entity>)
    ensures
        match entities_of(vs@) {
            Some(es) => r@ == es,
            None => r@ == Seq::<Entity>::empty(),
        },
{
    let ghost all = vs@;
    let mut rest = vs;
    let mut out: Vec<Entity> = Vec::new();
    while rest.len() > 0
        invariant
            all == vs@,
            entities_of(all) == match entities_of(rest@) {
                Some(tail) => Some(out@ + tail),
                None => None::<Seq<Entity>>,
            },
        decreases rest@.len(),
    {
        let ghost before = rest@;
        let v = rest.remove(0);
        assert(before.drop_first() =~= rest@);
        match read_entity(v) {
            Some(e) => {
                let ghost prev = out@;
                out.push(e);
                proof {
                    match entities_of(rest@) {
                        Some(tail) => {
                            assert(prev + (seq![e] + tail) =~= out@ + tail);
                        },
                        None => {},
                    }
                }
            },
            None => {
                assert(entities_of(before) == None::<Seq<Entity>>);
                assert(entities_of(all) == None::<Seq<Entity>>);
                let none: Vec<Entity> = Vec::new();
                return none;
            },
        }
    }
    assert(out@ + Seq::<Entity>::empty() =~= out@);
    out
}

/// Request to recognize an intent from text.
#[derive(Debug, Clone, PartialEq)]
pub struct Recognize {
    pub text: String,
    pub context: Option<JsonValue>,
}

/// The data section written for a recognition request.
pub open spec fn recognize_data(r: Recognize) -> Map<Seq<char>, JsonValue> {
    insert_opt(Map::empty().insert("text"@, JsonValue::Str(r.text)), "context"@, r.context)
}

/// The recognition request read from a data section, or the missing required field.
pub open spec fn recognize_of(data: Map<Seq<char>, JsonValue>) -> Result<Recognize, Seq<char>> {
    match value_string(map_get(data, "text"@)) {
        None => Err("text"@),
        Some(text) => Ok(Recognize { text, context: map_get(data, "context"@) }),
    }
}

/// A recognition request written and read back is the same request.
pub proof fn lemma_recognize_round_trip(r: Recognize)
    ensures
        recognize_of(recognize_data(r)) == Ok::<Recognize, Seq<char>>(r),
{
    lemma_intent_keys_distinct();
}

/// A recognition request is written with its text as a string under `text`, its context
/// under `context` when it has one, and nothing else; and a data section is read as a
/// request exactly when it holds a string under `text`, which becomes the request's text,
/// its `context` (if any) becoming the context.
pub proof fn lemma_recognize_fields(r: Recognize, data: Map<Seq<char>, JsonValue>)
    ensures
        recognize_data(r).contains_key("text"@),
        recognize_data(r)["text"@] == JsonValue::Str(r.text),
        r.context matches Some(c) ==> recognize_data(r).contains_key("context"@) && recognize_data(r)["context"@]
            == c,
        r.context is None ==> !recognize_data(r).contains_key("context"@),
        forall|k: Seq<char>| #[trigger] recognize_data(r).contains_key(k) ==> k == "text"@ || k == "context"@,
        (data.contains_key("text"@) && data["text"@] is Str) ==> (recognize_of(data) matches Ok(x) && JsonValue::Str(x.text)
            == data["text"@] && x.context == (if data.contains_key("context"@) {
            Some(data["context"@])
        } else {
            None
        })),
        !(data.contains_key("text"@) && data["text"@] is Str) ==> recognize_of(data) is Err,
{
    lemma_intent_keys_distinct();
}

impl Eventable for Recognize {
    const EVENT_TYPE: &'static str = "recognize";

    fn into_event(self) -> (r: Event)
        ensures
            r.event_type@ == "recognize"@,
            r.data@ == recognize_data(self),
            r.payload is None,
    {
        let mut data = JsonMap::new();
        data.insert("text".to_owned(), JsonValue::Str(self.text));
        insert_context(&mut data, self.context);
        Event::new(Self::EVENT_TYPE).with_data(data)
    }

    fn from_event(event: Event) -> (r: Result<Recognize, ConversionError>)
        ensures
            event.event_type@ == "recognize"@ ==> match recognize_of(event.data@) {
                Ok(x) => r == Ok::<Recognize, ConversionError>(x),
                Err(name) => r matches Err(e) && is_missing_field(e, name),
            },
            event.event_type@ != "recognize"@ ==> (r matches Err(e) && is_wrong_type(e, "recognize"@, event.event_type)),
    {
        if !str_is(&event.event_type, Self::EVENT_TYPE) {
            return Err(wrong_type(Self::EVENT_TYPE, event.event_type));
        }
        proof {
            lemma_intent_keys_distinct();
        }
        let mut data = event.data;
        let text = match take_string(&mut data, "text") {
            Some(s) => s,
            None => return Err(missing_field("text")),
        };
        let context = take_value(&mut data, "context");
        Ok(Recognize { text, context })
    }
}

/// A recognized intent.
#[derive(Debug, Clone, PartialEq)]
pub struct Intent {
    pub name: String,
    pub entities: Vec<Entity>,
    pub text: Option<String>,
    pub context: Option<JsonValue>,
}

/// Whether `data` is the data section written for `x`: its name, the entities as an array
/// of objects when there is at least one, the text and the context when present, and no
/// other key.
pub open spec fn intent_data(data: Map<Seq<char>, JsonValue>, x: Intent) -> bool {
    &&& map_get(data, "name"@) == Some(JsonValue::Str(x.name))
    &&& map_get(data, "text"@) == opt_str_value(x.text)
    &&& map_get(data, "context"@) == x.context
    &&& if x.entities@.len() > 0 {
        data.contains_key("entities"@) && is_entities_array(data["entities"@], x.entities@)
    } else {
        !data.contains_key("entities"@)
    }
    &&& data.remove("name"@).remove("entities"@).remove("text"@).remove("context"@) == Map::<
        Seq<char>,
        JsonValue,
    >::empty()
}

/// Whether `r` is what reading `data` as an intent gives: the name is required.
pub open spec fn intent_read(data: Map<Seq<char>, JsonValue>, r: Result<Intent, ConversionError>) -> bool {
    match value_string(map_get(data, "name"@)) {
        None => r matches Err(e) && is_missing_field(e, "name"@),
        Some(name) => r matches Ok(x) && x.name == name && x.entities@ == entities_at(data) && x.text
            == value_string(map_get(data, "text"@)) && x.context == map_get(data, "context"@),
    }
}

/// An intent written and read back is the same intent, provided none of its entities has a
/// `null` value.
pub proof fn lemma_intent_round_trip(x: Intent, data: Map<Seq<char>, JsonValue>, r: Result<Intent, ConversionError>)
    requires
        intent_data(data, x),
        intent_read(data, r),
        forall|i: int| 0 <= i < x.entities@.len() ==> (#[trigger] x.entities@[i]).value != Some(JsonValue::Null),
    ensures
        r matches Ok(y) && y.name == x.name && y.entities@ == x.entities@ && y.text == x.text && y.context
            == x.context,
{
    lemma_intent_keys_distinct();
    if x.entities@.len() > 0 {
        let v = data["entities"@];
        lemma_entities_round_trip(v->Array_0@, x.entities@);
    } else {
        assert(x.entities@ =~= Seq::<Entity>::empty());
    }
}

impl Eventable for Intent {
    const EVENT_TYPE: &'static str = "intent";

    fn into_event(self) -> (r: Event)
        ensures
            r.event_type@ == "intent"@,
            intent_data(r.data@, self),
            r.payload is None,
    {
        proof {
            lemma_intent_keys_distinct();
        }
        let mut data = JsonMap::new();
        data.insert("name".to_owned(), JsonValue::Str(self.name));
        if self.entities.len() > 0 {
            data.insert("entities".to_owned(), write_entities(self.entities));
        }
        insert_text(&mut data, "text", self.text);
        insert_context(&mut data, self.context);
        assert(data@.remove("name"@).remove("entities"@).remove("text"@).remove("context"@) =~= Map::<
            Seq<char>,
            JsonValue,
        >::empty());
        Event::new(Self::EVENT_TYPE).with_data(data)
    }

    fn from_event(event: Event) -> (r: Result<Intent, ConversionError>)
        ensures
            event.event_type@ == "intent"@ ==> intent_read(event.data@, r),
            event.event_type@ != "intent"@ ==> (r matches Err(e) && is_wrong_type(e, "intent"@, event.event_type)),
    {
        if !str_is(&event.event_type, Self::EVENT_TYPE) {
            return Err(wrong_type(Self::EVENT_TYPE, event.event_type));
        }
        proof {
            lemma_intent_keys_distinct();
        }
        let mut data = event.data;
        let name = match take_string(&mut data, "name") {
            Some(s) => s,
            None => return Err(missing_field("name")),
        };
        let entities = match take_value(&mut data, "entities") {
            Some(JsonValue::Array(a)) => read_entities(a),
            _ => Vec::new(),
        };
        let text = take_string(&mut data, "text");
        let context = take_value(&mut data, "context");
        Ok(Intent { name, entities, text, context })
    }
}

/// The intent was not recognized.
#[derive(Debug, Clone, PartialEq)]
pub struct NotRecognized {
    pub text: Option<String>,
    pub context: Option<JsonValue>,
}

impl Eventable for NotRecognized {
    const EVENT_TYPE: &'static str = "not-recognized";

    fn into_event(self) -> (r: Event)
        ensures
            r.event_type@ == "not-recognized"@,
            r.data@ == text_context_data(self.text, self.context),
            r.payload is None,
    {
        Event::new(Self::EVENT_TYPE).with_data(write_text_context(self.text, self.context))
    }

    fn from_event(event: Event) -> (r: Result<NotRecognized, ConversionError>)
        ensures
            event.event_type@ == "not-recognized"@ ==> r == Ok::<NotRecognized, ConversionError>(
                NotRecognized { text: text_at(event.data@), context: context_at(event.data@) },
            ),
            event.event_type@ != "not-recognized"@ ==> (r matches Err(e) && is_wrong_type(e, "not-recognized"@, event.event_type)),
    {
        if !str_is(&event.event_type, Self::EVENT_TYPE) {
            return Err(wrong_type(Self::EVENT_TYPE, event.event_type));
        }
        let (text, context) = read_text_context(event.data);
        Ok(NotRecognized { text, context })
    }
}

} // verus!
