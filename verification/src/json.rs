//! JSON values as they travel in Wyoming headers and data sections.
use serde_json::Value;
use vstd::prelude::*;
use vstd::utf8::{decode_utf8, valid_utf8};

verus! {

/// A JSON number. Integers keep their exact value; any other number keeps its decimal
/// text.
#[derive(Debug, PartialEq)]
pub enum JsonNumber {
    PosInt(u64),
    NegInt(i64),
    Float(String),
}

/// A JSON value.
#[derive(Debug, PartialEq)]
pub enum JsonValue {
    Null,
    Bool(bool),
    Number(JsonNumber),
    Str(String),
    Array(Vec<JsonValue>),
    Object(JsonMap),
}

/// A JSON object: string keys, each present at most once, kept in increasing key order (as
/// serde_json's map keeps them), so that two objects compare equal with `==` exactly when
/// they hold the same entries.
#[derive(Debug, PartialEq)]
pub struct JsonMap {
    entries: Vec<(String, JsonValue)>,
}

impl Clone for JsonNumber {
    fn clone(&self) -> (r: Self)
        ensures
            r == *self,
    {
        match self {
            JsonNumber::PosInt(n) => JsonNumber::PosInt(*n),
            JsonNumber::NegInt(n) => JsonNumber::NegInt(*n),
            JsonNumber::Float(t) => JsonNumber::Float(t.clone()),
        }
    }
}

/// The end of the run of decimal digits of `s` that starts at `i`.
pub open spec fn digits_end(s: Seq<char>, i: nat) -> nat
    decreases s.len() - i,
{
    if i < s.len() && '0' <= s[i as int] <= '9' {
        digits_end(s, i + 1)
    } else {
        i
    }
}

/// JSON number text: an optional minus sign, an integer part without leading zeros, an
/// optional fraction of at least one digit, and an optional exponent of at least one digit.
pub open spec fn json_number_text(s: Seq<char>) -> bool {
    let a: nat = if s.len() > 0 && s[0] == '-' {
        1
    } else {
        0
    };
    let b = digits_end(s, a);
    let c: nat = if b < s.len() && s[b as int] == '.' {
        digits_end(s, b + 1)
    } else {
        b
    };
    let has_exp = c < s.len() && (s[c as int] == 'e' || s[c as int] == 'E');
    let p: nat = if has_exp && c + 1 < s.len() && (s[c + 1int] == '+' || s[c + 1int] == '-') {
        c + 2
    } else {
        c + 1
    };
    let d: nat = if has_exp {
        digits_end(s, p)
    } else {
        c
    };
    &&& b > a
    &&& (s[a as int] != '0' || b == a + 1)
    &&& (c == b || c > b + 1)
    &&& (!has_exp || d > p)
    &&& d == s.len()
}

/// A number as serde_json holds one: a negative-range integer is negative (others are held
/// unsigned), and a fractional number's text is JSON number text.
pub open spec fn valid_number(n: JsonNumber) -> bool {
    match n {
        JsonNumber::PosInt(_) => true,
        JsonNumber::NegInt(i) => i < 0,
        JsonNumber::Float(t) => json_number_text(t@),
    }
}

/// Every number in the value, however deep, is valid.
pub closed spec fn valid_value(v: JsonValue) -> bool
    decreases v, 1nat,
{
    match v {
        JsonValue::Number(n) => valid_number(n),
        JsonValue::Array(x) => valid_items(x@),
        JsonValue::Object(m) => valid_entries(m.entries@),
        _ => true,
    }
}

/// Every item is valid.
pub closed spec fn valid_items(x: Seq<JsonValue>) -> bool
    decreases x, 0nat,
{
    if x.len() == 0 {
        true
    } else {
        valid_value(x[0]) && valid_items(x.drop_first())
    }
}

/// Every entry's value is valid.
pub closed spec fn valid_entries(x: Seq<(String, JsonValue)>) -> bool
    decreases x, 0nat,
{
    if x.len() == 0 {
        true
    } else {
        valid_value(x[0].1) && valid_entries(x.drop_first())
    }
}

/// Every value of the object is valid.
pub open spec fn valid_object(m: Map<Seq<char>, JsonValue>) -> bool {
    forall|k: Seq<char>| #[trigger] m.contains_key(k) ==> valid_value(m[k])
}

/// Two numbers that are the same: the same integer, or the same decimal text.
pub open spec fn same_number(a: JsonNumber, b: JsonNumber) -> bool {
    match (a, b) {
        (JsonNumber::PosInt(x), JsonNumber::PosInt(y)) => x == y,
        (JsonNumber::NegInt(x), JsonNumber::NegInt(y)) => x == y,
        (JsonNumber::Float(x), JsonNumber::Float(y)) => x@ == y@,
        _ => false,
    }
}

/// Two values that are the same JSON: the same kind, the same numbers and texts, arrays of
/// the same length with the same items in order, and objects with the same entries in the
/// same order.
pub closed spec fn same_value(a: JsonValue, b: JsonValue) -> bool
    decreases a, 1nat,
{
    match (a, b) {
        (JsonValue::Null, JsonValue::Null) => true,
        (JsonValue::Bool(x), JsonValue::Bool(y)) => x == y,
        (JsonValue::Number(x), JsonValue::Number(y)) => same_number(x, y),
        (JsonValue::Str(x), JsonValue::Str(y)) => x@ == y@,
        (JsonValue::Array(x), JsonValue::Array(y)) => same_items(x@, y@),
        (JsonValue::Object(m), JsonValue::Object(n)) => same_entries(m.entries@, n.entries@),
        _ => false,
    }
}

/// Two lists of the same length whose items are the same JSON, in order.
pub closed spec fn same_items(x: Seq<JsonValue>, y: Seq<JsonValue>) -> bool
    decreases x, 0nat,
{
    if x.len() == 0 {
        y.len() == 0
    } else {
        y.len() > 0 && same_value(x[0], y[0]) && same_items(x.drop_first(), y.drop_first())
    }
}

/// Two strings with the same text.
pub open spec fn same_text(a: String, b: String) -> bool {
    a@ == b@
}

/// Two lists of entries of the same length with the same keys in order and values that
/// are the same JSON.
pub closed spec fn same_entries(x: Seq<(String, JsonValue)>, y: Seq<(String, JsonValue)>) -> bool
    decreases x, 0nat,
{
    if x.len() == 0 {
        y.len() == 0
    } else {
        y.len() > 0 && same_text(x[0].0, y[0].0) && same_value(x[0].1, y[0].1) && same_entries(x.drop_first(), y.drop_first())
    }
}

/// Two objects with the same keys, each with values that are the same JSON.
pub open spec fn same_object(a: Map<Seq<char>, JsonValue>, b: Map<Seq<char>, JsonValue>) -> bool {
    &&& forall|k: Seq<char>| #[trigger] a.contains_key(k) <==> b.contains_key(k)
    &&& forall|k: Seq<char>| #[trigger] a.contains_key(k) ==> same_value(a[k], b[k])
}

/// `v` nests arrays and objects at most `d` deep; a null, boolean, number or string nests
/// none.
pub closed spec fn value_nests_within(v: JsonValue, d: nat) -> bool
    decreases v, 1nat,
{
    match v {
        JsonValue::Array(x) => d > 0 && items_nest_within(x@, (d - 1) as nat),
        JsonValue::Object(m) => d > 0 && entries_nest_within(m.entries@, (d - 1) as nat),
        _ => true,
    }
}

/// Every item nests arrays and objects at most `d` deep.
pub closed spec fn items_nest_within(x: Seq<JsonValue>, d: nat) -> bool
    decreases x, 0nat,
{
    if x.len() == 0 {
        true
    } else {
        value_nests_within(x[0], d) && items_nest_within(x.drop_first(), d)
    }
}

/// Every entry's value nests arrays and objects at most `d` deep.
pub closed spec fn entries_nest_within(x: Seq<(String, JsonValue)>, d: nat) -> bool
    decreases x, 0nat,
{
    if x.len() == 0 {
        true
    } else {
        value_nests_within(x[0].1, d) && entries_nest_within(x.drop_first(), d)
    }
}

/// An object, itself included, nests arrays and objects at most `d` deep.
pub open spec fn object_nests_within(m: Map<Seq<char>, JsonValue>, d: nat) -> bool {
    d > 0 && forall|k: Seq<char>| #[trigger] m.contains_key(k) ==> value_nests_within(m[k], (d - 1) as nat)
}

/// How deep serde_json reads nested arrays and objects: its reader starts with a budget of
/// 128 levels and refuses the text when an array or object would use the last one.
pub open spec fn json_read_nesting() -> nat {
    127
}

/// Values that JSON text carries back as the same JSON: anything but a fractional number
/// (whose text serde_json may write differently) or a non-negative number held as a
/// negative-range integer (which reads back as an unsigned one).
pub closed spec fn text_keeps_value(v: JsonValue) -> bool
    decreases v, 1nat,
{
    match v {
        JsonValue::Number(JsonNumber::Float(_)) => false,
        JsonValue::Number(JsonNumber::NegInt(n)) => n < 0,
        JsonValue::Array(x) => text_keeps_items(x@),
        JsonValue::Object(m) => text_keeps_entries(m.entries@),
        _ => true,
    }
}

/// Every item is carried back by JSON text.
pub closed spec fn text_keeps_items(x: Seq<JsonValue>) -> bool
    decreases x, 0nat,
{
    if x.len() == 0 {
        true
    } else {
        text_keeps_value(x[0]) && text_keeps_items(x.drop_first())
    }
}

/// Every entry's value is carried back by JSON text.
pub closed spec fn text_keeps_entries(x: Seq<(String, JsonValue)>) -> bool
    decreases x, 0nat,
{
    if x.len() == 0 {
        true
    } else {
        text_keeps_value(x[0].1) && text_keeps_entries(x.drop_first())
    }
}

/// Every value of the object is carried back by JSON text.
pub open spec fn text_keeps_object(m: Map<Seq<char>, JsonValue>) -> bool {
    forall|k: Seq<char>| #[trigger] m.contains_key(k) ==> text_keeps_value(m[k])
}

proof fn lemma_same_items(x: Seq<JsonValue>, y: Seq<JsonValue>)
    ensures
        same_items(x, y) <==> (x.len() == y.len() && forall|i: int| 0 <= i < x.len() ==> #[trigger] same_value(x[i], y[i])),
    decreases x.len(),
{
    if x.len() > 0 && y.len() > 0 {
        lemma_same_items(x.drop_first(), y.drop_first());
        if x.len() == y.len() && forall|i: int| 0 <= i < x.len() ==> #[trigger] same_value(x[i], y[i]) {
            assert(same_value(x[0], y[0]));
            assert forall|i: int| 0 <= i < x.drop_first().len() implies #[trigger] same_value(x.drop_first()[i], y.drop_first()[i]) by {
                assert(same_value(x[i + 1], y[i + 1]));
            }
        }
        if same_items(x, y) {
            assert forall|i: int| 0 <= i < x.len() implies #[trigger] same_value(x[i], y[i]) by {
                if i > 0 {
                    assert(same_value(x.drop_first()[i - 1], y.drop_first()[i - 1]));
                }
            }
        }
    }
}

proof fn lemma_same_entries(x: Seq<(String, JsonValue)>, y: Seq<(String, JsonValue)>)
    requires
        x.len() == y.len(),
        forall|i: int| 0 <= i < x.len() ==> same_text(#[trigger] x[i].0, y[i].0),
        forall|i: int| 0 <= i < x.len() ==> #[trigger] same_value(x[i].1, y[i].1),
    ensures
        same_entries(x, y),
    decreases x.len(),
{
    if x.len() > 0 {
        let xd = x.drop_first();
        let yd = y.drop_first();
        assert forall|i: int| 0 <= i < xd.len() implies same_text(#[trigger] xd[i].0, yd[i].0) by {
            assert(same_text(x[i + 1].0, y[i + 1].0));
        }
        assert forall|i: int| 0 <= i < xd.len() implies #[trigger] same_value(xd[i].1, yd[i].1) by {
            assert(same_value(x[i + 1].1, y[i + 1].1));
        }
        lemma_same_entries(xd, yd);
        assert(same_value(x[0].1, y[0].1));
        assert(same_text(x[0].0, y[0].0));
    }
}

/// A copy of a value, element by element: the same JSON.
fn copy_value(v: &JsonValue) -> (r: JsonValue)
    ensures
        same_value(r, *v),
    decreases v,
{
    match v {
        JsonValue::Null => JsonValue::Null,
        JsonValue::Bool(b) => JsonValue::Bool(*b),
        JsonValue::Number(n) => JsonValue::Number(n.clone()),
        JsonValue::Str(s) => JsonValue::Str(s.clone()),
        JsonValue::Array(a) => {
            let mut out: Vec<JsonValue> = Vec::new();
            let mut i: usize = 0;
            while i < a.len()
                invariant
                    i <= a@.len(),
                    *v == JsonValue::Array(*a),
                    out@.len() == i,
                    forall|j: int| 0 <= j < i ==> #[trigger] same_value(out@[j], a@[j]),
                decreases a@.len() - i,
            {
                proof {
                    broadcast use vstd::std_specs::vec::axiom_vec_index_decreases;
                    assert(decreases_to!(*a => a[i as int]));
                    assert(decreases_to!(*v => v->Array_0));
                    assert(decreases_to!(*v => a[i as int]));
                }
                let item = copy_value(&a[i]);
                out.push(item);
                i = i + 1;
            }
            proof {
                lemma_same_items(out@, a@);
            }
            JsonValue::Array(out)
        },
        JsonValue::Object(m) => JsonValue::Object(copy_map(m)),
    }
}

/// A copy of an object, entry by entry: the same keys in the same order, each with the
/// same JSON.
fn copy_map(m: &JsonMap) -> (r: JsonMap)
    ensures
        same_value(JsonValue::Object(r), JsonValue::Object(*m)),
    decreases m,
{
    proof {
        use_type_invariant(m);
    }
    let mut out: Vec<(String, JsonValue)> = Vec::new();
    let mut i: usize = 0;
    while i < m.entries.len()
        invariant
            i <= m.entries@.len(),
            out@.len() == i,
            forall|j: int| 0 <= j < i ==> (#[trigger] out@[j]).0@ == m.entries@[j].0@,
            forall|j: int| 0 <= j < i ==> #[trigger] same_value(out@[j].1, m.entries@[j].1),
            keys_unique(m.entries@),
            keys_sorted(m.entries@),
        decreases m.entries@.len() - i,
    {
        proof {
            broadcast use vstd::std_specs::vec::axiom_vec_index_decreases;
            assert(decreases_to!(m.entries => m.entries[i as int]));
            assert(decreases_to!(*m => m.entries[i as int].1));
        }
        let k = m.entries[i].0.clone();
        let v = copy_value(&m.entries[i].1);
        out.push((k, v));
        i = i + 1;
    }
    assert(keys_unique(out@));
    let r = JsonMap { entries: out };
    assert(same_value(JsonValue::Object(r), JsonValue::Object(*m))) by {
        lemma_same_entries(out@, m.entries@);
    }
    r
}

impl Clone for JsonValue {
    fn clone(&self) -> (r: Self)
        ensures
            same_value(r, *self),
    {
        copy_value(self)
    }
}

impl Clone for JsonMap {
    fn clone(&self) -> (r: Self)
        ensures
            same_value(JsonValue::Object(r), JsonValue::Object(*self)),
    {
        copy_map(self)
    }
}

/// No key occurs twice among the entries.
pub open spec fn keys_unique(es: Seq<(String, JsonValue)>) -> bool {
    forall|i: int, j: int| 0 <= i < j < es.len() ==> (#[trigger] es[i]).0@ != (#[trigger] es[j]).0@
}

/// Some entry has key `k`.
pub open spec fn has_key(es: Seq<(String, JsonValue)>, k: Seq<char>) -> bool {
    exists|i: int| 0 <= i < es.len() && (#[trigger] es[i]).0@ == k
}

/// The key-value map that a sequence of entries stands for.
pub open spec fn entries_map(es: Seq<(String, JsonValue)>) -> Map<Seq<char>, JsonValue> {
    Map::new(
        |k: Seq<char>| has_key(es, k),
        |k: Seq<char>| es[choose|i: int| 0 <= i < es.len() && (#[trigger] es[i]).0@ == k].1,
    )
}

proof fn lemma_entries_map_index(es: Seq<(String, JsonValue)>, i: int)
    requires
        keys_unique(es),
        0 <= i < es.len(),
    ensures
        entries_map(es).contains_key(es[i].0@),
        entries_map(es)[es[i].0@] == es[i].1,
{
    let k = es[i].0@;
    assert(has_key(es, k));
    let j = choose|j: int| 0 <= j < es.len() && (#[trigger] es[j]).0@ == k;
    if j != i {
        if i < j {
            assert(es[i].0@ != es[j].0@);
        } else {
            assert(es[j].0@ != es[i].0@);
        }
    }
}

proof fn lemma_entries_map_push(es: Seq<(String, JsonValue)>, k: String, v: JsonValue)
    requires
        keys_unique(es),
        !has_key(es, k@),
    ensures
        keys_unique(es.push((k, v))),
        entries_map(es.push((k, v))) == entries_map(es).insert(k@, v),
{
    let es2 = es.push((k, v));
    assert forall|i: int, j: int| 0 <= i < j < es2.len() implies (#[trigger] es2[i]).0@ != (
    #[trigger] es2[j]).0@ by {
        if j == es.len() {
            if es[i].0@ == k@ {
                assert(has_key(es, k@));
            }
        } else {
            assert(es2[i] == es[i] && es2[j] == es[j]);
        }
    }
    let m1 = entries_map(es2);
    let m2 = entries_map(es).insert(k@, v);
    assert forall|key: Seq<char>| #[trigger] m1.contains_key(key) <==> m2.contains_key(key) by {
        if has_key(es2, key) {
            let i = choose|i: int| 0 <= i < es2.len() && (#[trigger] es2[i]).0@ == key;
            if i < es.len() {
                assert(es[i] == es2[i]);
                assert(has_key(es, key));
            }
        }
        if has_key(es, key) {
            let i = choose|i: int| 0 <= i < es.len() && (#[trigger] es[i]).0@ == key;
            assert(es2[i] == es[i]);
            assert(has_key(es2, key));
        }
        if key == k@ {
            assert(es2[es.len() as int].0@ == key);
            assert(has_key(es2, key));
        }
    }
    assert forall|key: Seq<char>| #[trigger] m1.contains_key(key) implies m1[key] == m2[key] by {
        let i = choose|i: int| 0 <= i < es2.len() && (#[trigger] es2[i]).0@ == key;
        lemma_entries_map_index(es2, i);
        if i < es.len() {
            assert(es[i] == es2[i]);
            lemma_entries_map_index(es, i);
        }
    }
    assert(m1 =~= m2);
}

proof fn lemma_entries_map_remove(es: Seq<(String, JsonValue)>, i: int)
    requires
        keys_unique(es),
        0 <= i < es.len(),
    ensures
        keys_unique(es.remove(i)),
        entries_map(es.remove(i)) == entries_map(es).remove(es[i].0@),
{
    let es2 = es.remove(i);
    let k = es[i].0@;
    assert forall|a: int, b: int| 0 <= a < b < es2.len() implies (#[trigger] es2[a]).0@ != (
    #[trigger] es2[b]).0@ by {
        let a1 = if a < i { a } else { a + 1 };
        let b1 = if b < i { b } else { b + 1 };
        assert(es2[a] == es[a1] && es2[b] == es[b1]);
        assert(es[a1].0@ != es[b1].0@);
    }
    let m1 = entries_map(es2);
    let m2 = entries_map(es).remove(k);
    assert forall|key: Seq<char>| #[trigger] m1.contains_key(key) <==> m2.contains_key(key) by {
        if has_key(es2, key) {
            let a = choose|a: int| 0 <= a < es2.len() && (#[trigger] es2[a]).0@ == key;
            let a1 = if a < i { a } else { a + 1 };
            assert(es2[a] == es[a1]);
            assert(has_key(es, key));
            assert(es[a1].0@ != es[i].0@);
        }
        if has_key(es, key) && key != k {
            let a1 = choose|a: int| 0 <= a < es.len() && (#[trigger] es[a]).0@ == key;
            assert(a1 != i);
            let a = if a1 < i { a1 } else { a1 - 1 };
            assert(es2[a] == es[a1]);
            assert(has_key(es2, key));
        }
    }
    assert forall|key: Seq<char>| #[trigger] m1.contains_key(key) implies m1[key] == m2[key] by {
        let a = choose|a: int| 0 <= a < es2.len() && (#[trigger] es2[a]).0@ == key;
        lemma_entries_map_index(es2, a);
        let a1 = if a < i { a } else { a + 1 };
        assert(es2[a] == es[a1]);
        lemma_entries_map_index(es, a1);
    }
    assert(m1 =~= m2);
}

proof fn lemma_entries_map_update(es: Seq<(String, JsonValue)>, i: int, k: String, v: JsonValue)
    requires
        keys_unique(es),
        0 <= i < es.len(),
        es[i].0@ == k@,
    ensures
        keys_unique(es.update(i, (k, v))),
        entries_map(es.update(i, (k, v))) == entries_map(es).insert(k@, v),
{
    let es2 = es.update(i, (k, v));
    assert forall|a: int, b: int| 0 <= a < b < es2.len() implies (#[trigger] es2[a]).0@ != (
    #[trigger] es2[b]).0@ by {
        assert(es[a].0@ != es[b].0@);
    }
    let m1 = entries_map(es2);
    let m2 = entries_map(es).insert(k@, v);
    assert forall|key: Seq<char>| #[trigger] m1.contains_key(key) <==> m2.contains_key(key) by {
        if has_key(es2, key) {
            let a = choose|a: int| 0 <= a < es2.len() && (#[trigger] es2[a]).0@ == key;
            if a != i {
                assert(es2[a] == es[a]);
                assert(has_key(es, key));
            }
        }
        if has_key(es, key) {
            let a = choose|a: int| 0 <= a < es.len() && (#[trigger] es[a]).0@ == key;
            assert(es2[a].0@ == key);
            assert(has_key(es2, key));
        }
        if key == k@ {
            assert(es2[i].0@ == key);
            assert(has_key(es2, key));
        }
    }
    assert forall|key: Seq<char>| #[trigger] m1.contains_key(key) implies m1[key] == m2[key] by {
        let a = choose|a: int| 0 <= a < es2.len() && (#[trigger] es2[a]).0@ == key;
        lemma_entries_map_index(es2, a);
        if a != i {
            assert(es2[a] == es[a]);
            lemma_entries_map_index(es, a);
        }
    }
    assert(m1 =~= m2);
}

/// Whether key `a` comes before key `b` in the order of Rust's string comparison: character
/// by character, and a key before every longer key it begins.
pub open spec fn key_lt(a: Seq<char>, b: Seq<char>) -> bool
    decreases a.len(),
{
    if a.len() == 0 {
        b.len() > 0
    } else if b.len() == 0 {
        false
    } else if a[0] != b[0] {
        (a[0] as int) < (b[0] as int)
    } else {
        key_lt(a.drop_first(), b.drop_first())
    }
}

proof fn lemma_key_lt_irreflexive(a: Seq<char>)
    ensures
        !key_lt(a, a),
    decreases a.len(),
{
    if a.len() > 0 {
        lemma_key_lt_irreflexive(a.drop_first());
    }
}

proof fn lemma_key_lt_total(a: Seq<char>, b: Seq<char>)
    requires
        a != b,
    ensures
        key_lt(a, b) || key_lt(b, a),
    decreases a.len(),
{
    if a.len() > 0 && b.len() > 0 && a[0] == b[0] {
        if a.drop_first() == b.drop_first() {
            assert(a =~= seq![a[0]] + a.drop_first());
            assert(b =~= seq![b[0]] + b.drop_first());
        }
        lemma_key_lt_total(a.drop_first(), b.drop_first());
    } else if a.len() == 0 && b.len() == 0 {
        assert(a =~= b);
    } else if a.len() > 0 && b.len() > 0 {
        assert((a[0] as int) != (b[0] as int));
    }
}

proof fn lemma_key_lt_transitive(a: Seq<char>, b: Seq<char>, c: Seq<char>)
    requires
        key_lt(a, b),
        key_lt(b, c),
    ensures
        key_lt(a, c),
    decreases a.len(),
{
    if a.len() > 0 && b.len() > 0 && c.len() > 0 && a[0] == b[0] && b[0] == c[0] {
        lemma_key_lt_transitive(a.drop_first(), b.drop_first(), c.drop_first());
    }
}

/// The entries are in increasing key order (so no key occurs twice).
pub open spec fn keys_sorted(es: Seq<(String, JsonValue)>) -> bool {
    forall|i: int, j: int| 0 <= i < j < es.len() ==> key_lt((#[trigger] es[i]).0@, (#[trigger] es[j]).0@)
}

proof fn lemma_sorted_unique(es: Seq<(String, JsonValue)>)
    requires
        keys_sorted(es),
    ensures
        keys_unique(es),
{
    assert forall|i: int, j: int| 0 <= i < j < es.len() implies (#[trigger] es[i]).0@ != (#[trigger] es[j]).0@ by {
        lemma_key_lt_irreflexive(es[i].0@);
    }
}

/// Whether `a` comes before `b` in key order.
fn key_before(a: &str, b: &str) -> (r: bool)
    ensures
        r == key_lt(a@, b@),
{
    let la = a.unicode_len();
    let lb = b.unicode_len();
    let mut i: usize = 0;
    assert(a@.skip(0) =~= a@ && b@.skip(0) =~= b@);
    while i < la && i < lb
        invariant
            la == a@.len(),
            lb == b@.len(),
            i <= la,
            i <= lb,
            key_lt(a@, b@) == key_lt(a@.skip(i as int), b@.skip(i as int)),
        decreases la - i,
    {
        let ca = a.get_char(i);
        let cb = b.get_char(i);
        assert(a@.skip(i as int)[0] == ca && b@.skip(i as int)[0] == cb);
        if ca != cb {
            return (ca as u32) < (cb as u32);
        }
        assert(a@.skip(i as int).drop_first() =~= a@.skip(i + 1));
        assert(b@.skip(i as int).drop_first() =~= b@.skip(i + 1));
        i = i + 1;
    }
    i < lb
}

proof fn lemma_sorted_insert(es: Seq<(String, JsonValue)>, p: int, k: String, v: JsonValue)
    requires
        keys_unique(es),
        keys_sorted(es),
        0 <= p <= es.len(),
        forall|j: int| 0 <= j < p ==> key_lt((#[trigger] es[j]).0@, k@),
        forall|j: int| p <= j < es.len() ==> key_lt(k@, (#[trigger] es[j]).0@),
    ensures
        keys_unique(es.insert(p, (k, v))),
        keys_sorted(es.insert(p, (k, v))),
        entries_map(es.insert(p, (k, v))) == entries_map(es).insert(k@, v),
{
    let es2 = es.insert(p, (k, v));
    assert forall|i: int, j: int| 0 <= i < j < es2.len() implies key_lt((#[trigger] es2[i]).0@, (#[trigger] es2[j]).0@) by {
        if j < p {
            assert(es2[i] == es[i] && es2[j] == es[j]);
        } else if j == p {
            assert(es2[i] == es[i]);
        } else if i < p {
            assert(es2[i] == es[i] && es2[j] == es[j - 1]);
            lemma_key_lt_transitive(es[i].0@, k@, es[j - 1].0@);
        } else if i == p {
            assert(es2[j] == es[j - 1]);
        } else {
            assert(es2[i] == es[i - 1] && es2[j] == es[j - 1]);
        }
    }
    lemma_sorted_unique(es2);
    assert(!has_key(es, k@)) by {
        if has_key(es, k@) {
            let j = choose|j: int| 0 <= j < es.len() && (#[trigger] es[j]).0@ == k@;
            lemma_key_lt_irreflexive(k@);
        }
    }
    let m1 = entries_map(es2);
    let m2 = entries_map(es).insert(k@, v);
    assert forall|key: Seq<char>| #[trigger] m1.contains_key(key) <==> m2.contains_key(key) by {
        if has_key(es2, key) {
            let a = choose|a: int| 0 <= a < es2.len() && (#[trigger] es2[a]).0@ == key;
            if a < p {
                assert(es2[a] == es[a]);
                assert(has_key(es, key));
            } else if a > p {
                assert(es2[a] == es[a - 1]);
                assert(has_key(es, key));
            }
        }
        if has_key(es, key) {
            let a = choose|a: int| 0 <= a < es.len() && (#[trigger] es[a]).0@ == key;
            let a2 = if a < p { a } else { a + 1 };
            assert(es2[a2] == es[a]);
            assert(has_key(es2, key));
        }
        if key == k@ {
            assert(es2[p].0@ == key);
            assert(has_key(es2, key));
        }
    }
    assert forall|key: Seq<char>| #[trigger] m1.contains_key(key) implies m1[key] == m2[key] by {
        let a = choose|a: int| 0 <= a < es2.len() && (#[trigger] es2[a]).0@ == key;
        lemma_entries_map_index(es2, a);
        if a < p {
            assert(es2[a] == es[a]);
            lemma_entries_map_index(es, a);
        } else if a > p {
            assert(es2[a] == es[a - 1]);
            lemma_entries_map_index(es, a - 1);
        }
    }
    assert(m1 =~= m2);
}

proof fn lemma_sorted_remove(es: Seq<(String, JsonValue)>, i: int)
    requires
        keys_sorted(es),
        0 <= i < es.len(),
    ensures
        keys_sorted(es.remove(i)),
{
    let es2 = es.remove(i);
    assert forall|a: int, b: int| 0 <= a < b < es2.len() implies key_lt((#[trigger] es2[a]).0@, (#[trigger] es2[b]).0@) by {
        let a1 = if a < i { a } else { a + 1 };
        let b1 = if b < i { b } else { b + 1 };
        assert(es2[a] == es[a1] && es2[b] == es[b1]);
    }
}


/// Equality of a stored key with a looked-up key.
fn key_matches(stored: &String, key: &str) -> (r: bool)
    ensures
        r == (stored@ == key@),
{
    let owned = key.to_owned();
    *stored == owned
}

impl View for JsonMap {
    type V = Map<Seq<char>, JsonValue>;

    closed spec fn view(&self) -> Map<Seq<char>, JsonValue> {
        entries_map(self.entries@)
    }
}

impl JsonMap {
    #[verifier::type_invariant]
    spec fn inv(self) -> bool {
        keys_unique(self.entries@) && keys_sorted(self.entries@)
    }

    /// An empty object.
    pub fn new() -> (r: JsonMap)
        ensures
            r@ == Map::<Seq<char>, JsonValue>::empty(),
    {
        let r = JsonMap { entries: Vec::new() };
        assert(r@ =~= Map::<Seq<char>, JsonValue>::empty());
        r
    }

    /// Position of `key` among the entries.
    fn find(&self, key: &str) -> (r: Option<usize>)
        ensures
            match r {
                Some(i) => i < self.entries@.len() && self.entries@[i as int].0@ == key@,
                None => !has_key(self.entries@, key@),
            },
    {
        let mut i: usize = 0;
        while i < self.entries.len()
            invariant
                i <= self.entries@.len(),
                forall|j: int| 0 <= j < i ==> (#[trigger] self.entries@[j]).0@ != key@,
            decreases self.entries@.len() - i,
        {
            if key_matches(&self.entries[i].0, key) {
                return Some(i);
            }
            i = i + 1;
        }
        None
    }

    /// The value stored under `key`, if any.
    pub fn get(&self, key: &str) -> (r: Option<&JsonValue>)
        ensures
            match r {
                Some(v) => self@.contains_key(key@) && *v == self@[key@],
                None => !self@.contains_key(key@),
            },
    {
        proof {
            use_type_invariant(self);
        }
        match self.find(key) {
            Some(i) => {
                proof {
                    lemma_entries_map_index(self.entries@, i as int);
                }
                Some(&self.entries[i].1)
            },
            None => None,
        }
    }

    /// Whether `key` is present.
    pub fn contains_key(&self, key: &str) -> (r: bool)
        ensures
            r == self@.contains_key(key@),
    {
        self.find(key).is_some()
    }

    /// Where `key` belongs among the entries: the first position whose key does not come
    /// before it, and whether that position holds `key` itself.
    fn position(&self, key: &str) -> (r: (usize, bool))
        ensures
            r.0 <= self.entries@.len(),
            forall|j: int| 0 <= j < r.0 ==> key_lt((#[trigger] self.entries@[j]).0@, key@),
            r.1 ==> r.0 < self.entries@.len() && self.entries@[r.0 as int].0@ == key@,
            !r.1 ==> forall|j: int| r.0 <= j < self.entries@.len() ==> key_lt(key@, (#[trigger] self.entries@[j]).0@),
    {
        proof {
            use_type_invariant(self);
        }
        let mut i: usize = 0;
        while i < self.entries.len() && key_before(self.entries[i].0.as_str(), key)
            invariant
                i <= self.entries@.len(),
                forall|j: int| 0 <= j < i ==> key_lt((#[trigger] self.entries@[j]).0@, key@),
            decreases self.entries@.len() - i,
        {
            i = i + 1;
        }
        let found = i < self.entries.len() && key_matches(&self.entries[i].0, key);
        proof {
            if !found && i < self.entries@.len() {
                let es = self.entries@;
                lemma_key_lt_total(es[i as int].0@, key@);
                assert forall|j: int| i <= j < es.len() implies key_lt(key@, (#[trigger] es[j]).0@) by {
                    if j > i {
                        lemma_key_lt_transitive(key@, es[i as int].0@, es[j].0@);
                    }
                }
            }
        }
        (i, found)
    }

    /// Store `value` under `key`, giving back the value it replaces.
    pub fn insert(&mut self, key: String, value: JsonValue) -> (r: Option<JsonValue>)
        ensures
            final(self)@ == old(self)@.insert(key@, value),
            r == (if old(self)@.contains_key(key@) {
                Some(old(self)@[key@])
            } else {
                None
            }),
    {
        proof {
            use_type_invariant(&*self);
        }
        let ghost es = self.entries@;
        let (i, found) = self.position(key.as_str());
        if found {
            proof {
                lemma_entries_map_index(es, i as int);
                lemma_entries_map_update(es, i as int, key, value);
                assert(es.remove(i as int).insert(i as int, (key, value)) =~= es.update(i as int, (key, value)));
                let es2 = es.update(i as int, (key, value));
                assert forall|a: int, b: int| 0 <= a < b < es2.len() implies key_lt(
                    (#[trigger] es2[a]).0@,
                    (#[trigger] es2[b]).0@,
                ) by {
                    assert(es2[a].0@ == es[a].0@ && es2[b].0@ == es[b].0@);
                }
            }
            let mut entries: Vec<(String, JsonValue)> = Vec::new();
            std::mem::swap(&mut entries, &mut self.entries);
            let old_entry = entries.remove(i);
            entries.insert(i, (key, value));
            self.entries = entries;
            Some(old_entry.1)
        } else {
            proof {
                lemma_sorted_insert(es, i as int, key, value);
                if has_key(es, key@) {
                    let j = choose|j: int| 0 <= j < es.len() && (#[trigger] es[j]).0@ == key@;
                    lemma_key_lt_irreflexive(key@);
                }
            }
            let mut entries: Vec<(String, JsonValue)> = Vec::new();
            std::mem::swap(&mut entries, &mut self.entries);
            entries.insert(i, (key, value));
            self.entries = entries;
            None
        }
    }

    /// Store every entry of `other`, its values replacing those already under the same keys.
    pub fn extend(&mut self, other: JsonMap)
        ensures
            final(self)@ == old(self)@.union_prefer_right(other@),
    {
        proof {
            use_type_invariant(&other);
        }
        let ghost target = old(self)@.union_prefer_right(other@);
        let mut rest = other.entries;
        while rest.len() > 0
            invariant
                keys_unique(rest@),
                self@.union_prefer_right(entries_map(rest@)) == target,
            decreases rest@.len(),
        {
            let ghost before = rest@;
            let ghost current = self@;
            let (k, v) = rest.pop().unwrap();
            proof {
                assert(before =~= rest@.push((k, v)));
                assert forall|i: int, j: int| 0 <= i < j < rest@.len() implies (#[trigger] rest@[i]).0@
                    != (#[trigger] rest@[j]).0@ by {
                    assert(rest@[i] == before[i] && rest@[j] == before[j]);
                }
                if has_key(rest@, k@) {
                    let j = choose|j: int| 0 <= j < rest@.len() && (#[trigger] rest@[j]).0@ == k@;
                    assert(before[j].0@ != before[before.len() - 1].0@);
                }
                lemma_entries_map_push(rest@, k, v);
            }
            self.insert(k, v);
            proof {
                assert(self@.union_prefer_right(entries_map(rest@)) =~= current.union_prefer_right(
                    entries_map(before),
                ));
            }
        }
        proof {
            assert(entries_map(rest@) =~= Map::<Seq<char>, JsonValue>::empty());
            assert(self@.union_prefer_right(entries_map(rest@)) =~= self@);
        }
    }

    /// Remove `key`, giving back its value.
    pub fn remove(&mut self, key: &str) -> (r: Option<JsonValue>)
        ensures
            final(self)@ == old(self)@.remove(key@),
            r == (if old(self)@.contains_key(key@) {
                Some(old(self)@[key@])
            } else {
                None
            }),
    {
        proof {
            use_type_invariant(&*self);
        }
        let ghost es = self.entries@;
        match self.find(key) {
            Some(i) => {
                proof {
                    lemma_entries_map_index(es, i as int);
                    lemma_entries_map_remove(es, i as int);
                    lemma_sorted_remove(es, i as int);
                }
                let mut entries: Vec<(String, JsonValue)> = Vec::new();
                std::mem::swap(&mut entries, &mut self.entries);
                let old_entry = entries.remove(i);
                self.entries = entries;
                Some(old_entry.1)
            },
            None => {
                assert(self@ =~= old(self)@.remove(key@));
                None
            },
        }
    }

    /// Whether the object has no key.
    pub fn is_empty(&self) -> (r: bool)
        ensures
            r == (self@ == Map::<Seq<char>, JsonValue>::empty()),
    {
        proof {
            use_type_invariant(self);
        }
        let r = self.entries.len() == 0;
        if r {
            assert(self@ =~= Map::<Seq<char>, JsonValue>::empty());
        } else {
            proof {
                lemma_entries_map_index(self.entries@, 0);
                assert(!Map::<Seq<char>, JsonValue>::empty().contains_key(self.entries@[0].0@));
            }
        }
        r
    }

    /// Number of keys.
    pub fn len(&self) -> (r: usize)
        ensures
            r == self@.dom().len(),
    {
        proof {
            use_type_invariant(self);
            lemma_dom_len(self.entries@);
        }
        self.entries.len()
    }
}

proof fn lemma_dom_len(es: Seq<(String, JsonValue)>)
    requires
        keys_unique(es),
    ensures
        entries_map(es).dom().finite(),
        entries_map(es).dom().len() == es.len(),
    decreases es.len(),
{
    if es.len() == 0 {
        assert(entries_map(es).dom() =~= Set::<Seq<char>>::empty());
    } else {
        let es0 = es.drop_last();
        assert forall|i: int, j: int| 0 <= i < j < es0.len() implies (#[trigger] es0[i]).0@ != (
        #[trigger] es0[j]).0@ by {
            assert(es[i].0@ != es[j].0@);
        }
        lemma_dom_len(es0);
        let last = es.last();
        if has_key(es0, last.0@) {
            let i = choose|i: int| 0 <= i < es0.len() && (#[trigger] es0[i]).0@ == last.0@;
            assert(es[i].0@ != es[es.len() - 1].0@);
        }
        lemma_entries_map_push(es0, last.0, last.1);
        assert(es0.push((last.0, last.1)) =~= es);
    }
}


/// The unsigned integer a value holds, if it is one.
pub open spec fn value_u64(v: Option<JsonValue>) -> Option<u64> {
    match v {
        Some(JsonValue::Number(JsonNumber::PosInt(n))) => Some(n),
        _ => None,
    }
}

/// The boolean a value holds, if it is one.
pub open spec fn value_bool(v: Option<JsonValue>) -> Option<bool> {
    match v {
        Some(JsonValue::Bool(b)) => Some(b),
        _ => None,
    }
}

/// The string a value holds, if it is one.
pub open spec fn value_string(v: Option<JsonValue>) -> Option<String> {
    match v {
        Some(JsonValue::Str(s)) => Some(s),
        _ => None,
    }
}

/// Lookup in a map, as an `Option`.
pub open spec fn map_get(m: Map<Seq<char>, JsonValue>, k: Seq<char>) -> Option<JsonValue> {
    if m.contains_key(k) {
        Some(m[k])
    } else {
        None
    }
}

impl JsonValue {
    /// The unsigned integer this value holds, if it is one.
    pub fn as_u64(&self) -> (r: Option<u64>)
        ensures
            r == value_u64(Some(*self)),
    {
        match self {
            JsonValue::Number(JsonNumber::PosInt(n)) => Some(*n),
            _ => None,
        }
    }

    /// The boolean this value holds, if it is one.
    pub fn as_bool(&self) -> (r: Option<bool>)
        ensures
            r == value_bool(Some(*self)),
    {
        match self {
            JsonValue::Bool(b) => Some(*b),
            _ => None,
        }
    }

    /// The string this value holds, if it is one.
    pub fn as_str(&self) -> (r: Option<&str>)
        ensures
            match r {
                Some(s) => self is Str && s@ == self->Str_0@,
                None => !(self is Str),
            },
    {
        match self {
            JsonValue::Str(s) => Some(s.as_str()),
            _ => None,
        }
    }

    /// The elements of this value, if it is an array.
    pub fn as_array(&self) -> (r: Option<&Vec<JsonValue>>)
        ensures
            match r {
                Some(a) => self is Array && *a == self->Array_0,
                None => !(self is Array),
            },
    {
        match self {
            JsonValue::Array(a) => Some(a),
            _ => None,
        }
    }

    /// The object this value holds, if it is one.
    pub fn as_object(&self) -> (r: Option<&JsonMap>)
        ensures
            match r {
                Some(m) => self is Object && *m == self->Object_0,
                None => !(self is Object),
            },
    {
        match self {
            JsonValue::Object(m) => Some(m),
            _ => None,
        }
    }

    /// Whether this value is a number.
    pub fn is_number(&self) -> (r: bool)
        ensures
            r == (self is Number),
    {
        match self {
            JsonValue::Number(_) => true,
            _ => false,
        }
    }

    /// Whether this value is a string.
    pub fn is_string(&self) -> (r: bool)
        ensures
            r == (self is Str),
    {
        match self {
            JsonValue::Str(_) => true,
            _ => false,
        }
    }

    /// Whether this value is `null`.
    pub fn is_null(&self) -> (r: bool)
        ensures
            r == (self is Null),
    {
        match self {
            JsonValue::Null => true,
            _ => false,
        }
    }
}

/// The unsigned integer stored under `key`, if it is one.
pub fn get_u64(m: &JsonMap, key: &str) -> (r: Option<u64>)
    ensures
        r == value_u64(map_get(m@, key@)),
{
    match m.get(key) {
        Some(v) => v.as_u64(),
        None => None,
    }
}

/// The boolean stored under `key`, if it is one.
pub fn get_bool(m: &JsonMap, key: &str) -> (r: Option<bool>)
    ensures
        r == value_bool(map_get(m@, key@)),
{
    match m.get(key) {
        Some(v) => v.as_bool(),
        None => None,
    }
}

/// Remove `key`, giving back its value.
pub fn take_value(m: &mut JsonMap, key: &str) -> (r: Option<JsonValue>)
    ensures
        r == map_get(old(m)@, key@),
        final(m)@ == old(m)@.remove(key@),
{
    m.remove(key)
}

/// Remove `key`, giving back its value if it is a string.
pub fn take_string(m: &mut JsonMap, key: &str) -> (r: Option<String>)
    ensures
        r == value_string(map_get(old(m)@, key@)),
        final(m)@ == old(m)@.remove(key@),
{
    match m.remove(key) {
        Some(JsonValue::Str(s)) => Some(s),
        _ => None,
    }
}

/// The JSON number for an unsigned integer.
pub open spec fn u64_value(n: u64) -> JsonValue {
    JsonValue::Number(JsonNumber::PosInt(n))
}

/// An object with one more entry, when there is a value for it.
pub open spec fn insert_opt(m: Map<Seq<char>, JsonValue>, k: Seq<char>, v: Option<JsonValue>) -> Map<
    Seq<char>,
    JsonValue,
> {
    match v {
        Some(x) => m.insert(k, x),
        None => m,
    }
}

/// The JSON value of an optional string.
pub open spec fn opt_str_value(s: Option<String>) -> Option<JsonValue> {
    match s {
        Some(x) => Some(JsonValue::Str(x)),
        None => None,
    }
}

/// The JSON value of an optional unsigned integer.
pub open spec fn opt_u64_value(n: Option<u64>) -> Option<JsonValue> {
    match n {
        Some(x) => Some(u64_value(x)),
        None => None,
    }
}

/// The JSON strings for a list of texts.
pub open spec fn strings_value(texts: Seq<String>) -> Seq<JsonValue> {
    texts.map_values(|s: String| JsonValue::Str(s))
}

/// Whether `v` is the list of texts `texts`, written as an array of strings.
pub open spec fn is_string_array(v: JsonValue, texts: Seq<String>) -> bool {
    v matches JsonValue::Array(a) && a@ == strings_value(texts)
}

/// The texts among a list of JSON values, in order; values that are not strings are skipped.
pub open spec fn strings_of(vals: Seq<JsonValue>) -> Seq<String>
    decreases vals.len(),
{
    if vals.len() == 0 {
        Seq::empty()
    } else {
        let rest = strings_of(vals.drop_last());
        match vals.last() {
            JsonValue::Str(s) => rest.push(s),
            _ => rest,
        }
    }
}

/// Reading back the strings written for a list of texts gives the list.
pub proof fn lemma_strings_round_trip(texts: Seq<String>)
    ensures
        strings_of(strings_value(texts)) == texts,
    decreases texts.len(),
{
    if texts.len() == 0 {
        assert(texts =~= Seq::<String>::empty());
    } else {
        lemma_strings_round_trip(texts.drop_last());
        assert(strings_value(texts).drop_last() =~= strings_value(texts.drop_last()));
        assert(texts.drop_last().push(texts.last()) =~= texts);
    }
}

/// The JSON strings for a list of texts.
pub fn strings_to_values(texts: &Vec<String>) -> (r: Vec<JsonValue>)
    ensures
        r@ == strings_value(texts@),
{
    let mut out: Vec<JsonValue> = Vec::new();
    let mut i: usize = 0;
    while i < texts.len()
        invariant
            i <= texts@.len(),
            out@ == strings_value(texts@.subrange(0, i as int)),
        decreases texts@.len() - i,
    {
        out.push(JsonValue::Str(texts[i].clone()));
        proof {
            assert(texts@.subrange(0, i + 1) =~= texts@.subrange(0, i as int).push(texts@[i as int]));
            assert(strings_value(texts@.subrange(0, i + 1)) =~= out@);
        }
        i = i + 1;
    }
    assert(texts@.subrange(0, texts@.len() as int) =~= texts@);
    out
}

/// The texts among a list of JSON values, in order.
pub fn values_to_strings(vals: &Vec<JsonValue>) -> (r: Vec<String>)
    ensures
        r@ == strings_of(vals@),
{
    let mut out: Vec<String> = Vec::new();
    let mut i: usize = 0;
    while i < vals.len()
        invariant
            i <= vals@.len(),
            out@ == strings_of(vals@.subrange(0, i as int)),
        decreases vals@.len() - i,
    {
        proof {
            assert(vals@.subrange(0, i + 1).drop_last() =~= vals@.subrange(0, i as int));
        }
        match &vals[i] {
            JsonValue::Str(s) => {
                out.push(s.clone());
            },
            _ => {},
        }
        i = i + 1;
    }
    assert(vals@.subrange(0, vals@.len() as int) =~= vals@);
    out
}

/// Whether two texts are equal.
pub fn str_eq(a: &str, b: &str) -> (r: bool)
    ensures
        r == (a@ == b@),
{
    a.to_owned() == b.to_owned()
}

// ----------------------------------------------------------------------------
// JSON text, through serde_json
// ----------------------------------------------------------------------------

#[verifier::external_type_specification]
#[verifier::external_body]
pub struct ExSerdeJsonError(serde_json::Error);

#[verifier::external_type_specification]
#[verifier::external_body]
pub struct ExSerdeJsonValue(serde_json::Value);

#[verifier::external_type_specification]
#[verifier::external_body]
#[verifier::reject_recursive_types(K)]
#[verifier::reject_recursive_types(V)]
pub struct ExSerdeJsonMap<K, V>(serde_json::Map<K, V>);

/// The compact JSON text that serde_json writes for an object with these entries.
pub uninterp spec fn json_object_text(m: Map<Seq<char>, JsonValue>) -> Seq<u8>;

/// The object that serde_json reads from these bytes, or `None` where it rejects them.
pub uninterp spec fn json_object_parse(bytes: Seq<u8>) -> Option<Map<Seq<char>, JsonValue>>;

/// Values that JSON text carries back unchanged, up to the identity of the strings.
pub open spec fn simple_value(v: JsonValue) -> bool {
    match v {
        JsonValue::Null => true,
        JsonValue::Bool(_) => true,
        JsonValue::Number(JsonNumber::PosInt(_)) => true,
        JsonValue::Number(JsonNumber::NegInt(n)) => n < 0,
        JsonValue::Str(_) => true,
        _ => false,
    }
}

/// Two simple values that JSON text does not tell apart.
pub open spec fn same_simple_value(a: JsonValue, b: JsonValue) -> bool {
    match (a, b) {
        (JsonValue::Null, JsonValue::Null) => true,
        (JsonValue::Bool(x), JsonValue::Bool(y)) => x == y,
        (JsonValue::Number(JsonNumber::PosInt(x)), JsonValue::Number(JsonNumber::PosInt(y))) => x == y,
        (JsonValue::Number(JsonNumber::NegInt(x)), JsonValue::Number(JsonNumber::NegInt(y))) => x == y,
        (JsonValue::Str(x), JsonValue::Str(y)) => x@ == y@,
        _ => false,
    }
}

/// Every value of the object is simple.
pub open spec fn simple_object(m: Map<Seq<char>, JsonValue>) -> bool {
    forall|k: Seq<char>| #[trigger] m.contains_key(k) ==> simple_value(m[k])
}

/// Two objects with the same keys whose values JSON text does not tell apart.
pub open spec fn same_simple_object(a: Map<Seq<char>, JsonValue>, b: Map<Seq<char>, JsonValue>) -> bool {
    &&& forall|k: Seq<char>| #[trigger] a.contains_key(k) <==> b.contains_key(k)
    &&& forall|k: Seq<char>| #[trigger] a.contains_key(k) ==> same_simple_value(a[k], b[k])
}

/// Converts a value into serde_json's representation, one variant for one variant; the text
/// of a fractional number is read as a JSON number, and text that is not one becomes null.
#[verifier::external_body]
fn value_into_serde(v: &JsonValue) -> Value {
    match v {
        JsonValue::Null => Value::Null,
        JsonValue::Bool(b) => Value::Bool(*b),
        JsonValue::Number(JsonNumber::PosInt(n)) => Value::from(*n),
        JsonValue::Number(JsonNumber::NegInt(n)) => Value::from(*n),
        JsonValue::Number(JsonNumber::Float(t)) => serde_json::from_str(t).map_or(Value::Null, Value::Number),
        JsonValue::Str(s) => Value::String(s.clone()),
        JsonValue::Array(a) => Value::Array(a.iter().map(value_into_serde).collect()),
        JsonValue::Object(m) => object_into_serde(m),
    }
}

/// Converts an object into serde_json's representation, entry by entry.
#[verifier::external_body]
fn object_into_serde(m: &JsonMap) -> Value {
    Value::Object(m.entries.iter().map(|(k, v)| (k.clone(), value_into_serde(v))).collect())
}

/// Converts serde_json's representation of a value into a `JsonValue`, one variant for one
/// variant; a number keeps its integer value, or else its decimal text.
#[verifier::external_body]
fn value_from_serde(v: Value) -> JsonValue {
    match v {
        Value::Null => JsonValue::Null,
        Value::Bool(b) => JsonValue::Bool(b),
        Value::Number(n) => match (n.as_u64(), n.as_i64()) {
            (Some(u), _) => JsonValue::Number(JsonNumber::PosInt(u)),
            (None, Some(i)) => JsonValue::Number(JsonNumber::NegInt(i)),
            (None, None) => JsonValue::Number(JsonNumber::Float(n.to_string())),
        },
        Value::String(s) => JsonValue::Str(s),
        Value::Array(a) => JsonValue::Array(a.into_iter().map(value_from_serde).collect()),
        Value::Object(m) => JsonValue::Object(object_from_serde(m)),
    }
}

/// Converts serde_json's object into a `JsonMap`, entry by entry; serde_json's map yields
/// its entries in increasing key order, the order a `JsonMap` keeps.
#[verifier::external_body]
fn object_from_serde(m: serde_json::Map<String, serde_json::Value>) -> JsonMap {
    JsonMap { entries: m.into_iter().map(|(k, v)| (k, value_from_serde(v))).collect() }
}

/// UTF-8 text that opens with `{` and closes with `}`, as the compact JSON text of an object
/// does.
pub open spec fn braced_utf8(t: Seq<u8>) -> bool {
    &&& valid_utf8(t)
    &&& decode_utf8(t).len() > 0
    &&& decode_utf8(t)[0] == '{'
    &&& decode_utf8(t).last() == '}'
}

/// Writes an object as compact JSON text with `serde_json::to_vec`.
///
/// Trusted: the bytes are the text serde_json writes for the object (named
/// `json_object_text`); that text is UTF-8 that opens with `{` and closes with `}` and has no
/// newline byte (compact output escapes control characters inside strings); serde_json
/// reads it back as an object exactly when its arrays and objects, the object
/// itself included, nest at most `json_read_nesting()` deep (the reader's recursion limit;
/// writing has none); and then, where no value holds a fractional number or a non-negative
/// number held as a negative-range integer, it reads back the same JSON. What a fractional
/// number reads back as is left unsaid.
#[verifier::external_body]
pub fn object_to_text(m: &JsonMap) -> (r: Vec<u8>)
    ensures
        r@ == json_object_text(m@),
        r@.len() > 0,
        !r@.contains(10u8),
        braced_utf8(r@),
        json_object_parse(r@) is Some <==> object_nests_within(m@, json_read_nesting()),
        object_nests_within(m@, json_read_nesting()) && text_keeps_object(m@) ==> same_object(
            json_object_parse(r@).unwrap(),
            m@,
        ),
{
    serde_json::to_vec(&object_into_serde(m)).unwrap_or_default()
}

/// Reads an object from JSON text with `serde_json::from_slice`.
///
/// Trusted: the result is the object named `json_object_parse` of the bytes, and an error
/// exactly where that is `None`; its numbers are valid, since serde_json holds an integer
/// that fits as unsigned or, when negative, as signed, and writes any other number as JSON
/// number text (itoa for integers, zmij's decimal form for finite floats).
#[verifier::external_body]
pub fn object_from_text(bytes: &[u8]) -> (r: Result<JsonMap, serde_json::Error>)
    ensures
        match r {
            Ok(m) => json_object_parse(bytes@) == Some(m@) && valid_object(m@),
            Err(_) => json_object_parse(bytes@) is None,
        },
{
    match serde_json::from_slice::<serde_json::Map<String, serde_json::Value>>(bytes) {
        Ok(m) => Ok(object_from_serde(m)),
        Err(e) => Err(e),
    }
}

/// Objects of nulls, booleans, integers and strings nest only one deep and are carried back
/// by JSON text.
pub proof fn lemma_simple_object_reads_back(m: Map<Seq<char>, JsonValue>)
    requires
        simple_object(m),
    ensures
        object_nests_within(m, json_read_nesting()),
        text_keeps_object(m),
{
    assert forall|k: Seq<char>| #[trigger] m.contains_key(k) implies value_nests_within(m[k], (json_read_nesting() - 1) as nat)
        && text_keeps_value(m[k]) by {
        assert(simple_value(m[k]));
    }
}

/// An object read back as the same JSON as a simple object holds the same simple values.
pub proof fn lemma_same_simple_object(a: Map<Seq<char>, JsonValue>, b: Map<Seq<char>, JsonValue>)
    requires
        simple_object(b),
        same_object(a, b),
    ensures
        same_simple_object(a, b),
{
    assert forall|k: Seq<char>| #[trigger] a.contains_key(k) implies same_simple_value(a[k], b[k]) by {
        assert(b.contains_key(k));
        assert(simple_value(b[k]));
        assert(same_value(a[k], b[k]));
    }
}

} // verus!
