//! JSON documents: their values, reading them from text and writing them as text.
use vstd::prelude::*;

use crate::text::{all_digits, chars_eq, chars_of, decimal_value, parse_u64};

verus! {

broadcast use vstd::std_specs::vec::group_vec_axioms;

/// A JSON value.
#[derive(Debug)]
pub enum JsonValue {
    Null,
    Bool(bool),
    /// A number, as the text that writes it.
    Number(String),
    Text(String),
    Array(Vec<JsonValue>),
    /// An object's members, in order.
    Object(Vec<(String, JsonValue)>),
}

/// The contents of a JSON value.
pub enum JsonData {
    Null,
    Bool(bool),
    Number(Seq<char>),
    Text(Seq<char>),
    Array(Seq<JsonData>),
    Object(Seq<(Seq<char>, JsonData)>),
}

/// The contents of a JSON value.
pub open spec fn json_data(v: JsonValue) -> JsonData
    decreases v,
{
    match v {
        JsonValue::Null => JsonData::Null,
        JsonValue::Bool(b) => JsonData::Bool(b),
        JsonValue::Number(n) => JsonData::Number(n@),
        JsonValue::Text(s) => JsonData::Text(s@),
        JsonValue::Array(items) => JsonData::Array(
            Seq::new(
                items@.len(),
                |i: int|
                    if 0 <= i < items@.len() {
                        json_data(items@[i])
                    } else {
                        JsonData::Null
                    },
            ),
        ),
        JsonValue::Object(members) => JsonData::Object(
            Seq::new(
                members@.len(),
                |i: int|
                    if 0 <= i < members@.len() {
                        (members@[i].0@, json_data(members@[i].1))
                    } else {
                        (Seq::empty(), JsonData::Null)
                    },
            ),
        ),
    }
}

impl View for JsonValue {
    type V = JsonData;

    open spec fn view(&self) -> JsonData {
        json_data(*self)
    }
}

/// The contents of an object's members.
pub open spec fn members_view(ms: Seq<(String, JsonValue)>) -> Seq<(Seq<char>, JsonData)> {
    Seq::new(ms.len(), |i: int| (ms[i].0@, ms[i].1@))
}

/// The contents of an object are the contents of its members.
pub proof fn lemma_object_view(ms: Vec<(String, JsonValue)>)
    ensures
        JsonValue::Object(ms)@ == JsonData::Object(members_view(ms@)),
{
    let v = JsonValue::Object(ms);
    assert(v@ is Object);
    let d = v@->Object_0;
    assert(d.len() == ms.len());
    assert(d.len() == ms@.len());
    assert forall|i: int| 0 <= i < d.len() implies d[i] == (ms@[i].0@, ms@[i].1@) by {}
    assert(d =~= members_view(ms@));
}

/// The contents of a sequence of values.
pub open spec fn values_view(vs: Seq<JsonValue>) -> Seq<JsonData> {
    Seq::new(vs.len(), |i: int| vs[i]@)
}

/// The contents of an array are the contents of its items.
pub proof fn lemma_array_view(items: Vec<JsonValue>)
    ensures
        JsonValue::Array(items)@ == JsonData::Array(values_view(items@)),
{
    let v = JsonValue::Array(items);
    assert(v@ is Array);
    let d = v@->Array_0;
    assert(d.len() == items@.len());
    assert forall|i: int| 0 <= i < d.len() implies d[i] == items@[i]@ by {}
    assert(d =~= values_view(items@));
}

/// The contents of an optional string.
pub open spec fn opt_string(v: Option<String>) -> Option<Seq<char>> {
    match v {
        Some(s) => Some(s@),
        None => None,
    }
}

// ---------------------------------------------------------------------------
// Reading values
// ---------------------------------------------------------------------------

/// The value of the first member, at or after position `i`, named `key`.
pub open spec fn member_from(ms: Seq<(Seq<char>, JsonData)>, key: Seq<char>, i: int) -> Option<JsonData>
    decreases ms.len() - i,
{
    if i < 0 || i >= ms.len() {
        None
    } else if ms[i].0 == key {
        Some(ms[i].1)
    } else {
        member_from(ms, key, i + 1)
    }
}

/// The value of the member `key` of an object; nothing for another value.
pub open spec fn member(v: JsonData, key: Seq<char>) -> Option<JsonData> {
    match v {
        JsonData::Object(ms) => member_from(ms, key, 0),
        _ => None,
    }
}

/// The text of a value that is a string.
pub open spec fn text_of(v: Option<JsonData>) -> Option<Seq<char>> {
    match v {
        Some(JsonData::Text(s)) => Some(s),
        _ => None,
    }
}

/// The value of a value that is a boolean.
pub open spec fn bool_of(v: Option<JsonData>) -> Option<bool> {
    match v {
        Some(JsonData::Bool(b)) => Some(b),
        _ => None,
    }
}

/// The value of a number written with decimal digits alone that fits in a `u64`.
pub open spec fn number_u64(n: Seq<char>) -> Option<u64> {
    if n.len() > 0 && all_digits(n) && decimal_value(n) <= u64::MAX {
        Some(decimal_value(n) as u64)
    } else {
        None
    }
}

/// The member `key` of the object held by the member `section` of `v`.
pub open spec fn section_member(v: JsonData, section: Seq<char>, key: Seq<char>) -> Option<JsonData> {
    match member(v, section) {
        Some(s) => member(s, key),
        None => None,
    }
}

impl JsonValue {
    /// The value of the member `key`, when this is an object that has one.
    pub fn get(&self, key: &str) -> (r: Option<&JsonValue>)
        ensures
            match r {
                Some(v) => member(self@, key@) == Some(v@),
                None => member(self@, key@) is None,
            },
    {
        match self {
            JsonValue::Object(ms) => {
                let ghost d = members_view(ms@);
                proof {
                    lemma_object_view(*ms);
                }
                let k = chars_of(key);
                let mut i: usize = 0;
                while i < ms.len()
                    invariant
                        i <= ms@.len(),
                        d == members_view(ms@),
                        self@ == JsonData::Object(d),
                        k@ == key@,
                        member_from(d, key@, 0) == member_from(d, key@, i as int),
                    decreases ms.len() - i,
                {
                    let m = &ms[i];
                    if chars_eq(&chars_of(m.0.as_str()), &k) {
                        return Some(&m.1);
                    }
                    i += 1;
                }
                None
            },
            _ => None,
        }
    }

    /// The text of this value, when it is a string.
    pub fn as_text(&self) -> (r: Option<String>)
        ensures
            match r {
                Some(s) => self@ == JsonData::Text(s@),
                None => !(self@ is Text),
            },
    {
        match self {
            JsonValue::Text(s) => Some(s.clone()),
            _ => None,
        }
    }

    /// The value of this value, when it is a boolean.
    pub fn as_bool(&self) -> (r: Option<bool>)
        ensures
            r == bool_of(Some(self@)),
    {
        match self {
            JsonValue::Bool(b) => Some(*b),
            _ => None,
        }
    }

    /// The value of this value, when it is a number written with decimal digits alone
    /// that fits in a `u64`.
    pub fn as_u64(&self) -> (r: Option<u64>)
        ensures
            match self@ {
                JsonData::Number(n) => r == number_u64(n),
                _ => r is None,
            },
    {
        match self {
            JsonValue::Number(n) => {
                let v = chars_of(n.as_str());
                if v.len() > 0 && v[0] != '+' {
                    parse_u64(&v)
                } else {
                    None
                }
            },
            _ => None,
        }
    }
}

/// The text of an optional value, when it is a string.
pub fn text_value(v: Option<&JsonValue>) -> (r: Option<String>)
    ensures
        match v {
            Some(x) => match r {
                Some(s) => text_of(Some(x@)) == Some(s@),
                None => text_of(Some(x@)) is None,
            },
            None => r is None,
        },
{
    match v {
        Some(x) => x.as_text(),
        None => None,
    }
}

/// The text of the member `key`, when it is a string.
pub fn text_member(v: &JsonValue, key: &str) -> (r: Option<String>)
    ensures
        opt_string(r) == text_of(member(v@, key@)),
{
    let r = text_value(v.get(key));
    r
}

/// The member `key` of the object held by the member `section`.
pub fn section_value<'a>(v: &'a JsonValue, section: &str, key: &str) -> (r: Option<&'a JsonValue>)
    ensures
        match r {
            Some(x) => section_member(v@, section@, key@) == Some(x@),
            None => section_member(v@, section@, key@) is None,
        },
{
    match v.get(section) {
        Some(s) => s.get(key),
        None => None,
    }
}

// ---------------------------------------------------------------------------
// Changing objects
// ---------------------------------------------------------------------------

/// Whether a member is not named `key`.
pub open spec fn named_otherwise(key: Seq<char>) -> spec_fn((Seq<char>, JsonData)) -> bool {
    |m: (Seq<char>, JsonData)| m.0 != key
}

/// The members without those named `key`.
pub open spec fn without_member(ms: Seq<(Seq<char>, JsonData)>, key: Seq<char>) -> Seq<
    (Seq<char>, JsonData),
> {
    ms.filter(named_otherwise(key))
}

/// The members with `key` set to `value`: every member of that name is dropped, and the
/// new one comes last.
pub open spec fn with_member(ms: Seq<(Seq<char>, JsonData)>, key: Seq<char>, value: JsonData) -> Seq<
    (Seq<char>, JsonData),
> {
    without_member(ms, key).push((key, value))
}

/// The members with each of `kvs` set in turn.
pub open spec fn with_members(ms: Seq<(Seq<char>, JsonData)>, kvs: Seq<(Seq<char>, JsonData)>) -> Seq<
    (Seq<char>, JsonData),
>
    decreases kvs.len(),
{
    if kvs.len() == 0 {
        ms
    } else {
        let before = with_members(ms, kvs.drop_last());
        with_member(before, kvs.last().0, kvs.last().1)
    }
}

/// Splits the members into those not named `key`, in order, and the value of the first
/// one named `key`.
pub fn take_member(ms: Vec<(String, JsonValue)>, key: &str) -> (r: (Vec<(String, JsonValue)>, Option<JsonValue>))
    ensures
        members_view(r.0@) == without_member(members_view(ms@), key@),
        match r.1 {
            Some(v) => member_from(members_view(ms@), key@, 0) == Some(v@),
            None => member_from(members_view(ms@), key@, 0) is None,
        },
{
    let ghost orig = members_view(ms@);
    let ghost pred = named_otherwise(key@);
    let k = chars_of(key);
    let mut ms = ms;
    let mut rest: Vec<(String, JsonValue)> = Vec::new();
    let mut found: Option<JsonValue> = None;
    let ghost mut i: int = 0;
    while ms.len() > 0
        invariant
            0 <= i <= orig.len(),
            members_view(ms@) == orig.skip(i),
            k@ == key@,
            pred == named_otherwise(key@),
            members_view(rest@) == orig.take(i).filter(pred),
            match found {
                Some(v) => member_from(orig, key@, 0) == Some(v@),
                None => member_from(orig, key@, 0) == member_from(orig, key@, i),
            },
        decreases ms.len(),
    {
        assert(members_view(ms@).len() == ms@.len());
        assert(i < orig.len());
        let ghost t = orig.take(i + 1);
        assert(orig.skip(i)[0] == orig[i]);
        assert(t.drop_last() =~= orig.take(i));
        assert(t.last() == orig[i]);
        proof {
            reveal(Seq::filter);
        }
        let ghost before = members_view(rest@);
        let ghost msv = members_view(ms@);
        let m = ms.remove(0);
        assert(members_view(ms@) =~= msv.drop_first());
        assert(orig.skip(i).drop_first() =~= orig.skip(i + 1));
        if chars_eq(&chars_of(m.0.as_str()), &k) {
            if found.is_none() {
                found = Some(m.1);
            }
        } else {
            rest.push(m);
            assert(members_view(rest@) =~= before.push(orig[i]));
        }
        proof {
            i = i + 1;
        }
    }
    assert(orig.take(i) =~= orig);
    (rest, found)
}

/// The members with `key` set to `value`.
pub fn put_member(ms: Vec<(String, JsonValue)>, key: String, value: JsonValue) -> (r: Vec<(String, JsonValue)>)
    ensures
        members_view(r@) == with_member(members_view(ms@), key@, value@),
{
    let (mut rest, _) = take_member(ms, key.as_str());
    let ghost before = members_view(rest@);
    rest.push((key, value));
    assert(members_view(rest@) =~= before.push((key@, value@)));
    rest
}

/// The members with each of `values` set in turn.
pub fn put_members(ms: Vec<(String, JsonValue)>, values: Vec<(String, JsonValue)>) -> (r: Vec<
    (String, JsonValue),
>)
    ensures
        members_view(r@) == with_members(members_view(ms@), members_view(values@)),
{
    let ghost base = members_view(ms@);
    let ghost kvs = members_view(values@);
    let mut out = ms;
    let mut values = values;
    let ghost mut i: int = 0;
    while values.len() > 0
        invariant
            0 <= i <= kvs.len(),
            members_view(values@) == kvs.skip(i),
            members_view(out@) == with_members(base, kvs.take(i)),
        decreases values.len(),
    {
        let ghost vv = members_view(values@);
        assert(vv.len() == values@.len());
        assert(i < kvs.len());
        assert(kvs.skip(i)[0] == kvs[i]);
        let kv = values.remove(0);
        assert(members_view(values@) =~= vv.drop_first());
        assert(kvs.skip(i).drop_first() =~= kvs.skip(i + 1));
        assert(kvs.take(i + 1).drop_last() =~= kvs.take(i));
        out = put_member(out, kv.0, kv.1);
        proof {
            i = i + 1;
        }
    }
    assert(kvs.take(i) =~= kvs);
    out
}

/// The lookup finds the first member of the name at or after `i0`.
pub proof fn lemma_member_from_first(ms: Seq<(Seq<char>, JsonData)>, key: Seq<char>, i0: int, i: int)
    requires
        0 <= i0 <= i < ms.len(),
        ms[i].0 == key,
        forall|j: int| i0 <= j < i ==> (#[trigger] ms[j]).0 != key,
    ensures
        member_from(ms, key, i0) == Some(ms[i].1),
    decreases i - i0,
{
    if i0 < i {
        lemma_member_from_first(ms, key, i0 + 1, i);
    }
}

/// After `key` is set to `value`, looking `key` up gives `value`; and a member of
/// another name that was set just before is still found.
pub proof fn lemma_member_after_set(
    ms: Seq<(Seq<char>, JsonData)>,
    k1: Seq<char>,
    v1: JsonData,
    k2: Seq<char>,
    v2: JsonData,
)
    requires
        k1 != k2,
    ensures
        member_from(with_member(ms, k2, v2), k2, 0) == Some(v2),
        member_from(with_member(with_member(ms, k1, v1), k2, v2), k1, 0) == Some(v1),
        member_from(with_member(with_member(ms, k1, v1), k2, v2), k2, 0) == Some(v2),
{
    lemma_set_then_found(ms, k2, v2);
    let p1 = named_otherwise(k1);
    let p2 = named_otherwise(k2);
    let f0 = ms.filter(p1);
    let x = f0.push((k1, v1));
    lemma_set_then_found(x, k2, v2);
    reveal(Seq::filter);
    assert(x.drop_last() =~= f0);
    assert(x.filter(p2) == f0.filter(p2).push((k1, v1)));
    let y = x.filter(p2).push((k2, v2));
    let n: int = f0.filter(p2).len() as int;
    assert forall|j: int| 0 <= j < n implies (#[trigger] y[j]).0 != k1 by {
        assert(y[j] == f0.filter(p2)[j]);
        assert(f0.filter(p2).contains(y[j]));
        f0.lemma_filter_contains_rev(p2, y[j]);
        let t = choose|t: int| 0 <= t < f0.len() && f0[t] == y[j];
        ms.lemma_filter_pred(p1, t);
    }
    assert(y[n] == (k1, v1));
    lemma_member_from_first(y, k1, 0, n);
}

/// After `key` is set to `value`, looking `key` up gives `value`.
pub proof fn lemma_set_then_found(ms: Seq<(Seq<char>, JsonData)>, key: Seq<char>, value: JsonData)
    ensures
        member_from(with_member(ms, key, value), key, 0) == Some(value),
{
    let p = named_otherwise(key);
    let f = ms.filter(p);
    let y = f.push((key, value));
    assert forall|j: int| 0 <= j < f.len() implies (#[trigger] y[j]).0 != key by {
        assert(y[j] == f[j]);
        ms.lemma_filter_pred(p, j);
    }
    assert(y[f.len() as int] == (key, value));
    assert(with_member(ms, key, value) == y);
    lemma_member_from_first(y, key, 0, f.len() as int);
}

// ---------------------------------------------------------------------------
// Text
// ---------------------------------------------------------------------------

#[verifier::external_type_specification]
#[verifier::external_body]
pub struct ExSerdeJsonValue(serde_json::Value);

/// The value that `serde_json::from_str` reads from the text, or the message of its
/// error.
pub uninterp spec fn json_parse(text: Seq<char>) -> Result<JsonData, Seq<char>>;

/// The text that `serde_json::to_string_pretty` writes for a value.
pub uninterp spec fn json_pretty(v: JsonData) -> Seq<char>;

/// A parsed `serde_json::Value` as a value of this library, variant for variant: a
/// number by the text that serde_json writes for it, an object's members in the order of
/// its map. Nothing is claimed of it; only the two calls below use it.
#[verifier::external_body]
fn value_from_serde(v: serde_json::Value) -> JsonValue {
    match v {
        serde_json::Value::Null => JsonValue::Null,
        serde_json::Value::Bool(b) => JsonValue::Bool(b),
        serde_json::Value::Number(n) => JsonValue::Number(n.to_string()),
        serde_json::Value::String(s) => JsonValue::Text(s),
        serde_json::Value::Array(a) => JsonValue::Array(a.into_iter().map(value_from_serde).collect()),
        serde_json::Value::Object(m) => JsonValue::Object(
            m.into_iter().map(|(k, x)| (k, value_from_serde(x))).collect(),
        ),
    }
}

/// A value of this library as a `serde_json::Value`, variant for variant: a number from
/// its text (`null` where the text is no JSON number), members in order (a later member
/// of the same name replaces an earlier one). Nothing is claimed of it; only the call
/// below uses it.
#[verifier::external_body]
fn value_to_serde(v: &JsonValue) -> serde_json::Value {
    match v {
        JsonValue::Null => serde_json::Value::Null,
        JsonValue::Bool(b) => serde_json::Value::Bool(*b),
        JsonValue::Number(n) => n.parse().map(serde_json::Value::Number).unwrap_or(serde_json::Value::Null),
        JsonValue::Text(s) => serde_json::Value::String(s.clone()),
        JsonValue::Array(a) => serde_json::Value::Array(a.iter().map(value_to_serde).collect()),
        JsonValue::Object(m) => serde_json::Value::Object(
            m.iter().map(|(k, x)| (k.clone(), value_to_serde(x))).collect(),
        ),
    }
}

/// Reads a JSON value from text with `serde_json::from_str`. The claim: the value read,
/// or the text of the error, depends on the text alone (`json_parse`).
#[verifier::external_body]
pub(crate) fn parse_json(text: &str) -> (r: Result<JsonValue, String>)
    ensures
        match r {
            Ok(v) => json_parse(text@) == Ok::<JsonData, Seq<char>>(v@),
            Err(e) => json_parse(text@) == Err::<JsonData, Seq<char>>(e@),
        },
{
    match serde_json::from_str::<serde_json::Value>(text) {
        Ok(v) => Ok(value_from_serde(v)),
        Err(e) => Err(e.to_string()),
    }
}

/// Writes a JSON value as indented text with `serde_json::to_string_pretty`. The claim:
/// the text depends on the value's contents alone (`json_pretty`). Writing a
/// `serde_json::Value` into memory does not fail (its map keys are strings), so the
/// error case, which the source shows cannot arise, gives empty text.
#[verifier::external_body]
pub(crate) fn to_string_pretty(v: &JsonValue) -> (r: String)
    ensures
        r@ == json_pretty(v@),
{
    serde_json::to_string_pretty(&value_to_serde(v)).unwrap_or_default()
}

} // verus!
