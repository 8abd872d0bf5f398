//! The crate's only window onto serde_json: parsing text into an opaque
//! `serde_json::Value`, and reading such a value apart into plain data the
//! verified code can work on. What a value holds is named by the
//! uninterpreted `val_of`, and what parsing a text yields by `parsed_json`;
//! every trusted reader here is specified over those names, and everything
//! that interprets what came back is verified code elsewhere.

use vstd::prelude::*;

verus! {

#[verifier::external_type_specification]
#[verifier::external_body]
pub struct ExValue(serde_json::Value);

/// The mathematical shape of a JSON value: what a `serde_json::Value`
/// holds, with numbers carried as serde_json renders them and object
/// members in the order the map iterates them (sorted by key).
#[verifier::ext_equal]
pub ghost enum JsonV {
    Null,
    Bool(bool),
    Num(Seq<char>),
    Str(Seq<char>),
    Arr(Seq<JsonV>),
    Obj(Seq<(Seq<char>, JsonV)>),
}

/// What a `serde_json::Value` holds.
pub uninterp spec fn val_of(v: serde_json::Value) -> JsonV;

/// What `serde_json::from_str::<Value>` yields on a text: the parsed value,
/// or `None` when the text is not JSON.
pub uninterp spec fn parsed_json(s: Seq<char>) -> Option<JsonV>;

/// The text serde_json's serializer writes for a value.
pub uninterp spec fn json_text_of(j: JsonV) -> Seq<char>;

/// What a JSON value is, with scalar content moved out as plain data.
#[derive(Debug)]
pub enum JsonShape {
    Null,
    Bool(bool),
    /// A number, as serde_json renders it.
    Num(String),
    Str(String),
    Array,
    Object,
}

/// Relies on `serde_json::from_str::<Value>`: parsing is a function of the
/// text alone; it succeeds exactly when the text is JSON, and a parse error
/// is reduced to its message.
#[verifier::external_body]
pub fn parse_json(s: &str) -> (r: Result<serde_json::Value, String>)
    ensures
        r matches Ok(v) ==> parsed_json(s@) == Some(val_of(v)),
        r is Err ==> parsed_json(s@) is None,
{
    match serde_json::from_str::<serde_json::Value>(s) {
        Ok(v) => Ok(v),
        Err(e) => Err(e.to_string()),
    }
}

/// Relies on the `serde_json::Value` enum: tells its variants apart, moving
/// scalar content out; a number is rendered by serde_json's own notation.
#[verifier::external_body]
pub fn json_shape(v: &serde_json::Value) -> (r: JsonShape)
    ensures
        match val_of(*v) {
            JsonV::Null => r is Null,
            JsonV::Bool(b) => r matches JsonShape::Bool(rb) && rb == b,
            JsonV::Num(t) => r matches JsonShape::Num(rt) && rt@ == t,
            JsonV::Str(t) => r matches JsonShape::Str(rt) && rt@ == t,
            JsonV::Arr(_) => r is Array,
            JsonV::Obj(_) => r is Object,
        },
{
    match v {
        serde_json::Value::Null => JsonShape::Null,
        serde_json::Value::Bool(b) => JsonShape::Bool(*b),
        serde_json::Value::Number(n) => JsonShape::Num(n.to_string()),
        serde_json::Value::String(s) => JsonShape::Str(s.clone()),
        serde_json::Value::Array(_) => JsonShape::Array,
        serde_json::Value::Object(_) => JsonShape::Object,
    }
}

/// Relies on `serde_json::Map`: an object's entries in the map's order,
/// which is sorted by key, each key unique; `None` exactly for a non-object.
#[verifier::external_body]
pub fn json_object_entries(v: &serde_json::Value) -> (r: Option<
    Vec<(String, serde_json::Value)>,
>)
    ensures
        r is Some <==> val_of(*v) is Obj,
        r matches Some(es) ==> ({
            let fields = val_of(*v)->Obj_0;
            &&& es@.len() == fields.len()
            &&& forall|i: int|
                0 <= i < fields.len() ==> (#[trigger] es@[i]).0@ == fields[i].0 && val_of(
                    es@[i].1,
                ) == fields[i].1
            &&& forall|i: int, j: int| 0 <= i < j < es@.len() ==> es@[i].0@ != es@[j].0@
        }),
{
    match v {
        serde_json::Value::Object(m) => Some(
            m.iter().map(|(k, x)| (k.clone(), x.clone())).collect(),
        ),
        _ => None,
    }
}

/// Relies on the `serde_json::Value` enum: an array's items, in order;
/// `None` exactly for a non-array.
#[verifier::external_body]
pub fn json_array_items(v: &serde_json::Value) -> (r: Option<Vec<serde_json::Value>>)
    ensures
        r is Some <==> val_of(*v) is Arr,
        r matches Some(items) ==> ({
            let elems = val_of(*v)->Arr_0;
            &&& items@.len() == elems.len()
            &&& forall|i: int| 0 <= i < elems.len() ==> val_of(#[trigger] items@[i]) == elems[i]
        }),
{
    match v {
        serde_json::Value::Array(items) => Some(items.clone()),
        _ => None,
    }
}

/// Relies on serde_json's serializer: the JSON text of a value, a function
/// of what the value holds.
#[verifier::external_body]
pub fn json_text(v: &serde_json::Value) -> (r: String)
    ensures
        r@ == json_text_of(val_of(*v)),
{
    v.to_string()
}

/// The first value bound to `key` in a field list.
pub open spec fn spec_field_get(fields: Seq<(Seq<char>, JsonV)>, key: Seq<char>) -> Option<JsonV>
    decreases fields.len(),
{
    if fields.len() == 0 {
        None
    } else if fields[0].0 == key {
        Some(fields[0].1)
    } else {
        spec_field_get(fields.drop_first(), key)
    }
}

/// The value bound to `key` in an entry list, by reference.
pub fn entry_get<'a>(entries: &'a Vec<(String, serde_json::Value)>, key: &str) -> (r: Option<
    &'a serde_json::Value,
>)
    ensures
        match r {
            Some(v) => exists|i: int|
                0 <= i < entries@.len() && (#[trigger] entries@[i]).0@ == key@ && *v
                    == entries@[i].1,
            None => forall|i: int| 0 <= i < entries@.len() ==> (#[trigger] entries@[i]).0@ != key@,
        },
{
    let mut i: usize = 0;
    while i < entries.len()
        invariant
            i <= entries@.len(),
            forall|k: int| 0 <= k < i ==> (#[trigger] entries@[k]).0@ != key@,
        decreases entries@.len() - i,
    {
        if crate::strkit::str_eq(entries[i].0.as_str(), key) {
            return Some(&entries[i].1);
        }
        i = i + 1;
    }
    None
}

/// The entry list of an object value carries exactly its fields: looking a
/// key up among the entries is looking it up among the fields.
pub proof fn lemma_entry_is_field(
    entries: Seq<(String, serde_json::Value)>,
    fields: Seq<(Seq<char>, JsonV)>,
    key: Seq<char>,
)
    requires
        entries.len() == fields.len(),
        forall|i: int|
            0 <= i < fields.len() ==> (#[trigger] entries[i]).0@ == fields[i].0 && val_of(
                entries[i].1,
            ) == fields[i].1,
    ensures
        (exists|i: int| 0 <= i < entries.len() && (#[trigger] entries[i]).0@ == key) <==> (
        spec_field_get(fields, key) is Some),
        forall|i: int|
            (0 <= i < entries.len() && (#[trigger] entries[i]).0@ == key && (forall|k: int|
                0 <= k < i ==> (#[trigger] entries[k]).0@ != key)) ==> spec_field_get(fields, key)
                == Some(val_of(entries[i].1)),
    decreases entries.len(),
{
    if entries.len() > 0 {
        assert(forall|i: int|
            0 <= i < entries.drop_first().len() ==> (#[trigger] entries.drop_first()[i])
                == entries[i + 1]);
        assert(forall|i: int|
            0 <= i < fields.drop_first().len() ==> (#[trigger] fields.drop_first()[i]) == fields[i
                + 1]);
        lemma_entry_is_field(entries.drop_first(), fields.drop_first(), key);
        if entries[0].0@ == key {
            assert(spec_field_get(fields, key) == Some(fields[0].1));
        } else {
            assert(fields[0].0 != key);
            if exists|i: int| 0 <= i < entries.len() && (#[trigger] entries[i]).0@ == key {
                let w = choose|i: int| 0 <= i < entries.len() && (#[trigger] entries[i]).0@ == key;
                assert(w > 0);
                assert(entries.drop_first()[w - 1].0@ == key);
                assert(spec_field_get(fields.drop_first(), key) is Some);
            }
            if spec_field_get(fields, key) is Some {
                assert(spec_field_get(fields.drop_first(), key) is Some);
                let w = choose|i: int|
                    0 <= i < entries.drop_first().len() && (#[trigger] entries.drop_first()[i]).0@
                        == key;
                assert(entries[w + 1].0@ == key);
            }
            assert forall|i: int|
                (0 <= i < entries.len() && (#[trigger] entries[i]).0@ == key && (forall|k: int|
                    0 <= k < i ==> (#[trigger] entries[k]).0@ != key)) implies spec_field_get(
                fields,
                key,
            ) == Some(val_of(entries[i].1)) by {
                assert(i > 0);
                assert(entries.drop_first()[i - 1].0@ == key);
                assert(forall|k: int|
                    0 <= k < i - 1 ==> (#[trigger] entries.drop_first()[k]).0@ != key);
            }
        }
    }
}

} // verus!
