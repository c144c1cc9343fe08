//! A plain model of JSON values.
//!
//! The endpoint answers with JSON; parsing is delegated to `serde_json`, and
//! the parsed tree is carried over into `Json`, a type of plain data the
//! decoding logic can be verified against. Numbers keep only their `u64`
//! reading (`None` when the number has no such reading), which is all the
//! wire format uses.

use vstd::prelude::*;

verus! {

/// A JSON value as plain data.
pub enum Json {
    Null,
    Bool(bool),
    Num(Option<u64>),
    Str(String),
    Arr(Vec<Json>),
    Obj(Vec<(String, Json)>),
}

/// The spec-level shape of a JSON value.
pub enum JsonV {
    Null,
    Bool(bool),
    Num(Option<u64>),
    Str(Seq<char>),
    Arr(Seq<JsonV>),
    Obj(Seq<(Seq<char>, JsonV)>),
}

/// The spec value of a JSON tree.
pub open spec fn jview(j: Json) -> JsonV
    decreases j,
{
    match j {
        Json::Null => JsonV::Null,
        Json::Bool(b) => JsonV::Bool(b),
        Json::Num(n) => JsonV::Num(n),
        Json::Str(s) => JsonV::Str(s@),
        Json::Arr(v) => JsonV::Arr(jview_elems(v@)),
        Json::Obj(v) => JsonV::Obj(jview_fields(v@)),
    }
}

/// Spec values of a sequence of JSON trees.
pub open spec fn jview_elems(s: Seq<Json>) -> Seq<JsonV>
    decreases s,
{
    if s.len() == 0 {
        Seq::empty()
    } else {
        seq![jview(s[0])] + jview_elems(s.drop_first())
    }
}

/// Spec values of an object's field list.
pub open spec fn jview_fields(s: Seq<(String, Json)>) -> Seq<(Seq<char>, JsonV)>
    decreases s,
{
    if s.len() == 0 {
        Seq::empty()
    } else {
        seq![(s[0].0@, jview(s[0].1))] + jview_fields(s.drop_first())
    }
}

/// `jview_elems` maps index-wise.
pub proof fn lemma_jview_elems(s: Seq<Json>)
    ensures
        jview_elems(s).len() == s.len(),
        forall|i: int| 0 <= i < s.len() ==> jview_elems(s)[i] == jview(#[trigger] s[i]),
    decreases s.len(),
{
    if s.len() > 0 {
        lemma_jview_elems(s.drop_first());
        assert forall|i: int| 0 <= i < s.len() implies jview_elems(s)[i] == jview(
            #[trigger] s[i],
        ) by {
            if i > 0 {
                assert(s.drop_first()[i - 1] == s[i]);
            }
        }
    }
}

/// `jview_fields` maps index-wise.
pub proof fn lemma_jview_fields(s: Seq<(String, Json)>)
    ensures
        jview_fields(s).len() == s.len(),
        forall|i: int|
            0 <= i < s.len() ==> jview_fields(s)[i] == ((#[trigger] s[i]).0@, jview(s[i].1)),
    decreases s.len(),
{
    if s.len() > 0 {
        lemma_jview_fields(s.drop_first());
        assert forall|i: int|
            0 <= i < s.len() implies jview_fields(s)[i] == ((#[trigger] s[i]).0@, jview(
            s[i].1,
        )) by {
            if i > 0 {
                assert(s.drop_first()[i - 1] == s[i]);
            }
        }
    }
}

/// First binding of `key` in an object's field list, if any.
pub open spec fn obj_get(fields: Seq<(Seq<char>, JsonV)>, key: Seq<char>) -> Option<JsonV>
    decreases fields.len(),
{
    if fields.len() == 0 {
        None
    } else if fields[0].0 == key {
        Some(fields[0].1)
    } else {
        obj_get(fields.drop_first(), key)
    }
}

/// First binding of `key` among the fields, matching `obj_get` on the view.
pub fn get_field<'a>(fields: &'a Vec<(String, Json)>, key: &String) -> (r: Option<&'a Json>)
    ensures
        match r {
            Some(v) => obj_get(jview_fields(fields@), key@) == Some(jview(*v)),
            None => obj_get(jview_fields(fields@), key@) is None,
        },
{
    proof {
        lemma_jview_fields(fields@);
        assert(jview_fields(fields@).skip(0) =~= jview_fields(fields@));
    }
    let mut i: usize = 0;
    while i < fields.len()
        invariant
            i <= fields@.len(),
            obj_get(jview_fields(fields@), key@) == obj_get(
                jview_fields(fields@).skip(i as int),
                key@,
            ),
        decreases fields@.len() - i,
    {
        let pair: &(String, Json) = &fields[i];
        proof {
            lemma_jview_fields(fields@);
            assert(jview_fields(fields@).skip(i as int)[0] == (pair.0@, jview(pair.1))) by {
                assert(jview_fields(fields@)[i as int] == (fields@[i as int].0@, jview(
                    fields@[i as int].1,
                )));
            }
        }
        if pair.0 == *key {
            return Some(&pair.1);
        }
        i = i + 1;
        proof {
            assert(jview_fields(fields@).skip(i - 1).drop_first() =~= jview_fields(
                fields@,
            ).skip(i as int));
        }
    }
    proof {
        assert(jview_fields(fields@).skip(i as int).len() == 0);
    }
    None
}

#[verifier::external_type_specification]
#[verifier::external_body]
pub struct ExValue(serde_json::Value);

/// What `serde_json::from_slice::<serde_json::Value>` yields on these bytes,
/// carried into the plain model: `None` exactly when the bytes are not valid
/// JSON. Parsing is a function of the bytes alone.
pub uninterp spec fn json_of(bytes: Seq<u8>) -> Option<JsonV>;

/// Relies on `serde_json::Value`: moves each variant of the parsed tree into
/// the plain model, one arm per variant, arrays and objects element by
/// element; numbers keep their `u64` reading via `Number::as_u64`.
#[verifier::external_body]
fn from_value(v: &serde_json::Value) -> Json {
    match v {
        serde_json::Value::Null => Json::Null,
        serde_json::Value::Bool(b) => Json::Bool(*b),
        serde_json::Value::Number(n) => Json::Num(n.as_u64()),
        serde_json::Value::String(s) => Json::Str(s.clone()),
        serde_json::Value::Array(a) => Json::Arr(a.iter().map(from_value).collect()),
        serde_json::Value::Object(m) => Json::Obj(
            m.iter().map(|(k, x)| (k.clone(), from_value(x))).collect(),
        ),
    }
}

/// Relies on `serde_json::from_slice`: parsing is deterministic, so the
/// parsed value in the plain model is a function of the bytes alone, named
/// `json_of`; it is `None` exactly when the bytes are rejected as JSON.
#[verifier::external_body]
pub fn parse_json(bytes: &[u8]) -> (r: Option<Json>)
    ensures
        match r {
            Some(v) => json_of(bytes@) == Some(jview(v)),
            None => json_of(bytes@) is None,
        },
{
    serde_json::from_slice::<serde_json::Value>(bytes).ok().map(|v| from_value(&v))
}

} // verus!
