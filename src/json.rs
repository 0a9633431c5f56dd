//! JSON values as the library reads them, and the schema checks that the
//! jsonschema crate performs on them.
use vstd::prelude::*;

use crate::interface::text_eq;

verus! {

#[verifier::external_type_specification]
#[verifier::external_body]
pub struct ExValue(serde_json::Value);

#[verifier::external_type_specification]
#[verifier::external_body]
pub struct ExNumber(serde_json::Number);

#[verifier::external_type_specification]
#[verifier::external_body]
pub struct ExJSONSchema(jsonschema::JSONSchema);

/// A JSON value. Numbers are carried as serde_json keeps them; the checks
/// never read them. An object lists its members in order, each key once.
#[derive(Debug, PartialEq)]
pub enum Json {
    Null,
    Bool(bool),
    Number(serde_json::Number),
    String(String),
    Array(Vec<Json>),
    Object(Vec<(String, Json)>),
}

/// The position of the first member named `key`.
pub open spec fn entry_index(entries: Seq<(String, Json)>, key: Seq<char>) -> Option<int>
    decreases entries.len(),
{
    if entries.len() == 0 {
        None
    } else {
        match entry_index(entries.drop_last(), key) {
            Some(i) => Some(i),
            None => if entries.last().0@ == key {
                Some(entries.len() - 1)
            } else {
                None
            },
        }
    }
}

/// The member `key` of an object; `None` for a missing key or a value that is
/// not an object.
pub open spec fn member_of(j: Json, key: Seq<char>) -> Option<Json> {
    match j {
        Json::Object(entries) => match entry_index(entries@, key) {
            Some(i) => Some(entries@[i].1),
            None => None,
        },
        _ => None,
    }
}

/// The member at `a`, then `b`, of `j`.
pub open spec fn path_of(j: Json, a: Seq<char>, b: Seq<char>) -> Option<Json> {
    match member_of(j, a) {
        Some(m) => member_of(m, b),
        None => None,
    }
}

pub open spec fn text_in(j: Option<Json>) -> Option<Seq<char>> {
    match j {
        Some(Json::String(s)) => Some(s@),
        _ => None,
    }
}

pub open spec fn flag_in(j: Option<Json>) -> Option<bool> {
    match j {
        Some(Json::Bool(b)) => Some(b),
        _ => None,
    }
}

pub open spec fn items_in(j: Option<Json>) -> Option<Seq<Json>> {
    match j {
        Some(Json::Array(v)) => Some(v@),
        _ => None,
    }
}

proof fn lemma_entry_index(entries: Seq<(String, Json)>, key: Seq<char>)
    ensures
        entry_index(entries, key) matches Some(i) ==> 0 <= i < entries.len() && entries[i].0@ == key,
    decreases entries.len(),
{
    if entries.len() > 0 {
        lemma_entry_index(entries.drop_last(), key);
    }
}

proof fn lemma_entry_index_extend(entries: Seq<(String, Json)>, key: Seq<char>, k: int)
    requires
        0 <= k <= entries.len(),
        entry_index(entries.subrange(0, k), key) is Some,
    ensures
        entry_index(entries, key) == entry_index(entries.subrange(0, k), key),
    decreases entries.len() - k,
{
    if k < entries.len() {
        assert(entries.subrange(0, k + 1).drop_last() =~= entries.subrange(0, k));
        lemma_entry_index_extend(entries, key, k + 1);
    } else {
        assert(entries.subrange(0, k) =~= entries);
    }
}

fn find_entry(entries: &Vec<(String, Json)>, key: &str) -> (r: Option<usize>)
    ensures
        r matches Some(i) ==> entry_index(entries@, key@) == Some(i as int),
        r is None ==> entry_index(entries@, key@) is None,
{
    let mut k: usize = 0;
    while k < entries.len()
        invariant
            k <= entries.len(),
            entry_index(entries@.subrange(0, k as int), key@) is None,
        decreases entries.len() - k,
    {
        assert(entries@.subrange(0, k + 1).drop_last() =~= entries@.subrange(0, k as int));
        if text_eq(entries[k].0.as_str(), key) {
            proof {
                lemma_entry_index_extend(entries@, key@, k + 1);
            }
            return Some(k);
        }
        k = k + 1;
    }
    assert(entries@.subrange(0, k as int) =~= entries@);
    None
}

impl Json {
    /// The member `key` of this value, where it is an object that has one.
    pub fn member(&self, key: &str) -> (r: Option<&Json>)
        ensures
            r matches Some(v) ==> member_of(*self, key@) == Some(*v),
            r is None ==> member_of(*self, key@) is None,
    {
        match self {
            Json::Object(entries) => match find_entry(entries, key) {
                Some(i) => {
                    proof {
                        lemma_entry_index(entries@, key@);
                    }
                    Some(&entries[i].1)
                },
                None => None,
            },
            _ => None,
        }
    }

    /// The member `key` of this value, taken out of it.
    pub fn take_member(self, key: &str) -> (r: Option<Json>)
        ensures
            r == member_of(self, key@),
    {
        match self {
            Json::Object(mut entries) => match find_entry(&entries, key) {
                Some(i) => {
                    proof {
                        lemma_entry_index(entries@, key@);
                    }
                    let (_, v) = entries.remove(i);
                    Some(v)
                },
                None => None,
            },
            _ => None,
        }
    }

    /// The text of this value, where it is a string.
    pub fn as_text(&self) -> (r: Option<String>)
        ensures
            r matches Some(s) ==> text_in(Some(*self)) == Some(s@),
            r is None ==> text_in(Some(*self)) is None,
    {
        match self {
            Json::String(s) => Some(s.clone()),
            _ => None,
        }
    }

    /// This value, where it is a boolean.
    pub fn as_flag(&self) -> (r: Option<bool>)
        ensures
            r == flag_in(Some(*self)),
    {
        match self {
            Json::Bool(b) => Some(*b),
            _ => None,
        }
    }

    /// The elements of this value, where it is an array.
    pub fn as_items(&self) -> (r: Option<&Vec<Json>>)
        ensures
            r matches Some(v) ==> items_in(Some(*self)) == Some(v@),
            r is None ==> items_in(Some(*self)) is None,
    {
        match self {
            Json::Array(v) => Some(v),
            _ => None,
        }
    }

    /// The elements of this value, taken out of it, where it is an array.
    pub fn into_items(self) -> (r: Option<Vec<Json>>)
        ensures
            r matches Some(v) ==> items_in(Some(self)) == Some(v@),
            r is None ==> items_in(Some(self)) is None,
    {
        match self {
            Json::Array(v) => Some(v),
            _ => None,
        }
    }
}

/// Whether the jsonschema crate compiles `doc` into a validator.
pub uninterp spec fn compiles(doc: Json) -> bool;

/// The violations that the jsonschema crate finds when it holds `instance`
/// to the schema `schema`: each one's message and instance path, in order.
pub uninterp spec fn violations_of(schema: Json, instance: Json) -> Seq<(Seq<char>, Seq<char>)>;

/// `j` written as compact JSON by serde_json.
pub uninterp spec fn json_display(j: Json) -> Seq<char>;

/// A compiled schema, with the document it was compiled from. It is made only
/// by `compile_schema`.
pub struct Schema {
    doc: Json,
    compiled: jsonschema::JSONSchema,
}

impl Schema {
    /// The document this schema was compiled from.
    pub closed spec fn source(&self) -> Json {
        self.doc
    }
}

/// A schema document, compiled where it compiles: the document it comes from.
pub open spec fn compiled_doc(s: Result<Schema, Json>) -> Option<Json> {
    match s {
        Ok(schema) => Some(schema.source()),
        Err(_) => None,
    }
}

/// Relies on serde_json's `Value` variants: the same value, variant for
/// variant, with the members of an object in order.
#[verifier::external_body]
fn to_value(j: &Json) -> (r: serde_json::Value) {
    match j {
        Json::Null => serde_json::Value::Null,
        Json::Bool(b) => serde_json::Value::Bool(*b),
        Json::Number(n) => serde_json::Value::Number(n.clone()),
        Json::String(s) => serde_json::Value::String(s.clone()),
        Json::Array(items) => serde_json::Value::Array(items.iter().map(to_value).collect()),
        Json::Object(entries) => serde_json::Value::Object(entries.iter().map(|(k, v)| (k.clone(), to_value(v))).collect()),
    }
}

/// Relies on `jsonschema::CompilationOptions::compile`, with the meta-schemas
/// loaded: the compiled schema, or the document back where it does not compile.
#[verifier::external_body]
pub fn compile_schema(doc: Json) -> (r: Result<Schema, Json>)
    ensures
        r is Ok <==> compiles(doc),
        compiled_doc(r) == (if compiles(doc) { Some(doc) } else { None::<Json> }),
        r matches Err(d) ==> d == doc,
{
    let compiled = jsonschema::JSONSchema::options().with_meta_schemas().compile(&to_value(&doc)).ok();
    match compiled {
        Some(c) => Ok(Schema { doc, compiled: c }),
        None => Err(doc),
    }
}

/// Relies on `jsonschema::JSONSchema::validate`: each violation's message
/// (its `Display`) and instance path; `Ok` where there is none.
#[verifier::external_body]
pub(crate) fn violations(schema: &Schema, instance: &Json) -> (r: Result<(), Vec<(String, String)>>)
    ensures
        r is Ok <==> violations_of(schema.source(), *instance).len() == 0,
        r matches Err(v) ==> v@.map_values(|p: (String, String)| (p.0@, p.1@)) == violations_of(schema.source(), *instance),
{
    let value = to_value(instance);
    let found = match schema.compiled.validate(&value) {
        Ok(()) => Ok(()),
        Err(errors) => Err(errors.map(|e| (e.to_string(), e.instance_path.to_string())).collect()),
    };
    found
}

/// Relies on serde_json's `Display` for `Value`.
#[verifier::external_body]
pub(crate) fn json_text(j: &Json) -> (r: String)
    ensures
        r@ == json_display(*j),
{
    to_value(j).to_string()
}

} // verus!
