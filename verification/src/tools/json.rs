//! Tool descriptions as JSON values, as completion providers take them.

use vstd::prelude::*;

use crate::tools::yaml::{
    ParametersSchema, ParametersSchemaView, PropertySchema, PropertySchemaView,
};

verus! {

/// `serde_json::Value`, carried through as it is.
#[verifier::external_type_specification]
#[verifier::external_body]
pub struct ExValue(serde_json::Value);

/// `serde_json::Map`, carried through as it is.
#[verifier::external_type_specification]
#[verifier::external_body]
#[verifier::reject_recursive_types(K)]
#[verifier::reject_recursive_types(V)]
pub struct ExMap<K, V>(serde_json::Map<K, V>);

/// A JSON value as a mathematical value. Numbers are not told apart.
pub enum Json {
    Null,
    Boolean(bool),
    Number,
    Text(Seq<char>),
    List(Seq<Json>),
    Object(Map<Seq<char>, Json>),
}

/// The entries of an object without entries.
pub open spec fn no_entries() -> Map<Seq<char>, Json> {
    Map::empty()
}

/// What a `serde_json::Value` holds.
pub uninterp spec fn json_of(value: serde_json::Value) -> Json;

/// What a `serde_json::Map` holds: its values by their keys.
pub uninterp spec fn object_entries(object: serde_json::Map<String, serde_json::Value>) -> Map<
    Seq<char>,
    Json,
>;

/// `serde_json::Value::from` on a string slice gives the JSON string of
/// that text.
#[verifier::external_body]
pub(crate) fn json_string(text: &str) -> (value: serde_json::Value)
    ensures
        json_of(value) == Json::Text(text@),
{
    serde_json::Value::from(text)
}

/// `serde_json::Value::from` on a vector gives the JSON array of its
/// items, in their order.
#[verifier::external_body]
pub(crate) fn json_array(items: Vec<serde_json::Value>) -> (value: serde_json::Value)
    ensures
        json_of(value) == Json::List(Seq::new(items.len() as nat, |i: int| json_of(items[i]))),
{
    serde_json::Value::from(items)
}

/// `serde_json::Map::new` gives a map without entries.
#[verifier::external_body]
pub(crate) fn object_new() -> (object: serde_json::Map<String, serde_json::Value>)
    ensures
        object_entries(object) == no_entries(),
{
    serde_json::Map::new()
}

/// `serde_json::Map::insert` puts the value under the key, in the place of
/// a value that was there under that key, and leaves the other entries.
#[verifier::external_body]
pub(crate) fn object_insert(
    object: &mut serde_json::Map<String, serde_json::Value>,
    key: &str,
    value: serde_json::Value,
)
    ensures
        object_entries(*final(object)) == object_entries(*old(object)).insert(
            key@,
            json_of(value),
        ),
{
    object.insert(key.to_string(), value);
}

/// `serde_json::Value::from` on a map gives the JSON object of its
/// entries.
#[verifier::external_body]
pub(crate) fn json_object(object: serde_json::Map<String, serde_json::Value>) -> (value:
    serde_json::Value)
    ensures
        json_of(value) == Json::Object(object_entries(object)),
{
    serde_json::Value::from(object)
}

/// The JSON object that describes one argument of a tool.
pub open spec fn property_json(property: PropertySchemaView) -> Json {
    let always = no_entries().insert("type"@, Json::Text(property.type_)).insert(
        "description"@,
        Json::Text(property.description),
    );
    Json::Object(
        match property.example {
            Some(example) => always.insert("example"@, Json::Text(example)),
            None => always,
        },
    )
}

/// The JSON objects that describe the arguments of a tool, by the names of
/// the arguments.
pub open spec fn properties_json(properties: Seq<(Seq<char>, PropertySchemaView)>) -> Map<
    Seq<char>,
    Json,
>
    decreases properties.len(),
{
    if properties.len() == 0 {
        no_entries()
    } else {
        properties_json(properties.drop_last()).insert(
            properties.last().0,
            property_json(properties.last().1),
        )
    }
}

/// The JSON strings of a list of names, in its order.
pub open spec fn names_json(names: Seq<Seq<char>>) -> Seq<Json> {
    Seq::new(names.len(), |i: int| Json::Text(names[i]))
}

/// The JSON object that describes the arguments of a tool.
pub open spec fn parameters_json(parameters: ParametersSchemaView) -> Json {
    Json::Object(
        no_entries().insert("type"@, Json::Text(parameters.type_)).insert(
            "properties"@,
            Json::Object(properties_json(parameters.properties)),
        ).insert("required"@, Json::List(names_json(parameters.required))),
    )
}

impl PropertySchema {
    /// The property as a JSON value.
    pub fn to_json(&self) -> (value: serde_json::Value)
        ensures
            json_of(value) == property_json(self@),
    {
        let mut object = object_new();
        object_insert(&mut object, "type", json_string(self.type_.as_str()));
        object_insert(&mut object, "description", json_string(self.description.as_str()));
        match &self.example {
            Some(example) => {
                object_insert(&mut object, "example", json_string(example.as_str()));
            },
            None => {},
        }
        json_object(object)
    }
}

impl ParametersSchema {
    /// The description of the arguments as a JSON value.
    pub fn to_json(&self) -> (value: serde_json::Value)
        ensures
            json_of(value) == parameters_json(self@),
    {
        let ghost all = self.properties.deep_view();
        let mut properties = object_new();
        let mut i: usize = 0;
        proof {
            assert(all.take(0) =~= Seq::<(Seq<char>, PropertySchemaView)>::empty());
        }
        while i < self.properties.len()
            invariant
                i <= self.properties.len(),
                all == self.properties.deep_view(),
                object_entries(properties) == properties_json(all.take(i as int)),
            decreases self.properties.len() - i,
        {
            proof {
                let part = all.take(i + 1);
                assert(part.last() == self.properties[i as int].deep_view());
                assert(part.drop_last() =~= all.take(i as int));
            }
            let property = self.properties[i].1.to_json();
            object_insert(&mut properties, self.properties[i].0.as_str(), property);
            i += 1;
        }
        proof {
            assert(all.take(self.properties.len() as int) =~= all);
        }
        let mut required: Vec<serde_json::Value> = Vec::new();
        let mut j: usize = 0;
        while j < self.required.len()
            invariant
                j <= self.required.len(),
                required.len() == j,
                forall|k: int|
                    0 <= k < j ==> json_of(#[trigger] required[k]) == Json::Text(
                        self.required[k]@,
                    ),
            decreases self.required.len() - j,
        {
            required.push(json_string(self.required[j].as_str()));
            j += 1;
        }
        let ghost listed = Seq::new(required.len() as nat, |k: int| json_of(required[k]));
        proof {
            assert(listed =~= names_json(self@.required));
        }
        let mut object = object_new();
        object_insert(&mut object, "type", json_string(self.type_.as_str()));
        object_insert(&mut object, "properties", json_object(properties));
        object_insert(&mut object, "required", json_array(required));
        json_object(object)
    }
}

} // verus!
