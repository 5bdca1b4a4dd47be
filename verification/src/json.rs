//! JSON documents as plain data, and the parser that produces them.
//!
//! Parsing is left to `serde_json`. What it returns is copied, value for
//! value, into [`JsonValue`], a tree that the rest of the library can read.

use vstd::prelude::*;

verus! {

/// A JSON value.
#[derive(Debug, PartialEq, Eq)]
pub enum JsonValue {
    Null,
    Bool(bool),
    /// A number, as the bit pattern of its double-precision value; `None` for
    /// a number that has no such value.
    Number(Option<u64>),
    Text(String),
    Array(Vec<JsonValue>),
    /// An object: its members in order, each a name and a value.
    Object(Vec<(String, JsonValue)>),
}

/// What a [`JsonValue`] holds, as mathematical data.
pub enum JsonModel {
    Null,
    Bool(bool),
    Number(Option<u64>),
    Text(Seq<char>),
    Array(Seq<JsonModel>),
    Object(Seq<(Seq<char>, JsonModel)>),
}

/// What `value` holds. The items of an array and the members of an object
/// are taken within their bounds only, which is what shows that the
/// definition ends.
pub open spec fn model_of(value: JsonValue) -> JsonModel
    decreases value,
{
    match value {
        JsonValue::Null => JsonModel::Null,
        JsonValue::Bool(b) => JsonModel::Bool(b),
        JsonValue::Number(bits) => JsonModel::Number(bits),
        JsonValue::Text(text) => JsonModel::Text(text@),
        JsonValue::Array(items) => JsonModel::Array(
            Seq::new(
                items@.len(),
                |i: int|
                    if 0 <= i < items@.len() {
                        model_of(items@[i])
                    } else {
                        JsonModel::Null
                    },
            ),
        ),
        JsonValue::Object(members) => JsonModel::Object(
            Seq::new(
                members@.len(),
                |i: int|
                    if 0 <= i < members@.len() {
                        (members@[i].0@, model_of(members@[i].1))
                    } else {
                        (Seq::empty(), JsonModel::Null)
                    },
            ),
        ),
    }
}

impl View for JsonValue {
    type V = JsonModel;

    open spec fn view(&self) -> JsonModel {
        model_of(*self)
    }
}

/// The members of an object, as mathematical data.
pub open spec fn members_model(members: Seq<(String, JsonValue)>) -> Seq<(Seq<char>, JsonModel)> {
    Seq::new(members.len(), |i: int| (members[i].0@, members[i].1@))
}

/// The names of `members`, in order.
pub open spec fn names_of(members: Seq<(Seq<char>, JsonModel)>) -> Seq<Seq<char>> {
    members.map_values(|member: (Seq<char>, JsonModel)| member.0)
}

/// The value of the last of `members` that is called `name`. Where members
/// share a name the last one counts, as it does for a parser that reads them
/// in order.
pub open spec fn last_named(members: Seq<(Seq<char>, JsonModel)>, name: Seq<char>) -> Option<
    JsonModel,
>
    decreases members.len(),
{
    if members.len() == 0 {
        None
    } else if members.last().0 == name {
        Some(members.last().1)
    } else {
        last_named(members.drop_last(), name)
    }
}

impl JsonModel {
    /// The value of the member called `name`; `None` where this is no object
    /// or has no such member.
    pub open spec fn member(self, name: Seq<char>) -> Option<JsonModel> {
        match self {
            JsonModel::Object(members) => last_named(members, name),
            _ => None,
        }
    }

    /// Where this is an object, no two of its members share a name.
    pub open spec fn distinct_names(self) -> bool {
        match self {
            JsonModel::Object(members) => names_of(members).no_duplicates(),
            _ => true,
        }
    }
}

/// The view of an object is the view of its members.
pub proof fn lemma_object_view(members: Vec<(String, JsonValue)>)
    ensures
        JsonValue::Object(members)@ == JsonModel::Object(members_model(members@)),
{
    assert(JsonValue::Object(members)@->Object_0 =~= members_model(members@));
}

impl JsonValue {
    /// The value of the member called `name`, where this is an object that
    /// has one.
    pub fn member(&self, name: &String) -> (found: Option<&JsonValue>)
        ensures
            match found {
                Some(value) => self@.member(name@) == Some(value@),
                None => self@.member(name@) is None,
            },
    {
        match self {
            JsonValue::Object(members) => {
                let ghost model = members_model(members@);
                proof {
                    lemma_object_view(*members);
                    assert(model.take(members.len() as int) =~= model);
                }
                let mut i: usize = members.len();
                while i > 0
                    invariant
                        i <= members.len(),
                        model == members_model(members@),
                        self@ == JsonModel::Object(model),
                        last_named(model, name@) == last_named(model.take(i as int), name@),
                    decreases i,
                {
                    i -= 1;
                    assert(model.take(i + 1).drop_last() =~= model.take(i as int));
                    if members[i].0 == *name {
                        return Some(&members[i].1);
                    }
                }
                None
            },
            _ => None,
        }
    }
}

/// `serde_json::Value`, the parser's own tree. Nothing is known of what is
/// inside one: it is only handed from the parser to [`value_tree`].
#[verifier::external_type_specification]
#[verifier::external_body]
pub struct ExValue(serde_json::Value);

/// `serde_json::Error`, the parser's report of a text that it refuses. Nothing
/// is known of what is inside one.
#[verifier::external_type_specification]
#[verifier::external_body]
pub struct ExError(serde_json::Error);

/// What `serde_json::from_str` makes of a text: the value it parses to, or
/// `None` where it reports an error.
pub uninterp spec fn json_parse(text: Seq<char>) -> Option<JsonModel>;

/// What a `serde_json::Value` holds.
pub uninterp spec fn json_content(value: serde_json::Value) -> JsonModel;

/// Calls `serde_json::from_str` for a `serde_json::Value`. Nothing is claimed
/// of the outcome but that the text alone decides it: [`json_parse`] names it.
#[verifier::external_body]
fn parse_value(text: &str) -> (parsed: Result<serde_json::Value, serde_json::Error>)
    ensures
        match parsed {
            Ok(value) => json_parse(text@) == Some(json_content(value)),
            Err(_) => json_parse(text@) is None,
        },
{
    serde_json::from_str::<serde_json::Value>(text)
}

/// Copies a `serde_json::Value` into a [`JsonValue`], variant by variant: a
/// number through `Number::as_f64` and `f64::to_bits`, the members of an
/// object in the order of `Map::iter`. The tree returned holds what the value
/// holds, which [`json_content`] names. A `serde_json::Map` has one value for
/// a key, so the members of an object that comes out have distinct names.
#[verifier::external_body]
fn value_tree(value: &serde_json::Value) -> (tree: JsonValue)
    ensures
        tree@ == json_content(*value),
        tree@.distinct_names(),
{
    match value {
        serde_json::Value::Null => JsonValue::Null,
        serde_json::Value::Bool(b) => JsonValue::Bool(*b),
        serde_json::Value::Number(n) => JsonValue::Number(n.as_f64().map(|x| x.to_bits())),
        serde_json::Value::String(s) => JsonValue::Text(s.clone()),
        serde_json::Value::Array(items) => JsonValue::Array(items.iter().map(value_tree).collect()),
        serde_json::Value::Object(members) => JsonValue::Object(
            members.iter().map(|(name, member)| (name.clone(), value_tree(member))).collect(),
        ),
    }
}

/// Parses a JSON text. Returns the document, or `None` where the text is not
/// valid JSON.
pub fn parse_document(text: &str) -> (parsed: Option<JsonValue>)
    ensures
        match parsed {
            Some(document) => json_parse(text@) == Some(document@) && document@.distinct_names(),
            None => json_parse(text@) is None,
        },
{
    match parse_value(text) {
        Ok(value) => Some(value_tree(&value)),
        Err(_) => None,
    }
}

} // verus!
