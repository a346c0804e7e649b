//! JSON texts, read one level at a time and written as flat objects.

use crate::text;
use vstd::prelude::*;

verus! {

/// A JSON value, one level deep: what a list or an object holds is JSON text again.
#[derive(Debug, Clone)]
pub enum JsonNode {
    Text(String),
    List(Vec<String>),
    /// The members of an object: each key with the JSON text of its value.
    Members(Vec<(String, String)>),
    /// A number, a truth value or null.
    Other,
}

/// The model of a [`JsonNode`].
pub enum JsonView {
    Text(Seq<char>),
    List(Seq<Seq<char>>),
    Members(Seq<(Seq<char>, Seq<char>)>),
    Other,
}

/// The members of an object by their texts.
pub open spec fn member_views(members: Seq<(String, String)>) -> Seq<(Seq<char>, Seq<char>)> {
    Seq::new(members.len(), |i: int| (members[i].0@, members[i].1@))
}

impl View for JsonNode {
    type V = JsonView;

    open spec fn view(&self) -> JsonView {
        match self {
            JsonNode::Text(s) => JsonView::Text(s@),
            JsonNode::List(items) => JsonView::List(text::views(items@)),
            JsonNode::Members(members) => JsonView::Members(member_views(members@)),
            JsonNode::Other => JsonView::Other,
        }
    }
}

/// The JSON value that a text writes, as `serde_json` reads it; `None` where it refuses the text.
pub uninterp spec fn json_node(doc: Seq<char>) -> Option<JsonView>;

/// `serde_json::from_str` into a `serde_json::Value`, taken one level deep: the values inside a
/// list or an object are rendered as JSON text.
#[verifier::external_body]
pub(crate) fn parse_json(doc: &str) -> (r: Option<JsonNode>)
    ensures
        match r {
            Some(node) => json_node(doc@) == Some(node@),
            None => json_node(doc@) is None,
        },
{
    match serde_json::from_str::<serde_json::Value>(doc) {
        Ok(serde_json::Value::String(s)) => Some(JsonNode::Text(s)),
        Ok(serde_json::Value::Array(items)) => {
            Some(JsonNode::List(items.iter().map(|v| v.to_string()).collect()))
        },
        Ok(serde_json::Value::Object(members)) => {
            Some(JsonNode::Members(members.into_iter().map(|(k, v)| (k, v.to_string())).collect()))
        },
        Ok(serde_json::Value::Null) => Some(JsonNode::Other),
        Ok(serde_json::Value::Bool(_)) => Some(JsonNode::Other),
        Ok(serde_json::Value::Number(_)) => Some(JsonNode::Other),
        Err(_) => None,
    }
}

// ---------------------------------------------------------------------------------------------
// Fields.
// ---------------------------------------------------------------------------------------------

/// The JSON text of the member `key`.
pub open spec fn member(members: Seq<(Seq<char>, Seq<char>)>, key: Seq<char>) -> Option<Seq<char>>
    decreases members.len(),
{
    if members.len() == 0 {
        None
    } else if members[0].0 == key {
        Some(members[0].1)
    } else {
        member(members.skip(1), key)
    }
}

/// The JSON text of the field `key` of a value; only an object has fields.
pub open spec fn field(node: Option<JsonView>, key: Seq<char>) -> Option<Seq<char>> {
    match node {
        Some(JsonView::Members(members)) => member(members, key),
        _ => None,
    }
}

/// The string that a value is.
pub open spec fn node_text(node: Option<JsonView>) -> Option<Seq<char>> {
    match node {
        Some(JsonView::Text(s)) => Some(s),
        _ => None,
    }
}

/// The items of the list that a value is.
pub open spec fn node_items(node: Option<JsonView>) -> Option<Seq<Seq<char>>> {
    match node {
        Some(JsonView::List(items)) => Some(items),
        _ => None,
    }
}

/// The string in the field `key` of a JSON text.
pub open spec fn text_field(doc: Seq<char>, key: Seq<char>) -> Option<Seq<char>> {
    match field(json_node(doc), key) {
        Some(value) => node_text(json_node(value)),
        None => None,
    }
}

/// The items of the list in the field `key` of a JSON text.
pub open spec fn items_field(doc: Seq<char>, key: Seq<char>) -> Option<Seq<Seq<char>>> {
    match field(json_node(doc), key) {
        Some(value) => node_items(json_node(value)),
        None => None,
    }
}

/// The model of a value that was read or refused.
pub open spec fn node_view(node: Option<JsonNode>) -> Option<JsonView> {
    match node {
        Some(n) => Some(n@),
        None => None,
    }
}

/// The JSON text of the field `key` of a value.
pub fn field_of<'a>(node: &'a Option<JsonNode>, key: &str) -> (r: Option<&'a String>)
    ensures
        match r {
            Some(value) => field(node_view(*node), key@) == Some(value@),
            None => field(node_view(*node), key@) is None,
        },
{
    match node {
        Some(JsonNode::Members(members)) => {
            let ghost all = member_views(members@);
            let mut i: usize = 0;
            assert(all.skip(0) =~= all);
            while i < members.len()
                invariant
                    0 <= i <= members@.len(),
                    all == member_views(members@),
                    node_view(*node) == Some(JsonView::Members(all)),
                    member(all, key@) == member(all.skip(i as int), key@),
                decreases members@.len() - i,
            {
                assert(all.skip(i as int).skip(1) =~= all.skip(i + 1));
                if text::same_text(members[i].0.as_str(), key) {
                    return Some(&members[i].1);
                }
                i = i + 1;
            }
            None
        },
        _ => None,
    }
}

/// The string in the field `key` of a value.
pub fn read_text_field(node: &Option<JsonNode>, key: &str) -> (r: Option<String>)
    ensures
        text::opt_view(r) == (match field(node_view(*node), key@) {
            Some(value) => node_text(json_node(value)),
            None => None,
        }),
{
    match field_of(node, key) {
        Some(value) => match parse_json(value.as_str()) {
            Some(JsonNode::Text(s)) => Some(s),
            _ => None,
        },
        None => None,
    }
}

/// The items of the list in the field `key` of a value.
pub fn read_items_field(node: &Option<JsonNode>, key: &str) -> (r: Option<Vec<String>>)
    ensures
        match r {
            Some(items) => field(node_view(*node), key@) matches Some(value) && node_items(
                json_node(value),
            ) == Some(text::views(items@)),
            None => field(node_view(*node), key@) matches Some(value) ==> node_items(
                json_node(value),
            ) is None,
        },
{
    match field_of(node, key) {
        Some(value) => match parse_json(value.as_str()) {
            Some(JsonNode::List(items)) => Some(items),
            _ => None,
        },
        None => None,
    }
}

// ---------------------------------------------------------------------------------------------
// Objects.
// ---------------------------------------------------------------------------------------------

/// The value of a member of a flat object.
#[derive(Debug, Clone)]
pub enum JsonField {
    Flag(bool),
    Text(String),
    Texts(Vec<String>),
}

/// The model of a [`JsonField`].
pub enum JsonFieldView {
    Flag(bool),
    Text(Seq<char>),
    Texts(Seq<Seq<char>>),
}

impl View for JsonField {
    type V = JsonFieldView;

    open spec fn view(&self) -> JsonFieldView {
        match self {
            JsonField::Flag(b) => JsonFieldView::Flag(*b),
            JsonField::Text(s) => JsonFieldView::Text(s@),
            JsonField::Texts(items) => JsonFieldView::Texts(text::views(items@)),
        }
    }
}

/// The members of a flat object by their models.
pub open spec fn field_views(members: Seq<(String, JsonField)>) -> Seq<
    (Seq<char>, JsonFieldView),
> {
    Seq::new(members.len(), |i: int| (members[i].0@, members[i].1@))
}

/// The JSON text of an object with these members, as `serde_json` writes it.
pub uninterp spec fn json_object(members: Seq<(Seq<char>, JsonFieldView)>) -> Seq<char>;

/// The text of a `serde_json::Value` that is an object with these members.
#[verifier::external_body]
pub(crate) fn render_json_object(members: Vec<(String, JsonField)>) -> (r: String)
    ensures
        r@ == json_object(field_views(members@)),
{
    let mut object = serde_json::Map::new();
    for (key, field) in members {
        let value = match field {
            JsonField::Flag(b) => serde_json::Value::Bool(b),
            JsonField::Text(s) => serde_json::Value::String(s),
            JsonField::Texts(items) => serde_json::Value::from(items),
        };
        object.insert(key, value);
    }
    serde_json::Value::Object(object).to_string()
}

/// The member of a key is the first that has it; there is none where none has it. Only objects
/// have members.
pub proof fn law_first_member_counts(
    members: Seq<(Seq<char>, Seq<char>)>,
    key: Seq<char>,
    i: int,
)
    requires
        0 <= i <= members.len(),
        forall|j: int| 0 <= j < i ==> (#[trigger] members[j]).0 != key,
        i < members.len() ==> members[i].0 == key,
    ensures
        i < members.len() ==> field(Some(JsonView::Members(members)), key) == Some(members[i].1),
        i == members.len() ==> field(Some(JsonView::Members(members)), key) is None,
        field(None, key) is None && field(Some(JsonView::Other), key) is None,
    decreases members.len(),
{
    if members.len() > 0 && i > 0 {
        let rest = members.skip(1);
        assert(members[0].0 != key);
        assert forall|j: int| 0 <= j < i - 1 implies (#[trigger] rest[j]).0 != key by {
            assert(rest[j] == members[j + 1]);
        }
        if i < members.len() {
            assert(rest[i - 1] == members[i]);
        }
        law_first_member_counts(rest, key, i - 1);
    }
}

/// A string is read from a field that holds a string and from no other, and items from one that
/// holds a list and from no other.
pub proof fn law_fields_are_read_by_their_type(doc: Seq<char>, key: Seq<char>, value: Seq<char>)
    requires
        field(json_node(doc), key) == Some(value),
    ensures
        json_node(value) matches Some(JsonView::Text(s)) ==> text_field(doc, key) == Some(s)
            && items_field(doc, key) is None,
        json_node(value) matches Some(JsonView::List(items)) ==> items_field(doc, key) == Some(items)
            && text_field(doc, key) is None,
        json_node(value) is None ==> text_field(doc, key) is None && items_field(doc, key) is None,
        json_node(value) matches Some(JsonView::Other) ==> text_field(doc, key) is None
            && items_field(doc, key) is None,
        json_node(value) matches Some(JsonView::Members(_)) ==> text_field(doc, key) is None
            && items_field(doc, key) is None,
{
}

/// Nothing is read from a field that is not there.
pub proof fn law_missing_fields_are_not_read(doc: Seq<char>, key: Seq<char>)
    requires
        field(json_node(doc), key) is None,
    ensures
        text_field(doc, key) is None,
        items_field(doc, key) is None,
{
}

/// The model of a value is made of the texts that it holds, each in its place.
pub proof fn law_models_hold_the_texts(
    items: Vec<String>,
    members: Vec<(String, String)>,
    fields: Seq<(String, JsonField)>,
    s: String,
    i: int,
)
    ensures
        JsonNode::Text(s)@ == JsonView::Text(s@),
        JsonNode::Other@ == JsonView::Other,
        JsonNode::List(items)@ is List && JsonNode::List(items)@->List_0.len() == items@.len(),
        0 <= i < items@.len() ==> JsonNode::List(items)@->List_0[i] == items@[i]@,
        JsonNode::Members(members)@ is Members && JsonNode::Members(members)@->Members_0.len()
            == members@.len(),
        0 <= i < members@.len() ==> JsonNode::Members(members)@->Members_0[i].0 == members@[i].0@
            && JsonNode::Members(members)@->Members_0[i].1 == members@[i].1@,
        JsonField::Text(s)@ == JsonFieldView::Text(s@),
        JsonField::Flag(true)@ == JsonFieldView::Flag(true),
        JsonField::Flag(false)@ == JsonFieldView::Flag(false),
        JsonField::Texts(items)@ is Texts && JsonField::Texts(items)@->Texts_0.len()
            == items@.len(),
        0 <= i < items@.len() ==> JsonField::Texts(items)@->Texts_0[i] == items@[i]@,
        field_views(fields).len() == fields.len(),
        0 <= i < fields.len() ==> field_views(fields)[i].0 == fields[i].0@ && field_views(
            fields,
        )[i].1 == fields[i].1@,
{
}

} // verus!
