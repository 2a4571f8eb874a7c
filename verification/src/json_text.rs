//! JSON documents as text.
use serde_json::Value;
use vstd::prelude::*;
use vstd::string::*;

use crate::json::{float_free, members, number_view, views, Json, JsonNumber, JsonView};
use crate::order::{lemma_replaced, map_of, unique, unique_pairs_are_the_map};
use crate::text::same_text;

verus! {

/// `serde_json::Value`, a JSON document of the outside crate.
#[verifier::external_type_specification]
#[verifier::external_body]
pub struct ExValue(Value);

/// What a `serde_json::Value` holds.
pub uninterp spec fn value_tree(value: Value) -> JsonView;

/// What `serde_json::from_slice` makes of a text: the document, or the message of its error.
pub uninterp spec fn parsed(text: Seq<u8>) -> Result<JsonView, Seq<char>>;

/// What `serde_json::to_string` makes of a document: the text, or the message of its error.
pub uninterp spec fn rendered(tree: JsonView) -> Result<Seq<char>, Seq<char>>;

/// What `serde_json::to_vec_pretty` makes of a document: the text, or the message of its error.
pub uninterp spec fn indented(tree: JsonView) -> Result<Seq<u8>, Seq<char>>;

/// What `Display` of `serde_json::Value` writes for a document.
pub uninterp spec fn displayed(tree: JsonView) -> Seq<char>;

/// The outermost layer of a document.
pub enum ValueNode {
    Null,
    Bool(bool),
    Number(JsonNumber),
    Text(String),
    Array(Vec<Value>),
    Object(Vec<(String, Value)>),
}

/// The keys of an object, each with what its value holds.
pub open spec fn value_pairs(entries: Seq<(String, Value)>) -> Seq<(Seq<char>, JsonView)> {
    entries.map_values(|entry: (String, Value)| (entry.0@, value_tree(entry.1)))
}

/// What a document with this outermost layer holds.
pub open spec fn node_tree(node: ValueNode) -> JsonView {
    match node {
        ValueNode::Null => JsonView::Null,
        ValueNode::Bool(flag) => JsonView::Bool(flag),
        ValueNode::Number(number) => number_view(number),
        ValueNode::Text(text) => JsonView::Text(text@),
        ValueNode::Array(items) => JsonView::Array(items@.map_values(|item: Value| value_tree(item))),
        ValueNode::Object(entries) => JsonView::Object(map_of(value_pairs(entries@))),
    }
}

/// `serde_json::Value`, taken apart: each variant with its fields, the members of an object in a
/// list without repeated keys.
#[verifier::external_body]
fn open_value(value: Value) -> (node: ValueNode)
    ensures
        value_tree(value) == node_tree(node),
        node matches ValueNode::Object(entries) ==> unique(value_pairs(entries@)),
{
    match value {
        Value::Null => ValueNode::Null,
        Value::Bool(flag) => ValueNode::Bool(flag),
        Value::Number(number) => ValueNode::Number(match (number.as_u64(), number.as_i64()) {
            (Some(n), _) => JsonNumber::Unsigned(n),
            (None, Some(n)) => JsonNumber::Negative(n),
            (None, None) => JsonNumber::Float(number.as_f64().unwrap_or_default().to_bits()),
        }),
        Value::String(text) => ValueNode::Text(text),
        Value::Array(items) => ValueNode::Array(items),
        Value::Object(entries) => ValueNode::Object(entries.into_iter().collect()),
    }
}

/// `serde_json::Value`, put together: each variant from its fields, an object from members without
/// repeated keys, an integer by `Value::from`.
#[verifier::external_body]
fn close_value(node: ValueNode) -> (value: Value)
    requires
        !(node matches ValueNode::Number(JsonNumber::Float(_))),
        node matches ValueNode::Object(entries) ==> unique(value_pairs(entries@)),
    ensures
        value_tree(value) == node_tree(node),
{
    match node {
        ValueNode::Null => Value::Null,
        ValueNode::Bool(flag) => Value::Bool(flag),
        ValueNode::Number(JsonNumber::Unsigned(n)) => Value::from(n),
        ValueNode::Number(JsonNumber::Negative(n)) => Value::from(n),
        ValueNode::Number(JsonNumber::Float(_)) => Value::Null,
        ValueNode::Text(text) => Value::String(text),
        ValueNode::Array(items) => Value::Array(items),
        ValueNode::Object(entries) => Value::Object(entries.into_iter().collect()),
    }
}

/// `serde_json::from_slice`: the document that a text holds, or the message of the error.
#[verifier::external_body]
fn value_from_slice(text: &[u8]) -> (value: Result<Value, String>)
    ensures
        match value {
            Ok(v) => parsed(text@) == Ok::<JsonView, Seq<char>>(value_tree(v)),
            Err(message) => parsed(text@) == Err::<JsonView, Seq<char>>(message@),
        },
{
    serde_json::from_slice(text).map_err(|error: serde_json::Error| error.to_string())
}

/// `serde_json::to_vec_pretty`: the text of a document over several lines, or the message of the
/// error; both depend on the document alone and are named by [`indented`].
#[verifier::external_body]
fn value_to_vec_pretty(value: &Value) -> (text: Result<Vec<u8>, String>)
    ensures
        match text {
            Ok(bytes) => indented(value_tree(*value)) == Ok::<Seq<u8>, Seq<char>>(bytes@),
            Err(message) => indented(value_tree(*value)) == Err::<Seq<u8>, Seq<char>>(message@),
        },
{
    match serde_json::to_vec_pretty(value) {
        Ok(text) => Ok(text),
        Err(error) => Err(error.to_string()),
    }
}

/// `serde_json::to_string`: the text of a document, or the message of the error.
#[verifier::external_body]
fn value_to_string(value: &Value) -> (text: Result<String, String>)
    ensures
        match text {
            Ok(s) => rendered(value_tree(*value)) == Ok::<Seq<char>, Seq<char>>(s@),
            Err(message) => rendered(value_tree(*value)) == Err::<Seq<char>, Seq<char>>(message@),
        },
{
    serde_json::to_string(value).map_err(|error| error.to_string())
}

/// `Display` of `serde_json::Value`.
#[verifier::external_body]
fn value_display(value: &Value) -> (text: String)
    ensures
        text@ == displayed(value_tree(*value)),
{
    value.to_string()
}

/// Takes a document of the outside crate apart, down to the leaves.
fn json_of(value: Value) -> (json: Json)
    ensures
        json@ == value_tree(value),
    decreases value_tree(value),
{
    let ghost tree = value_tree(value);
    match open_value(value) {
        ValueNode::Null => Json::Null,
        ValueNode::Bool(flag) => Json::Bool(flag),
        ValueNode::Number(number) => Json::Number(number),
        ValueNode::Text(text) => Json::Text(text),
        ValueNode::Array(items) => {
            let ghost all = items@;
            let mut list: Vec<Json> = Vec::new();
            let mut rest = items;
            while rest.len() > 0
                invariant
                    tree == JsonView::Array(all.map_values(|item: Value| value_tree(item))),
                    rest@.len() + list@.len() == all.len(),
                    rest@ == all.take(rest@.len() as int),
                    forall|i: int|
                        0 <= i < list@.len() ==> (#[trigger] list@[i])@ == value_tree(
                            all[all.len() - 1 - i],
                        ),
                    tree == value_tree(value),
                decreases rest@.len(),
            {
                let ghost n = rest@.len() as int;
                if let Some(item) = rest.pop() {
                    proof {
                        assert(item == all[n - 1]);
                        assert(tree->Array_0[n - 1] == value_tree(item));
                    }
                    list.push(json_of(item));
                }
                proof {
                    assert(rest@ =~= all.take(n - 1));
                }
            }
            let list = reversed(list);
            let json = Json::array(list);
            proof {
                assert(views(list@) =~= tree->Array_0);
            }
            json
        },
        ValueNode::Object(entries) => {
            let ghost all = entries@;
            let mut list: Vec<(String, Json)> = Vec::new();
            let mut rest = entries;
            while rest.len() > 0
                invariant
                    tree == JsonView::Object(map_of(value_pairs(all))),
                    unique(value_pairs(all)),
                    rest@.len() + list@.len() == all.len(),
                    rest@ == all.take(rest@.len() as int),
                    forall|i: int|
                        0 <= i < list@.len() ==> (#[trigger] list@[i]).0@ == all[all.len() - 1
                            - i].0@ && list@[i].1@ == value_tree(all[all.len() - 1 - i].1),
                    tree == value_tree(value),
                decreases rest@.len(),
            {
                let ghost n = rest@.len() as int;
                if let Some((key, item)) = rest.pop() {
                    proof {
                        assert((key, item) == all[n - 1]);
                        unique_pairs_are_the_map(value_pairs(all));
                        assert(value_pairs(all)[n - 1] == (key@, value_tree(item)));
                        assert(tree->Object_0[key@] == value_tree(item));
                    }
                    list.push((key, json_of(item)));
                }
                proof {
                    assert(rest@ =~= all.take(n - 1));
                }
            }
            let list = reversed(list);
            proof {
                lemma_same_members(list, all, all.len());
                assert(value_pairs(all).take(all.len() as int) =~= value_pairs(all));
            }
            Json::Object(list)
        },
    }
}

proof fn lemma_same_members(list: Vec<(String, Json)>, entries: Seq<(String, Value)>, n: nat)
    requires
        n <= entries.len(),
        list@.len() == entries.len(),
        forall|i: int|
            0 <= i < entries.len() ==> (#[trigger] list@[i]).0@ == entries[i].0@ && list@[i].1@
                == value_tree(entries[i].1),
    ensures
        members(list, n) == map_of(value_pairs(entries).take(n as int)),
    decreases n,
{
    let pairs = value_pairs(entries);
    if n > 0 {
        lemma_same_members(list, entries, (n - 1) as nat);
        assert(pairs.take(n as int).drop_last() =~= pairs.take(n - 1));
        assert(pairs[n - 1] == (list@[n - 1].0@, list@[n - 1].1@));
    }
}

fn reversed<T>(list: Vec<T>) -> (reverse: Vec<T>)
    ensures
        reverse@ == list@.reverse(),
{
    let ghost all = list@;
    let mut rest = list;
    let mut reverse: Vec<T> = Vec::new();
    while rest.len() > 0
        invariant
            rest@.len() + reverse@.len() == all.len(),
            rest@ == all.take(rest@.len() as int),
            forall|i: int|
                0 <= i < reverse@.len() ==> #[trigger] reverse@[i] == all[all.len() - 1 - i],
        decreases rest@.len(),
    {
        let ghost n = rest@.len() as int;
        if let Some(item) = rest.pop() {
            reverse.push(item);
        }
        proof {
            assert(rest@ =~= all.take(n - 1));
        }
    }
    proof {
        assert(reverse@ =~= all.reverse());
    }
    reverse
}

proof fn lemma_free_item(json: Json, i: int)
    requires
        json is Array,
        0 <= i < json->Array_0@.len(),
        float_free(json),
    ensures
        float_free(json->Array_0@[i]),
        decreases_to!(json => json->Array_0@[i]),
{
    let items = json->Array_0;
    assert(float_free(items[i]));
    assert(decreases_to!(json => items));
    assert(decreases_to!(items => items[i]));
}

proof fn lemma_free_entry(json: Json, i: int)
    requires
        json is Object,
        0 <= i < json->Object_0@.len(),
        float_free(json),
    ensures
        float_free(json->Object_0@[i].1),
        decreases_to!(json => json->Object_0@[i].1),
{
    let entries = json->Object_0;
    assert(float_free(entries[i].1));
    assert(decreases_to!(json => entries));
    assert(decreases_to!(entries => entries[i]));
}

/// Puts a document of the outside crate together.
fn value_of(json: &Json) -> (value: Value)
    requires
        float_free(*json),
    ensures
        value_tree(value) == json@,
    decreases json,
{
    match json {
        Json::Null => close_value(ValueNode::Null),
        Json::Bool(flag) => close_value(ValueNode::Bool(*flag)),
        Json::Number(number) => close_value(ValueNode::Number(*number)),
        Json::Text(text) => close_value(ValueNode::Text(text.clone())),
        Json::Array(items) => {
            let mut list: Vec<Value> = Vec::new();
            let mut i: usize = 0;
            while i < items.len()
                invariant
                    i <= items@.len(),
                    *json == Json::Array(*items),
                    float_free(*json),
                    list@.len() == i,
                    forall|j: int|
                        0 <= j < i ==> value_tree(#[trigger] list@[j]) == items@[j]@,
                decreases items@.len() - i,
            {
                proof {
                    lemma_free_item(*json, i as int);
                }
                list.push(value_of(&items[i]));
                i = i + 1;
            }
            let node = ValueNode::Array(list);
            proof {
                assert(node_tree(node)->Array_0 =~= json@->Array_0);
            }
            close_value(node)
        },
        Json::Object(entries) => {
            let mut list: Vec<(String, Value)> = Vec::new();
            let mut i: usize = 0;
            proof {
                assert(value_pairs(list@) =~= Seq::empty());
            }
            while i < entries.len()
                invariant
                    i <= entries@.len(),
                    *json == Json::Object(*entries),
                    float_free(*json),
                    unique(value_pairs(list@)),
                    map_of(value_pairs(list@)) == members(*entries, i as nat),
                decreases entries@.len() - i,
            {
                proof {
                    lemma_free_entry(*json, i as int);
                }
                let entry = &entries[i];
                let value = value_of(&entry.1);
                list = with_member(list, entry.0.clone(), value);
                i = i + 1;
            }
            close_value(ValueNode::Object(list))
        },
    }
}

fn with_member(list: Vec<(String, Value)>, key: String, value: Value) -> (after: Vec<
    (String, Value),
>)
    requires
        unique(value_pairs(list@)),
    ensures
        unique(value_pairs(after@)),
        map_of(value_pairs(after@)) == map_of(value_pairs(list@)).insert(key@, value_tree(value)),
{
    let mut entries = list;
    let ghost before = value_pairs(list@);
    let ghost said = (key@, value_tree(value));
    let mut i: usize = 0;
    while i < entries.len()
        invariant
            i <= entries@.len(),
            before == value_pairs(list@),
            before == value_pairs(entries@),
            unique(before),
            said == (key@, value_tree(value)),
            forall|j: int| 0 <= j < i ==> (#[trigger] before[j]).0 != key@,
        decreases entries@.len() - i,
    {
        proof {
            assert(before[i as int].0 == entries@[i as int].0@);
        }
        if same_text(entries[i].0.as_str(), key.as_str()) {
            entries[i] = (key, value);
            proof {
                let after = value_pairs(entries@);
                assert(after =~= before.update(i as int, said));
                lemma_replaced(before, after, i as int, said.0, said.1);
            }
            return entries;
        }
        i = i + 1;
    }
    entries.push((key, value));
    proof {
        let after = value_pairs(entries@);
        assert(after =~= before.push(said));
        assert(after.drop_last() =~= before);
    }
    entries
}

/// The document that a text holds.
pub fn parse_json(text: &[u8]) -> (json: Result<Json, String>)
    ensures
        match json {
            Ok(document) => parsed(text@) == Ok::<JsonView, Seq<char>>(document@),
            Err(message) => parsed(text@) == Err::<JsonView, Seq<char>>(message@),
        },
{
    match value_from_slice(text) {
        Ok(value) => Ok(json_of(value)),
        Err(message) => Err(message),
    }
}

/// The text of a document.
pub fn render_json(json: &Json) -> (text: Result<String, String>)
    requires
        float_free(*json),
    ensures
        match text {
            Ok(s) => rendered(json@) == Ok::<Seq<char>, Seq<char>>(s@),
            Err(message) => rendered(json@) == Err::<Seq<char>, Seq<char>>(message@),
        },
{
    let value = value_of(json);
    value_to_string(&value)
}

/// The text of a document, over several lines.
pub fn indent_json(json: &Json) -> (text: Result<Vec<u8>, String>)
    requires
        float_free(*json),
    ensures
        match text {
            Ok(bytes) => indented(json@) == Ok::<Seq<u8>, Seq<char>>(bytes@),
            Err(message) => indented(json@) == Err::<Seq<u8>, Seq<char>>(message@),
        },
{
    let value = value_of(json);
    value_to_vec_pretty(&value)
}

/// The text of a document, as it is displayed.
pub fn display_json(json: &Json) -> (text: String)
    requires
        float_free(*json),
    ensures
        text@ == displayed(json@),
{
    let value = value_of(json);
    value_display(&value)
}

} // verus!
