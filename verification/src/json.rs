//! JSON documents as plain data, and what the logic reads from them and writes to them.
use vstd::prelude::*;
use vstd::string::*;

use crate::text::same_text;

verus! {

/// A JSON number: a natural number, a negative integer, or a binary64 value given by its bits.
/// An integer that is not negative counts as a natural number.
#[derive(Clone, Copy, Debug, PartialEq, Eq, Structural)]
pub enum JsonNumber {
    Unsigned(u64),
    Negative(i64),
    Float(u64),
}

/// A JSON document. Where an object names a key twice, the later entry counts.
#[derive(Debug, PartialEq, Eq)]
pub enum Json {
    Null,
    Bool(bool),
    Number(JsonNumber),
    Text(String),
    Array(Vec<Json>),
    Object(Vec<(String, Json)>),
}

/// What a JSON document says.
pub enum JsonView {
    Null,
    Bool(bool),
    Number(JsonNumber),
    Text(Seq<char>),
    Array(Seq<JsonView>),
    Object(Map<Seq<char>, JsonView>),
}

/// What a number says.
pub open spec fn number_view(number: JsonNumber) -> JsonView {
    match number {
        JsonNumber::Unsigned(n) => JsonView::Number(number),
        JsonNumber::Negative(n) => if n < 0 {
            JsonView::Number(number)
        } else {
            JsonView::Number(JsonNumber::Unsigned(n as u64))
        },
        JsonNumber::Float(bits) => JsonView::Number(number),
    }
}

/// The members of the first `n` entries of an object.
pub open spec fn members(entries: Vec<(String, Json)>, n: nat) -> Map<Seq<char>, JsonView>
    decreases entries, n,
{
    if n == 0 || n > entries@.len() {
        Map::empty()
    } else {
        members(entries, (n - 1) as nat).insert(entries[n - 1].0@, json_view(entries[n - 1].1))
    }
}

/// What a JSON document says.
pub open spec fn json_view(json: Json) -> JsonView
    decreases json,
{
    match json {
        Json::Null => JsonView::Null,
        Json::Bool(b) => JsonView::Bool(b),
        Json::Number(n) => number_view(n),
        Json::Text(s) => JsonView::Text(s@),
        Json::Array(items) => JsonView::Array(
            Seq::new(
                items@.len(),
                |i: int|
                    if 0 <= i < items@.len() {
                        json_view(items[i])
                    } else {
                        JsonView::Null
                    },
            ),
        ),
        Json::Object(entries) => JsonView::Object(members(entries, entries@.len())),
    }
}

/// Whether a document holds no binary64 value.
pub open spec fn float_free(json: Json) -> bool
    decreases json,
{
    match json {
        Json::Number(JsonNumber::Float(bits)) => false,
        Json::Array(items) => forall|i: int|
            0 <= i < items@.len() ==> float_free(#[trigger] items[i]),
        Json::Object(entries) => forall|i: int|
            0 <= i < entries@.len() ==> float_free((#[trigger] entries[i]).1),
        _ => true,
    }
}

impl View for Json {
    type V = JsonView;

    open spec fn view(&self) -> JsonView {
        json_view(*self)
    }
}

impl JsonView {
    /// The member `key` of an object.
    pub open spec fn get(self, key: Seq<char>) -> Option<JsonView> {
        match self {
            JsonView::Object(m) => if m.dom().contains(key) {
                Some(m[key])
            } else {
                None
            },
            _ => None,
        }
    }

    /// The object with the member `key` set to `value`; a value that is no object is unchanged.
    pub open spec fn with(self, key: Seq<char>, value: JsonView) -> JsonView {
        match self {
            JsonView::Object(m) => JsonView::Object(m.insert(key, value)),
            _ => self,
        }
    }

    /// The text that a JSON string holds.
    pub open spec fn as_text(self) -> Option<Seq<char>> {
        match self {
            JsonView::Text(s) => Some(s),
            _ => None,
        }
    }

    /// The items of a JSON array.
    pub open spec fn as_items(self) -> Option<Seq<JsonView>> {
        match self {
            JsonView::Array(s) => Some(s),
            _ => None,
        }
    }

    /// The value of a JSON boolean.
    pub open spec fn as_flag(self) -> Option<bool> {
        match self {
            JsonView::Bool(b) => Some(b),
            _ => None,
        }
    }

    /// The value of a JSON number that is a natural number of 64 bits.
    pub open spec fn as_natural(self) -> Option<int> {
        match self {
            JsonView::Number(JsonNumber::Unsigned(n)) => Some(n as int),
            _ => None,
        }
    }

    /// The number that a JSON number is.
    pub open spec fn as_number(self) -> Option<JsonNumber> {
        match self {
            JsonView::Number(number) => Some(number),
            _ => None,
        }
    }

    /// The value of a JSON number that is a signed integer of 64 bits.
    pub open spec fn as_integer(self) -> Option<int> {
        match self {
            JsonView::Number(JsonNumber::Unsigned(n)) => if n <= i64::MAX {
                Some(n as int)
            } else {
                None
            },
            JsonView::Number(JsonNumber::Negative(n)) => Some(n as int),
            _ => None,
        }
    }
}

/// The JSON object without members.
pub open spec fn empty_object() -> JsonView {
    JsonView::Object(Map::empty())
}

/// What each of several JSON documents says.
pub open spec fn views(items: Seq<Json>) -> Seq<JsonView> {
    items.map_values(|item: Json| item@)
}

proof fn lemma_members_empty(entries: Vec<(String, Json)>)
    ensures
        members(entries, 0) == Map::<Seq<char>, JsonView>::empty(),
{
}

proof fn lemma_members_step(entries: Vec<(String, Json)>, n: nat)
    requires
        0 < n <= entries@.len(),
    ensures
        members(entries, n) == members(entries, (n - 1) as nat).insert(
            entries@[n - 1].0@,
            json_view(entries@[n - 1].1),
        ),
{
}

proof fn lemma_members_get(entries: Vec<(String, Json)>, n: nat, from: nat, key: Seq<char>)
    requires
        from <= n <= entries@.len(),
        forall|i: int| from <= i < n ==> (#[trigger] entries@[i]).0@ != key,
    ensures
        members(entries, n).dom().contains(key) == members(entries, from).dom().contains(key),
        members(entries, n)[key] == members(entries, from)[key],
    decreases n - from,
{
    if from < n {
        lemma_members_get(entries, (n - 1) as nat, from, key);
    }
}

proof fn lemma_members_prefix(a: Vec<(String, Json)>, b: Vec<(String, Json)>, n: nat)
    requires
        n <= a@.len(),
        n <= b@.len(),
        forall|i: int| 0 <= i < n ==> a@[i] == b@[i],
    ensures
        members(a, n) == members(b, n),
    decreases n,
{
    if n > 0 {
        lemma_members_prefix(a, b, (n - 1) as nat);
        assert(a@[n - 1] == b@[n - 1]);
    }
}

impl Json {
    /// The member `key` of an object.
    pub fn get(&self, key: &str) -> (member: Option<&Json>)
        ensures
            match member {
                Some(value) => self@.get(key@) == Some(value@),
                None => self@.get(key@) is None,
            },
    {
        match self {
            Json::Object(entries) => {
                let mut i: usize = entries.len();
                while i > 0
                    invariant
                        *self == Json::Object(*entries),
                        i <= entries@.len(),
                        forall|j: int| i <= j < entries@.len() ==> (#[trigger] entries@[j]).0@ != key@,
                    decreases i,
                {
                    i = i - 1;
                    if same_text(entries[i].0.as_str(), key) {
                        proof {
                            lemma_members_get(*entries, entries@.len(), (i + 1) as nat, key@);
                            lemma_members_step(*entries, (i + 1) as nat);
                        }
                        return Some(&entries[i].1);
                    }
                }
                proof {
                    lemma_members_get(*entries, entries@.len(), 0, key@);
                }
                None
            },
            _ => None,
        }
    }

    /// Whether an object has the member `key`.
    pub fn has(&self, key: &str) -> (present: bool)
        ensures
            present == (self@.get(key@) is Some),
    {
        self.get(key).is_some()
    }

    /// The text that a JSON string holds.
    pub fn as_str(&self) -> (text: Option<&str>)
        ensures
            match text {
                Some(s) => self@.as_text() == Some(s@),
                None => self@.as_text() is None,
            },
    {
        match self {
            Json::Text(s) => Some(s.as_str()),
            _ => None,
        }
    }

    /// The items of a JSON array.
    pub fn as_array(&self) -> (items: Option<&Vec<Json>>)
        ensures
            match items {
                Some(v) => self@.as_items() == Some(views(v@)),
                None => self@.as_items() is None,
            },
    {
        match self {
            Json::Array(items) => {
                proof {
                    assert(self@->Array_0 =~= views(items@));
                }
                Some(items)
            },
            _ => None,
        }
    }

    /// The value of a JSON boolean.
    pub fn as_bool(&self) -> (flag: Option<bool>)
        ensures
            flag == self@.as_flag(),
    {
        match self {
            Json::Bool(b) => Some(*b),
            _ => None,
        }
    }

    /// The value of a JSON number that is a natural number of 64 bits.
    pub fn as_u64(&self) -> (value: Option<u64>)
        ensures
            match value {
                Some(n) => self@.as_natural() == Some(n as int),
                None => self@.as_natural() is None,
            },
    {
        match self {
            Json::Number(JsonNumber::Unsigned(n)) => Some(*n),
            Json::Number(JsonNumber::Negative(n)) => if *n >= 0 {
                Some(*n as u64)
            } else {
                None
            },
            _ => None,
        }
    }

    /// The value of a JSON number that is a signed integer of 64 bits.
    pub fn as_i64(&self) -> (value: Option<i64>)
        ensures
            match value {
                Some(n) => self@.as_integer() == Some(n as int),
                None => self@.as_integer() is None,
            },
    {
        match self {
            Json::Number(JsonNumber::Unsigned(n)) => if *n <= 0x7fff_ffff_ffff_ffffu64 {
                Some(*n as i64)
            } else {
                None
            },
            Json::Number(JsonNumber::Negative(n)) => Some(*n),
            _ => None,
        }
    }

    /// Whether the document is an object.
    pub fn is_object(&self) -> (object: bool)
        ensures
            object == (self@ is Object),
    {
        matches!(self, Json::Object(_))
    }

    /// Whether the document is an array.
    pub fn is_array(&self) -> (array: bool)
        ensures
            array == (self@ is Array),
    {
        matches!(self, Json::Array(_))
    }

    /// Whether the document is `null`.
    pub fn is_null(&self) -> (null: bool)
        ensures
            null == (self@ is Null),
    {
        matches!(self, Json::Null)
    }

    /// The number that a JSON number is.
    pub fn as_number(&self) -> (number: Option<JsonNumber>)
        ensures
            number == self@.as_number(),
    {
        match self {
            Json::Number(JsonNumber::Unsigned(n)) => Some(JsonNumber::Unsigned(*n)),
            Json::Number(JsonNumber::Negative(n)) => if *n < 0 {
                Some(JsonNumber::Negative(*n))
            } else {
                Some(JsonNumber::Unsigned(*n as u64))
            },
            Json::Number(JsonNumber::Float(bits)) => Some(JsonNumber::Float(*bits)),
            _ => None,
        }
    }

    /// The object without members.
    pub fn object() -> (json: Json)
        ensures
            json@ == empty_object(),
            float_free(json),
    {
        let json = Json::Object(Vec::new());
        proof {
            lemma_members_empty(json->Object_0);
        }
        json
    }

    /// The object with the member `key` set to `value`; a value that is no object is unchanged.
    pub fn with(self, key: &str, value: Json) -> (json: Json)
        ensures
            json@ == self@.with(key@, value@),
            float_free(self) && float_free(value) ==> float_free(json),
    {
        match self {
            Json::Object(entries) => {
                let ghost before = entries;
                let mut entries = entries;
                entries.push((key.to_owned(), value));
                proof {
                    lemma_members_prefix(before, entries, before@.len());
                    lemma_members_step(entries, entries@.len());
                }
                Json::Object(entries)
            },
            other => other,
        }
    }

    /// `null`.
    pub fn null() -> (json: Json)
        ensures
            json@ == JsonView::Null,
            float_free(json),
    {
        Json::Null
    }

    /// The JSON boolean `flag`.
    pub fn boolean(flag: bool) -> (json: Json)
        ensures
            json@ == JsonView::Bool(flag),
            float_free(json),
    {
        Json::Bool(flag)
    }

    /// The JSON string that holds `text`.
    pub fn text(text: &str) -> (json: Json)
        ensures
            json@ == JsonView::Text(text@),
            float_free(json),
    {
        Json::Text(text.to_owned())
    }

    /// The JSON number `n`.
    pub fn natural(n: u64) -> (json: Json)
        ensures
            json@ == JsonView::Number(JsonNumber::Unsigned(n)),
            float_free(json),
    {
        Json::Number(JsonNumber::Unsigned(n))
    }

    /// The JSON number `n`.
    pub fn integer(n: i64) -> (json: Json)
        ensures
            json@ == integer_view(n as int),
            float_free(json),
    {
        if n >= 0 {
            Json::Number(JsonNumber::Unsigned(n as u64))
        } else {
            Json::Number(JsonNumber::Negative(n))
        }
    }

    /// The JSON array of `items`.
    pub fn array(items: Vec<Json>) -> (json: Json)
        ensures
            json@ == JsonView::Array(views(items@)),
            (forall|i: int| 0 <= i < items@.len() ==> float_free(#[trigger] items@[i]))
                ==> float_free(json),
    {
        let json = Json::Array(items);
        proof {
            assert(json@->Array_0 =~= views(items@));
        }
        json
    }

    /// The JSON array without items.
    pub fn empty_array() -> (json: Json)
        ensures
            json@ == JsonView::Array(Seq::empty()),
            float_free(json),
    {
        let json = Json::Array(Vec::new());
        proof {
            assert(json@->Array_0 =~= Seq::empty());
        }
        json
    }

    /// The JSON array of one item.
    pub fn array_of_one(item: Json) -> (json: Json)
        ensures
            json@ == JsonView::Array(seq![item@]),
            float_free(item) ==> float_free(json),
    {
        let mut items: Vec<Json> = Vec::new();
        items.push(item);
        let json = Json::Array(items);
        proof {
            assert(json@->Array_0 =~= seq![item@]);
        }
        json
    }
}

/// The JSON number `n`.
pub open spec fn integer_view(n: int) -> JsonView {
    if n >= 0 {
        JsonView::Number(JsonNumber::Unsigned(n as u64))
    } else {
        JsonView::Number(JsonNumber::Negative(n as i64))
    }
}

proof fn lemma_members_same(a: Vec<(String, Json)>, b: Vec<(String, Json)>, n: nat)
    requires
        n <= a@.len(),
        a@.len() == b@.len(),
        forall|i: int|
            0 <= i < a@.len() ==> (#[trigger] a@[i]).0@ == b@[i].0@ && a@[i].1@ == b@[i].1@,
    ensures
        members(a, n) == members(b, n),
    decreases n,
{
    if n > 0 {
        lemma_members_same(a, b, (n - 1) as nat);
        assert(a@[n - 1].0@ == b@[n - 1].0@);
    }
}

proof fn lemma_part_of_array(json: Json, i: int)
    requires
        json is Array,
        0 <= i < json->Array_0@.len(),
    ensures
        decreases_to!(json => json->Array_0@[i]),
{
    let items = json->Array_0;
    assert(decreases_to!(json => items));
    assert(decreases_to!(items => items[i]));
}

proof fn lemma_part_of_object(json: Json, i: int)
    requires
        json is Object,
        0 <= i < json->Object_0@.len(),
    ensures
        decreases_to!(json => json->Object_0@[i].1),
{
    let entries = json->Object_0;
    assert(decreases_to!(json => entries));
    assert(decreases_to!(entries => entries[i]));
}

impl Json {
    /// A copy of the document.
    pub fn copy(&self) -> (json: Json)
        ensures
            json@ == self@,
        decreases self,
    {
        match self {
            Json::Null => Json::Null,
            Json::Bool(flag) => Json::Bool(*flag),
            Json::Number(number) => Json::Number(*number),
            Json::Text(text) => Json::Text(text.clone()),
            Json::Array(items) => {
                let mut list: Vec<Json> = Vec::new();
                let mut i: usize = 0;
                while i < items.len()
                    invariant
                        i <= items@.len(),
                        *self == Json::Array(*items),
                        list@.len() == i,
                        forall|j: int| 0 <= j < i ==> (#[trigger] list@[j])@ == items@[j]@,
                    decreases items@.len() - i,
                {
                    proof {
                        lemma_part_of_array(*self, i as int);
                    }
                    list.push(items[i].copy());
                    i = i + 1;
                }
                let json = Json::Array(list);
                proof {
                    assert(json@->Array_0 =~= self@->Array_0);
                }
                json
            },
            Json::Object(entries) => {
                let mut list: Vec<(String, Json)> = Vec::new();
                let mut i: usize = 0;
                while i < entries.len()
                    invariant
                        i <= entries@.len(),
                        *self == Json::Object(*entries),
                        list@.len() == i,
                        forall|j: int|
                            0 <= j < i ==> (#[trigger] list@[j]).0@ == entries@[j].0@ && list@[j].1@
                                == entries@[j].1@,
                    decreases entries@.len() - i,
                {
                    proof {
                        lemma_part_of_object(*self, i as int);
                    }
                    let entry = &entries[i];
                    list.push((entry.0.clone(), entry.1.copy()));
                    i = i + 1;
                }
                proof {
                    lemma_members_same(list, *entries, entries@.len());
                }
                Json::Object(list)
            },
        }
    }

    /// A copy of several documents.
    pub fn copy_all(items: &Vec<Json>) -> (copies: Vec<Json>)
        ensures
            views(copies@) == views(items@),
    {
        let mut copies: Vec<Json> = Vec::new();
        let mut i: usize = 0;
        while i < items.len()
            invariant
                i <= items@.len(),
                copies@.len() == i,
                forall|j: int| 0 <= j < i ==> (#[trigger] copies@[j])@ == items@[j]@,
            decreases items@.len() - i,
        {
            copies.push(items[i].copy());
            i = i + 1;
        }
        proof {
            assert(views(copies@) =~= views(items@));
        }
        copies
    }
}

} // verus!
