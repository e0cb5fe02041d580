//! JSON documents as the decoders read them.
//!
//! The server frames its answers as JSON. `serde_json` parses them; the
//! decoders read the parsed document through `JsonValue`, which keeps of a
//! document what they look at.

use vstd::prelude::*;

verus! {

/// A JSON document, as mathematics sees it.
///
/// Of a number it keeps the unsigned 64-bit integer that it is, if it is one.
/// An object is the sequence of its members, each a key with its value.
pub enum JsonModel {
    Null,
    Bool(bool),
    Number(Option<u64>),
    Text(Seq<char>),
    Array(Seq<JsonModel>),
    Object(Seq<(Seq<char>, JsonModel)>),
}

/// The value of the first member with the given key.
pub open spec fn member(members: Seq<(Seq<char>, JsonModel)>, key: Seq<char>) -> Option<JsonModel>
    decreases members.len(),
{
    if members.len() == 0 {
        None
    } else if members[0].0 == key {
        Some(members[0].1)
    } else {
        member(members.drop_first(), key)
    }
}

/// The items that are unsigned 64-bit integers, in order; the others are left out.
pub open spec fn unsigned_items(items: Seq<JsonModel>) -> Seq<u64>
    decreases items.len(),
{
    if items.len() == 0 {
        Seq::empty()
    } else {
        match items.last().as_u64() {
            Some(number) => unsigned_items(items.drop_last()).push(number),
            None => unsigned_items(items.drop_last()),
        }
    }
}

/// Whether every item is an unsigned 64-bit integer.
pub open spec fn all_unsigned(items: Seq<JsonModel>) -> bool {
    forall|i: int| 0 <= i < items.len() ==> (#[trigger] items[i]).as_u64() is Some
}

/// Of an array of unsigned integers nothing is left out: `unsigned_items` are
/// its numbers, one for one.
pub proof fn lemma_unsigned_items_of_numbers(items: Seq<JsonModel>)
    requires
        all_unsigned(items),
    ensures
        unsigned_items(items).len() == items.len(),
        forall|i: int|
            0 <= i < items.len() ==> (#[trigger] unsigned_items(items)[i]) == items[i].as_u64()->0,
    decreases items.len(),
{
    if items.len() > 0 {
        let front = items.drop_last();
        assert(all_unsigned(front)) by {
            assert forall|i: int| 0 <= i < front.len() implies (#[trigger] front[i]).as_u64()
                is Some by {
                assert(front[i] == items[i]);
            }
        }
        lemma_unsigned_items_of_numbers(front);
        assert(items.last() == items[items.len() - 1]);
        assert forall|i: int| 0 <= i < items.len() implies (#[trigger] unsigned_items(items)[i])
            == items[i].as_u64()->0 by {
            if i < front.len() {
                assert(front[i] == items[i]);
            }
        }
    }
}

impl JsonModel {
    /// The member of an object under `key`; `None` for a missing key and for
    /// what is no object.
    pub open spec fn get(self, key: Seq<char>) -> Option<JsonModel> {
        match self {
            JsonModel::Object(members) => member(members, key),
            _ => None,
        }
    }

    /// The truth value, if the document is one.
    pub open spec fn as_bool(self) -> Option<bool> {
        match self {
            JsonModel::Bool(flag) => Some(flag),
            _ => None,
        }
    }

    /// The number as an unsigned 64-bit integer, if the document is one.
    pub open spec fn as_u64(self) -> Option<u64> {
        match self {
            JsonModel::Number(number) => number,
            _ => None,
        }
    }

    /// The text, if the document is a string.
    pub open spec fn as_text(self) -> Option<Seq<char>> {
        match self {
            JsonModel::Text(text) => Some(text),
            _ => None,
        }
    }

    /// The items, if the document is an array.
    pub open spec fn as_array(self) -> Option<Seq<JsonModel>> {
        match self {
            JsonModel::Array(items) => Some(items),
            _ => None,
        }
    }

    /// The truth value under `key`, if the member is there and is one.
    pub open spec fn bool_at(self, key: Seq<char>) -> Option<bool> {
        match self.get(key) {
            Some(found) => found.as_bool(),
            None => None,
        }
    }

    /// The unsigned integer under `key`, if the member is there and is one.
    pub open spec fn u64_at(self, key: Seq<char>) -> Option<u64> {
        match self.get(key) {
            Some(found) => found.as_u64(),
            None => None,
        }
    }

    /// The text under `key`, if the member is there and is a string.
    pub open spec fn text_at(self, key: Seq<char>) -> Option<Seq<char>> {
        match self.get(key) {
            Some(found) => found.as_text(),
            None => None,
        }
    }
}

/// A parsed JSON document.
#[derive(Debug, PartialEq, Eq)]
pub enum JsonValue {
    Null,
    Bool(bool),
    /// A number: the unsigned 64-bit integer that it is, if it is one.
    Number(Option<u64>),
    Text(String),
    Array(Vec<JsonValue>),
    /// An object: its members in the parser's order.
    Object(Vec<(String, JsonValue)>),
}

impl JsonValue {
    /// The document that this value holds.
    pub open spec fn model(self) -> JsonModel
        decreases self, 0nat,
    {
        match self {
            JsonValue::Null => JsonModel::Null,
            JsonValue::Bool(flag) => JsonModel::Bool(flag),
            JsonValue::Number(number) => JsonModel::Number(number),
            JsonValue::Text(text) => JsonModel::Text(text@),
            JsonValue::Array(items) => JsonModel::Array(item_views(items, items@.len())),
            JsonValue::Object(members) => JsonModel::Object(
                member_views(members, members@.len()),
            ),
        }
    }
}

impl View for JsonValue {
    type V = JsonModel;

    open spec fn view(&self) -> JsonModel {
        self.model()
    }
}

/// The views of the first `count` items.
pub open spec fn item_views(items: Vec<JsonValue>, count: nat) -> Seq<JsonModel>
    decreases items, count,
{
    if count == 0 || count > items@.len() {
        Seq::empty()
    } else {
        item_views(items, (count - 1) as nat).push(items@[count - 1].model())
    }
}

/// The views of the first `count` members, each with its key.
pub open spec fn member_views(members: Vec<(String, JsonValue)>, count: nat) -> Seq<
    (Seq<char>, JsonModel),
>
    decreases members, count,
{
    if count == 0 || count > members@.len() {
        Seq::empty()
    } else {
        member_views(members, (count - 1) as nat).push(
            (members@[count - 1].0@, members@[count - 1].1.model()),
        )
    }
}

/// What `serde_json::from_str` makes of a text: the document that it parses
/// as a `serde_json::Value`, or the `Debug` form of the error that it reports.
///
/// The document is carried over variant by variant. A number is kept as what
/// `serde_json::Number::as_u64` says of it, and an object as its members in
/// the order in which `serde_json::Map` hands them out.
pub uninterp spec fn json_parse(text: Seq<char>) -> Result<JsonModel, Seq<char>>;

/// The model of the outcome of parsing.
pub open spec fn parsed_view(parsed: Result<JsonValue, String>) -> Result<JsonModel, Seq<char>> {
    match parsed {
        Ok(document) => Ok(document@),
        Err(description) => Err(description@),
    }
}

/// Declares `serde_json::Value`, the parser's own document type, as an opaque type.
#[verifier::external_type_specification]
#[verifier::external_body]
pub struct ExSerdeValue(serde_json::Value);

/// Carries a `serde_json::Value` over into a `JsonValue`, variant by variant.
///
/// A number becomes what `serde_json::Number::as_u64` says of it, and an
/// object its members in the order of `serde_json::Map::into_iter`. Nothing is
/// claimed of the result here; `parse_document`, which alone calls this, names
/// the outcome of parsing and carrying over.
#[verifier::external_body]
fn carry_over(value: serde_json::Value) -> JsonValue {
    match value {
        serde_json::Value::Null => JsonValue::Null,
        serde_json::Value::Bool(flag) => JsonValue::Bool(flag),
        serde_json::Value::Number(number) => JsonValue::Number(number.as_u64()),
        serde_json::Value::String(text) => JsonValue::Text(text),
        serde_json::Value::Array(items) => JsonValue::Array(
            items.into_iter().map(carry_over).collect(),
        ),
        serde_json::Value::Object(members) => JsonValue::Object(
            members.into_iter().map(|(key, item)| (key, carry_over(item))).collect(),
        ),
    }
}

/// Parses a text with `serde_json::from_str` into a `serde_json::Value` and
/// carries the document over.
///
/// Claims that the outcome depends on the text alone: the document, or the
/// `Debug` form of the error, is `json_parse` of the text.
#[verifier::external_body]
pub(crate) fn parse_document(text: &str) -> (parsed: Result<JsonValue, String>)
    ensures
        parsed_view(parsed) == json_parse(text@),
{
    match serde_json::from_str::<serde_json::Value>(text) {
        Ok(value) => Ok(carry_over(value)),
        Err(error) => Err(format!("{:?}", error)),
    }
}

/// The views of the first `count` members are `count` many, the views of
/// those members in order.
pub proof fn lemma_member_views(members: Vec<(String, JsonValue)>, count: nat)
    requires
        count <= members@.len(),
    ensures
        member_views(members, count).len() == count,
        forall|i: int|
            0 <= i < count ==> #[trigger] member_views(members, count)[i] == (
                members@[i].0@,
                members@[i].1@,
            ),
    decreases count,
{
    if count > 0 {
        lemma_member_views(members, (count - 1) as nat);
    }
}

/// The views of the first `count` items are `count` many, the views of those
/// items in order.
pub proof fn lemma_item_views(items: Vec<JsonValue>, count: nat)
    requires
        count <= items@.len(),
    ensures
        item_views(items, count).len() == count,
        forall|i: int| 0 <= i < count ==> #[trigger] item_views(items, count)[i] == items@[i]@,
    decreases count,
{
    if count > 0 {
        lemma_item_views(items, (count - 1) as nat);
    }
}

impl JsonValue {
    /// The member of an object under `key`.
    pub fn get(&self, key: &str) -> (found: Option<&JsonValue>)
        ensures
            match found {
                Some(value) => self@.get(key@) == Some(value@),
                None => self@.get(key@) is None,
            },
    {
        match self {
            JsonValue::Object(members) => {
                let ghost all = self@->Object_0;
                let wanted = key.to_owned();
                let mut at: usize = 0;
                proof {
                    lemma_member_views(*members, members@.len());
                    assert(all.skip(0) == all);
                }
                while at < members.len()
                    invariant
                        at <= members.len(),
                        self@ == JsonModel::Object(all),
                        all.len() == members@.len(),
                        forall|i: int|
                            0 <= i < all.len() ==> all[i] == (members@[i].0@, members@[i].1@),
                        member(all, key@) == member(all.skip(at as int), key@),
                        wanted@ == key@,
                    decreases members.len() - at,
                {
                    let ghost rest = all.skip(at as int);
                    proof {
                        assert(rest[0] == all[at as int]);
                        assert(rest.drop_first() == all.skip(at + 1));
                    }
                    if members[at].0 == wanted {
                        return Some(&members[at].1);
                    }
                    at += 1;
                }
                proof {
                    assert(all.skip(at as int).len() == 0);
                }
                None
            },
            _ => None,
        }
    }

    /// The truth value, if the document is one.
    pub fn as_bool(&self) -> (r: Option<bool>)
        ensures
            r == self@.as_bool(),
    {
        match self {
            JsonValue::Bool(flag) => Some(*flag),
            _ => None,
        }
    }

    /// The number as an unsigned 64-bit integer, if the document is one.
    pub fn as_u64(&self) -> (r: Option<u64>)
        ensures
            r == self@.as_u64(),
    {
        match self {
            JsonValue::Number(number) => *number,
            _ => None,
        }
    }

    /// The text, if the document is a string.
    pub fn as_str(&self) -> (r: Option<&str>)
        ensures
            match r {
                Some(text) => self@.as_text() == Some(text@),
                None => self@.as_text() is None,
            },
    {
        match self {
            JsonValue::Text(text) => Some(text.as_str()),
            _ => None,
        }
    }

    /// The items, if the document is an array.
    pub fn as_array(&self) -> (r: Option<&Vec<JsonValue>>)
        ensures
            match r {
                Some(items) => self@ == JsonModel::Array(items@.map_values(|item: JsonValue| item@)),
                None => self@.as_array() is None,
            },
    {
        match self {
            JsonValue::Array(items) => {
                proof {
                    lemma_item_views(*items, items@.len());
                    assert(self@->Array_0 =~= items@.map_values(|item: JsonValue| item@));
                }
                Some(items)
            },
            _ => None,
        }
    }
}

} // verus!
