//! JSON documents as plain values, and the two calls into `serde_json`
//! that turn text into a document and a document into text.

use crate::text::{chars_of, text_is};
use serde_json::Value;
use vstd::prelude::*;

verus! {

/// A JSON document held as plain values.
///
/// An integer is `PosInt` or `NegInt`, as the parser tells them apart; a
/// number that is no integer is `Float`, and its value is not kept.
#[derive(Debug)]
pub enum Json {
    Null,
    Bool(bool),
    PosInt(u64),
    NegInt(i64),
    Float,
    Str(String),
    Array(Vec<Json>),
    Object(Vec<(String, Json)>),
}

/// The mathematical reading of a [`Json`] value: an integer is its value,
/// a string its characters, an object its members in order.
pub enum JsonView {
    Null,
    Bool(bool),
    Int(int),
    Float,
    Str(Seq<char>),
    Array(Seq<JsonView>),
    Object(Seq<(Seq<char>, JsonView)>),
}

impl View for Json {
    type V = JsonView;

    /// The reading of a document. An array reads as [`views_of`] its
    /// elements and an object as the [`member_views`] of its members; the
    /// bounds below are there for the sake of termination.
    open spec fn view(&self) -> JsonView
        decreases self,
    {
        match self {
            Json::Null => JsonView::Null,
            Json::Bool(b) => JsonView::Bool(*b),
            Json::PosInt(u) => JsonView::Int(*u as int),
            Json::NegInt(i) => JsonView::Int(*i as int),
            Json::Float => JsonView::Float,
            Json::Str(s) => JsonView::Str(s@),
            Json::Array(items) => JsonView::Array(
                Seq::new(
                    items@.len(),
                    |i: int|
                        if 0 <= i < items@.len() {
                            items@[i]@
                        } else {
                            JsonView::Null
                        },
                ),
            ),
            Json::Object(members) => JsonView::Object(
                Seq::new(
                    members@.len(),
                    |i: int|
                        (
                            members@[i].0@,
                            if 0 <= i < members@.len() {
                                members@[i].1@
                            } else {
                                JsonView::Null
                            },
                        ),
                ),
            ),
        }
    }
}

/// The readings of a sequence of documents.
pub open spec fn views_of(items: Seq<Json>) -> Seq<JsonView> {
    Seq::new(items.len(), |i: int| items[i]@)
}

/// The readings of a sequence of object members.
pub open spec fn member_views(members: Seq<(String, Json)>) -> Seq<(Seq<char>, JsonView)> {
    Seq::new(members.len(), |i: int| (members[i].0@, members[i].1@))
}

/// The value of the first member named `name` at or after position `from`.
pub open spec fn first_named(members: Seq<(Seq<char>, JsonView)>, name: Seq<char>, from: int) -> Option<
    JsonView,
>
    decreases members.len() - from,
{
    if from < 0 || from >= members.len() {
        None
    } else if members[from].0 == name {
        Some(members[from].1)
    } else {
        first_named(members, name, from + 1)
    }
}

impl JsonView {
    /// The value of the member named `name`, where this is an object that
    /// has one. Of several members of that name the first counts.
    pub open spec fn field(self, name: Seq<char>) -> Option<JsonView> {
        match self {
            JsonView::Object(members) => first_named(members, name, 0),
            _ => None,
        }
    }

    /// The integer, where this is one within `lo..=hi`.
    pub open spec fn int_within(self, lo: int, hi: int) -> Option<int> {
        match self {
            JsonView::Int(v) => if lo <= v <= hi {
                Some(v)
            } else {
                None
            },
            _ => None,
        }
    }

    /// The characters, where this is a string.
    pub open spec fn text(self) -> Option<Seq<char>> {
        match self {
            JsonView::Str(s) => Some(s),
            _ => None,
        }
    }

    /// The elements, where this is an array.
    pub open spec fn elements(self) -> Option<Seq<JsonView>> {
        match self {
            JsonView::Array(items) => Some(items),
            _ => None,
        }
    }
}

/// An array reads as the readings of its elements.
pub proof fn lemma_array_view(items: Vec<Json>)
    ensures
        Json::Array(items)@ == JsonView::Array(views_of(items@)),
{
    assert(Json::Array(items)@->Array_0 =~= views_of(items@));
}

/// An object reads as the readings of its members.
pub proof fn lemma_object_view(members: Vec<(String, Json)>)
    ensures
        Json::Object(members)@ == JsonView::Object(member_views(members@)),
{
    assert(Json::Object(members)@->Object_0 =~~= member_views(members@));
}

impl Json {
    /// The member named `name` of an object.
    pub fn get(&self, name: &str) -> (r: Option<&Json>)
        ensures
            match r {
                Some(found) => self@.field(name@) == Some(found@),
                None => self@.field(name@) is None,
            },
    {
        match self {
            Json::Object(members) => {
                proof {
                    lemma_object_view(*members);
                }
                let wanted = chars_of(name);
                let ghost all = member_views(members@);
                let mut i: usize = 0;
                while i < members.len()
                    invariant
                        i <= members@.len(),
                        all == member_views(members@),
                        self@ == JsonView::Object(all),
                        wanted@ == name@,
                        first_named(all, name@, 0) == first_named(all, name@, i as int),
                    decreases members@.len() - i,
                {
                    if text_is(members[i].0.as_str(), &wanted) {
                        return Some(&members[i].1);
                    }
                    i += 1;
                }
                None
            },
            _ => None,
        }
    }

    /// The number as an `i32`, where it is an integer that fits.
    pub fn as_i32(&self) -> (r: Option<i32>)
        ensures
            match r {
                Some(v) => self@.int_within(i32::MIN as int, i32::MAX as int) == Some(v as int),
                None => self@.int_within(i32::MIN as int, i32::MAX as int) is None,
            },
    {
        match self {
            Json::PosInt(u) => if *u <= 0x7fff_ffff {
                Some(*u as i32)
            } else {
                None
            },
            Json::NegInt(i) => if -0x8000_0000 <= *i && *i <= 0x7fff_ffff {
                Some(*i as i32)
            } else {
                None
            },
            _ => None,
        }
    }

    /// The number as a `u64`, where it is an integer that fits.
    pub fn as_u64(&self) -> (r: Option<u64>)
        ensures
            match r {
                Some(v) => self@.int_within(0, u64::MAX as int) == Some(v as int),
                None => self@.int_within(0, u64::MAX as int) is None,
            },
    {
        match self {
            Json::PosInt(u) => Some(*u),
            Json::NegInt(i) => if *i >= 0 {
                Some(*i as u64)
            } else {
                None
            },
            _ => None,
        }
    }

    /// The characters of a string.
    pub fn as_text(&self) -> (r: Option<&str>)
        ensures
            match r {
                Some(s) => self@.text() == Some(s@),
                None => self@.text() is None,
            },
    {
        match self {
            Json::Str(s) => Some(s.as_str()),
            _ => None,
        }
    }

    /// The elements of an array.
    pub fn elements(&self) -> (r: Option<&Vec<Json>>)
        ensures
            match r {
                Some(items) => self@.elements() == Some(views_of(items@)),
                None => self@.elements() is None,
            },
    {
        match self {
            Json::Array(items) => {
                proof {
                    lemma_array_view(*items);
                }
                Some(items)
            },
            _ => None,
        }
    }

    /// Whether this is `null`.
    pub fn is_null(&self) -> (r: bool)
        ensures
            r == (self@ == JsonView::Null),
    {
        match self {
            Json::Null => true,
            _ => false,
        }
    }

    /// The integer `v` as a document.
    pub fn from_i64(v: i64) -> (r: Json)
        ensures
            r@ == JsonView::Int(v as int),
    {
        if v < 0 {
            Json::NegInt(v)
        } else {
            Json::PosInt(v as u64)
        }
    }
}

/// The document that a text holds, or `None` where the text is not one JSON
/// document.
pub uninterp spec fn json_parse(text: Seq<char>) -> Option<JsonView>;

/// The text that a document is written as, or `None` where it cannot be
/// written.
pub uninterp spec fn json_render(doc: JsonView) -> Option<Seq<char>>;

/// `serde_json::Value`, the parser's own tree: carried between the parser
/// and the conversions below, never read by verified code.
#[verifier::external_type_specification]
#[verifier::external_body]
pub struct ExValue(serde_json::Value);

/// Carries a `serde_json::Value` over into a [`Json`], variant by variant.
/// A number is `PosInt` where `Number::as_u64` gives its value, `NegInt`
/// where only `Number::as_i64` does, and `Float` where neither does.
#[verifier::external_body]
fn json_of_value(value: Value) -> Json {
    match value {
        Value::Null => Json::Null,
        Value::Bool(b) => Json::Bool(b),
        Value::Number(n) => match (n.as_u64(), n.as_i64()) {
            (Some(u), _) => Json::PosInt(u),
            (None, Some(i)) => Json::NegInt(i),
            (None, None) => Json::Float,
        },
        Value::String(s) => Json::Str(s),
        Value::Array(items) => Json::Array(items.into_iter().map(json_of_value).collect()),
        Value::Object(members) => Json::Object(
            members.into_iter().map(|(k, v)| (k, json_of_value(v))).collect(),
        ),
    }
}

/// Carries a [`Json`] over into a `serde_json::Value`, variant by variant.
/// There is none for a document that holds a `Float`.
#[verifier::external_body]
fn value_of_json(doc: &Json) -> Option<Value> {
    Some(match doc {
        Json::Null => Value::Null,
        Json::Bool(b) => Value::Bool(*b),
        Json::PosInt(u) => Value::from(*u),
        Json::NegInt(i) => Value::from(*i),
        Json::Float => return None,
        Json::Str(s) => Value::String(s.clone()),
        Json::Array(items) => Value::Array(items.iter().map(value_of_json).collect::<Option<_>>()?),
        Json::Object(members) => Value::Object(
            members.iter().map(|(k, v)| Some((k.clone(), value_of_json(v)?))).collect::<Option<_>>()?,
        ),
    })
}

/// `serde_json::from_str` at `serde_json::Value`: reads one JSON document
/// from a text. What it reads is named [`json_parse`]; nothing more is
/// claimed of it.
#[verifier::external_body]
pub(crate) fn parse_json(text: &str) -> (r: Option<Json>)
    ensures
        match r {
            Some(doc) => json_parse(text@) == Some(doc@),
            None => json_parse(text@) is None,
        },
{
    match serde_json::from_str::<Value>(text) {
        Ok(value) => Some(json_of_value(value)),
        Err(_) => None,
    }
}

/// `serde_json::to_string_pretty` on a `serde_json::Value`: writes a
/// document as indented text. What it writes is named [`json_render`];
/// nothing more is claimed of it.
#[verifier::external_body]
pub(crate) fn render_json(doc: &Json) -> (r: Option<String>)
    ensures
        match r {
            Some(text) => json_render(doc@) == Some(text@),
            None => json_render(doc@) is None,
        },
{
    serde_json::to_string_pretty(&value_of_json(doc)?).ok()
}

} // verus!
