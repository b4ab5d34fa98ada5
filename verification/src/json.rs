//! JSON values.

use vstd::prelude::*;

use crate::text::same_text;
use crate::views::{ok_of, result_view};

verus! {

/// A JSON value. A number is kept as text.
#[derive(Debug)]
pub enum Json {
    Null,
    Bool(bool),
    Number(String),
    Text(String),
    List(Vec<Json>),
    Object(Vec<(String, Json)>),
}

/// A JSON value, with its texts as characters.
pub enum JsonView {
    Null,
    Bool(bool),
    Number(Seq<char>),
    Text(Seq<char>),
    List(Seq<JsonView>),
    Object(Seq<(Seq<char>, JsonView)>),
}

/// What a JSON value holds.
pub open spec fn json_view(json: Json) -> JsonView
    decreases json,
{
    match json {
        Json::Null => JsonView::Null,
        Json::Bool(b) => JsonView::Bool(b),
        Json::Number(n) => JsonView::Number(n@),
        Json::Text(t) => JsonView::Text(t@),
        Json::List(items) => JsonView::List(
            Seq::new(
                items@.len(),
                |i: int|
                    if 0 <= i < items@.len() {
                        json_view(items@[i])
                    } else {
                        JsonView::Null
                    },
            ),
        ),
        Json::Object(members) => JsonView::Object(
            Seq::new(
                members@.len(),
                |i: int|
                    if 0 <= i < members@.len() {
                        (members@[i].0@, json_view(members@[i].1))
                    } else {
                        (seq![], JsonView::Null)
                    },
            ),
        ),
    }
}

impl View for Json {
    type V = JsonView;

    open spec fn view(&self) -> JsonView {
        json_view(*self)
    }
}

/// What a text holds as JSON, or what is said about it if it is not JSON: the result of
/// `serde_json::from_str`.
pub uninterp spec fn json_of(text: Seq<char>) -> Result<JsonView, Seq<char>>;

/// What a parsed JSON value holds.
pub uninterp spec fn json_contents(value: serde_json::Value) -> JsonView;

/// A JSON value of `serde_json`.
#[verifier::external_type_specification]
#[verifier::external_body]
pub struct ExValue(serde_json::Value);

/// `serde_json::from_str`: it gives a value if and only if the text is JSON that `serde_json`
/// accepts, and else an error, here as its text. What the value holds, or what the error says,
/// depends on the text alone.
#[verifier::external_body]
fn parse_value(text: &str) -> (r: Result<serde_json::Value, String>)
    ensures
        json_of(text@) == match r {
            Ok(value) => Ok(json_contents(value)),
            Err(cause) => Err(cause@),
        },
{
    match serde_json::from_str::<serde_json::Value>(text) {
        Ok(value) => Ok(value),
        Err(error) => Err(error.to_string()),
    }
}

/// The variants of `serde_json::Value`, taken over one by one with all that they hold.
#[verifier::external_body]
fn plain_value(value: serde_json::Value) -> (r: Json)
    ensures
        r@ == json_contents(value),
{
    match value {
        serde_json::Value::Null => Json::Null,
        serde_json::Value::Bool(b) => Json::Bool(b),
        serde_json::Value::Number(n) => Json::Number(n.to_string()),
        serde_json::Value::String(t) => Json::Text(t),
        serde_json::Value::Array(items) => Json::List(items.into_iter().map(plain_value).collect()),
        serde_json::Value::Object(members) => Json::Object(
            members.into_iter().map(|(k, v)| (k, plain_value(v))).collect(),
        ),
    }
}

/// The view of a JSON value that may be missing.
pub open spec fn json_opt(value: Option<Json>) -> Option<JsonView> {
    match value {
        Some(json) => Some(json@),
        None => None,
    }
}

/// Reads a text as JSON; the error says what is wrong with it.
pub fn parse_json(text: &str) -> (r: Result<Json, String>)
    ensures
        result_view(r) == json_of(text@),
{
    match parse_value(text) {
        Ok(value) => Ok(plain_value(value)),
        Err(cause) => Err(cause),
    }
}

/// Reads a text as JSON, if it is JSON.
pub fn parse_json_if(text: &str) -> (r: Option<Json>)
    ensures
        json_opt(r) == ok_of(json_of(text@)),
{
    match parse_json(text) {
        Ok(json) => Some(json),
        Err(_) => None,
    }
}

/// The value of the first member called `key`.
pub open spec fn find_member(members: Seq<(Seq<char>, JsonView)>, key: Seq<char>) -> Option<
    JsonView,
>
    decreases members.len(),
{
    if members.len() == 0 {
        None
    } else if members[0].0 == key {
        Some(members[0].1)
    } else {
        find_member(members.skip(1), key)
    }
}

impl JsonView {
    /// The value of the member called `key`; only an object has members.
    pub open spec fn member(self, key: Seq<char>) -> Option<JsonView> {
        match self {
            JsonView::Object(members) => find_member(members, key),
            _ => None,
        }
    }

    /// The text, if the value is one.
    pub open spec fn text(self) -> Option<Seq<char>> {
        match self {
            JsonView::Text(t) => Some(t),
            _ => None,
        }
    }

    /// The text of the member called `key`, if it has one that is a text.
    pub open spec fn text_at(self, key: Seq<char>) -> Option<Seq<char>> {
        match self.member(key) {
            Some(value) => value.text(),
            None => None,
        }
    }
}

proof fn lemma_object_view(members: Vec<(String, Json)>)
    ensures
        Json::Object(members)@ is Object,
        Json::Object(members)@->Object_0.len() == members@.len(),
        forall|k: int|
            0 <= k < members@.len() ==> #[trigger] Json::Object(members)@->Object_0[k] == (
                members@[k].0@,
                members@[k].1@,
            ),
{
}

impl Json {
    /// The value of the member called `key`.
    pub fn get(&self, key: &str) -> (r: Option<&Json>)
        ensures
            (match r {
                Some(value) => Some(value@),
                None => None,
            }) == self@.member(key@),
    {
        if let Json::Object(members) = self {
            let ghost all = self@->Object_0;
            let mut i: usize = 0;
            proof {
                lemma_object_view(*members);
                assert(all.skip(0) =~= all);
            }
            while i < members.len()
                invariant
                    i <= members@.len(),
                    all.len() == members@.len(),
                    forall|k: int|
                        0 <= k < members@.len() ==> #[trigger] all[k] == (
                            members@[k].0@,
                            members@[k].1@,
                        ),
                    self@ == JsonView::Object(all),
                    find_member(all, key@) == find_member(all.skip(i as int), key@),
                decreases members@.len() - i,
            {
                assert(all.skip(i as int)[0] == all[i as int]);
                assert(all.skip(i as int).skip(1) =~= all.skip(i + 1));
                if same_text(members[i].0.as_str(), key) {
                    return Some(&members[i].1);
                }
                i += 1;
            }
            None
        } else {
            None
        }
    }

    /// The text, if the value is one.
    pub fn as_str(&self) -> (r: Option<&str>)
        ensures
            (match r {
                Some(text) => Some(text@),
                None => None,
            }) == self@.text(),
    {
        match self {
            Json::Text(t) => Some(t.as_str()),
            _ => None,
        }
    }

    /// The text of the member called `key`.
    pub fn text_at(&self, key: &str) -> (r: Option<String>)
        ensures
            (match r {
                Some(text) => Some(text@),
                None => None,
            }) == self@.text_at(key@),
    {
        match self.get(key) {
            Some(value) => match value.as_str() {
                Some(text) => Some(text.to_string()),
                None => None,
            },
            None => None,
        }
    }
}

/// Whether a value is an object whose first member called `key` is exactly this.
pub open spec fn holds(json: JsonView, key: Seq<char>, value: JsonView) -> bool {
    &&& json matches JsonView::Object(members)
    &&& exists|i: int|
        0 <= i < members.len() && #[trigger] members[i] == (key, value) && (forall|j: int|
            0 <= j < i ==> (#[trigger] members[j]).0 != key)
}

/// Whether a value is no object, or an object without a member called `key`.
pub open spec fn lacks(json: JsonView, key: Seq<char>) -> bool {
    json matches JsonView::Object(members) ==> forall|j: int|
        0 <= j < members.len() ==> (#[trigger] members[j]).0 != key
}

proof fn lemma_find_member(members: Seq<(Seq<char>, JsonView)>, key: Seq<char>, i: int)
    requires
        0 <= i <= members.len(),
        i < members.len() ==> members[i].0 == key,
        forall|j: int| 0 <= j < i ==> (#[trigger] members[j]).0 != key,
    ensures
        find_member(members, key) == if i < members.len() {
            Some(members[i].1)
        } else {
            None
        },
    decreases members.len(),
{
    if members.len() > 0 && i > 0 {
        assert(members[0].0 != key);
        let rest = members.skip(1);
        assert forall|j: int| 0 <= j < i - 1 implies (#[trigger] rest[j]).0 != key by {
            assert(rest[j] == members[j + 1]);
        }
        lemma_find_member(rest, key, i - 1);
    }
}

/// The member called `key` is the first one of that name, with exactly the value that it has
/// there; of a value that has none there is none.
pub proof fn law_member_is_the_first_of_its_name(json: JsonView, key: Seq<char>, value: JsonView)
    ensures
        holds(json, key, value) ==> json.member(key) == Some(value),
        lacks(json, key) ==> json.member(key) is None,
{
    if let JsonView::Object(members) = json {
        if holds(json, key, value) {
            let i = choose|i: int|
                0 <= i < members.len() && #[trigger] members[i] == (key, value) && (forall|j: int|
                    0 <= j < i ==> (#[trigger] members[j]).0 != key);
            lemma_find_member(members, key, i);
        }
        if lacks(json, key) {
            lemma_find_member(members, key, members.len() as int);
        }
    }
}

/// The text of a member is exactly the text that stands there, and a member that is no text has
/// none.
pub proof fn law_text_of_a_member(json: JsonView, key: Seq<char>, value: JsonView)
    requires
        holds(json, key, value),
    ensures
        value matches JsonView::Text(text) ==> json.text_at(key) == Some(text),
        !(value is Text) ==> json.text_at(key) is None,
{
    law_member_is_the_first_of_its_name(json, key, value);
}

} // verus!
