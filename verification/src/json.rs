//! JSON documents as trees of plain values.
//!
//! Parsing is left to `serde_json`. What it returns is copied, node for
//! node, into a [`Json`], so that everything after parsing works on a type
//! that can be reasoned about. Writing a string with its escapes is left to
//! `serde_json` too.

use vstd::prelude::*;

verus! {

/// A JSON document.
#[derive(Debug, PartialEq, Eq)]
pub enum Json {
    Null,
    Bool(bool),
    /// A number, in the decimal notation in which `serde_json` prints it.
    Number(String),
    Text(String),
    Array(Vec<Json>),
    /// The members of an object. In a document that was parsed each key
    /// occurs once, and the members stand in the order in which
    /// `serde_json` yields them.
    Object(Vec<(String, Json)>),
}

/// [`Json`] as a mathematical value.
pub enum JsonValue {
    Null,
    Bool(bool),
    Number(Seq<char>),
    Text(Seq<char>),
    Array(Seq<JsonValue>),
    Object(Seq<(Seq<char>, JsonValue)>),
}

impl View for Json {
    type V = JsonValue;

    open spec fn view(&self) -> JsonValue
        decreases self,
    {
        match self {
            Json::Null => JsonValue::Null,
            Json::Bool(b) => JsonValue::Bool(*b),
            Json::Number(n) => JsonValue::Number(n@),
            Json::Text(t) => JsonValue::Text(t@),
            Json::Array(items) => JsonValue::Array(item_views(items@)),
            Json::Object(members) => JsonValue::Object(member_views(members@)),
        }
    }
}

/// The items of an array as mathematical values.
pub open spec fn item_views(items: Seq<Json>) -> Seq<JsonValue>
    decreases items,
{
    Seq::new(
        items.len(),
        |i: int|
            if 0 <= i < items.len() {
                items[i].view()
            } else {
                JsonValue::Null
            },
    )
}

/// The members of an object as mathematical values.
pub open spec fn member_views(members: Seq<(String, Json)>) -> Seq<(Seq<char>, JsonValue)>
    decreases members,
{
    Seq::new(
        members.len(),
        |i: int|
            if 0 <= i < members.len() {
                (members[i].0@, members[i].1.view())
            } else {
                (Seq::empty(), JsonValue::Null)
            },
    )
}

/// Member `i` has the key and no member before it has.
pub open spec fn is_first_member(
    members: Seq<(Seq<char>, JsonValue)>,
    key: Seq<char>,
    i: int,
) -> bool {
    &&& 0 <= i < members.len()
    &&& members[i].0 == key
    &&& forall|j: int| 0 <= j < i ==> (#[trigger] members[j]).0 != key
}

impl JsonValue {
    /// The value of the first member with this key, where `self` is an
    /// object that has one.
    pub open spec fn member(self, key: Seq<char>) -> Option<JsonValue> {
        match self {
            JsonValue::Object(members) => if exists|i: int| is_first_member(members, key, i) {
                Some(members[choose|i: int| is_first_member(members, key, i)].1)
            } else {
                None
            },
            _ => None,
        }
    }

    /// The text of a string.
    pub open spec fn text(self) -> Option<Seq<char>> {
        match self {
            JsonValue::Text(t) => Some(t),
            _ => None,
        }
    }

    /// The notation of a number.
    pub open spec fn number(self) -> Option<Seq<char>> {
        match self {
            JsonValue::Number(n) => Some(n),
            _ => None,
        }
    }

    /// The items of an array.
    pub open spec fn items(self) -> Option<Seq<JsonValue>> {
        match self {
            JsonValue::Array(items) => Some(items),
            _ => None,
        }
    }
}

/// `serde_json::Value`, the tree that the parser builds.
#[verifier::external_type_specification]
#[verifier::external_body]
pub struct ExValue(serde_json::Value);

/// `serde_json::Error`, which says where a text stops being JSON.
#[verifier::external_type_specification]
#[verifier::external_body]
pub struct ExError(serde_json::Error);

/// What a `serde_json::Value` holds: its variant, and under an array or an
/// object what each item or member holds in turn, in the order in which the
/// value yields them. A number stands in the notation in which it prints.
pub uninterp spec fn held(value: serde_json::Value) -> JsonValue;

/// The document that `serde_json::from_str` reads from a text, or `None`
/// where it reports an error.
pub uninterp spec fn parsed(text: Seq<char>) -> Option<JsonValue>;

/// `serde_json::from_str` at the type `serde_json::Value`. What it reads is
/// a function of the text alone; the contract gives it the name [`parsed`]
/// and claims no more.
#[verifier::external_body]
fn read_value(text: &str) -> (r: Result<serde_json::Value, serde_json::Error>)
    ensures
        match r {
            Ok(value) => parsed(text@) == Some(held(value)),
            Err(_) => parsed(text@) is None,
        },
{
    serde_json::from_str::<serde_json::Value>(text)
}

/// Copies a `serde_json::Value` into a [`Json`], variant for variant, with
/// `Number`'s `to_string` for a number and `Map::iter` for the members of
/// an object. The copy holds what the value holds.
#[verifier::external_body]
fn copy_of(value: &serde_json::Value) -> (copy: Json)
    ensures
        copy@ == held(*value),
{
    match value {
        serde_json::Value::Null => Json::Null,
        serde_json::Value::Bool(b) => Json::Bool(*b),
        serde_json::Value::Number(n) => Json::Number(n.to_string()),
        serde_json::Value::String(s) => Json::Text(s.clone()),
        serde_json::Value::Array(items) => Json::Array(items.iter().map(copy_of).collect()),
        serde_json::Value::Object(members) => Json::Object(
            members.iter().map(|(k, v)| (k.clone(), copy_of(v))).collect(),
        ),
    }
}

/// The JSON string that `serde_json::to_string` writes for a text: the text
/// between double quotes, with what has to be escaped, escaped.
pub uninterp spec fn quoted(text: Seq<char>) -> Seq<char>;

/// `serde_json::to_string` for a string slice. What it writes is a function
/// of the text alone; the contract gives it the name [`quoted`] and claims
/// no more.
#[verifier::external_body]
pub(crate) fn quote(text: &str) -> (r: String)
    ensures
        r@ == quoted(text@),
{
    match serde_json::to_string(text) {
        Ok(written) => written,
        Err(_) => String::new(),
    }
}

impl Json {
    /// Reads a JSON text.
    pub fn parse(text: &str) -> (r: Option<Json>)
        ensures
            match r {
                Some(doc) => parsed(text@) == Some(doc@),
                None => parsed(text@) is None,
            },
    {
        match read_value(text) {
            Ok(value) => Some(copy_of(&value)),
            Err(_) => None,
        }
    }

    /// The value of the first member with this key, where `self` is an
    /// object that has one.
    pub fn member(&self, key: &str) -> (r: Option<&Json>)
        ensures
            match r {
                Some(value) => self@.member(key@) == Some(value@),
                None => self@.member(key@) is None,
            },
    {
        match self {
            Json::Object(members) => {
                let wanted = key.to_owned();
                let ghost views = member_views(members@);
                let mut i: usize = 0;
                while i < members.len()
                    invariant
                        i <= members.len(),
                        wanted@ == key@,
                        views == member_views(members@),
                        self@ == JsonValue::Object(views),
                        forall|j: int| 0 <= j < i ==> (#[trigger] views[j]).0 != key@,
                    decreases members.len() - i,
                {
                    assert(views[i as int] == (members@[i as int].0@, members@[i as int].1@));
                    if members[i].0 == wanted {
                        proof {
                            lemma_first_member(views, key@, i as int);
                        }
                        return Some(&members[i].1);
                    }
                    i += 1;
                }
                None
            },
            _ => None,
        }
    }

    /// The text of a string.
    pub fn text(&self) -> (r: Option<&String>)
        ensures
            match r {
                Some(t) => self@.text() == Some(t@),
                None => self@.text() is None,
            },
    {
        match self {
            Json::Text(t) => Some(t),
            _ => None,
        }
    }

    /// The notation of a number.
    pub fn number(&self) -> (r: Option<&String>)
        ensures
            match r {
                Some(n) => self@.number() == Some(n@),
                None => self@.number() is None,
            },
    {
        match self {
            Json::Number(n) => Some(n),
            _ => None,
        }
    }

    /// The items of an array.
    pub fn items(&self) -> (r: Option<&Vec<Json>>)
        ensures
            match r {
                Some(items) => self@.items() == Some(item_views(items@)),
                None => self@.items() is None,
            },
    {
        match self {
            Json::Array(items) => Some(items),
            _ => None,
        }
    }
}

/// The first member with a key is the one that [`JsonValue::member`] gives.
pub proof fn lemma_first_member(members: Seq<(Seq<char>, JsonValue)>, key: Seq<char>, i: int)
    requires
        is_first_member(members, key, i),
    ensures
        JsonValue::Object(members).member(key) == Some(members[i].1),
{
    let k = choose|k: int| is_first_member(members, key, k);
    if k < i {
        assert(members[k].0 != key);
    } else if i < k {
        assert(members[i].0 != key);
    }
}

} // verus!
