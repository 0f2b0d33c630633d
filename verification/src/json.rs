//! JSON values as the library reads and rewrites them.
//!
//! A [`JsonValue`] holds the value; its view, a [`JsonTree`], is what the
//! contracts speak of.  Text becomes a value, and a value text, through
//! `serde_json`.

use crate::ids::texts;
use vstd::prelude::*;

verus! {

/// A JSON value.  A number is kept as its JSON text.  The members of an
/// object are kept in a list; a key is looked up from the front.
#[derive(Debug, PartialEq, Eq)]
pub enum JsonValue {
    Null,
    Bool(bool),
    Number(String),
    Text(String),
    Array(Vec<JsonValue>),
    Object(Vec<JsonMember>),
}

/// A member of a JSON object.
#[derive(Debug, PartialEq, Eq)]
pub struct JsonMember {
    pub key: String,
    pub value: JsonValue,
}

/// The mathematical model of a JSON value.
pub enum JsonTree {
    Null,
    Bool(bool),
    Number(Seq<char>),
    Text(Seq<char>),
    Array(Seq<JsonTree>),
    Object(Seq<(Seq<char>, JsonTree)>),
}

/// The model of a value.
pub open spec fn tree_of(v: JsonValue) -> JsonTree
    decreases v,
{
    match v {
        JsonValue::Null => JsonTree::Null,
        JsonValue::Bool(b) => JsonTree::Bool(b),
        JsonValue::Number(n) => JsonTree::Number(n@),
        JsonValue::Text(t) => JsonTree::Text(t@),
        JsonValue::Array(items) => JsonTree::Array(trees_of(items@)),
        JsonValue::Object(members) => JsonTree::Object(members_of(members@)),
    }
}

/// The models of a list of values.
pub open spec fn trees_of(items: Seq<JsonValue>) -> Seq<JsonTree>
    decreases items,
{
    if items.len() == 0 {
        Seq::empty()
    } else {
        trees_of(items.drop_last()).push(tree_of(items.last()))
    }
}

/// The models of a list of members.
pub open spec fn members_of(members: Seq<JsonMember>) -> Seq<(Seq<char>, JsonTree)>
    decreases members,
{
    if members.len() == 0 {
        Seq::empty()
    } else {
        members_of(members.drop_last()).push((members.last().key@, tree_of(members.last().value)))
    }
}

impl View for JsonValue {
    type V = JsonTree;

    open spec fn view(&self) -> JsonTree {
        tree_of(*self)
    }
}

/// The models of a list of values, position by position.
pub proof fn lemma_trees_of(items: Seq<JsonValue>)
    ensures
        trees_of(items).len() == items.len(),
        forall|i: int| 0 <= i < items.len() ==> #[trigger] trees_of(items)[i] == tree_of(items[i]),
    decreases items.len(),
{
    if items.len() > 0 {
        lemma_trees_of(items.drop_last());
    }
}

/// The models of a list of members, position by position.
pub proof fn lemma_members_of(members: Seq<JsonMember>)
    ensures
        members_of(members).len() == members.len(),
        forall|i: int|
            0 <= i < members.len() ==> #[trigger] members_of(members)[i] == (
                members[i].key@,
                tree_of(members[i].value),
            ),
    decreases members.len(),
{
    if members.len() > 0 {
        lemma_members_of(members.drop_last());
    }
}

/// The position, at or after `from`, of the first member with the key.
pub open spec fn key_index(members: Seq<(Seq<char>, JsonTree)>, key: Seq<char>, from: int) -> Option<
    int,
>
    decreases members.len() - from,
{
    if from < 0 || from >= members.len() {
        None
    } else if members[from].0 == key {
        Some(from)
    } else {
        key_index(members, key, from + 1)
    }
}

/// The position found by [`key_index`] is in range and holds the key.
pub proof fn lemma_key_index(members: Seq<(Seq<char>, JsonTree)>, key: Seq<char>, from: int)
    requires
        0 <= from,
    ensures
        key_index(members, key, from) matches Some(i) ==> from <= i < members.len()
            && members[i].0 == key,
    decreases members.len() - from,
{
    if from < members.len() && members[from].0 != key {
        lemma_key_index(members, key, from + 1);
    }
}

/// The value of the member `key` of an object; `None` for another value
/// and for an object without that key.
pub open spec fn tree_get(tree: JsonTree, key: Seq<char>) -> Option<JsonTree> {
    match tree {
        JsonTree::Object(members) => match key_index(members, key, 0) {
            Some(i) => Some(members[i].1),
            None => None,
        },
        _ => None,
    }
}

/// The value reached from `tree` by the keys of `path`, one object deeper
/// with each key.
pub open spec fn tree_at(tree: JsonTree, path: Seq<Seq<char>>) -> Option<JsonTree>
    decreases path.len(),
{
    if path.len() == 0 {
        Some(tree)
    } else {
        match tree_get(tree, path[0]) {
            Some(below) => tree_at(below, path.skip(1)),
            None => None,
        }
    }
}

/// `tree` with `leaf` in place of the value that `path` reaches; `tree`
/// itself where the path reaches nothing.
pub open spec fn tree_put(tree: JsonTree, path: Seq<Seq<char>>, leaf: JsonTree) -> JsonTree
    decreases path.len(),
{
    if path.len() == 0 {
        leaf
    } else {
        match tree {
            JsonTree::Object(members) => match key_index(members, path[0], 0) {
                Some(i) => JsonTree::Object(
                    members.update(i, (members[i].0, tree_put(members[i].1, path.skip(1), leaf))),
                ),
                None => tree,
            },
            _ => tree,
        }
    }
}

/// A new value under an old key leaves every key where it is.
pub proof fn lemma_key_index_same_keys(
    members: Seq<(Seq<char>, JsonTree)>,
    other: Seq<(Seq<char>, JsonTree)>,
    key: Seq<char>,
    from: int,
)
    requires
        0 <= from,
        other.len() == members.len(),
        forall|i: int| 0 <= i < members.len() ==> other[i].0 == members[i].0,
    ensures
        key_index(other, key, from) == key_index(members, key, from),
    decreases members.len() - from,
{
    if from < members.len() && members[from].0 != key {
        lemma_key_index_same_keys(members, other, key, from + 1);
    }
}

/// The position of the first member with the key.
pub fn find_member(members: &Vec<JsonMember>, key: &String) -> (r: Option<usize>)
    ensures
        match r {
            Some(i) => key_index(members_of(members@), key@, 0) == Some(i as int) && i
                < members.len(),
            None => key_index(members_of(members@), key@, 0) is None,
        },
{
    proof {
        lemma_members_of(members@);
    }
    let mut i: usize = 0;
    while i < members.len()
        invariant
            0 <= i <= members.len(),
            members_of(members@).len() == members.len(),
            forall|j: int|
                0 <= j < members.len() ==> #[trigger] members_of(members@)[j] == (
                    members@[j].key@,
                    tree_of(members@[j].value),
                ),
            key_index(members_of(members@), key@, 0) == key_index(
                members_of(members@),
                key@,
                i as int,
            ),
        decreases members.len() - i,
    {
        if members[i].key == *key {
            return Some(i);
        }
        i += 1;
    }
    None
}

impl JsonValue {
    /// The value of the member `key`, where `self` is an object that has
    /// one.
    pub fn get(&self, key: &String) -> (r: Option<&JsonValue>)
        ensures
            match r {
                Some(v) => tree_get(self@, key@) == Some(v@),
                None => tree_get(self@, key@) is None,
            },
    {
        match self {
            JsonValue::Object(members) => {
                proof {
                    lemma_members_of(members@);
                }
                match find_member(members, key) {
                    Some(i) => Some(&members[i].value),
                    None => None,
                }
            },
            _ => None,
        }
    }

    /// The value that the keys of `path`, from position `depth` on, reach.
    pub fn at(&self, path: &Vec<String>, depth: usize) -> (r: Option<&JsonValue>)
        requires
            depth <= path.len(),
        ensures
            match r {
                Some(v) => tree_at(self@, texts(path@).skip(depth as int)) == Some(v@),
                None => tree_at(self@, texts(path@).skip(depth as int)) is None,
            },
        decreases path.len() - depth,
    {
        let ghost rest = texts(path@).skip(depth as int);
        if depth == path.len() {
            return Some(self);
        }
        proof {
            assert(rest.skip(1) == texts(path@).skip(depth + 1));
        }
        match self.get(&path[depth]) {
            Some(below) => below.at(path, depth + 1),
            None => None,
        }
    }

    /// The text of a string value.
    pub fn as_text(&self) -> (r: Option<&String>)
        ensures
            match r {
                Some(t) => self@ == JsonTree::Text(t@),
                None => !(self@ is Text),
            },
    {
        match self {
            JsonValue::Text(t) => Some(t),
            _ => None,
        }
    }

    /// The items of an array.
    pub fn as_array(&self) -> (r: Option<&Vec<JsonValue>>)
        ensures
            match r {
                Some(items) => self@ == JsonTree::Array(trees_of(items@)),
                None => !(self@ is Array),
            },
    {
        match self {
            JsonValue::Array(items) => Some(items),
            _ => None,
        }
    }

    /// Puts `leaf` in place of the value that the keys of `path`, from
    /// position `depth` on, reach.  Where they reach nothing, `self` stays
    /// as it is.
    pub fn put(&mut self, path: &Vec<String>, depth: usize, leaf: JsonValue)
        requires
            depth <= path.len(),
        ensures
            final(self)@ == tree_put(old(self)@, texts(path@).skip(depth as int), leaf@),
        decreases path.len() - depth,
    {
        let ghost rest = texts(path@).skip(depth as int);
        if depth == path.len() {
            *self = leaf;
            return ;
        }
        proof {
            assert(rest.skip(1) == texts(path@).skip(depth + 1));
        }
        match self {
            JsonValue::Object(members) => {
                let ghost before = members@;
                proof {
                    lemma_members_of(before);
                }
                match find_member(members, &path[depth]) {
                    Some(i) => {
                        members[i].value.put(path, depth + 1, leaf);
                        proof {
                            lemma_members_of(members@);
                            assert(members_of(members@) == members_of(before).update(
                                i as int,
                                (
                                    members_of(before)[i as int].0,
                                    tree_put(
                                        members_of(before)[i as int].1,
                                        rest.skip(1),
                                        leaf@,
                                    ),
                                ),
                            ));
                        }
                    },
                    None => {},
                }
            },
            _ => {},
        }
    }
}

/// A copy of a list of values.
pub fn clone_items(items: &Vec<JsonValue>) -> (r: Vec<JsonValue>)
    ensures
        trees_of(r@) == trees_of(items@),
    decreases items,
{
    let mut r: Vec<JsonValue> = Vec::new();
    let mut i: usize = 0;
    while i < items.len()
        invariant
            0 <= i <= items.len(),
            r@.len() == i,
            forall|j: int| 0 <= j < i ==> (#[trigger] r@[j])@ == items@[j]@,
        decreases items.len() - i,
    {
        r.push(items[i].deep_clone());
        i += 1;
    }
    proof {
        lemma_trees_of(r@);
        lemma_trees_of(items@);
    }
    r
}

/// A copy of a list of members.
pub fn clone_members(members: &Vec<JsonMember>) -> (r: Vec<JsonMember>)
    ensures
        members_of(r@) == members_of(members@),
    decreases members,
{
    let mut r: Vec<JsonMember> = Vec::new();
    let mut i: usize = 0;
    while i < members.len()
        invariant
            0 <= i <= members.len(),
            r@.len() == i,
            forall|j: int|
                0 <= j < i ==> (#[trigger] r@[j]).key@ == members@[j].key@ && r@[j].value@
                    == members@[j].value@,
        decreases members.len() - i,
    {
        r.push(JsonMember { key: members[i].key.clone(), value: members[i].value.deep_clone() });
        i += 1;
    }
    proof {
        lemma_members_of(r@);
        lemma_members_of(members@);
    }
    r
}

impl JsonValue {
    /// A copy of the value.
    pub fn deep_clone(&self) -> (r: JsonValue)
        ensures
            r@ == self@,
        decreases self,
    {
        match self {
            JsonValue::Null => JsonValue::Null,
            JsonValue::Bool(b) => JsonValue::Bool(*b),
            JsonValue::Number(n) => JsonValue::Number(n.clone()),
            JsonValue::Text(t) => JsonValue::Text(t.clone()),
            JsonValue::Array(items) => JsonValue::Array(clone_items(items)),
            JsonValue::Object(members) => JsonValue::Object(clone_members(members)),
        }
    }
}

/// Puts `value` in place of the value of the first member with the key
/// and says whether there is such a member.
pub fn set_member(members: &mut Vec<JsonMember>, key: &String, value: JsonValue) -> (found: bool)
    ensures
        match key_index(members_of(old(members)@), key@, 0) {
            Some(i) => found && members_of(final(members)@) == members_of(old(members)@).update(
                i,
                (members_of(old(members)@)[i].0, value@),
            ),
            None => !found && final(members)@ == old(members)@,
        },
{
    match find_member(members, key) {
        Some(i) => {
            members[i].value = value;
            proof {
                lemma_members_of(members@);
                lemma_members_of(old(members)@);
            }
            true
        },
        None => false,
    }
}

/// `serde_json::Value`, the form in which `serde_json` hands a parsed text
/// over and takes a value to print.
#[verifier::external_type_specification]
#[verifier::external_body]
pub struct ExSerdeValue(serde_json::Value);

/// What `serde_json::from_str` makes of a text: the model of the value it
/// parses to, or `None` where it reports an error.
pub uninterp spec fn json_parse_result(text: Seq<char>) -> Option<JsonTree>;

/// The compact JSON text that `serde_json` prints for a value.
pub uninterp spec fn json_text(tree: JsonTree) -> Seq<char>;

/// Turns a `serde_json::Value` into a [`JsonValue`], variant by variant.
/// A number is kept as the text that `serde_json::Number` prints, the
/// members of an object in the order in which `serde_json::Map` hands
/// them out.  Nothing is claimed of the result here.
#[verifier::external_body]
fn value_from_serde(value: serde_json::Value) -> JsonValue {
    match value {
        serde_json::Value::Null => JsonValue::Null,
        serde_json::Value::Bool(b) => JsonValue::Bool(b),
        serde_json::Value::Number(n) => JsonValue::Number(n.to_string()),
        serde_json::Value::String(s) => JsonValue::Text(s),
        serde_json::Value::Array(a) => JsonValue::Array(
            a.into_iter().map(value_from_serde).collect(),
        ),
        serde_json::Value::Object(o) => JsonValue::Object(
            o.into_iter().map(|(key, v)| JsonMember { key, value: value_from_serde(v) }).collect(),
        ),
    }
}

/// Turns a [`JsonValue`] into a `serde_json::Value`, variant by variant.
/// A number whose text `serde_json` does not read as a number becomes
/// null; of two members with one key `serde_json::Map` keeps the later.
/// Nothing is claimed of the result here.
#[verifier::external_body]
fn value_to_serde(value: &JsonValue) -> serde_json::Value {
    match value {
        JsonValue::Null => serde_json::Value::Null,
        JsonValue::Bool(b) => serde_json::Value::Bool(*b),
        JsonValue::Number(n) => serde_json::from_str::<serde_json::Number>(n).map_or(
            serde_json::Value::Null,
            serde_json::Value::Number,
        ),
        JsonValue::Text(t) => serde_json::Value::String(t.clone()),
        JsonValue::Array(items) => serde_json::Value::Array(
            items.iter().map(value_to_serde).collect(),
        ),
        JsonValue::Object(members) => serde_json::Value::Object(
            members.iter().map(|m| (m.key.clone(), value_to_serde(&m.value))).collect(),
        ),
    }
}

/// Parses a JSON text with `serde_json::from_str`.  The contract names the
/// outcome: the same text always parses to the same value, or always
/// fails.
#[verifier::external_body]
pub(crate) fn parse_json(text: &str) -> (r: Option<JsonValue>)
    ensures
        match r {
            Some(v) => json_parse_result(text@) == Some(v@),
            None => json_parse_result(text@) is None,
        },
{
    match serde_json::from_str::<serde_json::Value>(text) {
        Ok(v) => Some(value_from_serde(v)),
        Err(_) => None,
    }
}

/// Prints a value as compact JSON text with `serde_json`'s `Display` for
/// `Value`.  The contract names the outcome: equal values print alike.
#[verifier::external_body]
pub(crate) fn print_json(value: &JsonValue) -> (r: String)
    ensures
        r@ == json_text(value@),
{
    value_to_serde(value).to_string()
}

} // verus!
