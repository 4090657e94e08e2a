//! JSON values: building them, writing them out, and reading the members that
//! the lesson tools look for.

use crate::text::{decimal, opt_view};
use serde_json::Value;
use vstd::prelude::*;

verus! {

// ---------------------------------------------------------------------------
// What a JSON value is
// ---------------------------------------------------------------------------

/// A JSON value as a mathematical tree. A number stands as it is written; the
/// members of an object keep their order.
pub enum JsonTree {
    Null,
    Bool(bool),
    Number(Seq<char>),
    Text(Seq<char>),
    Array(Seq<JsonTree>),
    Object(Seq<(Seq<char>, JsonTree)>),
}

/// The value of the first member of that name in a list of members.
pub open spec fn member_in(members: Seq<(Seq<char>, JsonTree)>, name: Seq<char>) -> Option<JsonTree>
    decreases members.len(),
{
    if members.len() == 0 {
        None
    } else if members[0].0 == name {
        Some(members[0].1)
    } else {
        member_in(members.skip(1), name)
    }
}

/// The member of that name, where the value is an object that has one.
pub open spec fn member(tree: JsonTree, name: Seq<char>) -> Option<JsonTree> {
    match tree {
        JsonTree::Object(members) => member_in(members, name),
        _ => None,
    }
}

/// A JSON value to be written out.
pub enum Json {
    Null,
    Bool(bool),
    Number(u64),
    Text(String),
    Array(Vec<Json>),
    Object(Vec<(String, Json)>),
}

/// The trees of a list of values.
pub open spec fn trees(list: Seq<Json>) -> Seq<JsonTree>
    decreases list,
{
    if list.len() == 0 {
        seq![]
    } else {
        trees(list.drop_last()).push(list.last().tree())
    }
}

/// The trees of a list of members, each with its name.
pub open spec fn member_trees(list: Seq<(String, Json)>) -> Seq<(Seq<char>, JsonTree)>
    decreases list,
{
    if list.len() == 0 {
        seq![]
    } else {
        member_trees(list.drop_last()).push((list.last().0@, list.last().1.tree()))
    }
}

impl Json {
    /// The tree of a value.
    pub open spec fn tree(self) -> JsonTree
        decreases self,
    {
        match self {
            Json::Null => JsonTree::Null,
            Json::Bool(b) => JsonTree::Bool(b),
            Json::Number(n) => JsonTree::Number(decimal(n as nat)),
            Json::Text(s) => JsonTree::Text(s@),
            Json::Array(list) => JsonTree::Array(trees(list@)),
            Json::Object(list) => JsonTree::Object(member_trees(list@)),
        }
    }
}

/// Whether no two members of a list have the same name.
pub open spec fn names_differ(members: Seq<(Seq<char>, JsonTree)>) -> bool {
    forall|i: int, j: int|
        0 <= i < j < members.len() ==> #[trigger] members[i].0 != #[trigger] members[j].0
}

/// Whether the members of every object in a value have different names.
pub open spec fn tidy(tree: JsonTree) -> bool
    decreases tree,
{
    match tree {
        JsonTree::Array(list) => forall|i: int| 0 <= i < list.len() ==> tidy(#[trigger] list[i]),
        JsonTree::Object(list) => names_differ(list) && forall|i: int|
            0 <= i < list.len() ==> tidy((#[trigger] list[i]).1),
        _ => true,
    }
}

// ---------------------------------------------------------------------------
// The outside crate
// ---------------------------------------------------------------------------

/// `serde_json::Value`, carried through without looking inside.
#[verifier::external_type_specification]
#[verifier::external_body]
pub struct ExValue(Value);

/// What a `serde_json::Value` holds.
pub uninterp spec fn json_tree(value: Value) -> JsonTree;

/// The trees of a list of outside values.
pub open spec fn value_trees(list: Seq<Value>) -> Seq<JsonTree> {
    Seq::new(list.len(), |i: int| json_tree(list[i]))
}

/// The trees of a list of outside members, each with its name.
pub open spec fn value_member_trees(list: Seq<(String, Value)>) -> Seq<(Seq<char>, JsonTree)> {
    Seq::new(list.len(), |i: int| (list[i].0@, json_tree(list[i].1)))
}

/// `Value::Null`, the JSON null.
#[verifier::external_body]
fn value_null() -> (r: Value)
    ensures
        json_tree(r) == JsonTree::Null,
{
    Value::Null
}

/// `Value::Bool` holds the truth value it is made of.
#[verifier::external_body]
fn value_bool(b: bool) -> (r: Value)
    ensures
        json_tree(r) == JsonTree::Bool(b),
{
    Value::Bool(b)
}

/// `Value::from` on a `u64` holds that number, which JSON writes in base ten.
#[verifier::external_body]
fn value_number(n: u64) -> (r: Value)
    ensures
        json_tree(r) == JsonTree::Number(decimal(n as nat)),
{
    Value::from(n)
}

/// `Value::from` on a `&str` holds a copy of that text.
#[verifier::external_body]
fn value_text(s: &str) -> (r: Value)
    ensures
        json_tree(r) == JsonTree::Text(s@),
{
    Value::from(s)
}

/// `Value::Array` holds the values it is made of, in their order.
#[verifier::external_body]
fn value_array(list: Vec<Value>) -> (r: Value)
    ensures
        json_tree(r) == JsonTree::Array(value_trees(list@)),
{
    Value::Array(list)
}

/// `Value::Object` on a `serde_json::Map` collected from members whose names
/// differ holds those members. The crate's `preserve_order` feature, which is
/// on, keeps them in the order in which they came.
#[verifier::external_body]
fn value_object(list: Vec<(String, Value)>) -> (r: Value)
    requires
        names_differ(value_member_trees(list@)),
    ensures
        json_tree(r) == JsonTree::Object(value_member_trees(list@)),
{
    Value::Object(list.into_iter().collect())
}

/// The text that `serde_json::to_string` writes for a value.
pub uninterp spec fn json_text(tree: JsonTree) -> Seq<char>;

/// `serde_json::to_string` on a `Value`. It fails only where a `Serialize`
/// impl decides to fail or a map has keys that are no strings; a `Value` does
/// neither. Nothing is said here of the text beyond that it is a function of
/// the value.
#[verifier::external_body]
fn value_to_string(value: &Value) -> (r: Option<String>)
    ensures
        opt_view(r) == Some(json_text(json_tree(*value))),
{
    serde_json::to_string(value).ok()
}

/// The value that `serde_json::from_str` reads from a text, where the text is
/// JSON.
pub uninterp spec fn json_read(text: Seq<char>) -> Option<JsonTree>;

/// `serde_json::from_str` into a `Value`. Nothing is said here of which texts
/// it accepts; what it gives back is a function of the text.
#[verifier::external_body]
pub(crate) fn parse_text(text: &str) -> (r: Option<Value>)
    ensures
        match r {
            Some(value) => json_read(text@) == Some(json_tree(value)),
            None => json_read(text@) is None,
        },
{
    serde_json::from_str(text).ok()
}

/// The value that `serde_json::from_slice` reads from bytes, where they are
/// JSON.
pub uninterp spec fn json_read_bytes(bytes: Seq<u8>) -> Option<JsonTree>;

/// `serde_json::from_slice` into a `Value`. Nothing is said here of which bytes
/// it accepts; what it gives back is a function of the bytes.
#[verifier::external_body]
fn parse_bytes(bytes: &[u8]) -> (r: Option<Value>)
    ensures
        match r {
            Some(value) => json_read_bytes(bytes@) == Some(json_tree(value)),
            None => json_read_bytes(bytes@) is None,
        },
{
    serde_json::from_slice(bytes).ok()
}

/// `Value::get` with a string finds the member of that name in an object, and
/// nothing in any other value.
#[verifier::external_body]
fn value_get<'a>(value: &'a Value, name: &str) -> (r: Option<&'a Value>)
    ensures
        match r {
            Some(found) => member(json_tree(*value), name@) == Some(json_tree(*found)),
            None => member(json_tree(*value), name@) is None,
        },
{
    value.get(name)
}

/// `Value::as_str` gives the text of a string, and nothing for any other value.
#[verifier::external_body]
fn value_as_str(value: &Value) -> (r: Option<&str>)
    ensures
        match r {
            Some(s) => json_tree(*value) == JsonTree::Text(s@),
            None => !(json_tree(*value) is Text),
        },
{
    value.as_str()
}

// ---------------------------------------------------------------------------
// Writing
// ---------------------------------------------------------------------------

/// The tree at a place of a list of trees.
pub proof fn lemma_trees(list: Seq<Json>)
    ensures
        trees(list).len() == list.len(),
        forall|i: int| 0 <= i < list.len() ==> #[trigger] trees(list)[i] == list[i].tree(),
    decreases list.len(),
{
    if list.len() > 0 {
        lemma_trees(list.drop_last());
    }
}

/// The tree and the name at a place of a list of members.
pub proof fn lemma_member_trees(list: Seq<(String, Json)>)
    ensures
        member_trees(list).len() == list.len(),
        forall|i: int|
            0 <= i < list.len() ==> #[trigger] member_trees(list)[i] == (
                list[i].0@,
                list[i].1.tree(),
            ),
    decreases list.len(),
{
    if list.len() > 0 {
        lemma_member_trees(list.drop_last());
    }
}

/// The outside value that holds the same as `json`.
fn to_value(json: &Json) -> (r: Value)
    requires
        tidy(json.tree()),
    ensures
        json_tree(r) == json.tree(),
    decreases json,
{
    match json {
        Json::Null => value_null(),
        Json::Bool(b) => value_bool(*b),
        Json::Number(n) => value_number(*n),
        Json::Text(s) => value_text(s.as_str()),
        Json::Array(list) => {
            let mut values: Vec<Value> = Vec::new();
            proof {
                lemma_trees(list@);
                assert(json.tree() == JsonTree::Array(trees(list@)));
                assert forall|k: int| 0 <= k < list@.len() implies tidy(
                    #[trigger] trees(list@)[k],
                ) by {
                    assert(json.tree()->Array_0[k] == trees(list@)[k]);
                }
            }
            for i in 0..list.len()
                invariant
                    trees(list@).len() == list@.len(),
                    forall|k: int|
                        0 <= k < list@.len() ==> #[trigger] trees(list@)[k] == list@[k].tree(),
                    forall|k: int| 0 <= k < list@.len() ==> tidy(#[trigger] trees(list@)[k]),
                    value_trees(values@) == trees(list@).take(i as int),
                    *json == Json::Array(*list),
            {
                assert(tidy(trees(list@)[i as int]));
                assert(decreases_to!(*json => json->Array_0));
                assert(decreases_to!(*list => list@));
                assert(decreases_to!(list@ => list@[i as int]));
                let value = to_value(&list[i]);
                let ghost before = value_trees(values@);
                values.push(value);
                assert(value_trees(values@) =~= before.push(trees(list@)[i as int]));
                assert(trees(list@).take(i + 1) =~= before.push(trees(list@)[i as int]));
            }
            assert(trees(list@).take(list@.len() as int) =~= trees(list@));
            value_array(values)
        },
        Json::Object(list) => {
            let mut values: Vec<(String, Value)> = Vec::new();
            proof {
                lemma_member_trees(list@);
                assert(json.tree() == JsonTree::Object(member_trees(list@)));
            }
            for i in 0..list.len()
                invariant
                    member_trees(list@).len() == list@.len(),
                    forall|k: int|
                        0 <= k < list@.len() ==> #[trigger] member_trees(list@)[k] == (
                            list@[k].0@,
                            list@[k].1.tree(),
                        ),
                    forall|k: int|
                        0 <= k < list@.len() ==> tidy((#[trigger] member_trees(list@)[k]).1),
                    value_member_trees(values@) == member_trees(list@).take(i as int),
                    *json == Json::Object(*list),
            {
                assert(tidy(member_trees(list@)[i as int].1));
                assert(decreases_to!(*json => json->Object_0));
                assert(decreases_to!(*list => list@));
                assert(decreases_to!(list@ => list@[i as int]));
                assert(decreases_to!(list@[i as int] => list@[i as int].1));
                let value = to_value(&list[i].1);
                let ghost before = value_member_trees(values@);
                values.push((list[i].0.clone(), value));
                assert(value_member_trees(values@) =~= before.push(member_trees(list@)[i as int]));
                assert(member_trees(list@).take(i + 1) =~= before.push(member_trees(list@)[i as int]));
            }
            assert(member_trees(list@).take(list@.len() as int) =~= member_trees(list@));
            value_object(values)
        },
    }
}

/// The text of a JSON value.
pub fn render(json: &Json) -> (r: String)
    requires
        tidy(json.tree()),
    ensures
        r@ == json_text(json.tree()),
{
    value_to_string(&to_value(json)).unwrap()
}

// ---------------------------------------------------------------------------
// Reading
// ---------------------------------------------------------------------------

/// What a JSON value has under a name.
pub enum Field {
    /// No member of that name, or no object at all.
    Missing,
    /// A member that is no string.
    Other,
    /// A string.
    Text(String),
}

impl Field {
    /// Whether this is what stands under a name, given the member found there.
    pub open spec fn describes(self, found: Option<JsonTree>) -> bool {
        match self {
            Field::Missing => found is None,
            Field::Other => found matches Some(tree) && !(tree is Text),
            Field::Text(s) => found == Some(JsonTree::Text(s@)),
        }
    }
}

/// What `value` has under `name`.
pub(crate) fn field_of(value: &Value, name: &str) -> (field: Field)
    ensures
        field.describes(member(json_tree(*value), name@)),
{
    match value_get(value, name) {
        None => Field::Missing,
        Some(found) => match value_as_str(found) {
            Some(s) => Field::Text(s.to_string()),
            None => Field::Other,
        },
    }
}

/// The string that a value has under a name, where it has one.
pub open spec fn text_member(read: Option<JsonTree>, name: Seq<char>) -> Option<Seq<char>> {
    match read {
        Some(tree) => match member(tree, name) {
            Some(JsonTree::Text(s)) => Some(s),
            _ => None,
        },
        None => None,
    }
}

/// The string under `name` in the JSON object that `bytes` hold.
pub fn read_text_member(bytes: &[u8], name: &str) -> (r: Option<String>)
    ensures
        opt_view(r) == text_member(json_read_bytes(bytes@), name@),
{
    match parse_bytes(bytes) {
        Some(value) => match field_of(&value, name) {
            Field::Text(s) => Some(s),
            _ => None,
        },
        None => None,
    }
}

// ---------------------------------------------------------------------------
// Laws
// ---------------------------------------------------------------------------

/// The member of a name is the first one that has it; there is none where no
/// member has that name, or where the value is no object.
pub proof fn law_first_member_counts(
    before: Seq<(Seq<char>, JsonTree)>,
    name: Seq<char>,
    value: JsonTree,
    after: Seq<(Seq<char>, JsonTree)>,
    other: JsonTree,
)
    requires
        forall|i: int| 0 <= i < before.len() ==> (#[trigger] before[i]).0 != name,
        !(other is Object),
    ensures
        member(JsonTree::Object(before + seq![(name, value)] + after), name) == Some(value),
        member(JsonTree::Object(before), name) is None,
        member(other, name) is None,
    decreases before.len(),
{
    let all = before + seq![(name, value)] + after;
    if before.len() > 0 {
        let rest = before.skip(1);
        assert(before[0].0 != name);
        assert(all.skip(1) =~= rest + seq![(name, value)] + after);
        assert forall|i: int| 0 <= i < rest.len() implies (#[trigger] rest[i]).0 != name by {
            assert(rest[i] == before[i + 1]);
        }
        law_first_member_counts(rest, name, value, after, other);
        assert(all[0] == before[0]);
    } else {
        assert(all[0] == (name, value));
    }
}

/// The text of a member is that member, where it is a text; a number, a list or
/// anything else is none, and neither is what could not be read.
pub proof fn law_text_members(tree: JsonTree, name: Seq<char>, s: Seq<char>)
    ensures
        text_member(None, name) is None,
        member(tree, name) is None ==> text_member(Some(tree), name) is None,
        member(tree, name) == Some(JsonTree::Text(s)) ==> text_member(Some(tree), name) == Some(s),
        member(tree, name) is Some && !(member(tree, name)->0 is Text) ==> text_member(
            Some(tree),
            name,
        ) is None,
{
}

/// Where the names of the members differ, each of them is found by its name.
pub proof fn lemma_member_at(list: Seq<(Seq<char>, JsonTree)>, at: int)
    requires
        names_differ(list),
        0 <= at < list.len(),
    ensures
        member(JsonTree::Object(list), list[at].0) == Some(list[at].1),
{
    let before = list.take(at);
    let after = list.skip(at + 1);
    assert forall|i: int| 0 <= i < before.len() implies (#[trigger] before[i]).0 != list[at].0 by {
        assert(before[i] == list[i]);
        assert(list[i].0 != list[at].0);
    }
    law_first_member_counts(before, list[at].0, list[at].1, after, JsonTree::Null);
    assert(list =~= before + seq![(list[at].0, list[at].1)] + after);
}

} // verus!
