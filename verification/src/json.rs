//! JSON documents as plain values, and the reader that makes them from text.
use serde_json::Value;
use vstd::prelude::*;

verus! {

/// A JSON number as the reader hands it out: its two integer readings and its text.
#[derive(Debug)]
pub struct JsonNumber {
    /// The number as a signed 64-bit integer, where it is one.
    pub int: Option<i64>,
    /// The number as an unsigned 64-bit integer, where it is one.
    pub uint: Option<u64>,
    /// The number as it is written out.
    pub text: String,
}

/// What a [`JsonNumber`] stands for.
pub struct NumberTree {
    pub int: Option<i64>,
    pub uint: Option<u64>,
    pub text: Seq<char>,
}

impl View for JsonNumber {
    type V = NumberTree;

    open spec fn view(&self) -> NumberTree {
        NumberTree { int: self.int, uint: self.uint, text: self.text@ }
    }
}

/// A JSON document. An object keeps its members in the order of the reader.
#[derive(Debug)]
pub enum Json {
    Null,
    Bool(bool),
    Number(JsonNumber),
    String(String),
    Array(Vec<Json>),
    Object(Vec<JsonMember>),
}

/// One member of a JSON object.
#[derive(Debug)]
pub struct JsonMember {
    pub key: String,
    pub value: Json,
}

/// What a [`Json`] stands for.
pub enum JsonTree {
    Null,
    Bool(bool),
    Number(NumberTree),
    String(Seq<char>),
    Array(Seq<JsonTree>),
    Object(Seq<MemberTree>),
}

/// What a [`JsonMember`] stands for.
pub struct MemberTree {
    pub key: Seq<char>,
    pub value: JsonTree,
}

/// The tree of one document.
pub open spec fn json_tree(json: Json) -> JsonTree
    decreases json,
{
    match json {
        Json::Null => JsonTree::Null,
        Json::Bool(b) => JsonTree::Bool(b),
        Json::Number(n) => JsonTree::Number(n@),
        Json::String(s) => JsonTree::String(s@),
        Json::Array(items) => JsonTree::Array(
            Seq::new(items@.len(), |i: int|
                if 0 <= i < items@.len() { json_tree(items@[i]) } else { arbitrary() }),
        ),
        Json::Object(members) => JsonTree::Object(
            Seq::new(members@.len(), |i: int|
                if 0 <= i < members@.len() { member_tree(members@[i]) } else { arbitrary() }),
        ),
    }
}

/// The tree of one member.
pub open spec fn member_tree(member: JsonMember) -> MemberTree
    decreases member,
{
    MemberTree { key: member.key@, value: json_tree(member.value) }
}

impl View for Json {
    type V = JsonTree;

    open spec fn view(&self) -> JsonTree {
        json_tree(*self)
    }
}

impl View for JsonMember {
    type V = MemberTree;

    open spec fn view(&self) -> MemberTree {
        member_tree(*self)
    }
}

/// `serde_json::Value`, carried as an opaque value: [`value_tree`] names what it holds.
#[verifier::external_type_specification]
#[verifier::external_body]
pub struct ExValue(serde_json::Value);

/// What a `serde_json::Value` holds: its scalars, items and members as one tree.
pub uninterp spec fn value_tree(value: serde_json::Value) -> JsonTree;

/// What `serde_json::from_str` makes of a text: the tree of the document, or the text of the error.
pub uninterp spec fn json_document(text: Seq<char>) -> Result<JsonTree, Seq<char>>;

/// Calls `serde_json::from_str::<serde_json::Value>`, and `to_string` on its error. Claims that
/// both outcomes are those which [`json_document`] names.
#[verifier::external_body]
fn value_from_str(text: &str) -> (r: Result<Value, String>)
    ensures
        match r {
            Ok(value) => json_document(text@) == Ok::<JsonTree, Seq<char>>(value_tree(value)),
            Err(error) => json_document(text@) == Err::<JsonTree, Seq<char>>(error@),
        },
{
    serde_json::from_str::<Value>(text).map_err(|e| e.to_string())
}

/// The outermost layer of a `serde_json::Value`.
enum ValueNode<'a> {
    Null,
    Bool(bool),
    Number(JsonNumber),
    String(&'a String),
    Array(&'a Vec<Value>),
    Object(Vec<(&'a String, &'a Value)>),
}

/// Tells the variants of a `serde_json::Value` apart and hands out the fields: a number by
/// `as_i64`, `as_u64` and `to_string`, an object by the entries of its `iter`. Claims that they are
/// the fields of the tree that [`value_tree`] names, in the same order.
#[verifier::external_body]
fn value_node<'a>(value: &'a Value) -> (r: ValueNode<'a>)
    ensures
        match r {
            ValueNode::Null => value_tree(*value) == JsonTree::Null,
            ValueNode::Bool(b) => value_tree(*value) == JsonTree::Bool(b),
            ValueNode::Number(n) => value_tree(*value) == JsonTree::Number(n@),
            ValueNode::String(s) => value_tree(*value) == JsonTree::String(s@),
            ValueNode::Array(items) => {
                &&& value_tree(*value) is Array
                &&& value_tree(*value)->Array_0.len() == items@.len()
                &&& forall|i: int|
                    0 <= i < items@.len() ==> value_tree(*value)->Array_0[i] == value_tree(
                        #[trigger] items@[i],
                    )
            },
            ValueNode::Object(members) => {
                &&& value_tree(*value) is Object
                &&& value_tree(*value)->Object_0.len() == members@.len()
                &&& forall|i: int|
                    0 <= i < members@.len() ==> value_tree(*value)->Object_0[i] == (MemberTree {
                        key: (#[trigger] members@[i]).0@,
                        value: value_tree(*members@[i].1),
                    })
            },
        },
{
    match value {
        Value::Null => ValueNode::Null,
        Value::Bool(b) => ValueNode::Bool(*b),
        Value::Number(n) => ValueNode::Number(
            JsonNumber { int: n.as_i64(), uint: n.as_u64(), text: n.to_string() },
        ),
        Value::String(s) => ValueNode::String(s),
        Value::Array(items) => ValueNode::Array(items),
        Value::Object(members) => ValueNode::Object(members.iter().collect()),
    }
}

/// Copies a `serde_json::Value` out into a [`Json`].
fn json_of_value(value: &Value) -> (json: Json)
    ensures
        json@ == value_tree(*value),
    decreases value_tree(*value),
{
    match value_node(value) {
        ValueNode::Null => Json::Null,
        ValueNode::Bool(b) => Json::Bool(b),
        ValueNode::Number(n) => Json::Number(n),
        ValueNode::String(s) => Json::String(s.clone()),
        ValueNode::Array(items) => {
            let mut copied: Vec<Json> = Vec::new();
            let mut i: usize = 0;
            while i < items.len()
                invariant
                    i <= items@.len(),
                    copied@.len() == i,
                    value_tree(*value) is Array,
                    value_tree(*value)->Array_0.len() == items@.len(),
                    forall|k: int|
                        0 <= k < items@.len() ==> value_tree(*value)->Array_0[k] == value_tree(
                            #[trigger] items@[k],
                        ),
                    forall|k: int| 0 <= k < i ==> (#[trigger] copied@[k])@ == value_tree(items@[k]),
                decreases items@.len() - i,
            {
                let item = json_of_value(&items[i]);
                copied.push(item);
                i += 1;
            }
            let json = Json::Array(copied);
            proof {
                assert(json@->Array_0 =~= value_tree(*value)->Array_0);
            }
            json
        },
        ValueNode::Object(members) => {
            let mut copied: Vec<JsonMember> = Vec::new();
            let mut i: usize = 0;
            while i < members.len()
                invariant
                    i <= members@.len(),
                    copied@.len() == i,
                    value_tree(*value) is Object,
                    value_tree(*value)->Object_0.len() == members@.len(),
                    forall|k: int|
                        0 <= k < members@.len() ==> value_tree(*value)->Object_0[k] == (MemberTree {
                            key: (#[trigger] members@[k]).0@,
                            value: value_tree(*members@[k].1),
                        }),
                    forall|k: int|
                        0 <= k < i ==> (#[trigger] copied@[k])@ == value_tree(*value)->Object_0[k],
                decreases members@.len() - i,
            {
                let (key, child) = members[i];
                proof {
                    let held = value_tree(*value)->Object_0;
                    assert(decreases_to!(value_tree(*value) => held));
                    assert(decreases_to!(held => held[i as int]));
                    assert(decreases_to!(held[i as int] => held[i as int].value));
                }
                let member = JsonMember { key: key.clone(), value: json_of_value(child) };
                copied.push(member);
                i += 1;
            }
            let json = Json::Object(copied);
            proof {
                assert(json@->Object_0 =~= value_tree(*value)->Object_0);
            }
            json
        },
    }
}

/// Reads a JSON text. The error is the reader's own message.
pub fn read_json(text: &str) -> (r: Result<Json, String>)
    ensures
        match r {
            Ok(json) => json_document(text@) == Ok::<JsonTree, Seq<char>>(json@),
            Err(error) => json_document(text@) == Err::<JsonTree, Seq<char>>(error@),
        },
{
    match value_from_str(text) {
        Ok(value) => Ok(json_of_value(&value)),
        Err(error) => Err(error),
    }
}

// ── Writing ────────────────────────────────────────────────────────────────

/// The order of keys: by the first character that differs, a prefix first.
pub open spec fn key_before(a: Seq<char>, b: Seq<char>) -> bool
    decreases a.len(),
{
    if b.len() == 0 {
        false
    } else if a.len() == 0 {
        true
    } else if a[0] == b[0] {
        key_before(a.skip(1), b.skip(1))
    } else {
        a[0] < b[0]
    }
}

/// What a `serde_json::Value` is made of.
pub(crate) enum NewValue {
    Null,
    String(String),
    Object(Vec<(String, Value)>),
}

/// Makes a `serde_json::Value` of its variant and fields, an object by `from_iter` of its map. Claims
/// that its tree holds them, the members of an object in the order of their keys, in which they have
/// to come.
#[verifier::external_body]
pub(crate) fn make_value(parts: NewValue) -> (r: Value)
    requires
        parts matches NewValue::Object(members) ==> forall|i: int, k: int|
            0 <= i < k < members@.len() ==> key_before(
                (#[trigger] members@[i]).0@,
                (#[trigger] members@[k]).0@,
            ),
    ensures
        match parts {
            NewValue::Null => value_tree(r) == JsonTree::Null,
            NewValue::String(text) => value_tree(r) == JsonTree::String(text@),
            NewValue::Object(members) => value_tree(r) == JsonTree::Object(
                members@.map_values(
                    |m: (String, Value)| MemberTree { key: m.0@, value: value_tree(m.1) },
                ),
            ),
        },
{
    match parts {
        NewValue::Null => Value::Null,
        NewValue::String(text) => Value::String(text),
        NewValue::Object(members) => Value::Object(serde_json::Map::from_iter(members)),
    }
}

/// The text that `serde_json::to_string` writes for a document.
pub uninterp spec fn json_text(tree: JsonTree) -> Seq<char>;

/// Calls `serde_json::to_string` on a `serde_json::Value`, which always succeeds. Claims that the text
/// is the one which [`json_text`] names.
#[verifier::external_body]
pub(crate) fn write_value(value: &Value) -> (r: String)
    ensures
        r@ == json_text(value_tree(*value)),
{
    serde_json::to_string(value).unwrap()
}

/// A member with a key and a value.
pub fn member(key: &str, value: Json) -> (r: JsonMember)
    ensures
        r@ == (MemberTree { key: key@, value: value@ }),
{
    JsonMember { key: key.to_owned(), value }
}

/// A text as a document.
pub fn text(value: &str) -> (r: Json)
    ensures
        r@ == JsonTree::String(value@),
{
    Json::String(value.to_owned())
}

/// An object with these members.
pub fn object(members: Vec<JsonMember>) -> (r: Json)
    ensures
        r@ == JsonTree::Object(members@.map_values(|m: JsonMember| m@)),
{
    let ghost trees = members@.map_values(|m: JsonMember| m@);
    let r = Json::Object(members);
    assert(r@->Object_0 =~= trees);
    r
}

impl Clone for Json {
    /// Copies a document.
    fn clone(&self) -> (r: Json)
        ensures
            r@ == self@,
        decreases self@,
    {
        match self {
            Json::Null => Json::Null,
            Json::Bool(b) => Json::Bool(*b),
            Json::Number(n) => Json::Number(
                JsonNumber { int: n.int, uint: n.uint, text: n.text.clone() },
            ),
            Json::String(s) => Json::String(s.clone()),
            Json::Array(items) => {
                let mut copied: Vec<Json> = Vec::new();
                let mut i: usize = 0;
                while i < items.len()
                    invariant
                        *self == Json::Array(*items),
                        i <= items@.len(),
                        copied@.len() == i,
                        forall|k: int| 0 <= k < i ==> (#[trigger] copied@[k])@ == items@[k]@,
                    decreases items@.len() - i,
                {
                    proof {
                        let held = self@->Array_0;
                        assert(decreases_to!(self@ => held));
                        assert(decreases_to!(held => held[i as int]));
                        assert(held[i as int] == items@[i as int]@);
                    }
                    copied.push(items[i].clone());
                    i += 1;
                }
                let json = Json::Array(copied);
                assert(json@->Array_0 =~= self@->Array_0);
                json
            },
            Json::Object(members) => {
                let mut copied: Vec<JsonMember> = Vec::new();
                let mut i: usize = 0;
                while i < members.len()
                    invariant
                        *self == Json::Object(*members),
                        i <= members@.len(),
                        copied@.len() == i,
                        forall|k: int| 0 <= k < i ==> (#[trigger] copied@[k])@ == members@[k]@,
                    decreases members@.len() - i,
                {
                    let member = &members[i];
                    proof {
                        let held = self@->Object_0;
                        assert(decreases_to!(self@ => held));
                        assert(decreases_to!(held => held[i as int]));
                        assert(decreases_to!(held[i as int] => held[i as int].value));
                        assert(held[i as int] == member@);
                    }
                    copied.push(
                        JsonMember { key: member.key.clone(), value: member.value.clone() },
                    );
                    i += 1;
                }
                let json = Json::Object(copied);
                assert(json@->Object_0 =~= self@->Object_0);
                json
            },
        }
    }
}

// ── Laws ───────────────────────────────────────────────────────────────────

/// A document stands for what it holds: a scalar for itself, an array for its items and an object for
/// its members, each at its place.
pub proof fn law_documents_stand_for_what_they_hold(json: Json)
    ensures
        json is Null <==> json@ is Null,
        json matches Json::Bool(b) ==> json@ == JsonTree::Bool(b),
        json matches Json::Number(n) ==> json@ matches JsonTree::Number(tree) && tree.int == n.int
            && tree.uint == n.uint && tree.text == n.text@,
        json matches Json::String(s) ==> json@ == JsonTree::String(s@),
        json matches Json::Array(items) ==> json@ matches JsonTree::Array(trees) && trees.len()
            == items@.len() && forall|i: int|
            0 <= i < items@.len() ==> #[trigger] trees[i] == items@[i]@,
        json matches Json::Object(members) ==> json@ matches JsonTree::Object(trees) && trees.len()
            == members@.len() && forall|i: int|
            0 <= i < members@.len() ==> (#[trigger] trees[i]).key == members@[i].key@
                && trees[i].value == members@[i].value@,
{
    if let Json::Object(members) = json {
        assert forall|i: int| 0 <= i < members@.len() implies (#[trigger] json@->Object_0[i]).key
            == members@[i].key@ && json@->Object_0[i].value == members@[i].value@ by {
            assert(json@->Object_0[i] == member_tree(members@[i]));
        }
    }
}

} // verus!
