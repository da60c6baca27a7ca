//! JSON values as plain data.

use crate::hexadecimal::hex_char;
use crate::text::{bool_chars, joined, same};
use serde_json::Value;
use vstd::prelude::*;
use vstd::utf8::encode_utf8;

verus! {

/// A JSON value together with its compact text.
#[derive(Debug)]
pub struct Json {
    pub text: String,
    pub node: JsonNode,
}

/// What a JSON value is.
#[derive(Debug)]
pub enum JsonNode {
    Null,
    Bool(bool),
    Number(JsonNumber),
    Text(String),
    Array(Vec<Json>),
    /// The members of an object, in the order in which they are written.
    Object(Vec<Member>),
}

/// A JSON number.
#[derive(Debug)]
pub struct JsonNumber {
    /// The number, where it is written as an integer and fits.
    pub natural: Option<u64>,
    /// The number in decimal.
    pub text: String,
}

/// A member of a JSON object.
#[derive(Debug)]
pub struct Member {
    pub key: String,
    pub value: Json,
}

/// The mathematical value of a [`Json`].
pub struct JsonView {
    pub text: Seq<char>,
    pub node: JsonNodeView,
}

/// The mathematical value of a [`JsonNode`].
pub enum JsonNodeView {
    Null,
    Bool(bool),
    Number(Option<u64>, Seq<char>),
    Text(Seq<char>),
    Array(Seq<JsonView>),
    Object(Seq<(Seq<char>, JsonView)>),
}

impl View for Json {
    type V = JsonView;

    open spec fn view(&self) -> JsonView {
        json_view(*self)
    }
}

/// The mathematical value of a JSON value.
pub open spec fn json_view(json: Json) -> JsonView
    decreases json,
{
    JsonView { text: json.text@, node: node_view(json.node) }
}

/// The mathematical value of a node.
pub open spec fn node_view(node: JsonNode) -> JsonNodeView
    decreases node,
{
    match node {
        JsonNode::Null => JsonNodeView::Null,
        JsonNode::Bool(b) => JsonNodeView::Bool(b),
        JsonNode::Number(n) => JsonNodeView::Number(n.natural, n.text@),
        JsonNode::Text(s) => JsonNodeView::Text(s@),
        JsonNode::Array(items) => JsonNodeView::Array(items_view(items@, items@.len())),
        JsonNode::Object(members) => JsonNodeView::Object(members_view(members@, members@.len())),
    }
}

/// The mathematical values of the first `n` items of an array.
pub open spec fn items_view(items: Seq<Json>, n: nat) -> Seq<JsonView>
    decreases items, n,
{
    if n == 0 || n > items.len() {
        seq![]
    } else {
        items_view(items, (n - 1) as nat).push(json_view(items[n - 1]))
    }
}

/// The mathematical values of the first `n` members of an object.
pub open spec fn members_view(members: Seq<Member>, n: nat) -> Seq<(Seq<char>, JsonView)>
    decreases members, n,
{
    if n == 0 || n > members.len() {
        seq![]
    } else {
        let member = members[n - 1];
        members_view(members, (n - 1) as nat).push((member.key@, json_view(member.value)))
    }
}

/// A character inside a JSON string.
pub open spec fn escaped(c: char) -> Seq<char> {
    let n = c as u32 as int;
    if c == '"' {
        seq!['\\', '"']
    } else if c == '\\' {
        seq!['\\', '\\']
    } else if n == 8 {
        seq!['\\', 'b']
    } else if c == '\t' {
        seq!['\\', 't']
    } else if c == '\n' {
        seq!['\\', 'n']
    } else if n == 12 {
        seq!['\\', 'f']
    } else if c == '\r' {
        seq!['\\', 'r']
    } else if n < 32 {
        seq!['\\', 'u', '0', '0', hex_char(n / 16), hex_char(n % 16)]
    } else {
        seq![c]
    }
}

/// The characters of a text inside a JSON string.
pub open spec fn escaped_chars(s: Seq<char>) -> Seq<char>
    decreases s.len(),
{
    if s.len() == 0 {
        seq![]
    } else {
        escaped_chars(s.drop_last()) + escaped(s.last())
    }
}

/// A text as a JSON string.
pub open spec fn quoted_chars(s: Seq<char>) -> Seq<char> {
    "\""@ + escaped_chars(s) + "\""@
}

/// The compact text of a JSON value.
pub open spec fn compact_chars(node: JsonNodeView) -> Seq<char>
    decreases node,
{
    match node {
        JsonNodeView::Null => "null"@,
        JsonNodeView::Bool(b) => bool_chars(b),
        JsonNodeView::Number(_, text) => text,
        JsonNodeView::Text(s) => quoted_chars(s),
        JsonNodeView::Array(items) => "["@ + joined(compact_items(items, items.len()), ","@)
            + "]"@,
        JsonNodeView::Object(members) => "{"@ + joined(
            compact_members(members, members.len()),
            ","@,
        ) + "}"@,
    }
}

/// The compact texts of the first `n` items of an array.
pub open spec fn compact_items(items: Seq<JsonView>, n: nat) -> Seq<Seq<char>>
    decreases items, n,
{
    if n == 0 || n > items.len() {
        seq![]
    } else {
        compact_items(items, (n - 1) as nat).push(compact_chars(items[n - 1].node))
    }
}

/// The compact texts of the first `n` members of an object.
pub open spec fn compact_members(members: Seq<(Seq<char>, JsonView)>, n: nat) -> Seq<Seq<char>>
    decreases members, n,
{
    if n == 0 || n > members.len() {
        seq![]
    } else {
        let member = members[n - 1];
        compact_members(members, (n - 1) as nat).push(
            quoted_chars(member.0) + ":"@ + compact_chars(member.1.node),
        )
    }
}

/// Whether a JSON value, and every value inside it, carries its compact text.
pub open spec fn is_compact(json: JsonView) -> bool
    decreases json,
{
    &&& json.text == compact_chars(json.node)
    &&& match json.node {
        JsonNodeView::Array(items) => forall|i: int|
            0 <= i < items.len() ==> is_compact(#[trigger] items[i]),
        JsonNodeView::Object(members) => forall|i: int|
            0 <= i < members.len() ==> is_compact((#[trigger] members[i]).1),
        _ => true,
    }
}

/// A text as a JSON value.
pub open spec fn text_view(s: Seq<char>) -> JsonView {
    JsonView { text: quoted_chars(s), node: JsonNodeView::Text(s) }
}

/// Texts as a JSON array.
pub open spec fn texts_view(texts: Seq<Seq<char>>) -> JsonView {
    JsonView {
        text: texts_chars(texts),
        node: JsonNodeView::Array(Seq::new(texts.len(), |i: int| text_view(texts[i]))),
    }
}

/// The compact text of a JSON array of texts.
pub open spec fn texts_chars(texts: Seq<Seq<char>>) -> Seq<char> {
    "["@ + joined(Seq::new(texts.len(), |i: int| quoted_chars(texts[i])), ","@) + "]"@
}

/// Whether a JSON value is an array of nothing but texts.
pub open spec fn is_text_array(json: JsonView) -> bool {
    json.node matches JsonNodeView::Array(items) && forall|i: int|
        0 <= i < items.len() ==> (#[trigger] items[i]).node is Text
}

/// The value of the first member with a key, in a sequence of members.
pub open spec fn looked_up(members: Seq<(Seq<char>, JsonView)>, key: Seq<char>) -> Option<JsonView>
    decreases members.len(),
{
    if members.len() == 0 {
        None
    } else if members.first().0 == key {
        Some(members.first().1)
    } else {
        looked_up(members.drop_first(), key)
    }
}

/// The value that an object holds under a key; what is no object holds none.
pub open spec fn member_of(json: JsonView, key: Seq<char>) -> Option<JsonView> {
    match json.node {
        JsonNodeView::Object(members) => looked_up(members, key),
        _ => None,
    }
}

/// The text that an object holds under a key, where it holds one.
pub open spec fn text_member(json: JsonView, key: Seq<char>) -> Option<Seq<char>> {
    match member_of(json, key) {
        Some(value) => match value.node {
            JsonNodeView::Text(s) => Some(s),
            _ => None,
        },
        None => None,
    }
}

/// The natural number that an object holds under a key, where it holds one.
pub open spec fn natural_member(json: JsonView, key: Seq<char>) -> Option<u64> {
    match member_of(json, key) {
        Some(value) => match value.node {
            JsonNodeView::Number(natural, _) => natural,
            _ => None,
        },
        None => None,
    }
}

/// The truth value that an object holds under a key, where it holds one.
pub open spec fn bool_member(json: JsonView, key: Seq<char>) -> Option<bool> {
    match member_of(json, key) {
        Some(value) => match value.node {
            JsonNodeView::Bool(b) => Some(b),
            _ => None,
        },
        None => None,
    }
}

/// The items of the array that an object holds under a key, where it holds one.
pub open spec fn array_member(json: JsonView, key: Seq<char>) -> Option<Seq<JsonView>> {
    match member_of(json, key) {
        Some(value) => match value.node {
            JsonNodeView::Array(items) => Some(items),
            _ => None,
        },
        None => None,
    }
}

/// The JSON value that a `serde_json::Value` holds.
pub uninterp spec fn value_view(value: Value) -> JsonView;

/// What `serde_json` reads from bytes, where they are a JSON document to it.
pub uninterp spec fn json_parsed(bytes: Seq<u8>) -> Option<JsonView>;

/// `serde_json::Value`, a JSON value.
#[verifier::external_type_specification]
#[verifier::external_body]
pub struct ExValue(Value);

/// One level of a `serde_json::Value`.
enum ValueNode<'a> {
    Null,
    Bool(bool),
    Number(Option<u64>, String),
    Text(&'a String),
    Array(&'a Vec<Value>),
    Object(Vec<(&'a String, &'a Value)>),
}

/// Calls `serde_json::from_slice` for a `serde_json::Value`. Whether it reads a value, and which,
/// is a function of the bytes. What it says of bytes that it cannot read is dropped.
#[verifier::external_body]
fn value_from_slice(bytes: &[u8]) -> (res: Option<Value>)
    ensures
        match json_parsed(bytes@) {
            Some(view) => res is Some && value_view(res->0) == view,
            None => res is None,
        },
{
    serde_json::from_slice(bytes).ok()
}

/// Tells the variants of a `serde_json::Value` apart and hands out their fields: of a number what
/// `as_u64` and `to_string` return, of an object its members in the order of the map.
#[verifier::external_body]
fn value_node<'a>(value: &'a Value) -> (res: ValueNode<'a>)
    ensures
        match value_view(*value).node {
            JsonNodeView::Null => res is Null,
            JsonNodeView::Bool(b) => res == ValueNode::Bool(b),
            JsonNodeView::Number(natural, text) => res matches ValueNode::Number(n, t) && n
                == natural && t@ == text,
            JsonNodeView::Text(text) => res matches ValueNode::Text(t) && t@ == text,
            JsonNodeView::Array(views) => res matches ValueNode::Array(items) && items@.len()
                == views.len() && forall|i: int|
                0 <= i < views.len() ==> value_view(#[trigger] items@[i]) == views[i],
            JsonNodeView::Object(views) => res matches ValueNode::Object(members)
                && members@.len() == views.len() && forall|i: int|
                0 <= i < views.len() ==> (#[trigger] members@[i]).0@ == views[i].0 && value_view(
                    *members@[i].1,
                ) == views[i].1,
        },
{
    match value {
        Value::Null => ValueNode::Null,
        Value::Bool(b) => ValueNode::Bool(*b),
        Value::Number(n) => ValueNode::Number(n.as_u64(), n.to_string()),
        Value::String(s) => ValueNode::Text(s),
        Value::Array(items) => ValueNode::Array(items),
        Value::Object(members) => ValueNode::Object(members.iter().collect()),
    }
}

/// Calls `to_string` of `serde_json::Value`, which writes the value as compact JSON: no white
/// space, the members of an object in the order of the map, numbers as they are shown alone. From
/// what it writes for an array of texts, `serde_json::from_slice` reads the same array.
#[verifier::external_body]
fn value_text(value: &Value) -> (res: String)
    ensures
        res@ == value_view(*value).text,
        res@ == compact_chars(value_view(*value).node),
        is_text_array(value_view(*value)) ==> json_parsed(encode_utf8(res@)) == Some(
            value_view(*value),
        ),
{
    value.to_string()
}

/// Calls `from` of `serde_json::Value` for a vector of strings, which makes an array of them.
#[verifier::external_body]
fn value_of_texts(texts: Vec<String>) -> (res: Value)
    ensures
        value_view(res) == texts_view(texts.deep_view()),
{
    Value::from(texts)
}

/// Calls `to_string` of a `serde_json::Value` that is a string: the text between double quotes,
/// with escapes for the double quote, the backslash and the characters below the space.
#[verifier::external_body]
pub(crate) fn quoted(text: &str) -> (res: String)
    ensures
        res@ == quoted_chars(text@),
{
    Value::String(text.to_string()).to_string()
}

/// Copies a `serde_json::Value` into plain data.
fn json_of_value(value: &Value) -> (res: Json)
    ensures
        res@ == value_view(*value),
        is_compact(res@),
    decreases value_view(*value),
{
    let text = value_text(value);
    let ghost view = value_view(*value);
    let node = match value_node(value) {
        ValueNode::Null => JsonNode::Null,
        ValueNode::Bool(b) => JsonNode::Bool(b),
        ValueNode::Number(natural, text) => JsonNode::Number(JsonNumber { natural, text }),
        ValueNode::Text(s) => JsonNode::Text(s.clone()),
        ValueNode::Array(values) => {
            let ghost views = view.node->Array_0;
            let mut items: Vec<Json> = Vec::new();
            for i in 0..values.len()
                invariant
                    view == value_view(*value),
                    view.node == JsonNodeView::Array(views),
                    values@.len() == views.len(),
                    forall|j: int|
                        0 <= j < views.len() ==> value_view(#[trigger] values@[j]) == views[j],
                    items@.len() == i,
                    items_view(items@, i as nat) == views.take(i as int),
                    forall|j: int| 0 <= j < i ==> is_compact(#[trigger] views[j]),
            {
                let ghost before = items@;
                assert(decreases_to!(view => view.node));
                assert(decreases_to!(view.node => view.node->Array_0));
                assert(decreases_to!(views => views[i as int]));
                let item = json_of_value(&values[i]);
                items.push(item);
                proof {
                    lemma_items_view_push(before, item);
                    assert(views.take(i + 1) =~= views.take(i as int).push(views[i as int]));
                }
            }
            assert(views.take(views.len() as int) =~= views);
            JsonNode::Array(items)
        },
        ValueNode::Object(values) => {
            let ghost views = view.node->Object_0;
            let mut members: Vec<Member> = Vec::new();
            for i in 0..values.len()
                invariant
                    view == value_view(*value),
                    view.node == JsonNodeView::Object(views),
                    values@.len() == views.len(),
                    forall|j: int|
                        0 <= j < views.len() ==> (#[trigger] values@[j]).0@ == views[j].0
                            && value_view(*values@[j].1) == views[j].1,
                    members@.len() == i,
                    members_view(members@, i as nat) == views.take(i as int),
                    forall|j: int| 0 <= j < i ==> is_compact((#[trigger] views[j]).1),
            {
                let ghost before = members@;
                assert(decreases_to!(view => view.node));
                assert(decreases_to!(view.node => view.node->Object_0));
                assert(decreases_to!(views => views[i as int]));
                assert(decreases_to!(views[i as int] => views[i as int].1));
                assert(values@[i as int].0@ == views[i as int].0);
                let member = Member {
                    key: values[i].0.clone(),
                    value: json_of_value(values[i].1),
                };
                members.push(member);
                proof {
                    lemma_members_view_push(before, member);
                    assert(views.take(i + 1) =~= views.take(i as int).push(views[i as int]));
                }
            }
            assert(views.take(views.len() as int) =~= views);
            JsonNode::Object(members)
        },
    };
    Json { text, node }
}

/// Reads a JSON document. The document and every value inside it carry their compact texts.
pub fn parse(bytes: &[u8]) -> (res: Option<Json>)
    ensures
        match json_parsed(bytes@) {
            Some(view) => res is Some && res->0@ == view,
            None => res is None,
        },
        res is Some ==> is_compact(res->0@),
{
    match value_from_slice(bytes) {
        Some(value) => Some(json_of_value(&value)),
        None => None,
    }
}

/// Writes texts as a JSON array, from which the same texts are read.
pub fn write_texts(texts: Vec<String>) -> (res: String)
    ensures
        res@ == texts_chars(texts.deep_view()),
        json_parsed(encode_utf8(res@)) == Some(texts_view(texts.deep_view())),
{
    let ghost views = texts.deep_view();
    let value = value_of_texts(texts);
    proof {
        lemma_texts_are_compact(views);
        let items = texts_view(views).node->Array_0;
        assert forall|i: int| 0 <= i < items.len() implies (#[trigger] items[i]).node is Text by {}
    }
    value_text(&value)
}

impl Json {
    /// The value under a key of an object.
    pub fn get(&self, key: &str) -> (res: Option<&Json>)
        ensures
            match member_of(self@, key@) {
                Some(view) => res is Some && res->0@ == view,
                None => res is None,
            },
    {
        let members = match &self.node {
            JsonNode::Object(members) => members,
            _ => {
                return None;
            },
        };
        let ghost views = members_view(members@, members@.len());
        proof {
            lemma_members_view(members@, members@.len());
            assert(views.skip(0) =~= views);
        }
        for i in 0..members.len()
            invariant
                views == members_view(members@, members@.len()),
                views.len() == members@.len(),
                forall|j: int|
                    0 <= j < members@.len() ==> (#[trigger] views[j]) == (
                        members@[j].key@,
                        members@[j].value@,
                    ),
                member_of(self@, key@) == looked_up(views.skip(i as int), key@),
        {
            let ghost rest = views.skip(i as int);
            assert(rest.first() == views[i as int]);
            assert(rest.drop_first() =~= views.skip(i + 1));
            if same(members[i].key.as_str(), key) {
                return Some(&members[i].value);
            }
        }
        None
    }

    /// The text under a key of an object.
    pub fn get_text(&self, key: &str) -> (res: Option<String>)
        ensures
            res.deep_view() == text_member(self@, key@),
    {
        match self.get(key) {
            Some(value) => match &value.node {
                JsonNode::Text(s) => Some(s.clone()),
                _ => None,
            },
            None => None,
        }
    }

    /// The natural number under a key of an object.
    pub fn get_natural(&self, key: &str) -> (res: Option<u64>)
        ensures
            res == natural_member(self@, key@),
    {
        match self.get(key) {
            Some(value) => match &value.node {
                JsonNode::Number(n) => n.natural,
                _ => None,
            },
            None => None,
        }
    }

    /// The truth value under a key of an object.
    pub fn get_bool(&self, key: &str) -> (res: Option<bool>)
        ensures
            res == bool_member(self@, key@),
    {
        match self.get(key) {
            Some(value) => match &value.node {
                JsonNode::Bool(b) => Some(*b),
                _ => None,
            },
            None => None,
        }
    }

    /// The array under a key of an object.
    pub fn get_array(&self, key: &str) -> (res: Option<&Vec<Json>>)
        ensures
            match array_member(self@, key@) {
                Some(views) => res is Some && items_view(res->0@, res->0@.len()) == views,
                None => res is None,
            },
    {
        match self.get(key) {
            Some(value) => match &value.node {
                JsonNode::Array(items) => Some(items),
                _ => None,
            },
            None => None,
        }
    }
}

/// What an object holds carries its compact text, and so does every value inside it, where that
/// is so of the object.
pub proof fn lemma_member_is_compact(json: JsonView, key: Seq<char>)
    requires
        is_compact(json),
    ensures
        member_of(json, key) matches Some(value) ==> is_compact(value),
{
    match json.node {
        JsonNodeView::Object(members) => {
            lemma_looked_up_is_compact(members, key);
        },
        _ => {},
    }
}

/// What is looked up among members carries its compact text where that is so of all of them.
proof fn lemma_looked_up_is_compact(members: Seq<(Seq<char>, JsonView)>, key: Seq<char>)
    requires
        forall|i: int| 0 <= i < members.len() ==> is_compact((#[trigger] members[i]).1),
    ensures
        looked_up(members, key) matches Some(value) ==> is_compact(value),
    decreases members.len(),
{
    if members.len() > 0 {
        assert(is_compact(members[0].1));
        let rest = members.drop_first();
        assert forall|i: int| 0 <= i < rest.len() implies is_compact((#[trigger] rest[i]).1) by {
            assert(rest[i] == members[i + 1]);
        }
        lemma_looked_up_is_compact(rest, key);
    }
}

/// An array of texts is written between brackets, with a comma between each two texts.
pub proof fn lemma_texts_are_compact(texts: Seq<Seq<char>>)
    ensures
        compact_chars(texts_view(texts).node) == texts_chars(texts),
{
    let items = texts_view(texts).node->Array_0;
    let quoted_texts = Seq::new(texts.len(), |i: int| quoted_chars(texts[i]));
    lemma_compact_texts(texts, items.len());
    assert(compact_items(items, items.len()) =~= quoted_texts);
}

/// The compact texts of an array of texts are the texts, quoted.
proof fn lemma_compact_texts(texts: Seq<Seq<char>>, n: nat)
    requires
        n <= texts.len(),
    ensures
        ({
            let items = texts_view(texts).node->Array_0;
            &&& compact_items(items, n).len() == n
            &&& forall|i: int|
                0 <= i < n ==> #[trigger] compact_items(items, n)[i] == quoted_chars(texts[i])
        }),
    decreases n,
{
    if n > 0 {
        let items = texts_view(texts).node->Array_0;
        lemma_compact_texts(texts, (n - 1) as nat);
        assert(items[n - 1].node == JsonNodeView::Text(texts[n - 1]));
        assert(compact_chars(items[n - 1].node) == quoted_chars(texts[n - 1]));
        assert(compact_items(items, n) == compact_items(items, (n - 1) as nat).push(
            quoted_chars(texts[n - 1]),
        ));
    }
}

/// The view of an array holds the views of its items, in order.
pub proof fn lemma_items_view(items: Seq<Json>, n: nat)
    requires
        n <= items.len(),
    ensures
        items_view(items, n).len() == n,
        forall|i: int| 0 <= i < n ==> #[trigger] items_view(items, n)[i] == items[i]@,
    decreases n,
{
    if n > 0 {
        lemma_items_view(items, (n - 1) as nat);
    }
}

/// The view of an object holds the keys and the views of its members, in order.
pub proof fn lemma_members_view(members: Seq<Member>, n: nat)
    requires
        n <= members.len(),
    ensures
        members_view(members, n).len() == n,
        forall|i: int|
            0 <= i < n ==> #[trigger] members_view(members, n)[i] == (
                members[i].key@,
                members[i].value@,
            ),
    decreases n,
{
    if n > 0 {
        lemma_members_view(members, (n - 1) as nat);
    }
}

/// The view of an array that has grown by one item.
proof fn lemma_items_view_push(items: Seq<Json>, item: Json)
    ensures
        items_view(items.push(item), items.len() + 1) == items_view(items, items.len()).push(
            item@,
        ),
{
    lemma_items_view_prefix(items, items.push(item), items.len());
}

/// The first views of an array depend on its first items alone.
proof fn lemma_items_view_prefix(a: Seq<Json>, b: Seq<Json>, n: nat)
    requires
        n <= a.len(),
        n <= b.len(),
        forall|i: int| 0 <= i < n ==> a[i] == b[i],
    ensures
        items_view(a, n) == items_view(b, n),
    decreases n,
{
    if n > 0 {
        lemma_items_view_prefix(a, b, (n - 1) as nat);
    }
}

/// The view of an object that has grown by one member.
proof fn lemma_members_view_push(members: Seq<Member>, member: Member)
    ensures
        members_view(members.push(member), members.len() + 1) == members_view(
            members,
            members.len(),
        ).push((member.key@, member.value@)),
{
    lemma_members_view_prefix(members, members.push(member), members.len());
}

/// The first views of an object depend on its first members alone.
proof fn lemma_members_view_prefix(a: Seq<Member>, b: Seq<Member>, n: nat)
    requires
        n <= a.len(),
        n <= b.len(),
        forall|i: int| 0 <= i < n ==> a[i] == b[i],
    ensures
        members_view(a, n) == members_view(b, n),
    decreases n,
{
    if n > 0 {
        lemma_members_view_prefix(a, b, (n - 1) as nat);
    }
}

/// The mathematical value of a JSON value shows its text and what it is, with nothing changed.
pub proof fn lemma_view_shows_the_value(json: Json)
    ensures
        json@.text == json.text@,
        json.node is Null <==> json@.node is Null,
        json.node matches JsonNode::Bool(b) ==> json@.node == JsonNodeView::Bool(b),
        json.node matches JsonNode::Number(n) ==> json@.node == JsonNodeView::Number(
            n.natural,
            n.text@,
        ),
        json.node matches JsonNode::Text(s) ==> json@.node == JsonNodeView::Text(s@),
        json.node matches JsonNode::Array(items) ==> {
            &&& json@.node matches JsonNodeView::Array(views)
            &&& views.len() == items@.len()
            &&& forall|i: int| 0 <= i < views.len() ==> #[trigger] views[i] == items@[i]@
        },
        json.node matches JsonNode::Object(members) ==> {
            &&& json@.node matches JsonNodeView::Object(views)
            &&& views.len() == members@.len()
            &&& forall|i: int|
                0 <= i < views.len() ==> (#[trigger] views[i]).0 == members@[i].key@ && views[i].1
                    == members@[i].value@
        },
{
    match json.node {
        JsonNode::Array(items) => {
            lemma_items_view(items@, items@.len());
        },
        JsonNode::Object(members) => {
            lemma_members_view(members@, members@.len());
        },
        _ => {},
    }
}

/// The value under a key is that of the first member with the key; a reading of it as a text, a
/// natural number, a truth value or an array gives what it is, and nothing where it is something
/// else.
pub proof fn lemma_member_of_an_object(
    json: JsonView,
    members: Seq<(Seq<char>, JsonView)>,
    key: Seq<char>,
    i: int,
)
    requires
        json.node == JsonNodeView::Object(members),
        0 <= i < members.len(),
        members[i].0 == key,
        forall|j: int| 0 <= j < i ==> (#[trigger] members[j]).0 != key,
    ensures
        member_of(json, key) == Some(members[i].1),
        members[i].1.node matches JsonNodeView::Text(s) ==> text_member(json, key) == Some(s),
        !(members[i].1.node is Text) ==> text_member(json, key) is None,
        members[i].1.node matches JsonNodeView::Number(n, _) ==> natural_member(json, key) == n,
        !(members[i].1.node is Number) ==> natural_member(json, key) is None,
        members[i].1.node matches JsonNodeView::Bool(b) ==> bool_member(json, key) == Some(b),
        !(members[i].1.node is Bool) ==> bool_member(json, key) is None,
        members[i].1.node matches JsonNodeView::Array(a) ==> array_member(json, key) == Some(a),
        !(members[i].1.node is Array) ==> array_member(json, key) is None,
{
    lemma_looked_up_is_the_first(members, key, i);
}

/// What is no object, and an object without a member of that key, holds nothing under a key.
pub proof fn lemma_no_member(json: JsonView, key: Seq<char>)
    requires
        json.node matches JsonNodeView::Object(members) ==> forall|j: int|
            0 <= j < members.len() ==> (#[trigger] members[j]).0 != key,
    ensures
        member_of(json, key) is None,
        text_member(json, key) is None,
        natural_member(json, key) is None,
        bool_member(json, key) is None,
        array_member(json, key) is None,
{
    match json.node {
        JsonNodeView::Object(members) => {
            lemma_looked_up_is_the_first(members, key, members.len() as int);
        },
        _ => {},
    }
}

/// The first member with a key is the one that is looked up.
proof fn lemma_looked_up_is_the_first(
    members: Seq<(Seq<char>, JsonView)>,
    key: Seq<char>,
    i: int,
)
    requires
        0 <= i <= members.len(),
        i < members.len() ==> members[i].0 == key,
        forall|j: int| 0 <= j < i ==> (#[trigger] members[j]).0 != key,
    ensures
        i < members.len() ==> looked_up(members, key) == Some(members[i].1),
        i == members.len() ==> looked_up(members, key) is None,
    decreases members.len(),
{
    if i > 0 {
        let rest = members.drop_first();
        assert(members[0].0 != key);
        assert forall|j: int| 0 <= j < i - 1 implies (#[trigger] rest[j]).0 != key by {
            assert(rest[j] == members[j + 1]);
        }
        if i < members.len() {
            assert(rest[i - 1] == members[i]);
        }
        lemma_looked_up_is_the_first(rest, key, i - 1);
    }
}

} // verus!
