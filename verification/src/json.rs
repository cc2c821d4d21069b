//! JSON documents as a tree of plain values.
//!
//! Reading and writing JSON text is the work of `serde_json`, and comments
//! are removed by `json_strip_comments`; both are reached through the three
//! trusted functions of this module. Everything that inspects or changes a
//! tree is verified.

use crate::text::{opt_text, opt_texts, same_text, texts};
use vstd::prelude::*;

verus! {

/// `serde_json::Value`, as it comes from and goes to `serde_json`; nothing
/// is known of what it holds.
#[verifier::external_type_specification]
#[verifier::external_body]
pub struct ExJsonValue(serde_json::Value);

/// `serde_json::Number`, carried through a tree untouched.
#[verifier::external_type_specification]
#[verifier::external_body]
pub struct ExJsonNumber(serde_json::Number);

/// `serde_json::Error`, kept as the cause in the errors of this library.
#[verifier::external_type_specification]
#[verifier::external_body]
pub struct ExJsonError(serde_json::Error);

/// `std::io::Error`, kept as the cause in the errors of this library.
#[verifier::external_type_specification]
#[verifier::external_body]
pub struct ExIoError(std::io::Error);

/// One member of a JSON object.
#[derive(Debug, PartialEq)]
pub struct Member {
    pub key: String,
    pub value: Json,
}

/// A JSON document. A number is carried through as it was read.
#[derive(Debug, PartialEq)]
pub enum Json {
    Null,
    Bool(bool),
    Number(serde_json::Number),
    Text(String),
    Array(Vec<Json>),
    Object(Vec<Member>),
}

/// The mathematical value of a [`Member`].
pub struct MemberView {
    pub key: Seq<char>,
    pub value: JsonView,
}

/// The mathematical value of a [`Json`] tree.
pub enum JsonView {
    Null,
    Bool(bool),
    Number(serde_json::Number),
    Text(Seq<char>),
    Array(Seq<JsonView>),
    Object(Seq<MemberView>),
}

impl View for Json {
    type V = JsonView;

    open spec fn view(&self) -> JsonView
        decreases self,
    {
        match self {
            Json::Null => JsonView::Null,
            Json::Bool(b) => JsonView::Bool(*b),
            Json::Number(n) => JsonView::Number(*n),
            Json::Text(s) => JsonView::Text(s@),
            Json::Array(items) => JsonView::Array(
                Seq::new(
                    items@.len(),
                    |i: int|
                        if 0 <= i < items@.len() {
                            items@[i].view()
                        } else {
                            JsonView::Null
                        },
                ),
            ),
            Json::Object(members) => JsonView::Object(
                Seq::new(
                    members@.len(),
                    |i: int|
                        if 0 <= i < members@.len() {
                            MemberView { key: members@[i].key@, value: members@[i].value.view() }
                        } else {
                            MemberView { key: Seq::empty(), value: JsonView::Null }
                        },
                ),
            ),
        }
    }
}

/// The members of an object, each as its key and its value's view.
pub open spec fn members_view(members: Seq<Member>) -> Seq<MemberView> {
    Seq::new(members.len(), |i: int| MemberView { key: members[i].key@, value: members[i].value@ })
}

/// The items of an array, each as its view.
pub open spec fn items_view(items: Seq<Json>) -> Seq<JsonView> {
    Seq::new(items.len(), |i: int| items[i]@)
}

/// The view of an object is the view of its members, in order.
pub proof fn lemma_object_view(members: Vec<Member>)
    ensures
        Json::Object(members)@ == JsonView::Object(members_view(members@)),
{
    let a = Json::Object(members)@->Object_0;
    let b = members_view(members@);
    assert(a =~= b);
}

/// The view of an array is the view of its items, in order.
pub proof fn lemma_array_view(items: Vec<Json>)
    ensures
        Json::Array(items)@ == JsonView::Array(items_view(items@)),
{
    let a = Json::Array(items)@->Array_0;
    let b = items_view(items@);
    assert(a =~= b);
}

/// The place of `key` among `members`: the last member with that key.
/// Where a key occurs twice the later member stands for it, as it does
/// when such an object is written out and read again.
pub open spec fn position(members: Seq<MemberView>, key: Seq<char>) -> Option<int>
    decreases members.len(),
{
    if members.len() == 0 {
        None
    } else if members.last().key == key {
        Some(members.len() - 1)
    } else {
        position(members.drop_last(), key)
    }
}

/// The value that `members` holds under `key`.
pub open spec fn lookup(members: Seq<MemberView>, key: Seq<char>) -> Option<JsonView> {
    match position(members, key) {
        Some(i) => Some(members[i].value),
        None => None,
    }
}

/// `members` with `value` under `key`: in the place of the member that held
/// the key, or at the end where none did.
pub open spec fn put(
    members: Seq<MemberView>,
    key: Seq<char>,
    value: JsonView,
) -> Seq<MemberView> {
    match position(members, key) {
        Some(i) => members.update(i, MemberView { key, value }),
        None => members.push(MemberView { key, value }),
    }
}

/// What `position` finds: the index of a member with the key, after which
/// the key does not occur; and `None` exactly when the key occurs nowhere.
pub proof fn lemma_position(members: Seq<MemberView>, key: Seq<char>)
    ensures
        match position(members, key) {
            Some(i) => 0 <= i < members.len() && members[i].key == key && forall|j: int|
                i < j < members.len() ==> members[j].key != key,
            None => forall|j: int| 0 <= j < members.len() ==> members[j].key != key,
        },
    decreases members.len(),
{
    if members.len() > 0 && members.last().key != key {
        let front = members.drop_last();
        lemma_position(front, key);
        assert forall|j: int| 0 <= j < front.len() implies front[j] == members[j] by {}
    }
}

/// An index that holds the key and after which the key does not occur is
/// the key's position.
pub proof fn lemma_position_is(members: Seq<MemberView>, key: Seq<char>, i: int)
    requires
        0 <= i < members.len(),
        members[i].key == key,
        forall|j: int| i < j < members.len() ==> members[j].key != key,
    ensures
        position(members, key) == Some(i),
    decreases members.len(),
{
    if members.last().key != key {
        lemma_position_is(members.drop_last(), key, i);
    }
}

/// A key that occurs nowhere has no position.
pub proof fn lemma_position_none(members: Seq<MemberView>, key: Seq<char>)
    requires
        forall|j: int| 0 <= j < members.len() ==> members[j].key != key,
    ensures
        position(members, key) is None,
    decreases members.len(),
{
    if members.len() > 0 {
        lemma_position_none(members.drop_last(), key);
    }
}

/// After `put`, the key holds the new value and every other key holds what
/// it held before.
pub proof fn lemma_put(
    members: Seq<MemberView>,
    key: Seq<char>,
    value: JsonView,
    other: Seq<char>,
)
    ensures
        lookup(put(members, key, value), key) == Some(value),
        other != key ==> lookup(put(members, key, value), other) == lookup(members, other),
{
    let after = put(members, key, value);
    lemma_position(members, key);
    lemma_position(members, other);
    match position(members, key) {
        Some(i) => {
            lemma_position_is(after, key, i);
            if other != key {
                match position(members, other) {
                    Some(k) => {
                        lemma_position_is(after, other, k);
                    },
                    None => {
                        lemma_position_none(after, other);
                    },
                }
            }
        },
        None => {
            lemma_position_is(after, key, members.len() as int);
            if other != key {
                match position(members, other) {
                    Some(k) => {
                        lemma_position_is(after, other, k);
                    },
                    None => {
                        lemma_position_none(after, other);
                    },
                }
            }
        },
    }
}

/// The tree that `serde_json` reads from a text; `None` where it rejects
/// the text.
pub uninterp spec fn parsed_text(text: Seq<char>) -> Option<JsonView>;

/// The text that `serde_json` writes for a tree, indented; `None` where it
/// reports an error.
pub uninterp spec fn rendered_text(tree: JsonView) -> Option<Seq<char>>;

/// The text that `json_strip_comments` leaves of a text; `None` where it
/// reports an error.
pub uninterp spec fn stripped_text(text: Seq<char>) -> Option<Seq<char>>;

/// Moves a `serde_json::Value` into a [`Json`] tree, variant by variant;
/// the members of an object come in the order in which `serde_json::Map`
/// hands them out. Nothing is claimed of the result.
#[verifier::external_body]
fn tree_of_value(value: serde_json::Value) -> Json {
    match value {
        serde_json::Value::Null => Json::Null,
        serde_json::Value::Bool(b) => Json::Bool(b),
        serde_json::Value::Number(n) => Json::Number(n),
        serde_json::Value::String(s) => Json::Text(s),
        serde_json::Value::Array(a) => Json::Array(a.into_iter().map(tree_of_value).collect()),
        serde_json::Value::Object(o) => Json::Object(
            o.into_iter().map(|(key, v)| Member { key, value: tree_of_value(v) }).collect(),
        ),
    }
}

/// Copies a [`Json`] tree into a `serde_json::Value`, variant by variant;
/// where a key occurs twice in an object, `serde_json::Map` keeps the later
/// member. Nothing is claimed of the result.
#[verifier::external_body]
fn value_of_tree(tree: &Json) -> serde_json::Value {
    match tree {
        Json::Null => serde_json::Value::Null,
        Json::Bool(b) => serde_json::Value::Bool(*b),
        Json::Number(n) => serde_json::Value::Number(n.clone()),
        Json::Text(s) => serde_json::Value::String(s.clone()),
        Json::Array(a) => serde_json::Value::Array(a.iter().map(value_of_tree).collect()),
        Json::Object(o) => serde_json::Value::Object(
            o.iter().map(|m| (m.key.clone(), value_of_tree(&m.value))).collect(),
        ),
    }
}

/// Calls `serde_json::from_str` for a `serde_json::Value` and moves the
/// value into a tree. The contract claims only that the outcome is a
/// function of the text: it names the tree and says nothing of what it
/// holds, nor of which texts are refused.
#[verifier::external_body]
pub(crate) fn read_text(text: &str) -> (r: Result<Json, serde_json::Error>)
    ensures
        r is Ok <==> parsed_text(text@) is Some,
        r is Ok ==> parsed_text(text@) == Some(r->Ok_0@),
{
    serde_json::from_str::<serde_json::Value>(text).map(tree_of_value)
}

/// Calls `serde_json::to_string_pretty` on the tree, copied into a
/// `serde_json::Value`. The contract claims only that the outcome is a
/// function of the tree: it names the text and says nothing of what it
/// holds.
#[verifier::external_body]
pub(crate) fn write_text(tree: &Json) -> (r: Result<String, serde_json::Error>)
    ensures
        r is Ok <==> rendered_text(tree@) is Some,
        r is Ok ==> rendered_text(tree@) == Some(r->Ok_0@),
{
    serde_json::to_string_pretty(&value_of_tree(tree))
}

/// Calls `json_strip_comments::strip` on a copy of the text. The contract
/// claims only that the outcome is a function of the text: it names what
/// is left and says nothing of what that is, nor of which texts are
/// refused.
#[verifier::external_body]
pub(crate) fn strip_text(text: &str) -> (r: Result<String, std::io::Error>)
    ensures
        r is Ok <==> stripped_text(text@) is Some,
        r is Ok ==> stripped_text(text@) == Some(r->Ok_0@),
{
    let mut copy = text.to_owned();
    json_strip_comments::strip(copy.as_mut_str()).map(|_| copy)
}

/// The index of the last member of `members` whose key is `key`.
pub fn find_member(members: &Vec<Member>, key: &str) -> (r: Option<usize>)
    ensures
        match r {
            Some(i) => position(members_view(members@), key@) == Some(i as int),
            None => position(members_view(members@), key@) is None,
        },
{
    let ghost model = members_view(members@);
    let mut i: usize = members.len();
    while i > 0
        invariant
            i <= members.len(),
            model == members_view(members@),
            forall|j: int| i <= j < members.len() ==> model[j].key != key@,
        decreases i,
    {
        i = i - 1;
        if same_text(members[i].key.as_str(), key) {
            proof {
                lemma_position_is(model, key@, i as int);
            }
            return Some(i);
        }
    }
    proof {
        lemma_position_none(model, key@);
    }
    None
}

impl Json {
    /// A text tree holding a copy of `text`.
    pub fn text(text: &str) -> (r: Json)
        ensures
            r@ == JsonView::Text(text@),
    {
        Json::Text(text.to_owned())
    }
}

/// Puts `value` under `key`: in place of the member that held the key, or
/// at the end where none did.
pub fn put_member(members: &mut Vec<Member>, key: &str, value: Json)
    ensures
        members_view(final(members)@) == put(members_view(old(members)@), key@, value@),
{
    let ghost before = members_view(members@);
    proof {
        lemma_position(before, key@);
    }
    let entry = Member { key: key.to_owned(), value };
    match find_member(members, key) {
        Some(i) => {
            members.set(i, entry);
            assert(members_view(members@) =~= before.update(i as int, MemberView { key: key@, value: value@ }));
        },
        None => {
            members.push(entry);
            assert(members_view(members@) =~= before.push(MemberView { key: key@, value: value@ }));
        },
    }
}

/// Every item is a text.
pub open spec fn all_text(items: Seq<JsonView>) -> bool {
    forall|i: int| 0 <= i < items.len() ==> #[trigger] items[i] is Text
}

/// The texts of a list whose items are texts.
pub open spec fn plain_texts(items: Seq<JsonView>) -> Seq<Seq<char>> {
    Seq::new(items.len(), |i: int| items[i]->Text_0)
}

/// The list of texts `list` as a tree.
pub open spec fn texts_tree(list: Seq<Seq<char>>) -> JsonView {
    JsonView::Array(Seq::new(list.len(), |i: int| JsonView::Text(list[i])))
}

/// A member that must be a text: `None` where it is absent or anything
/// else.
pub open spec fn required_text(members: Seq<MemberView>, key: Seq<char>) -> Option<Seq<char>> {
    match lookup(members, key) {
        Some(JsonView::Text(t)) => Some(t),
        _ => None,
    }
}

/// A member that may be a text: absent where the key is missing or holds
/// `null`. The outer `None` says that it holds anything else.
pub open spec fn optional_text(members: Seq<MemberView>, key: Seq<char>) -> Option<
    Option<Seq<char>>,
> {
    match lookup(members, key) {
        None => Some(None),
        Some(JsonView::Null) => Some(None),
        Some(JsonView::Text(t)) => Some(Some(t)),
        Some(_) => None,
    }
}

/// A member that may be a list of texts: absent where the key is missing or
/// holds `null`. The outer `None` says that it holds anything else.
pub open spec fn optional_texts(members: Seq<MemberView>, key: Seq<char>) -> Option<
    Option<Seq<Seq<char>>>,
> {
    match lookup(members, key) {
        None => Some(None),
        Some(JsonView::Null) => Some(None),
        Some(JsonView::Array(items)) => if all_text(items) {
            Some(Some(plain_texts(items)))
        } else {
            None
        },
        Some(_) => None,
    }
}

/// The value under `key` among `members`.
pub fn get_member<'a>(members: &'a Vec<Member>, key: &str) -> (r: Option<&'a Json>)
    ensures
        match r {
            Some(v) => lookup(members_view(members@), key@) == Some(v@),
            None => lookup(members_view(members@), key@) is None,
        },
{
    proof {
        lemma_position(members_view(members@), key@);
    }
    match find_member(members, key) {
        Some(i) => Some(&members[i].value),
        None => None,
    }
}

/// Reads a member that must be a text.
pub fn read_required_text(members: &Vec<Member>, key: &str) -> (r: Option<String>)
    ensures
        opt_text(r) == required_text(members_view(members@), key@),
{
    match get_member(members, key) {
        Some(Json::Text(t)) => Some(t.clone()),
        _ => None,
    }
}

/// Reads a member that may be a text.
pub fn read_optional_text(members: &Vec<Member>, key: &str) -> (r: Option<Option<String>>)
    ensures
        match r {
            Some(v) => optional_text(members_view(members@), key@) == Some(opt_text(v)),
            None => optional_text(members_view(members@), key@) is None,
        },
{
    match get_member(members, key) {
        None => Some(None),
        Some(Json::Null) => Some(None),
        Some(Json::Text(t)) => Some(Some(t.clone())),
        Some(_) => None,
    }
}

/// Reads a list whose items must be texts.
pub fn read_texts(items: &Vec<Json>) -> (r: Option<Vec<String>>)
    ensures
        match r {
            Some(list) => all_text(items_view(items@)) && texts(list@) == plain_texts(
                items_view(items@),
            ),
            None => !all_text(items_view(items@)),
        },
{
    let ghost model = items_view(items@);
    let mut out: Vec<String> = Vec::new();
    let mut i: usize = 0;
    while i < items.len()
        invariant
            i <= items.len(),
            out@.len() == i,
            model == items_view(items@),
            forall|j: int| 0 <= j < i ==> #[trigger] model[j] is Text,
            forall|j: int| 0 <= j < i ==> out@[j]@ == model[j]->Text_0,
        decreases items.len() - i,
    {
        match &items[i] {
            Json::Text(s) => {
                out.push(s.clone());
            },
            _ => {
                assert(!(model[i as int] is Text));
                return None;
            },
        }
        i = i + 1;
    }
    assert(texts(out@) =~= plain_texts(model));
    Some(out)
}

/// Reads a member that may be a list of texts.
pub fn read_optional_texts(members: &Vec<Member>, key: &str) -> (r: Option<Option<Vec<String>>>)
    ensures
        match r {
            Some(v) => optional_texts(members_view(members@), key@) == Some(opt_texts(v)),
            None => optional_texts(members_view(members@), key@) is None,
        },
{
    match get_member(members, key) {
        None => Some(None),
        Some(Json::Null) => Some(None),
        Some(Json::Array(items)) => {
            proof {
                lemma_array_view(*items);
            }
            match read_texts(items) {
                Some(list) => Some(Some(list)),
                None => None,
            }
        },
        Some(_) => None,
    }
}

/// A list of texts as a tree.
pub fn write_texts(list: &Vec<String>) -> (r: Json)
    ensures
        r@ == texts_tree(texts(list@)),
{
    let mut items: Vec<Json> = Vec::new();
    let mut i: usize = 0;
    while i < list.len()
        invariant
            i <= list.len(),
            items@.len() == i,
            forall|j: int| 0 <= j < i ==> items@[j]@ == JsonView::Text(list@[j]@),
        decreases list.len() - i,
    {
        items.push(Json::Text(list[i].clone()));
        i = i + 1;
    }
    proof {
        lemma_array_view(items);
        assert(items_view(items@) =~= texts_tree(texts(list@))->Array_0);
    }
    Json::Array(items)
}

/// `members` with the text `value` under `key`, where there is one.
pub open spec fn with_text(
    members: Seq<MemberView>,
    key: Seq<char>,
    value: Option<Seq<char>>,
) -> Seq<MemberView> {
    match value {
        Some(t) => put(members, key, JsonView::Text(t)),
        None => members,
    }
}

/// Puts a text under `key` where there is one.
pub fn put_text(members: &mut Vec<Member>, key: &str, value: &Option<String>)
    ensures
        members_view(final(members)@) == with_text(
            members_view(old(members)@),
            key@,
            opt_text(*value),
        ),
{
    match value {
        Some(t) => {
            put_member(members, key, Json::Text(t.clone()));
        },
        None => {},
    }
}

/// `members` with the list of texts `value` under `key`, where there is
/// one.
pub open spec fn with_texts(
    members: Seq<MemberView>,
    key: Seq<char>,
    value: Option<Seq<Seq<char>>>,
) -> Seq<MemberView> {
    match value {
        Some(list) => put(members, key, texts_tree(list)),
        None => members,
    }
}

/// Puts a list of texts under `key` where there is one.
pub fn put_texts(members: &mut Vec<Member>, key: &str, value: &Option<Vec<String>>)
    ensures
        members_view(final(members)@) == with_texts(
            members_view(old(members)@),
            key@,
            opt_texts(*value),
        ),
{
    match value {
        Some(list) => {
            put_member(members, key, write_texts(list));
        },
        None => {},
    }
}

/// What every key holds after `put`.
pub proof fn lemma_put_all(members: Seq<MemberView>, key: Seq<char>, value: JsonView)
    ensures
        forall|other: Seq<char>| #[trigger]
            lookup(put(members, key, value), other) == if other == key {
                Some(value)
            } else {
                lookup(members, other)
            },
{
    assert forall|other: Seq<char>| #[trigger]
        lookup(put(members, key, value), other) == if other == key {
            Some(value)
        } else {
            lookup(members, other)
        } by {
        lemma_put(members, key, value, other);
    }
}

/// What every key holds after `with_text`.
pub proof fn lemma_with_text_all(members: Seq<MemberView>, key: Seq<char>, value: Option<Seq<char>>)
    ensures
        forall|other: Seq<char>| #[trigger]
            lookup(with_text(members, key, value), other) == if other == key && value is Some {
                Some(JsonView::Text(value->0))
            } else {
                lookup(members, other)
            },
{
    if value is Some {
        lemma_put_all(members, key, JsonView::Text(value->0));
    }
}

/// What every key holds after `with_texts`.
pub proof fn lemma_with_texts_all(
    members: Seq<MemberView>,
    key: Seq<char>,
    value: Option<Seq<Seq<char>>>,
)
    ensures
        forall|other: Seq<char>| #[trigger]
            lookup(with_texts(members, key, value), other) == if other == key && value is Some {
                Some(texts_tree(value->0))
            } else {
                lookup(members, other)
            },
{
    if value is Some {
        lemma_put_all(members, key, texts_tree(value->0));
    }
}

/// A list of texts that was written as a tree reads back as itself.
pub proof fn lemma_texts_read_back(list: Seq<Seq<char>>)
    ensures
        all_text(texts_tree(list)->Array_0),
        plain_texts(texts_tree(list)->Array_0) == list,
{
    assert(plain_texts(texts_tree(list)->Array_0) =~= list);
}

} // verus!
