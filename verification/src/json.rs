//! JSON documents, made and written by `serde_json`.

use vstd::prelude::*;

verus! {

/// What a JSON document says.
pub enum JsonView {
    Null,
    Bool(bool),
    Number(int),
    Text(Seq<char>),
    List(Seq<JsonView>),
    Object(Map<Seq<char>, JsonView>),
    /// A floating-point number. Each has a number of its own here, so that documents that
    /// differ hold different things.
    Other(nat),
}

/// A JSON document of `serde_json`.
#[verifier::external_type_specification]
#[verifier::external_body]
pub struct ExValue(serde_json::Value);

/// What a document of `serde_json` says.
pub uninterp spec fn json_of(value: serde_json::Value) -> JsonView;

/// The bytes that `serde_json::to_vec` writes for a document that says this.
pub uninterp spec fn json_bytes(json: JsonView) -> Seq<u8>;

/// What documents say, in turn.
pub open spec fn json_list(values: Seq<serde_json::Value>) -> Seq<JsonView> {
    values.map_values(|v: serde_json::Value| json_of(v))
}

/// What the members of an object say; of members of the same name, the last counts.
pub open spec fn json_members(members: Seq<(String, serde_json::Value)>) -> Map<Seq<char>, JsonView>
    decreases members.len(),
{
    if members.len() == 0 {
        Map::empty()
    } else {
        json_members(members.drop_last()).insert(members.last().0@, json_of(members.last().1))
    }
}

/// `serde_json::Value::Null`: nothing.
#[verifier::external_body]
pub(crate) fn null_value() -> (r: serde_json::Value)
    ensures
        json_of(r) == JsonView::Null,
{
    serde_json::Value::Null
}

/// `serde_json::Value::Bool`: yes or no.
#[verifier::external_body]
pub(crate) fn bool_value(b: bool) -> (r: serde_json::Value)
    ensures
        json_of(r) == JsonView::Bool(b),
{
    serde_json::Value::Bool(b)
}

/// `serde_json::Value::from` on an `i64`: a whole number, below or above zero.
#[verifier::external_body]
pub(crate) fn signed_value(n: i64) -> (r: serde_json::Value)
    ensures
        json_of(r) == JsonView::Number(n as int),
{
    serde_json::Value::from(n)
}

/// `serde_json::Value::from` on a `u64`: a whole number.
#[verifier::external_body]
pub(crate) fn unsigned_value(n: u64) -> (r: serde_json::Value)
    ensures
        json_of(r) == JsonView::Number(n as int),
{
    serde_json::Value::from(n)
}

/// `serde_json::Value::from` on a `&str`: a text.
#[verifier::external_body]
pub(crate) fn text_value(text: &str) -> (r: serde_json::Value)
    ensures
        json_of(r) == JsonView::Text(text@),
{
    serde_json::Value::from(text)
}

/// `serde_json::Value::Array`: documents in a row.
#[verifier::external_body]
pub(crate) fn list_value(values: Vec<serde_json::Value>) -> (r: serde_json::Value)
    ensures
        json_of(r) == JsonView::List(json_list(values@)),
{
    serde_json::Value::Array(values)
}

/// `serde_json::Value::from_iter` on names and documents: an object, whose members
/// are these. A member that is named again is replaced.
#[verifier::external_body]
pub(crate) fn object_value(members: Vec<(String, serde_json::Value)>) -> (r: serde_json::Value)
    ensures
        json_of(r) == JsonView::Object(json_members(members@)),
{
    serde_json::Value::from_iter(members)
}

/// `serde_json::to_vec`: the bytes of a document, the same for documents that say the
/// same, since the members of objects are kept in the order of their names. Control
/// characters are escaped, so that a document is one line. Writing a document to
/// memory does not fail.
#[verifier::external_body]
pub(crate) fn value_bytes(value: &serde_json::Value) -> (r: Vec<u8>)
    ensures
        r@ == json_bytes(json_of(*value)),
        forall|i: int| 0 <= i < r@.len() ==> #[trigger] r@[i] != 0x0a,
{
    serde_json::to_vec(value).unwrap_or_default()
}

/// An object that is put together member by member.
pub struct ObjectBuilder {
    pub members: Vec<(String, serde_json::Value)>,
}

impl ObjectBuilder {
    pub open spec fn says(&self) -> Map<Seq<char>, JsonView> {
        json_members(self.members@)
    }

    /// An object without members.
    pub fn new() -> (r: Self)
        ensures
            r.says() == Map::<Seq<char>, JsonView>::empty(),
    {
        ObjectBuilder { members: Vec::new() }
    }

    /// Adds a member.
    pub fn put(&mut self, name: &str, value: serde_json::Value)
        ensures
            final(self).says() == old(self).says().insert(name@, json_of(value)),
    {
        let ghost before = self.members@;
        self.members.push((name.to_owned(), value));
        assert(self.members@.drop_last() =~= before);
    }

    /// The object with the members that were added.
    pub fn finish(self) -> (r: serde_json::Value)
        ensures
            json_of(r) == JsonView::Object(self.says()),
    {
        object_value(self.members)
    }
}

/// A text, or nothing.
pub open spec fn optional_text(text: Option<Seq<char>>) -> JsonView {
    match text {
        Some(t) => JsonView::Text(t),
        None => JsonView::Null,
    }
}

pub(crate) fn optional_text_value(text: &Option<String>) -> (r: serde_json::Value)
    ensures
        json_of(r) == optional_text(
            match *text {
                Some(t) => Some(t@),
                None => None,
            },
        ),
{
    match text {
        Some(t) => text_value(t.as_str()),
        None => null_value(),
    }
}

/// A whole number, or nothing.
pub open spec fn optional_number(n: Option<int>) -> JsonView {
    match n {
        Some(n) => JsonView::Number(n),
        None => JsonView::Null,
    }
}

pub(crate) fn optional_number_value(n: Option<u64>) -> (r: serde_json::Value)
    ensures
        json_of(r) == optional_number(
            match n {
                Some(n) => Some(n as int),
                None => None,
            },
        ),
{
    match n {
        Some(n) => unsigned_value(n),
        None => null_value(),
    }
}

} // verus!
