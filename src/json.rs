use vstd::prelude::*;

verus! {

/// A parsed JSON document from an upstream provider, carried through the
/// library unchanged.
#[verifier::external_type_specification]
#[verifier::external_body]
pub struct ExJsonValue(serde_json::Value);

/// Relies on serde_json's derived `Clone` for `Value`: the copy is the same
/// document.
pub assume_specification[ <serde_json::Value as Clone>::clone ](v: &serde_json::Value) -> (r:
    serde_json::Value)
    ensures
        r == *v,
;

/// What the normalization rules read from one top-level member of a document.
#[derive(Clone, Debug, PartialEq, Eq)]
pub enum FieldValue {
    /// The document has no member of that name, or is no object.
    Absent,
    /// A JSON string.
    Text(String),
    /// A JSON number: its JSON text, and its value where it is an integer
    /// that fits an `i64`.
    Number(String, Option<i64>),
    /// `null`, a boolean, an array or an object.
    Other,
}

/// A name for what the member named `key` of a document reads as: looked up
/// by serde_json's `Value::get`, a number written by `Value`'s `Display` and
/// read by `Number::as_i64`.
pub uninterp spec fn member_field(doc: serde_json::Value, key: Seq<char>) -> FieldValue;

/// Relies on serde_json's `Value::get` (member lookup by name), `Value`'s
/// `Display` (the JSON text of a number) and `Number::as_i64`.
#[verifier::external_body]
pub(crate) fn field_of(doc: &serde_json::Value, key: &str) -> (r: FieldValue)
    ensures
        r == member_field(*doc, key@),
        r matches FieldValue::Number(t, _) ==> t@.len() > 0,
{
    match doc.get(key) {
        None => FieldValue::Absent,
        Some(serde_json::Value::String(s)) => FieldValue::Text(s.clone()),
        Some(v @ serde_json::Value::Number(n)) => FieldValue::Number(v.to_string(), n.as_i64()),
        Some(_) => FieldValue::Other,
    }
}

/// The members of `doc` named by `keys`, in the order of `keys`.
pub fn fields_of(doc: &serde_json::Value, keys: &Vec<&str>) -> (r: Vec<FieldValue>)
    ensures
        r@.len() == keys@.len(),
        forall|i: int| 0 <= i < r@.len() ==> #[trigger] r@[i] == member_field(*doc, keys@[i]@),
        forall|i: int|
            0 <= i < r@.len() ==> (#[trigger] r@[i] matches FieldValue::Number(t, _) ==> t@.len()
                > 0),
{
    let mut r: Vec<FieldValue> = Vec::new();
    let mut i: usize = 0;
    while i < keys.len()
        invariant
            i <= keys@.len(),
            r@.len() == i,
            forall|j: int| 0 <= j < i ==> #[trigger] r@[j] == member_field(*doc, keys@[j]@),
            forall|j: int|
                0 <= j < r@.len() ==> (#[trigger] r@[j] matches FieldValue::Number(t, _)
                    ==> t@.len() > 0),
        decreases keys@.len() - i,
    {
        let f = field_of(doc, keys[i]);
        r.push(f);
        i = i + 1;
    }
    r
}

} // verus!

verus! {

/// A name for the elements that serde_json's `Value::as_array` finds in a
/// document: `None` unless it is an array.
pub uninterp spec fn array_elems(v: serde_json::Value) -> Option<Seq<serde_json::Value>>;

/// A name for the member named `key` that serde_json's `Value::get` finds in
/// a document: `None` unless it is an object with that member.
pub uninterp spec fn member_value(v: serde_json::Value, key: Seq<char>) -> Option<serde_json::Value>;

/// Relies on serde_json's `Value::as_array`: the elements of an array,
/// copied; `None` for any other value.
#[verifier::external_body]
fn array_items(v: &serde_json::Value) -> (r: Option<Vec<serde_json::Value>>)
    ensures
        match array_elems(*v) {
            Some(a) => r matches Some(x) && x@ == a,
            None => r is None,
        },
{
    match v.as_array() {
        Some(items) => Some(items.clone()),
        None => None,
    }
}

/// Relies on serde_json's `Value::get`: the member named `key` of an object,
/// copied; `None` when there is none or `v` is no object.
#[verifier::external_body]
fn member_of(v: &serde_json::Value, key: &str) -> (r: Option<serde_json::Value>)
    ensures
        r == member_value(*v, key@),
{
    match v.get(key) {
        Some(m) => Some(m.clone()),
        None => None,
    }
}

/// The list found under member `key` of `doc`, if it is one.
pub open spec fn member_list(doc: serde_json::Value, key: Seq<char>) -> Option<Seq<serde_json::Value>> {
    match member_value(doc, key) {
        Some(m) => array_elems(m),
        None => None,
    }
}

/// The records of a catalog provider's answer.
pub open spec fn records_of(doc: serde_json::Value) -> Seq<serde_json::Value> {
    if let Some(a) = array_elems(doc) {
        a
    } else if let Some(a) = member_list(doc, "items"@) {
        a
    } else if let Some(a) = member_list(doc, "results"@) {
        a
    } else {
        seq![doc]
    }
}

/// The records of a catalog provider's answer: the answer itself when it is
/// a list, else the list under `items`, else the list under `results`, else
/// the answer taken as a single record.
pub fn catalog_documents(doc: serde_json::Value) -> (r: Vec<serde_json::Value>)
    ensures
        r@ == records_of(doc),
{
    if let Some(items) = array_items(&doc) {
        return items;
    }
    if let Some(m) = member_of(&doc, "items") {
        if let Some(items) = array_items(&m) {
            return items;
        }
    }
    if let Some(m) = member_of(&doc, "results") {
        if let Some(items) = array_items(&m) {
            return items;
        }
    }
    let r = vec![doc];
    assert(r@ =~= seq![doc]);
    r
}

} // verus!
