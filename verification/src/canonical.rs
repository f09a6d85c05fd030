//! Canonical JSON: the byte strings that signatures and digests are made over.

use vstd::prelude::*;

verus! {

/// A JSON string or a JSON number.
#[derive(Debug, PartialEq, Eq)]
pub enum JsonScalar {
    Text(String),
    Number(u64),
}

/// A member of a JSON object.
#[derive(Debug, PartialEq, Eq)]
pub struct JsonField {
    pub name: String,
    pub value: JsonScalar,
}

/// The JSON documents that the relay signs: an object, or an array that starts with an object
/// and goes on with strings and numbers.
#[derive(Debug, PartialEq, Eq)]
pub enum JsonDocument {
    Object(Vec<JsonField>),
    Tuple(Vec<JsonField>, Vec<JsonScalar>),
}

/// What a JSON string or number stands for.
pub enum ScalarView {
    Text(Seq<char>),
    Number(u64),
}

/// What a JSON document stands for; object members are pairs of name and value.
pub enum DocumentView {
    Object(Seq<(Seq<char>, ScalarView)>),
    Tuple(Seq<(Seq<char>, ScalarView)>, Seq<ScalarView>),
}

impl View for JsonScalar {
    type V = ScalarView;

    open spec fn view(&self) -> ScalarView {
        match *self {
            JsonScalar::Text(text) => ScalarView::Text(text@),
            JsonScalar::Number(number) => ScalarView::Number(number),
        }
    }
}

impl View for JsonField {
    type V = (Seq<char>, ScalarView);

    open spec fn view(&self) -> (Seq<char>, ScalarView) {
        (self.name@, self.value@)
    }
}

impl View for JsonDocument {
    type V = DocumentView;

    open spec fn view(&self) -> DocumentView {
        match *self {
            JsonDocument::Object(fields) => DocumentView::Object(fields_view(fields@)),
            JsonDocument::Tuple(head, tail) => DocumentView::Tuple(
                fields_view(head@),
                tail@.map_values(|item: JsonScalar| item@),
            ),
        }
    }
}

/// What the members of an object stand for.
pub open spec fn fields_view(fields: Seq<JsonField>) -> Seq<(Seq<char>, ScalarView)> {
    fields.map_values(|field: JsonField| field@)
}

/// The canonical bytes of a JSON document.
pub uninterp spec fn jcs(document: DocumentView) -> Seq<u8>;

/// `serde_jcs::to_vec`: the RFC 8785 canonical bytes, a function of the document alone. Every
/// document has them: names are texts, a number is finite when it is written as a double, and
/// bytes that are written to memory are all taken.
#[verifier::external_body]
fn to_canonical(document: &JsonDocument) -> (bytes: Option<Vec<u8>>)
    ensures
        bytes is Some,
        bytes->0@ == jcs(document@),
{
    let scalar = |item: &JsonScalar| match item {
        JsonScalar::Text(text) => serde_json::Value::from(text.as_str()),
        JsonScalar::Number(number) => serde_json::Value::from(*number),
    };
    let object = |fields: &Vec<JsonField>| -> serde_json::Value {
        fields.iter().map(|field| (field.name.clone(), scalar(&field.value))).collect()
    };
    match document {
        JsonDocument::Object(fields) => serde_jcs::to_vec(&object(fields)).ok(),
        JsonDocument::Tuple(head, tail) => {
            let items = std::iter::once(object(head)).chain(tail.iter().map(scalar));
            serde_jcs::to_vec(&items.collect::<Vec<serde_json::Value>>()).ok()
        }
    }
}

/// The canonical bytes of a JSON document.
pub fn canonical_json(document: &JsonDocument) -> (bytes: Vec<u8>)
    ensures
        bytes@ == jcs(document@),
{
    to_canonical(document).unwrap()
}

/// A text member of an object.
pub fn text_field(name: &str, value: &str) -> (field: JsonField)
    ensures
        field@ == (name@, ScalarView::Text(value@)),
{
    JsonField { name: name.to_owned(), value: JsonScalar::Text(value.to_owned()) }
}

/// A number member of an object.
pub fn number_field(name: &str, value: u64) -> (field: JsonField)
    ensures
        field@ == (name@, ScalarView::Number(value)),
{
    JsonField { name: name.to_owned(), value: JsonScalar::Number(value) }
}

} // verus!
