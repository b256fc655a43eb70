//! A single node of a visual: a value together with its style.

use vstd::prelude::*;
use crate::CloneDefault;
use crate::document::{Document, Json, Number, Object};
use crate::encode::{encode_singles, singles, Encode};

verus! {

/// Bit pattern of the single-precision number one: full opacity.
pub const OPAQUE: u32 = 0x3f80_0000;

/// Bit pattern of the single-precision number ten, the size of a fresh element.
pub const DEFAULT_SIZE: u32 = 0x4120_0000;

/// A value with the style it is drawn in.
///
/// `color` (red, green, blue, opacity), `size` and `location` (x, y) hold the
/// bit patterns of IEEE 754 single-precision numbers.
#[derive(Clone, Debug)]
pub struct Element<T: CloneDefault> {
    pub value: T,
    pub name: String,
    pub color: [u32; 4],
    pub size: u32,
    pub location: [u32; 2],
    pub shape: String,
}

impl<T: CloneDefault> Element<T> {
    /// Whether the style is the default one: no name, opaque black, size ten,
    /// at the origin, drawn as a circle.
    pub open spec fn has_default_style(self) -> bool {
        &&& self.name@ == Seq::<char>::empty()
        &&& self.color@ == seq![0u32, 0u32, 0u32, OPAQUE]
        &&& self.size == DEFAULT_SIZE
        &&& self.location@ == seq![0u32, 0u32]
        &&& self.shape@ == "circle"@
    }

    pub fn new(value: T) -> (element: Element<T>)
        ensures
            element.value == value,
            element.has_default_style(),
    {
        Element {
            value,
            name: String::new(),
            color: [0, 0, 0, OPAQUE],
            size: DEFAULT_SIZE,
            location: [0, 0],
            shape: String::from_str("circle"),
        }
    }
}

pub fn new<T: CloneDefault>(value: T) -> (element: Element<T>)
    ensures
        element.value == value,
        element.has_default_style(),
{
    Element::new(value)
}

impl<T: CloneDefault + Encode> Element<T> {
    /// What the document of the element says: its value in structured form
    /// and its style. None where the value has no structured form.
    pub open spec fn document(self) -> Option<Json> {
        match self.value.encoding() {
            Some(value) => Some(
                Json::Object(
                    Map::empty().insert("value"@, value).insert("name"@, Json::Text(self.name@))
                        .insert("color"@, singles(self.color@)).insert(
                        "size"@,
                        Json::Number(Number::Single(self.size)),
                    ).insert("location"@, singles(self.location@)).insert(
                        "shape"@,
                        Json::Text(self.shape@),
                    ),
                ),
            ),
            None => None,
        }
    }

    /// Writes the element as a document, or returns none where its value has
    /// no structured form.
    pub fn to_document(&self) -> (document: Option<Document>)
        ensures
            match document {
                Some(written) => self.document() == Some(written@),
                None => self.document() is None,
            },
    {
        let value = match self.value.encode() {
            Some(value) => value,
            None => {
                return None;
            },
        };
        let mut object = Object::new();
        object.insert(String::from_str("value"), value);
        object.insert(String::from_str("name"), Document::Text(self.name.clone()));
        object.insert(String::from_str("color"), encode_singles(&self.color));
        object.insert(String::from_str("size"), Document::Number(Number::Single(self.size)));
        object.insert(String::from_str("location"), encode_singles(&self.location));
        object.insert(String::from_str("shape"), Document::Text(self.shape.clone()));
        Some(Document::Object(object))
    }
}

/// The position of a node whose value has no structured form.
#[derive(Clone, Copy, Debug, PartialEq, Eq)]
pub struct Unencodable {
    pub position: usize,
}

/// Whether the value of every one of `nodes` has a structured form.
pub open spec fn encodable<T: CloneDefault + Encode>(nodes: Seq<Element<T>>) -> bool {
    forall|i: int| 0 <= i < nodes.len() ==> (#[trigger] nodes[i]).value.encoding() is Some
}

/// The list of the documents of `nodes`, in their order.
pub open spec fn node_documents<T: CloneDefault + Encode>(nodes: Seq<Element<T>>) -> Json {
    Json::List(Seq::new(nodes.len(), |i: int| nodes[i].document().unwrap()))
}

/// Writes `nodes` as a list of their documents, or names the first node
/// whose value has no structured form.
pub fn encode_nodes<T: CloneDefault + Encode>(nodes: &Vec<Element<T>>) -> (list: Result<
    Document,
    Unencodable,
>)
    ensures
        match list {
            Ok(written) => encodable(nodes@) && written@ == node_documents(nodes@),
            Err(first) => first.position < nodes@.len()
                && nodes@[first.position as int].value.encoding() is None && encodable(
                nodes@.take(first.position as int),
            ),
        },
{
    let mut items: Vec<Document> = Vec::new();
    let mut i: usize = 0;
    while i < nodes.len()
        invariant
            i <= nodes.len(),
            items@.len() == i,
            encodable(nodes@.take(i as int)),
            forall|j: int|
                0 <= j < i ==> nodes@[j].document() == Some((#[trigger] items@[j])@),
        decreases nodes.len() - i,
    {
        match nodes[i].to_document() {
            Some(written) => {
                items.push(written);
            },
            None => {
                return Err(Unencodable { position: i });
            },
        }
        assert(encodable(nodes@.take(i + 1))) by {
            assert forall|j: int| 0 <= j < i + 1 implies (#[trigger] nodes@.take(
                i + 1,
            )[j]).value.encoding() is Some by {
                if j < i {
                    assert(nodes@.take(i as int)[j] == nodes@[j]);
                }
            }
        }
        i += 1;
    }
    assert(nodes@.take(i as int) =~= nodes@);
    let list = Document::List(items);
    assert(list@->List_0 =~= node_documents(nodes@)->List_0);
    Ok(list)
}

} // verus!
