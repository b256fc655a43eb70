//! Styled, directed edges between two node positions.

use vstd::prelude::*;
use crate::document::{Document, Json, Number, Object};
use crate::element::OPAQUE;
use crate::encode::{encode_singles, singles};

verus! {

/// A directed edge between two positions of the container that owns it.
///
/// `color` holds red, green, blue and opacity, each as the bit pattern of an
/// IEEE 754 single-precision number.
#[derive(Clone, Copy, Debug, PartialEq, Eq)]
pub struct Link {
    pub color: [u32; 4],
    pub thickness: u32,
    pub weight: u32,
    pub source: u32,
    pub target: u32,
}

impl Link {
    /// The link from `source` to `target` in the default style: opaque black,
    /// thickness and weight one.
    pub open spec fn fresh(source: u32, target: u32) -> Link {
        Link { color: [0u32, 0u32, 0u32, OPAQUE], thickness: 1, weight: 1, source, target }
    }

    /// The endpoints of the link as a pair of positions.
    pub open spec fn ends(self) -> (nat, nat) {
        (self.source as nat, self.target as nat)
    }

    pub fn new(source: u32, target: u32) -> (link: Link)
        ensures
            link == Link::fresh(source, target),
    {
        Link { color: [0, 0, 0, OPAQUE], thickness: 1, weight: 1, source, target }
    }

    /// What the document of the link says: its color, thickness, weight,
    /// source and target.
    pub open spec fn document(self) -> Json {
        Json::Object(
            Map::empty().insert("color"@, singles(self.color@)).insert(
                "thickness"@,
                Json::Number(Number::integer(self.thickness as int)),
            ).insert("weight"@, Json::Number(Number::integer(self.weight as int))).insert(
                "source"@,
                Json::Number(Number::integer(self.source as int)),
            ).insert("target"@, Json::Number(Number::integer(self.target as int))),
        )
    }

    /// Writes the link as a document.
    pub fn to_document(&self) -> (document: Document)
        ensures
            document@ == self.document(),
    {
        let mut object = Object::new();
        object.insert(String::from_str("color"), encode_singles(&self.color));
        object.insert(
            String::from_str("thickness"),
            Document::Number(Number::from_u64(self.thickness as u64)),
        );
        object.insert(
            String::from_str("weight"),
            Document::Number(Number::from_u64(self.weight as u64)),
        );
        object.insert(
            String::from_str("source"),
            Document::Number(Number::from_u64(self.source as u64)),
        );
        object.insert(
            String::from_str("target"),
            Document::Number(Number::from_u64(self.target as u64)),
        );
        Document::Object(object)
    }
}

pub fn new(source: u32, target: u32) -> (link: Link)
    ensures
        link == Link::fresh(source, target),
{
    Link::new(source, target)
}

/// The list of the documents of `links`, in their order.
pub open spec fn link_documents(links: Seq<Link>) -> Json {
    Json::List(Seq::new(links.len(), |i: int| links[i].document()))
}

/// Writes `links` as a list of their documents.
pub fn encode_links(links: &Vec<Link>) -> (list: Document)
    ensures
        list@ == link_documents(links@),
{
    let mut items: Vec<Document> = Vec::new();
    let mut i: usize = 0;
    while i < links.len()
        invariant
            i <= links.len(),
            items@.len() == i,
            forall|j: int|
                0 <= j < i ==> (#[trigger] items@[j])@ == links@[j].document(),
        decreases links.len() - i,
    {
        items.push(links[i].to_document());
        i += 1;
    }
    let list = Document::List(items);
    assert(list@->List_0 =~= link_documents(links@)->List_0);
    list
}

} // verus!
