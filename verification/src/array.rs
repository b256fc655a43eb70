//! An ordered sequence of elements with a three-dimensional shape descriptor.

use vstd::prelude::*;
use crate::CloneDefault;
use crate::document::{Document, Json, Object};
use crate::element::{encodable, encode_nodes, node_documents, Element, Unencodable};
use crate::encode::{encode_integers, integers, Encode};

verus! {

/// Elements laid out as an array of up to three dimensions.
///
/// `dims` is kept by the caller: nothing ties it to the number of `nodes`.
#[derive(Clone, Debug)]
pub struct Array<T: CloneDefault> {
    pub dims: [i8; 3],
    pub nodes: Vec<Element<T>>,
}

impl<T: CloneDefault> Array<T> {
    pub fn new() -> (array: Array<T>)
        ensures
            array.dims@ == seq![0i8, 0i8, 0i8],
            array.nodes@ == Seq::<Element<T>>::empty(),
    {
        Array { dims: [0, 0, 0], nodes: Vec::new() }
    }
}

pub fn new<T: CloneDefault>() -> (array: Array<T>)
    ensures
        array.dims@ == seq![0i8, 0i8, 0i8],
        array.nodes@ == Seq::<Element<T>>::empty(),
{
    Array::<T>::new()
}

impl<T: CloneDefault + Encode> Array<T> {
    /// What the document of the array says: that it is an array, its
    /// dimensions and its nodes in their order.
    pub open spec fn document(self) -> Json {
        Json::Object(
            Map::empty().insert("visual"@, Json::Text("Array"@)).insert(
                "dims"@,
                integers(self.dims@),
            ).insert("nodes"@, node_documents(self.nodes@)),
        )
    }

    /// Writes the array as a document, or names the first node whose value
    /// has no structured form.
    pub fn to_document(&self) -> (document: Result<Document, Unencodable>)
        ensures
            match document {
                Ok(written) => encodable(self.nodes@) && written@ == self.document(),
                Err(first) => first.position < self.nodes@.len()
                    && self.nodes@[first.position as int].value.encoding() is None && encodable(
                    self.nodes@.take(first.position as int),
                ),
            },
    {
        let nodes = match encode_nodes(&self.nodes) {
            Ok(nodes) => nodes,
            Err(first) => {
                return Err(first);
            },
        };
        let mut object = Object::new();
        object.insert(String::from_str("visual"), Document::Text(String::from_str("Array")));
        object.insert(String::from_str("dims"), encode_integers(&self.dims));
        object.insert(String::from_str("nodes"), nodes);
        Ok(Document::Object(object))
    }
}

} // verus!
