//! The structured form of the values that elements carry.

use vstd::prelude::*;
use crate::document::{Document, Json, Number};

verus! {

/// Values that can be written into a document.
pub trait Encode {
    /// The structured form of the value, none where it has none. A type
    /// whose values have a structured form says here which.
    open spec fn encoding(&self) -> Option<Json> {
        None
    }

    /// Writes the value as a document, or returns none where it has no
    /// structured form.
    fn encode(&self) -> (encoded: Option<Document>)
        ensures
            match encoded {
                Some(document) => self.encoding() == Some(document@),
                None => self.encoding() is None,
            },
    ;
}

impl Encode for bool {
    open spec fn encoding(&self) -> Option<Json> {
        Some(Json::Bool(*self))
    }

    fn encode(&self) -> (encoded: Option<Document>) {
        Some(Document::Bool(*self))
    }
}

impl Encode for u32 {
    open spec fn encoding(&self) -> Option<Json> {
        Some(Json::Number(Number::integer(*self as int)))
    }

    fn encode(&self) -> (encoded: Option<Document>) {
        Some(Document::Number(Number::from_u64(*self as u64)))
    }
}

impl Encode for u64 {
    open spec fn encoding(&self) -> Option<Json> {
        Some(Json::Number(Number::integer(*self as int)))
    }

    fn encode(&self) -> (encoded: Option<Document>) {
        Some(Document::Number(Number::from_u64(*self)))
    }
}

impl Encode for i32 {
    open spec fn encoding(&self) -> Option<Json> {
        Some(Json::Number(Number::integer(*self as int)))
    }

    fn encode(&self) -> (encoded: Option<Document>) {
        Some(Document::Number(Number::from_i64(*self as i64)))
    }
}

impl Encode for i64 {
    open spec fn encoding(&self) -> Option<Json> {
        Some(Json::Number(Number::integer(*self as int)))
    }

    fn encode(&self) -> (encoded: Option<Document>) {
        Some(Document::Number(Number::from_i64(*self)))
    }
}

impl Encode for String {
    open spec fn encoding(&self) -> Option<Json> {
        Some(Json::Text(self@))
    }

    fn encode(&self) -> (encoded: Option<Document>) {
        Some(Document::Text(self.clone()))
    }
}

/// The list of the single-precision numbers with the bit patterns `bits`.
pub open spec fn singles(bits: Seq<u32>) -> Json {
    Json::List(Seq::new(bits.len(), |i: int| Json::Number(Number::Single(bits[i]))))
}

/// The list of the integers `values`.
pub open spec fn integers(values: Seq<i8>) -> Json {
    Json::List(Seq::new(values.len(), |i: int| Json::Number(Number::integer(values[i] as int))))
}

/// Writes single-precision numbers, given by their bit patterns, as a list.
pub fn encode_singles<const N: usize>(bits: &[u32; N]) -> (list: Document)
    ensures
        list@ == singles(bits@),
{
    let mut items: Vec<Document> = Vec::new();
    let mut i: usize = 0;
    while i < N
        invariant
            i <= N,
            bits@.len() == N,
            items@.len() == i,
            forall|j: int|
                0 <= j < i ==> (#[trigger] items@[j])@ == Json::Number(Number::Single(bits@[j])),
        decreases N - i,
    {
        items.push(Document::Number(Number::Single(bits[i])));
        i += 1;
    }
    let list = Document::List(items);
    assert(list@->List_0 =~= singles(bits@)->List_0);
    list
}

/// Writes small integers as a list.
pub fn encode_integers<const N: usize>(values: &[i8; N]) -> (list: Document)
    ensures
        list@ == integers(values@),
{
    let mut items: Vec<Document> = Vec::new();
    let mut i: usize = 0;
    while i < N
        invariant
            i <= N,
            values@.len() == N,
            items@.len() == i,
            forall|j: int|
                0 <= j < i ==> (#[trigger] items@[j])@ == Json::Number(
                    Number::integer(values@[j] as int),
                ),
        decreases N - i,
    {
        items.push(Document::Number(Number::from_i64(values[i] as i64)));
        i += 1;
    }
    let list = Document::List(items);
    assert(list@->List_0 =~= integers(values@)->List_0);
    list
}

} // verus!
