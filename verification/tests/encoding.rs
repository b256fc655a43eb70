use bridges::array::Array;
use bridges::document::{Document, Number, Object};
use bridges::element::{encode_nodes, Element, Unencodable};
use bridges::encode::{encode_integers, encode_singles, Encode};
use bridges::link::{encode_links, Link};
use bridges::linked_list::{LinkedList, ListType};

#[derive(Clone, Default, Debug, PartialEq)]
struct Odd(u32);

impl Encode for Odd {
    fn encode(&self) -> Option<Document> {
        if self.0 % 2 == 1 {
            Some(Document::Number(Number::Unsigned(self.0 as u64)))
        } else {
            None
        }
    }
}

fn single(value: f32) -> Document {
    Document::Number(Number::Single(value.to_bits()))
}

fn unsigned(value: u64) -> Document {
    Document::Number(Number::Unsigned(value))
}

fn text(value: &str) -> Document {
    Document::Text(String::from(value))
}

fn members(document: &Document) -> &Object {
    match document {
        Document::Object(found) => found,
        other => panic!("not an object: {:?}", other),
    }
}

fn black() -> Document {
    Document::List(vec![single(0.0), single(0.0), single(0.0), single(1.0)])
}

#[test]
fn values_have_their_structured_form() {
    assert_eq!(true.encode(), Some(Document::Bool(true)));
    assert_eq!(7u32.encode(), Some(unsigned(7)));
    assert_eq!(7u64.encode(), Some(unsigned(7)));
    assert_eq!(7i32.encode(), Some(unsigned(7)));
    assert_eq!((-7i32).encode(), Some(Document::Number(Number::Signed(-7))));
    assert_eq!((-7i64).encode(), Some(Document::Number(Number::Signed(-7))));
    assert_eq!(String::from("seven").encode(), Some(text("seven")));
}

#[test]
fn numbers_are_written_as_lists() {
    assert_eq!(
        encode_singles(&[1.0f32.to_bits(), 2.5f32.to_bits()]),
        Document::List(vec![single(1.0), single(2.5)])
    );
    assert_eq!(
        encode_integers(&[5, 0, -1]),
        Document::List(vec![unsigned(5), unsigned(0), Document::Number(Number::Signed(-1))])
    );
    assert_eq!(encode_integers::<0>(&[]), Document::List(vec![]));
}

#[test]
fn element_document_holds_value_and_style() {
    let mut element = Element::new(3);
    element.name = String::from("three");
    element.color = [0.5f32.to_bits(), 0, 0, 1.0f32.to_bits()];
    let document = element.to_document().expect("an integer has a structured form");
    let written = members(&document);
    assert_eq!(written.len(), 6);
    assert_eq!(written.get("value"), Some(&unsigned(3)));
    assert_eq!(written.get("name"), Some(&text("three")));
    assert_eq!(
        written.get("color"),
        Some(&Document::List(vec![single(0.5), single(0.0), single(0.0), single(1.0)]))
    );
    assert_eq!(written.get("size"), Some(&single(10.0)));
    assert_eq!(written.get("location"), Some(&Document::List(vec![single(0.0), single(0.0)])));
    assert_eq!(written.get("shape"), Some(&text("circle")));
}

#[test]
fn element_without_structured_value_has_no_document() {
    assert_eq!(Element::new(Odd(2)).to_document(), None);
    assert!(Element::new(Odd(3)).to_document().is_some());
}

#[test]
fn link_document_holds_style_and_ends() {
    let mut link = Link::new(2, 3);
    link.weight = 8;
    let document = link.to_document();
    let written = members(&document);
    assert_eq!(written.len(), 5);
    assert_eq!(written.get("color"), Some(&black()));
    assert_eq!(written.get("thickness"), Some(&unsigned(1)));
    assert_eq!(written.get("weight"), Some(&unsigned(8)));
    assert_eq!(written.get("source"), Some(&unsigned(2)));
    assert_eq!(written.get("target"), Some(&unsigned(3)));
    assert_eq!(encode_links(&vec![link]), Document::List(vec![link.to_document()]));
}

#[test]
fn nodes_are_written_in_order_or_the_first_failure_is_named() {
    let good = vec![Element::new(Odd(1)), Element::new(Odd(3))];
    let expected = Document::List(vec![
        good[0].to_document().unwrap(),
        good[1].to_document().unwrap(),
    ]);
    assert_eq!(encode_nodes(&good), Ok(expected));
    let bad = vec![Element::new(Odd(1)), Element::new(Odd(4)), Element::new(Odd(6))];
    assert_eq!(encode_nodes(&bad), Err(Unencodable { position: 1 }));
}

#[test]
fn array_document_holds_dimensions_and_nodes() {
    let mut array: Array<i32> = Array::new();
    array.dims = [5, 0, 0];
    for item in 0..5 {
        let mut element = Element::new(item);
        element.color = [(63.75 * item as f32).to_bits(), 0, 0, 1.0f32.to_bits()];
        element.name = item.to_string();
        array.nodes.push(element);
    }
    let document = array.to_document().expect("integers have a structured form");
    let written = members(&document);
    assert_eq!(written.len(), 3);
    assert_eq!(written.get("visual"), Some(&text("Array")));
    assert_eq!(
        written.get("dims"),
        Some(&Document::List(vec![unsigned(5), unsigned(0), unsigned(0)]))
    );
    match written.get("nodes") {
        Some(Document::List(nodes)) => {
            assert_eq!(nodes.len(), 5);
            let fourth = members(&nodes[3]);
            assert_eq!(fourth.get("value"), Some(&unsigned(3)));
            assert_eq!(fourth.get("name"), Some(&text("3")));
            assert_eq!(
                fourth.get("color"),
                Some(&Document::List(vec![single(191.25), single(0.0), single(0.0), single(1.0)]))
            );
        }
        other => panic!("no list of nodes: {:?}", other),
    }
}

#[test]
fn array_with_a_value_without_form_names_it() {
    let mut array: Array<Odd> = Array::new();
    array.nodes.push(Element::new(Odd(2)));
    assert_eq!(array.to_document(), Err(Unencodable { position: 0 }));
}

#[test]
fn list_document_holds_name_nodes_and_links() {
    let topologies = [
        (ListType::Single, "SinglyLinkedList", 2),
        (ListType::Double, "DoublyLinkedList", 4),
        (ListType::CircleSingle, "CircularDoublyLinkedList", 3),
        (ListType::CircleDouble, "CircularDoublyLinkedList", 6),
    ];
    for (list_type, name, links) in topologies {
        let mut list: LinkedList<i32> = LinkedList::new();
        list.set_list_type(list_type);
        for item in 0..3 {
            list.append(Element::new(item));
        }
        let document = list.to_document().expect("integers have a structured form");
        let written = members(&document);
        assert_eq!(written.len(), 3);
        assert_eq!(written.get("visual"), Some(&text(name)));
        match written.get("nodes") {
            Some(Document::List(nodes)) => assert_eq!(nodes.len(), 3),
            other => panic!("no list of nodes: {:?}", other),
        }
        assert_eq!(written.get("links"), Some(&encode_links(list.links())));
        match written.get("links") {
            Some(Document::List(written_links)) => {
                assert_eq!(written_links.len(), links);
                assert_eq!(written_links[0], Link::new(0, 1).to_document());
            }
            other => panic!("no list of links: {:?}", other),
        }
    }
}

#[test]
fn list_with_a_value_without_form_names_it() {
    let mut list: LinkedList<Odd> = LinkedList::new();
    list.append(Element::new(Odd(1)));
    list.append(Element::new(Odd(2)));
    assert_eq!(list.to_document(), Err(Unencodable { position: 1 }));
}
