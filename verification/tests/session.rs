use bridges::array::Array;
use bridges::document::{Document, Number, Object};
use bridges::element::Element;
use bridges::linked_list::{LinkedList, ListType};
use bridges::text::decimal_text;
use bridges::{Bridges, Outcome, Server};

fn text(value: &str) -> Document {
    Document::Text(String::from(value))
}

fn members(document: &Document) -> &Object {
    match document {
        Document::Object(found) => found,
        other => panic!("not an object: {:?}", other),
    }
}

fn shown() -> Document {
    let mut made = Object::new();
    made.insert(String::from("visual"), text("Array"));
    Document::Object(made)
}

#[test]
fn numbers_in_decimal_notation() {
    assert_eq!(decimal_text(0), "0");
    assert_eq!(decimal_text(7), "7");
    assert_eq!(decimal_text(10), "10");
    assert_eq!(decimal_text(1905), "1905");
    assert_eq!(decimal_text(u32::MAX), "4294967295");
}

#[test]
fn server_addresses() {
    assert_eq!(Server::Live.url(), "http://bridges-cs.herokuapp.com");
    assert_eq!(Server::Clone.url(), "http://bridges-clone.herokuapp.com");
    assert_eq!(Server::Local.url(), "http://127.0.0.1:3000");
    assert_eq!(Server::Unset.url(), "");
}

#[test]
fn new_session_is_on_the_live_server_with_nothing_to_show() {
    let session = Bridges::new(1, "user_name", "api_key");
    assert_eq!(session.assignment_number, 1);
    assert_eq!(session.user_name, "user_name");
    assert_eq!(session.api_key, "api_key");
    assert_eq!(session.subassignment_index(), 0);
    assert!(!session.show_json());
    assert_eq!(
        session.uri(),
        "http://bridges-cs.herokuapp.com/assignments/1.00?apikey=api_key&username=user_name"
    );
    assert_eq!(session.document(), None);
    assert_eq!(session.visualize(), None);
}

#[test]
fn every_way_to_open_a_session_gives_the_same() {
    let first = Bridges::new(3, "u", "k").uri();
    assert_eq!(Bridges::new_from_strings(3, String::from("u"), String::from("k")).uri(), first);
    assert_eq!(bridges::new(3, "u", "k").uri(), first);
    assert_eq!(bridges::new_from_strings(3, String::from("u"), String::from("k")).uri(), first);
}

#[test]
fn server_is_set_by_name() {
    let mut session = Bridges::new(1, "u", "k");
    assert_eq!(session.set_server_from_str("clone"), Ok(Server::Clone));
    assert!(session.uri().starts_with("http://bridges-clone.herokuapp.com/"));
    assert_eq!(session.set_server_from_str("local"), Ok(Server::Local));
    assert!(session.uri().starts_with("http://127.0.0.1:3000/"));
    assert_eq!(session.set_server_from_str("live"), Ok(Server::Live));
    assert!(session.uri().starts_with("http://bridges-cs.herokuapp.com/"));
}

#[test]
fn unknown_server_name_is_refused() {
    let mut session = Bridges::new(1, "u", "k");
    session.set_server(Server::Local);
    assert_eq!(
        session.set_server_from_str("nowhere"),
        Err("Invalid server use: live, clone, or local")
    );
    assert_eq!(session.set_server_from_str("Live"), Err("Invalid server use: live, clone, or local"));
    assert_eq!(session.set_server_from_str(""), Err("Invalid server use: live, clone, or local"));
    assert!(session.uri().starts_with("http://127.0.0.1:3000/"));
}

#[test]
fn document_lays_the_data_structure_over_the_general_fields() {
    let mut session = Bridges::new(1, "u", "k");
    session.set_title(String::from("My list"));
    session.set_map_overlay(true);
    session.update_data_structure(shown());
    let document = session.document().expect("a data structure to show");
    let written = members(&document);
    assert_eq!(written.len(), 4);
    assert_eq!(written.get("title"), Some(&text("My list")));
    assert_eq!(written.get("map_overlay"), Some(&Document::Bool(true)));
    assert_eq!(written.get("coord_system_type"), Some(&text("")));
    assert_eq!(written.get("visual"), Some(&text("Array")));
}

#[test]
fn data_structure_wins_over_a_general_field_of_its_name() {
    let mut session = Bridges::new(1, "u", "k");
    session.set_title(String::from("general"));
    let mut made = Object::new();
    made.insert(String::from("title"), text("own"));
    session.update_data_structure(Document::Object(made));
    let document = session.document().expect("a data structure to show");
    assert_eq!(members(&document).get("title"), Some(&text("own")));
    assert_eq!(members(&document).len(), 3);
}

#[test]
fn data_structure_that_is_no_object_takes_the_place_of_the_general_fields() {
    let mut session = Bridges::new(1, "u", "k");
    session.update_data_structure(Document::Number(Number::Unsigned(4)));
    assert_eq!(session.document(), Some(Document::Number(Number::Unsigned(4))));
    session.update_data_structure(Document::Null);
    assert_eq!(session.document(), None);
}

#[test]
fn request_names_document_and_place() {
    let mut session = Bridges::new(12, "me", "secret");
    session.set_server(Server::Clone);
    let request = session.update_and_visualize(shown()).expect("a data structure to show");
    assert_eq!(
        request.uri,
        "http://bridges-clone.herokuapp.com/assignments/12.00?apikey=secret&username=me"
    );
    assert_eq!(Some(request.body), session.document());
    assert_eq!(session.update_and_visualize(Document::Null), None);
}

#[test]
fn each_delivery_counts_as_the_next_part() {
    let mut session = Bridges::new(2, "me", "secret");
    session.set_server(Server::Local);
    for part in 0..12u32 {
        assert_eq!(session.subassignment_index(), part);
        let expected = format!(
            "http://127.0.0.1:3000/assignments/2.{:02}?apikey=secret&username=me",
            part
        );
        assert_eq!(session.uri(), expected);
        session.delivered(200);
    }
    assert_eq!(session.uri(), "http://127.0.0.1:3000/assignments/2.12?apikey=secret&username=me");
}

#[test]
fn outcome_tells_delivery_from_refusal() {
    let mut session = Bridges::new(2, "me", "secret");
    assert_eq!(
        session.delivered(200),
        Outcome::Delivered { link: String::from("http://bridges-cs.herokuapp.com/assignments/2/me") }
    );
    assert_eq!(session.link(), "http://bridges-cs.herokuapp.com/assignments/2/me");
    assert_eq!(session.delivered(404), Outcome::Refused { status: 404 });
    assert_eq!(session.delivered(201), Outcome::Refused { status: 201 });
    assert_eq!(session.subassignment_index(), 3);
}

#[test]
fn show_json_is_kept() {
    let mut session = Bridges::new(2, "me", "secret");
    session.set_show_json(true);
    assert!(session.show_json());
    session.set_show_json(false);
    assert!(!session.show_json());
}

#[test]
fn an_array_of_five_is_made_ready_for_the_server() {
    let mut session = bridges::new_from_strings(1, String::from("me"), String::from("secret"));
    let mut array: Array<i32> = bridges::array::new();
    array.dims = [5, 0, 0];
    for item in 0..5 {
        let mut element: Element<i32> = bridges::element::new(item);
        element.color = [(63.75 * item as f32).to_bits(), 0, 0, 1.0f32.to_bits()];
        element.name = item.to_string();
        array.nodes.push(element);
    }
    session.set_server(Server::Clone);
    let request = session
        .update_and_visualize(array.to_document().expect("integers have a structured form"))
        .expect("a data structure to show");
    let written = members(&request.body);
    assert_eq!(written.len(), 6);
    assert_eq!(written.get("visual"), Some(&text("Array")));
    assert_eq!(written.get("title"), Some(&text("")));
    assert!(written.contains_key("dims"));
    assert!(written.contains_key("nodes"));
}

#[test]
fn lists_of_every_topology_are_made_ready_one_after_another() {
    let mut session = bridges::new_from_strings(2, String::from("me"), String::from("secret"));
    session.set_show_json(true);
    session.set_server(Server::Clone);
    let topologies = [
        ListType::Single,
        ListType::Double,
        ListType::CircleSingle,
        ListType::CircleDouble,
    ];
    for (part, list_type) in topologies.into_iter().enumerate() {
        let mut list: LinkedList<i32> = bridges::linked_list::new();
        list.set_list_type(list_type);
        for item in 0..5 {
            let mut element: Element<i32> = bridges::element::new(item);
            element.name = item.to_string();
            list.append(element);
        }
        let request = session
            .update_and_visualize(list.to_document().expect("integers have a structured form"))
            .expect("a data structure to show");
        assert!(request.uri.contains(&format!("/assignments/2.0{}?", part)));
        assert_eq!(members(&request.body).get("visual"), Some(&text(list_type.visual())));
        session.delivered(200);
    }
    assert_eq!(session.subassignment_index(), 4);
}
