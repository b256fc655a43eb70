use bridges::element::Element;
use bridges::link::Link;
use bridges::linked_list::{LinkedList, ListType};

fn list_of(list_type: ListType, count: i32) -> LinkedList<i32> {
    let mut list: LinkedList<i32> = LinkedList::new();
    list.set_list_type(list_type);
    for value in 0..count {
        list.append(Element::new(value));
    }
    list
}

fn ends(list: &LinkedList<i32>) -> Vec<(u32, u32)> {
    list.links().iter().map(|link| (link.source, link.target)).collect()
}

#[test]
fn it_works() {
    assert_eq!(2 + 2, 4);
}

#[test]
fn new_list_is_empty_and_single() {
    let list: LinkedList<i32> = bridges::linked_list::new();
    assert_eq!(list.len(), 0);
    assert_eq!(list.links().len(), 0);
    assert_eq!(list.list_type(), ListType::Single);
    assert_eq!(list.head(), None);
    assert_eq!(list.tail(), None);
    assert_eq!(ListType::default(), ListType::Single);
}

#[test]
fn single_list_links_each_node_to_the_next() {
    for n in 1..8 {
        let list = list_of(ListType::Single, n);
        let expected: Vec<(u32, u32)> = (1..n as u32).map(|i| (i - 1, i)).collect();
        assert_eq!(list.links().len(), (n - 1) as usize);
        assert_eq!(ends(&list), expected);
    }
    let list = list_of(ListType::Single, 5);
    assert_eq!(ends(&list), vec![(0, 1), (1, 2), (2, 3), (3, 4)]);
}

#[test]
fn double_list_links_both_ways() {
    for n in 1..8 {
        let list = list_of(ListType::Double, n);
        assert_eq!(list.links().len(), 2 * (n as usize - 1));
        let found = ends(&list);
        for i in 1..n as u32 {
            assert!(found.contains(&(i - 1, i)));
            assert!(found.contains(&(i, i - 1)));
        }
    }
    let list = list_of(ListType::Double, 3);
    assert_eq!(ends(&list), vec![(0, 1), (1, 0), (1, 2), (2, 1)]);
}

#[test]
fn circle_single_list_keeps_one_closing_link() {
    for n in 2..8 {
        let list = list_of(ListType::CircleSingle, n);
        let found = ends(&list);
        let last = n as u32 - 1;
        assert_eq!(found.len(), n as usize);
        assert_eq!(found[found.len() - 1], (last, 0));
        assert_eq!(found.iter().filter(|pair| **pair == (last, 0)).count(), 1);
        if n > 2 {
            assert!(!found.contains(&(last - 1, 0)));
        }
    }
    let list = list_of(ListType::CircleSingle, 4);
    assert_eq!(ends(&list), vec![(0, 1), (1, 2), (2, 3), (3, 0)]);
}

#[test]
fn circle_single_list_of_two() {
    let list = list_of(ListType::CircleSingle, 2);
    assert_eq!(ends(&list), vec![(0, 1), (1, 0)]);
}

#[test]
fn circle_double_list_keeps_one_closing_pair() {
    for n in 2..8 {
        let list = list_of(ListType::CircleDouble, n);
        let found = ends(&list);
        let last = n as u32 - 1;
        assert_eq!(found.len(), 2 * n as usize);
        assert_eq!(found[found.len() - 2], (last, 0));
        assert_eq!(found[found.len() - 1], (0, last));
        if n > 2 {
            assert_eq!(found.iter().filter(|pair| **pair == (last, 0)).count(), 1);
            assert_eq!(found.iter().filter(|pair| **pair == (0, last)).count(), 1);
        }
    }
    let list = list_of(ListType::CircleDouble, 3);
    assert_eq!(ends(&list), vec![(0, 1), (1, 0), (1, 2), (2, 1), (2, 0), (0, 2)]);
}

#[test]
fn circle_double_list_of_two_holds_its_pair_twice() {
    let list = list_of(ListType::CircleDouble, 2);
    assert_eq!(ends(&list), vec![(0, 1), (1, 0), (1, 0), (0, 1)]);
}

#[test]
fn first_node_brings_no_link_and_is_head_and_tail() {
    let topologies = [
        ListType::Single,
        ListType::Double,
        ListType::CircleSingle,
        ListType::CircleDouble,
    ];
    for list_type in topologies {
        let mut list: LinkedList<i32> = LinkedList::new();
        list.set_list_type(list_type);
        list.append(Element::new(5));
        assert_eq!(list.links().len(), 0);
        assert_eq!(list.head(), Some(0));
        assert_eq!(list.tail(), Some(0));
        assert_eq!(list.nodes()[0].value, 5);
        assert_eq!(list.next(0), None);
        assert_eq!(list.prev(0), None);
    }
}

#[test]
fn chain_runs_from_head_to_tail_and_back() {
    let list = list_of(ListType::Single, 4);
    assert_eq!(list.head(), Some(0));
    assert_eq!(list.tail(), Some(3));
    assert_eq!(list.next(0), Some(1));
    assert_eq!(list.next(2), Some(3));
    assert_eq!(list.next(3), None);
    assert_eq!(list.next(17), None);
    assert_eq!(list.prev(0), None);
    assert_eq!(list.prev(1), Some(0));
    assert_eq!(list.prev(3), Some(2));
    assert_eq!(list.prev(4), None);
}

#[test]
fn nodes_keep_their_order_and_style() {
    let mut list: LinkedList<i32> = LinkedList::new();
    for value in [10, 20, 30] {
        let mut element = Element::new(value);
        element.name = value.to_string();
        list.append(element);
    }
    let values: Vec<i32> = list.nodes().iter().map(|node| node.value).collect();
    assert_eq!(values, vec![10, 20, 30]);
    assert_eq!(list.nodes()[1].name, "20");
    assert_eq!(list.len(), 3);
}

#[test]
fn new_links_have_the_default_style() {
    let list = list_of(ListType::Double, 2);
    assert_eq!(list.links()[0], Link::new(0, 1));
    assert_eq!(list.links()[1], Link::new(1, 0));
    assert_eq!(list.links()[0].thickness, 1);
    assert_eq!(list.links()[0].weight, 1);
}

#[test]
fn get_link_finds_the_link_between_two_values() {
    let mut list: LinkedList<i32> = LinkedList::new();
    for value in [10, 20, 30] {
        list.append(Element::new(value));
    }
    let link = list.get_link(20, 30).expect("a link from 20 to 30");
    assert_eq!(link.source, 1);
    assert_eq!(link.target, 2);
    assert!(list.get_link(10, 99).is_none());
    assert!(list.get_link(99, 10).is_none());
    assert!(list.get_link(30, 20).is_none());
    assert!(list.get_link(10, 30).is_none());
}

#[test]
fn get_link_on_an_empty_list_finds_nothing() {
    let mut list: LinkedList<i32> = LinkedList::new();
    assert!(list.get_link(1, 2).is_none());
}

#[test]
fn get_link_takes_the_first_node_with_a_value() {
    let mut list: LinkedList<i32> = LinkedList::new();
    for value in [7, 8, 7, 9] {
        list.append(Element::new(value));
    }
    let link = list.get_link(7, 8).expect("a link from the first 7");
    assert_eq!((link.source, link.target), (0, 1));
    assert!(list.get_link(7, 9).is_none());
    assert_eq!(list.position(&7), Some(0));
    assert_eq!(list.position(&9), Some(3));
    assert_eq!(list.position(&1), None);
}

#[test]
fn a_link_can_be_restyled_in_place() {
    let mut list = list_of(ListType::Single, 3);
    {
        let link = list.get_link(1, 2).expect("a link from 1 to 2");
        link.thickness = 4;
        link.color = [1.0f32.to_bits(), 0, 0, 1.0f32.to_bits()];
    }
    assert_eq!(list.links()[1].thickness, 4);
    assert_eq!(f32::from_bits(list.links()[1].color[0]), 1.0);
    assert_eq!(list.links()[0], Link::new(0, 1));
    assert_eq!(list.links().len(), 2);
}

#[test]
fn find_link_goes_by_positions() {
    let mut list = list_of(ListType::Double, 3);
    let link = list.find_link(2, 1).expect("a link from 2 to 1");
    link.weight = 9;
    assert_eq!(list.links()[3].weight, 9);
    assert!(list.find_link(0, 2).is_none());
}

#[test]
fn a_new_topology_holds_for_later_nodes_only() {
    let mut list = list_of(ListType::Single, 3);
    list.set_list_type(ListType::Double);
    assert_eq!(ends(&list), vec![(0, 1), (1, 2)]);
    list.append(Element::new(3));
    assert_eq!(ends(&list), vec![(0, 1), (1, 2), (2, 3), (3, 2)]);
    assert_eq!(list.list_type(), ListType::Double);
}

#[test]
fn a_circle_gives_up_its_last_link_whatever_it_is() {
    let mut list = list_of(ListType::Single, 3);
    list.set_list_type(ListType::CircleSingle);
    list.append(Element::new(3));
    assert_eq!(ends(&list), vec![(0, 1), (2, 3), (3, 0)]);
}

#[test]
fn topology_names() {
    assert_eq!(ListType::Single.visual(), "SinglyLinkedList");
    assert_eq!(ListType::Double.visual(), "DoublyLinkedList");
    assert_eq!(ListType::CircleSingle.visual(), "CircularDoublyLinkedList");
    assert_eq!(ListType::CircleDouble.visual(), "CircularDoublyLinkedList");
}
