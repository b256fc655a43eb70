//! Linked lists of elements, with the edges that their topology implies.

use vstd::prelude::*;
use vstd::std_specs::cmp::PartialEqSpec;
use crate::CloneDefault;
use crate::document::{Document, Json, Object};
use crate::element::{encodable, encode_nodes, node_documents, Element, Unencodable};
use crate::encode::Encode;
use crate::link::{encode_links, link_documents, Link};

verus! {

/// How the nodes of a list are connected.
#[derive(Clone, Copy, Debug, PartialEq, Eq, Structural)]
pub enum ListType {
    Single,
    Double,
    CircleSingle,
    CircleDouble,
}

impl Default for ListType {
    fn default() -> (list_type: ListType)
        ensures
            list_type == ListType::Single,
    {
        ListType::Single
    }
}

/// `links` without its last `count` entries, or empty where it has fewer.
pub open spec fn without_last(links: Seq<Link>, count: nat) -> Seq<Link> {
    if links.len() <= count {
        Seq::empty()
    } else {
        links.take(links.len() - count)
    }
}

/// The endpoints of `links`, in their order.
pub open spec fn ends_of(links: Seq<Link>) -> Seq<(nat, nat)> {
    Seq::new(links.len(), |i: int| links[i].ends())
}

impl ListType {
    /// The name under which a list of this topology is drawn. Both circular
    /// topologies are drawn as circular doubly linked lists.
    pub open spec fn tag(self) -> Seq<char> {
        match self {
            ListType::Single => "SinglyLinkedList"@,
            ListType::Double => "DoublyLinkedList"@,
            ListType::CircleSingle => "CircularDoublyLinkedList"@,
            ListType::CircleDouble => "CircularDoublyLinkedList"@,
        }
    }

    /// The links of a list after a node is appended to it, where the list held
    /// `count` nodes and `links` before.
    ///
    /// The first node brings no link. Every later node is linked to the node
    /// before it; a circular list first gives up its closing links, which are
    /// its last, and gets new ones from the new node back to the first.
    pub open spec fn regenerate(self, count: nat, links: Seq<Link>) -> Seq<Link> {
        let tail = (count - 1) as u32;
        let node = count as u32;
        if count == 0 {
            links
        } else {
            match self {
                ListType::Single => links.push(Link::fresh(tail, node)),
                ListType::Double => links.push(Link::fresh(tail, node)).push(
                    Link::fresh(node, tail),
                ),
                ListType::CircleSingle => without_last(links, 1).push(
                    Link::fresh(tail, node),
                ).push(Link::fresh(node, 0)),
                ListType::CircleDouble => without_last(links, 2).push(
                    Link::fresh(tail, node),
                ).push(Link::fresh(node, tail)).push(Link::fresh(node, 0)).push(
                    Link::fresh(0, node),
                ),
            }
        }
    }

    /// The links of a list that has grown to `count` nodes under this topology
    /// alone, with no link restyled.
    pub open spec fn grown(self, count: nat) -> Seq<Link>
        decreases count,
    {
        if count == 0 {
            Seq::empty()
        } else {
            self.regenerate((count - 1) as nat, self.grown((count - 1) as nat))
        }
    }

    /// The name under which a list of this topology is drawn.
    pub fn visual(&self) -> (tag: &'static str)
        ensures
            tag@ == self.tag(),
    {
        match self {
            ListType::Single => "SinglyLinkedList",
            ListType::Double => "DoublyLinkedList",
            ListType::CircleSingle => "CircularDoublyLinkedList",
            ListType::CircleDouble => "CircularDoublyLinkedList",
        }
    }
}

/// What a linked list holds: its nodes in the order in which they were
/// appended, its links, its topology, and the chain that runs through the
/// nodes, all by position.
pub struct ListView<T: CloneDefault> {
    pub nodes: Seq<Element<T>>,
    pub links: Seq<Link>,
    pub list_type: ListType,
    pub head: Option<usize>,
    pub tail: Option<usize>,
    pub next: Seq<Option<usize>>,
    pub prev: Seq<Option<usize>>,
}

impl<T: CloneDefault> ListView<T> {
    /// The chain runs from the first node to the last and back, every position
    /// fits a link's endpoint, and a list of fewer than two nodes has no link.
    pub open spec fn wf(self) -> bool {
        let len = self.nodes.len();
        &&& len <= u32::MAX
        &&& self.next.len() == len
        &&& self.prev.len() == len
        &&& self.head == (if len == 0 {
            None
        } else {
            Some(0usize)
        })
        &&& self.tail == (if len == 0 {
            None
        } else {
            Some((len - 1) as usize)
        })
        &&& forall|i: int|
            0 <= i < len ==> #[trigger] self.next[i] == (if i + 1 < len {
                Some((i + 1) as usize)
            } else {
                None
            })
        &&& forall|i: int|
            0 <= i < len ==> #[trigger] self.prev[i] == (if 0 < i {
                Some((i - 1) as usize)
            } else {
                None
            })
        &&& len <= 1 ==> self.links.len() == 0
    }

    /// Every link runs where the current topology put it as the list grew:
    /// the topology was set before the second node came, and no link was
    /// given other endpoints. How the links are styled is of no account.
    pub open spec fn uniform(self) -> bool {
        ends_of(self.links) == ends_of(self.list_type.grown(self.nodes.len()))
    }

    /// Whether `position` is the first whose node holds a value equal to `value`.
    pub open spec fn is_first_holding(self, value: T, position: int) -> bool where T: PartialEq {
        &&& 0 <= position < self.nodes.len()
        &&& self.nodes[position].value.eq_spec(&value)
        &&& forall|earlier: int|
            0 <= earlier < position ==> !(#[trigger] self.nodes[earlier]).value.eq_spec(&value)
    }

    /// The first position whose node holds a value equal to `value`.
    pub open spec fn position_of(self, value: T) -> Option<int> where T: PartialEq {
        if exists|position: int| self.is_first_holding(value, position) {
            Some(choose|position: int| self.is_first_holding(value, position))
        } else {
            None
        }
    }

    /// Whether `index` is the first link that runs from `source` to `target`.
    pub open spec fn is_first_between(self, source: int, target: int, index: int) -> bool {
        &&& 0 <= index < self.links.len()
        &&& self.links[index].source == source
        &&& self.links[index].target == target
        &&& forall|earlier: int|
            0 <= earlier < index ==> !((#[trigger] self.links[earlier]).source == source
                && self.links[earlier].target == target)
    }

    /// The index of the first link that runs from `source` to `target`.
    pub open spec fn link_between(self, source: int, target: int) -> Option<int> {
        if exists|index: int| self.is_first_between(source, target, index) {
            Some(choose|index: int| self.is_first_between(source, target, index))
        } else {
            None
        }
    }

    /// The index of the link between the first nodes that hold `source` and
    /// `target`.
    pub open spec fn link_of(self, source: T, target: T) -> Option<int> where T: PartialEq {
        match (self.position_of(source), self.position_of(target)) {
            (Some(from), Some(to)) => self.link_between(from, to),
            _ => None,
        }
    }
}

/// A list of elements that keeps, beside its nodes, the links between them.
///
/// The nodes live in one sequence, in the order in which they were appended;
/// the chain from the head to the tail and back is kept by position.
pub struct LinkedList<T: CloneDefault> {
    nodes: Vec<Element<T>>,
    links: Vec<Link>,
    head: Option<usize>,
    tail: Option<usize>,
    forward: Vec<Option<usize>>,
    backward: Vec<Option<usize>>,
    list_type: ListType,
}

impl<T: CloneDefault> View for LinkedList<T> {
    type V = ListView<T>;

    closed spec fn view(&self) -> ListView<T> {
        ListView {
            nodes: self.nodes@,
            links: self.links@,
            list_type: self.list_type,
            head: self.head,
            tail: self.tail,
            next: self.forward@,
            prev: self.backward@,
        }
    }
}

impl<T: CloneDefault> LinkedList<T> {
    pub open spec fn wf(&self) -> bool {
        self@.wf()
    }

    /// An empty singly linked list.
    pub fn new() -> (list: LinkedList<T>)
        ensures
            list.wf(),
            list@.uniform(),
            list@.nodes == Seq::<Element<T>>::empty(),
            list@.links == Seq::<Link>::empty(),
            list@.list_type == ListType::Single,
    {
        LinkedList {
            nodes: Vec::new(),
            links: Vec::new(),
            head: None,
            tail: None,
            forward: Vec::new(),
            backward: Vec::new(),
            list_type: ListType::default(),
        }
    }

    /// Appends `node` and brings the links up to date for the list's topology.
    ///
    /// The first node becomes head and tail and brings no link.
    pub fn append(&mut self, node: Element<T>)
        requires
            old(self).wf(),
            old(self)@.nodes.len() < u32::MAX,
        ensures
            final(self).wf(),
            final(self)@.nodes == old(self)@.nodes.push(node),
            final(self)@.list_type == old(self)@.list_type,
            final(self)@.links == old(self)@.list_type.regenerate(
                old(self)@.nodes.len(),
                old(self)@.links,
            ),
            old(self)@.nodes.len() == 0 ==> final(self)@.links.len() == 0 && final(self)@.head
                == Some(0usize) && final(self)@.tail == Some(0usize),
            old(self)@.uniform() ==> final(self)@.uniform(),
    {
        let count = self.nodes.len();
        self.nodes.push(node);
        self.forward.push(None);
        if count == 0 {
            self.backward.push(None);
            self.head = Some(0);
            self.tail = Some(0);
        } else {
            let last: usize = count - 1;
            self.forward[last] = Some(count);
            self.backward.push(Some(last));
            self.tail = Some(count);
            let tail: u32 = last as u32;
            let node: u32 = count as u32;
            match self.list_type {
                ListType::Single => {
                    self.links.push(Link::new(tail, node));
                },
                ListType::Double => {
                    self.links.push(Link::new(tail, node));
                    self.links.push(Link::new(node, tail));
                },
                ListType::CircleSingle => {
                    self.links.pop();
                    self.links.push(Link::new(tail, node));
                    self.links.push(Link::new(node, 0));
                },
                ListType::CircleDouble => {
                    self.links.pop();
                    self.links.pop();
                    self.links.push(Link::new(tail, node));
                    self.links.push(Link::new(node, tail));
                    self.links.push(Link::new(node, 0));
                    self.links.push(Link::new(0, node));
                },
            }
            assert(self.links@ =~= old(self)@.list_type.regenerate(
                count as nat,
                old(self)@.links,
            ));
        }
        proof {
            if old(self)@.uniform() {
                lemma_regenerate_ends(
                    self.list_type,
                    count as nat,
                    old(self)@.links,
                    self.list_type.grown(count as nat),
                );
            }
        }
    }

    /// The first position whose node holds a value equal to `value`.
    ///
    /// What is equal is for `T` to say; the result is promised where its `==`
    /// keeps to its specification.
    pub fn position(&self, value: &T) -> (position: Option<usize>) where T: PartialEq
        ensures
            T::obeys_eq_spec() ==> self@.position_of(*value) == match position {
                Some(found) => Some(found as int),
                None => None,
            },
            position matches Some(found) ==> found < self@.nodes.len(),
    {
        let mut i: usize = 0;
        while i < self.nodes.len()
            invariant
                i <= self.nodes.len(),
                T::obeys_eq_spec() ==> forall|earlier: int|
                    0 <= earlier < i ==> !(#[trigger] self@.nodes[earlier]).value.eq_spec(value),
            decreases self.nodes.len() - i,
        {
            if self.nodes[i].value == *value {
                assert(T::obeys_eq_spec() ==> self@.is_first_holding(*value, i as int));
                return Some(i);
            }
            i += 1;
        }
        None
    }

    /// The first link that runs from position `source` to position `target`,
    /// for the caller to read or restyle.
    pub fn find_link(&mut self, source: u32, target: u32) -> (link: Option<&mut Link>)
        ensures
            match old(self)@.link_between(source as int, target as int) {
                Some(index) => link matches Some(found) && 0 <= index < old(self)@.links.len()
                    && *found == old(self)@.links[index] && final(self)@ == (ListView {
                    links: old(self)@.links.update(index, *final(found)),
                    ..old(self)@
                }),
                None => link is None && final(self)@ == old(self)@,
            },
    {
        let mut i: usize = 0;
        while i < self.links.len()
            invariant
                i <= self.links.len(),
                *self == *old(self),
                forall|earlier: int|
                    0 <= earlier < i ==> !((#[trigger] self@.links[earlier]).source == source
                        && self@.links[earlier].target == target),
            decreases self.links.len() - i,
        {
            if self.links[i].source == source && self.links[i].target == target {
                assert(old(self)@.is_first_between(source as int, target as int, i as int));
                return Some(&mut self.links[i]);
            }
            i += 1;
        }
        None
    }

    /// The link between the first node that holds `source` and the first that
    /// holds `target`, for the caller to read or restyle; none where either
    /// value is not in the list or no such link exists.
    pub fn get_link(&mut self, source: T, target: T) -> (link: Option<&mut Link>) where
        T: PartialEq,

        ensures
            T::obeys_eq_spec() ==> match old(self)@.link_of(source, target) {
                Some(index) => link matches Some(found) && 0 <= index < old(self)@.links.len()
                    && *found == old(self)@.links[index] && final(self)@ == (ListView {
                    links: old(self)@.links.update(index, *final(found)),
                    ..old(self)@
                }),
                None => link is None && final(self)@ == old(self)@,
            },
            link is None ==> final(self)@ == old(self)@,
            link matches Some(found) ==> exists|index: int|
                0 <= index < old(self)@.links.len() && *found == old(self)@.links[index]
                    && final(self)@ == (ListView {
                    links: #[trigger] old(self)@.links.update(index, *final(found)),
                    ..old(self)@
                }),
    {
        let from: usize = match self.position(&source) {
            Some(position) => position,
            None => {
                return None;
            },
        };
        let to: usize = match self.position(&target) {
            Some(position) => position,
            None => {
                return None;
            },
        };
        if from > u32::MAX as usize || to > u32::MAX as usize {
            assert(forall|index: int| !old(self)@.is_first_between(from as int, to as int, index));
            return None;
        }
        self.find_link(from as u32, to as u32)
    }

    /// Sets the topology under which later nodes are linked. The links that
    /// the list has stay as they are.
    pub fn set_list_type(&mut self, list_type: ListType)
        ensures
            final(self)@ == (ListView { list_type, ..old(self)@ }),
            old(self).wf() ==> final(self).wf(),
            old(self).wf() && old(self)@.nodes.len() <= 1 ==> final(self)@.uniform(),
    {
        self.list_type = list_type;
        proof {
            lemma_grown_start(list_type);
            if old(self).wf() && old(self)@.nodes.len() <= 1 {
                assert(self@.links =~= Seq::<Link>::empty());
            }
        }
    }

    /// The topology under which the next node will be linked.
    pub fn list_type(&self) -> (list_type: ListType)
        ensures
            list_type == self@.list_type,
    {
        self.list_type
    }

    /// The number of nodes.
    pub fn len(&self) -> (len: usize)
        ensures
            len == self@.nodes.len(),
    {
        self.nodes.len()
    }

    /// The nodes, in the order in which they were appended.
    pub fn nodes(&self) -> (nodes: &Vec<Element<T>>)
        ensures
            nodes@ == self@.nodes,
    {
        &self.nodes
    }

    /// The links, oldest first.
    pub fn links(&self) -> (links: &Vec<Link>)
        ensures
            links@ == self@.links,
    {
        &self.links
    }

    /// The position of the first node, if there is one.
    pub fn head(&self) -> (head: Option<usize>)
        ensures
            head == self@.head,
    {
        self.head
    }

    /// The position of the last node, if there is one.
    pub fn tail(&self) -> (tail: Option<usize>)
        ensures
            tail == self@.tail,
    {
        self.tail
    }

    /// The position that follows `position` in the chain; none after the tail
    /// and outside the list.
    pub fn next(&self, position: usize) -> (next: Option<usize>)
        ensures
            next == (if position < self@.next.len() {
                self@.next[position as int]
            } else {
                None
            }),
    {
        if position < self.forward.len() {
            self.forward[position]
        } else {
            None
        }
    }

    /// The position that comes before `position` in the chain; none before
    /// the head and outside the list.
    pub fn prev(&self, position: usize) -> (prev: Option<usize>)
        ensures
            prev == (if position < self@.prev.len() {
                self@.prev[position as int]
            } else {
                None
            }),
    {
        if position < self.backward.len() {
            self.backward[position]
        } else {
            None
        }
    }
}

impl<T: CloneDefault + Encode> ListView<T> {
    /// What the document of the list says: the name of its topology, its
    /// nodes and its links, each in their order.
    pub open spec fn document(self) -> Json {
        Json::Object(
            Map::empty().insert("visual"@, Json::Text(self.list_type.tag())).insert(
                "nodes"@,
                node_documents(self.nodes),
            ).insert("links"@, link_documents(self.links)),
        )
    }
}

impl<T: CloneDefault + Encode> LinkedList<T> {
    /// Writes the list as a document, or names the first node whose value
    /// has no structured form.
    pub fn to_document(&self) -> (document: Result<Document, Unencodable>)
        ensures
            match document {
                Ok(written) => encodable(self@.nodes) && written@ == self@.document(),
                Err(first) => first.position < self@.nodes.len()
                    && self@.nodes[first.position as int].value.encoding() is None && encodable(
                    self@.nodes.take(first.position as int),
                ),
            },
    {
        let nodes = match encode_nodes(&self.nodes) {
            Ok(nodes) => nodes,
            Err(first) => {
                return Err(first);
            },
        };
        let mut object = Object::new();
        object.insert(
            String::from_str("visual"),
            Document::Text(String::from_str(self.list_type.visual())),
        );
        object.insert(String::from_str("nodes"), nodes);
        object.insert(String::from_str("links"), encode_links(&self.links));
        Ok(Document::Object(object))
    }
}

pub fn new<T: CloneDefault>() -> (list: LinkedList<T>)
    ensures
        list.wf(),
        list@.uniform(),
        list@.nodes == Seq::<Element<T>>::empty(),
        list@.links == Seq::<Link>::empty(),
        list@.list_type == ListType::Single,
{
    LinkedList::<T>::new()
}

/// The endpoints of the link that a doubly linked list holds at `index`:
/// forward from node `index / 2` at an even index, back to it at an odd one.
pub open spec fn paired_ends(index: int) -> (nat, nat) {
    if index % 2 == 0 {
        ((index / 2) as nat, (index / 2 + 1) as nat)
    } else {
        ((index / 2 + 1) as nat, (index / 2) as nat)
    }
}

/// A list of fewer than two nodes has no link, whatever its topology.
pub proof fn lemma_grown_start(list_type: ListType)
    ensures
        list_type.grown(0) == Seq::<Link>::empty(),
        list_type.grown(1) == Seq::<Link>::empty(),
{
    reveal_with_fuel(ListType::grown, 2);
}

/// Where the links of a list run is all that decides where they run after
/// the next node has come.
pub proof fn lemma_regenerate_ends(
    list_type: ListType,
    count: nat,
    links: Seq<Link>,
    others: Seq<Link>,
)
    requires
        ends_of(links) == ends_of(others),
    ensures
        ends_of(list_type.regenerate(count, links)) == ends_of(
            list_type.regenerate(count, others),
        ),
{
    assert(links.len() == ends_of(links).len());
    assert(others.len() == ends_of(others).len());
    assert forall|i: int| 0 <= i < links.len() implies (#[trigger] links[i]).ends()
        == others[i].ends() by {
        assert(ends_of(links)[i] == links[i].ends());
        assert(ends_of(others)[i] == others[i].ends());
    }
    assert(ends_of(list_type.regenerate(count, links)) =~= ends_of(
        list_type.regenerate(count, others),
    ));
}

/// Where the links of a uniform list run.
proof fn lemma_uniform_ends<T: CloneDefault>(list: ListView<T>)
    requires
        list.uniform(),
    ensures
        list.links.len() == list.list_type.grown(list.nodes.len()).len(),
        forall|j: int|
            0 <= j < list.links.len() ==> (#[trigger] list.links[j]).ends()
                == list.list_type.grown(list.nodes.len())[j].ends(),
{
    let grown = list.list_type.grown(list.nodes.len());
    assert(list.links.len() == ends_of(list.links).len());
    assert(grown.len() == ends_of(grown).len());
    assert forall|j: int| 0 <= j < list.links.len() implies (#[trigger] list.links[j]).ends()
        == grown[j].ends() by {
        assert(ends_of(list.links)[j] == list.links[j].ends());
        assert(ends_of(grown)[j] == grown[j].ends());
    }
}

proof fn lemma_grown_single(count: nat)
    requires
        1 <= count <= u32::MAX,
    ensures
        ListType::Single.grown(count).len() == count - 1,
        forall|j: int|
            0 <= j < count - 1 ==> (#[trigger] ListType::Single.grown(count)[j]).ends() == (
                j as nat,
                (j + 1) as nat,
            ),
    decreases count,
{
    if count > 1 {
        lemma_grown_single((count - 1) as nat);
    } else {
        lemma_grown_start(ListType::Single);
    }
}

proof fn lemma_grown_double(count: nat)
    requires
        1 <= count <= u32::MAX,
    ensures
        ListType::Double.grown(count).len() == 2 * (count - 1),
        forall|j: int|
            0 <= j < 2 * (count - 1) ==> (#[trigger] ListType::Double.grown(count)[j]).ends()
                == paired_ends(j),
    decreases count,
{
    if count > 1 {
        lemma_grown_double((count - 1) as nat);
    } else {
        lemma_grown_start(ListType::Double);
    }
}

proof fn lemma_grown_circle_single(count: nat)
    requires
        2 <= count <= u32::MAX,
    ensures
        ListType::CircleSingle.grown(count).len() == count,
        forall|j: int|
            0 <= j < count - 1 ==> (#[trigger] ListType::CircleSingle.grown(count)[j]).ends() == (
                j as nat,
                (j + 1) as nat,
            ),
        ListType::CircleSingle.grown(count)[count - 1].ends() == ((count - 1) as nat, 0nat),
    decreases count,
{
    if count > 2 {
        lemma_grown_circle_single((count - 1) as nat);
    } else {
        lemma_grown_start(ListType::CircleSingle);
    }
}

proof fn lemma_grown_circle_double(count: nat)
    requires
        2 <= count <= u32::MAX,
    ensures
        ListType::CircleDouble.grown(count).len() == 2 * count,
        forall|j: int|
            0 <= j < 2 * (count - 1) ==> (#[trigger] ListType::CircleDouble.grown(count)[j]).ends()
                == paired_ends(j),
        ListType::CircleDouble.grown(count)[2 * count - 2].ends() == ((count - 1) as nat, 0nat),
        ListType::CircleDouble.grown(count)[2 * count - 1].ends() == (0nat, (count - 1) as nat),
    decreases count,
{
    if count > 2 {
        lemma_grown_circle_double((count - 1) as nat);
    } else {
        lemma_grown_start(ListType::CircleDouble);
    }
}

/// A singly linked list of `n >= 1` nodes has `n - 1` links, and they run
/// from each node to the next, in the order of the nodes.
pub proof fn lemma_single_links<T: CloneDefault>(list: ListView<T>)
    requires
        list.wf(),
        list.uniform(),
        list.list_type == ListType::Single,
        list.nodes.len() >= 1,
    ensures
        list.links.len() == list.nodes.len() - 1,
        forall|j: int|
            0 <= j < list.nodes.len() - 1 ==> (#[trigger] list.links[j]).ends() == (
                j as nat,
                (j + 1) as nat,
            ),
{
    lemma_grown_single(list.nodes.len());
    lemma_uniform_ends(list);
}

/// A doubly linked list of `n >= 1` nodes has `2 (n - 1)` links: for every
/// node `i` but the first, the link from `i - 1` to `i` at index `2 (i - 1)`
/// and the link back right after it.
pub proof fn lemma_double_links<T: CloneDefault>(list: ListView<T>)
    requires
        list.wf(),
        list.uniform(),
        list.list_type == ListType::Double,
        list.nodes.len() >= 1,
    ensures
        list.links.len() == 2 * (list.nodes.len() - 1),
        forall|j: int|
            0 <= j < 2 * (list.nodes.len() - 1) ==> (#[trigger] list.links[j]).ends()
                == paired_ends(j),
{
    lemma_grown_double(list.nodes.len());
    lemma_uniform_ends(list);
}

/// A circular singly linked list of `n >= 2` nodes has `n` links: from each
/// node to the next, and last the closing link from the last node to the
/// first. No other link runs between the ends of the closing link.
pub proof fn lemma_circle_single_links<T: CloneDefault>(list: ListView<T>)
    requires
        list.wf(),
        list.uniform(),
        list.list_type == ListType::CircleSingle,
        list.nodes.len() >= 2,
    ensures
        list.links.len() == list.nodes.len(),
        forall|j: int|
            0 <= j < list.nodes.len() - 1 ==> (#[trigger] list.links[j]).ends() == (
                j as nat,
                (j + 1) as nat,
            ),
        list.links[list.nodes.len() - 1].ends() == ((list.nodes.len() - 1) as nat, 0nat),
        forall|j: int|
            0 <= j < list.nodes.len() ==> ((#[trigger] list.links[j]).ends() == (
                (list.nodes.len() - 1) as nat,
                0nat,
            ) <==> j == list.nodes.len() - 1),
{
    lemma_grown_circle_single(list.nodes.len());
    lemma_uniform_ends(list);
}

/// When a circular singly linked list of `n >= 2` nodes takes one more, its
/// closing link goes: afterwards no link runs from node `n - 1` to the first,
/// and the last link closes the circle from the new node.
pub proof fn lemma_circle_single_closing_replaced<T: CloneDefault>(list: ListView<T>)
    requires
        list.wf(),
        list.uniform(),
        list.list_type == ListType::CircleSingle,
        2 <= list.nodes.len() < u32::MAX,
    ensures
        ({
            let n = list.nodes.len();
            let after = list.list_type.regenerate(n, list.links);
            &&& after.len() == n + 1
            &&& after[n as int].ends() == (n, 0nat)
            &&& forall|j: int|
                0 <= j <= n ==> (#[trigger] after[j]).ends() != ((n - 1) as nat, 0nat)
        }),
{
    let n = list.nodes.len();
    let after = list.list_type.regenerate(n, list.links);
    let grown = list.list_type.grown(n + 1);
    lemma_grown_circle_single(n);
    lemma_grown_circle_single(n + 1);
    lemma_regenerate_ends(list.list_type, n, list.links, list.list_type.grown(n));
    lemma_uniform_ends(list);
    assert(after.len() == n + 1);
    assert forall|j: int| 0 <= j <= n implies (#[trigger] after[j]).ends() == grown[j].ends() by {
        assert(ends_of(after)[j] == after[j].ends());
        assert(ends_of(grown)[j] == grown[j].ends());
    }
}

/// A circular doubly linked list of `n >= 2` nodes has `2 n` links: a pair
/// for every node but the first, as in a doubly linked list, and last the
/// closing pair, from the last node to the first and back.
pub proof fn lemma_circle_double_links<T: CloneDefault>(list: ListView<T>)
    requires
        list.wf(),
        list.uniform(),
        list.list_type == ListType::CircleDouble,
        list.nodes.len() >= 2,
    ensures
        list.links.len() == 2 * list.nodes.len(),
        forall|j: int|
            0 <= j < 2 * (list.nodes.len() - 1) ==> (#[trigger] list.links[j]).ends()
                == paired_ends(j),
        list.links[2 * list.nodes.len() - 2].ends() == ((list.nodes.len() - 1) as nat, 0nat),
        list.links[2 * list.nodes.len() - 1].ends() == (0nat, (list.nodes.len() - 1) as nat),
{
    lemma_grown_circle_double(list.nodes.len());
    lemma_uniform_ends(list);
}

/// In a circular doubly linked list of `n >= 3` nodes the closing pair is the
/// only one of its kind: no link before it runs between the last node and the
/// first, in either direction.
pub proof fn lemma_circle_double_closing_unique<T: CloneDefault>(list: ListView<T>)
    requires
        list.wf(),
        list.uniform(),
        list.list_type == ListType::CircleDouble,
        list.nodes.len() >= 3,
    ensures
        forall|j: int|
            0 <= j < 2 * list.nodes.len() ==> ((#[trigger] list.links[j]).ends() == (
                (list.nodes.len() - 1) as nat,
                0nat,
            ) <==> j == 2 * list.nodes.len() - 2),
        forall|j: int|
            0 <= j < 2 * list.nodes.len() ==> ((#[trigger] list.links[j]).ends() == (
                0nat,
                (list.nodes.len() - 1) as nat,
            ) <==> j == 2 * list.nodes.len() - 1),
{
    lemma_grown_circle_double(list.nodes.len());
    lemma_uniform_ends(list);
}

/// When a circular doubly linked list of `n >= 2` nodes takes one more, its
/// closing pair goes and the new node brings the next: afterwards the last
/// two links run from the new node to the first and back, and the links
/// before the old closing pair are the ones that were there.
pub proof fn lemma_circle_double_closing_replaced<T: CloneDefault>(list: ListView<T>)
    requires
        list.wf(),
        list.uniform(),
        list.list_type == ListType::CircleDouble,
        2 <= list.nodes.len() < u32::MAX,
    ensures
        ({
            let n = list.nodes.len();
            let after = list.list_type.regenerate(n, list.links);
            &&& after.len() == 2 * n + 2
            &&& after[2 * n as int].ends() == (n, 0nat)
            &&& after[2 * n + 1 as int].ends() == (0nat, n)
            &&& forall|j: int| 0 <= j < 2 * n - 2 ==> #[trigger] after[j] == list.links[j]
        }),
{
    lemma_grown_circle_double(list.nodes.len());
    lemma_uniform_ends(list);
}

} // verus!
