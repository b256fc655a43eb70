//! Structured documents and the operation that lays one over another.

use vstd::prelude::*;

verus! {

/// A number of a document. `Single` and `Double` hold the bit pattern of an
/// IEEE 754 number of single or double precision.
#[derive(Clone, Copy, Debug, PartialEq, Eq, Structural)]
pub enum Number {
    Unsigned(u64),
    Signed(i64),
    Single(u32),
    Double(u64),
}

impl Number {
    /// The number that stands for the integer `value`: unsigned from zero on,
    /// signed below.
    pub open spec fn integer(value: int) -> Number {
        if value >= 0 {
            Number::Unsigned(value as u64)
        } else {
            Number::Signed(value as i64)
        }
    }

    /// The number that stands for `value`.
    pub fn from_i64(value: i64) -> (number: Number)
        ensures
            number == Number::integer(value as int),
    {
        if value >= 0 {
            Number::Unsigned(value as u64)
        } else {
            Number::Signed(value)
        }
    }

    /// The number that stands for `value`.
    pub fn from_u64(value: u64) -> (number: Number)
        ensures
            number == Number::integer(value as int),
    {
        Number::Unsigned(value)
    }
}

/// What a document says: nothing, a truth value, a number, a text, a list of
/// documents, or documents under distinct keys.
pub enum Json {
    Null,
    Bool(bool),
    Number(Number),
    Text(Seq<char>),
    List(Seq<Json>),
    Object(Map<Seq<char>, Json>),
}

/// The document that results from laying `overlay` over `base`.
///
/// Two objects are merged key by key: a key of only one side keeps that
/// side's document, a key of both holds the two documents merged. In every
/// other case the overlay takes the place of the base.
pub open spec fn merged(base: Json, overlay: Json) -> Json
    decreases overlay,
{
    match (base, overlay) {
        (Json::Object(under), Json::Object(over)) => Json::Object(
            Map::new(
                |key: Seq<char>| under.contains_key(key) || over.contains_key(key),
                |key: Seq<char>|
                    if over.contains_key(key) {
                        if under.contains_key(key) {
                            merged(under[key], over[key])
                        } else {
                            over[key]
                        }
                    } else {
                        under[key]
                    },
            ),
        ),
        (_, other) => other,
    }
}

/// One entry of an object.
#[derive(Debug, PartialEq)]
struct Member {
    key: String,
    value: Document,
}

/// Documents under keys, no key twice.
///
/// `==` compares two objects entry by entry, in the order in which their
/// keys came.
#[derive(Debug, PartialEq)]
pub struct Object {
    members: Vec<Member>,
}

/// A structured document.
#[derive(Debug, PartialEq)]
pub enum Document {
    Null,
    Bool(bool),
    Number(Number),
    Text(String),
    List(Vec<Document>),
    Object(Object),
}

/// Whether one of `members` has the key `key`.
spec fn has_key(members: Seq<Member>, key: Seq<char>) -> bool {
    exists|i: int| 0 <= i < members.len() && (#[trigger] members[i]).key@ == key
}

/// An index at which `members` has the key `key`.
spec fn index_of(members: Seq<Member>, key: Seq<char>) -> int {
    choose|i: int| 0 <= i < members.len() && (#[trigger] members[i]).key@ == key
}

/// Whether no two of `members` have the same key.
spec fn distinct_keys(members: Seq<Member>) -> bool {
    forall|i: int, j: int|
        0 <= i < j < members.len() ==> (#[trigger] members[i]).key@ != (#[trigger] members[j]).key@
}

/// The documents of `members` under their keys.
spec fn members_view(members: Seq<Member>) -> Map<Seq<char>, Json>
    decreases members,
{
    Map::new(
        |key: Seq<char>| has_key(members, key),
        |key: Seq<char>|
            {
                let i = index_of(members, key);
                if 0 <= i < members.len() {
                    members[i].value.view()
                } else {
                    Json::Null
                }
            },
    )
}

impl View for Object {
    type V = Map<Seq<char>, Json>;

    closed spec fn view(&self) -> Map<Seq<char>, Json>
        decreases self,
    {
        members_view(self.members@)
    }
}

impl View for Document {
    type V = Json;

    open spec fn view(&self) -> Json
        decreases self,
    {
        match self {
            Document::Null => Json::Null,
            Document::Bool(truth) => Json::Bool(*truth),
            Document::Number(number) => Json::Number(*number),
            Document::Text(text) => Json::Text(text@),
            Document::List(items) => Json::List(
                Seq::new(
                    items@.len(),
                    |i: int|
                        if 0 <= i < items@.len() {
                            items@[i].view()
                        } else {
                            Json::Null
                        },
                ),
            ),
            Document::Object(object) => Json::Object(object.view()),
        }
    }
}

impl Object {
    /// No key occurs twice.
    #[verifier::type_invariant]
    pub closed spec fn wf(&self) -> bool {
        distinct_keys(self.members@)
    }
}

/// Where keys are distinct, the member at `i` is the one found under its key.
proof fn lemma_member_found(members: Seq<Member>, i: int)
    requires
        distinct_keys(members),
        0 <= i < members.len(),
    ensures
        has_key(members, members[i].key@),
        index_of(members, members[i].key@) == i,
        members_view(members).contains_key(members[i].key@),
        members_view(members)[members[i].key@] == members[i].value@,
{
    let key = members[i].key@;
    let found = index_of(members, key);
    assert(0 <= found < members.len() && members[found].key@ == key);
    if found < i {
        assert(members[found].key@ != members[i].key@);
    } else if i < found {
        assert(members[i].key@ != members[found].key@);
    }
}

/// A member under a new key adds that key to the view.
proof fn lemma_view_push(members: Seq<Member>, member: Member)
    requires
        distinct_keys(members),
        !has_key(members, member.key@),
    ensures
        distinct_keys(members.push(member)),
        members_view(members.push(member)) == members_view(members).insert(
            member.key@,
            member.value@,
        ),
{
    let after = members.push(member);
    assert forall|i: int, j: int| 0 <= i < j < after.len() implies (#[trigger] after[i]).key@ != (
    #[trigger] after[j]).key@ by {
        if j == members.len() {
            assert(after[i] == members[i]);
        } else {
            assert(after[i] == members[i] && after[j] == members[j]);
        }
    }
    let expected = members_view(members).insert(member.key@, member.value@);
    assert forall|key: Seq<char>| #[trigger]
        members_view(after).contains_key(key) == expected.contains_key(key) by {
        if has_key(after, key) {
            let i = index_of(after, key);
            if i < members.len() {
                assert(members[i].key@ == key);
            }
        }
        if has_key(members, key) {
            let i = index_of(members, key);
            assert(after[i].key@ == key);
        }
        if key == member.key@ {
            assert(after[members.len() as int].key@ == key);
        }
    }
    assert forall|key: Seq<char>| #[trigger]
        members_view(after).contains_key(key) implies members_view(after)[key] == expected[key] by {
        let i = index_of(after, key);
        lemma_member_found(after, i);
        if i < members.len() {
            assert(after[i] == members[i]);
            lemma_member_found(members, i);
        }
    }
    assert(members_view(after) =~= expected);
}

/// A new document under the key of the member at `i` replaces the old one in
/// the view.
proof fn lemma_view_update(members: Seq<Member>, i: int, member: Member)
    requires
        distinct_keys(members),
        0 <= i < members.len(),
        member.key@ == members[i].key@,
    ensures
        distinct_keys(members.update(i, member)),
        members_view(members.update(i, member)) == members_view(members).insert(
            member.key@,
            member.value@,
        ),
{
    let after = members.update(i, member);
    assert forall|a: int, b: int| 0 <= a < b < after.len() implies (#[trigger] after[a]).key@ != (
    #[trigger] after[b]).key@ by {
        assert(after[a].key@ == members[a].key@);
        assert(after[b].key@ == members[b].key@);
    }
    let expected = members_view(members).insert(member.key@, member.value@);
    assert forall|key: Seq<char>| #[trigger]
        members_view(after).contains_key(key) == expected.contains_key(key) by {
        if has_key(after, key) {
            let j = index_of(after, key);
            assert(members[j].key@ == key);
        }
        if has_key(members, key) {
            let j = index_of(members, key);
            assert(after[j].key@ == key);
        }
        if key == member.key@ {
            assert(after[i].key@ == key);
        }
    }
    assert forall|key: Seq<char>| #[trigger]
        members_view(after).contains_key(key) implies members_view(after)[key] == expected[key] by {
        let j = index_of(after, key);
        lemma_member_found(after, j);
        if j != i {
            assert(after[j] == members[j]);
            lemma_member_found(members, j);
        }
    }
    assert(members_view(after) =~= expected);
}

impl Object {
    /// An object without keys.
    pub fn new() -> (object: Object)
        ensures
            object@ == Map::<Seq<char>, Json>::empty(),
    {
        Object { members: Vec::new() }
    }

    /// The number of keys.
    pub fn len(&self) -> (len: usize)
        ensures
            len == self@.len(),
            self@.dom().finite(),
    {
        proof {
            use_type_invariant(self);
            lemma_view_finite(self.members@);
        }
        self.members.len()
    }

    /// Whether the object has a document under `key`.
    pub fn contains_key(&self, key: &str) -> (found: bool)
        ensures
            found == self@.contains_key(key@),
    {
        let key = String::from_str(key);
        find(&self.members, &key).is_some()
    }

    /// The document under `key`.
    pub fn get(&self, key: &str) -> (found: Option<&Document>)
        ensures
            match found {
                Some(document) => self@.contains_key(key@) && document@ == self@[key@],
                None => !self@.contains_key(key@),
            },
    {
        let key = String::from_str(key);
        match find(&self.members, &key) {
            Some(i) => {
                proof {
                    use_type_invariant(self);
                    lemma_member_found(self.members@, i as int);
                }
                Some(&self.members[i].value)
            },
            None => None,
        }
    }

    /// The keys in the order in which they came.
    pub closed spec fn keys(&self) -> Seq<Seq<char>> {
        Seq::new(self.members@.len(), |i: int| self.members@[i].key@)
    }

    /// The keys in their order are the keys of the view, each once.
    pub proof fn lemma_keys(&self)
        requires
            self.wf(),
        ensures
            self.keys().no_duplicates(),
            self.keys().len() == self@.len(),
            self@.dom().finite(),
            forall|key: Seq<char>| self.keys().contains(key) <==> self@.contains_key(key),
    {
        lemma_view_finite(self.members@);
        assert forall|key: Seq<char>| self.keys().contains(key) <==> self@.contains_key(key) by {
            if self.keys().contains(key) {
                let i = choose|i: int| 0 <= i < self.keys().len() && self.keys()[i] == key;
                assert(self.members@[i].key@ == key);
            }
            if self@.contains_key(key) {
                let i = index_of(self.members@, key);
                assert(self.keys()[i] == key);
            }
        }
    }

    /// The key at `index` in the order in which the keys came, with its
    /// document; none from the number of keys on.
    pub fn entry(&self, index: usize) -> (entry: Option<(&String, &Document)>)
        ensures
            match entry {
                Some((key, document)) => index < self.keys().len() && key@ == self.keys()[index as int]
                    && self@.contains_key(key@) && document@ == self@[key@],
                None => index >= self.keys().len(),
            },
    {
        if index < self.members.len() {
            proof {
                use_type_invariant(self);
                lemma_member_found(self.members@, index as int);
            }
            Some((&self.members[index].key, &self.members[index].value))
        } else {
            None
        }
    }

    /// Puts `value` under `key`, in place of the document that was there, and
    /// returns that document.
    pub fn insert(&mut self, key: String, value: Document) -> (previous: Option<Document>)
        ensures
            final(self)@ == old(self)@.insert(key@, value@),
            match previous {
                Some(document) => old(self)@.contains_key(key@) && document@ == old(self)@[key@],
                None => !old(self)@.contains_key(key@),
            },
    {
        proof {
            use_type_invariant(&*self);
        }
        let mut members: Vec<Member> = Vec::new();
        std::mem::swap(&mut self.members, &mut members);
        let previous = put(&mut members, key, value);
        self.members = members;
        previous
    }

    /// Lays the documents of `overlay` over those of this object, key by key.
    pub fn absorb(&mut self, overlay: Object)
        ensures
            final(self)@ == laid_over(old(self)@, overlay@),
        decreases overlay,
    {
        proof {
            use_type_invariant(&*self);
            use_type_invariant(&overlay);
        }
        let mut members: Vec<Member> = Vec::new();
        std::mem::swap(&mut self.members, &mut members);
        lay_over(&mut members, overlay.members);
        self.members = members;
    }
}

/// The keys of finitely many members are finitely many.
proof fn lemma_view_finite(members: Seq<Member>)
    requires
        distinct_keys(members),
    ensures
        members_view(members).dom().finite(),
        members_view(members).len() == members.len(),
    decreases members.len(),
{
    if members.len() == 0 {
        assert(members_view(members) =~= Map::<Seq<char>, Json>::empty());
    } else {
        let front = members.drop_last();
        let last = members.last();
        assert(members =~= front.push(last));
        assert(distinct_keys(front)) by {
            assert forall|i: int, j: int| 0 <= i < j < front.len() implies (#[trigger] front[i]).key@
                != (#[trigger] front[j]).key@ by {
                assert(front[i] == members[i] && front[j] == members[j]);
            }
        }
        assert(!has_key(front, last.key@)) by {
            if has_key(front, last.key@) {
                let i = index_of(front, last.key@);
                assert(members[i].key@ == members[members.len() - 1].key@);
            }
        }
        lemma_view_finite(front);
        lemma_view_push(front, last);
    }
}

/// The documents of two objects, key by key: a key of only one side keeps
/// that side's document, a key of both holds the two documents merged.
pub open spec fn laid_over(under: Map<Seq<char>, Json>, over: Map<Seq<char>, Json>) -> Map<
    Seq<char>,
    Json,
> {
    Map::new(
        |key: Seq<char>| under.contains_key(key) || over.contains_key(key),
        |key: Seq<char>|
            if over.contains_key(key) {
                if under.contains_key(key) {
                    merged(under[key], over[key])
                } else {
                    over[key]
                }
            } else {
                under[key]
            },
    )
}

/// Two objects merge into the object of their documents laid over each other.
pub proof fn lemma_merged_objects(under: Map<Seq<char>, Json>, over: Map<Seq<char>, Json>)
    ensures
        merged(Json::Object(under), Json::Object(over)) == Json::Object(laid_over(under, over)),
{
    assert(merged(Json::Object(under), Json::Object(over))->Object_0 =~= laid_over(under, over));
}

/// Laying one more key over an object changes the result under that key alone.
proof fn lemma_laid_over_insert(
    under: Map<Seq<char>, Json>,
    over: Map<Seq<char>, Json>,
    key: Seq<char>,
    value: Json,
)
    requires
        !over.contains_key(key),
    ensures
        laid_over(under, over.insert(key, value)) == laid_over(under, over).insert(
            key,
            if under.contains_key(key) {
                merged(under[key], value)
            } else {
                value
            },
        ),
{
    assert(laid_over(under, over.insert(key, value)) =~= laid_over(under, over).insert(
        key,
        if under.contains_key(key) {
            merged(under[key], value)
        } else {
            value
        },
    ));
}

/// The index of the member under `key`.
fn find(members: &Vec<Member>, key: &String) -> (found: Option<usize>)
    ensures
        match found {
            Some(i) => i < members@.len() && members@[i as int].key@ == key@,
            None => !has_key(members@, key@),
        },
{
    let mut i: usize = 0;
    while i < members.len()
        invariant
            i <= members.len(),
            forall|j: int| 0 <= j < i ==> (#[trigger] members@[j]).key@ != key@,
        decreases members.len() - i,
    {
        if members[i].key == *key {
            return Some(i);
        }
        i += 1;
    }
    None
}

/// Puts `value` under `key` among `members`, in place of the document that
/// was there, and returns that document.
fn put(members: &mut Vec<Member>, key: String, value: Document) -> (previous: Option<Document>)
    requires
        distinct_keys(old(members)@),
    ensures
        distinct_keys(final(members)@),
        members_view(final(members)@) == members_view(old(members)@).insert(key@, value@),
        match previous {
            Some(document) => members_view(old(members)@).contains_key(key@) && document@
                == members_view(old(members)@)[key@],
            None => !members_view(old(members)@).contains_key(key@),
        },
{
    match find(members, &key) {
        Some(i) => {
            proof {
                lemma_member_found(members@, i as int);
                lemma_view_update(members@, i as int, Member { key, value });
            }
            let mut member = Member { key, value };
            std::mem::swap(&mut members[i], &mut member);
            Some(member.value)
        },
        None => {
            proof {
                lemma_view_push(members@, Member { key, value });
            }
            members.push(Member { key, value });
            None
        },
    }
}

/// Lays the documents of `overlay` over those of `members`, key by key.
fn lay_over(members: &mut Vec<Member>, overlay: Vec<Member>)
    requires
        distinct_keys(old(members)@),
        distinct_keys(overlay@),
    ensures
        distinct_keys(final(members)@),
        members_view(final(members)@) == laid_over(
            members_view(old(members)@),
            members_view(overlay@),
        ),
    decreases overlay,
{
    let ghost under = members_view(members@);
    let ghost over = overlay@;
    assert(members_view(over.take(0)) =~= Map::<Seq<char>, Json>::empty());
    assert(under =~= laid_over(under, members_view(over.take(0))));
    for member in iter: overlay
        invariant
            iter.seq() == over,
            distinct_keys(over),
            distinct_keys(members@),
            members_view(members@) == laid_over(
                under,
                members_view(over.take(iter.index() as int)),
            ),
    {
        let ghost done = iter.index() as int;
        let ghost before = over.take(done);
        proof {
            assert(member == over[done]);
            assert(over.take(done + 1) =~= before.push(member));
            assert(distinct_keys(before)) by {
                assert forall|i: int, j: int| 0 <= i < j < before.len() implies (
                #[trigger] before[i]).key@ != (#[trigger] before[j]).key@ by {
                    assert(before[i] == over[i] && before[j] == over[j]);
                }
            }
            assert(!has_key(before, member.key@)) by {
                if has_key(before, member.key@) {
                    let i = index_of(before, member.key@);
                    assert(over[i].key@ == over[done].key@);
                }
            }
            lemma_view_push(before, member);
            lemma_laid_over_insert(under, members_view(before), member.key@, member.value@);
        }
        match find(members, &member.key) {
            Some(i) => {
                let ghost held = members@;
                proof {
                    lemma_member_found(held, i as int);
                }
                merge(&mut members[i].value, member.value);
                proof {
                    let merged_member = members@[i as int];
                    assert(merged_member.key@ == member.key@);
                    assert(members@ =~= held.update(i as int, merged_member));
                    lemma_view_update(held, i as int, merged_member);
                }
            },
            None => {
                proof {
                    lemma_view_push(members@, member);
                    assert(!members_view(members@).contains_key(member.key@));
                }
                members.push(member);
            },
        }
    }
    assert(over.take(over.len() as int) =~= over);
}

/// Lays `b` over `a`: two objects are merged key by key, and in every other
/// case `b` takes the place of `a`.
pub fn merge(a: &mut Document, b: Document)
    ensures
        final(a)@ == merged(old(a)@, b@),
    decreases b,
{
    match b {
        Document::Object(overlay) => {
            match a {
                Document::Object(base) => {
                    proof {
                        lemma_merged_objects(base@, overlay@);
                    }
                    base.absorb(overlay);
                },
                _ => {
                    *a = Document::Object(overlay);
                },
            }
        },
        other => {
            *a = other;
        },
    }
}

/// Members that agree in their keys and in what their documents say have the
/// same view.
proof fn lemma_view_same(members: Seq<Member>, others: Seq<Member>)
    requires
        distinct_keys(members),
        members.len() == others.len(),
        forall|i: int|
            0 <= i < members.len() ==> (#[trigger] members[i]).key@ == others[i].key@
                && members[i].value@ == others[i].value@,
    ensures
        distinct_keys(others),
        members_view(others) == members_view(members),
{
    assert forall|i: int, j: int| 0 <= i < j < others.len() implies (#[trigger] others[i]).key@ != (
    #[trigger] others[j]).key@ by {
        assert(members[i].key@ == others[i].key@ && members[j].key@ == others[j].key@);
    }
    assert forall|key: Seq<char>| #[trigger]
        members_view(others).contains_key(key) == members_view(members).contains_key(key) by {
        if has_key(others, key) {
            let i = index_of(others, key);
            assert(members[i].key@ == key);
        }
        if has_key(members, key) {
            let i = index_of(members, key);
            assert(members[i].key@ == others[i].key@);
        }
    }
    assert forall|key: Seq<char>| #[trigger]
        members_view(others).contains_key(key) implies members_view(others)[key] == members_view(
        members,
    )[key] by {
        let i = index_of(others, key);
        lemma_member_found(others, i);
        assert(members[i].key@ == others[i].key@);
        lemma_member_found(members, i);
    }
    assert(members_view(others) =~= members_view(members));
}

impl Clone for Object {
    /// A copy that says what this object says.
    fn clone(&self) -> (copy: Object)
        ensures
            copy@ == self@,
        decreases self,
    {
        let mut members: Vec<Member> = Vec::new();
        let mut i: usize = 0;
        while i < self.members.len()
            invariant
                i <= self.members.len(),
                members@.len() == i,
                forall|j: int|
                    0 <= j < i ==> (#[trigger] members@[j]).key@ == self.members@[j].key@
                        && members@[j].value@ == self.members@[j].value@,
            decreases self.members.len() - i,
        {
            let key = self.members[i].key.clone();
            let value = self.members[i].value.clone();
            members.push(Member { key, value });
            i += 1;
        }
        proof {
            use_type_invariant(self);
            lemma_view_same(self.members@, members@);
        }
        Object { members }
    }
}

/// A list document says what its items say, in their order.
pub proof fn lemma_list_view(items: Vec<Document>)
    ensures
        Document::List(items)@ is List,
        Document::List(items)@->List_0.len() == items@.len(),
        forall|i: int|
            0 <= i < items@.len() ==> (#[trigger] Document::List(items)@->List_0[i]) == items@[i]@,
{
    reveal_with_fuel(<Document as View>::view, 2);
}

/// Copies of `items`, in their order.
fn copy_items(items: &Vec<Document>) -> (copies: Vec<Document>)
    ensures
        copies@.len() == items@.len(),
        forall|j: int| 0 <= j < items@.len() ==> (#[trigger] copies@[j])@ == items@[j]@,
    decreases items,
{
    let mut copies: Vec<Document> = Vec::new();
    let mut i: usize = 0;
    while i < items.len()
        invariant
            i <= items.len(),
            copies@.len() == i,
            forall|j: int| 0 <= j < i ==> (#[trigger] copies@[j])@ == items@[j]@,
        decreases items.len() - i,
    {
        copies.push(items[i].clone());
        i += 1;
    }
    copies
}

impl Clone for Document {
    /// A copy that says what this document says.
    fn clone(&self) -> (copy: Document)
        ensures
            copy@ == self@,
        decreases self,
    {
        match self {
            Document::Null => Document::Null,
            Document::Bool(truth) => Document::Bool(*truth),
            Document::Number(number) => Document::Number(*number),
            Document::Text(text) => Document::Text(text.clone()),
            Document::List(items) => {
                let copies = copy_items(items);
                let copy = Document::List(copies);
                proof {
                    lemma_list_view(*items);
                    lemma_list_view(copies);
                }
                assert(copy@->List_0 =~= self@->List_0);
                copy
            },
            Document::Object(object) => Document::Object(object.clone()),
        }
    }
}

} // verus!
