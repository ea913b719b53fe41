//! Attribute identifiers: the unit in which requested and possessed attributes are compared.

use indexmap::IndexSet;
use vstd::prelude::*;

verus! {

/// The mathematical value of an [`AttributeIdentifier`]: document type, namespace and
/// element identifier, each as a sequence of characters.
pub type IdentifierView = (Seq<char>, Seq<char>, Seq<char>);

/// Identifies one disclosable data element of one document type.
#[derive(Debug, Clone, PartialEq, Eq)]
pub struct AttributeIdentifier {
    pub doc_type: String,
    pub namespace: String,
    pub attribute: String,
}

impl View for AttributeIdentifier {
    type V = IdentifierView;

    open spec fn view(&self) -> IdentifierView {
        (self.doc_type@, self.namespace@, self.attribute@)
    }
}

impl AttributeIdentifier {
    /// Builds the identifier of `attribute` in `namespace` of documents of type `doc_type`.
    pub fn new(doc_type: String, namespace: String, attribute: String) -> (id: AttributeIdentifier)
        ensures
            id@ == (doc_type@, namespace@, attribute@),
    {
        AttributeIdentifier { doc_type, namespace, attribute }
    }

    /// Builds the identifier from borrowed parts.
    pub fn from_parts(doc_type: &String, namespace: &String, attribute: &String) -> (id:
        AttributeIdentifier)
        ensures
            id@ == (doc_type@, namespace@, attribute@),
    {
        AttributeIdentifier {
            doc_type: doc_type.clone(),
            namespace: namespace.clone(),
            attribute: attribute.clone(),
        }
    }

    /// Whether two identifiers name the same data element.
    pub fn same(&self, other: &AttributeIdentifier) -> (equal: bool)
        ensures
            equal == (self@ == other@),
    {
        self.doc_type == other.doc_type && self.namespace == other.namespace && self.attribute
            == other.attribute
    }
}

/// `indexmap::IndexSet`: a set that keeps its items in the order of insertion. Nothing of
/// what a value holds is visible here; the functions below say what is relied on.
#[verifier::external_type_specification]
#[verifier::external_body]
#[verifier::reject_recursive_types(T)]
#[verifier::reject_recursive_types(S)]
pub struct ExIndexSet<T, S>(IndexSet<T, S>);

/// The items that an insertion-ordered set of identifiers holds, in insertion order.
pub uninterp spec fn set_items(set: IndexSet<(String, String, String)>) -> Seq<IdentifierView>;

/// `IndexSet::new`: a set that holds no item.
#[verifier::external_body]
fn set_new() -> (set: IndexSet<(String, String, String)>)
    ensures
        set_items(set) == Seq::<IdentifierView>::empty(),
{
    IndexSet::new()
}

/// `IndexSet::len`: the number of items held.
#[verifier::external_body]
fn set_len(set: &IndexSet<(String, String, String)>) -> (n: usize)
    ensures
        n == set_items(*set).len(),
{
    set.len()
}

/// `IndexSet::insert`: an item equal to one already held leaves the set as it was and gives
/// `false`; any other item is put last, behind the items already held, and gives `true`.
#[verifier::external_body]
fn set_insert(set: &mut IndexSet<(String, String, String)>, id: AttributeIdentifier) -> (fresh:
    bool)
    ensures
        fresh == !set_items(*old(set)).contains(id@),
        fresh ==> set_items(*final(set)) == set_items(*old(set)).push(id@),
        !fresh ==> set_items(*final(set)) == set_items(*old(set)),
{
    set.insert((id.doc_type, id.namespace, id.attribute))
}

/// `IndexSet::contains`: whether an item equal to the given one is held.
#[verifier::external_body]
fn set_contains(set: &IndexSet<(String, String, String)>, id: &AttributeIdentifier) -> (held: bool)
    ensures
        held == set_items(*set).contains(id@),
{
    set.contains(&(id.doc_type.clone(), id.namespace.clone(), id.attribute.clone()))
}

/// `IndexSet::get_index`: the item at a position in insertion order, for a position below the
/// number of items; nothing for any other position.
#[verifier::external_body]
fn set_get_index(set: &IndexSet<(String, String, String)>, index: usize) -> (item: Option<
    AttributeIdentifier,
>)
    ensures
        index < set_items(*set).len() ==> item.is_some() && item.unwrap()@ == set_items(
            *set,
        )[index as int],
        index >= set_items(*set).len() ==> item.is_none(),
{
    match set.get_index(index) {
        Some(t) => Some(
            AttributeIdentifier {
                doc_type: t.0.clone(),
                namespace: t.1.clone(),
                attribute: t.2.clone(),
            },
        ),
        None => None,
    }
}

/// `IndexSet::clone`: a set that holds the same items in the same order.
#[verifier::external_body]
fn set_clone(set: &IndexSet<(String, String, String)>) -> (copy: IndexSet<(String, String, String)>)
    ensures
        set_items(copy) == set_items(*set),
{
    set.clone()
}

/// A set of attribute identifiers that remembers the order in which they were added.
#[derive(Debug, PartialEq, Eq)]
pub struct AttributeIdentifiers {
    set: IndexSet<(String, String, String)>,
}

impl Clone for AttributeIdentifiers {
    /// A set that holds the same identifiers in the same order.
    fn clone(&self) -> (copy: AttributeIdentifiers)
        ensures
            copy@ == self@,
    {
        AttributeIdentifiers { set: set_clone(&self.set) }
    }
}

impl View for AttributeIdentifiers {
    type V = Seq<IdentifierView>;

    /// The identifiers held, in the order in which they were first added.
    closed spec fn view(&self) -> Seq<IdentifierView> {
        set_items(self.set)
    }
}

impl AttributeIdentifiers {
    /// The set that holds no identifier.
    pub fn new() -> (ids: AttributeIdentifiers)
        ensures
            ids@ == Seq::<IdentifierView>::empty(),
    {
        AttributeIdentifiers { set: set_new() }
    }

    /// The number of identifiers held.
    pub fn len(&self) -> (n: usize)
        ensures
            n == self@.len(),
    {
        set_len(&self.set)
    }

    /// Whether no identifier is held.
    pub fn is_empty(&self) -> (empty: bool)
        ensures
            empty == (self@.len() == 0),
    {
        set_len(&self.set) == 0
    }

    /// Adds an identifier unless it is held already, and says whether it was added. A new
    /// identifier comes last; all others keep their places.
    pub fn insert(&mut self, id: AttributeIdentifier) -> (fresh: bool)
        ensures
            fresh == !old(self)@.contains(id@),
            final(self)@ == if fresh {
                old(self)@.push(id@)
            } else {
                old(self)@
            },
            old(self)@.no_duplicates() ==> final(self)@.no_duplicates(),
    {
        let fresh = set_insert(&mut self.set, id);
        proof {
            if fresh && old(self)@.no_duplicates() {
                lemma_push_fresh_no_duplicates(old(self)@, id@);
            }
        }
        fresh
    }

    /// Whether the identifier is held.
    pub fn contains(&self, id: &AttributeIdentifier) -> (held: bool)
        ensures
            held == self@.contains(id@),
    {
        set_contains(&self.set, id)
    }

    /// The identifier at a position in insertion order, if the position is below `len()`.
    pub fn get(&self, index: usize) -> (item: Option<AttributeIdentifier>)
        ensures
            index < self@.len() ==> item.is_some() && item.unwrap()@ == self@[index as int],
            index >= self@.len() ==> item.is_none(),
    {
        set_get_index(&self.set, index)
    }

    /// The identifiers of this set that `other` does not hold, in this set's order.
    pub fn difference(&self, other: &AttributeIdentifiers) -> (rest: AttributeIdentifiers)
        ensures
            rest@ == without(self@, other@),
            rest@.no_duplicates(),
            forall|id: IdentifierView|
                #![trigger rest@.contains(id)]
                rest@.contains(id) <==> self@.contains(id) && !other@.contains(id),
    {
        let n = self.len();
        let mut rest = AttributeIdentifiers::new();
        let mut i: usize = 0;
        assert(self@.subrange(0, 0) =~= Seq::<IdentifierView>::empty());
        while i < n
            invariant
                n == self@.len(),
                i <= n,
                rest@ == without(self@.subrange(0, i as int), other@),
            decreases n - i,
        {
            proof {
                assert(self@.subrange(0, i + 1).drop_last() =~= self@.subrange(0, i as int));
                assert(self@.subrange(0, i + 1).last() == self@[i as int]);
            }
            match self.get(i) {
                Some(id) => {
                    if !other.contains(&id) {
                        rest.insert(id);
                    }
                },
                None => {},
            }
            i += 1;
        }
        proof {
            assert(self@.subrange(0, n as int) =~= self@);
            lemma_without(self@, other@);
        }
        rest
    }

    /// The identifiers of this set that belong to one document type, in this set's order.
    pub fn of_doc_type(&self, doc_type: &String) -> (chosen: AttributeIdentifiers)
        ensures
            chosen@ == of_doc_type(self@, doc_type@),
            chosen@.no_duplicates(),
            forall|id: IdentifierView|
                #![trigger chosen@.contains(id)]
                chosen@.contains(id) <==> self@.contains(id) && id.0 == doc_type@,
    {
        let n = self.len();
        let mut chosen = AttributeIdentifiers::new();
        let mut i: usize = 0;
        assert(self@.subrange(0, 0) =~= Seq::<IdentifierView>::empty());
        while i < n
            invariant
                n == self@.len(),
                i <= n,
                chosen@ == of_doc_type(self@.subrange(0, i as int), doc_type@),
            decreases n - i,
        {
            proof {
                assert(self@.subrange(0, i + 1).drop_last() =~= self@.subrange(0, i as int));
                assert(self@.subrange(0, i + 1).last() == self@[i as int]);
            }
            match self.get(i) {
                Some(id) => {
                    if id.doc_type == *doc_type {
                        chosen.insert(id);
                    }
                },
                None => {},
            }
            i += 1;
        }
        proof {
            assert(self@.subrange(0, n as int) =~= self@);
            lemma_of_doc_type(self@, doc_type@);
        }
        chosen
    }

    /// The identifiers held, in insertion order.
    pub fn to_vec(&self) -> (items: Vec<AttributeIdentifier>)
        ensures
            items@.len() == self@.len(),
            forall|i: int| 0 <= i < items@.len() ==> (#[trigger] items@[i])@ == self@[i],
    {
        let n = self.len();
        let mut items: Vec<AttributeIdentifier> = Vec::new();
        let mut i: usize = 0;
        while i < n
            invariant
                n == self@.len(),
                i <= n,
                items@.len() == i,
                forall|k: int| 0 <= k < i ==> (#[trigger] items@[k])@ == self@[k],
            decreases n - i,
        {
            match self.get(i) {
                Some(id) => items.push(id),
                None => {},
            }
            i += 1;
        }
        items
    }
}

/// The values of `s` that `other` does not hold, each once, where it first occurs in `s`.
pub open spec fn without(s: Seq<IdentifierView>, other: Seq<IdentifierView>) -> Seq<IdentifierView>
    decreases s.len(),
{
    if s.len() == 0 {
        Seq::empty()
    } else if other.contains(s.last()) || without(s.drop_last(), other).contains(s.last()) {
        without(s.drop_last(), other)
    } else {
        without(s.drop_last(), other).push(s.last())
    }
}

/// `without` holds exactly the values of `s` that `other` lacks, with no repetition.
pub proof fn lemma_without(s: Seq<IdentifierView>, other: Seq<IdentifierView>)
    ensures
        without(s, other).no_duplicates(),
        without(s, other).len() <= s.len(),
        forall|id: IdentifierView|
            #![trigger without(s, other).contains(id)]
            without(s, other).contains(id) <==> s.contains(id) && !other.contains(id),
    decreases s.len(),
{
    let w = without(s, other);
    if s.len() > 0 {
        let front = s.drop_last();
        let d = without(front, other);
        lemma_without(front, other);
        if !(other.contains(s.last()) || d.contains(s.last())) {
            lemma_push_fresh_no_duplicates(d, s.last());
        }
        assert forall|id: IdentifierView| #![trigger w.contains(id)]
            w.contains(id) <==> s.contains(id) && !other.contains(id) by {
            if s.contains(id) && !other.contains(id) {
                let i = choose|i: int| 0 <= i < s.len() && s[i] == id;
                if i < s.len() - 1 {
                    assert(front[i] == id);
                    assert(front.contains(id));
                    assert(d.contains(id));
                }
            }
            if d.contains(id) {
                let k = choose|k: int| 0 <= k < d.len() && d[k] == id;
                assert(w[k] == id);
                assert(front.contains(id));
                let i = choose|i: int| 0 <= i < front.len() && front[i] == id;
                assert(s[i] == id);
            }
            if id == s.last() {
                assert(s[s.len() - 1] == id);
                if !other.contains(id) && !d.contains(id) {
                    assert(w[d.len() as int] == id);
                }
            }
            if w.contains(id) {
                let k = choose|k: int| 0 <= k < w.len() && w[k] == id;
                if k < d.len() {
                    assert(d[k] == id);
                    assert(d.contains(id));
                }
            }
        }
    }
}

/// A sequence that holds no value of `s` leaves `without(s, ..)` holding all of them.
pub proof fn lemma_without_empty_iff_subset(s: Seq<IdentifierView>, other: Seq<IdentifierView>)
    ensures
        without(s, other).len() == 0 <==> forall|id: IdentifierView|
            #[trigger] s.contains(id) ==> other.contains(id),
{
    lemma_without(s, other);
    let w = without(s, other);
    if w.len() == 0 {
        assert forall|id: IdentifierView| #[trigger] s.contains(id) implies other.contains(id) by {
            if !other.contains(id) {
                assert(w.contains(id));
            }
        }
    } else {
        assert(w.contains(w[0]));
    }
}

/// `without` looks only at which values `other` holds, not at their order or number.
pub proof fn lemma_without_same_members(
    s: Seq<IdentifierView>,
    a: Seq<IdentifierView>,
    b: Seq<IdentifierView>,
)
    requires
        forall|id: IdentifierView| a.contains(id) <==> b.contains(id),
    ensures
        without(s, a) == without(s, b),
    decreases s.len(),
{
    if s.len() > 0 {
        lemma_without_same_members(s.drop_last(), a, b);
    }
}

/// The values of `s` of one document type, each once, where it first occurs in `s`.
pub open spec fn of_doc_type(s: Seq<IdentifierView>, doc_type: Seq<char>) -> Seq<IdentifierView>
    decreases s.len(),
{
    if s.len() == 0 {
        Seq::empty()
    } else if s.last().0 != doc_type || of_doc_type(s.drop_last(), doc_type).contains(s.last()) {
        of_doc_type(s.drop_last(), doc_type)
    } else {
        of_doc_type(s.drop_last(), doc_type).push(s.last())
    }
}

/// `of_doc_type` holds exactly the values of `s` of the document type, with no repetition.
pub proof fn lemma_of_doc_type(s: Seq<IdentifierView>, doc_type: Seq<char>)
    ensures
        of_doc_type(s, doc_type).no_duplicates(),
        of_doc_type(s, doc_type).len() <= s.len(),
        forall|id: IdentifierView|
            #![trigger of_doc_type(s, doc_type).contains(id)]
            of_doc_type(s, doc_type).contains(id) <==> s.contains(id) && id.0 == doc_type,
    decreases s.len(),
{
    let w = of_doc_type(s, doc_type);
    if s.len() > 0 {
        let front = s.drop_last();
        let d = of_doc_type(front, doc_type);
        lemma_of_doc_type(front, doc_type);
        if !(s.last().0 != doc_type || d.contains(s.last())) {
            lemma_push_fresh_no_duplicates(d, s.last());
        }
        assert forall|id: IdentifierView| #![trigger w.contains(id)]
            w.contains(id) <==> s.contains(id) && id.0 == doc_type by {
            if s.contains(id) && id.0 == doc_type {
                let i = choose|i: int| 0 <= i < s.len() && s[i] == id;
                if i < s.len() - 1 {
                    assert(front[i] == id);
                    assert(front.contains(id));
                    assert(d.contains(id));
                }
            }
            if d.contains(id) {
                let k = choose|k: int| 0 <= k < d.len() && d[k] == id;
                assert(w[k] == id);
                assert(front.contains(id));
                let i = choose|i: int| 0 <= i < front.len() && front[i] == id;
                assert(s[i] == id);
            }
            if id == s.last() {
                assert(s[s.len() - 1] == id);
                if id.0 == doc_type && !d.contains(id) {
                    assert(w[d.len() as int] == id);
                }
            }
            if w.contains(id) {
                let k = choose|k: int| 0 <= k < w.len() && w[k] == id;
                if k < d.len() {
                    assert(d[k] == id);
                    assert(d.contains(id));
                }
            }
        }
    }
}

/// Pushing a value that a duplicate-free sequence does not hold keeps it duplicate-free.
pub proof fn lemma_push_fresh_no_duplicates<A>(s: Seq<A>, a: A)
    requires
        s.no_duplicates(),
        !s.contains(a),
    ensures
        s.push(a).no_duplicates(),
{
    assert forall|i: int, j: int|
        0 <= i < s.push(a).len() && 0 <= j < s.push(a).len() && i != j implies s.push(a)[i]
        != s.push(a)[j] by {
        if i < s.len() && j < s.len() {
        } else if i < s.len() {
            assert(s.contains(s[i]));
        } else {
            assert(s.contains(s[j]));
        }
    }
}

} // verus!
