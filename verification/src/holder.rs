//! Values that list attribute identifiers, and the set of identifiers that such a value refers to.

use crate::identifiers::{AttributeIdentifier, AttributeIdentifiers, IdentifierView};
use vstd::prelude::*;

verus! {

/// A namespace as a value lists it: its name and the names of its elements, in order.
pub type NameSpaceView = (Seq<char>, Seq<Seq<char>>);

/// The identifiers of the first `count` elements of a namespace.
pub open spec fn listed_in_name_space(
    doc_type: Seq<char>,
    name_space: NameSpaceView,
    count: int,
) -> Seq<IdentifierView>
    decreases count,
{
    if count <= 0 {
        Seq::empty()
    } else {
        listed_in_name_space(doc_type, name_space, count - 1).push(
            (doc_type, name_space.0, name_space.1[count - 1]),
        )
    }
}

/// The identifiers of all elements of the first `count` namespaces, namespace by namespace.
pub open spec fn listed_in_name_spaces(
    doc_type: Seq<char>,
    name_spaces: Seq<NameSpaceView>,
    count: int,
) -> Seq<IdentifierView>
    decreases count,
{
    if count <= 0 {
        Seq::empty()
    } else {
        listed_in_name_spaces(doc_type, name_spaces, count - 1) + listed_in_name_space(
            doc_type,
            name_spaces[count - 1],
            name_spaces[count - 1].1.len() as int,
        )
    }
}

/// `base` followed by the values of `s` that are new, each where it first occurs.
pub open spec fn extend_distinct(base: Seq<IdentifierView>, s: Seq<IdentifierView>) -> Seq<
    IdentifierView,
>
    decreases s.len(),
{
    if s.len() == 0 {
        base
    } else if extend_distinct(base, s.drop_last()).contains(s.last()) {
        extend_distinct(base, s.drop_last())
    } else {
        extend_distinct(base, s.drop_last()).push(s.last())
    }
}

/// A sequence without its repetitions: each value stands where it first occurred.
pub open spec fn distinct(s: Seq<IdentifierView>) -> Seq<IdentifierView> {
    extend_distinct(Seq::empty(), s)
}

/// Extending keeps `base` in front, adds no repetition, and holds exactly the values of both.
pub proof fn lemma_extend_distinct(base: Seq<IdentifierView>, s: Seq<IdentifierView>)
    ensures
        base.no_duplicates() ==> extend_distinct(base, s).no_duplicates(),
        forall|id: IdentifierView|
            #![trigger extend_distinct(base, s).contains(id)]
            extend_distinct(base, s).contains(id) <==> base.contains(id) || s.contains(id),
        base.len() <= extend_distinct(base, s).len() <= base.len() + s.len(),
        extend_distinct(base, s).subrange(0, base.len() as int) == base,
    decreases s.len(),
{
    let e = extend_distinct(base, s);
    if s.len() == 0 {
        assert(e.subrange(0, base.len() as int) =~= base);
    } else {
        let front = s.drop_last();
        let d = extend_distinct(base, front);
        lemma_extend_distinct(base, front);
        if !d.contains(s.last()) && base.no_duplicates() {
            crate::identifiers::lemma_push_fresh_no_duplicates(d, s.last());
        }
        assert(e.subrange(0, base.len() as int) =~= d.subrange(0, base.len() as int));
        assert forall|id: IdentifierView|
            #![trigger e.contains(id)]
            e.contains(id) <==> base.contains(id) || s.contains(id) by {
            if s.contains(id) {
                let i = choose|i: int| 0 <= i < s.len() && s[i] == id;
                if i < s.len() - 1 {
                    assert(front[i] == id);
                    assert(front.contains(id));
                    assert(d.contains(id));
                }
            }
            if base.contains(id) {
                assert(d.contains(id));
            }
            if d.contains(id) {
                let k = choose|k: int| 0 <= k < d.len() && d[k] == id;
                if !d.contains(s.last()) {
                    assert(d.push(s.last())[k] == id);
                }
                assert(e.contains(id));
            }
            if id == s.last() {
                assert(s[s.len() - 1] == id);
                if !d.contains(s.last()) {
                    assert(d.push(s.last())[d.len() as int] == id);
                }
                assert(e.contains(id));
            }
            if e.contains(id) {
                let k = choose|k: int| 0 <= k < e.len() && e[k] == id;
                if k < d.len() {
                    assert(d[k] == id);
                    assert(d.contains(id));
                    if !base.contains(id) {
                        assert(front.contains(id));
                        let i = choose|i: int| 0 <= i < front.len() && front[i] == id;
                        assert(s[i] == id);
                    }
                } else {
                    assert(s[s.len() - 1] == id);
                }
            }
        }
    }
}

/// Extending by two sequences in turn is extending by the two put together.
pub proof fn lemma_extend_distinct_concat(
    base: Seq<IdentifierView>,
    a: Seq<IdentifierView>,
    b: Seq<IdentifierView>,
)
    ensures
        extend_distinct(base, a + b) == extend_distinct(extend_distinct(base, a), b),
    decreases b.len(),
{
    if b.len() == 0 {
        assert(a + b =~= a);
    } else {
        lemma_extend_distinct_concat(base, a, b.drop_last());
        assert((a + b).drop_last() =~= a + b.drop_last());
        assert((a + b).last() == b.last());
    }
}

/// `distinct` keeps exactly the values of the sequence, each of them once.
pub proof fn lemma_distinct(s: Seq<IdentifierView>)
    ensures
        distinct(s).no_duplicates(),
        forall|id: IdentifierView|
            #![trigger distinct(s).contains(id)]
            distinct(s).contains(id) <==> s.contains(id),
        distinct(s).len() <= s.len(),
{
    lemma_extend_distinct(Seq::empty(), s);
}

/// A value that is laid out as one document: a document type and namespaces of named elements.
pub trait NameSpaced {
    /// The document type.
    spec fn doc_type_spec(&self) -> Seq<char>;

    /// The namespaces with the names of their elements, in the value's own order.
    spec fn name_spaces_spec(&self) -> Seq<NameSpaceView>;

    /// The document type.
    fn doc_type_name(&self) -> (name: &String)
        ensures
            name@ == self.doc_type_spec(),
    ;

    /// The number of namespaces.
    fn name_space_count(&self) -> (count: usize)
        ensures
            count == self.name_spaces_spec().len(),
    ;

    /// The name of the namespace at a position below the number of namespaces.
    fn name_space_name(&self, index: usize) -> (name: &String)
        requires
            index < self.name_spaces_spec().len(),
        ensures
            name@ == self.name_spaces_spec()[index as int].0,
    ;

    /// The number of elements of the namespace at a position.
    fn element_count(&self, index: usize) -> (count: usize)
        requires
            index < self.name_spaces_spec().len(),
        ensures
            count == self.name_spaces_spec()[index as int].1.len(),
    ;

    /// The name of an element of a namespace, both by their positions.
    fn element_name(&self, index: usize, element: usize) -> (name: &String)
        requires
            index < self.name_spaces_spec().len(),
            element < self.name_spaces_spec()[index as int].1.len(),
        ensures
            name@ == self.name_spaces_spec()[index as int].1[element as int],
    ;
}

/// The identifiers that a document-shaped value lists, repetitions included.
pub open spec fn listed<H: NameSpaced>(holder: &H) -> Seq<IdentifierView> {
    listed_in_name_spaces(
        holder.doc_type_spec(),
        holder.name_spaces_spec(),
        holder.name_spaces_spec().len() as int,
    )
}

/// The identifiers that the first `count` values of a sequence list, value by value.
pub open spec fn listed_in_all<H: NameSpaced>(holders: Seq<H>, count: int) -> Seq<IdentifierView>
    decreases count,
{
    if count <= 0 {
        Seq::empty()
    } else {
        listed_in_all(holders, count - 1) + listed(&holders[count - 1])
    }
}

/// Adds to `ids` every identifier that `holder` lists and that `ids` does not hold yet, in the
/// order in which `holder` lists them.
pub fn collect_identifiers<H: NameSpaced>(holder: &H, ids: &mut AttributeIdentifiers)
    ensures
        final(ids)@ == extend_distinct(old(ids)@, listed(holder)),
{
    let doc_type = holder.doc_type_name();
    let n = holder.name_space_count();
    let mut i: usize = 0;
    while i < n
        invariant
            n == holder.name_spaces_spec().len(),
            i <= n,
            doc_type@ == holder.doc_type_spec(),
            ids@ == extend_distinct(
                old(ids)@,
                listed_in_name_spaces(
                    holder.doc_type_spec(),
                    holder.name_spaces_spec(),
                    i as int,
                ),
            ),
        decreases n - i,
    {
        let name_space = holder.name_space_name(i);
        let m = holder.element_count(i);
        let mut j: usize = 0;
        let ghost done = listed_in_name_spaces(
            holder.doc_type_spec(),
            holder.name_spaces_spec(),
            i as int,
        );
        let ghost ns = holder.name_spaces_spec()[i as int];
        proof {
            assert(done + listed_in_name_space(holder.doc_type_spec(), ns, 0) =~= done);
        }
        while j < m
            invariant
                i < n,
                n == holder.name_spaces_spec().len(),
                ns == holder.name_spaces_spec()[i as int],
                m == ns.1.len(),
                j <= m,
                doc_type@ == holder.doc_type_spec(),
                name_space@ == ns.0,
                ids@ == extend_distinct(
                    old(ids)@,
                    done + listed_in_name_space(holder.doc_type_spec(), ns, j as int),
                ),
            decreases m - j,
        {
            let element = holder.element_name(i, j);
            let id = AttributeIdentifier::from_parts(doc_type, name_space, element);
            proof {
                let so_far = done + listed_in_name_space(holder.doc_type_spec(), ns, j as int);
                let next = done + listed_in_name_space(holder.doc_type_spec(), ns, j + 1);
                assert(next =~= so_far.push(id@));
                assert(next.drop_last() =~= so_far);
            }
            ids.insert(id);
            j += 1;
        }
        i += 1;
    }
}

/// A value that refers to attribute identifiers.
pub trait AttributeIdentifierHolder {
    /// The identifiers that the value lists, repetitions included, in its own order.
    spec fn listed_identifiers(&self) -> Seq<IdentifierView>;

    /// The set of identifiers that the value refers to: each listed identifier once, in the
    /// order of first occurrence.
    fn attribute_identifiers(&self) -> (ids: AttributeIdentifiers)
        ensures
            ids@ == distinct(self.listed_identifiers()),
            ids@.no_duplicates(),
            forall|id: IdentifierView|
                #![trigger ids@.contains(id)]
                ids@.contains(id) <==> self.listed_identifiers().contains(id),
    ;
}

/// The identifiers of one document-shaped value, each once.
pub fn identifiers_of<H: NameSpaced>(holder: &H) -> (ids: AttributeIdentifiers)
    ensures
        ids@ == distinct(listed(holder)),
        ids@.no_duplicates(),
        forall|id: IdentifierView|
            #![trigger ids@.contains(id)]
            ids@.contains(id) <==> listed(holder).contains(id),
{
    let mut ids = AttributeIdentifiers::new();
    collect_identifiers(holder, &mut ids);
    proof {
        lemma_distinct(listed(holder));
    }
    ids
}

/// The identifiers of a sequence of document-shaped values, each once.
pub fn identifiers_of_all<H: NameSpaced>(holders: &Vec<H>) -> (ids: AttributeIdentifiers)
    ensures
        ids@ == distinct(listed_in_all(holders@, holders@.len() as int)),
        ids@.no_duplicates(),
        forall|id: IdentifierView|
            #![trigger ids@.contains(id)]
            ids@.contains(id) <==> listed_in_all(holders@, holders@.len() as int).contains(id),
{
    let mut ids = AttributeIdentifiers::new();
    let mut k: usize = 0;
    while k < holders.len()
        invariant
            k <= holders@.len(),
            ids@ == distinct(listed_in_all(holders@, k as int)),
        decreases holders@.len() - k,
    {
        proof {
            lemma_extend_distinct_concat(
                Seq::empty(),
                listed_in_all(holders@, k as int),
                listed(&holders@[k as int]),
            );
        }
        collect_identifiers(&holders[k], &mut ids);
        k += 1;
    }
    proof {
        lemma_distinct(listed_in_all(holders@, holders@.len() as int));
    }
    ids
}

/// A listed identifier is one of some element of some namespace, under the document type.
pub proof fn lemma_listed_contains(doc_type: Seq<char>, name_spaces: Seq<NameSpaceView>, count: int, id: IdentifierView)
    requires
        0 <= count <= name_spaces.len(),
    ensures
        listed_in_name_spaces(doc_type, name_spaces, count).contains(id) <==> id.0 == doc_type
            && exists|i: int, j: int|
            0 <= i < count && 0 <= j < name_spaces[i].1.len() && id.1 == name_spaces[i].0 && id.2
                == #[trigger] name_spaces[i].1[j],
    decreases count,
{
    if count > 0 {
        lemma_listed_contains(doc_type, name_spaces, count - 1, id);
        let front = listed_in_name_spaces(doc_type, name_spaces, count - 1);
        let ns = name_spaces[count - 1];
        let back = listed_in_name_space(doc_type, ns, ns.1.len() as int);
        lemma_listed_in_name_space_contains(doc_type, ns, ns.1.len() as int, id);
        let all = front + back;
        if all.contains(id) {
            let k = choose|k: int| 0 <= k < all.len() && all[k] == id;
            if k < front.len() {
                assert(front[k] == id);
                assert(front.contains(id));
            } else {
                assert(back[k - front.len()] == id);
                assert(back.contains(id));
                let j = choose|j: int| 0 <= j < ns.1.len() && id.2 == ns.1[j];
                assert(id.2 == name_spaces[count - 1].1[j]);
            }
        }
        if id.0 == doc_type && exists|i: int, j: int|
            0 <= i < count && 0 <= j < name_spaces[i].1.len() && id.1 == name_spaces[i].0 && id.2
                == #[trigger] name_spaces[i].1[j] {
            let (i, j) = choose|i: int, j: int|
                0 <= i < count && 0 <= j < name_spaces[i].1.len() && id.1 == name_spaces[i].0
                    && id.2 == #[trigger] name_spaces[i].1[j];
            if i < count - 1 {
                assert(front.contains(id));
                let k = choose|k: int| 0 <= k < front.len() && front[k] == id;
                assert(all[k] == id);
            } else {
                assert(back.contains(id));
                let k = choose|k: int| 0 <= k < back.len() && back[k] == id;
                assert(all[front.len() + k] == id);
            }
        }
    }
}

/// An identifier listed in a namespace is one of its elements, under its name.
pub proof fn lemma_listed_in_name_space_contains(doc_type: Seq<char>, name_space: NameSpaceView, count: int, id: IdentifierView)
    requires
        0 <= count <= name_space.1.len(),
    ensures
        listed_in_name_space(doc_type, name_space, count).len() == count,
        listed_in_name_space(doc_type, name_space, count).contains(id) <==> id.0 == doc_type
            && id.1 == name_space.0 && exists|j: int|
            0 <= j < count && id.2 == #[trigger] name_space.1[j],
    decreases count,
{
    if count > 0 {
        lemma_listed_in_name_space_contains(doc_type, name_space, count - 1, id);
        let front = listed_in_name_space(doc_type, name_space, count - 1);
        let all = listed_in_name_space(doc_type, name_space, count);
        if all.contains(id) {
            let k = choose|k: int| 0 <= k < all.len() && all[k] == id;
            if k < front.len() {
                assert(front[k] == id);
                assert(front.contains(id));
            } else {
                assert(id.2 == name_space.1[count - 1]);
            }
        }
        if id.0 == doc_type && id.1 == name_space.0 && exists|j: int|
            0 <= j < count && id.2 == #[trigger] name_space.1[j] {
            let j = choose|j: int| 0 <= j < count && id.2 == #[trigger] name_space.1[j];
            if j < count - 1 {
                assert(front.contains(id));
                let k = choose|k: int| 0 <= k < front.len() && front[k] == id;
                assert(all[k] == id);
            } else {
                assert(all[count - 1] == id);
            }
        }
    }
}

/// The set of identifiers of a document-shaped value is the cross product of its namespaces
/// and their elements under its document type: it holds an identifier exactly if the
/// identifier names the document type, one of the namespaces and one of its elements.
pub proof fn lemma_identifiers_are_cross_product<H: NameSpaced>(holder: &H, id: IdentifierView)
    ensures
        distinct(listed(holder)).contains(id) <==> id.0 == holder.doc_type_spec() && exists|
            i: int,
            j: int,
        |
            0 <= i < holder.name_spaces_spec().len() && 0 <= j
                < holder.name_spaces_spec()[i].1.len() && id.1 == holder.name_spaces_spec()[i].0
                && id.2 == #[trigger] holder.name_spaces_spec()[i].1[j],
{
    lemma_distinct(listed(holder));
    lemma_listed_contains(
        holder.doc_type_spec(),
        holder.name_spaces_spec(),
        holder.name_spaces_spec().len() as int,
        id,
    );
}

} // verus!
