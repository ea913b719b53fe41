//! The registration of a reader: who it is and which attributes it may ask for.

use crate::holder::{
    distinct, identifiers_of_all, listed_in_all, AttributeIdentifierHolder, NameSpaceView,
    NameSpaced,
};
use crate::identifiers::{without, AttributeIdentifiers, IdentifierView};
use vstd::prelude::*;

verus! {

/// The attributes of one namespace that a reader may ask for.
#[derive(Debug, Clone, PartialEq, Eq)]
pub struct AuthorizedNameSpace {
    pub name: String,
    pub attributes: Vec<String>,
}

/// The attributes of one document type that a reader may ask for.
#[derive(Debug, Clone, PartialEq, Eq)]
pub struct AuthorizedDocument {
    pub doc_type: String,
    pub name_spaces: Vec<AuthorizedNameSpace>,
}

/// What a reader's certificate says of the reader.
#[derive(Debug, Clone, PartialEq, Eq)]
pub struct ReaderRegistration {
    pub id: String,
    pub name: String,
    pub purpose_statement: String,
    pub attributes: Vec<AuthorizedDocument>,
}

impl NameSpaced for AuthorizedDocument {
    open spec fn doc_type_spec(&self) -> Seq<char> {
        self.doc_type@
    }

    open spec fn name_spaces_spec(&self) -> Seq<NameSpaceView> {
        self.name_spaces@.map_values(
            |n: AuthorizedNameSpace| (n.name@, n.attributes@.map_values(|a: String| a@)),
        )
    }

    fn doc_type_name(&self) -> (name: &String) {
        &self.doc_type
    }

    fn name_space_count(&self) -> (count: usize) {
        self.name_spaces.len()
    }

    fn name_space_name(&self, index: usize) -> (name: &String) {
        &self.name_spaces[index].name
    }

    fn element_count(&self, index: usize) -> (count: usize) {
        self.name_spaces[index].attributes.len()
    }

    fn element_name(&self, index: usize, element: usize) -> (name: &String) {
        &self.name_spaces[index].attributes[element]
    }
}

impl AttributeIdentifierHolder for ReaderRegistration {
    open spec fn listed_identifiers(&self) -> Seq<IdentifierView> {
        listed_in_all(self.attributes@, self.attributes@.len() as int)
    }

    /// The identifiers that the reader may ask for.
    fn attribute_identifiers(&self) -> (ids: AttributeIdentifiers) {
        identifiers_of_all(&self.attributes)
    }
}

impl ReaderRegistration {
    /// The requested identifiers that the registration does not cover, each once, in the
    /// order in which they are requested.
    pub open spec fn unregistered(&self, requested: Seq<IdentifierView>) -> Seq<IdentifierView> {
        without(distinct(requested), distinct(self.listed_identifiers()))
    }

    /// Whether the registration covers every requested identifier.
    pub open spec fn covers(&self, requested: Seq<IdentifierView>) -> bool {
        forall|id: IdentifierView| #[trigger]
            requested.contains(id) ==> self.listed_identifiers().contains(id)
    }

    /// `unregistered` is empty exactly where the registration covers the request.
    pub proof fn lemma_unregistered_empty_iff_covers(&self, requested: Seq<IdentifierView>)
        ensures
            self.unregistered(requested).len() == 0 <==> self.covers(requested),
    {
        crate::holder::lemma_distinct(requested);
        crate::holder::lemma_distinct(self.listed_identifiers());
        crate::identifiers::lemma_without_empty_iff_subset(
            distinct(requested),
            distinct(self.listed_identifiers()),
        );
        if self.covers(requested) {
            assert forall|id: IdentifierView| #[trigger]
                distinct(requested).contains(id) implies distinct(
                self.listed_identifiers(),
            ).contains(id) by {
                assert(requested.contains(id));
            }
        } else {
            let id = choose|id: IdentifierView| #[trigger]
                requested.contains(id) && !self.listed_identifiers().contains(id);
            assert(distinct(requested).contains(id));
            assert(!distinct(self.listed_identifiers()).contains(id));
        }
    }

    /// Checks that the reader may ask for everything that `requested` refers to. Where it may
    /// not, the identifiers that the registration does not cover come back.
    pub fn verify_requested_attributes<H: AttributeIdentifierHolder>(&self, requested: &H) -> (checked:
        Result<(), AttributeIdentifiers>)
        ensures
            checked.is_ok() <==> self.covers(requested.listed_identifiers()),
            checked matches Err(unregistered) ==> unregistered@ == self.unregistered(
                requested.listed_identifiers(),
            ) && unregistered@.len() > 0,
    {
        let asked = requested.attribute_identifiers();
        let allowed = self.attribute_identifiers();
        let rest = asked.difference(&allowed);
        proof {
            self.lemma_unregistered_empty_iff_covers(requested.listed_identifiers());
        }
        if rest.is_empty() {
            Ok(())
        } else {
            Err(rest)
        }
    }
}

} // verus!
