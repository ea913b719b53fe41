//! The documents that the holder keeps: signed attributes, by namespace.

use crate::holder::{identifiers_of, listed, AttributeIdentifierHolder, NameSpaceView, NameSpaced};
use crate::identifiers::{AttributeIdentifiers, IdentifierView};
use vstd::prelude::*;

verus! {

/// One attribute as the issuer signed it.
#[derive(Debug, Clone, PartialEq, Eq)]
pub struct IssuerSignedItem {
    pub digest_id: u64,
    pub random: Vec<u8>,
    pub element_identifier: String,
    /// The encoded value of the attribute.
    pub element_value: Vec<u8>,
}

/// The signed attributes of one namespace, in the issuer's order.
#[derive(Debug, Clone, PartialEq, Eq)]
pub struct IssuerNameSpace {
    pub name: String,
    pub items: Vec<IssuerSignedItem>,
}

/// A document in the holder's store.
#[derive(Debug, Clone, PartialEq, Eq)]
pub struct StoredDocument {
    /// The key under which the store keeps the document.
    pub id: u64,
    pub doc_type: String,
    pub name_spaces: Vec<IssuerNameSpace>,
}

impl NameSpaced for StoredDocument {
    open spec fn doc_type_spec(&self) -> Seq<char> {
        self.doc_type@
    }

    open spec fn name_spaces_spec(&self) -> Seq<NameSpaceView> {
        self.name_spaces@.map_values(
            |n: IssuerNameSpace|
                (n.name@, n.items@.map_values(|i: IssuerSignedItem| i.element_identifier@)),
        )
    }

    fn doc_type_name(&self) -> (name: &String) {
        &self.doc_type
    }

    fn name_space_count(&self) -> (count: usize) {
        self.name_spaces.len()
    }

    fn name_space_name(&self, index: usize) -> (name: &String) {
        &self.name_spaces[index].name
    }

    fn element_count(&self, index: usize) -> (count: usize) {
        self.name_spaces[index].items.len()
    }

    fn element_name(&self, index: usize, element: usize) -> (name: &String) {
        &self.name_spaces[index].items[element].element_identifier
    }
}

impl AttributeIdentifierHolder for StoredDocument {
    open spec fn listed_identifiers(&self) -> Seq<IdentifierView> {
        listed(self)
    }

    /// The identifiers of the attributes that the document holds.
    fn attribute_identifiers(&self) -> (ids: AttributeIdentifiers) {
        identifiers_of(self)
    }
}

} // verus!
