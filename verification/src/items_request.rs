//! What a reader asks for: the data elements of one document type, by namespace.

use crate::cbor::{boolean, head, text_string, write_boolean, write_head, write_text_string, MAJOR_MAP};
use crate::holder::{
    identifiers_of, identifiers_of_all, listed, listed_in_all, AttributeIdentifierHolder,
    NameSpaceView, NameSpaced,
};
use crate::identifiers::{AttributeIdentifiers, IdentifierView};
use vstd::prelude::*;

verus! {

/// A requested data element: its identifier and whether the reader intends to retain it.
#[derive(Debug, Clone, PartialEq, Eq)]
pub struct DataElement {
    pub identifier: String,
    pub intent_to_retain: bool,
}

/// The data elements requested from one namespace.
#[derive(Debug, Clone, PartialEq, Eq)]
pub struct NameSpaceRequest {
    pub name: String,
    pub elements: Vec<DataElement>,
}

/// The data elements requested from documents of one type.
#[derive(Debug, Clone, PartialEq, Eq)]
pub struct ItemsRequest {
    pub doc_type: String,
    pub name_spaces: Vec<NameSpaceRequest>,
}

/// The requested elements of a namespace: identifier and intent to retain, in order.
pub type ElementsView = Seq<(Seq<char>, bool)>;

/// The mathematical value of an [`ItemsRequest`].
pub struct ItemsRequestView {
    pub doc_type: Seq<char>,
    pub name_spaces: Seq<(Seq<char>, ElementsView)>,
}

impl View for DataElement {
    type V = (Seq<char>, bool);

    open spec fn view(&self) -> (Seq<char>, bool) {
        (self.identifier@, self.intent_to_retain)
    }
}

impl View for NameSpaceRequest {
    type V = (Seq<char>, ElementsView);

    open spec fn view(&self) -> (Seq<char>, ElementsView) {
        (self.name@, self.elements@.map_values(|e: DataElement| e@))
    }
}

impl View for ItemsRequest {
    type V = ItemsRequestView;

    open spec fn view(&self) -> ItemsRequestView {
        ItemsRequestView {
            doc_type: self.doc_type@,
            name_spaces: self.name_spaces@.map_values(|n: NameSpaceRequest| n@),
        }
    }
}

/// The encoding of the first `count` elements of a namespace: identifier, then flag.
pub open spec fn encode_elements(elements: ElementsView, count: int) -> Seq<u8>
    decreases count,
{
    if count <= 0 {
        Seq::empty()
    } else {
        encode_elements(elements, count - 1) + text_string(elements[count - 1].0) + boolean(
            elements[count - 1].1,
        )
    }
}

/// The encoding of the first `count` namespaces: name, then the map of its elements.
pub open spec fn encode_name_spaces(name_spaces: Seq<(Seq<char>, ElementsView)>, count: int) -> Seq<
    u8,
>
    decreases count,
{
    if count <= 0 {
        Seq::empty()
    } else {
        encode_name_spaces(name_spaces, count - 1) + text_string(name_spaces[count - 1].0) + head(
            MAJOR_MAP,
            name_spaces[count - 1].1.len() as u64,
        ) + encode_elements(name_spaces[count - 1].1, name_spaces[count - 1].1.len() as int)
    }
}

/// The encoding of an items request: a map of the document type and the namespaces.
pub open spec fn encode_items_request(request: ItemsRequestView) -> Seq<u8> {
    head(MAJOR_MAP, 2) + text_string("docType"@) + text_string(request.doc_type) + text_string(
        "nameSpaces"@,
    ) + head(MAJOR_MAP, request.name_spaces.len() as u64) + encode_name_spaces(
        request.name_spaces,
        request.name_spaces.len() as int,
    )
}

impl ItemsRequest {
    /// A request for no element of documents of type `doc_type`.
    pub fn new(doc_type: String) -> (request: ItemsRequest)
        ensures
            request@.doc_type == doc_type@,
            request@.name_spaces.len() == 0,
    {
        ItemsRequest { doc_type, name_spaces: Vec::new() }
    }

    /// Whether the request names no data element at all.
    pub open spec fn is_empty_spec(&self) -> bool {
        forall|i: int| 0 <= i < self@.name_spaces.len() ==> (#[trigger] self@.name_spaces[i]).1.len() == 0
    }

    /// Whether the request names at least one data element.
    pub fn has_attributes(&self) -> (any: bool)
        ensures
            any == !self.is_empty_spec(),
    {
        let mut i: usize = 0;
        while i < self.name_spaces.len()
            invariant
                i <= self.name_spaces@.len(),
                forall|k: int| 0 <= k < i ==> (#[trigger] self@.name_spaces[k]).1.len() == 0,
            decreases self.name_spaces@.len() - i,
        {
            if self.name_spaces[i].elements.len() > 0 {
                assert(self@.name_spaces[i as int].1.len() != 0);
                return true;
            }
            i += 1;
        }
        false
    }

    /// The encoding of the request.
    pub fn to_cbor(&self) -> (bytes: Vec<u8>)
        ensures
            bytes@ == encode_items_request(self@),
    {
        let mut out: Vec<u8> = Vec::new();
        write_head(&mut out, MAJOR_MAP, 2);
        write_text_string(&mut out, "docType");
        write_text_string(&mut out, self.doc_type.as_str());
        write_text_string(&mut out, "nameSpaces");
        write_head(&mut out, MAJOR_MAP, self.name_spaces.len() as u64);
        let ghost start = out@;
        let mut i: usize = 0;
        assert(out@ =~= start + encode_name_spaces(self@.name_spaces, 0));
        while i < self.name_spaces.len()
            invariant
                i <= self.name_spaces@.len(),
                out@ == start + encode_name_spaces(self@.name_spaces, i as int),
            decreases self.name_spaces@.len() - i,
        {
            let name_space = &self.name_spaces[i];
            write_text_string(&mut out, name_space.name.as_str());
            write_head(&mut out, MAJOR_MAP, name_space.elements.len() as u64);
            let ghost inner = out@;
            let ghost elements = self@.name_spaces[i as int].1;
            assert(elements == name_space@.1);
            let mut j: usize = 0;
            assert(out@ =~= inner + encode_elements(elements, 0));
            while j < name_space.elements.len()
                invariant
                    j <= name_space.elements@.len(),
                    elements == name_space@.1,
                    out@ == inner + encode_elements(elements, j as int),
                decreases name_space.elements@.len() - j,
            {
                let element = &name_space.elements[j];
                assert(elements[j as int] == element@);
                write_text_string(&mut out, element.identifier.as_str());
                write_boolean(&mut out, element.intent_to_retain);
                j += 1;
                assert(out@ =~= inner + encode_elements(elements, j as int));
            }
            i += 1;
            assert(out@ =~= start + encode_name_spaces(self@.name_spaces, i as int));
        }
        assert(out@ =~= encode_items_request(self@));
        out
    }
}

impl NameSpaced for ItemsRequest {
    open spec fn doc_type_spec(&self) -> Seq<char> {
        self@.doc_type
    }

    open spec fn name_spaces_spec(&self) -> Seq<NameSpaceView> {
        self@.name_spaces.map_values(
            |n: (Seq<char>, ElementsView)| (n.0, n.1.map_values(|e: (Seq<char>, bool)| e.0)),
        )
    }

    fn doc_type_name(&self) -> (name: &String) {
        &self.doc_type
    }

    fn name_space_count(&self) -> (count: usize) {
        self.name_spaces.len()
    }

    fn name_space_name(&self, index: usize) -> (name: &String) {
        &self.name_spaces[index].name
    }

    fn element_count(&self, index: usize) -> (count: usize) {
        self.name_spaces[index].elements.len()
    }

    fn element_name(&self, index: usize, element: usize) -> (name: &String) {
        &self.name_spaces[index].elements[element].identifier
    }
}

impl AttributeIdentifierHolder for ItemsRequest {
    open spec fn listed_identifiers(&self) -> Seq<IdentifierView> {
        listed(self)
    }

    fn attribute_identifiers(&self) -> (ids: AttributeIdentifiers) {
        identifiers_of(self)
    }
}

impl AttributeIdentifierHolder for Vec<ItemsRequest> {
    open spec fn listed_identifiers(&self) -> Seq<IdentifierView> {
        listed_in_all(self@, self@.len() as int)
    }

    fn attribute_identifiers(&self) -> (ids: AttributeIdentifiers) {
        identifiers_of_all(self)
    }
}

} // verus!
