//! Matching what a reader asks for against the documents that the holder keeps.

use crate::cbor::{
    encoded_item, head, text_string, write_encoded_item, write_head, write_raw, write_text_string,
    MAJOR_ARRAY, MAJOR_MAP,
};
use crate::holder::{
    distinct, identifiers_of_all, lemma_distinct, listed, listed_in_all, AttributeIdentifierHolder,
    NameSpaced,
};
use crate::identifiers::{
    lemma_without_same_members, of_doc_type, without, AttributeIdentifiers, IdentifierView,
};
use crate::request::SessionTranscript;
use crate::stored::StoredDocument;
use vstd::prelude::*;

verus! {

/// A stored document that can answer a request, with what the holder's device has to sign
/// in order to disclose it in this session.
#[derive(Debug)]
pub struct ProposedDocument<'a> {
    pub source: &'a StoredDocument,
    pub device_signed_challenge: Vec<u8>,
}

/// How the store answers the request for one document type.
#[derive(Debug)]
pub enum DisclosureRequestMatch<'a> {
    /// The stored documents that hold every attribute asked for, in the order of the store.
    Candidates(Vec<ProposedDocument<'a>>),
    /// No stored document holds every attribute asked for: these are lacking.
    MissingAttributes(AttributeIdentifiers),
}

/// The answer of the store for one requested document type.
#[derive(Debug)]
pub struct DocTypeMatch<'a> {
    pub doc_type: String,
    pub result: DisclosureRequestMatch<'a>,
}

/// The mathematical value of a [`ProposedDocument`]: the stored document and the challenge.
pub type ProposedView = (StoredDocument, Seq<u8>);

/// The mathematical value of a [`DisclosureRequestMatch`].
pub enum MatchView {
    Candidates(Seq<ProposedView>),
    MissingAttributes(Seq<IdentifierView>),
}

impl<'a> View for ProposedDocument<'a> {
    type V = ProposedView;

    open spec fn view(&self) -> ProposedView {
        (*self.source, self.device_signed_challenge@)
    }
}

impl<'a> View for DisclosureRequestMatch<'a> {
    type V = MatchView;

    open spec fn view(&self) -> MatchView {
        match self {
            DisclosureRequestMatch::Candidates(found) => MatchView::Candidates(
                found@.map_values(|p: ProposedDocument<'a>| p@),
            ),
            DisclosureRequestMatch::MissingAttributes(missing) => MatchView::MissingAttributes(
                missing@,
            ),
        }
    }
}

/// What the holder's device signs to disclose a document of a type in a session, before any
/// attribute of the device is added.
pub open spec fn device_authentication(transcript: Seq<u8>, doc_type: Seq<char>) -> Seq<u8> {
    encoded_item(
        head(MAJOR_ARRAY, 4) + text_string("DeviceAuthentication"@) + transcript + text_string(
            doc_type,
        ) + encoded_item(head(MAJOR_MAP, 0)),
    )
}

/// Builds what the holder's device signs to disclose a document of a type in a session.
pub fn device_authentication_bytes(session_transcript: &SessionTranscript, doc_type: &String) -> (challenge:
    Vec<u8>)
    ensures
        challenge@ == device_authentication(session_transcript@, doc_type@),
{
    let mut name_spaces: Vec<u8> = Vec::new();
    write_head(&mut name_spaces, MAJOR_MAP, 0);
    let mut inner: Vec<u8> = Vec::new();
    write_head(&mut inner, MAJOR_ARRAY, 4);
    write_text_string(&mut inner, "DeviceAuthentication");
    write_raw(&mut inner, session_transcript.as_bytes());
    write_text_string(&mut inner, doc_type.as_str());
    write_encoded_item(&mut inner, name_spaces.as_slice());
    let mut challenge: Vec<u8> = Vec::new();
    write_encoded_item(&mut challenge, inner.as_slice());
    assert(name_spaces@ =~= head(MAJOR_MAP, 0));
    assert(challenge@ =~= device_authentication(session_transcript@, doc_type@));
    challenge
}

/// The requested identifiers that a document lacks, each once, in the order of the request.
pub open spec fn missing_from(requested: Seq<IdentifierView>, document: StoredDocument) -> Seq<
    IdentifierView,
> {
    without(requested, listed(&document))
}

/// Whether a document is of the type asked for and holds every requested identifier.
pub open spec fn qualifies(
    doc_type: Seq<char>,
    requested: Seq<IdentifierView>,
    document: StoredDocument,
) -> bool {
    document.doc_type@ == doc_type && missing_from(requested, document).len() == 0
}

/// The documents among the first `count` of the store that qualify, in the store's order.
pub open spec fn qualifying(
    doc_type: Seq<char>,
    requested: Seq<IdentifierView>,
    stored: Seq<StoredDocument>,
    count: int,
) -> Seq<StoredDocument>
    decreases count,
{
    if count <= 0 {
        Seq::empty()
    } else if qualifies(doc_type, requested, stored[count - 1]) {
        qualifying(doc_type, requested, stored, count - 1).push(stored[count - 1])
    } else {
        qualifying(doc_type, requested, stored, count - 1)
    }
}

/// The place in the store of the document of the type, among the first `count`, that
/// lacks the fewest requested identifiers; of several such, the first.
pub open spec fn closest(
    doc_type: Seq<char>,
    requested: Seq<IdentifierView>,
    stored: Seq<StoredDocument>,
    count: int,
) -> Option<int>
    decreases count,
{
    if count <= 0 {
        None
    } else {
        match closest(doc_type, requested, stored, count - 1) {
            None => if stored[count - 1].doc_type@ == doc_type {
                Some(count - 1)
            } else {
                None
            },
            Some(best) => if stored[count - 1].doc_type@ == doc_type && missing_from(
                requested,
                stored[count - 1],
            ).len() < missing_from(requested, stored[best]).len() {
                Some(count - 1)
            } else {
                Some(best)
            },
        }
    }
}

/// Documents as proposals with one challenge.
pub open spec fn proposals(documents: Seq<StoredDocument>, challenge: Seq<u8>) -> Seq<
    ProposedView,
> {
    documents.map_values(|d: StoredDocument| (d, challenge))
}

/// The answer of a store to the request for the identifiers `requested` of one document
/// type. Where nothing is asked for, or some document qualifies, the qualifying documents
/// are candidates. Otherwise what the closest document of the type lacks is missing, and
/// where the store holds no document of the type, everything asked for.
pub open spec fn matching(
    doc_type: Seq<char>,
    requested: Seq<IdentifierView>,
    stored: Seq<StoredDocument>,
    transcript: Seq<u8>,
) -> MatchView {
    let found = qualifying(doc_type, requested, stored, stored.len() as int);
    if requested.len() == 0 || found.len() > 0 {
        MatchView::Candidates(proposals(found, device_authentication(transcript, doc_type)))
    } else {
        match closest(doc_type, requested, stored, stored.len() as int) {
            Some(best) => MatchView::MissingAttributes(missing_from(requested, stored[best])),
            None => MatchView::MissingAttributes(requested),
        }
    }
}

/// The document types of the first `count` requests, each once, in the order of first
/// occurrence.
pub open spec fn requested_doc_types<H: NameSpaced>(requests: Seq<H>, count: int) -> Seq<
    Seq<char>,
>
    decreases count,
{
    if count <= 0 {
        Seq::empty()
    } else if requested_doc_types(requests, count - 1).contains(
        requests[count - 1].doc_type_spec(),
    ) {
        requested_doc_types(requests, count - 1)
    } else {
        requested_doc_types(requests, count - 1).push(requests[count - 1].doc_type_spec())
    }
}

/// The identifiers that the requests ask for of one document type, each once.
pub open spec fn requested_of_doc_type<H: NameSpaced>(requests: Seq<H>, doc_type: Seq<char>) -> Seq<
    IdentifierView,
> {
    of_doc_type(distinct(listed_in_all(requests, requests.len() as int)), doc_type)
}

impl<'a> DisclosureRequestMatch<'a> {
    /// Matches the identifiers `requested` of documents of type `doc_type` against the
    /// documents of the store.
    pub fn for_doc_type(
        doc_type: &String,
        requested: &AttributeIdentifiers,
        stored: &'a Vec<StoredDocument>,
        session_transcript: &SessionTranscript,
    ) -> (found: DisclosureRequestMatch<'a>)
        ensures
            found@ == matching(doc_type@, requested@, stored@, session_transcript@),
    {
        let ghost challenge = device_authentication(session_transcript@, doc_type@);
        let n = stored.len();
        let mut candidates: Vec<ProposedDocument<'a>> = Vec::new();
        let mut fewest: Option<(usize, AttributeIdentifiers)> = None;
        let mut i: usize = 0;
        assert(candidates@.map_values(|p: ProposedDocument<'a>| p@) =~= proposals(
            qualifying(doc_type@, requested@, stored@, 0),
            challenge,
        ));
        while i < n
            invariant
                n == stored@.len(),
                i <= n,
                challenge == device_authentication(session_transcript@, doc_type@),
                candidates@.map_values(|p: ProposedDocument<'a>| p@) == proposals(
                    qualifying(doc_type@, requested@, stored@, i as int),
                    challenge,
                ),
                candidates@.len() == qualifying(doc_type@, requested@, stored@, i as int).len(),
                match fewest {
                    None => closest(doc_type@, requested@, stored@, i as int) is None,
                    Some((best, missing)) => best < i && closest(
                        doc_type@,
                        requested@,
                        stored@,
                        i as int,
                    ) == Some(best as int) && missing@ == missing_from(
                        requested@,
                        stored@[best as int],
                    ),
                },
            decreases n - i,
        {
            let document = &stored[i];
            if document.doc_type == *doc_type {
                let held = document.attribute_identifiers();
                let missing = requested.difference(&held);
                proof {
                    lemma_distinct(listed(document));
                    lemma_without_same_members(requested@, held@, listed(document));
                }
                if missing.len() == 0 {
                    let ghost before = candidates@.map_values(|p: ProposedDocument<'a>| p@);
                    let proposal = ProposedDocument {
                        source: document,
                        device_signed_challenge: device_authentication_bytes(
                            session_transcript,
                            doc_type,
                        ),
                    };
                    candidates.push(proposal);
                    assert(candidates@.map_values(|p: ProposedDocument<'a>| p@) =~= before.push(
                        (stored@[i as int], challenge),
                    ));
                    assert(before.push((stored@[i as int], challenge)) =~= proposals(
                        qualifying(doc_type@, requested@, stored@, i + 1),
                        challenge,
                    ));
                }
                let closer = match &fewest {
                    None => true,
                    Some((_, least)) => missing.len() < least.len(),
                };
                if closer {
                    fewest = Some((i, missing));
                }
            }
            i += 1;
        }
        if requested.is_empty() || candidates.len() > 0 {
            DisclosureRequestMatch::Candidates(candidates)
        } else {
            match fewest {
                Some((_, missing)) => DisclosureRequestMatch::MissingAttributes(missing),
                None => DisclosureRequestMatch::MissingAttributes(requested.clone()),
            }
        }
    }

    /// Matches a request against the documents of the store: one answer for each document
    /// type that the items requests name, in the order in which they first name it. Items
    /// requests that name the same document type are taken together.
    pub fn new<H: NameSpaced>(
        items_requests: &Vec<H>,
        stored: &'a Vec<StoredDocument>,
        session_transcript: &SessionTranscript,
    ) -> (matches: Vec<DocTypeMatch<'a>>)
        ensures
            matches@.len() == requested_doc_types(
                items_requests@,
                items_requests@.len() as int,
            ).len(),
            forall|k: int|
                0 <= k < matches@.len() ==> (#[trigger] matches@[k]).doc_type@
                    == requested_doc_types(items_requests@, items_requests@.len() as int)[k]
                    && matches@[k].result@ == matching(
                    matches@[k].doc_type@,
                    requested_of_doc_type(items_requests@, matches@[k].doc_type@),
                    stored@,
                    session_transcript@,
                ),
    {
        let all = identifiers_of_all(items_requests);
        let n = items_requests.len();
        let mut matches: Vec<DocTypeMatch<'a>> = Vec::new();
        let mut i: usize = 0;
        while i < n
            invariant
                n == items_requests@.len(),
                i <= n,
                all@ == distinct(listed_in_all(items_requests@, n as int)),
                matches@.len() == requested_doc_types(items_requests@, i as int).len(),
                forall|k: int|
                    0 <= k < matches@.len() ==> (#[trigger] matches@[k]).doc_type@
                        == requested_doc_types(items_requests@, i as int)[k]
                        && matches@[k].result@ == matching(
                        matches@[k].doc_type@,
                        requested_of_doc_type(items_requests@, matches@[k].doc_type@),
                        stored@,
                        session_transcript@,
                    ),
            decreases n - i,
        {
            let doc_type = items_requests[i].doc_type_name();
            let ghost types = requested_doc_types(items_requests@, i as int);
            let mut seen = false;
            let mut k: usize = 0;
            while k < matches.len()
                invariant
                    k <= matches@.len(),
                    matches@.len() == types.len(),
                    forall|j: int|
                        0 <= j < matches@.len() ==> (#[trigger] matches@[j]).doc_type@ == types[j],
                    seen <==> exists|j: int| 0 <= j < k && types[j] == doc_type@,
                decreases matches@.len() - k,
            {
                if matches[k].doc_type == *doc_type {
                    seen = true;
                }
                k += 1;
            }
            assert(seen <==> types.contains(doc_type@));
            if !seen {
                let requested = all.of_doc_type(doc_type);
                let result = DisclosureRequestMatch::for_doc_type(
                    doc_type,
                    &requested,
                    stored,
                    session_transcript,
                );
                matches.push(DocTypeMatch { doc_type: doc_type.clone(), result });
            }
            i += 1;
        }
        matches
    }
}

/// The closest document is of the type, no document of the type lacks fewer requested
/// identifiers, and every earlier one of the type lacks more.
pub proof fn lemma_closest_lacks_fewest(
    doc_type: Seq<char>,
    requested: Seq<IdentifierView>,
    stored: Seq<StoredDocument>,
    count: int,
)
    requires
        0 <= count <= stored.len(),
    ensures
        closest(doc_type, requested, stored, count) is None <==> (forall|k: int|
            0 <= k < count ==> (#[trigger] stored[k]).doc_type@ != doc_type),
        closest(doc_type, requested, stored, count) matches Some(best) ==> 0 <= best < count
            && stored[best].doc_type@ == doc_type && (forall|k: int|
            0 <= k < count && (#[trigger] stored[k]).doc_type@ == doc_type ==> missing_from(
                requested,
                stored[best],
            ).len() <= missing_from(requested, stored[k]).len() && (k < best ==> missing_from(
                requested,
                stored[best],
            ).len() < missing_from(requested, stored[k]).len())),
    decreases count,
{
    if count > 0 {
        lemma_closest_lacks_fewest(doc_type, requested, stored, count - 1);
    }
}

/// The documents of one type among the first `count` of the store, in the store's order.
pub open spec fn stored_of_type(doc_type: Seq<char>, stored: Seq<StoredDocument>, count: int) -> Seq<
    StoredDocument,
>
    decreases count,
{
    if count <= 0 {
        Seq::empty()
    } else if stored[count - 1].doc_type@ == doc_type {
        stored_of_type(doc_type, stored, count - 1).push(stored[count - 1])
    } else {
        stored_of_type(doc_type, stored, count - 1)
    }
}

/// A document is among the qualifying ones exactly if it is one of the first `count`
/// of the store and qualifies.
pub proof fn lemma_qualifying_contains(
    doc_type: Seq<char>,
    requested: Seq<IdentifierView>,
    stored: Seq<StoredDocument>,
    count: int,
    document: StoredDocument,
)
    requires
        0 <= count <= stored.len(),
    ensures
        qualifying(doc_type, requested, stored, count).contains(document) <==> qualifies(
            doc_type,
            requested,
            document,
        ) && exists|k: int| 0 <= k < count && #[trigger] stored[k] == document,
    decreases count,
{
    if count > 0 {
        lemma_qualifying_contains(doc_type, requested, stored, count - 1, document);
        let front = qualifying(doc_type, requested, stored, count - 1);
        let all = qualifying(doc_type, requested, stored, count);
        if all.contains(document) {
            let k = choose|k: int| 0 <= k < all.len() && all[k] == document;
            if k < front.len() {
                assert(front[k] == document);
                assert(front.contains(document));
            } else {
                assert(stored[count - 1] == document);
            }
        }
        if qualifies(doc_type, requested, document) && exists|k: int|
            0 <= k < count && #[trigger] stored[k] == document {
            let k = choose|k: int| 0 <= k < count && #[trigger] stored[k] == document;
            if k < count - 1 {
                assert(front.contains(document));
                let j = choose|j: int| 0 <= j < front.len() && front[j] == document;
                assert(all[j] == document);
            } else {
                assert(all[front.len() as int] == document);
            }
        }
    }
}

/// Where nothing is asked for, the documents that qualify are all those of the type.
pub proof fn lemma_empty_request_qualifies_all(
    doc_type: Seq<char>,
    stored: Seq<StoredDocument>,
    count: int,
)
    requires
        0 <= count <= stored.len(),
    ensures
        qualifying(doc_type, Seq::empty(), stored, count) == stored_of_type(
            doc_type,
            stored,
            count,
        ),
    decreases count,
{
    if count > 0 {
        lemma_empty_request_qualifies_all(doc_type, stored, count - 1);
    }
}

/// A request for no identifier of a document type is answered with every stored document
/// of that type as a candidate, in the order of the store; with none, where the store
/// holds none.
pub proof fn lemma_empty_request_proposes_all(
    doc_type: Seq<char>,
    requested: Seq<IdentifierView>,
    stored: Seq<StoredDocument>,
    transcript: Seq<u8>,
)
    requires
        requested.len() == 0,
    ensures
        matching(doc_type, requested, stored, transcript) == MatchView::Candidates(
            proposals(
                stored_of_type(doc_type, stored, stored.len() as int),
                device_authentication(transcript, doc_type),
            ),
        ),
        stored.len() == 0 ==> matching(doc_type, requested, stored, transcript)
            == MatchView::Candidates(Seq::empty()),
{
    assert(requested =~= Seq::empty());
    lemma_empty_request_qualifies_all(doc_type, stored, stored.len() as int);
    if stored.len() == 0 {
        assert(proposals(
            stored_of_type(doc_type, stored, 0),
            device_authentication(transcript, doc_type),
        ) =~= Seq::empty());
    }
}

/// Where the first `count` documents of the store hold none of the type, none qualifies
/// and none is closest.
pub proof fn lemma_no_document_of_type(
    doc_type: Seq<char>,
    requested: Seq<IdentifierView>,
    stored: Seq<StoredDocument>,
    count: int,
)
    requires
        0 <= count <= stored.len(),
        forall|k: int| 0 <= k < count ==> (#[trigger] stored[k]).doc_type@ != doc_type,
    ensures
        qualifying(doc_type, requested, stored, count).len() == 0,
        closest(doc_type, requested, stored, count) is None,
    decreases count,
{
    if count > 0 {
        lemma_no_document_of_type(doc_type, requested, stored, count - 1);
        assert(stored[count - 1].doc_type@ != doc_type);
    }
}

/// A request for some identifiers of a document type of which the store holds no document
/// is answered with exactly the requested identifiers as missing.
pub proof fn lemma_nothing_stored_misses_all(
    doc_type: Seq<char>,
    requested: Seq<IdentifierView>,
    stored: Seq<StoredDocument>,
    transcript: Seq<u8>,
)
    requires
        requested.len() > 0,
        forall|k: int| 0 <= k < stored.len() ==> (#[trigger] stored[k]).doc_type@ != doc_type,
    ensures
        matching(doc_type, requested, stored, transcript) == MatchView::MissingAttributes(
            requested,
        ),
{
    lemma_no_document_of_type(doc_type, requested, stored, stored.len() as int);
}

/// Where one stored document of the type holds every requested identifier and another
/// lacks one, the answer is a list of candidates that has the first and not the second:
/// a document that holds only a part of what is asked for is never proposed.
pub proof fn lemma_partial_document_is_not_proposed(
    doc_type: Seq<char>,
    requested: Seq<IdentifierView>,
    stored: Seq<StoredDocument>,
    transcript: Seq<u8>,
    whole: int,
    partial: int,
)
    requires
        0 <= whole < stored.len(),
        0 <= partial < stored.len(),
        stored[whole].doc_type@ == doc_type,
        stored[partial].doc_type@ == doc_type,
        forall|id: IdentifierView| #[trigger]
            requested.contains(id) ==> listed(&stored[whole]).contains(id),
        exists|id: IdentifierView| #[trigger]
            requested.contains(id) && !listed(&stored[partial]).contains(id),
    ensures
        matching(doc_type, requested, stored, transcript) == MatchView::Candidates(
            proposals(
                qualifying(doc_type, requested, stored, stored.len() as int),
                device_authentication(transcript, doc_type),
            ),
        ),
        qualifying(doc_type, requested, stored, stored.len() as int).contains(stored[whole]),
        !qualifying(doc_type, requested, stored, stored.len() as int).contains(stored[partial]),
{
    let found = qualifying(doc_type, requested, stored, stored.len() as int);
    crate::identifiers::lemma_without_empty_iff_subset(requested, listed(&stored[whole]));
    crate::identifiers::lemma_without_empty_iff_subset(requested, listed(&stored[partial]));
    assert(qualifies(doc_type, requested, stored[whole]));
    assert(!qualifies(doc_type, requested, stored[partial]));
    lemma_qualifying_contains(doc_type, requested, stored, stored.len() as int, stored[whole]);
    lemma_qualifying_contains(doc_type, requested, stored, stored.len() as int, stored[partial]);
    assert(found.contains(stored[whole]));
    assert(found.len() > 0);
}

} // verus!
