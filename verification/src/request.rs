//! Disclosure requests and the verification of the reader authentication that they carry.

use crate::cbor::{
    encoded_item, head, text_string, write_encoded_item, write_head, write_raw, write_text_string,
    MAJOR_ARRAY,
};
use crate::certificate::{Certificate, CertificateUsage, TrustAnchor};
use crate::cose::{Cose, CoseError};
use crate::errors::{Error, ErrorView, HolderError, HolderErrorView};
use crate::holder::{
    identifiers_of_all, listed_in_all, AttributeIdentifierHolder, NameSpaceView, NameSpaced,
};
use crate::identifiers::{AttributeIdentifiers, IdentifierView};
use crate::items_request::{encode_items_request, ItemsRequest, ItemsRequestView};
use crate::reader_registration::ReaderRegistration;
use vstd::prelude::*;

verus! {

/// The value that binds a signature to one session: the encoded transcript of how the
/// session was set up.
#[derive(Debug, Clone, PartialEq, Eq)]
pub struct SessionTranscript {
    bytes: Vec<u8>,
}

impl View for SessionTranscript {
    type V = Seq<u8>;

    closed spec fn view(&self) -> Seq<u8> {
        self.bytes@
    }
}

impl SessionTranscript {
    /// The transcript with the given encoding.
    pub fn new(bytes: Vec<u8>) -> (transcript: SessionTranscript)
        ensures
            transcript@ == bytes@,
    {
        SessionTranscript { bytes }
    }

    /// The encoding of the transcript, as it is embedded in what is signed.
    pub fn as_bytes(&self) -> (bytes: &[u8])
        ensures
            bytes@ == self@,
    {
        self.bytes.as_slice()
    }
}

/// The request for the elements of one document type, with the reader's signature over it
/// if there is one.
#[derive(Debug, Clone, PartialEq, Eq)]
pub struct DocRequest {
    pub items_request: ItemsRequest,
    pub reader_auth: Option<Cose>,
}

/// A request for disclosure: document requests in the order in which the reader sent them.
#[derive(Debug, Clone, PartialEq, Eq)]
pub struct DeviceRequest {
    pub version: String,
    pub doc_requests: Vec<DocRequest>,
}

/// The payload that a reader signs for one document request: the items request, bound to
/// the session by the transcript.
pub open spec fn reader_authentication(transcript: Seq<u8>, items_request: ItemsRequestView) -> Seq<
    u8,
> {
    encoded_item(
        head(MAJOR_ARRAY, 3) + text_string("ReaderAuthentication"@) + transcript + encoded_item(
            encode_items_request(items_request),
        ),
    )
}

/// Rebuilds the payload that a reader signs for `items_request` in the session of
/// `session_transcript`.
pub fn reader_authentication_bytes(
    session_transcript: &SessionTranscript,
    items_request: &ItemsRequest,
) -> (payload: Vec<u8>)
    ensures
        payload@ == reader_authentication(session_transcript@, items_request@),
{
    let items = items_request.to_cbor();
    let mut inner: Vec<u8> = Vec::new();
    write_head(&mut inner, MAJOR_ARRAY, 3);
    write_text_string(&mut inner, "ReaderAuthentication");
    write_raw(&mut inner, session_transcript.as_bytes());
    write_encoded_item(&mut inner, items.as_slice());
    let mut payload: Vec<u8> = Vec::new();
    write_encoded_item(&mut payload, inner.as_slice());
    assert(payload@ =~= reader_authentication(session_transcript@, items_request@));
    payload
}

impl NameSpaced for DocRequest {
    open spec fn doc_type_spec(&self) -> Seq<char> {
        self.items_request.doc_type_spec()
    }

    open spec fn name_spaces_spec(&self) -> Seq<NameSpaceView> {
        self.items_request.name_spaces_spec()
    }

    fn doc_type_name(&self) -> (name: &String) {
        self.items_request.doc_type_name()
    }

    fn name_space_count(&self) -> (count: usize) {
        self.items_request.name_space_count()
    }

    fn name_space_name(&self, index: usize) -> (name: &String) {
        self.items_request.name_space_name(index)
    }

    fn element_count(&self, index: usize) -> (count: usize) {
        self.items_request.element_count(index)
    }

    fn element_name(&self, index: usize, element: usize) -> (name: &String) {
        self.items_request.element_name(index, element)
    }
}

impl DocRequest {
    /// What verifying the document request gives: nothing where it carries no reader
    /// authentication, else the signer's certificate or the reason for which the envelope
    /// is refused.
    pub open spec fn verification(
        &self,
        transcript: Seq<u8>,
        time: u64,
        anchors: Seq<TrustAnchor>,
    ) -> Result<Option<Certificate>, CoseError> {
        match self.reader_auth {
            None => Ok(None),
            Some(reader_auth) => match reader_auth.verification(
                reader_authentication(transcript, self.items_request@),
                CertificateUsage::ReaderAuth,
                time,
                anchors,
            ) {
                Ok(certificate) => Ok(Some(certificate)),
                Err(e) => Err(e),
            },
        }
    }

    /// Verifies the reader authentication of the document request, if it carries one, over
    /// the payload rebuilt from its items request and the session transcript, and gives the
    /// signer's certificate.
    pub fn verify<'a>(
        &'a self,
        session_transcript: &SessionTranscript,
        time: u64,
        trust_anchors: &[TrustAnchor],
    ) -> (verified: Result<Option<&'a Certificate>, Error>)
        ensures
            verified matches Ok(None) ==> self.verification(
                session_transcript@,
                time,
                trust_anchors@,
            ) == Ok::<Option<Certificate>, CoseError>(None),
            verified matches Ok(Some(c)) ==> self.verification(
                session_transcript@,
                time,
                trust_anchors@,
            ) == Ok::<Option<Certificate>, CoseError>(Some(*c)) && self.signer() == Some(*c),
            verified matches Err(e) ==> (exists|cause: CoseError|
                e@ == ErrorView::Cose(cause) && self.verification(
                    session_transcript@,
                    time,
                    trust_anchors@,
                ) == Err::<Option<Certificate>, CoseError>(cause)),
    {
        match &self.reader_auth {
            None => Ok(None),
            Some(reader_auth) => {
                let payload = reader_authentication_bytes(session_transcript, &self.items_request);
                match reader_auth.verify_against_trust_anchors(
                    payload.as_slice(),
                    CertificateUsage::ReaderAuth,
                    time,
                    trust_anchors,
                ) {
                    Ok(certificate) => Ok(Some(certificate)),
                    Err(e) => Err(Error::from_cose(e)),
                }
            },
        }
    }

    /// The certificate that the reader authentication names, if there is any.
    pub open spec fn signer(&self) -> Option<Certificate> {
        match self.reader_auth {
            None => None,
            Some(reader_auth) => reader_auth.certificate,
        }
    }
}

/// What a verification hands out, as a mathematical value.
pub type Verified = Result<Option<(Certificate, ReaderRegistration)>, ErrorView>;

/// The mathematical value of the result of [`DeviceRequest::verify`].
pub open spec fn verified_view(
    verified: Result<Option<(&Certificate, &ReaderRegistration)>, Error>,
) -> Verified {
    match verified {
        Ok(None) => Ok(None),
        Ok(Some((certificate, registration))) => Ok(Some((*certificate, *registration))),
        Err(e) => Err(e@),
    }
}

impl AttributeIdentifierHolder for DeviceRequest {
    open spec fn listed_identifiers(&self) -> Seq<IdentifierView> {
        listed_in_all(self.doc_requests@, self.doc_requests@.len() as int)
    }

    /// The identifiers that the request asks for, over all its document requests.
    fn attribute_identifiers(&self) -> (ids: AttributeIdentifiers) {
        identifiers_of_all(&self.doc_requests)
    }
}

impl DeviceRequest {
    /// A request made of the given document requests.
    pub fn from_doc_requests(doc_requests: Vec<DocRequest>) -> (request: DeviceRequest)
        ensures
            request.doc_requests == doc_requests,
            request.version@ == "1.0"@,
    {
        DeviceRequest { version: "1.0".to_owned(), doc_requests }
    }

    /// A request for the given items, without reader authentication.
    pub fn from_items_requests(items_requests: Vec<ItemsRequest>) -> (request: DeviceRequest)
        ensures
            request.doc_requests@.len() == items_requests@.len(),
            forall|i: int|
                0 <= i < items_requests@.len() ==> (#[trigger] request.doc_requests@[i])
                    == (DocRequest { items_request: items_requests@[i], reader_auth: None }),
            request.no_reader_auth(),
            request.version@ == "1.0"@,
    {
        let ghost all = items_requests@;
        let mut doc_requests: Vec<DocRequest> = Vec::new();
        for items_request in iter: items_requests
            invariant
                iter.seq() == all,
                doc_requests@.len() == iter.index(),
                forall|i: int|
                    0 <= i < doc_requests@.len() ==> (#[trigger] doc_requests@[i]) == (DocRequest {
                        items_request: all[i],
                        reader_auth: None,
                    }),
        {
            doc_requests.push(DocRequest { items_request, reader_auth: None });
        }
        DeviceRequest { version: "1.0".to_owned(), doc_requests }
    }

    /// Whether no element at all is requested.
    pub open spec fn is_empty_spec(&self) -> bool {
        forall|i: int|
            0 <= i < self.doc_requests@.len() ==> (#[trigger] self.doc_requests@[i]).items_request.is_empty_spec()
    }

    /// Returns `true` if this request has any attributes at all.
    pub fn has_attributes(&self) -> (any: bool)
        ensures
            any == !self.is_empty_spec(),
    {
        let mut i: usize = 0;
        while i < self.doc_requests.len()
            invariant
                i <= self.doc_requests@.len(),
                forall|k: int|
                    0 <= k < i ==> (#[trigger] self.doc_requests@[k]).items_request.is_empty_spec(),
            decreases self.doc_requests@.len() - i,
        {
            if self.doc_requests[i].items_request.has_attributes() {
                return true;
            }
            i += 1;
        }
        false
    }

    /// The items requests of the document requests, in their order.
    pub fn items_requests(&self) -> (items: Vec<&ItemsRequest>)
        ensures
            items@.len() == self.doc_requests@.len(),
            forall|i: int|
                0 <= i < items@.len() ==> *(#[trigger] items@[i])
                    == self.doc_requests@[i].items_request,
    {
        let mut items: Vec<&ItemsRequest> = Vec::new();
        let mut i: usize = 0;
        while i < self.doc_requests.len()
            invariant
                i <= self.doc_requests@.len(),
                items@.len() == i,
                forall|k: int|
                    0 <= k < i ==> *(#[trigger] items@[k]) == self.doc_requests@[k].items_request,
            decreases self.doc_requests@.len() - i,
        {
            items.push(&self.doc_requests[i].items_request);
            i += 1;
        }
        items
    }

    /// Whether no document request carries reader authentication.
    pub open spec fn no_reader_auth(&self) -> bool {
        forall|i: int|
            0 <= i < self.doc_requests@.len() ==> (#[trigger] self.doc_requests@[i]).reader_auth is None
    }

    /// Whether every document request carries reader authentication.
    pub open spec fn all_reader_auth(&self) -> bool {
        forall|i: int|
            0 <= i < self.doc_requests@.len() ==> (#[trigger] self.doc_requests@[i]).reader_auth is Some
    }

    /// The first fault among the first `count` document requests, taken in order: a
    /// document request whose envelope is refused, or one whose signer's certificate is
    /// not byte for byte that of the document request before it.
    pub open spec fn fault(
        &self,
        transcript: Seq<u8>,
        time: u64,
        anchors: Seq<TrustAnchor>,
        count: int,
    ) -> Option<ErrorView>
        decreases count,
    {
        if count <= 0 {
            None
        } else {
            match self.fault(transcript, time, anchors, count - 1) {
                Some(e) => Some(e),
                None => match self.doc_requests@[count - 1].verification(transcript, time, anchors) {
                    Err(e) => Some(ErrorView::Cose(e)),
                    Ok(None) => None,
                    Ok(Some(certificate)) => if count >= 2 && self.doc_requests@[count
                        - 2].signer() is Some && self.doc_requests@[count - 2].signer().unwrap()@.der
                        != certificate@.der {
                        Some(ErrorView::Holder(HolderErrorView::ReaderAuthsInconsistent))
                    } else {
                        None
                    },
                },
            }
        }
    }

    /// Where every document request is signed and none is at fault, each names its signer.
    pub proof fn lemma_fault_free_names_signers(
        &self,
        transcript: Seq<u8>,
        time: u64,
        anchors: Seq<TrustAnchor>,
        count: int,
    )
        requires
            0 <= count <= self.doc_requests@.len(),
            self.all_reader_auth(),
            self.fault(transcript, time, anchors, count) is None,
        ensures
            forall|i: int| 0 <= i < count ==> (#[trigger] self.doc_requests@[i]).signer() is Some,
        decreases count,
    {
        if count > 0 {
            self.lemma_fault_free_names_signers(transcript, time, anchors, count - 1);
            assert(self.doc_requests@[count - 1].reader_auth is Some);
        }
    }

    /// A fault among the first document requests stays the first fault of any longer run.
    pub proof fn lemma_fault_persists(
        &self,
        transcript: Seq<u8>,
        time: u64,
        anchors: Seq<TrustAnchor>,
        count: int,
        longer: int,
    )
        requires
            count <= longer,
            self.fault(transcript, time, anchors, count) is Some,
        ensures
            self.fault(transcript, time, anchors, longer) == self.fault(
                transcript,
                time,
                anchors,
                count,
            ),
        decreases longer - count,
    {
        if count < longer {
            self.lemma_fault_persists(transcript, time, anchors, count, longer - 1);
        }
    }

    /// What verifying the request gives: nothing where no document request is signed; else
    /// the first fault, if any; else what the registration in the signer's certificate
    /// decides. (Where all are signed and none is at fault, the last names its signer.)
    pub open spec fn verification(
        &self,
        transcript: Seq<u8>,
        time: u64,
        anchors: Seq<TrustAnchor>,
    ) -> Verified {
        let count = self.doc_requests@.len() as int;
        if self.no_reader_auth() {
            Ok(None)
        } else if !self.all_reader_auth() {
            Err(ErrorView::Holder(HolderErrorView::ReaderAuthMissing))
        } else {
            match self.fault(transcript, time, anchors, count) {
                Some(e) => Err(e),
                None => match self.doc_requests@[count - 1].signer() {
                    None => Err(ErrorView::Cose(CoseError::MissingCertificate)),
                    Some(certificate) => match certificate.registration_spec() {
                        Err(e) => Err(ErrorView::Holder(HolderErrorView::Certificate(e))),
                        Ok(None) => Err(ErrorView::Holder(HolderErrorView::NoReaderRegistration)),
                        Ok(Some(registration)) => if registration.covers(
                            self.listed_identifiers(),
                        ) {
                            Ok(Some((certificate, registration)))
                        } else {
                            Err(
                                ErrorView::Holder(
                                    HolderErrorView::UnregisteredAttributes(
                                        registration.unregistered(self.listed_identifiers()),
                                    ),
                                ),
                            )
                        },
                    },
                },
            }
        }
    }

    /// Verify reader authentication, if present.
    ///
    /// Either none of the document requests is signed, and nothing is returned, or all of
    /// them are signed with one and the same certificate over this session's transcript.
    /// That certificate must carry a registration that covers every attribute asked for;
    /// the certificate and the registration are returned.
    pub fn verify<'a>(
        &'a self,
        session_transcript: &SessionTranscript,
        time: u64,
        trust_anchors: &[TrustAnchor],
    ) -> (verified: Result<Option<(&'a Certificate, &'a ReaderRegistration)>, Error>)
        ensures
            verified_view(verified) == self.verification(
                session_transcript@,
                time,
                trust_anchors@,
            ),
    {
        let n = self.doc_requests.len();
        let mut present: usize = 0;
        let mut i: usize = 0;
        while i < n
            invariant
                n == self.doc_requests@.len(),
                i <= n,
                present <= i,
                present == 0 <==> (forall|k: int|
                    0 <= k < i ==> (#[trigger] self.doc_requests@[k]).reader_auth is None),
                present == i <==> (forall|k: int|
                    0 <= k < i ==> (#[trigger] self.doc_requests@[k]).reader_auth is Some),
            decreases n - i,
        {
            if self.doc_requests[i].reader_auth.is_some() {
                present += 1;
            }
            i += 1;
        }
        if present == 0 {
            return Ok(None);
        }
        if present != n {
            return Err(Error::from_holder(HolderError::ReaderAuthMissing));
        }
        let mut previous: Option<&'a Certificate> = None;
        let mut j: usize = 0;
        while j < n
            invariant
                n == self.doc_requests@.len(),
                n > 0,
                j <= n,
                self.all_reader_auth(),
                !self.no_reader_auth(),
                self.fault(session_transcript@, time, trust_anchors@, j as int) is None,
                j == 0 ==> previous is None,
                j > 0 ==> previous is Some && self.doc_requests@[j - 1].signer() == Some(
                    *previous.unwrap(),
                ),
            decreases n - j,
        {
            match self.doc_requests[j].verify(session_transcript, time, trust_anchors) {
                Err(e) => {
                    proof {
                        self.lemma_fault_persists(
                            session_transcript@,
                            time,
                            trust_anchors@,
                            j + 1,
                            n as int,
                        );
                    }
                    return Err(e);
                },
                Ok(None) => {
                    assert(self.doc_requests@[j as int].reader_auth is Some);
                    assert(false);
                },
                Ok(Some(certificate)) => {
                    match previous {
                        Some(earlier) => {
                            if !certificate.same_as(earlier) {
                                proof {
                                    self.lemma_fault_persists(
                                        session_transcript@,
                                        time,
                                        trust_anchors@,
                                        j + 1,
                                        n as int,
                                    );
                                }
                                return Err(
                                    Error::from_holder(HolderError::ReaderAuthsInconsistent),
                                );
                            }
                        },
                        None => {},
                    }
                    previous = Some(certificate);
                },
            }
            j += 1;
        }
        let certificate = match previous {
            Some(certificate) => certificate,
            None => {
                assert(false);
                return Ok(None);
            },
        };
        let registration = match certificate.registration() {
            Err(e) => {
                return Err(Error::from_holder(HolderError::Certificate(e)));
            },
            Ok(None) => {
                return Err(Error::from_holder(HolderError::NoReaderRegistration));
            },
            Ok(Some(registration)) => registration,
        };
        match registration.verify_requested_attributes(self) {
            Err(unregistered) => Err(
                Error::from_holder(HolderError::UnregisteredAttributes(unregistered)),
            ),
            Ok(()) => Ok(Some((certificate, registration))),
        }
    }
}

impl DeviceRequest {
    /// Whether every document request is signed and its envelope accepted.
    pub open spec fn all_signatures_accepted(
        &self,
        transcript: Seq<u8>,
        time: u64,
        anchors: Seq<TrustAnchor>,
    ) -> bool {
        forall|i: int|
            0 <= i < self.doc_requests@.len() ==> (#[trigger] self.doc_requests@[i]).verification(
                transcript,
                time,
                anchors,
            ) is Ok && self.doc_requests@[i].reader_auth is Some
    }

    /// Whether all document requests name a signer, and byte for byte the same one.
    pub open spec fn one_signer(&self) -> bool {
        forall|i: int, j: int|
            0 <= i < self.doc_requests@.len() && 0 <= j < self.doc_requests@.len() ==> (
            #[trigger] self.doc_requests@[i]).signer() is Some && (
            #[trigger] self.doc_requests@[j]).signer() is Some
                && self.doc_requests@[i].signer().unwrap()@.der
                == self.doc_requests@[j].signer().unwrap()@.der
    }

    /// Where every envelope is accepted, there is no fault among the first document
    /// requests exactly if they all name the same signer.
    pub proof fn lemma_fault_free_iff_one_signer(
        &self,
        transcript: Seq<u8>,
        time: u64,
        anchors: Seq<TrustAnchor>,
        count: int,
    )
        requires
            self.all_signatures_accepted(transcript, time, anchors),
            0 <= count <= self.doc_requests@.len(),
        ensures
            forall|i: int| 0 <= i < count ==> (#[trigger] self.doc_requests@[i]).signer() is Some,
            self.fault(transcript, time, anchors, count) is None <==> (forall|i: int|
                0 <= i < count ==> (#[trigger] self.doc_requests@[i]).signer().unwrap()@.der
                    == self.doc_requests@[0].signer().unwrap()@.der),
            self.fault(transcript, time, anchors, count) is Some ==> self.fault(
                transcript,
                time,
                anchors,
                count,
            ) == Some(ErrorView::Holder(HolderErrorView::ReaderAuthsInconsistent)),
        decreases count,
    {
        if count > 0 {
            self.lemma_fault_free_iff_one_signer(transcript, time, anchors, count - 1);
            let last = self.doc_requests@[count - 1];
            assert(last.verification(transcript, time, anchors) is Ok);
            assert(last.reader_auth is Some);
            assert(last.signer() is Some);
            if count >= 2 {
                let before = self.doc_requests@[count - 2];
                assert(before.signer() is Some);
                if self.fault(transcript, time, anchors, count - 1) is None {
                    assert(before.signer().unwrap()@.der
                        == self.doc_requests@[0].signer().unwrap()@.der);
                }
            }
        }
    }

    /// A request of which no document request carries reader authentication verifies, and
    /// names no reader.
    pub proof fn lemma_unsigned_request_verifies(
        &self,
        transcript: Seq<u8>,
        time: u64,
        anchors: Seq<TrustAnchor>,
    )
        requires
            self.no_reader_auth(),
        ensures
            self.verification(transcript, time, anchors) == Ok::<
                Option<(Certificate, ReaderRegistration)>,
                ErrorView,
            >(None),
    {
    }

    /// A request of which some document requests carry reader authentication and others do
    /// not is refused, for want of reader authentication.
    pub proof fn lemma_partly_signed_request_is_refused(
        &self,
        transcript: Seq<u8>,
        time: u64,
        anchors: Seq<TrustAnchor>,
        signed: int,
        unsigned: int,
    )
        requires
            0 <= signed < self.doc_requests@.len(),
            0 <= unsigned < self.doc_requests@.len(),
            self.doc_requests@[signed].reader_auth is Some,
            self.doc_requests@[unsigned].reader_auth is None,
        ensures
            self.verification(transcript, time, anchors) == Err::<
                Option<(Certificate, ReaderRegistration)>,
                ErrorView,
            >(ErrorView::Holder(HolderErrorView::ReaderAuthMissing)),
    {
    }

    /// A request of which every document request is signed and accepted, but not all with
    /// the same certificate, is refused as inconsistent.
    pub proof fn lemma_two_signers_are_refused(
        &self,
        transcript: Seq<u8>,
        time: u64,
        anchors: Seq<TrustAnchor>,
        one: int,
        other: int,
    )
        requires
            self.all_signatures_accepted(transcript, time, anchors),
            0 <= one < self.doc_requests@.len(),
            0 <= other < self.doc_requests@.len(),
            self.doc_requests@[one].signer() is Some,
            self.doc_requests@[other].signer() is Some,
            self.doc_requests@[one].signer().unwrap()@.der
                != self.doc_requests@[other].signer().unwrap()@.der,
        ensures
            self.verification(transcript, time, anchors) == Err::<
                Option<(Certificate, ReaderRegistration)>,
                ErrorView,
            >(ErrorView::Holder(HolderErrorView::ReaderAuthsInconsistent)),
    {
        let count = self.doc_requests@.len() as int;
        self.lemma_fault_free_iff_one_signer(transcript, time, anchors, count);
        assert(self.doc_requests@[one].reader_auth is Some);
        assert(!self.no_reader_auth());
        assert(self.all_reader_auth()) by {
            assert forall|i: int| 0 <= i < count implies (
            #[trigger] self.doc_requests@[i]).reader_auth is Some by {
                assert(self.doc_requests@[i].verification(transcript, time, anchors) is Ok);
            }
        }
        if self.fault(transcript, time, anchors, count) is None {
            assert(self.doc_requests@[one].signer().unwrap()@.der
                == self.doc_requests@[0].signer().unwrap()@.der);
            assert(self.doc_requests@[other].signer().unwrap()@.der
                == self.doc_requests@[0].signer().unwrap()@.der);
        }
    }

    /// A request of which every document request is signed with one certificate, and every
    /// envelope is accepted, verifies exactly as that certificate's registration decides: it
    /// gives the certificate with the registration that it carries, where it carries one
    /// that covers what is asked for.
    pub proof fn lemma_one_signer_verifies(
        &self,
        transcript: Seq<u8>,
        time: u64,
        anchors: Seq<TrustAnchor>,
        registration: ReaderRegistration,
    )
        requires
            self.doc_requests@.len() > 0,
            self.all_signatures_accepted(transcript, time, anchors),
            self.one_signer(),
            self.doc_requests@.last().signer().unwrap().registration_spec() == Ok::<
                Option<ReaderRegistration>,
                crate::certificate::CertificateError,
            >(Some(registration)),
            registration.covers(self.listed_identifiers()),
        ensures
            self.verification(transcript, time, anchors) == Ok::<
                Option<(Certificate, ReaderRegistration)>,
                ErrorView,
            >(Some((self.doc_requests@.last().signer().unwrap(), registration))),
    {
        let count = self.doc_requests@.len() as int;
        self.lemma_fault_free_iff_one_signer(transcript, time, anchors, count);
        assert(self.doc_requests@[0].verification(transcript, time, anchors) is Ok);
        assert(self.doc_requests@[0].reader_auth is Some);
        assert(!self.no_reader_auth());
        assert(self.all_reader_auth()) by {
            assert forall|i: int| 0 <= i < count implies (
            #[trigger] self.doc_requests@[i]).reader_auth is Some by {
                assert(self.doc_requests@[i].verification(transcript, time, anchors) is Ok);
            }
        }
        assert forall|i: int| 0 <= i < count implies (
        #[trigger] self.doc_requests@[i]).signer().unwrap()@.der
            == self.doc_requests@[0].signer().unwrap()@.der by {
            assert(self.doc_requests@[0].signer() is Some);
        }
        assert(self.doc_requests@.last() == self.doc_requests@[count - 1]);
    }

    /// Verifying a request twice, in the same session, at the same time and against the
    /// same trust anchors, gives the same result.
    pub proof fn lemma_verification_repeats(
        &self,
        transcript: Seq<u8>,
        time: u64,
        anchors: Seq<TrustAnchor>,
        first: Result<Option<(&Certificate, &ReaderRegistration)>, Error>,
        second: Result<Option<(&Certificate, &ReaderRegistration)>, Error>,
    )
        requires
            verified_view(first) == self.verification(transcript, time, anchors),
            verified_view(second) == self.verification(transcript, time, anchors),
        ensures
            verified_view(first) == verified_view(second),
            first is Ok <==> second is Ok,
    {
    }
}

} // verus!
