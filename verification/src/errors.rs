//! The reasons for which a disclosure request is refused.

use crate::certificate::CertificateError;
use crate::cose::CoseError;
use crate::identifiers::{AttributeIdentifiers, IdentifierView};
use vstd::prelude::*;

verus! {

/// Why the holder refuses a request, apart from its signatures.
#[derive(Debug, Clone, PartialEq, Eq)]
pub enum HolderError {
    /// Some of the document requests carry reader authentication and some do not.
    ReaderAuthMissing,
    /// The document requests are signed with different certificates.
    ReaderAuthsInconsistent,
    /// The reader's certificate is accepted but carries no registration.
    NoReaderRegistration,
    /// The usage extension of the reader's certificate cannot be decoded.
    Certificate(CertificateError),
    /// The reader asks for attributes that its registration does not cover: these.
    UnregisteredAttributes(AttributeIdentifiers),
}

/// The mathematical value of a [`HolderError`].
pub enum HolderErrorView {
    ReaderAuthMissing,
    ReaderAuthsInconsistent,
    NoReaderRegistration,
    Certificate(CertificateError),
    UnregisteredAttributes(Seq<IdentifierView>),
}

impl View for HolderError {
    type V = HolderErrorView;

    open spec fn view(&self) -> HolderErrorView {
        match self {
            HolderError::ReaderAuthMissing => HolderErrorView::ReaderAuthMissing,
            HolderError::ReaderAuthsInconsistent => HolderErrorView::ReaderAuthsInconsistent,
            HolderError::NoReaderRegistration => HolderErrorView::NoReaderRegistration,
            HolderError::Certificate(e) => HolderErrorView::Certificate(*e),
            HolderError::UnregisteredAttributes(ids) => HolderErrorView::UnregisteredAttributes(
                ids@,
            ),
        }
    }
}

/// Why the verification of a request fails.
#[derive(Debug, Clone, PartialEq, Eq)]
pub enum Error {
    /// A signature envelope is not accepted.
    Cose(CoseError),
    /// The request itself is not acceptable.
    Holder(HolderError),
}

/// The mathematical value of an [`Error`].
pub enum ErrorView {
    Cose(CoseError),
    Holder(HolderErrorView),
}

impl View for Error {
    type V = ErrorView;

    open spec fn view(&self) -> ErrorView {
        match self {
            Error::Cose(e) => ErrorView::Cose(*e),
            Error::Holder(e) => ErrorView::Holder(e@),
        }
    }
}

impl Error {
    /// The error that stands for a refused signature envelope.
    pub fn from_cose(error: CoseError) -> (e: Error)
        ensures
            e@ == ErrorView::Cose(error),
    {
        Error::Cose(error)
    }

    /// The error that stands for a refused request.
    pub fn from_holder(error: HolderError) -> (e: Error)
        ensures
            e@ == ErrorView::Holder(error@),
    {
        Error::Holder(error)
    }
}

} // verus!
