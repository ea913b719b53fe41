//! Certificates, trust anchors and the validation of a certificate against them.

use crate::reader_registration::ReaderRegistration;
use vstd::prelude::*;

verus! {

/// The extended key usage of certificates that sign documents: 1.0.18013.5.1.2.
pub const EKU_MDL: [u8; 7] = [0x28, 0x81, 0x8c, 0x5d, 0x05, 0x01, 0x02];

/// The extended key usage of certificates that sign reader authentication: 1.0.18013.5.1.6.
pub const EKU_READER_AUTH: [u8; 7] = [0x28, 0x81, 0x8c, 0x5d, 0x05, 0x01, 0x06];

/// The extension of a reader's certificate that holds the registration of the reader:
/// 2.1.123.1.
pub const OID_EXT_READER_AUTH: [u8; 3] = [0x51, 0x7b, 0x01];

/// What a certificate is expected to be used for.
#[derive(Debug, Clone, Copy, PartialEq, Eq, Structural)]
pub enum CertificateUsage {
    Mdl,
    ReaderAuth,
}

impl CertificateUsage {
    /// The object identifier of the extended key usage, in DER without tag and length.
    pub open spec fn eku_spec(&self) -> Seq<u8> {
        match self {
            CertificateUsage::Mdl => EKU_MDL@,
            CertificateUsage::ReaderAuth => EKU_READER_AUTH@,
        }
    }

    /// The object identifier of the extended key usage that a certificate must carry.
    pub fn eku(&self) -> (oid: &'static [u8])
        ensures
            oid@ == self.eku_spec(),
    {
        match self {
            CertificateUsage::Mdl => {
                let oid: &'static [u8; 7] = &EKU_MDL;
                oid.as_slice()
            },
            CertificateUsage::ReaderAuth => {
                let oid: &'static [u8; 7] = &EKU_READER_AUTH;
                oid.as_slice()
            },
        }
    }

    /// The usage that the key purposes of a certificate stand for: there must be one key
    /// purpose, and it must be that of an issuer or that of a reader.
    pub open spec fn of_key_purposes(purposes: Seq<Seq<u8>>) -> Result<
        CertificateUsage,
        CertificateError,
    > {
        if purposes.len() != 1 {
            Err(CertificateError::IncorrectEkuCount(purposes.len() as usize))
        } else if purposes[0] == EKU_MDL@ {
            Ok(CertificateUsage::Mdl)
        } else if purposes[0] == EKU_READER_AUTH@ {
            Ok(CertificateUsage::ReaderAuth)
        } else {
            Err(CertificateError::UnknownEku)
        }
    }

    /// Tells the usage of a certificate from the key purposes that it names.
    pub fn from_key_purposes(purposes: &Vec<Vec<u8>>) -> (usage: Result<
        CertificateUsage,
        CertificateError,
    >)
        ensures
            usage == Self::of_key_purposes(byte_strings(purposes@)),
    {
        if purposes.len() != 1 {
            return Err(CertificateError::IncorrectEkuCount(purposes.len()));
        }
        let purpose = purposes[0].as_slice();
        if same_bytes(purpose, CertificateUsage::Mdl.eku()) {
            Ok(CertificateUsage::Mdl)
        } else if same_bytes(purpose, CertificateUsage::ReaderAuth.eku()) {
            Ok(CertificateUsage::ReaderAuth)
        } else {
            Err(CertificateError::UnknownEku)
        }
    }
}

/// `Result::clone`, which copies of values that hold a `Result` go through. Nothing is claimed
/// of the copy.
pub assume_specification<T, E>[ <Result<T, E> as Clone>::clone ](r: &Result<T, E>) -> (copy:
    Result<T, E>)
    where
        E: Clone,
        T: Clone,
;

/// What a certificate is for, with the registration that it carries.
#[derive(Debug, Clone, PartialEq, Eq)]
pub enum CertificateType {
    /// A certificate of an issuer of documents.
    Mdl,
    /// A certificate of a reader, with its registration if it carries one.
    ReaderAuth(Option<ReaderRegistration>),
}

/// An X.509 certificate: its DER encoding, and what it says of its usage. What it says of
/// its usage is always what its encoding holds; see [`Certificate::new`].
#[derive(Debug, Clone, PartialEq, Eq)]
pub struct Certificate {
    der: Vec<u8>,
    certificate_type: Result<CertificateType, CertificateError>,
}

/// The mathematical value of a [`Certificate`].
pub struct CertificateView {
    /// The DER encoding of the certificate.
    pub der: Seq<u8>,
    /// What the certificate is for, or why that cannot be told.
    pub certificate_type: Result<CertificateType, CertificateError>,
}

impl View for Certificate {
    type V = CertificateView;

    closed spec fn view(&self) -> CertificateView {
        CertificateView { der: self.der@, certificate_type: self.certificate_type }
    }
}

/// A root of trust: the subject, public key and name constraints of a trusted certificate.
#[derive(Debug, Clone, PartialEq, Eq)]
pub struct TrustAnchor {
    pub subject: Vec<u8>,
    pub spki: Vec<u8>,
    pub name_constraints: Option<Vec<u8>>,
}

/// The mathematical value of a [`TrustAnchor`].
pub type TrustAnchorView = (Seq<u8>, Seq<u8>, Option<Seq<u8>>);

impl View for TrustAnchor {
    type V = TrustAnchorView;

    open spec fn view(&self) -> TrustAnchorView {
        (
            self.subject@,
            self.spki@,
            match self.name_constraints {
                Some(constraints) => Some(constraints@),
                None => None,
            },
        )
    }
}

/// The values of a sequence of trust anchors.
pub open spec fn anchors_view(anchors: Seq<TrustAnchor>) -> Seq<TrustAnchorView> {
    anchors.map_values(|a: TrustAnchor| a@)
}

/// How the validation of a certificate against trust anchors ends.
#[derive(Debug, Clone, Copy, PartialEq, Eq, Structural)]
pub enum ChainVerdict {
    /// The certificate chains to an anchor, carries the usage and is valid at the time.
    Trusted,
    /// No anchor issued the certificate.
    UnknownIssuer,
    /// The certificate does not carry the extended key usage asked for.
    UsageMismatch,
    /// The certificate is malformed, not valid at the time, or fails another check.
    Invalid,
}

/// Why a certificate is not accepted.
#[derive(Debug, Clone, Copy, PartialEq, Eq, Structural)]
pub enum CertificateError {
    /// The certificate does not lead to a trust anchor.
    UnknownIssuer,
    /// The certificate is not one for the usage asked for.
    UsageMismatch,
    /// The chain is broken: the certificate is malformed, out of its validity or badly signed.
    Invalid,
    /// The certificate names this many key purposes of its own, where it must name one.
    IncorrectEkuCount(usize),
    /// The certificate names a key purpose that is neither that of an issuer nor that of a
    /// reader.
    UnknownEku,
    /// The extension that holds the registration cannot be decoded.
    MalformedExtension,
}

/// The verdict of `webpki` on a certificate in DER, for an extended key usage that it must
/// carry, at a time in seconds since the epoch, against trust anchors and without
/// intermediate certificates or revocation lists, accepting ECDSA P-256 with SHA-256.
pub uninterp spec fn chain_verdict(
    certificate: Seq<u8>,
    usage: Seq<u8>,
    time: u64,
    anchors: Seq<TrustAnchorView>,
) -> ChainVerdict;

/// The trust anchor that `webpki` reads from a certificate in DER, if it can read one.
pub uninterp spec fn anchor_of(certificate: Seq<u8>) -> Option<TrustAnchorView>;

/// The key purposes that the extended key usage of a certificate in DER names, each once and
/// in the order of the certificate, apart from the seven that `x509-parser` knows by name;
/// each is the DER content of its object identifier. There are none where the certificate
/// has no such extension, and there is nothing where the certificate or the extension
/// cannot be parsed.
pub uninterp spec fn key_purposes_of(certificate: Seq<u8>) -> Option<Seq<Seq<u8>>>;

/// The value of the extension of a certificate in DER that has the given object identifier:
/// none where the certificate has no such extension, and nothing where the certificate
/// cannot be parsed or has the extension more than once.
pub uninterp spec fn extension_of(certificate: Seq<u8>, oid: Seq<u8>) -> Option<Option<Seq<u8>>>;

/// Byte strings as mathematical values.
pub open spec fn byte_strings(strings: Seq<Vec<u8>>) -> Seq<Seq<u8>> {
    strings.map_values(|s: Vec<u8>| s@)
}

/// `x509_parser::certificate::X509Certificate::extended_key_usage` on the certificate that
/// `x509_parser::parse_x509_certificate` parses: the object identifiers that it lists as
/// `other`, as named above.
#[verifier::external_body]
fn other_key_purposes(certificate: &[u8]) -> (purposes: Option<Vec<Vec<u8>>>)
    ensures
        purposes matches Some(p) ==> key_purposes_of(certificate@) == Some(byte_strings(p@)),
        purposes is None ==> key_purposes_of(certificate@) is None,
{
    match x509_parser::parse_x509_certificate(certificate) {
        Ok((_, parsed)) => match parsed.extended_key_usage() {
            Ok(Some(usage)) => Some(
                usage.value.other.iter().map(|oid| oid.as_bytes().to_vec()).collect(),
            ),
            Ok(None) => Some(Vec::new()),
            Err(_) => None,
        },
        Err(_) => None,
    }
}

/// `x509_parser::certificate::X509Certificate::get_extension_unique` on the certificate
/// that `x509_parser::parse_x509_certificate` parses: the value of the extension, as named
/// above.
#[verifier::external_body]
fn extension_value(certificate: &[u8], oid: &[u8]) -> (value: Option<Option<Vec<u8>>>)
    ensures
        value matches Some(Some(v)) ==> extension_of(certificate@, oid@) == Some(Some(v@)),
        value matches Some(None) ==> extension_of(certificate@, oid@) == Some(
            None::<Seq<u8>>,
        ),
        value is None ==> extension_of(certificate@, oid@) is None,
{
    let oid = x509_parser::der_parser::oid::Oid::new(std::borrow::Cow::Borrowed(oid));
    match x509_parser::parse_x509_certificate(certificate) {
        Ok((_, parsed)) => match parsed.get_extension_unique(&oid) {
            Ok(Some(extension)) => Some(Some(extension.value.to_vec())),
            Ok(None) => Some(None),
            Err(_) => None,
        },
        Err(_) => None,
    }
}

/// `webpki::EndEntityCert::verify_for_usage` on the certificate that
/// `webpki::EndEntityCert::try_from` parses: the result is the verdict named above, where
/// `UnknownIssuer` and `RequiredEkuNotFound` keep their meaning and every other error,
/// that of parsing included, is `Invalid`.
#[verifier::external_body]
fn verify_for_usage(certificate: &[u8], usage: &'static [u8], time: u64, anchors: &[TrustAnchor]) -> (verdict: ChainVerdict)
    ensures
        verdict == chain_verdict(certificate@, usage@, time, anchors_view(anchors@)),
{
    let roots: Vec<webpki::TrustAnchor> = anchors.iter().map(|a| webpki::TrustAnchor {
        subject: &a.subject,
        spki: &a.spki,
        name_constraints: a.name_constraints.as_deref(),
    }).collect();
    let at = webpki::Time::from_seconds_since_unix_epoch(time);
    let usage = webpki::KeyUsage::required(usage);
    match webpki::EndEntityCert::try_from(certificate).and_then(|c| c.verify_for_usage(&[&webpki::ECDSA_P256_SHA256], &roots, &[], at, usage, &[])) {
        Ok(()) => ChainVerdict::Trusted,
        Err(webpki::Error::UnknownIssuer) => ChainVerdict::UnknownIssuer,
        Err(webpki::Error::RequiredEkuNotFound) => ChainVerdict::UsageMismatch,
        Err(_) => ChainVerdict::Invalid,
    }
}

/// `webpki::TrustAnchor::try_from_cert_der`: the subject, public key and name constraints
/// of the certificate, or nothing where it cannot be parsed.
#[verifier::external_body]
fn anchor_from_der(certificate: &[u8]) -> (anchor: Option<TrustAnchor>)
    ensures
        anchor matches Some(a) ==> anchor_of(certificate@) == Some(a@),
        anchor is None ==> anchor_of(certificate@) is None,
{
    match webpki::TrustAnchor::try_from_cert_der(certificate) {
        Ok(a) => Some(TrustAnchor {
            subject: a.subject.to_vec(),
            spki: a.spki.to_vec(),
            name_constraints: a.name_constraints.map(|c| c.to_vec()),
        }),
        Err(_) => None,
    }
}

impl TrustAnchor {
    /// The trust anchor that a certificate in DER stands for, if it can be read.
    pub fn from_der(certificate: &[u8]) -> (anchor: Option<TrustAnchor>)
        ensures
            anchor matches Some(a) ==> anchor_of(certificate@) == Some(a@),
            anchor is None ==> anchor_of(certificate@) is None,
    {
        anchor_from_der(certificate)
    }
}

/// Whether two byte strings are the same.
pub fn same_bytes(a: &[u8], b: &[u8]) -> (same: bool)
    ensures
        same == (a@ == b@),
{
    if a.len() != b.len() {
        return false;
    }
    let mut i: usize = 0;
    while i < a.len()
        invariant
            a@.len() == b@.len(),
            i <= a@.len(),
            forall|k: int| 0 <= k < i ==> a@[k] == b@[k],
        decreases a@.len() - i,
    {
        if a[i] != b[i] {
            return false;
        }
        i += 1;
    }
    assert(a@ =~= b@);
    true
}

impl Certificate {
    /// What validating the certificate for `usage` at `time` against `anchors` gives.
    pub open spec fn verification(
        &self,
        usage: CertificateUsage,
        time: u64,
        anchors: Seq<TrustAnchor>,
    ) -> Result<(), CertificateError> {
        match chain_verdict(self@.der, usage.eku_spec(), time, anchors_view(anchors)) {
            ChainVerdict::Trusted => Ok(()),
            ChainVerdict::UnknownIssuer => Err(CertificateError::UnknownIssuer),
            ChainVerdict::UsageMismatch => Err(CertificateError::UsageMismatch),
            ChainVerdict::Invalid => Err(CertificateError::Invalid),
        }
    }

    /// The registration that the certificate carries, the absence of one, or the reason
    /// for which it cannot be told what the certificate is for.
    pub open spec fn registration_spec(&self) -> Result<Option<ReaderRegistration>, CertificateError> {
        match self@.certificate_type {
            Err(e) => Err(e),
            Ok(CertificateType::ReaderAuth(Some(registration))) => Ok(Some(registration)),
            Ok(_) => Ok(None),
        }
    }

    /// What a certificate is for, given the key purposes that it names, the value of its
    /// registration extension and the registration that was decoded from that value, if it
    /// could be decoded.
    pub open spec fn type_of(
        purposes: Option<Seq<Seq<u8>>>,
        extension: Option<Option<Seq<u8>>>,
        decoded: Option<ReaderRegistration>,
    ) -> Result<CertificateType, CertificateError> {
        match purposes {
            None => Err(CertificateError::Invalid),
            Some(purposes) => match CertificateUsage::of_key_purposes(purposes) {
                Err(e) => Err(e),
                Ok(CertificateUsage::Mdl) => Ok(CertificateType::Mdl),
                Ok(CertificateUsage::ReaderAuth) => match extension {
                    None => Err(CertificateError::MalformedExtension),
                    Some(None) => Ok(CertificateType::ReaderAuth(None)),
                    Some(Some(_)) => match decoded {
                        None => Err(CertificateError::MalformedExtension),
                        Some(registration) => Ok(CertificateType::ReaderAuth(Some(registration))),
                    },
                },
            },
        }
    }

    /// Whether a type is what a certificate with the given encoding says of itself where
    /// the value of its registration extension decodes as given.
    pub open spec fn decodes_to(
        der: Seq<u8>,
        certificate_type: Result<CertificateType, CertificateError>,
        decoded: Option<ReaderRegistration>,
    ) -> bool {
        certificate_type == Self::type_of(
            key_purposes_of(der),
            extension_of(der, OID_EXT_READER_AUTH@),
            decoded,
        )
    }

    /// Whether a type is what a certificate with the given encoding says of itself, however
    /// the value of its registration extension may decode.
    pub open spec fn holds(
        der: Seq<u8>,
        certificate_type: Result<CertificateType, CertificateError>,
    ) -> bool {
        exists|decoded: Option<ReaderRegistration>| #[trigger]
            Self::decodes_to(der, certificate_type, decoded)
    }

    /// Whether the type of the certificate is what its encoding holds. It is so of every
    /// certificate that [`Certificate::new`] makes, and there is no other way to make one.
    pub open spec fn is_consistent(&self) -> bool {
        Self::holds(self@.der, self@.certificate_type)
    }

    /// The registration of a consistent certificate is the one that was decoded from the
    /// registration extension of a certificate whose one key purpose is that of a reader.
    pub proof fn lemma_registration_is_decoded(&self, registration: ReaderRegistration)
        requires
            self.is_consistent(),
            self.registration_spec() == Ok::<Option<ReaderRegistration>, CertificateError>(
                Some(registration),
            ),
        ensures
            key_purposes_of(self@.der) is Some,
            CertificateUsage::of_key_purposes(key_purposes_of(self@.der).unwrap()) == Ok::<
                CertificateUsage,
                CertificateError,
            >(CertificateUsage::ReaderAuth),
            extension_of(self@.der, OID_EXT_READER_AUTH@) matches Some(Some(_)),
            Self::decodes_to(self@.der, self@.certificate_type, Some(registration)),
    {
        let decoded = choose|decoded: Option<ReaderRegistration>| #[trigger]
            Self::decodes_to(self@.der, self@.certificate_type, decoded);
        assert(decoded == Some(registration));
    }

    /// The value of the extension that holds the registration of a reader: none where the
    /// certificate has no such extension, nothing where it cannot be read.
    pub fn registration_extension(der: &[u8]) -> (value: Option<Option<Vec<u8>>>)
        ensures
            value matches Some(Some(v)) ==> extension_of(der@, OID_EXT_READER_AUTH@) == Some(
                Some(v@),
            ),
            value matches Some(None) ==> extension_of(der@, OID_EXT_READER_AUTH@) == Some(
                None::<Seq<u8>>,
            ),
            value is None ==> extension_of(der@, OID_EXT_READER_AUTH@) is None,
    {
        let oid: &'static [u8; 3] = &OID_EXT_READER_AUTH;
        extension_value(der, oid.as_slice())
    }

    /// The certificate with the given encoding. What it is for is read from its key
    /// purposes. `decoded` is the registration as decoded from the value of its registration
    /// extension, or nothing where that value could not be decoded; it counts only for a
    /// certificate of a reader that has the extension.
    pub fn new(der: Vec<u8>, decoded: Option<ReaderRegistration>) -> (certificate: Certificate)
        ensures
            certificate@.der == der@,
            certificate@.certificate_type == Self::type_of(
                key_purposes_of(der@),
                extension_of(der@, OID_EXT_READER_AUTH@),
                decoded,
            ),
            certificate.is_consistent(),
    {
        let ghost encoding = der@;
        let certificate_type = match other_key_purposes(der.as_slice()) {
            None => Err(CertificateError::Invalid),
            Some(purposes) => match CertificateUsage::from_key_purposes(&purposes) {
                Err(e) => Err(e),
                Ok(CertificateUsage::Mdl) => Ok(CertificateType::Mdl),
                Ok(CertificateUsage::ReaderAuth) => match Self::registration_extension(
                    der.as_slice(),
                ) {
                    None => Err(CertificateError::MalformedExtension),
                    Some(None) => Ok(CertificateType::ReaderAuth(None)),
                    Some(Some(_)) => match decoded {
                        None => Err(CertificateError::MalformedExtension),
                        Some(registration) => Ok(CertificateType::ReaderAuth(Some(registration))),
                    },
                },
            },
        };
        assert(Self::decodes_to(encoding, certificate_type, decoded));
        Certificate { der, certificate_type }
    }

    /// The DER encoding of the certificate.
    pub fn der(&self) -> (der: &[u8])
        ensures
            der@ == self@.der,
    {
        self.der.as_slice()
    }

    /// What the certificate is for, or why that cannot be told.
    pub fn certificate_type(&self) -> (certificate_type: &Result<
        CertificateType,
        CertificateError,
    >)
        ensures
            *certificate_type == self@.certificate_type,
    {
        &self.certificate_type
    }

    /// Whether this certificate is byte for byte the other one.
    pub fn same_as(&self, other: &Certificate) -> (same: bool)
        ensures
            same == (self@.der == other@.der),
    {
        same_bytes(self.der.as_slice(), other.der.as_slice())
    }

    /// Validates the certificate: it must chain to one of `anchors`, carry the extended key
    /// usage of `usage` and be valid at `time`, given in seconds since the epoch.
    pub fn verify(&self, usage: CertificateUsage, time: u64, anchors: &[TrustAnchor]) -> (checked:
        Result<(), CertificateError>)
        ensures
            checked == self.verification(usage, time, anchors@),
    {
        match verify_for_usage(self.der.as_slice(), usage.eku(), time, anchors) {
            ChainVerdict::Trusted => Ok(()),
            ChainVerdict::UnknownIssuer => Err(CertificateError::UnknownIssuer),
            ChainVerdict::UsageMismatch => Err(CertificateError::UsageMismatch),
            ChainVerdict::Invalid => Err(CertificateError::Invalid),
        }
    }

    /// The reader registration that the certificate carries. A certificate that is none of a
    /// reader, or one of a reader without a registration, carries none; where it cannot be
    /// told what the certificate is for, that is an error.
    pub fn registration(&self) -> (found: Result<Option<&ReaderRegistration>, CertificateError>)
        ensures
            found matches Ok(Some(r)) ==> self.registration_spec() == Ok::<
                Option<ReaderRegistration>,
                CertificateError,
            >(Some(*r)),
            found matches Ok(None) ==> self.registration_spec() == Ok::<
                Option<ReaderRegistration>,
                CertificateError,
            >(None),
            found matches Err(e) ==> self.registration_spec() == Err::<
                Option<ReaderRegistration>,
                CertificateError,
            >(e),
    {
        match &self.certificate_type {
            Err(e) => Err(*e),
            Ok(CertificateType::ReaderAuth(Some(registration))) => Ok(Some(registration)),
            Ok(_) => Ok(None),
        }
    }

    /// Validates a reader's certificate and gives the registration that it carries, if any.
    pub fn verify_reader(&self, time: u64, anchors: &[TrustAnchor]) -> (checked: Result<
        Option<&ReaderRegistration>,
        CertificateError,
    >)
        ensures
            checked.is_ok() <==> self.verification(CertificateUsage::ReaderAuth, time, anchors@)
                == Ok::<(), CertificateError>(()) && self.registration_spec().is_ok(),
            checked matches Ok(Some(r)) ==> self.registration_spec() == Ok::<
                Option<ReaderRegistration>,
                CertificateError,
            >(Some(*r)),
            checked matches Ok(None) ==> self.registration_spec() == Ok::<
                Option<ReaderRegistration>,
                CertificateError,
            >(None),
            checked matches Err(e) ==> (match self.verification(
                CertificateUsage::ReaderAuth,
                time,
                anchors@,
            ) {
                Err(chain) => e == chain,
                Ok(_) => self.registration_spec() == Err::<
                    Option<ReaderRegistration>,
                    CertificateError,
                >(e),
            }),
    {
        match self.verify(CertificateUsage::ReaderAuth, time, anchors) {
            Err(e) => Err(e),
            Ok(()) => self.registration(),
        }
    }
}

} // verus!
