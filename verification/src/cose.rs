//! Signature envelopes whose payload is detached: the signed bytes are rebuilt from the
//! values that the protocol gives, never taken from the envelope.

use crate::cbor::{
    byte_string, head, text_string, write_byte_string, write_head, write_text_string, MAJOR_ARRAY,
};
use crate::certificate::{Certificate, CertificateError, CertificateUsage, TrustAnchor};
use vstd::prelude::*;

verus! {

/// A signature envelope: the protected header as it was signed, the payload as it was
/// received, the signature, and the certificate of the signer.
#[derive(Debug, Clone, PartialEq, Eq)]
pub struct Cose {
    /// The encoded protected header.
    pub protected_header: Vec<u8>,
    /// The payload that came with the envelope. It plays no part in verification.
    pub payload: Option<Vec<u8>>,
    /// The signature: the two scalars, each of 32 bytes, one after the other.
    pub signature: Vec<u8>,
    /// The certificate of the signer, if the envelope names one.
    pub certificate: Option<Certificate>,
}

/// Why a signature envelope is not accepted.
#[derive(Debug, Clone, Copy, PartialEq, Eq, Structural)]
pub enum CoseError {
    /// The envelope names no certificate of the signer.
    MissingCertificate,
    /// The certificate of the signer is not accepted.
    Certificate(CertificateError),
    /// The signature is not the signer's signature over the payload.
    SignatureVerificationFailed,
}

/// The bytes that the signature of an envelope is made over.
pub open spec fn sig_structure(protected_header: Seq<u8>, payload: Seq<u8>) -> Seq<u8> {
    head(MAJOR_ARRAY, 4) + text_string("Signature1"@) + byte_string(protected_header)
        + byte_string(Seq::empty()) + byte_string(payload)
}

/// The ASN.1 DER form that `p256` gives to a signature of two 32-byte scalars, or nothing
/// where the bytes are no such signature.
pub uninterp spec fn der_signature(signature: Seq<u8>) -> Option<Seq<u8>>;

/// Whether `webpki` accepts an ECDSA P-256 SHA-256 signature in DER over a message, under the
/// public key of a certificate in DER.
pub uninterp spec fn signature_valid(certificate: Seq<u8>, message: Seq<u8>, signature: Seq<u8>) -> bool;

/// `p256::ecdsa::Signature::to_der` on the signature that `Signature::from_slice` reads: the
/// DER form named above.
#[verifier::external_body]
fn signature_to_der(signature: &[u8]) -> (der: Option<Vec<u8>>)
    ensures
        der matches Some(d) ==> der_signature(signature@) == Some(d@),
        der is None ==> der_signature(signature@) is None,
{
    match p256::ecdsa::Signature::from_slice(signature) {
        Ok(parsed) => Some(parsed.to_der().as_bytes().to_vec()),
        Err(_) => None,
    }
}

/// `webpki::EndEntityCert::verify_signature` with `ECDSA_P256_SHA256`, on the certificate
/// that `webpki::EndEntityCert::try_from` parses: whether the signature is accepted. A
/// certificate that cannot be parsed accepts none.
#[verifier::external_body]
fn verify_signature(certificate: &[u8], message: &[u8], signature: &[u8]) -> (valid: bool)
    ensures
        valid == signature_valid(certificate@, message@, signature@),
{
    match webpki::EndEntityCert::try_from(certificate) {
        Ok(cert) => cert.verify_signature(&webpki::ECDSA_P256_SHA256, message, signature).is_ok(),
        Err(_) => false,
    }
}

/// The bytes that the signature of an envelope is made over.
pub fn sig_structure_bytes(protected_header: &[u8], payload: &[u8]) -> (bytes: Vec<u8>)
    ensures
        bytes@ == sig_structure(protected_header@, payload@),
{
    let mut out: Vec<u8> = Vec::new();
    let empty: Vec<u8> = Vec::new();
    write_head(&mut out, MAJOR_ARRAY, 4);
    write_text_string(&mut out, "Signature1");
    write_byte_string(&mut out, protected_header);
    write_byte_string(&mut out, empty.as_slice());
    write_byte_string(&mut out, payload);
    assert(out@ =~= sig_structure(protected_header@, payload@));
    out
}

/// Whether `signature` is the signature of the holder of `certificate` over `payload`, made
/// with the given protected header.
pub open spec fn signed_by(
    certificate: Seq<u8>,
    protected_header: Seq<u8>,
    payload: Seq<u8>,
    signature: Seq<u8>,
) -> bool {
    match der_signature(signature) {
        Some(der) => signature_valid(certificate, sig_structure(protected_header, payload), der),
        None => false,
    }
}

impl Cose {
    /// What verifying the envelope over `payload` gives: the first of the checks that fails,
    /// in the order certificate present, certificate accepted, signature valid.
    pub open spec fn verification(
        &self,
        payload: Seq<u8>,
        usage: CertificateUsage,
        time: u64,
        anchors: Seq<TrustAnchor>,
    ) -> Result<Certificate, CoseError> {
        match self.certificate {
            None => Err(CoseError::MissingCertificate),
            Some(certificate) => match certificate.verification(usage, time, anchors) {
                Err(e) => Err(CoseError::Certificate(e)),
                Ok(_) => if signed_by(
                    certificate@.der,
                    self.protected_header@,
                    payload,
                    self.signature@,
                ) {
                    Ok(certificate)
                } else {
                    Err(CoseError::SignatureVerificationFailed)
                },
            },
        }
    }

    /// Whether the signature of the envelope is the signature of the holder of `certificate`
    /// over `payload`.
    pub fn verify_signature(&self, payload: &[u8], certificate: &Certificate) -> (valid: bool)
        ensures
            valid == signed_by(certificate@.der, self.protected_header@, payload@, self.signature@),
    {
        match signature_to_der(self.signature.as_slice()) {
            None => false,
            Some(der) => {
                let message = sig_structure_bytes(self.protected_header.as_slice(), payload);
                verify_signature(certificate.der(), message.as_slice(), der.as_slice())
            },
        }
    }

    /// Verifies the envelope over `payload`, which stands in for whatever payload the envelope
    /// came with: the signer's certificate must be accepted for `usage` at `time` by `anchors`,
    /// and the signature must be the signer's over the rebuilt bytes. Gives the signer's
    /// certificate.
    pub fn verify_against_trust_anchors<'a>(
        &'a self,
        payload: &[u8],
        usage: CertificateUsage,
        time: u64,
        anchors: &[TrustAnchor],
    ) -> (checked: Result<&'a Certificate, CoseError>)
        ensures
            checked matches Ok(c) ==> self.verification(payload@, usage, time, anchors@) == Ok::<
                Certificate,
                CoseError,
            >(*c) && self.certificate == Some(*c),
            checked matches Err(e) ==> self.verification(payload@, usage, time, anchors@) == Err::<
                Certificate,
                CoseError,
            >(e),
    {
        match &self.certificate {
            None => Err(CoseError::MissingCertificate),
            Some(certificate) => {
                match certificate.verify(usage, time, anchors) {
                    Err(e) => Err(CoseError::Certificate(e)),
                    Ok(()) => {
                        if self.verify_signature(payload, certificate) {
                            Ok(certificate)
                        } else {
                            Err(CoseError::SignatureVerificationFailed)
                        }
                    },
                }
            },
        }
    }
}

/// The payload that an envelope came with has no part in its verification: two envelopes
/// that differ in nothing else verify alike over any payload that is rebuilt for them.
pub proof fn lemma_own_payload_is_not_trusted(
    one: Cose,
    other: Cose,
    payload: Seq<u8>,
    usage: CertificateUsage,
    time: u64,
    anchors: Seq<TrustAnchor>,
)
    requires
        one.protected_header == other.protected_header,
        one.signature == other.signature,
        one.certificate == other.certificate,
    ensures
        one.verification(payload, usage, time, anchors) == other.verification(
            payload,
            usage,
            time,
            anchors,
        ),
{
}

} // verus!
