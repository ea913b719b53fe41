//! Holder-side verification and matching of attribute disclosure requests.
//!
//! A reader asks the holder of documents to disclose attributes. Before anything is shown,
//! the holder
//!
//! - checks who asks: either no part of the request is signed, or all parts are signed by
//!   one reader, whose certificate leads to a trust anchor and whose registration covers
//!   every attribute asked for ([`request`], on top of [`cose`] and [`certificate`]);
//! - finds out what it can answer with: for each document type asked for, the stored
//!   documents that hold every attribute asked for, or the attributes that are missing
//!   ([`matching`]).
//!
//! Attributes are compared as identifiers of document type, namespace and element
//! ([`identifiers`], [`holder`]). What is signed is rebuilt byte for byte from the values of
//! the request ([`cbor`]), never taken from what came with the signature.
//!
//! Certificates are parsed and validated by `x509-parser` and `webpki`, signatures are
//! checked by `webpki` after `p256` has put them into DER, and sets of identifiers are kept
//! in an `indexmap::IndexSet`. Each of these calls stands in one small function that says
//! what is relied on; everything around them is proved.

pub mod cbor;
pub mod certificate;
pub mod cose;
pub mod credential;
pub mod errors;
pub mod holder;
pub mod identifiers;
pub mod items_request;
pub mod keystore;
pub mod matching;
pub mod platform;
pub mod reader_registration;
pub mod request;
pub mod server;
pub mod stored;
