//! Failure taxonomy of the certificate walk: every failure names the field
//! at which the grammar was violated.

use vstd::prelude::*;

verus! {

/// The certificate field being read when a failure arose.
#[derive(Clone, Copy, Debug, PartialEq, Eq, Structural)]
pub enum Field {
    Certificate,
    TbsCertificate,
    Version,
    SerialNumber,
    SignatureAlgorithm,
    Issuer,
    Validity,
    Subject,
    SubjectPublicKeyInfo,
    SignatureValue,
}

/// Why a certificate failed to parse.
#[derive(Clone, Copy, Debug, PartialEq, Eq, Structural)]
pub enum ParseError {
    /// The DER grammar was violated while reading the named field.
    Grammar(Field),
    /// An RDN of the named name field does not hold exactly one
    /// attribute-value pair.
    MalformedName(Field),
}

} // verus!
