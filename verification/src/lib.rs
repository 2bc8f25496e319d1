//! Structural introspection of X.509 certificates and verification and
//! decryption of PKCS#7 messages.
//!
//! The certificate side walks a strict DER grammar and reports which
//! time variant each validity bound uses and the outer tag of the
//! single attribute value each RDN of the issuer and subject must hold;
//! the walk is verified against a specification-level grammar.  The
//! PKCS#7 side classifies an input blob under a declared encoding,
//! builds a call-scoped trust store, and drives the cryptographic
//! engine fail-closed; every decision around the engine is verified,
//! and the engine calls stand behind trusted wrappers.

pub mod der;
pub mod errors;
pub mod name;
pub mod cert;
pub mod engine;
pub mod pkcs7;
