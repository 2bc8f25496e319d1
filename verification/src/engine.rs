//! The cryptographic engine behind the verifier and decryptor.  Every
//! item here is trusted: it declares an engine type opaquely or wraps
//! one engine call, and states only what the engine's own interface
//! shows.  All decisions around these calls are made by verified code.

use vstd::prelude::*;

verus! {

#[verifier::external_type_specification]
#[verifier::external_body]
pub struct ExPkcs7(openssl::pkcs7::Pkcs7);

#[verifier::external_type_specification]
#[verifier::external_body]
pub struct ExX509(openssl::x509::X509);

#[verifier::external_type_specification]
#[verifier::external_body]
pub struct ExX509Store(openssl::x509::store::X509Store);

#[verifier::external_type_specification]
#[verifier::external_body]
pub struct ExX509StoreBuilder(openssl::x509::store::X509StoreBuilder);

#[verifier::external_type_specification]
#[verifier::external_body]
pub struct ExErrorStack(openssl::error::ErrorStack);

#[verifier::external_type_specification]
#[verifier::external_body]
#[verifier::reject_recursive_types(T)]
pub struct ExPKey<T>(openssl::pkey::PKey<T>);

#[verifier::external_type_specification]
#[verifier::external_body]
pub struct ExPrivate(openssl::pkey::Private);

/// Whether the engine's DER decoder accepts these bytes as a PKCS#7
/// structure: a function of the bytes alone.
pub uninterp spec fn pkcs7_der_parses(data: Seq<u8>) -> bool;

/// Whether the engine's PEM decoder accepts these bytes as a PKCS#7
/// structure: a function of the bytes alone.
pub uninterp spec fn pkcs7_pem_parses(data: Seq<u8>) -> bool;

/// Whether the engine's S/MIME reader accepts these bytes as an
/// envelope holding a PKCS#7 structure: a function of the bytes alone.
pub uninterp spec fn pkcs7_smime_parses(data: Seq<u8>) -> bool;

/// Whether the engine's DER decoder accepts these bytes as a
/// certificate: a function of the bytes alone.
pub uninterp spec fn x509_der_parses(data: Seq<u8>) -> bool;

/// Whether the engine's DER decoder accepts these bytes as an
/// unencrypted private key: a function of the bytes alone.
pub uninterp spec fn private_key_der_parses(data: Seq<u8>) -> bool;

/// Relies on openssl's Pkcs7::from_der: decode one DER PKCS#7
/// structure, deterministically in the bytes.
#[verifier::external_body]
pub(crate) fn pkcs7_from_der(data: &[u8]) -> (r: Result<
    openssl::pkcs7::Pkcs7,
    openssl::error::ErrorStack,
>)
    ensures
        r is Ok <==> pkcs7_der_parses(data@),
{
    openssl::pkcs7::Pkcs7::from_der(data)
}

/// Relies on openssl's Pkcs7::from_pem: strip PEM armor and decode the
/// embedded DER PKCS#7 structure, deterministically in the bytes.  The
/// engine's memory BIO refuses (by abort) a buffer beyond the signed
/// 32-bit range, hence the bound.
#[verifier::external_body]
pub(crate) fn pkcs7_from_pem(data: &[u8]) -> (r: Result<
    openssl::pkcs7::Pkcs7,
    openssl::error::ErrorStack,
>)
    requires
        data@.len() <= 0x7fff_ffff,
    ensures
        r is Ok <==> pkcs7_pem_parses(data@),
{
    openssl::pkcs7::Pkcs7::from_pem(data)
}

/// Relies on openssl's Pkcs7::from_smime: parse an S/MIME envelope into
/// the embedded PKCS#7 structure, together with the cleartext body when
/// the envelope carries one detached; deterministic in the bytes.  The
/// engine's memory BIO refuses (by abort) a buffer beyond the signed
/// 32-bit range, hence the bound.
#[verifier::external_body]
pub(crate) fn pkcs7_from_smime(data: &[u8]) -> (r: Result<
    (openssl::pkcs7::Pkcs7, Option<Vec<u8>>),
    openssl::error::ErrorStack,
>)
    requires
        data@.len() <= 0x7fff_ffff,
    ensures
        r is Ok <==> pkcs7_smime_parses(data@),
{
    openssl::pkcs7::Pkcs7::from_smime(data)
}

/// Relies on openssl's Pkcs7Ref::to_der: serialize the structure back
/// to DER.
#[verifier::external_body]
pub(crate) fn pkcs7_to_der(p7: &openssl::pkcs7::Pkcs7) -> Result<
    Vec<u8>,
    openssl::error::ErrorStack,
> {
    p7.to_der()
}

/// Relies on openssl's X509::from_der: decode one DER certificate,
/// deterministically in the bytes.
#[verifier::external_body]
pub(crate) fn x509_from_der(data: &[u8]) -> (r: Result<
    openssl::x509::X509,
    openssl::error::ErrorStack,
>)
    ensures
        r is Ok <==> x509_der_parses(data@),
{
    openssl::x509::X509::from_der(data)
}

/// Relies on openssl's X509StoreBuilder::new: an empty store under
/// construction, with no inherited trust anchors.
#[verifier::external_body]
pub(crate) fn store_builder_new() -> Result<
    openssl::x509::store::X509StoreBuilder,
    openssl::error::ErrorStack,
> {
    openssl::x509::store::X509StoreBuilder::new()
}

/// Relies on openssl's X509StoreBuilderRef::add_cert: add one trusted
/// certificate to the store under construction.
#[verifier::external_body]
pub(crate) fn store_builder_add_cert(
    builder: &mut openssl::x509::store::X509StoreBuilder,
    cert: openssl::x509::X509,
) -> Result<(), openssl::error::ErrorStack> {
    builder.add_cert(cert)
}

/// Relies on openssl's X509StoreBuilder::build: seal the store.
#[verifier::external_body]
pub(crate) fn store_builder_build(
    builder: openssl::x509::store::X509StoreBuilder,
) -> openssl::x509::store::X509Store {
    builder.build()
}

/// Relies on openssl's Pkcs7Ref::verify, with Stack::new for the empty
/// extra-certificate stack: check the signed structure against the
/// store, reading the signed content from `content` when the structure
/// does not carry its own; `text` asks for MIME text canonicalization
/// and `no_chain` confines the check to the signer certificate itself.
/// The engine's memory BIO refuses (by abort) a content buffer beyond
/// the signed 32-bit range, hence the bound.
#[verifier::external_body]
pub(crate) fn pkcs7_verify_engine(
    p7: &openssl::pkcs7::Pkcs7,
    store: &openssl::x509::store::X509Store,
    content: Option<&[u8]>,
    text: bool,
    no_chain: bool,
) -> Result<(), openssl::error::ErrorStack>
    requires
        match content {
            Some(c) => c@.len() <= 0x7fff_ffff,
            None => true,
        },
{
    let certs = openssl::stack::Stack::new()?;
    let mut flags = openssl::pkcs7::Pkcs7Flags::empty();
    if text {
        flags |= openssl::pkcs7::Pkcs7Flags::TEXT;
    }
    if no_chain {
        flags |= openssl::pkcs7::Pkcs7Flags::NOCHAIN;
    }
    p7.verify(&certs, store, content, None, flags)
}

/// Relies on openssl's PKey::private_key_from_der: decode one
/// unencrypted DER (PKCS#8 or type-specific) private key,
/// deterministically in the bytes.
#[verifier::external_body]
pub(crate) fn pkey_from_der(data: &[u8]) -> (r: Result<
    openssl::pkey::PKey<openssl::pkey::Private>,
    openssl::error::ErrorStack,
>)
    ensures
        r is Ok <==> private_key_der_parses(data@),
{
    openssl::pkey::PKey::private_key_from_der(data)
}

/// Relies on openssl's Error::reason: whether the failure names the
/// engine's no-recipient-matches-certificate condition.
#[verifier::external_body]
pub(crate) fn error_is_no_recipient_match(err: &openssl::error::ErrorStack) -> bool {
    err.errors().iter().any(|e| e.reason() == Some("no recipient matches certificate"))
}

/// Relies on openssl's Pkcs7Ref::decrypt: match the recipient
/// certificate against the enveloped structure's recipient entries,
/// unwrap the content key with the private key, and return the
/// recovered plaintext; `text` strips the MIME text canonicalization.
#[verifier::external_body]
pub(crate) fn pkcs7_decrypt_engine(
    p7: &openssl::pkcs7::Pkcs7,
    key: &openssl::pkey::PKey<openssl::pkey::Private>,
    cert: &openssl::x509::X509,
    text: bool,
) -> Result<Vec<u8>, openssl::error::ErrorStack> {
    let mut flags = openssl::pkcs7::Pkcs7Flags::empty();
    if text {
        flags |= openssl::pkcs7::Pkcs7Flags::TEXT;
    }
    p7.decrypt(key, cert, flags)
}

} // verus!
