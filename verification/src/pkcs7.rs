//! The PKCS#7 paths: classify an input blob by its declared encoding,
//! build a call-scoped trust store, and drive the engine's verify and
//! decrypt operations fail-closed.  Every decision — which decoder runs,
//! how options become engine flags, which content is handed to the
//! engine, when an option is rejected — is verified here; the engine
//! calls themselves stand behind the trusted items of `engine`.

use vstd::prelude::*;

use crate::engine::{
    error_is_no_recipient_match, pkcs7_decrypt_engine, pkcs7_der_parses, pkcs7_from_der,
    pkcs7_from_pem, pkcs7_from_smime, pkcs7_pem_parses, pkcs7_smime_parses, pkcs7_to_der,
    pkcs7_verify_engine, pkey_from_der, private_key_der_parses, store_builder_add_cert,
    store_builder_build, store_builder_new, x509_der_parses, x509_from_der,
};

verus! {

/// The three accepted encodings of a PKCS#7 input blob.  The caller
/// declares one; nothing is inferred from the content.
#[derive(Clone, Copy, Debug, PartialEq, Eq, Structural)]
pub enum Pkcs7Encoding {
    Der,
    Pem,
    Smime,
}

/// The options a verification or decryption call may carry.
#[derive(Clone, Copy, Debug, PartialEq, Eq, Structural)]
pub enum VerificationOption {
    /// MIME text canonicalization before signature hashing, or
    /// canonicalization stripping on decrypted content.
    Text,
    /// Check only the signer certificate against the store, skipping
    /// chain-path construction.  Meaningless for decryption.
    NoChain,
}

/// The engine-level flag set an option list translates to.
#[derive(Clone, Copy, Debug, PartialEq, Eq, Structural)]
pub struct EngineFlags {
    pub text: bool,
    pub no_chain: bool,
}

/// A parsed PKCS#7 message: the engine's structure, together with the
/// detached cleartext body when an S/MIME envelope carried one.
pub struct Pkcs7Message {
    p7: openssl::pkcs7::Pkcs7,
    detached: Option<Vec<u8>>,
}

/// A classification failure: the named decoder rejected the blob.
#[derive(Clone, Copy, Debug, PartialEq, Eq, Structural)]
pub enum EncodingError {
    Malformed(Pkcs7Encoding),
}

/// A trust-store construction failure.
#[derive(Clone, Copy, Debug, PartialEq, Eq, Structural)]
pub enum TrustStoreError {
    /// A supplied certificate's DER was rejected.
    CertificateRejected,
    /// The engine could not create or extend the store.
    EngineFailure,
}

/// A verification failure.  Verification is fail-closed: there is no
/// partial success.
#[derive(Clone, Copy, Debug, PartialEq, Eq, Structural)]
pub enum VerificationError {
    /// The caller supplied detached content and the message also
    /// carried its own detached body: neither is authoritative.
    AmbiguousContent,
    /// The engine rejected the signature, the signer, or the structure.
    Rejected,
}

/// A decryption failure.  No partial plaintext is ever returned.
#[derive(Clone, Copy, Debug, PartialEq, Eq, Structural)]
pub enum DecryptionError {
    /// The chain-skipping option has no meaning for decryption and is
    /// rejected as a caller error.
    OptionNotAllowed,
    /// The recipient certificate's DER was rejected.
    BadCertificate,
    /// The private key's DER was rejected.
    BadPrivateKey,
    /// The message's recipient entries name no recipient matching the
    /// supplied certificate.
    RecipientNotFound,
    /// Unwrap failure, malformed ciphertext, or any other engine
    /// rejection.
    Rejected,
}

/// The recipient identity a decryption call uses: an unencrypted DER
/// private key and the matching certificate's DER.
pub struct RecipientCredential {
    pub private_key_der: Vec<u8>,
    pub certificate_der: Vec<u8>,
}

/// A stage-tagged failure of a whole verification call.
#[derive(Clone, Copy, Debug, PartialEq, Eq, Structural)]
pub enum Pkcs7VerifyError {
    Encoding(EncodingError),
    Store(TrustStoreError),
    Verification(VerificationError),
}

/// A stage-tagged failure of a whole decryption call.
#[derive(Clone, Copy, Debug, PartialEq, Eq, Structural)]
pub enum Pkcs7DecryptError {
    Encoding(EncodingError),
    Decryption(DecryptionError),
}

impl Pkcs7Message {
    /// The detached cleartext body, as the model sees it.
    pub closed spec fn spec_detached(&self) -> Option<Seq<u8>> {
        match self.detached {
            Some(v) => Some(v@),
            None => None,
        }
    }

    /// The detached cleartext body the envelope carried, if any.
    pub fn detached_content(&self) -> (r: &Option<Vec<u8>>)
        ensures
            match r {
                Some(v) => self.spec_detached() == Some(v@),
                None => self.spec_detached() is None,
            },
    {
        &self.detached
    }

    /// The message re-serialized to DER, when the engine can.
    pub fn to_der_bytes(&self) -> Option<Vec<u8>> {
        match pkcs7_to_der(&self.p7) {
            Ok(v) => Some(v),
            Err(_) => None,
        }
    }
}

/// Whether the engine's decoder for the declared encoding accepts the
/// bytes.
pub open spec fn spec_decodes(encoding: Pkcs7Encoding, data: Seq<u8>) -> bool {
    match encoding {
        Pkcs7Encoding::Der => pkcs7_der_parses(data),
        Pkcs7Encoding::Pem => pkcs7_pem_parses(data),
        Pkcs7Encoding::Smime => pkcs7_smime_parses(data),
    }
}

/// Decode `data` as a PKCS#7 message under the declared encoding: DER
/// directly, PEM by stripping armor, S/MIME by opening the envelope.
/// The call succeeds exactly when that decoder accepts the bytes; every
/// decoder failure is reported as `Malformed` naming that encoding.
/// Only the S/MIME path can yield a detached cleartext body.  The
/// engine holds PEM and S/MIME input in a signed-32-bit buffer, hence
/// the bound.
pub fn resolve(encoding: Pkcs7Encoding, data: &[u8]) -> (r: Result<Pkcs7Message, EncodingError>)
    requires
        encoding != Pkcs7Encoding::Der ==> data@.len() <= 0x7fff_ffff,
    ensures
        r is Ok <==> spec_decodes(encoding, data@),
        match r {
            Ok(m) => encoding != Pkcs7Encoding::Smime ==> m.spec_detached() is None,
            Err(er) => er == EncodingError::Malformed(encoding),
        },
{
    match encoding {
        Pkcs7Encoding::Der => match pkcs7_from_der(data) {
            Ok(p7) => Ok(Pkcs7Message { p7, detached: None }),
            Err(_) => Err(EncodingError::Malformed(encoding)),
        },
        Pkcs7Encoding::Pem => match pkcs7_from_pem(data) {
            Ok(p7) => Ok(Pkcs7Message { p7, detached: None }),
            Err(_) => Err(EncodingError::Malformed(encoding)),
        },
        Pkcs7Encoding::Smime => match pkcs7_from_smime(data) {
            Ok(pair) => Ok(Pkcs7Message { p7: pair.0, detached: pair.1 }),
            Err(_) => Err(EncodingError::Malformed(encoding)),
        },
    }
}

/// Translate an option list to the engine flag set: a flag is raised
/// exactly when the option occurs in the list.  Duplicates are
/// harmless; there is nothing else an option list can hold.
pub fn translate_options(options: &Vec<VerificationOption>) -> (r: EngineFlags)
    ensures
        r.text == options@.contains(VerificationOption::Text),
        r.no_chain == options@.contains(VerificationOption::NoChain),
{
    let mut text = false;
    let mut no_chain = false;
    let mut k: usize = 0;
    while k < options.len()
        invariant
            k <= options@.len(),
            text == options@.take(k as int).contains(VerificationOption::Text),
            no_chain == options@.take(k as int).contains(VerificationOption::NoChain),
        decreases options@.len() - k,
    {
        proof {
            let s0 = options@.take(k as int);
            let s1 = options@.take(k as int + 1);
            assert(s1 =~= s0.push(options@[k as int]));
            assert forall|x: VerificationOption| s1.contains(x) implies (s0.contains(x)
                || options@[k as int] == x) by {
                let j = choose|j: int| 0 <= j < s1.len() && s1[j] == x;
                if j < s0.len() {
                    assert(s0[j] == x);
                }
            }
            assert forall|x: VerificationOption| s0.contains(x) implies s1.contains(x) by {
                let j = choose|j: int| 0 <= j < s0.len() && s0[j] == x;
                assert(s1[j] == x);
            }
            assert(s1[k as int] == options@[k as int]);
            assert(s1.contains(options@[k as int]));
        }
        match options[k] {
            VerificationOption::Text => {
                text = true;
            },
            VerificationOption::NoChain => {
                no_chain = true;
            },
        }
        k = k + 1;
    }
    proof {
        assert(options@.take(options@.len() as int) =~= options@);
    }
    EngineFlags { text, no_chain }
}

/// A call-scoped trust store: sealed over exactly the certificates the
/// caller supplied, never persisted, with no implicit system roots.
pub struct TrustStore {
    store: openssl::x509::store::X509Store,
    certs: Ghost<Seq<Seq<u8>>>,
}

impl TrustStore {
    /// The DER of every certificate the store was sealed over, in the
    /// order supplied.
    pub closed spec fn spec_certs(&self) -> Seq<Seq<u8>> {
        self.certs@
    }
}

/// The DER byte sequences of a list of certificates, in order.
pub open spec fn ders_view(certs: Seq<Vec<u8>>) -> Seq<Seq<u8>> {
    certs.map_values(|c: Vec<u8>| c@)
}

/// Build a fresh trust store from the supplied certificates' DER, in
/// order.  The build fails atomically on the first certificate the
/// engine rejects — `CertificateRejected` arises exactly from a first
/// undecodable certificate — and no partial store is ever returned;
/// `EngineFailure` covers only the engine's own store-creation
/// failures.
pub fn build_trust_store(certs: &Vec<Vec<u8>>) -> (r: Result<TrustStore, TrustStoreError>)
    ensures
        match r {
            Ok(st) => {
                &&& st.spec_certs() == ders_view(certs@)
                &&& forall|j: int|
                    0 <= j < certs@.len() ==> #[trigger] x509_der_parses(certs@[j]@)
            },
            Err(er) => er == TrustStoreError::CertificateRejected ==> exists|j: int|
                {
                    &&& 0 <= j < certs@.len()
                    &&& !(#[trigger] x509_der_parses(certs@[j]@))
                    &&& forall|i: int| 0 <= i < j ==> #[trigger] x509_der_parses(certs@[i]@)
                },
        },
{
    let mut builder = match store_builder_new() {
        Ok(b) => b,
        Err(_) => {
            return Err(TrustStoreError::EngineFailure);
        },
    };
    let ghost mut added: Seq<Seq<u8>> = Seq::empty();
    let mut k: usize = 0;
    while k < certs.len()
        invariant
            k <= certs@.len(),
            added =~= ders_view(certs@).take(k as int),
            forall|i: int| 0 <= i < k ==> #[trigger] x509_der_parses(certs@[i]@),
        decreases certs@.len() - k,
    {
        let cert = match x509_from_der(certs[k].as_slice()) {
            Ok(c) => c,
            Err(_) => {
                proof {
                    assert(!x509_der_parses(certs@[k as int]@));
                }
                return Err(TrustStoreError::CertificateRejected);
            },
        };
        match store_builder_add_cert(&mut builder, cert) {
            Ok(_) => {},
            Err(_) => {
                return Err(TrustStoreError::EngineFailure);
            },
        }
        proof {
            added = added.push(certs@[k as int]@);
            assert(added =~= ders_view(certs@).take(k as int + 1));
        }
        k = k + 1;
    }
    proof {
        assert(ders_view(certs@).take(certs@.len() as int) =~= ders_view(certs@));
    }
    Ok(TrustStore { store: store_builder_build(builder), certs: Ghost(added) })
}

/// Choose the signed content handed to the engine: the caller's
/// detached bytes when only they stand, else the body the envelope
/// carried, else none — the message is then assumed to carry its own
/// content.  When both the caller's bytes and an envelope body stand,
/// neither is authoritative: `AmbiguousContent`, exactly then.
pub fn choose_content<'a>(detached: Option<&'a [u8]>, embedded: &'a Option<Vec<u8>>) -> (r: Result<
    Option<&'a [u8]>,
    VerificationError,
>)
    ensures
        (detached is Some && embedded is Some) <==> r is Err,
        match r {
            Ok(c) => match detached {
                Some(d) => c matches Some(cc) && cc@ == d@,
                None => match embedded {
                    Some(v) => c matches Some(cc) && cc@ == v@,
                    None => c is None,
                },
            },
            Err(er) => er == VerificationError::AmbiguousContent,
        },
{
    match detached {
        Some(d) => {
            if embedded.is_some() {
                Err(VerificationError::AmbiguousContent)
            } else {
                Ok(Some(d))
            }
        },
        None => match embedded {
            Some(v) => Ok(Some(v.as_slice())),
            None => Ok(None),
        },
    }
}

/// Verify a signed message against the trust store under the given
/// options, fail-closed.  The signed content is chosen by
/// `choose_content`; when both the caller's bytes and an envelope body
/// stand, the call fails with `AmbiguousContent` — exactly then.
/// Content beyond the engine's signed-32-bit buffer bound is refused
/// as `Rejected` without reaching the engine.  Success is a bare
/// marker; any engine rejection is `Rejected`.
pub fn verify(
    msg: &Pkcs7Message,
    detached: Option<&[u8]>,
    store: &TrustStore,
    options: &Vec<VerificationOption>,
) -> (r: Result<(), VerificationError>)
    ensures
        (detached is Some && msg.spec_detached() is Some) <==> r == Err::<(), VerificationError>(
            VerificationError::AmbiguousContent,
        ),
{
    let content: Option<&[u8]> = match choose_content(detached, &msg.detached) {
        Ok(c) => c,
        Err(er) => {
            return Err(er);
        },
    };
    if let Some(c) = content {
        if c.len() > 0x7fff_ffff {
            return Err(VerificationError::Rejected);
        }
    }
    let flags = translate_options(options);
    match pkcs7_verify_engine(&msg.p7, &store.store, content, flags.text, flags.no_chain) {
        Ok(_) => Ok(()),
        Err(_) => Err(VerificationError::Rejected),
    }
}

/// Decrypt an enveloped message with the recipient's key and
/// certificate.  The chain-skipping option is rejected as a caller
/// error — exactly when it occurs in the list; only the text option is
/// meaningful here.  `BadCertificate` and `BadPrivateKey` arise exactly
/// from undecodable credential bytes; an engine failure naming the
/// no-matching-recipient condition is `RecipientNotFound`, any other is
/// `Rejected`, and no partial plaintext is ever returned.
pub fn decrypt(
    msg: &Pkcs7Message,
    recipient: &RecipientCredential,
    options: &Vec<VerificationOption>,
) -> (r: Result<Vec<u8>, DecryptionError>)
    ensures
        options@.contains(VerificationOption::NoChain) <==> r == Err::<Vec<u8>, DecryptionError>(
            DecryptionError::OptionNotAllowed,
        ),
        r == Err::<Vec<u8>, DecryptionError>(DecryptionError::BadCertificate) <==> (!options@.contains(
            VerificationOption::NoChain,
        ) && !x509_der_parses(recipient.certificate_der@)),
        r == Err::<Vec<u8>, DecryptionError>(DecryptionError::BadPrivateKey) <==> (!options@.contains(
            VerificationOption::NoChain,
        ) && x509_der_parses(recipient.certificate_der@) && !private_key_der_parses(
            recipient.private_key_der@,
        )),
{
    let flags = translate_options(options);
    if flags.no_chain {
        return Err(DecryptionError::OptionNotAllowed);
    }
    let cert = match x509_from_der(recipient.certificate_der.as_slice()) {
        Ok(c) => c,
        Err(_) => {
            return Err(DecryptionError::BadCertificate);
        },
    };
    let key = match pkey_from_der(recipient.private_key_der.as_slice()) {
        Ok(p) => p,
        Err(_) => {
            return Err(DecryptionError::BadPrivateKey);
        },
    };
    match pkcs7_decrypt_engine(&msg.p7, &key, &cert, flags.text) {
        Ok(plaintext) => Ok(plaintext),
        Err(er) => {
            if error_is_no_recipient_match(&er) {
                Err(DecryptionError::RecipientNotFound)
            } else {
                Err(DecryptionError::Rejected)
            }
        },
    }
}

/// One whole verification call: classify the signature blob under the
/// declared encoding, build a fresh store from the trusted
/// certificates, and verify.  Each failure names its stage; an
/// encoding failure arises exactly when the declared decoder rejects
/// the blob, and names that encoding; outside the S/MIME path no
/// content ambiguity can arise.  The engine holds PEM and S/MIME input
/// in a signed-32-bit buffer, hence the bound.
pub fn pkcs7_verify(
    encoding: Pkcs7Encoding,
    sig: &[u8],
    msg: Option<&[u8]>,
    certs: &Vec<Vec<u8>>,
    options: &Vec<VerificationOption>,
) -> (r: Result<(), Pkcs7VerifyError>)
    requires
        encoding != Pkcs7Encoding::Der ==> sig@.len() <= 0x7fff_ffff,
    ensures
        r == Err::<(), Pkcs7VerifyError>(
            Pkcs7VerifyError::Encoding(EncodingError::Malformed(encoding)),
        ) <==> !spec_decodes(encoding, sig@),
        match r {
            Ok(_) => true,
            Err(er) => match er {
                Pkcs7VerifyError::Encoding(ee) => ee == EncodingError::Malformed(encoding),
                _ => true,
            },
        },
        encoding != Pkcs7Encoding::Smime ==> r != Err::<(), Pkcs7VerifyError>(
            Pkcs7VerifyError::Verification(VerificationError::AmbiguousContent),
        ),
{
    let message = match resolve(encoding, sig) {
        Ok(m) => m,
        Err(er) => {
            return Err(Pkcs7VerifyError::Encoding(er));
        },
    };
    let store = match build_trust_store(certs) {
        Ok(s) => s,
        Err(er) => {
            return Err(Pkcs7VerifyError::Store(er));
        },
    };
    match verify(&message, msg, &store, options) {
        Ok(_) => Ok(()),
        Err(er) => Err(Pkcs7VerifyError::Verification(er)),
    }
}

/// One whole decryption call: classify the message blob under the
/// declared encoding and decrypt with the recipient credential.  Each
/// failure names its stage: an encoding failure arises exactly when
/// the declared decoder rejects the blob; past decoding, the
/// chain-skipping option, an undecodable certificate and an
/// undecodable key each yield their variant exactly.  The engine holds
/// PEM and S/MIME input in a signed-32-bit buffer, hence the bound.
pub fn pkcs7_decrypt(
    encoding: Pkcs7Encoding,
    data: &[u8],
    recipient: &RecipientCredential,
    options: &Vec<VerificationOption>,
) -> (r: Result<Vec<u8>, Pkcs7DecryptError>)
    requires
        encoding != Pkcs7Encoding::Der ==> data@.len() <= 0x7fff_ffff,
    ensures
        r == Err::<Vec<u8>, Pkcs7DecryptError>(
            Pkcs7DecryptError::Encoding(EncodingError::Malformed(encoding)),
        ) <==> !spec_decodes(encoding, data@),
        match r {
            Ok(_) => !options@.contains(VerificationOption::NoChain),
            Err(er) => match er {
                Pkcs7DecryptError::Encoding(ee) => ee == EncodingError::Malformed(encoding),
                Pkcs7DecryptError::Decryption(de) => de == DecryptionError::OptionNotAllowed ==> (
                options@.contains(VerificationOption::NoChain)),
            },
        },
        options@.contains(VerificationOption::NoChain) ==> r is Err,
        spec_decodes(encoding, data@) ==> (options@.contains(VerificationOption::NoChain) <==> r
            == Err::<Vec<u8>, Pkcs7DecryptError>(
            Pkcs7DecryptError::Decryption(DecryptionError::OptionNotAllowed),
        )),
        spec_decodes(encoding, data@) && !options@.contains(VerificationOption::NoChain) ==> (r
            == Err::<Vec<u8>, Pkcs7DecryptError>(
            Pkcs7DecryptError::Decryption(DecryptionError::BadCertificate),
        ) <==> !x509_der_parses(recipient.certificate_der@)),
        spec_decodes(encoding, data@) && !options@.contains(VerificationOption::NoChain)
            && x509_der_parses(recipient.certificate_der@) ==> (r == Err::<
            Vec<u8>,
            Pkcs7DecryptError,
        >(Pkcs7DecryptError::Decryption(DecryptionError::BadPrivateKey))
            <==> !private_key_der_parses(recipient.private_key_der@)),
{
    let message = match resolve(encoding, data) {
        Ok(m) => m,
        Err(er) => {
            return Err(Pkcs7DecryptError::Encoding(er));
        },
    };
    match decrypt(&message, recipient, options) {
        Ok(plaintext) => Ok(plaintext),
        Err(er) => Err(Pkcs7DecryptError::Decryption(er)),
    }
}

} // verus!
