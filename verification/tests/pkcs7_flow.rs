//! The verify and decrypt paths, driven with real signed and enveloped
//! messages built through openssl.

use pkcs7_probe::cert::extract_tags;
use pkcs7_probe::pkcs7::{
    build_trust_store, pkcs7_decrypt, pkcs7_verify, resolve, DecryptionError, EncodingError,
    Pkcs7DecryptError, Pkcs7Encoding, Pkcs7VerifyError, RecipientCredential, TrustStoreError,
    VerificationError, VerificationOption,
};

fn make_identity() -> (openssl::pkey::PKey<openssl::pkey::Private>, openssl::x509::X509) {
    let rsa = openssl::rsa::Rsa::generate(2048).unwrap();
    let pkey = openssl::pkey::PKey::from_rsa(rsa).unwrap();
    let mut nb = openssl::x509::X509NameBuilder::new().unwrap();
    nb.append_entry_by_text("CN", "probe test identity").unwrap();
    let name = nb.build();
    let mut b = openssl::x509::X509Builder::new().unwrap();
    b.set_version(2).unwrap();
    let serial = openssl::bn::BigNum::from_u32(4097)
        .unwrap()
        .to_asn1_integer()
        .unwrap();
    b.set_serial_number(&serial).unwrap();
    b.set_subject_name(&name).unwrap();
    b.set_issuer_name(&name).unwrap();
    b.set_pubkey(&pkey).unwrap();
    let not_before = openssl::asn1::Asn1Time::days_from_now(0).unwrap();
    b.set_not_before(&not_before).unwrap();
    let not_after = openssl::asn1::Asn1Time::days_from_now(365).unwrap();
    b.set_not_after(&not_after).unwrap();
    b.sign(&pkey, openssl::hash::MessageDigest::sha256()).unwrap();
    (pkey, b.build())
}

fn sign_message(
    pkey: &openssl::pkey::PKey<openssl::pkey::Private>,
    cert: &openssl::x509::X509,
    data: &[u8],
    flags: openssl::pkcs7::Pkcs7Flags,
) -> openssl::pkcs7::Pkcs7 {
    let extra = openssl::stack::Stack::new().unwrap();
    openssl::pkcs7::Pkcs7::sign(cert, pkey, &extra, data, flags).unwrap()
}

#[test]
fn verify_trusted_signer_no_chain() {
    let (pkey, cert) = make_identity();
    let p7 = sign_message(&pkey, &cert, b"signed payload", openssl::pkcs7::Pkcs7Flags::empty());
    let der = p7.to_der().unwrap();
    let trust = vec![cert.to_der().unwrap()];
    let opts = vec![VerificationOption::NoChain];
    assert!(pkcs7_verify(Pkcs7Encoding::Der, &der, None, &trust, &opts).is_ok());
}

#[test]
fn verify_fails_without_trusted_signer() {
    let (pkey, cert) = make_identity();
    let p7 = sign_message(&pkey, &cert, b"signed payload", openssl::pkcs7::Pkcs7Flags::empty());
    let der = p7.to_der().unwrap();
    let empty: Vec<Vec<u8>> = vec![];
    let opts = vec![VerificationOption::NoChain];
    assert_eq!(
        pkcs7_verify(Pkcs7Encoding::Der, &der, None, &empty, &opts),
        Err(Pkcs7VerifyError::Verification(VerificationError::Rejected))
    );
}

#[test]
fn detached_smime_verification() {
    let msg = b"detached body\r\n";
    let (pkey, cert) = make_identity();
    let p7 = sign_message(&pkey, &cert, msg, openssl::pkcs7::Pkcs7Flags::DETACHED);
    let smime = p7
        .to_smime(msg, openssl::pkcs7::Pkcs7Flags::DETACHED)
        .unwrap();
    let empty: Vec<Vec<u8>> = vec![];
    let no_opts: Vec<VerificationOption> = vec![];
    assert!(pkcs7_verify(Pkcs7Encoding::Smime, &smime, None, &empty, &no_opts).is_err());
    let trust = vec![cert.to_der().unwrap()];
    let opts = vec![VerificationOption::NoChain];
    assert!(pkcs7_verify(Pkcs7Encoding::Smime, &smime, None, &trust, &opts).is_ok());
}

#[test]
fn detached_smime_conflicting_content_rejected() {
    let msg = b"detached body\r\n";
    let (pkey, cert) = make_identity();
    let p7 = sign_message(&pkey, &cert, msg, openssl::pkcs7::Pkcs7Flags::DETACHED);
    let smime = p7
        .to_smime(msg, openssl::pkcs7::Pkcs7Flags::DETACHED)
        .unwrap();
    let trust = vec![cert.to_der().unwrap()];
    let opts = vec![VerificationOption::NoChain];
    assert_eq!(
        pkcs7_verify(Pkcs7Encoding::Smime, &smime, Some(msg), &trust, &opts),
        Err(Pkcs7VerifyError::Verification(
            VerificationError::AmbiguousContent
        ))
    );
}

#[test]
fn encoding_consistency_across_der_pem_smime() {
    let msg = b"consistent payload";
    let (pkey, cert) = make_identity();
    let p7 = sign_message(&pkey, &cert, msg, openssl::pkcs7::Pkcs7Flags::empty());
    let der = p7.to_der().unwrap();
    let pem = p7.to_pem().unwrap();
    let smime = p7
        .to_smime(msg, openssl::pkcs7::Pkcs7Flags::empty())
        .unwrap();
    let m1 = resolve(Pkcs7Encoding::Der, &der).unwrap();
    let m2 = resolve(Pkcs7Encoding::Pem, &pem).unwrap();
    let m3 = resolve(Pkcs7Encoding::Smime, &smime).unwrap();
    let d1 = m1.to_der_bytes().unwrap();
    let d2 = m2.to_der_bytes().unwrap();
    let d3 = m3.to_der_bytes().unwrap();
    assert_eq!(d1, d2);
    assert_eq!(d1, d3);
}

#[test]
fn malformed_blobs_name_their_encoding() {
    let garbage = b"not a cryptographic message";
    for encoding in [Pkcs7Encoding::Der, Pkcs7Encoding::Pem, Pkcs7Encoding::Smime] {
        match resolve(encoding, garbage) {
            Err(er) => assert_eq!(er, EncodingError::Malformed(encoding)),
            Ok(_) => panic!("garbage resolved"),
        }
    }
    let empty: Vec<Vec<u8>> = vec![];
    let no_opts: Vec<VerificationOption> = vec![];
    assert_eq!(
        pkcs7_verify(Pkcs7Encoding::Der, garbage, None, &empty, &no_opts),
        Err(Pkcs7VerifyError::Encoding(EncodingError::Malformed(
            Pkcs7Encoding::Der
        )))
    );
}

fn encrypt_to(cert: &openssl::x509::X509, data: &[u8]) -> Vec<u8> {
    let mut recipients = openssl::stack::Stack::new().unwrap();
    recipients
        .push(openssl::x509::X509::from_der(&cert.to_der().unwrap()).unwrap())
        .unwrap();
    let p7 = openssl::pkcs7::Pkcs7::encrypt(
        &recipients,
        data,
        openssl::symm::Cipher::aes_256_cbc(),
        openssl::pkcs7::Pkcs7Flags::empty(),
    )
    .unwrap();
    p7.to_der().unwrap()
}

#[test]
fn decrypt_recovers_plaintext() {
    let (pkey, cert) = make_identity();
    let der = encrypt_to(&cert, b"secret payload");
    let cred = RecipientCredential {
        private_key_der: pkey.private_key_to_pkcs8().unwrap(),
        certificate_der: cert.to_der().unwrap(),
    };
    let none: Vec<VerificationOption> = vec![];
    let plaintext = pkcs7_decrypt(Pkcs7Encoding::Der, &der, &cred, &none).unwrap();
    assert_eq!(plaintext, b"secret payload");
}

#[test]
fn decrypt_with_unrelated_credential_fails() {
    let (_, cert) = make_identity();
    let (other_key, other_cert) = make_identity();
    let der = encrypt_to(&cert, b"secret payload");
    let cred = RecipientCredential {
        private_key_der: other_key.private_key_to_pkcs8().unwrap(),
        certificate_der: other_cert.to_der().unwrap(),
    };
    let none: Vec<VerificationOption> = vec![];
    match pkcs7_decrypt(Pkcs7Encoding::Der, &der, &cred, &none) {
        Err(Pkcs7DecryptError::Decryption(DecryptionError::RecipientNotFound)) => {}
        Err(Pkcs7DecryptError::Decryption(DecryptionError::Rejected)) => {}
        other => panic!("unrelated credential must not decrypt: {:?}", other.map(|_| ())),
    }
}

#[test]
fn decrypt_rejects_unreadable_credentials() {
    let (pkey, cert) = make_identity();
    let der = encrypt_to(&cert, b"secret payload");
    let none: Vec<VerificationOption> = vec![];
    let bad_cert = RecipientCredential {
        private_key_der: pkey.private_key_to_pkcs8().unwrap(),
        certificate_der: vec![0x01, 0x02, 0x03],
    };
    assert_eq!(
        pkcs7_decrypt(Pkcs7Encoding::Der, &der, &bad_cert, &none),
        Err(Pkcs7DecryptError::Decryption(
            DecryptionError::BadCertificate
        ))
    );
    let bad_key = RecipientCredential {
        private_key_der: vec![0x01, 0x02, 0x03],
        certificate_der: cert.to_der().unwrap(),
    };
    assert_eq!(
        pkcs7_decrypt(Pkcs7Encoding::Der, &der, &bad_key, &none),
        Err(Pkcs7DecryptError::Decryption(
            DecryptionError::BadPrivateKey
        ))
    );
}

#[test]
fn decrypt_rejects_chain_option() {
    let (pkey, cert) = make_identity();
    let der = encrypt_to(&cert, b"secret payload");
    let cred = RecipientCredential {
        private_key_der: pkey.private_key_to_pkcs8().unwrap(),
        certificate_der: cert.to_der().unwrap(),
    };
    let opts = vec![VerificationOption::NoChain];
    assert_eq!(
        pkcs7_decrypt(Pkcs7Encoding::Der, &der, &cred, &opts),
        Err(Pkcs7DecryptError::Decryption(
            DecryptionError::OptionNotAllowed
        ))
    );
}

#[test]
fn trust_store_rejects_bad_certificate() {
    let (_, cert) = make_identity();
    let bad = vec![cert.to_der().unwrap(), vec![0x00u8, 0x01, 0x02]];
    match build_trust_store(&bad) {
        Err(er) => assert_eq!(er, TrustStoreError::CertificateRejected),
        Ok(_) => panic!("bad certificate accepted"),
    }
}

#[test]
fn generated_certificate_tags() {
    let (_, cert) = make_identity();
    let der = cert.to_der().unwrap();
    let report = extract_tags(&der).unwrap();
    // UTCTime on both validity bounds, one single-attribute RDN per name
    assert_eq!(report.not_before_tag, 0x17);
    assert_eq!(report.not_after_tag, 0x17);
    assert_eq!(report.issuer_value_tags.len(), 1);
    assert_eq!(report.subject_value_tags, report.issuer_value_tags);
}
