//! Tag extraction over hand-built DER certificates.

use pkcs7_probe::cert::extract_tags;
use pkcs7_probe::errors::{Field, ParseError};

fn tlv(tag: u8, content: &[u8]) -> Vec<u8> {
    let mut out = vec![tag];
    let n = content.len();
    if n < 128 {
        out.push(n as u8);
    } else if n < 256 {
        out.push(0x81);
        out.push(n as u8);
    } else {
        out.push(0x82);
        out.push((n >> 8) as u8);
        out.push((n & 0xff) as u8);
    }
    out.extend_from_slice(content);
    out
}

fn concat(parts: &[&[u8]]) -> Vec<u8> {
    let mut out = Vec::new();
    for p in parts {
        out.extend_from_slice(p);
    }
    out
}

/// One AttributeTypeAndValue: commonName with a value of the given tag.
fn atv(value_tag: u8, value: &[u8]) -> Vec<u8> {
    let oid = tlv(0x06, &[0x55, 0x04, 0x03]);
    let val = tlv(value_tag, value);
    tlv(0x30, &concat(&[&oid, &val]))
}

fn rdn(atvs: &[&[u8]]) -> Vec<u8> {
    tlv(0x31, &concat(atvs))
}

fn name(rdns: &[&[u8]]) -> Vec<u8> {
    tlv(0x30, &concat(rdns))
}

fn validity(nb_tag: u8, na_tag: u8) -> Vec<u8> {
    let nb = tlv(nb_tag, b"250101000000Z");
    let na = tlv(na_tag, b"260101000000Z");
    tlv(0x30, &concat(&[&nb, &na]))
}

/// An AlgorithmIdentifier with a NULL parameter.
fn sig_alg() -> Vec<u8> {
    let oid = tlv(0x06, &[0x2a, 0x86, 0x48]);
    let null = tlv(0x05, &[]);
    tlv(0x30, &concat(&[&oid, &null]))
}

/// A subject-public-key field: algorithm and key bits.
fn spki() -> Vec<u8> {
    let alg = sig_alg();
    let bits = tlv(0x03, &[0x00, 0xff]);
    tlv(0x30, &concat(&[&alg, &bits]))
}

fn tbs(issuer: &[u8], val: &[u8], subject: &[u8]) -> Vec<u8> {
    let version = tlv(0xa0, &tlv(0x02, &[0x02]));
    let serial = tlv(0x02, &[0x01]);
    tlv(
        0x30,
        &concat(&[&version, &serial, &sig_alg(), issuer, val, subject, &spki()]),
    )
}

fn certificate(tbs: &[u8]) -> Vec<u8> {
    let sig = tlv(0x03, &[0x00]);
    tlv(0x30, &concat(&[tbs, &sig_alg(), &sig]))
}

fn single_cn_name() -> Vec<u8> {
    let a = atv(0x0c, b"A");
    let r = rdn(&[&a]);
    name(&[&r])
}

#[test]
fn utc_times_single_rdns() {
    let der = certificate(&tbs(&single_cn_name(), &validity(0x17, 0x17), &single_cn_name()));
    let report = extract_tags(&der).unwrap();
    assert_eq!(report.not_before_tag, 0x17);
    assert_eq!(report.not_after_tag, 0x17);
    assert_eq!(report.issuer_value_tags, vec![0x0c]);
    assert_eq!(report.subject_value_tags, vec![0x0c]);
}

#[test]
fn generalized_time_tag_reported() {
    let der = certificate(&tbs(&single_cn_name(), &validity(0x17, 0x18), &single_cn_name()));
    let report = extract_tags(&der).unwrap();
    assert_eq!(report.not_before_tag, 0x17);
    assert_eq!(report.not_after_tag, 0x18);
}

#[test]
fn rdn_count_matches_tag_count() {
    let a1 = atv(0x0c, b"A");
    let a2 = atv(0x13, b"B");
    let a3 = atv(0x16, b"C");
    let r1 = rdn(&[&a1]);
    let r2 = rdn(&[&a2]);
    let r3 = rdn(&[&a3]);
    let issuer = name(&[&r1, &r2, &r3]);
    let der = certificate(&tbs(&issuer, &validity(0x17, 0x17), &single_cn_name()));
    let report = extract_tags(&der).unwrap();
    assert_eq!(report.issuer_value_tags, vec![0x0c, 0x13, 0x16]);
    assert_eq!(report.subject_value_tags, vec![0x0c]);
}

#[test]
fn two_attribute_rdn_rejected() {
    let a1 = atv(0x0c, b"A");
    let a2 = atv(0x0c, b"B");
    let r = rdn(&[&a1, &a2]);
    let issuer = name(&[&r]);
    let der = certificate(&tbs(&issuer, &validity(0x17, 0x17), &single_cn_name()));
    assert_eq!(
        extract_tags(&der),
        Err(ParseError::MalformedName(Field::Issuer))
    );
}

#[test]
fn empty_rdn_rejected() {
    let r = rdn(&[]);
    let subject = name(&[&r]);
    let der = certificate(&tbs(&single_cn_name(), &validity(0x17, 0x17), &subject));
    assert_eq!(
        extract_tags(&der),
        Err(ParseError::MalformedName(Field::Subject))
    );
}

#[test]
fn trailing_bytes_rejected() {
    let mut der = certificate(&tbs(&single_cn_name(), &validity(0x17, 0x17), &single_cn_name()));
    der.push(0x00);
    assert_eq!(extract_tags(&der), Err(ParseError::Grammar(Field::Certificate)));
}

#[test]
fn truncated_input_rejected() {
    let der = certificate(&tbs(&single_cn_name(), &validity(0x17, 0x17), &single_cn_name()));
    let cut = &der[..der.len() - 3];
    assert!(extract_tags(cut).is_err());
}

#[test]
fn indefinite_length_rejected() {
    // outer SEQUENCE with the indefinite-length octet
    let der = vec![0x30, 0x80, 0x00, 0x00];
    assert_eq!(extract_tags(&der), Err(ParseError::Grammar(Field::Certificate)));
}

#[test]
fn non_minimal_length_rejected() {
    // long form 0x81 for a five-byte length that fits the short form
    let body = certificate(&tbs(&single_cn_name(), &validity(0x17, 0x17), &single_cn_name()));
    let content = &body[2..];
    let mut der = vec![0x30, 0x81, content.len() as u8];
    der.extend_from_slice(content);
    assert_eq!(extract_tags(&der), Err(ParseError::Grammar(Field::Certificate)));
}

#[test]
fn encoded_default_version_rejected() {
    let version = tlv(0xa0, &tlv(0x02, &[0x00]));
    let serial = tlv(0x02, &[0x01]);
    let n = single_cn_name();
    let v = validity(0x17, 0x17);
    let t = tlv(0x30, &concat(&[&version, &serial, &sig_alg(), &n, &v, &n, &spki()]));
    let der = certificate(&t);
    assert_eq!(extract_tags(&der), Err(ParseError::Grammar(Field::Version)));
}

#[test]
fn non_minimal_serial_rejected() {
    let version = tlv(0xa0, &tlv(0x02, &[0x02]));
    let serial = tlv(0x02, &[0x00, 0x01]);
    let n = single_cn_name();
    let v = validity(0x17, 0x17);
    let t = tlv(0x30, &concat(&[&version, &serial, &sig_alg(), &n, &v, &n, &spki()]));
    let der = certificate(&t);
    assert_eq!(extract_tags(&der), Err(ParseError::Grammar(Field::SerialNumber)));
}

#[test]
fn empty_signature_algorithm_rejected() {
    let version = tlv(0xa0, &tlv(0x02, &[0x02]));
    let serial = tlv(0x02, &[0x01]);
    let empty_alg = tlv(0x30, &[]);
    let n = single_cn_name();
    let v = validity(0x17, 0x17);
    let t = tlv(0x30, &concat(&[&version, &serial, &empty_alg, &n, &v, &n, &spki()]));
    let der = certificate(&t);
    assert_eq!(
        extract_tags(&der),
        Err(ParseError::Grammar(Field::SignatureAlgorithm))
    );
}

#[test]
fn spki_without_key_bits_rejected() {
    let version = tlv(0xa0, &tlv(0x02, &[0x02]));
    let serial = tlv(0x02, &[0x01]);
    let bare_spki = tlv(0x30, &sig_alg());
    let n = single_cn_name();
    let v = validity(0x17, 0x17);
    let t = tlv(0x30, &concat(&[&version, &serial, &sig_alg(), &n, &v, &n, &bare_spki]));
    let der = certificate(&t);
    assert_eq!(
        extract_tags(&der),
        Err(ParseError::Grammar(Field::SubjectPublicKeyInfo))
    );
}

#[test]
fn wrong_time_tag_rejected() {
    let der = certificate(&tbs(&single_cn_name(), &validity(0x0c, 0x17), &single_cn_name()));
    assert_eq!(extract_tags(&der), Err(ParseError::Grammar(Field::Validity)));
}

#[test]
fn version_absent_accepted() {
    let serial = tlv(0x02, &[0x01]);
    let n = single_cn_name();
    let v = validity(0x17, 0x17);
    let t = tlv(0x30, &concat(&[&serial, &sig_alg(), &n, &v, &n, &spki()]));
    let der = certificate(&t);
    let report = extract_tags(&der).unwrap();
    assert_eq!(report.not_before_tag, 0x17);
}

#[test]
fn empty_input_rejected() {
    assert_eq!(extract_tags(&[]), Err(ParseError::Grammar(Field::Certificate)));
}
