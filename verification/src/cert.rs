//! The certificate grammar walk: a strict DER Certificate is a SEQUENCE
//! holding a TBSCertificate, a signature-algorithm SEQUENCE and a
//! BIT STRING, with no trailing bytes.  The walk records which time
//! variant each validity bound uses and the value tag of every RDN of
//! the issuer and subject names.

use vstd::prelude::*;

use crate::der::{
    lemma_header_bounds, read_header, spec_header, TAG_BIT_STRING, TAG_CTX_0_CONSTRUCTED,
    TAG_CTX_1_PRIMITIVE, TAG_CTX_2_PRIMITIVE, TAG_CTX_3_CONSTRUCTED, TAG_GENERALIZED_TIME,
    TAG_INTEGER, TAG_OID, TAG_SEQUENCE, TAG_UTC_TIME,
};
use crate::errors::{Field, ParseError};
use crate::name::{
    lemma_name_tags_len_is_rdn_count, parse_name_value_tags, spec_name, spec_name_rdn_count,
};

verus! {

/// An AlgorithmIdentifier at `i`: a SEQUENCE holding an OID and then at
/// most one parameter value of any tag, ending exactly.  The OID's own
/// content is not decoded.  `Ok` gives the position just past the
/// field.
pub open spec fn spec_algorithm_identifier(s: Seq<u8>, i: int, e: int, f: Field) -> Result<
    int,
    ParseError,
> {
    match spec_header(s, i, e) {
        Some(h) => {
            if h.tag != TAG_SEQUENCE {
                Err(ParseError::Grammar(f))
            } else {
                let ce = h.content_start + h.content_len;
                match spec_header(s, h.content_start, ce) {
                    Some(oh) => {
                        if oh.tag != TAG_OID || oh.content_len < 1 {
                            Err(ParseError::Grammar(f))
                        } else {
                            let p = oh.content_start + oh.content_len;
                            if p == ce {
                                Ok(ce)
                            } else {
                                match spec_header(s, p, ce) {
                                    Some(ph) => {
                                        if ph.content_start + ph.content_len == ce {
                                            Ok(ce)
                                        } else {
                                            Err(ParseError::Grammar(f))
                                        }
                                    },
                                    None => Err(ParseError::Grammar(f)),
                                }
                            }
                        }
                    },
                    None => Err(ParseError::Grammar(f)),
                }
            }
        },
        None => Err(ParseError::Grammar(f)),
    }
}

/// The subject-public-key field at `i`: a SEQUENCE holding an
/// AlgorithmIdentifier and then a BIT STRING with a sound unused-bit
/// count, ending exactly.  The key bits themselves are not decoded.
/// `Ok` gives the position just past the field.
pub open spec fn spec_spki(s: Seq<u8>, i: int, e: int) -> Result<int, ParseError> {
    match spec_header(s, i, e) {
        Some(h) => {
            if h.tag != TAG_SEQUENCE {
                Err(ParseError::Grammar(Field::SubjectPublicKeyInfo))
            } else {
                let ce = h.content_start + h.content_len;
                match spec_algorithm_identifier(s, h.content_start, ce,
                    Field::SubjectPublicKeyInfo) {
                    Ok(p) => match spec_header(s, p, ce) {
                        Some(bh) => {
                            if bh.tag == TAG_BIT_STRING && bh.content_start + bh.content_len == ce
                                && bh.content_len >= 1 && s[bh.content_start] <= 7 {
                                Ok(ce)
                            } else {
                                Err(ParseError::Grammar(Field::SubjectPublicKeyInfo))
                            }
                        },
                        None => Err(ParseError::Grammar(Field::SubjectPublicKeyInfo)),
                    },
                    Err(er) => Err(er),
                }
            }
        },
        None => Err(ParseError::Grammar(Field::SubjectPublicKeyInfo)),
    }
}

/// Skip one element of the given tag if it stands at `i`; the position
/// just past it, or `i` unchanged when it is absent.
pub open spec fn spec_skip_optional(s: Seq<u8>, i: int, e: int, tag: u8) -> int {
    match spec_header(s, i, e) {
        Some(h) => {
            if h.tag == tag {
                h.content_start + h.content_len
            } else {
                i
            }
        },
        None => i,
    }
}

/// DER demands the shortest INTEGER content: at least one byte, and no
/// nine leading equal sign bits.
pub open spec fn spec_integer_minimal(s: Seq<u8>, cs: int, cl: int) -> bool {
    &&& cl >= 1
    &&& (cl < 2 || !((s[cs] == 0 && s[cs + 1] < 0x80) || (s[cs] == 0xff && s[cs + 1] >= 0x80)))
}

/// One INTEGER at `i`, minimally encoded; `Ok` gives the position just
/// past it.
pub open spec fn spec_integer_skip(s: Seq<u8>, i: int, e: int, f: Field) -> Result<
    int,
    ParseError,
> {
    match spec_header(s, i, e) {
        Some(h) => {
            if h.tag == TAG_INTEGER && spec_integer_minimal(s, h.content_start, h.content_len) {
                Ok(h.content_start + h.content_len)
            } else {
                Err(ParseError::Grammar(f))
            }
        },
        None => Err(ParseError::Grammar(f)),
    }
}

/// The optional explicit version field at `i`: absent, or a context-0
/// wrapper holding exactly one minimal INTEGER whose value is not the
/// default (DER disallows writing a default value).  `Ok` gives the
/// position of the next field.
pub open spec fn spec_version(s: Seq<u8>, i: int, e: int) -> Result<int, ParseError> {
    match spec_header(s, i, e) {
        Some(h) => {
            if h.tag == TAG_CTX_0_CONSTRUCTED {
                let ce = h.content_start + h.content_len;
                match spec_header(s, h.content_start, ce) {
                    Some(ih) => {
                        if ih.tag == TAG_INTEGER && ih.content_start + ih.content_len == ce
                            && spec_integer_minimal(s, ih.content_start, ih.content_len) {
                            if ih.content_len == 1 && s[ih.content_start] == 0 {
                                Err(ParseError::Grammar(Field::Version))
                            } else {
                                Ok(ce)
                            }
                        } else {
                            Err(ParseError::Grammar(Field::Version))
                        }
                    },
                    None => Err(ParseError::Grammar(Field::Version)),
                }
            } else {
                Ok(i)
            }
        },
        None => Ok(i),
    }
}

pub open spec fn spec_is_time_tag(t: u8) -> bool {
    t == TAG_UTC_TIME || t == TAG_GENERALIZED_TIME
}

/// The validity field at `i`: a SEQUENCE of exactly two times, each a
/// UTCTime or a GeneralizedTime.  `Ok` gives both identifier octets and
/// the position just past the field.
pub open spec fn spec_validity(s: Seq<u8>, i: int, e: int) -> Result<(u8, u8, int), ParseError> {
    match spec_header(s, i, e) {
        Some(h) => {
            if h.tag != TAG_SEQUENCE {
                Err(ParseError::Grammar(Field::Validity))
            } else {
                let ce = h.content_start + h.content_len;
                match spec_header(s, h.content_start, ce) {
                    Some(nb) => {
                        if !spec_is_time_tag(nb.tag) {
                            Err(ParseError::Grammar(Field::Validity))
                        } else {
                            match spec_header(s, nb.content_start + nb.content_len, ce) {
                                Some(na) => {
                                    if spec_is_time_tag(na.tag) && na.content_start
                                        + na.content_len == ce {
                                        Ok((nb.tag, na.tag, ce))
                                    } else {
                                        Err(ParseError::Grammar(Field::Validity))
                                    }
                                },
                                None => Err(ParseError::Grammar(Field::Validity)),
                            }
                        }
                    },
                    None => Err(ParseError::Grammar(Field::Validity)),
                }
            }
        },
        None => Err(ParseError::Grammar(Field::Validity)),
    }
}

/// What the TBSCertificate walk recovers: the two time tags, the two
/// name tag sequences, where each name stands, and where the field ends.
pub ghost struct TbsModel {
    pub not_before_tag: u8,
    pub not_after_tag: u8,
    pub issuer_tags: Seq<u8>,
    pub subject_tags: Seq<u8>,
    pub issuer_at: int,
    pub subject_at: int,
    pub end: int,
}

/// The TBSCertificate at `i`: a SEQUENCE holding an optional version, a
/// serial INTEGER, a signature AlgorithmIdentifier, the issuer name, the
/// validity, the subject name, the subject-public-key field, and then
/// only the optional unique-id and extensions fields, ending exactly.
/// The unique-id and extensions elements are skipped whole: their inner
/// encoding is not decoded.
pub open spec fn spec_tbs(s: Seq<u8>, i: int, e: int) -> Result<TbsModel, ParseError> {
    match spec_header(s, i, e) {
        Some(h) => {
            if h.tag != TAG_SEQUENCE {
                Err(ParseError::Grammar(Field::TbsCertificate))
            } else {
                let ce = h.content_start + h.content_len;
                match spec_version(s, h.content_start, ce) {
                    Ok(p1) => match spec_integer_skip(s, p1, ce, Field::SerialNumber) {
                        Ok(p2) => match spec_algorithm_identifier(
                            s,
                            p2,
                            ce,
                            Field::SignatureAlgorithm,
                        ) {
                            Ok(p3) => match spec_name(s, p3, ce, Field::Issuer) {
                                Ok(iss) => match spec_validity(s, iss.1, ce) {
                                    Ok(v) => match spec_name(s, v.2, ce, Field::Subject) {
                                        Ok(sub) => match spec_spki(s, sub.1, ce) {
                                            Ok(p4) => {
                                                let p5 = spec_skip_optional(
                                                    s,
                                                    p4,
                                                    ce,
                                                    TAG_CTX_1_PRIMITIVE,
                                                );
                                                let p6 = spec_skip_optional(
                                                    s,
                                                    p5,
                                                    ce,
                                                    TAG_CTX_2_PRIMITIVE,
                                                );
                                                let p7 = spec_skip_optional(
                                                    s,
                                                    p6,
                                                    ce,
                                                    TAG_CTX_3_CONSTRUCTED,
                                                );
                                                if p7 == ce {
                                                    Ok(
                                                        TbsModel {
                                                            not_before_tag: v.0,
                                                            not_after_tag: v.1,
                                                            issuer_tags: iss.0,
                                                            subject_tags: sub.0,
                                                            issuer_at: p3,
                                                            subject_at: v.2,
                                                            end: ce,
                                                        },
                                                    )
                                                } else {
                                                    Err(ParseError::Grammar(Field::TbsCertificate))
                                                }
                                            },
                                            Err(er) => Err(er),
                                        },
                                        Err(er) => Err(er),
                                    },
                                    Err(er) => Err(er),
                                },
                                Err(er) => Err(er),
                            },
                            Err(er) => Err(er),
                        },
                        Err(er) => Err(er),
                    },
                    Err(er) => Err(er),
                }
            }
        },
        None => Err(ParseError::Grammar(Field::TbsCertificate)),
    }
}

/// What `extract_tags` reports, at the specification level.
pub ghost struct TagReportModel {
    pub not_before_tag: u8,
    pub not_after_tag: u8,
    pub issuer_value_tags: Seq<u8>,
    pub subject_value_tags: Seq<u8>,
}

/// A whole DER Certificate: the outer SEQUENCE consumes every input
/// byte; inside stand the TBSCertificate, the signature
/// AlgorithmIdentifier and the signature BIT STRING, ending exactly.
/// The walk reads structure to the depth the report needs: every
/// header is held to strict DER, but the contents of OIDs, time
/// strings, key and signature bits, unique-ids and the extensions list
/// are not themselves decoded.
pub open spec fn spec_extract(s: Seq<u8>) -> Result<TagReportModel, ParseError> {
    match spec_header(s, 0, s.len() as int) {
        Some(h) => {
            if h.tag != TAG_SEQUENCE || h.content_start + h.content_len != s.len() {
                Err(ParseError::Grammar(Field::Certificate))
            } else {
                let ce = h.content_start + h.content_len;
                match spec_tbs(s, h.content_start, ce) {
                    Ok(t) => match spec_algorithm_identifier(s, t.end, ce,
                        Field::SignatureAlgorithm) {
                        Ok(p) => match spec_header(s, p, ce) {
                            Some(bh) => {
                                if bh.tag == TAG_BIT_STRING && bh.content_start + bh.content_len
                                    == ce && bh.content_len >= 1 && s[bh.content_start] <= 7 {
                                    Ok(
                                        TagReportModel {
                                            not_before_tag: t.not_before_tag,
                                            not_after_tag: t.not_after_tag,
                                            issuer_value_tags: t.issuer_tags,
                                            subject_value_tags: t.subject_tags,
                                        },
                                    )
                                } else {
                                    Err(ParseError::Grammar(Field::SignatureValue))
                                }
                            },
                            None => Err(ParseError::Grammar(Field::SignatureValue)),
                        },
                        Err(er) => Err(er),
                    },
                    Err(er) => Err(er),
                }
            }
        },
        None => Err(ParseError::Grammar(Field::Certificate)),
    }
}

/// The report of one extraction call: which time variant each validity
/// bound used, and the value tag of each RDN of both names, in order.
#[derive(Debug, PartialEq, Eq)]
pub struct CertificateTagReport {
    pub not_before_tag: u8,
    pub not_after_tag: u8,
    pub issuer_value_tags: Vec<u8>,
    pub subject_value_tags: Vec<u8>,
}

impl View for CertificateTagReport {
    type V = TagReportModel;

    open spec fn view(&self) -> TagReportModel {
        TagReportModel {
            not_before_tag: self.not_before_tag,
            not_after_tag: self.not_after_tag,
            issuer_value_tags: self.issuer_value_tags@,
            subject_value_tags: self.subject_value_tags@,
        }
    }
}

/// Law: when the TBSCertificate walk succeeds, each recovered tag
/// sequence is exactly one tag per RDN of its name, so its length is
/// that name's RDN count.
pub proof fn lemma_tbs_tag_lengths(s: Seq<u8>, i: int, e: int)
    ensures
        match spec_tbs(s, i, e) {
            Ok(t) => {
                &&& spec_name_rdn_count(s, t.issuer_at, t.end) == Some(
                    t.issuer_tags.len() as int,
                )
                &&& spec_name_rdn_count(s, t.subject_at, t.end) == Some(
                    t.subject_tags.len() as int,
                )
            },
            Err(_) => true,
        },
{
    match spec_tbs(s, i, e) {
        Ok(t) => {
            lemma_name_tags_len_is_rdn_count(s, t.issuer_at, t.end, Field::Issuer);
            lemma_name_tags_len_is_rdn_count(s, t.subject_at, t.end, Field::Subject);
        },
        Err(_) => {},
    }
}

/// Law: for every well-formed certificate, the report's tag-sequence
/// lengths equal the RDN counts of the issuer and subject names.
pub proof fn lemma_report_lengths_are_rdn_counts(s: Seq<u8>)
    ensures
        match spec_extract(s) {
            Ok(rep) => match spec_header(s, 0, s.len() as int) {
                Some(h) => match spec_tbs(s, h.content_start, h.content_start + h.content_len) {
                    Ok(t) => {
                        &&& spec_name_rdn_count(s, t.issuer_at, t.end) == Some(
                            rep.issuer_value_tags.len() as int,
                        )
                        &&& spec_name_rdn_count(s, t.subject_at, t.end) == Some(
                            rep.subject_value_tags.len() as int,
                        )
                    },
                    Err(_) => false,
                },
                None => false,
            },
            Err(_) => true,
        },
{
    match spec_header(s, 0, s.len() as int) {
        Some(h) => {
            lemma_tbs_tag_lengths(s, h.content_start, h.content_start + h.content_len);
        },
        None => {},
    }
}

/// One AlgorithmIdentifier at `i`: an OID and at most one parameter
/// value; `Ok` gives the position just past it.
pub fn read_algorithm_identifier(s: &[u8], i: usize, e: usize, f: Field) -> (r: Result<
    usize,
    ParseError,
>)
    requires
        e <= s@.len(),
    ensures
        match r {
            Ok(p) => spec_algorithm_identifier(s@, i as int, e as int, f) == Ok::<
                int,
                ParseError,
            >(p as int) && i < p <= e,
            Err(er) => spec_algorithm_identifier(s@, i as int, e as int, f) == Err::<
                int,
                ParseError,
            >(er),
        },
{
    let h = match read_header(s, i, e) {
        Some(h) => h,
        None => {
            return Err(ParseError::Grammar(f));
        },
    };
    if h.tag != TAG_SEQUENCE {
        return Err(ParseError::Grammar(f));
    }
    proof {
        lemma_header_bounds(s@, i as int, e as int);
    }
    let ce = h.content_start + h.content_len;
    let oh = match read_header(s, h.content_start, ce) {
        Some(oh) => oh,
        None => {
            return Err(ParseError::Grammar(f));
        },
    };
    if oh.tag != TAG_OID || oh.content_len < 1 {
        return Err(ParseError::Grammar(f));
    }
    proof {
        lemma_header_bounds(s@, h.content_start as int, ce as int);
    }
    let p = oh.content_start + oh.content_len;
    if p == ce {
        return Ok(ce);
    }
    let ph = match read_header(s, p, ce) {
        Some(ph) => ph,
        None => {
            return Err(ParseError::Grammar(f));
        },
    };
    if ph.content_start + ph.content_len == ce {
        Ok(ce)
    } else {
        Err(ParseError::Grammar(f))
    }
}

/// The subject-public-key field at `i`: an AlgorithmIdentifier and a
/// BIT STRING; `Ok` gives the position just past it.
pub fn read_spki(s: &[u8], i: usize, e: usize) -> (r: Result<usize, ParseError>)
    requires
        e <= s@.len(),
    ensures
        match r {
            Ok(p) => spec_spki(s@, i as int, e as int) == Ok::<int, ParseError>(p as int) && i < p
                <= e,
            Err(er) => spec_spki(s@, i as int, e as int) == Err::<int, ParseError>(er),
        },
{
    let h = match read_header(s, i, e) {
        Some(h) => h,
        None => {
            return Err(ParseError::Grammar(Field::SubjectPublicKeyInfo));
        },
    };
    if h.tag != TAG_SEQUENCE {
        return Err(ParseError::Grammar(Field::SubjectPublicKeyInfo));
    }
    proof {
        lemma_header_bounds(s@, i as int, e as int);
    }
    let ce = h.content_start + h.content_len;
    let p = match read_algorithm_identifier(s, h.content_start, ce,
        Field::SubjectPublicKeyInfo) {
        Ok(p) => p,
        Err(er) => {
            return Err(er);
        },
    };
    let bh = match read_header(s, p, ce) {
        Some(bh) => bh,
        None => {
            return Err(ParseError::Grammar(Field::SubjectPublicKeyInfo));
        },
    };
    proof {
        lemma_header_bounds(s@, p as int, ce as int);
    }
    if bh.tag == TAG_BIT_STRING && bh.content_start + bh.content_len == ce && bh.content_len >= 1
        && s[bh.content_start] <= 7 {
        Ok(ce)
    } else {
        Err(ParseError::Grammar(Field::SubjectPublicKeyInfo))
    }
}

/// Skip one element of the given tag if it stands at `i`.
pub fn skip_optional(s: &[u8], i: usize, e: usize, tag: u8) -> (r: usize)
    requires
        e <= s@.len(),
        i <= e,
    ensures
        r as int == spec_skip_optional(s@, i as int, e as int, tag),
        i <= r <= e,
{
    match read_header(s, i, e) {
        Some(h) => {
            proof {
                lemma_header_bounds(s@, i as int, e as int);
            }
            if h.tag == tag {
                h.content_start + h.content_len
            } else {
                i
            }
        },
        None => i,
    }
}

/// One minimally encoded INTEGER at `i`; `Ok` gives the position just
/// past it.
pub fn read_integer_skip(s: &[u8], i: usize, e: usize, f: Field) -> (r: Result<usize, ParseError>)
    requires
        e <= s@.len(),
    ensures
        match r {
            Ok(p) => spec_integer_skip(s@, i as int, e as int, f) == Ok::<int, ParseError>(
                p as int,
            ) && i < p <= e,
            Err(er) => spec_integer_skip(s@, i as int, e as int, f) == Err::<int, ParseError>(er),
        },
{
    match read_header(s, i, e) {
        Some(h) => {
            proof {
                lemma_header_bounds(s@, i as int, e as int);
            }
            if h.tag != TAG_INTEGER || h.content_len < 1 {
                return Err(ParseError::Grammar(f));
            }
            if h.content_len >= 2 {
                let b0 = s[h.content_start];
                let b1 = s[h.content_start + 1];
                if (b0 == 0 && b1 < 0x80) || (b0 == 0xff && b1 >= 0x80) {
                    return Err(ParseError::Grammar(f));
                }
            }
            Ok(h.content_start + h.content_len)
        },
        None => Err(ParseError::Grammar(f)),
    }
}

/// The optional explicit version field at `i`.
pub fn read_version(s: &[u8], i: usize, e: usize) -> (r: Result<usize, ParseError>)
    requires
        e <= s@.len(),
        i <= e,
    ensures
        match r {
            Ok(p) => spec_version(s@, i as int, e as int) == Ok::<int, ParseError>(p as int) && i
                <= p <= e,
            Err(er) => spec_version(s@, i as int, e as int) == Err::<int, ParseError>(er),
        },
{
    let h = match read_header(s, i, e) {
        Some(h) => h,
        None => {
            return Ok(i);
        },
    };
    if h.tag != TAG_CTX_0_CONSTRUCTED {
        return Ok(i);
    }
    proof {
        lemma_header_bounds(s@, i as int, e as int);
    }
    let ce = h.content_start + h.content_len;
    let ih = match read_header(s, h.content_start, ce) {
        Some(ih) => ih,
        None => {
            return Err(ParseError::Grammar(Field::Version));
        },
    };
    proof {
        lemma_header_bounds(s@, h.content_start as int, ce as int);
    }
    if !(ih.tag == TAG_INTEGER && ih.content_start + ih.content_len == ce && ih.content_len >= 1) {
        return Err(ParseError::Grammar(Field::Version));
    }
    if ih.content_len >= 2 {
        let b0 = s[ih.content_start];
        let b1 = s[ih.content_start + 1];
        if (b0 == 0 && b1 < 0x80) || (b0 == 0xff && b1 >= 0x80) {
            return Err(ParseError::Grammar(Field::Version));
        }
    }
    if ih.content_len == 1 && s[ih.content_start] == 0 {
        return Err(ParseError::Grammar(Field::Version));
    }
    Ok(ce)
}

/// The validity field at `i`: which time variant each bound used.
pub fn read_validity(s: &[u8], i: usize, e: usize) -> (r: Result<(u8, u8, usize), ParseError>)
    requires
        e <= s@.len(),
    ensures
        match r {
            Ok(v) => spec_validity(s@, i as int, e as int) == Ok::<(u8, u8, int), ParseError>(
                (v.0, v.1, v.2 as int),
            ) && i < v.2 <= e,
            Err(er) => spec_validity(s@, i as int, e as int) == Err::<(u8, u8, int), ParseError>(
                er,
            ),
        },
{
    let h = match read_header(s, i, e) {
        Some(h) => h,
        None => {
            return Err(ParseError::Grammar(Field::Validity));
        },
    };
    if h.tag != TAG_SEQUENCE {
        return Err(ParseError::Grammar(Field::Validity));
    }
    proof {
        lemma_header_bounds(s@, i as int, e as int);
    }
    let ce = h.content_start + h.content_len;
    let nb = match read_header(s, h.content_start, ce) {
        Some(nb) => nb,
        None => {
            return Err(ParseError::Grammar(Field::Validity));
        },
    };
    if !(nb.tag == TAG_UTC_TIME || nb.tag == TAG_GENERALIZED_TIME) {
        return Err(ParseError::Grammar(Field::Validity));
    }
    proof {
        lemma_header_bounds(s@, h.content_start as int, ce as int);
    }
    let na = match read_header(s, nb.content_start + nb.content_len, ce) {
        Some(na) => na,
        None => {
            return Err(ParseError::Grammar(Field::Validity));
        },
    };
    if (na.tag == TAG_UTC_TIME || na.tag == TAG_GENERALIZED_TIME) && na.content_start
        + na.content_len == ce {
        Ok((nb.tag, na.tag, ce))
    } else {
        Err(ParseError::Grammar(Field::Validity))
    }
}

/// Walk a DER certificate and report which time variant each validity
/// bound used and the value tag of each RDN of both names, or fail at
/// the first grammar violation, naming the offending field.  The walk
/// is exactly `spec_extract`'s grammar, and as deep: contents of OIDs,
/// time strings, key and signature bits, unique-ids and the extensions
/// list are not decoded.
#[verifier::rlimit(100)]
pub fn extract_tags(der: &[u8]) -> (r: Result<CertificateTagReport, ParseError>)
    ensures
        match r {
            Ok(rep) => spec_extract(der@) == Ok::<TagReportModel, ParseError>(rep@),
            Err(er) => spec_extract(der@) == Err::<TagReportModel, ParseError>(er),
        },
{
    let e = der.len();
    let h = match read_header(der, 0, e) {
        Some(h) => h,
        None => {
            return Err(ParseError::Grammar(Field::Certificate));
        },
    };
    proof {
        lemma_header_bounds(der@, 0, e as int);
    }
    if h.tag != TAG_SEQUENCE {
        return Err(ParseError::Grammar(Field::Certificate));
    }
    let ce = h.content_start + h.content_len;
    if ce != e {
        return Err(ParseError::Grammar(Field::Certificate));
    }
    let th = match read_header(der, h.content_start, ce) {
        Some(th) => th,
        None => {
            return Err(ParseError::Grammar(Field::TbsCertificate));
        },
    };
    if th.tag != TAG_SEQUENCE {
        return Err(ParseError::Grammar(Field::TbsCertificate));
    }
    proof {
        lemma_header_bounds(der@, h.content_start as int, ce as int);
    }
    let tce = th.content_start + th.content_len;
    let p1 = match read_version(der, th.content_start, tce) {
        Ok(p) => p,
        Err(er) => {
            return Err(er);
        },
    };
    let p2 = match read_integer_skip(der, p1, tce, Field::SerialNumber) {
        Ok(p) => p,
        Err(er) => {
            return Err(er);
        },
    };
    let p3 = match read_algorithm_identifier(der, p2, tce, Field::SignatureAlgorithm) {
        Ok(p) => p,
        Err(er) => {
            return Err(er);
        },
    };
    let issuer = match parse_name_value_tags(der, p3, tce, Field::Issuer) {
        Ok(t) => t,
        Err(er) => {
            return Err(er);
        },
    };
    let v = match read_validity(der, issuer.1, tce) {
        Ok(v) => v,
        Err(er) => {
            return Err(er);
        },
    };
    let subject = match parse_name_value_tags(der, v.2, tce, Field::Subject) {
        Ok(t) => t,
        Err(er) => {
            return Err(er);
        },
    };
    let p4 = match read_spki(der, subject.1, tce) {
        Ok(p) => p,
        Err(er) => {
            return Err(er);
        },
    };
    let p5 = skip_optional(der, p4, tce, TAG_CTX_1_PRIMITIVE);
    let p6 = skip_optional(der, p5, tce, TAG_CTX_2_PRIMITIVE);
    let p7 = skip_optional(der, p6, tce, TAG_CTX_3_CONSTRUCTED);
    if p7 != tce {
        return Err(ParseError::Grammar(Field::TbsCertificate));
    }
    let q1 = match read_algorithm_identifier(der, tce, ce, Field::SignatureAlgorithm) {
        Ok(p) => p,
        Err(er) => {
            return Err(er);
        },
    };
    let bh = match read_header(der, q1, ce) {
        Some(bh) => bh,
        None => {
            return Err(ParseError::Grammar(Field::SignatureValue));
        },
    };
    proof {
        lemma_header_bounds(der@, q1 as int, ce as int);
    }
    if bh.tag == TAG_BIT_STRING && bh.content_start + bh.content_len == ce && bh.content_len >= 1
        && der[bh.content_start] <= 7 {
        Ok(
            CertificateTagReport {
                not_before_tag: v.0,
                not_after_tag: v.1,
                issuer_value_tags: issuer.0,
                subject_value_tags: subject.0,
            },
        )
    } else {
        Err(ParseError::Grammar(Field::SignatureValue))
    }
}

} // verus!
