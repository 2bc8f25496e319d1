//! The Name grammar: a SEQUENCE of RDNs, each RDN a SET of
//! attribute-type-and-value pairs.  The walk demands exactly one pair per
//! RDN and records the outer tag of each pair's value, in RDN order.

use vstd::prelude::*;

use crate::der::{lemma_header_bounds, read_header, spec_header, TAG_OID, TAG_SEQUENCE, TAG_SET};
use crate::errors::{Field, ParseError};

verus! {

/// One AttributeTypeAndValue at `i`, confined to the region ending at `e`:
/// a SEQUENCE holding an OID and then exactly one value of any tag.
/// `Some((value_tag, end))` gives the value's identifier octet and the
/// position just past the pair.
pub open spec fn spec_atv(s: Seq<u8>, i: int, e: int) -> Option<(u8, int)> {
    match spec_header(s, i, e) {
        Some(h) => {
            if h.tag != TAG_SEQUENCE {
                None
            } else {
                let ce = h.content_start + h.content_len;
                match spec_header(s, h.content_start, ce) {
                    Some(oh) => {
                        if oh.tag != TAG_OID {
                            None
                        } else {
                            match spec_header(s, oh.content_start + oh.content_len, ce) {
                                Some(vh) => {
                                    if vh.content_start + vh.content_len == ce {
                                        Some((vh.tag, ce))
                                    } else {
                                        None
                                    }
                                },
                                None => None,
                            }
                        }
                    },
                    None => None,
                }
            }
        },
        None => None,
    }
}

pub proof fn lemma_atv_bounds(s: Seq<u8>, i: int, e: int)
    ensures
        match spec_atv(s, i, e) {
            Some(p) => i < p.1 <= e,
            None => true,
        },
{
    lemma_header_bounds(s, i, e);
}

/// How many well-formed AttributeTypeAndValue pairs tile the region from
/// `i` to `e` exactly; `None` when the region is not such a tiling.
pub open spec fn spec_atv_count(s: Seq<u8>, i: int, e: int) -> Option<int>
    decreases e - i,
{
    if i >= e {
        if i == e {
            Some(0)
        } else {
            None
        }
    } else {
        match spec_atv(s, i, e) {
            Some(p) => {
                if i < p.1 && p.1 <= e {
                    match spec_atv_count(s, p.1, e) {
                        Some(c) => Some(c + 1),
                        None => None,
                    }
                } else {
                    None
                }
            },
            None => None,
        }
    }
}

pub proof fn lemma_atv_count_nonneg(s: Seq<u8>, i: int, e: int)
    ensures
        match spec_atv_count(s, i, e) {
            Some(c) => c >= 0,
            None => true,
        },
    decreases e - i,
{
    if i < e {
        match spec_atv(s, i, e) {
            Some(p) => {
                if i < p.1 && p.1 <= e {
                    lemma_atv_count_nonneg(s, p.1, e);
                }
            },
            None => {},
        }
    }
}

/// The value tags of the RDNs tiling the region from `i` to `e` exactly,
/// one tag per RDN, in order.  An RDN whose SET holds zero pairs, or two
/// or more well-formed pairs, is `MalformedName`; any other violation is
/// `Grammar(f)`.
pub open spec fn spec_rdn_tags(s: Seq<u8>, i: int, e: int, f: Field) -> Result<Seq<u8>, ParseError>
    decreases e - i,
{
    if i >= e {
        if i == e {
            Ok(Seq::empty())
        } else {
            Err(ParseError::Grammar(f))
        }
    } else {
        match spec_header(s, i, e) {
            Some(h) => {
                if h.tag != TAG_SET {
                    Err(ParseError::Grammar(f))
                } else {
                    let ce = h.content_start + h.content_len;
                    match spec_atv(s, h.content_start, ce) {
                        Some(p) => {
                            if p.1 == ce {
                                if i < ce && ce <= e {
                                    match spec_rdn_tags(s, ce, e, f) {
                                        Ok(rest) => Ok(seq![p.0] + rest),
                                        Err(er) => Err(er),
                                    }
                                } else {
                                    Err(ParseError::Grammar(f))
                                }
                            } else {
                                match spec_atv_count(s, p.1, ce) {
                                    Some(_) => Err(ParseError::MalformedName(f)),
                                    None => Err(ParseError::Grammar(f)),
                                }
                            }
                        },
                        None => {
                            if h.content_len == 0 {
                                Err(ParseError::MalformedName(f))
                            } else {
                                Err(ParseError::Grammar(f))
                            }
                        },
                    }
                }
            },
            None => Err(ParseError::Grammar(f)),
        }
    }
}

/// A whole Name at `i`: a SEQUENCE whose content is tiled by RDNs.
/// `Ok((tags, end))` gives the value tags in RDN order and the position
/// just past the name.
pub open spec fn spec_name(s: Seq<u8>, i: int, e: int, f: Field) -> Result<
    (Seq<u8>, int),
    ParseError,
> {
    match spec_header(s, i, e) {
        Some(h) => {
            if h.tag != TAG_SEQUENCE {
                Err(ParseError::Grammar(f))
            } else {
                let ce = h.content_start + h.content_len;
                match spec_rdn_tags(s, h.content_start, ce, f) {
                    Ok(tags) => Ok((tags, ce)),
                    Err(er) => Err(er),
                }
            }
        },
        None => Err(ParseError::Grammar(f)),
    }
}

/// How many RDNs (SET elements) tile the region from `i` to `e` exactly.
pub open spec fn spec_rdn_count(s: Seq<u8>, i: int, e: int) -> Option<int>
    decreases e - i,
{
    if i >= e {
        if i == e {
            Some(0)
        } else {
            None
        }
    } else {
        match spec_header(s, i, e) {
            Some(h) => {
                if h.tag != TAG_SET {
                    None
                } else {
                    let ce = h.content_start + h.content_len;
                    if i < ce && ce <= e {
                        match spec_rdn_count(s, ce, e) {
                            Some(c) => Some(c + 1),
                            None => None,
                        }
                    } else {
                        None
                    }
                }
            },
            None => None,
        }
    }
}

/// How many RDNs a whole Name at `i` holds.
pub open spec fn spec_name_rdn_count(s: Seq<u8>, i: int, e: int) -> Option<int> {
    match spec_header(s, i, e) {
        Some(h) => {
            if h.tag != TAG_SEQUENCE {
                None
            } else {
                spec_rdn_count(s, h.content_start, h.content_start + h.content_len)
            }
        },
        None => None,
    }
}

/// Law: when a region of RDNs parses, the recovered tag sequence holds
/// exactly one tag per RDN, so its length is the RDN count.
pub proof fn lemma_rdn_tags_len_is_count(s: Seq<u8>, i: int, e: int, f: Field)
    ensures
        match spec_rdn_tags(s, i, e, f) {
            Ok(tags) => spec_rdn_count(s, i, e) == Some(tags.len() as int),
            Err(_) => true,
        },
    decreases e - i,
{
    if i < e {
        match spec_header(s, i, e) {
            Some(h) => {
                if h.tag == TAG_SET {
                    let ce = h.content_start + h.content_len;
                    match spec_atv(s, h.content_start, ce) {
                        Some(p) => {
                            if p.1 == ce && i < ce && ce <= e {
                                lemma_rdn_tags_len_is_count(s, ce, e, f);
                            }
                        },
                        None => {},
                    }
                }
            },
            None => {},
        }
    }
}

/// Law: when a whole Name parses, the tag sequence's length equals the
/// name's RDN count.
pub proof fn lemma_name_tags_len_is_rdn_count(s: Seq<u8>, i: int, e: int, f: Field)
    ensures
        match spec_name(s, i, e, f) {
            Ok(r) => spec_name_rdn_count(s, i, e) == Some(r.0.len() as int),
            Err(_) => true,
        },
{
    match spec_header(s, i, e) {
        Some(h) => {
            if h.tag == TAG_SEQUENCE {
                lemma_rdn_tags_len_is_count(s, h.content_start, h.content_start + h.content_len, f);
            }
        },
        None => {},
    }
}

/// Law: an RDN whose SET is tiled by `k` well-formed attribute-value
/// pairs with `k` zero or at least two is rejected as `MalformedName`,
/// with no partial output.
pub proof fn lemma_malformed_rdn_rejected(s: Seq<u8>, i: int, e: int, f: Field, k: int)
    requires
        i < e,
        spec_header(s, i, e) matches Some(h) && h.tag == TAG_SET && spec_atv_count(
            s,
            h.content_start,
            h.content_start + h.content_len,
        ) == Some(k),
        k == 0 || k >= 2,
    ensures
        spec_rdn_tags(s, i, e, f) == Err::<Seq<u8>, ParseError>(ParseError::MalformedName(f)),
{
    let h = spec_header(s, i, e).unwrap();
    let cs = h.content_start;
    let ce = h.content_start + h.content_len;
    lemma_header_bounds(s, i, e);
    if k == 0 {
        // a count of zero only arises from the empty region: a first pair
        // would make the count at least one
        if cs < ce {
            match spec_atv(s, cs, ce) {
                Some(p) => {
                    lemma_atv_count_nonneg(s, p.1, ce);
                },
                None => {},
            }
        }
        assert(cs == ce);
    } else {
        // the first pair parses and at least one more follows it
        assert(cs < ce);
        let p = spec_atv(s, cs, ce).unwrap();
        assert(spec_atv_count(s, p.1, ce) == Some(k - 1));
        if p.1 == ce {
            assert(spec_atv_count(s, ce, ce) == Some(0int));
        }
    }
}

/// The RDN walk over the region from `i` to `e` encounters a malformed
/// RDN: some SET, reached by stepping over well-formed one-attribute
/// RDNs, whose content is tiled by a number of attribute-value pairs
/// other than one.
pub open spec fn spec_has_malformed_rdn(s: Seq<u8>, i: int, e: int) -> bool
    decreases e - i,
{
    if i >= e {
        false
    } else {
        match spec_header(s, i, e) {
            Some(h) => {
                if h.tag != TAG_SET {
                    false
                } else {
                    let ce = h.content_start + h.content_len;
                    match spec_atv_count(s, h.content_start, ce) {
                        Some(k) => {
                            if k != 1 {
                                true
                            } else if i < ce && ce <= e {
                                spec_has_malformed_rdn(s, ce, e)
                            } else {
                                false
                            }
                        },
                        None => false,
                    }
                }
            },
            None => false,
        }
    }
}

/// Law: whenever the RDN walk encounters a malformed RDN — at any
/// position, not only the first — the whole walk is rejected as
/// `MalformedName`, with no partial output.
pub proof fn lemma_any_malformed_rdn_rejected(s: Seq<u8>, i: int, e: int, f: Field)
    requires
        spec_has_malformed_rdn(s, i, e),
    ensures
        spec_rdn_tags(s, i, e, f) == Err::<Seq<u8>, ParseError>(ParseError::MalformedName(f)),
    decreases e - i,
{
    let h = spec_header(s, i, e).unwrap();
    let cs = h.content_start;
    let ce = h.content_start + h.content_len;
    let k = spec_atv_count(s, cs, ce).unwrap();
    lemma_header_bounds(s, i, e);
    if k != 1 {
        if cs < ce {
            match spec_atv(s, cs, ce) {
                Some(p) => {
                    lemma_atv_count_nonneg(s, p.1, ce);
                },
                None => {},
            }
        }
        lemma_malformed_rdn_rejected(s, i, e, f, k);
    } else {
        // the head RDN holds exactly one pair, which must fill its SET
        let p = spec_atv(s, cs, ce).unwrap();
        assert(spec_atv_count(s, p.1, ce) == Some(0int));
        if p.1 != ce {
            match spec_atv(s, p.1, ce) {
                Some(q) => {
                    lemma_atv_count_nonneg(s, q.1, ce);
                },
                None => {},
            }
        }
        assert(p.1 == ce);
        lemma_any_malformed_rdn_rejected(s, ce, e, f);
    }
}

/// Law: a whole Name whose RDN walk encounters a malformed RDN is
/// rejected as `MalformedName`.
pub proof fn lemma_name_with_malformed_rdn_rejected(s: Seq<u8>, i: int, e: int, f: Field)
    requires
        spec_header(s, i, e) matches Some(h) && h.tag == TAG_SEQUENCE && spec_has_malformed_rdn(
            s,
            h.content_start,
            h.content_start + h.content_len,
        ),
    ensures
        spec_name(s, i, e, f) == Err::<(Seq<u8>, int), ParseError>(ParseError::MalformedName(f)),
{
    let h = spec_header(s, i, e).unwrap();
    lemma_any_malformed_rdn_rejected(s, h.content_start, h.content_start + h.content_len, f);
}

/// Read one AttributeTypeAndValue at `i`, confined to the region ending
/// at `e`.
pub fn read_atv(s: &[u8], i: usize, e: usize) -> (r: Option<(u8, usize)>)
    requires
        e <= s@.len(),
    ensures
        match r {
            Some(p) => spec_atv(s@, i as int, e as int) == Some((p.0, p.1 as int)),
            None => spec_atv(s@, i as int, e as int) is None,
        },
{
    let h = match read_header(s, i, e) {
        Some(h) => h,
        None => {
            return None;
        },
    };
    if h.tag != TAG_SEQUENCE {
        return None;
    }
    proof {
        lemma_header_bounds(s@, i as int, e as int);
    }
    let ce = h.content_start + h.content_len;
    let oh = match read_header(s, h.content_start, ce) {
        Some(oh) => oh,
        None => {
            return None;
        },
    };
    if oh.tag != TAG_OID {
        return None;
    }
    proof {
        lemma_header_bounds(s@, h.content_start as int, ce as int);
    }
    let vh = match read_header(s, oh.content_start + oh.content_len, ce) {
        Some(vh) => vh,
        None => {
            return None;
        },
    };
    proof {
        lemma_header_bounds(s@, oh.content_start + oh.content_len as int, ce as int);
    }
    if vh.content_start + vh.content_len == ce {
        Some((vh.tag, ce))
    } else {
        None
    }
}

/// Decide whether the region from `i` to `e` is tiled exactly by
/// well-formed AttributeTypeAndValue pairs.
pub fn atvs_tile_region(s: &[u8], i: usize, e: usize) -> (r: bool)
    requires
        e <= s@.len(),
    ensures
        r == (spec_atv_count(s@, i as int, e as int) is Some),
{
    if i > e {
        return false;
    }
    let mut p = i;
    while p < e
        invariant
            i <= p <= e,
            e <= s@.len(),
            (spec_atv_count(s@, i as int, e as int) is Some) == (spec_atv_count(
                s@,
                p as int,
                e as int,
            ) is Some),
        decreases e - p,
    {
        proof {
            lemma_atv_bounds(s@, p as int, e as int);
        }
        match read_atv(s, p, e) {
            Some(q) => {
                p = q.1;
            },
            None => {
                return false;
            },
        }
    }
    true
}

/// Walk a whole Name at `i`: collect the single attribute value tag of
/// each RDN, in RDN order, demanding exactly one pair per RDN.
#[verifier::rlimit(60)]
#[verifier::loop_isolation(false)]
pub fn parse_name_value_tags(s: &[u8], i: usize, e: usize, f: Field) -> (r: Result<
    (Vec<u8>, usize),
    ParseError,
>)
    requires
        e <= s@.len(),
    ensures
        match r {
            Ok(t) => spec_name(s@, i as int, e as int, f) == Ok::<(Seq<u8>, int), ParseError>(
                (t.0@, t.1 as int),
            ),
            Err(er) => spec_name(s@, i as int, e as int, f) == Err::<(Seq<u8>, int), ParseError>(
                er,
            ),
        },
{
    let h = match read_header(s, i, e) {
        Some(h) => h,
        None => {
            return Err(ParseError::Grammar(f));
        },
    };
    if h.tag != TAG_SEQUENCE {
        return Err(ParseError::Grammar(f));
    }
    proof {
        lemma_header_bounds(s@, i as int, e as int);
    }
    let cs = h.content_start;
    let ce = h.content_start + h.content_len;
    let mut tags: Vec<u8> = Vec::new();
    let mut p = cs;
    while p < ce
        invariant
            cs <= p <= ce,
            ce <= s@.len(),
            match spec_rdn_tags(s@, p as int, ce as int, f) {
                Ok(rest) => spec_rdn_tags(s@, cs as int, ce as int, f) == Ok::<
                    Seq<u8>,
                    ParseError,
                >(tags@ + rest),
                Err(er) => spec_rdn_tags(s@, cs as int, ce as int, f) == Err::<
                    Seq<u8>,
                    ParseError,
                >(er),
            },
        decreases ce - p,
    {
        let rh = match read_header(s, p, ce) {
            Some(rh) => rh,
            None => {
                proof {
                    assert(spec_rdn_tags(s@, p as int, ce as int, f) == Err::<Seq<u8>, ParseError>(
                        ParseError::Grammar(f),
                    ));
                }
                return Err(ParseError::Grammar(f));
            },
        };
        if rh.tag != TAG_SET {
            proof {
                assert(spec_rdn_tags(s@, p as int, ce as int, f) == Err::<Seq<u8>, ParseError>(
                    ParseError::Grammar(f),
                ));
            }
            return Err(ParseError::Grammar(f));
        }
        proof {
            lemma_header_bounds(s@, p as int, ce as int);
        }
        let rce = rh.content_start + rh.content_len;
        match read_atv(s, rh.content_start, rce) {
            Some(q) => {
                if q.1 == rce {
                    let ghost old_tags = tags@;
                    tags.push(q.0);
                    proof {
                        match spec_rdn_tags(s@, rce as int, ce as int, f) {
                            Ok(rest) => {
                                assert(old_tags + (seq![q.0] + rest) =~= tags@ + rest);
                            },
                            Err(_) => {},
                        }
                    }
                    p = rce;
                } else {
                    proof {
                        lemma_atv_bounds(s@, rh.content_start as int, rce as int);
                    }
                    if atvs_tile_region(s, q.1, rce) {
                        proof {
                            assert(spec_rdn_tags(s@, p as int, ce as int, f) == Err::<
                                Seq<u8>,
                                ParseError,
                            >(ParseError::MalformedName(f)));
                        }
                        return Err(ParseError::MalformedName(f));
                    } else {
                        proof {
                            assert(spec_rdn_tags(s@, p as int, ce as int, f) == Err::<
                                Seq<u8>,
                                ParseError,
                            >(ParseError::Grammar(f)));
                        }
                        return Err(ParseError::Grammar(f));
                    }
                }
            },
            None => {
                if rh.content_len == 0 {
                    proof {
                        assert(spec_rdn_tags(s@, p as int, ce as int, f) == Err::<
                            Seq<u8>,
                            ParseError,
                        >(ParseError::MalformedName(f)));
                    }
                    return Err(ParseError::MalformedName(f));
                } else {
                    proof {
                        assert(spec_rdn_tags(s@, p as int, ce as int, f) == Err::<
                            Seq<u8>,
                            ParseError,
                        >(ParseError::Grammar(f)));
                    }
                    return Err(ParseError::Grammar(f));
                }
            },
        }
    }
    proof {
        assert(tags@ + Seq::<u8>::empty() =~= tags@);
    }
    Ok((tags, ce))
}

} // verus!
