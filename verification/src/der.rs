//! Core DER primitives: reading a tag-length header with definite,
//! minimally encoded lengths, as the strict certificate grammar demands.

use vstd::prelude::*;

verus! {

/// ASN.1 identifier octets of the forms the certificate grammar uses.
pub const TAG_INTEGER: u8 = 0x02;

pub const TAG_BIT_STRING: u8 = 0x03;

pub const TAG_OID: u8 = 0x06;

pub const TAG_UTC_TIME: u8 = 0x17;

pub const TAG_GENERALIZED_TIME: u8 = 0x18;

pub const TAG_SEQUENCE: u8 = 0x30;

pub const TAG_SET: u8 = 0x31;

pub const TAG_CTX_0_CONSTRUCTED: u8 = 0xa0;

pub const TAG_CTX_1_PRIMITIVE: u8 = 0x81;

pub const TAG_CTX_2_PRIMITIVE: u8 = 0x82;

pub const TAG_CTX_3_CONSTRUCTED: u8 = 0xa3;

/// Value of the `n` bytes of `s` that start at `i`, read big-endian.
pub open spec fn be_bytes_val(s: Seq<u8>, i: int, n: int) -> int
    decreases n,
{
    if n <= 0 {
        0
    } else {
        be_bytes_val(s, i, n - 1) * 256 + s[i + n - 1]
    }
}

/// 256 to the power `n` (1 for `n <= 0`).
pub open spec fn pow256(n: int) -> int
    decreases n,
{
    if n <= 0 {
        1
    } else {
        256 * pow256(n - 1)
    }
}

pub proof fn lemma_pow256_pos(n: int)
    ensures
        pow256(n) >= 1,
    decreases n,
{
    if n > 0 {
        lemma_pow256_pos(n - 1);
    }
}

pub proof fn lemma_pow256_mono(a: int, b: int)
    requires
        a <= b,
    ensures
        pow256(a) <= pow256(b),
    decreases b - a,
{
    if a < b {
        lemma_pow256_mono(a, b - 1);
        lemma_pow256_pos(b - 1);
    }
}

pub proof fn lemma_be_bytes_val_bound(s: Seq<u8>, i: int, n: int)
    requires
        0 <= n,
    ensures
        0 <= be_bytes_val(s, i, n) < pow256(n),
    decreases n,
{
    if n > 0 {
        lemma_be_bytes_val_bound(s, i, n - 1);
        assert(be_bytes_val(s, i, n - 1) * 256 <= (pow256(n - 1) - 1) * 256);
    }
}

/// A decoded header: the identifier octet, where the content starts,
/// and how many content bytes follow.
pub ghost struct HeaderModel {
    pub tag: u8,
    pub content_start: int,
    pub content_len: int,
}

/// The DER header at `i`, confined to the region ending at `e`.
///
/// `Some` exactly when: two bytes of header fit before `e`, the tag number is
/// in low form (below 31), the length is definite and minimally encoded with
/// at most four length bytes, and the content fits before `e`.
pub open spec fn spec_header(s: Seq<u8>, i: int, e: int) -> Option<HeaderModel> {
    if !(0 <= i && i + 2 <= e && e <= s.len()) {
        None
    } else {
        let t = s[i];
        if t & 0x1f == 0x1f {
            None
        } else {
            let l0 = s[i + 1];
            if l0 < 0x80 {
                if i + 2 + (l0 as int) <= e {
                    Some(HeaderModel { tag: t, content_start: i + 2, content_len: l0 as int })
                } else {
                    None
                }
            } else if l0 == 0x80 {
                None
            } else {
                let n = (l0 - 0x80) as int;
                if n > 4 || i + 2 + n > e {
                    None
                } else if (n == 1 && s[i + 2] < 0x80) || (n > 1 && s[i + 2] == 0) {
                    None
                } else {
                    let len = be_bytes_val(s, i + 2, n);
                    if i + 2 + n + len <= e {
                        Some(HeaderModel { tag: t, content_start: i + 2 + n, content_len: len })
                    } else {
                        None
                    }
                }
            }
        }
    }
}

pub proof fn lemma_header_bounds(s: Seq<u8>, i: int, e: int)
    ensures
        match spec_header(s, i, e) {
            Some(h) => {
                &&& i + 2 <= h.content_start
                &&& h.content_start <= i + 6
                &&& 0 <= h.content_len
                &&& h.content_start + h.content_len <= e
                &&& e <= s.len()
            },
            None => true,
        },
{
    if 0 <= i && i + 2 <= e && e <= s.len() {
        let l0 = s[i + 1];
        if l0 > 0x80 {
            let n = (l0 - 0x80) as int;
            if 1 <= n && n <= 4 {
                lemma_be_bytes_val_bound(s, i + 2, n);
            }
        }
    }
}

/// A decoded header in executable form.
#[derive(Clone, Copy)]
pub struct Header {
    pub tag: u8,
    pub content_start: usize,
    pub content_len: usize,
}

/// The executable result agrees with the specification-level header.
pub open spec fn matches_model(r: Option<Header>, m: Option<HeaderModel>) -> bool {
    match r {
        Some(h) => m == Some(
            HeaderModel {
                tag: h.tag,
                content_start: h.content_start as int,
                content_len: h.content_len as int,
            },
        ),
        None => m is None,
    }
}

/// Read the DER header at `i`, confined to the region ending at `e`.
pub fn read_header(s: &[u8], i: usize, e: usize) -> (r: Option<Header>)
    requires
        e <= s@.len(),
    ensures
        matches_model(r, spec_header(s@, i as int, e as int)),
{
    if i >= e || e - i < 2 {
        return None;
    }
    let t = s[i];
    if t & 0x1f == 0x1f {
        return None;
    }
    let l0 = s[i + 1];
    if l0 < 0x80 {
        let len = l0 as usize;
        if len <= e - (i + 2) {
            Some(Header { tag: t, content_start: i + 2, content_len: len })
        } else {
            None
        }
    } else if l0 == 0x80 {
        None
    } else {
        let n = (l0 - 0x80) as usize;
        if n > 4 || n > e - (i + 2) {
            return None;
        }
        if (n == 1 && s[i + 2] < 0x80) || (n > 1 && s[i + 2] == 0) {
            return None;
        }
        let mut len: u64 = 0;
        let mut k: usize = 0;
        while k < n
            invariant
                k <= n,
                n <= 4,
                i + 2 + n <= e,
                e <= s@.len(),
                len == be_bytes_val(s@, i as int + 2, k as int),
            decreases n - k,
        {
            proof {
                lemma_be_bytes_val_bound(s@, i as int + 2, k as int);
                lemma_pow256_mono(k as int, 3);
                assert(pow256(0) == 1);
                assert(pow256(1) == 256);
                assert(pow256(2) == 65536);
                assert(pow256(3) == 16777216);
            }
            len = len * 256 + (s[i + 2 + k] as u64);
            k = k + 1;
        }
        let rem = e - (i + 2 + n);
        if len <= rem as u64 {
            let cl = len as usize;
            Some(Header { tag: t, content_start: i + 2 + n, content_len: cl })
        } else {
            None
        }
    }
}

} // verus!
