//! Byte-level view of text: UTF-8 helpers shared by the inline buffer, the
//! builder and the core representation.
#![allow(unused_imports)]

use vstd::prelude::*;
use vstd::string::*;
use vstd::utf8::*;

verus! {

/// Number of bytes in the UTF-8 encoding of a character sequence.
pub open spec fn byte_len(s: Seq<char>) -> nat {
    encode_utf8(s).len()
}

/// UTF-8 encoding distributes over concatenation of character sequences.
pub proof fn lemma_encode_utf8_concat(a: Seq<char>, b: Seq<char>)
    ensures
        encode_utf8(a + b) == encode_utf8(a) + encode_utf8(b),
    decreases a.len(),
{
    if a.len() == 0 {
        assert(a + b =~= b);
        assert(encode_utf8(a) + encode_utf8(b) =~= encode_utf8(b));
    } else {
        lemma_encode_utf8_concat(a.drop_first(), b);
        assert((a + b).drop_first() =~= a.drop_first() + b);
        assert(encode_utf8(a + b) =~= encode_utf8(a) + encode_utf8(b));
    }
}

/// Byte lengths add up under concatenation of character sequences.
pub proof fn lemma_byte_len_concat(a: Seq<char>, b: Seq<char>)
    ensures
        byte_len(a + b) == byte_len(a) + byte_len(b),
{
    lemma_encode_utf8_concat(a, b);
}

/// Only the empty character sequence encodes to no bytes at all.
pub proof fn lemma_byte_len_zero(s: Seq<char>)
    ensures
        byte_len(s) == 0 <==> s.len() == 0,
{
    if s.len() > 0 {
        vstd::utf8::char_is_scalar(s[0]);
        assert(encode_utf8(s) == encode_scalar(s[0] as u32) + encode_utf8(s.drop_first()));
        assert(encode_scalar(s[0] as u32).len() >= 1);
    }
}

/// A single character encodes to the encoding of its scalar value: between
/// one and four bytes.
pub proof fn lemma_encode_singleton(c: char)
    ensures
        encode_utf8(seq![c]) == encode_scalar(c as u32),
        1 <= byte_len(seq![c]) <= 4,
{
    vstd::utf8::char_is_scalar(c);
    assert(seq![c].drop_first() =~= Seq::<char>::empty());
    assert(seq![c][0] == c);
    assert(encode_utf8(Seq::<char>::empty()) =~= Seq::<u8>::empty());
    assert(encode_utf8(seq![c]) == encode_scalar(c as u32) + encode_utf8(seq![c].drop_first()));
    assert(encode_scalar(c as u32) + Seq::<u8>::empty() =~= encode_scalar(c as u32));
}

/// Encodes one character as UTF-8: the filled prefix of a four-byte buffer.
pub fn encode_char(c: char) -> (r: ([u8; 4], usize))
    ensures
        1 <= r.1 <= 4,
        r.0@.subrange(0, r.1 as int) == encode_scalar(c as u32),
{
    let u = c as u32;
    proof {
        vstd::utf8::char_is_scalar(c);
    }
    let mut buf = [0u8; 4];
    if u < 0x80 {
        proof {
            assert((u & 0x7F) == u) by (bit_vector)
                requires
                    u < 0x80,
            ;
        }
        buf[0] = u as u8;
        proof {
            assert(buf@.subrange(0, 1) =~= encode_scalar(u));
        }
        (buf, 1)
    } else if u < 0x800 {
        proof {
            assert(((u >> 6) & 0x1F) <= 0x1F && (u & 0x3F) <= 0x3F) by (bit_vector);
        }
        buf[0] = 0xC0u8 | ((u >> 6) & 0x1F) as u8;
        buf[1] = 0x80u8 | (u & 0x3F) as u8;
        proof {
            assert(buf@.subrange(0, 2) =~= encode_scalar(u));
        }
        (buf, 2)
    } else if u < 0x10000 {
        proof {
            assert(((u >> 12) & 0x0F) <= 0x0F && ((u >> 6) & 0x3F) <= 0x3F && (u & 0x3F) <= 0x3F)
                by (bit_vector);
        }
        buf[0] = 0xE0u8 | ((u >> 12) & 0x0F) as u8;
        buf[1] = 0x80u8 | ((u >> 6) & 0x3F) as u8;
        buf[2] = 0x80u8 | (u & 0x3F) as u8;
        proof {
            assert(buf@.subrange(0, 3) =~= encode_scalar(u));
        }
        (buf, 3)
    } else {
        proof {
            assert(((u >> 18) & 0x7) <= 0x7 && ((u >> 12) & 0x3F) <= 0x3F && ((u >> 6) & 0x3F)
                <= 0x3F && (u & 0x3F) <= 0x3F) by (bit_vector);
        }
        buf[0] = 0xF0u8 | ((u >> 18) & 0x7) as u8;
        buf[1] = 0x80u8 | ((u >> 12) & 0x3F) as u8;
        buf[2] = 0x80u8 | ((u >> 6) & 0x3F) as u8;
        buf[3] = 0x80u8 | (u & 0x3F) as u8;
        proof {
            assert(buf@.subrange(0, 4) =~= encode_scalar(u));
        }
        (buf, 4)
    }
}

/// Why a sequence of raw bytes could not be read as UTF-8 text: the length of
/// the prefix verified valid, and the length of the offending byte sequence
/// (`None` when the input ended in the middle of an encoding).
#[derive(Clone, Copy, PartialEq, Eq, Debug)]
pub struct Utf8Error {
    pub valid_up_to: usize,
    pub error_len: Option<usize>,
}

/// Relies on `core::str::from_utf8`: it returns `Ok` exactly on valid UTF-8
/// input, presenting the same bytes as text. On failure, its error reports an
/// index up to which the input was verified valid, and the length of the
/// invalid byte sequence (1 to 3 bytes), or `None` when the input ended with
/// an incomplete encoding.
#[verifier::external_body]
pub(crate) fn str_from_bytes(v: &[u8]) -> (r: Result<&str, Utf8Error>)
    ensures
        valid_utf8(v@) <==> r is Ok,
        r matches Ok(s) ==> s.spec_bytes() == v@,
        r matches Err(e) ==> {
            &&& e.valid_up_to <= v@.len()
            &&& valid_utf8(v@.subrange(0, e.valid_up_to as int))
            &&& (e.error_len matches Some(n) ==> 1 <= n <= 3 && e.valid_up_to + n <= v@.len())
            &&& (e.error_len is None ==> e.valid_up_to < v@.len())
        },
{
    match core::str::from_utf8(v) {
        Ok(s) => Ok(s),
        Err(e) => Err(Utf8Error { valid_up_to: e.valid_up_to(), error_len: e.error_len() }),
    }
}

/// Decides whether two strings hold the same characters, comparing their
/// UTF-8 bytes.
pub fn str_eq(a: &str, b: &str) -> (r: bool)
    ensures
        r == (a@ == b@),
{
    broadcast use vstd::utf8::encode_utf8_decode_utf8;

    let ab = a.as_bytes();
    let bb = b.as_bytes();
    if ab.len() != bb.len() {
        proof {
            if a@ == b@ {
                assert(encode_utf8(a@) == encode_utf8(b@));
            }
        }
        return false;
    }
    let n = ab.len();
    let mut i: usize = 0;
    while i < n
        invariant
            0 <= i <= n,
            n == ab@.len(),
            n == bb@.len(),
            ab@ == a.spec_bytes(),
            bb@ == b.spec_bytes(),
            forall|j: int| 0 <= j < i ==> ab@[j] == bb@[j],
        decreases n - i,
    {
        if ab[i] != bb[i] {
            proof {
                if a@ == b@ {
                    assert(encode_utf8(a@) == encode_utf8(b@));
                    assert(ab@[i as int] == bb@[i as int]);
                }
            }
            return false;
        }
        i += 1;
    }
    proof {
        assert(ab@ =~= bb@);
        assert(encode_utf8(a@) == encode_utf8(b@));
        assert(a@ == b@) by {
            assert(decode_utf8(encode_utf8(a@)) == a@);
            assert(decode_utf8(encode_utf8(b@)) == b@);
        }
    }
    true
}

/// Lexicographic order on byte sequences: the order `str` comparison uses,
/// which for UTF-8 data coincides with code-point order.
pub open spec fn lex_cmp_bytes(a: Seq<u8>, b: Seq<u8>) -> core::cmp::Ordering
    decreases a.len(),
{
    if a.len() == 0 && b.len() == 0 {
        core::cmp::Ordering::Equal
    } else if a.len() == 0 {
        core::cmp::Ordering::Less
    } else if b.len() == 0 {
        core::cmp::Ordering::Greater
    } else if a[0] < b[0] {
        core::cmp::Ordering::Less
    } else if a[0] > b[0] {
        core::cmp::Ordering::Greater
    } else {
        lex_cmp_bytes(a.drop_first(), b.drop_first())
    }
}

/// The order's `Equal` outcome coincides with equality of the byte
/// sequences.
pub proof fn lemma_lex_cmp_equal(a: Seq<u8>, b: Seq<u8>)
    ensures
        (lex_cmp_bytes(a, b) == core::cmp::Ordering::Equal) <==> (a == b),
    decreases a.len(),
{
    if a.len() == 0 && b.len() == 0 {
        assert(a =~= b);
    } else if a.len() > 0 && b.len() > 0 && a[0] == b[0] {
        lemma_lex_cmp_equal(a.drop_first(), b.drop_first());
        if a.drop_first() == b.drop_first() {
            assert(a =~= b) by {
                assert(a.len() == b.len());
                assert forall|i: int| 0 <= i < a.len() implies a[i] == b[i] by {
                    if i > 0 {
                        assert(a.drop_first()[i - 1] == b.drop_first()[i - 1]);
                    }
                }
            }
        }
        if a == b {
            assert(a.drop_first() =~= b.drop_first());
        }
    }
}

/// Ordering is consistent with equality through the semantic view: two
/// character sequences order as `Equal` exactly when they are the same.
pub proof fn lemma_order_consistent_with_eq(a: Seq<char>, b: Seq<char>)
    ensures
        (lex_cmp_bytes(encode_utf8(a), encode_utf8(b)) == core::cmp::Ordering::Equal) <==> (a
            == b),
{
    lemma_lex_cmp_equal(encode_utf8(a), encode_utf8(b));
    if encode_utf8(a) == encode_utf8(b) {
        vstd::utf8::encode_utf8_decode_utf8(a);
        vstd::utf8::encode_utf8_decode_utf8(b);
    }
}

/// Compares two strings by their UTF-8 bytes, lexicographically.
pub fn str_cmp(a: &str, b: &str) -> (r: core::cmp::Ordering)
    ensures
        r == lex_cmp_bytes(a.spec_bytes(), b.spec_bytes()),
{
    let ab = a.as_bytes();
    let bb = b.as_bytes();
    let na = ab.len();
    let nb = bb.len();
    let mut i: usize = 0;
    proof {
        assert(ab@.skip(0) =~= ab@);
        assert(bb@.skip(0) =~= bb@);
    }
    while i < na && i < nb
        invariant
            0 <= i <= na,
            0 <= i <= nb,
            na == ab@.len(),
            nb == bb@.len(),
            ab@ == a.spec_bytes(),
            bb@ == b.spec_bytes(),
            lex_cmp_bytes(ab@, bb@) == lex_cmp_bytes(
                ab@.skip(i as int),
                bb@.skip(i as int),
            ),
        decreases na - i,
    {
        let x = ab[i];
        let y = bb[i];
        proof {
            assert(ab@.skip(i as int)[0] == ab@[i as int]);
            assert(bb@.skip(i as int)[0] == bb@[i as int]);
        }
        if x < y {
            return core::cmp::Ordering::Less;
        }
        if x > y {
            return core::cmp::Ordering::Greater;
        }
        proof {
            assert(ab@.skip(i as int).drop_first() =~= ab@.skip(i as int + 1));
            assert(bb@.skip(i as int).drop_first() =~= bb@.skip(i as int + 1));
        }
        i += 1;
    }
    proof {
        if na == nb {
            assert(ab@.skip(i as int).len() == 0 && bb@.skip(i as int).len() == 0);
        } else if na < nb {
            assert(ab@.skip(i as int).len() == 0 && bb@.skip(i as int).len() > 0);
        } else {
            assert(ab@.skip(i as int).len() > 0 && bb@.skip(i as int).len() == 0);
        }
    }
    if na == nb {
        core::cmp::Ordering::Equal
    } else if na < nb {
        core::cmp::Ordering::Less
    } else {
        core::cmp::Ordering::Greater
    }
}

} // verus!
