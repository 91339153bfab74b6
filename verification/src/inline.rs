//! The inline buffer: a string stored entirely inside a fixed-size byte
//! array, so that short content needs no heap allocation.
#![allow(unused_imports)]

use vstd::prelude::*;
use vstd::slice::*;
use vstd::string::*;
use vstd::utf8::*;

use crate::encoding::{byte_len, lemma_encode_utf8_concat, str_from_bytes};
use crate::INLINE_CAPACITY;

verus! {

/// A string held in a fixed-capacity byte buffer with an embedded length:
/// up to [`INLINE_CAPACITY`] bytes of UTF-8 data.
#[derive(Clone, Copy, Debug)]
pub struct InlineFlexStr {
    buf: [u8; 22],
    len: u8,
}

impl View for InlineFlexStr {
    type V = Seq<char>;

    closed spec fn view(&self) -> Seq<char> {
        decode_utf8(self.bytes())
    }
}

impl InlineFlexStr {
    /// The stored bytes: the UTF-8 encoding of the characters this value holds.
    pub closed spec fn bytes(self) -> Seq<u8> {
        self.buf@.take(self.len as int)
    }

    /// Well-formedness: the embedded length fits the capacity and the stored
    /// bytes are valid UTF-8. Holds of every value of this type.
    #[verifier::type_invariant]
    pub closed spec fn wf(self) -> bool {
        &&& self.len <= INLINE_CAPACITY
        &&& valid_utf8(self.bytes())
    }

    /// The stored bytes are the encoding of the stored characters, and never
    /// exceed the inline capacity.
    pub proof fn lemma_bytes(self)
        requires
            self.wf(),
        ensures
            self.bytes() == encode_utf8(self@),
            byte_len(self@) <= INLINE_CAPACITY,
    {
        broadcast use vstd::utf8::decode_utf8_encode_utf8;

        assert(encode_utf8(decode_utf8(self.bytes())) == self.bytes());
    }

    /// An empty inline string.
    pub fn empty() -> (r: InlineFlexStr)
        ensures
            r@ == Seq::<char>::empty(),
    {
        proof {
            let nothing = Seq::<u8>::empty();
            assert(valid_utf8(nothing));
            assert(decode_utf8(nothing) =~= Seq::<char>::empty());
            assert([0u8; 22]@.take(0) =~= nothing);
        }
        InlineFlexStr { buf: [0u8; 22], len: 0 }
    }

    /// Attempts to store `s` inline. Succeeds exactly when the byte length of
    /// `s` fits the inline capacity; on failure the original input is handed
    /// back untouched.
    pub fn try_new<'a>(s: &'a str) -> (r: Result<InlineFlexStr, &'a str>)
        ensures
            byte_len(s@) <= INLINE_CAPACITY <==> r is Ok,
            r matches Ok(ib) ==> ib@ == s@,
            r matches Err(t) ==> t == s,
    {
        let bytes = s.as_bytes();
        proof {
            vstd::utf8::encode_utf8_valid_utf8(s@);
            vstd::utf8::encode_utf8_decode_utf8(s@);
        }
        if bytes.len() > INLINE_CAPACITY {
            Err(s)
        } else {
            Ok(Self::from_byte_slice(bytes))
        }
    }

    /// Copies the given UTF-8 bytes, which must fit, into a fresh buffer.
    pub(crate) fn from_byte_slice(bytes: &[u8]) -> (r: InlineFlexStr)
        requires
            bytes@.len() <= INLINE_CAPACITY,
            valid_utf8(bytes@),
        ensures
            r.bytes() == bytes@,
            r@ == decode_utf8(bytes@),
    {
        let n = bytes.len();
        let mut buf = [0u8; 22];
        let mut i: usize = 0;
        while i < n
            invariant
                0 <= i <= n <= 22,
                n == bytes@.len(),
                buf@.len() == 22,
                forall|j: int| 0 <= j < i ==> buf@[j] == bytes@[j],
            decreases n - i,
        {
            buf[i] = bytes[i];
            i += 1;
        }
        proof {
            assert(buf@.take(n as int) =~= bytes@);
        }
        let ib = InlineFlexStr { buf, len: n as u8 };
        ib
    }

    /// The stored length in bytes.
    pub fn len(&self) -> (n: usize)
        ensures
            n == byte_len(self@),
    {
        proof {
            use_type_invariant(&*self);
            self.lemma_bytes();
        }
        self.len as usize
    }

    /// True when no bytes are stored.
    pub fn is_empty(&self) -> (r: bool)
        ensures
            r == (self@.len() == 0),
    {
        proof {
            use_type_invariant(&*self);
            self.lemma_bytes();
            if self@.len() > 0 {
                assert(encode_utf8(self@).len() > 0) by {
                    assert(encode_scalar(self@[0] as u32).len() > 0) by {
                        vstd::utf8::char_is_scalar(self@[0]);
                    }
                }
            }
        }
        self.len == 0
    }

    /// Presents the stored bytes as a string slice.
    pub fn as_str(&self) -> (r: &str)
        ensures
            r@ == self@,
    {
        proof {
            use_type_invariant(&*self);
            self.lemma_bytes();
        }
        let sl = slice_subrange(self.buf.as_slice(), 0, self.len as usize);
        match str_from_bytes(sl) {
            Ok(s) => {
                proof {
                    broadcast use vstd::utf8::encode_utf8_decode_utf8;

                    assert(decode_utf8(s.spec_bytes()) == s@);
                    assert(decode_utf8(encode_utf8(s@)) == s@);
                }
                s
            },
            Err(_) => {
                proof {
                    assert(false);
                }
                vstd::pervasive::unreached()
            },
        }
    }

    /// Appends `other` in place when the combined byte length still fits the
    /// inline capacity; otherwise leaves this value completely unmodified.
    pub fn try_concat(&mut self, other: &str) -> (r: bool)
        ensures
            r == (byte_len(old(self)@) + byte_len(other@) <= INLINE_CAPACITY),
            r ==> final(self)@ == old(self)@ + other@,
            !r ==> *final(self) == *old(self),
    {
        proof {
            use_type_invariant(&*self);
            self.lemma_bytes();
        }
        let extra = other.as_bytes();
        if extra.len() > INLINE_CAPACITY - (self.len as usize) {
            return false;
        }
        let n = self.len as usize;
        let m = extra.len();
        let mut buf = self.buf;
        let mut i: usize = 0;
        while i < m
            invariant
                0 <= i <= m,
                n + m <= 22,
                n == old(self).bytes().len(),
                m == extra@.len(),
                buf@.len() == 22,
                buf@.take(n as int) == old(self).bytes(),
                forall|j: int| 0 <= j < i ==> buf@[n + j] == extra@[j],
            decreases m - i,
        {
            buf[n + i] = extra[i];
            proof {
                assert(buf@.take(n as int) =~= old(self).bytes());
            }
            i += 1;
        }
        proof {
            assert(buf@.take((n + m) as int) =~= old(self).bytes() + extra@);
            lemma_encode_utf8_concat(old(self)@, other@);
            assert(buf@.take((n + m) as int) == encode_utf8(old(self)@ + other@));
            vstd::utf8::encode_utf8_valid_utf8(old(self)@ + other@);
            vstd::utf8::encode_utf8_decode_utf8(old(self)@ + other@);
        }
        let ib = InlineFlexStr { buf, len: (n + m) as u8 };
        *self = ib;
        true
    }
}

} // verus!
