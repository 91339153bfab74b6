//! The accumulator behind concatenation, formatting and collection: writes
//! gather in the smallest representation that still fits, promoting
//! monotonically from an inline buffer to a growable one, and finalize into
//! an immutable [`FlexStr`](crate::FlexStr) with minimal copying.
#![allow(unused_imports)]

use vstd::prelude::*;
use vstd::slice::slice_subrange;
use vstd::string::StringExecFns;

use crate::encoding::{
    byte_len, encode_char, lemma_byte_len_zero, lemma_encode_singleton, str_from_bytes,
};
use crate::inline::InlineFlexStr;
use crate::storage::Storage;
use crate::{FlexStr, INLINE_CAPACITY};

verus! {

enum BuilderState {
    /// The initial state: writes gather in an inline-sized buffer.
    Small(InlineFlexStr),
    /// A grown, heap-backed buffer that appends with amortized reallocation.
    Regular(String),
    /// An already-owned string handed through directly, to spare a copy.
    Large(String),
}

/// A transient accumulator, consumed exactly once into a [`FlexStr`].
/// Promotion only ever moves forward: a builder never returns to a smaller
/// state, and a write never fails.
pub struct FlexStrBuilder {
    state: BuilderState,
}

impl View for FlexStrBuilder {
    type V = Seq<char>;

    /// The characters written so far.
    closed spec fn view(&self) -> Seq<char> {
        match self.state {
            BuilderState::Small(ib) => ib@,
            BuilderState::Regular(s) => s@,
            BuilderState::Large(s) => s@,
        }
    }
}

/// Exactly one of the three builder states holds at any time.
pub proof fn lemma_exactly_one_builder_state(b: &FlexStrBuilder)
    ensures
        b.spec_is_small() || b.spec_is_regular() || b.spec_is_large(),
        b.spec_is_small() ==> !b.spec_is_regular() && !b.spec_is_large(),
        b.spec_is_regular() ==> !b.spec_is_small() && !b.spec_is_large(),
        b.spec_is_large() ==> !b.spec_is_small() && !b.spec_is_regular(),
{
}

impl FlexStrBuilder {
    /// True while writes still gather in the inline-sized buffer.
    pub closed spec fn spec_is_small(&self) -> bool {
        self.state matches BuilderState::Small(_)
    }

    /// True once the builder has grown a heap-backed buffer.
    pub closed spec fn spec_is_regular(&self) -> bool {
        self.state matches BuilderState::Regular(_)
    }

    /// True when the builder holds an owned string handed through directly.
    pub closed spec fn spec_is_large(&self) -> bool {
        self.state matches BuilderState::Large(_)
    }

    /// A fresh, empty builder in the Small state.
    pub fn new() -> (r: Self)
        ensures
            r@ == Seq::<char>::empty(),
            r.spec_is_small(),
    {
        FlexStrBuilder { state: BuilderState::Small(InlineFlexStr::empty()) }
    }

    /// A fresh, empty builder sized for `capacity` bytes: it starts Small
    /// when that many bytes would still fit inline, else directly Regular.
    pub fn with_capacity(capacity: usize) -> (r: Self)
        ensures
            r@ == Seq::<char>::empty(),
            capacity <= INLINE_CAPACITY <==> r.spec_is_small(),
            capacity > INLINE_CAPACITY <==> r.spec_is_regular(),
    {
        if capacity <= INLINE_CAPACITY {
            Self::new()
        } else {
            FlexStrBuilder { state: BuilderState::Regular(String::new()) }
        }
    }

    /// True while the builder is in the Small state.
    pub fn is_small(&self) -> (r: bool)
        ensures
            r == self.spec_is_small(),
    {
        matches!(&self.state, BuilderState::Small(_))
    }

    /// True once the builder is in the Regular state.
    pub fn is_regular(&self) -> (r: bool)
        ensures
            r == self.spec_is_regular(),
    {
        matches!(&self.state, BuilderState::Regular(_))
    }

    /// True while the builder is in the Large state.
    pub fn is_large(&self) -> (r: bool)
        ensures
            r == self.spec_is_large(),
    {
        matches!(&self.state, BuilderState::Large(_))
    }

    /// Bytes written so far.
    pub fn len(&self) -> (n: usize)
        ensures
            n == byte_len(self@),
    {
        match &self.state {
            BuilderState::Small(ib) => ib.len(),
            BuilderState::Regular(s) => s.as_str().as_bytes().len(),
            BuilderState::Large(s) => s.as_str().as_bytes().len(),
        }
    }

    /// True while nothing has been written.
    pub fn is_empty(&self) -> (r: bool)
        ensures
            r == (self@.len() == 0),
    {
        proof {
            lemma_byte_len_zero(self@);
        }
        self.len() == 0
    }

    /// Appends a string. Never fails: the instant a write would overflow the
    /// inline capacity, the builder promotes itself to the Regular state,
    /// copying the bytes gathered so far exactly once.
    pub fn str_write(&mut self, s: &str)
        ensures
            final(self)@ == old(self)@ + s@,
            old(self).spec_is_small() && byte_len(old(self)@) + byte_len(s@) <= INLINE_CAPACITY
                ==> final(self).spec_is_small(),
            old(self).spec_is_small() && byte_len(old(self)@) + byte_len(s@) > INLINE_CAPACITY
                ==> final(self).spec_is_regular(),
            old(self).spec_is_regular() ==> final(self).spec_is_regular(),
            old(self).spec_is_large() ==> final(self).spec_is_large(),
    {
        let mut st = BuilderState::Small(InlineFlexStr::empty());
        core::mem::swap(&mut st, &mut self.state);
        match st {
            BuilderState::Small(mut ib) => {
                if ib.try_concat(s) {
                    self.state = BuilderState::Small(ib);
                } else {
                    let mut grown = String::from_str(ib.as_str());
                    grown.append(s);
                    self.state = BuilderState::Regular(grown);
                }
            },
            BuilderState::Regular(mut buf) => {
                buf.append(s);
                self.state = BuilderState::Regular(buf);
            },
            BuilderState::Large(mut buf) => {
                buf.append(s);
                self.state = BuilderState::Large(buf);
            },
        }
    }

    /// Appends a single character, by way of its UTF-8 encoding.
    pub fn char_write(&mut self, c: char)
        ensures
            final(self)@ == old(self)@ + seq![c],
            old(self).spec_is_small() && byte_len(old(self)@) + byte_len(seq![c])
                <= INLINE_CAPACITY ==> final(self).spec_is_small(),
            old(self).spec_is_small() && byte_len(old(self)@) + byte_len(seq![c])
                > INLINE_CAPACITY ==> final(self).spec_is_regular(),
            old(self).spec_is_regular() ==> final(self).spec_is_regular(),
            old(self).spec_is_large() ==> final(self).spec_is_large(),
    {
        proof {
            lemma_encode_singleton(c);
            vstd::utf8::encode_utf8_valid_utf8(seq![c]);
            vstd::utf8::encode_utf8_decode_utf8(seq![c]);
        }
        let (buf, n) = encode_char(c);
        let sl = slice_subrange(buf.as_slice(), 0, n);
        match str_from_bytes(sl) {
            Ok(piece) => {
                proof {
                    vstd::utf8::encode_utf8_decode_utf8(piece@);
                    assert(piece@ == seq![c]);
                }
                self.str_write(piece);
            },
            Err(_) => {
                proof {
                    assert(false);
                }
            },
        }
    }

    /// Receives an already-owned string. While nothing has been written yet
    /// the builder becomes a pass-through for it, sparing a byte-by-byte
    /// copy; otherwise this appends like an ordinary write.
    pub fn owned_write(&mut self, s: String)
        ensures
            final(self)@ == old(self)@ + s@,
            old(self)@.len() == 0 ==> final(self).spec_is_large(),
            old(self)@.len() > 0 && old(self).spec_is_small() && byte_len(old(self)@) + byte_len(
                s@,
            ) <= INLINE_CAPACITY ==> final(self).spec_is_small(),
            old(self)@.len() > 0 && old(self).spec_is_small() && byte_len(old(self)@) + byte_len(
                s@,
            ) > INLINE_CAPACITY ==> final(self).spec_is_regular(),
            old(self)@.len() > 0 && old(self).spec_is_regular() ==> final(self).spec_is_regular(),
            old(self).spec_is_large() ==> final(self).spec_is_large(),
    {
        if self.is_empty() {
            proof {
                assert(old(self)@ + s@ =~= s@);
            }
            self.state = BuilderState::Large(s);
        } else {
            self.str_write(s.as_str());
        }
    }

    /// Consumes the builder into an immutable value: the Small state turns
    /// into an inline string with no further copy, the Regular and Large
    /// states move their buffer into heap storage.
    pub fn into_flex<'s, B: Storage>(self) -> (r: FlexStr<'s, B>)
        ensures
            r@ == self@,
            self.spec_is_small() ==> r.spec_is_inlined(),
            self.spec_is_regular() || self.spec_is_large() ==> r.spec_is_heap(),
    {
        match self.state {
            BuilderState::Small(ib) => FlexStr::from_inline_value(ib),
            BuilderState::Regular(s) => FlexStr::from_owned_string(s),
            BuilderState::Large(s) => FlexStr::from_owned_string(s),
        }
    }
}

} // verus!
