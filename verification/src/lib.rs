//! A flexible, immutable string type that avoids heap allocation for short or
//! statically-known content, falling back to pluggable heap storage otherwise.
//!
//! A [`FlexStr`] transparently wraps a string literal, an inline string, a
//! handle into a heap storage backend, or a borrowed string. Once constructed
//! a value never changes; cloning costs at most a reference-count bump for
//! the refcounted backends.
#![allow(unused_imports)]

use vstd::prelude::*;
use vstd::slice::slice_subrange;
use vstd::utf8::{decode_utf8, encode_utf8, valid_utf8};

pub mod builder;
pub mod encoding;
pub mod inline;
pub mod storage;

use crate::encoding::{byte_len, lemma_byte_len_concat, str_eq};
use crate::inline::InlineFlexStr;
use crate::storage::{LocalStorage, SharedStorage, Storage};

verus! {

/// Number of bytes of string data that fit inside a value without heap storage.
pub const INLINE_CAPACITY: usize = 22;

#[derive(Debug)]
enum FlexStrInner<'s, B> {
    /// A wrapped string literal, never copied.
    Static(&'static str),
    /// A string inlined into the value itself.
    Inlined(InlineFlexStr),
    /// A handle into the heap storage backend.
    Heap(B),
    /// A borrowed string tied to an explicit lifetime, never copied.
    Borrowed(&'s str),
}

/// A flexible string type that transparently wraps a string literal, an
/// inline string, a heap storage handle, or a borrowed string. Exactly one
/// of the four states is active per value, and a value never changes after
/// construction.
#[derive(Debug)]
pub struct FlexStr<'s, B = LocalStorage> {
    inner: FlexStrInner<'s, B>,
}

/// A [`FlexStr`] whose heap storage is atomically reference-counted, so
/// values may be shared across threads.
pub type AFlexStr<'s> = FlexStr<'s, SharedStorage>;

impl<'s, B: Storage> View for FlexStr<'s, B> {
    type V = Seq<char>;

    /// The characters this value holds, whatever its active state.
    closed spec fn view(&self) -> Seq<char> {
        match self.inner {
            FlexStrInner::Static(s) => s@,
            FlexStrInner::Inlined(ib) => ib@,
            FlexStrInner::Heap(h) => h.contents(),
            FlexStrInner::Borrowed(s) => s@,
        }
    }
}

impl<'s, B: Storage> FlexStr<'s, B> {
    /// True when this value wraps a string literal.
    pub closed spec fn spec_is_static(&self) -> bool {
        self.inner matches FlexStrInner::Static(_)
    }

    /// True when this value holds its string inline.
    pub closed spec fn spec_is_inlined(&self) -> bool {
        self.inner matches FlexStrInner::Inlined(_)
    }

    /// True when this value holds a heap storage handle.
    pub closed spec fn spec_is_heap(&self) -> bool {
        self.inner matches FlexStrInner::Heap(_)
    }

    /// True when this value wraps a borrowed string.
    pub closed spec fn spec_is_borrowed(&self) -> bool {
        self.inner matches FlexStrInner::Borrowed(_)
    }

    /// Creates a wrapped static string literal; nothing is copied.
    pub fn from_static(s: &'static str) -> (r: Self)
        ensures
            r@ == s@,
            r.spec_is_static(),
    {
        FlexStr { inner: FlexStrInner::Static(s) }
    }

    /// Wraps a borrowed string without copying; the value lives no longer
    /// than the borrow.
    pub fn from_borrow(s: &'s str) -> (r: Self)
        ensures
            r@ == s@,
            r.spec_is_borrowed(),
    {
        FlexStr { inner: FlexStrInner::Borrowed(s) }
    }

    /// Attempts to create an inlined string. Succeeds exactly when the byte
    /// length of `s` fits the inline capacity; on failure the original input
    /// is handed back untouched as the error.
    pub fn try_inline<'a>(s: &'a str) -> (r: Result<Self, &'a str>)
        ensures
            byte_len(s@) <= INLINE_CAPACITY <==> r is Ok,
            r matches Ok(f) ==> f@ == s@ && f.spec_is_inlined(),
            r matches Err(t) ==> t == s,
    {
        match InlineFlexStr::try_new(s) {
            Ok(ib) => Ok(FlexStr { inner: FlexStrInner::Inlined(ib) }),
            Err(t) => Err(t),
        }
    }

    /// Forces heap storage: copies `s` into the backend without first trying
    /// to inline it.
    pub fn heap(s: &str) -> (r: Self)
        ensures
            r@ == s@,
            r.spec_is_heap(),
    {
        FlexStr { inner: FlexStrInner::Heap(B::from_borrowed(s)) }
    }

    /// The general constructor from borrowed data: an empty input becomes the
    /// shared empty literal, a short one is inlined, anything else is copied
    /// to heap storage.
    pub fn from_ref(s: &str) -> (r: Self)
        ensures
            r@ == s@,
            s@.len() == 0 ==> r.spec_is_static(),
            s@.len() > 0 && byte_len(s@) <= INLINE_CAPACITY ==> r.spec_is_inlined(),
            byte_len(s@) > INLINE_CAPACITY ==> r.spec_is_heap(),
    {
        if s.is_empty() {
            proof {
                reveal_strlit("");
                assert(s@ =~= ""@);
            }
            Self::from_static("")
        } else {
            match Self::try_inline(s) {
                Ok(f) => f,
                Err(t) => Self::heap(t),
            }
        }
    }

    /// Converts an owned string: a short one is inlined, anything else moves
    /// into the backend without copying its bytes.
    pub fn from_string(s: String) -> (r: Self)
        ensures
            r@ == s@,
            byte_len(s@) <= INLINE_CAPACITY ==> r.spec_is_inlined(),
            byte_len(s@) > INLINE_CAPACITY ==> r.spec_is_heap(),
    {
        match InlineFlexStr::try_new(s.as_str()) {
            Ok(ib) => FlexStr { inner: FlexStrInner::Inlined(ib) },
            Err(_) => FlexStr { inner: FlexStrInner::Heap(B::from_owned(s)) },
        }
    }

    /// Converts a single character; it always fits inline.
    pub fn from_char(c: char) -> (r: Self)
        ensures
            r@ == seq![c],
            r.spec_is_inlined(),
    {
        proof {
            crate::encoding::lemma_encode_singleton(c);
            vstd::utf8::encode_utf8_valid_utf8(seq![c]);
            vstd::utf8::encode_utf8_decode_utf8(seq![c]);
        }
        let (buf, n) = crate::encoding::encode_char(c);
        let sl = slice_subrange(buf.as_slice(), 0, n);
        let ib = InlineFlexStr::from_byte_slice(sl);
        FlexStr { inner: FlexStrInner::Inlined(ib) }
    }

    /// Validates raw bytes as UTF-8 text and converts them like
    /// [`Self::from_ref`]. On failure the error carries the length of the
    /// valid prefix and the length of the invalid span, letting the caller
    /// choose truncation or a lossy substitution strategy.
    pub fn try_from_raw(bytes: &[u8]) -> (r: Result<Self, crate::encoding::Utf8Error>)
        ensures
            valid_utf8(bytes@) <==> r is Ok,
            r matches Ok(f) ==> {
                &&& f@ == decode_utf8(bytes@)
                &&& (bytes@.len() == 0 ==> f.spec_is_static())
                &&& (0 < bytes@.len() <= INLINE_CAPACITY ==> f.spec_is_inlined())
                &&& (bytes@.len() > INLINE_CAPACITY ==> f.spec_is_heap())
            },
            r matches Err(e) ==> {
                &&& e.valid_up_to <= bytes@.len()
                &&& valid_utf8(bytes@.subrange(0, e.valid_up_to as int))
                &&& (e.error_len matches Some(n) ==> 1 <= n <= 3 && e.valid_up_to + n
                    <= bytes@.len())
                &&& (e.error_len is None ==> e.valid_up_to < bytes@.len())
            },
    {
        match crate::encoding::str_from_bytes(bytes) {
            Ok(s) => {
                proof {
                    vstd::utf8::encode_utf8_decode_utf8(s@);
                    vstd::utf8::decode_utf8_encode_utf8(bytes@);
                    crate::encoding::lemma_byte_len_zero(s@);
                }
                Ok(Self::from_ref(s))
            },
            Err(e) => Err(e),
        }
    }

    /// Extracts a string slice containing the entire value.
    pub fn as_str(&self) -> (r: &str)
        ensures
            r@ == self@,
    {
        match &self.inner {
            FlexStrInner::Static(s) => s,
            FlexStrInner::Inlined(ib) => ib.as_str(),
            FlexStrInner::Heap(h) => h.as_str(),
            FlexStrInner::Borrowed(s) => s,
        }
    }

    /// The length in bytes (not characters).
    pub fn len(&self) -> (n: usize)
        ensures
            n == byte_len(self@),
    {
        self.as_str().as_bytes().len()
    }

    /// True when this value holds no characters.
    pub fn is_empty(&self) -> (r: bool)
        ensures
            r == (self@.len() == 0),
    {
        self.as_str().is_empty()
    }

    /// True when this value wraps a string literal.
    pub fn is_static(&self) -> (r: bool)
        ensures
            r == self.spec_is_static(),
    {
        matches!(&self.inner, FlexStrInner::Static(_))
    }

    /// True when this value holds its string inline.
    pub fn is_inlined(&self) -> (r: bool)
        ensures
            r == self.spec_is_inlined(),
    {
        matches!(&self.inner, FlexStrInner::Inlined(_))
    }

    /// True when this value holds a heap storage handle.
    pub fn is_heap(&self) -> (r: bool)
        ensures
            r == self.spec_is_heap(),
    {
        matches!(&self.inner, FlexStrInner::Heap(_))
    }

    /// True when this value wraps a borrowed string.
    pub fn is_borrowed(&self) -> (r: bool)
        ensures
            r == self.spec_is_borrowed(),
    {
        matches!(&self.inner, FlexStrInner::Borrowed(_))
    }

    /// Builds a value straight from an inline buffer.
    pub(crate) fn from_inline_value(ib: InlineFlexStr) -> (r: Self)
        ensures
            r@ == ib@,
            r.spec_is_inlined(),
    {
        FlexStr { inner: FlexStrInner::Inlined(ib) }
    }

    /// Moves an owned string into the heap storage backend.
    pub(crate) fn from_owned_string(s: String) -> (r: Self)
        ensures
            r@ == s@,
            r.spec_is_heap(),
    {
        FlexStr { inner: FlexStrInner::Heap(B::from_owned(s)) }
    }
}

impl<'s, B: Storage> FlexStr<'s, B> {
    /// Concatenation, the `+` operation: appends `rhs`, growing in place
    /// when this value is inlined and the result still fits; otherwise the
    /// combined data passes through the builder and is copied at most once,
    /// whatever the states of the operands.
    pub fn concat(self, rhs: &str) -> (r: FlexStr<'s, B>)
        ensures
            r@ == self@ + rhs@,
            byte_len(self@) + byte_len(rhs@) <= INLINE_CAPACITY ==> r.spec_is_inlined(),
            byte_len(self@) + byte_len(rhs@) > INLINE_CAPACITY ==> r.spec_is_heap(),
    {
        match self.inner {
            FlexStrInner::Static(s) => concat(s, rhs),
            FlexStrInner::Inlined(mut ib) => {
                if ib.try_concat(rhs) {
                    FlexStr { inner: FlexStrInner::Inlined(ib) }
                } else {
                    concat(ib.as_str(), rhs)
                }
            },
            FlexStrInner::Heap(h) => concat(h.as_str(), rhs),
            FlexStrInner::Borrowed(s) => concat(s, rhs),
        }
    }
}

/// Builds the concatenation of two strings: the combined data is copied at
/// most once, and lands inline exactly when it fits the inline capacity.
pub fn concat<'s, B: Storage>(s1: &str, s2: &str) -> (r: FlexStr<'s, B>)
    ensures
        r@ == s1@ + s2@,
        byte_len(s1@) + byte_len(s2@) <= INLINE_CAPACITY ==> r.spec_is_inlined(),
        byte_len(s1@) + byte_len(s2@) > INLINE_CAPACITY ==> r.spec_is_heap(),
{
    let n1 = s1.as_bytes().len();
    let n2 = s2.as_bytes().len();
    let mut b = builder::FlexStrBuilder::with_capacity(n1.saturating_add(n2));
    proof {
        assert(byte_len(Seq::<char>::empty()) == 0);
    }
    b.str_write(s1);
    proof {
        assert(Seq::<char>::empty() + s1@ =~= s1@);
        lemma_byte_len_concat(s1@, s2@);
    }
    b.str_write(s2);
    proof {
        crate::builder::lemma_exactly_one_builder_state(&b);
    }
    b.into_flex()
}

/// The characters of a sequence of values, joined in order.
pub open spec fn joined_views<'a, B2: Storage>(items: Seq<FlexStr<'a, B2>>) -> Seq<char>
    decreases items.len(),
{
    if items.len() == 0 {
        Seq::empty()
    } else {
        joined_views(items.drop_last()) + items.last()@
    }
}

/// The characters of a sequence of string slices, joined in order.
pub open spec fn joined_strs(parts: Seq<&str>) -> Seq<char>
    decreases parts.len(),
{
    if parts.len() == 0 {
        Seq::empty()
    } else {
        joined_strs(parts.drop_last()) + parts.last()@
    }
}

/// Collects a sequence of values into one, concatenating their characters
/// in order; the result lands inline exactly when the total fits.
pub fn from_iter_str<'a, 's, B: Storage, B2: Storage>(items: &[FlexStr<'a, B2>]) -> (r: FlexStr<
    's,
    B,
>)
    ensures
        r@ == joined_views(items@),
        byte_len(joined_views(items@)) <= INLINE_CAPACITY ==> r.spec_is_inlined(),
        byte_len(joined_views(items@)) > INLINE_CAPACITY ==> r.spec_is_heap(),
{
    let mut b = builder::FlexStrBuilder::new();
    let n = items.len();
    let mut i: usize = 0;
    proof {
        assert(byte_len(Seq::<char>::empty()) == 0);
    }
    while i < n
        invariant
            0 <= i <= n,
            n == items@.len(),
            b@ == joined_views(items@.take(i as int)),
            b.spec_is_small() || b.spec_is_regular(),
            b.spec_is_small() <==> byte_len(b@) <= INLINE_CAPACITY,
        decreases n - i,
    {
        let it = vstd::slice::slice_index_get(items, i);
        b.str_write(it.as_str());
        proof {
            crate::builder::lemma_exactly_one_builder_state(&b);
            assert(items@.take((i + 1) as int).drop_last() =~= items@.take(i as int));
            assert(items@.take((i + 1) as int).last() == items@[i as int]);
            lemma_byte_len_concat(joined_views(items@.take(i as int)), items@[i as int]@);
        }
        i += 1;
    }
    proof {
        assert(items@.take(n as int) =~= items@);
    }
    b.into_flex()
}

/// Collects a sequence of characters into one value; the result lands
/// inline exactly when the total encoding fits.
pub fn from_iter_char<'s, B: Storage>(chars: &[char]) -> (r: FlexStr<'s, B>)
    ensures
        r@ == chars@,
        byte_len(chars@) <= INLINE_CAPACITY ==> r.spec_is_inlined(),
        byte_len(chars@) > INLINE_CAPACITY ==> r.spec_is_heap(),
{
    let mut b = builder::FlexStrBuilder::new();
    let n = chars.len();
    let mut i: usize = 0;
    proof {
        assert(byte_len(Seq::<char>::empty()) == 0);
        assert(chars@.take(0) =~= Seq::<char>::empty());
    }
    while i < n
        invariant
            0 <= i <= n,
            n == chars@.len(),
            b@ == chars@.take(i as int),
            b.spec_is_small() || b.spec_is_regular(),
            b.spec_is_small() <==> byte_len(b@) <= INLINE_CAPACITY,
        decreases n - i,
    {
        let c = *vstd::slice::slice_index_get(chars, i);
        b.char_write(c);
        proof {
            crate::builder::lemma_exactly_one_builder_state(&b);
            assert(chars@.take(i as int) + seq![c] =~= chars@.take((i + 1) as int));
            lemma_byte_len_concat(chars@.take(i as int), seq![c]);
        }
        i += 1;
    }
    proof {
        assert(chars@.take(n as int) =~= chars@);
    }
    b.into_flex()
}

/// The equivalent of formatting into a fresh value: the already-formatted
/// pieces are written through the builder, which starts in its inline state
/// and promotes itself only when a write no longer fits, so the result
/// lands inline exactly when the total fits.
pub fn flex_fmt<'s, B: Storage>(parts: &[&str]) -> (r: FlexStr<'s, B>)
    ensures
        r@ == joined_strs(parts@),
        byte_len(joined_strs(parts@)) <= INLINE_CAPACITY ==> r.spec_is_inlined(),
        byte_len(joined_strs(parts@)) > INLINE_CAPACITY ==> r.spec_is_heap(),
{
    let mut b = builder::FlexStrBuilder::new();
    let n = parts.len();
    let mut i: usize = 0;
    proof {
        assert(byte_len(Seq::<char>::empty()) == 0);
    }
    while i < n
        invariant
            0 <= i <= n,
            n == parts@.len(),
            b@ == joined_strs(parts@.take(i as int)),
            b.spec_is_small() || b.spec_is_regular(),
            b.spec_is_small() <==> byte_len(b@) <= INLINE_CAPACITY,
        decreases n - i,
    {
        let p = *vstd::slice::slice_index_get(parts, i);
        b.str_write(p);
        proof {
            crate::builder::lemma_exactly_one_builder_state(&b);
            assert(parts@.take((i + 1) as int).drop_last() =~= parts@.take(i as int));
            assert(parts@.take((i + 1) as int).last() == parts@[i as int]);
            lemma_byte_len_concat(joined_strs(parts@.take(i as int)), parts@[i as int]@);
        }
        i += 1;
    }
    proof {
        assert(parts@.take(n as int) =~= parts@);
    }
    b.into_flex()
}

/// Exactly one of the four state predicates holds of every value.
pub proof fn lemma_exactly_one_state<'s, B: Storage>(x: &FlexStr<'s, B>)
    ensures
        x.spec_is_static() || x.spec_is_inlined() || x.spec_is_heap() || x.spec_is_borrowed(),
        x.spec_is_static() ==> !x.spec_is_inlined() && !x.spec_is_heap() && !x.spec_is_borrowed(),
        x.spec_is_inlined() ==> !x.spec_is_static() && !x.spec_is_heap() && !x.spec_is_borrowed(),
        x.spec_is_heap() ==> !x.spec_is_static() && !x.spec_is_inlined() && !x.spec_is_borrowed(),
        x.spec_is_borrowed() ==> !x.spec_is_static() && !x.spec_is_inlined() && !x.spec_is_heap(),
{
}

impl<'s, B: Storage> Clone for FlexStr<'s, B> {
    /// Duplicates the value: the copy holds the same characters in the same
    /// state. Wrapped literals, inline strings and borrows are copied in
    /// place; heap handles clone through the backend, whose cost is the
    /// backend's choice.
    fn clone(&self) -> (r: Self)
        ensures
            r@ == self@,
            r.spec_is_static() == self.spec_is_static(),
            r.spec_is_inlined() == self.spec_is_inlined(),
            r.spec_is_heap() == self.spec_is_heap(),
            r.spec_is_borrowed() == self.spec_is_borrowed(),
    {
        match &self.inner {
            FlexStrInner::Static(s) => FlexStr { inner: FlexStrInner::Static(s) },
            FlexStrInner::Inlined(ib) => FlexStr { inner: FlexStrInner::Inlined(*ib) },
            FlexStrInner::Heap(h) => FlexStr { inner: FlexStrInner::Heap(h.clone_storage()) },
            FlexStrInner::Borrowed(s) => FlexStr { inner: FlexStrInner::Borrowed(s) },
        }
    }
}

impl<'s, B: Storage> PartialEq for FlexStr<'s, B> {
    /// Equality goes through the characters held, never through the state:
    /// values in different states holding identical content compare equal.
    fn eq(&self, other: &Self) -> (r: bool) {
        str_eq(self.as_str(), other.as_str())
    }
}

impl<'s, B: Storage> vstd::std_specs::cmp::PartialEqSpecImpl for FlexStr<'s, B> {
    open spec fn obeys_eq_spec() -> bool {
        true
    }

    open spec fn eq_spec(&self, other: &Self) -> bool {
        self@ == other@
    }
}

impl<'s, B: Storage> PartialOrd for FlexStr<'s, B> {
    /// Ordering, like equality, goes through the characters held, never
    /// through the state: it is the lexicographic order of the UTF-8 bytes.
    fn partial_cmp(&self, other: &Self) -> (r: Option<core::cmp::Ordering>) {
        Some(crate::encoding::str_cmp(self.as_str(), other.as_str()))
    }
}

impl<'s, B: Storage> vstd::std_specs::cmp::PartialOrdSpecImpl for FlexStr<'s, B> {
    open spec fn obeys_partial_cmp_spec() -> bool {
        true
    }

    open spec fn partial_cmp_spec(&self, other: &Self) -> Option<core::cmp::Ordering> {
        Some(crate::encoding::lex_cmp_bytes(encode_utf8(self@), encode_utf8(other@)))
    }
}

impl<'s, B: Storage> Default for FlexStr<'s, B> {
    /// The default value is the wrapped empty literal.
    fn default() -> (r: Self)
        ensures
            r@ == Seq::<char>::empty(),
            r.spec_is_static(),
    {
        proof {
            reveal_strlit("");
        }
        Self::from_static("")
    }
}

} // verus!
