use flexstr::builder::FlexStrBuilder;
use flexstr::{FlexStr, INLINE_CAPACITY};

#[test]
fn new_builder_starts_small_and_empty() {
    let b = FlexStrBuilder::new();
    assert!(b.is_small());
    assert!(!b.is_regular());
    assert!(!b.is_large());
    assert_eq!(b.len(), 0);
    assert!(b.is_empty());
}

#[test]
fn with_capacity_picks_the_state() {
    let small = FlexStrBuilder::with_capacity(INLINE_CAPACITY);
    assert!(small.is_small());

    let regular = FlexStrBuilder::with_capacity(INLINE_CAPACITY + 1);
    assert!(regular.is_regular());
}

#[test]
fn bytes_one_at_a_time_promote_at_capacity_overflow() {
    // Feeding single-byte characters: bytes 0 through 21 stay in the Small
    // state; byte 22 no longer fits and triggers promotion to Regular.
    let mut b = FlexStrBuilder::new();
    let input: String = std::iter::repeat('a').take(23).collect();
    for (i, c) in input.chars().enumerate() {
        b.char_write(c);
        if i <= 21 {
            assert!(b.is_small(), "byte {i} should still be inline");
        } else {
            assert!(b.is_regular(), "byte {i} should have promoted");
        }
    }
    let built: FlexStr = b.into_flex();
    let direct: FlexStr = FlexStr::from_ref(input.as_str());
    assert_eq!(built.as_str(), direct.as_str());
    assert_eq!(built, direct);
    assert!(built.is_heap());
    assert!(direct.is_heap());
}

#[test]
fn str_write_promotes_once_and_keeps_content() {
    let mut b = FlexStrBuilder::new();
    b.str_write("twenty-two bytes ok!!!");
    assert_eq!(b.len(), 22);
    assert!(b.is_small());
    b.str_write("-overflow");
    assert!(b.is_regular());
    let s: FlexStr = b.into_flex();
    assert!(s.is_heap());
    assert_eq!(s.as_str(), "twenty-two bytes ok!!!-overflow");
}

#[test]
fn small_finalizes_inline_without_copy() {
    let mut b = FlexStrBuilder::new();
    b.str_write("in");
    b.str_write("line");
    assert!(b.is_small());
    let s: FlexStr = b.into_flex();
    assert!(s.is_inlined());
    assert_eq!(s.as_str(), "inline");
}

#[test]
fn regular_start_finalizes_to_heap_even_when_short() {
    let mut b = FlexStrBuilder::with_capacity(100);
    b.str_write("short");
    assert!(b.is_regular());
    let s: FlexStr = b.into_flex();
    assert!(s.is_heap());
    assert_eq!(s.as_str(), "short");
}

#[test]
fn owned_write_passes_whole_string_through() {
    let mut b = FlexStrBuilder::new();
    b.owned_write("an owned string handed through directly".to_string());
    assert!(b.is_large());
    let s: FlexStr = b.into_flex();
    assert!(s.is_heap());
    assert_eq!(s.as_str(), "an owned string handed through directly");
}

#[test]
fn owned_write_after_content_appends() {
    let mut b = FlexStrBuilder::new();
    b.str_write("prefix ");
    b.owned_write("suffix".to_string());
    assert!(b.is_small());
    let s: FlexStr = b.into_flex();
    assert!(s.is_inlined());
    assert_eq!(s.as_str(), "prefix suffix");
}

#[test]
fn large_state_still_accepts_writes() {
    let mut b = FlexStrBuilder::new();
    b.owned_write("owned".to_string());
    assert!(b.is_large());
    b.str_write(" plus more");
    assert!(b.is_large());
    b.char_write('!');
    assert!(b.is_large());
    let s: FlexStr = b.into_flex();
    assert!(s.is_heap());
    assert_eq!(s.as_str(), "owned plus more!");
}

#[test]
fn char_write_handles_multibyte_promotion() {
    // 2-byte characters: eleven of them fill the buffer exactly, the
    // twelfth promotes.
    let mut b = FlexStrBuilder::new();
    for _ in 0..11 {
        b.char_write('é');
    }
    assert!(b.is_small());
    assert_eq!(b.len(), 22);
    b.char_write('é');
    assert!(b.is_regular());
    let s: FlexStr = b.into_flex();
    assert_eq!(s.as_str(), "é".repeat(12));
}
