use flexstr::inline::InlineFlexStr;

#[test]
fn empty_buffer_holds_nothing() {
    let b = InlineFlexStr::empty();
    assert!(b.is_empty());
    assert_eq!(b.len(), 0);
    assert_eq!(b.as_str(), "");
}

#[test]
fn try_new_copies_bytes_verbatim() {
    let b = InlineFlexStr::try_new("exactly 22 bytes here!").unwrap();
    assert_eq!(b.len(), 22);
    assert_eq!(b.as_str(), "exactly 22 bytes here!");
}

#[test]
fn try_new_rejects_oversized_input_untouched() {
    let input = "twenty-three bytes long";
    assert_eq!(input.len(), 23);
    match InlineFlexStr::try_new(input) {
        Ok(_) => panic!("23 bytes must not fit a 22-byte buffer"),
        Err(back) => {
            assert_eq!(back, input);
            assert_eq!(back.as_ptr(), input.as_ptr());
        }
    }
}

#[test]
fn try_concat_appends_in_place_when_it_fits() {
    let mut b = InlineFlexStr::try_new("in").unwrap();
    assert!(b.try_concat("line"));
    assert_eq!(b.as_str(), "inline");
    assert_eq!(b.len(), 6);
}

#[test]
fn try_concat_leaves_buffer_unmodified_on_overflow() {
    let mut b = InlineFlexStr::try_new("twenty bytes of text").unwrap();
    assert_eq!(b.len(), 20);
    assert!(!b.try_concat("ages")); // 24 bytes would overflow
    assert_eq!(b.as_str(), "twenty bytes of text");
    assert_eq!(b.len(), 20);
    assert!(b.try_concat("!!")); // 22 bytes fit exactly
    assert_eq!(b.as_str(), "twenty bytes of text!!");
}

#[test]
fn try_concat_multibyte_respects_byte_budget() {
    let mut b = InlineFlexStr::try_new("éééééééééé").unwrap(); // 20 bytes
    assert_eq!(b.len(), 20);
    assert!(!b.try_concat("€")); // 3 more bytes would overflow
    assert!(b.try_concat("é")); // 2 more fit exactly
    assert_eq!(b.len(), 22);
    assert_eq!(b.as_str(), "ééééééééééé");
}
