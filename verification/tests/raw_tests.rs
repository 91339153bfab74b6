use flexstr::encoding::str_eq;
use flexstr::FlexStr;

#[test]
fn valid_bytes_convert_like_from_ref() {
    let s: FlexStr = FlexStr::try_from_raw(b"inlined").unwrap();
    assert!(s.is_inlined());
    assert_eq!(s.as_str(), "inlined");

    let e: FlexStr = FlexStr::try_from_raw(b"").unwrap();
    assert!(e.is_static());
    assert!(e.is_empty());

    let h: FlexStr = FlexStr::try_from_raw(b"This is too long to inline!").unwrap();
    assert!(h.is_heap());
    assert_eq!(h.as_str(), "This is too long to inline!");
}

#[test]
fn valid_multibyte_bytes_convert() {
    let bytes = "naïve ☕".as_bytes();
    let s: FlexStr = FlexStr::try_from_raw(bytes).unwrap();
    assert_eq!(s.as_str(), "naïve ☕");
}

#[test]
fn invalid_byte_reports_valid_prefix_and_span() {
    let r: Result<FlexStr, _> = FlexStr::try_from_raw(&[0x66, 0x6f, 0xFF, 0x6f]);
    let e = r.unwrap_err();
    assert_eq!(e.valid_up_to, 2);
    assert_eq!(e.error_len, Some(1));
}

#[test]
fn truncated_encoding_reports_unknown_span() {
    // 0xE2 0x82 begins a three-byte encoding that never finishes.
    let r: Result<FlexStr, _> = FlexStr::try_from_raw(&[0x61, 0xE2, 0x82]);
    let e = r.unwrap_err();
    assert_eq!(e.valid_up_to, 1);
    assert_eq!(e.error_len, None);
}

#[test]
fn overlong_encoding_is_rejected() {
    // 0xC0 0x80 is an overlong encoding of NUL, which UTF-8 forbids.
    let r: Result<FlexStr, _> = FlexStr::try_from_raw(&[0xC0, 0x80]);
    let e = r.unwrap_err();
    assert_eq!(e.valid_up_to, 0);
}

#[test]
fn str_eq_compares_contents() {
    assert!(str_eq("same", "same"));
    assert!(str_eq("", ""));
    assert!(!str_eq("same", "sane"));
    assert!(!str_eq("short", "longer"));
    assert!(str_eq("☕😀", "☕😀"));
    assert!(!str_eq("☕", "😀"));
}
