use ik_llama_cpp_2::cstr::CText;
use ik_llama_cpp_2::text::decoder::PieceDecoder;
use ik_llama_cpp_2::text::{str_from_utf8, string_from_utf8, string_from_utf8_lossy};

#[test]
fn bytes_without_nul_are_text() {
    let text = CText::new(b"a\xff".to_vec()).unwrap();
    assert_eq!((text.as_bytes(), text.len()), (&b"a\xff"[..], 2));
    assert_eq!(CText::new(Vec::new()).unwrap().len(), 0);
    let e = CText::new(b"ab\0c\0".to_vec()).unwrap_err();
    assert_eq!((e.position, e.bytes), (2, b"ab\0c\0".to_vec()));
    let e = CText::from_str("\0").unwrap_err();
    assert_eq!((e.position, e.bytes), (0, vec![0]));
    // No character but NUL has a NUL in its encoding.
    assert!(CText::from_str("\u{1}\u{80}\u{100}\u{800}\u{1000}\u{10000}\u{100000}").is_ok());
}

#[test]
fn utf8_is_read_and_errors_point() {
    assert_eq!(str_from_utf8("é…𝄞".as_bytes()), Ok("é…𝄞"));
    assert_eq!(str_from_utf8(b"ab\xc3").unwrap_err().valid_up_to, 2);
    assert_eq!(str_from_utf8(b"\xed\xa0\x80").unwrap_err().valid_up_to, 0);
    assert_eq!(string_from_utf8(b"hi".to_vec()), Ok("hi".to_string()));
    let e = string_from_utf8(b"hi\xff\xffx".to_vec()).unwrap_err();
    assert_eq!((e.valid_up_to, e.bytes), (2, b"hi\xff\xffx".to_vec()));
    assert_eq!(string_from_utf8_lossy("é".as_bytes()), "é");
    assert_eq!(string_from_utf8_lossy(b"a\xffb"), "a\u{FFFD}b");
}

#[test]
fn text_does_not_depend_on_where_it_is_cut() {
    let whole = "Привет, мир — “quotes” … 𝄞 end".repeat(3);
    for cut in [1, 2, 3, 5, 7, 64] {
        let mut decoder = PieceDecoder::new();
        let mut text = String::new();
        for piece in whole.as_bytes().chunks(cut) {
            text.push_str(&decoder.decode(piece));
        }
        assert_eq!(text, whole, "pieces of {cut}");
    }
}

#[test]
fn long_pieces_lose_nothing() {
    // Each of these bytes becomes a replacement character of three bytes.
    let mut decoder = PieceDecoder::new();
    let text = decoder.decode(&vec![0xff; 10_000]);
    assert_eq!(text, "\u{FFFD}".repeat(10_000));
    let mut decoder = PieceDecoder::new();
    let long = "é".repeat(9_000);
    assert_eq!(decoder.decode(long.as_bytes()), long);
}

#[test]
fn unfinished_characters_wait_and_marks_are_dropped() {
    let mut decoder = PieceDecoder::new();
    assert_eq!(decoder.decode(b"a\xe2\x80"), "a");
    assert_eq!(decoder.decode(b""), "");
    assert_eq!(decoder.decode(b"\xa6b"), "\u{2026}b");
    let mut decoder = PieceDecoder::new();
    assert_eq!(decoder.decode(b"\xef"), "");
    assert_eq!(decoder.decode(b"\xbb\xbfx"), "x");
    assert_eq!(decoder.decode(b"\xef\xbb\xbf"), "\u{FEFF}");
}
