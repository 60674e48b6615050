use common_meta::rpc::text::{as_utf8, as_utf8_vec};

#[test]
fn utf8_is_shown_as_it_is() {
    assert_eq!("", as_utf8(b""));
    assert_eq!("schema", as_utf8(b"schema"));
    assert_eq!("gr\u{fc}n \u{20ac} \u{1f600}", as_utf8("gr\u{fc}n \u{20ac} \u{1f600}".as_bytes()));
}

#[test]
fn other_bytes_are_not_shown() {
    assert_eq!("<unknown-not-UTF8>", as_utf8(&[0xff]));
    assert_eq!("<unknown-not-UTF8>", as_utf8(&[b'a', 0xc3]));
    // An overlong encoding, and a surrogate.
    assert_eq!("<unknown-not-UTF8>", as_utf8(&[0xc0, 0x80]));
    assert_eq!("<unknown-not-UTF8>", as_utf8(&[0xed, 0xa0, 0x80]));
}

#[test]
fn lists_are_separated_by_commas() {
    assert_eq!("", as_utf8_vec(&[]));
    assert_eq!("c1", as_utf8_vec(&[b"c1".to_vec()]));
    assert_eq!("c1,c2", as_utf8_vec(&[b"c1".to_vec(), b"c2".to_vec()]));
    assert_eq!(
        ",<unknown-not-UTF8>,x",
        as_utf8_vec(&[vec![], vec![0x80], b"x".to_vec()])
    );
}
