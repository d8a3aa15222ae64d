use s3z::http::{utf8_percent_encode, EncodeSet};
use s3z::ObjectKey;

#[test]
fn simple_key_unchanged() {
    let key = ObjectKey::new("data/file.txt");
    assert_eq!(key.raw(), "data/file.txt");
    assert_eq!(key.encoded(), "data/file.txt");
}

#[test]
fn spaces_percent_encoded() {
    let key = ObjectKey::new("path/to/my file.txt");
    assert_eq!(key.encoded(), "path/to/my%20file.txt");
    assert_eq!(key.raw(), "path/to/my file.txt");
}

#[test]
fn unicode_characters_encoded() {
    let key = ObjectKey::new("donn\u{e9}es/r\u{e9}sum\u{e9}.pdf");
    assert_eq!(key.raw(), "donn\u{e9}es/r\u{e9}sum\u{e9}.pdf");
    // Each non-ASCII byte gets percent-encoded
    assert!(!key.encoded().contains('\u{e9}'));
    assert!(key.encoded().contains("%C3%A9"));
}

#[test]
fn unreserved_characters_preserved() {
    let key = ObjectKey::new("a-b.c_d~e/f");
    assert_eq!(key.encoded(), "a-b.c_d~e/f");
}

#[test]
fn special_characters_encoded() {
    let key = ObjectKey::new("key with+plus&ampersand=equals");
    assert!(key.encoded().contains("%2B"));
    assert!(key.encoded().contains("%26"));
    assert!(key.encoded().contains("%3D"));
    assert!(key.encoded().contains("%20"));
}

#[test]
fn empty_key() {
    let key = ObjectKey::new("");
    assert_eq!(key.raw(), "");
    assert_eq!(key.encoded(), "");
}

#[test]
fn slashes_preserved() {
    let key = ObjectKey::new("a/b/c/d");
    assert_eq!(key.encoded(), "a/b/c/d");
}

#[test]
fn display_shows_raw() {
    let key = ObjectKey::new("path/my file.txt");
    assert_eq!(key.to_string(), "path/my file.txt");
}

#[test]
fn from_string_impl() {
    let key: ObjectKey = String::from("test/key").into();
    assert_eq!(key.raw(), "test/key");
}

#[test]
fn from_str_impl() {
    let key: ObjectKey = "test/key".into();
    assert_eq!(key.raw(), "test/key");
}

#[test]
fn equality_same_key() {
    let a = ObjectKey::new("same");
    let b = ObjectKey::new("same");
    assert_eq!(a, b);
}

#[test]
fn equality_different_key() {
    let a = ObjectKey::new("one");
    let b = ObjectKey::new("two");
    assert_ne!(a, b);
}

#[test]
fn key_encoding_exact_text() {
    let key = ObjectKey::new("a b/\u{e9}?x=1");
    assert_eq!(key.encoded(), "a%20b/%C3%A9%3Fx%3D1");
}

#[test]
fn component_encoding_keeps_only_alphanumerics() {
    assert_eq!(utf8_percent_encode("photos/2024 a-b_c.d~e", EncodeSet::Component),
        "photos%2F2024%20a%2Db%5Fc%2Ed%7Ee");
    assert_eq!(utf8_percent_encode("AZaz09", EncodeSet::Component), "AZaz09");
}

#[test]
fn cloned_key_keeps_both_forms() {
    let key = ObjectKey::new("x y");
    let copy = key.clone();
    assert_eq!(copy.raw(), "x y");
    assert_eq!(copy.encoded(), "x%20y");
}

#[test]
fn prefixed_key_joins_prefix() {
    let key = s3z::http::prefixed_key("pre/", "one two.txt");
    assert_eq!(key.raw(), "pre/one two.txt");
    assert_eq!(key.encoded(), "pre/one%20two.txt");
}
