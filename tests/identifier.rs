use std::borrow::Borrow;
use std::cmp::Ordering;
use std::collections::HashSet;
use std::str::FromStr;

use hr_id::{decode_keyed, decode_token, encode, label, validate_id, DecodeError, Id, ParseError};

fn message(s: &str) -> String {
    match Id::parse(s) {
        Ok(_) => panic!("{} should be rejected", s),
        Err(e) => e.to_string(),
    }
}

#[test]
fn valid_text_parses_and_keeps_its_text() {
    for s in ["hello", "a.b", "x-1_Y", "日本", "a+b", "0"] {
        let id = Id::parse(s).expect("valid");
        assert_eq!(id.as_str(), s);
        assert_eq!(id.to_string(), s);
        assert!(validate_id(s).is_ok());
    }
}

#[test]
fn from_str_parses() {
    let id: Id = "world".parse().expect("id");
    assert_eq!(id.as_str(), "world");
    assert!("this string has whitespace".parse::<Id>().is_err());
}

#[test]
fn empty_text_is_rejected() {
    assert_eq!(message(""), "cannot construct an empty identifier");
}

#[test]
fn whitespace_is_rejected() {
    assert_eq!(
        message("this string has whitespace"),
        "Id this string has whitespace is not allowed to contain whitespace \" \""
    );
    assert_eq!(
        message("a\u{3000}b"),
        "Id a\u{3000}b is not allowed to contain whitespace \"\u{3000}\""
    );
    assert_eq!(
        message("a\u{a0}b\u{2028}"),
        "Id a\u{a0}b\u{2028} is not allowed to contain whitespace \"\u{a0}\""
    );
}

#[test]
fn reserved_pattern_is_rejected() {
    assert_eq!(message("a/b"), "Id a/b contains disallowed pattern /");
    assert_eq!(message("a..b"), "Id a..b contains disallowed pattern ..");
    assert_eq!(message("x)y("), "Id x)y( contains disallowed pattern (");
    assert_eq!(message("q\"r"), "Id q\"r contains disallowed pattern \"");
    for p in [
        "/", "..", "~", "$", "`", "&", "|", "=", "^", "{", "}", "<", ">", "'", "\"", "?", ":",
        "@", "#", "(", ")",
    ] {
        let s = format!("a{}b", p);
        assert_eq!(message(&s), format!("Id {} contains disallowed pattern {}", s, p));
    }
}

#[test]
fn control_character_is_rejected() {
    assert_eq!(message("a\tb"), "Id a\tb contains ASCII control characters 9");
    assert_eq!(message("\u{1f}"), "Id \u{1f} contains ASCII control characters 31");
    assert_eq!(message("\u{0}"), "Id \u{0} contains ASCII control characters 0");
}

#[test]
fn rules_are_checked_in_order() {
    assert_eq!(message("a /\u{1}"), "Id a /\u{1} contains ASCII control characters 1");
    assert_eq!(message("a $/"), "Id a $/ contains disallowed pattern /");
    assert_eq!(message("a b~"), "Id a b~ contains disallowed pattern ~");
    assert_eq!(message(" \n"), "Id  \n contains ASCII control characters 10");
}

#[test]
fn integers_render_in_decimal_and_read_back() {
    assert_eq!(Id::from_u64(0).as_str(), "0");
    assert_eq!(Id::from_u64(42).as_str(), "42");
    assert_eq!(Id::from(u64::MAX).as_str(), "18446744073709551615");
    assert_eq!(Id::from(7usize).as_str(), "7");
    for n in [0usize, 9, 10, 12345, usize::MAX] {
        let id = Id::from_usize(n);
        assert_eq!(id.as_str(), n.to_string());
        assert_eq!(id.to_usize(), Some(n));
        assert!(id.is_usize());
    }
}

#[test]
fn reading_a_usize_follows_from_str() {
    let read = |s: &str| Id::parse(s).expect("valid").to_usize();
    assert_eq!(read("+5"), Some(5));
    assert_eq!(read("007"), Some(7));
    assert_eq!(read("+"), None);
    assert_eq!(read("-1"), None);
    assert_eq!(read("12a"), None);
    assert_eq!(read("99999999999999999999999"), None);
    assert!(!Id::parse("abc").expect("valid").is_usize());
}

#[test]
fn digest_becomes_lowercase_hex() {
    let id = Id::from_digest(&[0xde, 0xad, 0x01, 0xf0]);
    assert_eq!(id.as_str(), "dead01f0");
    assert_eq!(Id::from_digest(&[0]).as_str(), "00");
}

#[test]
fn uuid_becomes_hyphenated_text() {
    let u = uuid::Uuid::from_u128(0x0123_4567_89ab_cdef_0123_4567_89ab_cdef);
    let id = Id::from_uuid(u.into_bytes());
    assert_eq!(id.as_str(), "01234567-89ab-cdef-0123-456789abcdef");
    assert_eq!(id.as_str(), u.to_string());
    let other = uuid::Uuid::from_u128(0xffee_0000_0000_0000_0000_0000_0000_0001);
    assert_eq!(Id::from_uuid(other.into_bytes()).as_str(), "ffee0000-0000-0000-0000-000000000001");
}

#[test]
fn equality_goes_by_content() {
    let world: Id = Id::parse("world").expect("id");
    let l = label("world");
    assert!(world == l);
    assert!(l == world);
    assert!(world == "world");
    assert!("world" == world);
    assert!(world == String::from("world"));
    assert!(world == *"world");
    assert!(world != Id::parse("worlds").expect("id"));
    assert_eq!(Id::from(l), world);
    assert_eq!(Id::from_label(label("hello")).as_str(), "hello");
    assert_eq!(l.as_str(), "world");
}

#[test]
fn order_is_lexicographic() {
    let a = Id::parse("a").expect("id");
    let b = Id::parse("b").expect("id");
    let ab = Id::parse("ab").expect("id");
    assert!(a < b);
    assert!(a < ab);
    assert!(ab < b);
    assert_eq!(a.partial_cmp(&a), Some(Ordering::Equal));
    assert_eq!(b.partial_cmp(&a), Some(Ordering::Greater));
    assert!(a < "b");
    assert!(b > String::from("a"));
    assert!(label("a") < label("b"));
    let high = Id::parse("\u{e9}").expect("id");
    assert!(Id::parse("z").expect("id") < high);
    assert_eq!(a.cmp(&b), Ordering::Less);
}

#[test]
fn starts_with_tests_a_prefix() {
    let id = Id::parse("hello").expect("id");
    assert!(id.starts_with("he"));
    assert!(id.starts_with(""));
    assert!(id.starts_with("hello"));
    assert!(!id.starts_with("hello!"));
    assert!(!id.starts_with("el"));
}

#[test]
fn casts_from_text() {
    assert!(Id::can_cast_from(&String::from("ok")));
    assert!(!Id::can_cast_from(&String::from("no way")));
    assert_eq!(Id::opt_cast_from(String::from("ok")).expect("id").as_str(), "ok");
    assert!(Id::opt_cast_from(String::from("a:b")).is_none());
}

#[test]
fn into_inner_gives_the_text() {
    let id = Id::parse("abc").expect("id");
    let copy = id.clone();
    assert_eq!(id.into_inner(), "abc");
    assert_eq!(copy.as_str(), "abc");
}

#[test]
fn keyed_structure_decodes_only_with_empty_value() {
    let id = decode_keyed("x", &[]).expect("identifier");
    assert_eq!(id.as_str(), "x");
    match decode_keyed("x", &[1]) {
        Err(DecodeError::OperationReference) => {}
        _ => panic!("expected an operation reference"),
    }
    let e = decode_keyed("x", &[1]).err().expect("error");
    assert_eq!(e.to_string(), "expected an identifier, found an operation reference");
    match decode_keyed("a/b", &[]) {
        Err(DecodeError::Invalid(e)) => {
            assert_eq!(e.to_string(), "Id a/b contains disallowed pattern /")
        }
        _ => panic!("expected a rule violation"),
    }
}

#[test]
fn token_round_trips() {
    let id = Id::parse("token").expect("id");
    let text = encode(&id);
    assert_eq!(text, "token");
    assert_eq!(decode_token(&text).expect("id"), id);
    assert!(decode_token("").is_err());
}

#[test]
fn from_str_matches_parse() {
    assert_eq!(Id::from_str("hello").expect("id").as_str(), "hello");
    let e = Id::from_str("a/b").err().expect("error");
    assert_eq!(e.to_string(), "Id a/b contains disallowed pattern /");
    let e = Id::from_str("").err().expect("error");
    assert_eq!(e.to_string(), "cannot construct an empty identifier");
    let e = Id::from_str("\t/ x").err().expect("error");
    assert_eq!(e.to_string(), "Id \t/ x contains ASCII control characters 9");
    let e = Id::from_str("a/ b").err().expect("error");
    assert_eq!(e.to_string(), "Id a/ b contains disallowed pattern /");
    assert_eq!(Id::from_str(&u64::MAX.to_string()).expect("id").as_str(), "18446744073709551615");
}

#[test]
fn from_integers_and_labels() {
    assert_eq!(Id::from(0u64).as_str(), "0");
    assert_eq!(Id::from(1000usize).as_str(), "1000");
    assert_eq!(Id::from(label("hello")), "hello");
}

#[test]
fn parse_error_keeps_its_message() {
    assert_eq!(ParseError::from("some message").to_string(), "some message");
    assert_eq!(ParseError::from(String::from("another")).to_string(), "another");
}

#[test]
fn id_borrows_as_str() {
    let id = Id::parse("key").expect("id");
    let b: &str = id.borrow();
    assert_eq!(b, "key");
    let mut set = HashSet::new();
    set.insert(id);
    assert!(set.contains("key"));
    assert!(!set.contains("other"));
}
