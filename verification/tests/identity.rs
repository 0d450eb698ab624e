//! Sample identifiers and detector names.

use ommatidia::dataset::Sample;
use ommatidia::{Identifier, InvalidName, Name};

#[test]
fn identifier_test_identifier() {
    let identifier = Identifier::from_path("test", "/dir/file");
    assert_eq!(identifier.as_str(), "test:/dir/file");
}

#[test]
fn sample_test_identifier() {
    let identifier = Sample::create_identifier("test", "/dir/file");
    assert_eq!(identifier, "test:/dir/file");
}

#[test]
fn identifier_joins_any_parts_with_a_colon() {
    assert_eq!(Identifier::from_path("", "").as_str(), ":");
    assert_eq!(Identifier::from_path("data", "x/y.png").as_str(), "data:x/y.png");
    assert_eq!(Identifier::from_path("a:b", "c").as_str(), "a:b:c");
}

#[test]
fn identifier_from_keeps_the_text() {
    let identifier = Identifier::from("already:formatted");
    assert_eq!(identifier.as_str(), "already:formatted");
}

#[test]
fn test_valid() {
    let name = Name::try_from("detector-123").expect("valid name");
    assert_eq!(name.as_ref(), "detector-123");
    assert_eq!(name.to_string(), "detector-123");
}

#[test]
fn test_size() {
    assert_eq!(Name::try_from(""), Err(InvalidName));
    let long: String = (0..129).map(|_| 'A').collect::<String>();
    assert_eq!(Name::try_from(long.as_str()), Err(InvalidName));
}

#[test]
fn test_invalid_char() {
    assert_eq!(Name::try_from("ä"), Err(InvalidName));
}

#[test]
fn name_of_maximum_size_is_accepted() {
    let exact: String = (0..128).map(|_| 'A').collect::<String>();
    let name = Name::try_from(exact.as_str()).expect("valid name");
    assert_eq!(name.as_ref(), exact.as_str());
}

#[test]
fn name_allows_the_documented_special_characters() {
    for text in ["a-b", "a_b", "a.b", "a/b", "A9"] {
        assert!(Name::try_from(text).is_ok());
    }
    for text in ["a b", "a:b", "-", "é"] {
        // a space, a colon and non-ASCII letters are outside the set; a
        // lone dash is fine
        let expect_valid = text == "-";
        assert_eq!(Name::try_from(text).is_ok(), expect_valid);
    }
}

#[test]
fn sample_keeps_content_and_identity() {
    let sample = Sample::new("set", "/p/q", vec![9, 8, 7]);
    assert_eq!(sample.as_ref(), &[9, 8, 7]);
    assert_eq!(sample.identifier.as_str(), "set:/p/q");
    let copy = sample.clone();
    assert_eq!(copy.as_ref(), &[9, 8, 7]);
    assert_eq!(copy.identifier.as_str(), "set:/p/q");
}
