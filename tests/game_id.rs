use cambio::game_id::{Id, ParseError};

#[test]
fn create_id() {
    let id = Id::new();

    assert_eq!(id.as_str().len(), Id::LEN);
}

#[test]
fn created_ids_use_only_digits_one_to_nine() {
    let id = Id::new();
    assert!(id.as_str().chars().all(|c| ('1'..='9').contains(&c)));
}

#[test]
fn id_parse() {
    let s = String::from("456789");
    let _ = s.parse::<Id>().expect("length of 6 and all chars are valid");

    let s = String::from("000000");
    let err = s.parse::<Id>().expect_err("0 is not a valid char");
    assert_eq!(err, ParseError::InvalidChars);

    let s = String::from("");
    let err = s.parse::<Id>().expect_err("s is empty");
    assert_eq!(err, ParseError::InvalidLength(0));

    let s = String::from("12345");
    let err = s.parse::<Id>().expect_err("s is too short");
    assert_eq!(err, ParseError::InvalidLength(5));

    let s = String::from("1234567");
    let err = s.parse::<Id>().expect_err("s is too long");
    assert_eq!(err, ParseError::InvalidLength(7));
}

#[test]
fn id_parse_counts_bytes_and_keeps_text() {
    assert_eq!(Id::parse("12345é"), Err(ParseError::InvalidLength(7)));
    assert_eq!(Id::parse("1234é"), Err(ParseError::InvalidChars));
    assert_eq!(Id::parse("12a456"), Err(ParseError::InvalidChars));
    assert_eq!(Id::parse("999111").unwrap().as_str(), "999111");
}
