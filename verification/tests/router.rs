use std::collections::BTreeMap;
use websocket_adapter::{Enveloppe, GenericParser, NetworkError};

#[derive(Debug, PartialEq)]
struct Ping;

impl<'de> serde::Deserialize<'de> for Ping {
    fn deserialize<D: serde::Deserializer<'de>>(deserializer: D) -> Result<Ping, D::Error> {
        BTreeMap::<String, serde_json::Value>::deserialize(deserializer).map(|_| Ping)
    }
}

#[derive(Debug, PartialEq)]
struct Pong;

impl<'de> serde::Deserialize<'de> for Pong {
    fn deserialize<D: serde::Deserializer<'de>>(deserializer: D) -> Result<Pong, D::Error> {
        BTreeMap::<String, serde_json::Value>::deserialize(deserializer).map(|_| Pong)
    }
}

#[test]
fn new_registry_knows_no_tag() {
    let parser = GenericParser::new();
    assert!(!parser.is_registered("ping"));
    assert_eq!(parser.parse_as_any("ping", "{}").err(), Some(NetworkError::UnknownTag));
}

#[test]
fn registered_tag_is_found() {
    let mut parser = GenericParser::new();
    assert_eq!(parser.insert_type::<Ping>("ping"), Ok(()));
    assert!(parser.is_registered("ping"));
    assert!(!parser.is_registered("pin"));
    assert!(!parser.is_registered("pingo"));
    assert!(parser.parse_as_any("ping", "{}").is_ok());
}

#[test]
fn duplicate_registration_fails_and_keeps_the_first() {
    let mut parser = GenericParser::new();
    assert_eq!(parser.insert_type::<u32>("n"), Ok(()));
    assert_eq!(parser.insert_type::<String>("n"), Err(NetworkError::DuplicateRegistration));
    assert_eq!(parser.insert_type::<u32>("n"), Err(NetworkError::DuplicateRegistration));
    let number = parser.parse_as_any("n", "5").unwrap();
    assert_eq!(GenericParser::to_concrete_type::<u32>(number), Ok(5));
    assert_eq!(parser.parse_as_any("n", "\"five\"").err(), Some(NetworkError::Decode));
}

#[test]
fn registration_touches_no_other_tag() {
    let mut parser = GenericParser::new();
    parser.insert_type::<u32>("n").unwrap();
    parser.insert_type::<String>("s").unwrap();
    assert_eq!(parser.insert_type::<u32>("s"), Err(NetworkError::DuplicateRegistration));
    let number = parser.parse_as_any("n", "1").unwrap();
    let text = parser.parse_as_any("s", "\"1\"").unwrap();
    assert_eq!(GenericParser::to_concrete_type::<u32>(number), Ok(1));
    assert_eq!(GenericParser::to_concrete_type::<String>(text), Ok("1".to_string()));
}

#[test]
fn parse_as_any_decodes_with_the_registered_type() {
    let mut parser = GenericParser::new();
    parser.insert_type::<u32>("n").unwrap();
    assert_eq!(parser.parse_as_any("n", "\"x\"").err(), Some(NetworkError::Decode));
    assert_eq!(parser.parse_as_any("n", "garbage").err(), Some(NetworkError::Decode));
    assert_eq!(parser.parse_as_any("n", "-1").err(), Some(NetworkError::Decode));
    assert_eq!(parser.parse_as_any("n", "").err(), Some(NetworkError::Decode));
    let good = parser.parse_as_any("n", "7").unwrap();
    assert_eq!(GenericParser::to_concrete_type::<u32>(good), Ok(7));
}

#[test]
fn unknown_tag_comes_before_a_bad_payload() {
    let mut parser = GenericParser::new();
    parser.insert_type::<u32>("n").unwrap();
    assert_eq!(parser.parse_as_any("m", "garbage").err(), Some(NetworkError::UnknownTag));
    assert_eq!(parser.parse_as_any("m", "7").err(), Some(NetworkError::UnknownTag));
}

#[test]
fn parse_enveloppe_goes_by_the_tag() {
    let mut parser = GenericParser::new();
    parser.insert_type::<u32>("n").unwrap();
    let known = Enveloppe::new("n".to_string(), "3".to_string()).unwrap();
    let unknown = Enveloppe::new("m".to_string(), "3".to_string()).unwrap();
    let bad = Enveloppe::new("n".to_string(), "[3]".to_string()).unwrap();
    let message = parser.parse_enveloppe(&known).unwrap();
    assert_eq!(GenericParser::to_concrete_type::<u32>(message), Ok(3));
    assert_eq!(parser.parse_enveloppe(&unknown).err(), Some(NetworkError::UnknownTag));
    assert_eq!(parser.parse_enveloppe(&bad).err(), Some(NetworkError::Decode));
}

#[test]
fn to_concrete_type_gives_the_value_back() {
    let mut parser = GenericParser::new();
    parser.insert_type::<Vec<u32>>("list").unwrap();
    let message = parser.parse_as_any("list", "[1,2,3]").unwrap();
    assert_eq!(GenericParser::to_concrete_type::<Vec<u32>>(message), Ok(vec![1, 2, 3]));
}

#[test]
fn to_concrete_type_reports_a_mismatch() {
    let mut parser = GenericParser::new();
    parser.insert_type::<u32>("n").unwrap();
    let message = parser.parse_as_any("n", "5").unwrap();
    assert_eq!(
        GenericParser::to_concrete_type::<u64>(message),
        Err(NetworkError::DowncastMismatch)
    );
    let again = parser.parse_as_any("n", "5").unwrap();
    assert_eq!(
        GenericParser::to_concrete_type::<String>(again),
        Err(NetworkError::DowncastMismatch)
    );
}

#[test]
fn empty_structs_are_told_apart() {
    let mut parser = GenericParser::new();
    parser.insert_type::<Ping>("ping").unwrap();
    parser.insert_type::<Pong>("pong").unwrap();
    let ping = parser.parse_as_any("ping", "{}").unwrap();
    assert_eq!(GenericParser::to_concrete_type::<Pong>(ping), Err(NetworkError::DowncastMismatch));
    let pong = parser.parse_as_any("pong", "{}").unwrap();
    assert_eq!(GenericParser::to_concrete_type::<Pong>(pong), Ok(Pong));
}

#[test]
fn decoded_turns_nothing_into_a_decode_failure() {
    assert_eq!(GenericParser::decoded(None).err(), Some(NetworkError::Decode));
    let mut parser = GenericParser::new();
    parser.insert_type::<u8>("n").unwrap();
    let message = parser.parse_as_any("n", "9").unwrap();
    let kept = GenericParser::decoded(Some(message)).unwrap();
    assert_eq!(GenericParser::to_concrete_type::<u8>(kept), Ok(9));
}

#[test]
fn typed_turns_nothing_into_a_mismatch() {
    assert_eq!(GenericParser::typed::<u8>(None), Err(NetworkError::DowncastMismatch));
    assert_eq!(GenericParser::typed::<u8>(Some(1)), Ok(1));
}

#[test]
fn decode_needs_a_registered_tag() {
    let mut parser = GenericParser::new();
    parser.insert_type::<u32>("n").unwrap();
    let known = Enveloppe::new("n".to_string(), "8".to_string()).unwrap();
    let unknown = Enveloppe::new("m".to_string(), "8".to_string()).unwrap();
    let bad = Enveloppe::new("n".to_string(), "{}".to_string()).unwrap();
    assert_eq!(parser.decode::<u32>(&known), Ok(8));
    assert_eq!(parser.decode::<u32>(&unknown), Err(NetworkError::UnknownTag));
    assert_eq!(parser.decode::<i32>(&known), Err(NetworkError::DowncastMismatch));
    assert_eq!(parser.decode::<u32>(&bad), Err(NetworkError::Decode));
    assert_eq!(parser.decode::<i32>(&bad), Err(NetworkError::Decode));
}

#[test]
fn registry_round_trip() {
    let mut parser = GenericParser::new();
    parser.insert_type::<Vec<String>>("names").unwrap();
    let values = vec![vec![], vec!["a".to_string()], vec!["x\"y".to_string(), "é".to_string()]];
    for value in values {
        let payload = serde_json::to_string(&value).unwrap();
        let sent = Enveloppe::new("names".to_string(), payload).unwrap();
        let received = Enveloppe::from_bytes(&sent.to_bytes()).unwrap();
        assert_eq!(parser.decode::<Vec<String>>(&received), Ok(value));
    }
}
