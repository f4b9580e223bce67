use ancs_bridge::parser::parse_app_identifier_and_attribute;
use ancs_bridge::parser::parse_notification_attributes;
use ancs_bridge::types::NotificationAttributeId;
use ancs_bridge::types::ParseError;

fn attr_record(id: u8, value: &[u8]) -> Vec<u8> {
    let mut r = vec![id];
    r.extend_from_slice(&(value.len() as u16).to_le_bytes());
    r.extend_from_slice(value);
    r
}

#[test]
fn parse_notification_attributes_full_list() {
    let mut payload: Vec<u8> = vec![7, 0, 0, 0];
    payload.extend_from_slice(&attr_record(0, "com.example.chat".as_bytes()));
    payload.extend_from_slice(&attr_record(1, "Hi".as_bytes()));
    payload.extend_from_slice(&attr_record(3, "there".as_bytes()));
    let list = parse_notification_attributes(&payload).unwrap();
    assert_eq!(list.notification_uid, 7);
    assert_eq!(list.attributes.len(), 3);
    assert_eq!(list.attributes[0].id, NotificationAttributeId::AppIdentifier);
    assert_eq!(list.attributes[0].value.as_deref(), Some("com.example.chat"));
    assert_eq!(list.attributes[1].id, NotificationAttributeId::Title);
    assert_eq!(list.attributes[1].value.as_deref(), Some("Hi"));
    assert_eq!(list.attributes[2].id, NotificationAttributeId::Message);
    assert_eq!(list.attributes[2].value.as_deref(), Some("there"));
}

#[test]
fn parse_notification_attributes_zero_length_value() {
    let mut payload: Vec<u8> = vec![1, 0, 0, 0];
    payload.extend_from_slice(&attr_record(1, &[]));
    let list = parse_notification_attributes(&payload).unwrap();
    assert_eq!(list.attributes.len(), 1);
    assert_eq!(list.attributes[0].value.as_deref(), Some(""));
}

#[test]
fn parse_notification_attributes_empty_list() {
    let list = parse_notification_attributes(&[9, 0, 0, 0]).unwrap();
    assert_eq!(list.notification_uid, 9);
    assert!(list.attributes.is_empty());
}

#[test]
fn parse_notification_attributes_unknown_id_consumed_and_dropped() {
    // The unknown attribute's length-prefixed value must be consumed so the
    // cursor stays aligned for the next record.
    let mut payload: Vec<u8> = vec![3, 0, 0, 0];
    payload.extend_from_slice(&attr_record(200, &[1, 0, 3]));
    payload.extend_from_slice(&attr_record(1, "x".as_bytes()));
    let list = parse_notification_attributes(&payload).unwrap();
    assert_eq!(list.attributes.len(), 1);
    assert_eq!(list.attributes[0].id, NotificationAttributeId::Title);
    assert_eq!(list.attributes[0].value.as_deref(), Some("x"));
}

#[test]
fn parse_notification_attributes_lossy_value() {
    let mut payload: Vec<u8> = vec![1, 0, 0, 0];
    payload.extend_from_slice(&attr_record(1, &[0xFF, 0xFE]));
    let list = parse_notification_attributes(&payload).unwrap();
    assert_eq!(list.attributes[0].value.as_deref(), Some("\u{FFFD}\u{FFFD}"));
}

#[test]
fn parse_notification_attributes_maximum_length_value() {
    let value = vec![b'a'; u16::MAX as usize];
    let mut payload: Vec<u8> = vec![5, 0, 0, 0];
    payload.extend_from_slice(&attr_record(3, &value));
    let list = parse_notification_attributes(&payload).unwrap();
    assert_eq!(list.attributes.len(), 1);
    assert_eq!(list.attributes[0].value.as_ref().map(|v| v.len()), Some(u16::MAX as usize));
}

#[test]
fn parse_notification_attributes_truncated() {
    // Shorter than the UID.
    assert_eq!(parse_notification_attributes(&[1, 2, 3]), Err(ParseError::TruncatedInput));
    // A header cut short.
    assert_eq!(parse_notification_attributes(&[1, 0, 0, 0, 1, 2]), Err(ParseError::TruncatedInput));
    // A value shorter than its declared length.
    assert_eq!(
        parse_notification_attributes(&[1, 0, 0, 0, 1, 5, 0, 97, 98]),
        Err(ParseError::TruncatedInput)
    );
}

#[test]
fn parse_app_identifier_and_attribute_ok() {
    let mut payload: Vec<u8> = Vec::new();
    payload.extend_from_slice("com.example.chat".as_bytes());
    payload.push(0);
    payload.extend_from_slice(&attr_record(0, "Chat App".as_bytes()));
    let (identifier, attr) = parse_app_identifier_and_attribute(&payload).unwrap();
    assert_eq!(identifier, "com.example.chat");
    assert_eq!(attr.id, 0);
    assert_eq!(attr.value.as_deref(), Some("Chat App"));
}

#[test]
fn parse_app_identifier_empty_identifier() {
    let mut payload: Vec<u8> = vec![0];
    payload.extend_from_slice(&attr_record(0, "Name".as_bytes()));
    let (identifier, attr) = parse_app_identifier_and_attribute(&payload).unwrap();
    assert_eq!(identifier, "");
    assert_eq!(attr.value.as_deref(), Some("Name"));
}

#[test]
fn parse_app_identifier_unknown_attribute_id_kept_raw() {
    let mut payload: Vec<u8> = Vec::new();
    payload.extend_from_slice("a.b".as_bytes());
    payload.push(0);
    payload.extend_from_slice(&attr_record(9, "v".as_bytes()));
    let (_, attr) = parse_app_identifier_and_attribute(&payload).unwrap();
    assert_eq!(attr.id, 9);
}

#[test]
fn parse_app_identifier_trailing_bytes_ignored() {
    let mut payload: Vec<u8> = Vec::new();
    payload.extend_from_slice("a.b".as_bytes());
    payload.push(0);
    payload.extend_from_slice(&attr_record(0, "v".as_bytes()));
    payload.extend_from_slice(&[9, 9, 9]);
    let (identifier, attr) = parse_app_identifier_and_attribute(&payload).unwrap();
    assert_eq!(identifier, "a.b");
    assert_eq!(attr.value.as_deref(), Some("v"));
}

#[test]
fn parse_app_identifier_truncated() {
    // No terminator at all.
    assert_eq!(
        parse_app_identifier_and_attribute("a.b".as_bytes()),
        Err(ParseError::TruncatedInput)
    );
    // Terminator but no whole record header.
    assert_eq!(parse_app_identifier_and_attribute(&[97, 0, 0, 4]), Err(ParseError::TruncatedInput));
    // A record value shorter than its declared length.
    assert_eq!(
        parse_app_identifier_and_attribute(&[97, 0, 0, 4, 0, 120]),
        Err(ParseError::TruncatedInput)
    );
    // Empty payload.
    assert_eq!(parse_app_identifier_and_attribute(&[]), Err(ParseError::TruncatedInput));
}
