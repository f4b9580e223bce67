use ancs_bridge::engine::removal_matches;
use ancs_bridge::engine::Engine;
use ancs_bridge::types::DecodeError;
use ancs_bridge::types::ParseError;

fn attr_record(id: u8, value: &[u8]) -> Vec<u8> {
    let mut r = vec![id];
    r.extend_from_slice(&(value.len() as u16).to_le_bytes());
    r.extend_from_slice(value);
    r
}

/// The encoded standard notification-attribute request for one UID.
fn standard_request(uid: u32) -> Vec<u8> {
    let mut r = vec![0];
    r.extend_from_slice(&uid.to_le_bytes());
    r.extend_from_slice(&[0, 1, 64, 0, 2, 64, 0, 3, 64, 0]);
    r
}

/// A notification-attribute response for one UID with app identifier,
/// title, and message, as the remote device would send it.
fn notification_response(uid: u32, app_id: &str, title: &str, message: &str) -> Vec<u8> {
    let mut r = vec![0];
    r.extend_from_slice(&uid.to_le_bytes());
    r.extend_from_slice(&attr_record(0, app_id.as_bytes()));
    r.extend_from_slice(&attr_record(1, title.as_bytes()));
    r.extend_from_slice(&attr_record(3, message.as_bytes()));
    r
}

/// An app-attribute response binding a display name to an identifier.
fn app_response(app_id: &str, name: &str) -> Vec<u8> {
    let mut r = vec![1];
    r.extend_from_slice(app_id.as_bytes());
    r.push(0);
    r.extend_from_slice(&attr_record(0, name.as_bytes()));
    r
}

#[test]
fn removed_event_emits_no_request() {
    let engine = Engine::new();
    let event = vec![2, 0, 1, 1, 42, 0, 0, 0];
    assert_eq!(engine.process_notification(&event), Ok(None));
}

#[test]
fn pre_existing_event_emits_no_request() {
    let engine = Engine::new();
    let event = vec![0, 4, 1, 1, 42, 0, 0, 0];
    assert_eq!(engine.process_notification(&event), Ok(None));
}

#[test]
fn added_event_emits_standard_request() {
    let engine = Engine::new();
    let event = vec![0, 0, 1, 1, 7, 0, 0, 0];
    let outbound = engine.process_notification(&event).unwrap().unwrap();
    assert_eq!(outbound, standard_request(7));
}

#[test]
fn modified_event_emits_standard_request() {
    let engine = Engine::new();
    let event = vec![1, 0, 1, 1, 9, 0, 0, 0];
    let outbound = engine.process_notification(&event).unwrap().unwrap();
    assert_eq!(outbound, standard_request(9));
}

#[test]
fn uncached_app_renders_raw_identifier_and_queries() {
    let mut engine = Engine::new();
    let event = vec![0, 0, 1, 1, 7, 0, 0, 0];
    let outbound = engine.process_notification(&event).unwrap().unwrap();
    assert_eq!(outbound, standard_request(7));

    let response = notification_response(7, "com.example.chat", "Hi", "there");
    let outcome = engine.process_data(&response).unwrap();
    let render = outcome.render.unwrap();
    assert_eq!(render.notification_uid, 7);
    assert_eq!(render.app_name.as_deref(), Some("com.example.chat"));
    assert_eq!(render.summary.as_deref(), Some("Hi"));
    assert_eq!(render.body.as_deref(), Some("there"));

    // Exactly one display-name query for the uncached identifier.
    let mut expected_query = vec![1];
    expected_query.extend_from_slice("com.example.chat".as_bytes());
    expected_query.push(0);
    expected_query.push(0);
    assert_eq!(outcome.outbound, Some(expected_query));
}

#[test]
fn cached_app_renders_display_name_and_queries_nothing() {
    let mut engine = Engine::new();

    // A successful display-name response fills the cache.
    let outcome = engine.process_data(&app_response("com.example.chat", "Chat App")).unwrap();
    assert!(outcome.render.is_none());
    assert!(outcome.outbound.is_none());

    // The identical notification flow now renders the cached name.
    let response = notification_response(7, "com.example.chat", "Hi", "there");
    let outcome = engine.process_data(&response).unwrap();
    let render = outcome.render.unwrap();
    assert_eq!(render.app_name.as_deref(), Some("Chat App"));
    assert_eq!(render.summary.as_deref(), Some("Hi"));
    assert_eq!(render.body.as_deref(), Some("there"));
    assert!(outcome.outbound.is_none());
}

#[test]
fn app_response_with_unknown_attribute_changes_nothing() {
    let mut engine = Engine::new();
    let mut response = vec![1];
    response.extend_from_slice("com.example.chat".as_bytes());
    response.push(0);
    response.extend_from_slice(&attr_record(5, "x".as_bytes()));
    let outcome = engine.process_data(&response).unwrap();
    assert!(outcome.render.is_none());
    assert!(outcome.outbound.is_none());

    // The identifier stays uncached, so a notification still shows it raw.
    let outcome =
        engine.process_data(&notification_response(7, "com.example.chat", "Hi", "there")).unwrap();
    assert_eq!(outcome.render.unwrap().app_name.as_deref(), Some("com.example.chat"));
    assert!(outcome.outbound.is_some());
}

#[test]
fn response_without_app_identifier_renders_defaults() {
    let mut engine = Engine::new();
    let mut response = vec![0, 3, 0, 0, 0];
    response.extend_from_slice(&attr_record(1, "Hi".as_bytes()));
    let outcome = engine.process_data(&response).unwrap();
    let render = outcome.render.unwrap();
    assert_eq!(render.app_name, None);
    assert_eq!(render.summary.as_deref(), Some("Hi"));
    assert_eq!(render.body, None);
    assert!(outcome.outbound.is_none());
}

#[test]
fn ignored_tag_does_nothing() {
    let mut engine = Engine::new();
    let outcome = engine.process_data(&[9, 1, 2, 3]).unwrap();
    assert!(outcome.render.is_none());
    assert!(outcome.outbound.is_none());
}

#[test]
fn truncated_event_fails_and_engine_continues() {
    let mut engine = Engine::new();
    // Fewer than seven bytes: a decode failure for this message only.
    assert_eq!(engine.process_notification(&[0, 0, 0]), Err(DecodeError::TruncatedInput));
    // The engine keeps serving subsequent messages.
    let event = vec![0, 0, 1, 1, 7, 0, 0, 0];
    assert_eq!(engine.process_notification(&event).unwrap().unwrap(), standard_request(7));
    assert_eq!(engine.process_data(&[]), Err(ParseError::TruncatedInput));
    let outcome = engine.process_data(&notification_response(7, "a", "t", "m")).unwrap();
    assert!(outcome.render.is_some());
}

#[test]
fn removal_matches_compares_addresses() {
    assert!(removal_matches(&[1, 2, 3, 4, 5, 6], &[1, 2, 3, 4, 5, 6]));
    assert!(!removal_matches(&[1, 2, 3, 4, 5, 6], &[1, 2, 3, 4, 5, 7]));
    assert!(!removal_matches(&[0; 6], &[1, 2, 3, 4, 5, 6]));
}
