use bevy_blender_utils::DecodeError;
use bevy_blender_utils::decode_payload;

#[test]
fn absent_key_is_not_an_error() {
    let r = decode_payload("{}");
    assert!(matches!(r, Ok(None)));
}

#[test]
fn explicit_null_is_not_an_error() {
    let r = decode_payload("{\"bbu_object_data\": null}");
    assert!(matches!(r, Ok(None)));
}

#[test]
fn other_keys_do_not_count_as_payload() {
    let r = decode_payload("{\"unrelated\": 5}");
    assert!(matches!(r, Ok(None)));
}

#[test]
fn malformed_text_is_a_decode_error() {
    let r = decode_payload("{\"bbu_object_data\": ");
    match r {
        Err(DecodeError::Malformed { message }) => assert!(!message.is_empty()),
        Ok(_) => panic!("malformed text must not decode"),
    }
}

#[test]
fn non_object_top_level_is_a_decode_error() {
    let r = decode_payload("[1, 2, 3]");
    assert!(matches!(r, Err(DecodeError::Malformed { .. })));
}

#[test]
fn present_payload_is_returned_verbatim() {
    let r = decode_payload("{\"bbu_object_data\": {\"id\": \"shooting_square\", \"speed\": 2}}");
    let payload = r.expect("well-formed envelope").expect("payload present");
    let expected: serde_json::Value =
        serde_json::from_str("{\"id\": \"shooting_square\", \"speed\": 2}").unwrap();
    assert_eq!(payload, expected);
}

#[test]
fn scalar_payload_is_returned_verbatim() {
    let r = decode_payload("{\"bbu_object_data\": 42}");
    let payload = r.expect("well-formed envelope").expect("payload present");
    let expected: serde_json::Value = serde_json::from_str("42").unwrap();
    assert_eq!(payload, expected);
}
