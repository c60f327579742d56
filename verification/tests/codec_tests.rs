use online::codec::decode;
use online::message_error::MessageError;

fn bytes(s: &str) -> Vec<u8> {
    s.as_bytes().to_vec()
}

#[test]
fn decodes_minimal_envelope() {
    let b = bytes("{\"uuid\":\"dev-1\",\"apiToken\":\"tok-1\",\"payload\":{}}");
    let n = decode(&b).unwrap();
    assert_eq!(n.uuid, "dev-1");
    assert_eq!(n.api_token, "tok-1");
}

#[test]
fn decodes_with_whitespace_and_reordered_members() {
    let b = bytes(" {\n\t\"payload\" : { } ,\r\n \"apiToken\" : \"t\" , \"uuid\" : \"u\" } ");
    let n = decode(&b).unwrap();
    assert_eq!(n.uuid, "u");
    assert_eq!(n.api_token, "t");
}

#[test]
fn decodes_escapes_in_strings() {
    let b = bytes("{\"uuid\":\"a\\\"b\\\\c\\/d\",\"apiToken\":\"x\\ny\\tz\",\"payload\":{}}");
    let n = decode(&b).unwrap();
    assert_eq!(n.uuid, "a\"b\\c/d");
    assert_eq!(n.api_token, "x\ny\tz");
}

#[test]
fn decodes_with_unknown_members_of_every_shape() {
    let b = bytes(
        "{\"uuid\":\"u\",\"n\":-12.5e+3,\"b\":true,\"z\":null,\"arr\":[1,\"two\",[false],{}],\
         \"obj\":{\"inner\":{\"deep\":\"x\"}},\"apiToken\":\"t\",\"payload\":{\"ignored\":1}}",
    );
    let n = decode(&b).unwrap();
    assert_eq!(n.uuid, "u");
    assert_eq!(n.api_token, "t");
}

#[test]
fn empty_input_is_empty_message_error() {
    let b: Vec<u8> = Vec::new();
    assert!(matches!(decode(&b), Err(MessageError::EmptyMessageError)));
}

#[test]
fn missing_required_members_is_parse_error() {
    let b = bytes("{\"uuid\":\"dev-1\"}");
    assert!(matches!(decode(&b), Err(MessageError::ParseMessageError)));
}

#[test]
fn missing_payload_is_parse_error() {
    let b = bytes("{\"uuid\":\"u\",\"apiToken\":\"t\"}");
    assert!(matches!(decode(&b), Err(MessageError::ParseMessageError)));
}

#[test]
fn empty_object_is_parse_error() {
    let b = bytes("{}");
    assert!(matches!(decode(&b), Err(MessageError::ParseMessageError)));
}

#[test]
fn empty_uuid_is_parse_error() {
    let b = bytes("{\"uuid\":\"\",\"apiToken\":\"t\",\"payload\":{}}");
    assert!(matches!(decode(&b), Err(MessageError::ParseMessageError)));
}

#[test]
fn duplicate_required_member_is_parse_error() {
    let b = bytes("{\"uuid\":\"a\",\"uuid\":\"b\",\"apiToken\":\"t\",\"payload\":{}}");
    assert!(matches!(decode(&b), Err(MessageError::ParseMessageError)));
}

#[test]
fn non_string_uuid_is_parse_error() {
    let b = bytes("{\"uuid\":7,\"apiToken\":\"t\",\"payload\":{}}");
    assert!(matches!(decode(&b), Err(MessageError::ParseMessageError)));
}

#[test]
fn non_object_payload_is_parse_error() {
    let b = bytes("{\"uuid\":\"u\",\"apiToken\":\"t\",\"payload\":[]}");
    assert!(matches!(decode(&b), Err(MessageError::ParseMessageError)));
}

#[test]
fn trailing_text_is_parse_error() {
    let b = bytes("{\"uuid\":\"u\",\"apiToken\":\"t\",\"payload\":{}}x");
    assert!(matches!(decode(&b), Err(MessageError::ParseMessageError)));
}

#[test]
fn truncated_envelope_is_parse_error() {
    let b = bytes("{\"uuid\":\"u\",\"apiToken\":\"t\",\"payload\":{");
    assert!(matches!(decode(&b), Err(MessageError::ParseMessageError)));
}

#[test]
fn unterminated_string_is_parse_error() {
    let b = bytes("{\"uuid\":\"u");
    assert!(matches!(decode(&b), Err(MessageError::ParseMessageError)));
}

#[test]
fn bad_escape_is_parse_error() {
    let b = bytes("{\"uuid\":\"a\\qb\",\"apiToken\":\"t\",\"payload\":{}}");
    assert!(matches!(decode(&b), Err(MessageError::ParseMessageError)));
}

#[test]
fn non_ascii_byte_is_parse_error() {
    let mut b = bytes("{\"uuid\":\"");
    b.push(0xc3);
    b.push(0xa9);
    b.extend_from_slice("\",\"apiToken\":\"t\",\"payload\":{}}".as_bytes());
    assert!(matches!(decode(&b), Err(MessageError::ParseMessageError)));
}

#[test]
fn bare_word_is_parse_error() {
    let b = bytes("online");
    assert!(matches!(decode(&b), Err(MessageError::ParseMessageError)));
}

#[test]
fn leading_zero_number_is_parse_error() {
    let b = bytes("{\"uuid\":\"u\",\"apiToken\":\"t\",\"payload\":{},\"n\":01}");
    assert!(matches!(decode(&b), Err(MessageError::ParseMessageError)));
}

#[test]
fn dangling_comma_is_parse_error() {
    let b = bytes("{\"uuid\":\"u\",\"apiToken\":\"t\",\"payload\":{},}");
    assert!(matches!(decode(&b), Err(MessageError::ParseMessageError)));
}

#[test]
fn error_descriptions() {
    assert_eq!(
        MessageError::EmptyMessageError.describe(),
        "Received empty message error"
    );
    assert_eq!(
        MessageError::ParseMessageError.describe(),
        "Cannot parse message payload error"
    );
}
