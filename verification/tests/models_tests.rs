use online::models::get_msg_byte;
use online::topic::Topic;

#[test]
fn topic_splits_on_slashes() {
    let t = Topic::new("online/dev-1");
    assert_eq!(t.root, "online");
    assert_eq!(t.device_id, "dev-1");
    assert_eq!(t.topic_string(), "online/dev-1");
}

#[test]
fn topic_takes_the_second_level_only() {
    let t = Topic::new("online/dev-1/extra");
    assert_eq!(t.root, "online");
    assert_eq!(t.device_id, "dev-1");
}

#[test]
fn valid_payload_is_re_encoded_with_topic() {
    let t = Topic::new("online/dev-1");
    let out = get_msg_byte(&t, "{\"uuid\":\"dev-1\",\"apiToken\":\"tok-1\",\"payload\":{}}");
    assert_eq!(
        String::from_utf8(out).unwrap(),
        "{\"uuid\":\"dev-1\",\"apiToken\":\"tok-1\",\
         \"topic\":{\"root\":\"online\",\"deviceId\":\"dev-1\"},\"payload\":{}}"
    );
}

#[test]
fn re_encoding_escapes_strings() {
    let t = Topic::new("online/dev-1");
    let out = get_msg_byte(&t, "{\"uuid\":\"a\\\"b\",\"apiToken\":\"x\\ny\",\"payload\":{}}");
    assert_eq!(
        String::from_utf8(out).unwrap(),
        "{\"uuid\":\"a\\\"b\",\"apiToken\":\"x\\ny\",\
         \"topic\":{\"root\":\"online\",\"deviceId\":\"dev-1\"},\"payload\":{}}"
    );
}

#[test]
fn invalid_payload_yields_no_bytes() {
    let t = Topic::new("online/dev-1");
    let out = get_msg_byte(&t, "not json at all");
    assert!(out.is_empty());
    let out2 = get_msg_byte(&t, "");
    assert!(out2.is_empty());
}
