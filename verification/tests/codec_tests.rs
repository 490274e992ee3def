use std::time::SystemTime;
use std::time::UNIX_EPOCH;
use timebay::error::ConversionError;
use timebay::messages::decode;
use timebay::messages::encode;
use timebay::messages::topic_qos;
use timebay::messages::ConnectionMessage;
use timebay::messages::DetectionMessage;
use timebay::messages::DisconnectionMessage;
use timebay::messages::MqttMessage;

#[test]
fn mqtt_message_parses() {
    let msg = encode(&MqttMessage::Connection(ConnectionMessage::new(1))).unwrap();

    match decode(&msg.topic, &msg.payload).unwrap() {
        MqttMessage::Connection(c) => assert_eq!(c.node_id, 1),
        other => panic!("decoded wrong variant: {:?}", other),
    }

    let msg = encode(&MqttMessage::Disconnection(DisconnectionMessage::new(1))).unwrap();

    match decode(&msg.topic, &msg.payload).unwrap() {
        MqttMessage::Disconnection(d) => assert_eq!(d.node_id, 1),
        other => panic!("decoded wrong variant: {:?}", other),
    }

    let msg = encode(&MqttMessage::Zero).unwrap();
    assert_eq!(decode(&msg.topic, &msg.payload).unwrap(), MqttMessage::Zero);

    let time = SystemTime::now().duration_since(UNIX_EPOCH).unwrap();
    let detect_msg = MqttMessage::Detection(DetectionMessage::new(
        2,
        523,
        time.as_secs(),
        time.subsec_nanos(),
    ));
    let msg = encode(&detect_msg).unwrap();

    assert_eq!(decode(&msg.topic, &msg.payload).unwrap(), detect_msg);
}

#[test]
fn wire_form_is_little_endian() {
    let msg = encode(&MqttMessage::Detection(DetectionMessage::new(
        0x0102,
        0x03040506,
        0x0708090a0b0c0d0e,
        0x0f101112,
    )))
    .unwrap();

    assert_eq!(msg.topic, "/sensors/detection");
    assert_eq!(msg.qos, 2);
    assert_eq!(
        msg.payload,
        vec![
            0x02, 0x01, // node id
            0x06, 0x05, 0x04, 0x03, // distance
            0x0e, 0x0d, 0x0c, 0x0b, 0x0a, 0x09, 0x08, 0x07, // seconds
            0x12, 0x11, 0x10, 0x0f, // nanoseconds
        ]
    );

    let msg = encode(&MqttMessage::Connection(ConnectionMessage::new(0xabcd))).unwrap();
    assert_eq!(msg.topic, "/connect");
    assert_eq!(msg.qos, 2);
    assert_eq!(msg.payload, vec![0xcd, 0xab]);

    let msg = encode(&MqttMessage::Zero).unwrap();
    assert_eq!(msg.topic, "/zero");
    assert_eq!(msg.qos, 1);
    assert!(msg.payload.is_empty());
}

#[test]
fn unknown_topic_is_receive_only() {
    // decoding an unrecognized topic keeps the topic
    match decode("/other", &vec![1, 2, 3]).unwrap() {
        MqttMessage::Unknown(t) => assert_eq!(t, "/other"),
        other => panic!("decoded wrong variant: {:?}", other),
    }

    // and the unknown variant cannot be encoded back
    assert_eq!(
        encode(&MqttMessage::Unknown(String::from("/other"))).unwrap_err(),
        ConversionError::NonConvertable
    );
}

#[test]
fn malformed_payloads_are_rejected() {
    assert_eq!(
        decode("/connect", &vec![1]).unwrap_err(),
        ConversionError::MalformedPayload
    );
    assert_eq!(
        decode("/disconnect", &vec![1, 2, 3]).unwrap_err(),
        ConversionError::MalformedPayload
    );
    assert_eq!(
        decode("/sensors/detection", &vec![0; 17]).unwrap_err(),
        ConversionError::MalformedPayload
    );
    // the zero command ignores its payload
    assert_eq!(decode("/zero", &vec![9, 9]).unwrap(), MqttMessage::Zero);
}

#[test]
fn topics_have_their_qos() {
    assert_eq!(topic_qos("/connect"), Some(2));
    assert_eq!(topic_qos("/disconnect"), Some(2));
    assert_eq!(topic_qos("/sensors/detection"), Some(2));
    assert_eq!(topic_qos("/zero"), Some(1));
    assert_eq!(topic_qos("/nope"), None);
}
