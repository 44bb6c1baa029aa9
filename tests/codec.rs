use mqtt::hex::{unpack_properties, pack_properties, Property, PropertyItem, PropertyScope, PropertyValue};
use mqtt::message::entity::{
    AuthMessage, ConnackMessage, ConnectMessage, DisconnectMessage, PubackMessage, PubcompMessage, PublishMessage,
    PubrecMessage, PubrelMessage, SubackMessage, SubscribeMessage, TopicFilter, UnsubackMessage, UnsubscribeMessage,
    PingreqMessage, PingrespMessage,
};
use mqtt::message::v3::{self, MqttMessageV3};
use mqtt::message::v5::{self, MqttMessageV5};
use mqtt::message::{get_protocol_name_and_version, BaseMessage, DecodeError, MqttMessageKind};
use mqtt::protocol::{
    MqttCleanSession, MqttDup, MqttProtocolLevel, MqttQos, MqttRetain, MqttSessionPresent, MqttWillFlag, TypeKind,
};
use mqtt::tools::pack_tool::{pack_connect_flags, pack_header, pack_publish_header, pack_remaining_length};
use mqtt::tools::un_pack_tool::{get_remaining_length, parse_string};

#[test]
fn vli_boundaries() {
    assert_eq!(pack_remaining_length(0), vec![0x00]);
    assert_eq!(pack_remaining_length(127), vec![0x7F]);
    assert_eq!(pack_remaining_length(128), vec![0x80, 0x01]);
    assert_eq!(pack_remaining_length(16383), vec![0xFF, 0x7F]);
    assert_eq!(pack_remaining_length(2097151), vec![0xFF, 0xFF, 0x7F]);
    assert_eq!(pack_remaining_length(268435455), vec![0xFF, 0xFF, 0xFF, 0x7F]);
}

#[test]
fn vli_decodes_back() {
    for n in [0usize, 1, 127, 128, 300, 16383, 16384, 2097151, 2097152, 268435455] {
        let mut bytes = pack_remaining_length(n);
        bytes.push(0xAA);
        let (v, rest) = get_remaining_length(&bytes).unwrap();
        assert_eq!(v, n);
        assert_eq!(rest, &[0xAA]);
    }
}

#[test]
fn vli_fifth_continuation_is_malformed() {
    assert!(get_remaining_length(&[0xFF, 0xFF, 0xFF, 0xFF, 0x7F]).is_none());
    assert!(get_remaining_length(&[0x80]).is_none());
    let err = BaseMessage::decode(&[0x30, 0xFF, 0xFF, 0xFF, 0xFF, 0x01]).unwrap_err();
    assert_eq!(err, DecodeError::Malformed);
}

#[test]
fn unknown_type_is_reported() {
    assert_eq!(v3::decode(&[0x00, 0x00]).unwrap_err(), DecodeError::UnknownType);
    assert_eq!(v3::decode(&[0xF0, 0x00]).unwrap_err(), DecodeError::UnknownType);
    assert_eq!(v3::decode(&[]).unwrap_err(), DecodeError::Malformed);
    assert_eq!(v3::decode(&[0x30, 0x05, 0x00]).unwrap_err(), DecodeError::Malformed);
    match v5::decode(&[0xF0, 0x00]) {
        Ok((MqttMessageV5::Auth(a), 2)) => {
            assert_eq!(a.code, 0);
            assert!(a.properties.is_empty());
        }
        other => panic!("{:?}", other),
    }
}

#[test]
fn fixed_header_bytes() {
    assert_eq!(pack_header(TypeKind::PINGREQ, 0), vec![0xC0, 0x00]);
    assert_eq!(pack_header(TypeKind::SUBSCRIBE, 200), vec![0x82, 0xC8, 0x01]);
    assert_eq!(pack_publish_header(3, MqttQos::Qos2, MqttDup::Enable, MqttRetain::Enable), vec![0x3D, 0x03]);
    assert_eq!(pack_publish_header(0, MqttQos::Qos0, MqttDup::Disable, MqttRetain::Disable), vec![0x30, 0x00]);
}

#[test]
fn connect_flags_byte() {
    let f = pack_connect_flags(MqttCleanSession::Enable, MqttWillFlag::Enable, MqttQos::Qos1, MqttRetain::Enable, true, true);
    assert_eq!(f, 0b1110_1110);
    let f = pack_connect_flags(MqttCleanSession::Enable, MqttWillFlag::Disable, MqttQos::Qos0, MqttRetain::Disable, false, false);
    assert_eq!(f, 0b0000_0010);
}

#[test]
fn strings_reject_invalid_utf8() {
    assert!(parse_string(&[0x00, 0x02, 0xFF, 0xFE]).is_none());
    assert!(parse_string(&[0x00, 0x05, b'a']).is_none());
    let bytes = [0x00, 0x03, b'h', 0xC3, 0xA9, 0x01];
    let (s, rest) = parse_string(&bytes).unwrap();
    assert_eq!(s, "h\u{e9}");
    assert_eq!(rest, &[0x01]);
}

#[test]
fn connect_pre_decode_reads_level() {
    let c = ConnectMessage::new("id".to_string(), MqttProtocolLevel::Level5, MqttCleanSession::Disable, 60);
    let bytes = MqttMessageV5::Connect(c).to_vec();
    let (name, level) = get_protocol_name_and_version(&bytes).unwrap();
    assert_eq!(name, "MQTT");
    assert_eq!(level, MqttProtocolLevel::Level5);
    assert!(get_protocol_name_and_version(&[0xC0, 0x00]).is_none());
}

fn all_v3(qos: MqttQos, dup: MqttDup, retain: MqttRetain) -> Vec<MqttMessageV3> {
    let mut c = ConnectMessage::new("client".to_string(), MqttProtocolLevel::Level3_1_1, MqttCleanSession::Enable, 30);
    c.will_flag = MqttWillFlag::Enable;
    c.will_qos = qos;
    c.will_retain = retain;
    c.payload.will_topic = Some("w".to_string());
    c.payload.will_message = Some("gone".to_string());
    c.payload.user_name = Some("user".to_string());
    c.payload.password = Some("pw".to_string());
    let id = if qos == MqttQos::Qos0 { 0 } else { 42 };
    let mut sub = SubscribeMessage::new(3, "s".to_string(), qos);
    sub.filters.push(TopicFilter { topic: "s2".to_string(), options: 1 });
    let mut unsub = UnsubscribeMessage::new(4, "s".to_string());
    unsub.topics.push("s2".to_string());
    vec![
        MqttMessageV3::Connect(c),
        MqttMessageV3::Connack(ConnackMessage::new(MqttSessionPresent::Enable, 0)),
        MqttMessageV3::Publish(PublishMessage::new(qos, dup, retain, "t/x".to_string(), id, vec![1, 2, 3], Vec::new())),
        MqttMessageV3::Puback(PubackMessage::new(1)),
        MqttMessageV3::Pubrec(PubrecMessage::new(2)),
        MqttMessageV3::Pubrel(PubrelMessage::new(3)),
        MqttMessageV3::Pubcomp(PubcompMessage::new(4)),
        MqttMessageV3::Subscribe(sub),
        MqttMessageV3::Suback(SubackMessage::new(3, 5)),
        MqttMessageV3::Unsubscribe(unsub),
        MqttMessageV3::Unsuback(UnsubackMessage::new(4)),
        MqttMessageV3::Pingreq(PingreqMessage {}),
        MqttMessageV3::Pingresp(PingrespMessage {}),
        MqttMessageV3::Disconnect(DisconnectMessage::new()),
    ]
}

#[test]
fn v3_round_trips() {
    for qos in [MqttQos::Qos0, MqttQos::Qos1, MqttQos::Qos2] {
        for dup in [MqttDup::Disable, MqttDup::Enable] {
            for retain in [MqttRetain::Disable, MqttRetain::Enable] {
                for m in all_v3(qos, dup, retain) {
                    let bytes = m.to_vec();
                    let mut framed = bytes.clone();
                    framed.extend([0xEE, 0xEE]);
                    let (d, n) = v3::decode(&framed).unwrap();
                    assert_eq!(n, bytes.len());
                    assert_eq!(d.to_vec(), bytes);
                    assert_eq!(format!("{:?}", d), format!("{:?}", m));
                }
            }
        }
    }
}

fn props() -> Vec<PropertyItem> {
    vec![
        PropertyItem(Property::MessageExpiryInterval, PropertyValue::Long(3600)),
        PropertyItem(Property::UserProperty, PropertyValue::Pair("k".to_string(), "v".to_string())),
        PropertyItem(Property::SubscriptionIdentifier, PropertyValue::Var(300)),
        PropertyItem(Property::ContentType, PropertyValue::String("text".to_string())),
        PropertyItem(Property::PayloadFormatIndicator, PropertyValue::Byte(1)),
        PropertyItem(Property::TopicAlias, PropertyValue::Short(7)),
    ]
}

fn all_v5(qos: MqttQos, dup: MqttDup, retain: MqttRetain) -> Vec<MqttMessageV5> {
    let mut out = Vec::new();
    for m in all_v3(qos, dup, retain) {
        out.push(match m.into_v5() {
            MqttMessageV5::Connect(mut c) => {
                c.protocol_level = MqttProtocolLevel::Level5;
                c.properties = vec![PropertyItem(Property::SessionExpiryInterval, PropertyValue::Long(10))];
                c.payload.properties = vec![PropertyItem(Property::WillDelayInterval, PropertyValue::Long(5))];
                MqttMessageV5::Connect(c)
            }
            MqttMessageV5::Publish(mut p) => {
                p.properties = props();
                MqttMessageV5::Publish(p)
            }
            MqttMessageV5::Puback(mut a) => {
                a.code = 0x10;
                a.properties = vec![PropertyItem(Property::ReasonString, PropertyValue::String("ok".to_string()))];
                MqttMessageV5::Puback(a)
            }
            MqttMessageV5::Unsuback(mut u) => {
                u.codes = vec![0, 0x11];
                MqttMessageV5::Unsuback(u)
            }
            MqttMessageV5::Disconnect(mut d) => {
                d.code = 0x04;
                MqttMessageV5::Disconnect(d)
            }
            other => other,
        });
    }
    out.push(MqttMessageV5::Auth(AuthMessage::new(0x18)));
    out
}

#[test]
fn v5_round_trips() {
    for qos in [MqttQos::Qos0, MqttQos::Qos1, MqttQos::Qos2] {
        for dup in [MqttDup::Disable, MqttDup::Enable] {
            for retain in [MqttRetain::Disable, MqttRetain::Enable] {
                for m in all_v5(qos, dup, retain) {
                    let bytes = m.to_vec();
                    let (d, n) = v5::decode(&bytes).unwrap();
                    assert_eq!(n, bytes.len());
                    assert_eq!(d.to_vec(), bytes);
                    assert_eq!(format!("{:?}", d), format!("{:?}", m));
                }
            }
        }
    }
}

#[test]
fn v3_publish_exact_bytes() {
    let p = PublishMessage::new(MqttQos::Qos1, MqttDup::Disable, MqttRetain::Disable, "x".to_string(), 7, b"hi".to_vec(), Vec::new());
    assert_eq!(MqttMessageV3::Publish(p).to_vec(), vec![0x32, 0x07, 0x00, 0x01, b'x', 0x00, 0x07, b'h', b'i']);
}

#[test]
fn property_block_skips_inadmissible_and_stops_at_unknown() {
    let block = pack_properties(&props(), PropertyScope::Subscribe);
    let (items, rest) = unpack_properties(&block, PropertyScope::Subscribe).unwrap();
    assert!(rest.is_empty());
    assert_eq!(items.len(), 2);
    assert_eq!(items[0].0, Property::UserProperty);
    assert_eq!(items[1].0, Property::SubscriptionIdentifier);
    let all = pack_properties(&props(), PropertyScope::Publish);
    let (items, _) = unpack_properties(&all, PropertyScope::Subscribe).unwrap();
    assert_eq!(items.len(), 2);
    let raw = [0x04, 0x26, 0x00, 0x00, 0x00, 0x00];
    let (items, rest) = unpack_properties(&[0x07, 0x26, 0x00, 0x00, 0x00, 0x00, 0x7F, 0x01, 0x55], PropertyScope::Publish).unwrap();
    assert_eq!(items.len(), 1);
    assert_eq!(rest, &[0x55]);
    assert!(unpack_properties(&raw, PropertyScope::Publish).is_none());
    assert_eq!(Property::UserProperty.as_str(), "user_property");
}

#[test]
fn property_value_truncated_is_malformed() {
    assert!(unpack_properties(&[0x03, 0x02, 0x00, 0x01], PropertyScope::Publish).is_none());
    let (v, rest) = Property::MessageExpiryInterval.property_handle(&[0, 0, 1, 0, 9]).unwrap();
    assert_eq!(v.0, Property::MessageExpiryInterval);
    assert!(matches!(v.1, PropertyValue::Long(256)));
    assert_eq!(rest, &[9]);
}

#[test]
fn message_kind_wraps_decoded_requests() {
    let bytes = MqttMessageV3::Pingreq(PingreqMessage {}).to_vec();
    let (base, _) = BaseMessage::decode(&bytes).unwrap();
    let k = MqttMessageKind::to_v3_request(&base).unwrap();
    assert!(k.is_v3());
    assert!(!k.is_v5());
    assert!(k.get_v3().unwrap().is_pingreq());
    let k5 = MqttMessageKind::to_v5_request(&base).unwrap();
    assert!(k5.get_v5().unwrap().is_pingreq());
    assert!(k5.get_v3().is_none());
}

#[test]
fn default_messages_encode_as_success() {
    assert_eq!(MqttMessageV3::Connack(ConnackMessage::default()).to_vec(), vec![0x20, 0x02, 0x00, 0x00]);
    assert_eq!(MqttMessageV3::Disconnect(DisconnectMessage::default()).to_vec(), vec![0xE0, 0x00]);
    assert_eq!(MqttMessageV5::Disconnect(DisconnectMessage::default()).to_vec(), vec![0xE0, 0x02, 0x00, 0x00]);
    assert_eq!(MqttMessageV3::Pingreq(PingreqMessage::default()).to_vec(), vec![0xC0, 0x00]);
    assert_eq!(MqttMessageV3::Pingresp(PingrespMessage::default()).to_vec(), vec![0xD0, 0x00]);
    assert_eq!(MqttMessageV5::Auth(AuthMessage::default()).to_vec(), vec![0xF0, 0x02, 0x00, 0x00]);
}

#[test]
fn connect_flags_ignore_will_fields_without_will() {
    let f = pack_connect_flags(MqttCleanSession::Disable, MqttWillFlag::Disable, MqttQos::Qos1, MqttRetain::Enable, false, false);
    assert_eq!(f, 0);
    let f = pack_connect_flags(MqttCleanSession::Enable, MqttWillFlag::Disable, MqttQos::Qos2, MqttRetain::Disable, true, false);
    assert_eq!(f, 0b1000_0010);
    let f = pack_connect_flags(MqttCleanSession::Disable, MqttWillFlag::Enable, MqttQos::Qos2, MqttRetain::Disable, false, true);
    assert_eq!(f, 0b0101_0100);
}

#[test]
fn property_names_are_exact_and_distinct() {
    assert_eq!(Property::UserProperty.as_str(), "user_property");
    assert_eq!(Property::SharedSubscriptionAvailable.as_str(), "shared_subscription_available");
    assert_eq!(Property::PayloadFormatIndicator.as_str(), "payload_format_indicator");
    let mut names = Vec::new();
    for c in 0u8..=255 {
        if let Some(p) = Property::from_code(c) {
            assert_eq!(p.code(), c);
            names.push(p.as_str());
        }
    }
    assert_eq!(names.len(), 27);
    let mut sorted = names.clone();
    sorted.sort();
    sorted.dedup();
    assert_eq!(sorted.len(), 27);
}
