use mqtt::container::{ClientMessageFrames, MessageContainer, MessageFrame};
use mqtt::handle::{Broker, HandleEvent, Response, ReturnKind, ServerHandler};
use mqtt::message::entity::{
    ConnectMessage, DisconnectMessage, PubrelMessage, PublishMessage, SubscribeMessage, UnsubscribeMessage,
};
use mqtt::message::v3::{decode, MqttMessageV3};
use mqtt::message::{frame_status, FrameStatus};
use mqtt::protocol::{MqttCleanSession, MqttDup, MqttProtocolLevel, MqttQos, MqttRetain, MqttWillFlag};
use mqtt::subscript::{ClientID, Subscript, TopicMessage};

fn connect_packet(id: &str, clean: MqttCleanSession) -> Vec<u8> {
    let c = ConnectMessage::new(id.to_string(), MqttProtocolLevel::Level3_1_1, clean, 30);
    MqttMessageV3::Connect(c).to_vec()
}

fn input(h: &mut ServerHandler, b: &mut Broker, bytes: Vec<u8>) -> Vec<ReturnKind> {
    h.execute(b, HandleEvent::InputEvent(bytes))
}

fn responses(actions: &[ReturnKind]) -> Vec<Vec<u8>> {
    actions
        .iter()
        .filter_map(|a| match a {
            ReturnKind::Response(b) => Some(b.clone()),
            _ => None,
        })
        .collect()
}

fn deliveries(actions: Vec<ReturnKind>) -> Vec<(ClientID, TopicMessage)> {
    actions
        .into_iter()
        .filter_map(|a| match a {
            ReturnKind::Deliver(c, m) => Some((c, m)),
            _ => None,
        })
        .collect()
}

fn connected(id: &str, b: &mut Broker) -> ServerHandler {
    let mut h = ServerHandler::new();
    let out = input(&mut h, b, connect_packet(id, MqttCleanSession::Enable));
    assert_eq!(responses(&out), vec![vec![0x20, 0x02, 0x00, 0x00]]);
    h
}

fn subscribe_packet(id: u16, topic: &str, qos: MqttQos) -> Vec<u8> {
    MqttMessageV3::Subscribe(SubscribeMessage::new(id, topic.to_string(), qos)).to_vec()
}

fn publish_packet(id: u16, topic: &str, qos: MqttQos, payload: &[u8]) -> Vec<u8> {
    let p = PublishMessage::new(qos, MqttDup::Disable, MqttRetain::Disable, topic.to_string(), id, payload.to_vec(), Vec::new());
    MqttMessageV3::Publish(p).to_vec()
}

fn decoded_publish(bytes: &[u8]) -> PublishMessage {
    match decode(bytes) {
        Ok((MqttMessageV3::Publish(p), n)) => {
            assert_eq!(n, bytes.len());
            p
        }
        other => panic!("not a PUBLISH: {:?}", other),
    }
}

#[test]
fn client_a_connect_gets_connack() {
    let mut b = Broker::new();
    let mut a = ServerHandler::new();
    let out = input(&mut a, &mut b, connect_packet("a", MqttCleanSession::Enable));
    assert_eq!(out.len(), 1);
    assert_eq!(responses(&out), vec![vec![0x20, 0x02, 0x00, 0x00]]);
    assert_eq!(a.session.client_id.as_ref().unwrap().0, "a");
    assert_eq!(b.container.frame_len(&ClientID("a".to_string())), 0);
}

#[test]
fn client_b_connect_gets_connack() {
    let mut b = Broker::new();
    let _a = connected("a", &mut b);
    let mut hb = ServerHandler::new();
    let out = input(&mut hb, &mut b, connect_packet("b", MqttCleanSession::Enable));
    assert_eq!(responses(&out), vec![vec![0x20, 0x02, 0x00, 0x00]]);
    assert_eq!(hb.session.client_id.as_ref().unwrap().0, "b");
}

#[test]
fn subscribe_gets_suback_with_granted_qos() {
    let mut b = Broker::new();
    let mut hb = connected("b", &mut b);
    let out = input(&mut hb, &mut b, subscribe_packet(1, "x", MqttQos::Qos1));
    assert_eq!(responses(&out), vec![vec![0x90, 0x03, 0x00, 0x01, 0x01]]);
    assert!(b.subscript.is_subscript(&"x".to_string(), &ClientID("b".to_string())));
}

#[test]
fn qos1_publish_is_acknowledged_and_delivered() {
    let mut b = Broker::new();
    let mut ha = connected("a", &mut b);
    let mut hb = connected("b", &mut b);
    input(&mut hb, &mut b, subscribe_packet(1, "x", MqttQos::Qos1));
    let out = input(&mut ha, &mut b, publish_packet(7, "x", MqttQos::Qos1, b"hi"));
    assert_eq!(responses(&out), vec![vec![0x40, 0x02, 0x00, 0x07]]);
    let d = deliveries(out);
    assert_eq!(d.len(), 1);
    assert_eq!(d[0].0 .0, "b");
    let (_, content) = d.into_iter().next().unwrap();
    let sent = hb.execute(&mut b, HandleEvent::BroadcastEvent(content));
    let bytes = responses(&sent);
    assert_eq!(bytes.len(), 1);
    let p = decoded_publish(&bytes[0]);
    assert_eq!(p.topic, "x");
    assert_eq!(p.qos, MqttQos::Qos1);
    assert_eq!(p.msg_body, b"hi".to_vec());
    assert_eq!(p.message_id, 1);
}

#[test]
fn qos2_subscription_setup() {
    let mut b = Broker::new();
    let _ha = connected("a", &mut b);
    let mut hb = connected("b", &mut b);
    let out = input(&mut hb, &mut b, subscribe_packet(1, "x", MqttQos::Qos2));
    assert_eq!(responses(&out), vec![vec![0x90, 0x03, 0x00, 0x01, 0x02]]);
}

#[test]
fn qos2_publisher_handshake() {
    let mut b = Broker::new();
    let mut ha = connected("a", &mut b);
    let mut hb = connected("b", &mut b);
    input(&mut hb, &mut b, subscribe_packet(1, "x", MqttQos::Qos2));
    let out = input(&mut ha, &mut b, publish_packet(9, "x", MqttQos::Qos2, b"p"));
    assert_eq!(responses(&out), vec![vec![0x50, 0x02, 0x00, 0x09]]);
    let pubrel = MqttMessageV3::Pubrel(PubrelMessage::new(9)).to_vec();
    assert_eq!(pubrel, vec![0x62, 0x02, 0x00, 0x09]);
    let out = input(&mut ha, &mut b, pubrel);
    assert_eq!(responses(&out), vec![vec![0x70, 0x02, 0x00, 0x09]]);
}

#[test]
fn qos2_subscriber_delivery_is_tracked_until_complete() {
    let mut b = Broker::new();
    let mut ha = connected("a", &mut b);
    let mut hb = connected("b", &mut b);
    input(&mut hb, &mut b, subscribe_packet(1, "x", MqttQos::Qos2));
    let out = input(&mut ha, &mut b, publish_packet(9, "x", MqttQos::Qos2, b"p"));
    let d = deliveries(out);
    assert_eq!(d.len(), 1);
    let (_, content) = d.into_iter().next().unwrap();
    let sent = hb.execute(&mut b, HandleEvent::BroadcastEvent(content));
    let bytes = responses(&sent);
    assert_eq!(bytes.len(), 1);
    let p = decoded_publish(&bytes[0]);
    assert_eq!(p.topic, "x");
    assert_eq!(p.qos, MqttQos::Qos2);
    assert_eq!(p.msg_body, b"p".to_vec());
    let k = p.message_id;
    let id_b = ClientID("b".to_string());
    assert_eq!(b.container.frame_len(&id_b), 1);
    assert!(!b.container.is_completed(&id_b, k));
    let out = input(&mut hb, &mut b, MqttMessageV3::Pubrel(PubrelMessage::new(k)).to_vec());
    assert_eq!(responses(&out), vec![vec![0x70, 0x02, (k >> 8) as u8, k as u8]]);
    assert!(b.container.is_completed(&id_b, k));
}

fn will_connect(id: &str) -> Vec<u8> {
    let mut c = ConnectMessage::new(id.to_string(), MqttProtocolLevel::Level3_1_1, MqttCleanSession::Enable, 30);
    c.will_flag = MqttWillFlag::Enable;
    c.payload.will_topic = Some("lwt".to_string());
    c.payload.will_message = Some("bye".to_string());
    MqttMessageV3::Connect(c).to_vec()
}

#[test]
fn will_client_connects() {
    let mut b = Broker::new();
    let mut hc = ServerHandler::new();
    let out = input(&mut hc, &mut b, will_connect("c"));
    assert_eq!(responses(&out), vec![vec![0x20, 0x02, 0x00, 0x00]]);
    assert!(hc.session.is_will_flag());
    assert_eq!(hc.session.will_topic.as_deref(), Some("lwt"));
    assert_eq!(hc.session.will_message.as_deref(), Some("bye"));
}

#[test]
fn will_subscriber_subscribes() {
    let mut b = Broker::new();
    let mut hd = connected("d", &mut b);
    let out = input(&mut hd, &mut b, subscribe_packet(1, "lwt", MqttQos::Qos0));
    assert_eq!(responses(&out), vec![vec![0x90, 0x03, 0x00, 0x01, 0x00]]);
}

#[test]
fn will_is_published_when_socket_closes() {
    let mut b = Broker::new();
    let mut hc = ServerHandler::new();
    input(&mut hc, &mut b, will_connect("c"));
    let mut hd = connected("d", &mut b);
    input(&mut hd, &mut b, subscribe_packet(1, "lwt", MqttQos::Qos0));
    let out = hc.execute(&mut b, HandleEvent::ExitEvent(true));
    assert!(matches!(out.last(), Some(ReturnKind::Exit)));
    let d = deliveries(out);
    assert_eq!(d.len(), 1);
    assert_eq!(d[0].0 .0, "d");
    let (_, content) = d.into_iter().next().unwrap();
    let sent = hd.execute(&mut b, HandleEvent::BroadcastEvent(content));
    let bytes = responses(&sent);
    assert_eq!(bytes.len(), 1);
    let p = decoded_publish(&bytes[0]);
    assert_eq!(p.topic, "lwt");
    assert_eq!(p.msg_body, b"bye".to_vec());
    assert!(!b.subscript.is_subscript(&"lwt".to_string(), &ClientID("c".to_string())));
}

#[test]
fn exit_without_will_flag_publishes_nothing() {
    let mut b = Broker::new();
    let mut hc = ServerHandler::new();
    input(&mut hc, &mut b, will_connect("c"));
    let mut hd = connected("d", &mut b);
    input(&mut hd, &mut b, subscribe_packet(1, "lwt", MqttQos::Qos0));
    let out = hc.execute(&mut b, HandleEvent::ExitEvent(false));
    assert_eq!(out.len(), 1);
    assert!(matches!(out[0], ReturnKind::Exit));
}

#[test]
fn publisher_gets_no_copy_of_its_own_message() {
    let mut b = Broker::new();
    let mut ha = connected("a", &mut b);
    input(&mut ha, &mut b, subscribe_packet(1, "t", MqttQos::Qos0));
    let out = input(&mut ha, &mut b, publish_packet(0, "t", MqttQos::Qos0, b"self"));
    let d = deliveries(out);
    assert_eq!(d.len(), 1);
    let (_, content) = d.into_iter().next().unwrap();
    let sent = ha.execute(&mut b, HandleEvent::BroadcastEvent(content));
    assert!(sent.is_empty());
}

#[test]
fn clean_session_disconnect_drops_in_flight_frames() {
    let mut b = Broker::new();
    let mut ha = connected("a", &mut b);
    let mut hb = connected("b", &mut b);
    input(&mut hb, &mut b, subscribe_packet(1, "x", MqttQos::Qos2));
    let out = input(&mut ha, &mut b, publish_packet(3, "x", MqttQos::Qos2, b"q"));
    let (_, content) = deliveries(out).into_iter().next().unwrap();
    hb.execute(&mut b, HandleEvent::BroadcastEvent(content));
    let id_b = ClientID("b".to_string());
    assert_eq!(b.container.frame_len(&id_b), 1);
    let out = input(&mut hb, &mut b, MqttMessageV3::Disconnect(DisconnectMessage::new()).to_vec());
    assert!(matches!(out.last(), Some(ReturnKind::Exit)));
    assert_eq!(b.container.frame_len(&id_b), 0);
    assert!(!b.subscript.is_subscript(&"x".to_string(), &id_b));
}

#[test]
fn unsubscribe_stops_delivery() {
    let mut b = Broker::new();
    let mut ha = connected("a", &mut b);
    let mut hb = connected("b", &mut b);
    input(&mut hb, &mut b, subscribe_packet(1, "x", MqttQos::Qos0));
    let un = MqttMessageV3::Unsubscribe(UnsubscribeMessage::new(2, "x".to_string())).to_vec();
    let out = input(&mut hb, &mut b, un);
    assert_eq!(responses(&out), vec![vec![0xB0, 0x02, 0x00, 0x02]]);
    let out = input(&mut ha, &mut b, publish_packet(0, "x", MqttQos::Qos0, b"z"));
    assert!(out.is_empty());
}

#[test]
fn packets_before_connect_are_dropped() {
    let mut b = Broker::new();
    let mut h = ServerHandler::new();
    let out = input(&mut h, &mut b, publish_packet(0, "x", MqttQos::Qos0, b"z"));
    assert!(out.is_empty());
    let out = input(&mut h, &mut b, subscribe_packet(1, "x", MqttQos::Qos0));
    assert!(out.is_empty());
    assert!(!b.subscript.contain(&"x".to_string()));
}

#[test]
fn ping_gets_pingresp_and_output_is_written_verbatim() {
    let mut b = Broker::new();
    let mut ha = connected("a", &mut b);
    let out = input(&mut ha, &mut b, vec![0xC0, 0x00]);
    assert_eq!(responses(&out), vec![vec![0xD0, 0x00]]);
    let out = ha.execute(&mut b, HandleEvent::OutputEvent(Response(vec![1, 2, 3], MqttProtocolLevel::Level3_1_1)));
    assert_eq!(responses(&out), vec![vec![1, 2, 3]]);
}

#[test]
fn two_packets_in_one_read_are_split_into_frames() {
    let mut b = Broker::new();
    let mut h = ServerHandler::new();
    let mut bytes = connect_packet("a", MqttCleanSession::Enable);
    bytes.extend(subscribe_packet(5, "y", MqttQos::Qos1));
    bytes.extend([0xC0]);
    let mut out = Vec::new();
    loop {
        match frame_status(&bytes) {
            FrameStatus::Complete(n) => {
                let rest = bytes.split_off(n);
                out.extend(responses(&input(&mut h, &mut b, bytes)));
                bytes = rest;
            }
            FrameStatus::Incomplete => break,
            FrameStatus::Malformed => panic!("malformed"),
        }
    }
    assert_eq!(out, vec![vec![0x20, 0x02, 0x00, 0x00], vec![0x90, 0x03, 0x00, 0x05, 0x01]]);
    assert_eq!(bytes, vec![0xC0]);
    assert_eq!(frame_status(&[0x30, 0xFF, 0xFF, 0xFF, 0xFF, 0x01]), FrameStatus::Malformed);
    assert_eq!(frame_status(&[0x30, 0xFF, 0xFF]), FrameStatus::Incomplete);
    assert_eq!(frame_status(&[]), FrameStatus::Incomplete);
}

#[test]
fn malformed_packet_is_skipped() {
    let mut b = Broker::new();
    let mut ha = connected("a", &mut b);
    let out = input(&mut ha, &mut b, vec![0x30, 0x01, 0x00]);
    assert!(out.is_empty());
    let out = input(&mut ha, &mut b, vec![0xC0, 0x00]);
    assert_eq!(responses(&out), vec![vec![0xD0, 0x00]]);
}

#[test]
fn suback_reports_failure_for_qos_above_two() {
    let mut b = Broker::new();
    let mut ha = connected("a", &mut b);
    let bytes = vec![0x82, 0x06, 0x00, 0x04, 0x00, 0x01, b'q', 0x03];
    let out = input(&mut ha, &mut b, bytes);
    assert_eq!(responses(&out), vec![vec![0x90, 0x03, 0x00, 0x04, 0x80]]);
}

#[test]
fn v5_session_answers_in_v5() {
    let mut b = Broker::new();
    let mut h = ServerHandler::new();
    let c = ConnectMessage::new("five".to_string(), MqttProtocolLevel::Level5, MqttCleanSession::Enable, 10);
    let bytes = mqtt::message::v5::MqttMessageV5::Connect(c).to_vec();
    let out = input(&mut h, &mut b, bytes);
    assert_eq!(responses(&out), vec![vec![0x20, 0x03, 0x00, 0x00, 0x00]]);
    let out = input(&mut h, &mut b, vec![0x62, 0x02, 0x00, 0x03]);
    assert_eq!(responses(&out), vec![vec![0x70, 0x04, 0x00, 0x03, 0x00, 0x00]]);
}

#[test]
fn registry_unsubscribe_after_subscribe() {
    let mut s = Subscript::new();
    let t = "t".to_string();
    let c = ClientID("c".to_string());
    s.subscript(&t, &c);
    assert!(s.is_subscript(&t, &c));
    s.unsubscript(&t, &c);
    assert!(!s.is_subscript(&t, &c));
    assert!(s.contain(&t));
    assert_eq!(s.topics(), vec!["t".to_string()]);
}

#[test]
fn registry_exit_removes_every_subscription() {
    let mut s = Subscript::new();
    let c = ClientID("c".to_string());
    let d = ClientID("d".to_string());
    for t in ["t1", "t2", "t3"] {
        s.subscript(&t.to_string(), &c);
        s.subscript(&t.to_string(), &d);
    }
    s.subscript(&"t1".to_string(), &c);
    assert_eq!(s.client_len(&"t1".to_string()), 2);
    s.exit(&c);
    for t in ["t1", "t2", "t3"] {
        assert!(!s.is_subscript(&t.to_string(), &c));
        assert!(s.is_subscript(&t.to_string(), &d));
    }
    assert_eq!(s.len(), 3);
    let clients = s.clients(&"t2".to_string());
    assert_eq!(clients.len(), 1);
    assert_eq!(clients[0].0, "d");
    assert!(s.broadcast(&"nothing".to_string()).is_empty());
}

#[test]
fn container_append_replaces_and_complete_marks() {
    let mut m = MessageContainer::new();
    let c = ClientID("c".to_string());
    m.init(c.clone());
    assert_eq!(m.frame_len(&c), 0);
    m.append(c.clone(), 5, MessageFrame::new(ClientID("a".to_string()), c.clone(), vec![1], 5));
    m.append(c.clone(), 5, MessageFrame::new(ClientID("a".to_string()), c.clone(), vec![2], 5));
    m.append(c.clone(), 6, MessageFrame::new(ClientID("a".to_string()), c.clone(), vec![3], 6));
    assert_eq!(m.frame_len(&c), 2);
    assert!(!m.is_completed(&c, 5));
    m.complete(&c, 5);
    assert!(m.is_completed(&c, 5));
    assert!(!m.is_completed(&c, 6));
    m.complete(&c, 7);
    assert_eq!(m.frame_len(&c), 2);
    m.remove(&c);
    assert_eq!(m.frame_len(&c), 0);
}

#[test]
fn handle_packet_reports_bytes_taken_and_errors() {
    let mut b = Broker::new();
    let mut h = ServerHandler::new();
    let mut bytes = connect_packet("p", MqttCleanSession::Disable);
    let len = bytes.len();
    bytes.extend([0xC0, 0x00]);
    let (actions, n) = h.handle_packet(&mut b, &bytes).unwrap();
    assert_eq!(n, len);
    assert_eq!(responses(&actions), vec![vec![0x20, 0x02, 0x00, 0x00]]);
    let err = h.handle_packet(&mut b, &[0x30, 0x01, 0x00]).unwrap_err();
    assert_eq!(err, mqtt::message::DecodeError::Malformed);
    let err = h.handle_packet(&mut b, &[0xF0, 0x00]).unwrap_err();
    assert_eq!(err, mqtt::message::DecodeError::UnknownType);
}

#[test]
fn client_frames_append_returns_replaced_frame() {
    let mut f = ClientMessageFrames::new();
    let a = ClientID("a".to_string());
    let c = ClientID("c".to_string());
    assert!(f.append(1, MessageFrame::new(a.clone(), c.clone(), vec![1], 1)).is_none());
    let old = f.append(1, MessageFrame::new(a.clone(), c.clone(), vec![2], 1)).unwrap();
    assert_eq!(old.bytes, vec![1]);
    assert_eq!(f.len(), 1);
}

#[test]
fn will_message_keeps_retain_flag() {
    let mut b = Broker::new();
    let mut hc = ServerHandler::new();
    let mut c = ConnectMessage::new("c".to_string(), MqttProtocolLevel::Level3_1_1, MqttCleanSession::Enable, 30);
    c.will_flag = MqttWillFlag::Enable;
    c.will_qos = MqttQos::Qos1;
    c.will_retain = MqttRetain::Enable;
    c.payload.will_topic = Some("lwt".to_string());
    c.payload.will_message = Some("bye".to_string());
    input(&mut hc, &mut b, MqttMessageV3::Connect(c).to_vec());
    match hc.session.get_will_message() {
        Some(TopicMessage::Content(sender, p)) => {
            assert_eq!(sender.0, "c");
            assert_eq!(p.retain, MqttRetain::Enable);
            assert_eq!(p.qos, MqttQos::Qos1);
            assert_eq!(p.topic, "lwt");
            assert_eq!(p.msg_body, b"bye".to_vec());
        }
        None => panic!("no will"),
    }
}

#[test]
fn exit_before_connect_closes_the_connection() {
    let mut b = Broker::new();
    let mut h = ServerHandler::new();
    let out = h.execute(&mut b, HandleEvent::ExitEvent(true));
    assert_eq!(out.len(), 1);
    assert!(matches!(out[0], ReturnKind::Exit));
    assert!(h.session.client_id.is_none());
    assert!(b.subscript.topics().is_empty());
}
