use vstd::prelude::*;
use crate::message::BaseMessage;
use crate::message::entity::{
    ConnectMessage, ConnackMessage, PublishMessage, PubackMessage, PubrecMessage, PubrelMessage,
    PubcompMessage, SubscribeMessage, SubackMessage, UnsubscribeMessage, UnsubackMessage,
};
use crate::protocol::{MqttSessionPresent, TypeKind};
use crate::tools::pack_tool::{spec_header, spec_short, spec_publish_first_byte, MAX_REMAINING_LENGTH, pack_header, pack_publish_header, pack_message_id};

verus! {

/// The MQTT 3.1.1 encoder of each packet type, fixed header included.
pub struct Pack;

impl Pack {
    pub fn connect(msg: &ConnectMessage) -> (r: Vec<u8>)
        requires
            msg.fits(),
            msg.spec_body(false).len() <= MAX_REMAINING_LENGTH,
        ensures
            r@ == spec_header(TypeKind::CONNECT.spec_header_byte(), msg.spec_body(false).len()) + msg.spec_body(false),
    {
        let mut body = msg.body(false);
        let mut r = pack_header(TypeKind::CONNECT, body.len());
        r.append(&mut body);
        r
    }

    pub fn subscribe(msg: &SubscribeMessage) -> (r: Vec<u8>)
        requires
            msg.fits(),
            msg.spec_body(false).len() <= MAX_REMAINING_LENGTH,
        ensures
            r@ == spec_header(TypeKind::SUBSCRIBE.spec_header_byte(), msg.spec_body(false).len()) + msg.spec_body(false),
    {
        let mut body = msg.body(false);
        let mut r = pack_header(TypeKind::SUBSCRIBE, body.len());
        r.append(&mut body);
        r
    }

    pub fn suback(msg: &SubackMessage) -> (r: Vec<u8>)
        requires
            msg.fits(),
            msg.spec_body(false).len() <= MAX_REMAINING_LENGTH,
        ensures
            r@ == spec_header(TypeKind::SUBACK.spec_header_byte(), msg.spec_body(false).len()) + msg.spec_body(false),
    {
        let mut body = msg.body(false);
        let mut r = pack_header(TypeKind::SUBACK, body.len());
        r.append(&mut body);
        r
    }

    pub fn unsubscribe(msg: &UnsubscribeMessage) -> (r: Vec<u8>)
        requires
            msg.fits(),
            msg.spec_body(false).len() <= MAX_REMAINING_LENGTH,
        ensures
            r@ == spec_header(TypeKind::UNSUBSCRIBE.spec_header_byte(), msg.spec_body(false).len()) + msg.spec_body(false),
    {
        let mut body = msg.body(false);
        let mut r = pack_header(TypeKind::UNSUBSCRIBE, body.len());
        r.append(&mut body);
        r
    }

    pub fn publish(msg: &PublishMessage) -> (r: Vec<u8>)
        requires
            msg.fits(),
            msg.spec_body(false).len() <= MAX_REMAINING_LENGTH,
        ensures
            r@ == spec_header(spec_publish_first_byte(msg.qos, msg.dup, msg.retain), msg.spec_body(false).len())
                + msg.spec_body(false),
    {
        let mut body = msg.body(false);
        let mut r = pack_publish_header(body.len(), msg.qos, msg.dup, msg.retain);
        r.append(&mut body);
        r
    }

    pub fn connack(session_present: MqttSessionPresent, return_code: u8) -> (r: Vec<u8>)
        ensures
            r@ == spec_header(TypeKind::CONNACK.spec_header_byte(), 2) + seq![session_present.spec_byte(), return_code],
    {
        let mut body: Vec<u8> = Vec::new();
        body.push(session_present.as_byte());
        body.push(return_code);
        let mut r = pack_header(TypeKind::CONNACK, body.len());
        proof {
            assert(body@ =~= seq![session_present.spec_byte(), return_code]);
        }
        r.append(&mut body);
        r
    }

    /// A packet whose body is its packet identifier alone: the acknowledgements and UNSUBACK.
    pub fn not_payload(message_id: u16, msg_type: TypeKind) -> (r: Vec<u8>)
        ensures
            r@ == spec_header(msg_type.spec_header_byte(), 2) + spec_short(message_id as nat),
    {
        let mut body = pack_message_id(message_id);
        let mut r = pack_header(msg_type, body.len());
        r.append(&mut body);
        r
    }
}

/// The MQTT 3.1.1 decoder of each packet type, from a framed packet.
pub struct Unpcak;

impl Unpcak {
    pub fn connect(base: &BaseMessage) -> (r: Option<ConnectMessage>)
        ensures
            r matches Some(m) ==> m.decodes(base.bytes@, false),
            r is None ==> forall|m: ConnectMessage| !m.decodes(base.bytes@, false),
    {
        ConnectMessage::decode_body(base.bytes.as_slice(), false)
    }

    pub fn connack(base: &BaseMessage) -> (r: Option<ConnackMessage>)
        ensures
            r matches Some(m) ==> m.decodes(base.bytes@, false),
            r is None ==> forall|m: ConnackMessage| !m.decodes(base.bytes@, false),
    {
        ConnackMessage::decode_body(base.bytes.as_slice(), false)
    }

    pub fn subscribe(base: &BaseMessage) -> (r: Option<SubscribeMessage>)
        ensures
            r matches Some(m) ==> m.decodes(base.bytes@, false),
            r is None ==> forall|m: SubscribeMessage| !m.decodes(base.bytes@, false),
    {
        SubscribeMessage::decode_body(base.bytes.as_slice(), false)
    }

    pub fn suback(base: &BaseMessage) -> (r: Option<SubackMessage>)
        ensures
            r matches Some(m) ==> m.decodes(base.bytes@, false),
            r is None ==> forall|m: SubackMessage| !m.decodes(base.bytes@, false),
    {
        SubackMessage::decode_body(base.bytes.as_slice(), false)
    }

    pub fn unsubscribe(base: &BaseMessage) -> (r: Option<UnsubscribeMessage>)
        ensures
            r matches Some(m) ==> m.decodes(base.bytes@, false),
            r is None ==> forall|m: UnsubscribeMessage| !m.decodes(base.bytes@, false),
    {
        UnsubscribeMessage::decode_body(base.bytes.as_slice(), false)
    }

    pub fn unsuback(base: &BaseMessage) -> (r: Option<UnsubackMessage>)
        ensures
            r matches Some(m) ==> m.decodes(base.bytes@, false),
            r is None ==> forall|m: UnsubackMessage| !m.decodes(base.bytes@, false),
    {
        UnsubackMessage::decode_body(base.bytes.as_slice(), false)
    }

    pub fn puback(base: &BaseMessage) -> (r: Option<PubackMessage>)
        ensures
            r matches Some(m) ==> m.decodes(base.bytes@, false),
            r is None ==> forall|m: PubackMessage| !m.decodes(base.bytes@, false),
    {
        PubackMessage::decode_body(base.bytes.as_slice(), false)
    }

    pub fn pubrec(base: &BaseMessage) -> (r: Option<PubrecMessage>)
        ensures
            r matches Some(m) ==> m.decodes(base.bytes@, false),
            r is None ==> forall|m: PubrecMessage| !m.decodes(base.bytes@, false),
    {
        PubrecMessage::decode_body(base.bytes.as_slice(), false)
    }

    pub fn pubrel(base: &BaseMessage) -> (r: Option<PubrelMessage>)
        ensures
            r matches Some(m) ==> m.decodes(base.bytes@, false),
            r is None ==> forall|m: PubrelMessage| !m.decodes(base.bytes@, false),
    {
        PubrelMessage::decode_body(base.bytes.as_slice(), false)
    }

    pub fn pubcomp(base: &BaseMessage) -> (r: Option<PubcompMessage>)
        ensures
            r matches Some(m) ==> m.decodes(base.bytes@, false),
            r is None ==> forall|m: PubcompMessage| !m.decodes(base.bytes@, false),
    {
        PubcompMessage::decode_body(base.bytes.as_slice(), false)
    }

    pub fn publish(base: &BaseMessage) -> (r: Option<PublishMessage>)
        ensures
            r matches Some(m) ==> m.decodes(base.bytes@, base.first, false),
            r is None ==> forall|m: PublishMessage| !m.decodes(base.bytes@, base.first, false),
    {
        PublishMessage::decode_body(base.bytes.as_slice(), base.first, false)
    }
}

/// Decodes an MQTT 5 PUBACK: identifier, then optional reason code and properties.
pub fn puback(base: &BaseMessage) -> (r: Option<PubackMessage>)
    ensures
        r matches Some(m) ==> m.decodes(base.bytes@, true),
        r is None ==> forall|m: PubackMessage| !m.decodes(base.bytes@, true),
{
    PubackMessage::decode_body(base.bytes.as_slice(), true)
}

/// Decodes an MQTT 5 PUBREC: identifier, then optional reason code and properties.
pub fn pubrec(base: &BaseMessage) -> (r: Option<PubrecMessage>)
    ensures
        r matches Some(m) ==> m.decodes(base.bytes@, true),
        r is None ==> forall|m: PubrecMessage| !m.decodes(base.bytes@, true),
{
    PubrecMessage::decode_body(base.bytes.as_slice(), true)
}

/// Decodes an MQTT 5 PUBREL: identifier, then optional reason code and properties.
pub fn pubrel(base: &BaseMessage) -> (r: Option<PubrelMessage>)
    ensures
        r matches Some(m) ==> m.decodes(base.bytes@, true),
        r is None ==> forall|m: PubrelMessage| !m.decodes(base.bytes@, true),
{
    PubrelMessage::decode_body(base.bytes.as_slice(), true)
}

/// Decodes an MQTT 5 PUBCOMP: identifier, then optional reason code and properties.
pub fn pubcomp(base: &BaseMessage) -> (r: Option<PubcompMessage>)
    ensures
        r matches Some(m) ==> m.decodes(base.bytes@, true),
        r is None ==> forall|m: PubcompMessage| !m.decodes(base.bytes@, true),
{
    PubcompMessage::decode_body(base.bytes.as_slice(), true)
}

} // verus!
