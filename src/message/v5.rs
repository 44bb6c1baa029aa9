use vstd::prelude::*;
use crate::protocol::TypeKind;
use crate::message::{BaseMessage, DecodeError, spec_frame, spec_frame_error, lemma_frame_round_trip};
use crate::message::entity::{ConnectMessage, ConnackMessage, PublishMessage, PubackMessage, PubrecMessage, PubrelMessage, PubcompMessage, SubscribeMessage, SubackMessage, UnsubscribeMessage, UnsubackMessage, PingreqMessage, PingrespMessage, DisconnectMessage, AuthMessage};
use crate::tools::pack_tool::{spec_header, spec_publish_first_byte, MAX_REMAINING_LENGTH, pack_header, pack_publish_header};

verus! {

/// A control packet of MQTT 5.0.
#[derive(Debug, Clone)]
pub enum MqttMessageV5 {
    Connect(ConnectMessage),
    Connack(ConnackMessage),
    Publish(PublishMessage),
    Puback(PubackMessage),
    Pubrec(PubrecMessage),
    Pubrel(PubrelMessage),
    Pubcomp(PubcompMessage),
    Subscribe(SubscribeMessage),
    Suback(SubackMessage),
    Unsubscribe(UnsubscribeMessage),
    Unsuback(UnsubackMessage),
    Pingreq(PingreqMessage),
    Pingresp(PingrespMessage),
    Disconnect(DisconnectMessage),
    Auth(AuthMessage),
}

impl MqttMessageV5 {
    /// The packet type.
    pub open spec fn spec_kind(&self) -> TypeKind {
        match self {
            MqttMessageV5::Connect(_) => TypeKind::CONNECT,
            MqttMessageV5::Connack(_) => TypeKind::CONNACK,
            MqttMessageV5::Publish(_) => TypeKind::PUBLISH,
            MqttMessageV5::Puback(_) => TypeKind::PUBACK,
            MqttMessageV5::Pubrec(_) => TypeKind::PUBREC,
            MqttMessageV5::Pubrel(_) => TypeKind::PUBREL,
            MqttMessageV5::Pubcomp(_) => TypeKind::PUBCOMP,
            MqttMessageV5::Subscribe(_) => TypeKind::SUBSCRIBE,
            MqttMessageV5::Suback(_) => TypeKind::SUBACK,
            MqttMessageV5::Unsubscribe(_) => TypeKind::UNSUBSCRIBE,
            MqttMessageV5::Unsuback(_) => TypeKind::UNSUBACK,
            MqttMessageV5::Pingreq(_) => TypeKind::PINGREQ,
            MqttMessageV5::Pingresp(_) => TypeKind::PINGRESP,
            MqttMessageV5::Disconnect(_) => TypeKind::DISCONNECT,
            MqttMessageV5::Auth(_) => TypeKind::AUTH,
        }
    }

    /// The first byte of the fixed header.
    pub open spec fn spec_first(&self) -> u8 {
        match self {
            MqttMessageV5::Publish(m) => spec_publish_first_byte(m.qos, m.dup, m.retain),
            _ => self.spec_kind().spec_header_byte(),
        }
    }

    /// The bytes after the fixed header.
    pub open spec fn spec_body(&self) -> Seq<u8> {
        match self {
            MqttMessageV5::Connect(m) => m.spec_body(true),
            MqttMessageV5::Connack(m) => m.spec_body(true),
            MqttMessageV5::Publish(m) => m.spec_body(true),
            MqttMessageV5::Puback(m) => m.spec_body(true),
            MqttMessageV5::Pubrec(m) => m.spec_body(true),
            MqttMessageV5::Pubrel(m) => m.spec_body(true),
            MqttMessageV5::Pubcomp(m) => m.spec_body(true),
            MqttMessageV5::Subscribe(m) => m.spec_body(true),
            MqttMessageV5::Suback(m) => m.spec_body(true),
            MqttMessageV5::Unsubscribe(m) => m.spec_body(true),
            MqttMessageV5::Unsuback(m) => m.spec_body(true),
            MqttMessageV5::Pingreq(_) => Seq::empty(),
            MqttMessageV5::Pingresp(_) => Seq::empty(),
            MqttMessageV5::Disconnect(m) => m.spec_body(true),
            MqttMessageV5::Auth(m) => m.spec_body(),
        }
    }

    /// The whole packet.
    pub open spec fn spec_encode(&self) -> Seq<u8> {
        spec_header(self.spec_first(), self.spec_body().len()) + self.spec_body()
    }

    /// Whether every field fits its wire form.
    pub open spec fn fits(&self) -> bool {
        &&& self.spec_body().len() <= MAX_REMAINING_LENGTH
        &&& match self {
            MqttMessageV5::Connect(m) => m.fits(),
            MqttMessageV5::Connack(m) => m.fits(),
            MqttMessageV5::Publish(m) => m.fits(),
            MqttMessageV5::Puback(m) => m.fits(),
            MqttMessageV5::Pubrec(m) => m.fits(),
            MqttMessageV5::Pubrel(m) => m.fits(),
            MqttMessageV5::Pubcomp(m) => m.fits(),
            MqttMessageV5::Subscribe(m) => m.fits(),
            MqttMessageV5::Suback(m) => m.fits(),
            MqttMessageV5::Unsubscribe(m) => m.fits(),
            MqttMessageV5::Unsuback(m) => m.fits(),
            MqttMessageV5::Pingreq(_) => true,
            MqttMessageV5::Pingresp(_) => true,
            MqttMessageV5::Disconnect(m) => m.fits(),
            MqttMessageV5::Auth(m) => m.fits(),
        }
    }

    /// Whether the packet encodes and decodes back unchanged.
    pub open spec fn wf(&self) -> bool {
        &&& self.spec_body().len() <= MAX_REMAINING_LENGTH
        &&& match self {
            MqttMessageV5::Connect(m) => m.wf(true),
            MqttMessageV5::Connack(m) => m.wf(true),
            MqttMessageV5::Publish(m) => m.wf(true),
            MqttMessageV5::Puback(m) => m.wf(true),
            MqttMessageV5::Pubrec(m) => m.wf(true),
            MqttMessageV5::Pubrel(m) => m.wf(true),
            MqttMessageV5::Pubcomp(m) => m.wf(true),
            MqttMessageV5::Subscribe(m) => m.wf(true),
            MqttMessageV5::Suback(m) => m.wf(true),
            MqttMessageV5::Unsubscribe(m) => m.wf(true),
            MqttMessageV5::Unsuback(m) => m.wf(true),
            MqttMessageV5::Pingreq(_) => true,
            MqttMessageV5::Pingresp(_) => true,
            MqttMessageV5::Disconnect(m) => m.wf(true),
            MqttMessageV5::Auth(m) => m.wf(),
        }
    }

    /// Whether `self` is the packet that the first header byte `first` and the body `s` decode to.
    pub open spec fn decodes(&self, first: u8, s: Seq<u8>) -> bool {
        &&& TypeKind::spec_from_code((first / 16) as u8) == Some(self.spec_kind())
        &&& match self {
            MqttMessageV5::Connect(m) => m.decodes(s, true),
            MqttMessageV5::Connack(m) => m.decodes(s, true),
            MqttMessageV5::Publish(m) => m.decodes(s, first, true),
            MqttMessageV5::Puback(m) => m.decodes(s, true),
            MqttMessageV5::Pubrec(m) => m.decodes(s, true),
            MqttMessageV5::Pubrel(m) => m.decodes(s, true),
            MqttMessageV5::Pubcomp(m) => m.decodes(s, true),
            MqttMessageV5::Subscribe(m) => m.decodes(s, true),
            MqttMessageV5::Suback(m) => m.decodes(s, true),
            MqttMessageV5::Unsubscribe(m) => m.decodes(s, true),
            MqttMessageV5::Unsuback(m) => m.decodes(s, true),
            MqttMessageV5::Pingreq(_) => true,
            MqttMessageV5::Pingresp(_) => true,
            MqttMessageV5::Disconnect(m) => m.decodes(s, true),
            MqttMessageV5::Auth(m) => m.decodes(s),
        }
    }

    /// Decoding the bytes of an encoded packet, followed by anything, gives the packet back and
    /// leaves what follows.
    pub proof fn lemma_round_trip(&self, rest: Seq<u8>)
        requires
            self.wf(),
        ensures
            spec_frame_error(self.spec_encode() + rest) is None,
            spec_frame(self.spec_encode() + rest) == Some((self.spec_first(), self.spec_body(), rest)),
            self.decodes(self.spec_first(), self.spec_body()),
    {
        lemma_frame_round_trip(self.spec_first(), self.spec_body(), rest);
        assert(self.spec_encode() + rest =~= spec_header(self.spec_first(), self.spec_body().len())
            + self.spec_body() + rest);
        crate::protocol::lemma_type_code_round_trip(self.spec_kind());
        match self {
            MqttMessageV5::Connect(m) => {
                m.lemma_round_trip(true, Seq::empty());
                assert(m.spec_body(true) + Seq::empty() =~= m.spec_body(true));
            },
            MqttMessageV5::Connack(m) => m.lemma_round_trip(true),
            MqttMessageV5::Publish(m) => {
                m.lemma_round_trip(true);
                let f = spec_publish_first_byte(m.qos, m.dup, m.retain) as int;
                assert(f / 16 == 3);
            },
            MqttMessageV5::Puback(m) => m.lemma_round_trip(true),
            MqttMessageV5::Pubrec(m) => m.lemma_round_trip(true),
            MqttMessageV5::Pubrel(m) => m.lemma_round_trip(true),
            MqttMessageV5::Pubcomp(m) => m.lemma_round_trip(true),
            MqttMessageV5::Subscribe(m) => m.lemma_round_trip(true),
            MqttMessageV5::Suback(m) => m.lemma_round_trip(true),
            MqttMessageV5::Unsubscribe(m) => m.lemma_round_trip(true),
            MqttMessageV5::Unsuback(m) => m.lemma_round_trip(true),
            MqttMessageV5::Pingreq(_) => {},
            MqttMessageV5::Pingresp(_) => {},
            MqttMessageV5::Disconnect(m) => m.lemma_round_trip(true),
            MqttMessageV5::Auth(m) => m.lemma_round_trip(),
        }
    }

    pub fn is_connect(&self) -> (r: bool)
        ensures
            r == (self is Connect),
    {
        matches!(self, MqttMessageV5::Connect(_))
    }

    pub fn is_cannack(&self) -> (r: bool)
        ensures
            r == (self is Connack),
    {
        matches!(self, MqttMessageV5::Connack(_))
    }

    pub fn is_publish(&self) -> (r: bool)
        ensures
            r == (self is Publish),
    {
        matches!(self, MqttMessageV5::Publish(_))
    }

    pub fn is_puback(&self) -> (r: bool)
        ensures
            r == (self is Puback),
    {
        matches!(self, MqttMessageV5::Puback(_))
    }

    pub fn is_pubrec(&self) -> (r: bool)
        ensures
            r == (self is Pubrec),
    {
        matches!(self, MqttMessageV5::Pubrec(_))
    }

    pub fn is_pubrel(&self) -> (r: bool)
        ensures
            r == (self is Pubrel),
    {
        matches!(self, MqttMessageV5::Pubrel(_))
    }

    pub fn is_pubcomp(&self) -> (r: bool)
        ensures
            r == (self is Pubcomp),
    {
        matches!(self, MqttMessageV5::Pubcomp(_))
    }

    pub fn is_subscribe(&self) -> (r: bool)
        ensures
            r == (self is Subscribe),
    {
        matches!(self, MqttMessageV5::Subscribe(_))
    }

    pub fn is_suback(&self) -> (r: bool)
        ensures
            r == (self is Suback),
    {
        matches!(self, MqttMessageV5::Suback(_))
    }

    pub fn is_unsubscribe(&self) -> (r: bool)
        ensures
            r == (self is Unsubscribe),
    {
        matches!(self, MqttMessageV5::Unsubscribe(_))
    }

    pub fn is_unsuback(&self) -> (r: bool)
        ensures
            r == (self is Unsuback),
    {
        matches!(self, MqttMessageV5::Unsuback(_))
    }

    pub fn is_pingreq(&self) -> (r: bool)
        ensures
            r == (self is Pingreq),
    {
        matches!(self, MqttMessageV5::Pingreq(_))
    }

    pub fn is_pingresp(&self) -> (r: bool)
        ensures
            r == (self is Pingresp),
    {
        matches!(self, MqttMessageV5::Pingresp(_))
    }

    pub fn is_disconnect(&self) -> (r: bool)
        ensures
            r == (self is Disconnect),
    {
        matches!(self, MqttMessageV5::Disconnect(_))
    }

    pub fn is_auth(&self) -> (r: bool)
        ensures
            r == (self is Auth),
    {
        matches!(self, MqttMessageV5::Auth(_))
    }

    /// Encodes the packet, fixed header included.
    pub fn to_vec(&self) -> (r: Vec<u8>)
        requires
            self.fits(),
        ensures
            r@ == self.spec_encode(),
    {
        let mut body = match self {
            MqttMessageV5::Connect(m) => m.body(true),
            MqttMessageV5::Connack(m) => m.body(true),
            MqttMessageV5::Publish(m) => m.body(true),
            MqttMessageV5::Puback(m) => m.body(true),
            MqttMessageV5::Pubrec(m) => m.body(true),
            MqttMessageV5::Pubrel(m) => m.body(true),
            MqttMessageV5::Pubcomp(m) => m.body(true),
            MqttMessageV5::Subscribe(m) => m.body(true),
            MqttMessageV5::Suback(m) => m.body(true),
            MqttMessageV5::Unsubscribe(m) => m.body(true),
            MqttMessageV5::Unsuback(m) => m.body(true),
            MqttMessageV5::Pingreq(_) => Vec::new(),
            MqttMessageV5::Pingresp(_) => Vec::new(),
            MqttMessageV5::Disconnect(m) => m.body(true),
            MqttMessageV5::Auth(m) => m.body(),
        };
        let mut packet = match self {
            MqttMessageV5::Publish(m) => pack_publish_header(body.len(), m.qos, m.dup, m.retain),
            MqttMessageV5::Connect(_) => pack_header(TypeKind::CONNECT, body.len()),
            MqttMessageV5::Connack(_) => pack_header(TypeKind::CONNACK, body.len()),
            MqttMessageV5::Puback(_) => pack_header(TypeKind::PUBACK, body.len()),
            MqttMessageV5::Pubrec(_) => pack_header(TypeKind::PUBREC, body.len()),
            MqttMessageV5::Pubrel(_) => pack_header(TypeKind::PUBREL, body.len()),
            MqttMessageV5::Pubcomp(_) => pack_header(TypeKind::PUBCOMP, body.len()),
            MqttMessageV5::Subscribe(_) => pack_header(TypeKind::SUBSCRIBE, body.len()),
            MqttMessageV5::Suback(_) => pack_header(TypeKind::SUBACK, body.len()),
            MqttMessageV5::Unsubscribe(_) => pack_header(TypeKind::UNSUBSCRIBE, body.len()),
            MqttMessageV5::Unsuback(_) => pack_header(TypeKind::UNSUBACK, body.len()),
            MqttMessageV5::Pingreq(_) => pack_header(TypeKind::PINGREQ, body.len()),
            MqttMessageV5::Pingresp(_) => pack_header(TypeKind::PINGRESP, body.len()),
            MqttMessageV5::Disconnect(_) => pack_header(TypeKind::DISCONNECT, body.len()),
            MqttMessageV5::Auth(_) => pack_header(TypeKind::AUTH, body.len()),
        };
        packet.append(&mut body);
        packet
    }

    /// Decodes the body of a framed packet according to its type.
    pub fn decode(base: &BaseMessage) -> (r: Option<MqttMessageV5>)
        requires
            base.header_of(base.first),
        ensures
            r matches Some(m) ==> m.decodes(base.first, base.bytes@),
            r is None ==> forall|m: MqttMessageV5| !m.decodes(base.first, base.bytes@),
    {
        let body = base.bytes.as_slice();
        match base.msg_type {
            TypeKind::CONNECT => match ConnectMessage::decode_body(body, true) {
                Some(m) => Some(MqttMessageV5::Connect(m)),
                None => None,
            },
            TypeKind::CONNACK => match ConnackMessage::decode_body(body, true) {
                Some(m) => Some(MqttMessageV5::Connack(m)),
                None => None,
            },
            TypeKind::PUBLISH => match PublishMessage::decode_body(body, base.first, true) {
                Some(m) => Some(MqttMessageV5::Publish(m)),
                None => None,
            },
            TypeKind::PUBACK => match crate::packet::puback(base) {
                Some(m) => Some(MqttMessageV5::Puback(m)),
                None => None,
            },
            TypeKind::PUBREC => match crate::packet::pubrec(base) {
                Some(m) => Some(MqttMessageV5::Pubrec(m)),
                None => None,
            },
            TypeKind::PUBREL => match crate::packet::pubrel(base) {
                Some(m) => Some(MqttMessageV5::Pubrel(m)),
                None => None,
            },
            TypeKind::PUBCOMP => match crate::packet::pubcomp(base) {
                Some(m) => Some(MqttMessageV5::Pubcomp(m)),
                None => None,
            },
            TypeKind::SUBSCRIBE => match SubscribeMessage::decode_body(body, true) {
                Some(m) => Some(MqttMessageV5::Subscribe(m)),
                None => None,
            },
            TypeKind::SUBACK => match SubackMessage::decode_body(body, true) {
                Some(m) => Some(MqttMessageV5::Suback(m)),
                None => None,
            },
            TypeKind::UNSUBSCRIBE => match UnsubscribeMessage::decode_body(body, true) {
                Some(m) => Some(MqttMessageV5::Unsubscribe(m)),
                None => None,
            },
            TypeKind::UNSUBACK => match UnsubackMessage::decode_body(body, true) {
                Some(m) => Some(MqttMessageV5::Unsuback(m)),
                None => None,
            },
            TypeKind::PINGREQ => Some(MqttMessageV5::Pingreq(PingreqMessage {  })),
            TypeKind::PINGRESP => Some(MqttMessageV5::Pingresp(PingrespMessage {  })),
            TypeKind::DISCONNECT => match DisconnectMessage::decode_body(body, true) {
                Some(m) => Some(MqttMessageV5::Disconnect(m)),
                None => None,
            },
            TypeKind::AUTH => match AuthMessage::decode_body(body) {
                Some(m) => Some(MqttMessageV5::Auth(m)),
                None => None,
            },
        }
    }
}

/// Whether `m` is the first packet of `s` and takes its first `n` bytes.
pub open spec fn spec_decoded(s: Seq<u8>, m: MqttMessageV5, n: nat) -> bool {
    match spec_frame(s) {
        Some((first, body, rest)) => m.decodes(first, body) && n <= s.len() && rest == s.subrange(
            n as int,
            s.len() as int,
        ),
        None => false,
    }
}

/// Whether `s` is framed but its body decodes to no packet.
pub open spec fn spec_body_malformed(s: Seq<u8>) -> bool {
    match spec_frame(s) {
        Some((first, body, _)) => forall|m: MqttMessageV5| !m.decodes(first, body),
        None => false,
    }
}

/// The error for a framed packet whose body decodes to no packet.
pub open spec fn spec_body_error(s: Seq<u8>) -> DecodeError {
    DecodeError::Malformed
}

/// Decodes the first packet of `data`: the packet and the number of bytes it took.
pub fn decode(data: &[u8]) -> (r: Result<(MqttMessageV5, usize), DecodeError>)
    ensures
        r matches Ok((m, n)) ==> spec_frame_error(data@) is None && spec_decoded(data@, m, n as nat),
        r matches Err(e) ==> spec_frame_error(data@) == Some(e) || (spec_frame_error(data@) is None
            && spec_body_malformed(data@) && e == spec_body_error(data@)),
{
    let (base, rest) = match BaseMessage::decode(data) {
        Ok(p) => p,
        Err(e) => return Err(e),
    };
    proof {
        crate::message::lemma_frame_suffix(data@);
    }
    match MqttMessageV5::decode(&base) {
        Some(m) => Ok((m, data.len() - rest.len())),
        None => {
            if base.first / 16 == 15 {
                Err(DecodeError::Malformed)
            } else {
                Err(DecodeError::Malformed)
            }
        },
    }
}

} // verus!
