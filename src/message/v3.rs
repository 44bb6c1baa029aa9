use vstd::prelude::*;
use crate::protocol::TypeKind;
use crate::message::{BaseMessage, DecodeError, spec_frame, spec_frame_error, lemma_frame_round_trip};
use crate::message::entity::{ConnectMessage, ConnackMessage, PublishMessage, PubackMessage, PubrecMessage, PubrelMessage, PubcompMessage, SubscribeMessage, SubackMessage, UnsubscribeMessage, UnsubackMessage, PingreqMessage, PingrespMessage, DisconnectMessage};
use crate::packet::{Pack, Unpcak};
use crate::tools::pack_tool::{spec_short, spec_header, spec_publish_first_byte, MAX_REMAINING_LENGTH, pack_header};

verus! {

/// A control packet of MQTT 3.1.1.
#[derive(Debug, Clone)]
pub enum MqttMessageV3 {
    Connect(ConnectMessage),
    Connack(ConnackMessage),
    Publish(PublishMessage),
    Puback(PubackMessage),
    Pubrec(PubrecMessage),
    Pubrel(PubrelMessage),
    Pubcomp(PubcompMessage),
    Subscribe(SubscribeMessage),
    Suback(SubackMessage),
    Unsubscribe(UnsubscribeMessage),
    Unsuback(UnsubackMessage),
    Pingreq(PingreqMessage),
    Pingresp(PingrespMessage),
    Disconnect(DisconnectMessage),
}

impl MqttMessageV3 {
    /// The packet type.
    pub open spec fn spec_kind(&self) -> TypeKind {
        match self {
            MqttMessageV3::Connect(_) => TypeKind::CONNECT,
            MqttMessageV3::Connack(_) => TypeKind::CONNACK,
            MqttMessageV3::Publish(_) => TypeKind::PUBLISH,
            MqttMessageV3::Puback(_) => TypeKind::PUBACK,
            MqttMessageV3::Pubrec(_) => TypeKind::PUBREC,
            MqttMessageV3::Pubrel(_) => TypeKind::PUBREL,
            MqttMessageV3::Pubcomp(_) => TypeKind::PUBCOMP,
            MqttMessageV3::Subscribe(_) => TypeKind::SUBSCRIBE,
            MqttMessageV3::Suback(_) => TypeKind::SUBACK,
            MqttMessageV3::Unsubscribe(_) => TypeKind::UNSUBSCRIBE,
            MqttMessageV3::Unsuback(_) => TypeKind::UNSUBACK,
            MqttMessageV3::Pingreq(_) => TypeKind::PINGREQ,
            MqttMessageV3::Pingresp(_) => TypeKind::PINGRESP,
            MqttMessageV3::Disconnect(_) => TypeKind::DISCONNECT,
        }
    }

    /// The first byte of the fixed header.
    pub open spec fn spec_first(&self) -> u8 {
        match self {
            MqttMessageV3::Publish(m) => spec_publish_first_byte(m.qos, m.dup, m.retain),
            _ => self.spec_kind().spec_header_byte(),
        }
    }

    /// The bytes after the fixed header.
    pub open spec fn spec_body(&self) -> Seq<u8> {
        match self {
            MqttMessageV3::Connect(m) => m.spec_body(false),
            MqttMessageV3::Connack(m) => m.spec_body(false),
            MqttMessageV3::Publish(m) => m.spec_body(false),
            MqttMessageV3::Puback(m) => m.spec_body(false),
            MqttMessageV3::Pubrec(m) => m.spec_body(false),
            MqttMessageV3::Pubrel(m) => m.spec_body(false),
            MqttMessageV3::Pubcomp(m) => m.spec_body(false),
            MqttMessageV3::Subscribe(m) => m.spec_body(false),
            MqttMessageV3::Suback(m) => m.spec_body(false),
            MqttMessageV3::Unsubscribe(m) => m.spec_body(false),
            MqttMessageV3::Unsuback(m) => m.spec_body(false),
            MqttMessageV3::Pingreq(_) => Seq::empty(),
            MqttMessageV3::Pingresp(_) => Seq::empty(),
            MqttMessageV3::Disconnect(m) => m.spec_body(false),
        }
    }

    /// The whole packet.
    pub open spec fn spec_encode(&self) -> Seq<u8> {
        spec_header(self.spec_first(), self.spec_body().len()) + self.spec_body()
    }

    /// Whether every field fits its wire form.
    pub open spec fn fits(&self) -> bool {
        &&& self.spec_body().len() <= MAX_REMAINING_LENGTH
        &&& match self {
            MqttMessageV3::Connect(m) => m.fits(),
            MqttMessageV3::Connack(m) => m.fits(),
            MqttMessageV3::Publish(m) => m.fits(),
            MqttMessageV3::Puback(m) => m.fits(),
            MqttMessageV3::Pubrec(m) => m.fits(),
            MqttMessageV3::Pubrel(m) => m.fits(),
            MqttMessageV3::Pubcomp(m) => m.fits(),
            MqttMessageV3::Subscribe(m) => m.fits(),
            MqttMessageV3::Suback(m) => m.fits(),
            MqttMessageV3::Unsubscribe(m) => m.fits(),
            MqttMessageV3::Unsuback(m) => m.fits(),
            MqttMessageV3::Pingreq(_) => true,
            MqttMessageV3::Pingresp(_) => true,
            MqttMessageV3::Disconnect(m) => m.fits(),
        }
    }

    /// Whether the packet encodes and decodes back unchanged.
    pub open spec fn wf(&self) -> bool {
        &&& self.spec_body().len() <= MAX_REMAINING_LENGTH
        &&& match self {
            MqttMessageV3::Connect(m) => m.wf(false),
            MqttMessageV3::Connack(m) => m.wf(false),
            MqttMessageV3::Publish(m) => m.wf(false),
            MqttMessageV3::Puback(m) => m.wf(false),
            MqttMessageV3::Pubrec(m) => m.wf(false),
            MqttMessageV3::Pubrel(m) => m.wf(false),
            MqttMessageV3::Pubcomp(m) => m.wf(false),
            MqttMessageV3::Subscribe(m) => m.wf(false),
            MqttMessageV3::Suback(m) => m.wf(false),
            MqttMessageV3::Unsubscribe(m) => m.wf(false),
            MqttMessageV3::Unsuback(m) => m.wf(false),
            MqttMessageV3::Pingreq(_) => true,
            MqttMessageV3::Pingresp(_) => true,
            MqttMessageV3::Disconnect(m) => m.wf(false),
        }
    }

    /// Whether `self` is the packet that the first header byte `first` and the body `s` decode to.
    pub open spec fn decodes(&self, first: u8, s: Seq<u8>) -> bool {
        &&& TypeKind::spec_from_code((first / 16) as u8) == Some(self.spec_kind())
        &&& match self {
            MqttMessageV3::Connect(m) => m.decodes(s, false),
            MqttMessageV3::Connack(m) => m.decodes(s, false),
            MqttMessageV3::Publish(m) => m.decodes(s, first, false),
            MqttMessageV3::Puback(m) => m.decodes(s, false),
            MqttMessageV3::Pubrec(m) => m.decodes(s, false),
            MqttMessageV3::Pubrel(m) => m.decodes(s, false),
            MqttMessageV3::Pubcomp(m) => m.decodes(s, false),
            MqttMessageV3::Subscribe(m) => m.decodes(s, false),
            MqttMessageV3::Suback(m) => m.decodes(s, false),
            MqttMessageV3::Unsubscribe(m) => m.decodes(s, false),
            MqttMessageV3::Unsuback(m) => m.decodes(s, false),
            MqttMessageV3::Pingreq(_) => true,
            MqttMessageV3::Pingresp(_) => true,
            MqttMessageV3::Disconnect(m) => m.decodes(s, false),
        }
    }

    /// Decoding the bytes of an encoded packet, followed by anything, gives the packet back and
    /// leaves what follows.
    pub proof fn lemma_round_trip(&self, rest: Seq<u8>)
        requires
            self.wf(),
        ensures
            spec_frame_error(self.spec_encode() + rest) is None,
            spec_frame(self.spec_encode() + rest) == Some((self.spec_first(), self.spec_body(), rest)),
            self.decodes(self.spec_first(), self.spec_body()),
    {
        lemma_frame_round_trip(self.spec_first(), self.spec_body(), rest);
        assert(self.spec_encode() + rest =~= spec_header(self.spec_first(), self.spec_body().len())
            + self.spec_body() + rest);
        crate::protocol::lemma_type_code_round_trip(self.spec_kind());
        match self {
            MqttMessageV3::Connect(m) => {
                m.lemma_round_trip(false, Seq::empty());
                assert(m.spec_body(false) + Seq::empty() =~= m.spec_body(false));
            },
            MqttMessageV3::Connack(m) => m.lemma_round_trip(false),
            MqttMessageV3::Publish(m) => {
                m.lemma_round_trip(false);
                let f = spec_publish_first_byte(m.qos, m.dup, m.retain) as int;
                assert(f / 16 == 3);
            },
            MqttMessageV3::Puback(m) => m.lemma_round_trip(false),
            MqttMessageV3::Pubrec(m) => m.lemma_round_trip(false),
            MqttMessageV3::Pubrel(m) => m.lemma_round_trip(false),
            MqttMessageV3::Pubcomp(m) => m.lemma_round_trip(false),
            MqttMessageV3::Subscribe(m) => m.lemma_round_trip(false),
            MqttMessageV3::Suback(m) => m.lemma_round_trip(false),
            MqttMessageV3::Unsubscribe(m) => m.lemma_round_trip(false),
            MqttMessageV3::Unsuback(m) => m.lemma_round_trip(false),
            MqttMessageV3::Pingreq(_) => {},
            MqttMessageV3::Pingresp(_) => {},
            MqttMessageV3::Disconnect(m) => m.lemma_round_trip(false),
        }
    }

    pub fn is_connect(&self) -> (r: bool)
        ensures
            r == (self is Connect),
    {
        matches!(self, MqttMessageV3::Connect(_))
    }

    pub fn is_cannack(&self) -> (r: bool)
        ensures
            r == (self is Connack),
    {
        matches!(self, MqttMessageV3::Connack(_))
    }

    pub fn is_publish(&self) -> (r: bool)
        ensures
            r == (self is Publish),
    {
        matches!(self, MqttMessageV3::Publish(_))
    }

    pub fn is_puback(&self) -> (r: bool)
        ensures
            r == (self is Puback),
    {
        matches!(self, MqttMessageV3::Puback(_))
    }

    pub fn is_pubrec(&self) -> (r: bool)
        ensures
            r == (self is Pubrec),
    {
        matches!(self, MqttMessageV3::Pubrec(_))
    }

    pub fn is_pubrel(&self) -> (r: bool)
        ensures
            r == (self is Pubrel),
    {
        matches!(self, MqttMessageV3::Pubrel(_))
    }

    pub fn is_pubcomp(&self) -> (r: bool)
        ensures
            r == (self is Pubcomp),
    {
        matches!(self, MqttMessageV3::Pubcomp(_))
    }

    pub fn is_subscribe(&self) -> (r: bool)
        ensures
            r == (self is Subscribe),
    {
        matches!(self, MqttMessageV3::Subscribe(_))
    }

    pub fn is_suback(&self) -> (r: bool)
        ensures
            r == (self is Suback),
    {
        matches!(self, MqttMessageV3::Suback(_))
    }

    pub fn is_unsubscribe(&self) -> (r: bool)
        ensures
            r == (self is Unsubscribe),
    {
        matches!(self, MqttMessageV3::Unsubscribe(_))
    }

    pub fn is_unsuback(&self) -> (r: bool)
        ensures
            r == (self is Unsuback),
    {
        matches!(self, MqttMessageV3::Unsuback(_))
    }

    pub fn is_pingreq(&self) -> (r: bool)
        ensures
            r == (self is Pingreq),
    {
        matches!(self, MqttMessageV3::Pingreq(_))
    }

    pub fn is_pingresp(&self) -> (r: bool)
        ensures
            r == (self is Pingresp),
    {
        matches!(self, MqttMessageV3::Pingresp(_))
    }

    pub fn is_disconnect(&self) -> (r: bool)
        ensures
            r == (self is Disconnect),
    {
        matches!(self, MqttMessageV3::Disconnect(_))
    }

    /// The same packet as an MQTT 5 packet value.
    pub open spec fn spec_to_v5(self) -> crate::message::v5::MqttMessageV5 {
        match self {
            MqttMessageV3::Connect(m) => crate::message::v5::MqttMessageV5::Connect(m),
            MqttMessageV3::Connack(m) => crate::message::v5::MqttMessageV5::Connack(m),
            MqttMessageV3::Publish(m) => crate::message::v5::MqttMessageV5::Publish(m),
            MqttMessageV3::Puback(m) => crate::message::v5::MqttMessageV5::Puback(m),
            MqttMessageV3::Pubrec(m) => crate::message::v5::MqttMessageV5::Pubrec(m),
            MqttMessageV3::Pubrel(m) => crate::message::v5::MqttMessageV5::Pubrel(m),
            MqttMessageV3::Pubcomp(m) => crate::message::v5::MqttMessageV5::Pubcomp(m),
            MqttMessageV3::Subscribe(m) => crate::message::v5::MqttMessageV5::Subscribe(m),
            MqttMessageV3::Suback(m) => crate::message::v5::MqttMessageV5::Suback(m),
            MqttMessageV3::Unsubscribe(m) => crate::message::v5::MqttMessageV5::Unsubscribe(m),
            MqttMessageV3::Unsuback(m) => crate::message::v5::MqttMessageV5::Unsuback(m),
            MqttMessageV3::Pingreq(m) => crate::message::v5::MqttMessageV5::Pingreq(m),
            MqttMessageV3::Pingresp(m) => crate::message::v5::MqttMessageV5::Pingresp(m),
            MqttMessageV3::Disconnect(m) => crate::message::v5::MqttMessageV5::Disconnect(m),
        }
    }

    pub fn into_v5(self) -> (r: crate::message::v5::MqttMessageV5)
        ensures
            r == self.spec_to_v5(),
    {
        match self {
            MqttMessageV3::Connect(m) => crate::message::v5::MqttMessageV5::Connect(m),
            MqttMessageV3::Connack(m) => crate::message::v5::MqttMessageV5::Connack(m),
            MqttMessageV3::Publish(m) => crate::message::v5::MqttMessageV5::Publish(m),
            MqttMessageV3::Puback(m) => crate::message::v5::MqttMessageV5::Puback(m),
            MqttMessageV3::Pubrec(m) => crate::message::v5::MqttMessageV5::Pubrec(m),
            MqttMessageV3::Pubrel(m) => crate::message::v5::MqttMessageV5::Pubrel(m),
            MqttMessageV3::Pubcomp(m) => crate::message::v5::MqttMessageV5::Pubcomp(m),
            MqttMessageV3::Subscribe(m) => crate::message::v5::MqttMessageV5::Subscribe(m),
            MqttMessageV3::Suback(m) => crate::message::v5::MqttMessageV5::Suback(m),
            MqttMessageV3::Unsubscribe(m) => crate::message::v5::MqttMessageV5::Unsubscribe(m),
            MqttMessageV3::Unsuback(m) => crate::message::v5::MqttMessageV5::Unsuback(m),
            MqttMessageV3::Pingreq(m) => crate::message::v5::MqttMessageV5::Pingreq(m),
            MqttMessageV3::Pingresp(m) => crate::message::v5::MqttMessageV5::Pingresp(m),
            MqttMessageV3::Disconnect(m) => crate::message::v5::MqttMessageV5::Disconnect(m),
        }
    }

    /// Encodes the packet, fixed header included.
    pub fn to_vec(&self) -> (r: Vec<u8>)
        requires
            self.fits(),
        ensures
            r@ == self.spec_encode(),
    {
        let r = match self {
            MqttMessageV3::Connect(m) => Pack::connect(m),
            MqttMessageV3::Connack(m) => Pack::connack(m.session_present, m.return_code),
            MqttMessageV3::Publish(m) => Pack::publish(m),
            MqttMessageV3::Puback(m) => Pack::not_payload(m.message_id, TypeKind::PUBACK),
            MqttMessageV3::Pubrec(m) => Pack::not_payload(m.message_id, TypeKind::PUBREC),
            MqttMessageV3::Pubrel(m) => Pack::not_payload(m.message_id, TypeKind::PUBREL),
            MqttMessageV3::Pubcomp(m) => Pack::not_payload(m.message_id, TypeKind::PUBCOMP),
            MqttMessageV3::Subscribe(m) => Pack::subscribe(m),
            MqttMessageV3::Suback(m) => Pack::suback(m),
            MqttMessageV3::Unsubscribe(m) => Pack::unsubscribe(m),
            MqttMessageV3::Unsuback(m) => Pack::not_payload(m.message_id, TypeKind::UNSUBACK),
            MqttMessageV3::Pingreq(_) => pack_header(TypeKind::PINGREQ, 0),
            MqttMessageV3::Pingresp(_) => pack_header(TypeKind::PINGRESP, 0),
            MqttMessageV3::Disconnect(_) => pack_header(TypeKind::DISCONNECT, 0),
        };
        proof {
            match self {
                MqttMessageV3::Connack(m) => {
                    assert(m.spec_body(false) =~= seq![m.session_present.spec_byte(), m.return_code]);
                },
                MqttMessageV3::Puback(m) => {
                    assert(m.spec_body(false) =~= spec_short(m.message_id as nat));
                },
                MqttMessageV3::Pubrec(m) => {
                    assert(m.spec_body(false) =~= spec_short(m.message_id as nat));
                },
                MqttMessageV3::Pubrel(m) => {
                    assert(m.spec_body(false) =~= spec_short(m.message_id as nat));
                },
                MqttMessageV3::Pubcomp(m) => {
                    assert(m.spec_body(false) =~= spec_short(m.message_id as nat));
                },
                MqttMessageV3::Disconnect(m) => {
                    assert(r@ =~= self.spec_encode());
                },
                MqttMessageV3::Pingreq(_) => {
                    assert(r@ =~= self.spec_encode());
                },
                MqttMessageV3::Pingresp(_) => {
                    assert(r@ =~= self.spec_encode());
                },
                _ => {},
            }
        }
        r
    }

    /// Decodes the body of a framed packet according to its type.
    pub fn decode(base: &BaseMessage) -> (r: Option<MqttMessageV3>)
        requires
            base.header_of(base.first),
        ensures
            r matches Some(m) ==> m.decodes(base.first, base.bytes@),
            r is None ==> forall|m: MqttMessageV3| !m.decodes(base.first, base.bytes@),
    {
        match base.msg_type {
            TypeKind::CONNECT => match Unpcak::connect(base) {
                Some(m) => Some(MqttMessageV3::Connect(m)),
                None => None,
            },
            TypeKind::CONNACK => match Unpcak::connack(base) {
                Some(m) => Some(MqttMessageV3::Connack(m)),
                None => None,
            },
            TypeKind::PUBLISH => match Unpcak::publish(base) {
                Some(m) => Some(MqttMessageV3::Publish(m)),
                None => None,
            },
            TypeKind::PUBACK => match Unpcak::puback(base) {
                Some(m) => Some(MqttMessageV3::Puback(m)),
                None => None,
            },
            TypeKind::PUBREC => match Unpcak::pubrec(base) {
                Some(m) => Some(MqttMessageV3::Pubrec(m)),
                None => None,
            },
            TypeKind::PUBREL => match Unpcak::pubrel(base) {
                Some(m) => Some(MqttMessageV3::Pubrel(m)),
                None => None,
            },
            TypeKind::PUBCOMP => match Unpcak::pubcomp(base) {
                Some(m) => Some(MqttMessageV3::Pubcomp(m)),
                None => None,
            },
            TypeKind::SUBSCRIBE => match Unpcak::subscribe(base) {
                Some(m) => Some(MqttMessageV3::Subscribe(m)),
                None => None,
            },
            TypeKind::SUBACK => match Unpcak::suback(base) {
                Some(m) => Some(MqttMessageV3::Suback(m)),
                None => None,
            },
            TypeKind::UNSUBSCRIBE => match Unpcak::unsubscribe(base) {
                Some(m) => Some(MqttMessageV3::Unsubscribe(m)),
                None => None,
            },
            TypeKind::UNSUBACK => match Unpcak::unsuback(base) {
                Some(m) => Some(MqttMessageV3::Unsuback(m)),
                None => None,
            },
            TypeKind::PINGREQ => Some(MqttMessageV3::Pingreq(PingreqMessage {  })),
            TypeKind::PINGRESP => Some(MqttMessageV3::Pingresp(PingrespMessage {  })),
            TypeKind::DISCONNECT => match DisconnectMessage::decode_body(base.bytes.as_slice(), false) {
                Some(m) => Some(MqttMessageV3::Disconnect(m)),
                None => None,
            },
            TypeKind::AUTH => None,
        }
    }
}

/// Whether `m` is the first packet of `s` and takes its first `n` bytes.
pub open spec fn spec_decoded(s: Seq<u8>, m: MqttMessageV3, n: nat) -> bool {
    match spec_frame(s) {
        Some((first, body, rest)) => m.decodes(first, body) && n <= s.len() && rest == s.subrange(
            n as int,
            s.len() as int,
        ),
        None => false,
    }
}

/// Whether `s` is framed but its body decodes to no packet.
pub open spec fn spec_body_malformed(s: Seq<u8>) -> bool {
    match spec_frame(s) {
        Some((first, body, _)) => forall|m: MqttMessageV3| !m.decodes(first, body),
        None => false,
    }
}

/// The error for a framed packet whose body decodes to no packet.
pub open spec fn spec_body_error(s: Seq<u8>) -> DecodeError {
    if s[0] / 16 == 15 { DecodeError::UnknownType } else { DecodeError::Malformed }
}

/// Decodes the first packet of `data`: the packet and the number of bytes it took.
pub fn decode(data: &[u8]) -> (r: Result<(MqttMessageV3, usize), DecodeError>)
    ensures
        r matches Ok((m, n)) ==> spec_frame_error(data@) is None && spec_decoded(data@, m, n as nat),
        r matches Err(e) ==> spec_frame_error(data@) == Some(e) || (spec_frame_error(data@) is None
            && spec_body_malformed(data@) && e == spec_body_error(data@)),
{
    let (base, rest) = match BaseMessage::decode(data) {
        Ok(p) => p,
        Err(e) => return Err(e),
    };
    proof {
        crate::message::lemma_frame_suffix(data@);
    }
    match MqttMessageV3::decode(&base) {
        Some(m) => Ok((m, data.len() - rest.len())),
        None => {
            if base.first / 16 == 15 {
                Err(DecodeError::UnknownType)
            } else {
                Err(DecodeError::Malformed)
            }
        },
    }
}

} // verus!
