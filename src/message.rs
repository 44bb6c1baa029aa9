use vstd::prelude::*;
use vstd::slice::slice_subrange;
use crate::protocol::{TypeKind, MqttDup, MqttQos, MqttRetain};
use crate::tools::pack_tool::{spec_header, MAX_REMAINING_LENGTH};
use crate::tools::un_pack_tool::{spec_parse_vli, get_remaining_length, lemma_vli_round_trip};

pub mod entity;
pub mod v3;
pub mod v5;

verus! {

/// Why bytes could not be decoded into a packet.
#[derive(Debug, Clone, Copy, PartialEq, Eq, Structural)]
pub enum DecodeError {
    /// A truncated or malformed fixed header, variable header or payload.
    Malformed,
    /// A packet type code the protocol version does not define.
    UnknownType,
}

/// A fixed header and the bytes it frames: the first byte, the body, and what follows the packet.
pub open spec fn spec_frame(s: Seq<u8>) -> Option<(u8, Seq<u8>, Seq<u8>)> {
    if s.len() == 0 {
        None
    } else {
        match spec_parse_vli(s.subrange(1, s.len() as int)) {
            Some((n, r)) => if r.len() >= n {
                Some((s[0], r.subrange(0, n as int), r.subrange(n as int, r.len() as int)))
            } else {
                None
            },
            None => None,
        }
    }
}

/// What follows a framed packet ends its input.
pub proof fn lemma_frame_suffix(s: Seq<u8>)
    ensures
        spec_frame(s) matches Some((_, _, rest)) ==> rest.len() < s.len() && rest == s.subrange(
            s.len() - rest.len(),
            s.len() as int,
        ),
{
    if s.len() > 0 {
        let t = s.subrange(1, s.len() as int);
        crate::tools::un_pack_tool::lemma_vli_digits_bound(t, 4);
        if let Some((n, r)) = spec_parse_vli(t) {
            if r.len() >= n {
                let rest = r.subrange(n as int, r.len() as int);
                assert(rest =~= s.subrange(s.len() - rest.len(), s.len() as int));
            }
        }
    }
}

pub open spec fn spec_connect_level(s: Seq<u8>) -> Option<(Seq<char>, crate::protocol::MqttProtocolLevel)> {
    match spec_frame(s) {
        None => None,
        Some((first, body, _)) => if first / 16 != 1 {
            None
        } else {
            match crate::tools::un_pack_tool::spec_parse_str(body) {
                None => None,
                Some((n, r1)) => match crate::tools::un_pack_tool::spec_parse_byte(r1) {
                    None => None,
                    Some((l, _)) => match crate::protocol::MqttProtocolLevel::spec_from_byte(l) {
                        Some(level) => Some((n, level)),
                        None => None,
                    },
                },
            }
        },
    }
}

/// The protocol name and level a CONNECT packet at the start of `data` announces; the level picks
/// the decoder for the rest of the packet.
pub fn get_protocol_name_and_version(data: &[u8]) -> (r: Option<(String, crate::protocol::MqttProtocolLevel)>)
    ensures
        r matches Some((name, level)) ==> spec_connect_level(data@) == Some((name@, level)),
        r is None ==> spec_connect_level(data@) is None,
{
    let body = match get_remaining_data(data) {
        Some(b) => b,
        None => return None,
    };
    if data[0] / 16 != 1 {
        return None;
    }
    let (name, r1) = match crate::tools::un_pack_tool::parse_string(body) {
        Some(p) => p,
        None => return None,
    };
    let (l, _) = match crate::tools::un_pack_tool::parse_byte(r1) {
        Some(p) => p,
        None => return None,
    };
    match crate::protocol::MqttProtocolLevel::from_byte(l) {
        Some(level) => Some((name, level)),
        None => None,
    }
}

/// The error for bytes that do not start with a packet of a known type, if any.
pub open spec fn spec_frame_error(s: Seq<u8>) -> Option<DecodeError> {
    if s.len() == 0 {
        Some(DecodeError::Malformed)
    } else if TypeKind::spec_from_code((s[0] / 16) as u8) is None {
        Some(DecodeError::UnknownType)
    } else if spec_frame(s) is None {
        Some(DecodeError::Malformed)
    } else {
        None
    }
}

/// Framing an encoded packet gives back its first byte and body, and leaves what follows.
pub proof fn lemma_frame_round_trip(first: u8, body: Seq<u8>, rest: Seq<u8>)
    requires
        body.len() <= MAX_REMAINING_LENGTH,
    ensures
        spec_frame(spec_header(first, body.len()) + body + rest) == Some((first, body, rest)),
{
    let s = spec_header(first, body.len()) + body + rest;
    let t = s.subrange(1, s.len() as int);
    assert(t =~= crate::tools::pack_tool::spec_vli(body.len()) + (body + rest));
    lemma_vli_round_trip(body.len(), body + rest);
    assert((body + rest).subrange(0, body.len() as int) =~= body);
    assert((body + rest).subrange(body.len() as int, (body + rest).len() as int) =~= rest);
}

/// Whether a type and flags are those of the first header byte, the flags being read for PUBLISH
/// only.
pub open spec fn header_fields(
    first: u8,
    t: TypeKind,
    retain: Option<MqttRetain>,
    qos: Option<MqttQos>,
    dup: Option<MqttDup>,
) -> bool {
    &&& TypeKind::spec_from_code((first / 16) as u8) == Some(t)
    &&& if t == TypeKind::PUBLISH {
        &&& dup == Some(MqttDup::spec_from_bit((first / 8) as u8))
        &&& qos == MqttQos::spec_from_byte(((first / 2) % 4) as u8)
        &&& retain == Some(MqttRetain::spec_from_bit(first))
    } else {
        dup is None && qos is None && retain is None
    }
}

/// A framed packet: its type and header flags, and the bytes after the fixed header.
#[derive(Debug, Clone)]
pub struct BaseMessage {
    pub msg_type: TypeKind,
    /// The first byte of the fixed header.
    pub first: u8,
    pub dup: Option<MqttDup>,
    pub qos: Option<MqttQos>,
    pub retain: Option<MqttRetain>,
    pub bytes: Vec<u8>,
}

impl BaseMessage {
    /// Whether the type and flag fields are those of the first byte, the flags being read for
    /// PUBLISH only.
    pub open spec fn header_of(&self, first: u8) -> bool {
        self.first == first && header_fields(first, self.msg_type, self.retain, self.qos, self.dup)
    }

    pub fn get_message_type(&self) -> (r: TypeKind)
        ensures
            r == self.msg_type,
    {
        self.msg_type
    }

    /// Splits the first packet off `data`.
    pub fn decode(data: &[u8]) -> (r: Result<(BaseMessage, &[u8]), DecodeError>)
        ensures
            match r {
                Ok((b, rest)) => spec_frame_error(data@) is None && spec_frame(data@) == Some(
                    (b.first, b.bytes@, rest@),
                ) && b.header_of(b.first),
                Err(e) => spec_frame_error(data@) == Some(e),
            },
    {
        if data.len() == 0 {
            return Err(DecodeError::Malformed);
        }
        let first = data[0];
        let (msg_type, retain, qos, dup) = match get_type(first) {
            Some(t) => t,
            None => return Err(DecodeError::UnknownType),
        };
        let (n, r) = match get_remaining_length(slice_subrange(data, 1, data.len())) {
            Some(p) => p,
            None => return Err(DecodeError::Malformed),
        };
        if r.len() < n {
            return Err(DecodeError::Malformed);
        }
        let body = slice_subrange(r, 0, n);
        let mut bytes: Vec<u8> = Vec::new();
        crate::tools::pack_tool::push_bytes(&mut bytes, body);
        proof {
            assert(bytes@ =~= body@);
        }
        Ok((BaseMessage { msg_type, first, dup, qos, retain, bytes }, slice_subrange(r, n, r.len())))
    }
}

/// The type of a first header byte and, for PUBLISH, its retain, QoS and duplicate flags.
pub fn get_type(first: u8) -> (r: Option<(TypeKind, Option<MqttRetain>, Option<MqttQos>, Option<MqttDup>)>)
    ensures
        r is None <==> TypeKind::spec_from_code((first / 16) as u8) is None,
        r matches Some((t, retain, qos, dup)) ==> header_fields(first, t, retain, qos, dup),
{
    let t = match TypeKind::from_code(first / 16) {
        Some(t) => t,
        None => return None,
    };
    if matches!(t, TypeKind::PUBLISH) {
        let (retain, qos, dup) = get_publish_header(first);
        Some((t, Some(retain), qos, Some(dup)))
    } else {
        Some((t, None, None, None))
    }
}

/// The retain flag (bit 0), QoS (bits 1-2) and duplicate flag (bit 3) of a PUBLISH first byte;
/// a QoS of 3 reads as none.
pub fn get_publish_header(data: u8) -> (r: (MqttRetain, Option<MqttQos>, MqttDup))
    ensures
        r.0 == MqttRetain::spec_from_bit(data),
        r.1 == MqttQos::spec_from_byte(((data / 2) % 4) as u8),
        r.2 == MqttDup::spec_from_bit((data / 8) as u8),
{
    (MqttRetain::from_bit(data), MqttQos::from_byte((data / 2) % 4), MqttDup::from_bit(data / 8))
}

/// Reads the body that the fixed header at the start of `data` frames.
pub fn get_remaining_data(data: &[u8]) -> (r: Option<&[u8]>)
    ensures
        r matches Some(b) ==> spec_frame(data@) matches Some((_, body, _)) && b@ == body,
        r is None ==> spec_frame(data@) is None,
{
    if data.len() == 0 {
        return None;
    }
    let (n, r) = match get_remaining_length(slice_subrange(data, 1, data.len())) {
        Some(p) => p,
        None => return None,
    };
    if r.len() < n {
        return None;
    }
    Some(slice_subrange(r, 0, n))
}


/// A decoded request at either version, alone or as several packets of one read.
#[derive(Debug, Clone)]
pub enum MqttMessageKind {
    RequestV3(v3::MqttMessageV3),
    RequestV3Vec(Vec<v3::MqttMessageV3>),
    RequestV5(v5::MqttMessageV5),
    RequestV5Vec(Vec<v5::MqttMessageV5>),
}

impl MqttMessageKind {
    pub fn is_v3(&self) -> (r: bool)
        ensures
            r == (self is RequestV3),
    {
        matches!(self, MqttMessageKind::RequestV3(_))
    }

    pub fn is_v3s(&self) -> (r: bool)
        ensures
            r == (self is RequestV3Vec),
    {
        matches!(self, MqttMessageKind::RequestV3Vec(_))
    }

    pub fn is_v5(&self) -> (r: bool)
        ensures
            r == (self is RequestV5),
    {
        matches!(self, MqttMessageKind::RequestV5(_))
    }

    pub fn is_v5s(&self) -> (r: bool)
        ensures
            r == (self is RequestV5Vec),
    {
        matches!(self, MqttMessageKind::RequestV5Vec(_))
    }

    pub fn get_v3(&self) -> (r: Option<&v3::MqttMessageV3>)
        ensures
            r == match self {
                MqttMessageKind::RequestV3(m) => Some(m),
                _ => None,
            },
    {
        match self {
            MqttMessageKind::RequestV3(m) => Some(m),
            _ => None,
        }
    }

    pub fn get_v5(&self) -> (r: Option<&v5::MqttMessageV5>)
        ensures
            r == match self {
                MqttMessageKind::RequestV5(m) => Some(m),
                _ => None,
            },
    {
        match self {
            MqttMessageKind::RequestV5(m) => Some(m),
            _ => None,
        }
    }

    pub fn get_v3s(&self) -> (r: Option<&Vec<v3::MqttMessageV3>>)
        ensures
            r == match self {
                MqttMessageKind::RequestV3Vec(m) => Some(m),
                _ => None,
            },
    {
        match self {
            MqttMessageKind::RequestV3Vec(m) => Some(m),
            _ => None,
        }
    }

    pub fn get_v5s(&self) -> (r: Option<&Vec<v5::MqttMessageV5>>)
        ensures
            r == match self {
                MqttMessageKind::RequestV5Vec(m) => Some(m),
                _ => None,
            },
    {
        match self {
            MqttMessageKind::RequestV5Vec(m) => Some(m),
            _ => None,
        }
    }

    /// Decodes a framed packet as MQTT 3.1.1.
    pub fn to_v3_request(base: &BaseMessage) -> (r: Option<MqttMessageKind>)
        requires
            base.header_of(base.first),
        ensures
            r matches Some(k) ==> (k matches MqttMessageKind::RequestV3(m) && m.decodes(base.first, base.bytes@)),
            r is None ==> forall|m: v3::MqttMessageV3| !m.decodes(base.first, base.bytes@),
    {
        match v3::MqttMessageV3::decode(base) {
            Some(m) => Some(MqttMessageKind::RequestV3(m)),
            None => None,
        }
    }

    /// Decodes a framed packet as MQTT 5.
    pub fn to_v5_request(base: &BaseMessage) -> (r: Option<MqttMessageKind>)
        requires
            base.header_of(base.first),
        ensures
            r matches Some(k) ==> (k matches MqttMessageKind::RequestV5(m) && m.decodes(base.first, base.bytes@)),
            r is None ==> forall|m: v5::MqttMessageV5| !m.decodes(base.first, base.bytes@),
    {
        match v5::MqttMessageV5::decode(base) {
            Some(m) => Some(MqttMessageKind::RequestV5(m)),
            None => None,
        }
    }
}


/// Whether the first `k` bytes of `t` (or all of them, if fewer) have the continuation bit set.
pub open spec fn all_continuation(t: Seq<u8>, k: nat) -> bool {
    forall|i: int| 0 <= i < k && i < t.len() ==> t[i] >= 128
}

proof fn lemma_vli_none(t: Seq<u8>, k: nat)
    ensures
        crate::tools::un_pack_tool::spec_vli_digits(t, k) is None <==> all_continuation(t, k),
    decreases k,
{
    if k > 0 && t.len() > 0 {
        let u = t.subrange(1, t.len() as int);
        lemma_vli_none(u, (k - 1) as nat);
        if t[0] >= 128 {
            assert(all_continuation(t, k) <==> all_continuation(u, (k - 1) as nat)) by {
                if all_continuation(u, (k - 1) as nat) {
                    assert forall|i: int| 0 <= i < k && i < t.len() implies t[i] >= 128 by {
                        if i > 0 {
                            assert(t[i] == u[i - 1]);
                        }
                    }
                }
                if all_continuation(t, k) {
                    assert forall|i: int| 0 <= i < k - 1 && i < u.len() implies u[i] >= 128 by {
                        assert(u[i] == t[i + 1]);
                    }
                }
            }
        }
    }
}

/// Where the first packet of a byte stream ends.
#[derive(Debug, Clone, Copy, PartialEq, Eq, Structural)]
pub enum FrameStatus {
    /// The first packet is whole and takes this many bytes.
    Complete(usize),
    /// More bytes are needed to see the first packet whole.
    Incomplete,
    /// The remaining length runs past four bytes: no packet can be read here.
    Malformed,
}

/// Whether `s` is the start of a packet whose fixed header or body has not fully arrived.
pub open spec fn frame_incomplete(s: Seq<u8>) -> bool {
    let t = s.subrange(1, s.len() as int);
    ||| s.len() == 0
    ||| (all_continuation(t, 4) && t.len() < 4)
    ||| (spec_parse_vli(t) matches Some((n, r)) && r.len() < n)
}

/// Finds where the first packet of `data` ends.
pub fn frame_status(data: &[u8]) -> (r: FrameStatus)
    ensures
        r matches FrameStatus::Complete(n) ==> (spec_frame(data@) matches Some((_, _, rest)) && n == data@.len()
            - rest.len()),
        r is Incomplete ==> spec_frame(data@) is None && frame_incomplete(data@),
        r is Malformed ==> spec_frame(data@) is None && !frame_incomplete(data@),
{
    if data.len() == 0 {
        return FrameStatus::Incomplete;
    }
    let t = slice_subrange(data, 1, data.len());
    proof {
        lemma_vli_none(t@, 4);
        lemma_frame_suffix(data@);
    }
    match get_remaining_length(t) {
        Some((n, r)) => {
            if r.len() >= n {
                FrameStatus::Complete(data.len() - (r.len() - n))
            } else {
                FrameStatus::Incomplete
            }
        },
        None => {
            if t.len() < 4 {
                FrameStatus::Incomplete
            } else {
                FrameStatus::Malformed
            }
        },
    }
}

} // verus!
