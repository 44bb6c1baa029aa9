use vstd::prelude::*;

verus! {

/// Protocol name sent in CONNECT by MQTT 3.1.1 and 5.0 clients.
pub const MQTT_PROTOCOL_NAME: &'static str = "MQTT";

/// Protocol name sent in CONNECT by MQTT 3.1 clients.
pub const MQISDP_PROTOCOL_NAME: &'static str = "MQIsdp";

/// The protocol level byte of a CONNECT packet.
#[derive(Debug, Clone, Copy, PartialEq, Eq, Structural)]
pub enum MqttProtocolLevel {
    Level3_1,
    Level3_1_1,
    Level5,
}

impl MqttProtocolLevel {
    pub open spec fn spec_byte(self) -> u8 {
        match self {
            MqttProtocolLevel::Level3_1 => 3,
            MqttProtocolLevel::Level3_1_1 => 4,
            MqttProtocolLevel::Level5 => 5,
        }
    }

    pub open spec fn spec_from_byte(b: u8) -> Option<MqttProtocolLevel> {
        if b == 3 {
            Some(MqttProtocolLevel::Level3_1)
        } else if b == 4 {
            Some(MqttProtocolLevel::Level3_1_1)
        } else if b == 5 {
            Some(MqttProtocolLevel::Level5)
        } else {
            None
        }
    }

    pub fn as_byte(&self) -> (r: u8)
        ensures
            r == self.spec_byte(),
    {
        match self {
            MqttProtocolLevel::Level3_1 => 3,
            MqttProtocolLevel::Level3_1_1 => 4,
            MqttProtocolLevel::Level5 => 5,
        }
    }

    pub fn from_byte(b: u8) -> (r: Option<MqttProtocolLevel>)
        ensures
            r == Self::spec_from_byte(b),
    {
        if b == 3 {
            Some(MqttProtocolLevel::Level3_1)
        } else if b == 4 {
            Some(MqttProtocolLevel::Level3_1_1)
        } else if b == 5 {
            Some(MqttProtocolLevel::Level5)
        } else {
            None
        }
    }

    pub fn is_level_3_1(&self) -> (r: bool)
        ensures
            r == (*self == MqttProtocolLevel::Level3_1),
    {
        matches!(self, MqttProtocolLevel::Level3_1)
    }

    pub fn is_level_3_1_1(&self) -> (r: bool)
        ensures
            r == (*self == MqttProtocolLevel::Level3_1_1),
    {
        matches!(self, MqttProtocolLevel::Level3_1_1)
    }

    pub fn is_level_5(&self) -> (r: bool)
        ensures
            r == (*self == MqttProtocolLevel::Level5),
    {
        matches!(self, MqttProtocolLevel::Level5)
    }
}

/// Quality of service of a delivery.
#[derive(Debug, Clone, Copy, PartialEq, Eq, Structural)]
pub enum MqttQos {
    Qos0,
    Qos1,
    Qos2,
}

/// Return code of a SUBACK entry whose subscription was refused.
pub const SUBACK_FAILURE: u8 = 0x80;

impl MqttQos {
    pub open spec fn spec_byte(self) -> u8 {
        match self {
            MqttQos::Qos0 => 0,
            MqttQos::Qos1 => 1,
            MqttQos::Qos2 => 2,
        }
    }

    pub open spec fn spec_from_byte(b: u8) -> Option<MqttQos> {
        if b == 0 {
            Some(MqttQos::Qos0)
        } else if b == 1 {
            Some(MqttQos::Qos1)
        } else if b == 2 {
            Some(MqttQos::Qos2)
        } else {
            None
        }
    }

    pub fn as_byte(&self) -> (r: u8)
        ensures
            r == self.spec_byte(),
            r <= 2,
    {
        match self {
            MqttQos::Qos0 => 0,
            MqttQos::Qos1 => 1,
            MqttQos::Qos2 => 2,
        }
    }

    pub fn from_byte(b: u8) -> (r: Option<MqttQos>)
        ensures
            r == Self::spec_from_byte(b),
    {
        if b == 0 {
            Some(MqttQos::Qos0)
        } else if b == 1 {
            Some(MqttQos::Qos1)
        } else if b == 2 {
            Some(MqttQos::Qos2)
        } else {
            None
        }
    }
}

pub proof fn lemma_qos_byte_round_trip(q: MqttQos)
    ensures
        MqttQos::spec_from_byte(q.spec_byte()) == Some(q),
{
}

pub proof fn lemma_level_byte_round_trip(l: MqttProtocolLevel)
    ensures
        MqttProtocolLevel::spec_from_byte(l.spec_byte()) == Some(l),
{
}

/// Will flag of a CONNECT packet.
#[derive(Debug, Clone, Copy, PartialEq, Eq, Structural)]
pub enum MqttWillFlag {
    Disable,
    Enable,
}

impl MqttWillFlag {
    pub open spec fn spec_byte(self) -> u8 {
        match self {
            MqttWillFlag::Disable => 0,
            MqttWillFlag::Enable => 1,
        }
    }

    /// The flag held in the lowest bit of `b`.
    pub open spec fn spec_from_bit(b: u8) -> MqttWillFlag {
        if b % 2 == 1 {
            MqttWillFlag::Enable
        } else {
            MqttWillFlag::Disable
        }
    }

    pub fn as_byte(&self) -> (r: u8)
        ensures
            r == self.spec_byte(),
    {
        match self {
            MqttWillFlag::Disable => 0,
            MqttWillFlag::Enable => 1,
        }
    }

    pub fn from_bit(b: u8) -> (r: MqttWillFlag)
        ensures
            r == Self::spec_from_bit(b),
    {
        if b % 2 == 1 {
            MqttWillFlag::Enable
        } else {
            MqttWillFlag::Disable
        }
    }

    pub fn is_enable(&self) -> (r: bool)
        ensures
            r == (*self == MqttWillFlag::Enable),
    {
        matches!(self, MqttWillFlag::Enable)
    }
}

/// Retain flag of a PUBLISH packet or of a will.
#[derive(Debug, Clone, Copy, PartialEq, Eq, Structural)]
pub enum MqttRetain {
    Disable,
    Enable,
}

impl MqttRetain {
    pub open spec fn spec_byte(self) -> u8 {
        match self {
            MqttRetain::Disable => 0,
            MqttRetain::Enable => 1,
        }
    }

    /// The flag held in the lowest bit of `b`.
    pub open spec fn spec_from_bit(b: u8) -> MqttRetain {
        if b % 2 == 1 {
            MqttRetain::Enable
        } else {
            MqttRetain::Disable
        }
    }

    pub fn as_byte(&self) -> (r: u8)
        ensures
            r == self.spec_byte(),
    {
        match self {
            MqttRetain::Disable => 0,
            MqttRetain::Enable => 1,
        }
    }

    pub fn from_bit(b: u8) -> (r: MqttRetain)
        ensures
            r == Self::spec_from_bit(b),
    {
        if b % 2 == 1 {
            MqttRetain::Enable
        } else {
            MqttRetain::Disable
        }
    }

    pub fn is_enable(&self) -> (r: bool)
        ensures
            r == (*self == MqttRetain::Enable),
    {
        matches!(self, MqttRetain::Enable)
    }
}

/// Duplicate-delivery flag of a PUBLISH packet.
#[derive(Debug, Clone, Copy, PartialEq, Eq, Structural)]
pub enum MqttDup {
    Disable,
    Enable,
}

impl MqttDup {
    pub open spec fn spec_byte(self) -> u8 {
        match self {
            MqttDup::Disable => 0,
            MqttDup::Enable => 1,
        }
    }

    /// The flag held in the lowest bit of `b`.
    pub open spec fn spec_from_bit(b: u8) -> MqttDup {
        if b % 2 == 1 {
            MqttDup::Enable
        } else {
            MqttDup::Disable
        }
    }

    pub fn as_byte(&self) -> (r: u8)
        ensures
            r == self.spec_byte(),
    {
        match self {
            MqttDup::Disable => 0,
            MqttDup::Enable => 1,
        }
    }

    pub fn from_bit(b: u8) -> (r: MqttDup)
        ensures
            r == Self::spec_from_bit(b),
    {
        if b % 2 == 1 {
            MqttDup::Enable
        } else {
            MqttDup::Disable
        }
    }

    pub fn is_enable(&self) -> (r: bool)
        ensures
            r == (*self == MqttDup::Enable),
    {
        matches!(self, MqttDup::Enable)
    }
}

/// Clean-session flag of a CONNECT packet.
#[derive(Debug, Clone, Copy, PartialEq, Eq, Structural)]
pub enum MqttCleanSession {
    Disable,
    Enable,
}

impl MqttCleanSession {
    pub open spec fn spec_byte(self) -> u8 {
        match self {
            MqttCleanSession::Disable => 0,
            MqttCleanSession::Enable => 1,
        }
    }

    /// The flag held in the lowest bit of `b`.
    pub open spec fn spec_from_bit(b: u8) -> MqttCleanSession {
        if b % 2 == 1 {
            MqttCleanSession::Enable
        } else {
            MqttCleanSession::Disable
        }
    }

    pub fn as_byte(&self) -> (r: u8)
        ensures
            r == self.spec_byte(),
    {
        match self {
            MqttCleanSession::Disable => 0,
            MqttCleanSession::Enable => 1,
        }
    }

    pub fn from_bit(b: u8) -> (r: MqttCleanSession)
        ensures
            r == Self::spec_from_bit(b),
    {
        if b % 2 == 1 {
            MqttCleanSession::Enable
        } else {
            MqttCleanSession::Disable
        }
    }

    pub fn is_enable(&self) -> (r: bool)
        ensures
            r == (*self == MqttCleanSession::Enable),
    {
        matches!(self, MqttCleanSession::Enable)
    }
}

/// Whether a CONNECT packet carries a will topic.
#[derive(Debug, Clone, Copy, PartialEq, Eq, Structural)]
pub enum MqttWillTopic {
    Disable,
    Enable,
}

impl MqttWillTopic {
    pub open spec fn spec_byte(self) -> u8 {
        match self {
            MqttWillTopic::Disable => 0,
            MqttWillTopic::Enable => 1,
        }
    }

    /// The flag held in the lowest bit of `b`.
    pub open spec fn spec_from_bit(b: u8) -> MqttWillTopic {
        if b % 2 == 1 {
            MqttWillTopic::Enable
        } else {
            MqttWillTopic::Disable
        }
    }

    pub fn as_byte(&self) -> (r: u8)
        ensures
            r == self.spec_byte(),
    {
        match self {
            MqttWillTopic::Disable => 0,
            MqttWillTopic::Enable => 1,
        }
    }

    pub fn from_bit(b: u8) -> (r: MqttWillTopic)
        ensures
            r == Self::spec_from_bit(b),
    {
        if b % 2 == 1 {
            MqttWillTopic::Enable
        } else {
            MqttWillTopic::Disable
        }
    }

    pub fn is_enable(&self) -> (r: bool)
        ensures
            r == (*self == MqttWillTopic::Enable),
    {
        matches!(self, MqttWillTopic::Enable)
    }
}

/// Whether a CONNECT packet carries a will message.
#[derive(Debug, Clone, Copy, PartialEq, Eq, Structural)]
pub enum MqttWillMessage {
    Disable,
    Enable,
}

impl MqttWillMessage {
    pub open spec fn spec_byte(self) -> u8 {
        match self {
            MqttWillMessage::Disable => 0,
            MqttWillMessage::Enable => 1,
        }
    }

    /// The flag held in the lowest bit of `b`.
    pub open spec fn spec_from_bit(b: u8) -> MqttWillMessage {
        if b % 2 == 1 {
            MqttWillMessage::Enable
        } else {
            MqttWillMessage::Disable
        }
    }

    pub fn as_byte(&self) -> (r: u8)
        ensures
            r == self.spec_byte(),
    {
        match self {
            MqttWillMessage::Disable => 0,
            MqttWillMessage::Enable => 1,
        }
    }

    pub fn from_bit(b: u8) -> (r: MqttWillMessage)
        ensures
            r == Self::spec_from_bit(b),
    {
        if b % 2 == 1 {
            MqttWillMessage::Enable
        } else {
            MqttWillMessage::Disable
        }
    }

    pub fn is_enable(&self) -> (r: bool)
        ensures
            r == (*self == MqttWillMessage::Enable),
    {
        matches!(self, MqttWillMessage::Enable)
    }
}

/// Username flag of a CONNECT packet.
#[derive(Debug, Clone, Copy, PartialEq, Eq, Structural)]
pub enum MqttUsernameFlag {
    Disable,
    Enable,
}

impl MqttUsernameFlag {
    pub open spec fn spec_byte(self) -> u8 {
        match self {
            MqttUsernameFlag::Disable => 0,
            MqttUsernameFlag::Enable => 1,
        }
    }

    /// The flag held in the lowest bit of `b`.
    pub open spec fn spec_from_bit(b: u8) -> MqttUsernameFlag {
        if b % 2 == 1 {
            MqttUsernameFlag::Enable
        } else {
            MqttUsernameFlag::Disable
        }
    }

    pub fn as_byte(&self) -> (r: u8)
        ensures
            r == self.spec_byte(),
    {
        match self {
            MqttUsernameFlag::Disable => 0,
            MqttUsernameFlag::Enable => 1,
        }
    }

    pub fn from_bit(b: u8) -> (r: MqttUsernameFlag)
        ensures
            r == Self::spec_from_bit(b),
    {
        if b % 2 == 1 {
            MqttUsernameFlag::Enable
        } else {
            MqttUsernameFlag::Disable
        }
    }

    pub fn is_enable(&self) -> (r: bool)
        ensures
            r == (*self == MqttUsernameFlag::Enable),
    {
        matches!(self, MqttUsernameFlag::Enable)
    }
}

/// Password flag of a CONNECT packet.
#[derive(Debug, Clone, Copy, PartialEq, Eq, Structural)]
pub enum MqttPasswordFlag {
    Disable,
    Enable,
}

impl MqttPasswordFlag {
    pub open spec fn spec_byte(self) -> u8 {
        match self {
            MqttPasswordFlag::Disable => 0,
            MqttPasswordFlag::Enable => 1,
        }
    }

    /// The flag held in the lowest bit of `b`.
    pub open spec fn spec_from_bit(b: u8) -> MqttPasswordFlag {
        if b % 2 == 1 {
            MqttPasswordFlag::Enable
        } else {
            MqttPasswordFlag::Disable
        }
    }

    pub fn as_byte(&self) -> (r: u8)
        ensures
            r == self.spec_byte(),
    {
        match self {
            MqttPasswordFlag::Disable => 0,
            MqttPasswordFlag::Enable => 1,
        }
    }

    pub fn from_bit(b: u8) -> (r: MqttPasswordFlag)
        ensures
            r == Self::spec_from_bit(b),
    {
        if b % 2 == 1 {
            MqttPasswordFlag::Enable
        } else {
            MqttPasswordFlag::Disable
        }
    }

    pub fn is_enable(&self) -> (r: bool)
        ensures
            r == (*self == MqttPasswordFlag::Enable),
    {
        matches!(self, MqttPasswordFlag::Enable)
    }
}

/// Session-present flag of a CONNACK packet.
#[derive(Debug, Clone, Copy, PartialEq, Eq, Structural)]
pub enum MqttSessionPresent {
    Disable,
    Enable,
}

impl MqttSessionPresent {
    pub open spec fn spec_byte(self) -> u8 {
        match self {
            MqttSessionPresent::Disable => 0,
            MqttSessionPresent::Enable => 1,
        }
    }

    /// The flag held in the lowest bit of `b`.
    pub open spec fn spec_from_bit(b: u8) -> MqttSessionPresent {
        if b % 2 == 1 {
            MqttSessionPresent::Enable
        } else {
            MqttSessionPresent::Disable
        }
    }

    pub fn as_byte(&self) -> (r: u8)
        ensures
            r == self.spec_byte(),
    {
        match self {
            MqttSessionPresent::Disable => 0,
            MqttSessionPresent::Enable => 1,
        }
    }

    pub fn from_bit(b: u8) -> (r: MqttSessionPresent)
        ensures
            r == Self::spec_from_bit(b),
    {
        if b % 2 == 1 {
            MqttSessionPresent::Enable
        } else {
            MqttSessionPresent::Disable
        }
    }

    pub fn is_enable(&self) -> (r: bool)
        ensures
            r == (*self == MqttSessionPresent::Enable),
    {
        matches!(self, MqttSessionPresent::Enable)
    }
}

/// The control packet type held in the high nibble of the first header byte.
#[derive(Debug, Clone, Copy, PartialEq, Eq, Structural)]
pub enum TypeKind {
    CONNECT,
    CONNACK,
    PUBLISH,
    PUBACK,
    PUBREC,
    PUBREL,
    PUBCOMP,
    SUBSCRIBE,
    SUBACK,
    UNSUBSCRIBE,
    UNSUBACK,
    PINGREQ,
    PINGRESP,
    DISCONNECT,
    AUTH,
}

impl TypeKind {
    pub open spec fn spec_code(self) -> u8 {
        match self {
            TypeKind::CONNECT => 1,
            TypeKind::CONNACK => 2,
            TypeKind::PUBLISH => 3,
            TypeKind::PUBACK => 4,
            TypeKind::PUBREC => 5,
            TypeKind::PUBREL => 6,
            TypeKind::PUBCOMP => 7,
            TypeKind::SUBSCRIBE => 8,
            TypeKind::SUBACK => 9,
            TypeKind::UNSUBSCRIBE => 10,
            TypeKind::UNSUBACK => 11,
            TypeKind::PINGREQ => 12,
            TypeKind::PINGRESP => 13,
            TypeKind::DISCONNECT => 14,
            TypeKind::AUTH => 15,
        }
    }

    pub open spec fn spec_from_code(c: u8) -> Option<TypeKind> {
        if c == 1 {
            Some(TypeKind::CONNECT)
        } else if c == 2 {
            Some(TypeKind::CONNACK)
        } else if c == 3 {
            Some(TypeKind::PUBLISH)
        } else if c == 4 {
            Some(TypeKind::PUBACK)
        } else if c == 5 {
            Some(TypeKind::PUBREC)
        } else if c == 6 {
            Some(TypeKind::PUBREL)
        } else if c == 7 {
            Some(TypeKind::PUBCOMP)
        } else if c == 8 {
            Some(TypeKind::SUBSCRIBE)
        } else if c == 9 {
            Some(TypeKind::SUBACK)
        } else if c == 10 {
            Some(TypeKind::UNSUBSCRIBE)
        } else if c == 11 {
            Some(TypeKind::UNSUBACK)
        } else if c == 12 {
            Some(TypeKind::PINGREQ)
        } else if c == 13 {
            Some(TypeKind::PINGRESP)
        } else if c == 14 {
            Some(TypeKind::DISCONNECT)
        } else if c == 15 {
            Some(TypeKind::AUTH)
        } else {
            None
        }
    }

    /// The reserved low nibble that the protocol fixes for every type but PUBLISH.
    pub open spec fn spec_fixed_flags(self) -> u8 {
        match self {
            TypeKind::PUBREL => 2,
            TypeKind::SUBSCRIBE => 2,
            TypeKind::UNSUBSCRIBE => 2,
            _ => 0,
        }
    }

    /// The first byte of the fixed header for this type with its reserved flags.
    pub open spec fn spec_header_byte(self) -> u8 {
        (self.spec_code() * 16 + self.spec_fixed_flags()) as u8
    }

    pub fn code(&self) -> (r: u8)
        ensures
            r == self.spec_code(),
            1 <= r <= 15,
    {
        match self {
            TypeKind::CONNECT => 1,
            TypeKind::CONNACK => 2,
            TypeKind::PUBLISH => 3,
            TypeKind::PUBACK => 4,
            TypeKind::PUBREC => 5,
            TypeKind::PUBREL => 6,
            TypeKind::PUBCOMP => 7,
            TypeKind::SUBSCRIBE => 8,
            TypeKind::SUBACK => 9,
            TypeKind::UNSUBSCRIBE => 10,
            TypeKind::UNSUBACK => 11,
            TypeKind::PINGREQ => 12,
            TypeKind::PINGRESP => 13,
            TypeKind::DISCONNECT => 14,
            TypeKind::AUTH => 15,
        }
    }

    pub fn from_code(c: u8) -> (r: Option<TypeKind>)
        ensures
            r == Self::spec_from_code(c),
    {
        if c == 1 {
            Some(TypeKind::CONNECT)
        } else if c == 2 {
            Some(TypeKind::CONNACK)
        } else if c == 3 {
            Some(TypeKind::PUBLISH)
        } else if c == 4 {
            Some(TypeKind::PUBACK)
        } else if c == 5 {
            Some(TypeKind::PUBREC)
        } else if c == 6 {
            Some(TypeKind::PUBREL)
        } else if c == 7 {
            Some(TypeKind::PUBCOMP)
        } else if c == 8 {
            Some(TypeKind::SUBSCRIBE)
        } else if c == 9 {
            Some(TypeKind::SUBACK)
        } else if c == 10 {
            Some(TypeKind::UNSUBSCRIBE)
        } else if c == 11 {
            Some(TypeKind::UNSUBACK)
        } else if c == 12 {
            Some(TypeKind::PINGREQ)
        } else if c == 13 {
            Some(TypeKind::PINGRESP)
        } else if c == 14 {
            Some(TypeKind::DISCONNECT)
        } else if c == 15 {
            Some(TypeKind::AUTH)
        } else {
            None
        }
    }

    pub fn as_header_byte(&self) -> (r: u8)
        ensures
            r == self.spec_header_byte(),
    {
        let flags: u8 = match self {
            TypeKind::PUBREL => 2,
            TypeKind::SUBSCRIBE => 2,
            TypeKind::UNSUBSCRIBE => 2,
            _ => 0,
        };
        self.code() * 16 + flags
    }
}

pub proof fn lemma_type_code_round_trip(t: TypeKind)
    ensures
        TypeKind::spec_from_code(t.spec_code()) == Some(t),
{
}

} // verus!
