use vstd::prelude::*;
use vstd::slice::slice_subrange;
use crate::tools::pack_tool::{
    spec_vli, spec_short, spec_long, spec_str, str_fits, MAX_REMAINING_LENGTH, pack_long_int,
    pack_short_int, pack_remaining_length, pack_string, };
use crate::tools::un_pack_tool::{
    spec_parse_byte, spec_parse_short, spec_parse_long, spec_parse_vli, spec_parse_str, parse_byte,
    parse_short_int, parse_long_int, parse_string, get_remaining_length, lemma_byte_round_trip,
    lemma_short_round_trip, lemma_long_round_trip, lemma_vli_round_trip, lemma_str_round_trip,
};

pub mod pack_property;
pub mod un_pack_property;

verus! {

/// The value kind an MQTT 5 property identifier carries.
#[derive(Debug, Clone, Copy, PartialEq, Eq, Structural)]
pub enum ValueKind {
    Byte,
    Short,
    Long,
    Var,
    Str,
    Pair,
}

/// The packets whose properties are filtered by admissibility.
#[derive(Debug, Clone, Copy, PartialEq, Eq, Structural)]
pub enum PropertyScope {
    Connect,
    Connack,
    Publish,
    PubAndSub,
    Subscribe,
    Unsubscribe,
    Disconnect,
    Auth,
    Will,
}

/// An MQTT 5 property identifier.
#[derive(Debug, Clone, Copy, PartialEq, Eq, Structural)]
pub enum Property {
    PayloadFormatIndicator,
    MessageExpiryInterval,
    ContentType,
    ResponseTopic,
    CorrelationData,
    SubscriptionIdentifier,
    SessionExpiryInterval,
    AssignedClientIdentifier,
    ServerKeepAlive,
    AuthenticationMethod,
    AuthenticationData,
    RequestProblemInformation,
    WillDelayInterval,
    RequestResponseInformation,
    ResponseInformation,
    ServerReference,
    ReasonString,
    ReceiveMaximum,
    TopicAliasMaximum,
    TopicAlias,
    MaximumQos,
    RetainAvailable,
    UserProperty,
    MaximumPacketSize,
    WildcardSubscriptionAvailable,
    SubscriptionIdentifierAvailable,
    SharedSubscriptionAvailable,
}

/// A property value.
#[derive(Debug, Clone)]
pub enum PropertyValue {
    Long(u32),
    Short(u16),
    Byte(u8),
    Var(u32),
    String(String),
    Pair(String, String),
}

/// A property value with its strings as characters.
pub enum PropertyValueView {
    Long(u32),
    Short(u16),
    Byte(u8),
    Var(u32),
    Str(Seq<char>),
    Pair(Seq<char>, Seq<char>),
}

/// One property: its identifier and its value.
#[derive(Debug, Clone)]
pub struct PropertyItem(pub Property, pub PropertyValue);

impl PropertyValue {
    pub open spec fn view(&self) -> PropertyValueView {
        match self {
            PropertyValue::Long(v) => PropertyValueView::Long(*v),
            PropertyValue::Short(v) => PropertyValueView::Short(*v),
            PropertyValue::Byte(v) => PropertyValueView::Byte(*v),
            PropertyValue::Var(v) => PropertyValueView::Var(*v),
            PropertyValue::String(s) => PropertyValueView::Str(s@),
            PropertyValue::Pair(k, v) => PropertyValueView::Pair(k@, v@),
        }
    }
}

impl PropertyItem {
    pub open spec fn view(&self) -> (Property, PropertyValueView) {
        (self.0, self.1.view())
    }
}

/// The items of a property list as identifiers and value views.
pub open spec fn items_view(v: Seq<PropertyItem>) -> Seq<(Property, PropertyValueView)> {
    v.map_values(|i: PropertyItem| i.view())
}

impl Property {
    pub open spec fn spec_code(self) -> u8 {
        match self {
            Property::PayloadFormatIndicator => 1,
            Property::MessageExpiryInterval => 2,
            Property::ContentType => 3,
            Property::ResponseTopic => 8,
            Property::CorrelationData => 9,
            Property::SubscriptionIdentifier => 11,
            Property::SessionExpiryInterval => 17,
            Property::AssignedClientIdentifier => 18,
            Property::ServerKeepAlive => 19,
            Property::AuthenticationMethod => 21,
            Property::AuthenticationData => 22,
            Property::RequestProblemInformation => 23,
            Property::WillDelayInterval => 24,
            Property::RequestResponseInformation => 25,
            Property::ResponseInformation => 26,
            Property::ServerReference => 28,
            Property::ReasonString => 31,
            Property::ReceiveMaximum => 33,
            Property::TopicAliasMaximum => 34,
            Property::TopicAlias => 35,
            Property::MaximumQos => 36,
            Property::RetainAvailable => 37,
            Property::UserProperty => 38,
            Property::MaximumPacketSize => 39,
            Property::WildcardSubscriptionAvailable => 40,
            Property::SubscriptionIdentifierAvailable => 41,
            Property::SharedSubscriptionAvailable => 42,
        }
    }

    pub open spec fn spec_from_code(c: u8) -> Option<Property> {
        if c == 1 {
            Some(Property::PayloadFormatIndicator)
        } else if c == 2 {
            Some(Property::MessageExpiryInterval)
        } else if c == 3 {
            Some(Property::ContentType)
        } else if c == 8 {
            Some(Property::ResponseTopic)
        } else if c == 9 {
            Some(Property::CorrelationData)
        } else if c == 11 {
            Some(Property::SubscriptionIdentifier)
        } else if c == 17 {
            Some(Property::SessionExpiryInterval)
        } else if c == 18 {
            Some(Property::AssignedClientIdentifier)
        } else if c == 19 {
            Some(Property::ServerKeepAlive)
        } else if c == 21 {
            Some(Property::AuthenticationMethod)
        } else if c == 22 {
            Some(Property::AuthenticationData)
        } else if c == 23 {
            Some(Property::RequestProblemInformation)
        } else if c == 24 {
            Some(Property::WillDelayInterval)
        } else if c == 25 {
            Some(Property::RequestResponseInformation)
        } else if c == 26 {
            Some(Property::ResponseInformation)
        } else if c == 28 {
            Some(Property::ServerReference)
        } else if c == 31 {
            Some(Property::ReasonString)
        } else if c == 33 {
            Some(Property::ReceiveMaximum)
        } else if c == 34 {
            Some(Property::TopicAliasMaximum)
        } else if c == 35 {
            Some(Property::TopicAlias)
        } else if c == 36 {
            Some(Property::MaximumQos)
        } else if c == 37 {
            Some(Property::RetainAvailable)
        } else if c == 38 {
            Some(Property::UserProperty)
        } else if c == 39 {
            Some(Property::MaximumPacketSize)
        } else if c == 40 {
            Some(Property::WildcardSubscriptionAvailable)
        } else if c == 41 {
            Some(Property::SubscriptionIdentifierAvailable)
        } else if c == 42 {
            Some(Property::SharedSubscriptionAvailable)
        } else {
            None
        }
    }

    pub open spec fn spec_kind(self) -> ValueKind {
        match self {
            Property::PayloadFormatIndicator => ValueKind::Byte,
            Property::MessageExpiryInterval => ValueKind::Long,
            Property::ContentType => ValueKind::Str,
            Property::ResponseTopic => ValueKind::Str,
            Property::CorrelationData => ValueKind::Str,
            Property::SubscriptionIdentifier => ValueKind::Var,
            Property::SessionExpiryInterval => ValueKind::Long,
            Property::AssignedClientIdentifier => ValueKind::Str,
            Property::ServerKeepAlive => ValueKind::Short,
            Property::AuthenticationMethod => ValueKind::Str,
            Property::AuthenticationData => ValueKind::Str,
            Property::RequestProblemInformation => ValueKind::Byte,
            Property::WillDelayInterval => ValueKind::Long,
            Property::RequestResponseInformation => ValueKind::Byte,
            Property::ResponseInformation => ValueKind::Str,
            Property::ServerReference => ValueKind::Str,
            Property::ReasonString => ValueKind::Str,
            Property::ReceiveMaximum => ValueKind::Short,
            Property::TopicAliasMaximum => ValueKind::Short,
            Property::TopicAlias => ValueKind::Short,
            Property::MaximumQos => ValueKind::Byte,
            Property::RetainAvailable => ValueKind::Byte,
            Property::UserProperty => ValueKind::Pair,
            Property::MaximumPacketSize => ValueKind::Long,
            Property::WildcardSubscriptionAvailable => ValueKind::Byte,
            Property::SubscriptionIdentifierAvailable => ValueKind::Byte,
            Property::SharedSubscriptionAvailable => ValueKind::Byte,
        }
    }

    /// Whether this property may appear in the packets of `scope`.
    pub open spec fn spec_admits(self, scope: PropertyScope) -> bool {
        match scope {
            PropertyScope::Connect => {
                self == Property::SessionExpiryInterval
                || self == Property::ReceiveMaximum
                || self == Property::MaximumPacketSize
                || self == Property::TopicAliasMaximum
                || self == Property::RequestResponseInformation
                || self == Property::RequestProblemInformation
                || self == Property::UserProperty
                || self == Property::AuthenticationMethod
                || self == Property::AuthenticationData
            },
            PropertyScope::Connack => {
                self == Property::SessionExpiryInterval
                || self == Property::AssignedClientIdentifier
                || self == Property::ServerKeepAlive
                || self == Property::AuthenticationMethod
                || self == Property::AuthenticationData
                || self == Property::ResponseInformation
                || self == Property::ServerReference
                || self == Property::ReasonString
                || self == Property::ReceiveMaximum
                || self == Property::TopicAliasMaximum
                || self == Property::MaximumQos
                || self == Property::RetainAvailable
                || self == Property::UserProperty
                || self == Property::MaximumPacketSize
                || self == Property::WildcardSubscriptionAvailable
                || self == Property::SubscriptionIdentifierAvailable
                || self == Property::SharedSubscriptionAvailable
            },
            PropertyScope::Publish => {
                self == Property::PayloadFormatIndicator
                || self == Property::MessageExpiryInterval
                || self == Property::ContentType
                || self == Property::ResponseTopic
                || self == Property::CorrelationData
                || self == Property::SubscriptionIdentifier
                || self == Property::TopicAlias
                || self == Property::UserProperty
            },
            PropertyScope::PubAndSub => self == Property::ReasonString || self == Property::UserProperty,
            PropertyScope::Subscribe => self == Property::SubscriptionIdentifier || self == Property::UserProperty,
            PropertyScope::Unsubscribe => self == Property::UserProperty,
            PropertyScope::Disconnect => {
                self == Property::SessionExpiryInterval
                || self == Property::ServerReference
                || self == Property::ReasonString
                || self == Property::UserProperty
            },
            PropertyScope::Auth => {
                self == Property::AuthenticationMethod
                || self == Property::AuthenticationData
                || self == Property::ReasonString
                || self == Property::UserProperty
            },
            PropertyScope::Will => {
                self == Property::PayloadFormatIndicator
                || self == Property::MessageExpiryInterval
                || self == Property::ContentType
                || self == Property::ResponseTopic
                || self == Property::CorrelationData
                || self == Property::WillDelayInterval
                || self == Property::UserProperty
            },
        }
    }

    pub fn code(&self) -> (r: u8)
        ensures
            r == self.spec_code(),
    {
        match self {
            Property::PayloadFormatIndicator => 1,
            Property::MessageExpiryInterval => 2,
            Property::ContentType => 3,
            Property::ResponseTopic => 8,
            Property::CorrelationData => 9,
            Property::SubscriptionIdentifier => 11,
            Property::SessionExpiryInterval => 17,
            Property::AssignedClientIdentifier => 18,
            Property::ServerKeepAlive => 19,
            Property::AuthenticationMethod => 21,
            Property::AuthenticationData => 22,
            Property::RequestProblemInformation => 23,
            Property::WillDelayInterval => 24,
            Property::RequestResponseInformation => 25,
            Property::ResponseInformation => 26,
            Property::ServerReference => 28,
            Property::ReasonString => 31,
            Property::ReceiveMaximum => 33,
            Property::TopicAliasMaximum => 34,
            Property::TopicAlias => 35,
            Property::MaximumQos => 36,
            Property::RetainAvailable => 37,
            Property::UserProperty => 38,
            Property::MaximumPacketSize => 39,
            Property::WildcardSubscriptionAvailable => 40,
            Property::SubscriptionIdentifierAvailable => 41,
            Property::SharedSubscriptionAvailable => 42,
        }
    }

    pub fn from_code(c: u8) -> (r: Option<Property>)
        ensures
            r == Self::spec_from_code(c),
    {
        if c == 1 {
            Some(Property::PayloadFormatIndicator)
        } else if c == 2 {
            Some(Property::MessageExpiryInterval)
        } else if c == 3 {
            Some(Property::ContentType)
        } else if c == 8 {
            Some(Property::ResponseTopic)
        } else if c == 9 {
            Some(Property::CorrelationData)
        } else if c == 11 {
            Some(Property::SubscriptionIdentifier)
        } else if c == 17 {
            Some(Property::SessionExpiryInterval)
        } else if c == 18 {
            Some(Property::AssignedClientIdentifier)
        } else if c == 19 {
            Some(Property::ServerKeepAlive)
        } else if c == 21 {
            Some(Property::AuthenticationMethod)
        } else if c == 22 {
            Some(Property::AuthenticationData)
        } else if c == 23 {
            Some(Property::RequestProblemInformation)
        } else if c == 24 {
            Some(Property::WillDelayInterval)
        } else if c == 25 {
            Some(Property::RequestResponseInformation)
        } else if c == 26 {
            Some(Property::ResponseInformation)
        } else if c == 28 {
            Some(Property::ServerReference)
        } else if c == 31 {
            Some(Property::ReasonString)
        } else if c == 33 {
            Some(Property::ReceiveMaximum)
        } else if c == 34 {
            Some(Property::TopicAliasMaximum)
        } else if c == 35 {
            Some(Property::TopicAlias)
        } else if c == 36 {
            Some(Property::MaximumQos)
        } else if c == 37 {
            Some(Property::RetainAvailable)
        } else if c == 38 {
            Some(Property::UserProperty)
        } else if c == 39 {
            Some(Property::MaximumPacketSize)
        } else if c == 40 {
            Some(Property::WildcardSubscriptionAvailable)
        } else if c == 41 {
            Some(Property::SubscriptionIdentifierAvailable)
        } else if c == 42 {
            Some(Property::SharedSubscriptionAvailable)
        } else {
            None
        }
    }

    pub fn kind(&self) -> (r: ValueKind)
        ensures
            r == self.spec_kind(),
    {
        match self {
            Property::PayloadFormatIndicator => ValueKind::Byte,
            Property::MessageExpiryInterval => ValueKind::Long,
            Property::ContentType => ValueKind::Str,
            Property::ResponseTopic => ValueKind::Str,
            Property::CorrelationData => ValueKind::Str,
            Property::SubscriptionIdentifier => ValueKind::Var,
            Property::SessionExpiryInterval => ValueKind::Long,
            Property::AssignedClientIdentifier => ValueKind::Str,
            Property::ServerKeepAlive => ValueKind::Short,
            Property::AuthenticationMethod => ValueKind::Str,
            Property::AuthenticationData => ValueKind::Str,
            Property::RequestProblemInformation => ValueKind::Byte,
            Property::WillDelayInterval => ValueKind::Long,
            Property::RequestResponseInformation => ValueKind::Byte,
            Property::ResponseInformation => ValueKind::Str,
            Property::ServerReference => ValueKind::Str,
            Property::ReasonString => ValueKind::Str,
            Property::ReceiveMaximum => ValueKind::Short,
            Property::TopicAliasMaximum => ValueKind::Short,
            Property::TopicAlias => ValueKind::Short,
            Property::MaximumQos => ValueKind::Byte,
            Property::RetainAvailable => ValueKind::Byte,
            Property::UserProperty => ValueKind::Pair,
            Property::MaximumPacketSize => ValueKind::Long,
            Property::WildcardSubscriptionAvailable => ValueKind::Byte,
            Property::SubscriptionIdentifierAvailable => ValueKind::Byte,
            Property::SharedSubscriptionAvailable => ValueKind::Byte,
        }
    }

    /// Decodes the value of this property from the start of `data`.
    pub fn property_handle<'a>(&self, data: &'a [u8]) -> (r: Option<(PropertyItem, &'a [u8])>)
        ensures
            r matches Some((item, rest)) ==> item.0 == *self && spec_parse_value(self.spec_kind(), data@)
                == Some((item.1@, rest@)),
            r is None ==> spec_parse_value(self.spec_kind(), data@) is None,
    {
        match unpack_value(self.kind(), data) {
            Some((v, rest)) => Some((PropertyItem(*self, v), rest)),
            None => None,
        }
    }

    /// The name of this property.
    pub open spec fn spec_name(self) -> Seq<char> {
        match self {
            Property::PayloadFormatIndicator => "payload_format_indicator"@,
            Property::MessageExpiryInterval => "message_expiry_interval"@,
            Property::ContentType => "content_type"@,
            Property::ResponseTopic => "response_topic"@,
            Property::CorrelationData => "correlation_data"@,
            Property::SubscriptionIdentifier => "subscription_identifier"@,
            Property::SessionExpiryInterval => "session_expiry_interval"@,
            Property::AssignedClientIdentifier => "assigned_client_identifier"@,
            Property::ServerKeepAlive => "server_keep_alive"@,
            Property::AuthenticationMethod => "authentication_method"@,
            Property::AuthenticationData => "authentication_data"@,
            Property::RequestProblemInformation => "request_problem_information"@,
            Property::WillDelayInterval => "will_delay_interval"@,
            Property::RequestResponseInformation => "request_response_information"@,
            Property::ResponseInformation => "response_information"@,
            Property::ServerReference => "server_reference"@,
            Property::ReasonString => "reason_string"@,
            Property::ReceiveMaximum => "receive_maximum"@,
            Property::TopicAliasMaximum => "topic_alias_maximum"@,
            Property::TopicAlias => "topic_alias"@,
            Property::MaximumQos => "maximum_qos"@,
            Property::RetainAvailable => "retain_available"@,
            Property::UserProperty => "user_property"@,
            Property::MaximumPacketSize => "maximum_packet_size"@,
            Property::WildcardSubscriptionAvailable => "wildcard_subscription_available"@,
            Property::SubscriptionIdentifierAvailable => "subscription_identifier_available"@,
            Property::SharedSubscriptionAvailable => "shared_subscription_available"@,
        }
    }

    pub fn as_str(&self) -> (r: &'static str)
        ensures
            r@ == self.spec_name(),
    {
        match self {
            Property::PayloadFormatIndicator => "payload_format_indicator",
            Property::MessageExpiryInterval => "message_expiry_interval",
            Property::ContentType => "content_type",
            Property::ResponseTopic => "response_topic",
            Property::CorrelationData => "correlation_data",
            Property::SubscriptionIdentifier => "subscription_identifier",
            Property::SessionExpiryInterval => "session_expiry_interval",
            Property::AssignedClientIdentifier => "assigned_client_identifier",
            Property::ServerKeepAlive => "server_keep_alive",
            Property::AuthenticationMethod => "authentication_method",
            Property::AuthenticationData => "authentication_data",
            Property::RequestProblemInformation => "request_problem_information",
            Property::WillDelayInterval => "will_delay_interval",
            Property::RequestResponseInformation => "request_response_information",
            Property::ResponseInformation => "response_information",
            Property::ServerReference => "server_reference",
            Property::ReasonString => "reason_string",
            Property::ReceiveMaximum => "receive_maximum",
            Property::TopicAliasMaximum => "topic_alias_maximum",
            Property::TopicAlias => "topic_alias",
            Property::MaximumQos => "maximum_qos",
            Property::RetainAvailable => "retain_available",
            Property::UserProperty => "user_property",
            Property::MaximumPacketSize => "maximum_packet_size",
            Property::WildcardSubscriptionAvailable => "wildcard_subscription_available",
            Property::SubscriptionIdentifierAvailable => "subscription_identifier_available",
            Property::SharedSubscriptionAvailable => "shared_subscription_available",
        }
    }

    pub fn admits(&self, scope: PropertyScope) -> (r: bool)
        ensures
            r == self.spec_admits(scope),
    {
        match scope {
            PropertyScope::Connect => self.is_connect_property(),
            PropertyScope::Connack => self.is_connack_property(),
            PropertyScope::Publish => self.is_publish_property(),
            PropertyScope::PubAndSub => self.is_pub_and_sub_property(),
            PropertyScope::Subscribe => self.is_subscribe_property(),
            PropertyScope::Unsubscribe => self.is_unsubscribe_property(),
            PropertyScope::Disconnect => self.is_disconnect_property(),
            PropertyScope::Auth => self.is_auth_property(),
            PropertyScope::Will => self.is_will_properties(),
        }
    }

    /// Whether this property may appear in CONNECT.
    pub fn is_connect_property(&self) -> (r: bool)
        ensures
            r == self.spec_admits(PropertyScope::Connect),
    {
        matches!(
            self,
            Property::SessionExpiryInterval
                | Property::ReceiveMaximum
                | Property::MaximumPacketSize
                | Property::TopicAliasMaximum
                | Property::RequestResponseInformation
                | Property::RequestProblemInformation
                | Property::UserProperty
                | Property::AuthenticationMethod
                | Property::AuthenticationData
        )
    }

    /// Whether this property may appear in CONNACK.
    pub fn is_connack_property(&self) -> (r: bool)
        ensures
            r == self.spec_admits(PropertyScope::Connack),
    {
        matches!(
            self,
            Property::SessionExpiryInterval
                | Property::AssignedClientIdentifier
                | Property::ServerKeepAlive
                | Property::AuthenticationMethod
                | Property::AuthenticationData
                | Property::ResponseInformation
                | Property::ServerReference
                | Property::ReasonString
                | Property::ReceiveMaximum
                | Property::TopicAliasMaximum
                | Property::MaximumQos
                | Property::RetainAvailable
                | Property::UserProperty
                | Property::MaximumPacketSize
                | Property::WildcardSubscriptionAvailable
                | Property::SubscriptionIdentifierAvailable
                | Property::SharedSubscriptionAvailable
        )
    }

    /// Whether this property may appear in PUBLISH.
    pub fn is_publish_property(&self) -> (r: bool)
        ensures
            r == self.spec_admits(PropertyScope::Publish),
    {
        matches!(
            self,
            Property::PayloadFormatIndicator
                | Property::MessageExpiryInterval
                | Property::ContentType
                | Property::ResponseTopic
                | Property::CorrelationData
                | Property::SubscriptionIdentifier
                | Property::TopicAlias
                | Property::UserProperty
        )
    }

    /// Whether this property may appear in PUBACK, PUBREC, PUBREL, PUBCOMP, SUBACK and UNSUBACK.
    pub fn is_pub_and_sub_property(&self) -> (r: bool)
        ensures
            r == self.spec_admits(PropertyScope::PubAndSub),
    {
        matches!(self, Property::ReasonString | Property::UserProperty)
    }

    /// Whether this property may appear in SUBSCRIBE.
    pub fn is_subscribe_property(&self) -> (r: bool)
        ensures
            r == self.spec_admits(PropertyScope::Subscribe),
    {
        matches!(self, Property::SubscriptionIdentifier | Property::UserProperty)
    }

    /// Whether this property may appear in UNSUBSCRIBE.
    pub fn is_unsubscribe_property(&self) -> (r: bool)
        ensures
            r == self.spec_admits(PropertyScope::Unsubscribe),
    {
        matches!(self, Property::UserProperty)
    }

    /// Whether this property may appear in DISCONNECT.
    pub fn is_disconnect_property(&self) -> (r: bool)
        ensures
            r == self.spec_admits(PropertyScope::Disconnect),
    {
        matches!(
            self,
            Property::SessionExpiryInterval
                | Property::ServerReference
                | Property::ReasonString
                | Property::UserProperty
        )
    }

    /// Whether this property may appear in AUTH.
    pub fn is_auth_property(&self) -> (r: bool)
        ensures
            r == self.spec_admits(PropertyScope::Auth),
    {
        matches!(
            self,
            Property::AuthenticationMethod
                | Property::AuthenticationData
                | Property::ReasonString
                | Property::UserProperty
        )
    }

    /// Whether this property may appear in the will of a CONNECT.
    pub fn is_will_properties(&self) -> (r: bool)
        ensures
            r == self.spec_admits(PropertyScope::Will),
    {
        matches!(
            self,
            Property::PayloadFormatIndicator
                | Property::MessageExpiryInterval
                | Property::ContentType
                | Property::ResponseTopic
                | Property::CorrelationData
                | Property::WillDelayInterval
                | Property::UserProperty
        )
    }
}

/// The wire form of a property value.
pub open spec fn spec_value(v: PropertyValueView) -> Seq<u8> {
    match v {
        PropertyValueView::Long(x) => spec_long(x as nat),
        PropertyValueView::Short(x) => spec_short(x as nat),
        PropertyValueView::Byte(b) => seq![b],
        PropertyValueView::Var(x) => spec_vli(x as nat),
        PropertyValueView::Str(t) => spec_str(t),
        PropertyValueView::Pair(k, t) => spec_str(k) + spec_str(t),
    }
}

/// Whether a value has the kind its identifier calls for and fits its wire form.
pub open spec fn item_wf(i: (Property, PropertyValueView)) -> bool {
    match i.1 {
        PropertyValueView::Long(_) => i.0.spec_kind() == ValueKind::Long,
        PropertyValueView::Short(_) => i.0.spec_kind() == ValueKind::Short,
        PropertyValueView::Byte(_) => i.0.spec_kind() == ValueKind::Byte,
        PropertyValueView::Var(x) => i.0.spec_kind() == ValueKind::Var && x <= MAX_REMAINING_LENGTH,
        PropertyValueView::Str(t) => i.0.spec_kind() == ValueKind::Str && str_fits(t),
        PropertyValueView::Pair(k, t) => i.0.spec_kind() == ValueKind::Pair && str_fits(k) && str_fits(t),
    }
}

/// Whether every item is well formed and admitted in `scope`.
pub open spec fn items_wf(items: Seq<(Property, PropertyValueView)>, scope: PropertyScope) -> bool {
    forall|k: int| 0 <= k < items.len() ==> #[trigger] item_wf(items[k]) && items[k].0.spec_admits(scope)
}

/// Whether every item is well formed.
pub open spec fn items_fit(items: Seq<(Property, PropertyValueView)>) -> bool {
    forall|k: int| 0 <= k < items.len() ==> #[trigger] item_wf(items[k])
}

/// The items admitted in `scope`, each as its identifier byte and value, in order.
pub open spec fn spec_items(items: Seq<(Property, PropertyValueView)>, scope: PropertyScope) -> Seq<u8>
    decreases items.len(),
{
    if items.len() == 0 {
        Seq::empty()
    } else {
        (if items[0].0.spec_admits(scope) {
            seq![items[0].0.spec_code()] + spec_value(items[0].1)
        } else {
            Seq::empty()
        }) + spec_items(items.drop_first(), scope)
    }
}

/// A property block: the byte length of the admitted items, then the items.
#[verifier::opaque]
pub open spec fn spec_props(items: Seq<(Property, PropertyValueView)>, scope: PropertyScope) -> Seq<u8> {
    spec_vli(spec_items(items, scope).len()) + spec_items(items, scope)
}

pub proof fn lemma_props_len(items: Seq<(Property, PropertyValueView)>, scope: PropertyScope)
    ensures
        spec_props(items, scope).len() >= spec_items(items, scope).len(),
{
    reveal(spec_props);
}

/// An empty property block is the single byte zero.
pub proof fn lemma_empty_props(scope: PropertyScope)
    ensures
        spec_props(Seq::empty(), scope) == seq![0u8],
{
    reveal(spec_props);
    assert(spec_items(Seq::<(Property, PropertyValueView)>::empty(), scope) =~= Seq::<u8>::empty());
    assert(seq![0u8] + Seq::<u8>::empty() =~= seq![0u8]);
}

impl PropertyValue {
    /// A copy of this value.
    pub fn duplicate(&self) -> (r: PropertyValue)
        ensures
            r@ == self@,
    {
        match self {
            PropertyValue::Long(x) => PropertyValue::Long(*x),
            PropertyValue::Short(x) => PropertyValue::Short(*x),
            PropertyValue::Byte(x) => PropertyValue::Byte(*x),
            PropertyValue::Var(x) => PropertyValue::Var(*x),
            PropertyValue::String(t) => PropertyValue::String(t.clone()),
            PropertyValue::Pair(k, t) => PropertyValue::Pair(k.clone(), t.clone()),
        }
    }
}

/// A copy of a property list.
pub fn copy_items(v: &Vec<PropertyItem>) -> (r: Vec<PropertyItem>)
    ensures
        items_view(r@) == items_view(v@),
{
    let mut out: Vec<PropertyItem> = Vec::new();
    let mut i: usize = 0;
    while i < v.len()
        invariant
            i <= v@.len(),
            out@.len() == i,
            items_view(out@) == items_view(v@).subrange(0, i as int),
        decreases v@.len() - i,
    {
        let ghost old_out = out@;
        out.push(PropertyItem(v[i].0, v[i].1.duplicate()));
        proof {
            assert forall|k: int| 0 <= k < i + 1 implies #[trigger] items_view(out@)[k] == items_view(v@).subrange(0, i + 1)[k] by {
                if k < i {
                    assert(out@[k] == old_out[k]);
                    assert(items_view(old_out)[k] == items_view(v@).subrange(0, i as int)[k]);
                }
            }
            assert(items_view(out@) =~= items_view(v@).subrange(0, i + 1));
        }
        i = i + 1;
    }
    proof {
        assert(items_view(v@).subrange(0, i as int) =~= items_view(v@));
    }
    out
}

pub open spec fn spec_parse_value(kind: ValueKind, s: Seq<u8>) -> Option<(PropertyValueView, Seq<u8>)> {
    match kind {
        ValueKind::Byte => match spec_parse_byte(s) {
            Some((b, r)) => Some((PropertyValueView::Byte(b), r)),
            None => None,
        },
        ValueKind::Short => match spec_parse_short(s) {
            Some((x, r)) => Some((PropertyValueView::Short(x), r)),
            None => None,
        },
        ValueKind::Long => match spec_parse_long(s) {
            Some((x, r)) => Some((PropertyValueView::Long(x), r)),
            None => None,
        },
        ValueKind::Var => match spec_parse_vli(s) {
            Some((x, r)) => if x <= MAX_REMAINING_LENGTH {
                Some((PropertyValueView::Var(x as u32), r))
            } else {
                None
            },
            None => None,
        },
        ValueKind::Str => match spec_parse_str(s) {
            Some((t, r)) => Some((PropertyValueView::Str(t), r)),
            None => None,
        },
        ValueKind::Pair => match spec_parse_str(s) {
            Some((k, r1)) => match spec_parse_str(r1) {
                Some((t, r2)) => Some((PropertyValueView::Pair(k, t), r2)),
                None => None,
            },
            None => None,
        },
    }
}

/// The items of a property block's content. Items not admitted in `scope` are parsed and dropped;
/// an unknown identifier ends the list, the rest of the block being skipped.
pub open spec fn spec_parse_items(s: Seq<u8>, scope: PropertyScope, fuel: nat) -> Option<
    Seq<(Property, PropertyValueView)>,
>
    decreases fuel,
{
    if s.len() == 0 {
        Some(Seq::empty())
    } else if fuel == 0 {
        None
    } else {
        match Property::spec_from_code(s[0]) {
            None => Some(Seq::empty()),
            Some(p) => match spec_parse_value(p.spec_kind(), s.subrange(1, s.len() as int)) {
                None => None,
                Some((v, rest)) => match spec_parse_items(rest, scope, (fuel - 1) as nat) {
                    None => None,
                    Some(tail) => Some(
                        if p.spec_admits(scope) {
                            seq![(p, v)] + tail
                        } else {
                            tail
                        },
                    ),
                },
            },
        }
    }
}

/// A property block: its length, then that many bytes of items.
#[verifier::opaque]
pub open spec fn spec_parse_props(s: Seq<u8>, scope: PropertyScope) -> Option<
    (Seq<(Property, PropertyValueView)>, Seq<u8>),
> {
    match spec_parse_vli(s) {
        Some((n, r)) => if r.len() >= n {
            match spec_parse_items(r.subrange(0, n as int), scope, n) {
                Some(items) => Some((items, r.subrange(n as int, r.len() as int))),
                None => None,
            }
        } else {
            None
        },
        None => None,
    }
}

pub proof fn lemma_value_round_trip(i: (Property, PropertyValueView), rest: Seq<u8>)
    requires
        item_wf(i),
    ensures
        spec_parse_value(i.0.spec_kind(), spec_value(i.1) + rest) == Some((i.1, rest)),
        spec_value(i.1).len() >= 1,
{
    match i.1 {
        PropertyValueView::Long(x) => lemma_long_round_trip(x, rest),
        PropertyValueView::Short(x) => lemma_short_round_trip(x, rest),
        PropertyValueView::Byte(b) => lemma_byte_round_trip(b, rest),
        PropertyValueView::Var(x) => {
            lemma_vli_round_trip(x as nat, rest);
            crate::tools::pack_tool::lemma_vli_len(x as nat);
        },
        PropertyValueView::Str(t) => {
            lemma_str_round_trip(t, rest);
            crate::tools::pack_tool::lemma_str_len(t);
        },
        PropertyValueView::Pair(k, t) => {
            crate::tools::pack_tool::lemma_str_len(k);
            lemma_str_round_trip(t, rest);
            lemma_str_round_trip(k, spec_str(t) + rest);
            assert(spec_str(k) + spec_str(t) + rest =~= spec_str(k) + (spec_str(t) + rest));
        },
    }
}

#[verifier::rlimit(50)]
proof fn lemma_items_round_trip(
    items: Seq<(Property, PropertyValueView)>,
    scope: PropertyScope,
    fuel: nat,
)
    requires
        items_wf(items, scope),
        fuel >= spec_items(items, scope).len(),
    ensures
        spec_parse_items(spec_items(items, scope), scope, fuel) == Some(items),
    decreases items.len(),
{
    if items.len() > 0 {
        let tail = items.drop_first();
        let head = items[0];
        assert(items_wf(tail, scope)) by {
            assert forall|k: int| 0 <= k < tail.len() implies #[trigger] item_wf(tail[k])
                && tail[k].0.spec_admits(scope) by {
                assert(tail[k] == items[k + 1]);
            }
        }
        assert(item_wf(items[0]));
        assert(items[0].0.spec_admits(scope));
        let tb = spec_items(tail, scope);
        lemma_value_round_trip(head, tb);
        lemma_property_code_round_trip(head.0);
        let s = spec_items(items, scope);
        assert(s =~= seq![head.0.spec_code()] + (spec_value(head.1) + tb));
        let after = s.subrange(1, s.len() as int);
        assert(after =~= spec_value(head.1) + tb);
        assert(s[0] == head.0.spec_code());
        assert(Property::spec_from_code(s[0]) == Some(head.0));
        assert(spec_parse_value(head.0.spec_kind(), after) == Some((head.1, tb)));
        lemma_items_round_trip(tail, scope, (fuel - 1) as nat);
        assert(spec_parse_items(tb, scope, (fuel - 1) as nat) == Some(tail));
        assert(seq![head] + tail =~= items);
    }
}

/// Decoding an encoded property block gives back its items when each is admitted in `scope`.
pub proof fn lemma_props_round_trip(
    items: Seq<(Property, PropertyValueView)>,
    scope: PropertyScope,
    rest: Seq<u8>,
)
    requires
        items_wf(items, scope),
        spec_items(items, scope).len() <= MAX_REMAINING_LENGTH,
    ensures
        spec_parse_props(spec_props(items, scope) + rest, scope) == Some((items, rest)),
{
    reveal(spec_props);
    reveal(spec_parse_props);
    let c = spec_items(items, scope);
    lemma_vli_round_trip(c.len(), c + rest);
    assert(spec_props(items, scope) + rest =~= spec_vli(c.len()) + (c + rest));
    assert((c + rest).subrange(0, c.len() as int) =~= c);
    assert((c + rest).subrange(c.len() as int, (c + rest).len() as int) =~= rest);
    lemma_items_round_trip(items, scope, c.len());
}

/// Encodes one property value.
pub fn pack_value(v: &PropertyValue) -> (r: Vec<u8>)
    requires
        match v@ {
            PropertyValueView::Var(x) => x <= MAX_REMAINING_LENGTH,
            PropertyValueView::Str(t) => str_fits(t),
            PropertyValueView::Pair(k, t) => str_fits(k) && str_fits(t),
            _ => true,
        },
    ensures
        r@ == spec_value(v@),
{
    match v {
        PropertyValue::Long(x) => pack_long_int(*x),
        PropertyValue::Short(x) => pack_short_int(*x),
        PropertyValue::Byte(b) => {
            let mut r: Vec<u8> = Vec::new();
            r.push(*b);
            proof {
                assert(r@ =~= seq![*b]);
            }
            r
        },
        PropertyValue::Var(x) => pack_remaining_length(*x as usize),
        PropertyValue::String(t) => pack_string(t),
        PropertyValue::Pair(k, t) => {
            let mut r = pack_string(k);
            let mut b = pack_string(t);
            r.append(&mut b);
            r
        },
    }
}

fn pack_items_from(items: &Vec<PropertyItem>, i: usize, scope: PropertyScope) -> (r: Vec<u8>)
    requires
        i <= items@.len(),
        items_fit(items_view(items@)),
    ensures
        r@ == spec_items(items_view(items@).subrange(i as int, items@.len() as int), scope),
    decreases items@.len() - i,
{
    let ghost s = items_view(items@).subrange(i as int, items@.len() as int);
    if i == items.len() {
        proof {
            assert(s.len() == 0);
        }
        return Vec::new();
    }
    let mut tail = pack_items_from(items, i + 1, scope);
    proof {
        assert(s.drop_first() =~= items_view(items@).subrange(i + 1, items@.len() as int));
        assert(s[0] == items@[i as int].view());
        assert(item_wf(items_view(items@)[i as int]));
    }
    let item = &items[i];
    if item.0.admits(scope) {
        let mut r: Vec<u8> = Vec::new();
        r.push(item.0.code());
        let mut v = pack_value(&item.1);
        r.append(&mut v);
        r.append(&mut tail);
        proof {
            assert(r@ =~= (seq![s[0].0.spec_code()] + spec_value(s[0].1)) + spec_items(s.drop_first(), scope));
        }
        r
    } else {
        proof {
            assert(tail@ =~= Seq::<u8>::empty() + spec_items(s.drop_first(), scope));
        }
        tail
    }
}

/// Encodes the items of `items` admitted in `scope` as a property block.
pub fn pack_properties(items: &Vec<PropertyItem>, scope: PropertyScope) -> (r: Vec<u8>)
    requires
        items_fit(items_view(items@)),
        spec_items(items_view(items@), scope).len() <= MAX_REMAINING_LENGTH,
    ensures
        r@ == spec_props(items_view(items@), scope),
{
    reveal(spec_props);
    let mut content = pack_items_from(items, 0, scope);
    proof {
        assert(items_view(items@).subrange(0, items@.len() as int) =~= items_view(items@));
    }
    let mut r = pack_remaining_length(content.len());
    r.append(&mut content);
    r
}

/// A value parse result with the value as its view.
pub open spec fn parsed_value(r: Option<(PropertyValue, &[u8])>) -> Option<(PropertyValueView, Seq<u8>)> {
    match r {
        Some((v, rest)) => Some((v@, rest@)),
        None => None,
    }
}

/// Decodes one value of the given kind.
pub fn unpack_value(kind: ValueKind, data: &[u8]) -> (r: Option<(PropertyValue, &[u8])>)
    ensures
        parsed_value(r) == spec_parse_value(kind, data@),
{
    match kind {
        ValueKind::Byte => match parse_byte(data) {
            Some((b, r)) => Some((PropertyValue::Byte(b), r)),
            None => None,
        },
        ValueKind::Short => match parse_short_int(data) {
            Some((x, r)) => Some((PropertyValue::Short(x), r)),
            None => None,
        },
        ValueKind::Long => match parse_long_int(data) {
            Some((x, r)) => Some((PropertyValue::Long(x), r)),
            None => None,
        },
        ValueKind::Var => match get_remaining_length(data) {
            Some((x, r)) => Some((PropertyValue::Var(x as u32), r)),
            None => None,
        },
        ValueKind::Str => match parse_string(data) {
            Some((t, r)) => Some((PropertyValue::String(t), r)),
            None => None,
        },
        ValueKind::Pair => match parse_string(data) {
            Some((k, r1)) => match parse_string(r1) {
                Some((t, r2)) => Some((PropertyValue::Pair(k, t), r2)),
                None => None,
            },
            None => None,
        },
    }
}

fn unpack_items(data: &[u8], scope: PropertyScope, fuel: usize) -> (r: Option<Vec<PropertyItem>>)
    ensures
        r matches Some(v) ==> spec_parse_items(data@, scope, fuel as nat) == Some(items_view(v@)),
        r is None ==> spec_parse_items(data@, scope, fuel as nat) is None,
    decreases fuel,
{
    if data.len() == 0 {
        proof {
            assert(items_view(Seq::<PropertyItem>::empty()) =~= Seq::empty());
        }
        return Some(Vec::new());
    }
    if fuel == 0 {
        return None;
    }
    match Property::from_code(data[0]) {
        None => {
            proof {
                assert(items_view(Seq::<PropertyItem>::empty()) =~= Seq::empty());
            }
            Some(Vec::new())
        },
        Some(p) => {
            let after = slice_subrange(data, 1, data.len());
            match unpack_value(p.kind(), after) {
                None => None,
                Some((v, rest)) => match unpack_items(rest, scope, fuel - 1) {
                    None => None,
                    Some(mut tail) => {
                        if p.admits(scope) {
                            let ghost old_tail = tail@;
                            let item = PropertyItem(p, v);
                            tail.insert(0, item);
                            proof {
                                assert(items_view(tail@) =~= seq![item.view()] + items_view(old_tail));
                            }
                        }
                        Some(tail)
                    },
                },
            }
        },
    }
}

/// Decodes a property block, keeping the items admitted in `scope`.
pub fn unpack_properties(data: &[u8], scope: PropertyScope) -> (r: Option<(Vec<PropertyItem>, &[u8])>)
    ensures
        r matches Some((v, rest)) ==> spec_parse_props(data@, scope) == Some((items_view(v@), rest@)),
        r is None ==> spec_parse_props(data@, scope) is None,
{
    reveal(spec_parse_props);
    let (n, rest) = match get_remaining_length(data) {
        Some(p) => p,
        None => return None,
    };
    if rest.len() < n {
        return None;
    }
    let block = slice_subrange(rest, 0, n);
    match unpack_items(block, scope, n) {
        Some(items) => Some((items, slice_subrange(rest, n, rest.len()))),
        None => None,
    }
}

/// No two properties share a name.
#[verifier::rlimit(100)]
pub proof fn lemma_names_distinct(p: Property, q: Property)
    requires
        p != q,
    ensures
        p.spec_name() != q.spec_name(),
{
    reveal_strlit("payload_format_indicator");
    reveal_strlit("message_expiry_interval");
    reveal_strlit("content_type");
    reveal_strlit("response_topic");
    reveal_strlit("correlation_data");
    reveal_strlit("subscription_identifier");
    reveal_strlit("session_expiry_interval");
    reveal_strlit("assigned_client_identifier");
    reveal_strlit("server_keep_alive");
    reveal_strlit("authentication_method");
    reveal_strlit("authentication_data");
    reveal_strlit("request_problem_information");
    reveal_strlit("will_delay_interval");
    reveal_strlit("request_response_information");
    reveal_strlit("response_information");
    reveal_strlit("server_reference");
    reveal_strlit("reason_string");
    reveal_strlit("receive_maximum");
    reveal_strlit("topic_alias_maximum");
    reveal_strlit("topic_alias");
    reveal_strlit("maximum_qos");
    reveal_strlit("retain_available");
    reveal_strlit("user_property");
    reveal_strlit("maximum_packet_size");
    reveal_strlit("wildcard_subscription_available");
    reveal_strlit("subscription_identifier_available");
    reveal_strlit("shared_subscription_available");
    let a = p.spec_name();
    let b = q.spec_name();
    if a == b {
        if 0 < a.len() {
            assert(a[0] == b[0]);
        }
        if 1 < a.len() {
            assert(a[1] == b[1]);
        }
        if 2 < a.len() {
            assert(a[2] == b[2]);
        }
        if 3 < a.len() {
            assert(a[3] == b[3]);
        }
        if 4 < a.len() {
            assert(a[4] == b[4]);
        }
        if 5 < a.len() {
            assert(a[5] == b[5]);
        }
        if 6 < a.len() {
            assert(a[6] == b[6]);
        }
        if 7 < a.len() {
            assert(a[7] == b[7]);
        }
        if 8 < a.len() {
            assert(a[8] == b[8]);
        }
        if 9 < a.len() {
            assert(a[9] == b[9]);
        }
        if 10 < a.len() {
            assert(a[10] == b[10]);
        }
        if 11 < a.len() {
            assert(a[11] == b[11]);
        }
        if 12 < a.len() {
            assert(a[12] == b[12]);
        }
        if 13 < a.len() {
            assert(a[13] == b[13]);
        }
        if 14 < a.len() {
            assert(a[14] == b[14]);
        }
        if 15 < a.len() {
            assert(a[15] == b[15]);
        }
        if 16 < a.len() {
            assert(a[16] == b[16]);
        }
        if 17 < a.len() {
            assert(a[17] == b[17]);
        }
        if 18 < a.len() {
            assert(a[18] == b[18]);
        }
        if 19 < a.len() {
            assert(a[19] == b[19]);
        }
        if 20 < a.len() {
            assert(a[20] == b[20]);
        }
        if 21 < a.len() {
            assert(a[21] == b[21]);
        }
        if 22 < a.len() {
            assert(a[22] == b[22]);
        }
        if 23 < a.len() {
            assert(a[23] == b[23]);
        }
        if 24 < a.len() {
            assert(a[24] == b[24]);
        }
        if 25 < a.len() {
            assert(a[25] == b[25]);
        }
        if 26 < a.len() {
            assert(a[26] == b[26]);
        }
        if 27 < a.len() {
            assert(a[27] == b[27]);
        }
        if 28 < a.len() {
            assert(a[28] == b[28]);
        }
        if 29 < a.len() {
            assert(a[29] == b[29]);
        }
        if 30 < a.len() {
            assert(a[30] == b[30]);
        }
        if 31 < a.len() {
            assert(a[31] == b[31]);
        }
        if 32 < a.len() {
            assert(a[32] == b[32]);
        }
        if 33 < a.len() {
            assert(a[33] == b[33]);
        }
        assert(a.len() == b.len());
    }
}

pub proof fn lemma_property_code_round_trip(p: Property)
    ensures
        Property::spec_from_code(p.spec_code()) == Some(p),
{
}

} // verus!
