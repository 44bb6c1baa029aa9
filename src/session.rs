use vstd::prelude::*;
use crate::protocol::{MqttCleanSession, MqttProtocolLevel, MqttQos, MqttRetain, MqttWillFlag};
use crate::subscript::{ClientID, TopicMessage};

verus! {

/// What the broker knows of one connection. Everything is unset until CONNECT.
#[derive(Debug, Clone)]
pub struct ServerSession {
    pub clean_session: Option<MqttCleanSession>,
    pub client_id: Option<ClientID>,
    pub protocol_name: Option<String>,
    pub protocol_level: Option<MqttProtocolLevel>,
    pub will_flag: Option<MqttWillFlag>,
    pub will_qos: Option<MqttQos>,
    pub will_retain: Option<MqttRetain>,
    pub will_topic: Option<String>,
    pub will_message: Option<String>,
}

impl ServerSession {
    pub fn new() -> (r: ServerSession)
        ensures
            r.clean_session is None,
            r.client_id is None,
            r.protocol_name is None,
            r.protocol_level is None,
            r.will_flag is None,
            r.will_qos is None,
            r.will_retain is None,
            r.will_topic is None,
            r.will_message is None,
    {
        ServerSession {
            clean_session: None,
            client_id: None,
            protocol_name: None,
            protocol_level: None,
            will_flag: None,
            will_qos: None,
            will_retain: None,
            will_topic: None,
            will_message: None,
        }
    }

    /// Records the identity and will of a CONNECT.
    pub fn init(
        &mut self,
        client_id: ClientID,
        clean_session: MqttCleanSession,
        will_flag: MqttWillFlag,
        will_qos: MqttQos,
        will_retain: MqttRetain,
        will_topic: Option<String>,
        will_message: Option<String>,
    )
        ensures
            final(self).client_id == Some(client_id),
            final(self).clean_session == Some(clean_session),
            final(self).will_flag == Some(will_flag),
            final(self).will_qos == Some(will_qos),
            final(self).will_retain == Some(will_retain),
            final(self).will_topic == will_topic,
            final(self).will_message == will_message,
            final(self).protocol_name == old(self).protocol_name,
            final(self).protocol_level == old(self).protocol_level,
    {
        self.client_id = Some(client_id);
        self.clean_session = Some(clean_session);
        self.will_flag = Some(will_flag);
        self.will_qos = Some(will_qos);
        self.will_retain = Some(will_retain);
        self.will_topic = will_topic;
        self.will_message = will_message;
    }

    /// Records the protocol name and level of a CONNECT.
    pub fn init_protocol(&mut self, protocol_name: String, protocol_level: MqttProtocolLevel)
        ensures
            final(self).protocol_name == Some(protocol_name),
            final(self).protocol_level == Some(protocol_level),
            final(self).client_id == old(self).client_id,
            final(self).clean_session == old(self).clean_session,
            final(self).will_flag == old(self).will_flag,
            final(self).will_qos == old(self).will_qos,
            final(self).will_retain == old(self).will_retain,
            final(self).will_topic == old(self).will_topic,
            final(self).will_message == old(self).will_message,
    {
        self.protocol_name = Some(protocol_name);
        self.protocol_level = Some(protocol_level);
    }

    pub fn get_client_id(&self) -> (r: Option<&ClientID>)
        ensures
            r == match self.client_id {
                Some(c) => Some(&c),
                None => None,
            },
    {
        match &self.client_id {
            Some(c) => Some(c),
            None => None,
        }
    }

    /// Whether the session negotiated MQTT 5.
    pub open spec fn spec_is_v5(&self) -> bool {
        self.protocol_level == Some(MqttProtocolLevel::Level5)
    }

    pub fn is_v5(&self) -> (r: bool)
        ensures
            r == self.spec_is_v5(),
    {
        match self.protocol_level {
            Some(MqttProtocolLevel::Level5) => true,
            _ => false,
        }
    }

    pub open spec fn spec_has_will(&self) -> bool {
        self.will_flag == Some(MqttWillFlag::Enable) && self.client_id is Some && self.will_topic is Some
            && self.will_message is Some
    }

    /// Whether a will is set.
    pub fn is_will_flag(&self) -> (r: bool)
        ensures
            r == self.spec_has_will(),
    {
        matches!(self.will_flag, Some(MqttWillFlag::Enable)) && self.client_id.is_some() && self.will_topic.is_some()
            && self.will_message.is_some()
    }

    pub fn is_clean_session(&self) -> (r: bool)
        ensures
            r == (self.clean_session == Some(MqttCleanSession::Enable)),
    {
        matches!(self.clean_session, Some(MqttCleanSession::Enable))
    }

    /// The content a will delivers: the will message on the will topic in the client's name, or none
    /// without a will.
    pub fn get_will_message(&self) -> (r: Option<TopicMessage>)
        ensures
            r is Some <==> self.spec_has_will(),
            r matches Some(m) ==> {
                &&& m.sender() == self.client_id->0@
                &&& m.publish().topic@ == self.will_topic->0@
                &&& m.publish().msg_body@ == vstd::utf8::encode_utf8(self.will_message->0@)
                &&& m.publish().qos == (match self.will_qos {
                    Some(q) => q,
                    None => MqttQos::Qos0,
                })
                &&& m.publish().retain == (match self.will_retain {
                    Some(r) => r,
                    None => MqttRetain::Disable,
                })
                &&& m.publish().properties@.len() == 0
            },
    {
        if !self.is_will_flag() {
            return None;
        }
        match (&self.client_id, &self.will_topic, &self.will_message) {
            (Some(c), Some(t), Some(m)) => Some(
                TopicMessage::generate_v3_topic_message(
                    c.duplicate(),
                    match self.will_qos {
                        Some(q) => q,
                        None => MqttQos::Qos0,
                    },
                    match self.will_retain {
                        Some(r) => r,
                        None => MqttRetain::Disable,
                    },
                    t.clone(),
                    m.clone(),
                ),
            ),
            _ => None,
        }
    }
}

} // verus!
