use vstd::prelude::*;
use crate::hex::{
    PropertyItem, PropertyScope, PropertyValueView, Property, items_view, items_fit, items_wf,
    spec_items, spec_props, spec_parse_props, pack_properties, unpack_properties,
    lemma_props_round_trip,
};
use crate::protocol::{
    MqttProtocolLevel, MqttQos, MqttCleanSession, MqttWillFlag, MqttRetain, MqttDup,
    MqttSessionPresent,
};
use crate::protocol::TypeKind;
use vstd::slice::slice_subrange;
use crate::tools::pack_tool::{lemma_str_len, push_bytes,
    spec_str, spec_short, str_fits, spec_connect_flags, MAX_REMAINING_LENGTH, pack_string,
    pack_short_int, pack_connect_flags,
};
use crate::tools::un_pack_tool::{
    spec_parse_str, spec_parse_byte, spec_parse_short, parse_string, parse_byte, parse_short_int,
    lemma_str_round_trip, lemma_byte_round_trip, lemma_short_round_trip,
};

verus! {

/// A string field that may be absent.
pub open spec fn opt_str(o: Option<String>) -> Seq<u8> {
    match o {
        Some(s) => spec_str(s@),
        None => Seq::empty(),
    }
}

pub open spec fn opt_fits(o: Option<String>) -> bool {
    match o {
        Some(s) => str_fits(s@),
        None => true,
    }
}

/// A string read only when `present`.
pub open spec fn spec_parse_opt_str(s: Seq<u8>, present: bool) -> Option<(Option<Seq<char>>, Seq<u8>)> {
    if present {
        match spec_parse_str(s) {
            Some((t, r)) => Some((Some(t), r)),
            None => None,
        }
    } else {
        Some((None, s))
    }
}

pub open spec fn opt_view(o: Option<String>) -> Option<Seq<char>> {
    match o {
        Some(s) => Some(s@),
        None => None,
    }
}

/// A property block, present in MQTT 5 only.
pub open spec fn v5_props(v5: bool, items: Seq<PropertyItem>, scope: PropertyScope) -> Seq<u8> {
    if v5 {
        spec_props(items_view(items), scope)
    } else {
        Seq::empty()
    }
}

pub open spec fn spec_parse_v5_props(s: Seq<u8>, v5: bool, scope: PropertyScope) -> Option<
    (Seq<(Property, PropertyValueView)>, Seq<u8>),
> {
    if v5 {
        spec_parse_props(s, scope)
    } else {
        Some((Seq::empty(), s))
    }
}

/// Whether a property list encodes and decodes back unchanged at the given version.
pub open spec fn props_ok(v5: bool, items: Seq<PropertyItem>, scope: PropertyScope) -> bool {
    if v5 {
        items_wf(items_view(items), scope)
    } else {
        items.len() == 0
    }
}

pub proof fn lemma_v5_props_len(v5: bool, items: Seq<PropertyItem>, scope: PropertyScope)
    ensures
        v5 ==> v5_props(v5, items, scope).len() >= spec_items(items_view(items), scope).len(),
{
    crate::hex::lemma_props_len(items_view(items), scope);
}

pub proof fn lemma_v5_props_round_trip(v5: bool, items: Seq<PropertyItem>, scope: PropertyScope, rest: Seq<u8>)
    requires
        props_ok(v5, items, scope),
        v5 ==> spec_items(items_view(items), scope).len() <= MAX_REMAINING_LENGTH,
    ensures
        spec_parse_v5_props(v5_props(v5, items, scope) + rest, v5, scope) == Some((items_view(items), rest)),
{
    if v5 {
        crate::hex::lemma_props_len(items_view(items), scope);
        lemma_props_round_trip(items_view(items), scope, rest);
    } else {
        assert(items_view(items) =~= Seq::empty());
        assert(Seq::<u8>::empty() + rest =~= rest);
    }
}

pub proof fn lemma_opt_str_round_trip(o: Option<String>, rest: Seq<u8>)
    requires
        opt_fits(o),
    ensures
        spec_parse_opt_str(opt_str(o) + rest, o is Some) == Some((opt_view(o), rest)),
{
    match o {
        Some(s) => lemma_str_round_trip(s@, rest),
        None => {
            assert(Seq::<u8>::empty() + rest =~= rest);
        },
    }
}

/// Encodes a property block when `v5` holds.
pub fn pack_v5_props(v5: bool, items: &Vec<PropertyItem>, scope: PropertyScope) -> (r: Vec<u8>)
    requires
        v5 ==> items_fit(items_view(items@)),
        v5 ==> spec_items(items_view(items@), scope).len() <= MAX_REMAINING_LENGTH,
    ensures
        r@ == v5_props(v5, items@, scope),
{
    if v5 {
        pack_properties(items, scope)
    } else {
        Vec::new()
    }
}

pub open spec fn parsed_opt_str(r: Option<(Option<String>, &[u8])>) -> Option<(Option<Seq<char>>, Seq<u8>)> {
    match r {
        Some((o, rest)) => Some((opt_view(o), rest@)),
        None => None,
    }
}

pub fn parse_opt_string(data: &[u8], present: bool) -> (r: Option<(Option<String>, &[u8])>)
    ensures
        parsed_opt_str(r) == spec_parse_opt_str(data@, present),
{
    if present {
        match parse_string(data) {
            Some((t, r)) => Some((Some(t), r)),
            None => None,
        }
    } else {
        Some((None, data))
    }
}

pub open spec fn parsed_props(r: Option<(Vec<PropertyItem>, &[u8])>) -> Option<
    (Seq<(Property, PropertyValueView)>, Seq<u8>),
> {
    match r {
        Some((v, rest)) => Some((items_view(v@), rest@)),
        None => None,
    }
}

/// Decodes a property block when `v5` holds; an empty list otherwise.
pub fn parse_v5_props(data: &[u8], v5: bool, scope: PropertyScope) -> (r: Option<(Vec<PropertyItem>, &[u8])>)
    ensures
        parsed_props(r) == spec_parse_v5_props(data@, v5, scope),
{
    if v5 {
        unpack_properties(data, scope)
    } else {
        proof {
            assert(items_view(Seq::<PropertyItem>::empty()) =~= Seq::empty());
        }
        Some((Vec::new(), data))
    }
}

proof fn lemma_connect_flags_fields(
    c: MqttCleanSession,
    w: MqttWillFlag,
    q: MqttQos,
    r: MqttRetain,
    u: bool,
    p: bool,
)
    ensures
        ({
            let f = spec_connect_flags(c, w, q, r, u, p);
            &&& MqttCleanSession::spec_from_bit((f / 2) as u8) == c
            &&& MqttWillFlag::spec_from_bit((f / 4) as u8) == w
            &&& MqttQos::spec_from_byte(((f / 8) % 4) as u8) == Some(
                if w == MqttWillFlag::Enable { q } else { MqttQos::Qos0 },
            )
            &&& MqttRetain::spec_from_bit((f / 32) as u8) == if w == MqttWillFlag::Enable {
                r
            } else {
                MqttRetain::Disable
            }
            &&& ((f / 128) % 2 == 1 <==> u)
            &&& ((f / 64) % 2 == 1 <==> p)
        }),
{
    let cb = c.spec_byte() as int;
    let wb = w.spec_byte() as int;
    let qb: int = if w == MqttWillFlag::Enable { q.spec_byte() as int } else { 0 };
    let rb: int = if w == MqttWillFlag::Enable { r.spec_byte() as int } else { 0 };
    let pb: int = if p { 64 } else { 0 };
    let ub: int = if u { 128 } else { 0 };
    let f = cb * 2 + wb * 4 + qb * 8 + rb * 32 + pb + ub;
    assert(0 <= f < 256);
    assert(spec_connect_flags(c, w, q, r, u, p) == f);
    assert((f / 2) % 2 == cb);
    assert((f / 4) % 2 == wb);
    assert((f / 8) % 4 == qb);
    assert((f / 32) % 2 == rb);
}

pub fn pack_protocol_name(msg: &ConnectMessage) -> (r: Vec<u8>)
    requires
        str_fits(msg.protocol_name@),
    ensures
        r@ == spec_str(msg.protocol_name@),
{
    pack_string(&msg.protocol_name)
}

pub fn pack_client_id(msg: &ConnectMessage) -> (r: Vec<u8>)
    requires
        str_fits(msg.payload.client_id@),
    ensures
        r@ == spec_str(msg.payload.client_id@),
{
    pack_string(&msg.payload.client_id)
}

pub fn pack_will_topic(msg: &ConnectMessage) -> (r: Option<Vec<u8>>)
    requires
        opt_fits(msg.payload.will_topic),
    ensures
        r is Some <==> msg.payload.will_topic is Some,
        r matches Some(b) ==> b@ == opt_str(msg.payload.will_topic),
{
    match &msg.payload.will_topic {
        Some(t) => Some(pack_string(t)),
        None => None,
    }
}

pub fn pack_will_message(msg: &ConnectMessage) -> (r: Option<Vec<u8>>)
    requires
        opt_fits(msg.payload.will_message),
    ensures
        r is Some <==> msg.payload.will_message is Some,
        r matches Some(b) ==> b@ == opt_str(msg.payload.will_message),
{
    match &msg.payload.will_message {
        Some(t) => Some(pack_string(t)),
        None => None,
    }
}

pub fn pack_username(msg: &ConnectMessage) -> (r: Option<Vec<u8>>)
    requires
        opt_fits(msg.payload.user_name),
    ensures
        r is Some <==> msg.payload.user_name is Some,
        r matches Some(b) ==> b@ == opt_str(msg.payload.user_name),
{
    match &msg.payload.user_name {
        Some(t) => Some(pack_string(t)),
        None => None,
    }
}

pub fn pack_password(msg: &ConnectMessage) -> (r: Option<Vec<u8>>)
    requires
        opt_fits(msg.payload.password),
    ensures
        r is Some <==> msg.payload.password is Some,
        r matches Some(b) ==> b@ == opt_str(msg.payload.password),
{
    match &msg.payload.password {
        Some(t) => Some(pack_string(t)),
        None => None,
    }
}

/// Appends the bytes of a field that may be absent.
fn append_opt(body: &mut Vec<u8>, part: Option<Vec<u8>>, Ghost(o): Ghost<Option<String>>)
    requires
        part is Some <==> o is Some,
        part matches Some(b) ==> b@ == opt_str(o),
    ensures
        final(body)@ == old(body)@ + opt_str(o),
{
    match part {
        Some(mut b) => body.append(&mut b),
        None => {
            proof {
                assert(old(body)@ + opt_str(o) =~= old(body)@);
            }
        },
    }
}

/// The payload of a CONNECT packet.
#[derive(Debug, Clone)]
pub struct ConnectMessagePayload {
    pub client_id: String,
    pub will_topic: Option<String>,
    pub will_message: Option<String>,
    pub user_name: Option<String>,
    pub password: Option<String>,
    /// The will properties (MQTT 5).
    pub properties: Vec<PropertyItem>,
}

impl ConnectMessagePayload {
    /// Whether `self` is what the payload bytes `s` decode to under the CONNECT `flags`.
    pub open spec fn decodes(&self, s: Seq<u8>, flags: u8, v5: bool) -> bool {
        let will = (flags / 4) % 2 == 1;
        match spec_parse_str(s) {
            None => false,
            Some((cid, r6)) => match spec_parse_v5_props(r6, v5 && will, PropertyScope::Will) {
                None => false,
                Some((wprops, r7)) => match spec_parse_opt_str(r7, will) {
                    None => false,
                    Some((wt, r8)) => match spec_parse_opt_str(r8, will) {
                        None => false,
                        Some((wm, r9)) => match spec_parse_opt_str(r9, (flags / 128) % 2 == 1) {
                            None => false,
                            Some((user, r10)) => match spec_parse_opt_str(r10, (flags / 64) % 2 == 1) {
                                None => false,
                                Some((pass, _)) => {
                                    &&& self.client_id@ == cid
                                    &&& items_view(self.properties@) == wprops
                                    &&& opt_view(self.will_topic) == wt
                                    &&& opt_view(self.will_message) == wm
                                    &&& opt_view(self.user_name) == user
                                    &&& opt_view(self.password) == pass
                                },
                            },
                        },
                    },
                },
            },
        }
    }
}

/// A CONNECT packet.
#[derive(Debug, Clone)]
pub struct ConnectMessage {
    pub protocol_name: String,
    pub protocol_level: MqttProtocolLevel,
    pub clean_session: MqttCleanSession,
    pub will_flag: MqttWillFlag,
    pub will_qos: MqttQos,
    pub will_retain: MqttRetain,
    pub keep_alive: u16,
    pub payload: ConnectMessagePayload,
    pub properties: Vec<PropertyItem>,
}

impl ConnectMessage {
    /// A CONNECT of protocol name `MQTT` at the given level, without will or credentials.
    pub fn new(
        client_id: String,
        protocol_level: MqttProtocolLevel,
        clean_session: MqttCleanSession,
        keep_alive: u16,
    ) -> (r: ConnectMessage)
        ensures
            r.protocol_name@ == crate::protocol::MQTT_PROTOCOL_NAME@,
            r.protocol_level == protocol_level,
            r.clean_session == clean_session,
            r.keep_alive == keep_alive,
            r.will_flag == MqttWillFlag::Disable,
            r.will_qos == MqttQos::Qos0,
            r.will_retain == MqttRetain::Disable,
            r.payload.client_id == client_id,
            r.payload.will_topic is None,
            r.payload.will_message is None,
            r.payload.user_name is None,
            r.payload.password is None,
            r.payload.properties@.len() == 0,
            r.properties@.len() == 0,
    {
        ConnectMessage {
            protocol_name: String::from_str(crate::protocol::MQTT_PROTOCOL_NAME),
            protocol_level,
            clean_session,
            will_flag: MqttWillFlag::Disable,
            will_qos: MqttQos::Qos0,
            will_retain: MqttRetain::Disable,
            keep_alive,
            payload: ConnectMessagePayload {
                client_id,
                will_topic: None,
                will_message: None,
                user_name: None,
                password: None,
                properties: Vec::new(),
            },
            properties: Vec::new(),
        }
    }

    pub open spec fn has_will(&self) -> bool {
        self.will_flag == MqttWillFlag::Enable
    }

    /// The flags byte.
    pub open spec fn spec_flags(&self) -> u8 {
        spec_connect_flags(
            self.clean_session,
            self.will_flag,
            self.will_qos,
            self.will_retain,
            self.payload.user_name is Some,
            self.payload.password is Some,
        )
    }

    pub open spec fn spec_will(&self, v5: bool) -> Seq<u8> {
        if self.has_will() {
            v5_props(v5, self.payload.properties@, PropertyScope::Will) + opt_str(self.payload.will_topic)
                + opt_str(self.payload.will_message)
        } else {
            Seq::empty()
        }
    }

    /// The variable header and payload.
    pub open spec fn spec_body(&self, v5: bool) -> Seq<u8> {
        spec_str(self.protocol_name@) + seq![self.protocol_level.spec_byte(), self.spec_flags()]
            + spec_short(self.keep_alive as nat) + v5_props(v5, self.properties@, PropertyScope::Connect)
            + spec_str(self.payload.client_id@) + self.spec_will(v5) + opt_str(self.payload.user_name)
            + opt_str(self.payload.password)
    }

    /// Whether every field fits its wire form.
    pub open spec fn fits(&self) -> bool {
        &&& str_fits(self.protocol_name@)
        &&& str_fits(self.payload.client_id@)
        &&& opt_fits(self.payload.will_topic)
        &&& opt_fits(self.payload.will_message)
        &&& opt_fits(self.payload.user_name)
        &&& opt_fits(self.payload.password)
        &&& items_fit(items_view(self.properties@))
        &&& items_fit(items_view(self.payload.properties@))
    }

    /// Whether the packet encodes at the given version and decodes back unchanged.
    pub open spec fn wf(&self, v5: bool) -> bool {
        &&& self.fits()
        &&& self.spec_body(v5).len() <= MAX_REMAINING_LENGTH
        &&& props_ok(v5, self.properties@, PropertyScope::Connect)
        &&& if self.has_will() {
            self.payload.will_topic is Some && self.payload.will_message is Some && props_ok(
                v5,
                self.payload.properties@,
                PropertyScope::Will,
            )
        } else {
            self.payload.will_topic is None && self.payload.will_message is None
                && self.payload.properties@.len() == 0 && self.will_qos == MqttQos::Qos0
                && self.will_retain == MqttRetain::Disable
        }
    }

    /// Whether `self` is what the bytes `s` of a CONNECT body decode to.
    pub open spec fn decodes(&self, s: Seq<u8>, v5: bool) -> bool {
        match spec_parse_str(s) {
            None => false,
            Some((name, r1)) => match spec_parse_byte(r1) {
                None => false,
                Some((level, r2)) => match spec_parse_byte(r2) {
                    None => false,
                    Some((flags, r3)) => match spec_parse_short(r3) {
                        None => false,
                        Some((keep, r4)) => match spec_parse_v5_props(r4, v5, PropertyScope::Connect) {
                            None => false,
                            Some((props, r5)) => {
                                &&& self.protocol_name@ == name
                                &&& MqttProtocolLevel::spec_from_byte(level) == Some(self.protocol_level)
                                &&& self.clean_session == MqttCleanSession::spec_from_bit((flags / 2) as u8)
                                &&& self.will_flag == MqttWillFlag::spec_from_bit((flags / 4) as u8)
                                &&& MqttQos::spec_from_byte(((flags / 8) % 4) as u8) == Some(self.will_qos)
                                &&& self.will_retain == MqttRetain::spec_from_bit((flags / 32) as u8)
                                &&& self.keep_alive == keep
                                &&& items_view(self.properties@) == props
                                &&& self.payload.decodes(r5, flags, v5)
                            },
                        },
                    },
                },
            },
        }
    }

    #[verifier::rlimit(50)]
    proof fn lemma_payload_round_trip(&self, v5: bool, rest: Seq<u8>)
        requires
            self.wf(v5),
        ensures
            self.payload.decodes(
                spec_str(self.payload.client_id@) + self.spec_will(v5) + opt_str(self.payload.user_name)
                    + opt_str(self.payload.password) + rest,
                self.spec_flags(),
                v5,
            ),
    {
        let will = self.has_will();
        lemma_connect_flags_fields(
            self.clean_session,
            self.will_flag,
            self.will_qos,
            self.will_retain,
            self.payload.user_name is Some,
            self.payload.password is Some,
        );
        let t10 = opt_str(self.payload.password) + rest;
        let t9 = opt_str(self.payload.user_name) + t10;
        let t8 = opt_str(self.payload.will_message) + t9;
        let t7 = opt_str(self.payload.will_topic) + t8;
        let wp = v5_props(v5 && will, self.payload.properties@, PropertyScope::Will);
        let t6 = wp + t7;
        let whole = spec_str(self.payload.client_id@) + self.spec_will(v5) + opt_str(self.payload.user_name)
            + opt_str(self.payload.password) + rest;
        if will {
            assert(whole =~= spec_str(self.payload.client_id@) + t6);
        } else {
            assert(wp =~= Seq::<u8>::empty());
            assert(opt_str(self.payload.will_topic) =~= Seq::<u8>::empty());
            assert(opt_str(self.payload.will_message) =~= Seq::<u8>::empty());
            assert(whole =~= spec_str(self.payload.client_id@) + t6);
            assert(t6 =~= t9);
        }
        lemma_str_round_trip(self.payload.client_id@, t6);
        if will {
            assert(v5 ==> self.spec_body(v5).len() >= wp.len());
            lemma_v5_props_len(v5, self.payload.properties@, PropertyScope::Will);
            lemma_v5_props_round_trip(v5 && will, self.payload.properties@, PropertyScope::Will, t7);
        } else {
            assert(items_view(self.payload.properties@) =~= Seq::empty());
            assert(Seq::<u8>::empty() + t7 =~= t7);
        }
        lemma_opt_str_round_trip(self.payload.will_topic, t8);
        lemma_opt_str_round_trip(self.payload.will_message, t9);
        lemma_opt_str_round_trip(self.payload.user_name, t10);
        lemma_opt_str_round_trip(self.payload.password, rest);
    }

    /// Decoding an encoded CONNECT body gives the packet back.
    #[verifier::rlimit(50)]
    pub proof fn lemma_round_trip(&self, v5: bool, rest: Seq<u8>)
        requires
            self.wf(v5),
        ensures
            self.decodes(self.spec_body(v5) + rest, v5),
    {
        let tail = spec_str(self.payload.client_id@) + self.spec_will(v5) + opt_str(self.payload.user_name)
            + opt_str(self.payload.password);
        let t5 = tail + rest;
        let t4 = v5_props(v5, self.properties@, PropertyScope::Connect) + t5;
        let t3 = spec_short(self.keep_alive as nat) + t4;
        let t2 = seq![self.spec_flags()] + t3;
        let t1 = seq![self.protocol_level.spec_byte()] + t2;
        assert(self.spec_body(v5) + rest =~= spec_str(self.protocol_name@) + t1);
        lemma_str_round_trip(self.protocol_name@, t1);
        lemma_byte_round_trip(self.protocol_level.spec_byte(), t2);
        lemma_byte_round_trip(self.spec_flags(), t3);
        lemma_short_round_trip(self.keep_alive, t4);
        assert(v5 ==> self.spec_body(v5).len() >= v5_props(v5, self.properties@, PropertyScope::Connect).len());
        lemma_v5_props_len(v5, self.properties@, PropertyScope::Connect);
        lemma_v5_props_round_trip(v5, self.properties@, PropertyScope::Connect, t5);
        self.lemma_payload_round_trip(v5, rest);
        lemma_connect_flags_fields(
            self.clean_session,
            self.will_flag,
            self.will_qos,
            self.will_retain,
            self.payload.user_name is Some,
            self.payload.password is Some,
        );
        crate::protocol::lemma_level_byte_round_trip(self.protocol_level);
    }

    /// Encodes the variable header and payload.
    pub fn body(&self, v5: bool) -> (r: Vec<u8>)
        requires
            self.fits(),
            self.spec_body(v5).len() <= MAX_REMAINING_LENGTH,
        ensures
            r@ == self.spec_body(v5),
    {
        let ghost head = spec_str(self.protocol_name@) + seq![self.protocol_level.spec_byte(), self.spec_flags()]
            + spec_short(self.keep_alive as nat);
        let ghost cprops = v5_props(v5, self.properties@, PropertyScope::Connect);
        let ghost tail = spec_str(self.payload.client_id@) + self.spec_will(v5) + opt_str(self.payload.user_name)
            + opt_str(self.payload.password);
        proof {
            assert(self.spec_body(v5) =~= head + cprops + tail);
            if v5 {
                lemma_v5_props_len(v5, self.properties@, PropertyScope::Connect);
            }
        }
        let mut body = pack_protocol_name(self);
        body.push(self.protocol_level.as_byte());
        let flags = pack_connect_flags(
            self.clean_session,
            self.will_flag,
            self.will_qos,
            self.will_retain,
            self.payload.user_name.is_some(),
            self.payload.password.is_some(),
        );
        body.push(flags);
        let mut keep = pack_short_int(self.keep_alive);
        body.append(&mut keep);
        proof {
            assert(body@ =~= head);
        }
        let mut props = pack_v5_props(v5, &self.properties, PropertyScope::Connect);
        body.append(&mut props);
        let mut rest = self.payload_bytes(v5);
        body.append(&mut rest);
        body
    }

    /// Encodes the client identifier, the will and the credentials.
    fn payload_bytes(&self, v5: bool) -> (r: Vec<u8>)
        requires
            self.fits(),
            (spec_str(self.payload.client_id@) + self.spec_will(v5) + opt_str(self.payload.user_name)
                + opt_str(self.payload.password)).len() <= MAX_REMAINING_LENGTH,
        ensures
            r@ == spec_str(self.payload.client_id@) + self.spec_will(v5) + opt_str(self.payload.user_name)
                + opt_str(self.payload.password),
    {
        let mut body = pack_client_id(self);
        if matches!(self.will_flag, MqttWillFlag::Enable) {
            proof {
                let w = self.spec_will(v5);
                if v5 {
                    lemma_v5_props_len(v5, self.payload.properties@, PropertyScope::Will);
                }
            }
            let mut wprops = pack_v5_props(v5, &self.payload.properties, PropertyScope::Will);
            body.append(&mut wprops);
            append_opt(&mut body, pack_will_topic(self), Ghost(self.payload.will_topic));
            append_opt(&mut body, pack_will_message(self), Ghost(self.payload.will_message));
            proof {
                assert(body@ =~= spec_str(self.payload.client_id@) + self.spec_will(v5));
            }
        } else {
            proof {
                assert(body@ =~= spec_str(self.payload.client_id@) + self.spec_will(v5));
            }
        }
        append_opt(&mut body, pack_username(self), Ghost(self.payload.user_name));
        append_opt(&mut body, pack_password(self), Ghost(self.payload.password));
        body
    }

    /// Decodes the variable header and payload of a CONNECT packet.
    pub fn decode_body(data: &[u8], v5: bool) -> (r: Option<ConnectMessage>)
        ensures
            r matches Some(m) ==> m.decodes(data@, v5),
            r is None ==> forall|m: ConnectMessage| !m.decodes(data@, v5),
    {
        let (header, r4) = match get_connect_variable_header(data) {
            Some(p) => p,
            None => return None,
        };
        let (properties, r5) = match parse_v5_props(r4, v5, PropertyScope::Connect) {
            Some(p) => p,
            None => return None,
        };
        let flags = header.flags;
        let will_qos = match MqttQos::from_byte((flags / 8) % 4) {
            Some(q) => q,
            None => return None,
        };
        let payload = match get_connect_payload_data(r5, flags, v5) {
            Some(p) => p,
            None => return None,
        };
        Some(
            ConnectMessage {
                protocol_name: header.protocol_name,
                protocol_level: header.protocol_level,
                clean_session: MqttCleanSession::from_bit(flags / 2),
                will_flag: MqttWillFlag::from_bit(flags / 4),
                will_qos,
                will_retain: MqttRetain::from_bit(flags / 32),
                keep_alive: header.keep_alive,
                payload,
                properties,
            },
        )
    }
}

/// The CONNECT variable header before the MQTT 5 properties: protocol name and level, the flags byte,
/// keep-alive.
#[derive(Debug, Clone)]
pub struct VariableHeader {
    pub protocol_name: String,
    pub protocol_level: MqttProtocolLevel,
    pub flags: u8,
    pub keep_alive: u16,
}

/// The fields of a CONNECT variable header at the start of `s`, and what follows it.
pub open spec fn spec_connect_header(s: Seq<u8>) -> Option<(Seq<char>, MqttProtocolLevel, u8, u16, Seq<u8>)> {
    match spec_parse_str(s) {
        None => None,
        Some((name, r1)) => match spec_parse_byte(r1) {
            None => None,
            Some((level, r2)) => match spec_parse_byte(r2) {
                None => None,
                Some((flags, r3)) => match spec_parse_short(r3) {
                    None => None,
                    Some((keep, r4)) => match MqttProtocolLevel::spec_from_byte(level) {
                        Some(l) => Some((name, l, flags, keep, r4)),
                        None => None,
                    },
                },
            },
        },
    }
}

pub fn get_connect_variable_header(data: &[u8]) -> (r: Option<(VariableHeader, &[u8])>)
    ensures
        r matches Some((h, rest)) ==> spec_connect_header(data@) == Some(
            (h.protocol_name@, h.protocol_level, h.flags, h.keep_alive, rest@),
        ),
        r is None ==> spec_connect_header(data@) is None,
{
    let (protocol_name, r1) = match parse_string(data) {
        Some(p) => p,
        None => return None,
    };
    let (level, r2) = match parse_byte(r1) {
        Some(p) => p,
        None => return None,
    };
    let (flags, r3) = match parse_byte(r2) {
        Some(p) => p,
        None => return None,
    };
    let (keep_alive, r4) = match parse_short_int(r3) {
        Some(p) => p,
        None => return None,
    };
    match MqttProtocolLevel::from_byte(level) {
        Some(protocol_level) => Some((VariableHeader { protocol_name, protocol_level, flags, keep_alive }, r4)),
        None => None,
    }
}

/// Decodes a CONNECT payload under the CONNECT `flags`: client identifier, will (with its MQTT 5
/// properties), username and password, each present as the flags say.
pub fn get_connect_payload_data(data: &[u8], flags: u8, v5: bool) -> (r: Option<ConnectMessagePayload>)
    ensures
        r matches Some(p) ==> p.decodes(data@, flags, v5),
        r is None ==> forall|p: ConnectMessagePayload| !p.decodes(data@, flags, v5),
{
    let (client_id, r6) = match parse_string(data) {
        Some(p) => p,
        None => return None,
    };
    let will = (flags / 4) % 2 == 1;
    let (wprops, r7) = match parse_v5_props(r6, v5 && will, PropertyScope::Will) {
        Some(p) => p,
        None => return None,
    };
    let (will_topic, r8) = match parse_opt_string(r7, will) {
        Some(p) => p,
        None => return None,
    };
    let (will_message, r9) = match parse_opt_string(r8, will) {
        Some(p) => p,
        None => return None,
    };
    let (user_name, r10) = match parse_opt_string(r9, (flags / 128) % 2 == 1) {
        Some(p) => p,
        None => return None,
    };
    let (password, _r11) = match parse_opt_string(r10, (flags / 64) % 2 == 1) {
        Some(p) => p,
        None => return None,
    };
    Some(ConnectMessagePayload { client_id, will_topic, will_message, user_name, password, properties: wprops })
}

/// The part of an acknowledgement after its packet identifier: in MQTT 5 a reason code and properties.
pub open spec fn spec_ack_body(id: u16, code: u8, items: Seq<PropertyItem>, v5: bool) -> Seq<u8> {
    spec_short(id as nat) + (if v5 {
        seq![code] + spec_props(items_view(items), PropertyScope::PubAndSub)
    } else {
        Seq::empty()
    })
}

/// Whether an acknowledgement body `s` decodes to the identifier, reason code and properties given.
/// In MQTT 5 an absent reason code means success and absent properties an empty list.
pub open spec fn ack_decodes(s: Seq<u8>, v5: bool, id: u16, code: u8, items: Seq<PropertyItem>) -> bool {
    match spec_parse_short(s) {
        None => false,
        Some((i, r)) => {
            &&& i == id
            &&& if !v5 || r.len() == 0 {
                code == 0 && items.len() == 0
            } else {
                match spec_parse_byte(r) {
                    None => false,
                    Some((c, r2)) => c == code && if r2.len() == 0 {
                        items.len() == 0
                    } else {
                        match spec_parse_props(r2, PropertyScope::PubAndSub) {
                            Some((p, _)) => items_view(items) == p,
                            None => false,
                        }
                    },
                }
            }
        },
    }
}

/// Whether an acknowledgement encodes at the given version and decodes back unchanged.
pub open spec fn ack_wf(code: u8, items: Seq<PropertyItem>, v5: bool) -> bool {
    &&& props_ok(v5, items, PropertyScope::PubAndSub)
    &&& spec_items(items_view(items), PropertyScope::PubAndSub).len() <= MAX_REMAINING_LENGTH
    &&& (!v5 ==> code == 0)
}

pub proof fn lemma_ack_round_trip(id: u16, code: u8, items: Seq<PropertyItem>, v5: bool)
    requires
        ack_wf(code, items, v5),
    ensures
        ack_decodes(spec_ack_body(id, code, items, v5), v5, id, code, items),
{
    let p = if v5 {
        seq![code] + spec_props(items_view(items), PropertyScope::PubAndSub)
    } else {
        Seq::empty()
    };
    assert(spec_ack_body(id, code, items, v5) =~= spec_short(id as nat) + p);
    lemma_short_round_trip(id, p);
    if v5 {
        let pp = spec_props(items_view(items), PropertyScope::PubAndSub);
        lemma_byte_round_trip(code, pp);
        assert(pp =~= pp + Seq::<u8>::empty());
        lemma_props_round_trip(items_view(items), PropertyScope::PubAndSub, Seq::empty());
        crate::tools::pack_tool::lemma_vli_len(spec_items(items_view(items), PropertyScope::PubAndSub).len());
        reveal(spec_props);
    } else {
        assert(items_view(items) =~= Seq::empty());
    }
}

/// Encodes the body of an acknowledgement.
pub fn pack_ack(id: u16, code: u8, items: &Vec<PropertyItem>, v5: bool) -> (r: Vec<u8>)
    requires
        v5 ==> items_fit(items_view(items@)),
        spec_items(items_view(items@), PropertyScope::PubAndSub).len() <= MAX_REMAINING_LENGTH,
    ensures
        r@ == spec_ack_body(id, code, items@, v5),
{
    let mut body = pack_short_int(id);
    if v5 {
        body.push(code);
        let mut props = pack_properties(items, PropertyScope::PubAndSub);
        body.append(&mut props);
        proof {
            assert(body@ =~= spec_ack_body(id, code, items@, v5));
        }
    } else {
        proof {
            assert(body@ =~= spec_ack_body(id, code, items@, v5));
        }
    }
    body
}

/// The fields shared by PUBACK, PUBREC, PUBREL and PUBCOMP.
#[derive(Debug, Clone)]
pub struct CommonPayloadMessage {
    pub msg_type: TypeKind,
    pub message_id: u16,
    pub code: u8,
    pub properties: Vec<PropertyItem>,
}

impl CommonPayloadMessage {
    pub fn new(kind: TypeKind, message_id: u16) -> (r: CommonPayloadMessage)
        ensures
            r.msg_type == kind,
            r.message_id == message_id,
            r.code == 0,
            r.properties@.len() == 0,
    {
        CommonPayloadMessage { msg_type: kind, message_id, code: 0, properties: Vec::new() }
    }
}

/// Decodes the body of an acknowledgement of type `kind`.
pub fn get_reason_code(kind: TypeKind, data: &[u8], v5: bool) -> (r: Option<CommonPayloadMessage>)
    ensures
        r matches Some(m) ==> m.msg_type == kind && ack_decodes(data@, v5, m.message_id, m.code, m.properties@),
        r is None ==> forall|id: u16, code: u8, items: Seq<PropertyItem>| !ack_decodes(data@, v5, id, code, items),
{
    let (message_id, r1) = match parse_short_int(data) {
        Some(p) => p,
        None => return None,
    };
    if !v5 || r1.len() == 0 {
        return Some(CommonPayloadMessage::new(kind, message_id));
    }
    let (code, r2) = match parse_byte(r1) {
        Some(p) => p,
        None => return None,
    };
    if r2.len() == 0 {
        return Some(CommonPayloadMessage { msg_type: kind, message_id, code, properties: Vec::new() });
    }
    match unpack_properties(r2, PropertyScope::PubAndSub) {
        Some((properties, _)) => Some(CommonPayloadMessage { msg_type: kind, message_id, code, properties }),
        None => None,
    }
}

/// A PUBACK packet.
#[derive(Debug, Clone)]
pub struct PubackMessage {
    pub message_id: u16,
    /// Reason code (MQTT 5); zero is success.
    pub code: u8,
    pub properties: Vec<PropertyItem>,
}

impl PubackMessage {
    pub fn new(message_id: u16) -> (r: PubackMessage)
        ensures
            r.message_id == message_id,
            r.code == 0,
            r.properties@.len() == 0,
    {
        PubackMessage { message_id, code: 0, properties: Vec::new() }
    }

    pub open spec fn spec_body(&self, v5: bool) -> Seq<u8> {
        spec_ack_body(self.message_id, self.code, self.properties@, v5)
    }

    pub open spec fn fits(&self) -> bool {
        &&& items_fit(items_view(self.properties@))
        &&& spec_items(items_view(self.properties@), PropertyScope::PubAndSub).len() <= MAX_REMAINING_LENGTH
    }

    pub open spec fn wf(&self, v5: bool) -> bool {
        self.fits() && ack_wf(self.code, self.properties@, v5)
    }

    pub open spec fn decodes(&self, s: Seq<u8>, v5: bool) -> bool {
        ack_decodes(s, v5, self.message_id, self.code, self.properties@)
    }

    /// Decoding an encoded PUBACK body gives the packet back.
    pub proof fn lemma_round_trip(&self, v5: bool)
        requires
            self.wf(v5),
        ensures
            self.decodes(self.spec_body(v5), v5),
    {
        lemma_ack_round_trip(self.message_id, self.code, self.properties@, v5);
    }

    pub fn body(&self, v5: bool) -> (r: Vec<u8>)
        requires
            self.fits(),
        ensures
            r@ == self.spec_body(v5),
    {
        pack_ack(self.message_id, self.code, &self.properties, v5)
    }

    pub fn decode_body(data: &[u8], v5: bool) -> (r: Option<PubackMessage>)
        ensures
            r matches Some(m) ==> m.decodes(data@, v5),
            r is None ==> forall|m: PubackMessage| !m.decodes(data@, v5),
    {
        match get_reason_code(TypeKind::PUBACK, data, v5) {
            Some(c) => Some(PubackMessage { message_id: c.message_id, code: c.code, properties: c.properties }),
            None => None,
        }
    }
}

/// A PUBREC packet.
#[derive(Debug, Clone)]
pub struct PubrecMessage {
    pub message_id: u16,
    /// Reason code (MQTT 5); zero is success.
    pub code: u8,
    pub properties: Vec<PropertyItem>,
}

impl PubrecMessage {
    pub fn new(message_id: u16) -> (r: PubrecMessage)
        ensures
            r.message_id == message_id,
            r.code == 0,
            r.properties@.len() == 0,
    {
        PubrecMessage { message_id, code: 0, properties: Vec::new() }
    }

    pub open spec fn spec_body(&self, v5: bool) -> Seq<u8> {
        spec_ack_body(self.message_id, self.code, self.properties@, v5)
    }

    pub open spec fn fits(&self) -> bool {
        &&& items_fit(items_view(self.properties@))
        &&& spec_items(items_view(self.properties@), PropertyScope::PubAndSub).len() <= MAX_REMAINING_LENGTH
    }

    pub open spec fn wf(&self, v5: bool) -> bool {
        self.fits() && ack_wf(self.code, self.properties@, v5)
    }

    pub open spec fn decodes(&self, s: Seq<u8>, v5: bool) -> bool {
        ack_decodes(s, v5, self.message_id, self.code, self.properties@)
    }

    /// Decoding an encoded PUBREC body gives the packet back.
    pub proof fn lemma_round_trip(&self, v5: bool)
        requires
            self.wf(v5),
        ensures
            self.decodes(self.spec_body(v5), v5),
    {
        lemma_ack_round_trip(self.message_id, self.code, self.properties@, v5);
    }

    pub fn body(&self, v5: bool) -> (r: Vec<u8>)
        requires
            self.fits(),
        ensures
            r@ == self.spec_body(v5),
    {
        pack_ack(self.message_id, self.code, &self.properties, v5)
    }

    pub fn decode_body(data: &[u8], v5: bool) -> (r: Option<PubrecMessage>)
        ensures
            r matches Some(m) ==> m.decodes(data@, v5),
            r is None ==> forall|m: PubrecMessage| !m.decodes(data@, v5),
    {
        match get_reason_code(TypeKind::PUBREC, data, v5) {
            Some(c) => Some(PubrecMessage { message_id: c.message_id, code: c.code, properties: c.properties }),
            None => None,
        }
    }
}

/// A PUBREL packet.
#[derive(Debug, Clone)]
pub struct PubrelMessage {
    pub message_id: u16,
    /// Reason code (MQTT 5); zero is success.
    pub code: u8,
    pub properties: Vec<PropertyItem>,
}

impl PubrelMessage {
    pub fn new(message_id: u16) -> (r: PubrelMessage)
        ensures
            r.message_id == message_id,
            r.code == 0,
            r.properties@.len() == 0,
    {
        PubrelMessage { message_id, code: 0, properties: Vec::new() }
    }

    pub open spec fn spec_body(&self, v5: bool) -> Seq<u8> {
        spec_ack_body(self.message_id, self.code, self.properties@, v5)
    }

    pub open spec fn fits(&self) -> bool {
        &&& items_fit(items_view(self.properties@))
        &&& spec_items(items_view(self.properties@), PropertyScope::PubAndSub).len() <= MAX_REMAINING_LENGTH
    }

    pub open spec fn wf(&self, v5: bool) -> bool {
        self.fits() && ack_wf(self.code, self.properties@, v5)
    }

    pub open spec fn decodes(&self, s: Seq<u8>, v5: bool) -> bool {
        ack_decodes(s, v5, self.message_id, self.code, self.properties@)
    }

    /// Decoding an encoded PUBREL body gives the packet back.
    pub proof fn lemma_round_trip(&self, v5: bool)
        requires
            self.wf(v5),
        ensures
            self.decodes(self.spec_body(v5), v5),
    {
        lemma_ack_round_trip(self.message_id, self.code, self.properties@, v5);
    }

    pub fn body(&self, v5: bool) -> (r: Vec<u8>)
        requires
            self.fits(),
        ensures
            r@ == self.spec_body(v5),
    {
        pack_ack(self.message_id, self.code, &self.properties, v5)
    }

    pub fn decode_body(data: &[u8], v5: bool) -> (r: Option<PubrelMessage>)
        ensures
            r matches Some(m) ==> m.decodes(data@, v5),
            r is None ==> forall|m: PubrelMessage| !m.decodes(data@, v5),
    {
        match get_reason_code(TypeKind::PUBREL, data, v5) {
            Some(c) => Some(PubrelMessage { message_id: c.message_id, code: c.code, properties: c.properties }),
            None => None,
        }
    }
}

/// A PUBCOMP packet.
#[derive(Debug, Clone)]
pub struct PubcompMessage {
    pub message_id: u16,
    /// Reason code (MQTT 5); zero is success.
    pub code: u8,
    pub properties: Vec<PropertyItem>,
}

impl PubcompMessage {
    pub fn new(message_id: u16) -> (r: PubcompMessage)
        ensures
            r.message_id == message_id,
            r.code == 0,
            r.properties@.len() == 0,
    {
        PubcompMessage { message_id, code: 0, properties: Vec::new() }
    }

    pub open spec fn spec_body(&self, v5: bool) -> Seq<u8> {
        spec_ack_body(self.message_id, self.code, self.properties@, v5)
    }

    pub open spec fn fits(&self) -> bool {
        &&& items_fit(items_view(self.properties@))
        &&& spec_items(items_view(self.properties@), PropertyScope::PubAndSub).len() <= MAX_REMAINING_LENGTH
    }

    pub open spec fn wf(&self, v5: bool) -> bool {
        self.fits() && ack_wf(self.code, self.properties@, v5)
    }

    pub open spec fn decodes(&self, s: Seq<u8>, v5: bool) -> bool {
        ack_decodes(s, v5, self.message_id, self.code, self.properties@)
    }

    /// Decoding an encoded PUBCOMP body gives the packet back.
    pub proof fn lemma_round_trip(&self, v5: bool)
        requires
            self.wf(v5),
        ensures
            self.decodes(self.spec_body(v5), v5),
    {
        lemma_ack_round_trip(self.message_id, self.code, self.properties@, v5);
    }

    pub fn body(&self, v5: bool) -> (r: Vec<u8>)
        requires
            self.fits(),
        ensures
            r@ == self.spec_body(v5),
    {
        pack_ack(self.message_id, self.code, &self.properties, v5)
    }

    pub fn decode_body(data: &[u8], v5: bool) -> (r: Option<PubcompMessage>)
        ensures
            r matches Some(m) ==> m.decodes(data@, v5),
            r is None ==> forall|m: PubcompMessage| !m.decodes(data@, v5),
    {
        match get_reason_code(TypeKind::PUBCOMP, data, v5) {
            Some(c) => Some(PubcompMessage { message_id: c.message_id, code: c.code, properties: c.properties }),
            None => None,
        }
    }
}

/// A CONNACK packet.
#[derive(Debug, Clone)]
pub struct ConnackMessage {
    pub session_present: MqttSessionPresent,
    pub return_code: u8,
    pub properties: Vec<PropertyItem>,
}

impl ConnackMessage {
    pub fn new(session_present: MqttSessionPresent, return_code: u8) -> (r: ConnackMessage)
        ensures
            r.session_present == session_present,
            r.return_code == return_code,
            r.properties@.len() == 0,
    {
        ConnackMessage { session_present, return_code, properties: Vec::new() }
    }

    pub open spec fn spec_body(&self, v5: bool) -> Seq<u8> {
        seq![self.session_present.spec_byte(), self.return_code] + v5_props(
            v5,
            self.properties@,
            PropertyScope::Connack,
        )
    }

    pub open spec fn fits(&self) -> bool {
        &&& items_fit(items_view(self.properties@))
        &&& spec_items(items_view(self.properties@), PropertyScope::Connack).len() <= MAX_REMAINING_LENGTH
    }

    pub open spec fn wf(&self, v5: bool) -> bool {
        self.fits() && props_ok(v5, self.properties@, PropertyScope::Connack)
    }

    pub open spec fn decodes(&self, s: Seq<u8>, v5: bool) -> bool {
        match spec_parse_byte(s) {
            None => false,
            Some((a, r1)) => match spec_parse_byte(r1) {
                None => false,
                Some((c, r2)) => match spec_parse_v5_props(r2, v5, PropertyScope::Connack) {
                    None => false,
                    Some((p, _)) => {
                        &&& self.session_present == MqttSessionPresent::spec_from_bit(a)
                        &&& self.return_code == c
                        &&& items_view(self.properties@) == p
                    },
                },
            },
        }
    }

    /// Decoding an encoded CONNACK body gives the packet back.
    pub proof fn lemma_round_trip(&self, v5: bool)
        requires
            self.wf(v5),
        ensures
            self.decodes(self.spec_body(v5), v5),
    {
        let p = v5_props(v5, self.properties@, PropertyScope::Connack);
        lemma_v5_props_len(v5, self.properties@, PropertyScope::Connack);
        crate::tools::pack_tool::lemma_vli_len(spec_items(items_view(self.properties@), PropertyScope::Connack).len());
        reveal(spec_props);
        assert(self.spec_body(v5) =~= seq![self.session_present.spec_byte()] + (seq![self.return_code] + (p + Seq::empty())));
        lemma_byte_round_trip(self.session_present.spec_byte(), seq![self.return_code] + (p + Seq::empty()));
        lemma_byte_round_trip(self.return_code, p + Seq::empty());
        lemma_v5_props_round_trip(v5, self.properties@, PropertyScope::Connack, Seq::empty());
    }

    pub fn body(&self, v5: bool) -> (r: Vec<u8>)
        requires
            self.fits(),
        ensures
            r@ == self.spec_body(v5),
    {
        let mut body: Vec<u8> = Vec::new();
        body.push(self.session_present.as_byte());
        body.push(self.return_code);
        let mut props = pack_v5_props(v5, &self.properties, PropertyScope::Connack);
        body.append(&mut props);
        proof {
            assert(body@ =~= self.spec_body(v5));
        }
        body
    }

    pub fn decode_body(data: &[u8], v5: bool) -> (r: Option<ConnackMessage>)
        ensures
            r matches Some(m) ==> m.decodes(data@, v5),
            r is None ==> forall|m: ConnackMessage| !m.decodes(data@, v5),
    {
        let (a, r1) = match parse_byte(data) {
            Some(p) => p,
            None => return None,
        };
        let (return_code, r2) = match parse_byte(r1) {
            Some(p) => p,
            None => return None,
        };
        match parse_v5_props(r2, v5, PropertyScope::Connack) {
            Some((properties, _)) => Some(
                ConnackMessage { session_present: MqttSessionPresent::from_bit(a), return_code, properties },
            ),
            None => None,
        }
    }
}

/// A PUBLISH packet.
#[derive(Debug, Clone)]
pub struct PublishMessage {
    pub message_id: u16,
    pub topic: String,
    pub dup: MqttDup,
    pub qos: MqttQos,
    pub retain: MqttRetain,
    pub msg_body: Vec<u8>,
    pub properties: Vec<PropertyItem>,
}

impl PublishMessage {
    pub fn new(
        qos: MqttQos,
        dup: MqttDup,
        retain: MqttRetain,
        topic: String,
        message_id: u16,
        message_body: Vec<u8>,
        properties: Vec<PropertyItem>,
    ) -> (r: PublishMessage)
        ensures
            r.qos == qos,
            r.dup == dup,
            r.retain == retain,
            r.topic == topic,
            r.message_id == message_id,
            r.msg_body == message_body,
            r.properties == properties,
    {
        PublishMessage { message_id, topic, dup, qos, retain, msg_body: message_body, properties }
    }

    /// The packet identifier, present from QoS 1 on.
    pub open spec fn spec_id(&self) -> Seq<u8> {
        if self.qos == MqttQos::Qos0 {
            Seq::empty()
        } else {
            spec_short(self.message_id as nat)
        }
    }

    pub open spec fn spec_body(&self, v5: bool) -> Seq<u8> {
        spec_str(self.topic@) + self.spec_id() + v5_props(v5, self.properties@, PropertyScope::Publish)
            + self.msg_body@
    }

    pub open spec fn fits(&self) -> bool {
        &&& str_fits(self.topic@)
        &&& items_fit(items_view(self.properties@))
        &&& spec_items(items_view(self.properties@), PropertyScope::Publish).len() <= MAX_REMAINING_LENGTH
    }

    pub open spec fn wf(&self, v5: bool) -> bool {
        &&& self.fits()
        &&& props_ok(v5, self.properties@, PropertyScope::Publish)
        &&& (self.qos == MqttQos::Qos0 ==> self.message_id == 0)
    }

    /// Whether `self` is what a PUBLISH body `s` decodes to under the header flags of `first`.
    pub open spec fn decodes(&self, s: Seq<u8>, first: u8, v5: bool) -> bool {
        match MqttQos::spec_from_byte(((first / 2) % 4) as u8) {
            None => false,
            Some(q) => match spec_parse_str(s) {
                None => false,
                Some((t, r1)) => match (if q == MqttQos::Qos0 {
                    Some((0u16, r1))
                } else {
                    spec_parse_short(r1)
                }) {
                    None => false,
                    Some((id, r2)) => match spec_parse_v5_props(r2, v5, PropertyScope::Publish) {
                        None => false,
                        Some((p, r3)) => {
                            &&& self.qos == q
                            &&& self.dup == MqttDup::spec_from_bit((first / 8) as u8)
                            &&& self.retain == MqttRetain::spec_from_bit(first)
                            &&& self.topic@ == t
                            &&& self.message_id == id
                            &&& items_view(self.properties@) == p
                            &&& self.msg_body@ == r3
                        },
                    },
                },
            },
        }
    }

    /// Decoding an encoded PUBLISH, header flags included, gives the packet back.
    pub proof fn lemma_round_trip(&self, v5: bool)
        requires
            self.wf(v5),
        ensures
            self.decodes(
                self.spec_body(v5),
                crate::tools::pack_tool::spec_publish_first_byte(self.qos, self.dup, self.retain),
                v5,
            ),
    {
        let first = crate::tools::pack_tool::spec_publish_first_byte(self.qos, self.dup, self.retain);
        let d = self.dup.spec_byte() as int;
        let q = self.qos.spec_byte() as int;
        let rt = self.retain.spec_byte() as int;
        assert(first == 48 + d * 8 + q * 2 + rt);
        assert((first / 2) % 4 == q);
        assert((first / 8) % 2 == d);
        assert(first % 2 == rt);
        crate::protocol::lemma_qos_byte_round_trip(self.qos);
        let p = v5_props(v5, self.properties@, PropertyScope::Publish);
        let t2 = p + self.msg_body@;
        let t1 = self.spec_id() + t2;
        assert(self.spec_body(v5) =~= spec_str(self.topic@) + t1);
        lemma_str_round_trip(self.topic@, t1);
        if self.qos == MqttQos::Qos0 {
            assert(t1 =~= t2);
        } else {
            lemma_short_round_trip(self.message_id, t2);
        }
        lemma_v5_props_len(v5, self.properties@, PropertyScope::Publish);
        crate::tools::pack_tool::lemma_vli_len(spec_items(items_view(self.properties@), PropertyScope::Publish).len());
        reveal(spec_props);
        lemma_v5_props_round_trip(v5, self.properties@, PropertyScope::Publish, self.msg_body@);
    }

    pub fn body(&self, v5: bool) -> (r: Vec<u8>)
        requires
            self.fits(),
        ensures
            r@ == self.spec_body(v5),
    {
        let mut body = pack_string(&self.topic);
        if !matches!(self.qos, MqttQos::Qos0) {
            let mut id = pack_short_int(self.message_id);
            body.append(&mut id);
        }
        let mut props = pack_v5_props(v5, &self.properties, PropertyScope::Publish);
        body.append(&mut props);
        push_bytes(&mut body, self.msg_body.as_slice());
        proof {
            assert(body@ =~= self.spec_body(v5));
        }
        body
    }

    pub fn decode_body(data: &[u8], first: u8, v5: bool) -> (r: Option<PublishMessage>)
        ensures
            r matches Some(m) ==> m.decodes(data@, first, v5),
            r is None ==> forall|m: PublishMessage| !m.decodes(data@, first, v5),
    {
        let qos = match MqttQos::from_byte((first / 2) % 4) {
            Some(q) => q,
            None => return None,
        };
        let (topic, r1) = match parse_string(data) {
            Some(p) => p,
            None => return None,
        };
        let (message_id, r2) = if matches!(qos, MqttQos::Qos0) {
            (0u16, r1)
        } else {
            match parse_short_int(r1) {
                Some(p) => p,
                None => return None,
            }
        };
        let (properties, r3) = match parse_v5_props(r2, v5, PropertyScope::Publish) {
            Some(p) => p,
            None => return None,
        };
        let mut msg_body: Vec<u8> = Vec::new();
        push_bytes(&mut msg_body, r3);
        proof {
            assert(msg_body@ =~= r3@);
        }
        Some(
            PublishMessage {
                message_id,
                topic,
                dup: MqttDup::from_bit(first / 8),
                qos,
                retain: MqttRetain::from_bit(first),
                msg_body,
                properties,
            },
        )
    }
}


/// One topic filter of a SUBSCRIBE packet with its subscription options byte. In MQTT 3.1.1 the
/// byte is the requested QoS; in MQTT 5 the QoS is its low two bits.
#[derive(Debug, Clone)]
pub struct TopicFilter {
    pub topic: String,
    pub options: u8,
}

impl TopicFilter {
    /// The QoS the subscriber asked for.
    pub open spec fn spec_requested_qos(&self, v5: bool) -> u8 {
        if v5 {
            (self.options % 4) as u8
        } else {
            self.options
        }
    }

    pub fn requested_qos(&self, v5: bool) -> (r: u8)
        ensures
            r == self.spec_requested_qos(v5),
    {
        if v5 {
            self.options % 4
        } else {
            self.options
        }
    }
}

pub open spec fn filters_view(v: Seq<TopicFilter>) -> Seq<(Seq<char>, u8)> {
    v.map_values(|f: TopicFilter| (f.topic@, f.options))
}

/// Each filter as a string and its options byte, in order.
pub open spec fn spec_filters(fs: Seq<(Seq<char>, u8)>) -> Seq<u8>
    decreases fs.len(),
{
    if fs.len() == 0 {
        Seq::empty()
    } else {
        spec_str(fs[0].0) + seq![fs[0].1] + spec_filters(fs.drop_first())
    }
}

/// Filters read one after the other until the input is exhausted.
pub open spec fn spec_parse_filters(s: Seq<u8>, fuel: nat) -> Option<Seq<(Seq<char>, u8)>>
    decreases fuel,
{
    if s.len() == 0 {
        Some(Seq::empty())
    } else if fuel == 0 {
        None
    } else {
        match spec_parse_str(s) {
            None => None,
            Some((t, r1)) => match spec_parse_byte(r1) {
                None => None,
                Some((o, r2)) => match spec_parse_filters(r2, (fuel - 1) as nat) {
                    None => None,
                    Some(tail) => Some(seq![(t, o)] + tail),
                },
            },
        }
    }
}

pub open spec fn filters_fit(fs: Seq<(Seq<char>, u8)>) -> bool {
    forall|k: int| 0 <= k < fs.len() ==> str_fits(#[trigger] fs[k].0)
}

proof fn lemma_filters_round_trip(fs: Seq<(Seq<char>, u8)>, fuel: nat)
    requires
        filters_fit(fs),
        fuel >= spec_filters(fs).len(),
    ensures
        spec_parse_filters(spec_filters(fs), fuel) == Some(fs),
    decreases fs.len(),
{
    if fs.len() > 0 {
        let tail = fs.drop_first();
        assert(filters_fit(tail)) by {
            assert forall|k: int| 0 <= k < tail.len() implies str_fits(#[trigger] tail[k].0) by {
                assert(tail[k] == fs[k + 1]);
            }
        }
        assert(str_fits(fs[0].0));
        let tb = spec_filters(tail);
        lemma_str_len(fs[0].0);
        lemma_str_round_trip(fs[0].0, seq![fs[0].1] + tb);
        lemma_byte_round_trip(fs[0].1, tb);
        assert(spec_filters(fs) =~= spec_str(fs[0].0) + (seq![fs[0].1] + tb));
        lemma_filters_round_trip(tail, (fuel - 1) as nat);
        assert(seq![fs[0]] + tail =~= fs);
    }
}

fn pack_filters_from(v: &Vec<TopicFilter>, i: usize) -> (r: Vec<u8>)
    requires
        i <= v@.len(),
        filters_fit(filters_view(v@)),
    ensures
        r@ == spec_filters(filters_view(v@).subrange(i as int, v@.len() as int)),
    decreases v@.len() - i,
{
    let ghost fs = filters_view(v@).subrange(i as int, v@.len() as int);
    if i == v.len() {
        proof {
            assert(fs.len() == 0);
        }
        return Vec::new();
    }
    let mut tail = pack_filters_from(v, i + 1);
    proof {
        assert(fs.drop_first() =~= filters_view(v@).subrange(i + 1, v@.len() as int));
        assert(str_fits(filters_view(v@)[i as int].0));
    }
    let mut r = pack_string(&v[i].topic);
    r.push(v[i].options);
    r.append(&mut tail);
    proof {
        assert(r@ =~= spec_str(fs[0].0) + seq![fs[0].1] + spec_filters(fs.drop_first()));
    }
    r
}

fn parse_filters(data: &[u8], fuel: usize) -> (r: Option<Vec<TopicFilter>>)
    ensures
        r matches Some(v) ==> spec_parse_filters(data@, fuel as nat) == Some(filters_view(v@)),
        r is None ==> spec_parse_filters(data@, fuel as nat) is None,
    decreases fuel,
{
    if data.len() == 0 {
        proof {
            assert(filters_view(Seq::<TopicFilter>::empty()) =~= Seq::empty());
        }
        return Some(Vec::new());
    }
    if fuel == 0 {
        return None;
    }
    let (topic, r1) = match parse_string(data) {
        Some(p) => p,
        None => return None,
    };
    let (options, r2) = match parse_byte(r1) {
        Some(p) => p,
        None => return None,
    };
    match parse_filters(r2, fuel - 1) {
        Some(mut tail) => {
            let ghost old_tail = tail@;
            let f = TopicFilter { topic, options };
            tail.insert(0, f);
            proof {
                assert(filters_view(tail@) =~= seq![(f.topic@, f.options)] + filters_view(old_tail));
            }
            Some(tail)
        },
        None => None,
    }
}

/// A SUBSCRIBE packet.
#[derive(Debug, Clone)]
pub struct SubscribeMessage {
    pub message_id: u16,
    pub filters: Vec<TopicFilter>,
    pub properties: Vec<PropertyItem>,
}

impl SubscribeMessage {
    /// A SUBSCRIBE for one topic.
    pub fn new(message_id: u16, topic: String, qos: MqttQos) -> (r: SubscribeMessage)
        ensures
            r.message_id == message_id,
            r.filters@.len() == 1,
            r.filters@[0].topic == topic,
            r.filters@[0].options == qos.spec_byte(),
            r.properties@.len() == 0,
    {
        let mut filters: Vec<TopicFilter> = Vec::new();
        filters.push(TopicFilter { topic, options: qos.as_byte() });
        SubscribeMessage { message_id, filters, properties: Vec::new() }
    }

    pub open spec fn spec_body(&self, v5: bool) -> Seq<u8> {
        spec_short(self.message_id as nat) + v5_props(v5, self.properties@, PropertyScope::Subscribe)
            + spec_filters(filters_view(self.filters@))
    }

    pub open spec fn fits(&self) -> bool {
        &&& filters_fit(filters_view(self.filters@))
        &&& items_fit(items_view(self.properties@))
        &&& spec_items(items_view(self.properties@), PropertyScope::Subscribe).len() <= MAX_REMAINING_LENGTH
    }

    pub open spec fn wf(&self, v5: bool) -> bool {
        self.fits() && props_ok(v5, self.properties@, PropertyScope::Subscribe)
    }

    pub open spec fn decodes(&self, s: Seq<u8>, v5: bool) -> bool {
        match spec_parse_short(s) {
            None => false,
            Some((id, r1)) => match spec_parse_v5_props(r1, v5, PropertyScope::Subscribe) {
                None => false,
                Some((p, r2)) => match spec_parse_filters(r2, r2.len()) {
                    None => false,
                    Some(fs) => {
                        &&& self.message_id == id
                        &&& items_view(self.properties@) == p
                        &&& filters_view(self.filters@) == fs
                    },
                },
            },
        }
    }

    /// Decoding an encoded SUBSCRIBE body gives the packet back.
    pub proof fn lemma_round_trip(&self, v5: bool)
        requires
            self.wf(v5),
        ensures
            self.decodes(self.spec_body(v5), v5),
    {
        let fb = spec_filters(filters_view(self.filters@));
        let p = v5_props(v5, self.properties@, PropertyScope::Subscribe);
        assert(self.spec_body(v5) =~= spec_short(self.message_id as nat) + (p + fb));
        lemma_short_round_trip(self.message_id, p + fb);
        lemma_v5_props_round_trip(v5, self.properties@, PropertyScope::Subscribe, fb);
        lemma_filters_round_trip(filters_view(self.filters@), fb.len());
    }

    pub fn body(&self, v5: bool) -> (r: Vec<u8>)
        requires
            self.fits(),
        ensures
            r@ == self.spec_body(v5),
    {
        let mut body = pack_short_int(self.message_id);
        let mut props = pack_v5_props(v5, &self.properties, PropertyScope::Subscribe);
        body.append(&mut props);
        let mut fs = pack_filters_from(&self.filters, 0);
        proof {
            assert(filters_view(self.filters@).subrange(0, self.filters@.len() as int) =~= filters_view(self.filters@));
        }
        body.append(&mut fs);
        body
    }

    pub fn decode_body(data: &[u8], v5: bool) -> (r: Option<SubscribeMessage>)
        ensures
            r matches Some(m) ==> m.decodes(data@, v5),
            r is None ==> forall|m: SubscribeMessage| !m.decodes(data@, v5),
    {
        let (message_id, r1) = match parse_short_int(data) {
            Some(p) => p,
            None => return None,
        };
        let (properties, r2) = match parse_v5_props(r1, v5, PropertyScope::Subscribe) {
            Some(p) => p,
            None => return None,
        };
        match parse_filters(r2, r2.len()) {
            Some(filters) => Some(SubscribeMessage { message_id, filters, properties }),
            None => None,
        }
    }
}

pub open spec fn topics_view(v: Seq<String>) -> Seq<Seq<char>> {
    v.map_values(|t: String| t@)
}

pub open spec fn spec_topics(ts: Seq<Seq<char>>) -> Seq<u8>
    decreases ts.len(),
{
    if ts.len() == 0 {
        Seq::empty()
    } else {
        spec_str(ts[0]) + spec_topics(ts.drop_first())
    }
}

pub open spec fn spec_parse_topics(s: Seq<u8>, fuel: nat) -> Option<Seq<Seq<char>>>
    decreases fuel,
{
    if s.len() == 0 {
        Some(Seq::empty())
    } else if fuel == 0 {
        None
    } else {
        match spec_parse_str(s) {
            None => None,
            Some((t, r1)) => match spec_parse_topics(r1, (fuel - 1) as nat) {
                None => None,
                Some(tail) => Some(seq![t] + tail),
            },
        }
    }
}

pub open spec fn topics_fit(ts: Seq<Seq<char>>) -> bool {
    forall|k: int| 0 <= k < ts.len() ==> str_fits(#[trigger] ts[k])
}

proof fn lemma_topics_round_trip(ts: Seq<Seq<char>>, fuel: nat)
    requires
        topics_fit(ts),
        fuel >= spec_topics(ts).len(),
    ensures
        spec_parse_topics(spec_topics(ts), fuel) == Some(ts),
    decreases ts.len(),
{
    if ts.len() > 0 {
        let tail = ts.drop_first();
        assert(topics_fit(tail)) by {
            assert forall|k: int| 0 <= k < tail.len() implies str_fits(#[trigger] tail[k]) by {
                assert(tail[k] == ts[k + 1]);
            }
        }
        assert(str_fits(ts[0]));
        let tb = spec_topics(tail);
        lemma_str_len(ts[0]);
        lemma_str_round_trip(ts[0], tb);
        lemma_topics_round_trip(tail, (fuel - 1) as nat);
        assert(seq![ts[0]] + tail =~= ts);
    }
}

fn pack_topics_from(v: &Vec<String>, i: usize) -> (r: Vec<u8>)
    requires
        i <= v@.len(),
        topics_fit(topics_view(v@)),
    ensures
        r@ == spec_topics(topics_view(v@).subrange(i as int, v@.len() as int)),
    decreases v@.len() - i,
{
    let ghost ts = topics_view(v@).subrange(i as int, v@.len() as int);
    if i == v.len() {
        proof {
            assert(ts.len() == 0);
        }
        return Vec::new();
    }
    let mut tail = pack_topics_from(v, i + 1);
    proof {
        assert(ts.drop_first() =~= topics_view(v@).subrange(i + 1, v@.len() as int));
        assert(str_fits(topics_view(v@)[i as int]));
    }
    let mut r = pack_string(&v[i]);
    r.append(&mut tail);
    r
}

fn parse_topics(data: &[u8], fuel: usize) -> (r: Option<Vec<String>>)
    ensures
        r matches Some(v) ==> spec_parse_topics(data@, fuel as nat) == Some(topics_view(v@)),
        r is None ==> spec_parse_topics(data@, fuel as nat) is None,
    decreases fuel,
{
    if data.len() == 0 {
        proof {
            assert(topics_view(Seq::<String>::empty()) =~= Seq::empty());
        }
        return Some(Vec::new());
    }
    if fuel == 0 {
        return None;
    }
    let (topic, r1) = match parse_string(data) {
        Some(p) => p,
        None => return None,
    };
    match parse_topics(r1, fuel - 1) {
        Some(mut tail) => {
            let ghost old_tail = tail@;
            let ghost t = topic@;
            tail.insert(0, topic);
            proof {
                assert(topics_view(tail@) =~= seq![t] + topics_view(old_tail));
            }
            Some(tail)
        },
        None => None,
    }
}

/// An UNSUBSCRIBE packet.
#[derive(Debug, Clone)]
pub struct UnsubscribeMessage {
    pub message_id: u16,
    pub topics: Vec<String>,
    pub properties: Vec<PropertyItem>,
}

impl UnsubscribeMessage {
    /// An UNSUBSCRIBE for one topic.
    pub fn new(message_id: u16, topic: String) -> (r: UnsubscribeMessage)
        ensures
            r.message_id == message_id,
            r.topics@ == seq![topic],
            r.properties@.len() == 0,
    {
        let mut topics: Vec<String> = Vec::new();
        topics.push(topic);
        UnsubscribeMessage { message_id, topics, properties: Vec::new() }
    }

    pub open spec fn spec_body(&self, v5: bool) -> Seq<u8> {
        spec_short(self.message_id as nat) + v5_props(v5, self.properties@, PropertyScope::Unsubscribe)
            + spec_topics(topics_view(self.topics@))
    }

    pub open spec fn fits(&self) -> bool {
        &&& topics_fit(topics_view(self.topics@))
        &&& items_fit(items_view(self.properties@))
        &&& spec_items(items_view(self.properties@), PropertyScope::Unsubscribe).len() <= MAX_REMAINING_LENGTH
    }

    pub open spec fn wf(&self, v5: bool) -> bool {
        self.fits() && props_ok(v5, self.properties@, PropertyScope::Unsubscribe)
    }

    pub open spec fn decodes(&self, s: Seq<u8>, v5: bool) -> bool {
        match spec_parse_short(s) {
            None => false,
            Some((id, r1)) => match spec_parse_v5_props(r1, v5, PropertyScope::Unsubscribe) {
                None => false,
                Some((p, r2)) => match spec_parse_topics(r2, r2.len()) {
                    None => false,
                    Some(ts) => {
                        &&& self.message_id == id
                        &&& items_view(self.properties@) == p
                        &&& topics_view(self.topics@) == ts
                    },
                },
            },
        }
    }

    /// Decoding an encoded UNSUBSCRIBE body gives the packet back.
    pub proof fn lemma_round_trip(&self, v5: bool)
        requires
            self.wf(v5),
        ensures
            self.decodes(self.spec_body(v5), v5),
    {
        let tb = spec_topics(topics_view(self.topics@));
        let p = v5_props(v5, self.properties@, PropertyScope::Unsubscribe);
        assert(self.spec_body(v5) =~= spec_short(self.message_id as nat) + (p + tb));
        lemma_short_round_trip(self.message_id, p + tb);
        lemma_v5_props_round_trip(v5, self.properties@, PropertyScope::Unsubscribe, tb);
        lemma_topics_round_trip(topics_view(self.topics@), tb.len());
    }

    pub fn body(&self, v5: bool) -> (r: Vec<u8>)
        requires
            self.fits(),
        ensures
            r@ == self.spec_body(v5),
    {
        let mut body = pack_short_int(self.message_id);
        let mut props = pack_v5_props(v5, &self.properties, PropertyScope::Unsubscribe);
        body.append(&mut props);
        let mut ts = pack_topics_from(&self.topics, 0);
        proof {
            assert(topics_view(self.topics@).subrange(0, self.topics@.len() as int) =~= topics_view(self.topics@));
        }
        body.append(&mut ts);
        body
    }

    pub fn decode_body(data: &[u8], v5: bool) -> (r: Option<UnsubscribeMessage>)
        ensures
            r matches Some(m) ==> m.decodes(data@, v5),
            r is None ==> forall|m: UnsubscribeMessage| !m.decodes(data@, v5),
    {
        let (message_id, r1) = match parse_short_int(data) {
            Some(p) => p,
            None => return None,
        };
        let (properties, r2) = match parse_v5_props(r1, v5, PropertyScope::Unsubscribe) {
            Some(p) => p,
            None => return None,
        };
        match parse_topics(r2, r2.len()) {
            Some(topics) => Some(UnsubscribeMessage { message_id, topics, properties }),
            None => None,
        }
    }
}

/// Reason codes after a packet identifier and, in MQTT 5, properties.
pub open spec fn spec_codes_body(id: u16, codes: Seq<u8>, items: Seq<PropertyItem>, v5: bool) -> Seq<u8> {
    spec_short(id as nat) + v5_props(v5, items, PropertyScope::PubAndSub) + codes
}

pub open spec fn codes_decode(s: Seq<u8>, v5: bool, id: u16, codes: Seq<u8>, items: Seq<PropertyItem>) -> bool {
    match spec_parse_short(s) {
        None => false,
        Some((i, r1)) => match spec_parse_v5_props(r1, v5, PropertyScope::PubAndSub) {
            None => false,
            Some((p, r2)) => i == id && items_view(items) == p && codes == r2,
        },
    }
}

pub proof fn lemma_codes_round_trip(id: u16, codes: Seq<u8>, items: Seq<PropertyItem>, v5: bool)
    requires
        props_ok(v5, items, PropertyScope::PubAndSub),
        spec_items(items_view(items), PropertyScope::PubAndSub).len() <= MAX_REMAINING_LENGTH,
    ensures
        codes_decode(spec_codes_body(id, codes, items, v5), v5, id, codes, items),
{
    let p = v5_props(v5, items, PropertyScope::PubAndSub);
    assert(spec_codes_body(id, codes, items, v5) =~= spec_short(id as nat) + (p + codes));
    lemma_short_round_trip(id, p + codes);
    lemma_v5_props_round_trip(v5, items, PropertyScope::PubAndSub, codes);
}

pub fn pack_codes(id: u16, codes: &Vec<u8>, items: &Vec<PropertyItem>, v5: bool) -> (r: Vec<u8>)
    requires
        items_fit(items_view(items@)),
        spec_items(items_view(items@), PropertyScope::PubAndSub).len() <= MAX_REMAINING_LENGTH,
    ensures
        r@ == spec_codes_body(id, codes@, items@, v5),
{
    let mut body = pack_short_int(id);
    let mut props = pack_v5_props(v5, items, PropertyScope::PubAndSub);
    body.append(&mut props);
    push_bytes(&mut body, codes.as_slice());
    body
}

pub fn parse_codes(data: &[u8], v5: bool) -> (r: Option<(u16, Vec<u8>, Vec<PropertyItem>)>)
    ensures
        r matches Some((id, codes, items)) ==> codes_decode(data@, v5, id, codes@, items@),
        r is None ==> forall|id: u16, codes: Seq<u8>, items: Seq<PropertyItem>| !codes_decode(data@, v5, id, codes, items),
{
    let (id, r1) = match parse_short_int(data) {
        Some(p) => p,
        None => return None,
    };
    let (items, r2) = match parse_v5_props(r1, v5, PropertyScope::PubAndSub) {
        Some(p) => p,
        None => return None,
    };
    let mut codes: Vec<u8> = Vec::new();
    push_bytes(&mut codes, r2);
    proof {
        assert(codes@ =~= r2@);
    }
    Some((id, codes, items))
}

/// A SUBACK packet: one return code per filter of the SUBSCRIBE it answers.
#[derive(Debug, Clone)]
pub struct SubackMessage {
    pub message_id: u16,
    pub codes: Vec<u8>,
    pub properties: Vec<PropertyItem>,
}

/// The SUBACK return code for a requested QoS: the QoS itself when granted, the failure code otherwise.
pub open spec fn spec_granted(qos: u8) -> u8 {
    if qos <= 2 {
        qos
    } else {
        crate::protocol::SUBACK_FAILURE
    }
}

impl SubackMessage {
    /// A SUBACK with the single code for `qos`.
    pub fn new(message_id: u16, qos: u8) -> (r: SubackMessage)
        ensures
            r.message_id == message_id,
            r.codes@ == seq![spec_granted(qos)],
            r.properties@.len() == 0,
    {
        let mut codes: Vec<u8> = Vec::new();
        codes.push(if qos <= 2 { qos } else { crate::protocol::SUBACK_FAILURE });
        SubackMessage { message_id, codes, properties: Vec::new() }
    }

    pub open spec fn spec_body(&self, v5: bool) -> Seq<u8> {
        spec_codes_body(self.message_id, self.codes@, self.properties@, v5)
    }

    pub open spec fn fits(&self) -> bool {
        &&& items_fit(items_view(self.properties@))
        &&& spec_items(items_view(self.properties@), PropertyScope::PubAndSub).len() <= MAX_REMAINING_LENGTH
    }

    pub open spec fn wf(&self, v5: bool) -> bool {
        self.fits() && props_ok(v5, self.properties@, PropertyScope::PubAndSub)
    }

    pub open spec fn decodes(&self, s: Seq<u8>, v5: bool) -> bool {
        codes_decode(s, v5, self.message_id, self.codes@, self.properties@)
    }

    /// Decoding an encoded SUBACK body gives the packet back.
    pub proof fn lemma_round_trip(&self, v5: bool)
        requires
            self.wf(v5),
        ensures
            self.decodes(self.spec_body(v5), v5),
    {
        lemma_codes_round_trip(self.message_id, self.codes@, self.properties@, v5);
    }

    pub fn body(&self, v5: bool) -> (r: Vec<u8>)
        requires
            self.fits(),
        ensures
            r@ == self.spec_body(v5),
    {
        pack_codes(self.message_id, &self.codes, &self.properties, v5)
    }

    pub fn decode_body(data: &[u8], v5: bool) -> (r: Option<SubackMessage>)
        ensures
            r matches Some(m) ==> m.decodes(data@, v5),
            r is None ==> forall|m: SubackMessage| !m.decodes(data@, v5),
    {
        match parse_codes(data, v5) {
            Some((message_id, codes, properties)) => Some(SubackMessage { message_id, codes, properties }),
            None => None,
        }
    }
}

/// An UNSUBACK packet; reason codes exist in MQTT 5 only.
#[derive(Debug, Clone)]
pub struct UnsubackMessage {
    pub message_id: u16,
    pub codes: Vec<u8>,
    pub properties: Vec<PropertyItem>,
}

impl UnsubackMessage {
    pub fn new(message_id: u16) -> (r: UnsubackMessage)
        ensures
            r.message_id == message_id,
            r.codes@.len() == 0,
            r.properties@.len() == 0,
    {
        UnsubackMessage { message_id, codes: Vec::new(), properties: Vec::new() }
    }

    pub open spec fn spec_body(&self, v5: bool) -> Seq<u8> {
        if v5 {
            spec_codes_body(self.message_id, self.codes@, self.properties@, v5)
        } else {
            spec_short(self.message_id as nat)
        }
    }

    pub open spec fn fits(&self) -> bool {
        &&& items_fit(items_view(self.properties@))
        &&& spec_items(items_view(self.properties@), PropertyScope::PubAndSub).len() <= MAX_REMAINING_LENGTH
    }

    pub open spec fn wf(&self, v5: bool) -> bool {
        &&& self.fits()
        &&& props_ok(v5, self.properties@, PropertyScope::PubAndSub)
        &&& (!v5 ==> self.codes@.len() == 0)
    }

    pub open spec fn decodes(&self, s: Seq<u8>, v5: bool) -> bool {
        if v5 {
            codes_decode(s, v5, self.message_id, self.codes@, self.properties@)
        } else {
            match spec_parse_short(s) {
                None => false,
                Some((i, _)) => self.message_id == i && self.codes@.len() == 0 && self.properties@.len() == 0,
            }
        }
    }

    /// Decoding an encoded UNSUBACK body gives the packet back.
    pub proof fn lemma_round_trip(&self, v5: bool)
        requires
            self.wf(v5),
        ensures
            self.decodes(self.spec_body(v5), v5),
    {
        if v5 {
            lemma_codes_round_trip(self.message_id, self.codes@, self.properties@, v5);
        } else {
            lemma_short_round_trip(self.message_id, Seq::empty());
            assert(spec_short(self.message_id as nat) + Seq::empty() =~= spec_short(self.message_id as nat));
        }
    }

    pub fn body(&self, v5: bool) -> (r: Vec<u8>)
        requires
            self.fits(),
        ensures
            r@ == self.spec_body(v5),
    {
        if v5 {
            pack_codes(self.message_id, &self.codes, &self.properties, v5)
        } else {
            pack_short_int(self.message_id)
        }
    }

    pub fn decode_body(data: &[u8], v5: bool) -> (r: Option<UnsubackMessage>)
        ensures
            r matches Some(m) ==> m.decodes(data@, v5),
            r is None ==> forall|m: UnsubackMessage| !m.decodes(data@, v5),
    {
        if v5 {
            match parse_codes(data, v5) {
                Some((message_id, codes, properties)) => Some(UnsubackMessage { message_id, codes, properties }),
                None => None,
            }
        } else {
            match parse_short_int(data) {
                Some((message_id, _)) => Some(UnsubackMessage::new(message_id)),
                None => None,
            }
        }
    }
}

/// A PINGREQ packet.
#[derive(Debug, Clone)]
pub struct PingreqMessage {}

/// A PINGRESP packet.
#[derive(Debug, Clone)]
pub struct PingrespMessage {}

/// A reason code and properties (MQTT 5 DISCONNECT and AUTH); absent parts read as success and no
/// properties.
pub open spec fn spec_reason_body(code: u8, items: Seq<PropertyItem>, scope: PropertyScope) -> Seq<u8> {
    seq![code] + spec_props(items_view(items), scope)
}

pub open spec fn reason_decodes(s: Seq<u8>, code: u8, items: Seq<PropertyItem>, scope: PropertyScope) -> bool {
    if s.len() == 0 {
        code == 0 && items.len() == 0
    } else if s.len() == 1 {
        code == s[0] && items.len() == 0
    } else {
        code == s[0] && match spec_parse_props(s.subrange(1, s.len() as int), scope) {
            Some((p, _)) => items_view(items) == p,
            None => false,
        }
    }
}

pub proof fn lemma_reason_round_trip(code: u8, items: Seq<PropertyItem>, scope: PropertyScope)
    requires
        items_wf(items_view(items), scope),
        spec_items(items_view(items), scope).len() <= MAX_REMAINING_LENGTH,
    ensures
        reason_decodes(spec_reason_body(code, items, scope), code, items, scope),
{
    let p = spec_props(items_view(items), scope);
    reveal(spec_props);
    crate::tools::pack_tool::lemma_vli_len(spec_items(items_view(items), scope).len());
    let s = spec_reason_body(code, items, scope);
    assert(s.subrange(1, s.len() as int) =~= p + Seq::empty());
    lemma_props_round_trip(items_view(items), scope, Seq::empty());
}

pub fn pack_reason(code: u8, items: &Vec<PropertyItem>, scope: PropertyScope) -> (r: Vec<u8>)
    requires
        items_fit(items_view(items@)),
        spec_items(items_view(items@), scope).len() <= MAX_REMAINING_LENGTH,
    ensures
        r@ == spec_reason_body(code, items@, scope),
{
    let mut body: Vec<u8> = Vec::new();
    body.push(code);
    let mut props = pack_properties(items, scope);
    body.append(&mut props);
    proof {
        assert(body@ =~= spec_reason_body(code, items@, scope));
    }
    body
}

pub fn parse_reason(data: &[u8], scope: PropertyScope) -> (r: Option<(u8, Vec<PropertyItem>)>)
    ensures
        r matches Some((code, items)) ==> reason_decodes(data@, code, items@, scope),
        r is None ==> forall|code: u8, items: Seq<PropertyItem>| !reason_decodes(data@, code, items, scope),
{
    if data.len() == 0 {
        return Some((0, Vec::new()));
    }
    if data.len() == 1 {
        return Some((data[0], Vec::new()));
    }
    match unpack_properties(slice_subrange(data, 1, data.len()), scope) {
        Some((items, _)) => Some((data[0], items)),
        None => None,
    }
}

/// A DISCONNECT packet; reason code and properties exist in MQTT 5 only.
#[derive(Debug, Clone)]
pub struct DisconnectMessage {
    pub code: u8,
    pub properties: Vec<PropertyItem>,
}

impl DisconnectMessage {
    pub fn new() -> (r: DisconnectMessage)
        ensures
            r.code == 0,
            r.properties@.len() == 0,
    {
        DisconnectMessage { code: 0, properties: Vec::new() }
    }

    pub open spec fn spec_body(&self, v5: bool) -> Seq<u8> {
        if v5 {
            spec_reason_body(self.code, self.properties@, PropertyScope::Disconnect)
        } else {
            Seq::empty()
        }
    }

    pub open spec fn fits(&self) -> bool {
        &&& items_fit(items_view(self.properties@))
        &&& spec_items(items_view(self.properties@), PropertyScope::Disconnect).len() <= MAX_REMAINING_LENGTH
    }

    pub open spec fn wf(&self, v5: bool) -> bool {
        &&& self.fits()
        &&& props_ok(v5, self.properties@, PropertyScope::Disconnect)
        &&& (!v5 ==> self.code == 0)
    }

    pub open spec fn decodes(&self, s: Seq<u8>, v5: bool) -> bool {
        if v5 {
            reason_decodes(s, self.code, self.properties@, PropertyScope::Disconnect)
        } else {
            self.code == 0 && self.properties@.len() == 0
        }
    }

    /// Decoding an encoded DISCONNECT body gives the packet back.
    pub proof fn lemma_round_trip(&self, v5: bool)
        requires
            self.wf(v5),
        ensures
            self.decodes(self.spec_body(v5), v5),
    {
        if v5 {
            lemma_reason_round_trip(self.code, self.properties@, PropertyScope::Disconnect);
        }
    }

    pub fn body(&self, v5: bool) -> (r: Vec<u8>)
        requires
            self.fits(),
        ensures
            r@ == self.spec_body(v5),
    {
        if v5 {
            pack_reason(self.code, &self.properties, PropertyScope::Disconnect)
        } else {
            Vec::new()
        }
    }

    pub fn decode_body(data: &[u8], v5: bool) -> (r: Option<DisconnectMessage>)
        ensures
            r matches Some(m) ==> m.decodes(data@, v5),
            r is None ==> forall|m: DisconnectMessage| !m.decodes(data@, v5),
    {
        if v5 {
            match parse_reason(data, PropertyScope::Disconnect) {
                Some((code, properties)) => Some(DisconnectMessage { code, properties }),
                None => None,
            }
        } else {
            Some(DisconnectMessage::new())
        }
    }
}

/// An AUTH packet (MQTT 5 only).
#[derive(Debug, Clone)]
pub struct AuthMessage {
    pub code: u8,
    pub properties: Vec<PropertyItem>,
}

impl AuthMessage {
    pub fn new(code: u8) -> (r: AuthMessage)
        ensures
            r.code == code,
            r.properties@.len() == 0,
    {
        AuthMessage { code, properties: Vec::new() }
    }

    pub open spec fn spec_body(&self) -> Seq<u8> {
        spec_reason_body(self.code, self.properties@, PropertyScope::Auth)
    }

    pub open spec fn fits(&self) -> bool {
        &&& items_fit(items_view(self.properties@))
        &&& spec_items(items_view(self.properties@), PropertyScope::Auth).len() <= MAX_REMAINING_LENGTH
    }

    pub open spec fn wf(&self) -> bool {
        self.fits() && items_wf(items_view(self.properties@), PropertyScope::Auth)
    }

    pub open spec fn decodes(&self, s: Seq<u8>) -> bool {
        reason_decodes(s, self.code, self.properties@, PropertyScope::Auth)
    }

    /// Decoding an encoded AUTH body gives the packet back.
    pub proof fn lemma_round_trip(&self)
        requires
            self.wf(),
        ensures
            self.decodes(self.spec_body()),
    {
        lemma_reason_round_trip(self.code, self.properties@, PropertyScope::Auth);
    }

    pub fn body(&self) -> (r: Vec<u8>)
        requires
            self.fits(),
        ensures
            r@ == self.spec_body(),
    {
        pack_reason(self.code, &self.properties, PropertyScope::Auth)
    }

    pub fn decode_body(data: &[u8]) -> (r: Option<AuthMessage>)
        ensures
            r matches Some(m) ==> m.decodes(data@),
            r is None ==> forall|m: AuthMessage| !m.decodes(data@),
    {
        match parse_reason(data, PropertyScope::Auth) {
            Some((code, properties)) => Some(AuthMessage { code, properties }),
            None => None,
        }
    }
}


impl Default for ConnackMessage {
    /// A CONNACK accepting the connection, without a session present.
    fn default() -> (r: ConnackMessage)
        ensures
            r.session_present == MqttSessionPresent::Disable,
            r.return_code == 0,
            r.properties@.len() == 0,
    {
        ConnackMessage::new(MqttSessionPresent::Disable, 0)
    }
}

impl Default for DisconnectMessage {
    /// A DISCONNECT with success as its reason.
    fn default() -> (r: DisconnectMessage)
        ensures
            r.code == 0,
            r.properties@.len() == 0,
    {
        DisconnectMessage::new()
    }
}

impl Default for AuthMessage {
    /// An AUTH with success as its reason.
    fn default() -> (r: AuthMessage)
        ensures
            r.code == 0,
            r.properties@.len() == 0,
    {
        AuthMessage::new(0)
    }
}

impl Default for PingreqMessage {
    fn default() -> (r: PingreqMessage) {
        PingreqMessage {  }
    }
}

impl Default for PingrespMessage {
    fn default() -> (r: PingrespMessage) {
        PingrespMessage {  }
    }
}

} // verus!
