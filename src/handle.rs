use vstd::prelude::*;
use crate::container::{MessageContainer, MessageFrame, spec_init, spec_append, spec_complete};
use crate::hex::{PropertyItem, PropertyScope, items_view, copy_items, lemma_empty_props};
use crate::message::entity::{
    ConnectMessage, PublishMessage, TopicFilter, opt_view, v5_props, spec_ack_body, spec_codes_body,
    spec_granted, pack_ack, pack_codes,
};
use crate::message::v5::MqttMessageV5;
use crate::protocol::{MqttProtocolLevel, MqttQos, TypeKind, SUBACK_FAILURE};
use crate::session::ServerSession;
use crate::subscript::{
    ClientID, Subscript, TopicMessage, ids_view, spec_subscribers, spec_exit, spec_subscribe,
    spec_unsubscribe,
};
use crate::tools::pack_tool::{
    spec_header, spec_short, spec_str, spec_publish_first_byte, str_fits, MAX_REMAINING_LENGTH,
    MAX_STRING_LENGTH, pack_header, pack_publish_header, push_bytes, };

verus! {

/// Bytes to write on a connection, with the version they were encoded at.
#[derive(Debug)]
pub struct Response(pub Vec<u8>, pub MqttProtocolLevel);

/// What a connection's event queue carries.
#[derive(Debug)]
pub enum HandleEvent {
    /// Bytes read from the connection.
    InputEvent(Vec<u8>),
    /// A PUBLISH fanned out to this connection's client.
    BroadcastEvent(TopicMessage),
    /// Bytes to write as they are.
    OutputEvent(Response),
    /// The connection ends; the flag says whether the will is to be published.
    ExitEvent(bool),
}

/// What the connection runner is to do after an event.
#[derive(Debug)]
pub enum ReturnKind {
    /// Write these bytes to the connection.
    Response(Vec<u8>),
    /// Queue this content as a broadcast event for the named client.
    Deliver(ClientID, TopicMessage),
    /// Close the connection.
    Exit,
}

/// The state the connections share: the subscription registry and the in-flight container.
pub struct Broker {
    pub subscript: Subscript,
    pub container: MessageContainer,
}

impl Broker {
    pub open spec fn wf(&self) -> bool {
        self.subscript.wf() && self.container.wf()
    }

    pub fn new() -> (r: Broker)
        ensures
            r.wf(),
            r.subscript.sub_set() == Set::<(Seq<char>, Seq<char>)>::empty(),
            r.subscript.topic_set() == Set::<Seq<char>>::empty(),
            r.container.view() == Map::<Seq<char>, Map<u16, MessageFrame>>::empty(),
    {
        Broker { subscript: Subscript::new(), container: MessageContainer::new() }
    }
}

/// A packet: the fixed header's first byte, its remaining length, the body.
pub open spec fn spec_packet(first: u8, body: Seq<u8>) -> Seq<u8> {
    spec_header(first, body.len()) + body
}

pub open spec fn spec_connack_packet(v5: bool) -> Seq<u8> {
    spec_packet(
        TypeKind::CONNACK.spec_header_byte(),
        seq![0u8, 0u8] + v5_props(v5, Seq::empty(), PropertyScope::Connack),
    )
}

pub open spec fn spec_ack_packet(kind: TypeKind, id: u16, v5: bool) -> Seq<u8> {
    spec_packet(kind.spec_header_byte(), spec_ack_body(id, 0, Seq::empty(), v5))
}

pub open spec fn spec_suback_packet(id: u16, codes: Seq<u8>, v5: bool) -> Seq<u8> {
    spec_packet(TypeKind::SUBACK.spec_header_byte(), spec_codes_body(id, codes, Seq::empty(), v5))
}

pub open spec fn spec_unsuback_packet(id: u16, n: nat, v5: bool) -> Seq<u8> {
    spec_packet(
        TypeKind::UNSUBACK.spec_header_byte(),
        if v5 {
            spec_codes_body(id, Seq::new(n, |i: int| 0u8), Seq::empty(), true)
        } else {
            spec_short(id as nat)
        },
    )
}

pub open spec fn spec_pingresp_packet() -> Seq<u8> {
    spec_packet(TypeKind::PINGRESP.spec_header_byte(), Seq::empty())
}

/// A PUBLISH as sent on to a subscriber: the same topic, flags and payload under the identifier
/// `id`, without properties.
pub open spec fn spec_forward_packet(p: PublishMessage, id: u16, v5: bool) -> Seq<u8> {
    spec_packet(
        spec_publish_first_byte(p.qos, p.dup, p.retain),
        spec_str(p.topic@) + (if p.qos == MqttQos::Qos0 {
            Seq::empty()
        } else {
            spec_short(id as nat)
        }) + v5_props(v5, Seq::empty(), PropertyScope::Publish) + p.msg_body@,
    )
}

/// Whether a PUBLISH can be sent on: its topic fits a string and the packet a remaining length.
pub open spec fn forwardable(p: PublishMessage) -> bool {
    &&& str_fits(p.topic@)
    &&& p.msg_body@.len() + 5 + vstd::utf8::encode_utf8(p.topic@).len() <= MAX_REMAINING_LENGTH
}

/// The SUBACK codes for a list of filters.
pub open spec fn spec_granted_codes(fs: Seq<TopicFilter>, v5: bool) -> Seq<u8> {
    fs.map_values(|f: TopicFilter| spec_granted(f.spec_requested_qos(v5)))
}

/// The registry after `c` subscribes to every filter of `fs`, in order.
pub open spec fn subscribe_all(subs: Set<(Seq<char>, Seq<char>)>, fs: Seq<TopicFilter>, c: Seq<char>) -> Set<
    (Seq<char>, Seq<char>),
>
    decreases fs.len(),
{
    if fs.len() == 0 {
        subs
    } else {
        spec_subscribe(subscribe_all(subs, fs.drop_last(), c), fs.last().topic@, c)
    }
}

/// The known topics after subscriptions to every filter of `fs`.
pub open spec fn add_topics(topics: Set<Seq<char>>, fs: Seq<TopicFilter>) -> Set<Seq<char>>
    decreases fs.len(),
{
    if fs.len() == 0 {
        topics
    } else {
        add_topics(topics, fs.drop_last()).insert(fs.last().topic@)
    }
}

/// The registry after `c` unsubscribes from every topic of `ts`, in order.
pub open spec fn unsubscribe_all(subs: Set<(Seq<char>, Seq<char>)>, ts: Seq<String>, c: Seq<char>) -> Set<
    (Seq<char>, Seq<char>),
>
    decreases ts.len(),
{
    if ts.len() == 0 {
        subs
    } else {
        spec_unsubscribe(unsubscribe_all(subs, ts.drop_last(), c), ts.last()@, c)
    }
}

pub open spec fn is_response(k: ReturnKind, bytes: Seq<u8>) -> bool {
    match k {
        ReturnKind::Response(v) => v@ == bytes,
        _ => false,
    }
}

/// Whether two PUBLISH packets have the same fields.
pub open spec fn same_publish(a: PublishMessage, b: PublishMessage) -> bool {
    &&& a.topic@ == b.topic@
    &&& a.msg_body@ == b.msg_body@
    &&& a.qos == b.qos
    &&& a.dup == b.dup
    &&& a.retain == b.retain
    &&& a.message_id == b.message_id
    &&& items_view(a.properties@) == items_view(b.properties@)
}

/// Whether the first `n` actions deliver `p`, in the name of `sender`, to each client of `to` once.
pub open spec fn delivers(a: Seq<ReturnKind>, n: int, sender: Seq<char>, p: PublishMessage, to: Set<Seq<char>>) -> bool {
    &&& 0 <= n <= a.len()
    &&& forall|k: int| 0 <= k < n ==> match #[trigger] a[k] {
        ReturnKind::Deliver(_, m) => m.sender() == sender && same_publish(m.publish(), p),
        _ => false,
    }
    &&& delivered(a, n).no_duplicates()
    &&& delivered(a, n).to_set() == to
}

/// The clients the first `n` actions deliver to.
pub open spec fn delivered(a: Seq<ReturnKind>, n: int) -> Seq<Seq<char>> {
    Seq::new(
        n as nat,
        |k: int|
            match a[k] {
                ReturnKind::Deliver(c, _) => c@,
                _ => Seq::empty(),
            },
    )
}

/// The state of one connection's handler.
pub struct ServerHandler {
    pub session: ServerSession,
    /// The identifier the next forwarded PUBLISH of QoS 1 or 2 gets.
    pub next_id: u16,
}

/// Whether the registry and container are as they were.
pub open spec fn broker_same(b0: Broker, b1: Broker) -> bool {
    &&& b1.subscript.sub_set() == b0.subscript.sub_set()
    &&& b1.subscript.topic_set() == b0.subscript.topic_set()
    &&& b1.container.view() == b0.container.view()
}

impl ServerHandler {
    pub open spec fn pending_id(&self) -> u16 {
        self.next_id
    }

    pub open spec fn connected(&self) -> bool {
        self.session.client_id is Some
    }

    pub open spec fn me(&self) -> Seq<char> {
        self.session.client_id->0@
    }

    pub open spec fn same_as(&self, other: &ServerHandler) -> bool {
        self.session == other.session && self.pending_id() == other.pending_id()
    }

    pub open spec fn spec_v5(&self) -> bool {
        self.session.spec_is_v5()
    }

    pub fn new() -> (r: ServerHandler)
        ensures
            r.session.client_id is None,
            r.session.protocol_level is None,
            r.pending_id() == 1,
    {
        ServerHandler { session: ServerSession::new(), next_id: 1 }
    }

    /// A CONNECT sets up the session, makes sure the client has an in-flight table, and is answered
    /// with a successful CONNACK.
    pub open spec fn connect_step(
        h0: ServerHandler,
        b0: Broker,
        c: ConnectMessage,
        h1: ServerHandler,
        b1: Broker,
        a: Seq<ReturnKind>,
    ) -> bool {
        &&& h1.session.client_id matches Some(id) && id@ == c.payload.client_id@
        &&& h1.session.protocol_level == Some(c.protocol_level)
        &&& h1.session.protocol_name matches Some(n) && n@ == c.protocol_name@
        &&& h1.session.clean_session == Some(c.clean_session)
        &&& h1.session.will_flag == Some(c.will_flag)
        &&& h1.session.will_qos == Some(c.will_qos)
        &&& h1.session.will_retain == Some(c.will_retain)
        &&& opt_view(h1.session.will_topic) == opt_view(c.payload.will_topic)
        &&& opt_view(h1.session.will_message) == opt_view(c.payload.will_message)
        &&& h1.pending_id() == h0.pending_id()
        &&& b1.subscript.sub_set() == b0.subscript.sub_set()
        &&& b1.subscript.topic_set() == b0.subscript.topic_set()
        &&& b1.container.view() == spec_init(b0.container.view(), c.payload.client_id@)
        &&& a.len() == 1
        &&& is_response(a[0], spec_connack_packet(c.protocol_level == MqttProtocolLevel::Level5))
    }

    /// What every packet but CONNECT does: nothing before CONNECT; after it, `step`.
    pub open spec fn after_connect(h0: ServerHandler, b0: Broker, h1: ServerHandler, b1: Broker, a: Seq<ReturnKind>, step: bool) -> bool {
        if h0.connected() {
            step
        } else {
            h1.same_as(&h0) && broker_same(b0, b1) && a.len() == 0
        }
    }

    /// The effect of one decoded packet, by its kind, as the broker's rules give it.
    pub open spec fn request_step(
        h0: ServerHandler,
        b0: Broker,
        r: MqttMessageV5,
        h1: ServerHandler,
        b1: Broker,
        a: Seq<ReturnKind>,
    ) -> bool {
        let v5 = h0.spec_v5();
        let me = h0.me();
        match r {
            MqttMessageV5::Connect(c) => Self::connect_step(h0, b0, c, h1, b1, a),
            MqttMessageV5::Subscribe(s) => Self::after_connect(h0, b0, h1, b1, a, {
                &&& h1.same_as(&h0)
                &&& b1.subscript.sub_set() == subscribe_all(b0.subscript.sub_set(), s.filters@, me)
                &&& b1.subscript.topic_set() == add_topics(b0.subscript.topic_set(), s.filters@)
                &&& b1.container.view() == b0.container.view()
                &&& if s.filters@.len() + 4 <= MAX_REMAINING_LENGTH {
                    a.len() == 1 && is_response(
                        a[0],
                        spec_suback_packet(s.message_id, spec_granted_codes(s.filters@, v5), v5),
                    )
                } else {
                    a.len() == 0
                }
            }),
            MqttMessageV5::Unsubscribe(u) => Self::after_connect(h0, b0, h1, b1, a, {
                &&& h1.same_as(&h0)
                &&& b1.subscript.sub_set() == unsubscribe_all(b0.subscript.sub_set(), u.topics@, me)
                &&& b1.subscript.topic_set() == b0.subscript.topic_set()
                &&& b1.container.view() == b0.container.view()
                &&& if u.topics@.len() + 4 <= MAX_REMAINING_LENGTH {
                    a.len() == 1 && is_response(a[0], spec_unsuback_packet(u.message_id, u.topics@.len(), v5))
                } else {
                    a.len() == 0
                }
            }),
            MqttMessageV5::Publish(p) => Self::after_connect(h0, b0, h1, b1, a, {
                let n = if p.qos == MqttQos::Qos0 { a.len() as int } else { a.len() - 1 };
                &&& h1.same_as(&h0)
                &&& broker_same(b0, b1)
                &&& delivers(a, n, me, p, spec_subscribers(b0.subscript.sub_set(), p.topic@))
                &&& p.qos == MqttQos::Qos1 ==> is_response(a[n], spec_ack_packet(TypeKind::PUBACK, p.message_id, v5))
                &&& p.qos == MqttQos::Qos2 ==> is_response(a[n], spec_ack_packet(TypeKind::PUBREC, p.message_id, v5))
            }),
            MqttMessageV5::Pubrec(m) => Self::after_connect(h0, b0, h1, b1, a, {
                &&& h1.same_as(&h0)
                &&& broker_same(b0, b1)
                &&& a.len() == 1
                &&& is_response(a[0], spec_ack_packet(TypeKind::PUBREL, m.message_id, v5))
            }),
            MqttMessageV5::Pubrel(m) => Self::after_connect(h0, b0, h1, b1, a, {
                &&& h1.same_as(&h0)
                &&& b1.subscript.sub_set() == b0.subscript.sub_set()
                &&& b1.subscript.topic_set() == b0.subscript.topic_set()
                &&& b1.container.view() == spec_complete(b0.container.view(), me, m.message_id)
                &&& a.len() == 1
                &&& is_response(a[0], spec_ack_packet(TypeKind::PUBCOMP, m.message_id, v5))
            }),
            MqttMessageV5::Pingreq(_) => Self::after_connect(h0, b0, h1, b1, a, {
                &&& h1.same_as(&h0)
                &&& broker_same(b0, b1)
                &&& a.len() == 1
                &&& is_response(a[0], spec_pingresp_packet())
            }),
            MqttMessageV5::Disconnect(_) => Self::after_connect(h0, b0, h1, b1, a, {
                &&& Self::leave_step(h0, b0, true, h1, b1, a)
                &&& b1.container.view() == if h0.session.clean_session == Some(crate::protocol::MqttCleanSession::Enable) {
                    b0.container.view().remove(me)
                } else {
                    b0.container.view()
                }
            }),
            _ => h1.same_as(&h0) && broker_same(b0, b1) && a.len() == 0,
        }
    }

    /// Leaving: the will, if `will` holds and one is set, goes to the will topic's subscribers; the
    /// client leaves every topic; the connection closes.
    pub open spec fn leave_step(h0: ServerHandler, b0: Broker, will: bool, h1: ServerHandler, b1: Broker, a: Seq<ReturnKind>) -> bool {
        let me = h0.me();
        let n = a.len() - 1;
        &&& h1.same_as(&h0)
        &&& b1.subscript.sub_set() == spec_exit(b0.subscript.sub_set(), me)
        &&& b1.subscript.topic_set() == b0.subscript.topic_set()
        &&& a.len() >= 1
        &&& a[n] is Exit
        &&& if will && h0.session.spec_has_will() {
            &&& forall|k: int| 0 <= k < n ==> match #[trigger] a[k] {
                ReturnKind::Deliver(_, m) => m.sender() == me && m.publish().topic@ == h0.session.will_topic->0@
                    && m.publish().msg_body@ == vstd::utf8::encode_utf8(h0.session.will_message->0@),
                _ => false,
            }
            &&& delivered(a, n).no_duplicates()
            &&& delivered(a, n).to_set() == spec_subscribers(b0.subscript.sub_set(), h0.session.will_topic->0@)
        } else {
            n == 0
        }
    }
}


proof fn lemma_no_props(v5: bool, scope: PropertyScope)
    ensures
        v5_props(v5, Seq::<PropertyItem>::empty(), scope) == if v5 {
            seq![0u8]
        } else {
            Seq::<u8>::empty()
        },
{
    assert(items_view(Seq::<PropertyItem>::empty()) =~= Seq::empty());
    lemma_empty_props(scope);
}

fn connack_packet(v5: bool) -> (r: Vec<u8>)
    ensures
        r@ == spec_connack_packet(v5),
{
    let mut body: Vec<u8> = Vec::new();
    body.push(0);
    body.push(0);
    if v5 {
        body.push(0);
    }
    proof {
        lemma_no_props(v5, PropertyScope::Connack);
        assert(body@ =~= seq![0u8, 0u8] + v5_props(v5, Seq::empty(), PropertyScope::Connack));
    }
    let mut r = pack_header(TypeKind::CONNACK, body.len());
    r.append(&mut body);
    r
}

fn ack_packet(kind: TypeKind, id: u16, v5: bool) -> (r: Vec<u8>)
    ensures
        r@ == spec_ack_packet(kind, id, v5),
{
    let empty: Vec<PropertyItem> = Vec::new();
    proof {
        assert(empty@ =~= Seq::<PropertyItem>::empty());
        assert(items_view(empty@) =~= Seq::empty());
        lemma_empty_props(PropertyScope::PubAndSub);
    }
    let mut body = pack_ack(id, 0, &empty, v5);
    let mut r = pack_header(kind, body.len());
    r.append(&mut body);
    r
}

fn suback_packet(id: u16, codes: &Vec<u8>, v5: bool) -> (r: Vec<u8>)
    requires
        codes@.len() + 4 <= MAX_REMAINING_LENGTH,
    ensures
        r@ == spec_suback_packet(id, codes@, v5),
{
    let empty: Vec<PropertyItem> = Vec::new();
    proof {
        assert(empty@ =~= Seq::<PropertyItem>::empty());
        assert(items_view(empty@) =~= Seq::empty());
        lemma_no_props(v5, PropertyScope::PubAndSub);
    }
    let mut body = pack_codes(id, codes, &empty, v5);
    let mut r = pack_header(TypeKind::SUBACK, body.len());
    r.append(&mut body);
    r
}

fn unsuback_packet(id: u16, n: usize, v5: bool) -> (r: Vec<u8>)
    requires
        n + 4 <= MAX_REMAINING_LENGTH,
    ensures
        r@ == spec_unsuback_packet(id, n as nat, v5),
{
    let mut body = if v5 {
        let mut codes: Vec<u8> = Vec::new();
        let mut i: usize = 0;
        while i < n
            invariant
                i <= n,
                codes@ == Seq::new(i as nat, |k: int| 0u8),
            decreases n - i,
        {
            codes.push(0);
            i = i + 1;
            proof {
                assert(codes@ =~= Seq::new(i as nat, |k: int| 0u8));
            }
        }
        let empty: Vec<PropertyItem> = Vec::new();
        proof {
            assert(empty@ =~= Seq::<PropertyItem>::empty());
            assert(items_view(empty@) =~= Seq::empty());
            lemma_no_props(v5, PropertyScope::PubAndSub);
        }
        pack_codes(id, &codes, &empty, v5)
    } else {
        crate::tools::pack_tool::pack_short_int(id)
    };
    let mut r = pack_header(TypeKind::UNSUBACK, body.len());
    r.append(&mut body);
    r
}

fn pingresp_packet() -> (r: Vec<u8>)
    ensures
        r@ == spec_pingresp_packet(),
{
    let r = pack_header(TypeKind::PINGRESP, 0);
    proof {
        assert(r@ =~= spec_packet(TypeKind::PINGRESP.spec_header_byte(), Seq::empty()));
    }
    r
}

fn copy_bytes(v: &Vec<u8>) -> (r: Vec<u8>)
    ensures
        r@ == v@,
{
    let mut out: Vec<u8> = Vec::new();
    push_bytes(&mut out, v.as_slice());
    proof {
        assert(out@ =~= v@);
    }
    out
}

fn copy_publish(p: &PublishMessage) -> (r: PublishMessage)
    ensures
        same_publish(r, *p),
{
    PublishMessage {
        message_id: p.message_id,
        topic: p.topic.clone(),
        dup: p.dup,
        qos: p.qos,
        retain: p.retain,
        msg_body: copy_bytes(&p.msg_body),
        properties: copy_items(&p.properties),
    }
}

fn clone_opt(o: &Option<String>) -> (r: Option<String>)
    ensures
        r == *o,
{
    match o {
        Some(s) => Some(s.clone()),
        None => None,
    }
}

/// Encodes `p` for a subscriber under identifier `id`, or none when it cannot be framed.
pub fn forward_packet(p: &PublishMessage, id: u16, v5: bool) -> (r: Option<Vec<u8>>)
    ensures
        r is Some <==> forwardable(*p),
        r matches Some(b) ==> b@ == spec_forward_packet(*p, id, v5),
{
    let tlen = p.topic.as_str().as_bytes().len();
    if tlen > MAX_STRING_LENGTH {
        return None;
    }
    if p.msg_body.len() > MAX_REMAINING_LENGTH - 5 - tlen {
        return None;
    }
    let out = PublishMessage {
        message_id: id,
        topic: p.topic.clone(),
        dup: p.dup,
        qos: p.qos,
        retain: p.retain,
        msg_body: copy_bytes(&p.msg_body),
        properties: Vec::new(),
    };
    proof {
        assert(out.properties@ =~= Seq::<PropertyItem>::empty());
        assert(items_view(out.properties@) =~= Seq::empty());
        lemma_no_props(v5, PropertyScope::Publish);
        crate::tools::pack_tool::lemma_str_len(p.topic@);
        assert(crate::hex::items_fit(items_view(out.properties@)));
        assert(crate::hex::spec_items(items_view(out.properties@), PropertyScope::Publish) =~= Seq::<u8>::empty());
        assert(str_fits(out.topic@));
    }
    let mut body = out.body(v5);
    let mut r = pack_publish_header(body.len(), p.qos, p.dup, p.retain);
    r.append(&mut body);
    Some(r)
}

/// Appends a delivery of `p` in the name of `sender` to each recipient, in order.
fn deliver_to(recipients: &Vec<ClientID>, sender: &ClientID, p: &PublishMessage, out: &mut Vec<ReturnKind>)
    ensures
        final(out)@.len() == old(out)@.len() + recipients@.len(),
        forall|k: int| 0 <= k < old(out)@.len() ==> final(out)@[k] == old(out)@[k],
        forall|k: int| 0 <= k < recipients@.len() ==> match #[trigger] final(out)@[old(out)@.len() + k] {
            ReturnKind::Deliver(c, m) => c@ == recipients@[k]@ && m.sender() == sender@ && same_publish(m.publish(), *p),
            _ => false,
        },
{
    let ghost start = out@.len();
    let mut i: usize = 0;
    while i < recipients.len()
        invariant
            i <= recipients@.len(),
            out@.len() == start + i,
            start == old(out)@.len(),
            forall|k: int| 0 <= k < start ==> out@[k] == old(out)@[k],
            forall|k: int| 0 <= k < i ==> match #[trigger] out@[start + k] {
                ReturnKind::Deliver(c, m) => c@ == recipients@[k]@ && m.sender() == sender@ && same_publish(m.publish(), *p),
                _ => false,
            },
        decreases recipients@.len() - i,
    {
        let ghost before = out@;
        out.push(ReturnKind::Deliver(recipients[i].duplicate(), TopicMessage::Content(sender.duplicate(), copy_publish(p))));
        proof {
            assert forall|k: int| 0 <= k < i + 1 implies match #[trigger] out@[start + k] {
                ReturnKind::Deliver(c, m) => c@ == recipients@[k]@ && m.sender() == sender@ && same_publish(m.publish(), *p),
                _ => false,
            } by {
                if k < i {
                    assert(out@[start + k] == before[start + k]);
                }
            }
            assert forall|k: int| 0 <= k < start implies out@[k] == old(out)@[k] by {
                assert(out@[k] == before[k]);
            }
        }
        i = i + 1;
    }
}


/// Whether `m1` is `m0` with one new frame for client `c` under `id`: sent by `from`, holding `bytes`,
/// not completed.
pub open spec fn appended_frame(
    m0: Map<Seq<char>, Map<u16, MessageFrame>>,
    m1: Map<Seq<char>, Map<u16, MessageFrame>>,
    c: Seq<char>,
    id: u16,
    from: Seq<char>,
    bytes: Seq<u8>,
) -> bool {
    let inner0 = if m0.contains_key(c) { m0[c] } else { Map::empty() };
    &&& m1.contains_key(c)
    &&& m1.remove(c) == m0.remove(c)
    &&& m1[c].contains_key(id)
    &&& m1[c].remove(id) == inner0.remove(id)
    &&& m1[c][id].from@ == from
    &&& m1[c][id].to@ == c
    &&& m1[c][id].message_id == id
    &&& m1[c][id].bytes@ == bytes
    &&& !m1[c][id].send
}

proof fn lemma_appended_frame(m0: Map<Seq<char>, Map<u16, MessageFrame>>, c: Seq<char>, id: u16, f: MessageFrame)
    requires
        f.to@ == c,
        f.message_id == id,
        !f.send,
    ensures
        appended_frame(m0, spec_append(m0, c, id, f), c, id, f.from@, f.bytes@),
{
    let m1 = spec_append(m0, c, id, f);
    let inner0 = if m0.contains_key(c) { m0[c] } else { Map::empty() };
    assert(m1.remove(c) =~= m0.remove(c));
    assert(m1[c].remove(id) =~= inner0.remove(id));
}

/// The identifier after `id`; zero is skipped.
pub open spec fn spec_next_id(id: u16) -> u16 {
    if id == 65535 {
        1
    } else {
        (id + 1) as u16
    }
}

proof fn lemma_delivered(a: Seq<ReturnKind>, r: Seq<ClientID>, start: int)
    requires
        start == 0,
        a.len() >= r.len(),
        forall|k: int| 0 <= k < r.len() ==> match #[trigger] a[start + k] {
            ReturnKind::Deliver(c, _) => c@ == r[k]@,
            _ => false,
        },
    ensures
        delivered(a, r.len() as int) == ids_view(r),
{
    assert forall|k: int| 0 <= k < r.len() implies #[trigger] delivered(a, r.len() as int)[k] == ids_view(r)[k] by {
        assert(a[start + k] == a[k]);
        match a[k] {
            ReturnKind::Deliver(c, _) => {},
            _ => {},
        }
    }
    assert(delivered(a, r.len() as int) =~= ids_view(r));
}

impl ServerHandler {
    fn on_connect(&mut self, broker: &mut Broker, c: ConnectMessage) -> (r: Vec<ReturnKind>)
        requires
            old(broker).wf(),
        ensures
            final(broker).wf(),
            Self::connect_step(*old(self), *old(broker), c, *final(self), *final(broker), r@),
    {
        let v5 = matches!(c.protocol_level, MqttProtocolLevel::Level5);
        self.session.init_protocol(c.protocol_name.clone(), c.protocol_level);
        let id = ClientID::new(c.payload.client_id.clone());
        broker.container.init(id.duplicate());
        self.session.init(
            id,
            c.clean_session,
            c.will_flag,
            c.will_qos,
            c.will_retain,
            clone_opt(&c.payload.will_topic),
            clone_opt(&c.payload.will_message),
        );
        let mut out: Vec<ReturnKind> = Vec::new();
        out.push(ReturnKind::Response(connack_packet(v5)));
        out
    }

    fn on_subscribe(&mut self, broker: &mut Broker, me: &ClientID, s: crate::message::entity::SubscribeMessage) -> (r: Vec<ReturnKind>)
        requires
            old(broker).wf(),
            old(self).connected(),
            me@ == old(self).me(),
        ensures
            final(broker).wf(),
            Self::request_step(*old(self), *old(broker), MqttMessageV5::Subscribe(s), *final(self), *final(broker), r@),
    {
        let v5 = self.session.is_v5();
        let mut codes: Vec<u8> = Vec::new();
        let mut i: usize = 0;
        let ghost b0 = *broker;
        while i < s.filters.len()
            invariant
                i <= s.filters@.len(),
                broker.wf(),
                v5 == self.session.spec_is_v5(),
                broker.subscript.sub_set() == subscribe_all(b0.subscript.sub_set(), s.filters@.subrange(0, i as int), me@),
                broker.subscript.topic_set() == add_topics(b0.subscript.topic_set(), s.filters@.subrange(0, i as int)),
                broker.container.view() == b0.container.view(),
                codes@ == spec_granted_codes(s.filters@.subrange(0, i as int), v5),
            decreases s.filters@.len() - i,
        {
            let f = &s.filters[i];
            broker.subscript.subscript(&f.topic, me);
            let q = f.requested_qos(v5);
            codes.push(if q <= 2 { q } else { SUBACK_FAILURE });
            proof {
                let pre = s.filters@.subrange(0, i as int);
                let post = s.filters@.subrange(0, i + 1);
                assert(post.drop_last() =~= pre);
                assert(post.last() == s.filters@[i as int]);
                assert(codes@ =~= spec_granted_codes(post, v5));
            }
            i = i + 1;
        }
        proof {
            assert(s.filters@.subrange(0, i as int) =~= s.filters@);
        }
        let mut out: Vec<ReturnKind> = Vec::new();
        if codes.len() <= MAX_REMAINING_LENGTH - 4 {
            out.push(ReturnKind::Response(suback_packet(s.message_id, &codes, v5)));
        }
        out
    }

    fn on_unsubscribe(&mut self, broker: &mut Broker, me: &ClientID, u: crate::message::entity::UnsubscribeMessage) -> (r: Vec<ReturnKind>)
        requires
            old(broker).wf(),
            old(self).connected(),
            me@ == old(self).me(),
        ensures
            final(broker).wf(),
            Self::request_step(*old(self), *old(broker), MqttMessageV5::Unsubscribe(u), *final(self), *final(broker), r@),
    {
        let v5 = self.session.is_v5();
        let mut i: usize = 0;
        let ghost b0 = *broker;
        while i < u.topics.len()
            invariant
                i <= u.topics@.len(),
                broker.wf(),
                broker.subscript.sub_set() == unsubscribe_all(b0.subscript.sub_set(), u.topics@.subrange(0, i as int), me@),
                broker.subscript.topic_set() == b0.subscript.topic_set(),
                broker.container.view() == b0.container.view(),
            decreases u.topics@.len() - i,
        {
            broker.subscript.unsubscript(&u.topics[i], me);
            proof {
                let post = u.topics@.subrange(0, i + 1);
                assert(post.drop_last() =~= u.topics@.subrange(0, i as int));
                assert(post.last() == u.topics@[i as int]);
            }
            i = i + 1;
        }
        proof {
            assert(u.topics@.subrange(0, i as int) =~= u.topics@);
        }
        let mut out: Vec<ReturnKind> = Vec::new();
        if u.topics.len() <= MAX_REMAINING_LENGTH - 4 {
            out.push(ReturnKind::Response(unsuback_packet(u.message_id, u.topics.len(), v5)));
        }
        out
    }

    fn on_publish(&mut self, broker: &mut Broker, me: &ClientID, p: PublishMessage) -> (r: Vec<ReturnKind>)
        requires
            old(broker).wf(),
            old(self).connected(),
            me@ == old(self).me(),
        ensures
            final(broker).wf(),
            Self::request_step(*old(self), *old(broker), MqttMessageV5::Publish(p), *final(self), *final(broker), r@),
    {
        let v5 = self.session.is_v5();
        let recipients = broker.subscript.broadcast(&p.topic);
        let mut out: Vec<ReturnKind> = Vec::new();
        deliver_to(&recipients, me, &p, &mut out);
        let ghost mid = out@;
        let ghost n = out@.len();
        proof {
            lemma_delivered(out@, recipients@, 0);
            assert forall|k: int| 0 <= k < n implies match #[trigger] mid[k] {
                ReturnKind::Deliver(_, m) => m.sender() == me@ && same_publish(m.publish(), p),
                _ => false,
            } by {
                assert(mid[0 + k] == mid[k]);
            }
        }
        match p.qos {
            MqttQos::Qos1 => out.push(ReturnKind::Response(ack_packet(TypeKind::PUBACK, p.message_id, v5))),
            MqttQos::Qos2 => out.push(ReturnKind::Response(ack_packet(TypeKind::PUBREC, p.message_id, v5))),
            MqttQos::Qos0 => {},
        }
        proof {
            assert forall|k: int| 0 <= k < n implies out@[k] == mid[k] by {}
            assert(delivered(out@, n as int) =~= ids_view(recipients@));
            assert forall|k: int| 0 <= k < n implies match #[trigger] out@[k] {
                ReturnKind::Deliver(_, m) => m.sender() == me@ && same_publish(m.publish(), p),
                _ => false,
            } by {
                assert(out@[k] == mid[k]);
            }
        }
        out
    }

    /// Publishes the will when `will` holds and one is set, then takes the client off every topic.
    fn leave(&mut self, broker: &mut Broker, me: &ClientID, will: bool) -> (r: Vec<ReturnKind>)
        requires
            old(broker).wf(),
            old(self).connected(),
            me@ == old(self).me(),
        ensures
            final(broker).wf(),
            Self::leave_step(*old(self), *old(broker), will, *final(self), *final(broker), r@),
            final(broker).container.view() == old(broker).container.view(),
    {
        let mut out: Vec<ReturnKind> = Vec::new();
        if will {
            match self.session.get_will_message() {
                Some(TopicMessage::Content(sender, p)) => {
                    let recipients = broker.subscript.broadcast(&p.topic);
                    deliver_to(&recipients, &sender, &p, &mut out);
                    proof {
                        lemma_delivered(out@, recipients@, 0);
                        assert forall|k: int| 0 <= k < out@.len() implies match #[trigger] out@[k] {
                            ReturnKind::Deliver(_, m) => m.sender() == me@ && m.publish().topic@ == self.session.will_topic->0@
                                && m.publish().msg_body@ == vstd::utf8::encode_utf8(self.session.will_message->0@),
                            _ => false,
                        } by {
                            assert(out@[0 + k] == out@[k]);
                        }
                    }
                },
                None => {},
            }
        }
        let ghost mid = out@;
        let ghost n = out@.len();
        broker.subscript.exit(me);
        out.push(ReturnKind::Exit);
        proof {
            assert forall|k: int| 0 <= k < n implies out@[k] == mid[k] by {}
            assert(delivered(out@, n as int) =~= delivered(mid, n as int));
            assert(out@.len() - 1 == n);
        }
        out
    }

    /// Applies one decoded packet.
    pub fn handle_request(&mut self, broker: &mut Broker, request: MqttMessageV5) -> (r: Vec<ReturnKind>)
        requires
            old(broker).wf(),
        ensures
            final(broker).wf(),
            Self::request_step(*old(self), *old(broker), request, *final(self), *final(broker), r@),
    {
        if let MqttMessageV5::Connect(c) = request {
            return self.on_connect(broker, c);
        }
        let me = match &self.session.client_id {
            Some(c) => c.duplicate(),
            None => return Vec::new(),
        };
        let v5 = self.session.is_v5();
        match request {
            MqttMessageV5::Subscribe(s) => self.on_subscribe(broker, &me, s),
            MqttMessageV5::Unsubscribe(u) => self.on_unsubscribe(broker, &me, u),
            MqttMessageV5::Publish(p) => self.on_publish(broker, &me, p),
            MqttMessageV5::Pubrec(m) => {
                let mut out: Vec<ReturnKind> = Vec::new();
                out.push(ReturnKind::Response(ack_packet(TypeKind::PUBREL, m.message_id, v5)));
                out
            },
            MqttMessageV5::Pubrel(m) => {
                broker.container.complete(&me, m.message_id);
                let mut out: Vec<ReturnKind> = Vec::new();
                out.push(ReturnKind::Response(ack_packet(TypeKind::PUBCOMP, m.message_id, v5)));
                out
            },
            MqttMessageV5::Pingreq(_) => {
                let mut out: Vec<ReturnKind> = Vec::new();
                out.push(ReturnKind::Response(pingresp_packet()));
                out
            },
            MqttMessageV5::Disconnect(_) => {
                let out = self.leave(broker, &me, true);
                if self.session.is_clean_session() {
                    broker.container.remove(&me);
                }
                out
            },
            _ => Vec::new(),
        }
    }

    /// Receiving content fanned out to this client: its own content is dropped; other content is sent on
    /// under a fresh identifier, and at QoS 2 recorded in flight until completed.
    pub open spec fn broadcast_step(h0: ServerHandler, b0: Broker, msg: TopicMessage, h1: ServerHandler, b1: Broker, a: Seq<ReturnKind>) -> bool {
        let p = msg.publish();
        let id: u16 = if p.qos == MqttQos::Qos0 { 0 } else { h0.pending_id() };
        if !h0.connected() || msg.sender() == h0.me() || !forwardable(p) {
            h1.same_as(&h0) && broker_same(b0, b1) && a.len() == 0
        } else {
            &&& h1.session == h0.session
            &&& h1.pending_id() == if p.qos == MqttQos::Qos0 { h0.pending_id() } else { spec_next_id(h0.pending_id()) }
            &&& b1.subscript.sub_set() == b0.subscript.sub_set()
            &&& b1.subscript.topic_set() == b0.subscript.topic_set()
            &&& a.len() == 1
            &&& is_response(a[0], spec_forward_packet(p, id, h0.spec_v5()))
            &&& if p.qos == MqttQos::Qos2 {
                appended_frame(b0.container.view(), b1.container.view(), h0.me(), id, msg.sender(), spec_forward_packet(p, id, h0.spec_v5()))
            } else {
                b1.container.view() == b0.container.view()
            }
        }
    }

    pub fn handle_broadcast(&mut self, broker: &mut Broker, msg: TopicMessage) -> (r: Vec<ReturnKind>)
        requires
            old(broker).wf(),
        ensures
            final(broker).wf(),
            Self::broadcast_step(*old(self), *old(broker), msg, *final(self), *final(broker), r@),
    {
        let ghost msg0 = msg;
        let me = match &self.session.client_id {
            Some(c) => c.duplicate(),
            None => return Vec::new(),
        };
        let TopicMessage::Content(sender, p) = msg;
        if sender.same(&me) {
            return Vec::new();
        }
        let v5 = self.session.is_v5();
        let id: u16 = if matches!(p.qos, MqttQos::Qos0) { 0 } else { self.next_id };
        let bytes = match forward_packet(&p, id, v5) {
            Some(b) => b,
            None => return Vec::new(),
        };
        if !matches!(p.qos, MqttQos::Qos0) {
            self.next_id = if self.next_id == 65535 { 1 } else { self.next_id + 1 };
        }
        if matches!(p.qos, MqttQos::Qos2) {
            let frame = MessageFrame::new(sender, me.duplicate(), copy_bytes(&bytes), id);
            let ghost f = frame;
            let ghost b0 = broker.container.view();
            let ghost m = me@;
            broker.container.append(me, id, frame);
            proof {
                assert(spec_append(b0, m, id, f) == broker.container.view());
                lemma_appended_frame(b0, m, id, f);
            }
        }
        let mut out: Vec<ReturnKind> = Vec::new();
        out.push(ReturnKind::Response(bytes));
        proof {
            assert(self.session == old(self).session);
            assert(is_response(out@[0], spec_forward_packet(p, id, old(self).spec_v5())));
            assert(self.pending_id() == if p.qos == MqttQos::Qos0 { old(self).pending_id() } else { spec_next_id(old(self).pending_id()) });
            assert(broker.subscript.sub_set() == old(broker).subscript.sub_set());
        }
        out
    }

    /// Whether the packet at the start of `data` is read as MQTT 5: the session's version once
    /// known, else the level that a CONNECT there announces.
    pub open spec fn reads_v5(h: ServerHandler, data: Seq<u8>) -> bool {
        match h.session.protocol_level {
            Some(level) => level == MqttProtocolLevel::Level5,
            None => match crate::message::spec_connect_level(data) {
                Some((_, level)) => level == MqttProtocolLevel::Level5,
                None => false,
            },
        }
    }

    /// Some packet decoded from the first `n` bytes of `data`, at the version `reads_v5` picks, had
    /// the effect `request_step` gives it.
    pub open spec fn packet_step(
        h0: ServerHandler,
        b0: Broker,
        data: Seq<u8>,
        h1: ServerHandler,
        b1: Broker,
        a: Seq<ReturnKind>,
        n: nat,
    ) -> bool {
        if Self::reads_v5(h0, data) {
            exists|m: MqttMessageV5| #[trigger] crate::message::v5::spec_decoded(data, m, n)
                && Self::request_step(h0, b0, m, h1, b1, a)
        } else {
            exists|m: crate::message::v3::MqttMessageV3| #[trigger] crate::message::v3::spec_decoded(data, m, n)
                && Self::request_step(h0, b0, m.spec_to_v5(), h1, b1, a)
        }
    }

    /// Decodes the first packet of `data` at the version `reads_v5` picks and applies it: the actions
    /// and the bytes the packet took, or the decode error with nothing changed.
    pub fn handle_packet(&mut self, broker: &mut Broker, data: &[u8]) -> (r: Result<(Vec<ReturnKind>, usize), crate::message::DecodeError>)
        requires
            old(broker).wf(),
        ensures
            final(broker).wf(),
            r matches Ok((a, n)) ==> Self::packet_step(*old(self), *old(broker), data@, *final(self), *final(broker), a@, n as nat),
            r matches Err(e) ==> final(self).same_as(old(self)) && broker_same(*old(broker), *final(broker)) && if Self::reads_v5(*old(self), data@) {
                crate::message::spec_frame_error(data@) == Some(e) || (crate::message::spec_frame_error(data@) is None
                    && crate::message::v5::spec_body_malformed(data@) && e == crate::message::v5::spec_body_error(data@))
            } else {
                crate::message::spec_frame_error(data@) == Some(e) || (crate::message::spec_frame_error(data@) is None
                    && crate::message::v3::spec_body_malformed(data@) && e == crate::message::v3::spec_body_error(data@))
            },
    {
        let v5 = match self.session.protocol_level {
            Some(level) => matches!(level, MqttProtocolLevel::Level5),
            None => match crate::message::get_protocol_name_and_version(data) {
                Some((_, level)) => matches!(level, MqttProtocolLevel::Level5),
                None => false,
            },
        };
        proof {
            assert(v5 == Self::reads_v5(*old(self), data@));
        }
        if v5 {
            match crate::message::v5::decode(data) {
                Ok((m, n)) => {
                    let ghost mg = m;
                    let a = self.handle_request(broker, m);
                    proof {
                        assert(crate::message::v5::spec_decoded(data@, mg, n as nat));
                        assert(Self::request_step(*old(self), *old(broker), mg, *self, *broker, a@));
                        assert(Self::packet_step(*old(self), *old(broker), data@, *self, *broker, a@, n as nat));
                    }
                    Ok((a, n))
                },
                Err(e) => Err(e),
            }
        } else {
            match crate::message::v3::decode(data) {
                Ok((m, n)) => {
                    let ghost mg = m;
                    let a = self.handle_request(broker, m.into_v5());
                    proof {
                        assert(crate::message::v3::spec_decoded(data@, mg, n as nat));
                        assert(Self::request_step(*old(self), *old(broker), mg.spec_to_v5(), *self, *broker, a@));
                        assert(Self::packet_step(*old(self), *old(broker), data@, *self, *broker, a@, n as nat));
                    }
                    Ok((a, n))
                },
                Err(e) => Err(e),
            }
        }
    }

    /// The effect of the bytes of one read: the packet at their start as `packet_step` gives it, or,
    /// when none decodes there, nothing.
    pub open spec fn input_step(h0: ServerHandler, b0: Broker, data: Seq<u8>, h1: ServerHandler, b1: Broker, a: Seq<ReturnKind>) -> bool {
        ||| exists|n: nat| #[trigger] Self::packet_step(h0, b0, data, h1, b1, a, n)
        ||| {
            &&& h1.same_as(&h0)
            &&& broker_same(b0, b1)
            &&& a.len() == 0
            &&& if Self::reads_v5(h0, data) {
                crate::message::spec_frame_error(data) is Some || crate::message::v5::spec_body_malformed(data)
            } else {
                crate::message::spec_frame_error(data) is Some || crate::message::v3::spec_body_malformed(data)
            }
        }
    }

    /// The end of a connection: it always closes, the last action being `Exit`. Before CONNECT that is
    /// all; after it, the client leaves as `leave_step` says and its in-flight frames stay.
    pub open spec fn exit_step(h0: ServerHandler, b0: Broker, will: bool, h1: ServerHandler, b1: Broker, a: Seq<ReturnKind>) -> bool {
        &&& a.len() >= 1
        &&& a.last() is Exit
        &&& if h0.connected() {
            Self::leave_step(h0, b0, will, h1, b1, a) && b1.container.view() == b0.container.view()
        } else {
            h1.same_as(&h0) && broker_same(b0, b1) && a.len() == 1
        }
    }

    /// Advances the connection by one event and says what the runner is to do.
    pub fn execute(&mut self, broker: &mut Broker, event: HandleEvent) -> (r: Vec<ReturnKind>)
        requires
            old(broker).wf(),
        ensures
            final(broker).wf(),
            match event {
                HandleEvent::InputEvent(data) => Self::input_step(*old(self), *old(broker), data@, *final(self), *final(broker), r@),
                HandleEvent::BroadcastEvent(msg) => Self::broadcast_step(*old(self), *old(broker), msg, *final(self), *final(broker), r@),
                HandleEvent::OutputEvent(resp) => final(self).same_as(old(self)) && broker_same(*old(broker), *final(broker))
                    && r@.len() == 1 && is_response(r@[0], resp.0@),
                HandleEvent::ExitEvent(will) => Self::exit_step(*old(self), *old(broker), will, *final(self), *final(broker), r@),
            },
    {
        match event {
            HandleEvent::InputEvent(data) => match self.handle_packet(broker, data.as_slice()) {
                Ok((actions, n)) => {
                    proof {
                        assert(Self::packet_step(*old(self), *old(broker), data@, *self, *broker, actions@, n as nat));
                    }
                    actions
                },
                Err(_) => Vec::new(),
            },
            HandleEvent::BroadcastEvent(msg) => self.handle_broadcast(broker, msg),
            HandleEvent::OutputEvent(resp) => {
                let mut out: Vec<ReturnKind> = Vec::new();
                out.push(ReturnKind::Response(resp.0));
                out
            },
            HandleEvent::ExitEvent(will) => {
                let me = match &self.session.client_id {
                    Some(c) => c.duplicate(),
                    None => {
                        let mut out: Vec<ReturnKind> = Vec::new();
                        out.push(ReturnKind::Exit);
                        return out;
                    },
                };
                self.leave(broker, &me, will)
            },
        }
    }
}


/// A client subscribed to a topic it publishes on gets no copy of its own PUBLISH: its handler drops
/// the content fanned out to it, answering nothing and changing nothing.
pub proof fn lemma_no_loopback(
    h0: ServerHandler,
    b0: Broker,
    msg: TopicMessage,
    h1: ServerHandler,
    b1: Broker,
    a: Seq<ReturnKind>,
)
    requires
        ServerHandler::broadcast_step(h0, b0, msg, h1, b1, a),
        h0.connected(),
        msg.sender() == h0.me(),
    ensures
        a.len() == 0,
        broker_same(b0, b1),
        h1.same_as(&h0),
{
}

/// A DISCONNECT of a clean session leaves the in-flight container with nothing for that client.
pub proof fn lemma_clean_session_disconnect(
    h0: ServerHandler,
    b0: Broker,
    d: crate::message::entity::DisconnectMessage,
    h1: ServerHandler,
    b1: Broker,
    a: Seq<ReturnKind>,
)
    requires
        ServerHandler::request_step(h0, b0, MqttMessageV5::Disconnect(d), h1, b1, a),
        h0.connected(),
        h0.session.clean_session == Some(crate::protocol::MqttCleanSession::Enable),
    ensures
        !b1.container.view().contains_key(h0.me()),
        a.last() is Exit,
{
}

/// A DISCONNECT, and an exit, leave the client subscribed to no topic.
pub proof fn lemma_leave_unsubscribes(
    h0: ServerHandler,
    b0: Broker,
    will: bool,
    h1: ServerHandler,
    b1: Broker,
    a: Seq<ReturnKind>,
)
    requires
        ServerHandler::leave_step(h0, b0, will, h1, b1, a),
    ensures
        forall|t: Seq<char>| !#[trigger] b1.subscript.sub_set().contains((t, h0.me())),
{
}


proof fn lemma_delivered_contains(a: Seq<ReturnKind>, n: int, c: Seq<char>) -> (k: int)
    requires
        0 <= n <= a.len(),
        delivered(a, n).to_set().contains(c),
    ensures
        0 <= k < n,
        delivered(a, n)[k] == c,
{
    let d = delivered(a, n);
    assert(d.contains(c));
    choose|k: int| 0 <= k < d.len() && d[k] == c
}

/// A PUBLISH from a connected client goes, as a delivery in that client's name, to each client
/// subscribed to its topic.
pub proof fn lemma_publish_reaches_subscriber(
    h0: ServerHandler,
    b0: Broker,
    p: PublishMessage,
    h1: ServerHandler,
    b1: Broker,
    a: Seq<ReturnKind>,
    subscriber: Seq<char>,
)
    requires
        ServerHandler::request_step(h0, b0, MqttMessageV5::Publish(p), h1, b1, a),
        h0.connected(),
        b0.subscript.sub_set().contains((p.topic@, subscriber)),
    ensures
        exists|k: int| 0 <= k < a.len() && match #[trigger] a[k] {
            ReturnKind::Deliver(c, m) => c@ == subscriber && m.sender() == h0.me() && same_publish(m.publish(), p),
            _ => false,
        },
{
    let n = if p.qos == MqttQos::Qos0 { a.len() as int } else { a.len() - 1 };
    assert(spec_subscribers(b0.subscript.sub_set(), p.topic@).contains(subscriber));
    let k = lemma_delivered_contains(a, n, subscriber);
    match a[k] {
        ReturnKind::Deliver(c, m) => {},
        _ => {},
    }
}

/// A subscriber's handler sends content from another client on as one PUBLISH encoded at the
/// subscriber's version under its next identifier; at QoS 2 it first records the frame, not yet
/// completed, in the in-flight container.
pub proof fn lemma_forward_to_subscriber(
    h0: ServerHandler,
    b0: Broker,
    msg: TopicMessage,
    h1: ServerHandler,
    b1: Broker,
    a: Seq<ReturnKind>,
)
    requires
        ServerHandler::broadcast_step(h0, b0, msg, h1, b1, a),
        h0.connected(),
        msg.sender() != h0.me(),
        forwardable(msg.publish()),
        msg.publish().qos != MqttQos::Qos0,
    ensures
        a.len() == 1,
        msg.publish().dup == crate::protocol::MqttDup::Disable && msg.publish().retain
            == crate::protocol::MqttRetain::Disable ==> spec_publish_first_byte(
            msg.publish().qos,
            msg.publish().dup,
            msg.publish().retain,
        ) == 48 + 2 * msg.publish().qos.spec_byte(),
        is_response(a[0], spec_forward_packet(msg.publish(), h0.pending_id(), h0.spec_v5())),
        msg.publish().qos == MqttQos::Qos2 ==> {
            let f = b1.container.view()[h0.me()][h0.pending_id()];
            &&& b1.container.view()[h0.me()].contains_key(h0.pending_id())
            &&& f.from@ == msg.sender()
            &&& f.to@ == h0.me()
            &&& f.message_id == h0.pending_id()
            &&& f.bytes@ == spec_forward_packet(msg.publish(), h0.pending_id(), h0.spec_v5())
            &&& !f.send
        },
{
}

/// When a client with a will leaves and the will is to be published, each subscriber of the will
/// topic gets the will message in the client's name; the client is then subscribed to nothing and
/// the connection closes.
pub proof fn lemma_will_reaches_subscriber(
    h0: ServerHandler,
    b0: Broker,
    h1: ServerHandler,
    b1: Broker,
    a: Seq<ReturnKind>,
    subscriber: Seq<char>,
)
    requires
        ServerHandler::leave_step(h0, b0, true, h1, b1, a),
        h0.session.spec_has_will(),
        b0.subscript.sub_set().contains((h0.session.will_topic->0@, subscriber)),
    ensures
        exists|k: int| 0 <= k < a.len() - 1 && match #[trigger] a[k] {
            ReturnKind::Deliver(c, m) => c@ == subscriber && m.sender() == h0.me() && m.publish().topic@
                == h0.session.will_topic->0@ && m.publish().msg_body@ == vstd::utf8::encode_utf8(
                h0.session.will_message->0@,
            ),
            _ => false,
        },
        a.last() is Exit,
        forall|t: Seq<char>| !#[trigger] b1.subscript.sub_set().contains((t, h0.me())),
{
    let n = a.len() - 1;
    assert(spec_subscribers(b0.subscript.sub_set(), h0.session.will_topic->0@).contains(subscriber));
    let k = lemma_delivered_contains(a, n, subscriber);
    match a[k] {
        ReturnKind::Deliver(c, m) => {},
        _ => {},
    }
}

} // verus!
