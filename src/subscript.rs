use vstd::prelude::*;
use crate::message::entity::PublishMessage;
use crate::protocol::{MqttDup, MqttQos, MqttRetain};

verus! {

/// The identity a client gives in CONNECT; equal identities are equal strings.
#[derive(Debug, Clone)]
pub struct ClientID(pub String);

impl View for ClientID {
    type V = Seq<char>;

    open spec fn view(&self) -> Seq<char> {
        self.0@
    }
}

impl PartialEq for ClientID {
    fn eq(&self, other: &ClientID) -> (r: bool) {
        self.0 == other.0
    }
}

impl vstd::std_specs::cmp::PartialEqSpecImpl for ClientID {
    open spec fn obeys_eq_spec() -> bool {
        true
    }

    open spec fn eq_spec(&self, other: &ClientID) -> bool {
        self@ == other@
    }
}

impl ClientID {
    pub fn new(id: String) -> (r: ClientID)
        ensures
            r@ == id@,
    {
        ClientID(id)
    }

    /// A copy of this identity.
    pub fn duplicate(&self) -> (r: ClientID)
        ensures
            r@ == self@,
    {
        ClientID(self.0.clone())
    }

    pub fn same(&self, other: &ClientID) -> (r: bool)
        ensures
            r == (self@ == other@),
    {
        self.0 == other.0
    }
}

/// What travels to subscribers: a PUBLISH with the identity of the client that sent it, so that the
/// receiving side re-encodes it at its own version and skips its own messages.
#[derive(Debug, Clone)]
pub enum TopicMessage {
    Content(ClientID, PublishMessage),
}

impl TopicMessage {
    pub open spec fn sender(&self) -> Seq<char> {
        match self {
            TopicMessage::Content(c, _) => c@,
        }
    }

    pub open spec fn publish(&self) -> PublishMessage {
        match self {
            TopicMessage::Content(_, p) => *p,
        }
    }

    /// The message a will turns into: a PUBLISH of the will message on the will topic, with the will's
    /// QoS and retain flag, sent in the name of `client_id`.
    pub fn generate_v3_topic_message(
        client_id: ClientID,
        will_qos: MqttQos,
        will_retain: MqttRetain,
        will_topic: String,
        will_message: String,
    ) -> (r: TopicMessage)
        ensures
            r.sender() == client_id@,
            r.publish().topic@ == will_topic@,
            r.publish().msg_body@ == vstd::utf8::encode_utf8(will_message@),
            r.publish().qos == will_qos,
            r.publish().retain == will_retain,
            r.publish().dup == MqttDup::Disable,
            r.publish().message_id == 0,
            r.publish().properties@.len() == 0,
    {
        let body = will_message.as_str().as_bytes();
        let mut msg_body: Vec<u8> = Vec::new();
        crate::tools::pack_tool::push_bytes(&mut msg_body, body);
        TopicMessage::Content(
            client_id,
            PublishMessage::new(will_qos, MqttDup::Disable, will_retain, will_topic, 0, msg_body, Vec::new()),
        )
    }
}

/// The views of a list of identities.
pub open spec fn ids_view(v: Seq<ClientID>) -> Seq<Seq<char>> {
    v.map_values(|c: ClientID| c@)
}

pub open spec fn names_view(v: Seq<String>) -> Seq<Seq<char>> {
    v.map_values(|t: String| t@)
}

pub open spec fn pairs_view(v: Seq<(String, ClientID)>) -> Seq<(Seq<char>, Seq<char>)> {
    v.map_values(|p: (String, ClientID)| (p.0@, p.1@))
}

/// The registry after a client subscribes to a topic.
pub open spec fn spec_subscribe(subs: Set<(Seq<char>, Seq<char>)>, t: Seq<char>, c: Seq<char>) -> Set<
    (Seq<char>, Seq<char>),
> {
    subs.insert((t, c))
}

/// The registry after a client unsubscribes from a topic.
pub open spec fn spec_unsubscribe(subs: Set<(Seq<char>, Seq<char>)>, t: Seq<char>, c: Seq<char>) -> Set<
    (Seq<char>, Seq<char>),
> {
    subs.remove((t, c))
}

/// The registry after a client leaves every topic.
pub open spec fn spec_exit(subs: Set<(Seq<char>, Seq<char>)>, c: Seq<char>) -> Set<(Seq<char>, Seq<char>)> {
    subs.filter(|p: (Seq<char>, Seq<char>)| p.1 != c)
}

/// The clients subscribed to a topic.
pub open spec fn spec_subscribers(subs: Set<(Seq<char>, Seq<char>)>, t: Seq<char>) -> Set<Seq<char>> {
    Set::new(|c: Seq<char>| subs.contains((t, c)))
}

/// After subscribing and then unsubscribing, a client is not subscribed to that topic.
pub proof fn lemma_unsubscribe_after_subscribe(subs: Set<(Seq<char>, Seq<char>)>, t: Seq<char>, c: Seq<char>)
    ensures
        !spec_unsubscribe(spec_subscribe(subs, t, c), t, c).contains((t, c)),
{
}

/// After a client exits, it is subscribed to no topic.
pub proof fn lemma_exit_unsubscribes_all(subs: Set<(Seq<char>, Seq<char>)>, c: Seq<char>)
    ensures
        forall|t: Seq<char>| !#[trigger] spec_exit(subs, c).contains((t, c)),
{
}

pub open spec fn opt_name(t: Option<&String>) -> Option<Seq<char>> {
    match t {
        Some(t) => Some(t@),
        None => None,
    }
}

/// Whether a subscription stays when `c` leaves topic `t`, or every topic when `t` is none.
pub open spec fn kept(p: (Seq<char>, Seq<char>), t: Option<Seq<char>>, c: Seq<char>) -> bool {
    match t {
        Some(t) => p != (t, c),
        None => p.1 != c,
    }
}

/// The topic-to-subscribers registry: every subscription as a (topic, client) pair, and every topic
/// that was ever subscribed to.
pub struct Subscript {
    topics: Vec<String>,
    subs: Vec<(String, ClientID)>,
}

impl Subscript {
    pub closed spec fn topic_set(&self) -> Set<Seq<char>> {
        names_view(self.topics@).to_set()
    }

    pub closed spec fn sub_set(&self) -> Set<(Seq<char>, Seq<char>)> {
        pairs_view(self.subs@).to_set()
    }

    /// Topic names and subscriptions are listed once each, and every subscription's topic is known.
    pub closed spec fn wf(&self) -> bool {
        &&& names_view(self.topics@).no_duplicates()
        &&& pairs_view(self.subs@).no_duplicates()
        &&& forall|p: (Seq<char>, Seq<char>)| #[trigger] self.sub_set().contains(p) ==> self.topic_set().contains(p.0)
    }

    pub fn new() -> (r: Subscript)
        ensures
            r.wf(),
            r.topic_set() == Set::<Seq<char>>::empty(),
            r.sub_set() == Set::<(Seq<char>, Seq<char>)>::empty(),
    {
        let r = Subscript { topics: Vec::new(), subs: Vec::new() };
        proof {
            assert(names_view(r.topics@).to_set() =~= Set::empty());
            assert(pairs_view(r.subs@).to_set() =~= Set::empty());
        }
        r
    }

    fn find_topic(&self, topic: &String) -> (r: Option<usize>)
        ensures
            r matches Some(i) ==> i < self.topics@.len() && self.topics@[i as int]@ == topic@,
            r is Some <==> names_view(self.topics@).contains(topic@),
    {
        let mut i: usize = 0;
        while i < self.topics.len()
            invariant
                i <= self.topics@.len(),
                forall|k: int| 0 <= k < i ==> self.topics@[k]@ != topic@,
            decreases self.topics@.len() - i,
        {
            if self.topics[i] == *topic {
                proof {
                    assert(names_view(self.topics@)[i as int] == topic@);
                }
                return Some(i);
            }
            i = i + 1;
        }
        proof {
            if names_view(self.topics@).contains(topic@) {
                let k = choose|k: int| 0 <= k < names_view(self.topics@).len() && #[trigger] names_view(self.topics@)[k] == topic@;
                assert(self.topics@[k]@ == topic@);
            }
        }
        None
    }

    fn find_sub(&self, topic: &String, client: &ClientID) -> (r: Option<usize>)
        ensures
            r matches Some(i) ==> i < self.subs@.len() && pairs_view(self.subs@)[i as int] == (topic@, client@),
            r is Some <==> pairs_view(self.subs@).contains((topic@, client@)),
    {
        let mut i: usize = 0;
        while i < self.subs.len()
            invariant
                i <= self.subs@.len(),
                forall|k: int| 0 <= k < i ==> pairs_view(self.subs@)[k] != (topic@, client@),
            decreases self.subs@.len() - i,
        {
            if self.subs[i].0 == *topic && self.subs[i].1.same(client) {
                proof {
                    assert(pairs_view(self.subs@)[i as int] == (topic@, client@));
                }
                return Some(i);
            }
            i = i + 1;
        }
        proof {
            if pairs_view(self.subs@).contains((topic@, client@)) {
                let k = choose|k: int| 0 <= k < pairs_view(self.subs@).len() && #[trigger] pairs_view(self.subs@)[k] == (topic@, client@);
                assert(pairs_view(self.subs@)[k] == (topic@, client@));
            }
        }
        None
    }

    /// Whether the topic is known.
    pub fn contain(&self, topic: &String) -> (r: bool)
        ensures
            r == self.topic_set().contains(topic@),
    {
        self.find_topic(topic).is_some()
    }

    /// How many topics are known.
    pub fn len(&self) -> (r: usize)
        requires
            self.wf(),
        ensures
            r == self.topic_set().len(),
    {
        proof {
            names_view(self.topics@).unique_seq_to_set();
        }
        self.topics.len()
    }

    /// Whether `client` is subscribed to `topic`.
    pub fn is_subscript(&self, topic: &String, client: &ClientID) -> (r: bool)
        ensures
            r == self.sub_set().contains((topic@, client@)),
    {
        self.find_sub(topic, client).is_some()
    }

    /// Subscribes `client` to `topic`, creating the topic if needed; subscribing twice changes nothing.
    pub fn subscript(&mut self, topic: &String, client: &ClientID)
        requires
            old(self).wf(),
        ensures
            final(self).wf(),
            final(self).topic_set() == old(self).topic_set().insert(topic@),
            final(self).sub_set() == spec_subscribe(old(self).sub_set(), topic@, client@),
    {
        let ghost old_topics = names_view(self.topics@);
        let ghost old_subs = pairs_view(self.subs@);
        if self.find_topic(topic).is_none() {
            self.topics.push(topic.clone());
            proof {
                assert(names_view(self.topics@) =~= old_topics.push(topic@));
                lemma_push_to_set(old_topics, topic@);
            }
        } else {
            proof {
                assert(old_topics.to_set().insert(topic@) =~= old_topics.to_set());
            }
        }
        if self.find_sub(topic, client).is_none() {
            self.subs.push((topic.clone(), client.duplicate()));
            proof {
                assert(pairs_view(self.subs@) =~= old_subs.push((topic@, client@)));
                lemma_push_to_set(old_subs, (topic@, client@));
            }
        } else {
            proof {
                assert(old_subs.to_set().insert((topic@, client@)) =~= old_subs.to_set());
            }
        }
        proof {
            assert(self.sub_set() == old_subs.to_set().insert((topic@, client@)));
            assert(self.topic_set() == old_topics.to_set().insert(topic@));
            assert forall|p: (Seq<char>, Seq<char>)| #[trigger] self.sub_set().contains(p) implies self.topic_set().contains(p.0) by {
                if p != (topic@, client@) {
                    assert(old(self).sub_set().contains(p));
                    assert(old(self).topic_set().contains(p.0));
                }
            }
        }
    }

    /// Removes the subscription of `client` to `topic`, if any.
    pub fn unsubscript(&mut self, topic: &String, client: &ClientID)
        requires
            old(self).wf(),
        ensures
            final(self).wf(),
            final(self).topic_set() == old(self).topic_set(),
            final(self).sub_set() == spec_unsubscribe(old(self).sub_set(), topic@, client@),
    {
        let ghost t = topic@;
        let ghost c = client@;
        let ghost old_subs = pairs_view(self.subs@);
        let subs = self.keep_subs(Some(topic), client);
        self.subs = subs;
        proof {
            assert(pairs_view(self.subs@).to_set() =~= old_subs.to_set().remove((t, c)));
            assert forall|p: (Seq<char>, Seq<char>)| #[trigger] self.sub_set().contains(p) implies self.topic_set().contains(p.0) by {
                assert(old(self).sub_set().contains(p));
            }
        }
    }

    /// Removes every subscription of `client`.
    pub fn exit(&mut self, client: &ClientID)
        requires
            old(self).wf(),
        ensures
            final(self).wf(),
            final(self).topic_set() == old(self).topic_set(),
            final(self).sub_set() == spec_exit(old(self).sub_set(), client@),
    {
        let ghost c = client@;
        let ghost old_subs = pairs_view(self.subs@);
        let subs = self.keep_subs(None, client);
        self.subs = subs;
        proof {
            assert(pairs_view(self.subs@).to_set() =~= spec_exit(old_subs.to_set(), c));
            assert forall|p: (Seq<char>, Seq<char>)| #[trigger] self.sub_set().contains(p) implies self.topic_set().contains(p.0) by {
                assert(old(self).sub_set().contains(p));
            }
        }
    }

    /// The subscriptions that `keep` holds of: those not of `client` (to `topic`, when given).
    fn keep_subs(&self, topic: Option<&String>, client: &ClientID) -> (r: Vec<(String, ClientID)>)
        requires
            self.wf(),
        ensures
            pairs_view(r@).no_duplicates(),
            forall|p: (Seq<char>, Seq<char>)| #[trigger] pairs_view(r@).contains(p) <==> pairs_view(self.subs@).contains(p) && kept(p, opt_name(topic), client@),
    {
        let mut out: Vec<(String, ClientID)> = Vec::new();
        let mut i: usize = 0;
        let ghost all = pairs_view(self.subs@);
        while i < self.subs.len()
            invariant
                i <= self.subs@.len(),
                all == pairs_view(self.subs@),
                all.no_duplicates(),
                pairs_view(out@).no_duplicates(),
                forall|p: (Seq<char>, Seq<char>)| #[trigger] pairs_view(out@).contains(p) <==> all.subrange(0, i as int).contains(p) && kept(p, opt_name(topic), client@),
            decreases self.subs@.len() - i,
        {
            let matches_client = self.subs[i].1.same(client);
            let drop = match topic {
                Some(t) => matches_client && self.subs[i].0 == *t,
                None => matches_client,
            };
            let ghost x = all[i as int];
            let ghost prev = all.subrange(0, i as int);
            proof {
                assert(all.subrange(0, i + 1) =~= prev.push(x));
                lemma_push_contains(prev, x);
                lemma_not_in_prefix(all, i as int);
                assert(drop == !kept(x, opt_name(topic), client@));
            }
            if !drop {
                let ghost old_out = pairs_view(out@);
                out.push((self.subs[i].0.clone(), self.subs[i].1.duplicate()));
                proof {
                    assert(pairs_view(out@) =~= old_out.push(x));
                    lemma_push_contains(old_out, x);
                    lemma_push_to_set(old_out, x);
                }
            }
            i = i + 1;
        }
        proof {
            assert(all.subrange(0, i as int) =~= all);
        }
        out
    }

    /// The clients subscribed to `topic`, each once.
    pub fn clients(&self, topic: &String) -> (r: Vec<ClientID>)
        requires
            self.wf(),
        ensures
            ids_view(r@).no_duplicates(),
            ids_view(r@).to_set() == spec_subscribers(self.sub_set(), topic@),
    {
        let mut out: Vec<ClientID> = Vec::new();
        let mut i: usize = 0;
        let ghost all = pairs_view(self.subs@);
        let ghost t = topic@;
        while i < self.subs.len()
            invariant
                i <= self.subs@.len(),
                all == pairs_view(self.subs@),
                t == topic@,
                all.no_duplicates(),
                ids_view(out@).no_duplicates(),
                forall|c: Seq<char>| #[trigger] ids_view(out@).contains(c) <==> all.subrange(0, i as int).contains((t, c)),
            decreases self.subs@.len() - i,
        {
            let ghost x = all[i as int];
            let ghost prev = all.subrange(0, i as int);
            proof {
                assert(all.subrange(0, i + 1) =~= prev.push(x));
                lemma_push_contains(prev, x);
                lemma_not_in_prefix(all, i as int);
            }
            let same_topic = self.subs[i].0 == *topic;
            proof {
                assert(x == (self.subs@[i as int].0@, self.subs@[i as int].1@));
                assert(same_topic == (x.0 == t));
            }
            if same_topic {
                let ghost old_out = ids_view(out@);
                out.push(self.subs[i].1.duplicate());
                proof {
                    assert(x == (t, x.1));
                    assert(ids_view(out@) =~= old_out.push(x.1));
                    lemma_push_contains(old_out, x.1);
                    assert(!old_out.contains(x.1));
                    lemma_push_to_set(old_out, x.1);
                    assert forall|c: Seq<char>| #[trigger] ids_view(out@).contains(c) <==> prev.push(x).contains((t, c)) by {
                        assert(prev.push(x).contains((t, c)) <==> prev.contains((t, c)) || (t, c) == x);
                    }
                }
            } else {
                proof {
                    assert(x.0 != t);
                    assert forall|c: Seq<char>| #[trigger] ids_view(out@).contains(c) <==> prev.push(x).contains((t, c)) by {
                        assert(prev.push(x).contains((t, c)) <==> prev.contains((t, c)) || (t, c) == x);
                    }
                }
            }
            i = i + 1;
        }
        proof {
            assert(all.subrange(0, i as int) =~= all);
            assert(ids_view(out@).to_set() =~= spec_subscribers(self.sub_set(), topic@));
        }
        out
    }

    /// How many clients are subscribed to `topic`.
    pub fn client_len(&self, topic: &String) -> (r: usize)
        requires
            self.wf(),
        ensures
            r == spec_subscribers(self.sub_set(), topic@).len(),
    {
        let v = self.clients(topic);
        proof {
            ids_view(v@).unique_seq_to_set();
        }
        v.len()
    }

    /// The known topics, each once.
    pub fn topics(&self) -> (r: Vec<String>)
        requires
            self.wf(),
        ensures
            names_view(r@).no_duplicates(),
            names_view(r@).to_set() == self.topic_set(),
    {
        let mut out: Vec<String> = Vec::new();
        let mut i: usize = 0;
        while i < self.topics.len()
            invariant
                i <= self.topics@.len(),
                out@.len() == i,
                names_view(out@) == names_view(self.topics@).subrange(0, i as int),
            decreases self.topics@.len() - i,
        {
            let ghost old_out = out@;
            out.push(self.topics[i].clone());
            proof {
                assert(out@ == old_out.push(self.topics@[i as int]));
                assert forall|k: int| 0 <= k < i + 1 implies #[trigger] names_view(out@)[k] == names_view(self.topics@).subrange(0, i + 1)[k] by {
                    if k < i {
                        assert(names_view(old_out)[k] == names_view(self.topics@).subrange(0, i as int)[k]);
                    }
                }
                assert(names_view(out@) =~= names_view(self.topics@).subrange(0, i + 1));
            }
            i = i + 1;
        }
        proof {
            assert(names_view(self.topics@).subrange(0, i as int) =~= names_view(self.topics@));
        }
        out
    }

    /// The clients a PUBLISH on `topic` goes to: every subscriber of the topic, each once.
    pub fn broadcast(&self, topic: &String) -> (r: Vec<ClientID>)
        requires
            self.wf(),
        ensures
            ids_view(r@).no_duplicates(),
            ids_view(r@).to_set() == spec_subscribers(self.sub_set(), topic@),
    {
        self.clients(topic)
    }
}

proof fn lemma_push_contains<A>(s: Seq<A>, x: A)
    ensures
        forall|y: A| #[trigger] s.push(x).contains(y) <==> s.contains(y) || y == x,
{
    assert forall|y: A| #[trigger] s.push(x).contains(y) <==> s.contains(y) || y == x by {
        if s.contains(y) {
            let k = choose|k: int| 0 <= k < s.len() && #[trigger] s[k] == y;
            assert(s.push(x)[k] == y);
        }
        if y == x {
            assert(s.push(x)[s.len() as int] == x);
        }
        if s.push(x).contains(y) && y != x {
            let k = choose|k: int| 0 <= k < s.push(x).len() && #[trigger] s.push(x)[k] == y;
            assert(s[k] == y);
        }
    }
}

/// In a list without duplicates, an element does not occur before its own position.
proof fn lemma_not_in_prefix<A>(s: Seq<A>, i: int)
    requires
        s.no_duplicates(),
        0 <= i < s.len(),
    ensures
        !s.subrange(0, i).contains(s[i]),
{
    if s.subrange(0, i).contains(s[i]) {
        let k = choose|k: int| 0 <= k < i && #[trigger] s.subrange(0, i)[k] == s[i];
        assert(s[k] == s[i]);
    }
}

proof fn lemma_push_to_set<A>(s: Seq<A>, x: A)
    ensures
        s.push(x).to_set() == s.to_set().insert(x),
        !s.contains(x) && s.no_duplicates() ==> s.push(x).no_duplicates(),
{
    assert forall|y: A| #[trigger] s.push(x).contains(y) <==> s.contains(y) || y == x by {
        if s.contains(y) {
            let k = choose|k: int| 0 <= k < s.len() && #[trigger] s[k] == y;
            assert(s.push(x)[k] == y);
        }
        if y == x {
            assert(s.push(x)[s.len() as int] == x);
        }
        if s.push(x).contains(y) && y != x {
            let k = choose|k: int| 0 <= k < s.push(x).len() && #[trigger] s.push(x)[k] == y;
            assert(s[k] == y);
        }
    }
    assert(s.push(x).to_set() =~= s.to_set().insert(x));
    if !s.contains(x) && s.no_duplicates() {
        assert forall|a: int, b: int| 0 <= a < b < s.push(x).len() implies s.push(x)[a] != s.push(x)[b] by {
            if b == s.len() {
                assert(s[a] == s.push(x)[a]);
            }
        }
    }
}

} // verus!
