use vstd::prelude::*;
use crate::subscript::ClientID;

verus! {

/// The map a list of (key, value) entries stands for, keys being unique.
pub open spec fn seq_map<K, V>(s: Seq<(K, V)>) -> Map<K, V>
    decreases s.len(),
{
    if s.len() == 0 {
        Map::empty()
    } else {
        seq_map(s.drop_last()).insert(s.last().0, s.last().1)
    }
}

pub open spec fn keys_unique<K, V>(s: Seq<(K, V)>) -> bool {
    forall|a: int, b: int| 0 <= a < b < s.len() ==> #[trigger] s[a].0 != #[trigger] s[b].0
}

proof fn lemma_seq_map_lookup<K, V>(s: Seq<(K, V)>, i: int)
    requires
        keys_unique(s),
        0 <= i < s.len(),
    ensures
        seq_map(s).contains_key(s[i].0),
        seq_map(s)[s[i].0] == s[i].1,
    decreases s.len(),
{
    if i < s.len() - 1 {
        lemma_seq_map_lookup(s.drop_last(), i);
        assert(s.drop_last()[i] == s[i]);
        assert(s[i].0 != s.last().0);
    }
}

proof fn lemma_seq_map_absent<K, V>(s: Seq<(K, V)>, k: K)
    requires
        forall|j: int| 0 <= j < s.len() ==> #[trigger] s[j].0 != k,
    ensures
        !seq_map(s).contains_key(k),
    decreases s.len(),
{
    if s.len() > 0 {
        assert forall|j: int| 0 <= j < s.drop_last().len() implies #[trigger] s.drop_last()[j].0 != k by {
            assert(s.drop_last()[j] == s[j]);
        }
        lemma_seq_map_absent(s.drop_last(), k);
    }
}

proof fn lemma_seq_map_update<K, V>(s: Seq<(K, V)>, i: int, v: V)
    requires
        keys_unique(s),
        0 <= i < s.len(),
    ensures
        seq_map(s.update(i, (s[i].0, v))) == seq_map(s).insert(s[i].0, v),
        keys_unique(s.update(i, (s[i].0, v))),
    decreases s.len(),
{
    let t = s.update(i, (s[i].0, v));
    assert(t.drop_last() =~= if i < s.len() - 1 {
        s.drop_last().update(i, (s[i].0, v))
    } else {
        s.drop_last()
    });
    if i < s.len() - 1 {
        assert(s.drop_last()[i] == s[i]);
        lemma_seq_map_update(s.drop_last(), i, v);
        assert(s[i].0 != s.last().0);
        assert(seq_map(t) =~= seq_map(s).insert(s[i].0, v));
    } else {
        assert(seq_map(t) =~= seq_map(s).insert(s[i].0, v));
    }
    assert forall|a: int, b: int| 0 <= a < b < t.len() implies #[trigger] t[a].0 != #[trigger] t[b].0 by {
        assert(s[a].0 != s[b].0);
    }
}

proof fn lemma_seq_map_push<K, V>(s: Seq<(K, V)>, k: K, v: V)
    requires
        keys_unique(s),
        forall|j: int| 0 <= j < s.len() ==> #[trigger] s[j].0 != k,
    ensures
        seq_map(s.push((k, v))) == seq_map(s).insert(k, v),
        keys_unique(s.push((k, v))),
{
    assert(s.push((k, v)).drop_last() =~= s);
    assert forall|a: int, b: int| 0 <= a < b < s.push((k, v)).len() implies #[trigger] s.push((k, v))[a].0
        != #[trigger] s.push((k, v))[b].0 by {
        if b == s.len() {
            assert(s[a].0 != k);
        } else {
            assert(s[a].0 != s[b].0);
        }
    }
}

/// The container after `init`.
pub open spec fn spec_init(m: Map<Seq<char>, Map<u16, MessageFrame>>, c: Seq<char>) -> Map<Seq<char>, Map<u16, MessageFrame>> {
    if m.contains_key(c) {
        m
    } else {
        m.insert(c, Map::empty())
    }
}

/// The container after `append`.
pub open spec fn spec_append(
    m: Map<Seq<char>, Map<u16, MessageFrame>>,
    c: Seq<char>,
    id: u16,
    f: MessageFrame,
) -> Map<Seq<char>, Map<u16, MessageFrame>> {
    m.insert(c, (if m.contains_key(c) { m[c] } else { Map::empty() }).insert(id, f))
}

/// The container after `complete`.
pub open spec fn spec_complete(m: Map<Seq<char>, Map<u16, MessageFrame>>, c: Seq<char>, id: u16) -> Map<
    Seq<char>,
    Map<u16, MessageFrame>,
> {
    if m.contains_key(c) && m[c].contains_key(id) {
        m.insert(c, m[c].insert(id, completed(m[c][id])))
    } else {
        m
    }
}

/// A QoS 2 PUBLISH forwarded to `to`, kept until its PUBCOMP; `send` records that it completed.
#[derive(Debug, Clone)]
pub struct MessageFrame {
    pub from: ClientID,
    pub to: ClientID,
    pub message_id: u16,
    pub bytes: Vec<u8>,
    pub send: bool,
}

impl MessageFrame {
    pub fn new(from: ClientID, to: ClientID, bytes: Vec<u8>, message_id: u16) -> (r: MessageFrame)
        ensures
            r.from == from,
            r.to == to,
            r.bytes == bytes,
            r.message_id == message_id,
            !r.send,
    {
        MessageFrame { from, to, message_id, bytes, send: false }
    }

    pub fn complete(&mut self)
        ensures
            *final(self) == (MessageFrame { send: true, ..*old(self) }),
    {
        self.send = true
    }
}

/// The frame with its completion recorded.
pub open spec fn completed(f: MessageFrame) -> MessageFrame {
    MessageFrame { send: true, ..f }
}

/// The in-flight frames of one client, by packet identifier.
pub struct ClientMessageFrames {
    frames: Vec<(u16, MessageFrame)>,
}

impl ClientMessageFrames {
    pub closed spec fn view(&self) -> Map<u16, MessageFrame> {
        seq_map(self.frames@)
    }

    pub closed spec fn wf(&self) -> bool {
        keys_unique(self.frames@)
    }

    pub fn new() -> (r: ClientMessageFrames)
        ensures
            r.wf(),
            r.view() == Map::<u16, MessageFrame>::empty(),
    {
        ClientMessageFrames { frames: Vec::new() }
    }

    fn find(&self, message_id: u16) -> (r: Option<usize>)
        requires
            self.wf(),
        ensures
            r matches Some(i) ==> i < self.frames@.len() && self.frames@[i as int].0 == message_id,
            r is None ==> forall|j: int| 0 <= j < self.frames@.len() ==> #[trigger] self.frames@[j].0 != message_id,
    {
        let mut i: usize = 0;
        while i < self.frames.len()
            invariant
                i <= self.frames@.len(),
                forall|j: int| 0 <= j < i ==> #[trigger] self.frames@[j].0 != message_id,
            decreases self.frames@.len() - i,
        {
            if self.frames[i].0 == message_id {
                return Some(i);
            }
            i = i + 1;
        }
        None
    }

    /// Records `frame` under `message_id`; the frame held there before, if any, is returned.
    pub fn append(&mut self, message_id: u16, frame: MessageFrame) -> (r: Option<MessageFrame>)
        requires
            old(self).wf(),
        ensures
            final(self).wf(),
            final(self).view() == old(self).view().insert(message_id, frame),
            r is Some <==> old(self).view().contains_key(message_id),
            r matches Some(f) ==> f == old(self).view()[message_id],
    {
        match self.find(message_id) {
            Some(i) => {
                let ghost s = self.frames@;
                proof {
                    lemma_seq_map_lookup(s, i as int);
                }
                let (_, replaced) = self.frames.remove(i);
                self.frames.insert(i, (message_id, frame));
                proof {
                    assert(self.frames@ =~= s.update(i as int, (s[i as int].0, frame)));
                    lemma_seq_map_update(s, i as int, frame);
                }
                Some(replaced)
            },
            None => {
                let ghost s = self.frames@;
                proof {
                    lemma_seq_map_absent(s, message_id);
                }
                self.frames.push((message_id, frame));
                proof {
                    lemma_seq_map_push(s, message_id, frame);
                }
                None
            },
        }
    }

    /// Marks the frame held under `message_id` as completed.
    pub fn complete(&mut self, message_id: u16)
        requires
            old(self).wf(),
        ensures
            final(self).wf(),
            final(self).view() == if old(self).view().contains_key(message_id) {
                old(self).view().insert(message_id, completed(old(self).view()[message_id]))
            } else {
                old(self).view()
            },
    {
        match self.find(message_id) {
            Some(i) => {
                let ghost s = self.frames@;
                let (id, mut frame) = self.frames.remove(i);
                frame.complete();
                proof {
                    lemma_seq_map_lookup(s, i as int);
                }
                self.frames.insert(i, (id, frame));
                proof {
                    assert(self.frames@ =~= s.update(i as int, (s[i as int].0, frame)));
                    lemma_seq_map_update(s, i as int, frame);
                }
            },
            None => {
                proof {
                    lemma_seq_map_absent(self.frames@, message_id);
                }
            },
        }
    }

    /// How many frames are held.
    pub fn len(&self) -> (r: usize)
        requires
            self.wf(),
        ensures
            r == self.view().len(),
    {
        proof {
            lemma_seq_map_len(self.frames@);
        }
        self.frames.len()
    }

    /// Whether the frame under `message_id` is held and completed.
    pub fn is_completed(&self, message_id: u16) -> (r: bool)
        requires
            self.wf(),
        ensures
            r == (self.view().contains_key(message_id) && self.view()[message_id].send),
    {
        match self.find(message_id) {
            Some(i) => {
                proof {
                    lemma_seq_map_lookup(self.frames@, i as int);
                }
                self.frames[i].1.send
            },
            None => {
                proof {
                    lemma_seq_map_absent(self.frames@, message_id);
                }
                false
            },
        }
    }
}

proof fn lemma_seq_map_len<K, V>(s: Seq<(K, V)>)
    requires
        keys_unique(s),
    ensures
        seq_map(s).len() == s.len(),
        seq_map(s).dom().finite(),
    decreases s.len(),
{
    if s.len() > 0 {
        let d = s.drop_last();
        assert(keys_unique(d)) by {
            assert forall|a: int, b: int| 0 <= a < b < d.len() implies #[trigger] d[a].0 != #[trigger] d[b].0 by {
                assert(s[a].0 != s[b].0);
            }
        }
        lemma_seq_map_len(d);
        assert forall|j: int| 0 <= j < d.len() implies #[trigger] d[j].0 != s.last().0 by {
            assert(s[j].0 != s[s.len() - 1].0);
        }
        lemma_seq_map_absent(d, s.last().0);
    }
}

/// The frames of a client by identity view.
pub open spec fn clients_view(v: Seq<(ClientID, ClientMessageFrames)>) -> Seq<(Seq<char>, Map<u16, MessageFrame>)> {
    v.map_values(|e: (ClientID, ClientMessageFrames)| (e.0@, e.1.view()))
}

/// The in-flight QoS 2 frames of every client.
pub struct MessageContainer {
    inner: Vec<(ClientID, ClientMessageFrames)>,
}

impl MessageContainer {
    pub closed spec fn view(&self) -> Map<Seq<char>, Map<u16, MessageFrame>> {
        seq_map(clients_view(self.inner@))
    }

    pub closed spec fn wf(&self) -> bool {
        &&& keys_unique(clients_view(self.inner@))
        &&& forall|j: int| 0 <= j < self.inner@.len() ==> (#[trigger] self.inner@[j]).1.wf()
    }

    pub fn new() -> (r: MessageContainer)
        ensures
            r.wf(),
            r.view() == Map::<Seq<char>, Map<u16, MessageFrame>>::empty(),
    {
        let r = MessageContainer { inner: Vec::new() };
        proof {
            assert(clients_view(r.inner@) =~= Seq::empty());
        }
        r
    }

    fn find(&self, client_id: &ClientID) -> (r: Option<usize>)
        ensures
            r matches Some(i) ==> i < self.inner@.len() && clients_view(self.inner@)[i as int].0 == client_id@,
            r is None ==> forall|j: int| 0 <= j < self.inner@.len() ==> #[trigger] clients_view(self.inner@)[j].0 != client_id@,
    {
        let mut i: usize = 0;
        while i < self.inner.len()
            invariant
                i <= self.inner@.len(),
                forall|j: int| 0 <= j < i ==> #[trigger] clients_view(self.inner@)[j].0 != client_id@,
            decreases self.inner@.len() - i,
        {
            if self.inner[i].0.same(client_id) {
                return Some(i);
            }
            i = i + 1;
        }
        None
    }

    /// Makes sure the client has a table, empty if it had none.
    pub fn init(&mut self, client_id: ClientID)
        requires
            old(self).wf(),
        ensures
            final(self).wf(),
            final(self).view() == spec_init(old(self).view(), client_id@),
    {
        match self.find(&client_id) {
            Some(i) => {
                proof {
                    lemma_seq_map_lookup(clients_view(self.inner@), i as int);
                }
            },
            None => {
                let ghost s = clients_view(self.inner@);
                let ghost old_inner = self.inner@;
                proof {
                    lemma_seq_map_absent(s, client_id@);
                }
                let frames = ClientMessageFrames::new();
                let ghost c = client_id@;
                self.inner.push((client_id, frames));
                proof {
                    assert(clients_view(self.inner@) =~= s.push((c, Map::empty())));
                    lemma_seq_map_push(s, c, Map::empty());
                    assert forall|j: int| 0 <= j < self.inner@.len() implies (#[trigger] self.inner@[j]).1.wf() by {
                        if j < old_inner.len() {
                            assert(self.inner@[j] == old_inner[j]);
                        }
                    }
                }
            },
        }
    }

    /// Records `frame` for the client under `message_id`, creating the client's table if needed.
    pub fn append(&mut self, client_id: ClientID, message_id: u16, frame: MessageFrame)
        requires
            old(self).wf(),
        ensures
            final(self).wf(),
            final(self).view() == spec_append(old(self).view(), client_id@, message_id, frame),
    {
        let ghost s = clients_view(self.inner@);
        let ghost old_inner = self.inner@;
        match self.find(&client_id) {
            Some(i) => {
                proof {
                    lemma_seq_map_lookup(s, i as int);
                }
                let (id, mut frames) = self.inner.remove(i);
                proof {
                    assert(frames == old_inner[i as int].1);
                }
                frames.append(message_id, frame);
                let ghost fv = frames.view();
                self.inner.insert(i, (id, frames));
                proof {
                    assert(clients_view(self.inner@) =~= s.update(i as int, (s[i as int].0, fv)));
                    lemma_seq_map_update(s, i as int, fv);
                    assert forall|j: int| 0 <= j < self.inner@.len() implies (#[trigger] self.inner@[j]).1.wf() by {
                        if j != i {
                            assert(self.inner@[j] == old_inner[j]);
                        }
                    }
                }
            },
            None => {
                proof {
                    lemma_seq_map_absent(s, client_id@);
                }
                let mut frames = ClientMessageFrames::new();
                frames.append(message_id, frame);
                let ghost fv = frames.view();
                let ghost c = client_id@;
                self.inner.push((client_id, frames));
                proof {
                    assert(clients_view(self.inner@) =~= s.push((c, fv)));
                    lemma_seq_map_push(s, c, fv);
                    assert forall|j: int| 0 <= j < self.inner@.len() implies (#[trigger] self.inner@[j]).1.wf() by {
                        if j < old_inner.len() {
                            assert(self.inner@[j] == old_inner[j]);
                        }
                    }
                }
            },
        }
    }

    /// Marks the client's frame under `message_id` as completed, if it is held.
    pub fn complete(&mut self, client_id: &ClientID, message_id: u16)
        requires
            old(self).wf(),
        ensures
            final(self).wf(),
            final(self).view() == spec_complete(old(self).view(), client_id@, message_id),
    {
        let ghost s = clients_view(self.inner@);
        let ghost old_inner = self.inner@;
        match self.find(client_id) {
            Some(i) => {
                proof {
                    lemma_seq_map_lookup(s, i as int);
                }
                let (id, mut frames) = self.inner.remove(i);
                proof {
                    assert(frames == old_inner[i as int].1);
                }
                frames.complete(message_id);
                let ghost fv = frames.view();
                self.inner.insert(i, (id, frames));
                proof {
                    assert(clients_view(self.inner@) =~= s.update(i as int, (s[i as int].0, fv)));
                    lemma_seq_map_update(s, i as int, fv);
                    assert forall|j: int| 0 <= j < self.inner@.len() implies (#[trigger] self.inner@[j]).1.wf() by {
                        if j != i {
                            assert(self.inner@[j] == old_inner[j]);
                        }
                    }
                    if !s[i as int].1.contains_key(message_id) {
                        assert(seq_map(s).insert(client_id@, s[i as int].1) =~= seq_map(s));
                    }
                }
            },
            None => {
                proof {
                    lemma_seq_map_absent(s, client_id@);
                }
            },
        }
    }

    /// Drops every frame of the client.
    pub fn remove(&mut self, client_id: &ClientID)
        requires
            old(self).wf(),
        ensures
            final(self).wf(),
            final(self).view() == old(self).view().remove(client_id@),
    {
        let ghost s = clients_view(self.inner@);
        let ghost old_inner = self.inner@;
        match self.find(client_id) {
            Some(i) => {
                self.inner.remove(i);
                proof {
                    lemma_seq_map_remove(s, i as int);
                    assert(clients_view(self.inner@) =~= s.remove(i as int));
                    assert forall|j: int| 0 <= j < self.inner@.len() implies (#[trigger] self.inner@[j]).1.wf() by {
                        if j < i {
                            assert(self.inner@[j] == old_inner[j]);
                        } else {
                            assert(self.inner@[j] == old_inner[j + 1]);
                        }
                    }
                }
            },
            None => {
                proof {
                    lemma_seq_map_absent(s, client_id@);
                    assert(seq_map(s).remove(client_id@) =~= seq_map(s));
                }
            },
        }
    }

    /// How many frames the client has in flight; zero for an unknown client.
    pub fn frame_len(&self, client_id: &ClientID) -> (r: usize)
        requires
            self.wf(),
        ensures
            r == if self.view().contains_key(client_id@) {
                self.view()[client_id@].len()
            } else {
                0
            },
    {
        match self.find(client_id) {
            Some(i) => {
                proof {
                    lemma_seq_map_lookup(clients_view(self.inner@), i as int);
                    assert(self.inner@[i as int].1.wf());
                }
                self.inner[i].1.len()
            },
            None => {
                proof {
                    lemma_seq_map_absent(clients_view(self.inner@), client_id@);
                }
                0
            },
        }
    }

    /// Whether the client's frame under `message_id` is held and completed.
    pub fn is_completed(&self, client_id: &ClientID, message_id: u16) -> (r: bool)
        requires
            self.wf(),
        ensures
            r == (self.view().contains_key(client_id@) && self.view()[client_id@].contains_key(message_id)
                && self.view()[client_id@][message_id].send),
    {
        match self.find(client_id) {
            Some(i) => {
                proof {
                    lemma_seq_map_lookup(clients_view(self.inner@), i as int);
                    assert(self.inner@[i as int].1.wf());
                }
                self.inner[i].1.is_completed(message_id)
            },
            None => {
                proof {
                    lemma_seq_map_absent(clients_view(self.inner@), client_id@);
                }
                false
            },
        }
    }
}

proof fn lemma_seq_map_remove<K, V>(s: Seq<(K, V)>, i: int)
    requires
        keys_unique(s),
        0 <= i < s.len(),
    ensures
        seq_map(s.remove(i)) == seq_map(s).remove(s[i].0),
        keys_unique(s.remove(i)),
    decreases s.len(),
{
    let t = s.remove(i);
    assert forall|a: int, b: int| 0 <= a < b < t.len() implies #[trigger] t[a].0 != #[trigger] t[b].0 by {
        let a2 = if a < i { a } else { a + 1 };
        let b2 = if b < i { b } else { b + 1 };
        assert(t[a] == s[a2] && t[b] == s[b2]);
        assert(s[a2].0 != s[b2].0);
    }
    if i == s.len() - 1 {
        assert(t =~= s.drop_last());
        assert forall|j: int| 0 <= j < s.drop_last().len() implies #[trigger] s.drop_last()[j].0 != s[i].0 by {
            assert(s[j].0 != s[i].0);
        }
        lemma_seq_map_absent(s.drop_last(), s[i].0);
        assert(seq_map(t) =~= seq_map(s).remove(s[i].0));
    } else {
        let d = s.drop_last();
        assert(keys_unique(d)) by {
            assert forall|a: int, b: int| 0 <= a < b < d.len() implies #[trigger] d[a].0 != #[trigger] d[b].0 by {
                assert(s[a].0 != s[b].0);
            }
        }
        assert(d[i] == s[i]);
        lemma_seq_map_remove(d, i);
        assert(t.drop_last() =~= d.remove(i));
        assert(t.last() == s.last());
        assert(s.last().0 != s[i].0);
        assert(seq_map(t) =~= seq_map(s).remove(s[i].0));
    }
}

} // verus!
