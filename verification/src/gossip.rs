//! The broadcast node: best-effort gossip over a fixed topology with a
//! deduplicating seen set, retrying every propagated copy until the matching
//! acknowledgment arrives.

use vstd::prelude::*;
use crate::message::{
    Message, MessageBody, MessagePayload, MessageModel, PayloadModel, MessageId, bytes_eq,
    strs_view, topo_view,
};
use crate::node::{
    Action, Error, action_is_send, action_is_retry, reply_to, gossip_to, keep_except,
    filter_neighbors, copy_bytes, copy_i32s, copy_topo,
};
use crate::registry::UnackedRegistry;

verus! {

/// The topology entry for this key, if any. A repeated key behaves as in a
/// map built by insertion: the last occurrence wins.
pub open spec fn topo_lookup(t: Seq<(Seq<u8>, Seq<Seq<u8>>)>, key: Seq<u8>) -> Option<
    Seq<Seq<u8>>,
>
    decreases t.len(),
{
    if t.len() == 0 {
        None
    } else if t.last().0 == key {
        Some(t.last().1)
    } else {
        topo_lookup(t.drop_last(), key)
    }
}

/// Executable twin of `topo_lookup`.
pub fn lookup_neighbors(t: &Vec<(Vec<u8>, Vec<Vec<u8>>)>, key: &Vec<u8>) -> (r: Option<
    Vec<Vec<u8>>,
>)
    ensures
        match r {
            Some(v) => topo_lookup(topo_view(t@), key@) == Some(strs_view(v@)),
            None => topo_lookup(topo_view(t@), key@) is None,
        },
{
    let ghost w = topo_view(t@);
    proof {
        assert(w.take(t@.len() as int) =~= w);
    }
    let mut i: usize = t.len();
    while i > 0
        invariant
            0 <= i <= t.len(),
            w == topo_view(t@),
            topo_lookup(w, key@) == topo_lookup(w.take(i as int), key@),
        decreases i,
    {
        let idx = i - 1;
        proof {
            assert(w.take(i as int).last() == w[idx as int]);
            assert(w.take(i as int).drop_last() =~= w.take(idx as int));
        }
        if bytes_eq(&t[idx].0, key) {
            let v = crate::node::copy_strs(&t[idx].1);
            return Some(v);
        }
        i = idx;
    }
    proof {
        assert(w.take(0) =~= Seq::<(Seq<u8>, Seq<Seq<u8>>)>::empty());
    }
    None
}

/// Membership in the seen set.
pub fn contains_i32(v: &Vec<i32>, x: i32) -> (r: bool)
    ensures
        r == v@.contains(x),
{
    let mut i: usize = 0;
    while i < v.len()
        invariant
            0 <= i <= v.len(),
            forall|k: int| 0 <= k < i ==> v@[k] != x,
        decreases v.len() - i,
    {
        if v[i] == x {
            assert(v@.contains(x));
            return true;
        }
        i += 1;
    }
    assert(!v@.contains(x));
    false
}

/// The seen set after one delivery of `v`.
pub open spec fn seen_after(seen: Seq<i32>, v: i32) -> Seq<i32> {
    if seen.contains(v) {
        seen
    } else {
        seen.push(v)
    }
}

/// A delivery propagates only if its value was never seen before.
pub open spec fn new_value(seen: Seq<i32>, v: i32) -> bool {
    !seen.contains(v)
}

proof fn lemma_push_keeps_no_dup(s: Seq<i32>, v: i32)
    requires
        s.no_duplicates(),
        !s.contains(v),
    ensures
        s.push(v).no_duplicates(),
        s.push(v).contains(v),
{
    let p = s.push(v);
    assert(p[s.len() as int] == v);
    assert(p.contains(v));
    assert forall|a: int, b: int|
        0 <= a < p.len() && 0 <= b < p.len() && a != b implies p[a] != p[b] by {
        if a < s.len() && b < s.len() {
            assert(p[a] == s[a] && p[b] == s[b]);
        } else if a < s.len() {
            assert(p[b] == v && p[a] == s[a]);
            assert(s.contains(s[a]) == true);
        } else {
            assert(p[a] == v && b < s.len() && p[b] == s[b]);
            assert(s.contains(s[b]) == true);
        }
    }
}

/// Delivering the same broadcast value twice to one node leaves exactly one
/// entry for it in the seen set, and only the first delivery counts as new,
/// so at most one propagation wave starts per never-before-seen value.
pub proof fn lemma_broadcast_idempotent(seen0: Seq<i32>, v: i32)
    requires
        seen0.no_duplicates(),
    ensures
        seen_after(seen_after(seen0, v), v) == seen_after(seen0, v),
        seen_after(seen0, v).contains(v),
        seen_after(seen0, v).no_duplicates(),
        !new_value(seen_after(seen0, v), v),
        new_value(seen0, v) ==> seen_after(seen0, v) == seen0.push(v),
{
    if !seen0.contains(v) {
        lemma_push_keeps_no_dup(seen0, v);
    }
}

pub struct BroadcastNode {
    pub id: Vec<u8>,
    pub seen: Vec<i32>,
    pub topology: Option<Vec<(Vec<u8>, Vec<Vec<u8>>)>>,
    pub curr_msg_id: MessageId,
    pub unacked: UnackedRegistry,
}

impl BroadcastNode {
    /// The installed topology, as a mathematical table.
    pub open spec fn tview(&self) -> Option<Seq<(Seq<u8>, Seq<Seq<u8>>)>> {
        match self.topology {
            Some(ref t) => Some(topo_view(t@)),
            None => None,
        }
    }

    pub open spec fn wf(&self) -> bool {
        self.seen@.no_duplicates() && self.unacked.wf()
    }

    /// Everything observable is as it was.
    pub open spec fn same_state(pre: BroadcastNode, post: BroadcastNode) -> bool {
        post.id@ == pre.id@ && post.seen@ == pre.seen@ && post.tview() == pre.tview()
            && post.curr_msg_id == pre.curr_msg_id && post.unacked@ == pre.unacked@
    }

    /// Construct a fresh node from the handshake: empty seen set, no
    /// topology, counter at zero, nothing in flight.
    pub fn from_init(node_id: Vec<u8>, neighbors: Vec<Vec<u8>>) -> (r: BroadcastNode)
        ensures
            r.id@ == node_id@,
            r.curr_msg_id == 0,
            r.seen@ == Seq::<i32>::empty(),
            r.tview() is None,
            r.unacked@ == Set::<MessageId>::empty(),
            r.wf(),
    {
        let _ = neighbors;
        BroadcastNode {
            id: node_id,
            seen: Vec::new(),
            topology: None,
            curr_msg_id: 0,
            unacked: UnackedRegistry::new(),
        }
    }

    /// Allocate a fresh MessageId, strictly greater than every earlier one.
    pub fn next_msg_id(&mut self) -> (r: MessageId)
        requires
            old(self).curr_msg_id < MessageId::MAX,
        ensures
            r == old(self).curr_msg_id + 1,
            final(self).curr_msg_id == r,
            final(self).id@ == old(self).id@,
            final(self).seen@ == old(self).seen@,
            final(self).tview() == old(self).tview(),
            final(self).unacked@ == old(self).unacked@,
            old(self).wf() ==> final(self).wf(),
    {
        self.curr_msg_id = self.curr_msg_id + 1;
        self.curr_msg_id
    }

    /// What one broadcast delivery does. A value seen before is only
    /// acknowledged; a new value joins the seen set and one retried copy
    /// starts towards every topology neighbor except the copy's sender,
    /// each registered before any transmission.
    pub open spec fn broadcast_outcome(
        pre: BroadcastNode,
        post: BroadcastNode,
        m: MessageModel,
        v: i32,
        r: Result<Vec<Action>, Error>,
    ) -> bool {
        if pre.seen@.contains(v) {
            if pre.curr_msg_id < MessageId::MAX {
                r matches Ok(acts) && acts@.len() == 1 && action_is_send(
                    acts@[0],
                    reply_to(
                        pre.id@,
                        m,
                        (pre.curr_msg_id + 1) as MessageId,
                        PayloadModel::BroadcastOk,
                    ),
                ) && post.curr_msg_id == pre.curr_msg_id + 1 && post.seen@ == pre.seen@
                    && post.tview() == pre.tview() && post.unacked@ == pre.unacked@
            } else {
                r == Err::<Vec<Action>, Error>(Error::IdsExhausted) && Self::same_state(pre, post)
            }
        } else if pre.tview() is None {
            r == Err::<Vec<Action>, Error>(Error::TopologyMissing) && Self::same_state(pre, post)
        } else if topo_lookup(pre.tview().unwrap(), pre.id@) is None {
            r == Err::<Vec<Action>, Error>(Error::UnknownNode) && Self::same_state(pre, post)
        } else {
            let targets = keep_except(topo_lookup(pre.tview().unwrap(), pre.id@).unwrap(), m.src);
            let k = targets.len();
            if pre.curr_msg_id + k + 1 <= MessageId::MAX {
                r matches Ok(acts) && acts@.len() == k + 1 && post.seen@ == pre.seen@.push(v)
                    && post.tview() == pre.tview() && post.curr_msg_id == pre.curr_msg_id + k + 1
                    && (forall|j: int|
                    0 <= j < k ==> action_is_retry(
                        #[trigger] acts@[j],
                        gossip_to(
                            pre.id@,
                            targets[j],
                            (pre.curr_msg_id + 1 + j) as MessageId,
                            PayloadModel::Broadcast { message: v },
                        ),
                    )) && action_is_send(
                    acts@[k as int],
                    reply_to(
                        pre.id@,
                        m,
                        (pre.curr_msg_id + k + 1) as MessageId,
                        PayloadModel::BroadcastOk,
                    ),
                ) && post.unacked@ == pre.unacked@.union(
                    Set::new(
                        |x: MessageId| pre.curr_msg_id < x <= pre.curr_msg_id + k,
                    ),
                )
            } else {
                r == Err::<Vec<Action>, Error>(Error::IdsExhausted) && Self::same_state(pre, post)
            }
        }
    }

    /// Dispatch one inbound envelope, per the gossip protocol: broadcast
    /// deliveries per `broadcast_outcome`; a topology control message
    /// installs the table and is acknowledged; a read returns the whole
    /// seen set; an acknowledgment retires its MessageId (untracked ones
    /// are benign no-ops); envelopes not addressed here are ignored.
    pub fn handle_message(&mut self, m: &Message) -> (r: Result<Vec<Action>, Error>)
        requires
            old(self).wf(),
        ensures
            final(self).wf(),
            final(self).id@ == old(self).id@,
            m@.dest != old(self).id@ ==> (r matches Ok(acts) && acts@.len() == 0
                && Self::same_state(*old(self), *final(self))),
            m@.dest == old(self).id@ ==> match m@.body.payload {
                PayloadModel::Broadcast { message } => Self::broadcast_outcome(
                    *old(self),
                    *final(self),
                    m@,
                    message,
                    r,
                ),
                PayloadModel::Topology { topology } => {
                    if old(self).curr_msg_id < MessageId::MAX {
                        r matches Ok(acts) && acts@.len() == 1 && action_is_send(
                            acts@[0],
                            reply_to(
                                old(self).id@,
                                m@,
                                (old(self).curr_msg_id + 1) as MessageId,
                                PayloadModel::TopologyOk,
                            ),
                        ) && final(self).tview() == Some(topology) && final(self).curr_msg_id
                            == old(self).curr_msg_id + 1 && final(self).seen@ == old(self).seen@
                            && final(self).unacked@ == old(self).unacked@
                    } else {
                        r == Err::<Vec<Action>, Error>(Error::IdsExhausted) && Self::same_state(
                            *old(self),
                            *final(self),
                        )
                    }
                },
                PayloadModel::Read => {
                    if old(self).curr_msg_id < MessageId::MAX {
                        r matches Ok(acts) && acts@.len() == 1 && action_is_send(
                            acts@[0],
                            reply_to(
                                old(self).id@,
                                m@,
                                (old(self).curr_msg_id + 1) as MessageId,
                                PayloadModel::ReadOk { messages: old(self).seen@ },
                            ),
                        ) && final(self).curr_msg_id == old(self).curr_msg_id + 1 && final(self).seen@ == old(self).seen@ && final(self).tview() == old(self).tview()
                            && final(self).unacked@ == old(self).unacked@
                    } else {
                        r == Err::<Vec<Action>, Error>(Error::IdsExhausted) && Self::same_state(
                            *old(self),
                            *final(self),
                        )
                    }
                },
                PayloadModel::BroadcastOk => (r matches Ok(acts) && acts@.len() == 0 && final(self).curr_msg_id == old(self).curr_msg_id && final(self).seen@ == old(self).seen@
                    && final(self).tview() == old(self).tview() && final(self).unacked@ == (
                match m@.body.in_reply_to {
                    Some(x) => old(self).unacked@.remove(x),
                    None => old(self).unacked@,
                })),
                PayloadModel::ReadOk { .. } => (r matches Ok(acts) && acts@.len() == 0
                    && Self::same_state(*old(self), *final(self))),
                PayloadModel::TopologyOk => (r matches Ok(acts) && acts@.len() == 0
                    && Self::same_state(*old(self), *final(self))),
                _ => r == Err::<Vec<Action>, Error>(Error::UnexpectedPayload) && Self::same_state(
                    *old(self),
                    *final(self),
                ),
            },
    {
        if !bytes_eq(&m.dest, &self.id) {
            return Ok(Vec::new());
        }
        match &m.body.payload {
            MessagePayload::Broadcast { message } => {
                let v = *message;
                if contains_i32(&self.seen, v) {
                    if self.curr_msg_id == MessageId::MAX {
                        return Err(Error::IdsExhausted);
                    }
                    let next = self.next_msg_id();
                    let ack = Message {
                        src: copy_bytes(&self.id),
                        dest: copy_bytes(&m.src),
                        body: MessageBody {
                            msg_id: Some(next),
                            in_reply_to: m.body.msg_id,
                            payload: MessagePayload::BroadcastOk,
                        },
                    };
                    let mut acts: Vec<Action> = Vec::new();
                    acts.push(Action::Send(ack));
                    return Ok(acts);
                }
                let nbrs: Vec<Vec<u8>> = match &self.topology {
                    None => {
                        return Err(Error::TopologyMissing);
                    },
                    Some(t) => {
                        match lookup_neighbors(t, &self.id) {
                            None => {
                                return Err(Error::UnknownNode);
                            },
                            Some(n) => n,
                        }
                    },
                };
                let targets = filter_neighbors(&nbrs, &m.src);
                let k = targets.len();
                if self.curr_msg_id as u128 + k as u128 + 1 > MessageId::MAX as u128 {
                    return Err(Error::IdsExhausted);
                }
                let ghost id0 = self.id@;
                let ghost seen0 = self.seen@;
                let ghost topo0 = self.tview();
                let ghost c0 = self.curr_msg_id;
                let ghost un0 = self.unacked@;
                let ghost tgts = strs_view(targets@);
                let mut acts: Vec<Action> = Vec::new();
                let mut i: usize = 0;
                proof {
                    assert(self.unacked@ =~= un0.union(
                        Set::new(|x: MessageId| c0 < x <= c0 + 0),
                    ));
                }
                while i < k
                    invariant
                        0 <= i <= k,
                        k == targets@.len(),
                        tgts == strs_view(targets@),
                        self.id@ == id0,
                        self.seen@ == seen0,
                        self.tview() == topo0,
                        self.curr_msg_id == c0 + i,
                        c0 + k + 1 <= MessageId::MAX,
                        self.unacked@ == un0.union(Set::new(|x: MessageId| c0 < x <= c0 + i)),
                        self.unacked.wf(),
                        self.seen@.no_duplicates(),
                        acts@.len() == i,
                        forall|j: int|
                            0 <= j < i ==> action_is_retry(
                                #[trigger] acts@[j],
                                gossip_to(
                                    id0,
                                    tgts[j],
                                    (c0 + 1 + j) as MessageId,
                                    PayloadModel::Broadcast { message: v },
                                ),
                            ),
                    decreases k - i,
                {
                    let msg_id = self.next_msg_id();
                    self.unacked.insert(msg_id);
                    proof {
                        assert(self.unacked@ =~= un0.union(
                            Set::new(|x: MessageId| c0 < x <= c0 + i + 1),
                        ));
                    }
                    let out = Message {
                        src: copy_bytes(&self.id),
                        dest: copy_bytes(&targets[i]),
                        body: MessageBody {
                            msg_id: Some(msg_id),
                            in_reply_to: None,
                            payload: MessagePayload::Broadcast { message: v },
                        },
                    };
                    acts.push(Action::SendUntilAcked(out));
                    i += 1;
                }
                self.seen.push(v);
                proof {
                    lemma_push_keeps_no_dup(seen0, v);
                }
                let next = self.next_msg_id();
                let ack = Message {
                    src: copy_bytes(&self.id),
                    dest: copy_bytes(&m.src),
                    body: MessageBody {
                        msg_id: Some(next),
                        in_reply_to: m.body.msg_id,
                        payload: MessagePayload::BroadcastOk,
                    },
                };
                acts.push(Action::Send(ack));
                Ok(acts)
            },
            MessagePayload::Topology { topology } => {
                if self.curr_msg_id == MessageId::MAX {
                    return Err(Error::IdsExhausted);
                }
                let tp = copy_topo(topology);
                self.topology = Some(tp);
                let next = self.next_msg_id();
                let ack = Message {
                    src: copy_bytes(&self.id),
                    dest: copy_bytes(&m.src),
                    body: MessageBody {
                        msg_id: Some(next),
                        in_reply_to: m.body.msg_id,
                        payload: MessagePayload::TopologyOk,
                    },
                };
                let mut acts: Vec<Action> = Vec::new();
                acts.push(Action::Send(ack));
                Ok(acts)
            },
            MessagePayload::Read => {
                if self.curr_msg_id == MessageId::MAX {
                    return Err(Error::IdsExhausted);
                }
                let messages = copy_i32s(&self.seen);
                let next = self.next_msg_id();
                let reply = Message {
                    src: copy_bytes(&self.id),
                    dest: copy_bytes(&m.src),
                    body: MessageBody {
                        msg_id: Some(next),
                        in_reply_to: m.body.msg_id,
                        payload: MessagePayload::ReadOk { messages },
                    },
                };
                let mut acts: Vec<Action> = Vec::new();
                acts.push(Action::Send(reply));
                Ok(acts)
            },
            MessagePayload::BroadcastOk => {
                match m.body.in_reply_to {
                    Some(x) => {
                        self.unacked.remove(x);
                    },
                    None => {},
                }
                Ok(Vec::new())
            },
            MessagePayload::ReadOk { .. } => Ok(Vec::new()),
            MessagePayload::TopologyOk => Ok(Vec::new()),
            _ => Err(Error::UnexpectedPayload),
        }
    }
}


impl crate::node::Node for BroadcastNode {
    open spec fn node_id(&self) -> Seq<u8> {
        self.id@
    }

    open spec fn counter(&self) -> MessageId {
        self.curr_msg_id
    }

    open spec fn inv(&self) -> bool {
        self.wf()
    }

    fn from_init(node_id: Vec<u8>, neighbors: Vec<Vec<u8>>) -> (r: Self) {
        BroadcastNode::from_init(node_id, neighbors)
    }

    fn next_msg_id(&mut self) -> (r: MessageId) {
        BroadcastNode::next_msg_id(self)
    }

    fn handle_message(&mut self, m: &Message) -> (r: Result<Vec<Action>, Error>) {
        BroadcastNode::handle_message(self, m)
    }
}

} // verus!
