//! The grow-only counter node: every add is applied locally, acknowledged,
//! and propagated as a retried add to every neighbor. Received adds are
//! applied unconditionally; suppressing duplicate retries is the delivery
//! protocol's job, through its acknowledgment rule.

use vstd::prelude::*;
use crate::message::{
    Message, MessageBody, MessagePayload, MessageModel, PayloadModel, MessageId, bytes_eq,
    strs_view,
};
use crate::node::{
    Action, Error, action_is_send, action_is_retry, reply_to, gossip_to, copy_bytes,
};
use crate::registry::UnackedRegistry;

verus! {

pub struct GCounterNode {
    pub id: Vec<u8>,
    pub counter: u32,
    pub neighbors: Vec<Vec<u8>>,
    pub curr_msg_id: MessageId,
    pub unacked: UnackedRegistry,
}

impl GCounterNode {
    pub open spec fn wf(&self) -> bool {
        self.unacked.wf()
    }

    /// Everything observable is as it was.
    pub open spec fn same_state(pre: GCounterNode, post: GCounterNode) -> bool {
        post.id@ == pre.id@ && post.counter == pre.counter && strs_view(post.neighbors@)
            == strs_view(pre.neighbors@) && post.curr_msg_id == pre.curr_msg_id && post.unacked@
            == pre.unacked@
    }

    /// Construct a fresh node from the handshake: counter at zero, the peer
    /// list as propagation targets, nothing in flight.
    pub fn from_init(node_id: Vec<u8>, neighbors: Vec<Vec<u8>>) -> (r: GCounterNode)
        ensures
            r.id@ == node_id@,
            r.counter == 0,
            strs_view(r.neighbors@) == strs_view(neighbors@),
            r.curr_msg_id == 0,
            r.unacked@ == Set::<MessageId>::empty(),
            r.wf(),
    {
        GCounterNode {
            id: node_id,
            counter: 0,
            neighbors,
            curr_msg_id: 0,
            unacked: UnackedRegistry::new(),
        }
    }

    /// Allocate a fresh MessageId, strictly greater than every earlier one.
    pub fn next_msg_id(&mut self) -> (r: MessageId)
        requires
            old(self).curr_msg_id < MessageId::MAX,
        ensures
            r == old(self).curr_msg_id + 1,
            final(self).curr_msg_id == r,
            final(self).id@ == old(self).id@,
            final(self).counter == old(self).counter,
            strs_view(final(self).neighbors@) == strs_view(old(self).neighbors@),
            final(self).unacked@ == old(self).unacked@,
            old(self).wf() ==> final(self).wf(),
    {
        self.curr_msg_id = self.curr_msg_id + 1;
        self.curr_msg_id
    }

    /// What one add does: the accumulator grows by the delta, the requester
    /// is acknowledged at once with the first allocated MessageId, and one
    /// retried add per neighbor follows, each registered before any
    /// transmission.
    pub open spec fn add_outcome(
        pre: GCounterNode,
        post: GCounterNode,
        m: MessageModel,
        delta: u32,
        r: Result<Vec<Action>, Error>,
    ) -> bool {
        let n = strs_view(pre.neighbors@).len();
        if pre.counter + delta > u32::MAX {
            r == Err::<Vec<Action>, Error>(Error::CounterOverflow) && Self::same_state(pre, post)
        } else if pre.curr_msg_id + n + 1 > MessageId::MAX {
            r == Err::<Vec<Action>, Error>(Error::IdsExhausted) && Self::same_state(pre, post)
        } else {
            r matches Ok(acts) && acts@.len() == n + 1 && post.counter == pre.counter + delta
                && post.id@ == pre.id@ && strs_view(post.neighbors@) == strs_view(pre.neighbors@)
                && post.curr_msg_id == pre.curr_msg_id + n + 1 && (forall|j: int|
                0 <= j < n ==> action_is_retry(
                    #[trigger] acts@[j],
                    gossip_to(
                        pre.id@,
                        strs_view(pre.neighbors@)[j],
                        (pre.curr_msg_id + 2 + j) as MessageId,
                        PayloadModel::Add { delta },
                    ),
                )) && action_is_send(
                acts@[n as int],
                reply_to(pre.id@, m, (pre.curr_msg_id + 1) as MessageId, PayloadModel::AddOk),
            ) && post.unacked@ == pre.unacked@.union(
                Set::new(
                    |x: MessageId| pre.curr_msg_id + 1 < x <= pre.curr_msg_id + 1 + n,
                ),
            )
        }
    }

    /// Dispatch one inbound envelope, per the counter protocol: adds per
    /// `add_outcome`; a read returns the accumulated value; an
    /// acknowledgment retires its MessageId (untracked ones are benign
    /// no-ops); envelopes not addressed here are ignored.
    pub fn handle_message(&mut self, m: &Message) -> (r: Result<Vec<Action>, Error>)
        requires
            old(self).wf(),
        ensures
            final(self).wf(),
            final(self).id@ == old(self).id@,
            m@.dest != old(self).id@ ==> (r matches Ok(acts) && acts@.len() == 0
                && Self::same_state(*old(self), *final(self))),
            m@.dest == old(self).id@ ==> match m@.body.payload {
                PayloadModel::Add { delta } => Self::add_outcome(
                    *old(self),
                    *final(self),
                    m@,
                    delta,
                    r,
                ),
                PayloadModel::Read => {
                    if old(self).curr_msg_id < MessageId::MAX {
                        r matches Ok(acts) && acts@.len() == 1 && action_is_send(
                            acts@[0],
                            reply_to(
                                old(self).id@,
                                m@,
                                (old(self).curr_msg_id + 1) as MessageId,
                                PayloadModel::ReadOkValue { value: old(self).counter },
                            ),
                        ) && final(self).curr_msg_id == old(self).curr_msg_id + 1 && final(self).counter == old(self).counter && strs_view(final(self).neighbors@)
                            == strs_view(old(self).neighbors@) && final(self).unacked@ == old(self).unacked@
                    } else {
                        r == Err::<Vec<Action>, Error>(Error::IdsExhausted) && Self::same_state(
                            *old(self),
                            *final(self),
                        )
                    }
                },
                PayloadModel::AddOk => (r matches Ok(acts) && acts@.len() == 0 && final(self).counter == old(self).counter && final(self).curr_msg_id == old(self).curr_msg_id
                    && strs_view(final(self).neighbors@) == strs_view(old(self).neighbors@)
                    && final(self).unacked@ == (match m@.body.in_reply_to {
                    Some(x) => old(self).unacked@.remove(x),
                    None => old(self).unacked@,
                })),
                PayloadModel::ReadOk { .. } => (r matches Ok(acts) && acts@.len() == 0
                    && Self::same_state(*old(self), *final(self))),
                PayloadModel::ReadOkValue { .. } => (r matches Ok(acts) && acts@.len() == 0
                    && Self::same_state(*old(self), *final(self))),
                _ => r == Err::<Vec<Action>, Error>(Error::UnexpectedPayload) && Self::same_state(
                    *old(self),
                    *final(self),
                ),
            },
    {
        if !bytes_eq(&m.dest, &self.id) {
            return Ok(Vec::new());
        }
        match &m.body.payload {
            MessagePayload::Add { delta } => {
                let d = *delta;
                if d > u32::MAX - self.counter {
                    return Err(Error::CounterOverflow);
                }
                let n = self.neighbors.len();
                if self.curr_msg_id as u128 + n as u128 + 1 > MessageId::MAX as u128 {
                    return Err(Error::IdsExhausted);
                }
                self.counter = self.counter + d;
                let first = self.next_msg_id();
                let ghost id0 = self.id@;
                let ghost cnt0 = self.counter;
                let ghost nb0 = strs_view(self.neighbors@);
                let ghost c1 = self.curr_msg_id;
                let ghost un0 = self.unacked@;
                let mut acts: Vec<Action> = Vec::new();
                let mut i: usize = 0;
                proof {
                    assert(self.unacked@ =~= un0.union(
                        Set::new(|x: MessageId| c1 < x <= c1 + 0),
                    ));
                }
                proof {
                    assert(nb0.len() == n);
                }
                while i < n
                    invariant
                        0 <= i <= n,
                        n == strs_view(self.neighbors@).len(),
                        self.id@ == id0,
                        self.counter == cnt0,
                        strs_view(self.neighbors@) == nb0,
                        self.curr_msg_id == c1 + i,
                        c1 + n <= MessageId::MAX,
                        self.unacked@ == un0.union(Set::new(|x: MessageId| c1 < x <= c1 + i)),
                        self.unacked.wf(),
                        acts@.len() == i,
                        forall|j: int|
                            0 <= j < i ==> action_is_retry(
                                #[trigger] acts@[j],
                                gossip_to(
                                    id0,
                                    nb0[j],
                                    (c1 + 1 + j) as MessageId,
                                    PayloadModel::Add { delta: d },
                                ),
                            ),
                    decreases n - i,
                {
                    let msg_id = self.next_msg_id();
                    self.unacked.insert(msg_id);
                    proof {
                        assert(self.unacked@ =~= un0.union(
                            Set::new(|x: MessageId| c1 < x <= c1 + i + 1),
                        ));
                    }
                    proof {
                        assert(strs_view(self.neighbors@).len() == self.neighbors@.len());
                    }
                    let out = Message {
                        src: copy_bytes(&self.id),
                        dest: copy_bytes(&self.neighbors[i]),
                        body: MessageBody {
                            msg_id: Some(msg_id),
                            in_reply_to: None,
                            payload: MessagePayload::Add { delta: d },
                        },
                    };
                    acts.push(Action::SendUntilAcked(out));
                    i += 1;
                }
                let ack = Message {
                    src: copy_bytes(&self.id),
                    dest: copy_bytes(&m.src),
                    body: MessageBody {
                        msg_id: Some(first),
                        in_reply_to: m.body.msg_id,
                        payload: MessagePayload::AddOk,
                    },
                };
                acts.push(Action::Send(ack));
                Ok(acts)
            },
            MessagePayload::Read => {
                if self.curr_msg_id == MessageId::MAX {
                    return Err(Error::IdsExhausted);
                }
                let next = self.next_msg_id();
                let reply = Message {
                    src: copy_bytes(&self.id),
                    dest: copy_bytes(&m.src),
                    body: MessageBody {
                        msg_id: Some(next),
                        in_reply_to: m.body.msg_id,
                        payload: MessagePayload::ReadOkValue { value: self.counter },
                    },
                };
                let mut acts: Vec<Action> = Vec::new();
                acts.push(Action::Send(reply));
                Ok(acts)
            },
            MessagePayload::AddOk => {
                match m.body.in_reply_to {
                    Some(x) => {
                        self.unacked.remove(x);
                    },
                    None => {},
                }
                Ok(Vec::new())
            },
            MessagePayload::ReadOk { .. } => Ok(Vec::new()),
            MessagePayload::ReadOkValue { .. } => Ok(Vec::new()),
            _ => Err(Error::UnexpectedPayload),
        }
    }
}


impl crate::node::Node for GCounterNode {
    open spec fn node_id(&self) -> Seq<u8> {
        self.id@
    }

    open spec fn counter(&self) -> MessageId {
        self.curr_msg_id
    }

    open spec fn inv(&self) -> bool {
        self.wf()
    }

    fn from_init(node_id: Vec<u8>, neighbors: Vec<Vec<u8>>) -> (r: Self) {
        GCounterNode::from_init(node_id, neighbors)
    }

    fn next_msg_id(&mut self) -> (r: MessageId) {
        GCounterNode::next_msg_id(self)
    }

    fn handle_message(&mut self, m: &Message) -> (r: Result<Vec<Action>, Error>) {
        GCounterNode::handle_message(self, m)
    }
}

} // verus!
