//! The unique-id node: its address prefixed to a strictly increasing local
//! counter yields cluster-unique identifiers without coordination.

use vstd::prelude::*;
use crate::json::{dec_digits, push_u64};
use crate::message::{Message, MessageBody, MessagePayload, PayloadModel, MessageId, bytes_eq};
use crate::node::{Action, Error, action_is_send, reply_to, copy_bytes};

verus! {

/// The identifier handed out for one generate request.
pub open spec fn unique_id_of(node_id: Seq<u8>, msg_id: MessageId) -> Seq<u8> {
    node_id + seq![45u8] + dec_digits(msg_id as nat)
}

pub struct UniqueIdNode {
    pub id: Vec<u8>,
    pub curr_msg_id: MessageId,
}

impl UniqueIdNode {
    /// Construct a fresh node from the handshake. Never blocks, never retries.
    pub fn from_init(node_id: Vec<u8>, neighbors: Vec<Vec<u8>>) -> (r: UniqueIdNode)
        ensures
            r.id@ == node_id@,
            r.curr_msg_id == 0,
    {
        let _ = neighbors;
        UniqueIdNode { id: node_id, curr_msg_id: 0 }
    }

    /// Allocate a fresh MessageId, strictly greater than every earlier one.
    pub fn next_msg_id(&mut self) -> (r: MessageId)
        requires
            old(self).curr_msg_id < MessageId::MAX,
        ensures
            r == old(self).curr_msg_id + 1,
            final(self).curr_msg_id == r,
            final(self).id@ == old(self).id@,
    {
        self.curr_msg_id = self.curr_msg_id + 1;
        self.curr_msg_id
    }

    /// Dispatch one inbound envelope. A generate request is answered with a
    /// fresh identifier: this node's address, a dash, and the reply's own
    /// MessageId, which no other request of this node ever sees again.
    pub fn handle_message(&mut self, m: &Message) -> (r: Result<Vec<Action>, Error>)
        ensures
            final(self).id@ == old(self).id@,
            m@.dest != old(self).id@ ==> (r matches Ok(acts) && acts@.len() == 0 && final(self).curr_msg_id == old(self).curr_msg_id),
            m@.dest == old(self).id@ ==> match m@.body.payload {
                PayloadModel::Generate => {
                    if old(self).curr_msg_id < MessageId::MAX {
                        r matches Ok(acts) && acts@.len() == 1 && action_is_send(
                            acts@[0],
                            reply_to(
                                old(self).id@,
                                m@,
                                (old(self).curr_msg_id + 1) as MessageId,
                                PayloadModel::GenerateOk {
                                    id: unique_id_of(old(self).id@, (old(self).curr_msg_id + 1) as MessageId),
                                },
                            ),
                        ) && final(self).curr_msg_id == old(self).curr_msg_id + 1
                    } else {
                        r == Err::<Vec<Action>, Error>(Error::IdsExhausted) && final(self).curr_msg_id == old(self).curr_msg_id
                    }
                },
                PayloadModel::GenerateOk { .. } => r matches Ok(acts) && acts@.len() == 0 && final(self).curr_msg_id == old(self).curr_msg_id,
                _ => r == Err::<Vec<Action>, Error>(Error::UnexpectedPayload) && final(self).curr_msg_id == old(self).curr_msg_id,
            },
    {
        if !bytes_eq(&m.dest, &self.id) {
            return Ok(Vec::new());
        }
        match &m.body.payload {
            MessagePayload::Generate => {
                if self.curr_msg_id == MessageId::MAX {
                    return Err(Error::IdsExhausted);
                }
                let next = self.next_msg_id();
                let mut fresh = copy_bytes(&self.id);
                fresh.push(45);
                push_u64(&mut fresh, next);
                proof {
                    assert(fresh@ =~= unique_id_of(old(self).id@, next));
                }
                let out = Message {
                    src: copy_bytes(&self.id),
                    dest: copy_bytes(&m.src),
                    body: MessageBody {
                        msg_id: Some(next),
                        in_reply_to: m.body.msg_id,
                        payload: MessagePayload::GenerateOk { id: fresh },
                    },
                };
                let mut acts: Vec<Action> = Vec::new();
                acts.push(Action::Send(out));
                Ok(acts)
            },
            MessagePayload::GenerateOk { .. } => Ok(Vec::new()),
            _ => Err(Error::UnexpectedPayload),
        }
    }
}


impl crate::node::Node for UniqueIdNode {
    open spec fn node_id(&self) -> Seq<u8> {
        self.id@
    }

    open spec fn counter(&self) -> MessageId {
        self.curr_msg_id
    }

    open spec fn inv(&self) -> bool {
        true
    }

    fn from_init(node_id: Vec<u8>, neighbors: Vec<Vec<u8>>) -> (r: Self) {
        UniqueIdNode::from_init(node_id, neighbors)
    }

    fn next_msg_id(&mut self) -> (r: MessageId) {
        UniqueIdNode::next_msg_id(self)
    }

    fn handle_message(&mut self, m: &Message) -> (r: Result<Vec<Action>, Error>) {
        UniqueIdNode::handle_message(self, m)
    }
}

} // verus!
