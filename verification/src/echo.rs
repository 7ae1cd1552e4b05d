//! The echo node: answer every echo request with its own text.

use vstd::prelude::*;
use crate::message::{Message, MessageBody, MessagePayload, PayloadModel, MessageId, bytes_eq};
use crate::node::{Action, Error, action_is_send, reply_to, copy_bytes};

verus! {

pub struct EchoNode {
    pub id: Vec<u8>,
    pub curr_msg_id: MessageId,
}

impl EchoNode {
    /// Construct a fresh node from the handshake. Never blocks, never retries.
    pub fn from_init(node_id: Vec<u8>, neighbors: Vec<Vec<u8>>) -> (r: EchoNode)
        ensures
            r.id@ == node_id@,
            r.curr_msg_id == 0,
    {
        let _ = neighbors;
        EchoNode { id: node_id, curr_msg_id: 0 }
    }

    /// Allocate a fresh MessageId, strictly greater than every earlier one.
    pub fn next_msg_id(&mut self) -> (r: MessageId)
        requires
            old(self).curr_msg_id < MessageId::MAX,
        ensures
            r == old(self).curr_msg_id + 1,
            final(self).curr_msg_id == r,
            final(self).id@ == old(self).id@,
    {
        self.curr_msg_id = self.curr_msg_id + 1;
        self.curr_msg_id
    }

    /// Dispatch one inbound envelope. Envelopes not addressed to this node
    /// are ignored; an echo request is answered by `echo_ok` with the same
    /// text; a payload outside this node's protocol is fatal.
    pub fn handle_message(&mut self, m: &Message) -> (r: Result<Vec<Action>, Error>)
        ensures
            final(self).id@ == old(self).id@,
            m@.dest != old(self).id@ ==> (r matches Ok(acts) && acts@.len() == 0 && final(self).curr_msg_id == old(self).curr_msg_id),
            m@.dest == old(self).id@ ==> match m@.body.payload {
                PayloadModel::Echo { echo } => {
                    if old(self).curr_msg_id < MessageId::MAX {
                        r matches Ok(acts) && acts@.len() == 1 && action_is_send(
                            acts@[0],
                            reply_to(
                                old(self).id@,
                                m@,
                                (old(self).curr_msg_id + 1) as MessageId,
                                PayloadModel::EchoOk { echo },
                            ),
                        ) && final(self).curr_msg_id == old(self).curr_msg_id + 1
                    } else {
                        r == Err::<Vec<Action>, Error>(Error::IdsExhausted) && final(self).curr_msg_id == old(self).curr_msg_id
                    }
                },
                PayloadModel::EchoOk { .. } => r matches Ok(acts) && acts@.len() == 0 && final(self).curr_msg_id == old(self).curr_msg_id,
                _ => r == Err::<Vec<Action>, Error>(Error::UnexpectedPayload) && final(self).curr_msg_id == old(self).curr_msg_id,
            },
    {
        if !bytes_eq(&m.dest, &self.id) {
            return Ok(Vec::new());
        }
        match &m.body.payload {
            MessagePayload::Echo { echo } => {
                if self.curr_msg_id == MessageId::MAX {
                    return Err(Error::IdsExhausted);
                }
                let next = self.next_msg_id();
                let out = Message {
                    src: copy_bytes(&self.id),
                    dest: copy_bytes(&m.src),
                    body: MessageBody {
                        msg_id: Some(next),
                        in_reply_to: m.body.msg_id,
                        payload: MessagePayload::EchoOk { echo: copy_bytes(echo) },
                    },
                };
                let mut acts: Vec<Action> = Vec::new();
                acts.push(Action::Send(out));
                Ok(acts)
            },
            MessagePayload::EchoOk { .. } => Ok(Vec::new()),
            _ => Err(Error::UnexpectedPayload),
        }
    }
}


impl crate::node::Node for EchoNode {
    open spec fn node_id(&self) -> Seq<u8> {
        self.id@
    }

    open spec fn counter(&self) -> MessageId {
        self.curr_msg_id
    }

    open spec fn inv(&self) -> bool {
        true
    }

    fn from_init(node_id: Vec<u8>, neighbors: Vec<Vec<u8>>) -> (r: Self) {
        EchoNode::from_init(node_id, neighbors)
    }

    fn next_msg_id(&mut self) -> (r: MessageId) {
        EchoNode::next_msg_id(self)
    }

    fn handle_message(&mut self, m: &Message) -> (r: Result<Vec<Action>, Error>) {
        EchoNode::handle_message(self, m)
    }
}

} // verus!
