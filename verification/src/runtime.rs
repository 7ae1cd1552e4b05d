//! The runtime's decisions: read the handshake, fix the node's identity and
//! peer list, and answer `init_ok`. The read/write loop around these
//! decisions lives outside the library; every decision itself is here.

use vstd::prelude::*;
use crate::codec::{decode, spec_decode};
use crate::message::{
    Message, MessageBody, MessagePayload, MessageModel, BodyModel, PayloadModel, strs_view,
};
use crate::node::{Node, keep_except, filter_neighbors, copy_bytes};

verus! {

/// A contract violation by the peer or transport: no safe recovery exists.
#[derive(Debug, Clone, Copy, PartialEq, Eq, Structural)]
pub enum ProtocolError {
    /// The line is not one whole envelope of the wire grammar.
    MalformedLine,
    /// The first envelope's payload was not the bootstrap `init`.
    ExpectedInit,
}

/// What the handshake fixes for the process's life: the node's own
/// identifier, the peer list with that identifier filtered out, and where
/// the `init_ok` reply is owed (its MessageId comes from the constructed
/// node's allocator, so no identifier is ever reused).
#[derive(Debug)]
pub struct InitOutcome {
    pub node_id: Vec<u8>,
    pub peers: Vec<Vec<u8>>,
    pub reply_dest: Vec<u8>,
    pub in_reply_to: Option<crate::message::MessageId>,
}

/// Owns the process lifecycle: handshake first, then one dispatch per line.
pub struct Runtime;

impl Runtime {
    /// Decide the handshake from the first line. A malformed line, or a
    /// first payload other than `init`, is fatal. On success the node's
    /// identifier is exactly the `node_id` field, the peer list is
    /// `node_ids` with the node's own identifier left out, and the reply is
    /// owed to the handshake's sender, correlated to the handshake's
    /// `msg_id`.
    pub fn process_init(line: &Vec<u8>) -> (r: Result<InitOutcome, ProtocolError>)
        ensures
            spec_decode(line@) is None ==> r == Err::<InitOutcome, ProtocolError>(
                ProtocolError::MalformedLine,
            ),
            spec_decode(line@) matches Some(m) ==> match m.body.payload {
                PayloadModel::Init { node_id, node_ids } => (r matches Ok(o) && o.node_id@
                    == node_id && strs_view(o.peers@) == keep_except(node_ids, node_id)
                    && o.reply_dest@ == m.src && o.in_reply_to == m.body.msg_id),
                _ => r == Err::<InitOutcome, ProtocolError>(ProtocolError::ExpectedInit),
            },
    {
        match decode(line) {
            None => Err(ProtocolError::MalformedLine),
            Some(msg) => {
                let Message { src, dest: _, body } = msg;
                let MessageBody { msg_id, in_reply_to: _, payload } = body;
                match payload {
                    MessagePayload::Init { node_id, node_ids } => {
                        let peers = filter_neighbors(&node_ids, &node_id);
                        Ok(InitOutcome { node_id, peers, reply_dest: src, in_reply_to: msg_id })
                    },
                    _ => Err(ProtocolError::ExpectedInit),
                }
            },
        }
    }

    /// The whole handshake for a chosen challenge: decide it from the first
    /// line, construct the node, and allocate the `init_ok` reply's
    /// MessageId through the node itself, so that the identifier is spent
    /// and never handed out again. The constructed node's identifier is
    /// exactly the handshake's `node_id` field and its counter stands at 1:
    /// the reply's own identifier.
    pub fn bootstrap<N: Node>(line: &Vec<u8>) -> (r: Result<(N, Message), ProtocolError>)
        ensures
            spec_decode(line@) is None ==> r == Err::<(N, Message), ProtocolError>(
                ProtocolError::MalformedLine,
            ),
            spec_decode(line@) matches Some(m) ==> match m.body.payload {
                PayloadModel::Init { node_id, node_ids } => (r matches Ok(p) && p.0.node_id()
                    == node_id && p.0.counter() == 1 && p.0.inv() && p.1@ == (MessageModel {
                    src: node_id,
                    dest: m.src,
                    body: BodyModel {
                        msg_id: Some(1),
                        in_reply_to: m.body.msg_id,
                        payload: PayloadModel::InitOk,
                    },
                })),
                _ => r == Err::<(N, Message), ProtocolError>(ProtocolError::ExpectedInit),
            },
    {
        match Self::process_init(line) {
            Err(e) => Err(e),
            Ok(outcome) => {
                let InitOutcome { node_id, peers, reply_dest, in_reply_to } = outcome;
                let reply_src = copy_bytes(&node_id);
                let mut node = N::from_init(node_id, peers);
                let mid = node.next_msg_id();
                let reply = Message {
                    src: reply_src,
                    dest: reply_dest,
                    body: MessageBody {
                        msg_id: Some(mid),
                        in_reply_to,
                        payload: MessagePayload::InitOk,
                    },
                };
                Ok((node, reply))
            },
        }
    }

    /// Decode one dispatch-phase line. A malformed line is fatal: it means
    /// the surrounding harness broke its contract.
    pub fn decode_line(line: &Vec<u8>) -> (r: Result<Message, ProtocolError>)
        ensures
            match r {
                Ok(m) => spec_decode(line@) == Some(m@),
                Err(e) => spec_decode(line@) is None && e == ProtocolError::MalformedLine,
            },
    {
        match decode(line) {
            None => Err(ProtocolError::MalformedLine),
            Some(m) => Ok(m),
        }
    }
}

proof fn lemma_contains_concat(a: Seq<Seq<u8>>, b: Seq<Seq<u8>>, x: Seq<u8>)
    ensures
        (a + b).contains(x) <==> (a.contains(x) || b.contains(x)),
{
    let c = a + b;
    if c.contains(x) {
        let k = choose|k: int| 0 <= k < c.len() && c[k] == x;
        if k < a.len() {
            assert(a[k] == x);
        } else {
            assert(b[k - a.len()] == x);
        }
    }
    if a.contains(x) {
        let k = choose|k: int| 0 <= k < a.len() && a[k] == x;
        assert(c[k] == x);
    }
    if b.contains(x) {
        let k = choose|k: int| 0 <= k < b.len() && b[k] == x;
        assert(c[k + a.len()] == x);
    }
}

proof fn lemma_contains_drop_last(ns: Seq<Seq<u8>>, x: Seq<u8>)
    requires
        ns.len() > 0,
    ensures
        ns.contains(x) <==> (ns.drop_last().contains(x) || ns.last() == x),
{
    let d = ns.drop_last();
    if ns.contains(x) {
        let k = choose|k: int| 0 <= k < ns.len() && ns[k] == x;
        if k < ns.len() - 1 {
            assert(d[k] == x);
        }
    }
    if d.contains(x) {
        let k = choose|k: int| 0 <= k < d.len() && d[k] == x;
        assert(ns[k] == x);
    }
}

/// The peer list built from a handshake never carries the node's own
/// identifier, and carries every other handshake address unchanged.
pub proof fn lemma_peers_exclude_self(ns: Seq<Seq<u8>>, own: Seq<u8>)
    ensures
        !keep_except(ns, own).contains(own),
        forall|x: Seq<u8>| #[trigger] keep_except(ns, own).contains(x) ==> ns.contains(x),
        forall|x: Seq<u8>| x != own && ns.contains(x) ==> #[trigger] keep_except(
            ns,
            own,
        ).contains(x),
    decreases ns.len(),
{
    if ns.len() == 0 {
    } else {
        lemma_peers_exclude_self(ns.drop_last(), own);
        let kd = keep_except(ns.drop_last(), own);
        let t = if ns.last() == own {
            Seq::<Seq<u8>>::empty()
        } else {
            seq![ns.last()]
        };
        assert(keep_except(ns, own) == kd + t);
        lemma_contains_concat(kd, t, own);
        assert(!t.contains(own)) by {
            if t.contains(own) {
                let k = choose|k: int| 0 <= k < t.len() && t[k] == own;
                assert(t[0] == ns.last());
            }
        }
        assert forall|x: Seq<u8>| #[trigger] (kd + t).contains(x) implies ns.contains(x) by {
            lemma_contains_concat(kd, t, x);
            lemma_contains_drop_last(ns, x);
            if t.contains(x) {
                let k = choose|k: int| 0 <= k < t.len() && t[k] == x;
                assert(t[0] == ns.last());
            }
        }
        assert forall|x: Seq<u8>| x != own && ns.contains(x) implies #[trigger] (kd
            + t).contains(x) by {
            lemma_contains_concat(kd, t, x);
            lemma_contains_drop_last(ns, x);
            if ns.last() == x {
                assert(t[0] == x);
                assert(t.contains(x));
            }
        }
    }
}

} // verus!
